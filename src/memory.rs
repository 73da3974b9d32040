use vstd::prelude::*;

verus! {

/// A run of bytes copied out of the target's address space, starting at `base`.
pub struct MemoryRegion {
    pub base: u64,
    pub bytes: Vec<u8>,
}

/// Local copies of remote memory regions.
///
/// Reads are best-effort: a byte that no region holds reads as zero, as a
/// failed remote copy leaves a zeroed local buffer as it was. Where regions
/// overlap, the one added last wins.
pub struct MemoryImage {
    pub regions: Vec<MemoryRegion>,
}

impl MemoryRegion {
    pub open spec fn covers(&self, a: int) -> bool {
        &&& self.base <= a < self.base + self.bytes@.len()
        &&& a <= u64::MAX
    }
}

/// The byte at address `a` as the regions hold it, the last region first.
pub open spec fn byte_in(regions: Seq<MemoryRegion>, a: int) -> u8
    decreases regions.len(),
{
    if regions.len() == 0 {
        0
    } else if regions.last().covers(a) {
        regions.last().bytes@[a - regions.last().base]
    } else {
        byte_in(regions.drop_last(), a)
    }
}

impl MemoryImage {
    pub open spec fn byte_at(&self, a: int) -> u8 {
        byte_in(self.regions@, a)
    }

    pub open spec fn bytes_at(&self, a: int, n: nat) -> Seq<u8> {
        Seq::new(n, |i: int| self.byte_at(a + i))
    }

    /// Little-endian 16-bit word at `a`.
    #[verifier::opaque]
    pub open spec fn u16_at(&self, a: int) -> u16 {
        (self.byte_at(a) as int + self.byte_at(a + 1) as int * 0x100) as u16
    }

    /// Little-endian 32-bit word at `a`.
    #[verifier::opaque]
    pub open spec fn u32_at(&self, a: int) -> u32 {
        (self.u16_at(a) as int + self.u16_at(a + 2) as int * 0x10000) as u32
    }

    /// Little-endian 64-bit word at `a`.
    #[verifier::opaque]
    pub open spec fn u64_at(&self, a: int) -> u64 {
        (self.u32_at(a) as int + self.u32_at(a + 4) as int * 0x1_0000_0000) as u64
    }

    pub open spec fn i32_at(&self, a: int) -> i32 {
        self.u32_at(a) as i32
    }

    pub open spec fn i16_at(&self, a: int) -> i16 {
        self.u16_at(a) as i16
    }

    /// An image that holds no region: every byte reads as zero.
    pub fn new() -> (r: Self)
        ensures
            r.regions@.len() == 0,
    {
        MemoryImage { regions: Vec::new() }
    }

    /// Adds a copy of `bytes` taken at remote address `base`.
    pub fn add_region(&mut self, base: u64, bytes: Vec<u8>)
        ensures
            final(self).regions@ == old(self).regions@.push(MemoryRegion { base, bytes }),
    {
        self.regions.push(MemoryRegion { base, bytes });
    }

    /// The byte at `address`.
    pub fn read_byte(&self, address: u64) -> (r: u8)
        ensures
            r == self.byte_at(address as int),
    {
        let mut i: usize = self.regions.len();
        assert(self.regions@.subrange(0, i as int) =~= self.regions@);
        while i > 0
            invariant
                i <= self.regions@.len(),
                byte_in(self.regions@.subrange(0, i as int), address as int) == self.byte_at(
                    address as int,
                ),
            decreases i,
        {
            let ghost prefix = self.regions@.subrange(0, i as int);
            i = i - 1;
            assert(prefix.drop_last() =~= self.regions@.subrange(0, i as int));
            assert(prefix.last() == self.regions@[i as int]);
            let region = &self.regions[i];
            if region.base <= address && address - region.base < region.bytes.len() as u64 {
                return region.bytes[(address - region.base) as usize];
            }
        }
        0
    }

    /// The byte `k` places past `address`; zero past the end of the address space.
    fn read_byte_past(&self, address: u64, k: u64) -> (r: u8)
        ensures
            r == self.byte_at(address + k),
    {
        if address <= u64::MAX - k {
            self.read_byte(address + k)
        } else {
            proof {
                lemma_nothing_past_end(self.regions@, address + k);
            }
            0
        }
    }

    /// Copies `len` bytes starting at `address`.
    pub fn read_bytes(&self, address: u64, len: usize) -> (r: Vec<u8>)
        ensures
            r@ == self.bytes_at(address as int, len as nat),
    {
        let r = self.read_bytes_at(address, 0, len);
        assert(r@ =~= self.bytes_at(address as int, len as nat));
        r
    }

    /// Copies `len` bytes starting `offset` bytes past `base`.
    pub fn read_bytes_at(&self, base: u64, offset: u64, len: usize) -> (r: Vec<u8>)
        ensures
            r@ == self.bytes_at(base + offset, len as nat),
    {
        let mut out: Vec<u8> = Vec::new();
        let mut i: usize = 0;
        while i < len
            invariant
                i <= len,
                out@ == self.bytes_at(base + offset, i as nat),
            decreases len - i,
        {
            let b = if offset <= u64::MAX - i as u64 {
                self.read_byte_past(base, offset + i as u64)
            } else {
                proof {
                    lemma_nothing_past_end(self.regions@, base + offset + i);
                }
                0
            };
            out.push(b);
            i = i + 1;
            assert(out@ =~= self.bytes_at(base + offset, i as nat));
        }
        out
    }

    /// The 16-bit word `offset` bytes past `base`.
    pub fn read_u16_at(&self, base: u64, offset: u64) -> (r: u16)
        ensures
            r == self.u16_at(base + offset),
    {
        if base <= u64::MAX - offset {
            self.read_u16(base + offset)
        } else {
            proof {
                lemma_words_past_end(self, base + offset);
            }
            0
        }
    }

    /// The 32-bit word `offset` bytes past `base`.
    pub fn read_u32_at(&self, base: u64, offset: u64) -> (r: u32)
        ensures
            r == self.u32_at(base + offset),
    {
        if base <= u64::MAX - offset {
            self.read_u32(base + offset)
        } else {
            proof {
                lemma_words_past_end(self, base + offset);
            }
            0
        }
    }

    /// The 64-bit word `offset` bytes past `base`.
    pub fn read_u64_at(&self, base: u64, offset: u64) -> (r: u64)
        ensures
            r == self.u64_at(base + offset),
    {
        if base <= u64::MAX - offset {
            self.read_u64(base + offset)
        } else {
            proof {
                lemma_words_past_end(self, base + offset);
            }
            0
        }
    }

    pub fn read_i32_at(&self, base: u64, offset: u64) -> (r: i32)
        ensures
            r == self.i32_at(base + offset),
    {
        self.read_u32_at(base, offset) as i32
    }

    pub fn read_i16_at(&self, base: u64, offset: u64) -> (r: i16)
        ensures
            r == self.i16_at(base + offset),
    {
        self.read_u16_at(base, offset) as i16
    }

    pub fn read_u16(&self, address: u64) -> (r: u16)
        ensures
            r == self.u16_at(address as int),
    {
        reveal(MemoryImage::u16_at);
        let b0 = self.read_byte_past(address, 0);
        let b1 = self.read_byte_past(address, 1);
        b0 as u16 + b1 as u16 * 0x100
    }

    pub fn read_u32(&self, address: u64) -> (r: u32)
        ensures
            r == self.u32_at(address as int),
    {
        reveal(MemoryImage::u32_at);
        reveal(MemoryImage::u16_at);
        let lo = self.read_u16(address);
        let hi = if address <= u64::MAX - 2 {
            self.read_u16(address + 2)
        } else {
            0
        };
        assert(address > u64::MAX - 2 ==> self.u16_at(address + 2) == 0) by {
            if address > u64::MAX - 2 {
                lemma_nothing_past_end(self.regions@, address + 2);
                lemma_nothing_past_end(self.regions@, address + 3);
            }
        }
        lo as u32 + hi as u32 * 0x10000
    }

    pub fn read_u64(&self, address: u64) -> (r: u64)
        ensures
            r == self.u64_at(address as int),
    {
        reveal(MemoryImage::u64_at);
        reveal(MemoryImage::u32_at);
        reveal(MemoryImage::u16_at);
        let lo = self.read_u32(address);
        let hi = if address <= u64::MAX - 4 {
            self.read_u32(address + 4)
        } else {
            0
        };
        assert(address > u64::MAX - 4 ==> self.u32_at(address + 4) == 0) by {
            if address > u64::MAX - 4 {
                lemma_nothing_past_end(self.regions@, address + 4);
                lemma_nothing_past_end(self.regions@, address + 5);
                lemma_nothing_past_end(self.regions@, address + 6);
                lemma_nothing_past_end(self.regions@, address + 7);
            }
        }
        lo as u64 + hi as u64 * 0x1_0000_0000
    }

    pub fn read_i32(&self, address: u64) -> (r: i32)
        ensures
            r == self.i32_at(address as int),
    {
        self.read_u32(address) as i32
    }

    pub fn read_i16(&self, address: u64) -> (r: i16)
        ensures
            r == self.i16_at(address as int),
    {
        self.read_u16(address) as i16
    }
}

/// Words that start past the end of the address space read as zero.
pub proof fn lemma_words_past_end(mem: &MemoryImage, a: int)
    requires
        a > u64::MAX,
    ensures
        mem.u16_at(a) == 0,
        mem.u32_at(a) == 0,
        mem.u64_at(a) == 0,
{
    reveal(MemoryImage::u64_at);
    reveal(MemoryImage::u32_at);
    reveal(MemoryImage::u16_at);
    lemma_nothing_past_end(mem.regions@, a);
    lemma_nothing_past_end(mem.regions@, a + 1);
    lemma_nothing_past_end(mem.regions@, a + 2);
    lemma_nothing_past_end(mem.regions@, a + 3);
    lemma_nothing_past_end(mem.regions@, a + 4);
    lemma_nothing_past_end(mem.regions@, a + 5);
    lemma_nothing_past_end(mem.regions@, a + 6);
    lemma_nothing_past_end(mem.regions@, a + 7);
}

/// No region holds a byte past the end of the address space.
pub proof fn lemma_nothing_past_end(regions: Seq<MemoryRegion>, a: int)
    requires
        a > u64::MAX,
    ensures
        byte_in(regions, a) == 0,
    decreases regions.len(),
{
    if regions.len() > 0 {
        lemma_nothing_past_end(regions.drop_last(), a);
    }
}

} // verus!
