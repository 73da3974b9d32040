use vstd::prelude::*;

use crate::memory::MemoryImage;

verus! {

/// A managed array object: a 32-bit element count and the 32-bit address of
/// its storage, whose elements begin `array_offset` bytes in.
#[derive(Clone, Copy, Debug, PartialEq, Eq, Structural)]
pub struct JavaArray {
    pub length: i32,
    pub array: i32,
    /// Remote address of the object.
    pub address: u64,
}

/// A direct buffer object: the 32-bit address of its native storage and its
/// element count.
#[derive(Clone, Copy, Debug, PartialEq, Eq, Structural)]
pub struct JavaBuffer {
    pub array: i32,
    pub length: i32,
    /// Remote address of the object.
    pub address: u64,
}

/// Bytes from the start of an array's storage to its first element.
pub const JAVA_ARRAY_DATA_OFFSET: i32 = 0x10;

/// Size of one element of a managed array of references.
pub const JAVA_REFERENCE_SIZE: u32 = 4;

pub open spec fn java_array_at(mem: &MemoryImage, a: u64) -> JavaArray {
    JavaArray { length: mem.i32_at(a + 16), array: mem.i32_at(a + 20), address: a }
}

pub open spec fn java_buffer_at(mem: &MemoryImage, a: u64) -> JavaBuffer {
    JavaBuffer { array: mem.i32_at(a + 16), length: mem.i32_at(a + 32), address: a }
}

impl JavaArray {
    /// Address of element `idx`: 32-bit arithmetic, as the target's compressed
    /// addresses use.
    pub open spec fn element_address(&self, idx: int) -> u32 {
        ((self.array as u32 + JAVA_ARRAY_DATA_OFFSET + JAVA_REFERENCE_SIZE * idx) % 0x1_0000_0000) as u32
    }

    /// Reads the array object at `address`.
    pub fn from_native(mem: &MemoryImage, address: u64) -> (r: Self)
        ensures
            r == java_array_at(mem, address),
    {
        JavaArray {
            length: mem.read_i32_at(address, 16),
            array: mem.read_i32_at(address, 20),
            address,
        }
    }

    pub fn array_offset(&self) -> (r: i32)
        ensures
            r == JAVA_ARRAY_DATA_OFFSET,
    {
        JAVA_ARRAY_DATA_OFFSET
    }

    /// Element `idx`, a 32-bit reference; `None` when `idx` is out of bounds.
    pub fn get_at(&self, mem: &MemoryImage, idx: i32) -> (r: Option<u32>)
        ensures
            match r {
                Some(v) => 0 <= idx < self.length && v == mem.u32_at(
                    self.element_address(idx as int) as int,
                ),
                None => !(0 <= idx < self.length),
            },
    {
        if idx < 0 || idx >= self.length {
            return None;
        }
        let base = (self.array as u32).wrapping_add(self.array_offset() as u32);
        let step = JAVA_REFERENCE_SIZE.wrapping_mul(idx as u32);
        let a = base.wrapping_add(step);
        let ghost start = self.array as u32;
        assert(a == ((start + JAVA_ARRAY_DATA_OFFSET + JAVA_REFERENCE_SIZE * idx) % 0x1_0000_0000) as u32)
            by (nonlinear_arith)
            requires
                0 <= idx,
                step == (JAVA_REFERENCE_SIZE * idx) % 0x1_0000_0000,
                base == (start + JAVA_ARRAY_DATA_OFFSET) % 0x1_0000_0000,
                a == (base + step) % 0x1_0000_0000,
        ;
        Some(mem.read_u32(a as u64))
    }
}

impl JavaBuffer {
    /// Address of the buffer's native storage.
    pub open spec fn data_address(&self) -> u64 {
        self.array as u32 as u64
    }

    /// Bytes the buffer spans with elements of `element_size` bytes; zero for a
    /// negative count or one whose span exceeds the address space.
    pub open spec fn byte_len(&self, element_size: usize) -> nat {
        if self.length <= 0 || self.length * element_size > usize::MAX {
            0
        } else {
            (self.length * element_size) as nat
        }
    }

    /// Reads the buffer object at `address`.
    pub fn from_native(mem: &MemoryImage, address: u64) -> (r: Self)
        ensures
            r == java_buffer_at(mem, address),
    {
        JavaBuffer {
            array: mem.read_i32_at(address, 16),
            length: mem.read_i32_at(address, 32),
            address,
        }
    }

    /// The buffer's contents as raw bytes, elements of `element_size` bytes.
    pub fn as_bytes(&self, mem: &MemoryImage, element_size: usize) -> (r: Vec<u8>)
        ensures
            r@ == mem.bytes_at(self.data_address() as int, self.byte_len(element_size)),
    {
        if self.length <= 0 {
            return Vec::new();
        }
        match (self.length as usize).checked_mul(element_size) {
            Some(n) => mem.read_bytes(self.array as u32 as u64, n),
            None => {
                let r: Vec<u8> = Vec::new();
                assert(r@ =~= mem.bytes_at(self.data_address() as int, 0));
                r
            },
        }
    }
}

} // verus!
