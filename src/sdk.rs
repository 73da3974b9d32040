use vstd::prelude::*;
use vstd::utf8::{decode_utf8, valid_utf8};

use crate::memory::MemoryImage;

verus! {

/// What `String::from_utf8_lossy` makes of a byte sequence.
pub uninterp spec fn lossy_text(b: Seq<u8>) -> Seq<char>;

/// Relies on `String::from_utf8_lossy`: bytes decoded as UTF-8, each invalid
/// sequence replaced by U+FFFD; valid UTF-8 comes back as it decodes.
#[verifier::external_body]
fn lossy_string(bytes: &[u8]) -> (r: String)
    ensures
        r@ == lossy_text(bytes@),
        valid_utf8(bytes@) ==> r@ == decode_utf8(bytes@),
{
    String::from_utf8_lossy(bytes).into_owned()
}

/// Bytes past a symbol's address where its text begins.
pub const SYMBOL_TEXT_OFFSET: u64 = 0x8;

/// Size of a constant pool's fixed header; its symbol slots follow it.
pub const CONSTANT_POOL_HEADER_SIZE: u64 = 0x50;

/// Bytes past an array's address where its elements begin (after the length).
pub const ARRAY_DATA_OFFSET: u64 = 0x4;

/// 16-bit words in one field-info record.
pub const FIELD_SLOTS: i32 = 6;

/// Header of the runtime's class dictionary: a hash table whose buckets hold
/// chains of entries.
#[derive(Clone, Copy, Debug, PartialEq, Eq, Structural)]
pub struct JVMDictionary {
    pub table_size: i32,
    /// Address of the array of bucket-head pointers.
    pub entries: u64,
    pub free_list: u64,
    pub free_entry: u64,
    pub end_block: u64,
    pub entry_size: i32,
    pub num_entries: i32,
}

/// One node of a bucket's chain.
#[derive(Clone, Copy, Debug, PartialEq, Eq, Structural)]
pub struct DictionaryEntry {
    pub hash: u64,
    /// Address of the next node; its lowest bit is a tag, not part of it.
    pub next: u64,
    /// Address of the class descriptor.
    pub klass: u64,
    pub loader: u64,
}

/// Header of a length-prefixed symbol; its text follows the header and is
/// not terminated.
#[derive(Clone, Copy, Debug, PartialEq, Eq, Structural)]
pub struct JSymbol {
    pub length: u16,
    pub identity: i16,
    /// Remote address of the symbol.
    pub address: u64,
}

/// A packed field-info record: six 16-bit words, indexed by `JFieldOffset`.
#[derive(Clone, Copy, Debug)]
pub struct JFieldInfo {
    pub shorts: [u16; 6],
}

/// The meaning of each word of a field-info record, and their count.
#[derive(Clone, Copy, Debug, PartialEq, Eq, Structural)]
pub enum JFieldOffset {
    AccessFlagsOffset,
    NameIndexOffset,
    SignatureIndexOffset,
    InitvalIndexOffset,
    LowPackedOffset,
    HighPackedOffset,
    FieldSlots,
}

/// A remote array: a 32-bit length followed by its elements.
#[derive(Clone, Copy, Debug, PartialEq, Eq, Structural)]
pub struct JArray {
    pub length: i32,
    pub element_size: u64,
    /// Remote address of the array.
    pub address: u64,
}

/// A class descriptor. Its pointers are remote addresses, never followed
/// unless asked.
#[derive(Clone, Copy, Debug, PartialEq, Eq, Structural)]
pub struct JClass {
    /// Remote address of the descriptor.
    pub address: u64,
    pub layout_helper: i32,
    pub super_check_offset: i32,
    pub symbol: u64,
    pub static_fields: u64,
    pub super_klass: u64,
    pub sub_klass: u64,
    pub next_sibling: u64,
    pub next_link: u64,
    pub classloader_data: u64,
    pub modifier_flags: i32,
    pub access_flags: i32,
    pub constant_pool: u64,
    pub methods: u64,
    pub fields: u64,
}

/// A constant pool header; its symbol table trails the header.
#[derive(Clone, Copy, Debug, PartialEq, Eq, Structural)]
pub struct JConstantPool {
    pub tags: u64,
    pub cache: u64,
    pub pool_holder: u64,
    pub operands: u64,
    pub resolved_klasses: u64,
    pub major: u16,
    pub minor: u16,
    pub length: i32,
    /// Remote address of the pool.
    pub address: u64,
}

/// A field of a class, with its name and type signature resolved.
pub struct FieldEntry {
    pub field_info: JFieldInfo,
    pub name: String,
    pub sig: String,
}

pub open spec fn dictionary_at(mem: &MemoryImage, a: int) -> JVMDictionary {
    JVMDictionary {
        table_size: mem.i32_at(a),
        entries: mem.u64_at(a + 8),
        free_list: mem.u64_at(a + 16),
        free_entry: mem.u64_at(a + 24),
        end_block: mem.u64_at(a + 32),
        entry_size: mem.i32_at(a + 40),
        num_entries: mem.i32_at(a + 44),
    }
}

pub open spec fn entry_at(mem: &MemoryImage, a: int) -> DictionaryEntry {
    DictionaryEntry {
        hash: mem.u64_at(a),
        next: mem.u64_at(a + 8),
        klass: mem.u64_at(a + 16),
        loader: mem.u64_at(a + 24),
    }
}

pub open spec fn symbol_at(mem: &MemoryImage, a: u64) -> JSymbol {
    JSymbol { length: mem.u16_at(a as int), identity: mem.i16_at(a + 2), address: a }
}

/// The text of a symbol: exactly `length` bytes after its header, decoded lossily.
pub open spec fn symbol_text(mem: &MemoryImage, s: JSymbol) -> Seq<char> {
    lossy_text(mem.bytes_at(s.address + SYMBOL_TEXT_OFFSET, s.length as nat))
}

pub open spec fn field_info_at(mem: &MemoryImage, a: int) -> JFieldInfo {
    JFieldInfo {
        shorts: [
            mem.u16_at(a),
            mem.u16_at(a + 2),
            mem.u16_at(a + 4),
            mem.u16_at(a + 6),
            mem.u16_at(a + 8),
            mem.u16_at(a + 10),
        ],
    }
}

pub open spec fn array_at(mem: &MemoryImage, a: u64, element_size: u64) -> JArray {
    JArray { length: mem.i32_at(a as int), element_size, address: a }
}

pub open spec fn class_at(mem: &MemoryImage, a: u64) -> JClass {
    JClass {
        address: a,
        layout_helper: mem.i32_at(a + 8),
        super_check_offset: mem.i32_at(a + 12),
        symbol: mem.u64_at(a + 16),
        static_fields: mem.u64_at(a + 104),
        super_klass: mem.u64_at(a + 112),
        sub_klass: mem.u64_at(a + 120),
        next_sibling: mem.u64_at(a + 128),
        next_link: mem.u64_at(a + 136),
        classloader_data: mem.u64_at(a + 144),
        modifier_flags: mem.i32_at(a + 152),
        access_flags: mem.i32_at(a + 156),
        constant_pool: mem.u64_at(a + 216),
        methods: mem.u64_at(a + 384),
        fields: mem.u64_at(a + 432),
    }
}

pub open spec fn constant_pool_at(mem: &MemoryImage, a: u64) -> JConstantPool {
    JConstantPool {
        tags: mem.u64_at(a + 8),
        cache: mem.u64_at(a + 16),
        pool_holder: mem.u64_at(a + 24),
        operands: mem.u64_at(a + 32),
        resolved_klasses: mem.u64_at(a + 40),
        major: mem.u16_at(a + 48),
        minor: mem.u16_at(a + 50),
        length: mem.i32_at(a + 60),
        address: a,
    }
}

impl JVMDictionary {
    /// Reads the dictionary header at `address`.
    pub fn from_native(mem: &MemoryImage, address: u64) -> (r: Self)
        ensures
            r == dictionary_at(mem, address as int),
    {
        JVMDictionary {
            table_size: mem.read_i32_at(address, 0),
            entries: mem.read_u64_at(address, 8),
            free_list: mem.read_u64_at(address, 16),
            free_entry: mem.read_u64_at(address, 24),
            end_block: mem.read_u64_at(address, 32),
            entry_size: mem.read_i32_at(address, 40),
            num_entries: mem.read_i32_at(address, 44),
        }
    }

    pub open spec fn empty_spec() -> Self {
        JVMDictionary {
            table_size: 0,
            entries: 0,
            free_list: 0,
            free_entry: 0,
            end_block: 0,
            entry_size: 0,
            num_entries: 0,
        }
    }

    /// A dictionary with no bucket.
    pub fn empty() -> (r: Self)
        ensures
            r == Self::empty_spec(),
    {
        JVMDictionary {
            table_size: 0,
            entries: 0,
            free_list: 0,
            free_entry: 0,
            end_block: 0,
            entry_size: 0,
            num_entries: 0,
        }
    }
}

impl Default for JVMDictionary {
    /// A dictionary with no bucket.
    fn default() -> (r: Self)
        ensures
            r == JVMDictionary::empty_spec(),
    {
        JVMDictionary::empty()
    }
}

impl DictionaryEntry {
    pub open spec fn next_spec(&self) -> u64 {
        (self.next - self.next % 2) as u64
    }

    /// Reads the entry at `address`.
    pub fn from_native(mem: &MemoryImage, address: u64) -> (r: Self)
        ensures
            r == entry_at(mem, address as int),
    {
        DictionaryEntry {
            hash: mem.read_u64_at(address, 0),
            next: mem.read_u64_at(address, 8),
            klass: mem.read_u64_at(address, 16),
            loader: mem.read_u64_at(address, 24),
        }
    }

    /// Address of the next node, with the tag bit masked off.
    pub fn next(&self) -> (r: u64)
        ensures
            r == self.next_spec(),
    {
        let n = self.next;
        assert(n & 0xFFFF_FFFF_FFFF_FFFE == n - n % 2) by (bit_vector);
        n & 0xFFFF_FFFF_FFFF_FFFE
    }
}

impl JSymbol {
    /// Reads the symbol header at `address`.
    pub fn from_native(mem: &MemoryImage, address: u64) -> (r: Self)
        ensures
            r == symbol_at(mem, address),
    {
        JSymbol {
            length: mem.read_u16_at(address, 0),
            identity: mem.read_i16_at(address, 2),
            address,
        }
    }

    /// The symbol's text: `length` bytes after the header, decoded lossily,
    /// whatever the bytes hold.
    pub fn to_string(&self, mem: &MemoryImage) -> (r: String)
        ensures
            r@ == symbol_text(mem, *self),
    {
        let bytes = mem.read_bytes_at(self.address, SYMBOL_TEXT_OFFSET, self.length as usize);
        lossy_string(bytes.as_slice())
    }
}

impl JFieldOffset {
    pub open spec fn spec_value(&self) -> i32 {
        match *self {
            JFieldOffset::AccessFlagsOffset => 0,
            JFieldOffset::NameIndexOffset => 1,
            JFieldOffset::SignatureIndexOffset => 2,
            JFieldOffset::InitvalIndexOffset => 3,
            JFieldOffset::LowPackedOffset => 4,
            JFieldOffset::HighPackedOffset => 5,
            JFieldOffset::FieldSlots => 6,
        }
    }

    /// Index of the word in a record; for `FieldSlots`, the record's length.
    pub fn value(&self) -> (r: i32)
        ensures
            r == self.spec_value(),
    {
        match *self {
            JFieldOffset::AccessFlagsOffset => 0,
            JFieldOffset::NameIndexOffset => 1,
            JFieldOffset::SignatureIndexOffset => 2,
            JFieldOffset::InitvalIndexOffset => 3,
            JFieldOffset::LowPackedOffset => 4,
            JFieldOffset::HighPackedOffset => 5,
            JFieldOffset::FieldSlots => 6,
        }
    }
}

impl JFieldInfo {
    pub open spec fn low_packed(&self) -> u16 {
        self.shorts[4]
    }

    pub open spec fn high_packed(&self) -> u16 {
        self.shorts[5]
    }

    /// The byte offset the record encodes: its packed 32-bit value without the
    /// two low flag bits.
    pub open spec fn offset_spec(&self) -> u64 {
        ((self.high_packed() as int * 0x10000 + self.low_packed() as int) / 4) as u64
    }

    pub fn new(shorts: [u16; 6]) -> (r: Self)
        ensures
            r.shorts == shorts,
    {
        JFieldInfo { shorts }
    }

    /// Reads the record at `address`.
    pub fn from_native(mem: &MemoryImage, address: u64) -> (r: Self)
        ensures
            r == field_info_at(mem, address as int),
    {
        JFieldInfo {
            shorts: [
                mem.read_u16_at(address, 0),
                mem.read_u16_at(address, 2),
                mem.read_u16_at(address, 4),
                mem.read_u16_at(address, 6),
                mem.read_u16_at(address, 8),
                mem.read_u16_at(address, 10),
            ],
        }
    }

    /// The 32-bit value whose low half is `low` and high half `high`.
    pub fn build_int_from_shorts(&self, low: u16, high: u16) -> (r: u32)
        ensures
            r == high as int * 0x10000 + low as int,
    {
        high as u32 * 0x10000 + low as u32
    }

    /// The field's byte offset.
    pub fn offset(&self) -> (r: u64)
        ensures
            r == self.offset_spec(),
            r == (self.high_packed() as int * 0x10000 + self.low_packed() as int) / 4,
    {
        let packed = self.build_int_from_shorts(
            self.shorts[JFieldOffset::LowPackedOffset.value() as usize],
            self.shorts[JFieldOffset::HighPackedOffset.value() as usize],
        );
        (packed / 4) as u64
    }

    /// Whether the record's "has explicit offset" flag (bit 0 of the low word) is set.
    pub fn has_offset(&self) -> (r: bool)
        ensures
            r == (self.low_packed() % 2 == 1),
    {
        self.shorts[JFieldOffset::LowPackedOffset.value() as usize] % 2 == 1
    }

    /// Index of the field's name in the constant pool.
    pub fn name_idx(&self) -> (r: u16)
        ensures
            r == self.shorts[1],
    {
        self.shorts[JFieldOffset::NameIndexOffset.value() as usize]
    }

    /// Index of the field's type signature in the constant pool.
    pub fn sig_idx(&self) -> (r: u16)
        ensures
            r == self.shorts[2],
    {
        self.shorts[JFieldOffset::SignatureIndexOffset.value() as usize]
    }
}

impl JArray {
    /// Address of element `i`, or zero when `i` is out of bounds.
    pub open spec fn adr_at_spec(&self, i: int) -> u64 {
        if 0 <= i < self.length {
            ((self.address + ARRAY_DATA_OFFSET + self.element_size * i) % 0x1_0000_0000_0000_0000) as u64
        } else {
            0
        }
    }

    /// Reads the header of the array at `address`, whose elements are
    /// `element_size` bytes each.
    pub fn from_native(mem: &MemoryImage, address: u64, element_size: u64) -> (r: Self)
        ensures
            r == array_at(mem, address, element_size),
    {
        JArray { length: mem.read_i32_at(address, 0), element_size, address }
    }

    pub fn is_empty(&self) -> (r: bool)
        ensures
            r == (self.length == 0),
    {
        self.length == 0
    }

    /// Remote address of element `i`, or zero when `i` is out of bounds.
    pub fn adr_at(&self, i: i32) -> (r: u64)
        ensures
            r == self.adr_at_spec(i as int),
    {
        if i >= 0 && i < self.length {
            let step = self.element_size.wrapping_mul(i as u64);
            let r = self.address.wrapping_add(ARRAY_DATA_OFFSET).wrapping_add(step);
            assert(r == ((self.address + ARRAY_DATA_OFFSET + self.element_size * i)
                % 0x1_0000_0000_0000_0000) as u64) by (nonlinear_arith)
                requires
                    step == (self.element_size * i) % 0x1_0000_0000_0000_0000,
                    r == ((((self.address + ARRAY_DATA_OFFSET) % 0x1_0000_0000_0000_0000) + step)
                        % 0x1_0000_0000_0000_0000),
            ;
            r
        } else {
            0
        }
    }

    /// The bytes of element `i`, or `None` when `i` is out of bounds.
    pub fn at(&self, mem: &MemoryImage, i: i32) -> (r: Option<Vec<u8>>)
        requires
            self.element_size <= usize::MAX,
        ensures
            match r {
                Some(v) => 0 <= i < self.length && v@ == mem.bytes_at(
                    self.adr_at_spec(i as int) as int,
                    self.element_size as nat,
                ),
                None => !(0 <= i < self.length),
            },
    {
        if i >= 0 && i < self.length {
            let a = self.adr_at(i);
            Some(mem.read_bytes(a, self.element_size as usize))
        } else {
            None
        }
    }
}

impl JConstantPool {
    /// Address of the slot holding symbol `which`: the slots trail the header.
    pub open spec fn symbol_slot(&self, which: int) -> u64 {
        ((self.address + CONSTANT_POOL_HEADER_SIZE + 8 * which) % 0x1_0000_0000_0000_0000) as u64
    }

    /// Reads the constant pool at `address`.
    pub fn from_native(mem: &MemoryImage, address: u64) -> (r: Self)
        ensures
            r == constant_pool_at(mem, address),
    {
        JConstantPool {
            tags: mem.read_u64_at(address, 8),
            cache: mem.read_u64_at(address, 16),
            pool_holder: mem.read_u64_at(address, 24),
            operands: mem.read_u64_at(address, 32),
            resolved_klasses: mem.read_u64_at(address, 40),
            major: mem.read_u16_at(address, 48),
            minor: mem.read_u16_at(address, 50),
            length: mem.read_i32_at(address, 60),
            address,
        }
    }

    /// Size of the fixed header.
    pub fn size(&self) -> (r: usize)
        ensures
            r == CONSTANT_POOL_HEADER_SIZE,
    {
        CONSTANT_POOL_HEADER_SIZE as usize
    }

    /// Remote address of the slot holding symbol `which`.
    pub fn symbol_address(&self, which: u16) -> (r: u64)
        ensures
            r == self.symbol_slot(which as int),
    {
        let step = 8 * which as u64;
        let r = self.address.wrapping_add(CONSTANT_POOL_HEADER_SIZE).wrapping_add(step);
        assert(r == ((self.address + CONSTANT_POOL_HEADER_SIZE + 8 * which)
            % 0x1_0000_0000_0000_0000) as u64);
        r
    }

    /// Symbol `which`, or `None` when its slot holds a null pointer.
    pub fn symbol(&self, mem: &MemoryImage, which: u16) -> (r: Option<JSymbol>)
        ensures
            r == pool_symbol(mem, *self, which as int),
    {
        let slot = self.symbol_address(which);
        let pointer = mem.read_u64(slot);
        if pointer != 0 {
            Some(JSymbol::from_native(mem, pointer))
        } else {
            None
        }
    }
}

/// Symbol `which` of a constant pool, `None` where its slot is null.
pub open spec fn pool_symbol(mem: &MemoryImage, cp: JConstantPool, which: int) -> Option<JSymbol> {
    let pointer = mem.u64_at(cp.symbol_slot(which) as int);
    if pointer != 0 {
        Some(symbol_at(mem, pointer))
    } else {
        None
    }
}

/// A field as record, name and signature.
pub type FieldView = (JFieldInfo, Seq<char>, Seq<char>);

/// The field a record describes, its name and signature looked up in the
/// constant pool; `None` where either symbol slot is null.
pub open spec fn field_entry_spec(mem: &MemoryImage, info: JFieldInfo, cp: JConstantPool) -> Option<
    FieldView,
> {
    match (pool_symbol(mem, cp, info.shorts[1] as int), pool_symbol(mem, cp, info.shorts[2] as int)) {
        (Some(n), Some(s)) => Some((info, symbol_text(mem, n), symbol_text(mem, s))),
        _ => None,
    }
}

/// Number of records a field array of `length` words holds, a partial one included.
pub open spec fn record_count(length: i32) -> int {
    if length <= 0 {
        0
    } else {
        (length + 5) / 6
    }
}

/// The fields described by the first `n` records of `arr`, skipping records at
/// address zero and those whose symbols are null.
pub open spec fn fields_upto(mem: &MemoryImage, arr: JArray, cp: JConstantPool, n: int) -> Seq<
    FieldView,
>
    decreases n,
{
    if n <= 0 {
        Seq::empty()
    } else {
        let prev = fields_upto(mem, arr, cp, n - 1);
        let a = arr.adr_at_spec(6 * (n - 1));
        if a == 0 {
            prev
        } else {
            match field_entry_spec(mem, field_info_at(mem, a as int), cp) {
                Some(f) => prev.push(f),
                None => prev,
            }
        }
    }
}

/// The fields of a class, in declaration order.
pub open spec fn class_fields(mem: &MemoryImage, class: JClass) -> Seq<FieldView> {
    let arr = array_at(mem, class.fields, 2);
    let cp = constant_pool_at(mem, class.constant_pool);
    fields_upto(mem, arr, cp, record_count(arr.length))
}

pub open spec fn field_named(f: FieldView, name: Seq<char>, sig: Seq<char>) -> bool {
    f.1 == name && f.2 == sig
}

/// The first field of `fs` with this name and signature.
pub open spec fn find_named(fs: Seq<FieldView>, name: Seq<char>, sig: Seq<char>) -> Option<FieldView>
    decreases fs.len(),
{
    if fs.len() == 0 {
        None
    } else if field_named(fs[0], name, sig) {
        Some(fs[0])
    } else {
        find_named(fs.drop_first(), name, sig)
    }
}

impl View for FieldEntry {
    type V = FieldView;

    open spec fn view(&self) -> FieldView {
        (self.field_info, self.name@, self.sig@)
    }
}

impl FieldEntry {
    /// Resolves the record's name and signature through the constant pool;
    /// `None` where either symbol slot is null.
    pub fn new(jinfo: JFieldInfo, constant_pool: &JConstantPool, mem: &MemoryImage) -> (r: Option<
        Self,
    >)
        ensures
            r matches Some(f) ==> field_entry_spec(mem, jinfo, *constant_pool) == Some(f@),
            r is None ==> field_entry_spec(mem, jinfo, *constant_pool) is None,
    {
        let name = match constant_pool.symbol(mem, jinfo.name_idx()) {
            Some(s) => s,
            None => return None,
        };
        let signature = match constant_pool.symbol(mem, jinfo.sig_idx()) {
            Some(s) => s,
            None => return None,
        };
        Some(FieldEntry { field_info: jinfo, name: name.to_string(mem), sig: signature.to_string(mem) })
    }

    /// Whether the field has this name and type signature (case-sensitive).
    pub fn matches(&self, name: &str, sig: &str) -> (r: bool)
        ensures
            r == field_named(self@, name@, sig@),
    {
        let name = name.to_owned();
        let sig = sig.to_owned();
        self.name == name && self.sig == sig
    }
}

/// The byte offset of the first field of `class` with this name and signature.
pub open spec fn field_offset_spec(mem: &MemoryImage, class: JClass, name: Seq<char>, sig: Seq<
    char,
>) -> Option<u64> {
    match find_named(class_fields(mem, class), name, sig) {
        Some(f) => Some(f.0.offset_spec()),
        None => None,
    }
}

/// `base + offset` in the 64-bit address space.
pub open spec fn address_plus(base: u64, offset: u64) -> u64 {
    ((base + offset) % 0x1_0000_0000_0000_0000) as u64
}

/// `base + offset` in the 64-bit address space.
pub fn add_offset(base: u64, offset: u64) -> (r: u64)
    ensures
        r == address_plus(base, offset),
{
    base.wrapping_add(offset)
}

impl JClass {
    /// The byte offset of the field with this name and type signature.
    pub fn field_offset(&self, mem: &MemoryImage, name: &str, sig: &str) -> (r: Option<u64>)
        ensures
            r == field_offset_spec(mem, *self, name@, sig@),
    {
        match self.find_field_entry(mem, name, sig) {
            Some(f) => Some(f.field_info.offset()),
            None => None,
        }
    }

    /// Reads the class descriptor at `address`.
    pub fn from_native(mem: &MemoryImage, address: u64) -> (r: Self)
        ensures
            r == class_at(mem, address),
    {
        JClass {
            address,
            layout_helper: mem.read_i32_at(address, 8),
            super_check_offset: mem.read_i32_at(address, 12),
            symbol: mem.read_u64_at(address, 16),
            static_fields: mem.read_u64_at(address, 104),
            super_klass: mem.read_u64_at(address, 112),
            sub_klass: mem.read_u64_at(address, 120),
            next_sibling: mem.read_u64_at(address, 128),
            next_link: mem.read_u64_at(address, 136),
            classloader_data: mem.read_u64_at(address, 144),
            modifier_flags: mem.read_i32_at(address, 152),
            access_flags: mem.read_i32_at(address, 156),
            constant_pool: mem.read_u64_at(address, 216),
            methods: mem.read_u64_at(address, 384),
            fields: mem.read_u64_at(address, 432),
        }
    }

    /// The class's fields, in declaration order: one per record of its field
    /// array, skipping records at address zero and those whose name or
    /// signature slot is null.
    pub fn iterate_fields(&self, mem: &MemoryImage) -> (r: Vec<FieldEntry>)
        ensures
            r@.map_values(|f: FieldEntry| f@) == class_fields(mem, *self),
    {
        let fields_array = JArray::from_native(mem, self.fields, 2);
        let constant_pool = JConstantPool::from_native(mem, self.constant_pool);
        let count: i32 = if fields_array.length <= 0 {
            0
        } else {
            ((fields_array.length as i64 + 5) / 6) as i32
        };
        let mut fields: Vec<FieldEntry> = Vec::new();
        let mut k: i32 = 0;
        while k < count
            invariant
                fields_array == array_at(mem, self.fields, 2),
                constant_pool == constant_pool_at(mem, self.constant_pool),
                count == record_count(fields_array.length),
                0 <= k <= count,
                fields@.map_values(|f: FieldEntry| f@) == fields_upto(
                    mem,
                    fields_array,
                    constant_pool,
                    k as int,
                ),
            decreases count - k,
        {
            let a = fields_array.adr_at(6 * k);
            if a != 0 {
                let info = JFieldInfo::from_native(mem, a);
                match FieldEntry::new(info, &constant_pool, mem) {
                    Some(f) => {
                        fields.push(f);
                    },
                    None => {},
                }
            }
            k = k + 1;
            assert(fields@.map_values(|f: FieldEntry| f@) =~= fields_upto(
                mem,
                fields_array,
                constant_pool,
                k as int,
            ));
        }
        fields
    }

    /// The first field with this name and type signature.
    pub fn find_field_entry(&self, mem: &MemoryImage, name: &str, sig: &str) -> (r: Option<
        FieldEntry,
    >)
        ensures
            r matches Some(f) ==> find_named(class_fields(mem, *self), name@, sig@) == Some(f@),
            r is None ==> find_named(class_fields(mem, *self), name@, sig@) is None,
    {
        let mut fields = self.iterate_fields(mem);
        let ghost fs = fields@.map_values(|f: FieldEntry| f@);
        let mut i: usize = 0;
        assert(fs.subrange(0, fs.len() as int) =~= fs);
        while i < fields.len()
            invariant
                fs == fields@.map_values(|f: FieldEntry| f@),
                fs == class_fields(mem, *self),
                i <= fields@.len(),
                find_named(fs, name@, sig@) == find_named(fs.subrange(i as int, fs.len() as int), name@, sig@),
            decreases fields@.len() - i,
        {
            let ghost rest = fs.subrange(i as int, fs.len() as int);
            assert(rest[0] == fields@[i as int]@);
            if fields[i].matches(name, sig) {
                return Some(fields.swap_remove(i));
            }
            assert(rest.drop_first() =~= fs.subrange(i + 1, fs.len() as int));
            i = i + 1;
        }
        None
    }
}

} // verus!
