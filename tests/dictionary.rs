use ether::dictionary::{
    collect_all_classes, find_class, iterate_classes, locate_dictionary, rip_relative_target,
    ClassIndex, MAX_PATH,
};
use ether::memory::{MemoryImage, MemoryRegion};
use ether::offsets::OffsetCache;
use ether::sdk::{JClass, JVMDictionary};

const SIZE: usize = 0x80000;

struct Target {
    buf: Vec<u8>,
}

impl Target {
    fn new() -> Self {
        Target { buf: vec![0u8; SIZE] }
    }

    fn u16(&mut self, at: u64, v: u16) {
        let at = at as usize;
        self.buf[at..at + 2].copy_from_slice(&v.to_le_bytes());
    }

    fn i32(&mut self, at: u64, v: i32) {
        let at = at as usize;
        self.buf[at..at + 4].copy_from_slice(&v.to_le_bytes());
    }

    fn u64(&mut self, at: u64, v: u64) {
        let at = at as usize;
        self.buf[at..at + 8].copy_from_slice(&v.to_le_bytes());
    }

    fn bytes(&mut self, at: u64, b: &[u8]) {
        let at = at as usize;
        self.buf[at..at + b.len()].copy_from_slice(b);
    }

    fn dictionary(&mut self, at: u64, table_size: i32, buckets: u64) {
        self.i32(at, table_size);
        self.u64(at + 8, buckets);
    }

    fn entry(&mut self, at: u64, hash: u64, next: u64, klass: u64) {
        self.u64(at, hash);
        self.u64(at + 8, next);
        self.u64(at + 16, klass);
    }

    fn symbol(&mut self, at: u64, text: &[u8]) {
        self.u16(at, text.len() as u16);
        self.bytes(at + 8, text);
    }

    fn image(self) -> MemoryImage {
        MemoryImage { regions: vec![MemoryRegion { base: 0, bytes: self.buf }] }
    }
}

/// A class at `at` named by the symbol at `at + 0x800`, its constant pool at
/// `at + 0x1000` and a field array of two records at `at + 0x2000`.
fn class_with_two_fields(t: &mut Target, at: u64, name: &[u8], fields: [(&[u8], &[u8], u16); 2]) {
    let symbol = at + 0x800;
    let pool = at + 0x1000;
    let array = at + 0x2000;
    t.u64(at + 16, symbol);
    t.u64(at + 104, 0x7_0000);
    t.u64(at + 216, pool);
    t.u64(at + 432, array);
    t.symbol(symbol, name);
    t.i32(array, 12);
    let mut text = at + 0x3000;
    for (k, (fname, fsig, low)) in fields.iter().enumerate() {
        let name_idx = (2 * k + 1) as u16;
        let sig_idx = (2 * k + 2) as u16;
        t.u64(pool + 0x50 + 8 * name_idx as u64, text);
        t.symbol(text, fname);
        text += 0x40;
        t.u64(pool + 0x50 + 8 * sig_idx as u64, text);
        t.symbol(text, fsig);
        text += 0x40;
        let record = array + 4 + 12 * k as u64;
        t.u16(record + 2, name_idx);
        t.u16(record + 4, sig_idx);
        t.u16(record + 8, *low);
    }
}

#[test]
fn chain_in_one_bucket_and_lone_heads() {
    // Four buckets; bucket 2 holds a chain of three nodes whose links carry the tag bit.
    let mut t = Target::new();
    t.dictionary(0x100, 4, 0x200);
    t.u64(0x200, 0);
    t.u64(0x208, 0x1000);
    t.u64(0x210, 0x2000);
    t.u64(0x218, 0);
    t.entry(0x1000, 11, 0, 0x9000);
    t.entry(0x2000, 21, 0x2101, 0x9100);
    t.entry(0x2100, 22, 0x2201, 0x9200);
    t.entry(0x2200, 23, 0, 0x9300);
    let mem = t.image();
    let dict = JVMDictionary::from_native(&mem, 0x100);
    let entries = iterate_classes(&dict, &mem);
    assert_eq!(entries.len(), 3 + 4 - 1);
    let hashes: Vec<u64> = entries.iter().map(|e| e.hash).collect();
    assert_eq!(hashes, vec![0, 11, 21, 22, 23, 0]);
}

#[test]
fn cyclic_chain_stops_before_revisiting() {
    let mut t = Target::new();
    t.dictionary(0x100, 1, 0x200);
    t.u64(0x200, 0x1000);
    t.entry(0x1000, 1, 0x1101, 0x9000);
    t.entry(0x1100, 2, 0x1001, 0x9000);
    let mem = t.image();
    let dict = JVMDictionary::from_native(&mem, 0x100);
    let entries = iterate_classes(&dict, &mem);
    let hashes: Vec<u64> = entries.iter().map(|e| e.hash).collect();
    assert_eq!(hashes, vec![1, 2]);
}

#[test]
fn chain_stops_at_null_class() {
    let mut t = Target::new();
    t.dictionary(0x100, 1, 0x200);
    t.u64(0x200, 0x1000);
    t.entry(0x1000, 1, 0x1100, 0x9000);
    t.entry(0x1100, 2, 0x1200, 0);
    t.entry(0x1200, 3, 0, 0x9000);
    let mem = t.image();
    let dict = JVMDictionary::from_native(&mem, 0x100);
    assert_eq!(iterate_classes(&dict, &mem).len(), 2);
}

#[test]
fn empty_table_walks_nothing() {
    let mem = MemoryImage::new();
    let dict = JVMDictionary::empty();
    assert!(iterate_classes(&dict, &mem).is_empty());
    assert_eq!(collect_all_classes(&dict, &mem, MAX_PATH).len(), 0);
}

#[test]
fn two_chained_classes_with_two_fields_each() {
    let mut t = Target::new();
    t.dictionary(0x100, 1, 0x200);
    t.u64(0x200, 0x1000);
    t.entry(0x1000, 1, 0x1101, 0x10000);
    t.entry(0x1100, 2, 0, 0x20000);
    class_with_two_fields(&mut t, 0x10000, b"Foo", [(b"x", b"I", 0x41), (b"y", b"J", 0x60)]);
    class_with_two_fields(&mut t, 0x20000, b"Bar", [(b"s", b"D", 0x1004), (b"t", b"D", 0x0020)]);
    let mem = t.image();
    let dict = JVMDictionary::from_native(&mem, 0x100);
    let classes = collect_all_classes(&dict, &mem, MAX_PATH);
    assert_eq!(classes.len(), 2);

    let foo: JClass = find_class(&classes, "Foo").expect("Foo is indexed");
    assert_eq!(foo.address, 0x10000);
    let x = foo.find_field_entry(&mem, "x", "I").expect("x is declared");
    assert_eq!(x.field_info.offset(), 0x10);
    assert!(x.field_info.has_offset());
    let y = foo.find_field_entry(&mem, "y", "J").expect("y is declared");
    assert_eq!(y.field_info.offset(), 0x18);
    assert!(foo.find_field_entry(&mem, "x", "J").is_none());

    let bar = find_class(&classes, "Bar").expect("Bar is indexed");
    assert_eq!(bar.field_offset(&mem, "s", "D"), Some(0x401));
    assert_eq!(bar.field_offset(&mem, "t", "D"), Some(0x8));
    let names: Vec<String> = bar.iterate_fields(&mem).into_iter().map(|f| f.name).collect();
    assert_eq!(names, vec![String::from("s"), String::from("t")]);
    assert!(find_class(&classes, "Baz").is_none());
}

#[test]
fn long_or_missing_names_are_skipped() {
    let mut t = Target::new();
    t.dictionary(0x100, 1, 0x200);
    t.u64(0x200, 0x1000);
    t.entry(0x1000, 1, 0x1100, 0x10000);
    t.entry(0x1100, 2, 0x1200, 0x20000);
    t.entry(0x1200, 3, 0, 0x30000);
    t.u64(0x10000 + 16, 0x10800);
    t.symbol(0x10800, &[b'a'; 260]);
    t.u64(0x30000 + 16, 0x30800);
    t.symbol(0x30800, b"Kept");
    let mem = t.image();
    let dict = JVMDictionary::from_native(&mem, 0x100);
    let classes = collect_all_classes(&dict, &mem, MAX_PATH);
    assert_eq!(classes.len(), 1);
    assert_eq!(find_class(&classes, "Kept").map(|c| c.address), Some(0x30000));
    let wider = collect_all_classes(&dict, &mem, 300);
    assert_eq!(wider.len(), 2);
}

#[test]
fn later_class_of_one_name_wins() {
    let mut t = Target::new();
    t.dictionary(0x100, 1, 0x200);
    t.u64(0x200, 0x1000);
    t.entry(0x1000, 1, 0x1100, 0x10000);
    t.entry(0x1100, 2, 0, 0x20000);
    t.u64(0x10000 + 16, 0x10800);
    t.symbol(0x10800, b"Same");
    t.u64(0x20000 + 16, 0x20800);
    t.symbol(0x20800, b"Same");
    let mem = t.image();
    let dict = JVMDictionary::from_native(&mem, 0x100);
    let classes = collect_all_classes(&dict, &mem, MAX_PATH);
    assert_eq!(classes.len(), 1);
    assert_eq!(classes.get("Same").map(|c| c.address), Some(0x20000));
}

#[test]
fn class_index_replaces_on_insert() {
    let mut t = Target::new();
    t.u64(0x10000 + 16, 0x10800);
    let mem = t.image();
    let a = JClass::from_native(&mem, 0x10000);
    let b = JClass::from_native(&mem, 0x20000);
    let mut index = ClassIndex::new();
    index.insert(String::from("k"), a);
    index.insert(String::from("k"), b);
    index.insert(String::from("j"), a);
    assert_eq!(index.len(), 2);
    assert_eq!(index.get("k").map(|c| c.address), Some(0x20000));
    assert_eq!(index.get("j").map(|c| c.symbol), Some(0x10800));
}

#[test]
fn anchor_leads_to_dictionary() {
    let mut t = Target::new();
    // mov rcx, [rip + 0x1000] at 0x4000: the slot is at 0x4007 + 0x1000.
    t.bytes(0x4000, &[0x48, 0x8b, 0x0d]);
    t.i32(0x4003, 0x1000);
    t.u64(0x5007, 0x6000);
    t.dictionary(0x6000, 7, 0x7000);
    t.i32(0x6000 + 44, 5);
    let mem = t.image();
    let dict = locate_dictionary(&mem, 0x4000);
    assert_eq!(dict.table_size, 7);
    assert_eq!(dict.entries, 0x7000);
    assert_eq!(dict.num_entries, 5);
}

#[test]
fn rip_relative_displacement_may_be_negative() {
    assert_eq!(rip_relative_target(0x1000, -0x10), 0x0FF7);
    assert_eq!(rip_relative_target(0x1000, 0x10), 0x1017);
}

#[test]
fn offset_cache_resolves_once() {
    let mut t = Target::new();
    class_with_two_fields(&mut t, 0x10000, b"Foo", [(b"x", b"I", 0x41), (b"y", b"J", 0x60)]);
    let mem = t.image();
    let foo = JClass::from_native(&mem, 0x10000);
    let mut cache = OffsetCache::new();
    assert_eq!(cache.get("Foo", "y", "J"), None);
    assert_eq!(cache.resolve(&mem, "Foo", &foo, "y", "J"), Some(0x18));
    assert_eq!(cache.get("Foo", "y", "J"), Some(0x18));
    assert_eq!(cache.resolve(&mem, "Foo", &foo, "z", "J"), None);
    assert_eq!(cache.get("Foo", "z", "J"), None);
    let empty = MemoryImage::new();
    assert_eq!(cache.resolve(&empty, "Foo", &foo, "y", "J"), Some(0x18));
}

#[test]
fn tagged_and_untagged_links_walk_alike() {
    let build = |tag: u64| {
        let mut t = Target::new();
        t.dictionary(0x100, 2, 0x200);
        t.u64(0x200, 0x1000);
        t.u64(0x208, 0);
        t.entry(0x1000, 1, 0x1100 | tag, 0x9000);
        t.entry(0x1100, 2, 0x1200 | tag, 0x9000);
        t.entry(0x1200, 3, 0, 0x9000);
        t.image()
    };
    let (plain, tagged) = (build(0), build(1));
    let dict = JVMDictionary::from_native(&plain, 0x100);
    let a: Vec<u64> = iterate_classes(&dict, &plain).iter().map(|e| e.hash).collect();
    let b: Vec<u64> = iterate_classes(&dict, &tagged).iter().map(|e| e.hash).collect();
    assert_eq!(a, vec![1, 2, 3, 0]);
    assert_eq!(a, b);
}

#[test]
fn offset_cache_gains_nothing_for_a_missing_field() {
    let mut t = Target::new();
    class_with_two_fields(&mut t, 0x10000, b"Foo", [(b"x", b"I", 0x41), (b"y", b"J", 0x60)]);
    let mem = t.image();
    let foo = JClass::from_native(&mem, 0x10000);
    let mut cache = OffsetCache::new();
    assert_eq!(cache.resolve(&mem, "Foo", &foo, "q", "I"), None);
    assert_eq!(cache.get("Foo", "x", "I"), None);
    assert_eq!(cache.resolve(&mem, "Foo", &foo, "x", "I"), Some(0x10));
    assert_eq!(cache.get("Foo", "y", "J"), None);
}
