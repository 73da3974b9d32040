use ether::memory::{MemoryImage, MemoryRegion};
use ether::sdk::{DictionaryEntry, JArray, JConstantPool, JFieldInfo, JFieldOffset, JSymbol};

fn image(bytes: Vec<u8>) -> MemoryImage {
    MemoryImage { regions: vec![MemoryRegion { base: 0, bytes }] }
}

fn put_u16(buf: &mut [u8], at: usize, v: u16) {
    buf[at..at + 2].copy_from_slice(&v.to_le_bytes());
}

fn put_u64(buf: &mut [u8], at: usize, v: u64) {
    buf[at..at + 8].copy_from_slice(&v.to_le_bytes());
}

#[test]
fn field_offset_drops_flag_bits() {
    let info = JFieldInfo::new([0, 0, 0, 0, 0x1004, 0x0000]);
    assert_eq!(info.offset(), 0x401);
    assert!(!info.has_offset());
}

#[test]
fn has_offset_reads_bit_zero() {
    let info = JFieldInfo::new([0, 0, 0, 0, 0x1005, 0x0000]);
    assert!(info.has_offset());
    assert_eq!(info.offset(), 0x401);
}

#[test]
fn field_offset_uses_high_word() {
    let info = JFieldInfo::new([0, 0, 0, 0, 0x0008, 0x0001]);
    assert_eq!(info.offset(), 0x4002);
    let top = JFieldInfo::new([0, 0, 0, 0, 0xFFFF, 0xFFFF]);
    assert_eq!(top.offset(), 0x3FFF_FFFF);
    assert_eq!(top.build_int_from_shorts(0x5678, 0x1234), 0x1234_5678);
}

#[test]
fn record_indices() {
    let info = JFieldInfo::new([0x19, 7, 9, 0, 0, 0]);
    assert_eq!(info.name_idx(), 7);
    assert_eq!(info.sig_idx(), 9);
    assert_eq!(JFieldOffset::FieldSlots.value(), 6);
    assert_eq!(JFieldOffset::LowPackedOffset.value(), 4);
    assert_eq!(JFieldOffset::AccessFlagsOffset.value(), 0);
}

#[test]
fn next_masks_tag_bit() {
    let e = DictionaryEntry { hash: 0, next: 0x1234_5679, klass: 1, loader: 0 };
    assert_eq!(e.next(), 0x1234_5678);
    let f = DictionaryEntry { hash: 0, next: 0x1234_5678, klass: 1, loader: 0 };
    assert_eq!(f.next(), 0x1234_5678);
}

#[test]
fn symbol_reads_exact_length() {
    let mut buf = vec![0u8; 0x100];
    put_u16(&mut buf, 0x40, 3);
    buf[0x48..0x4d].copy_from_slice(b"Fooxx");
    let mem = image(buf);
    let sym = JSymbol::from_native(&mem, 0x40);
    assert_eq!(sym.length, 3);
    assert_eq!(sym.to_string(&mem), "Foo");
}

#[test]
fn symbol_with_invalid_utf8_is_lossy() {
    let mut buf = vec![0u8; 0x100];
    put_u16(&mut buf, 0x10, 5);
    buf[0x18..0x1d].copy_from_slice(&[b'a', 0xFF, b'b', 0xC3, b'c']);
    let mem = image(buf);
    let sym = JSymbol::from_native(&mem, 0x10);
    assert_eq!(sym.to_string(&mem), "a\u{FFFD}b\u{FFFD}c");
}

#[test]
fn array_addresses() {
    let mut buf = vec![0u8; 0x100];
    buf[0x20..0x24].copy_from_slice(&4i32.to_le_bytes());
    put_u16(&mut buf, 0x24, 0xAAAA);
    put_u16(&mut buf, 0x26, 0xBBBB);
    let mem = image(buf);
    let arr = JArray::from_native(&mem, 0x20, 2);
    assert_eq!(arr.length, 4);
    assert!(!arr.is_empty());
    assert_eq!(arr.adr_at(0), 0x24);
    assert_eq!(arr.adr_at(3), 0x2a);
    assert_eq!(arr.adr_at(4), 0);
    assert_eq!(arr.adr_at(-1), 0);
    assert_eq!(arr.at(&mem, 1), Some(vec![0xBB, 0xBB]));
    assert_eq!(arr.at(&mem, 4), None);
}

#[test]
fn constant_pool_symbols_trail_the_header() {
    let mut buf = vec![0u8; 0x400];
    put_u64(&mut buf, 0x100 + 0x50 + 8 * 2, 0x300);
    put_u16(&mut buf, 0x300, 2);
    buf[0x308..0x30a].copy_from_slice(b"ok");
    let mem = image(buf);
    let cp = JConstantPool::from_native(&mem, 0x100);
    assert_eq!(cp.size(), 0x50);
    assert_eq!(cp.symbol_address(2), 0x160);
    let sym = cp.symbol(&mem, 2).expect("slot two is set");
    assert_eq!(sym.to_string(&mem), "ok");
    assert!(cp.symbol(&mem, 1).is_none());
}

#[test]
fn unreadable_bytes_read_as_zero() {
    let mem = MemoryImage {
        regions: vec![MemoryRegion { base: 0x1000, bytes: vec![1, 2, 3, 4] }],
    };
    assert_eq!(mem.read_u32(0x1000), 0x0403_0201);
    assert_eq!(mem.read_u32(0x1002), 0x0000_0403);
    assert_eq!(mem.read_bytes(0xFFE, 4), vec![0, 0, 1, 2]);
    assert_eq!(mem.read_u64(u64::MAX - 2), 0);
}

#[test]
fn later_regions_win() {
    let mut mem = MemoryImage::new();
    mem.add_region(0x10, vec![1, 1, 1, 1]);
    mem.add_region(0x12, vec![9]);
    assert_eq!(mem.read_bytes(0x10, 4), vec![1, 1, 9, 1]);
    assert_eq!(mem.read_i32(0x10), 0x0109_0101);
    assert_eq!(mem.read_i16(0x12), 0x0109);
}
