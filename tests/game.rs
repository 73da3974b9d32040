use ether::game::{Entity, World};
use ether::java::{JavaArray, JavaBuffer};
use ether::memory::{MemoryImage, MemoryRegion};
use ether::sdk::JClass;

fn image(bytes: Vec<u8>) -> MemoryImage {
    MemoryImage { regions: vec![MemoryRegion { base: 0, bytes }] }
}

fn put_i32(buf: &mut [u8], at: usize, v: i32) {
    buf[at..at + 4].copy_from_slice(&v.to_le_bytes());
}

#[test]
fn java_array_elements() {
    let mut buf = vec![0u8; 0x400];
    put_i32(&mut buf, 0x100 + 16, 2);
    put_i32(&mut buf, 0x100 + 20, 0x200);
    put_i32(&mut buf, 0x210, 0x1111);
    put_i32(&mut buf, 0x214, 0x2222);
    let mem = image(buf);
    let arr = JavaArray::from_native(&mem, 0x100);
    assert_eq!(arr.array_offset(), 0x10);
    assert_eq!(arr.length, 2);
    assert_eq!(arr.get_at(&mem, 0), Some(0x1111));
    assert_eq!(arr.get_at(&mem, 1), Some(0x2222));
    assert_eq!(arr.get_at(&mem, 2), None);
    assert_eq!(arr.get_at(&mem, -1), None);
}

#[test]
fn java_buffer_bytes() {
    let mut buf = vec![0u8; 0x400];
    put_i32(&mut buf, 0x100 + 16, 0x300);
    put_i32(&mut buf, 0x100 + 32, 2);
    put_i32(&mut buf, 0x300, 7);
    put_i32(&mut buf, 0x304, 9);
    let mem = image(buf);
    let b = JavaBuffer::from_native(&mem, 0x100);
    assert_eq!(b.length, 2);
    assert_eq!(b.as_bytes(&mem, 4), vec![7, 0, 0, 0, 9, 0, 0, 0]);
}

#[test]
fn entity_and_world_addresses() {
    let mem = MemoryImage::new();
    let class = JClass::from_native(&mem, 0x5000);
    let world = World::new(&class, 0xdead_beef);
    assert_eq!(world.address, 0xdead_beef);
    assert_eq!(world.class.address, 0x5000);
    assert_eq!(Entity::new(0x1234).address, 0x1234);
    assert!(world.get_players(&mem).is_none());
}
