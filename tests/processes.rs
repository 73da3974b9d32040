use ether::processes::{find_module, find_process, name_from_raw, ModuleEntry, NativeAllocation, ProcessEntry};

#[test]
fn names_are_clipped_at_first_zero() {
    let mut raw = [0u8; 16];
    raw[..9].copy_from_slice(b"javaw.exe");
    raw[10] = b'x';
    assert_eq!(name_from_raw(&raw), "javaw.exe");
    assert_eq!(name_from_raw(b"no terminator"), "no terminator");
    assert_eq!(name_from_raw(&[0u8, b'a']), "");
}

#[test]
fn invalid_names_decode_empty() {
    assert_eq!(name_from_raw(&[b'a', 0xFF, 0]), "");
}

#[test]
fn find_process_takes_first_match() {
    let list = vec![
        ProcessEntry { name: String::from("System"), pid: 4 },
        ProcessEntry { name: String::from("javaw.exe"), pid: 100 },
        ProcessEntry { name: String::from("javaw.exe"), pid: 200 },
    ];
    assert_eq!(find_process(&list, "javaw.exe").map(|p| p.pid), Some(100));
    assert!(find_process(&list, "JAVAW.EXE").is_none());
}

#[test]
fn find_module_by_name() {
    let list = vec![
        ModuleEntry { name: String::from("ntdll.dll"), base: 0x1000, size: 0x10 },
        ModuleEntry { name: String::from("jvm.dll"), base: 0x7000, size: 0x200 },
    ];
    let m = find_module(&list, "jvm.dll").expect("jvm.dll is loaded");
    assert_eq!((m.base, m.size), (0x7000, 0x200));
    assert!(find_module(&list, "kernel32.dll").is_none());
}

#[test]
fn allocation_keeps_its_size() {
    let mut a = NativeAllocation::new(4);
    assert_eq!(a.size(), 4);
    assert_eq!(a.get(), &[0u8, 0, 0, 0]);
    a.copy_from(&[1, 2, 3, 4, 5, 6]);
    assert_eq!(a.get(), &[1u8, 2, 3, 4]);
    a.copy_from(&[9]);
    assert_eq!(a.get(), &[9u8, 2, 3, 4]);
    assert_eq!(a.size(), 4);
}
