use ether::processes::ModuleEntry;
use ether::sig::{
    next_region, pattern_scan_module, region_is_scannable, scan, scan_at, PatternByte, PatternError,
    Signature,
};

fn compile(text: &str) -> Signature {
    match Signature::new(text) {
        Ok(s) => s,
        Err(e) => panic!("pattern {:?} refused: {:?}", text, e),
    }
}

#[test]
fn compiles_bytes_and_wildcards() {
    let s = compile("48 8b 0d ?? ?? ?? ?? 4c 8b cd 44 8b c7");
    assert_eq!(s.len(), 13);
    assert_eq!(s.tokens()[0], PatternByte { value: 0x48, wildcard: false });
    assert_eq!(s.tokens()[1], PatternByte { value: 0x8b, wildcard: false });
    assert!(s.tokens()[3].wildcard);
    assert_eq!(s.tokens()[12], PatternByte { value: 0xc7, wildcard: false });
}

#[test]
fn to_bytes_marks_wildcards() {
    let s = compile("AA BB ?? DD");
    assert_eq!(s.to_bytes(), vec![0xAA, 0xBB, 0xCC, 0xDD]);
}

#[test]
fn spaces_are_optional() {
    let s = compile("AABB??DD");
    assert_eq!(s.to_bytes(), vec![0xAA, 0xBB, 0xCC, 0xDD]);
}

#[test]
fn odd_length_is_rejected() {
    assert!(matches!(Signature::new("AA B"), Err(PatternError::OddLength)));
    assert!(matches!(Signature::new("A"), Err(PatternError::OddLength)));
    assert!(matches!(Signature::new("AA BB ?"), Err(PatternError::OddLength)));
}

#[test]
fn invalid_digit_is_rejected() {
    assert!(matches!(Signature::new("AA GZ"), Err(PatternError::InvalidToken(1))));
    assert!(matches!(Signature::new("+F"), Err(PatternError::InvalidToken(0))));
}

#[test]
fn empty_pattern_is_rejected() {
    assert!(matches!(Signature::new(""), Err(PatternError::Empty)));
    assert!(matches!(Signature::new("   "), Err(PatternError::Empty)));
}

#[test]
fn scan_finds_first_occurrence() {
    let s = compile("01 02 03");
    let buf = [9u8, 1, 2, 3, 7, 1, 2, 3];
    assert_eq!(scan(&buf, &s), Some(1));
}

#[test]
fn scan_finds_match_at_the_very_end() {
    let s = compile("07 08");
    let buf = [1u8, 2, 3, 7, 8];
    assert_eq!(scan(&buf, &s), Some(3));
}

#[test]
fn scan_ignores_bytes_under_wildcards() {
    let s = compile("AA ?? CC");
    for b in 0..=255u8 {
        let buf = [0u8, 0xAA, b, 0xCC];
        assert_eq!(scan(&buf, &s), Some(1));
    }
}

#[test]
fn literal_cc_is_not_a_wildcard() {
    let s = compile("CC");
    let buf = [0x11u8, 0x22, 0xCC];
    assert_eq!(scan(&buf, &s), Some(2));
}

#[test]
fn scan_of_short_buffer_is_none() {
    let s = compile("01 02 03 04");
    assert_eq!(scan(&[1u8, 2, 3], &s), None);
    assert_eq!(scan(&[], &s), None);
}

#[test]
fn scan_without_match_is_none() {
    let s = compile("01 02");
    assert_eq!(scan(&[2u8, 1, 1, 3, 2], &s), None);
}

#[test]
fn scan_module_gives_remote_address() {
    let s = compile("DE AD ?? EF");
    let module = ModuleEntry { name: String::from("jvm.dll"), base: 0x7ff0_0000, size: 6 };
    let image = [0u8, 0, 0xDE, 0xAD, 0x00, 0xEF];
    assert_eq!(pattern_scan_module(&image, &s, &module), Some(0x7ff0_0002));
    assert_eq!(scan_at(&image, &s, 0x1000), Some(0x1002));
}

#[test]
fn region_filter() {
    assert!(region_is_scannable(0x1000, 0x04));
    assert!(!region_is_scannable(0x1000, 0x01));
    assert!(!region_is_scannable(0x2000, 0x04));
}

#[test]
fn region_walk_advances_to_the_next_region() {
    assert_eq!(next_region(0x1000, 0x2000, 0x10000), Some(0x3000));
    assert_eq!(next_region(0x1000, 0, 0x10000), None);
    assert_eq!(next_region(0xF000, 0x1000, 0x10000), None);
    assert_eq!(next_region(u64::MAX - 1, 0x10, u64::MAX), None);
}
