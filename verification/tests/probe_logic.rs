use apu650_probe::probe::{ascii_only, select_dev_type, set_bits, text_len};

#[test]
fn device_classes_of_reference_device() {
    assert_eq!(set_bits(0x56), vec![1, 2, 4, 6]);
}

#[test]
fn memory_pools_of_reference_device() {
    assert_eq!(set_bits(0x36), vec![1, 2, 4, 5]);
}

#[test]
fn set_bits_edges() {
    assert_eq!(set_bits(0), Vec::<u32>::new());
    assert_eq!(set_bits(1 << 63 | 1), vec![0, 63]);
    assert_eq!(set_bits(u64::MAX).len(), 64);
}

#[test]
fn metadata_text() {
    let mut meta = [0u8; 32];
    meta[..7].copy_from_slice(b"0x15556");
    assert_eq!(ascii_only(&meta), "0x15556");
    let mut meta = [0u8; 32];
    meta[0] = 0x24;
    assert_eq!(ascii_only(&meta), "$");
    assert_eq!(ascii_only(&[0u8; 32]), "");
    assert_eq!(ascii_only(b"abc"), "abc");
    assert_eq!(ascii_only(&[b'a', 0xff, b'b', 0, b'c']), "a\u{fffd}b");
}

#[test]
fn text_length() {
    assert_eq!(text_len(b"ab\0cd"), 2);
    assert_eq!(text_len(b"abcd"), 4);
    assert_eq!(text_len(b""), 0);
    assert_eq!(text_len(b"\0"), 0);
}

#[test]
fn device_class_choice() {
    assert_eq!(select_dev_type(None, 0x56), 1);
    assert_eq!(select_dev_type(None, 0x54), 2);
    assert_eq!(select_dev_type(None, 0x1), 1);
    assert_eq!(select_dev_type(None, 0), 1);
    assert_eq!(select_dev_type(None, 1 << 63), 63);
    assert_eq!(select_dev_type(Some(7), 0x56), 7);
}

#[test]
fn printable_form_is_stable() {
    let mut meta = [0u8; 32];
    meta[..7].copy_from_slice(b"0x15556");
    let r = ascii_only(&meta);
    assert!(!r.bytes().any(|c| c == 0));
    assert_eq!(ascii_only(r.as_bytes()), r);
    let r = ascii_only("h\u{e9}llo\0rest".as_bytes());
    assert_eq!(r, "h\u{e9}llo");
    assert_eq!(ascii_only(r.as_bytes()), r);
}

#[test]
fn printable_form_of_invalid_utf8_is_stable() {
    let r = ascii_only(&[b'a', 0xff, b'b', 0xc3, 0, b'z']);
    assert!(!r.bytes().any(|c| c == 0));
    assert_eq!(ascii_only(r.as_bytes()), r);
}
