use apu650_probe::ioctl::{
    apu_mdw_cmd_request, apu_mdw_handshake_request, apu_mdw_mem_request, apu_mdw_util_request,
    request_code, request_code_readwrite, IOC_READ, IOC_WRITE,
};

#[test]
fn handshake_request_number() {
    assert_eq!(apu_mdw_handshake_request(), 0xc028_4120);
}

#[test]
fn mem_request_number() {
    assert_eq!(apu_mdw_mem_request(), 0xc028_4121);
}

#[test]
fn cmd_request_number() {
    assert_eq!(apu_mdw_cmd_request(), 0xc078_4122);
}

#[test]
fn util_request_number() {
    assert_eq!(apu_mdw_util_request(), 0xc020_4123);
}

#[test]
fn oversized_argument_gives_other_numbers() {
    // The numbers an argument padded to 64/64/192 bytes would have produced.
    assert_eq!(request_code_readwrite(b'A', 32, 64), 0xc040_4120);
    assert_eq!(request_code_readwrite(b'A', 33, 64), 0xc040_4121);
    assert_eq!(request_code_readwrite(b'A', 34, 192), 0xc0c0_4122);
    assert_ne!(request_code_readwrite(b'A', 32, 64), apu_mdw_handshake_request());
}

#[test]
fn request_code_directions() {
    assert_eq!(request_code(0, b'A', 1, 0), 0x0000_4101);
    assert_eq!(request_code(IOC_WRITE, b'A', 1, 4), 0x4004_4101);
    assert_eq!(request_code(IOC_READ, b'A', 1, 4), 0x8004_4101);
    assert_eq!(request_code(IOC_READ | IOC_WRITE, 0xff, 0xff, 0x3fff), 0xffff_ffff);
}

#[test]
fn request_fields_read_back() {
    let r = apu_mdw_cmd_request();
    assert_eq!(r >> 30, 3);
    assert_eq!((r >> 16) & 0x3fff, 120);
    assert_eq!((r >> 8) & 0xff, 0x41);
    assert_eq!(r & 0xff, 34);
}

#[test]
fn request_code_cuts_fields_to_width() {
    assert_eq!(request_code(7, b'A', 32, 40), request_code(3, b'A', 32, 40));
    assert_eq!(request_code_readwrite(b'A', 32, 0x4000 + 40), apu_mdw_handshake_request());
}
