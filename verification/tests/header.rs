use ipc_tools::IPCHeader;

#[test]
fn header_word_is_split() {
    let header = IPCHeader::from(0x001E_00C8);
    assert_eq!(header.command, 0x001E);
    assert_eq!(header.normal_params, 3);
    assert_eq!(header.translate_params, 8);
}

#[test]
fn header_word_is_joined() {
    assert_eq!(u32::from(IPCHeader::new(0x001E, 3, 8)), 0x001E_00C8);
    assert_eq!(u32::from(IPCHeader::new(0xffff, 63, 0)), 0xffff_0fc0);
    assert_eq!(u32::from(IPCHeader::new(0, 0, 63)), 0x3f);
}

#[test]
fn counts_keep_six_bits() {
    let header = IPCHeader {
        command: 1,
        normal_params: 65,
        translate_params: 130,
    };
    assert_eq!(u32::from(header), 0x0001_0042);
}

#[test]
fn header_is_read_back() {
    for header in [
        IPCHeader::new(0x0802, 0, 2),
        IPCHeader::new(0xffff, 31, 32),
        IPCHeader::new(7, 63, 0),
    ] {
        assert_eq!(IPCHeader::from(u32::from(header)), header);
    }
}

#[test]
fn meaningless_header_bits_are_dropped() {
    assert_eq!(u32::from(IPCHeader::from(0x1234_f0c8)), 0x1234_00c8);
    assert_eq!(u32::from(IPCHeader::from(0xffff_ffff)), 0xffff_0fff);
}
