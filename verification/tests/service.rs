use ipc_tools::service::{
    service_name, service_name_bytes, stolen_handle, ServiceLookup, ServiceNameError, ServiceOp,
};

#[test]
fn lookup_goes_through() {
    let query = ServiceLookup::Init.next(0, 1);
    assert_eq!(query, ServiceLookup::Query);
    let exit = query.next(0, 42);
    assert_eq!(exit, ServiceLookup::Exit(42));
    let found = exit.next(0, 1);
    assert_eq!(found, ServiceLookup::Found(42));
    assert_eq!(found.next(-1, 1), ServiceLookup::Found(42));
}

#[test]
fn lookup_fails_at_the_first_error() {
    let failed = ServiceLookup::Init.next(-3, 1);
    assert_eq!(failed, ServiceLookup::Failed(-3));
    assert_eq!(failed.next(-4, 1), ServiceLookup::Failed(-3));
    assert_eq!(ServiceLookup::Query.next(-5, 1), ServiceLookup::Failed(-5));
}

#[test]
fn operation_numbers() {
    assert_eq!(ServiceOp::StealClientSession.code(), 0);
    assert_eq!(ServiceOp::GetName.code(), 1);
}

#[test]
fn stolen_handles() {
    assert_eq!(stolen_handle(0, 9), Ok(9));
    assert_eq!(stolen_handle(-2, 9), Err(-2));
}

#[test]
fn names_end_in_a_zero_byte() {
    assert_eq!(service_name_bytes("i2c::MCU"), Some(b"i2c::MCU\0".to_vec()));
    assert_eq!(service_name_bytes(""), Some(vec![0]));
    assert_eq!(service_name_bytes("a\0b"), None);
}

#[test]
fn names_end_at_the_first_zero_byte() {
    assert_eq!(service_name(0, b"fs:USER\0\0\0\0\0"), Ok(String::from("fs:USER")));
    let mut raw = [0xff; 12];
    raw[..3].copy_from_slice(b"am\0");
    assert_eq!(service_name(0, &raw), Ok(String::from("am")));
    assert_eq!(service_name(1, &[0; 12]), Ok(String::new()));
}

#[test]
fn names_are_read_back() {
    for name in ["srv:", "frd:u", "h\u{e9}", "elevenbytes"] {
        let mut raw = [0x41u8; 12];
        let bytes = service_name_bytes(name).unwrap();
        raw[..bytes.len()].copy_from_slice(&bytes);
        assert_eq!(service_name(0, &raw), Ok(String::from(name)));
    }
}

#[test]
fn no_name() {
    assert_eq!(service_name(-9, &[0; 12]), Err(ServiceNameError::Refused(-9)));
    assert_eq!(service_name(0, &[0x41; 12]), Err(ServiceNameError::Unterminated));
    assert_eq!(
        service_name(0, b"\xff\xfe\0\0\0\0\0\0\0\0\0\0"),
        Err(ServiceNameError::NotUtf8)
    );
}
