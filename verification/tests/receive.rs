use ipc_tools::receive::{get_static_buffer, set_static_buffer, StaticBufferPair};
use ipc_tools::StaticReceiveParams;

#[test]
fn buffers_enter_and_leave_the_area() {
    let mut password = [0u8; 0x100];
    let mut last = 0u32;
    let mut to_receive = StaticReceiveParams::new();
    to_receive.add_receive_buffer(0, &mut password, 0x0800_0000);
    to_receive.add_receive_buffer(15, &mut last, 0x0900_0000);

    let mut area = [0x55u32; 32];
    to_receive.install(&mut area);
    assert_eq!(area[..2], [0x0040_0002, 0x0800_0000]);
    assert_eq!(area[2..30], [0x55; 28]);
    assert_eq!(area[30..], [0x0001_3C02, 0x0900_0000]);

    to_receive.remove(&mut area);
    assert_eq!(area[..2], [0, 0]);
    assert_eq!(area[2..30], [0x55; 28]);
    assert_eq!(area[30..], [0, 0]);
}

#[test]
fn receive_addresses_keep_32_bits() {
    let mut byte = 0u8;
    let mut to_receive = StaticReceiveParams::new();
    to_receive.add_receive_buffer(0, &mut byte, 0x1_0000_0020u64 as usize);
    let mut area = [0; 32];
    to_receive.install(&mut area);
    assert_eq!(area[..2], [0x4002, 0x20]);
}

#[test]
fn no_receive_buffers_change_nothing() {
    let mut area = [7u32; 32];
    let to_receive = StaticReceiveParams::default();
    to_receive.install(&mut area);
    to_receive.remove(&mut area);
    assert_eq!(area, [7; 32]);
}

#[test]
fn an_index_takes_one_buffer() {
    let mut byte = 0u8;
    let mut to_receive = StaticReceiveParams::new();
    assert!(to_receive.is_free(2));
    to_receive.add_receive_buffer(2, &mut byte, 0x10);
    assert!(!to_receive.is_free(2));
    assert!(to_receive.is_free(3));
    assert!(to_receive.is_free(15));
    assert!(!to_receive.is_free(16));
}

#[test]
fn a_set_entry_is_taken_once() {
    let pair = StaticBufferPair {
        descriptor: 0x4402,
        buffer: 0x1000,
    };
    let mut area = [9u32; 32];
    set_static_buffer(&mut area, 1, pair);
    assert_eq!(area[..5], [9, 9, 0x4402, 0x1000, 9]);
    assert_eq!(get_static_buffer(&mut area, 1), pair);
    assert_eq!(
        get_static_buffer(&mut area, 1),
        StaticBufferPair {
            descriptor: 0,
            buffer: 0
        }
    );
    assert_eq!(area[..5], [9, 9, 0, 0, 9]);
}
