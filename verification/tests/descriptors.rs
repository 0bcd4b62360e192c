use ipc_tools::{
    bytes_to_words, handle_descriptor, read_buffer_descriptor, read_write_buffer_descriptor,
    static_buffer_descriptor, write_buffer_descriptor,
};

#[test]
fn mapped_buffer_descriptors() {
    assert_eq!(read_buffer_descriptor(0x20), 0x20A);
    assert_eq!(write_buffer_descriptor(0x20), 0x20C);
    assert_eq!(read_write_buffer_descriptor(0x20), 0x20E);
    assert_eq!(write_buffer_descriptor(0x4000), 0x4000C);
    assert_eq!(read_buffer_descriptor(0), 0xA);
}

#[test]
fn mapped_length_keeps_28_bits() {
    assert_eq!(read_buffer_descriptor(0x1000_0001), 0x1A);
    assert_eq!(write_buffer_descriptor(0x0fff_ffff), 0xffff_fffC);
}

#[test]
fn static_buffer_descriptors() {
    assert_eq!(static_buffer_descriptor(0, 0), 0x2);
    assert_eq!(static_buffer_descriptor(0, 0x100), 0x0040_0002);
    assert_eq!(static_buffer_descriptor(3, 0x10), 0x0004_0C02);
    assert_eq!(static_buffer_descriptor(15, 1), 0x7C02);
}

#[test]
fn large_static_index_runs_into_the_length() {
    assert_eq!(static_buffer_descriptor(16, 1), 0x4002);
    assert_eq!(static_buffer_descriptor(17, 0), 0x4402);
}

#[test]
fn handle_descriptors() {
    assert_eq!(handle_descriptor(1, true, false), 0x10);
    assert_eq!(handle_descriptor(1, false, false), 0);
    assert_eq!(handle_descriptor(1, false, true), 0x20);
    assert_eq!(handle_descriptor(2, true, true), 0x0400_0030);
    assert_eq!(handle_descriptor(64, false, false), 0xFC00_0000);
    assert_eq!(handle_descriptor(65, false, false), 0);
}

#[test]
fn no_handles_leave_the_count_bits_clear() {
    assert_eq!(handle_descriptor(0, false, false), 0);
    assert_eq!(handle_descriptor(0, true, true), 0x30);
}

#[test]
fn descriptors_tell_what_they_announce() {
    let kind = |descriptor: u32| (descriptor & 0xe) >> 1;
    for len in [0, 1, 0x20, 0x4000, 0x0fff_ffff] {
        assert_eq!(kind(static_buffer_descriptor(len % 40, len)), 1);
        assert_eq!(kind(read_buffer_descriptor(len)), 5);
        assert_eq!(kind(write_buffer_descriptor(len)), 6);
        assert_eq!(kind(read_write_buffer_descriptor(len)), 7);
        assert_eq!(kind(handle_descriptor(len, true, true)), 0);
    }
}

#[test]
fn bytes_take_whole_words() {
    assert_eq!(bytes_to_words(0), 0);
    assert_eq!(bytes_to_words(1), 1);
    assert_eq!(bytes_to_words(4), 1);
    assert_eq!(bytes_to_words(5), 2);
    assert_eq!(bytes_to_words(252), 63);
    assert_eq!(bytes_to_words(usize::MAX - 3), usize::MAX / 4);
}
