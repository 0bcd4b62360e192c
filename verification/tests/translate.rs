use ipc_tools::parse::{ReturnedParamsError, TranslationPermission};
use ipc_tools::translate::Translation;
use ipc_tools::TranslateParams;

fn error_of(words: &[u32]) -> Option<ReturnedParamsError> {
    TranslateParams::try_parse_returned_params(words).err()
}

#[test]
fn no_params_take_no_words() {
    assert!(TranslateParams::new().finish().is_empty());
    assert!(TranslateParams::default().finish().is_empty());
}

#[test]
fn read_twl_backup_info_request() {
    let mut output_info = [0u8; 0x20];
    let mut banner = [0u8; 0x400];
    let mut working_buffer = [0u8; 0x4000];
    let mut params = TranslateParams::new();
    params
        .add_handles(true, false, vec![0x1234])
        .add_write_buffer(&mut output_info, 0x0800_0000)
        .add_write_buffer(&mut banner, 0x0800_1000)
        .add_write_buffer(&mut working_buffer, 0x0800_2000);
    let words = params.finish();
    assert_eq!(words.len(), 8);
    assert_eq!(
        words,
        vec![
            0x10,
            0x1234,
            (0x20 << 4) | 0xC,
            0x0800_0000,
            (0x400 << 4) | 0xC,
            0x0800_1000,
            (0x4000 << 4) | 0xC,
            0x0800_2000,
        ]
    );
}

#[test]
fn each_kind_of_param() {
    let shared = [0u32; 4];
    let mut exclusive = [0u8; 5];
    let mut params = TranslateParams::new();
    params
        .add_handles(false, true, vec![7, 8, 9])
        .add_static_buffer(3, &shared, 0x100)
        .add_read_buffer(&shared[1..], 0x104)
        .add_read_write_buffer(&mut exclusive, 0x200);
    assert_eq!(
        params.finish(),
        vec![0x0800_0020, 7, 8, 9, 0x0004_0C02, 0x100, 0xCA, 0x104, 0x5E, 0x200]
    );
}

#[test]
fn unsized_buffers_have_their_own_length() {
    let mut params = TranslateParams::new();
    params.add_read_buffer("hello", 0x10);
    assert_eq!(params.finish(), vec![(5 << 4) | 0xA, 0x10]);
}

#[test]
fn empty_handles_leave_the_count_zero() {
    let mut params = TranslateParams::new();
    params.add_handles(true, true, vec![]);
    assert_eq!(params.finish(), vec![0x30]);
}

#[test]
fn addresses_keep_32_bits() {
    let word = 0u32;
    let mut params = TranslateParams::new();
    params.add_read_buffer(&word, usize::MAX);
    assert_eq!(params.finish(), vec![0x4A, 0xffff_ffff]);
    let mut params = TranslateParams::new();
    params.add_read_buffer(&word, 0x1_0000_0020u64 as usize);
    assert_eq!(params.finish(), vec![0x4A, 0x20]);
}

#[test]
fn one_param_in_words() {
    let handles = Translation::Handles {
        closed_for_caller: true,
        replace_with_process_id: false,
        handles: vec![1, 2],
    };
    assert_eq!(Vec::<u32>::from(&handles), vec![0x0400_0010, 1, 2]);
}

#[test]
fn added_params_follow_the_others() {
    let word = 0u32;
    let mut params = TranslateParams::new();
    params.add_handles(false, false, vec![5]);
    let before = params.finish();
    params.add_read_buffer(&word, 0x40);
    let after = params.finish();
    assert_eq!(after[..before.len()], before[..]);
    assert_eq!(after[before.len()..], [0x4A, 0x40]);
}

#[test]
fn params_are_read_back() {
    let shared = [0u8; 0x30];
    let mut exclusive = [0u8; 0x50];
    let mut params = TranslateParams::new();
    params
        .add_handles(true, false, vec![0xAA])
        .add_read_buffer(&shared, 0x1000)
        .add_handles(false, true, vec![1, 2, 3])
        .add_write_buffer(&mut exclusive, 0xffff_fff0);
    let words = params.finish();
    let parsed = TranslateParams::parse_returned_params(&words);
    assert_eq!(parsed.finish(), words);
}

#[test]
fn sixty_three_handles_are_read_back() {
    let mut params = TranslateParams::new();
    params.add_handles(false, false, (0..63).collect());
    let words = params.finish();
    assert_eq!(words.len(), 64);
    assert_eq!(words[0], 62 << 26);
    let parsed = TranslateParams::parse_returned_params(&words);
    assert_eq!(parsed.finish(), words);
}

#[test]
fn returned_twl_backup_params() {
    let words = [0x20C, 0x0800_0000, 0x400C, 0x0800_1000, 0x4000C, 0x0800_2000];
    let parsed = TranslateParams::parse_returned_params(&words);
    assert_eq!(parsed.finish(), words);
}

#[test]
fn meaningless_descriptor_bits_are_dropped() {
    let words = [0x03ff_ff41, 9, 0x20B, 0x100];
    let parsed = TranslateParams::parse_returned_params(&words);
    assert_eq!(parsed.finish(), vec![0, 9, 0x20A, 0x100]);
}

#[test]
fn reading_goes_on_behind_what_was_read() {
    let first = [0x10, 7, 0x20C, 0x100];
    let second = [0x0400_0000, 8, 9];
    let whole = [&first[..], &second[..]].concat();
    let mut words = TranslateParams::parse_returned_params(&first).finish();
    words.extend(TranslateParams::parse_returned_params(&second).finish());
    assert_eq!(TranslateParams::parse_returned_params(&whole).finish(), words);
    assert_eq!(words, whole);
    assert_eq!(
        error_of(&[&first[..], &[0x2]].concat()),
        Some(ReturnedParamsError::StaticBuffer)
    );
}

#[test]
fn nothing_returned() {
    assert!(TranslateParams::parse_returned_params(&[]).finish().is_empty());
}

#[test]
fn too_many_returned_words() {
    assert_eq!(error_of(&[0; 65]), Some(ReturnedParamsError::TooLong));
    assert_eq!(error_of(&[0; 64]), None);
}

#[test]
fn too_few_handles() {
    assert_eq!(error_of(&[0]), Some(ReturnedParamsError::TruncatedHandles));
    assert_eq!(
        error_of(&[2 << 26, 1, 2]),
        Some(ReturnedParamsError::TruncatedHandles)
    );
    assert_eq!(error_of(&[2 << 26, 1, 2, 3]), None);
}

#[test]
fn static_buffers_are_refused() {
    let mut params = TranslateParams::new();
    params.add_handles(true, false, vec![1]).add_static_buffer(0, &0u8, 4);
    assert_eq!(error_of(&params.finish()), Some(ReturnedParamsError::StaticBuffer));
}

#[test]
fn read_write_buffers_are_refused() {
    let mut byte = 0u8;
    let mut params = TranslateParams::new();
    params.add_read_write_buffer(&mut byte, 4);
    assert_eq!(error_of(&params.finish()), Some(ReturnedParamsError::ReadWriteBuffer));
}

#[test]
fn mapped_buffers_need_an_address() {
    for magic in [0xA, 0xC, 0xE] {
        assert_eq!(error_of(&[magic]), Some(ReturnedParamsError::MissingAddress));
    }
}

#[test]
fn unknown_kinds_are_refused() {
    for descriptor in [0x4, 0x6, 0x8] {
        assert_eq!(error_of(&[descriptor, 1]), Some(ReturnedParamsError::UnknownKind));
    }
}

#[test]
fn permissions_by_their_bits() {
    assert_eq!(TranslationPermission::from(1), TranslationPermission::Read);
    assert_eq!(TranslationPermission::from(2), TranslationPermission::Write);
    assert_eq!(TranslationPermission::from(3), TranslationPermission::ReadWrite);
}
