use ipc_tools::command::{
    check_result, cmd_fits, read_cmd_reply, read_struct_reply, struct_fits, write_cmd,
    write_struct, ReplyError,
};
use ipc_tools::parse::ReturnedParamsError;
use ipc_tools::{IPCHeader, StaticReceiveParams, TranslateParams, IPC_CMDBUF_WORDS};

fn buffer(words: &[u32]) -> [u32; IPC_CMDBUF_WORDS] {
    let mut cmdbuf = [0xEEEE_EEEE; IPC_CMDBUF_WORDS];
    cmdbuf[..words.len()].copy_from_slice(words);
    cmdbuf
}

#[test]
fn struct_request() {
    let mut cmdbuf = buffer(&[]);
    write_struct(&mut cmdbuf, 0x0802, &[1, 2, 3]);
    assert_eq!(cmdbuf, buffer(&[0x0802_00C0, 1, 2, 3]));
}

#[test]
fn full_struct_request() {
    let mut cmdbuf = buffer(&[]);
    write_struct(&mut cmdbuf, 1, &[4; 63]);
    assert_eq!(cmdbuf[0], 0x0001_0FC0);
    assert_eq!(cmdbuf[1..], [4; 63]);
}

#[test]
fn cmd_request() {
    let mut info = [0u8; 0x20];
    let mut received = 0u32;
    let mut params = TranslateParams::new();
    params
        .add_handles(true, false, vec![0xABCD])
        .add_write_buffer(&mut info, 0x0800_0000);
    let mut to_receive = StaticReceiveParams::new();
    to_receive.add_receive_buffer(1, &mut received, 0x0900_0000);
    let mut cmdbuf = buffer(&[]);
    let mut area = [0; 32];
    write_cmd(&mut cmdbuf, &mut area, 0x001E, &[0x20, 0x400, 0x4000], &params, &to_receive);
    assert_eq!(
        cmdbuf,
        buffer(&[0x001E_00C4, 0x20, 0x400, 0x4000, 0x10, 0xABCD, 0x20C, 0x0800_0000])
    );
    let header = IPCHeader::from(cmdbuf[0]);
    assert_eq!((header.command, header.normal_params, header.translate_params), (0x1E, 3, 4));
    assert_eq!(area[..5], [0, 0, 0x0001_0402, 0x0900_0000, 0]);
}

#[test]
fn reply_without_normal_params() {
    let cmdbuf = buffer(&[
        0x001E_0046, 0, 0x20C, 0x0800_0000, 0x400C, 0x0800_1000, 0x4000C, 0x0800_2000,
    ]);
    let mut area = [3; 32];
    let none = StaticReceiveParams::new();
    let (normal, params) = read_cmd_reply(&cmdbuf, &mut area, &none, 0, 0).ok().unwrap();
    assert!(normal.is_empty());
    assert_eq!(params.finish(), cmdbuf[2..8]);
    assert_eq!(area, [3; 32]);
}

#[test]
fn reply_with_both_kinds_of_params() {
    let cmdbuf = buffer(&[0x0005_00C2, 1, 0x11, 0x22, 0x10, 0xBEEF]);
    let none = StaticReceiveParams::new();
    let (normal, params) = read_cmd_reply(&cmdbuf, &mut [0; 32], &none, 0, 7).ok().unwrap();
    assert_eq!(normal, vec![0x11, 0x22]);
    assert_eq!(params.finish(), vec![0x10, 0xBEEF]);
    assert_eq!(read_struct_reply(&cmdbuf, 0, 7), Ok(vec![0x11, 0x22]));
}

#[test]
fn request_and_reply_have_one_form() {
    let word = 0u32;
    let mut params = TranslateParams::new();
    params.add_handles(false, false, vec![1, 2]).add_read_buffer(&word, 0x40);
    let mut cmdbuf = buffer(&[]);
    let none = StaticReceiveParams::new();
    let mut area = [0; 32];
    write_cmd(&mut cmdbuf, &mut area, 9, &[0, 0x77, 0x88], &params, &none);
    let (normal, returned) = read_cmd_reply(&cmdbuf, &mut area, &none, 0, 8).ok().unwrap();
    assert_eq!(normal, vec![0x77, 0x88]);
    assert_eq!(returned.finish(), params.finish());
}

#[test]
fn receive_buffers_leave_after_a_refused_call() {
    let mut received = 0u32;
    let mut to_receive = StaticReceiveParams::new();
    to_receive.add_receive_buffer(0, &mut received, 0x10);
    let mut cmdbuf = buffer(&[]);
    let mut area = [5; 32];
    write_cmd(&mut cmdbuf, &mut area, 1, &[], &TranslateParams::new(), &to_receive);
    assert_eq!(area[..3], [0x0001_0002, 0x10, 5]);
    let reply = read_cmd_reply(&cmdbuf, &mut area, &to_receive, -7, 0);
    assert_eq!(reply.err(), Some(ReplyError::Refused(-7)));
    assert_eq!(area[..3], [0, 0, 5]);
}

#[test]
fn refused_by_the_kernel() {
    let cmdbuf = buffer(&[]);
    assert_eq!(read_struct_reply(&cmdbuf, -1, 0), Err(ReplyError::Refused(-1)));
    assert_eq!(
        read_struct_reply(&cmdbuf, i32::MIN, 0),
        Err(ReplyError::Refused(i32::MIN))
    );
}

#[test]
fn refused_by_the_service() {
    let cmdbuf = buffer(&[0x0001_0040, 0xD900_182F]);
    let refused = ReplyError::Refused(0xD900_182Fu32 as i32);
    assert_eq!(read_struct_reply(&cmdbuf, 0, 0), Err(refused));
    let none = StaticReceiveParams::new();
    let reply = read_cmd_reply(&cmdbuf, &mut [0; 32], &none, 0, 0);
    assert_eq!(reply.err(), Some(refused));
}

#[test]
fn refused_in_a_reply_of_another_size() {
    let cmdbuf = buffer(&[0x0001_0040, 0xD900_182F]);
    let refused = ReplyError::Refused(0xD900_182Fu32 as i32);
    assert_eq!(read_struct_reply(&cmdbuf, 0, 4), Err(refused));
    assert_eq!(read_struct_reply(&cmdbuf, 0, 248), Err(refused));
    let none = StaticReceiveParams::new();
    let reply = read_cmd_reply(&cmdbuf, &mut [0; 32], &none, 0, 4);
    assert_eq!(reply.err(), Some(refused));
}

#[test]
fn wrong_size() {
    let cmdbuf = buffer(&[0x0001_0080, 0, 1]);
    assert_eq!(read_struct_reply(&cmdbuf, 0, 4), Ok(vec![1]));
    assert_eq!(read_struct_reply(&cmdbuf, 0, 0), Err(ReplyError::WrongSize));
    assert_eq!(read_struct_reply(&cmdbuf, 0, 5), Err(ReplyError::WrongSize));
}

#[test]
fn overlong_reply() {
    let cmdbuf = buffer(&[0x0001_007F, 0]);
    let none = StaticReceiveParams::new();
    let reply = read_cmd_reply(&cmdbuf, &mut [0; 32], &none, 0, 0);
    assert_eq!(reply.err(), Some(ReplyError::Overlong));
}

#[test]
fn unreadable_reply_params() {
    let cmdbuf = buffer(&[0x0001_0042, 0, 0x2, 0x100]);
    let none = StaticReceiveParams::new();
    let reply = read_cmd_reply(&cmdbuf, &mut [0; 32], &none, 0, 0);
    assert_eq!(
        reply.err(),
        Some(ReplyError::Params(ReturnedParamsError::StaticBuffer))
    );
}

#[test]
fn largest_reply() {
    let mut cmdbuf = [8; IPC_CMDBUF_WORDS];
    cmdbuf[0] = 0x0001_0FC0;
    assert_eq!(read_struct_reply(&cmdbuf, 0, 248), Ok(vec![8; 62]));
}

#[test]
fn what_fits_the_command_buffer() {
    assert!(cmd_fits(0, 63, 248));
    assert!(cmd_fits(252, 0, 0));
    assert!(cmd_fits(8, 61, 0));
    assert!(!cmd_fits(8, 62, 0));
    assert!(!cmd_fits(0, 64, 0));
    assert!(!cmd_fits(2, 0, 0));
    assert!(!cmd_fits(0, 0, 249));
    assert!(!cmd_fits(usize::MAX, usize::MAX, usize::MAX));
    assert!(struct_fits(250, 248));
    assert!(!struct_fits(253, 0));
    assert!(!struct_fits(0, 249));
}

#[test]
fn negative_results_are_errors() {
    assert_eq!(check_result(0), Ok(()));
    assert_eq!(check_result(i32::MAX), Ok(()));
    assert_eq!(check_result(-1), Err(-1));
}
