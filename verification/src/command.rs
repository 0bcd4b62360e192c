//! Requests and replies: what is in a thread's command buffer before and after a call.

use vstd::prelude::*;

use crate::descriptor::{bytes_to_words, words_for};
use crate::header::IPCHeader;
use crate::parse::{returned_params, ReturnedParamsError};
use crate::receive::{area_with, area_without, StaticReceiveParams, STATIC_BUFFER_AREA_WORDS};
use crate::translate::{params_words, Param, TranslateParams};
use crate::IPC_CMDBUF_WORDS;

verus! {

/// The largest reply, in bytes, that leaves room for the header and the result code.
pub const MAX_REPLY_BYTES: usize = 248;

/// Why a call gave no reply.
#[derive(Debug, Clone, Copy, PartialEq, Eq, Structural)]
pub enum ReplyError {
    /// The kernel or the service refused the call with this result code.
    Refused(i32),
    /// The reply reports success, but with another number of normal parameters than was expected.
    WrongSize,
    /// The reply announces more words than the command buffer has.
    Overlong,
    /// The translated parameters of the reply cannot be read.
    Params(ReturnedParamsError),
}

/// A word as the result code that it stands for.
pub open spec fn code_of_word(word: u32) -> i32 {
    (if word < 0x8000_0000 {
        word as int
    } else {
        word - 0x1_0000_0000
    }) as i32
}

/// A request: the header, the normal parameters, then the translated parameters.
pub open spec fn request(command_id: u16, normal: Seq<u32>, translated: Seq<u32>) -> Seq<u32> {
    seq![
        IPCHeader {
            command: command_id,
            normal_params: normal.len() as usize,
            translate_params: translated.len() as usize,
        }.word(),
    ] + normal + translated
}

/// `message` at the front of the command buffer `cmdbuf`.
pub open spec fn at_front(message: Seq<u32>, cmdbuf: Seq<u32>) -> Seq<u32> {
    message + cmdbuf.skip(message.len() as int)
}

/// The normal parameters of the reply that a call with result `code` left in `cmdbuf`, when
/// `reply_bytes` bytes of them were expected. The result code, which the reply counts among its
/// normal parameters, is not one of them. Only a reply that reports success has to have the
/// expected size.
pub open spec fn normal_reply(cmdbuf: Seq<u32>, code: i32, reply_bytes: int) -> Result<
    Seq<u32>,
    ReplyError,
> {
    if code < 0 {
        Err(ReplyError::Refused(code))
    } else if code_of_word(cmdbuf[1]) < 0 {
        Err(ReplyError::Refused(code_of_word(cmdbuf[1])))
    } else if IPCHeader::of_word(cmdbuf[0]).normal_params != words_for(reply_bytes + 4) {
        Err(ReplyError::WrongSize)
    } else {
        Ok(cmdbuf.subrange(2, 2 + words_for(reply_bytes)))
    }
}

/// The translated parameters of a reply: they follow the normal ones.
pub open spec fn translated_reply(cmdbuf: Seq<u32>) -> Result<Seq<Param>, ReplyError> {
    let header = IPCHeader::of_word(cmdbuf[0]);
    let start = 1 + header.normal_params;
    let end = start + header.translate_params;
    if end > cmdbuf.len() {
        Err(ReplyError::Overlong)
    } else {
        match returned_params(cmdbuf.subrange(start, end)) {
            Ok(params) => Ok(params),
            Err(e) => Err(ReplyError::Params(e)),
        }
    }
}

/// The reply that a call left in `cmdbuf`: its normal and its translated parameters.
pub open spec fn cmd_reply(cmdbuf: Seq<u32>, code: i32, reply_bytes: int) -> Result<
    (Seq<u32>, Seq<Param>),
    ReplyError,
> {
    match normal_reply(cmdbuf, code, reply_bytes) {
        Err(e) => Err(e),
        Ok(normal) => match translated_reply(cmdbuf) {
            Err(e) => Err(e),
            Ok(params) => Ok((normal, params)),
        },
    }
}

/// Whether a result code says that the call went through: a negative one is an error.
pub fn check_result(code: i32) -> (res: Result<(), i32>)
    ensures
        res == if code < 0 {
            Err::<(), i32>(code)
        } else {
            Ok(())
        },
{
    if code < 0 {
        Err(code)
    } else {
        Ok(())
    }
}

/// Whether a request with `normal_bytes` bytes of normal parameters and `translate_words` words
/// of translated ones, and a reply with `reply_bytes` bytes of normal parameters, fit the command
/// buffer. Normal parameters come in whole words here.
pub fn cmd_fits(normal_bytes: usize, translate_words: usize, reply_bytes: usize) -> (fits: bool)
    ensures
        fits == (normal_bytes % 4 == 0 && words_for(normal_bytes as int) + translate_words
            <= IPC_CMDBUF_WORDS - 1 && words_for(reply_bytes as int) <= IPC_CMDBUF_WORDS - 2),
{
    normal_bytes % 4 == 0 && struct_fits(normal_bytes, reply_bytes) && translate_words
        <= IPC_CMDBUF_WORDS - 1 - bytes_to_words(normal_bytes)
}

/// Whether a request with `normal_bytes` bytes of normal parameters, and a reply with
/// `reply_bytes` bytes, fit the command buffer.
pub fn struct_fits(normal_bytes: usize, reply_bytes: usize) -> (fits: bool)
    ensures
        fits == (words_for(normal_bytes as int) <= IPC_CMDBUF_WORDS - 1 && words_for(
            reply_bytes as int,
        ) <= IPC_CMDBUF_WORDS - 2),
{
    normal_bytes <= 4 * (IPC_CMDBUF_WORDS - 1) && reply_bytes <= MAX_REPLY_BYTES
}

/// Writes `words` into the command buffer from word `at` on.
fn write_words(cmdbuf: &mut [u32; IPC_CMDBUF_WORDS], at: usize, words: &[u32])
    requires
        at + words@.len() <= IPC_CMDBUF_WORDS,
    ensures
        final(cmdbuf)@ == old(cmdbuf)@.take(at as int) + words@ + old(cmdbuf)@.skip(
            at + words@.len(),
        ),
{
    let mut i: usize = 0;
    while i < words.len()
        invariant
            i <= words@.len(),
            at + words@.len() <= IPC_CMDBUF_WORDS,
            cmdbuf@ == old(cmdbuf)@.take(at as int) + words@.take(i as int) + old(cmdbuf)@.skip(
                at + i,
            ),
        decreases words.len() - i,
    {
        cmdbuf[at + i] = words[i];
        i += 1;
    }
    assert(words@.take(i as int) =~= words@);
}

/// Puts a request without translated parameters into the command buffer.
pub fn write_struct(cmdbuf: &mut [u32; IPC_CMDBUF_WORDS], command_id: u16, normal: &[u32])
    requires
        normal@.len() <= IPC_CMDBUF_WORDS - 1,
    ensures
        final(cmdbuf)@ == at_front(request(command_id, normal@, seq![]), old(cmdbuf)@),
        final(cmdbuf)@[0] == command_id * 0x1_0000 + normal@.len() * 64,
        final(cmdbuf)@.subrange(1, 1 + normal@.len() as int) == normal@,
        final(cmdbuf)@.skip(1 + normal@.len() as int) == old(cmdbuf)@.skip(
            1 + normal@.len() as int,
        ),
{
    let header = IPCHeader::new(command_id, normal.len(), 0);
    cmdbuf[0] = u32::from(header);
    write_words(cmdbuf, 1, normal);
}

/// Puts a request into the command buffer, and the buffers that its reply may fill into the
/// static buffer area.
pub fn write_cmd(
    cmdbuf: &mut [u32; IPC_CMDBUF_WORDS],
    area: &mut [u32; STATIC_BUFFER_AREA_WORDS],
    command_id: u16,
    normal: &[u32],
    translate: &TranslateParams,
    static_receive_buffers: &StaticReceiveParams,
)
    requires
        normal@.len() + params_words(translate@).len() <= IPC_CMDBUF_WORDS - 1,
    ensures
        final(cmdbuf)@ == at_front(
            request(command_id, normal@, params_words(translate@)),
            old(cmdbuf)@,
        ),
        ({
            let translated = params_words(translate@);
            let start = 1 + normal@.len() as int;
            let end = start + translated.len();
            &&& final(cmdbuf)@[0] == command_id * 0x1_0000 + normal@.len() * 64 + translated.len()
            &&& final(cmdbuf)@.subrange(1, start) == normal@
            &&& final(cmdbuf)@.subrange(start, end) == translated
            &&& final(cmdbuf)@.skip(end) == old(cmdbuf)@.skip(end)
        }),
        final(area)@ == area_with(old(area)@, static_receive_buffers@),
{
    let translated_raw: Vec<u32> = translate.finish();
    static_receive_buffers.install(area);
    let header = IPCHeader::new(command_id, normal.len(), translated_raw.len());
    cmdbuf[0] = u32::from(header);
    write_words(cmdbuf, 1, normal);
    write_words(cmdbuf, normal.len() + 1, translated_raw.as_slice());
}

/// Reads the reply that a call with result `code` left in the command buffer, when `reply_bytes`
/// bytes of normal parameters were expected.
pub fn read_struct_reply(
    cmdbuf: &[u32; IPC_CMDBUF_WORDS],
    code: i32,
    reply_bytes: usize,
) -> (reply: Result<Vec<u32>, ReplyError>)
    requires
        reply_bytes <= MAX_REPLY_BYTES,
    ensures
        match reply {
            Ok(normal) => normal_reply(cmdbuf@, code, reply_bytes as int) == Ok::<_, ReplyError>(
                normal@,
            ),
            Err(e) => normal_reply(cmdbuf@, code, reply_bytes as int) == Err::<Seq<u32>, _>(e),
        },
        code < 0 ==> (reply matches Err(ReplyError::Refused(c)) && c == code),
        code >= 0 && cmdbuf@[1] >= 0x8000_0000 ==> (reply matches Err(ReplyError::Refused(c)) && c
            == cmdbuf@[1] - 0x1_0000_0000),
        code >= 0 && cmdbuf@[1] < 0x8000_0000 ==> reply is Ok || (reply matches Err(e) && e
            == ReplyError::WrongSize),
{
    if let Err(code) = check_result(code) {
        return Err(ReplyError::Refused(code));
    }
    let word: u32 = cmdbuf[1];
    proof {
        assert(word < 0x8000_0000 ==> word as i32 == word) by (bit_vector);
        assert(word >= 0x8000_0000 ==> word as i32 == word - 0x1_0000_0000) by (bit_vector);
    }
    if let Err(code) = check_result(#[verifier::truncate] (word as i32)) {
        return Err(ReplyError::Refused(code));
    }
    let response_header = IPCHeader::from(cmdbuf[0]);
    if response_header.normal_params != bytes_to_words(reply_bytes + 4) {
        return Err(ReplyError::WrongSize);
    }
    let mut normal: Vec<u32> = Vec::new();
    normal.extend_from_slice(&cmdbuf.as_slice()[2..2 + bytes_to_words(reply_bytes)]);
    assert(normal@ =~= cmdbuf@.subrange(2, 2 + words_for(reply_bytes as int)));
    Ok(normal)
}

/// Reads the reply that a call with result `code` left in the command buffer, when `reply_bytes`
/// bytes of normal parameters were expected. The buffers that the reply may have filled leave the
/// static buffer area, whatever became of the call.
pub fn read_cmd_reply<'a>(
    cmdbuf: &'a [u32; IPC_CMDBUF_WORDS],
    area: &mut [u32; STATIC_BUFFER_AREA_WORDS],
    static_receive_buffers: &StaticReceiveParams,
    code: i32,
    reply_bytes: usize,
) -> (reply: Result<(Vec<u32>, TranslateParams<'a>), ReplyError>)
    requires
        reply_bytes <= MAX_REPLY_BYTES,
    ensures
        match reply {
            Ok((normal, params)) => cmd_reply(cmdbuf@, code, reply_bytes as int) == Ok::<
                _,
                ReplyError,
            >((normal@, params@)),
            Err(e) => cmd_reply(cmdbuf@, code, reply_bytes as int) == Err::<
                (Seq<u32>, Seq<Param>),
                _,
            >(e),
        },
        code < 0 ==> (reply matches Err(ReplyError::Refused(c)) && c == code),
        code >= 0 && cmdbuf@[1] >= 0x8000_0000 ==> (reply matches Err(ReplyError::Refused(c)) && c
            == cmdbuf@[1] - 0x1_0000_0000),
        final(area)@ == area_without(old(area)@, static_receive_buffers@),
{
    static_receive_buffers.remove(area);
    match read_struct_reply(cmdbuf, code, reply_bytes) {
        Err(e) => Err(e),
        Ok(normal) => {
            let response_header = IPCHeader::from(cmdbuf[0]);
            let start: usize = 1 + response_header.normal_params;
            let end: usize = start + response_header.translate_params;
            if end > IPC_CMDBUF_WORDS {
                return Err(ReplyError::Overlong);
            }
            match TranslateParams::try_parse_returned_params(&cmdbuf.as_slice()[start..end]) {
                Ok(params) => Ok((normal, params)),
                Err(e) => Err(ReplyError::Params(e)),
            }
        },
    }
}

/// A result code is the word that carries it, as a number of 32 bits with a sign: it is negative
/// exactly when the top bit of the word is set.
pub proof fn code_of_word_is_signed(word: u32)
    ensures
        (code_of_word(word) - word) % 0x1_0000_0000 == 0,
        code_of_word(word) < 0 <==> word >= 0x8000_0000,
{
}

/// A request that fits the command buffer is one word that holds the command and the two counts,
/// then the normal parameters, then the translated ones, and nothing else.
pub proof fn request_layout(command_id: u16, normal: Seq<u32>, translated: Seq<u32>)
    requires
        normal.len() + translated.len() <= 63,
    ensures
        ({
            let message = request(command_id, normal, translated);
            &&& message.len() == 1 + normal.len() + translated.len()
            &&& message[0] == command_id * 0x1_0000 + normal.len() * 64 + translated.len()
            &&& forall|j: int| 0 <= j < normal.len() ==> message[1 + j] == #[trigger] normal[j]
            &&& forall|j: int|
                0 <= j < translated.len() ==> message[1 + normal.len() + j]
                    == #[trigger] translated[j]
        }),
{
}

/// A message of any length that fits, even of a single word, stands whole at the front of the
/// command buffer, and behind it the buffer is what it was.
pub proof fn message_at_front(message: Seq<u32>, cmdbuf: Seq<u32>)
    requires
        message.len() <= cmdbuf.len(),
    ensures
        at_front(message, cmdbuf).len() == cmdbuf.len(),
        at_front(message, cmdbuf).take(message.len() as int) == message,
        at_front(message, cmdbuf).skip(message.len() as int) == cmdbuf.skip(message.len() as int),
{
    assert(at_front(message, cmdbuf).take(message.len() as int) =~= message);
    assert(at_front(message, cmdbuf).skip(message.len() as int) =~= cmdbuf.skip(
        message.len() as int,
    ));
}

/// What a call left in the command buffer is a success exactly when neither result code is
/// negative and the header counts, besides the result code, just as many words as hold the bytes
/// that were expected; the normal parameters are then the words behind the result code. A negative
/// result code is the answer, the kernel's before the service's.
pub proof fn normal_reply_read(cmdbuf: Seq<u32>, code: i32, reply_bytes: int)
    requires
        cmdbuf.len() == 64,
        0 <= reply_bytes <= 248,
    ensures
        ({
            let words = cmdbuf[0] / 64 % 64 - 1;
            match normal_reply(cmdbuf, code, reply_bytes) {
                Ok(normal) => {
                    &&& code >= 0
                    &&& cmdbuf[1] < 0x8000_0000
                    &&& reply_bytes <= 4 * words < reply_bytes + 4
                    &&& normal.len() == words
                    &&& forall|j: int| 0 <= j < words ==> #[trigger] normal[j] == cmdbuf[2 + j]
                },
                Err(ReplyError::Refused(c)) => if code < 0 {
                    c == code
                } else {
                    cmdbuf[1] >= 0x8000_0000 && c == cmdbuf[1] - 0x1_0000_0000
                },
                Err(ReplyError::WrongSize) => {
                    &&& code >= 0
                    &&& cmdbuf[1] < 0x8000_0000
                    &&& !(reply_bytes <= 4 * words < reply_bytes + 4)
                },
                Err(_) => false,
            }
        }),
{
}

/// The translated parameters of a reply are what the words behind its normal parameters hold, as
/// many as its header counts; it is refused as overlong exactly when the counts pass the end of the
/// command buffer.
pub proof fn translated_reply_read(cmdbuf: Seq<u32>)
    requires
        cmdbuf.len() == 64,
    ensures
        ({
            let start = 1 + cmdbuf[0] / 64 % 64;
            let end = start + cmdbuf[0] % 64;
            let held = returned_params(cmdbuf.subrange(start, end));
            match translated_reply(cmdbuf) {
                Ok(params) => end <= 64 && (held matches Ok(ps) && ps == params),
                Err(ReplyError::Overlong) => end > 64,
                Err(ReplyError::Params(e)) => end <= 64 && (held matches Err(f) && f == e),
                Err(_) => false,
            }
        }),
{
}

/// A reply is read whole or refused: a fault of the normal parameters comes before one of the
/// translated ones, and without a fault both are given.
pub proof fn cmd_reply_has_both(cmdbuf: Seq<u32>, code: i32, reply_bytes: int)
    ensures
        ({
            let normal = normal_reply(cmdbuf, code, reply_bytes);
            let translated = translated_reply(cmdbuf);
            match cmd_reply(cmdbuf, code, reply_bytes) {
                Ok((n, ps)) => {
                    &&& normal matches Ok(words)
                    &&& words == n
                    &&& translated matches Ok(params)
                    &&& params == ps
                },
                Err(e) => {
                    ||| normal matches Err(f) && f == e
                    ||| normal is Ok && (translated matches Err(f) && f == e)
                },
            }
        }),
{
}

} // verus!
