//! What holds of descriptors, parameters and messages taken together.

use vstd::prelude::*;

use crate::command::{at_front, cmd_reply, code_of_word, request, ReplyError};
use crate::descriptor::{
    handle_word, lemma_static_fields, mapped_word, static_word, words_for,
    READ_BUFFER_MAGIC, READ_WRITE_BUFFER_MAGIC, WRITE_BUFFER_MAGIC,
};
use crate::header::{header_read_back, IPCHeader};
use crate::parse::{
    descriptor_kind, first_param, handle_count, prepend, read_params,
    returned_params, ReturnedParamsError,
};
use crate::translate::{params_words, Param};
use crate::IPC_CMDBUF_WORDS;

verus! {

/// The words that `words_for` counts hold the bytes, and one word fewer would not.
pub proof fn words_just_hold_bytes(bytes: int)
    requires
        bytes >= 0,
    ensures
        4 * words_for(bytes) >= bytes,
        4 * (words_for(bytes) - 1) < bytes,
{
}

/// A descriptor says by its kind what it announces, whatever its length, index, number or flags.
pub proof fn descriptors_tell_kinds(
    len: usize,
    static_index: usize,
    number: nat,
    closed_for_caller: bool,
    replace_with_process_id: bool,
)
    ensures
        descriptor_kind(handle_word(number as int, closed_for_caller, replace_with_process_id))
            == 0,
        descriptor_kind(static_word(static_index, len)) == 1,
        descriptor_kind(mapped_word(READ_BUFFER_MAGIC, len)) == 5,
        descriptor_kind(mapped_word(WRITE_BUFFER_MAGIC, len)) == 6,
        descriptor_kind(mapped_word(READ_WRITE_BUFFER_MAGIC, len)) == 7,
{
    assert((0x2u32 | ((len as u32) << 14) | (static_index as u32) << 10) / 2 % 8 == 1)
        by (bit_vector);
}

/// A descriptor of 1 to 64 handles gives back their number and the flags.
pub proof fn handle_word_read_back(
    number: int,
    closed_for_caller: bool,
    replace_with_process_id: bool,
)
    requires
        1 <= number <= 64,
    ensures
        ({
            let descriptor = handle_word(
                number,
                closed_for_caller,
                replace_with_process_id,
            );
            &&& handle_count(descriptor) == number
            &&& (descriptor / 16 % 2 == 1) == closed_for_caller
            &&& (descriptor / 32 % 2 == 1) == replace_with_process_id
        }),
{
}

/// A descriptor of a static buffer gives back its index and, up to 18 bits, its length.
pub proof fn static_word_read_back(static_index: usize, len: usize)
    requires
        static_index < 16,
    ensures
        static_word(static_index, len) / 0x400 % 16 == static_index,
        static_word(static_index, len) / 0x4000 == len % 0x4_0000,
{
    lemma_static_fields(static_index, len);
}

/// Handles take one word more than there are handles; any other parameter takes two words.
pub proof fn param_word_count(param: Param)
    ensures
        param.words().len() == match param {
            Param::Handles { handles, .. } => 1 + handles.len(),
            _ => 2,
        },
{
}

/// Whether a parameter can be read back from its words: the kinds that replies hold, with the
/// lengths and addresses that their words have room for.
pub open spec fn readable(param: Param) -> bool {
    match param {
        Param::Handles { handles, .. } => 1 <= handles.len() <= 64,
        Param::Read { addr, len } => addr <= u32::MAX && len < 0x1000_0000,
        Param::Write { addr, len } => addr <= u32::MAX && len < 0x1000_0000,
        _ => false,
    }
}

/// A readable parameter at the front of a list of words is read back unchanged, and what follows
/// it plays no part.
pub proof fn first_param_read_back(param: Param, rest: Seq<u32>)
    requires
        readable(param),
    ensures
        first_param(param.words() + rest) == Ok::<_, ReturnedParamsError>(
            (param, param.words().len() as int),
        ),
{
    let words = param.words() + rest;
    assert(words[0] == param.words()[0]);
    match param {
        Param::Handles { closed_for_caller, replace_with_process_id, handles } => {
            handle_word_read_back(
                handles.len() as int,
                closed_for_caller,
                replace_with_process_id,
            );
            assert(words.subrange(1, 1 + handles.len() as int) =~= handles);
        },
        _ => {
            assert(words[1] == param.words()[1]);
        },
    }
}

/// Readable parameters are read back from their words unchanged and in order, and then what
/// follows them is read.
pub proof fn params_read_back_before(params: Seq<Param>, rest: Seq<u32>)
    requires
        forall|i: int| 0 <= i < params.len() ==> readable(#[trigger] params[i]),
    ensures
        read_params(params_words(params) + rest) == prepend(params, read_params(rest)),
    decreases params.len(),
{
    if params.len() == 0 {
        assert(params_words(params) + rest =~= rest);
        match read_params(rest) {
            Ok(others) => {
                assert(params + others =~= others);
            },
            Err(_) => {},
        }
    } else {
        let param = params.first();
        let others = params.drop_first();
        let tail = params_words(others) + rest;
        assert(params_words(params) + rest =~= param.words() + tail);
        first_param_read_back(param, tail);
        assert((param.words() + tail).skip(param.words().len() as int) =~= tail);
        assert forall|i: int| 0 <= i < others.len() implies readable(#[trigger] others[i]) by {
            assert(others[i] == params[i + 1]);
        }
        params_read_back_before(others, rest);
        match read_params(rest) {
            Ok(last) => {
                assert(seq![param] + (others + last) =~= params + last);
            },
            Err(_) => {},
        }
    }
}

/// Readable parameters are read back from their words unchanged and in order.
pub proof fn params_read_back(params: Seq<Param>)
    requires
        forall|i: int| 0 <= i < params.len() ==> readable(#[trigger] params[i]),
        params_words(params).len() <= IPC_CMDBUF_WORDS,
    ensures
        returned_params(params_words(params)) == Ok::<_, ReturnedParamsError>(params),
{
    params_read_back_before(params, seq![]);
    assert(params_words(params) + seq![] =~= params_words(params));
    assert(params + Seq::<Param>::empty() =~= params);
}

/// A static buffer, or one that is mapped for reading and writing, is refused wherever it stands
/// behind readable parameters, and whatever follows it.
pub proof fn unreadable_params_refused(before: Seq<Param>, param: Param, rest: Seq<u32>)
    requires
        forall|i: int| 0 <= i < before.len() ==> readable(#[trigger] before[i]),
        param is Static || param is ReadWrite,
    ensures
        read_params(params_words(before) + (param.words() + rest)) == Err::<Seq<Param>, _>(
            if param is Static {
                ReturnedParamsError::StaticBuffer
            } else {
                ReturnedParamsError::ReadWriteBuffer
            },
        ),
{
    let words = param.words() + rest;
    params_read_back_before(before, words);
    assert(words[0] == param.words()[0]);
    match param {
        Param::Static { static_index, addr, len } => {
            descriptors_tell_kinds(len, static_index, 0, false, false);
        },
        _ => {},
    }
}

/// A descriptor without the bits that reading it passes over.
pub open spec fn meaningful(descriptor: u32) -> u32 {
    if descriptor_kind(descriptor) == 0 {
        descriptor & 0xfc00_0030
    } else {
        descriptor & 0xffff_fffe
    }
}

/// A parameter that was read is readable, takes the words that it was read from, and is written
/// as those words, but for the bits of the descriptor that mean nothing.
pub proof fn first_param_rewritten(words: Seq<u32>)
    requires
        words.len() > 0,
    ensures
        first_param(words) matches Ok((param, n)) ==> {
            &&& readable(param)
            &&& 2 <= n <= words.len()
            &&& param.words() == words.take(n).update(0, meaningful(words[0]))
        },
{
    let header = words[0];
    if let Ok((param, n)) = first_param(words) {
        assert(header / 2 % 8 == 0 ==> header & 0xfc00_0030 == (header / 0x400_0000) * 0x400_0000
            + (header / 16 % 2) * 16 + (header / 32 % 2) * 32) by (bit_vector);
        assert(header / 2 % 8 == 5 ==> header & 0xffff_fffe == (header / 16) * 16 + 0xA)
            by (bit_vector);
        assert(header / 2 % 8 == 6 ==> header & 0xffff_fffe == (header / 16) * 16 + 0xC)
            by (bit_vector);
        assert(param.words() =~= words.take(n).update(0, meaningful(header)));
    }
}

/// The words of a list of parameters, each descriptor without the bits that reading it passes
/// over.
pub open spec fn meaningful_words(words: Seq<u32>) -> Seq<u32>
    decreases words.len(),
{
    if words.len() == 0 {
        words
    } else {
        match first_param(words) {
            Ok((_, n)) => words.take(n).update(0, meaningful(words[0])) + meaningful_words(
                words.skip(n),
            ),
            Err(_) => words,
        }
    }
}

/// Whether no descriptor in a list of parameters has bits that reading it passes over.
pub open spec fn all_meaningful(words: Seq<u32>) -> bool
    decreases words.len(),
{
    words.len() > 0 ==> match first_param(words) {
        Ok((_, n)) => meaningful(words[0]) == words[0] && all_meaningful(words.skip(n)),
        Err(_) => true,
    }
}

/// Words whose descriptors have no meaningless bits are left alone when those are cleared.
pub proof fn all_meaningful_kept(words: Seq<u32>)
    requires
        all_meaningful(words),
    ensures
        meaningful_words(words) == words,
    decreases words.len(),
{
    if words.len() > 0 {
        if let Ok((_, n)) = first_param(words) {
            first_param_rewritten(words);
            all_meaningful_kept(words.skip(n));
            assert(words.take(n).update(0, words[0]) + words.skip(n) =~= words);
        }
    }
}

/// A parameter that can be read off the front of `words` is read off the same when more follows.
proof fn lemma_first_param_extended(words: Seq<u32>, rest: Seq<u32>)
    requires
        words.len() > 0,
        first_param(words) is Ok,
    ensures
        first_param(words + rest) == first_param(words),
{
    assert((words + rest)[0] == words[0]);
    if descriptor_kind(words[0]) == 0 {
        let count = handle_count(words[0]);
        assert((words + rest).subrange(1, 1 + count) =~= words.subrange(1, 1 + count));
    } else {
        assert((words + rest)[1] == words[1]);
    }
}

/// Words that can be read are read the same when more words follow, and then those are read.
pub proof fn reading_joins(words: Seq<u32>, rest: Seq<u32>)
    ensures
        read_params(words) matches Ok(params) ==> read_params(words + rest) == prepend(
            params,
            read_params(rest),
        ),
    decreases words.len(),
{
    if let Ok(params) = read_params(words) {
        if words.len() == 0 {
            assert(words + rest =~= rest);
            if let Ok(last) = read_params(rest) {
                assert(params + last =~= last);
            }
        } else {
            first_param_rewritten(words);
            lemma_first_param_extended(words, rest);
            if let Ok((param, n)) = first_param(words) {
                assert((words + rest).skip(n) =~= words.skip(n) + rest);
                reading_joins(words.skip(n), rest);
                if let Ok(others) = read_params(words.skip(n)) {
                    if let Ok(last) = read_params(rest) {
                        assert(seq![param] + (others + last) =~= (seq![param] + others) + last);
                    }
                }
            }
        }
    }
}

/// Parameters that were read are readable, are written as the words that they were read from, but
/// for the bits of the descriptors that mean nothing, and are read back from their own words
/// unchanged.
pub proof fn params_rewritten(words: Seq<u32>)
    ensures
        read_params(words) matches Ok(params) ==> {
            &&& forall|i: int| 0 <= i < params.len() ==> readable(#[trigger] params[i])
            &&& params_words(params).len() == words.len()
            &&& params_words(params) == meaningful_words(words)
            &&& all_meaningful(words) ==> params_words(params) == words
            &&& read_params(params_words(params)) == Ok::<_, ReturnedParamsError>(params)
        },
    decreases words.len(),
{
    if all_meaningful(words) {
        all_meaningful_kept(words);
    }
    if words.len() > 0 {
        first_param_rewritten(words);
        if let Ok((param, n)) = first_param(words) {
            params_rewritten(words.skip(n));
            if let Ok(others) = read_params(words.skip(n)) {
                let params = seq![param] + others;
                assert(params.drop_first() =~= others);
                assert(params.first() == param);
                assert forall|i: int| 0 <= i < params.len() implies readable(
                    #[trigger] params[i],
                ) by {
                    if i > 0 {
                        assert(params[i] == others[i - 1]);
                    }
                }
                params_read_back_before(params, seq![]);
                assert(params_words(params) + seq![] =~= params_words(params));
                assert(params + Seq::<Param>::empty() =~= params);
            }
        }
    } else {
        assert(params_words(seq![]) =~= Seq::<u32>::empty());
    }
}

/// The header of a request that fits the command buffer gives back the command and the two
/// counts, and by them the normal and the translated parameters are found.
pub proof fn request_read_back(command_id: u16, normal: Seq<u32>, translated: Seq<u32>)
    requires
        normal.len() + translated.len() <= IPC_CMDBUF_WORDS - 1,
    ensures
        ({
            let message = request(command_id, normal, translated);
            let header = IPCHeader::of_word(message[0]);
            let start = 1 + header.normal_params;
            &&& header.command == command_id
            &&& header.normal_params == normal.len()
            &&& header.translate_params == translated.len()
            &&& message.subrange(1, start) == normal
            &&& message.subrange(start, start + header.translate_params) == translated
            &&& message.len() == start + header.translate_params
        }),
{
    let message = request(command_id, normal, translated);
    let header = IPCHeader {
        command: command_id,
        normal_params: normal.len() as usize,
        translate_params: translated.len() as usize,
    };
    assert(IPCHeader::of_word(message[0]) == header) by {
        header_read_back(header);
    }
    let start = 1 + header.normal_params;
    assert(message.subrange(1, start) =~= normal);
    assert(message.subrange(start, start + header.translate_params) =~= translated);
}

/// A reply to a call that went through, as a service writes it: the header, which counts the
/// result code among the normal parameters, the result code, then the parameters.
pub open spec fn reply(
    command_id: u16,
    result: u32,
    normal: Seq<u32>,
    params: Seq<Param>,
) -> Seq<u32> {
    request(command_id, seq![result] + normal, params_words(params))
}

/// A reply that reports success, has the expected size and fits the command buffer gives back
/// the normal and the translated parameters that the service put into it.
pub proof fn reply_read_back(
    command_id: u16,
    result: u32,
    normal: Seq<u32>,
    params: Seq<Param>,
    cmdbuf: Seq<u32>,
    code: i32,
    reply_bytes: int,
)
    requires
        code >= 0,
        code_of_word(result) >= 0,
        normal.len() == words_for(reply_bytes),
        forall|i: int| 0 <= i < params.len() ==> readable(#[trigger] params[i]),
        2 + normal.len() + params_words(params).len() <= IPC_CMDBUF_WORDS,
        cmdbuf.len() == IPC_CMDBUF_WORDS,
    ensures
        cmd_reply(
            at_front(reply(command_id, result, normal, params), cmdbuf),
            code,
            reply_bytes,
        ) == Ok::<_, ReplyError>((normal, params)),
{
    let message = reply(command_id, result, normal, params);
    let buf = at_front(message, cmdbuf);
    let translated = params_words(params);
    request_read_back(command_id, seq![result] + normal, translated);
    assert(buf[0] == message[0]);
    assert(buf[1] == result) by {
        assert(message[1] == (seq![result] + normal)[0]);
    }
    let header = IPCHeader::of_word(buf[0]);
    let start = 1 + header.normal_params;
    assert(buf.subrange(2, 2 + words_for(reply_bytes)) =~= normal);
    assert(buf.subrange(start, start + header.translate_params) =~= translated);
    params_read_back(params);
}

/// A call that the kernel refuses is answered with the kernel's result code, whatever is in the
/// command buffer.
pub proof fn refused_by_kernel(cmdbuf: Seq<u32>, code: i32, reply_bytes: int)
    requires
        code < 0,
    ensures
        cmd_reply(cmdbuf, code, reply_bytes) == Err::<(Seq<u32>, Seq<Param>), _>(
            ReplyError::Refused(code),
        ),
{
}

/// A call that the service refuses is answered with the service's result code, whatever the size
/// of the reply and whatever else is in it.
pub proof fn refused_by_service(cmdbuf: Seq<u32>, code: i32, reply_bytes: int)
    requires
        code >= 0,
        code_of_word(cmdbuf[1]) < 0,
    ensures
        cmd_reply(cmdbuf, code, reply_bytes) == Err::<(Seq<u32>, Seq<Param>), _>(
            ReplyError::Refused(code_of_word(cmdbuf[1])),
        ),
{
}

/// A call whose reply carries a result code with its top bit set is answered with that code,
/// whatever the size of the reply and whatever else is in it.
pub proof fn refused_by_result_word(cmdbuf: Seq<u32>, code: i32, reply_bytes: int)
    requires
        code >= 0,
        cmdbuf[1] >= 0x8000_0000,
    ensures
        cmd_reply(cmdbuf, code, reply_bytes) matches Err(ReplyError::Refused(c)) && c == cmdbuf[1]
            - 0x1_0000_0000,
{
}

/// Two replies to calls with the same result and the same expected size are read alike when the
/// words that their headers count are alike: what lies behind a reply plays no part.
pub proof fn words_behind_reply_ignored(
    cmdbuf: Seq<u32>,
    other: Seq<u32>,
    code: i32,
    reply_bytes: int,
)
    requires
        cmdbuf.len() == IPC_CMDBUF_WORDS,
        other.len() == IPC_CMDBUF_WORDS,
        0 <= reply_bytes <= 248,
        cmdbuf[1] == other[1],
        ({
            let end = 1 + cmdbuf[0] / 64 % 64 + cmdbuf[0] % 64;
            forall|k: int| 0 <= k < end && k < 64 ==> #[trigger] cmdbuf[k] == other[k]
        }),
    ensures
        cmd_reply(cmdbuf, code, reply_bytes) == cmd_reply(other, code, reply_bytes),
{
    let words = words_for(reply_bytes);
    let start = 1 + cmdbuf[0] / 64 % 64;
    let end = start + cmdbuf[0] % 64;
    assert(cmdbuf[0] == other[0]);
    if cmdbuf[0] / 64 % 64 == words_for(reply_bytes + 4) {
        assert(cmdbuf.subrange(2, 2 + words) =~= other.subrange(2, 2 + words));
    }
    if end <= 64 {
        assert(cmdbuf.subrange(start, end) =~= other.subrange(start, end));
    }
}

} // verus!
