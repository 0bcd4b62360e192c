//! Reading the translated parameters of a reply.

use core::marker::PhantomData;

use vstd::prelude::*;

use crate::translate::{Param, TranslateParams, Translation};
use crate::{Handle, IPC_CMDBUF_WORDS};

verus! {

/// What the receiver of a mapped buffer may do with it.
#[derive(Debug, Clone, Copy, PartialEq, Eq, Structural)]
pub enum TranslationPermission {
    Read,
    Write,
    ReadWrite,
}

impl TranslationPermission {
    /// The permission as the two bits that stand for it in a descriptor.
    pub open spec fn bits(self) -> u32 {
        match self {
            TranslationPermission::Read => 1,
            TranslationPermission::Write => 2,
            TranslationPermission::ReadWrite => 3,
        }
    }

    /// The permission that two bits stand for.
    pub fn from(value: u32) -> (permission: Self)
        requires
            1 <= value <= 3,
        ensures
            permission.bits() == value,
            permission is Read <==> value == 1,
            permission is Write <==> value == 2,
            permission is ReadWrite <==> value == 3,
    {
        if value == 1 {
            TranslationPermission::Read
        } else if value == 2 {
            TranslationPermission::Write
        } else {
            TranslationPermission::ReadWrite
        }
    }
}

/// Why words cannot be read as the translated parameters of a reply.
#[derive(Debug, Clone, Copy, PartialEq, Eq, Structural)]
pub enum ReturnedParamsError {
    /// There are more words than the command buffer has.
    TooLong,
    /// Fewer handles follow than their descriptor announces.
    TruncatedHandles,
    /// A static buffer: those are never read back.
    StaticBuffer,
    /// No address follows the descriptor of a mapped buffer.
    MissingAddress,
    /// A buffer mapped for reading and writing: those are not read back.
    ReadWriteBuffer,
    /// The descriptor is of no known kind.
    UnknownKind,
}

/// The kind of parameter that a descriptor announces, by its bits 1 to 3.
pub open spec fn descriptor_kind(descriptor: u32) -> u32 {
    descriptor / 2 % 8
}

/// How many handles follow a descriptor that announces handles.
pub open spec fn handle_count(descriptor: u32) -> int {
    descriptor / 0x400_0000 + 1
}

/// The parameter that stands at the front of `words`, and the number of words that it takes.
pub open spec fn first_param(words: Seq<u32>) -> Result<(Param, int), ReturnedParamsError>
    recommends
        words.len() > 0,
{
    let header = words[0];
    let kind = descriptor_kind(header);
    if kind == 0 {
        let count = handle_count(header);
        if words.len() < 1 + count {
            Err(ReturnedParamsError::TruncatedHandles)
        } else {
            Ok(
                (
                    Param::Handles {
                        closed_for_caller: header / 16 % 2 == 1,
                        replace_with_process_id: header / 32 % 2 == 1,
                        handles: words.subrange(1, 1 + count),
                    },
                    1 + count,
                ),
            )
        }
    } else if kind == 1 {
        Err(ReturnedParamsError::StaticBuffer)
    } else if kind < 5 {
        Err(ReturnedParamsError::UnknownKind)
    } else if words.len() < 2 {
        Err(ReturnedParamsError::MissingAddress)
    } else if kind == 5 {
        Ok((Param::Read { addr: words[1] as usize, len: (header / 16) as usize }, 2))
    } else if kind == 6 {
        Ok((Param::Write { addr: words[1] as usize, len: (header / 16) as usize }, 2))
    } else {
        Err(ReturnedParamsError::ReadWriteBuffer)
    }
}

/// `params`, then what `rest` holds.
pub open spec fn prepend(
    params: Seq<Param>,
    rest: Result<Seq<Param>, ReturnedParamsError>,
) -> Result<Seq<Param>, ReturnedParamsError> {
    match rest {
        Ok(others) => Ok(params + others),
        Err(e) => Err(e),
    }
}

/// The parameters that `words` hold one after the other, or what is wrong with the first that
/// cannot be read.
pub open spec fn read_params(words: Seq<u32>) -> Result<Seq<Param>, ReturnedParamsError>
    decreases words.len(),
{
    if words.len() == 0 {
        Ok(seq![])
    } else {
        match first_param(words) {
            Ok((param, n)) => prepend(seq![param], read_params(words.skip(n))),
            Err(e) => Err(e),
        }
    }
}

/// What the translated parameters of a reply, `words`, are read as.
pub open spec fn returned_params(words: Seq<u32>) -> Result<Seq<Param>, ReturnedParamsError> {
    if words.len() > IPC_CMDBUF_WORDS {
        Err(ReturnedParamsError::TooLong)
    } else {
        read_params(words)
    }
}

impl<'a> TranslateParams<'a> {
    /// Reads the translated parameters of a reply.
    pub fn parse_returned_params(params: &'a [u32]) -> (parsed: TranslateParams<'a>)
        requires
            returned_params(params@) is Ok,
        ensures
            returned_params(params@) == Ok::<_, ReturnedParamsError>(parsed@),
    {
        TranslateParams::try_parse_returned_params(params).unwrap()
    }

    /// Reads the translated parameters of a reply, or says why they cannot be read.
    pub fn try_parse_returned_params(params: &'a [u32]) -> (parsed: Result<
        TranslateParams<'a>,
        ReturnedParamsError,
    >)
        ensures
            match parsed {
                Ok(p) => returned_params(params@) == Ok::<_, ReturnedParamsError>(p@),
                Err(e) => returned_params(params@) == Err::<Seq<Param>, _>(e),
            },
    {
        if params.len() > IPC_CMDBUF_WORDS {
            return Err(ReturnedParamsError::TooLong);
        }
        let mut v: TranslateParams<'a> = TranslateParams::new();
        let mut i: usize = 0;
        proof {
            assert(params@.skip(0) =~= params@);
            lemma_prepend_nothing(read_params(params@));
        }
        while i < params.len()
            invariant
                i <= params.len() <= IPC_CMDBUF_WORDS,
                returned_params(params@) == prepend(v@, read_params(params@.skip(i as int))),
            decreases params.len() - i,
        {
            let ghost rest = params@.skip(i as int);
            let header: u32 = params[i];
            let typ: u32 = (header & 0xe) >> 1;
            proof {
                assert((header & 0xe) >> 1 == header / 2 % 8 && header >> 26 == header / 0x400_0000
                    && (header & 0x10 > 0) == (header / 16 % 2 == 1) && (header & 0x20 > 0) == (
                header / 32 % 2 == 1) && header >> 4 == header / 16) by (bit_vector);
                assert(typ <= 7);
                lemma_prepend_step(v@, rest);
            }
            if typ == 0 {
                let num: usize = ((header >> 26) + 1) as usize;
                if params.len() - i - 1 < num {
                    return Err(ReturnedParamsError::TruncatedHandles);
                }
                let mut handles: Vec<Handle> = Vec::new();
                handles.extend_from_slice(&params[i + 1..i + 1 + num]);
                proof {
                    assert(handles@ =~= rest.subrange(1, 1 + num));
                    assert(rest.skip(1 + num) =~= params@.skip(i + 1 + num));
                }
                v.push(
                    Translation::Handles {
                        closed_for_caller: header & 0x10 > 0,
                        replace_with_process_id: header & 0x20 > 0,
                        handles,
                    },
                );
                i += 1 + num;
            } else if typ == 1 {
                return Err(ReturnedParamsError::StaticBuffer);
            } else if typ < 5 {
                return Err(ReturnedParamsError::UnknownKind);
            } else {
                proof {
                    assert(5 <= typ <= 7 ==> typ & 0x3 == typ - 4) by (bit_vector);
                }
                let perms: TranslationPermission = TranslationPermission::from(typ & 0x3);
                let len: usize = (header >> 4) as usize;
                if params.len() - i < 2 {
                    return Err(ReturnedParamsError::MissingAddress);
                }
                let addr: usize = params[i + 1] as usize;
                proof {
                    assert(rest.skip(2) =~= params@.skip(i + 2));
                }
                match perms {
                    TranslationPermission::Read => {
                        v.push(Translation::Read { addr, len, marker: PhantomData });
                    },
                    TranslationPermission::Write => {
                        v.push(Translation::Write { addr, len, marker: PhantomData });
                    },
                    TranslationPermission::ReadWrite => {
                        return Err(ReturnedParamsError::ReadWriteBuffer);
                    },
                }
                i += 2;
            }
        }
        proof {
            assert(params@.skip(i as int) =~= Seq::<u32>::empty());
            assert(v@ + Seq::<Param>::empty() =~= v@);
        }
        Ok(v)
    }
}

proof fn lemma_prepend_nothing(rest: Result<Seq<Param>, ReturnedParamsError>)
    ensures
        prepend(seq![], rest) == rest,
{
    match rest {
        Ok(others) => {
            assert(Seq::<Param>::empty() + others =~= others);
        },
        Err(_) => {},
    }
}

/// Reading one more parameter off the front of `words` moves it to the end of what was read.
proof fn lemma_prepend_step(read: Seq<Param>, words: Seq<u32>)
    requires
        words.len() > 0,
    ensures
        match first_param(words) {
            Ok((param, n)) => prepend(read, read_params(words)) == prepend(
                read.push(param),
                read_params(words.skip(n)),
            ),
            Err(e) => prepend(read, read_params(words)) == Err::<Seq<Param>, _>(e),
        },
{
    match first_param(words) {
        Ok((param, n)) => {
            match read_params(words.skip(n)) {
                Ok(others) => {
                    assert(read + (seq![param] + others) =~= read.push(param) + others);
                },
                Err(_) => {},
            }
        },
        Err(_) => {},
    }
}

/// Bit 0 of a permission is leave to read, bit 1 leave to write.
pub proof fn permission_bits_tell_leave(permission: TranslationPermission)
    ensures
        permission.bits() < 4,
        permission.bits() % 2 == 1 <==> permission is Read || permission is ReadWrite,
        permission.bits() / 2 == 1 <==> permission is Write || permission is ReadWrite,
{
}

/// The kind of a descriptor is the number that its bits 1 to 3 make.
pub proof fn descriptor_kind_bits(descriptor: u32)
    ensures
        descriptor_kind(descriptor) < 8,
        descriptor % 16 == 2 * descriptor_kind(descriptor) + descriptor % 2,
{
}

/// The top six bits of a descriptor are one less than the number of handles that it announces.
pub proof fn handle_count_bits_read(descriptor: u32)
    ensures
        descriptor == (handle_count(descriptor) - 1) * 0x400_0000 + descriptor % 0x400_0000,
{
}

/// A descriptor of handles is read with as many handles as its top six bits announce, in order,
/// and with the flags of its bits 4 and 5; it is refused exactly when fewer words follow.
pub proof fn handles_read(words: Seq<u32>)
    requires
        words.len() > 0,
        words[0] % 16 < 2,
    ensures
        match first_param(words) {
            Ok((param, n)) => {
                &&& param matches Param::Handles {
                    closed_for_caller,
                    replace_with_process_id,
                    handles,
                }
                &&& closed_for_caller == (words[0] / 16 % 2 == 1)
                &&& replace_with_process_id == (words[0] / 32 % 2 == 1)
                &&& handles.len() == words[0] / 0x400_0000 + 1
                &&& n == handles.len() + 1 <= words.len()
                &&& forall|j: int|
                    0 <= j < handles.len() ==> #[trigger] handles[j] == words[1 + j]
            },
            Err(e) => e is TruncatedHandles && words.len() <= words[0] / 0x400_0000 + 1,
        },
{
}

/// A descriptor of a buffer mapped for reading or for writing is read with the length above its
/// low four bits and the address in the next word; it is refused exactly when there is none.
pub proof fn mapped_buffer_read(words: Seq<u32>)
    requires
        words.len() > 0,
        0xA <= words[0] % 16 < 0xE,
    ensures
        match first_param(words) {
            Ok((Param::Read { addr, len }, n)) => {
                &&& words[0] % 16 < 0xC
                &&& n == 2 <= words.len()
                &&& addr == words[1]
                &&& len == words[0] / 16
            },
            Ok((Param::Write { addr, len }, n)) => {
                &&& words[0] % 16 >= 0xC
                &&& n == 2 <= words.len()
                &&& addr == words[1]
                &&& len == words[0] / 16
            },
            Ok(_) => false,
            Err(e) => e is MissingAddress && words.len() == 1,
        },
{
}

/// Any other descriptor is refused: a static buffer as such, one mapped for reading and writing as
/// such unless it lacks its address, and the rest as unknown.
pub proof fn other_params_refused(words: Seq<u32>)
    requires
        words.len() > 0,
        2 <= words[0] % 16 < 0xA || 0xE <= words[0] % 16,
    ensures
        first_param(words) matches Err(e) && {
            &&& e is StaticBuffer <==> words[0] % 16 < 4
            &&& e is UnknownKind <==> 4 <= words[0] % 16 < 0xA
            &&& e is MissingAddress <==> 0xE <= words[0] % 16 && words.len() == 1
            &&& e is ReadWriteBuffer <==> 0xE <= words[0] % 16 && words.len() >= 2
        },
{
}

/// What was read before stays in front of what is read after, and an error stays what it is.
pub proof fn prepend_keeps(params: Seq<Param>, rest: Result<Seq<Param>, ReturnedParamsError>)
    ensures
        prepend(params, rest) is Ok <==> rest is Ok,
        rest matches Err(e) ==> prepend(params, rest) == Err::<Seq<Param>, _>(e),
        rest matches Ok(others) ==> (prepend(params, rest) matches Ok(all) && {
            &&& all.len() == params.len() + others.len()
            &&& forall|i: int| 0 <= i < params.len() ==> all[i] == #[trigger] params[i]
            &&& forall|i: int|
                0 <= i < others.len() ==> all[params.len() + i] == #[trigger] others[i]
        }),
{
}

/// No words hold no parameters.
pub proof fn no_words_no_params()
    ensures
        read_params(Seq::empty()) matches Ok(params) && params.len() == 0,
{
}

/// Words that one parameter takes up are read as that parameter alone.
pub proof fn single_param_read(words: Seq<u32>)
    requires
        words.len() > 0,
    ensures
        first_param(words) matches Ok((param, n)) ==> n == words.len() ==> (read_params(
            words,
        ) matches Ok(params) && params.len() == 1 && params[0] == param),
{
    if let Ok((_, n)) = first_param(words) {
        if n == words.len() {
            assert(words.skip(n) =~= Seq::<u32>::empty());
            no_words_no_params();
        }
    }
}

/// Words that start with something that cannot be read are refused on its account.
pub proof fn unreadable_front_refused(words: Seq<u32>)
    requires
        words.len() > 0,
    ensures
        first_param(words) matches Err(e) ==> read_params(words) == Err::<Seq<Param>, _>(e),
{
}

/// Up to 64 words are read for what they hold; more are refused unread.
pub proof fn only_long_replies_unread(words: Seq<u32>)
    ensures
        words.len() <= 64 ==> returned_params(words) == read_params(words),
        words.len() > 64 ==> (returned_params(words) matches Err(e) && e is TooLong),
{
}

} // verus!
