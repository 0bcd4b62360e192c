//! Translated parameters: what the kernel moves, copies or maps between two processes.

use core::marker::PhantomData;
use core::mem::size_of_val;

use vstd::prelude::*;

use crate::descriptor::{
    handle_descriptor, handle_word, handle_word_fields, mapped_word, read_buffer_descriptor,
    read_write_buffer_descriptor, static_buffer_descriptor, static_word, static_word_bits,
    static_word_fields, write_buffer_descriptor, READ_BUFFER_MAGIC, READ_WRITE_BUFFER_MAGIC,
    WRITE_BUFFER_MAGIC,
};
use crate::Handle;

verus! {

/// One translated parameter. A buffer is held by its address and its length in bytes; the
/// lifetime is that of the borrow which the address was taken from.
pub enum Translation<'a> {
    /// Handles to hand to the receiver.
    Handles { closed_for_caller: bool, replace_with_process_id: bool, handles: Vec<Handle> },
    /// A buffer to copy into one of the receiver's static buffers.
    Static { static_index: usize, addr: usize, len: usize, marker: PhantomData<&'a ()> },
    /// A buffer to map for the receiver to read.
    Read { addr: usize, len: usize, marker: PhantomData<&'a ()> },
    /// A buffer to map for the receiver to write.
    Write { addr: usize, len: usize, marker: PhantomData<&'a ()> },
    /// A buffer to map for the receiver to read and write.
    ReadWrite { addr: usize, len: usize, marker: PhantomData<&'a ()> },
}

/// A translated parameter as a mathematical value.
pub enum Param {
    Handles { closed_for_caller: bool, replace_with_process_id: bool, handles: Seq<Handle> },
    Static { static_index: usize, addr: usize, len: usize },
    Read { addr: usize, len: usize },
    Write { addr: usize, len: usize },
    ReadWrite { addr: usize, len: usize },
}

/// An address as the word that stands for it in a message. The kernel's addresses are 32 bits
/// wide; of a wider one the rest is lost.
pub open spec fn addr_word(addr: usize) -> u32 {
    (addr as int % 0x1_0000_0000) as u32
}

impl Param {
    /// The words that the parameter takes in a message: its descriptor, then its data.
    pub open spec fn words(self) -> Seq<u32> {
        match self {
            Param::Handles { closed_for_caller, replace_with_process_id, handles } => seq![
                handle_word(
                    handles.len() as int,
                    closed_for_caller,
                    replace_with_process_id,
                ),
            ] + handles,
            Param::Static { static_index, addr, len } => seq![
                static_word(static_index, len),
                addr_word(addr),
            ],
            Param::Read { addr, len } => seq![
                mapped_word(READ_BUFFER_MAGIC, len),
                addr_word(addr),
            ],
            Param::Write { addr, len } => seq![
                mapped_word(WRITE_BUFFER_MAGIC, len),
                addr_word(addr),
            ],
            Param::ReadWrite { addr, len } => seq![
                mapped_word(READ_WRITE_BUFFER_MAGIC, len),
                addr_word(addr),
            ],
        }
    }
}

/// The words that a list of parameters takes in a message, one parameter after the other.
pub open spec fn params_words(params: Seq<Param>) -> Seq<u32>
    decreases params.len(),
{
    if params.len() == 0 {
        seq![]
    } else {
        params.first().words() + params_words(params.drop_first())
    }
}

impl<'a> View for Translation<'a> {
    type V = Param;

    open spec fn view(&self) -> Param {
        match *self {
            Translation::Handles { closed_for_caller, replace_with_process_id, handles } =>
                Param::Handles { closed_for_caller, replace_with_process_id, handles: handles@ },
            Translation::Static { static_index, addr, len, .. } => Param::Static {
                static_index,
                addr,
                len,
            },
            Translation::Read { addr, len, .. } => Param::Read { addr, len },
            Translation::Write { addr, len, .. } => Param::Write { addr, len },
            Translation::ReadWrite { addr, len, .. } => Param::ReadWrite { addr, len },
        }
    }
}

/// The word that stands for an address in a message.
pub fn addr_to_word(addr: usize) -> (word: u32)
    ensures
        word == addr_word(addr),
{
    proof {
        assert(addr as u32 == addr as u64 % 0x1_0000_0000) by (bit_vector);
    }
    addr as u32
}

impl<'a> From<&Translation<'a>> for Vec<u32> {
    /// The words that the parameter takes in a message.
    fn from(value: &Translation<'a>) -> (words: Self)
        ensures
            words@ == value@.words(),
    {
        let mut v: Vec<u32> = Vec::new();
        match value {
            Translation::Handles { closed_for_caller, replace_with_process_id, handles } => {
                let header: u32 = handle_descriptor(
                    handles.len(),
                    *closed_for_caller,
                    *replace_with_process_id,
                );
                v.push(header);
                v.extend_from_slice(handles);
            },
            Translation::Static { static_index, addr, len, .. } => {
                let header: u32 = static_buffer_descriptor(*static_index, *len);
                v.push(header);
                v.push(addr_to_word(*addr));
            },
            Translation::Read { addr, len, .. } => {
                let header: u32 = read_buffer_descriptor(*len);
                v.push(header);
                v.push(addr_to_word(*addr));
            },
            Translation::Write { addr, len, .. } => {
                let header: u32 = write_buffer_descriptor(*len);
                v.push(header);
                v.push(addr_to_word(*addr));
            },
            Translation::ReadWrite { addr, len, .. } => {
                let header: u32 = read_write_buffer_descriptor(*len);
                v.push(header);
                v.push(addr_to_word(*addr));
            },
        }
        v
    }
}

// A vector is more than the words in it, so no vector is singled out here: what the conversion
// gives is said by its own postcondition.
impl<'a> vstd::std_specs::convert::FromSpecImpl<&Translation<'a>> for Vec<u32> {
    open spec fn obeys_from_spec() -> bool {
        false
    }

    open spec fn from_spec(value: &Translation<'a>) -> Vec<u32> {
        arbitrary()
    }
}

/// The translated parameters of a message, in order.
pub struct TranslateParams<'a>(Vec<Translation<'a>>);

impl<'a> View for TranslateParams<'a> {
    type V = Seq<Param>;

    closed spec fn view(&self) -> Seq<Param> {
        Seq::new(self.0@.len(), |i: int| self.0@[i]@)
    }
}

impl<'a> TranslateParams<'a> {
    /// No parameters.
    pub fn new() -> (params: Self)
        ensures
            params@ == Seq::<Param>::empty(),
    {
        TranslateParams(Vec::new())
    }

    /// Appends one parameter.
    pub(crate) fn push(&mut self, param: Translation<'a>)
        ensures
            final(self)@ == old(self)@.push(param@),
    {
        self.0.push(param);
    }

    /// Adds handles to send to the receiver.
    pub fn add_handles(
        &mut self,
        closed_for_caller: bool,
        replace_with_process_id: bool,
        handles: Vec<Handle>,
    ) -> (params: &mut Self)
        ensures
            params@ == old(self)@.push(
                Param::Handles { closed_for_caller, replace_with_process_id, handles: handles@ },
            ),
            *final(self) == *final(params),
    {
        self.push(Translation::Handles { closed_for_caller, replace_with_process_id, handles });
        self
    }

    /// Adds a buffer to be copied into one of the receiver's static buffers. `addr` is where the
    /// kernel finds `buffer`, which stays borrowed as long as the parameters live.
    pub fn add_static_buffer<T: ?Sized>(
        &mut self,
        destination_buffer_index: usize,
        buffer: &'a T,
        addr: usize,
    ) -> (params: &mut Self)
        ensures
            params@ == old(self)@.push(
                Param::Static {
                    static_index: destination_buffer_index,
                    addr,
                    len: size_of_val(buffer),
                },
            ),
            *final(self) == *final(params),
    {
        let len: usize = size_of_val(buffer);
        self.push(
            Translation::Static {
                static_index: destination_buffer_index,
                addr,
                len,
                marker: PhantomData,
            },
        );
        self
    }

    /// Adds a buffer to be mapped for the receiver to read. `addr` is where the kernel finds
    /// `buffer`, which stays borrowed as long as the parameters live.
    pub fn add_read_buffer<T: ?Sized>(&mut self, buffer: &'a T, addr: usize) -> (params: &mut Self)
        ensures
            params@ == old(self)@.push(Param::Read { addr, len: size_of_val(buffer) }),
            *final(self) == *final(params),
    {
        let len: usize = size_of_val(buffer);
        self.push(Translation::Read { addr, len, marker: PhantomData });
        self
    }

    /// Adds a buffer to be mapped for the receiver to write. `addr` is where the kernel finds
    /// `buffer`, which stays mutably borrowed as long as the parameters live.
    pub fn add_write_buffer<T: ?Sized>(&mut self, buffer: &'a mut T, addr: usize) -> (params:
        &mut Self)
        ensures
            params@ == old(self)@.push(Param::Write { addr, len: size_of_val(&*old(buffer)) }),
            *final(self) == *final(params),
    {
        let len: usize = size_of_val(buffer);
        self.push(Translation::Write { addr, len, marker: PhantomData });
        self
    }

    /// Adds a buffer to be mapped for the receiver to read and write. `addr` is where the kernel
    /// finds `buffer`, which stays mutably borrowed as long as the parameters live.
    pub fn add_read_write_buffer<T: ?Sized>(&mut self, buffer: &'a mut T, addr: usize) -> (params:
        &mut Self)
        ensures
            params@ == old(self)@.push(Param::ReadWrite { addr, len: size_of_val(&*old(buffer)) }),
            *final(self) == *final(params),
    {
        let len: usize = size_of_val(buffer);
        self.push(Translation::ReadWrite { addr, len, marker: PhantomData });
        self
    }

    /// The parameters in the format that goes into a message. The words hold addresses, which are
    /// good as long as the parameters, and with them the borrows of the buffers, live.
    pub fn finish(&self) -> (words: Vec<u32>)
        ensures
            words@ == params_words(self@),
    {
        let mut words: Vec<u32> = Vec::new();
        let mut i: usize = 0;
        while i < self.0.len()
            invariant
                i <= self.0.len(),
                words@ == params_words(self@.take(i as int)),
            decreases self.0.len() - i,
        {
            let mut next: Vec<u32> = Vec::from(&self.0[i]);
            proof {
                let taken = self@.take(i as int);
                assert(self@.take(i + 1) =~= taken.push(self@[i as int]));
                params_words_push(taken, self@[i as int]);
            }
            words.append(&mut next);
            i += 1;
        }
        proof {
            assert(self@.take(i as int) =~= self@);
        }
        words
    }
}

impl<'a> Default for TranslateParams<'a> {
    fn default() -> (params: Self)
        ensures
            params@ == Seq::<Param>::empty(),
    {
        TranslateParams::new()
    }
}

/// Two lists of parameters written one after the other take the words of the first, then those
/// of the second.
pub proof fn params_words_concat(first: Seq<Param>, second: Seq<Param>)
    ensures
        params_words(first + second) == params_words(first) + params_words(second),
    decreases first.len(),
{
    if first.len() == 0 {
        assert(first + second =~= second);
    } else {
        params_words_concat(first.drop_first(), second);
        assert((first + second).drop_first() =~= first.drop_first() + second);
        assert((first + second).first() == first.first());
    }
}

/// A parameter that is added takes its words behind those that were there, which do not change.
pub proof fn params_words_push(params: Seq<Param>, param: Param)
    ensures
        params_words(params.push(param)) == params_words(params) + param.words(),
{
    params_words_concat(params, seq![param]);
    assert(params.push(param) =~= params + seq![param]);
    reveal_with_fuel(params_words, 2);
    assert(seq![param].drop_first() =~= Seq::<Param>::empty());
}

/// The word of an address has its low 32 bits.
pub proof fn addr_word_keeps_low_bits(addr: usize)
    ensures
        (addr - addr_word(addr)) % 0x1_0000_0000 == 0,
        addr <= u32::MAX ==> addr_word(addr) == addr,
{
}

/// A parameter of a message and what it stands for are of one kind and hold the same.
pub proof fn translation_stands_for(translation: Translation<'_>)
    ensures
        match translation {
            Translation::Handles { closed_for_caller, replace_with_process_id, handles } => {
                &&& translation@ matches Param::Handles {
                    closed_for_caller: closed,
                    replace_with_process_id: replaced,
                    handles: hs,
                }
                &&& closed == closed_for_caller
                &&& replaced == replace_with_process_id
                &&& hs == handles@
            },
            Translation::Static { static_index, addr, len, .. } => {
                &&& translation@ matches Param::Static { static_index: i, addr: a, len: n }
                &&& i == static_index && a == addr && n == len
            },
            Translation::Read { addr, len, .. } => {
                &&& translation@ matches Param::Read { addr: a, len: n }
                &&& a == addr && n == len
            },
            Translation::Write { addr, len, .. } => {
                &&& translation@ matches Param::Write { addr: a, len: n }
                &&& a == addr && n == len
            },
            Translation::ReadWrite { addr, len, .. } => {
                &&& translation@ matches Param::ReadWrite { addr: a, len: n }
                &&& a == addr && n == len
            },
        },
{
}

/// Handles are written as a word that has one less than their number at the top, the two flags in
/// bits 4 and 5 and no other bit, and then the handles themselves, in order.
pub proof fn handles_written(
    closed_for_caller: bool,
    replace_with_process_id: bool,
    handles: Seq<Handle>,
)
    ensures
        ({
            let words = Param::Handles {
                closed_for_caller,
                replace_with_process_id,
                handles,
            }.words();
            &&& words.len() == 1 + handles.len()
            &&& forall|j: int| 0 <= j < handles.len() ==> words[1 + j] == #[trigger] handles[j]
            &&& 1 <= handles.len() <= 64 ==> words[0] / 0x400_0000 == handles.len() - 1
            &&& handles.len() >= 1 ==> (words[0] / 0x400_0000 + 1 - handles.len()) % 64 == 0
            &&& handles.len() == 0 ==> words[0] / 0x400_0000 == 0
            &&& (words[0] / 32 % 2 == 1) == replace_with_process_id
            &&& (words[0] / 16 % 2 == 1) == closed_for_caller
            &&& words[0] / 64 % 0x10_0000 == 0
            &&& words[0] % 16 == 0
        }),
{
    handle_word_fields(handles.len(), closed_for_caller, replace_with_process_id);
}

/// A buffer is written as two words. The second is the low 32 bits of its address. The first says
/// by its low bits what the buffer is for, and holds its length above them: with the index between
/// for a static buffer, which is the sum of its fields for an index that exists.
pub proof fn buffer_written(param: Param)
    requires
        param !is Handles,
    ensures
        param.words().len() == 2,
        match param {
            Param::Handles { .. } => true,
            Param::Static { static_index, addr, len } => {
                &&& (addr - param.words()[1]) % 0x1_0000_0000 == 0
                &&& static_index < 16 ==> param.words()[0] == 2 + static_index * 0x400 + (len
                    % 0x4_0000) * 0x4000
                &&& forall|k: u32|
                    #![trigger param.words()[0] >> k]
                    k < 32 ==> ((param.words()[0] >> k) % 2 == 1 <==> {
                        ||| k == 1
                        ||| 10 <= k && (static_index >> ((k - 10) as u32)) % 2 == 1
                        ||| 14 <= k && (len >> ((k - 14) as u32)) % 2 == 1
                    })
            },
            Param::Read { addr, len } => {
                &&& (addr - param.words()[1]) % 0x1_0000_0000 == 0
                &&& param.words()[0] % 16 == 0xA
                &&& param.words()[0] / 16 == len % 0x1000_0000
            },
            Param::Write { addr, len } => {
                &&& (addr - param.words()[1]) % 0x1_0000_0000 == 0
                &&& param.words()[0] % 16 == 0xC
                &&& param.words()[0] / 16 == len % 0x1000_0000
            },
            Param::ReadWrite { addr, len } => {
                &&& (addr - param.words()[1]) % 0x1_0000_0000 == 0
                &&& param.words()[0] % 16 == 0xE
                &&& param.words()[0] / 16 == len % 0x1000_0000
            },
        },
{
    if let Param::Static { static_index, addr, len } = param {
        if static_index < 16 {
            static_word_fields(static_index, len);
        }
        assert forall|k: u32| #![trigger param.words()[0] >> k] k < 32 implies ((param.words()[0]
            >> k) % 2 == 1 <==> {
            ||| k == 1
            ||| 10 <= k && (static_index >> ((k - 10) as u32)) % 2 == 1
            ||| 14 <= k && (len >> ((k - 14) as u32)) % 2 == 1
        }) by {
            static_word_bits(static_index, len, k);
        }
    }
}

/// No parameters take no words.
pub proof fn no_params_no_words()
    ensures
        params_words(Seq::empty()).len() == 0,
{
}

/// Every word of a parameter stands in the message where the words of those before it end.
pub proof fn param_words_in_message(params: Seq<Param>, i: int)
    requires
        0 <= i < params.len(),
    ensures
        ({
            let start = params_words(params.take(i)).len() as int;
            &&& start + params[i].words().len() <= params_words(params).len()
            &&& params_words(params).subrange(start, start + params[i].words().len())
                == params[i].words()
        }),
{
    let before = params.take(i);
    let after = params.skip(i + 1);
    assert(params =~= before.push(params[i]) + after);
    params_words_concat(before.push(params[i]), after);
    params_words_push(before, params[i]);
    let start = params_words(before).len() as int;
    assert(params_words(params).subrange(start, start + params[i].words().len())
        =~= params[i].words());
}

} // verus!
