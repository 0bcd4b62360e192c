//! Static buffers: where the kernel puts data that a reply sends by index.

use core::marker::PhantomData;
use core::mem::size_of_val;

use vstd::prelude::*;

use crate::descriptor::{lemma_static_fields, static_buffer_descriptor, static_word};
use crate::translate::{addr_to_word, addr_word};

verus! {

/// The number of static buffers that a thread has.
pub const STATIC_BUFFERS: usize = 16;

/// The number of words in a thread's static buffer area: a descriptor and an address for each
/// buffer.
pub const STATIC_BUFFER_AREA_WORDS: usize = 32;

/// One entry of the static buffer area.
#[derive(Debug, Clone, Copy, PartialEq, Eq, Structural)]
pub struct StaticBufferPair {
    pub descriptor: u32,
    /// The address of the buffer, as the kernel knows it.
    pub buffer: u32,
}

/// The buffers into which a reply may send data, by index. The lifetime is that of the borrows
/// which the addresses were taken from.
pub struct StaticReceiveParams<'a> {
    marker: PhantomData<&'a ()>,
    buffers: [Option<StaticBufferPair>; STATIC_BUFFERS],
}

impl<'a> View for StaticReceiveParams<'a> {
    type V = Seq<Option<StaticBufferPair>>;

    closed spec fn view(&self) -> Seq<Option<StaticBufferPair>> {
        self.buffers@
    }
}

/// Every index without a buffer.
pub open spec fn no_buffers() -> Seq<Option<StaticBufferPair>> {
    Seq::new(STATIC_BUFFERS as nat, |i: int| None)
}

/// What the static buffer area `area` holds once `buffers` are in it: the entry of each index
/// that has a buffer is replaced, the others stay.
pub open spec fn area_with(area: Seq<u32>, buffers: Seq<Option<StaticBufferPair>>) -> Seq<u32> {
    Seq::new(
        area.len(),
        |k: int|
            match buffers[k / 2] {
                Some(pair) => if k % 2 == 0 {
                    pair.descriptor
                } else {
                    pair.buffer
                },
                None => area[k],
            },
    )
}

/// What the static buffer area `area` holds once `buffers` are out of it: the entry of each
/// index that has a buffer is zero, the others stay.
pub open spec fn area_without(area: Seq<u32>, buffers: Seq<Option<StaticBufferPair>>) -> Seq<u32> {
    Seq::new(
        area.len(),
        |k: int|
            if buffers[k / 2] is Some {
                0
            } else {
                area[k]
            },
    )
}

/// What the static buffer area `area` holds for index `i`.
pub open spec fn entry(area: Seq<u32>, i: int) -> StaticBufferPair {
    StaticBufferPair { descriptor: area[2 * i], buffer: area[2 * i + 1] }
}

/// The static buffer area `area` with `pair` for index `i`.
pub open spec fn with_entry(area: Seq<u32>, i: int, pair: StaticBufferPair) -> Seq<u32> {
    area.update(2 * i, pair.descriptor).update(2 * i + 1, pair.buffer)
}

/// The entry of an index that has no buffer.
pub open spec fn no_entry() -> StaticBufferPair {
    StaticBufferPair { descriptor: 0, buffer: 0 }
}

/// Sets the entry of static buffer `i`.
pub fn set_static_buffer(
    area: &mut [u32; STATIC_BUFFER_AREA_WORDS],
    i: usize,
    buffer_descriptor: StaticBufferPair,
)
    requires
        i < STATIC_BUFFERS,
    ensures
        final(area)@ == with_entry(old(area)@, i as int, buffer_descriptor),
{
    area[2 * i] = buffer_descriptor.descriptor;
    area[2 * i + 1] = buffer_descriptor.buffer;
}

/// Takes the entry of static buffer `i` out, leaving zero, so that no later call finds the
/// address there.
pub fn get_static_buffer(area: &mut [u32; STATIC_BUFFER_AREA_WORDS], i: usize) -> (pair:
    StaticBufferPair)
    requires
        i < STATIC_BUFFERS,
    ensures
        pair == entry(old(area)@, i as int),
        final(area)@ == with_entry(old(area)@, i as int, no_entry()),
{
    let pair = StaticBufferPair { descriptor: area[2 * i], buffer: area[2 * i + 1] };
    area[2 * i] = 0;
    area[2 * i + 1] = 0;
    pair
}

impl<'a> StaticReceiveParams<'a> {
    /// There is one entry for each static buffer, with or without a buffer.
    pub proof fn one_entry_per_index(&self)
        ensures
            self@.len() == STATIC_BUFFERS,
    {
    }

    /// No buffers.
    pub fn new() -> (params: Self)
        ensures
            params@ == no_buffers(),
    {
        let params = StaticReceiveParams { marker: PhantomData, buffers: [None; STATIC_BUFFERS] };
        assert(params@ =~= no_buffers());
        params
    }

    /// Whether static buffer `i` can still be given a buffer.
    pub fn is_free(&self, i: usize) -> (free: bool)
        ensures
            free == (i < STATIC_BUFFERS && self@[i as int] is None),
    {
        i < STATIC_BUFFERS && self.buffers[i].is_none()
    }

    /// Designates `r` to take what the reply sends to static buffer `i`. `addr` is where the
    /// kernel finds `r`, which stays mutably borrowed as long as the parameters live.
    pub fn add_receive_buffer<T>(&mut self, i: usize, r: &'a mut T, addr: usize)
        requires
            i < STATIC_BUFFERS,
            old(self)@[i as int] is None,
        ensures
            final(self)@ == old(self)@.update(
                i as int,
                Some(
                    StaticBufferPair {
                        descriptor: static_word(i, size_of_val(&*old(r))),
                        buffer: addr_word(addr),
                    },
                ),
            ),
    {
        let len: usize = size_of_val(r);
        self.buffers[i] = Some(
            StaticBufferPair {
                descriptor: static_buffer_descriptor(i, len),
                buffer: addr_to_word(addr),
            },
        );
    }

    /// Puts the buffers into the static buffer area, for the kernel to find.
    pub fn install(&self, area: &mut [u32; STATIC_BUFFER_AREA_WORDS])
        ensures
            final(area)@ == area_with(old(area)@, self@),
    {
        let mut i: usize = 0;
        while i < STATIC_BUFFERS
            invariant
                i <= STATIC_BUFFERS,
                forall|k: int| 0 <= k < 2 * i ==> area@[k] == area_with(old(area)@, self@)[k],
                forall|k: int|
                    2 * i <= k < STATIC_BUFFER_AREA_WORDS ==> area@[k] == old(area)@[k],
            decreases STATIC_BUFFERS - i,
        {
            if let Some(pair) = self.buffers[i] {
                set_static_buffer(area, i, pair);
            }
            i += 1;
        }
        assert(area@ =~= area_with(old(area)@, self@));
    }

    /// Takes the buffers out of the static buffer area again.
    pub fn remove(&self, area: &mut [u32; STATIC_BUFFER_AREA_WORDS])
        ensures
            final(area)@ == area_without(old(area)@, self@),
    {
        let mut i: usize = 0;
        while i < STATIC_BUFFERS
            invariant
                i <= STATIC_BUFFERS,
                forall|k: int| 0 <= k < 2 * i ==> area@[k] == area_without(old(area)@, self@)[k],
                forall|k: int|
                    2 * i <= k < STATIC_BUFFER_AREA_WORDS ==> area@[k] == old(area)@[k],
            decreases STATIC_BUFFERS - i,
        {
            if self.buffers[i].is_some() {
                get_static_buffer(area, i);
            }
            i += 1;
        }
        assert(area@ =~= area_without(old(area)@, self@));
    }
}

impl<'a> Default for StaticReceiveParams<'a> {
    fn default() -> (params: Self)
        ensures
            params@ == no_buffers(),
    {
        StaticReceiveParams::new()
    }
}

/// What is set for an index is what is taken out for it.
pub proof fn entry_read_back(area: Seq<u32>, i: int, pair: StaticBufferPair)
    requires
        0 <= i < STATIC_BUFFERS,
        area.len() == STATIC_BUFFER_AREA_WORDS,
    ensures
        entry(with_entry(area, i, pair), i) == pair,
{
}

/// Setting one index leaves the others alone.
pub proof fn other_entries_kept(area: Seq<u32>, i: int, pair: StaticBufferPair, j: int)
    requires
        0 <= i < STATIC_BUFFERS,
        0 <= j < STATIC_BUFFERS,
        i != j,
        area.len() == STATIC_BUFFER_AREA_WORDS,
    ensures
        entry(with_entry(area, i, pair), j) == entry(area, j),
{
}

/// During a call the area holds, for each index, the buffer that it was given; the entries of the
/// other indices are what they were.
pub proof fn area_during_call(area: Seq<u32>, buffers: Seq<Option<StaticBufferPair>>, i: int)
    requires
        0 <= i < STATIC_BUFFERS,
        area.len() == STATIC_BUFFER_AREA_WORDS,
        buffers.len() == STATIC_BUFFERS,
    ensures
        entry(area_with(area, buffers), i) == match buffers[i] {
            Some(pair) => pair,
            None => entry(area, i),
        },
{
}

/// After a call nothing is left of the buffers that it was given, whatever the call wrote into
/// their entries; the entries of the other indices are as the call left them.
pub proof fn area_after_call(area: Seq<u32>, buffers: Seq<Option<StaticBufferPair>>, i: int)
    requires
        0 <= i < STATIC_BUFFERS,
        area.len() == STATIC_BUFFER_AREA_WORDS,
        buffers.len() == STATIC_BUFFERS,
    ensures
        entry(area_without(area, buffers), i) == match buffers[i] {
            Some(_) => no_entry(),
            None => entry(area, i),
        },
{
}

/// A call that leaves the area alone leaves it as if the buffers had never been there.
pub proof fn area_restored(area: Seq<u32>, buffers: Seq<Option<StaticBufferPair>>)
    ensures
        area_without(area_with(area, buffers), buffers) == area_without(area, buffers),
{
    assert(area_without(area_with(area, buffers), buffers) =~= area_without(area, buffers));
}

/// Whether each buffer is announced for the index that it was given.
pub open spec fn announced_by_index(buffers: Seq<Option<StaticBufferPair>>) -> bool {
    forall|i: int|
        #![trigger buffers[i]]
        0 <= i < buffers.len() ==> (buffers[i] matches Some(pair) ==> pair.descriptor / 0x400 % 16
            == i)
}

/// No buffers at all are announced by index.
pub proof fn no_buffers_announced()
    ensures
        announced_by_index(no_buffers()),
{
}

/// A buffer that is added is announced for the index that it was given, and the others stay so.
pub proof fn added_buffer_announced(
    buffers: Seq<Option<StaticBufferPair>>,
    i: usize,
    len: usize,
    buffer: u32,
)
    requires
        announced_by_index(buffers),
        buffers.len() == STATIC_BUFFERS,
        i < STATIC_BUFFERS,
    ensures
        announced_by_index(
            buffers.update(
                i as int,
                Some(StaticBufferPair { descriptor: static_word(i, len), buffer }),
            ),
        ),
{
    lemma_static_fields(i, len);
}

/// Without buffers there are sixteen indices, all of them free.
pub proof fn no_buffers_all_free()
    ensures
        no_buffers().len() == 16,
        forall|i: int| 0 <= i < 16 ==> (#[trigger] no_buffers()[i]) is None,
{
}

/// The entry of an index is the pair of words at twice the index: descriptor, then address.
pub proof fn entry_words(area: Seq<u32>, i: int)
    ensures
        entry(area, i).descriptor == area[2 * i],
        entry(area, i).buffer == area[2 * i + 1],
        no_entry().descriptor == 0,
        no_entry().buffer == 0,
{
}

/// Setting an entry writes its descriptor and its address at twice the index, and no other word.
pub proof fn set_entry_words(area: Seq<u32>, i: int, pair: StaticBufferPair, k: int)
    requires
        0 <= i < 16,
        0 <= k < 32,
        area.len() == 32,
    ensures
        with_entry(area, i, pair).len() == 32,
        with_entry(area, i, pair)[k] == if k == 2 * i {
            pair.descriptor
        } else if k == 2 * i + 1 {
            pair.buffer
        } else {
            area[k]
        },
{
}

/// With the buffers in it, the area has for each index that was given one its descriptor and its
/// address, at twice the index; the words of the other indices are what they were.
pub proof fn installed_words(area: Seq<u32>, buffers: Seq<Option<StaticBufferPair>>, i: int)
    requires
        0 <= i < 16,
        area.len() == 32,
        buffers.len() == 16,
    ensures
        area_with(area, buffers).len() == 32,
        buffers[i] matches Some(pair) ==> {
            &&& area_with(area, buffers)[2 * i] == pair.descriptor
            &&& area_with(area, buffers)[2 * i + 1] == pair.buffer
        },
        buffers[i] is None ==> {
            &&& area_with(area, buffers)[2 * i] == area[2 * i]
            &&& area_with(area, buffers)[2 * i + 1] == area[2 * i + 1]
        },
{
}

/// With the buffers out of it, the area has zero for each index that was given one, whatever stood
/// there; the words of the other indices are what they were.
pub proof fn removed_words(area: Seq<u32>, buffers: Seq<Option<StaticBufferPair>>, i: int)
    requires
        0 <= i < 16,
        area.len() == 32,
        buffers.len() == 16,
    ensures
        area_without(area, buffers).len() == 32,
        buffers[i] is Some ==> {
            &&& area_without(area, buffers)[2 * i] == 0
            &&& area_without(area, buffers)[2 * i + 1] == 0
        },
        buffers[i] is None ==> {
            &&& area_without(area, buffers)[2 * i] == area[2 * i]
            &&& area_without(area, buffers)[2 * i + 1] == area[2 * i + 1]
        },
{
}

} // verus!
