//! The words that announce a translated parameter.

use vstd::prelude::*;

verus! {

pub const STATIC_BUFFER_MAGIC: u32 = 0x00000002;

pub const READ_BUFFER_MAGIC: u32 = 0x0000000A;

pub const WRITE_BUFFER_MAGIC: u32 = 0x0000000C;

pub const READ_WRITE_BUFFER_MAGIC: u32 = 0x0000000E;

/// The announcement of a static buffer: the length from bit 14 on, the index from bit 10 on.
/// An index of 16 or more runs into the bits of the length.
pub open spec fn static_word(static_index: usize, len: usize) -> u32 {
    STATIC_BUFFER_MAGIC | ((len as u32) << 14) | (static_index as u32) << 10
}

/// The announcement of a mapped buffer: the length from bit 4 on, above the magic.
pub open spec fn mapped_word(magic: u32, len: usize) -> u32 {
    ((len % 0x1000_0000) * 16 + magic) as u32
}

/// What the count bits hold for so many handles: one less than their number, and nothing for none.
pub open spec fn handle_count_bits(number: int) -> int {
    if number == 0 {
        0
    } else {
        (number - 1) % 64
    }
}

/// The announcement of so many handles: six count bits at the top, and two flags.
pub open spec fn handle_word(
    number: int,
    closed_for_caller: bool,
    replace_with_process_id: bool,
) -> u32 {
    (handle_count_bits(number) * 0x400_0000 + (if closed_for_caller {
        0x10int
    } else {
        0
    }) + (if replace_with_process_id {
        0x20int
    } else {
        0
    })) as u32
}

/// Announces a buffer of `len` bytes for the receiver's static buffer `static_index`.
pub fn static_buffer_descriptor(static_index: usize, len: usize) -> (descriptor: u32)
    ensures
        descriptor == static_word(static_index, len),
        static_index < 16 ==> descriptor == STATIC_BUFFER_MAGIC + static_index * 0x400 + (len
            % 0x4_0000) * 0x4000,
{
    proof {
        lemma_static_fields(static_index, len);
    }
    STATIC_BUFFER_MAGIC | ((len as u32) << 14) | (static_index as u32) << 10
}

/// Announces a buffer of `len` bytes that the receiver may read.
pub fn read_buffer_descriptor(len: usize) -> (descriptor: u32)
    ensures
        descriptor == mapped_word(READ_BUFFER_MAGIC, len),
        descriptor % 16 == 0xA,
        descriptor / 16 == len % 0x1000_0000,
{
    proof {
        lemma_mapped_bits(len);
    }
    READ_BUFFER_MAGIC | ((len as u32) << 4)
}

/// Announces a buffer of `len` bytes that the receiver may write.
pub fn write_buffer_descriptor(len: usize) -> (descriptor: u32)
    ensures
        descriptor == mapped_word(WRITE_BUFFER_MAGIC, len),
        descriptor % 16 == 0xC,
        descriptor / 16 == len % 0x1000_0000,
{
    proof {
        lemma_mapped_bits(len);
    }
    WRITE_BUFFER_MAGIC | ((len as u32) << 4)
}

/// Announces a buffer of `len` bytes that the receiver may read and write.
pub fn read_write_buffer_descriptor(len: usize) -> (descriptor: u32)
    ensures
        descriptor == mapped_word(READ_WRITE_BUFFER_MAGIC, len),
        descriptor % 16 == 0xE,
        descriptor / 16 == len % 0x1000_0000,
{
    proof {
        lemma_mapped_bits(len);
    }
    READ_WRITE_BUFFER_MAGIC | ((len as u32) << 4)
}

/// Announces `len` handles.
pub fn handle_descriptor(
    len: usize,
    closed_for_caller: bool,
    replace_with_process_id: bool,
) -> (descriptor: u32)
    ensures
        descriptor == handle_word(len as int, closed_for_caller, replace_with_process_id),
{
    let count: usize = if len == 0 {
        0
    } else {
        len - 1
    };
    let mut header: u32 = (count as u32) << 26;
    proof {
        lemma_handle_bits(count);
    }
    if closed_for_caller {
        header |= 0x10;
    }
    if replace_with_process_id {
        header |= 0x20;
    }
    header
}

/// How many whole words it takes to hold so many bytes.
pub open spec fn words_for(bytes: int) -> int {
    (bytes + 3) / 4
}

/// How many whole words it takes to hold so many bytes.
pub fn bytes_to_words(bytes: usize) -> (words: usize)
    requires
        bytes + 3 <= usize::MAX,
    ensures
        words == words_for(bytes as int),
{
    (bytes + 3) / 4
}

pub(crate) proof fn lemma_static_fields(static_index: usize, len: usize)
    by (bit_vector)
    ensures
        static_index < 16 ==> 0x2u32 | ((len as u32) << 14) | (static_index as u32) << 10
            == 0x2u32 + static_index * 0x400 + (len % 0x4_0000) * 0x4000,
{
}

proof fn lemma_mapped_bits(len: usize)
    by (bit_vector)
    ensures
        0xAu32 | ((len as u32) << 4) == (len % 0x1000_0000) * 16 + 0xA,
        0xCu32 | ((len as u32) << 4) == (len % 0x1000_0000) * 16 + 0xC,
        0xEu32 | ((len as u32) << 4) == (len % 0x1000_0000) * 16 + 0xE,
{
}

proof fn lemma_handle_bits(len: usize)
    by (bit_vector)
    ensures
        (len as u32) << 26 == (len % 64) * 0x400_0000,
        ((len as u32) << 26) | 0x10 == (len % 64) * 0x400_0000 + 0x10,
        ((len as u32) << 26) | 0x20 == (len % 64) * 0x400_0000 + 0x20,
        (((len as u32) << 26) | 0x10) | 0x20 == (len % 64) * 0x400_0000 + 0x30,
{
}

/// The descriptor of a mapped buffer ends in its magic, and the bits above are the length.
pub proof fn mapped_word_fields(magic: u32, len: usize)
    requires
        magic < 16,
    ensures
        mapped_word(magic, len) % 16 == magic,
        mapped_word(magic, len) / 16 == len % 0x1000_0000,
{
}

/// The descriptor of handles has one less than their number in its top six bits, modulo 64, the
/// two flags in bits 4 and 5, and no other bit. For no handles the top bits are clear.
pub proof fn handle_word_fields(number: nat, closed_for_caller: bool, replace_with_process_id: bool)
    ensures
        ({
            let word = handle_word(number as int, closed_for_caller, replace_with_process_id);
            &&& 1 <= number <= 64 ==> word / 0x400_0000 == number - 1
            &&& number >= 1 ==> (word / 0x400_0000 + 1 - number) % 64 == 0
            &&& number == 0 ==> word / 0x400_0000 == 0
            &&& (word / 32 % 2 == 1) == replace_with_process_id
            &&& (word / 16 % 2 == 1) == closed_for_caller
            &&& word / 64 % 0x10_0000 == 0
            &&& word % 16 == 0
        }),
{
}

/// The descriptor of a static buffer has bit 1 set, the bits of the index from bit 10 on, those of
/// the length from bit 14 on, and no other bit.
pub proof fn static_word_bits(static_index: usize, len: usize, k: u32)
    requires
        k < 32,
    ensures
        k < 10 ==> ((static_word(static_index, len) >> k) % 2 == 1 <==> k == 1),
        10 <= k < 14 ==> ((static_word(static_index, len) >> k) % 2 == 1 <==> (static_index >> (
        (k - 10) as u32)) % 2 == 1),
        14 <= k ==> ((static_word(static_index, len) >> k) % 2 == 1 <==> (static_index >> ((k
            - 10) as u32)) % 2 == 1 || (len >> ((k - 14) as u32)) % 2 == 1),
{
    lemma_static_bits(static_index, len, k);
}

/// The descriptor of a static buffer that exists is the sum of its fields.
pub proof fn static_word_fields(static_index: usize, len: usize)
    requires
        static_index < 16,
    ensures
        static_word(static_index, len) % 0x400 == 2,
        static_word(static_index, len) / 0x400 % 16 == static_index,
        static_word(static_index, len) / 0x4000 == len % 0x4_0000,
{
    lemma_static_fields(static_index, len);
}

proof fn lemma_static_bits(static_index: usize, len: usize, k: u32)
    by (bit_vector)
    requires
        k < 32,
    ensures
        k < 10 ==> (((0x2u32 | ((len as u32) << 14) | (static_index as u32) << 10) >> k) % 2 == 1
            <==> k == 1),
        10 <= k < 14 ==> (((0x2u32 | ((len as u32) << 14) | (static_index as u32) << 10) >> k) % 2
            == 1 <==> (static_index >> ((k - 10) as u32)) % 2 == 1),
        14 <= k ==> (((0x2u32 | ((len as u32) << 14) | (static_index as u32) << 10) >> k) % 2 == 1
            <==> (static_index >> ((k - 10) as u32)) % 2 == 1 || (len >> ((k - 14) as u32)) % 2
            == 1),
{
}

} // verus!
