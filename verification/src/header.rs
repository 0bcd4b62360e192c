//! The first word of a request or a reply.

use vstd::prelude::*;

use crate::IPC_CMDBUF_WORDS;

verus! {

/// What the first word of a message says: which command it is, and how many words of normal
/// and of translated parameters follow.
#[derive(Debug, Clone, Copy, PartialEq, Eq, Structural)]
pub struct IPCHeader {
    pub command: u16,
    pub normal_params: usize,
    pub translate_params: usize,
}

impl IPCHeader {
    /// A header for a message that fits the command buffer.
    pub fn new(command: u16, normal_params: usize, translate_params: usize) -> (header: Self)
        requires
            normal_params + translate_params <= IPC_CMDBUF_WORDS - 1,
        ensures
            header == (IPCHeader { command, normal_params, translate_params }),
    {
        IPCHeader { command, normal_params, translate_params }
    }

    /// The header as a word: the command in the upper half, then the two counts, six bits each.
    /// Of a count that takes more than six bits the rest is lost.
    pub open spec fn word(self) -> u32 {
        (self.command * 0x1_0000 + (self.normal_params % 64) * 64 + self.translate_params
            % 64) as u32
    }

    /// The header that a word stands for. Bits 12 to 15 mean nothing.
    pub open spec fn of_word(word: u32) -> IPCHeader {
        IPCHeader {
            command: (word / 0x1_0000) as u16,
            normal_params: (word / 64 % 64) as usize,
            translate_params: (word % 64) as usize,
        }
    }
}

impl From<u32> for IPCHeader {
    fn from(header: u32) -> (res: Self)
        ensures
            res.normal_params < 64,
            res.translate_params < 64,
            header == res.command * 0x1_0000 + (header / 0x1000 % 16) * 0x1000 + res.normal_params
                * 64 + res.translate_params,
    {
        let command: u16 = ((header >> 16) & 0xffff) as u16;
        let normal_params: usize = ((header >> 6) & 0x3f) as usize;
        let translate_params: usize = (header & 0x3f) as usize;
        proof {
            header_fields_make_word(header);
            assert((header >> 16) & 0xffff == header / 0x1_0000 && (header >> 6) & 0x3f == header
                / 64 % 64 && header & 0x3f == header % 64) by (bit_vector);
        }
        IPCHeader { command, normal_params, translate_params }
    }
}

impl vstd::std_specs::convert::FromSpecImpl<u32> for IPCHeader {
    open spec fn obeys_from_spec() -> bool {
        true
    }

    open spec fn from_spec(header: u32) -> IPCHeader {
        IPCHeader::of_word(header)
    }
}

impl From<IPCHeader> for u32 {
    fn from(header: IPCHeader) -> (res: Self)
        ensures
            res / 0x1_0000 == header.command,
            res / 0x1000 % 16 == 0,
            res / 64 % 64 == header.normal_params % 64,
            res % 64 == header.translate_params % 64,
    {
        let command: u16 = header.command;
        let normal: usize = header.normal_params;
        let translate: usize = header.translate_params;
        proof {
            lemma_header_bits(command, normal, translate);
            header_word_fields(header);
        }
        (command as u32) << 16 | ((normal as u32) & 0x3f) << 6 | (translate as u32) & 0x3f
    }
}

impl vstd::std_specs::convert::FromSpecImpl<IPCHeader> for u32 {
    open spec fn obeys_from_spec() -> bool {
        true
    }

    open spec fn from_spec(header: IPCHeader) -> u32 {
        header.word()
    }
}

/// The three bit fields of a header word do not overlap, so joining them is adding them.
proof fn lemma_header_bits(command: u16, normal: usize, translate: usize)
    by (bit_vector)
    ensures
        (command as u32) << 16 | ((normal as u32) & 0x3f) << 6 | (translate as u32) & 0x3f
            == command * 0x1_0000 + (normal % 64) * 64 + translate % 64,
{
}

/// A header survives being written to a word and read back, provided that its counts fit the
/// six bits that each has.
pub proof fn header_read_back(header: IPCHeader)
    requires
        header.normal_params < 64,
        header.translate_params < 64,
    ensures
        IPCHeader::of_word(header.word()) == header,
{
    header_word_fields(header);
}

/// A word read as a header and written again keeps every bit but the four that mean nothing,
/// which come out clear.
pub proof fn header_rewritten(word: u32)
    ensures
        IPCHeader::of_word(word).word() == word & 0xffff_0fff,
{
    assert(word & 0xffff_0fff == (word / 0x1_0000) * 0x1_0000 + (word / 64 % 64) * 64 + word % 64)
        by (bit_vector);
}

/// A header word holds the command in its upper half, then four clear bits, then the two counts,
/// six bits each, and nothing else.
pub proof fn header_word_fields(header: IPCHeader)
    ensures
        header.word() / 0x1_0000 == header.command,
        header.word() / 0x1000 % 16 == 0,
        header.word() / 64 % 64 == header.normal_params % 64,
        header.word() % 64 == header.translate_params % 64,
{
    lemma_header_sum(
        header.command,
        (header.normal_params % 64) as u32,
        (header.translate_params % 64) as u32,
    );
}

/// The sum of a header's fields gives each of them back by division.
proof fn lemma_header_sum(command: u16, normal: u32, translate: u32)
    by (bit_vector)
    requires
        normal < 64,
        translate < 64,
    ensures
        command * 0x1_0000 + normal * 64 + translate <= 0xffff_ffff,
        (command * 0x1_0000 + normal * 64 + translate) / 0x1_0000 == command,
        (command * 0x1_0000 + normal * 64 + translate) / 0x1000 % 16 == 0,
        (command * 0x1_0000 + normal * 64 + translate) / 64 % 64 == normal,
        (command * 0x1_0000 + normal * 64 + translate) % 64 == translate,
{
}

/// The fields that are read off a word add up to the word, with the four bits that mean nothing,
/// and neither count takes more than six bits.
pub proof fn header_fields_make_word(word: u32)
    ensures
        IPCHeader::of_word(word).normal_params < 64,
        IPCHeader::of_word(word).translate_params < 64,
        word == IPCHeader::of_word(word).command * 0x1_0000 + (word / 0x1000 % 16) * 0x1000
            + IPCHeader::of_word(word).normal_params * 64 + IPCHeader::of_word(
            word,
        ).translate_params,
{
    lemma_word_is_sum(word);
}

/// A word is the sum of a header's fields and the four bits between them.
proof fn lemma_word_is_sum(word: u32)
    by (bit_vector)
    ensures
        word == (word / 0x1_0000) * 0x1_0000 + (word / 0x1000 % 16) * 0x1000 + (word / 64 % 64) * 64
            + word % 64,
        word / 0x1_0000 <= 0xffff,
{
}

} // verus!
