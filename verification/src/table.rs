//! The fixed-size descriptor that locates one record in the three segments.

use crate::signature::{Signature, TAG_DIRECTORY, TAG_FILE, TAG_OS};
use crate::wire::{
    lemma_u64_le_round_trip, push_u64_le, read_u32_le, read_u64_le, u32_at, u64_at, u64_to_le,
};
use crate::Error;
use vstd::prelude::*;

verus! {

/// Bytes a table entry takes on the wire: a signature and six `u64` fields.
pub const TABLE_ENTRY_SIZE: usize = 56;

/// Where one record's name, auxiliary data and payload lie. Every offset
/// counts from the start of its own segment.
#[derive(Debug, Clone, Copy, PartialEq, Eq, Structural)]
pub struct ArchiveTableEntry {
    pub signature: Signature,
    pub name_offset: u64,
    pub name_len: u64,
    pub extra_data_offset: u64,
    pub extra_data_len: u64,
    pub data_offset: u64,
    pub data_len: u64,
}

impl ArchiveTableEntry {
    pub fn new(
        signature: Signature,
        name_offset: u64,
        name_len: u64,
        extra_data_offset: u64,
        extra_data_len: u64,
        data_offset: u64,
        data_len: u64,
    ) -> (entry: Self)
        ensures
            entry == (ArchiveTableEntry {
                signature,
                name_offset,
                name_len,
                extra_data_offset,
                extra_data_len,
                data_offset,
                data_len,
            }),
    {
        ArchiveTableEntry {
            signature,
            name_offset,
            name_len,
            extra_data_offset,
            extra_data_len,
            data_offset,
            data_len,
        }
    }

    /// The 56 bytes of a table entry: the signature, then the six fields in
    /// the order of their declaration, each little-endian, with no padding.
    pub open spec fn layout(self) -> Seq<u8> {
        self.signature.layout() + u64_to_le(self.name_offset) + u64_to_le(self.name_len)
            + u64_to_le(self.extra_data_offset) + u64_to_le(self.extra_data_len) + u64_to_le(
            self.data_offset,
        ) + u64_to_le(self.data_len)
    }

    /// Whether the 56 bytes `bits` hold a table entry: whether their
    /// signature has a known tag.
    pub open spec fn valid_bits(bits: Seq<u8>) -> bool
        recommends
            bits.len() == 56,
    {
        Signature::valid_tag(u32_at(bits, 0))
    }

    /// What 56 bytes mean as a table entry.
    pub open spec fn decode(bits: Seq<u8>) -> Result<ArchiveTableEntry, Error>
        recommends
            bits.len() == 56,
    {
        match Signature::decode(bits) {
            Ok(signature) => Ok(
                ArchiveTableEntry {
                    signature,
                    name_offset: u64_at(bits, 8),
                    name_len: u64_at(bits, 16),
                    extra_data_offset: u64_at(bits, 24),
                    extra_data_len: u64_at(bits, 32),
                    data_offset: u64_at(bits, 40),
                    data_len: u64_at(bits, 48),
                },
            ),
            Err(_) => Err(Error::InvalidEntryTable),
        }
    }

    /// Decoding succeeds exactly on valid bits.
    pub proof fn lemma_decode_ok_iff_valid(bits: Seq<u8>)
        ensures
            Self::decode(bits) is Ok <==> Self::valid_bits(bits),
            Self::decode(bits) is Err ==> Self::decode(bits) == Err::<ArchiveTableEntry, Error>(
                Error::InvalidEntryTable,
            ),
    {
    }

    /// Decoding the bytes of a table entry gives that entry back.
    pub proof fn lemma_decode_layout(self)
        ensures
            self.layout().len() == 56,
            Self::valid_bits(self.layout()),
            Self::decode(self.layout()) == Ok::<ArchiveTableEntry, Error>(self),
    {
        let bits = self.layout();
        self.signature.lemma_decode_layout();
        lemma_u64_le_round_trip(self.name_offset);
        lemma_u64_le_round_trip(self.name_len);
        lemma_u64_le_round_trip(self.extra_data_offset);
        lemma_u64_le_round_trip(self.extra_data_len);
        lemma_u64_le_round_trip(self.data_offset);
        lemma_u64_le_round_trip(self.data_len);
        Self::lemma_decode_ok_iff_valid(bits);
    }

    /// Whether `bits` hold a table entry. Only the signature's tag can make
    /// them invalid: every value of the six fields is accepted.
    pub fn is_valid_bit_pattern(bits: &[u8; 56]) -> (valid: bool)
        ensures
            valid == Self::valid_bits(bits@),
    {
        Self::is_valid_at(bits.as_slice(), 0)
    }

    /// Decodes one table entry.
    pub fn from_bits(bits: &[u8; 56]) -> (r: Result<ArchiveTableEntry, Error>)
        ensures
            r == Self::decode(bits@),
    {
        assert(bits@.subrange(0, 56) =~= bits@);
        Self::read(bits.as_slice(), 0)
    }

    /// Whether the 56 bytes that start at `at` hold a table entry.
    pub(crate) fn is_valid_at(bytes: &[u8], at: usize) -> (valid: bool)
        requires
            at + 56 <= bytes.len(),
        ensures
            valid == Self::valid_bits(bytes@.subrange(at as int, at + 56)),
    {
        let tag: u32 = read_u32_le(bytes, at);
        tag == TAG_FILE || tag == TAG_DIRECTORY || tag == TAG_OS
    }

    /// Decodes the table entry whose 56 bytes start at `at`.
    pub(crate) fn read(bytes: &[u8], at: usize) -> (r: Result<ArchiveTableEntry, Error>)
        requires
            at + 56 <= bytes.len(),
        ensures
            r == Self::decode(bytes@.subrange(at as int, at + 56)),
    {
        match Signature::read(bytes, at) {
            Ok(signature) => Ok(
                ArchiveTableEntry {
                    signature,
                    name_offset: read_u64_le(bytes, at + 8),
                    name_len: read_u64_le(bytes, at + 16),
                    extra_data_offset: read_u64_le(bytes, at + 24),
                    extra_data_len: read_u64_le(bytes, at + 32),
                    data_offset: read_u64_le(bytes, at + 40),
                    data_len: read_u64_le(bytes, at + 48),
                },
            ),
            Err(_) => Err(Error::InvalidEntryTable),
        }
    }

    /// Decodes the table entry whose 56 bytes start at `at` and are known
    /// to be valid.
    pub(crate) fn read_valid(bytes: &[u8], at: usize) -> (entry: ArchiveTableEntry)
        requires
            at + 56 <= bytes.len(),
            Self::valid_bits(bytes@.subrange(at as int, at + 56)),
        ensures
            Self::decode(bytes@.subrange(at as int, at + 56)) == Ok::<ArchiveTableEntry, Error>(
                entry,
            ),
    {
        let tag: u32 = read_u32_le(bytes, at);
        let code: u32 = read_u32_le(bytes, at + 4);
        let signature = if tag == TAG_FILE {
            Signature::File
        } else if tag == TAG_DIRECTORY {
            Signature::Directory
        } else {
            Signature::OS(code)
        };
        ArchiveTableEntry {
            signature,
            name_offset: read_u64_le(bytes, at + 8),
            name_len: read_u64_le(bytes, at + 16),
            extra_data_offset: read_u64_le(bytes, at + 24),
            extra_data_len: read_u64_le(bytes, at + 32),
            data_offset: read_u64_le(bytes, at + 40),
            data_len: read_u64_le(bytes, at + 48),
        }
    }

    /// Appends the 56 bytes of this entry.
    pub fn write(&self, out: &mut Vec<u8>)
        ensures
            final(out)@ == old(out)@ + self.layout(),
    {
        self.signature.write(out);
        push_u64_le(out, self.name_offset);
        push_u64_le(out, self.name_len);
        push_u64_le(out, self.extra_data_offset);
        push_u64_le(out, self.extra_data_len);
        push_u64_le(out, self.data_offset);
        push_u64_le(out, self.data_len);
        assert(out@ =~= old(out)@ + self.layout());
    }
}

} // verus!
