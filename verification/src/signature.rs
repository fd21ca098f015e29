//! The kind of a record, and the eight bytes that hold it on the wire.

use crate::wire::{lemma_u32_le_round_trip, push_u32_le, read_u32_le, u32_at, u32_to_le};
use crate::Error;
use vstd::prelude::*;

verus! {

/// Bytes a signature takes on the wire: a tag and a code, four bytes each.
pub const SIGNATURE_SIZE: usize = 8;

/// The tag of [`Signature::File`].
pub const TAG_FILE: u32 = 0;

/// The tag of [`Signature::Directory`].
pub const TAG_DIRECTORY: u32 = 1;

/// The tag of [`Signature::OS`]: all bits set.
pub const TAG_OS: u32 = 0xffff_ffff;

/// What kind of record an entry is.
#[derive(Debug, Clone, Copy, PartialEq, Eq, Structural)]
pub enum Signature {
    File,
    Directory,
    /// A kind that only the producing system knows, with its code.
    OS(u32),
}

impl Signature {
    /// The tag that tells the variants apart on the wire.
    pub open spec fn tag(self) -> u32 {
        match self {
            Signature::File => TAG_FILE,
            Signature::Directory => TAG_DIRECTORY,
            Signature::OS(_) => TAG_OS,
        }
    }

    /// The code that follows the tag: that of `OS`, and zero for the others.
    pub open spec fn code(self) -> u32 {
        match self {
            Signature::OS(code) => code,
            _ => 0,
        }
    }

    /// The eight bytes of a signature: tag, then code, both little-endian.
    pub open spec fn layout(self) -> Seq<u8> {
        u32_to_le(self.tag()) + u32_to_le(self.code())
    }

    /// Whether `tag` is the tag of some variant.
    pub open spec fn valid_tag(tag: u32) -> bool {
        tag == TAG_FILE || tag == TAG_DIRECTORY || tag == TAG_OS
    }

    /// The signature with the given tag and code. The code counts only
    /// under `TAG_OS`.
    pub open spec fn from_raw(tag: u32, code: u32) -> Signature
        recommends
            Self::valid_tag(tag),
    {
        if tag == TAG_FILE {
            Signature::File
        } else if tag == TAG_DIRECTORY {
            Signature::Directory
        } else {
            Signature::OS(code)
        }
    }

    /// What eight bytes mean as a signature on its own.
    pub open spec fn decode(bits: Seq<u8>) -> Result<Signature, Error>
        recommends
            bits.len() == 8,
    {
        let tag = u32_at(bits, 0);
        if Self::valid_tag(tag) {
            Ok(Self::from_raw(tag, u32_at(bits, 4)))
        } else {
            Err(Error::InvalidSignature)
        }
    }

    /// Decoding the bytes of a signature gives that signature back.
    pub proof fn lemma_decode_layout(self)
        ensures
            self.layout().len() == 8,
            Self::decode(self.layout()) == Ok::<Signature, Error>(self),
    {
        lemma_u32_le_round_trip(self.tag());
        lemma_u32_le_round_trip(self.code());
    }

    /// Whether the tag in `bits` is one of the three that the format knows.
    /// The code is not looked at: under `TAG_OS` every code is accepted.
    pub fn is_valid_bit_pattern(bits: &[u8; 8]) -> (valid: bool)
        ensures
            valid == Self::valid_tag(u32_at(bits@, 0)),
    {
        let tag: u32 = read_u32_le(bits.as_slice(), 0);
        tag == TAG_FILE || tag == TAG_DIRECTORY || tag == TAG_OS
    }

    /// Decodes a signature on its own.
    pub fn from_bits(bits: &[u8; 8]) -> (r: Result<Signature, Error>)
        ensures
            r == Self::decode(bits@),
    {
        Self::read(bits.as_slice(), 0)
    }

    /// Decodes the signature whose eight bytes start at `at`.
    pub(crate) fn read(bytes: &[u8], at: usize) -> (r: Result<Signature, Error>)
        requires
            at + 8 <= bytes.len(),
        ensures
            r == Self::decode(bytes@.subrange(at as int, at + 8)),
    {
        let tag: u32 = read_u32_le(bytes, at);
        let code: u32 = read_u32_le(bytes, at + 4);
        if tag == TAG_FILE {
            Ok(Signature::File)
        } else if tag == TAG_DIRECTORY {
            Ok(Signature::Directory)
        } else if tag == TAG_OS {
            Ok(Signature::OS(code))
        } else {
            Err(Error::InvalidSignature)
        }
    }

    /// Appends the eight bytes of this signature.
    pub fn write(self, out: &mut Vec<u8>)
        ensures
            final(out)@ == old(out)@ + self.layout(),
    {
        match self {
            Signature::File => {
                push_u32_le(out, TAG_FILE);
                push_u32_le(out, 0);
            },
            Signature::Directory => {
                push_u32_le(out, TAG_DIRECTORY);
                push_u32_le(out, 0);
            },
            Signature::OS(code) => {
                push_u32_le(out, TAG_OS);
                push_u32_le(out, code);
            },
        }
    }
}

} // verus!
