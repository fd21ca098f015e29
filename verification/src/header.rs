//! The file-level metadata that every archive starts with.

use crate::wire::{
    lemma_u32_le_round_trip, lemma_u64_le_round_trip, push_u32_le, push_u64_le, read_u32_le,
    read_u64_le, u32_at, u32_to_le, u64_at, u64_to_le,
};
use crate::{Error, MAGIC, VERSIONS};
use vstd::prelude::*;

verus! {

/// Bytes the header takes on the wire.
pub const HEADER_SIZE: usize = 40;

/// The fields of the header that follow the magic.
#[derive(Debug, Clone, Copy, PartialEq, Eq, Structural)]
pub struct ArchiveHeader {
    pub version: u32,
    pub entry_count: u32,
    pub names_size: u64,
    pub extra_data_size: u64,
    pub uncompressed_size: u64,
}

/// Whether `version` is one of [`VERSIONS`].
pub open spec fn supported_version(version: u32) -> bool {
    VERSIONS@.contains(version)
}

/// Whether `bytes` start with [`MAGIC`].
pub open spec fn starts_with_magic(bytes: Seq<u8>) -> bool {
    8 <= bytes.len() && bytes.subrange(0, 8) == MAGIC@
}

impl ArchiveHeader {
    pub fn new(
        version: u32,
        entry_count: u32,
        names_size: u64,
        extra_data_size: u64,
        uncompressed_size: u64,
    ) -> (header: Self)
        ensures
            header == (ArchiveHeader {
                version,
                entry_count,
                names_size,
                extra_data_size,
                uncompressed_size,
            }),
    {
        ArchiveHeader { version, entry_count, names_size, extra_data_size, uncompressed_size }
    }

    /// The format version the archive was written in.
    pub fn version(&self) -> (version: u32)
        ensures
            version == self.version,
    {
        self.version
    }

    /// How many table entries follow the header.
    pub fn entry_count(&self) -> (count: u32)
        ensures
            count == self.entry_count,
    {
        self.entry_count
    }

    /// Bytes in the names segment.
    pub fn names_size(&self) -> (size: u64)
        ensures
            size == self.names_size,
    {
        self.names_size
    }

    /// Bytes in the auxiliary-data segment.
    pub fn extra_data_size(&self) -> (size: u64)
        ensures
            size == self.extra_data_size,
    {
        self.extra_data_size
    }

    /// Bytes in the whole archive, the header included.
    pub fn uncompressed_size(&self) -> (size: u64)
        ensures
            size == self.uncompressed_size,
    {
        self.uncompressed_size
    }

    /// The 40 bytes of a header: the magic, then the five fields in the
    /// order of their declaration, each little-endian, with no padding.
    pub open spec fn layout(self) -> Seq<u8> {
        MAGIC@ + u32_to_le(self.version) + u32_to_le(self.entry_count) + u64_to_le(self.names_size)
            + u64_to_le(self.extra_data_size) + u64_to_le(self.uncompressed_size)
    }

    /// The header that 40 bytes hold, whatever their magic and version.
    pub open spec fn fields_of(bytes: Seq<u8>) -> ArchiveHeader
        recommends
            bytes.len() == 40,
    {
        ArchiveHeader {
            version: u32_at(bytes, 8),
            entry_count: u32_at(bytes, 12),
            names_size: u64_at(bytes, 16),
            extra_data_size: u64_at(bytes, 24),
            uncompressed_size: u64_at(bytes, 32),
        }
    }

    /// What `bytes` mean as a header. They must be the 40 bytes of a header
    /// and no more; the magic is looked at before the version.
    pub open spec fn decode(bytes: Seq<u8>) -> Result<ArchiveHeader, Error> {
        if bytes.len() != 40 {
            Err(Error::IncompleteHeader)
        } else if !starts_with_magic(bytes) {
            Err(Error::InvalidMagic)
        } else if !supported_version(u32_at(bytes, 8)) {
            Err(Error::InvalidVersion)
        } else {
            Ok(Self::fields_of(bytes))
        }
    }

    /// A header takes 40 bytes.
    pub proof fn lemma_layout_len(self)
        ensures
            self.layout().len() == 40,
    {
        lemma_u32_le_round_trip(self.version);
        lemma_u32_le_round_trip(self.entry_count);
        lemma_u64_le_round_trip(self.names_size);
        lemma_u64_le_round_trip(self.extra_data_size);
        lemma_u64_le_round_trip(self.uncompressed_size);
    }

    /// Decoding the bytes of a header of a supported version gives that
    /// header back.
    pub proof fn lemma_decode_layout(self)
        requires
            supported_version(self.version),
        ensures
            self.layout().len() == 40,
            Self::decode(self.layout()) == Ok::<ArchiveHeader, Error>(self),
    {
        lemma_u32_le_round_trip(self.version);
        lemma_u32_le_round_trip(self.entry_count);
        lemma_u64_le_round_trip(self.names_size);
        lemma_u64_le_round_trip(self.extra_data_size);
        lemma_u64_le_round_trip(self.uncompressed_size);
        assert(self.layout().subrange(0, 8) =~= MAGIC@);
    }

    /// Decodes a header from exactly its 40 bytes.
    pub fn try_from(bytes: &[u8]) -> (r: Result<ArchiveHeader, Error>)
        ensures
            r == Self::decode(bytes@),
    {
        if bytes.len() != HEADER_SIZE {
            return Err(Error::IncompleteHeader);
        }
        if !has_magic(bytes) {
            return Err(Error::InvalidMagic);
        }
        let version: u32 = read_u32_le(bytes, 8);
        if !is_supported_version(version) {
            return Err(Error::InvalidVersion);
        }
        Ok(
            ArchiveHeader {
                version,
                entry_count: read_u32_le(bytes, 12),
                names_size: read_u64_le(bytes, 16),
                extra_data_size: read_u64_le(bytes, 24),
                uncompressed_size: read_u64_le(bytes, 32),
            },
        )
    }

    /// Appends the 40 bytes of this header.
    pub fn write(&self, out: &mut Vec<u8>)
        ensures
            final(out)@ == old(out)@ + self.layout(),
    {
        let mut i: usize = 0;
        while i < 8
            invariant
                i <= 8,
                out@ == old(out)@ + MAGIC@.subrange(0, i as int),
            decreases 8 - i,
        {
            out.push(MAGIC[i]);
            i = i + 1;
        }
        assert(MAGIC@.subrange(0, 8) =~= MAGIC@);
        push_u32_le(out, self.version);
        push_u32_le(out, self.entry_count);
        push_u64_le(out, self.names_size);
        push_u64_le(out, self.extra_data_size);
        push_u64_le(out, self.uncompressed_size);
        assert(out@ =~= old(out)@ + self.layout());
    }
}

/// Whether `bytes` start with the magic.
pub fn has_magic(bytes: &[u8]) -> (found: bool)
    ensures
        found == starts_with_magic(bytes@),
{
    if bytes.len() < 8 {
        return false;
    }
    let mut i: usize = 0;
    while i < 8
        invariant
            i <= 8,
            8 <= bytes.len(),
            forall|k: int| 0 <= k < i ==> bytes@[k] == MAGIC@[k],
        decreases 8 - i,
    {
        if bytes[i] != MAGIC[i] {
            assert(bytes@.subrange(0, 8)[i as int] != MAGIC@[i as int]);
            return false;
        }
        i = i + 1;
    }
    assert(bytes@.subrange(0, 8) =~= MAGIC@);
    true
}

/// Whether this library reads archives of the given version.
pub fn is_supported_version(version: u32) -> (supported: bool)
    ensures
        supported == supported_version(version),
{
    let mut i: usize = 0;
    while i < VERSIONS.len()
        invariant
            i <= VERSIONS@.len(),
            forall|k: int| 0 <= k < i ==> VERSIONS@[k] != version,
        decreases VERSIONS@.len() - i,
    {
        if VERSIONS[i] == version {
            return true;
        }
        i = i + 1;
    }
    false
}

} // verus!
