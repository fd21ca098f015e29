//! A binary container format that packs named records, each with auxiliary
//! metadata and a payload, into one contiguous byte buffer.
//!
//! [`builder::ArchiveBuilder`] is the encoder and [`Archive`] the decoder.
//! They never meet: what joins them is the layout, which
//! [`builder::archive_layout`] and [`archive::parse`] state and which
//! [`laws::lemma_round_trip`] proves them to agree on.

use vstd::prelude::*;

pub use crate::archive::Archive;
pub use crate::entry::ArchiveEntry;
pub use crate::header::ArchiveHeader;
pub use crate::iter::ArchiveIterator;
pub use crate::signature::Signature;
pub use crate::table::ArchiveTableEntry;

pub mod archive;
pub mod builder;
pub mod entry;
pub mod header;
pub mod iter;
pub mod laws;
pub mod signature;
pub mod table;
pub mod wire;

verus! {

/// The eight bytes every archive starts with: the ASCII text `OARCHIVE`.
pub const MAGIC: [u8; 8] = [0x4f, 0x41, 0x52, 0x43, 0x48, 0x49, 0x56, 0x45];

/// Format version 0.0.1.0, one byte per component, read as a little-endian
/// integer.
pub const VERSION_0_0_1_0: u32 = 0x0001_0000;

/// The versions this library reads.
pub const VERSIONS: [u32; 1] = [VERSION_0_0_1_0];

/// What can go wrong while decoding.
///
/// Decoding gives `IncompleteHeader`, `InvalidMagic`, `InvalidVersion`,
/// `IncompleteData` and `InvalidEntryTable`, and decoding a signature on its
/// own gives `InvalidSignature`. `InvalidSizeSum` and `InternalError` are
/// kept for callers that check more than this library does; nothing here
/// returns them.
#[derive(Debug, Clone, Copy, PartialEq, Eq, Structural)]
pub enum Error {
    InvalidMagic,
    InvalidVersion,
    InvalidSignature,
    InternalError,
    IncompleteHeader,
    InvalidSizeSum,
    IncompleteData,
    InvalidEntryTable,
}

impl Error {
    /// The name of the error: that of its variant.
    pub fn name(&self) -> (name: &'static str)
        ensures
            name@ == match *self {
                Error::InvalidMagic => "InvalidMagic"@,
                Error::InvalidVersion => "InvalidVersion"@,
                Error::InvalidSignature => "InvalidSignature"@,
                Error::InternalError => "InternalError"@,
                Error::IncompleteHeader => "IncompleteHeader"@,
                Error::InvalidSizeSum => "InvalidSizeSum"@,
                Error::IncompleteData => "IncompleteData"@,
                Error::InvalidEntryTable => "InvalidEntryTable"@,
            },
    {
        match self {
            Error::InvalidMagic => "InvalidMagic",
            Error::InvalidVersion => "InvalidVersion",
            Error::InvalidSignature => "InvalidSignature",
            Error::InternalError => "InternalError",
            Error::IncompleteHeader => "IncompleteHeader",
            Error::InvalidSizeSum => "InvalidSizeSum",
            Error::IncompleteData => "IncompleteData",
            Error::InvalidEntryTable => "InvalidEntryTable",
        }
    }
}

} // verus!
