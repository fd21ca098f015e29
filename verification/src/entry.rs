//! One record of an archive, as a view into the buffer it was decoded from.

use crate::signature::Signature;
use crate::table::ArchiveTableEntry;
use crate::Error;
use vstd::prelude::*;
use vstd::slice::slice_subrange;
use vstd::string::StringSliceAdditionalSpecFns;
use vstd::utf8::{decode_utf8, encode_utf8_decode_utf8, valid_utf8};

verus! {

/// What a record holds: the model of an entry that was pushed or decoded.
pub struct Record {
    pub signature: Signature,
    pub name: Seq<char>,
    pub extra_data: Seq<u8>,
    pub data: Seq<u8>,
}

/// Whether `len` bytes from `offset` on lie inside a segment of `size`
/// bytes.
pub open spec fn in_segment(offset: u64, len: u64, size: nat) -> bool {
    offset + len <= size
}

/// Whether a table entry can be turned into a record over the three
/// segments: its three ranges lie inside them and its name is UTF-8.
pub open spec fn materializes(
    entry: ArchiveTableEntry,
    names: Seq<u8>,
    extra_data: Seq<u8>,
    data: Seq<u8>,
) -> bool {
    &&& in_segment(entry.name_offset, entry.name_len, names.len())
    &&& in_segment(entry.extra_data_offset, entry.extra_data_len, extra_data.len())
    &&& in_segment(entry.data_offset, entry.data_len, data.len())
    &&& valid_utf8(
        names.subrange(entry.name_offset as int, entry.name_offset + entry.name_len),
    )
}

/// The record that a table entry describes over the three segments, or
/// `InvalidEntryTable` where it describes none.
pub open spec fn materialize(
    entry: ArchiveTableEntry,
    names: Seq<u8>,
    extra_data: Seq<u8>,
    data: Seq<u8>,
) -> Result<Record, Error> {
    if materializes(entry, names, extra_data, data) {
        Ok(
            Record {
                signature: entry.signature,
                name: decode_utf8(
                    names.subrange(entry.name_offset as int, entry.name_offset + entry.name_len),
                ),
                extra_data: extra_data.subrange(
                    entry.extra_data_offset as int,
                    entry.extra_data_offset + entry.extra_data_len,
                ),
                data: data.subrange(entry.data_offset as int, entry.data_offset + entry.data_len),
            },
        )
    } else {
        Err(Error::InvalidEntryTable)
    }
}

/// One record, borrowed from the buffer of its archive.
#[derive(Debug)]
pub struct ArchiveEntry<'a> {
    signature: Signature,
    name: &'a str,
    extra_data: &'a [u8],
    data: &'a [u8],
}

impl<'a> View for ArchiveEntry<'a> {
    type V = Record;

    closed spec fn view(&self) -> Record {
        Record {
            signature: self.signature,
            name: self.name@,
            extra_data: self.extra_data@,
            data: self.data@,
        }
    }
}

/// The model of what materializing an entry gave.
pub open spec fn entry_result_view(r: Result<ArchiveEntry<'_>, Error>) -> Result<Record, Error> {
    match r {
        Ok(entry) => Ok(entry@),
        Err(e) => Err(e),
    }
}

/// `core::str::from_utf8`, with its error dropped. It succeeds exactly on
/// well-formed UTF-8, and the text it gives has the bytes it was given.
#[verifier::external_body]
fn str_from_utf8<'a>(bytes: &'a [u8]) -> (text: Option<&'a str>)
    ensures
        text is Some <==> valid_utf8(bytes@),
        text matches Some(s) ==> s.spec_bytes() == bytes@,
{
    match core::str::from_utf8(bytes) {
        Ok(s) => Some(s),
        Err(_) => None,
    }
}

/// The `len` bytes of `segment` from `offset` on, or `None` where they do
/// not all lie inside it.
fn segment_range<'a>(segment: &'a [u8], offset: u64, len: u64) -> (range: Option<&'a [u8]>)
    ensures
        range is Some <==> in_segment(offset, len, segment@.len()),
        range matches Some(bytes) ==> bytes@ == segment@.subrange(offset as int, offset + len),
{
    let size: u64 = segment.len() as u64;
    if offset <= size && len <= size - offset {
        Some(slice_subrange(segment, offset as usize, (offset + len) as usize))
    } else {
        None
    }
}

impl<'a> ArchiveEntry<'a> {
    /// Materializes the record that `table_entry` describes over the three
    /// segments. Nothing is copied: the record borrows from the segments.
    /// A range that leaves its segment, or a name that is not UTF-8, gives
    /// `InvalidEntryTable`.
    pub fn from_table_entry(
        table_entry: &ArchiveTableEntry,
        names: &'a [u8],
        extra_data: &'a [u8],
        data: &'a [u8],
    ) -> (r: Result<ArchiveEntry<'a>, Error>)
        ensures
            entry_result_view(r) == materialize(*table_entry, names@, extra_data@, data@),
    {
        let name_bytes = match segment_range(names, table_entry.name_offset, table_entry.name_len) {
            Some(bytes) => bytes,
            None => { return Err(Error::InvalidEntryTable); },
        };
        let extra_data_bytes = match segment_range(
            extra_data,
            table_entry.extra_data_offset,
            table_entry.extra_data_len,
        ) {
            Some(bytes) => bytes,
            None => { return Err(Error::InvalidEntryTable); },
        };
        let data_bytes = match segment_range(data, table_entry.data_offset, table_entry.data_len) {
            Some(bytes) => bytes,
            None => { return Err(Error::InvalidEntryTable); },
        };
        match str_from_utf8(name_bytes) {
            Some(name) => {
                proof {
                    encode_utf8_decode_utf8(name@);
                }
                Ok(
                    ArchiveEntry {
                        signature: table_entry.signature,
                        name,
                        extra_data: extra_data_bytes,
                        data: data_bytes,
                    },
                )
            },
            None => Err(Error::InvalidEntryTable),
        }
    }

    /// The kind of the record.
    pub fn signature(&self) -> (signature: Signature)
        ensures
            signature == self@.signature,
    {
        self.signature
    }

    /// The name of the record.
    pub fn name(&self) -> (name: &'a str)
        ensures
            name@ == self@.name,
    {
        self.name
    }

    /// The auxiliary data of the record.
    pub fn extra_data(&self) -> (extra_data: &'a [u8])
        ensures
            extra_data@ == self@.extra_data,
    {
        self.extra_data
    }

    /// The payload of the record.
    pub fn data(&self) -> (data: &'a [u8])
        ensures
            data@ == self@.data,
    {
        self.data
    }
}

} // verus!
