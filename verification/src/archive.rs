//! The decoder: a validated, borrowed view of an archive.

use crate::entry::{materialize, Record};
use crate::header::{ArchiveHeader, HEADER_SIZE};
use crate::iter::ArchiveIterator;
use crate::table::{ArchiveTableEntry, TABLE_ENTRY_SIZE};
use crate::Error;
use vstd::prelude::*;

verus! {

/// The 56 bytes of the table entry with the given index.
pub open spec fn entry_bits(table: Seq<u8>, index: int) -> Seq<u8> {
    table.subrange(56 * index, 56 * index + 56)
}

/// Whether each of the first `count` table entries has a known signature
/// tag.
pub open spec fn valid_table(table: Seq<u8>, count: int) -> bool {
    forall|i: int| 0 <= i < count ==> ArchiveTableEntry::valid_bits(#[trigger] entry_bits(table, i))
}

/// The table entry with the given index.
pub open spec fn table_entry(table: Seq<u8>, index: int) -> ArchiveTableEntry {
    ArchiveTableEntry::decode(entry_bits(table, index))->Ok_0
}

/// The first `count` table entries, in the order of the table.
pub open spec fn decode_table(table: Seq<u8>, count: int) -> Seq<ArchiveTableEntry> {
    Seq::new(count as nat, |i: int| table_entry(table, i))
}

/// What a decoded archive holds: the model of an [`Archive`].
pub struct ArchiveView {
    pub header: ArchiveHeader,
    pub entries: Seq<ArchiveTableEntry>,
    pub names: Seq<u8>,
    pub extra_data: Seq<u8>,
    pub data: Seq<u8>,
}

impl ArchiveView {
    /// The record with the given index, or the error that materializing it
    /// gives.
    pub open spec fn record(self, index: int) -> Result<Record, Error> {
        materialize(self.entries[index], self.names, self.extra_data, self.data)
    }

    /// What iterating over the archive yields, front to back.
    pub open spec fn records(self) -> Seq<Result<Record, Error>> {
        Seq::new(self.entries.len(), |i: int| self.record(i))
    }
}

/// What a buffer means as an archive. The checks come in this order: the
/// header is complete, its magic and its version are known, the table is
/// complete, every signature tag in it is known, and the names and the
/// auxiliary data are complete. What follows them is the payload.
pub open spec fn parse(bytes: Seq<u8>) -> Result<ArchiveView, Error> {
    if bytes.len() < 40 {
        Err(Error::IncompleteHeader)
    } else {
        match ArchiveHeader::decode(bytes.subrange(0, 40)) {
            Err(e) => Err(e),
            Ok(header) => {
                let table_end = 40 + 56 * header.entry_count;
                let names_end = table_end + header.names_size;
                let extra_data_end = names_end + header.extra_data_size;
                if bytes.len() < table_end {
                    Err(Error::IncompleteData)
                } else if !valid_table(bytes.subrange(40, table_end), header.entry_count as int) {
                    Err(Error::InvalidEntryTable)
                } else if bytes.len() < extra_data_end {
                    Err(Error::IncompleteData)
                } else {
                    Ok(
                        ArchiveView {
                            header,
                            entries: decode_table(
                                bytes.subrange(40, table_end),
                                header.entry_count as int,
                            ),
                            names: bytes.subrange(table_end, names_end),
                            extra_data: bytes.subrange(names_end, extra_data_end),
                            data: bytes.subrange(extra_data_end, bytes.len() as int),
                        },
                    )
                }
            },
        }
    }
}

/// A decoded archive. It borrows from the buffer it was decoded from and
/// owns nothing but a copy of the header.
#[derive(Debug)]
pub struct Archive<'a> {
    header: ArchiveHeader,
    entry_table: &'a [u8],
    names: &'a [u8],
    extra_data: &'a [u8],
    data: &'a [u8],
}

impl<'a> View for Archive<'a> {
    type V = ArchiveView;

    closed spec fn view(&self) -> ArchiveView {
        ArchiveView {
            header: self.header,
            entries: decode_table(self.entry_table@, self.header.entry_count as int),
            names: self.names@,
            extra_data: self.extra_data@,
            data: self.data@,
        }
    }
}

/// The model of what decoding gave.
pub open spec fn archive_result_view(r: Result<Archive<'_>, Error>) -> Result<ArchiveView, Error> {
    match r {
        Ok(archive) => Ok(archive@),
        Err(e) => Err(e),
    }
}

/// Whether each of the first `count` table entries has a known signature
/// tag.
fn check_table(table: &[u8], count: u32) -> (valid: bool)
    requires
        table.len() == 56 * count,
    ensures
        valid == valid_table(table@, count as int),
{
    let mut i: usize = 0;
    while i < count as usize
        invariant
            i <= count,
            table.len() == 56 * count,
            valid_table(table@, i as int),
        decreases count - i,
    {
        if !ArchiveTableEntry::is_valid_at(table, i * TABLE_ENTRY_SIZE) {
            assert(!ArchiveTableEntry::valid_bits(entry_bits(table@, i as int)));
            return false;
        }
        assert(ArchiveTableEntry::valid_bits(entry_bits(table@, i as int)));
        i = i + 1;
    }
    true
}

impl<'a> Archive<'a> {
    #[verifier::type_invariant]
    spec fn well_formed(self) -> bool {
        &&& self.entry_table@.len() == 56 * self.header.entry_count
        &&& valid_table(self.entry_table@, self.header.entry_count as int)
    }

    /// Decodes an archive. The buffer is validated and borrowed, not copied.
    ///
    /// The ranges of the table entries are not checked here: a record whose
    /// ranges leave their segments, or whose name is not UTF-8, gives its
    /// error when the iterator reaches it.
    pub fn new(data: &'a [u8]) -> (r: Result<Archive<'a>, Error>)
        ensures
            archive_result_view(r) == parse(data@),
    {
        if data.len() < HEADER_SIZE {
            return Err(Error::IncompleteHeader);
        }
        let (header_bytes, rest) = data.split_at(HEADER_SIZE);
        let header = match ArchiveHeader::try_from(header_bytes) {
            Ok(header) => header,
            Err(e) => { return Err(e); },
        };
        let ghost table_end = 40 + 56 * header.entry_count;
        let ghost names_end = table_end + header.names_size;
        let ghost extra_data_end = names_end + header.extra_data_size;
        let entry_table_size: u64 = header.entry_count as u64 * 56;
        if (rest.len() as u64) < entry_table_size {
            return Err(Error::IncompleteData);
        }
        let (entry_table, rest) = rest.split_at(entry_table_size as usize);
        assert(entry_table@ =~= data@.subrange(40, table_end));
        if !check_table(entry_table, header.entry_count) {
            return Err(Error::InvalidEntryTable);
        }
        if (rest.len() as u64) < header.names_size {
            return Err(Error::IncompleteData);
        }
        let (names, rest) = rest.split_at(header.names_size as usize);
        assert(names@ =~= data@.subrange(table_end, names_end));
        if (rest.len() as u64) < header.extra_data_size {
            return Err(Error::IncompleteData);
        }
        let (extra_data, payload) = rest.split_at(header.extra_data_size as usize);
        assert(extra_data@ =~= data@.subrange(names_end, extra_data_end));
        assert(payload@ =~= data@.subrange(extra_data_end, data@.len() as int));
        Ok(Archive { header, entry_table, names, extra_data, data: payload })
    }

    /// The header of the archive.
    pub fn header(&self) -> (header: &ArchiveHeader)
        ensures
            *header == self@.header,
    {
        &self.header
    }

    /// The format version the archive was written in.
    pub fn version(&self) -> (version: u32)
        ensures
            version == self@.header.version,
    {
        self.header.version
    }

    /// How many records the archive holds.
    pub fn entry_count(&self) -> (count: u32)
        ensures
            count == self@.header.entry_count,
            count == self@.entries.len(),
    {
        self.header.entry_count
    }

    /// Bytes in the names segment.
    pub fn names_size(&self) -> (size: u64)
        ensures
            size == self@.header.names_size,
    {
        self.header.names_size
    }

    /// Bytes in the auxiliary-data segment.
    pub fn extra_data_size(&self) -> (size: u64)
        ensures
            size == self@.header.extra_data_size,
    {
        self.header.extra_data_size
    }

    /// Bytes in the whole archive as its header states them.
    pub fn uncompressed_size(&self) -> (size: u64)
        ensures
            size == self@.header.uncompressed_size,
    {
        self.header.uncompressed_size
    }

    /// An iterator over the records, which can be advanced from both ends.
    pub fn iter(&self) -> (iter: ArchiveIterator<'a>)
        ensures
            iter@ == self@.records(),
    {
        proof {
            use_type_invariant(self);
        }
        ArchiveIterator::new(
            self.entry_table,
            self.header.entry_count,
            self.names,
            self.extra_data,
            self.data,
        )
    }
}

} // verus!
