//! The encoder: collects records and serializes them into one archive.

use crate::entry::Record;
use crate::header::ArchiveHeader;
use crate::signature::Signature;
use crate::table::ArchiveTableEntry;
use crate::wire::{lemma_u64_le_round_trip, set_u64_le, u64_to_le};
use crate::VERSION_0_0_1_0;
use vstd::prelude::*;
use vstd::string::StringSliceAdditionalSpecFns;
use vstd::utf8::encode_utf8;

verus! {

/// The names segment of an archive of `records`: their names in UTF-8, one
/// after the other, with nothing between them.
pub open spec fn names_of(records: Seq<Record>) -> Seq<u8>
    decreases records.len(),
{
    if records.len() == 0 {
        Seq::empty()
    } else {
        names_of(records.drop_last()) + encode_utf8(records.last().name)
    }
}

/// The auxiliary-data segment of an archive of `records`.
pub open spec fn extra_data_of(records: Seq<Record>) -> Seq<u8>
    decreases records.len(),
{
    if records.len() == 0 {
        Seq::empty()
    } else {
        extra_data_of(records.drop_last()) + records.last().extra_data
    }
}

/// The payload segment of an archive of `records`.
pub open spec fn data_of(records: Seq<Record>) -> Seq<u8>
    decreases records.len(),
{
    if records.len() == 0 {
        Seq::empty()
    } else {
        data_of(records.drop_last()) + records.last().data
    }
}

/// The table entry of a record that comes after the records `before`: each
/// offset is the size that its segment had before the record was added.
pub open spec fn table_entry_of(before: Seq<Record>, record: Record) -> ArchiveTableEntry {
    ArchiveTableEntry {
        signature: record.signature,
        name_offset: names_of(before).len() as u64,
        name_len: encode_utf8(record.name).len() as u64,
        extra_data_offset: extra_data_of(before).len() as u64,
        extra_data_len: record.extra_data.len() as u64,
        data_offset: data_of(before).len() as u64,
        data_len: record.data.len() as u64,
    }
}

/// The table of an archive of `records`, in their order.
pub open spec fn table_of(records: Seq<Record>) -> Seq<ArchiveTableEntry>
    decreases records.len(),
{
    if records.len() == 0 {
        Seq::empty()
    } else {
        table_of(records.drop_last()).push(table_entry_of(records.drop_last(), records.last()))
    }
}

/// The bytes of a table: those of its entries, one after the other.
pub open spec fn table_layout(entries: Seq<ArchiveTableEntry>) -> Seq<u8>
    decreases entries.len(),
{
    if entries.len() == 0 {
        Seq::empty()
    } else {
        table_layout(entries.drop_last()) + entries.last().layout()
    }
}

/// Bytes in an archive of `records`.
pub open spec fn archive_size(records: Seq<Record>) -> nat {
    40 + 56 * records.len() + names_of(records).len() + extra_data_of(records).len() + data_of(
        records,
    ).len()
}

/// Whether the sizes of an archive of `records` fit the fields of its
/// header: the count 32 bits, the size of the whole 64 bits.
pub open spec fn encodable(records: Seq<Record>) -> bool {
    records.len() <= u32::MAX && archive_size(records) <= u64::MAX
}

/// The header of an archive of `records`.
pub open spec fn header_of(records: Seq<Record>) -> ArchiveHeader {
    ArchiveHeader {
        version: VERSION_0_0_1_0,
        entry_count: records.len() as u32,
        names_size: names_of(records).len() as u64,
        extra_data_size: extra_data_of(records).len() as u64,
        uncompressed_size: archive_size(records) as u64,
    }
}

/// What follows the header in an archive of `records`: table, names,
/// auxiliary data and payload, in this order and with nothing between them.
pub open spec fn body_layout(records: Seq<Record>) -> Seq<u8> {
    table_layout(table_of(records)) + names_of(records) + extra_data_of(records) + data_of(records)
}

/// The archive of `records`: the header, then the rest.
pub open spec fn archive_layout(records: Seq<Record>) -> Seq<u8> {
    header_of(records).layout() + body_layout(records)
}

/// A table of `n` entries takes `56 * n` bytes.
pub proof fn lemma_table_layout_len(entries: Seq<ArchiveTableEntry>)
    ensures
        table_layout(entries).len() == 56 * entries.len(),
    decreases entries.len(),
{
    if entries.len() > 0 {
        lemma_table_layout_len(entries.drop_last());
        entries.last().lemma_decode_layout();
    }
}

/// The table of `n` records has `n` entries.
pub proof fn lemma_table_of_len(records: Seq<Record>)
    ensures
        table_of(records).len() == records.len(),
    decreases records.len(),
{
    if records.len() > 0 {
        lemma_table_of_len(records.drop_last());
    }
}

/// An archive of `records` has the size that its header states.
pub proof fn lemma_archive_layout_len(records: Seq<Record>)
    ensures
        archive_layout(records).len() == archive_size(records),
{
    lemma_table_of_len(records);
    lemma_table_layout_len(table_of(records));
    header_of(records).lemma_layout_len();
}

/// Writing the size of the whole over the last field of a header that
/// stands before `body` gives the header with that size, before `body`.
proof fn lemma_sized_header(header: ArchiveHeader, size: u64, body: Seq<u8>)
    ensures
        ({
            let bytes = header.layout() + body;
            bytes.subrange(0, 32) + u64_to_le(size) + bytes.subrange(
                40,
                bytes.len() as int,
            )
        }) == (ArchiveHeader { uncompressed_size: size, ..header }).layout() + body,
{
    let sized = ArchiveHeader { uncompressed_size: size, ..header };
    let bytes = header.layout() + body;
    header.lemma_layout_len();
    sized.lemma_layout_len();
    lemma_u64_le_round_trip(size);
    let patched = bytes.subrange(0, 32) + u64_to_le(size) + bytes.subrange(
        40,
        bytes.len() as int,
    );
    assert(header.layout().subrange(0, 32) =~= sized.layout().subrange(0, 32));
    assert(sized.layout().subrange(32, 40) =~= u64_to_le(size));
    assert forall|i: int| 0 <= i < patched.len() implies patched[i] == (sized.layout() + body)[i] by {
        if i < 32 {
            assert(patched[i] == header.layout().subrange(0, 32)[i]);
            assert(sized.layout()[i] == sized.layout().subrange(0, 32)[i]);
        } else if i < 40 {
            assert(sized.layout()[i] == sized.layout().subrange(32, 40)[i - 32]);
        } else {
        }
    }
    assert(patched =~= sized.layout() + body);
}

/// Appends the bytes of a table.
fn write_table(entries: &Vec<ArchiveTableEntry>, out: &mut Vec<u8>)
    ensures
        final(out)@ == old(out)@ + table_layout(entries@),
{
    let mut i: usize = 0;
    while i < entries.len()
        invariant
            i <= entries@.len(),
            out@ == old(out)@ + table_layout(entries@.subrange(0, i as int)),
        decreases entries@.len() - i,
    {
        entries[i].write(out);
        proof {
            let done = entries@.subrange(0, i + 1);
            assert(done.drop_last() =~= entries@.subrange(0, i as int));
            assert(done.last() == entries@[i as int]);
            assert(out@ =~= old(out)@ + table_layout(done));
        }
        i = i + 1;
    }
    assert(entries@.subrange(0, i as int) =~= entries@);
}

/// Collects records and serializes them.
pub struct ArchiveBuilder {
    names: Vec<u8>,
    extra_data: Vec<u8>,
    data: Vec<u8>,
    table_entries: Vec<ArchiveTableEntry>,
    records: Ghost<Seq<Record>>,
}

impl View for ArchiveBuilder {
    type V = Seq<Record>;

    /// The records pushed so far, in the order of the pushes.
    closed spec fn view(&self) -> Seq<Record> {
        self.records@
    }
}

impl ArchiveBuilder {
    /// Whether the buffers hold what the records pushed so far ask for.
    /// `new` establishes this and `push_entry` keeps it.
    pub closed spec fn wf(&self) -> bool {
        &&& self.records@.len() <= u32::MAX
        &&& self.table_entries@ == table_of(self.records@)
        &&& self.names@ == names_of(self.records@)
        &&& self.extra_data@ == extra_data_of(self.records@)
        &&& self.data@ == data_of(self.records@)
    }

    /// A builder with no records.
    pub fn new() -> (builder: ArchiveBuilder)
        ensures
            builder.wf(),
            builder@ == Seq::<Record>::empty(),
    {
        ArchiveBuilder {
            names: Vec::new(),
            extra_data: Vec::new(),
            data: Vec::new(),
            table_entries: Vec::new(),
            records: Ghost(Seq::empty()),
        }
    }

    /// How many records were pushed.
    pub fn len(&self) -> (len: usize)
        requires
            self.wf(),
        ensures
            len == self@.len(),
            len <= u32::MAX,
    {
        proof {
            lemma_table_of_len(self.records@);
        }
        self.table_entries.len()
    }

    /// Adds a record after those pushed so far.
    ///
    /// The header counts the records in 32 bits, so a builder takes at most
    /// `u32::MAX` of them.
    pub fn push_entry(&mut self, signature: Signature, name: &str, extra_data: &[u8], data: &[u8])
        requires
            old(self).wf(),
            old(self)@.len() < u32::MAX,
        ensures
            final(self).wf(),
            final(self)@ == old(self)@.push(
                Record { signature, name: name@, extra_data: extra_data@, data: data@ },
            ),
    {
        let ghost before = self.records@;
        let ghost record = Record { signature, name: name@, extra_data: extra_data@, data: data@ };
        let name_bytes = name.as_bytes();

        let name_offset: u64 = self.names.len() as u64;
        let name_len: u64 = name_bytes.len() as u64;
        self.names.extend_from_slice(name_bytes);

        let extra_data_offset: u64 = self.extra_data.len() as u64;
        let extra_data_len: u64 = extra_data.len() as u64;
        self.extra_data.extend_from_slice(extra_data);

        let data_offset: u64 = self.data.len() as u64;
        let data_len: u64 = data.len() as u64;
        self.data.extend_from_slice(data);

        self.table_entries.push(
            ArchiveTableEntry::new(
                signature,
                name_offset,
                name_len,
                extra_data_offset,
                extra_data_len,
                data_offset,
                data_len,
            ),
        );
        self.records = Ghost(before.push(record));
        proof {
            assert(self.records@.drop_last() =~= before);
            assert(self.records@.last() == record);
            assert(self.names@ =~= names_of(before) + encode_utf8(name@));
            assert(self.extra_data@ =~= extra_data_of(before) + extra_data@);
            assert(self.data@ =~= data_of(before) + data@);
        }
    }

    /// Appends what follows the header.
    fn write_body(&self, out: &mut Vec<u8>)
        requires
            self.wf(),
        ensures
            final(out)@ == old(out)@ + body_layout(self@),
    {
        write_table(&self.table_entries, out);
        out.extend_from_slice(self.names.as_slice());
        out.extend_from_slice(self.extra_data.as_slice());
        out.extend_from_slice(self.data.as_slice());
        assert(out@ =~= old(out)@ + body_layout(self@));
    }

    /// Serializes the records into one archive: the header, the table, the
    /// names, the auxiliary data and the payload. The size that the header
    /// states is the length of what is returned.
    pub fn finish(self) -> (archive_bytes: Vec<u8>)
        requires
            self.wf(),
        ensures
            archive_bytes@ == archive_layout(self@),
            archive_bytes@.len() == archive_size(self@),
            header_of(self@).uncompressed_size == archive_bytes@.len(),
            encodable(self@),
    {
        let ghost records = self.records@;
        proof {
            lemma_table_of_len(records);
        }
        let mut archive_bytes: Vec<u8> = Vec::new();
        let unsized_header = ArchiveHeader::new(
            VERSION_0_0_1_0,
            self.table_entries.len() as u32,
            self.names.len() as u64,
            self.extra_data.len() as u64,
            0,
        );
        unsized_header.write(&mut archive_bytes);
        self.write_body(&mut archive_bytes);
        let ghost unsized_bytes = archive_bytes@;
        proof {
            unsized_header.lemma_layout_len();
            header_of(records).lemma_layout_len();
            lemma_archive_layout_len(records);
            assert(unsized_bytes =~= unsized_header.layout() + body_layout(records));
            assert(unsized_bytes.len() == archive_size(records));
        }
        let total_size: u64 = archive_bytes.len() as u64;
        set_u64_le(&mut archive_bytes, 32, total_size);
        proof {
            lemma_sized_header(unsized_header, total_size, body_layout(records));
            assert(header_of(records) == (ArchiveHeader {
                uncompressed_size: total_size,
                ..unsized_header
            }));
        }
        archive_bytes
    }
}

} // verus!
