//! What the encoder and the decoder owe each other.

use crate::archive::{decode_table, entry_bits, parse, table_entry, valid_table, ArchiveView};
use crate::builder::{
    archive_layout, archive_size, data_of, encodable, extra_data_of, header_of,
    lemma_table_layout_len, lemma_table_of_len, names_of, table_entry_of, table_layout, table_of,
};
use crate::entry::{materialize, Record};
use crate::header::{supported_version, ArchiveHeader};
use crate::signature::Signature;
use crate::table::ArchiveTableEntry;
use crate::wire::u32_at;
use crate::{Error, VERSIONS, VERSION_0_0_1_0};
use vstd::prelude::*;
use vstd::utf8::{encode_utf8, encode_utf8_decode_utf8, encode_utf8_valid_utf8};

verus! {

/// The bytes of the entry with a given index stand at that index in the
/// bytes of the table.
pub proof fn lemma_entry_bits_of_table_layout(entries: Seq<ArchiveTableEntry>, index: int)
    requires
        0 <= index < entries.len(),
    ensures
        entry_bits(table_layout(entries), index) == entries[index].layout(),
    decreases entries.len(),
{
    let before = entries.drop_last();
    lemma_table_layout_len(before);
    entries.last().lemma_decode_layout();
    if index == entries.len() - 1 {
        assert(entry_bits(table_layout(entries), index) =~= entries[index].layout());
    } else {
        lemma_entry_bits_of_table_layout(before, index);
        assert(entry_bits(table_layout(entries), index) =~= entry_bits(
            table_layout(before),
            index,
        ));
    }
}

/// The segments of the first `count` records are the first bytes of the
/// segments of all.
pub proof fn lemma_segments_of_prefix(records: Seq<Record>, count: int)
    requires
        0 <= count <= records.len(),
    ensures
        names_of(records.take(count)).is_prefix_of(names_of(records)),
        extra_data_of(records.take(count)).is_prefix_of(extra_data_of(records)),
        data_of(records.take(count)).is_prefix_of(data_of(records)),
    decreases records.len(),
{
    if count == records.len() {
        assert(records.take(count) =~= records);
    } else {
        let before = records.drop_last();
        lemma_segments_of_prefix(before, count);
        assert(before.take(count) =~= records.take(count));
    }
}

/// The table entry of each record is that of the record after the ones
/// before it.
pub proof fn lemma_table_entry_of_record(records: Seq<Record>, index: int)
    requires
        0 <= index < records.len(),
    ensures
        table_of(records)[index] == table_entry_of(records.take(index), records[index]),
    decreases records.len(),
{
    let before = records.drop_last();
    lemma_table_of_len(before);
    if index == records.len() - 1 {
        assert(records.take(index) =~= before);
    } else {
        lemma_table_entry_of_record(before, index);
        assert(before.take(index) =~= records.take(index));
    }
}

/// Each record of an archive materializes as it was pushed.
pub proof fn lemma_record_materializes(records: Seq<Record>, index: int)
    requires
        encodable(records),
        0 <= index < records.len(),
    ensures
        materialize(
            table_of(records)[index],
            names_of(records),
            extra_data_of(records),
            data_of(records),
        ) == Ok::<Record, Error>(records[index]),
{
    let record = records[index];
    let before = records.take(index);
    let upto = records.take(index + 1);
    let entry = table_of(records)[index];
    lemma_table_entry_of_record(records, index);
    lemma_segments_of_prefix(records, index + 1);
    assert(upto.drop_last() =~= before);
    assert(upto.last() == record);
    let names = names_of(records);
    let extra_data = extra_data_of(records);
    let data = data_of(records);
    assert(names_of(upto) == names_of(before) + encode_utf8(record.name));
    assert(extra_data_of(upto) == extra_data_of(before) + record.extra_data);
    assert(data_of(upto) == data_of(before) + record.data);
    assert(entry.name_offset == names_of(before).len());
    assert(entry.name_len == encode_utf8(record.name).len());
    assert(entry.extra_data_offset == extra_data_of(before).len());
    assert(entry.extra_data_len == record.extra_data.len());
    assert(entry.data_offset == data_of(before).len());
    assert(entry.data_len == record.data.len());
    assert(names.subrange(entry.name_offset as int, entry.name_offset + entry.name_len)
        =~= encode_utf8(record.name)) by {
        assert(names.subrange(0, names_of(upto).len() as int) == names_of(upto));
        assert forall|k: int| 0 <= k < entry.name_len implies names[entry.name_offset + k]
            == encode_utf8(record.name)[k] by {
            assert(names[entry.name_offset + k] == names.subrange(
                0,
                names_of(upto).len() as int,
            )[entry.name_offset + k]);
        }
    }
    assert(extra_data.subrange(
        entry.extra_data_offset as int,
        entry.extra_data_offset + entry.extra_data_len,
    ) =~= record.extra_data) by {
        assert(extra_data.subrange(0, extra_data_of(upto).len() as int) == extra_data_of(upto));
        assert forall|k: int| 0 <= k < entry.extra_data_len implies extra_data[entry.extra_data_offset
            + k] == record.extra_data[k] by {
            assert(extra_data[entry.extra_data_offset + k] == extra_data.subrange(
                0,
                extra_data_of(upto).len() as int,
            )[entry.extra_data_offset + k]);
        }
    }
    assert(data.subrange(entry.data_offset as int, entry.data_offset + entry.data_len)
        =~= record.data) by {
        assert(data.subrange(0, data_of(upto).len() as int) == data_of(upto));
        assert forall|k: int| 0 <= k < entry.data_len implies data[entry.data_offset + k]
            == record.data[k] by {
            assert(data[entry.data_offset + k] == data.subrange(
                0,
                data_of(upto).len() as int,
            )[entry.data_offset + k]);
        }
    }
    encode_utf8_valid_utf8(record.name);
    encode_utf8_decode_utf8(record.name);
}

/// Decoding the bytes of a table gives its entries back.
pub proof fn lemma_table_round_trip(entries: Seq<ArchiveTableEntry>)
    ensures
        valid_table(table_layout(entries), entries.len() as int),
        decode_table(table_layout(entries), entries.len() as int) == entries,
{
    assert forall|i: int| 0 <= i < entries.len() implies ArchiveTableEntry::valid_bits(
        #[trigger] entry_bits(table_layout(entries), i),
    ) && table_entry(table_layout(entries), i) == entries[i] by {
        lemma_entry_bits_of_table_layout(entries, i);
        entries[i].lemma_decode_layout();
    }
    assert(decode_table(table_layout(entries), entries.len() as int) =~= entries);
}

/// Where the five parts of an archive stand in its bytes.
pub proof fn lemma_parts_of_layout(records: Seq<Record>)
    ensures
        ({
            let bytes = archive_layout(records);
            let table_end: int = 40 + 56 * (records.len() as int);
            let names_end: int = table_end + names_of(records).len();
            let extra_data_end: int = names_end + extra_data_of(records).len();
            &&& bytes.len() == extra_data_end + data_of(records).len()
            &&& bytes.subrange(0, 40) == header_of(records).layout()
            &&& bytes.subrange(40, table_end) == table_layout(table_of(records))
            &&& bytes.subrange(table_end, names_end) == names_of(records)
            &&& bytes.subrange(names_end, extra_data_end) == extra_data_of(records)
            &&& bytes.subrange(extra_data_end, bytes.len() as int) == data_of(records)
        }),
{
    let bytes = archive_layout(records);
    let table_end: int = 40 + 56 * (records.len() as int);
    let names_end: int = table_end + names_of(records).len();
    let extra_data_end: int = names_end + extra_data_of(records).len();
    assert(bytes =~= header_of(records).layout() + table_layout(table_of(records)) + names_of(
        records,
    ) + extra_data_of(records) + data_of(records));
    lemma_table_of_len(records);
    lemma_table_layout_len(table_of(records));
    header_of(records).lemma_layout_len();
    assert(bytes.subrange(0, 40) =~= header_of(records).layout());
    assert(bytes.subrange(40, table_end) =~= table_layout(table_of(records)));
    assert(bytes.subrange(table_end, names_end) =~= names_of(records));
    assert(bytes.subrange(names_end, extra_data_end) =~= extra_data_of(records));
    assert(bytes.subrange(extra_data_end, bytes.len() as int) =~= data_of(records));
}

/// Round trip: decoding the archive of any records gives those records back,
/// in their order, each with its signature, name, auxiliary data and
/// payload, and a header that counts them.
pub proof fn lemma_round_trip(records: Seq<Record>)
    requires
        encodable(records),
    ensures
        parse(archive_layout(records)) is Ok,
        parse(archive_layout(records))->Ok_0.header == header_of(records),
        parse(archive_layout(records))->Ok_0.records() == records.map_values(
            |record: Record| Ok::<Record, Error>(record),
        ),
{
    let bytes = archive_layout(records);
    let header = header_of(records);
    let table = table_of(records);
    lemma_parts_of_layout(records);
    lemma_table_of_len(records);
    lemma_table_round_trip(table);
    assert(VERSIONS@[0] == VERSION_0_0_1_0);
    header.lemma_decode_layout();
    let archive = ArchiveView {
        header,
        entries: table,
        names: names_of(records),
        extra_data: extra_data_of(records),
        data: data_of(records),
    };
    assert(parse(bytes) == Ok::<ArchiveView, Error>(archive));
    assert forall|i: int| 0 <= i < records.len() implies #[trigger] archive.record(i) == Ok::<
        Record,
        Error,
    >(records[i]) by {
        lemma_record_materializes(records, i);
    }
    assert(archive.records() =~= records.map_values(|record: Record| Ok::<Record, Error>(record)));
}

/// What calls of `next` yield, one after the other, until nothing is left
/// of `items`.
pub open spec fn yielded_from_front<T>(items: Seq<T>) -> Seq<T>
    decreases items.len(),
{
    if items.len() == 0 {
        Seq::empty()
    } else {
        seq![items.first()] + yielded_from_front(items.drop_first())
    }
}

/// What calls of `next_back` yield, one after the other, until nothing is
/// left of `items`.
pub open spec fn yielded_from_back<T>(items: Seq<T>) -> Seq<T>
    decreases items.len(),
{
    if items.len() == 0 {
        Seq::empty()
    } else {
        seq![items.last()] + yielded_from_back(items.drop_last())
    }
}

/// Iterating from the front yields the items in their order, iterating from
/// the back yields them in the reverse order, and so each is the reverse of
/// the other.
pub proof fn lemma_back_is_front_reversed<T>(items: Seq<T>)
    ensures
        yielded_from_front(items) == items,
        yielded_from_back(items) == items.reverse(),
        yielded_from_back(items) == yielded_from_front(items).reverse(),
    decreases items.len(),
{
    if items.len() > 0 {
        lemma_back_is_front_reversed(items.drop_first());
        lemma_back_is_front_reversed(items.drop_last());
        assert(yielded_from_front(items) =~= items);
        assert(yielded_from_back(items) =~= items.reverse());
    } else {
        assert(yielded_from_front(items) =~= items);
        assert(yielded_from_back(items) =~= items.reverse());
    }
}

/// An archive whose first eight bytes were changed is refused for its
/// magic, whatever else it holds.
pub proof fn lemma_corrupt_magic(archive: Seq<u8>, corrupt: Seq<u8>)
    requires
        parse(archive) is Ok,
        corrupt.len() == archive.len(),
        corrupt.subrange(0, 8) != archive.subrange(0, 8),
    ensures
        parse(corrupt) == Err::<ArchiveView, Error>(Error::InvalidMagic),
{
    assert(archive.subrange(0, 40).subrange(0, 8) =~= archive.subrange(0, 8));
    assert(corrupt.subrange(0, 40).subrange(0, 8) =~= corrupt.subrange(0, 8));
}

/// An archive in which only the version field was changed, to a version
/// that is not supported, is refused for its version.
pub proof fn lemma_corrupt_version(archive: Seq<u8>, corrupt: Seq<u8>)
    requires
        parse(archive) is Ok,
        corrupt.len() == archive.len(),
        forall|i: int| 0 <= i < archive.len() && !(8 <= i < 12) ==> corrupt[i] == archive[i],
        !supported_version(u32_at(corrupt, 8)),
    ensures
        parse(corrupt) == Err::<ArchiveView, Error>(Error::InvalidVersion),
{
    assert(archive.subrange(0, 40).subrange(0, 8) =~= corrupt.subrange(0, 40).subrange(0, 8));
}

/// A buffer that ends before the header does is refused as an incomplete
/// header, whatever it was cut from.
pub proof fn lemma_truncated_header(archive: Seq<u8>, len: int)
    requires
        0 <= len <= archive.len(),
        len < 40,
    ensures
        parse(archive.take(len)) == Err::<ArchiveView, Error>(Error::IncompleteHeader),
{
}

/// An archive that was cut after its header and before the end of its
/// auxiliary data, so that part of the table, of the names or of the
/// auxiliary data is missing, is refused as incomplete.
pub proof fn lemma_truncated_segments(archive: Seq<u8>, len: int)
    requires
        parse(archive) is Ok,
        40 <= len,
        len < 40 + 56 * parse(archive)->Ok_0.header.entry_count + parse(
            archive,
        )->Ok_0.header.names_size + parse(archive)->Ok_0.header.extra_data_size,
    ensures
        parse(archive.take(len)) == Err::<ArchiveView, Error>(Error::IncompleteData),
{
    let cut = archive.take(len);
    let header = parse(archive)->Ok_0.header;
    let table_end = 40 + 56 * header.entry_count;
    assert(cut.subrange(0, 40) =~= archive.subrange(0, 40));
    if table_end <= len {
        assert(cut.subrange(40, table_end) =~= archive.subrange(40, table_end));
    }
}

/// An archive in which the tag of one signature was changed to a tag that
/// the format does not know is refused for its table.
pub proof fn lemma_corrupt_signature(archive: Seq<u8>, corrupt: Seq<u8>, index: int)
    requires
        parse(archive) is Ok,
        0 <= index < parse(archive)->Ok_0.header.entry_count,
        corrupt.len() == archive.len(),
        forall|i: int|
            0 <= i < archive.len() && !(40 + 56 * index <= i < 40 + 56 * index + 4) ==> corrupt[i]
                == archive[i],
        !Signature::valid_tag(u32_at(corrupt, 40 + 56 * index)),
    ensures
        parse(corrupt) == Err::<ArchiveView, Error>(Error::InvalidEntryTable),
{
    let header = parse(archive)->Ok_0.header;
    let table_end = 40 + 56 * header.entry_count;
    assert(corrupt.subrange(0, 40) =~= archive.subrange(0, 40));
    let table = corrupt.subrange(40, table_end);
    assert(u32_at(entry_bits(table, index), 0) == u32_at(corrupt, 40 + 56 * index));
    assert(!ArchiveTableEntry::valid_bits(entry_bits(table, index)));
}

} // verus!
