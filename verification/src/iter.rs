//! A cursor over the records of an archive that advances from both ends.

use crate::archive::{entry_bits, table_entry, valid_table};
use crate::entry::{entry_result_view, materialize, ArchiveEntry, Record};
use crate::table::{ArchiveTableEntry, TABLE_ENTRY_SIZE};
use crate::Error;
use vstd::prelude::*;

verus! {

/// The records of an archive that have not been yielded yet. Each is
/// materialized when the iterator reaches it.
#[derive(Debug)]
pub struct ArchiveIterator<'a> {
    entries: &'a [u8],
    names: &'a [u8],
    extra_data: &'a [u8],
    data: &'a [u8],
    front: usize,
    back: usize,
}

impl<'a> View for ArchiveIterator<'a> {
    type V = Seq<Result<Record, Error>>;

    /// What is left to yield, front to back.
    closed spec fn view(&self) -> Seq<Result<Record, Error>> {
        Seq::new(
            (self.back - self.front) as nat,
            |k: int|
                materialize(
                    table_entry(self.entries@, self.front + k),
                    self.names@,
                    self.extra_data@,
                    self.data@,
                ),
        )
    }
}

/// The table entry with the given index, in a table whose entries are known
/// to be valid.
fn read_table_entry(table: &[u8], index: usize) -> (entry: ArchiveTableEntry)
    requires
        56 * index + 56 <= table.len(),
        ArchiveTableEntry::valid_bits(entry_bits(table@, index as int)),
    ensures
        entry == table_entry(table@, index as int),
{
    let at: usize = index * TABLE_ENTRY_SIZE;
    assert(table@.subrange(at as int, at + 56) == entry_bits(table@, index as int));
    ArchiveTableEntry::read_valid(table, at)
}

impl<'a> ArchiveIterator<'a> {
    #[verifier::type_invariant]
    spec fn well_formed(self) -> bool {
        &&& self.front <= self.back
        &&& 56 * self.back <= self.entries@.len()
        &&& valid_table(self.entries@, self.back as int)
    }

    pub(crate) fn new(
        entries: &'a [u8],
        count: u32,
        names: &'a [u8],
        extra_data: &'a [u8],
        data: &'a [u8],
    ) -> (iter: ArchiveIterator<'a>)
        requires
            entries@.len() == 56 * count,
            valid_table(entries@, count as int),
        ensures
            iter@ == Seq::new(
                count as nat,
                |i: int| materialize(table_entry(entries@, i), names@, extra_data@, data@),
            ),
    {
        let _ = entries.len();
        ArchiveIterator { entries, names, extra_data, data, front: 0, back: count as usize }
    }

    /// How many records are left to yield.
    pub fn len(&self) -> (len: usize)
        ensures
            len == self@.len(),
    {
        proof {
            use_type_invariant(self);
        }
        self.back - self.front
    }

    /// Yields the first record that is left, or `None` when none is left.
    /// A record that cannot be materialized is yielded as its error and
    /// passed over like any other.
    pub fn next(&mut self) -> (item: Option<Result<ArchiveEntry<'a>, Error>>)
        ensures
            old(self)@.len() == 0 ==> item is None && final(self)@ == old(self)@,
            old(self)@.len() > 0 ==> {
                &&& item matches Some(r)
                &&& entry_result_view(r) == old(self)@.first()
                &&& final(self)@ == old(self)@.drop_first()
            },
    {
        proof {
            use_type_invariant(&*self);
        }
        if self.front == self.back {
            return None;
        }
        assert(ArchiveTableEntry::valid_bits(entry_bits(self.entries@, self.front as int)));
        let table_entry = read_table_entry(self.entries, self.front);
        self.front = self.front + 1;
        assert(self@ =~= old(self)@.drop_first());
        Some(ArchiveEntry::from_table_entry(&table_entry, self.names, self.extra_data, self.data))
    }

    /// Yields the last record that is left, or `None` when none is left.
    pub fn next_back(&mut self) -> (item: Option<Result<ArchiveEntry<'a>, Error>>)
        ensures
            old(self)@.len() == 0 ==> item is None && final(self)@ == old(self)@,
            old(self)@.len() > 0 ==> {
                &&& item matches Some(r)
                &&& entry_result_view(r) == old(self)@.last()
                &&& final(self)@ == old(self)@.drop_last()
            },
    {
        proof {
            use_type_invariant(&*self);
        }
        if self.front == self.back {
            return None;
        }
        assert(ArchiveTableEntry::valid_bits(entry_bits(self.entries@, self.back - 1)));
        let table_entry = read_table_entry(self.entries, self.back - 1);
        self.back = self.back - 1;
        assert(self@ =~= old(self)@.drop_last());
        Some(ArchiveEntry::from_table_entry(&table_entry, self.names, self.extra_data, self.data))
    }
}

} // verus!
