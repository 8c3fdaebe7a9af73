//! The table of process records, one for each family.

use crate::process::{ProcessRecord, ProcessRecordView};
use std::collections::hash_map::Entry;
use std::collections::HashMap;
use vstd::prelude::*;

verus! {

/// The process records, by family.
#[derive(Debug)]
pub struct ProcessRecords {
    pub process_records: HashMap<u64, ProcessRecord>,
}

impl View for ProcessRecords {
    type V = Map<u64, ProcessRecordView>;

    open spec fn view(&self) -> Map<u64, ProcessRecordView> {
        Map::new(
            |gid: u64| self.process_records@.contains_key(gid),
            |gid: u64| self.process_records@[gid]@,
        )
    }
}

/// Every record of the table is filed under the family that it names.
pub open spec fn filed_by_family(table: Map<u64, ProcessRecordView>) -> bool {
    forall|gid: u64| table.contains_key(gid) ==> (#[trigger] table[gid]).gid == gid
}

impl Default for ProcessRecords {
    fn default() -> (r: ProcessRecords)
        ensures
            r@ == Map::<u64, ProcessRecordView>::empty(),
    {
        Self::new()
    }
}

impl ProcessRecords {
    /// A table without records.
    pub fn new() -> (r: ProcessRecords)
        ensures
            r@ == Map::<u64, ProcessRecordView>::empty(),
    {
        let r = ProcessRecords { process_records: HashMap::new() };
        assert(r@ =~= Map::<u64, ProcessRecordView>::empty());
        r
    }

    /// The number of records.
    pub fn len(&self) -> (n: usize)
        ensures
            n == self@.len(),
            self@.dom().finite(),
    {
        broadcast use vstd::std_specs::hash::group_hash_axioms;

        assert(self@.dom() =~= self.process_records@.dom());
        self.process_records.len()
    }

    /// The record of the family `gid`, where the table has one.
    pub fn get_precord_by_gid(&self, gid: u64) -> (r: Option<&ProcessRecord>)
        ensures
            r is Some <==> self@.contains_key(gid),
            r matches Some(record) ==> record@ == self@[gid],
    {
        broadcast use vstd::std_specs::hash::group_hash_axioms;

        self.process_records.get(&gid)
    }

    /// The record of the family `gid`, where the table has one, to be changed
    /// in place. The table is what it was but for that record.
    pub fn get_precord_mut_by_gid(&mut self, gid: u64) -> (r: Option<&mut ProcessRecord>)
        ensures
            r is Some <==> old(self)@.contains_key(gid),
            r matches Some(record) ==> record@ == old(self)@[gid] && final(self)@ == old(
                self,
            )@.insert(gid, final(record)@),
            r is None ==> final(self)@ == old(self)@,
    {
        broadcast use vstd::std_specs::hash::group_hash_axioms;

        match self.process_records.entry(gid) {
            Entry::Occupied(entry) => Some(entry.into_mut()),
            Entry::Vacant(_) => None,
        }
    }

    /// Files `precord` under the family `gid`, in place of the record that the
    /// table had for it, if any.
    pub fn insert_precord(&mut self, gid: u64, precord: ProcessRecord)
        ensures
            final(self)@ == old(self)@.insert(gid, precord@),
    {
        broadcast use vstd::std_specs::hash::group_hash_axioms;

        let _ = self.process_records.insert(gid, precord);
        assert(self@ =~= old(self)@.insert(gid, precord@));
    }
}

} // verus!
