//! Correlation of events into process records: the first event of a family
//! opens its record, unless the family's executable cannot be found or is one
//! of the operating system's own, and every event of a family that has a
//! record is folded into it.

pub mod process_record_handling;
pub mod process_records;

use crate::driver_comm::{DriverComMessage, DriverComMessageView};
use crate::paths::{file_name, file_name_of, is_system_executable, system_executable};
use crate::process::{ProcessRecord, ProcessRecordView};
use crate::shared_def::{IOMessage, IOMessageView, RuntimeFeaturesView};
use crate::worker::process_record_handling::Exepath;
use crate::worker::process_records::{filed_by_family, ProcessRecords};
use vstd::prelude::*;

verus! {

/// The name given to an application whose executable has no file name.
pub open spec fn default_appname() -> Seq<char> {
    "DEFAULT"@
}

/// The name of the application whose executable lies at `exepath`: the
/// executable's file name, or the default name where it has none.
pub open spec fn appname_of(exepath: Seq<char>) -> Seq<char> {
    if file_name(exepath).len() > 0 {
        file_name(exepath)
    } else {
        default_appname()
    }
}

/// The text of a path that was found, if one was.
pub open spec fn text_of(resolved: Option<String>) -> Option<Seq<char>> {
    match resolved {
        Some(exepath) => Some(exepath@),
        None => None,
    }
}

/// A family whose executable was looked for with the outcome `resolved` gets a
/// record: the executable was found and is none of the operating system's own.
pub open spec fn admitted(resolved: Option<Seq<char>>) -> bool {
    resolved matches Some(exepath) && !is_system_executable(exepath)
}

/// The table once the family of `ev` is registered: a family that has no
/// record and is admitted gets one; any other table stays as it is.
pub open spec fn registered(
    table: Map<u64, ProcessRecordView>,
    ev: IOMessageView,
    resolved: Option<Seq<char>>,
) -> Map<u64, ProcessRecordView> {
    if !table.contains_key(ev.gid) && admitted(resolved) {
        table.insert(
            ev.gid,
            ProcessRecordView::opened(ev, appname_of(resolved->0), resolved->0),
        )
    } else {
        table
    }
}

/// The table once `ev` is folded into the record of its family, where it has
/// one.
pub open spec fn folded(table: Map<u64, ProcessRecordView>, ev: IOMessageView) -> Map<
    u64,
    ProcessRecordView,
> {
    if table.contains_key(ev.gid) {
        table.insert(ev.gid, table[ev.gid].with_event(ev))
    } else {
        table
    }
}

/// The table once the event `ev` is handled, where looking for the executable
/// of its process had the outcome `resolved`.
pub open spec fn handled(
    table: Map<u64, ProcessRecordView>,
    ev: IOMessageView,
    resolved: Option<Seq<char>>,
) -> Map<u64, ProcessRecordView> {
    folded(registered(table, ev, resolved), ev)
}

/// The event as it leaves: where its family has a record, it carries the
/// record's executable and whether that executable still exists, which
/// `exe_exists` tells. An event whose family has no record is left as it is.
pub open spec fn stamped(
    ev: IOMessageView,
    table: Map<u64, ProcessRecordView>,
    exe_exists: bool,
) -> IOMessageView {
    if table.contains_key(ev.gid) {
        IOMessageView {
            runtime_features: RuntimeFeaturesView {
                exepath: table[ev.gid].exepath,
                exe_still_exists: exe_exists,
            },
            ..ev
        }
    } else {
        ev
    }
}

/// An event never takes a record away nor gives a family a second one: the
/// families with a record stay, the table grows by one record exactly where
/// the event's family had none and is admitted, and else keeps its size.
pub proof fn lemma_event_adds_at_most_one_record(
    table: Map<u64, ProcessRecordView>,
    ev: IOMessageView,
    resolved: Option<Seq<char>>,
)
    requires
        table.dom().finite(),
    ensures
        handled(table, ev, resolved).dom().finite(),
        forall|gid: u64| table.contains_key(gid) ==> handled(table, ev, resolved).contains_key(gid),
        forall|gid: u64|
            gid != ev.gid ==> (handled(table, ev, resolved).contains_key(gid)
                <==> table.contains_key(gid)),
        table.contains_key(ev.gid) ==> handled(table, ev, resolved).dom() == table.dom(),
        handled(table, ev, resolved).len() == if !table.contains_key(ev.gid) && admitted(
            resolved,
        ) {
            table.len() + 1
        } else {
            table.len()
        },
        table.len() <= handled(table, ev, resolved).len() <= table.len() + 1,
{
    let after = handled(table, ev, resolved);
    if table.contains_key(ev.gid) {
        assert(after.dom() =~= table.dom());
    } else if admitted(resolved) {
        assert(after.dom() =~= table.dom().insert(ev.gid));
    } else {
        assert(after.dom() =~= table.dom());
    }
}

/// An event of a family whose executable is one of the operating system's own
/// opens no record: the table stays as it is.
pub proof fn lemma_system_executable_opens_no_record(
    table: Map<u64, ProcessRecordView>,
    ev: IOMessageView,
    exepath: Seq<char>,
)
    requires
        !table.contains_key(ev.gid),
        is_system_executable(exepath),
    ensures
        handled(table, ev, Some(exepath)) == table,
{
}

/// An event of a family whose executable cannot be found opens no record.
pub proof fn lemma_unresolved_opens_no_record(table: Map<u64, ProcessRecordView>, ev: IOMessageView)
    requires
        !table.contains_key(ev.gid),
    ensures
        handled(table, ev, None) == table,
{
}

/// Handling an event keeps every record filed under the family it names.
pub proof fn lemma_handled_keeps_filing(
    table: Map<u64, ProcessRecordView>,
    ev: IOMessageView,
    resolved: Option<Seq<char>>,
)
    requires
        filed_by_family(table),
    ensures
        filed_by_family(handled(table, ev, resolved)),
{
    let mid = registered(table, ev, resolved);
    assert(filed_by_family(mid));
    let after = handled(table, ev, resolved);
    assert forall|gid: u64| after.contains_key(gid) implies (#[trigger] after[gid]).gid == gid by {
        if gid != ev.gid {
            assert(after[gid] == mid[gid]);
        } else {
            assert(mid[gid].gid == gid);
        }
    }
}

/// Keeps the process records and folds events into them.
pub struct Worker<E: Exepath> {
    process_records: ProcessRecords,
    exepath_handler: E,
}

impl<E: Exepath> View for Worker<E> {
    type V = Map<u64, ProcessRecordView>;

    closed spec fn view(&self) -> Map<u64, ProcessRecordView> {
        self.process_records@
    }
}

impl<E: Exepath> Worker<E> {
    /// A worker without records that finds executables through
    /// `exepath_handler`.
    pub fn new(exepath_handler: E) -> (w: Worker<E>)
        ensures
            w@ == Map::<u64, ProcessRecordView>::empty(),
    {
        Worker { process_records: ProcessRecords::new(), exepath_handler }
    }

    /// The same records, with another way to find executables.
    pub fn exepath_handler<F: Exepath>(self, exepath: F) -> (w: Worker<F>)
        ensures
            w@ == self@,
    {
        Worker { process_records: self.process_records, exepath_handler: exepath }
    }

    /// The worker as it is.
    pub fn build(self) -> (w: Worker<E>)
        ensures
            w@ == self@,
    {
        self
    }

    /// The process records.
    pub fn process_records(&self) -> (r: &ProcessRecords)
        ensures
            r@ == self@,
    {
        &self.process_records
    }

    /// The name of the application whose executable lies at `exepath`: the
    /// executable's file name, where it has one.
    pub fn appname_from_exepath(exepath: &str) -> (r: Option<String>)
        ensures
            r is Some <==> file_name(exepath@).len() > 0,
            r matches Some(name) ==> name@ == file_name(exepath@),
    {
        file_name_of(exepath)
    }

    /// Opens the record of the event's family where it has none and is
    /// admitted. `resolved` is the outcome of looking for the executable of
    /// the event's process.
    fn register_precord(&mut self, iomsg: &IOMessage, resolved: Option<String>)
        ensures
            final(self)@ == registered(
                old(self)@,
                iomsg@,
                text_of(resolved),
            ),
    {
        if self.process_records.get_precord_by_gid(iomsg.gid).is_some() {
            return;
        }
        if let Some(exepath) = resolved {
            if !system_executable(exepath.as_str()) {
                let appname: String = match Self::appname_from_exepath(exepath.as_str()) {
                    Some(name) => name,
                    None => "DEFAULT".to_owned(),
                };
                let precord = ProcessRecord::from(iomsg, appname, exepath);
                self.process_records.insert_precord(iomsg.gid, precord);
            }
        }
    }

    /// Folds the event into the record of its family, where it has one, and
    /// stamps the event with the record's executable and with `exe_exists`.
    fn fold_and_stamp(&mut self, iomsg: &mut IOMessage, exe_exists: bool)
        ensures
            final(self)@ == folded(old(self)@, old(iomsg)@),
            final(iomsg)@ == stamped(old(iomsg)@, final(self)@, exe_exists),
    {
        if let Some(precord) = self.process_records.get_precord_mut_by_gid(iomsg.gid) {
            precord.add_irp_record(iomsg);
            iomsg.runtime_features.exepath = precord.exepath.clone();
            iomsg.runtime_features.exe_still_exists = exe_exists;
        }
    }

    /// Handles one event, where looking for the executable of its process had
    /// the outcome `resolved`, and `exe_exists` tells whether the executable
    /// of the event's family exists now: registers the event's family, folds
    /// the event into the family's record, and stamps the event with the
    /// record's executable and with `exe_exists`. An event whose family gets
    /// no record is left as it is.
    pub fn process_io_resolved(
        &mut self,
        iomsg: &mut IOMessage,
        resolved: Option<String>,
        exe_exists: bool,
    )
        ensures
            final(self)@ == handled(old(self)@, old(iomsg)@, text_of(resolved)),
            final(iomsg)@ == stamped(old(iomsg)@, final(self)@, exe_exists),
    {
        self.register_precord(iomsg, resolved);
        self.fold_and_stamp(iomsg, exe_exists);
    }

    /// Handles one event. The executable of the event's process is looked for
    /// only where the event's family has no record yet; whether the family's
    /// executable still exists is asked only where the family has a record
    /// once it is registered.
    pub fn process_io(&mut self, iomsg: &mut IOMessage)
        ensures
            exists|resolved: Option<Seq<char>>, exe_exists: bool|
                final(self)@ == #[trigger] handled(old(self)@, old(iomsg)@, resolved)
                    && final(iomsg)@ == #[trigger] stamped(
                    old(iomsg)@,
                    final(self)@,
                    exe_exists,
                ),
            old(self)@.contains_key(old(iomsg).gid) ==> final(self)@ == folded(
                old(self)@,
                old(iomsg)@,
            ),
            !final(self)@.contains_key(old(iomsg).gid) ==> final(iomsg)@ == old(iomsg)@,
    {
        let resolved: Option<String> = if self.process_records.get_precord_by_gid(
            iomsg.gid,
        ).is_some() {
            None
        } else {
            self.exepath_handler.exepath(iomsg)
        };
        let ghost outcome: Option<Seq<char>> = text_of(resolved);
        self.register_precord(iomsg, resolved);
        let exe_exists: bool = match self.process_records.get_precord_by_gid(iomsg.gid) {
            Some(precord) => self.exepath_handler.exe_still_exists(precord.exepath.as_str()),
            None => true,
        };
        self.fold_and_stamp(iomsg, exe_exists);
        assert(self@ == handled(old(self)@, old(iomsg)@, outcome));
        assert(iomsg@ == stamped(old(iomsg)@, self@, exe_exists));
    }

    /// The command that asks the minifilter to end every process of the family
    /// `gid`, sent in the name of process `pid`. The table is not looked at and
    /// does not change: a family without a record is asked about like any
    /// other, and a family that has one keeps it until the caller drops it.
    pub fn terminate_family(&mut self, gid: u64, pid: u32) -> (command: DriverComMessage)
        ensures
            final(self)@ == old(self)@,
            command@ == DriverComMessageView::kill_gid(pid, gid),
    {
        DriverComMessage::kill_gid(pid, gid)
    }
}

} // verus!
