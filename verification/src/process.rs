//! What is kept of one family of processes.

use crate::shared_def::{IOMessage, IOMessageView};
use vstd::prelude::*;

verus! {

/// Whether the processes of a family run.
#[derive(Clone, Copy, Debug, PartialEq, Eq, Structural)]
pub enum ProcessState {
    Running,
    Suspended,
}

/// What a record keeps of one event.
#[derive(Clone, Copy, Debug, PartialEq, Eq, Structural)]
pub struct IrpRecord {
    pub pid: u32,
    pub irp_op: u8,
    pub file_change: u8,
    pub file_location_info: u8,
    pub mem_sized_used: u64,
    pub file_size: i64,
}

impl IrpRecord {
    /// What is kept of the event `ev`.
    pub open spec fn of(ev: IOMessageView) -> IrpRecord {
        IrpRecord {
            pid: ev.pid,
            irp_op: ev.irp_op,
            file_change: ev.file_change,
            file_location_info: ev.file_location_info,
            mem_sized_used: ev.mem_sized_used,
            file_size: ev.file_size,
        }
    }
}

/// The record of one family of processes: the processes seen, the executable
/// at its root, and the events folded into it so far.
#[derive(Debug)]
pub struct ProcessRecord {
    /// The family.
    pub gid: u64,
    /// The processes seen under the family, in the order in which each was
    /// first seen.
    pub pids: Vec<u32>,
    /// Path of the executable at the root of the family.
    pub exepath: String,
    /// Name of the application, taken from the executable's file name.
    pub appname: String,
    pub process_state: ProcessState,
    /// The events folded into the record, oldest first.
    pub irp_records: Vec<IrpRecord>,
}

/// What a `ProcessRecord` holds.
pub struct ProcessRecordView {
    pub gid: u64,
    pub pids: Seq<u32>,
    pub exepath: Seq<char>,
    pub appname: Seq<char>,
    pub process_state: ProcessState,
    pub irp_records: Seq<IrpRecord>,
}

impl View for ProcessRecord {
    type V = ProcessRecordView;

    open spec fn view(&self) -> ProcessRecordView {
        ProcessRecordView {
            gid: self.gid,
            pids: self.pids@,
            exepath: self.exepath@,
            appname: self.appname@,
            process_state: self.process_state,
            irp_records: self.irp_records@,
        }
    }
}

impl ProcessRecordView {
    /// The record opened for the family of `ev`: it runs, and nothing is folded
    /// into it yet.
    pub open spec fn opened(ev: IOMessageView, appname: Seq<char>, exepath: Seq<char>) -> Self {
        ProcessRecordView {
            gid: ev.gid,
            pids: Seq::empty(),
            exepath,
            appname,
            process_state: ProcessState::Running,
            irp_records: Seq::empty(),
        }
    }

    /// The record with `ev` folded into it: the event's process is among the
    /// processes seen, and the event is the last of those kept.
    pub open spec fn with_event(self, ev: IOMessageView) -> Self {
        ProcessRecordView {
            pids: if self.pids.contains(ev.pid) {
                self.pids
            } else {
                self.pids.push(ev.pid)
            },
            irp_records: self.irp_records.push(IrpRecord::of(ev)),
            ..self
        }
    }

    /// The record with its family suspended.
    pub open spec fn suspended(self) -> Self {
        ProcessRecordView { process_state: ProcessState::Suspended, ..self }
    }
}

/// Folding an event keeps every process listed once, lists the event's
/// process, and adds one event.
pub proof fn lemma_with_event(r: ProcessRecordView, ev: IOMessageView)
    requires
        r.pids.no_duplicates(),
    ensures
        r.with_event(ev).pids.no_duplicates(),
        r.with_event(ev).pids.contains(ev.pid),
        forall|p: u32| r.pids.contains(p) ==> r.with_event(ev).pids.contains(p),
        r.with_event(ev).irp_records.len() == r.irp_records.len() + 1,
        r.with_event(ev).gid == r.gid,
{
    let after = r.with_event(ev).pids;
    if !r.pids.contains(ev.pid) {
        assert(after[r.pids.len() as int] == ev.pid);
        assert forall|p: u32| r.pids.contains(p) implies after.contains(p) by {
            let i = choose|i: int| 0 <= i < r.pids.len() && r.pids[i] == p;
            assert(after[i] == p);
        }
    }
}

impl ProcessRecord {
    /// Opens the record of the family of `iomsg`, whose root executable lies
    /// at `exepath` and is called `appname`.
    pub fn from(iomsg: &IOMessage, appname: String, exepath: String) -> (r: ProcessRecord)
        ensures
            r@ == ProcessRecordView::opened(iomsg@, appname@, exepath@),
    {
        ProcessRecord {
            gid: iomsg.gid,
            pids: Vec::new(),
            exepath,
            appname,
            process_state: ProcessState::Running,
            irp_records: Vec::new(),
        }
    }

    /// Folds the event into the record.
    pub fn add_irp_record(&mut self, iomsg: &IOMessage)
        ensures
            final(self)@ == old(self)@.with_event(iomsg@),
    {
        let mut seen: bool = false;
        let mut i: usize = 0;
        while i < self.pids.len()
            invariant
                i <= self.pids@.len(),
                *self == *old(self),
                seen == self.pids@.take(i as int).contains(iomsg.pid),
            decreases self.pids@.len() - i,
        {
            let ghost before = self.pids@.take(i as int);
            if self.pids[i] == iomsg.pid {
                seen = true;
            }
            proof {
                let after = self.pids@.take(i + 1);
                assert(after =~= before.push(self.pids@[i as int]));
                if before.contains(iomsg.pid) {
                    let j = choose|j: int| 0 <= j < before.len() && before[j] == iomsg.pid;
                    assert(after[j] == iomsg.pid);
                }
                if self.pids@[i as int] == iomsg.pid {
                    assert(after[i as int] == iomsg.pid);
                }
            }
            i = i + 1;
        }
        assert(self.pids@.take(i as int) =~= self.pids@);
        if !seen {
            self.pids.push(iomsg.pid);
        }
        self.irp_records.push(
            IrpRecord {
                pid: iomsg.pid,
                irp_op: iomsg.irp_op,
                file_change: iomsg.file_change,
                file_location_info: iomsg.file_location_info,
                mem_sized_used: iomsg.mem_sized_used,
                file_size: iomsg.file_size,
            },
        );
    }
}

} // verus!
