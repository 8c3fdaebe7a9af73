//! Commands sent to the minifilter, what it answers, and the codes it reports.

use crate::layout::{le_bytes_u16, le_bytes_u32, le_bytes_u64, le_u16, le_u32, le_u64, push_u16,
    push_u32, push_u64, lemma_le_u16_round_trip, lemma_le_u32_round_trip, lemma_le_u64_round_trip};
use crate::shared_def::ReplyIrp;
use crate::wide::{c_units, has_c_form, lemma_c_units_of_narrow, wide_c_string};
use sysinfo::PidExt;
use vstd::prelude::*;

verus! {

/// Code units of a command's path buffer.
pub const PATH_UNITS: usize = 520;

/// Bytes of a command on the wire.
pub const COMMAND_SIZE: usize = 1056;

/// The family id sent with a registration; the minifilter does not read it.
pub const SET_PID_GID: u64 = 140713315094899;

/// What a command asks of the minifilter.
#[derive(Clone, Copy, Debug, PartialEq, Eq, Structural)]
pub enum DriverComMessageType {
    /// Watch one more directory.
    AddScanDirectory,
    /// Watch a directory no longer.
    RemScanDirectory,
    /// Hand over the events that are pending.
    GetOps,
    /// Take note of this process's id and report none of its requests.
    SetPid,
    /// End every process of a family.
    KillGid,
}

impl DriverComMessageType {
    /// The number that stands for the command on the wire.
    pub open spec fn code(self) -> u32 {
        match self {
            DriverComMessageType::AddScanDirectory => 0,
            DriverComMessageType::RemScanDirectory => 1,
            DriverComMessageType::GetOps => 2,
            DriverComMessageType::SetPid => 3,
            DriverComMessageType::KillGid => 4,
        }
    }

    /// The number that stands for the command on the wire.
    pub fn ordinal(&self) -> (n: u32)
        ensures
            n == self.code(),
    {
        match self {
            DriverComMessageType::AddScanDirectory => 0,
            DriverComMessageType::RemScanDirectory => 1,
            DriverComMessageType::GetOps => 2,
            DriverComMessageType::SetPid => 3,
            DriverComMessageType::KillGid => 4,
        }
    }
}

/// A path buffer: the units given, then terminators up to the buffer's length.
pub open spec fn path_buffer(units: Seq<u16>) -> Seq<u16> {
    Seq::new(
        PATH_UNITS as nat,
        |i: int|
            if i < units.len() {
                units[i]
            } else {
                0u16
            },
    )
}

/// The string fits a path buffer: it has a wide C form, and its units leave
/// room for the terminator.
pub open spec fn fits_path_buffer(s: Seq<char>) -> bool {
    has_c_form(s) && c_units(s).len() < PATH_UNITS
}

/// The path buffer that holds `bufstr`, or `None` where the string does not
/// fit one.
pub fn checked_commessage_buffer(bufstr: &str) -> (r: Option<[u16; 520]>)
    ensures
        r is Some <==> fits_path_buffer(bufstr@),
        r matches Some(buf) ==> buf@ == path_buffer(c_units(bufstr@)),
{
    let units: Vec<u16> = match wide_c_string(bufstr) {
        Some(units) => units,
        None => {
            return None;
        },
    };
    if units.len() > PATH_UNITS {
        return None;
    }
    let mut buf: [u16; 520] = [0u16; 520];
    let mut i: usize = 0;
    while i < units.len()
        invariant
            i <= units@.len() <= PATH_UNITS,
            forall|j: int| 0 <= j < i ==> buf@[j] == units@[j],
            forall|j: int| i <= j < PATH_UNITS ==> buf@[j] == 0,
        decreases units@.len() - i,
    {
        buf[i] = units[i];
        i = i + 1;
    }
    assert(buf@ =~= path_buffer(c_units(bufstr@)));
    Some(buf)
}

/// The path buffer that holds `bufstr`.
pub fn string_to_commessage_buffer(bufstr: &str) -> (buf: [u16; 520])
    requires
        fits_path_buffer(bufstr@),
    ensures
        buf@ == path_buffer(c_units(bufstr@)),
{
    match checked_commessage_buffer(bufstr) {
        Some(buf) => buf,
        None => [0u16; 520],
    }
}

/// A command for the minifilter.
#[derive(Clone, Copy, Debug)]
pub struct DriverComMessage {
    /// What is asked, as `DriverComMessageType::ordinal` numbers it.
    pub msg_type: u32,
    /// The process that asks.
    pub pid: u32,
    /// The family that the command is about, where it is about one.
    pub gid: u64,
    /// The path that the command is about, terminated.
    pub path: [u16; 520],
}

/// What a `DriverComMessage` holds.
pub struct DriverComMessageView {
    pub msg_type: u32,
    pub pid: u32,
    pub gid: u64,
    pub path: Seq<u16>,
}

impl View for DriverComMessage {
    type V = DriverComMessageView;

    open spec fn view(&self) -> DriverComMessageView {
        DriverComMessageView {
            msg_type: self.msg_type,
            pid: self.pid,
            gid: self.gid,
            path: self.path@,
        }
    }
}

/// The bytes that store the code units, each low byte first.
pub open spec fn units_bytes(units: Seq<u16>) -> Seq<u8>
    decreases units.len(),
{
    if units.len() == 0 {
        Seq::empty()
    } else {
        units_bytes(units.drop_last()) + le_bytes_u16(units.last())
    }
}

impl DriverComMessageView {
    /// The command of kind `kind` from process `pid` about family `gid` and
    /// the path `path`.
    pub open spec fn build(
        kind: DriverComMessageType,
        pid: u32,
        gid: u64,
        path: Seq<char>,
    ) -> DriverComMessageView {
        DriverComMessageView {
            msg_type: kind.code(),
            pid,
            gid,
            path: path_buffer(c_units(path)),
        }
    }

    /// The registration of process `pid`.
    pub open spec fn set_app_pid(pid: u32) -> DriverComMessageView {
        Self::build(DriverComMessageType::SetPid, pid, SET_PID_GID, "\\Device\\harddiskVolume"@)
    }

    /// The request of process `pid` for the pending events.
    pub open spec fn get_ops(pid: u32) -> DriverComMessageView {
        DriverComMessageView {
            msg_type: DriverComMessageType::GetOps.code(),
            pid,
            gid: 0,
            path: path_buffer(Seq::empty()),
        }
    }

    /// The request of process `pid` to end family `gid`.
    pub open spec fn kill_gid(pid: u32, gid: u64) -> DriverComMessageView {
        DriverComMessageView {
            msg_type: DriverComMessageType::KillGid.code(),
            pid,
            gid,
            path: path_buffer(Seq::empty()),
        }
    }

    /// The command on the wire: kind, process, family, path, each low byte
    /// first.
    pub open spec fn wire(self) -> Seq<u8> {
        le_bytes_u32(self.msg_type) + le_bytes_u32(self.pid) + le_bytes_u64(self.gid)
            + units_bytes(self.path)
    }
}

/// The bytes of `n` code units are `2 * n` bytes, and unit `i` is stored at
/// byte `2 * i`.
pub proof fn lemma_units_bytes(units: Seq<u16>)
    ensures
        units_bytes(units).len() == 2 * units.len(),
        forall|i: int| 0 <= i < units.len() ==> le_u16(units_bytes(units), 2 * i) == units[i],
    decreases units.len(),
{
    if units.len() > 0 {
        let head = units.drop_last();
        lemma_units_bytes(head);
        let b = units_bytes(units);
        assert forall|i: int| 0 <= i < units.len() implies le_u16(b, 2 * i) == units[i] by {
            if i < head.len() {
                assert(b[2 * i] == units_bytes(head)[2 * i]);
                assert(b[2 * i + 1] == units_bytes(head)[2 * i + 1]);
                assert(head[i] == units[i]);
            } else {
                lemma_le_u16_round_trip(units_bytes(head), units.last(), Seq::empty());
                assert(b =~= units_bytes(head) + le_bytes_u16(units.last()) + Seq::<u8>::empty());
            }
        }
    }
}

/// A command takes `COMMAND_SIZE` bytes on the wire, and each field is read
/// back from its place: the kind at byte 0, the process at 4, the family at 8,
/// and code unit `i` of the path at `16 + 2 * i`.
pub proof fn lemma_wire_layout(m: DriverComMessageView)
    requires
        m.path.len() == PATH_UNITS,
    ensures
        m.wire().len() == COMMAND_SIZE,
        le_u32(m.wire(), 0) == m.msg_type,
        le_u32(m.wire(), 4) == m.pid,
        le_u64(m.wire(), 8) == m.gid,
        forall|i: int| 0 <= i < PATH_UNITS ==> le_u16(m.wire(), 16 + 2 * i) == m.path[i],
{
    let a = le_bytes_u32(m.msg_type);
    let b = le_bytes_u32(m.pid);
    let c = le_bytes_u64(m.gid);
    let d = units_bytes(m.path);
    let w = m.wire();
    lemma_units_bytes(m.path);
    lemma_le_u32_round_trip(Seq::empty(), m.msg_type, b + c + d);
    assert(w =~= Seq::<u8>::empty() + a + (b + c + d));
    lemma_le_u32_round_trip(a, m.pid, c + d);
    assert(w =~= a + b + (c + d));
    lemma_le_u64_round_trip(a + b, m.gid, d);
    assert(w =~= (a + b) + c + d);
    assert forall|i: int| 0 <= i < PATH_UNITS implies le_u16(w, 16 + 2 * i) == m.path[i] by {
        assert(w[16 + 2 * i] == d[2 * i]);
        assert(w[16 + 2 * i + 1] == d[2 * i + 1]);
    }
}

/// `sysinfo::get_current_pid`, with the id as a number: the id of the process
/// that runs, or `None` where the platform does not tell. Nothing is promised
/// of the number.
#[verifier::external_body]
fn current_pid() -> Option<u32> {
    match sysinfo::get_current_pid() {
        Ok(pid) => Some(pid.as_u32()),
        Err(_) => None,
    }
}

impl DriverComMessage {
    /// The command of kind `commsgtype` from process `pid` about family `gid`
    /// and the path `path`.
    pub fn build_irp_msg(commsgtype: DriverComMessageType, pid: u32, gid: u64, path: &str) -> (m:
        DriverComMessage)
        requires
            fits_path_buffer(path@),
        ensures
            m@ == DriverComMessageView::build(commsgtype, pid, gid, path@),
    {
        DriverComMessage {
            msg_type: commsgtype.ordinal(),
            pid,
            gid,
            path: string_to_commessage_buffer(path),
        }
    }

    /// The command that registers process `pid`, whose own requests the
    /// minifilter then leaves out of what it reports.
    pub fn set_app_pid(pid: u32) -> (m: DriverComMessage)
        ensures
            m@ == DriverComMessageView::set_app_pid(pid),
    {
        let path = "\\Device\\harddiskVolume";
        proof {
            reveal_strlit("\\Device\\harddiskVolume");
            lemma_c_units_of_narrow(path@);
        }
        Self::build_irp_msg(DriverComMessageType::SetPid, pid, SET_PID_GID, path)
    }

    /// The command by which process `pid` asks for the pending events.
    pub fn get_ops(pid: u32) -> (m: DriverComMessage)
        ensures
            m@ == DriverComMessageView::get_ops(pid),
    {
        let m = DriverComMessage {
            msg_type: DriverComMessageType::GetOps.ordinal(),
            pid,
            gid: 0,
            path: [0u16; 520],
        };
        assert(m@.path =~= path_buffer(Seq::empty()));
        m
    }

    /// The command by which process `pid` asks to end every process of the
    /// family `gid`.
    pub fn kill_gid(pid: u32, gid: u64) -> (m: DriverComMessage)
        ensures
            m@ == DriverComMessageView::kill_gid(pid, gid),
    {
        let m = DriverComMessage {
            msg_type: DriverComMessageType::KillGid.ordinal(),
            pid,
            gid,
            path: [0u16; 520],
        };
        assert(m@.path =~= path_buffer(Seq::empty()));
        m
    }

    /// The registration of the process that runs; `None` where its id cannot
    /// be had.
    pub fn own_set_app_pid() -> (r: Option<DriverComMessage>)
        ensures
            r matches Some(m) ==> m@ == DriverComMessageView::set_app_pid(m.pid),
    {
        match current_pid() {
            Some(pid) => Some(Self::set_app_pid(pid)),
            None => None,
        }
    }

    /// The request of the process that runs for the pending events; `None`
    /// where its id cannot be had.
    pub fn own_get_ops() -> (r: Option<DriverComMessage>)
        ensures
            r matches Some(m) ==> m@ == DriverComMessageView::get_ops(m.pid),
    {
        match current_pid() {
            Some(pid) => Some(Self::get_ops(pid)),
            None => None,
        }
    }

    /// The request of the process that runs to end family `gid`; `None` where
    /// its id cannot be had.
    pub fn own_kill_gid(gid: u64) -> (r: Option<DriverComMessage>)
        ensures
            r matches Some(m) ==> m@ == DriverComMessageView::kill_gid(m.pid, gid),
    {
        match current_pid() {
            Some(pid) => Some(Self::kill_gid(pid, gid)),
            None => None,
        }
    }

    /// The command as the bytes that go on the wire.
    pub fn to_bytes(&self) -> (out: Vec<u8>)
        ensures
            out@ == self@.wire(),
    {
        let mut out: Vec<u8> = Vec::new();
        push_u32(&mut out, self.msg_type);
        push_u32(&mut out, self.pid);
        push_u64(&mut out, self.gid);
        let ghost head = out@;
        let mut i: usize = 0;
        while i < PATH_UNITS
            invariant
                i <= PATH_UNITS,
                out@ == head + units_bytes(self.path@.take(i as int)),
            decreases PATH_UNITS - i,
        {
            push_u16(&mut out, self.path[i]);
            proof {
                let more = self.path@.take(i + 1);
                assert(more.drop_last() =~= self.path@.take(i as int));
                assert(more.last() == self.path@[i as int]);
                assert(out@ =~= head + units_bytes(more));
            }
            i = i + 1;
        }
        assert(self.path@.take(PATH_UNITS as int) =~= self.path@);
        out
    }
}

/// Why the channel to the minifilter could not be used.
#[derive(Clone, Copy, Debug, PartialEq, Eq, Structural)]
pub enum ChannelError {
    /// The port could not be connected to: the minifilter does not run, or
    /// another client holds the port.
    ChannelUnavailable { hresult: i32 },
    /// A command could not be sent, or its answer not received.
    TransportError { hresult: i32 },
}

/// The status code reports success: it is not negative.
pub open spec fn succeeded(hresult: i32) -> bool {
    hresult >= 0
}

/// What a connection attempt came to, given the status code it returned.
pub fn connect_outcome(hresult: i32) -> (r: Result<(), ChannelError>)
    ensures
        r == if succeeded(hresult) {
            Ok::<(), ChannelError>(())
        } else {
            Err(ChannelError::ChannelUnavailable { hresult })
        },
{
    if hresult >= 0 {
        Ok(())
    } else {
        Err(ChannelError::ChannelUnavailable { hresult })
    }
}

/// What sending a command came to, given the status code it returned.
pub fn send_outcome(hresult: i32) -> (r: Result<(), ChannelError>)
    ensures
        r == if succeeded(hresult) {
            Ok::<(), ChannelError>(())
        } else {
            Err(ChannelError::TransportError { hresult })
        },
{
    if hresult >= 0 {
        Ok(())
    } else {
        Err(ChannelError::TransportError { hresult })
    }
}

/// Milliseconds to wait before the next retrieval when none is pending.
pub const IDLE_MILLIS: u64 = 10;

/// What the polling loop does after one retrieval.
#[derive(Clone, Copy, Debug)]
pub enum PollStep {
    /// Decode the batch under this header and hand its events on.
    Decode(ReplyIrp),
    /// Nothing is pending: wait this long, then ask again.
    Sleep { millis: u64 },
    /// The channel failed: leave the loop.
    Stop(ChannelError),
}

/// The step that follows a retrieval which returned `hresult` and reported
/// `returned` bytes written to the receive buffer `bytes`.
pub open spec fn step_after_poll(hresult: i32, bytes: Seq<u8>, returned: u32) -> PollStep {
    if !succeeded(hresult) {
        PollStep::Stop(ChannelError::TransportError { hresult })
    } else if returned != 0 && ReplyIrp::header_of(bytes) is Some && ReplyIrp::header_of(
        bytes,
    )->0.num_ops > 0 {
        PollStep::Decode(ReplyIrp::header_of(bytes)->0)
    } else {
        PollStep::Sleep { millis: IDLE_MILLIS }
    }
}

/// Decides what the polling loop does after one retrieval: it leaves on a
/// failed channel, decodes a batch that announces records, and else waits.
pub fn after_poll(hresult: i32, bytes: &[u8], returned: u32) -> (step: PollStep)
    ensures
        step == step_after_poll(hresult, bytes@, returned),
{
    if let Err(e) = send_outcome(hresult) {
        return PollStep::Stop(e);
    }
    match ReplyIrp::from_reply(bytes, returned) {
        Some(irp) => {
            if irp.num_ops > 0 {
                PollStep::Decode(irp)
            } else {
                PollStep::Sleep { millis: IDLE_MILLIS }
            }
        },
        None => PollStep::Sleep { millis: IDLE_MILLIS },
    }
}

/// The kind of filesystem request that the minifilter intercepted.
#[derive(Clone, Copy, Debug, PartialEq, Eq, Structural)]
pub enum IrpMajorOp {
    /// Nothing happened.
    IrpNone,
    /// A read, any time after a successful create.
    IrpRead,
    /// A write, any time after a successful create.
    IrpWrite,
    /// A change of a file's metadata; `FileChangeInfo` tells which.
    IrpSetInfo,
    /// A handle to a file or device was opened.
    IrpCreate,
    /// A file handle was closed.
    IrpCleanUp,
}

impl IrpMajorOp {
    /// The request that the wire byte `b` stands for: 1 a read, 2 a write,
    /// 3 a set-information, 4 a create, 5 a cleanup, anything else nothing.
    pub open spec fn of_byte(b: u8) -> IrpMajorOp {
        if b == 1 {
            IrpMajorOp::IrpRead
        } else if b == 2 {
            IrpMajorOp::IrpWrite
        } else if b == 3 {
            IrpMajorOp::IrpSetInfo
        } else if b == 4 {
            IrpMajorOp::IrpCreate
        } else if b == 5 {
            IrpMajorOp::IrpCleanUp
        } else {
            IrpMajorOp::IrpNone
        }
    }

    /// Decodes the wire byte of a request's kind.
    pub fn from_byte(b: u8) -> (op: IrpMajorOp)
        ensures
            op == Self::of_byte(b),
    {
        match b {
            0 => IrpMajorOp::IrpNone,
            1 => IrpMajorOp::IrpRead,
            2 => IrpMajorOp::IrpWrite,
            3 => IrpMajorOp::IrpSetInfo,
            4 => IrpMajorOp::IrpCreate,
            5 => IrpMajorOp::IrpCleanUp,
            _ => IrpMajorOp::IrpNone,
        }
    }
}

/// The kind of drive that a path lies on.
#[derive(Clone, Copy, Debug, PartialEq, Eq, Structural)]
pub enum DriveType {
    /// The kind cannot be determined.
    DriveUnknown,
    /// The root path is invalid: no volume is mounted there.
    DriveNoRootDir,
    /// Removable media: a thumb drive, a card reader.
    DriveRemovable,
    /// Fixed media: a hard disk, a flash drive.
    DriveFixed,
    /// A network drive.
    DriveRemote,
    /// A CD-ROM drive.
    DriveCDRom,
    /// A RAM disk.
    DriveRamDisk,
}

impl DriveType {
    /// The kind of drive that the operating system's code `code` stands for;
    /// a code that it does not know is taken for an invalid root.
    pub open spec fn of_code(code: u32) -> DriveType {
        if code == 0 {
            DriveType::DriveUnknown
        } else if code == 2 {
            DriveType::DriveRemovable
        } else if code == 3 {
            DriveType::DriveFixed
        } else if code == 4 {
            DriveType::DriveRemote
        } else if code == 5 {
            DriveType::DriveCDRom
        } else if code == 6 {
            DriveType::DriveRamDisk
        } else {
            DriveType::DriveNoRootDir
        }
    }

    /// Decodes the code that the operating system gives for a drive.
    pub fn from_code(code: u32) -> (kind: DriveType)
        ensures
            kind == Self::of_code(code),
    {
        match code {
            0 => DriveType::DriveUnknown,
            1 => DriveType::DriveNoRootDir,
            2 => DriveType::DriveRemovable,
            3 => DriveType::DriveFixed,
            4 => DriveType::DriveRemote,
            5 => DriveType::DriveCDRom,
            6 => DriveType::DriveRamDisk,
            _ => DriveType::DriveNoRootDir,
        }
    }
}

} // verus!
