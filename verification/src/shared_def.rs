//! The structures that the minifilter and this side exchange, and their
//! decoding from the receive buffer into owned values.
//!
//! A retrieval leaves in the receive buffer a header, then records chained by
//! the addresses that the minifilter saw them at. Every address is turned into
//! an offset from the buffer's own address and checked against the buffer's
//! length before anything is read, so a damaged batch ends the walk and reads
//! nothing outside the buffer.

use crate::layout::{le_u16, le_u32, le_u64, read_u16, read_u32, read_u64};
use crate::wide::{
    lemma_reassembled_is_plain_path, plain_path, plain_units, reassembled, reassembled_units,
    string_from_utf16_lossy, utf16_lossy,
};
use vstd::prelude::*;
use vstd::slice::slice_subrange;

verus! {

/// What became of a file, reported with a set-information request.
#[derive(Clone, Copy, Debug, PartialEq, Eq, Structural)]
pub enum FileChangeInfo {
    FileChangeNotSet,
    FileOpenDirectory,
    FileChangeWrite,
    FileChangeNewFile,
    FileChangeRenameFile,
    FileChangeExtensionChanged,
    FileChangeDeleteFile,
    /// A temporary file: created, and deleted on close.
    FileChangeDeleteNewFile,
    FileChangeOverwriteFile,
}

impl FileChangeInfo {
    /// The change that the wire code `n` stands for, if any.
    pub open spec fn of_code(n: u8) -> Option<FileChangeInfo> {
        if n == 0 {
            Some(FileChangeInfo::FileChangeNotSet)
        } else if n == 1 {
            Some(FileChangeInfo::FileOpenDirectory)
        } else if n == 2 {
            Some(FileChangeInfo::FileChangeWrite)
        } else if n == 3 {
            Some(FileChangeInfo::FileChangeNewFile)
        } else if n == 4 {
            Some(FileChangeInfo::FileChangeRenameFile)
        } else if n == 5 {
            Some(FileChangeInfo::FileChangeExtensionChanged)
        } else if n == 6 {
            Some(FileChangeInfo::FileChangeDeleteFile)
        } else if n == 7 {
            Some(FileChangeInfo::FileChangeDeleteNewFile)
        } else if n == 8 {
            Some(FileChangeInfo::FileChangeOverwriteFile)
        } else {
            None
        }
    }

    /// Decodes a wire code; `None` for a code that names no change.
    pub fn from_u8(n: u8) -> (r: Option<FileChangeInfo>)
        ensures
            r == Self::of_code(n),
    {
        match n {
            0 => Some(FileChangeInfo::FileChangeNotSet),
            1 => Some(FileChangeInfo::FileOpenDirectory),
            2 => Some(FileChangeInfo::FileChangeWrite),
            3 => Some(FileChangeInfo::FileChangeNewFile),
            4 => Some(FileChangeInfo::FileChangeRenameFile),
            5 => Some(FileChangeInfo::FileChangeExtensionChanged),
            6 => Some(FileChangeInfo::FileChangeDeleteFile),
            7 => Some(FileChangeInfo::FileChangeDeleteNewFile),
            8 => Some(FileChangeInfo::FileChangeOverwriteFile),
            _ => None,
        }
    }
}

/// Where a file lies with regard to the protected directories.
#[derive(Clone, Copy, Debug, PartialEq, Eq, Structural)]
pub enum FileLocationInfo {
    FileNotProtected,
    FileProtected,
    FileMovedIn,
    FileMovedOut,
}

impl FileLocationInfo {
    /// The location that the wire code `n` stands for, if any.
    pub open spec fn of_code(n: u8) -> Option<FileLocationInfo> {
        if n == 0 {
            Some(FileLocationInfo::FileNotProtected)
        } else if n == 1 {
            Some(FileLocationInfo::FileProtected)
        } else if n == 2 {
            Some(FileLocationInfo::FileMovedIn)
        } else if n == 3 {
            Some(FileLocationInfo::FileMovedOut)
        } else {
            None
        }
    }

    /// Decodes a wire code; `None` for a code that names no location.
    pub fn from_u8(n: u8) -> (r: Option<FileLocationInfo>)
        ensures
            r == Self::of_code(n),
    {
        match n {
            0 => Some(FileLocationInfo::FileNotProtected),
            1 => Some(FileLocationInfo::FileProtected),
            2 => Some(FileLocationInfo::FileMovedIn),
            3 => Some(FileLocationInfo::FileMovedOut),
            _ => None,
        }
    }
}

/// Bytes of the batch header.
pub const REPLY_IRP_SIZE: usize = 24;

/// Bytes of one record.
pub const DRIVER_MSG_SIZE: usize = 104;

/// Code units of a record's extension buffer.
pub const EXTENSION_UNITS: usize = 12;

/// `size` bytes at address `addr` lie inside a buffer of `len` bytes that
/// starts at address `base`. The null address lies nowhere.
pub open spec fn in_window(len: int, base: int, addr: int, size: int) -> bool {
    addr != 0 && base <= addr && addr - base + size <= len
}

/// The offset of address `addr` in a buffer of `len` bytes at `base`, where
/// `size` bytes from it on lie inside the buffer.
pub fn offset_in(len: usize, base: u64, addr: u64, size: usize) -> (r: Option<usize>)
    ensures
        r is Some <==> in_window(len as int, base as int, addr as int, size as int),
        r matches Some(at) ==> at == addr - base,
{
    if addr == 0 || addr < base {
        return None;
    }
    let off: u64 = addr - base;
    if off > len as u64 {
        return None;
    }
    let at: usize = off as usize;
    if size > len - at {
        return None;
    }
    Some(at)
}

/// The header of a batch: how many records it announces and where the first
/// one lies.
#[derive(Clone, Copy, Debug)]
pub struct ReplyIrp {
    /// Bytes that the batch takes.
    pub data_size: u64,
    /// Address of the first record; 0 where there is none.
    pub data: u64,
    /// Number of records announced.
    pub num_ops: u64,
}

/// A path as the minifilter hands it over: a count of code units and the units
/// themselves, which hold a terminator where the path ends.
#[derive(Clone, Debug)]
pub struct UnicodeString {
    /// Code units that the descriptor announces.
    pub length: u16,
    /// Code units that the descriptor has room for.
    pub maximum_length: u16,
    /// The units copied out of the receive buffer.
    pub buffer: Vec<u16>,
}

/// What a `UnicodeString` holds.
pub struct UnicodeStringView {
    pub length: u16,
    pub maximum_length: u16,
    pub buffer: Seq<u16>,
}

impl View for UnicodeString {
    type V = UnicodeStringView;

    open spec fn view(&self) -> UnicodeStringView {
        UnicodeStringView {
            length: self.length,
            maximum_length: self.maximum_length,
            buffer: self.buffer@,
        }
    }
}

impl UnicodeStringView {
    /// The units that count: as many of the buffer's as `length` announces.
    pub open spec fn units(self) -> Seq<u16> {
        if self.length as int <= self.buffer.len() {
            self.buffer.take(self.length as int)
        } else {
            self.buffer
        }
    }
}

impl UnicodeString {
    /// The units that count, borrowed.
    fn units(&self) -> (s: &[u16])
        ensures
            s@ == self@.units(),
    {
        let n: usize = self.length as usize;
        if n <= self.buffer.len() {
            let s = slice_subrange(self.buffer.as_slice(), 0, n);
            assert(s@ =~= self@.units());
            s
        } else {
            self.buffer.as_slice()
        }
    }

    /// The code units of the path, up to its terminator.
    pub fn path_units(&self) -> (out: Vec<u16>)
        ensures
            out@ == plain_path(self@.units()),
    {
        plain_units(self.units())
    }

    /// The code units of the file name that the path and `extension` give
    /// together.
    pub fn path_units_ext(&self, extension: &[u16; 12]) -> (out: Vec<u16>)
        ensures
            out@ == reassembled(self@.units(), extension@),
            out@ == plain_path(self@.units()),
    {
        proof {
            lemma_reassembled_is_plain_path(self@.units(), extension@);
        }
        reassembled_units(self.units(), extension.as_slice())
    }

    /// The path, up to its terminator.
    pub fn to_string(&self) -> (s: String)
        ensures
            s@ == utf16_lossy(plain_path(self@.units())),
    {
        let units = self.path_units();
        string_from_utf16_lossy(units.as_slice())
    }

    /// The file name that the path and the extension reported beside it give
    /// together.
    pub fn to_string_ext(&self, extension: [u16; 12]) -> (s: String)
        ensures
            s@ == utf16_lossy(reassembled(self@.units(), extension@)),
            s@ == utf16_lossy(plain_path(self@.units())),
    {
        let units = self.path_units_ext(&extension);
        string_from_utf16_lossy(units.as_slice())
    }
}

/// How many of the `count` code units announced at address `addr` lie inside a
/// buffer of `len` bytes at `base`: all of them, or as many whole units as the
/// buffer has left from there; none where the address lies outside.
pub open spec fn units_inside(len: int, base: int, addr: int, count: int) -> int {
    if addr == 0 || addr < base || addr - base > len {
        0
    } else {
        let room = (len - (addr - base)) / 2;
        if count <= room {
            count
        } else {
            room
        }
    }
}

/// The code units announced at address `addr`, as far as they lie inside the
/// buffer.
pub open spec fn units_at(bytes: Seq<u8>, base: int, addr: int, count: int) -> Seq<u16> {
    Seq::new(
        units_inside(bytes.len() as int, base, addr, count) as nat,
        |i: int| le_u16(bytes, addr - base + 2 * i) as u16,
    )
}

/// Copies the code units announced at address `addr` out of the buffer.
pub fn read_units(bytes: &[u8], base: u64, addr: u64, count: u16) -> (out: Vec<u16>)
    ensures
        out@ == units_at(bytes@, base as int, addr as int, count as int),
{
    let mut out: Vec<u16> = Vec::new();
    let len: usize = bytes.len();
    if addr == 0 || addr < base || addr - base > len as u64 {
        assert(out@ =~= units_at(bytes@, base as int, addr as int, count as int));
        return out;
    }
    let at: usize = (addr - base) as usize;
    let room: usize = (len - at) / 2;
    let n: usize = if count as usize <= room {
        count as usize
    } else {
        room
    };
    let mut i: usize = 0;
    while i < n
        invariant
            i <= n,
            at + 2 * n <= len,
            len == bytes@.len(),
            at == addr - base,
            out@.len() == i,
            forall|j: int| 0 <= j < i ==> out@[j] == le_u16(bytes@, at + 2 * j) as u16,
        decreases n - i,
    {
        let u: u16 = read_u16(bytes, at + 2 * i);
        out.push(u);
        i = i + 1;
    }
    assert(out@ =~= units_at(bytes@, base as int, addr as int, count as int));
    out
}

/// One record of a batch, copied out of the receive buffer.
#[derive(Clone, Debug)]
pub struct CDriverMsg {
    /// The file's extension, terminated unless it fills the buffer.
    pub extension: [u16; 12],
    /// Serial number of the volume that holds the file.
    pub file_id_vsn: u64,
    /// The file's identifier on that volume.
    pub file_id_id: [u8; 16],
    /// Bytes transferred by the request.
    pub mem_sized_used: u64,
    /// The entropy that the minifilter computed, as the bits of a 64-bit float.
    pub entropy: u64,
    /// The process that made the request.
    pub pid: u32,
    /// The request's kind, as `IrpMajorOp` decodes it.
    pub irp_op: u8,
    /// Not 0 where `entropy` was computed.
    pub is_entropy_calc: u8,
    /// The change, as `FileChangeInfo` decodes it.
    pub file_change: u8,
    /// The location, as `FileLocationInfo` decodes it.
    pub file_location_info: u8,
    /// The file's path.
    pub filepath: UnicodeString,
    /// The family of the process, kept by the minifilter.
    pub gid: u64,
    /// Address of the record that follows; 0 where none does.
    pub next: u64,
}

/// What a `CDriverMsg` holds.
pub struct CDriverMsgView {
    pub extension: Seq<u16>,
    pub file_id_vsn: u64,
    pub file_id_id: Seq<u8>,
    pub mem_sized_used: u64,
    pub entropy: u64,
    pub pid: u32,
    pub irp_op: u8,
    pub is_entropy_calc: u8,
    pub file_change: u8,
    pub file_location_info: u8,
    pub filepath: UnicodeStringView,
    pub gid: u64,
    pub next: u64,
}

impl View for CDriverMsg {
    type V = CDriverMsgView;

    open spec fn view(&self) -> CDriverMsgView {
        CDriverMsgView {
            extension: self.extension@,
            file_id_vsn: self.file_id_vsn,
            file_id_id: self.file_id_id@,
            mem_sized_used: self.mem_sized_used,
            entropy: self.entropy,
            pid: self.pid,
            irp_op: self.irp_op,
            is_entropy_calc: self.is_entropy_calc,
            file_change: self.file_change,
            file_location_info: self.file_location_info,
            filepath: self.filepath@,
            gid: self.gid,
            next: self.next,
        }
    }
}

/// The record that lies at offset `at` of the buffer.
pub open spec fn record_fields(bytes: Seq<u8>, base: int, at: int) -> CDriverMsgView {
    CDriverMsgView {
        extension: Seq::new(12, |i: int| le_u16(bytes, at + 2 * i) as u16),
        file_id_vsn: le_u64(bytes, at + 24) as u64,
        file_id_id: bytes.subrange(at + 32, at + 48),
        mem_sized_used: le_u64(bytes, at + 48) as u64,
        entropy: le_u64(bytes, at + 56) as u64,
        pid: le_u32(bytes, at + 64) as u32,
        irp_op: bytes[at + 68],
        is_entropy_calc: bytes[at + 69],
        file_change: bytes[at + 70],
        file_location_info: bytes[at + 71],
        filepath: UnicodeStringView {
            length: le_u16(bytes, at + 72) as u16,
            maximum_length: le_u16(bytes, at + 74) as u16,
            buffer: units_at(
                bytes,
                base,
                le_u64(bytes, at + 80),
                le_u16(bytes, at + 72),
            ),
        },
        gid: le_u64(bytes, at + 88) as u64,
        next: le_u64(bytes, at + 96) as u64,
    }
}

/// The record at address `addr`, where a whole record lies there inside the
/// buffer.
pub open spec fn record_at(bytes: Seq<u8>, base: int, addr: int) -> Option<CDriverMsgView> {
    if in_window(bytes.len() as int, base, addr, DRIVER_MSG_SIZE as int) {
        Some(record_fields(bytes, base, addr - base))
    } else {
        None
    }
}

/// The records reached from address `addr` by following `next`, in the order
/// met, up to `limit` of them; the walk ends before an address at which no
/// whole record lies inside the buffer.
pub open spec fn chain(bytes: Seq<u8>, base: int, addr: int, limit: nat) -> Seq<CDriverMsgView>
    decreases limit,
{
    if limit == 0 {
        Seq::empty()
    } else {
        match record_at(bytes, base, addr) {
            None => Seq::empty(),
            Some(m) => seq![m] + chain(bytes, base, m.next as int, (limit - 1) as nat),
        }
    }
}

/// What each of the records holds, in order.
pub open spec fn views(msgs: Seq<CDriverMsg>) -> Seq<CDriverMsgView> {
    Seq::new(msgs.len(), |i: int| msgs[i]@)
}

impl CDriverMsg {
    /// Copies the record at address `addr` out of the buffer; `None` where no
    /// whole record lies there.
    pub fn read_at(bytes: &[u8], base: u64, addr: u64) -> (r: Option<CDriverMsg>)
        ensures
            r is Some <==> record_at(bytes@, base as int, addr as int) is Some,
            r matches Some(m) ==> Some(m@) == record_at(bytes@, base as int, addr as int),
    {
        let at: usize = match offset_in(bytes.len(), base, addr, DRIVER_MSG_SIZE) {
            Some(at) => at,
            None => {
                return None;
            },
        };
        let mut extension: [u16; 12] = [0u16; 12];
        let mut i: usize = 0;
        while i < 12
            invariant
                i <= 12,
                at + 104 <= bytes@.len() <= usize::MAX,
                forall|j: int| 0 <= j < i ==> extension@[j] == le_u16(bytes@, at + 2 * j) as u16,
            decreases 12 - i,
        {
            let u: u16 = read_u16(bytes, at + 2 * i);
            extension[i] = u;
            i = i + 1;
        }
        let mut file_id_id: [u8; 16] = [0u8; 16];
        let mut k: usize = 0;
        while k < 16
            invariant
                k <= 16,
                at + 104 <= bytes@.len() <= usize::MAX,
                forall|j: int| 0 <= j < k ==> file_id_id@[j] == bytes@[at + 32 + j],
            decreases 16 - k,
        {
            file_id_id[k] = bytes[at + 32 + k];
            k = k + 1;
        }
        let length: u16 = read_u16(bytes, at + 72);
        let path_addr: u64 = read_u64(bytes, at + 80);
        let m = CDriverMsg {
            extension,
            file_id_vsn: read_u64(bytes, at + 24),
            file_id_id,
            mem_sized_used: read_u64(bytes, at + 48),
            entropy: read_u64(bytes, at + 56),
            pid: read_u32(bytes, at + 64),
            irp_op: bytes[at + 68],
            is_entropy_calc: bytes[at + 69],
            file_change: bytes[at + 70],
            file_location_info: bytes[at + 71],
            filepath: UnicodeString {
                length,
                maximum_length: read_u16(bytes, at + 74),
                buffer: read_units(bytes, base, path_addr, length),
            },
            gid: read_u64(bytes, at + 88),
            next: read_u64(bytes, at + 96),
        };
        proof {
            let f = record_fields(bytes@, base as int, at as int);
            assert(m@.extension =~= f.extension);
            assert(m@.file_id_id =~= f.file_id_id);
        }
        Some(m)
    }
}

impl ReplyIrp {
    /// The header at the start of the buffer, where the buffer is long enough
    /// to hold one.
    pub open spec fn header_of(bytes: Seq<u8>) -> Option<ReplyIrp> {
        if bytes.len() >= REPLY_IRP_SIZE {
            Some(
                ReplyIrp {
                    data_size: le_u64(bytes, 0) as u64,
                    data: le_u64(bytes, 8) as u64,
                    num_ops: le_u64(bytes, 16) as u64,
                },
            )
        } else {
            None
        }
    }

    /// Reads the header at the start of the buffer.
    pub fn from_bytes(bytes: &[u8]) -> (r: Option<ReplyIrp>)
        ensures
            r == Self::header_of(bytes@),
    {
        if bytes.len() < REPLY_IRP_SIZE {
            return None;
        }
        Some(
            ReplyIrp {
                data_size: read_u64(bytes, 0),
                data: read_u64(bytes, 8),
                num_ops: read_u64(bytes, 16),
            },
        )
    }

    /// The header of the batch that a retrieval left, where it left one: the
    /// minifilter reports 0 bytes returned when it has nothing pending.
    pub fn from_reply(bytes: &[u8], returned: u32) -> (r: Option<ReplyIrp>)
        ensures
            r == if returned == 0 {
                None
            } else {
                Self::header_of(bytes@)
            },
    {
        if returned == 0 {
            None
        } else {
            Self::from_bytes(bytes)
        }
    }

    /// The records of the batch, in list order: those reached from the first
    /// one, up to the number announced.
    pub open spec fn records(&self, bytes: Seq<u8>, base: int) -> Seq<CDriverMsgView> {
        chain(bytes, base, self.data as int, self.num_ops as nat)
    }

    /// Walks the batch and copies each record out of the buffer.
    pub fn unpack_drivermsg(&self, bytes: &[u8], base: u64) -> (res: Vec<CDriverMsg>)
        ensures
            views(res@) == self.records(bytes@, base as int),
    {
        let mut res: Vec<CDriverMsg> = Vec::new();
        let mut cursor: u64 = self.data;
        let mut left: u64 = self.num_ops;
        while left > 0
            invariant
                views(res@) + chain(bytes@, base as int, cursor as int, left as nat)
                    == self.records(bytes@, base as int),
            decreases left,
        {
            match CDriverMsg::read_at(bytes, base, cursor) {
                None => {
                    assert(views(res@) + Seq::<CDriverMsgView>::empty() =~= views(res@));
                    return res;
                },
                Some(m) => {
                    let ghost before = res@;
                    let ghost rest = chain(bytes@, base as int, m.next as int, (left - 1) as nat);
                    cursor = m.next;
                    left = left - 1;
                    res.push(m);
                    assert(views(res@) =~= views(before).push(m@));
                    assert(views(res@) + rest =~= views(before) + (seq![m@] + rest));
                },
            }
        }
        assert(views(res@) + Seq::<CDriverMsgView>::empty() =~= views(res@));
        res
    }
}

/// The records at the addresses `addrs` link one to the next, and the last to
/// the address `end`, at which no record lies; the walk starts at `head`, the
/// first of them, or at `end` where there are none.
pub open spec fn linked_list(bytes: Seq<u8>, base: int, head: int, addrs: Seq<int>, end: int) -> bool {
    &&& head == if addrs.len() > 0 {
        addrs[0]
    } else {
        end
    }
    &&& forall|i: int| 0 <= i < addrs.len() ==> record_at(bytes, base, #[trigger] addrs[i]) is Some
    &&& forall|i: int|
        0 <= i < addrs.len() - 1 ==> record_at(bytes, base, #[trigger] addrs[i])->0.next
            == addrs[i + 1]
    &&& addrs.len() > 0 ==> record_at(bytes, base, addrs.last())->0.next == end
    &&& record_at(bytes, base, end) is None
}

/// A list without its first record is a list from the second record on.
proof fn lemma_linked_list_rest(bytes: Seq<u8>, base: int, head: int, addrs: Seq<int>, end: int)
    requires
        linked_list(bytes, base, head, addrs, end),
        addrs.len() > 0,
    ensures
        linked_list(
            bytes,
            base,
            record_at(bytes, base, head)->0.next as int,
            addrs.drop_first(),
            end,
        ),
{
    let rest = addrs.drop_first();
    assert forall|i: int| 0 <= i < rest.len() implies record_at(bytes, base, #[trigger] rest[i])
        is Some by {
        assert(rest[i] == addrs[i + 1]);
    }
    assert forall|i: int| 0 <= i < rest.len() - 1 implies record_at(
        bytes,
        base,
        #[trigger] rest[i],
    )->0.next == rest[i + 1] by {
        assert(rest[i] == addrs[i + 1]);
        assert(rest[i + 1] == addrs[i + 2]);
    }
    if rest.len() > 0 {
        assert(rest.last() == addrs.last());
        assert(rest[0] == addrs[1]);
    } else {
        assert(addrs.last() == addrs[0]);
    }
}

/// A list of records is decoded one for one, as far as the limit allows: a
/// list that ends early gives as many records as it has, a list longer than
/// the limit gives `limit` of them.
pub proof fn lemma_chain_length(
    bytes: Seq<u8>,
    base: int,
    head: int,
    addrs: Seq<int>,
    end: int,
    limit: nat,
)
    requires
        linked_list(bytes, base, head, addrs, end),
    ensures
        chain(bytes, base, head, limit).len() == if addrs.len() <= limit {
            addrs.len()
        } else {
            limit
        },
    decreases addrs.len(),
{
    if addrs.len() > 0 && limit > 0 {
        let next = record_at(bytes, base, head)->0.next as int;
        lemma_linked_list_rest(bytes, base, head, addrs, end);
        lemma_chain_length(bytes, base, next, addrs.drop_first(), end, (limit - 1) as nat);
    }
}

/// A list of records is decoded in list order: the record decoded at place `i`
/// is the one at the address `addrs[i]`.
pub proof fn lemma_chain_follows_list(
    bytes: Seq<u8>,
    base: int,
    head: int,
    addrs: Seq<int>,
    end: int,
    limit: nat,
    i: int,
)
    requires
        linked_list(bytes, base, head, addrs, end),
        0 <= i < addrs.len(),
        i < limit,
    ensures
        i < chain(bytes, base, head, limit).len(),
        Some(chain(bytes, base, head, limit)[i]) == record_at(bytes, base, addrs[i]),
    decreases addrs.len(),
{
    let m = record_at(bytes, base, head)->0;
    let next = m.next as int;
    let tail = chain(bytes, base, next, (limit - 1) as nat);
    assert(chain(bytes, base, head, limit) == seq![m] + tail);
    if i > 0 {
        let rest = addrs.drop_first();
        lemma_linked_list_rest(bytes, base, head, addrs, end);
        lemma_chain_follows_list(bytes, base, next, rest, end, (limit - 1) as nat, i - 1);
        assert(rest[i - 1] == addrs[i]);
    }
}

/// The records of one batch, handed out one at a time. Each is copied out of
/// the receive buffer when it is asked for; nothing of the buffer is kept
/// beyond the borrow.
pub struct CDriverMsgs<'a> {
    bytes: &'a [u8],
    base: u64,
    cursor: u64,
    left: u64,
}

impl<'a> CDriverMsgs<'a> {
    /// The records still to come, in order.
    pub closed spec fn remaining(&self) -> Seq<CDriverMsgView> {
        chain(self.bytes@, self.base as int, self.cursor as int, self.left as nat)
    }

    /// Starts at the first record of the batch that `irp` heads. `bytes` is the
    /// receive buffer and `base` the address of its first byte.
    pub fn new(irp: &ReplyIrp, bytes: &'a [u8], base: u64) -> (msgs: CDriverMsgs<'a>)
        ensures
            msgs.remaining() == irp.records(bytes@, base as int),
    {
        CDriverMsgs { bytes, base, cursor: irp.data, left: irp.num_ops }
    }

    /// The next record, or `None` once the list or the number announced is
    /// used up.
    pub fn next(&mut self) -> (r: Option<CDriverMsg>)
        ensures
            r is Some <==> old(self).remaining().len() > 0,
            r matches Some(m) ==> m@ == old(self).remaining()[0] && final(self).remaining() == old(
                self,
            ).remaining().drop_first(),
            r is None ==> final(self).remaining() == old(self).remaining(),
    {
        if self.left == 0 {
            return None;
        }
        match CDriverMsg::read_at(self.bytes, self.base, self.cursor) {
            None => None,
            Some(m) => {
                let ghost rest = chain(
                    self.bytes@,
                    self.base as int,
                    m.next as int,
                    (self.left - 1) as nat,
                );
                assert(old(self).remaining() == seq![m@] + rest);
                assert((seq![m@] + rest).drop_first() =~= rest);
                self.cursor = m.next;
                self.left = self.left - 1;
                Some(m)
            },
        }
    }
}

/// What is known of an event beyond what the minifilter reports.
#[derive(Clone, Debug)]
pub struct RuntimeFeatures {
    /// Path of the executable at the root of the event's family.
    pub exepath: String,
    /// Whether that executable was still there when the event was handled.
    pub exe_still_exists: bool,
}

/// What a `RuntimeFeatures` holds.
pub struct RuntimeFeaturesView {
    pub exepath: Seq<char>,
    pub exe_still_exists: bool,
}

impl View for RuntimeFeatures {
    type V = RuntimeFeaturesView;

    open spec fn view(&self) -> RuntimeFeaturesView {
        RuntimeFeaturesView { exepath: self.exepath@, exe_still_exists: self.exe_still_exists }
    }
}

impl RuntimeFeaturesView {
    /// The features of an event that no process record has been matched with.
    pub open spec fn unresolved() -> RuntimeFeaturesView {
        RuntimeFeaturesView { exepath: Seq::empty(), exe_still_exists: true }
    }
}

impl RuntimeFeatures {
    /// No executable known yet.
    pub fn new() -> (r: RuntimeFeatures)
        ensures
            r@ == RuntimeFeaturesView::unresolved(),
    {
        RuntimeFeatures { exepath: String::new(), exe_still_exists: true }
    }
}

impl Default for RuntimeFeatures {
    fn default() -> (r: RuntimeFeatures)
        ensures
            r@ == RuntimeFeaturesView::unresolved(),
    {
        Self::new()
    }
}

/// One event, decoded: what the record held, the file name put together, the
/// file's size when the event was decoded, and the runtime features.
#[derive(Clone, Debug)]
pub struct IOMessage {
    pub extension: [u16; 12],
    pub file_id_vsn: u64,
    pub file_id_id: [u8; 16],
    pub mem_sized_used: u64,
    /// The entropy as the bits of a 64-bit float.
    pub entropy: u64,
    pub pid: u32,
    pub irp_op: u8,
    pub is_entropy_calc: u8,
    pub file_change: u8,
    pub file_location_info: u8,
    pub filepathstr: String,
    pub gid: u64,
    pub runtime_features: RuntimeFeatures,
    /// The file's size, or -1 where the file was not found.
    pub file_size: i64,
}

/// What an `IOMessage` holds.
pub struct IOMessageView {
    pub extension: Seq<u16>,
    pub file_id_vsn: u64,
    pub file_id_id: Seq<u8>,
    pub mem_sized_used: u64,
    pub entropy: u64,
    pub pid: u32,
    pub irp_op: u8,
    pub is_entropy_calc: u8,
    pub file_change: u8,
    pub file_location_info: u8,
    pub filepathstr: Seq<char>,
    pub gid: u64,
    pub runtime_features: RuntimeFeaturesView,
    pub file_size: i64,
}

impl View for IOMessage {
    type V = IOMessageView;

    open spec fn view(&self) -> IOMessageView {
        IOMessageView {
            extension: self.extension@,
            file_id_vsn: self.file_id_vsn,
            file_id_id: self.file_id_id@,
            mem_sized_used: self.mem_sized_used,
            entropy: self.entropy,
            pid: self.pid,
            irp_op: self.irp_op,
            is_entropy_calc: self.is_entropy_calc,
            file_change: self.file_change,
            file_location_info: self.file_location_info,
            filepathstr: self.filepathstr@,
            gid: self.gid,
            runtime_features: self.runtime_features@,
            file_size: self.file_size,
        }
    }
}

/// The size recorded for a file of `file_len` bytes: the length as a signed
/// 64-bit number (in two's complement, should it ever reach 2^63), and -1 for a
/// file that was not found.
pub open spec fn file_size_of(file_len: Option<u64>) -> i64 {
    match file_len {
        None => -1i64,
        Some(n) => if n <= i64::MAX {
            n as i64
        } else {
            (n - 0x1_0000_0000_0000_0000) as i64
        },
    }
}

/// The event that a record and the length of its file give.
pub open spec fn event_of(c: CDriverMsgView, file_len: Option<u64>) -> IOMessageView {
    IOMessageView {
        extension: c.extension,
        file_id_vsn: c.file_id_vsn,
        file_id_id: c.file_id_id,
        mem_sized_used: c.mem_sized_used,
        entropy: c.entropy,
        pid: c.pid,
        irp_op: c.irp_op,
        is_entropy_calc: c.is_entropy_calc,
        file_change: c.file_change,
        file_location_info: c.file_location_info,
        filepathstr: utf16_lossy(reassembled(c.filepath.units(), c.extension)),
        gid: c.gid,
        runtime_features: RuntimeFeaturesView::unresolved(),
        file_size: file_size_of(file_len),
    }
}

impl IOMessage {
    /// Decodes a record into an event. `file_len` is the present length of the
    /// file that the record names, `None` where it cannot be found.
    pub fn from(c_drivermsg: &CDriverMsg, file_len: Option<u64>) -> (m: IOMessage)
        ensures
            m@ == event_of(c_drivermsg@, file_len),
    {
        let file_size: i64 = match file_len {
            None => -1,
            Some(n) => if n <= 0x7fff_ffff_ffff_ffff {
                n as i64
            } else {
                ((n - 0x8000_0000_0000_0000) as i64) + i64::MIN
            },
        };
        IOMessage {
            extension: c_drivermsg.extension,
            file_id_vsn: c_drivermsg.file_id_vsn,
            file_id_id: c_drivermsg.file_id_id,
            mem_sized_used: c_drivermsg.mem_sized_used,
            entropy: c_drivermsg.entropy,
            pid: c_drivermsg.pid,
            irp_op: c_drivermsg.irp_op,
            is_entropy_calc: c_drivermsg.is_entropy_calc,
            file_change: c_drivermsg.file_change,
            file_location_info: c_drivermsg.file_location_info,
            filepathstr: c_drivermsg.filepath.to_string_ext(c_drivermsg.extension),
            gid: c_drivermsg.gid,
            runtime_features: RuntimeFeatures::new(),
            file_size,
        }
    }
}

} // verus!
