//! Finding the executable of a process, and suspending a family.

use crate::process::{ProcessRecord, ProcessState};
use crate::shared_def::IOMessage;
use vstd::prelude::*;
use vstd::slice::slice_subrange;
use vstd::utf8::{decode_utf8, valid_utf8};

verus! {

/// Finds the executable that a process runs, and tells whether an executable
/// is still there. Nothing is asked of an answer: the process or the file may
/// be gone, and two calls may differ.
pub trait Exepath {
    /// The path of the executable of the process that `iomsg` comes from, or
    /// `None` where it cannot be found.
    fn exepath(&self, iomsg: &IOMessage) -> Option<String>;

    /// Whether the executable at `exepath` exists now.
    fn exe_still_exists(&self, exepath: &str) -> bool;
}

/// Marks the family suspended and returns the processes to stop, which are
/// those seen under it.
pub fn try_suspend(proc: &mut ProcessRecord) -> (pids: Vec<u32>)
    ensures
        final(proc)@ == old(proc)@.suspended(),
        pids@ == old(proc)@.pids,
{
    proc.process_state = ProcessState::Suspended;
    let mut pids: Vec<u32> = Vec::new();
    let mut i: usize = 0;
    while i < proc.pids.len()
        invariant
            i <= proc.pids@.len(),
            proc@ == old(proc)@.suspended(),
            pids@ == proc.pids@.take(i as int),
        decreases proc.pids@.len() - i,
    {
        pids.push(proc.pids[i]);
        assert(proc.pids@.take(i + 1) =~= proc.pids@.take(i as int).push(proc.pids@[i as int]));
        i = i + 1;
    }
    assert(proc.pids@.take(i as int) =~= proc.pids@);
    pids
}

/// The number of bytes of value 0 that `b` begins with.
pub open spec fn leading_nuls(b: Seq<u8>) -> int
    decreases b.len(),
{
    if b.len() == 0 || b[0] != 0 {
        0
    } else {
        1 + leading_nuls(b.drop_first())
    }
}

/// The number of bytes of value 0 that `b` ends with.
pub open spec fn trailing_nuls(b: Seq<u8>) -> int
    decreases b.len(),
{
    if b.len() == 0 || b.last() != 0 {
        0
    } else {
        1 + trailing_nuls(b.drop_last())
    }
}

/// `b` without the bytes of value 0 at its start and at its end.
pub open spec fn without_nuls(b: Seq<u8>) -> Seq<u8> {
    if leading_nuls(b) == b.len() {
        Seq::empty()
    } else {
        b.subrange(leading_nuls(b), b.len() - trailing_nuls(b))
    }
}

/// The count of leading zero bytes is the first index that holds another byte.
pub proof fn lemma_leading_nuls_is(b: Seq<u8>, n: int)
    requires
        0 <= n <= b.len(),
        forall|i: int| 0 <= i < n ==> b[i] == 0,
        n < b.len() ==> b[n] != 0,
    ensures
        leading_nuls(b) == n,
    decreases b.len(),
{
    if n > 0 {
        let t = b.drop_first();
        assert(b[0] == 0);
        assert forall|i: int| 0 <= i < n - 1 implies t[i] == 0 by {
            assert(t[i] == b[i + 1]);
        }
        lemma_leading_nuls_is(t, n - 1);
    }
}

/// The count of trailing zero bytes is what lies behind the last other byte.
pub proof fn lemma_trailing_nuls_is(b: Seq<u8>, n: int)
    requires
        0 <= n <= b.len(),
        forall|i: int| b.len() - n <= i < b.len() ==> b[i] == 0,
        n < b.len() ==> b[b.len() - n - 1] != 0,
    ensures
        trailing_nuls(b) == n,
    decreases b.len(),
{
    if n > 0 {
        let t = b.drop_last();
        assert(b.last() == 0);
        assert forall|i: int| t.len() - (n - 1) <= i < t.len() implies t[i] == 0 by {
            assert(t[i] == b[i]);
        }
        if n - 1 < t.len() {
            assert(t[t.len() - (n - 1) - 1] == b[b.len() - n - 1]);
        }
        lemma_trailing_nuls_is(t, n - 1);
    }
}

/// `core::str::from_utf8`: the text that the bytes encode, where they are
/// well-formed UTF-8, and `None` where they are not.
#[verifier::external_body]
fn utf8_text(bytes: &[u8]) -> (r: Option<&str>)
    ensures
        r is Some <==> valid_utf8(bytes@),
        r matches Some(text) ==> text@ == decode_utf8(bytes@),
{
    core::str::from_utf8(bytes).ok()
}

/// The path that an image-name query left in `buffer`. `copied` is the number
/// of bytes that the query reports, 0 where it failed. The path is the text of
/// the buffer without the zero bytes around it.
pub open spec fn image_path(copied: u32, buffer: Seq<u8>) -> Option<Seq<char>> {
    if copied != 0 && valid_utf8(without_nuls(buffer)) {
        Some(decode_utf8(without_nuls(buffer)))
    } else {
        None
    }
}

/// Reads the path that an image-name query left in `buffer`; `None` where the
/// query failed or left no text.
pub fn exepath_from_image_name(copied: u32, buffer: &[u8]) -> (r: Option<String>)
    ensures
        r is Some <==> image_path(copied, buffer@) is Some,
        r matches Some(path) ==> Some(path@) == image_path(copied, buffer@),
{
    if copied == 0 {
        return None;
    }
    let len: usize = buffer.len();
    let mut from: usize = 0;
    while from < len && buffer[from] == 0
        invariant
            from <= len == buffer@.len(),
            forall|i: int| 0 <= i < from ==> buffer@[i] == 0,
        decreases len - from,
    {
        from = from + 1;
    }
    proof {
        lemma_leading_nuls_is(buffer@, from as int);
    }
    let mut to: usize = len;
    while to > from && buffer[to - 1] == 0
        invariant
            from <= to <= len == buffer@.len(),
            forall|i: int| to <= i < len ==> buffer@[i] == 0,
        decreases to,
    {
        to = to - 1;
    }
    proof {
        if from < len {
            lemma_trailing_nuls_is(buffer@, len - to);
        }
    }
    let trimmed: &[u8] = slice_subrange(buffer, from, to);
    assert(trimmed@ =~= without_nuls(buffer@));
    match utf8_text(trimmed) {
        Some(text) => Some(text.to_owned()),
        None => None,
    }
}

} // verus!
