//! Buffers of UTF-16 code units: where a terminated buffer ends, how a path and
//! an extension reported apart are put together, and the strings that code
//! units stand for.

use crate::scan::{
    first_index_of, last_index_of, lemma_first_index_is, lemma_first_index_of,
    lemma_last_index_is, lemma_last_index_of,
};
use vstd::prelude::*;
use widestring::U16CString;

verus! {

/// The code unit of `.`.
pub const DOT: u16 = 46;

/// The number of units before the first terminator (a unit of value 0), or the
/// whole length where the buffer holds none.
pub open spec fn span(s: Seq<u16>) -> nat {
    first_index_of(s, 0u16) as nat
}

/// The buffer holds a terminator.
pub open spec fn terminated(buf: Seq<u16>) -> bool {
    span(buf) < buf.len()
}

/// The path that a buffer holds: the units before its first terminator. A
/// buffer without a terminator holds no path, so the result is empty.
pub open spec fn plain_path(buf: Seq<u16>) -> Seq<u16> {
    if terminated(buf) {
        buf.take(span(buf) as int)
    } else {
        Seq::empty()
    }
}

/// The index of the last `.` in `p`, or -1 where it holds none.
pub open spec fn last_dot(p: Seq<u16>) -> int {
    last_index_of(p, DOT)
}

/// The extension that an extension buffer holds: its units up to the first
/// terminator, or all of them where it is full.
pub open spec fn extension_units(ext: Seq<u16>) -> Seq<u16> {
    ext.take(span(ext) as int)
}

/// The extension `e` is what stands in `p` behind the last `.`: `p` has a
/// `.`, and the units that follow the last one are `e`, no fewer and no more.
pub open spec fn extension_matches(p: Seq<u16>, e: Seq<u16>) -> bool {
    let d = last_dot(p);
    d >= 0 && p.skip(d + 1) == e
}

/// The file name that a path buffer and an extension buffer give together.
/// Where the extension is what stands behind the path's last `.`, it is the
/// path up to and including that `.`, followed by the extension; else the plain
/// path.
pub open spec fn reassembled(buf: Seq<u16>, ext: Seq<u16>) -> Seq<u16> {
    let p = plain_path(buf);
    let e = extension_units(ext);
    if extension_matches(p, e) {
        p.take(last_dot(p) + 1) + e
    } else {
        p
    }
}

/// A path whose tail behind its last `.` is the extension reported comes back
/// whole: the path cut behind that `.`, and the extension, make the path again.
pub proof fn lemma_matching_extension_restores_path(
    path: Seq<u16>,
    ext: Seq<u16>,
    buf: Seq<u16>,
    ext_buf: Seq<u16>,
)
    requires
        forall|i: int| 0 <= i < path.len() ==> path[i] != 0,
        forall|i: int| 0 <= i < ext.len() ==> ext[i] != 0,
        path.len() < buf.len(),
        buf.take(path.len() as int) == path,
        buf[path.len() as int] == 0,
        ext.len() <= ext_buf.len(),
        ext_buf.take(ext.len() as int) == ext,
        ext.len() < ext_buf.len() ==> ext_buf[ext.len() as int] == 0,
        last_dot(path) >= 0,
        path.skip(last_dot(path) + 1) == ext,
    ensures
        extension_matches(plain_path(buf), extension_units(ext_buf)),
        reassembled(buf, ext_buf) == path.take(last_dot(path) + 1) + ext,
        reassembled(buf, ext_buf) == path,
{
    assert forall|i: int| 0 <= i < path.len() implies buf[i] != 0 by {
        assert(buf[i] == buf.take(path.len() as int)[i]);
    }
    lemma_first_index_is(buf, 0u16, path.len() as int);
    assert forall|i: int| 0 <= i < ext.len() implies ext_buf[i] != 0 by {
        assert(ext_buf[i] == ext_buf.take(ext.len() as int)[i]);
    }
    lemma_first_index_is(ext_buf, 0u16, ext.len() as int);
    lemma_last_index_of(path, DOT);
    let d = last_dot(path);
    assert(path =~= path.take(d + 1) + path.skip(d + 1));
}

/// An extension that is not what stands behind the path's last `.` is ignored:
/// the result is the plain path.
pub proof fn lemma_other_extension_is_ignored(buf: Seq<u16>, ext_buf: Seq<u16>)
    requires
        !extension_matches(plain_path(buf), extension_units(ext_buf)),
    ensures
        reassembled(buf, ext_buf) == plain_path(buf),
{
}

/// Whatever the extension buffer holds, the result is the plain path: an
/// extension that matches only repeats what the path ends with.
pub proof fn lemma_reassembled_is_plain_path(buf: Seq<u16>, ext_buf: Seq<u16>)
    ensures
        reassembled(buf, ext_buf) == plain_path(buf),
{
    let p = plain_path(buf);
    let e = extension_units(ext_buf);
    if extension_matches(p, e) {
        lemma_last_index_of(p, DOT);
        let d = last_dot(p);
        assert(p =~= p.take(d + 1) + p.skip(d + 1));
    }
}

/// Counts the units before the first terminator.
pub fn span_of(s: &[u16]) -> (n: usize)
    ensures
        n == span(s@),
{
    let mut i: usize = 0;
    while i < s.len() && s[i] != 0
        invariant
            i <= s@.len(),
            forall|j: int| 0 <= j < i ==> s@[j] != 0,
        decreases s@.len() - i,
    {
        i = i + 1;
    }
    proof {
        lemma_first_index_is(s@, 0u16, i as int);
    }
    i
}

/// Appends `src[from..to]` to `out`.
pub fn push_units(out: &mut Vec<u16>, src: &[u16], from: usize, to: usize)
    requires
        from <= to <= src@.len(),
    ensures
        final(out)@ == old(out)@ + src@.subrange(from as int, to as int),
{
    let mut i: usize = from;
    while i < to
        invariant
            from <= i <= to,
            to <= src@.len(),
            out@ == old(out)@ + src@.subrange(from as int, i as int),
        decreases to - i,
    {
        out.push(src[i]);
        assert(src@.subrange(from as int, i + 1) =~= src@.subrange(from as int, i as int).push(
            src@[i as int],
        ));
        i = i + 1;
    }
}

/// The path that `buf` holds: a copy of its units before the first terminator.
pub fn plain_units(buf: &[u16]) -> (out: Vec<u16>)
    ensures
        out@ == plain_path(buf@),
{
    let n: usize = span_of(buf);
    let mut out: Vec<u16> = Vec::new();
    if n < buf.len() {
        push_units(&mut out, buf, 0, n);
        assert(out@ =~= buf@.take(n as int));
    }
    out
}

/// The index of the last `.` among the first `n` units of `buf`.
pub fn last_dot_of(buf: &[u16], n: usize) -> (d: Option<usize>)
    requires
        n <= buf@.len(),
    ensures
        match d {
            Some(i) => last_dot(buf@.take(n as int)) == i,
            None => last_dot(buf@.take(n as int)) == -1,
        },
{
    let mut i: usize = n;
    let ghost p = buf@.take(n as int);
    while i > 0
        invariant
            i <= n <= buf@.len(),
            p == buf@.take(n as int),
            forall|j: int| i <= j < n ==> p[j] != DOT,
        decreases i,
    {
        i = i - 1;
        if buf[i] == DOT {
            proof {
                lemma_last_index_is(p, DOT, i as int);
            }
            return Some(i);
        }
    }
    proof {
        lemma_last_index_is(p, DOT, -1);
    }
    None
}

/// Whether `e[..m]` stands in `buf[..n]` from index `at` on.
fn units_at(buf: &[u16], n: usize, at: usize, e: &[u16], m: usize) -> (same: bool)
    requires
        n <= buf@.len(),
        m <= e@.len(),
        at <= n,
    ensures
        same == (at + m <= n && buf@.subrange(at as int, at + m) == e@.take(m as int)),
{
    if m > n - at {
        return false;
    }
    let mut k: usize = 0;
    while k < m
        invariant
            k <= m <= e@.len(),
            at + m <= n <= buf@.len(),
            forall|j: int| 0 <= j < k ==> buf@[at + j] == e@[j],
        decreases m - k,
    {
        if buf[at + k] != e[k] {
            proof {
                let a = buf@.subrange(at as int, at + m);
                let b = e@.take(m as int);
                assert(a[k as int] != b[k as int]);
            }
            return false;
        }
        k = k + 1;
    }
    assert(buf@.subrange(at as int, at + m) =~= e@.take(m as int));
    true
}

/// The file name that a path buffer and an extension buffer give together, as
/// code units.
pub fn reassembled_units(buf: &[u16], ext: &[u16]) -> (out: Vec<u16>)
    ensures
        out@ == reassembled(buf@, ext@),
{
    let n: usize = span_of(buf);
    let mut out: Vec<u16> = Vec::new();
    if n >= buf.len() {
        return out;
    }
    let ghost p = buf@.take(n as int);
    let m: usize = span_of(ext);
    proof {
        lemma_first_index_of(ext@, 0u16);
        lemma_last_index_of(p, DOT);
    }
    let dot: Option<usize> = last_dot_of(buf, n);
    match dot {
        Some(d) => {
            assert(p.skip(d + 1) =~= buf@.subrange(d + 1, n as int));
            if n - (d + 1) == m && units_at(buf, n, d + 1, ext, m) {
                push_units(&mut out, buf, 0, d + 1);
                push_units(&mut out, ext, 0, m);
                assert(out@ =~= p.take(d + 1) + ext@.take(m as int));
                return out;
            }
        },
        None => {},
    }
    push_units(&mut out, buf, 0, n);
    assert(out@ =~= p);
    out
}

/// The UTF-16 code units of one character: itself below U+10000, else a high
/// and a low surrogate.
pub open spec fn utf16_of_char(c: char) -> Seq<u16> {
    let v = c as u32;
    if v < 0x1_0000 {
        seq![v as u16]
    } else {
        seq![
            (0xD800 + (v - 0x1_0000) / 0x400) as u16,
            (0xDC00 + (v - 0x1_0000) % 0x400) as u16,
        ]
    }
}

/// The UTF-16 encoding of a string.
pub open spec fn utf16_units(s: Seq<char>) -> Seq<u16>
    decreases s.len(),
{
    if s.len() == 0 {
        Seq::empty()
    } else {
        utf16_of_char(s[0]) + utf16_units(s.drop_first())
    }
}

/// The character has a code below U+10000, so that one unit encodes it.
pub open spec fn narrow(c: char) -> bool {
    (c as u32) < 0x1_0000
}

/// The unit is one half of a pair that encodes a character from U+10000 on.
pub open spec fn surrogate(u: u16) -> bool {
    0xD800 <= u <= 0xDFFF
}

/// The character that is put in place of a unit that cannot be decoded.
pub open spec fn replacement() -> char {
    '\u{FFFD}'
}

/// The string that a sequence of UTF-16 code units decodes to. A unit that is
/// no surrogate is the character of that code; a high surrogate followed by a
/// low one is the character that the pair encodes; any other surrogate gives
/// U+FFFD.
pub open spec fn utf16_lossy(units: Seq<u16>) -> Seq<char>
    decreases units.len(),
{
    if units.len() == 0 {
        Seq::empty()
    } else if !surrogate(units[0]) {
        seq![(units[0] as u32) as char] + utf16_lossy(units.drop_first())
    } else if units[0] < 0xDC00 && units.len() >= 2 && 0xDC00 <= units[1] <= 0xDFFF {
        seq![
            ((0x1_0000 + (units[0] - 0xD800) * 0x400 + (units[1] - 0xDC00)) as u32) as char,
        ] + utf16_lossy(units.skip(2))
    } else {
        seq![replacement()] + utf16_lossy(units.drop_first())
    }
}

/// A string of characters below U+10000 is encoded unit for character.
pub proof fn lemma_utf16_of_narrow(s: Seq<char>)
    requires
        forall|i: int| 0 <= i < s.len() ==> narrow(#[trigger] s[i]),
    ensures
        utf16_units(s).len() == s.len(),
        forall|i: int| 0 <= i < s.len() ==> #[trigger] utf16_units(s)[i] == (s[i] as u32) as u16,
    decreases s.len(),
{
    if s.len() > 0 {
        let t = s.drop_first();
        assert forall|i: int| 0 <= i < t.len() implies narrow(#[trigger] t[i]) by {
            assert(t[i] == s[i + 1]);
        }
        lemma_utf16_of_narrow(t);
        assert(narrow(s[0]));
        assert(utf16_of_char(s[0]) =~= seq![(s[0] as u32) as u16]);
        assert forall|i: int| 0 <= i < s.len() implies #[trigger] utf16_units(s)[i] == (
        s[i] as u32) as u16 by {
            if i > 0 {
                assert(t[i - 1] == s[i]);
                assert(utf16_units(s)[i] == utf16_units(t)[i - 1]);
            }
        }
    }
}

/// A string of characters below U+10000, none of them U+0000, has a wide C
/// form, which is the string unit for character.
pub proof fn lemma_c_units_of_narrow(s: Seq<char>)
    requires
        forall|i: int| 0 <= i < s.len() ==> narrow(#[trigger] s[i]) && (s[i] as u32) != 0,
    ensures
        has_c_form(s),
        c_units(s).len() == s.len(),
        forall|i: int| 0 <= i < s.len() ==> #[trigger] c_units(s)[i] == (s[i] as u32) as u16,
{
    lemma_utf16_of_narrow(s);
    let u = utf16_units(s);
    assert forall|i: int| 0 <= i < s.len() implies u[i] != 0 by {
        assert(narrow(s[i]) && (s[i] as u32) != 0);
        assert(u[i] == (s[i] as u32) as u16);
    }
    lemma_first_index_is(u, 0u16, s.len() as int);
    assert(c_units(s) =~= u);
}

/// Decoding the units of one character, with whatever follows them, gives the
/// character, and then what the rest decodes to.
pub proof fn lemma_utf16_lossy_of_char(c: char, rest: Seq<u16>)
    ensures
        utf16_lossy(utf16_of_char(c) + rest) == seq![c] + utf16_lossy(rest),
{
    broadcast use vstd::utf8::char_is_scalar;

    let v = c as u32;
    assert(vstd::utf8::is_scalar(v));
    let units = utf16_of_char(c) + rest;
    if v < 0x1_0000 {
        assert(units[0] == v as u16);
        assert(!surrogate(units[0]));
        assert(units.drop_first() =~= rest);
        assert(((units[0] as u32) as char) == c);
    } else {
        let hi = (0xD800 + (v - 0x1_0000) / 0x400) as u16;
        let lo = (0xDC00 + (v - 0x1_0000) % 0x400) as u16;
        assert(units[0] == hi);
        assert(units[1] == lo);
        assert(0xD800 <= hi < 0xDC00);
        assert(0xDC00 <= lo <= 0xDFFF);
        assert(units.skip(2) =~= rest);
        assert(0x1_0000 + (hi - 0xD800) * 0x400 + (lo - 0xDC00) == v);
        assert((v as char) == c);
    }
}

/// Encoding a string and decoding the units gives the string again.
pub proof fn lemma_utf16_round_trip(s: Seq<char>)
    ensures
        utf16_lossy(utf16_units(s)) == s,
    decreases s.len(),
{
    if s.len() > 0 {
        lemma_utf16_round_trip(s.drop_first());
        lemma_utf16_lossy_of_char(s[0], utf16_units(s.drop_first()));
        assert(seq![s[0]] + s.drop_first() =~= s);
    }
}

/// The character is not U+0000.
pub open spec fn not_nul(c: char) -> bool {
    (c as u32) != 0
}

/// The units of a string without U+0000 hold no terminator.
pub proof fn lemma_utf16_units_without_nul(s: Seq<char>)
    requires
        forall|i: int| 0 <= i < s.len() ==> not_nul(#[trigger] s[i]),
    ensures
        forall|i: int| 0 <= i < utf16_units(s).len() ==> #[trigger] utf16_units(s)[i] != 0,
    decreases s.len(),
{
    if s.len() > 0 {
        let t = s.drop_first();
        assert forall|i: int| 0 <= i < t.len() implies not_nul(#[trigger] t[i]) by {
            assert(t[i] == s[i + 1]);
        }
        lemma_utf16_units_without_nul(t);
        let c: char = s[0];
        let head = utf16_of_char(c);
        let v = c as u32;
        assert(not_nul(c));
        vstd::utf8::char_is_scalar(c);
        assert forall|j: int| 0 <= j < head.len() implies head[j] != 0 by {
            if v >= 0x1_0000 {
                assert(head[0] >= 0xD800);
                assert(head[1] >= 0xDC00);
            }
        }
        assert forall|i: int| 0 <= i < utf16_units(s).len() implies #[trigger] utf16_units(
            s,
        )[i] != 0 by {
            if i < head.len() {
                assert(utf16_units(s)[i] == head[i]);
            } else {
                assert(utf16_units(s)[i] == utf16_units(t)[i - head.len()]);
            }
        }
    }
}

/// A buffer that holds the units of a string without U+0000, and then a
/// terminator, is read back as that string, whatever the extension buffer
/// holds.
pub proof fn lemma_terminated_string_is_read_back(s: Seq<char>, buf: Seq<u16>, ext_buf: Seq<u16>)
    requires
        forall|i: int| 0 <= i < s.len() ==> not_nul(#[trigger] s[i]),
        utf16_units(s).len() < buf.len(),
        buf.take(utf16_units(s).len() as int) == utf16_units(s),
        buf[utf16_units(s).len() as int] == 0,
    ensures
        utf16_lossy(plain_path(buf)) == s,
        utf16_lossy(reassembled(buf, ext_buf)) == s,
{
    let u = utf16_units(s);
    lemma_utf16_units_without_nul(s);
    assert forall|i: int| 0 <= i < u.len() implies buf[i] != 0 by {
        assert(buf[i] == buf.take(u.len() as int)[i]);
    }
    lemma_first_index_is(buf, 0u16, u.len() as int);
    lemma_utf16_round_trip(s);
    lemma_reassembled_is_plain_path(buf, ext_buf);
}

/// The string has a wide C form: its encoding holds no terminator before its
/// last unit.
pub open spec fn has_c_form(s: Seq<char>) -> bool {
    span(utf16_units(s)) + 1 >= utf16_units(s).len()
}

/// The units of the wide C form of a string, without the terminator.
pub open spec fn c_units(s: Seq<char>) -> Seq<u16> {
    utf16_units(s).take(span(utf16_units(s)) as int)
}

/// `widestring::U16CString::from_str`, with the units of the string it makes,
/// terminator included, as `into_vec_with_nul` hands them out. It encodes the
/// string as UTF-16 and refuses it where a terminator stands before the last
/// unit; a terminator at the very end is taken for the string's own, and one
/// is added where there is none.
#[verifier::external_body]
pub(crate) fn wide_c_string(s: &str) -> (r: Option<Vec<u16>>)
    ensures
        r is Some <==> has_c_form(s@),
        r matches Some(v) ==> v@ == c_units(s@).push(0),
{
    match U16CString::from_str(s) {
        Ok(w) => Some(w.into_vec_with_nul()),
        Err(_) => None,
    }
}

/// `String::from_utf16_lossy`: decodes code units, never failing. It puts
/// U+FFFD in place of each surrogate that is not part of a pair of a high one
/// and a low one.
#[verifier::external_body]
pub(crate) fn string_from_utf16_lossy(units: &[u16]) -> (s: String)
    ensures
        s@ == utf16_lossy(units@),
{
    String::from_utf16_lossy(units)
}

} // verus!
