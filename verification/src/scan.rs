//! Where a value first and last occurs in a sequence.

use vstd::prelude::*;

verus! {

/// The index at which `x` first occurs in `s`, or `s.len()` where it does not
/// occur.
pub open spec fn first_index_of<T>(s: Seq<T>, x: T) -> int
    decreases s.len(),
{
    if s.len() == 0 || s[0] == x {
        0
    } else {
        1 + first_index_of(s.drop_first(), x)
    }
}

/// The index at which `x` last occurs in `s`, or -1 where it does not occur.
pub open spec fn last_index_of<T>(s: Seq<T>, x: T) -> int
    decreases s.len(),
{
    if s.len() == 0 {
        -1
    } else if s.last() == x {
        s.len() - 1
    } else {
        last_index_of(s.drop_last(), x)
    }
}

/// `first_index_of` is an index of `x`, or the length, and `x` does not occur
/// before it.
pub proof fn lemma_first_index_of<T>(s: Seq<T>, x: T)
    ensures
        0 <= first_index_of(s, x) <= s.len(),
        forall|i: int| 0 <= i < first_index_of(s, x) ==> s[i] != x,
        first_index_of(s, x) < s.len() ==> s[first_index_of(s, x)] == x,
    decreases s.len(),
{
    if s.len() != 0 && s[0] != x {
        let t = s.drop_first();
        lemma_first_index_of(t, x);
        assert forall|i: int| 0 <= i < first_index_of(s, x) implies s[i] != x by {
            if i > 0 {
                assert(s[i] == t[i - 1]);
            }
        }
        if first_index_of(s, x) < s.len() {
            assert(s[first_index_of(s, x)] == t[first_index_of(t, x)]);
        }
    }
}

/// The one index that `x` does not occur before and that holds `x` or is the
/// length is `first_index_of`.
pub proof fn lemma_first_index_is<T>(s: Seq<T>, x: T, n: int)
    requires
        0 <= n <= s.len(),
        forall|i: int| 0 <= i < n ==> s[i] != x,
        n < s.len() ==> s[n] == x,
    ensures
        first_index_of(s, x) == n,
    decreases s.len(),
{
    if n > 0 {
        let t = s.drop_first();
        assert(s[0] != x);
        assert forall|i: int| 0 <= i < n - 1 implies t[i] != x by {
            assert(t[i] == s[i + 1]);
        }
        lemma_first_index_is(t, x, n - 1);
    }
}

/// `last_index_of` is an index of `x`, or -1, and `x` does not occur behind it.
pub proof fn lemma_last_index_of<T>(s: Seq<T>, x: T)
    ensures
        -1 <= last_index_of(s, x) < s.len(),
        last_index_of(s, x) >= 0 ==> s[last_index_of(s, x)] == x,
        forall|i: int| last_index_of(s, x) < i < s.len() ==> s[i] != x,
    decreases s.len(),
{
    if s.len() != 0 && s.last() != x {
        let q = s.drop_last();
        lemma_last_index_of(q, x);
        assert forall|i: int| last_index_of(s, x) < i < s.len() implies s[i] != x by {
            if i < q.len() {
                assert(s[i] == q[i]);
            }
        }
    }
}

/// The one index that holds `x` with none behind it, or -1 where `x` does not
/// occur, is `last_index_of`.
pub proof fn lemma_last_index_is<T>(s: Seq<T>, x: T, d: int)
    requires
        -1 <= d < s.len(),
        d >= 0 ==> s[d] == x,
        forall|i: int| d < i < s.len() ==> s[i] != x,
    ensures
        last_index_of(s, x) == d,
    decreases s.len(),
{
    if s.len() != 0 && d != s.len() - 1 {
        let q = s.drop_last();
        assert(s.last() != x);
        assert forall|i: int| d < i < q.len() implies q[i] != x by {
            assert(q[i] == s[i]);
        }
        if d >= 0 {
            assert(q[d] == s[d]);
        }
        lemma_last_index_is(q, x, d);
    }
}

} // verus!
