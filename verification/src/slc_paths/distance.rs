//! How far apart two files lie in the file tree.
//!
//! Paths are taken as text whose components are parted by `\`. The first
//! component is the root of its tree and has no parent; the parent of any
//! other path is the path without its last component.

use crate::paths::{chars_of, SEPARATOR};
use crate::scan::{last_index_of, lemma_last_index_is, lemma_last_index_of};
use vstd::prelude::*;

verus! {

/// The parent of `p`: `p` without its last component, or none for a root.
pub open spec fn parent(p: Seq<char>) -> Option<Seq<char>> {
    if last_index_of(p, SEPARATOR) >= 0 {
        Some(p.take(last_index_of(p, SEPARATOR)))
    } else {
        None
    }
}

/// The number of paths from `from` up to its root, both counted; 0 for none.
pub open spec fn ancestors(from: Option<Seq<char>>) -> nat
    decreases
        (match from {
            Some(p) => p.len() + 1,
            None => 0,
        }),
{
    match from {
        None => 0,
        Some(p) => {
            if last_index_of(p, SEPARATOR) >= 0 && last_index_of(p, SEPARATOR) < p.len() {
                1 + ancestors(parent(p))
            } else {
                1
            }
        },
    }
}

/// The number of steps up from `from` at which `target` is met, if it is met.
pub open spec fn climb(from: Option<Seq<char>>, target: Seq<char>) -> Option<nat>
    decreases
        (match from {
            Some(p) => p.len() + 1,
            None => 0,
        }),
{
    match from {
        None => None,
        Some(p) => {
            if p == target {
                Some(0nat)
            } else if last_index_of(p, SEPARATOR) >= 0 && last_index_of(p, SEPARATOR) < p.len() {
                match climb(parent(p), target) {
                    Some(k) => Some(k + 1),
                    None => None,
                }
            } else {
                None
            }
        },
    }
}

/// The distance between the files at `x` and `y`: 0 for the same path; where
/// the directory of the less deep one lies on the way up from the directory of
/// the deeper one (of `y`, at equal depth), 1 more than the steps up to it;
/// else the square of 1 more than the ancestors of both directories, which
/// sets files of different trees far apart.
pub open spec fn distance_of(x: Seq<char>, y: Seq<char>) -> nat {
    if x == y {
        0
    } else {
        let deep = if ancestors(Some(x)) > ancestors(Some(y)) {
            x
        } else {
            y
        };
        let flat = if ancestors(Some(x)) > ancestors(Some(y)) {
            y
        } else {
            x
        };
        let met = match parent(flat) {
            Some(target) => climb(parent(deep), target),
            None => None,
        };
        match met {
            Some(k) => 1 + k,
            None => {
                let all = 1 + ancestors(parent(deep)) + ancestors(parent(flat));
                all * all
            },
        }
    }
}

/// The first `n` characters of `v` as a path, where `n` names a length.
pub open spec fn upto(v: Seq<char>, n: Option<usize>) -> Option<Seq<char>> {
    match n {
        Some(m) => Some(v.take(m as int)),
        None => None,
    }
}

/// The length of the parent of the first `n` characters of `v`, or -1 where
/// they are a root.
fn parent_len(v: &Vec<char>, n: usize) -> (r: Option<usize>)
    requires
        n <= v@.len(),
    ensures
        match r {
            Some(m) => m < n && parent(v@.take(n as int)) == Some(v@.take(m as int))
                && last_index_of(v@.take(n as int), SEPARATOR) == m,
            None => parent(v@.take(n as int)) is None && last_index_of(
                v@.take(n as int),
                SEPARATOR,
            ) == -1,
        },
{
    let ghost p = v@.take(n as int);
    let mut i: usize = n;
    while i > 0
        invariant
            i <= n <= v@.len(),
            p == v@.take(n as int),
            forall|j: int| i <= j < n ==> p[j] != SEPARATOR,
        decreases i,
    {
        i = i - 1;
        if v[i] == SEPARATOR {
            proof {
                lemma_last_index_is(p, SEPARATOR, i as int);
                assert(p.take(i as int) =~= v@.take(i as int));
            }
            return Some(i);
        }
    }
    proof {
        lemma_last_index_is(p, SEPARATOR, -1);
    }
    None
}

/// Counts the paths from the first `n` characters of `v` up to their root;
/// `None` stands for no path.
fn count_ancestors(v: &Vec<char>, n: Option<usize>) -> (r: u128)
    requires
        n matches Some(m) ==> m <= v@.len(),
    ensures
        r == ancestors(
            upto(v@, n),
        ),
        r <= v@.len() + 1,
        n is None ==> r == 0,
        n matches Some(m) ==> r <= m + 1,
{
    let mut at: Option<usize> = n;
    let mut count: u128 = 0;
    let total: usize = v.len();
    let ghost start: Option<Seq<char>> = upto(v@, n);
    loop
        invariant
            at matches Some(m) ==> m <= v@.len(),
            v@.len() == total,
            n matches Some(m) ==> m <= v@.len(),
            n is None ==> at is None && count == 0,
            (n is Some && at is Some) ==> count + at->0 <= n->0,
            (n is Some && at is None) ==> count <= n->0 + 1,
            start == upto(v@, n),
            ancestors(start) == count + ancestors(
                upto(v@, at),
            ),
        decreases
            (match at {
                Some(m) => m + 1,
                None => 0,
            }),
    {
        match at {
            None => {
                return count;
            },
            Some(m) => {
                let up = parent_len(v, m);
                proof {
                    lemma_last_index_of(v@.take(m as int), SEPARATOR);
                }
                count = count + 1;
                at = up;
            },
        }
    }
}

/// Whether the first `n` characters of `a` are the first `m` of `b`.
fn same_prefix(a: &Vec<char>, n: usize, b: &Vec<char>, m: usize) -> (same: bool)
    requires
        n <= a@.len(),
        m <= b@.len(),
    ensures
        same == (a@.take(n as int) == b@.take(m as int)),
{
    if n != m {
        assert(a@.take(n as int).len() != b@.take(m as int).len());
        return false;
    }
    let mut i: usize = 0;
    while i < n
        invariant
            i <= n == m,
            n <= a@.len(),
            m <= b@.len(),
            forall|j: int| 0 <= j < i ==> a@[j] == b@[j],
        decreases n - i,
    {
        if a[i] != b[i] {
            assert(a@.take(n as int)[i as int] != b@.take(m as int)[i as int]);
            return false;
        }
        i = i + 1;
    }
    assert(a@.take(n as int) =~= b@.take(m as int));
    true
}

/// Climbs from the first `n` characters of `a` towards the root and counts
/// the steps until the first `m` characters of `b` are met.
fn climb_to(a: &Vec<char>, n: Option<usize>, b: &Vec<char>, m: usize) -> (r: Option<usize>)
    requires
        n matches Some(k) ==> k <= a@.len(),
        m <= b@.len(),
    ensures
        match r {
            Some(k) => climb(
                upto(a@, n),
                b@.take(m as int),
            ) == Some(k as nat) && k <= a@.len(),
            None => climb(
                upto(a@, n),
                b@.take(m as int),
            ) is None,
        },
{
    let mut at: Option<usize> = n;
    let mut steps: usize = 0;
    let total: usize = a.len();
    let ghost start: Option<Seq<char>> = match n {
        Some(k) => Some(a@.take(k as int)),
        None => None,
    };
    let ghost target = b@.take(m as int);
    loop
        invariant
            at matches Some(k) ==> k <= a@.len() && steps + k <= a@.len(),
            a@.len() == total,
            m <= b@.len(),
            target == b@.take(m as int),
            start == upto(a@, n),
            climb(start, target) == (match climb(
                upto(a@, at),
                target,
            ) {
                Some(k) => Some((k + steps) as nat),
                None => None::<nat>,
            }),
        decreases
            (match at {
                Some(k) => k + 1,
                None => 0,
            }),
    {
        match at {
            None => {
                return None;
            },
            Some(k) => {
                if same_prefix(a, k, b, m) {
                    return Some(steps);
                }
                let up = parent_len(a, k);
                proof {
                    lemma_last_index_of(a@.take(k as int), SEPARATOR);
                }
                if up.is_none() {
                    return None;
                }
                steps = steps + 1;
                at = up;
            },
        }
    }
}

/// The largest distance that is told apart; larger ones are reported as this.
pub const FARTHEST: u64 = 0xffff_ffff_ffff_ffff;

/// The distance as it is reported: itself up to `FARTHEST`, and `FARTHEST`
/// beyond.
pub open spec fn capped(d: nat) -> u64 {
    if d <= FARTHEST {
        d as u64
    } else {
        FARTHEST
    }
}

/// Returns the distance between two files in the file tree.
pub fn distance(x: &str, y: &str) -> (d: u64)
    ensures
        d == capped(distance_of(x@, y@)),
{
    let xv: Vec<char> = chars_of(x);
    let yv: Vec<char> = chars_of(y);
    let xn: usize = xv.len();
    let yn: usize = yv.len();
    assert(xv@.take(xn as int) =~= x@);
    assert(yv@.take(yn as int) =~= y@);
    if same_prefix(&xv, xn, &yv, yn) {
        return 0;
    }
    let depth_x: u128 = count_ancestors(&xv, Some(xn));
    let depth_y: u128 = count_ancestors(&yv, Some(yn));
    if depth_x > depth_y {
        between(&xv, &yv)
    } else {
        between(&yv, &xv)
    }
}

/// The distance between two different files, the deeper one given first.
fn between(deep: &Vec<char>, flat: &Vec<char>) -> (d: u64)
    ensures
        d == capped(
            ({
                let met = match parent(flat@) {
                    Some(target) => climb(parent(deep@), target),
                    None => None,
                };
                match met {
                    Some(k) => 1 + k,
                    None => {
                        let all = 1 + ancestors(parent(deep@)) + ancestors(parent(flat@));
                        all * all
                    },
                }
            }),
        ),
{
    assert(deep@.take(deep@.len() as int) =~= deep@);
    assert(flat@.take(flat@.len() as int) =~= flat@);
    let deep_dir: Option<usize> = parent_len(deep, deep.len());
    let flat_dir: Option<usize> = parent_len(flat, flat.len());
    let met: Option<usize> = match flat_dir {
        Some(m) => climb_to(deep, deep_dir, flat, m),
        None => None,
    };
    match met {
        Some(k) => {
            let d: u128 = 1 + k as u128;
            if d > FARTHEST as u128 {
                FARTHEST
            } else {
                d as u64
            }
        },
        None => {
            let a1: u128 = count_ancestors(deep, deep_dir);
            let a2: u128 = count_ancestors(flat, flat_dir);
            let all: u128 = 1 + a1 + a2;
            if all >= 0x1_0000_0000 {
                assert(all * all > FARTHEST) by (nonlinear_arith)
                    requires
                        all >= 0x1_0000_0000,
                ;
                FARTHEST
            } else {
                assert(all * all <= 0xffff_ffff * 0xffff_ffff) by (nonlinear_arith)
                    requires
                        0 <= all <= 0xffff_ffff,
                ;
                (all * all) as u64
            }
        },
    }
}

} // verus!
