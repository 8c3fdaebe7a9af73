//! Paths of executables as text: components are parted by `\`.

use crate::scan::{first_index_of, last_index_of, lemma_first_index_is, lemma_last_index_is};
use vstd::prelude::*;

verus! {

/// The character that parts the components of a path.
pub const SEPARATOR: char = '\\';

/// The directory under which the operating system keeps its own executables.
pub open spec fn system_directory() -> Seq<char> {
    "C:\\Windows\\System32"@
}

/// The directory that holds `path`: the text before its last separator, or
/// nothing where it has none.
pub open spec fn directory(path: Seq<char>) -> Seq<char> {
    if last_index_of(path, SEPARATOR) >= 0 {
        path.take(last_index_of(path, SEPARATOR))
    } else {
        Seq::empty()
    }
}

/// The last component of `path`: the text behind its last separator, or all of
/// it where it has none.
pub open spec fn file_name(path: Seq<char>) -> Seq<char> {
    path.skip(last_index_of(path, SEPARATOR) + 1)
}

/// The root of `path`: the text up to and including its first separator, where
/// it has one.
pub open spec fn root(path: Seq<char>) -> Option<Seq<char>> {
    if first_index_of(path, SEPARATOR) < path.len() {
        Some(path.take(first_index_of(path, SEPARATOR) + 1))
    } else {
        None
    }
}

/// `dir` is `root` or lies below it: it begins with `root`, and what follows
/// begins a new component.
pub open spec fn under(dir: Seq<char>, root: Seq<char>) -> bool {
    &&& root.len() <= dir.len()
    &&& dir.take(root.len() as int) == root
    &&& (dir.len() == root.len() || dir[root.len() as int] == SEPARATOR)
}

/// The executable at `exepath` is one of the operating system's own: its
/// directory is the system directory or lies below it.
pub open spec fn is_system_executable(exepath: Seq<char>) -> bool {
    under(directory(exepath), system_directory())
}

/// The characters of `s`.
pub fn chars_of(s: &str) -> (v: Vec<char>)
    ensures
        v@ == s@,
{
    let mut v: Vec<char> = Vec::new();
    for c in it: s.chars()
        invariant
            it.seq() == s@,
            v@ == s@.take(it.index() as int),
    {
        v.push(c);
    }
    v
}

/// The index of the last separator in `path`.
pub fn last_separator_of(path: &Vec<char>) -> (r: Option<usize>)
    ensures
        match r {
            Some(i) => i < path.len() && last_index_of(path@, SEPARATOR) == i,
            None => last_index_of(path@, SEPARATOR) == -1,
        },
{
    let mut i: usize = path.len();
    while i > 0
        invariant
            i <= path@.len(),
            forall|j: int| i <= j < path@.len() ==> path@[j] != SEPARATOR,
        decreases i,
    {
        i = i - 1;
        if path[i] == SEPARATOR {
            proof {
                lemma_last_index_is(path@, SEPARATOR, i as int);
            }
            return Some(i);
        }
    }
    proof {
        lemma_last_index_is(path@, SEPARATOR, -1);
    }
    None
}

/// The index of the first separator in `path`.
pub fn first_separator_of(path: &Vec<char>) -> (r: Option<usize>)
    ensures
        match r {
            Some(i) => i < path.len() && first_index_of(path@, SEPARATOR) == i,
            None => first_index_of(path@, SEPARATOR) == path@.len(),
        },
{
    let mut i: usize = 0;
    while i < path.len()
        invariant
            i <= path@.len(),
            forall|j: int| 0 <= j < i ==> path@[j] != SEPARATOR,
        decreases path@.len() - i,
    {
        if path[i] == SEPARATOR {
            proof {
                lemma_first_index_is(path@, SEPARATOR, i as int);
            }
            return Some(i);
        }
        i = i + 1;
    }
    proof {
        lemma_first_index_is(path@, SEPARATOR, i as int);
    }
    None
}

/// Whether the first `n` characters of `dir` are `root` or lie below it.
fn prefix_under(dir: &Vec<char>, n: usize, root: &Vec<char>) -> (b: bool)
    requires
        n <= dir@.len(),
    ensures
        b == under(dir@.take(n as int), root@),
{
    let ghost d = dir@.take(n as int);
    let m: usize = root.len();
    if m > n {
        return false;
    }
    let mut i: usize = 0;
    while i < m
        invariant
            i <= m <= n <= dir@.len(),
            m == root@.len(),
            d == dir@.take(n as int),
            forall|j: int| 0 <= j < i ==> d[j] == root@[j],
        decreases m - i,
    {
        if dir[i] != root[i] {
            proof {
                assert(d.take(m as int)[i as int] != root@[i as int]);
            }
            return false;
        }
        i = i + 1;
    }
    assert(d.take(m as int) =~= root@);
    m == n || dir[m] == SEPARATOR
}

/// Whether the executable at `exepath` is one of the operating system's own.
pub fn system_executable(exepath: &str) -> (b: bool)
    ensures
        b == is_system_executable(exepath@),
{
    let path: Vec<char> = chars_of(exepath);
    let system: Vec<char> = chars_of("C:\\Windows\\System32");
    match last_separator_of(&path) {
        Some(n) => prefix_under(&path, n, &system),
        None => {
            let b = prefix_under(&path, 0, &system);
            assert(path@.take(0) =~= Seq::<char>::empty());
            b
        },
    }
}

/// The last component of `exepath`, or `None` where it is empty.
pub fn file_name_of(exepath: &str) -> (r: Option<String>)
    ensures
        r is Some <==> file_name(exepath@).len() > 0,
        r matches Some(name) ==> name@ == file_name(exepath@),
{
    let path: Vec<char> = chars_of(exepath);
    let from: usize = match last_separator_of(&path) {
        Some(i) => i + 1,
        None => 0,
    };
    let len: usize = path.len();
    if from == len {
        return None;
    }
    let name: &str = exepath.substring_char(from, len);
    Some(name.to_owned())
}

/// The root of `filepath`: the text up to and including its first separator,
/// or `None` where it has none.
pub fn root_of(filepath: &str) -> (r: Option<String>)
    ensures
        r is Some <==> root(filepath@) is Some,
        r matches Some(text) ==> Some(text@) == root(filepath@),
{
    let path: Vec<char> = chars_of(filepath);
    match first_separator_of(&path) {
        Some(i) => {
            let text: &str = filepath.substring_char(0, i + 1);
            Some(text.to_owned())
        },
        None => None,
    }
}

} // verus!
