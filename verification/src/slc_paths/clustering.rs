//! Clusters read off a dendrogram of file paths. The dendrogram groups the
//! paths step by step, each step merging two groups; a group is named by the
//! directory that its paths share.

use crate::paths::{chars_of, SEPARATOR};
use crate::slc_paths::distance::{capped, distance, distance_of};
use vstd::prelude::*;

verus! {

/// A group of files under one directory.
pub struct Cluster {
    root: String,
    size: usize,
    step: usize,
}

/// What a `Cluster` holds.
pub struct ClusterView {
    pub root: Seq<char>,
    pub size: usize,
    pub step: usize,
}

impl View for Cluster {
    type V = ClusterView;

    closed spec fn view(&self) -> ClusterView {
        ClusterView { root: self.root@, size: self.size, step: self.step }
    }
}

impl Cluster {
    /// A cluster of `size` files under `root`, closed at `step`.
    pub fn new(root: String, size: usize, step: usize) -> (c: Cluster)
        ensures
            c@ == (ClusterView { root: root@, size, step }),
    {
        Cluster { root, size, step }
    }

    /// Returns the common root of the cluster's files.
    pub fn root(&self) -> (r: String)
        ensures
            r@ == self@.root,
    {
        self.root.clone()
    }

    /// Returns the number of files in the cluster.
    pub fn size(&self) -> (n: usize)
        ensures
            n == self@.size,
    {
        self.size
    }

    /// Returns the step at which the cluster was closed.
    pub fn step(&self) -> (n: usize)
        ensures
            n == self@.step,
    {
        self.step
    }
}

/// One step of a dendrogram: the two groups that it merges, by label, and the
/// number of paths in the group that it makes. The paths themselves have the
/// labels from 0 on, and the group that step `i` makes has the label that is
/// the number of paths plus `i`.
#[derive(Clone, Copy, Debug, PartialEq, Eq, Structural)]
pub struct Merge {
    pub cluster1: usize,
    pub cluster2: usize,
    pub size: usize,
}

/// A component of `s` ends at index `n`: `n` is the end of `s` or holds a
/// separator.
pub open spec fn boundary(s: Seq<char>, n: int) -> bool {
    0 <= n <= s.len() && (n == s.len() || s[n] == SEPARATOR)
}

/// `a` and `b` have the same components up to index `n`, where one ends in
/// both.
pub open spec fn shared(a: Seq<char>, b: Seq<char>, n: int) -> bool {
    boundary(a, n) && boundary(b, n) && a.take(n) == b.take(n)
}

/// `n` is the end of the last component that `a` and `b` have in common from
/// their start on.
pub open spec fn longest_shared(a: Seq<char>, b: Seq<char>, n: int) -> bool {
    shared(a, b, n) && forall|m: int| shared(a, b, m) ==> m <= n
}

/// The directory that `a` and `b` have in common, given the end `n` of their
/// last common component, or -1 where they have none: the components in
/// common; `.` where there are none; `.\` where the only one is empty.
pub open spec fn common_root_at(a: Seq<char>, n: int) -> Seq<char> {
    if n < 0 {
        seq!['.']
    } else if n == 0 {
        seq!['.', '\\']
    } else {
        a.take(n)
    }
}

/// `root` is the directory that `a` and `b` have in common.
pub open spec fn is_common_root(a: Seq<char>, b: Seq<char>, root: Seq<char>) -> bool {
    ||| (exists|n: int| longest_shared(a, b, n) && root == common_root_at(a, n))
    ||| ((forall|m: int| !shared(a, b, m)) && root == common_root_at(a, -1))
}

/// Two paths have one common directory.
pub proof fn lemma_common_root_unique(a: Seq<char>, b: Seq<char>, r1: Seq<char>, r2: Seq<char>)
    requires
        is_common_root(a, b, r1),
        is_common_root(a, b, r2),
    ensures
        r1 == r2,
{
    if exists|n: int| longest_shared(a, b, n) && r1 == common_root_at(a, n) {
        let n1 = choose|n: int| longest_shared(a, b, n) && r1 == common_root_at(a, n);
        assert(shared(a, b, n1));
        if exists|n: int| longest_shared(a, b, n) && r2 == common_root_at(a, n) {
            let n2 = choose|n: int| longest_shared(a, b, n) && r2 == common_root_at(a, n);
            assert(shared(a, b, n2));
            assert(n1 <= n2 && n2 <= n1);
        }
    } else {
        if exists|n: int| longest_shared(a, b, n) && r2 == common_root_at(a, n) {
            let n2 = choose|n: int| longest_shared(a, b, n) && r2 == common_root_at(a, n);
            assert(shared(a, b, n2));
        }
    }
}

/// The end of the last component that `a` and `b` have in common from their
/// start on, or `None` where they have none.
fn shared_end(a: &Vec<char>, b: &Vec<char>) -> (r: Option<usize>)
    ensures
        match r {
            Some(n) => n <= a.len() && longest_shared(a@, b@, n as int),
            None => forall|m: int| !shared(a@, b@, m),
        },
{
    let mut last: Option<usize> = None;
    let mut i: usize = 0;
    while i < a.len() && i < b.len() && a[i] == b[i]
        invariant
            i <= a@.len(),
            i <= b@.len(),
            forall|j: int| 0 <= j < i ==> a@[j] == b@[j],
            match last {
                Some(n) => n < i && shared(a@, b@, n as int) && forall|m: int|
                    0 <= m < i && shared(a@, b@, m) ==> m <= n,
                None => forall|m: int| 0 <= m < i ==> !shared(a@, b@, m),
            },
        decreases a@.len() - i,
    {
        if a[i] == SEPARATOR {
            assert(a@.take(i as int) =~= b@.take(i as int));
            last = Some(i);
        }
        i = i + 1;
    }
    assert(a@.take(i as int) =~= b@.take(i as int));
    assert forall|m: int| shared(a@, b@, m) implies m <= i by {
        if m > i {
            assert(a@.take(m)[i as int] == b@.take(m)[i as int]);
        }
    }
    let a_ends: bool = i == a.len() || a[i] == SEPARATOR;
    let b_ends: bool = i == b.len() || b[i] == SEPARATOR;
    if a_ends && b_ends {
        Some(i)
    } else {
        last
    }
}

/// The directory that `a` and `b` have in common.
pub open spec fn common_root_text(a: Seq<char>, b: Seq<char>) -> Seq<char> {
    choose|root: Seq<char>| is_common_root(a, b, root)
}

/// The directory that `a` and `b` have in common.
pub fn common_root(a: &str, b: &str) -> (root: String)
    ensures
        is_common_root(a@, b@, root@),
        root@ == common_root_text(a@, b@),
{
    let root = common_root_found(a, b);
    proof {
        lemma_common_root_unique(a@, b@, root@, common_root_text(a@, b@));
    }
    root
}

/// Finds the directory that `a` and `b` have in common.
fn common_root_found(a: &str, b: &str) -> (root: String)
    ensures
        is_common_root(a@, b@, root@),
{
    let av: Vec<char> = chars_of(a);
    let bv: Vec<char> = chars_of(b);
    match shared_end(&av, &bv) {
        None => {
            proof {
                reveal_strlit(".");
            }
            let root = ".".to_owned();
            assert(root@ =~= common_root_at(a@, -1));
            root
        },
        Some(n) => {
            if n == 0 {
                proof {
                    reveal_strlit(".\\");
                }
                let root = ".\\".to_owned();
                assert(root@ =~= common_root_at(a@, 0));
                root
            } else {
                let root = a.substring_char(0, n).to_owned();
                assert(root@ =~= common_root_at(a@, n as int));
                root
            }
        },
    }
}

/// The text of each string.
pub open spec fn texts(v: Seq<String>) -> Seq<Seq<char>> {
    Seq::new(v.len(), |i: int| v[i]@)
}

/// What each cluster holds.
pub open spec fn cluster_views(v: Seq<Cluster>) -> Seq<ClusterView> {
    Seq::new(v.len(), |i: int| v[i]@)
}

/// Every step merges two groups that exist when it is taken: paths, or groups
/// made by earlier steps.
pub open spec fn linked(merges: Seq<Merge>, observations: int) -> bool {
    forall|i: int|
        0 <= i < merges.len() ==> (#[trigger] merges[i]).cluster1 < observations + i
            && merges[i].cluster2 < observations + i
}

/// The names of the groups by label once `k` steps are taken: the paths, then
/// for each step the directory that the names of its two groups share.
pub open spec fn names_after(paths: Seq<Seq<char>>, merges: Seq<Merge>, k: nat) -> Seq<Seq<char>>
    decreases k,
{
    if k == 0 {
        paths
    } else {
        let prev = names_after(paths, merges, (k - 1) as nat);
        let m = merges[k - 1];
        prev.push(common_root_text(prev[m.cluster1 as int], prev[m.cluster2 as int]))
    }
}

/// The names of all groups by label, or `None` where a step merges a group
/// that does not exist when it is taken.
pub fn cluster_names(paths: &Vec<String>, merges: &Vec<Merge>) -> (r: Option<Vec<String>>)
    ensures
        r is Some <==> linked(merges@, paths@.len() as int),
        r matches Some(names) ==> names@.len() == paths@.len() + merges@.len() && texts(names@)
            == names_after(texts(paths@), merges@, merges@.len()),
{
    let mut names: Vec<String> = Vec::new();
    let mut i: usize = 0;
    while i < paths.len()
        invariant
            i <= paths@.len(),
            names@.len() == i,
            texts(names@) == texts(paths@).take(i as int),
        decreases paths@.len() - i,
    {
        names.push(paths[i].clone());
        assert(texts(names@) =~= texts(paths@).take(i + 1));
        i = i + 1;
    }
    assert(texts(paths@).take(i as int) =~= texts(paths@));
    let mut k: usize = 0;
    while k < merges.len()
        invariant
            k <= merges@.len(),
            names@.len() == paths@.len() + k,
            texts(names@) == names_after(texts(paths@), merges@, k as nat),
            forall|j: int|
                0 <= j < k ==> (#[trigger] merges@[j]).cluster1 < paths@.len() + j
                    && merges@[j].cluster2 < paths@.len() + j,
        decreases merges@.len() - k,
    {
        let m: Merge = merges[k];
        if m.cluster1 >= names.len() || m.cluster2 >= names.len() {
            assert(!linked(merges@, paths@.len() as int)) by {
                assert(!(merges@[k as int].cluster1 < paths@.len() + k && merges@[k as int].cluster2
                    < paths@.len() + k));
            }
            return None;
        }
        let ghost prev = texts(names@);
        let name: String = common_root(names[m.cluster1].as_str(), names[m.cluster2].as_str());
        names.push(name);
        assert(texts(names@) =~= prev.push(
            common_root_text(prev[m.cluster1 as int], prev[m.cluster2 as int]),
        ));
        k = k + 1;
    }
    Some(names)
}

/// The number of paths in the group with the label `label`: what the step that
/// made it reports, and 1 for a path. The group of the first step is counted
/// as one path.
pub open spec fn size_of_label(merges: Seq<Merge>, observations: int, label: usize) -> usize {
    if label > observations {
        merges[label - observations].size
    } else {
        1
    }
}

/// The cluster that the group `label`, merged at `step`, is reported as: none
/// where the group was itself made at `max_point` or later.
pub open spec fn picked(
    names: Seq<Seq<char>>,
    merges: Seq<Merge>,
    observations: int,
    max_point: int,
    label: usize,
    step: usize,
) -> Seq<ClusterView> {
    if label < max_point + observations {
        seq![
            ClusterView {
                root: names[label as int],
                size: size_of_label(merges, observations, label),
                step,
            },
        ]
    } else {
        Seq::empty()
    }
}

/// The clusters reported for the steps from `max_point` up to, not including,
/// `upto`: for each step in order, its first group and its second, as far as
/// they were made before `max_point`.
pub open spec fn clusters_between(
    names: Seq<Seq<char>>,
    merges: Seq<Merge>,
    observations: int,
    max_point: int,
    upto: nat,
) -> Seq<ClusterView>
    decreases upto,
{
    if upto <= max_point || upto == 0 {
        Seq::empty()
    } else {
        let i = (upto - 1) as usize;
        clusters_between(names, merges, observations, max_point, (upto - 1) as nat) + picked(
            names,
            merges,
            observations,
            max_point,
            merges[i as int].cluster1,
            i,
        ) + picked(names, merges, observations, max_point, merges[i as int].cluster2, i)
    }
}

/// The distances of path `i` to the paths behind it, up to path `upto`, not
/// included.
pub open spec fn row(paths: Seq<Seq<char>>, i: int, upto: int) -> Seq<u64>
    decreases upto - i,
{
    if upto <= i + 1 {
        Seq::empty()
    } else {
        row(paths, i, upto - 1).push(capped(distance_of(paths[upto - 1], paths[i])))
    }
}

/// The distances between the paths, each pair once: for each of the first
/// `rows` paths in order, its distances to the paths behind it.
pub open spec fn condensed(paths: Seq<Seq<char>>, rows: nat) -> Seq<u64>
    decreases rows,
{
    if rows == 0 {
        Seq::empty()
    } else {
        condensed(paths, (rows - 1) as nat) + row(paths, rows - 1, paths.len() as int)
    }
}

/// The distances between the paths, each pair once, in the order in which a
/// condensed dissimilarity matrix holds them.
pub fn condensed_distances(paths: &Vec<String>) -> (out: Vec<u64>)
    ensures
        out@ == condensed(texts(paths@), paths@.len()),
{
    let mut out: Vec<u64> = Vec::new();
    let n: usize = paths.len();
    let mut i: usize = 0;
    while i < n
        invariant
            i <= n == paths@.len(),
            out@ == condensed(texts(paths@), i as nat),
        decreases n - i,
    {
        let ghost done = out@;
        let mut j: usize = i + 1;
        while j < n
            invariant
                i < j <= n == paths@.len(),
                out@ == done + row(texts(paths@), i as int, j as int),
            decreases n - j,
        {
            let d: u64 = distance(paths[j].as_str(), paths[i].as_str());
            out.push(d);
            assert(out@ =~= done + row(texts(paths@), i as int, j + 1));
            j = j + 1;
        }
        i = i + 1;
    }
    out
}

/// By how much the dissimilarity rises at step `i` over the step before.
pub open spec fn rise(dissimilarities: Seq<u64>, i: int) -> int {
    dissimilarities[i] - dissimilarities[i - 1]
}

/// The step among the first `k` at which the dissimilarity rises most, and
/// that rise: the first of the steps from 2 on that exceed the rise at step 1
/// and all before them, or step 0 where none exceeds the rise at step 1.
pub open spec fn steepest(dissimilarities: Seq<u64>, k: nat) -> (int, int)
    decreases k,
{
    if k <= 2 {
        (0, rise(dissimilarities, 1))
    } else {
        let before = steepest(dissimilarities, (k - 1) as nat);
        if rise(dissimilarities, k - 1) > before.1 {
            (k - 1, rise(dissimilarities, k - 1))
        } else {
            before
        }
    }
}

/// The step before which the dendrogram is cut: the one at which the
/// dissimilarity rises most. `None` for fewer than two steps.
pub fn max_point(dissimilarities: &Vec<u64>) -> (r: Option<usize>)
    ensures
        r is Some <==> dissimilarities@.len() >= 2,
        r matches Some(point) ==> point == steepest(
            dissimilarities@,
            dissimilarities@.len(),
        ).0 && point < dissimilarities@.len(),
{
    let len: usize = dissimilarities.len();
    if len < 2 {
        return None;
    }
    let mut point: usize = 0;
    let mut most: i128 = dissimilarities[1] as i128 - dissimilarities[0] as i128;
    let mut i: usize = 2;
    while i < len
        invariant
            2 <= i <= len == dissimilarities@.len(),
            point < i,
            (point as int, most as int) == steepest(dissimilarities@, i as nat),
        decreases len - i,
    {
        let here: i128 = dissimilarities[i] as i128 - dissimilarities[i - 1] as i128;
        if here > most {
            most = here;
            point = i;
        }
        i = i + 1;
    }
    Some(point)
}

/// The clusters of fewer than three paths: each path by itself, or the two
/// together where they are the same.
pub open spec fn few(paths: Seq<Seq<char>>) -> Seq<ClusterView> {
    if paths.len() == 0 {
        Seq::empty()
    } else if paths.len() == 1 {
        seq![ClusterView { root: paths[0], size: 1, step: 0 }]
    } else if paths[0] == paths[1] {
        seq![ClusterView { root: paths[0], size: 2, step: 0 }]
    } else {
        seq![
            ClusterView { root: paths[0], size: 1, step: 0 },
            ClusterView { root: paths[1], size: 1, step: 0 },
        ]
    }
}

/// The clusters that the dendrogram `merges` of `paths` gives when it is cut
/// before step `max_point`; fewer than three paths are clustered without it.
pub open spec fn clustered(paths: Seq<Seq<char>>, merges: Seq<Merge>, max_point: int) -> Seq<
    ClusterView,
> {
    if paths.len() < 3 {
        few(paths)
    } else {
        clusters_between(
            names_after(paths, merges, merges.len()),
            merges,
            paths.len() as int,
            max_point,
            merges.len(),
        )
    }
}

/// Appends the cluster that the group `label`, merged at `step`, is reported
/// as.
fn pick(
    out: &mut Vec<Cluster>,
    names: &Vec<String>,
    merges: &Vec<Merge>,
    observations: usize,
    max_point: usize,
    label: usize,
    step: usize,
)
    requires
        names@.len() == observations + merges@.len(),
        max_point <= merges@.len(),
    ensures
        cluster_views(final(out)@) == cluster_views(old(out)@) + picked(
            texts(names@),
            merges@,
            observations as int,
            max_point as int,
            label,
            step,
        ),
{
    let made_before: bool = label < observations || label - observations < max_point;
    if made_before {
        let size: usize = if label > observations {
            merges[label - observations].size
        } else {
            1
        };
        let ghost before = cluster_views(out@);
        let c = Cluster::new(names[label].clone(), size, step);
        out.push(c);
        assert(cluster_views(out@) =~= before + seq![c@]);
    } else {
        assert(cluster_views(out@) =~= cluster_views(old(out)@) + Seq::<ClusterView>::empty());
    }
}

/// The clusters that the dendrogram `merges` of `paths` gives when it is cut
/// before step `max_point`. `None` where the dendrogram is not of these
/// paths: a step merges a group that does not exist when it is taken, or
/// `max_point` is no step. Fewer than three paths are clustered without the
/// dendrogram, whatever it holds.
pub fn clustering(paths: &Vec<String>, merges: &Vec<Merge>, max_point: usize) -> (r: Option<
    Vec<Cluster>,
>)
    ensures
        r is Some <==> paths@.len() < 3 || (linked(merges@, paths@.len() as int) && max_point
            <= merges@.len()),
        r matches Some(clusters) ==> cluster_views(clusters@) == clustered(
            texts(paths@),
            merges@,
            max_point as int,
        ),
{
    let mut out: Vec<Cluster> = Vec::new();
    let n: usize = paths.len();
    if n == 0 {
        assert(cluster_views(out@) =~= few(texts(paths@)));
        return Some(out);
    }
    if n == 1 {
        out.push(Cluster::new(paths[0].clone(), 1, 0));
        assert(cluster_views(out@) =~= few(texts(paths@)));
        return Some(out);
    }
    if n == 2 {
        if paths[0] == paths[1] {
            out.push(Cluster::new(paths[0].clone(), 2, 0));
        } else {
            out.push(Cluster::new(paths[0].clone(), 1, 0));
            out.push(Cluster::new(paths[1].clone(), 1, 0));
        }
        assert(cluster_views(out@) =~= few(texts(paths@)));
        return Some(out);
    }
    if max_point > merges.len() {
        return None;
    }
    let names: Vec<String> = match cluster_names(paths, merges) {
        Some(names) => names,
        None => {
            return None;
        },
    };
    let mut i: usize = max_point;
    while i < merges.len()
        invariant
            max_point <= i <= merges@.len(),
            names@.len() == n + merges@.len(),
            n == paths@.len(),
            cluster_views(out@) == clusters_between(
                texts(names@),
                merges@,
                n as int,
                max_point as int,
                i as nat,
            ),
        decreases merges@.len() - i,
    {
        let m: Merge = merges[i];
        pick(&mut out, &names, merges, n, max_point, m.cluster1, i);
        pick(&mut out, &names, merges, n, max_point, m.cluster2, i);
        i = i + 1;
    }
    Some(out)
}

} // verus!
