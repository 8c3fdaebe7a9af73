use minifilter_rs::slc_paths::clustering::{
    cluster_names, clustering, common_root, condensed_distances, max_point, Cluster, Merge,
};
use minifilter_rs::slc_paths::distance::distance;

fn paths(list: &[&str]) -> Vec<String> {
    list.iter().map(|p| p.to_string()).collect()
}

fn merge(cluster1: usize, cluster2: usize, size: usize) -> Merge {
    Merge { cluster1, cluster2, size }
}

fn told(clusters: &[Cluster]) -> Vec<(String, usize, usize)> {
    clusters.iter().map(|c| (c.root(), c.size(), c.step())).collect()
}

#[test]
fn cluster_hands_out_what_it_was_given() {
    let c = Cluster::new("C:\\Users".to_string(), 15, 3);
    assert_eq!(c.root(), "C:\\Users");
    assert_eq!(c.size(), 15);
    assert_eq!(c.step(), 3);
}

#[test]
fn distance_counts_the_steps_between_directories() {
    assert_eq!(distance("C:\\a\\f.txt", "C:\\a\\f.txt"), 0);
    assert_eq!(distance("C:\\a\\f.txt", "C:\\a\\g.txt"), 1);
    assert_eq!(distance("C:\\a\\b\\f.txt", "C:\\a\\g.txt"), 2);
    assert_eq!(distance("C:\\a\\g.txt", "C:\\a\\b\\f.txt"), 2);
    assert_eq!(distance("C:\\a\\b\\c\\d\\f.txt", "C:\\a\\g.txt"), 4);
    assert_eq!(distance("C:\\f.txt", "C:\\a\\b\\g.txt"), 3);
}

#[test]
fn distance_of_files_apart_is_a_square() {
    assert_eq!(distance("C:\\a\\f.txt", "C:\\b\\g.txt"), 25);
    assert_eq!(distance("C:\\a\\f.txt", "D:\\a\\f.txt"), 25);
    assert_eq!(distance("C:\\a\\b\\f.txt", "C:\\x\\g.txt"), 36);
    assert_eq!(distance("C:\\a\\b\\f.txt", "C:\\a\\c\\g.txt"), 49);
    assert_eq!(distance("f.txt", "g.txt"), 1);
    assert_eq!(distance("f.txt", "C:\\g.txt"), 4);
    assert_eq!(distance("", "C:\\a\\g.txt"), 9);
}

#[test]
fn common_root_is_made_of_whole_components() {
    assert_eq!(common_root("C:\\a\\b\\f.txt", "C:\\a\\b\\g.txt"), "C:\\a\\b");
    assert_eq!(common_root("C:\\a\\bc\\f.txt", "C:\\a\\bd\\g.txt"), "C:\\a");
    assert_eq!(common_root("C:\\a\\b", "C:\\a\\b\\g.txt"), "C:\\a\\b");
    assert_eq!(common_root("C:\\a\\b", "C:\\a\\b"), "C:\\a\\b");
    assert_eq!(common_root("C:\\a", "D:\\a"), ".");
    assert_eq!(common_root("C:\\a", "C:x"), ".");
    assert_eq!(common_root("\\a\\f", "\\b\\g"), ".\\");
    assert_eq!(common_root("\\a\\f", "\\a\\g"), "\\a");
    assert_eq!(common_root("", ""), ".\\");
    assert_eq!(common_root("", "a"), ".");
    assert_eq!(common_root("é\\ü\\x", "é\\ü\\y"), "é\\ü");
}

#[test]
fn condensed_distances_list_each_pair_once() {
    let p = paths(&["C:\\a\\f", "C:\\a\\g", "C:\\a\\b\\h", "D:\\x\\y"]);
    assert_eq!(condensed_distances(&p), vec![1, 2, 25, 2, 25, 36]);
    assert_eq!(condensed_distances(&paths(&["x"])), Vec::<u64>::new());
    assert_eq!(condensed_distances(&paths(&[])), Vec::<u64>::new());
    assert_eq!(condensed_distances(&paths(&["C:\\a", "C:\\b"])), vec![1]);
}

#[test]
fn cut_is_made_where_dissimilarity_rises_most() {
    assert_eq!(max_point(&vec![]), None);
    assert_eq!(max_point(&vec![5]), None);
    assert_eq!(max_point(&vec![1, 2]), Some(0));
    assert_eq!(max_point(&vec![1, 2, 3, 4]), Some(0));
    assert_eq!(max_point(&vec![1, 2, 25, 36]), Some(2));
    assert_eq!(max_point(&vec![1, 1, 2, 2, 30, 31, 80]), Some(6));
    assert_eq!(max_point(&vec![1, 9, 10, 18]), Some(0));
    assert_eq!(max_point(&vec![1, 9, 10, 19]), Some(3));
    assert_eq!(max_point(&vec![0, u64::MAX, u64::MAX]), Some(0));
    assert_eq!(max_point(&vec![u64::MAX, 0, u64::MAX]), Some(2));
}

#[test]
fn groups_are_named_by_what_their_paths_share() {
    let p = paths(&["C:\\a\\f", "C:\\a\\g", "C:\\a\\b\\h", "D:\\x\\y"]);
    let merges = vec![merge(0, 1, 2), merge(2, 4, 3), merge(3, 5, 4)];
    let names = cluster_names(&p, &merges).unwrap();
    assert_eq!(
        names,
        paths(&["C:\\a\\f", "C:\\a\\g", "C:\\a\\b\\h", "D:\\x\\y", "C:\\a", "C:\\a", "."])
    );
    assert!(cluster_names(&p, &vec![merge(0, 4, 2)]).is_none());
    assert!(cluster_names(&p, &vec![merge(0, 1, 2), merge(6, 2, 3)]).is_none());
    assert_eq!(cluster_names(&p, &vec![]).unwrap(), p);
}

#[test]
fn clusters_are_the_groups_made_before_the_cut() {
    let p = paths(&["C:\\a\\f", "C:\\a\\g", "C:\\a\\b\\h", "D:\\x\\y"]);
    let merges = vec![merge(0, 1, 2), merge(2, 4, 3), merge(3, 5, 4)];
    let clusters = clustering(&p, &merges, 2).unwrap();
    assert_eq!(
        told(&clusters),
        vec![("D:\\x\\y".to_string(), 1, 2), ("C:\\a".to_string(), 3, 2)]
    );
    let clusters = clustering(&p, &merges, 0).unwrap();
    assert_eq!(
        told(&clusters),
        vec![
            ("C:\\a\\f".to_string(), 1, 0),
            ("C:\\a\\g".to_string(), 1, 0),
            ("C:\\a\\b\\h".to_string(), 1, 1),
            ("D:\\x\\y".to_string(), 1, 2),
        ]
    );
    let clusters = clustering(&p, &merges, 1).unwrap();
    assert_eq!(
        told(&clusters),
        vec![
            ("C:\\a\\b\\h".to_string(), 1, 1),
            ("C:\\a".to_string(), 1, 1),
            ("D:\\x\\y".to_string(), 1, 2),
        ]
    );
    assert_eq!(clustering(&p, &merges, 3).unwrap().len(), 0);
    assert!(clustering(&p, &merges, 4).is_none());
    assert!(clustering(&p, &vec![merge(0, 9, 2)], 0).is_none());
}

#[test]
fn few_paths_are_clustered_without_a_dendrogram() {
    assert_eq!(clustering(&paths(&[]), &vec![], 0).unwrap().len(), 0);
    assert_eq!(
        told(&clustering(&paths(&["C:\\a"]), &vec![], 0).unwrap()),
        vec![("C:\\a".to_string(), 1, 0)]
    );
    assert_eq!(
        told(&clustering(&paths(&["C:\\a", "C:\\b"]), &vec![merge(7, 7, 7)], 9).unwrap()),
        vec![("C:\\a".to_string(), 1, 0), ("C:\\b".to_string(), 1, 0)]
    );
    assert_eq!(
        told(&clustering(&paths(&["C:\\a", "C:\\a"]), &vec![], 0).unwrap()),
        vec![("C:\\a".to_string(), 2, 0)]
    );
}
