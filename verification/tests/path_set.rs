use file_watcher::path::{copy_paths, PathSet, WatchPath};

fn path(text: &str) -> WatchPath {
    WatchPath::new(text.to_string())
}

fn paths(list: &[&str]) -> Vec<WatchPath> {
    list.iter().map(|text| path(text)).collect()
}

#[test]
fn a_path_keeps_its_text() {
    let p = path("/proj/src/util.ts");
    assert_eq!(p.as_str(), "/proj/src/util.ts");
    assert_eq!(p.clone().into_string(), "/proj/src/util.ts".to_string());
}

#[test]
fn paths_are_the_same_by_text() {
    assert!(path("/a").same_as(&path("/a")));
    assert!(!path("/a").same_as(&path("/a/")));
    assert!(!path("/a").same_as(&path("/A")));
}

#[test]
fn a_new_set_is_empty() {
    let set = PathSet::new();
    assert!(set.is_empty());
    assert_eq!(set.len(), 0);
    assert!(!set.contains(&path("/proj/src")));
    assert_eq!(set.to_vec(), Vec::<WatchPath>::new());
}

#[test]
fn registering_a_path_twice_keeps_one() {
    let mut set = PathSet::new();
    assert!(set.insert(path("/proj/src")));
    assert!(!set.insert(path("/proj/src")));
    assert_eq!(set.len(), 1);
    assert!(set.contains(&path("/proj/src")));
    assert_eq!(set.to_vec(), paths(&["/proj/src"]));
}

#[test]
fn registering_a_batch_twice_leaves_the_size() {
    let mut set = PathSet::new();
    let batch = paths(&["/proj/src", "/proj/src/util.ts", "/proj/deps.ts"]);
    let added = set.extend(&batch);
    assert_eq!(added, batch);
    assert_eq!(set.len(), 3);
    let again = set.extend(&batch);
    assert_eq!(again, Vec::<WatchPath>::new());
    assert_eq!(set.len(), 3);
    assert_eq!(set.to_vec(), batch);
}

#[test]
fn extend_keeps_first_appearance_order_and_reports_what_is_new() {
    let mut set = PathSet::new();
    set.insert(path("/b"));
    let added = set.extend(&paths(&["/c", "/b", "/a", "/c", "/a"]));
    assert_eq!(added, paths(&["/c", "/a"]));
    assert_eq!(set.to_vec(), paths(&["/b", "/c", "/a"]));
    assert_eq!(set.len(), 3);
}

#[test]
fn extend_with_nothing_changes_nothing() {
    let mut set = PathSet::new();
    set.insert(path("/a"));
    let added = set.extend(&Vec::new());
    assert!(added.is_empty());
    assert_eq!(set.to_vec(), paths(&["/a"]));
}

#[test]
fn take_all_empties_the_set() {
    let mut set = PathSet::new();
    set.extend(&paths(&["/x", "/y", "/x"]));
    let taken = set.take_all();
    assert_eq!(taken, paths(&["/x", "/y"]));
    assert!(set.is_empty());
    assert_eq!(set.take_all(), Vec::<WatchPath>::new());
    assert!(set.insert(path("/x")));
}

#[test]
fn copy_paths_copies_in_order() {
    let list = paths(&["/2", "/1", "/2"]);
    assert_eq!(copy_paths(&list), list);
    assert_eq!(copy_paths(&Vec::new()), Vec::<WatchPath>::new());
}
