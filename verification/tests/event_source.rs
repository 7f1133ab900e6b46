use file_watcher::event_source::{event_batch, is_relevant, surviving_paths, ChangeKind};
use file_watcher::path::WatchPath;

fn path(text: &str) -> WatchPath {
    WatchPath::new(text.to_string())
}

#[test]
fn only_create_modify_and_remove_make_a_batch() {
    assert!(is_relevant(ChangeKind::Create));
    assert!(is_relevant(ChangeKind::Modify));
    assert!(is_relevant(ChangeKind::Remove));
    assert!(!is_relevant(ChangeKind::Access));
    assert!(!is_relevant(ChangeKind::Metadata));
    assert!(!is_relevant(ChangeKind::Any));
    assert!(!is_relevant(ChangeKind::Other));
}

#[test]
fn unresolved_paths_are_dropped() {
    let batch = surviving_paths(vec![None, Some(path("/a")), None, Some(path("/b")), Some(path("/a"))]);
    assert_eq!(batch, vec![path("/a"), path("/b"), path("/a")]);
    assert_eq!(surviving_paths(vec![None, None]), Vec::<WatchPath>::new());
    assert_eq!(surviving_paths(Vec::new()), Vec::<WatchPath>::new());
}

#[test]
fn a_relevant_event_makes_a_batch_even_an_empty_one() {
    assert_eq!(
        event_batch(ChangeKind::Modify, vec![Some(path("/proj/src/util.ts"))]),
        Some(vec![path("/proj/src/util.ts")])
    );
    assert_eq!(event_batch(ChangeKind::Remove, vec![None]), Some(Vec::new()));
    assert_eq!(event_batch(ChangeKind::Create, Vec::new()), Some(Vec::new()));
}

#[test]
fn an_ignored_event_makes_no_batch() {
    assert_eq!(event_batch(ChangeKind::Access, vec![Some(path("/a"))]), None);
    assert_eq!(event_batch(ChangeKind::Metadata, vec![Some(path("/a"))]), None);
    assert_eq!(event_batch(ChangeKind::Any, vec![Some(path("/a"))]), None);
    assert_eq!(event_batch(ChangeKind::Other, Vec::new()), None);
}
