use dfs_host::file_index::FileIndex;

fn sorted(mut v: Vec<(String, u32)>) -> Vec<(String, u32)> {
    v.sort();
    v
}

#[test]
fn a_new_index_knows_nothing() {
    let index = FileIndex::new();
    assert_eq!(index.get("a"), None);
    assert!(!index.contains("a"));
    assert!(index.snapshot().is_empty());
}

#[test]
fn insert_then_get() {
    let mut index = FileIndex::new();
    assert_eq!(index.insert("a".to_string(), 1), None);
    assert_eq!(index.insert("b".to_string(), 2), None);
    assert_eq!(index.get("a"), Some(1));
    assert_eq!(index.get("b"), Some(2));
    assert_eq!(index.get("c"), None);
    assert!(index.contains("a"));
}

#[test]
fn insert_replaces_the_owner() {
    let mut index = FileIndex::new();
    index.insert("a".to_string(), 1);
    assert_eq!(index.insert("a".to_string(), 5), Some(1));
    assert_eq!(index.get("a"), Some(5));
    assert_eq!(index.snapshot().len(), 1);
}

#[test]
fn remove_forgets_the_path() {
    let mut index = FileIndex::new();
    index.insert("a".to_string(), 1);
    assert_eq!(index.remove("a"), Some(1));
    assert_eq!(index.get("a"), None);
    assert_eq!(index.remove("a"), None);
}

#[test]
fn update_moves_the_owner_to_the_new_path() {
    let mut index = FileIndex::new();
    index.insert("x".to_string(), 3);
    assert_eq!(index.update("x", "y".to_string()), Some(3));
    assert_eq!(index.get("x"), None);
    assert_eq!(index.get("y"), Some(3));
}

#[test]
fn update_of_an_unknown_path_changes_nothing() {
    let mut index = FileIndex::new();
    index.insert("a".to_string(), 1);
    assert_eq!(index.update("x", "y".to_string()), None);
    assert_eq!(index.get("y"), None);
    assert_eq!(sorted(index.snapshot()), vec![("a".to_string(), 1)]);
}

#[test]
fn update_to_the_same_path_keeps_the_entry() {
    let mut index = FileIndex::new();
    index.insert("a".to_string(), 1);
    assert_eq!(index.update("a", "a".to_string()), Some(1));
    assert_eq!(index.get("a"), Some(1));
}

#[test]
fn init_replaces_everything() {
    let mut index = FileIndex::new();
    index.insert("old".to_string(), 9);
    index.init(&vec![("a".to_string(), 0), ("b".to_string(), 1), ("a".to_string(), 2)]);
    assert_eq!(index.get("old"), None);
    assert_eq!(index.get("a"), Some(2));
    assert_eq!(index.get("b"), Some(1));
    assert_eq!(index.snapshot().len(), 2);
}

#[test]
fn lists_of_changes_are_applied_in_order() {
    let mut index = FileIndex::new();
    index.insert_all(&vec![("a".to_string(), 0), ("b".to_string(), 1), ("c".to_string(), 2)]);
    index.remove_all(&vec!["b".to_string(), "nope".to_string()]);
    index.update_all(&vec![
        ("a".to_string(), "d".to_string()),
        ("d".to_string(), "e".to_string()),
        ("gone".to_string(), "f".to_string()),
    ]);
    assert_eq!(
        sorted(index.snapshot()),
        vec![("c".to_string(), 2), ("e".to_string(), 0)]
    );
}

#[test]
fn snapshot_lists_each_entry_once() {
    let mut index = FileIndex::new();
    for i in 0..50u32 {
        index.insert(format!("file{}", i), i % 3);
    }
    let snap = sorted(index.snapshot());
    assert_eq!(snap.len(), 50);
    for (path, owner) in &snap {
        assert_eq!(index.get(path), Some(*owner));
    }
    let mut copy = FileIndex::new();
    copy.init(&snap);
    assert_eq!(sorted(copy.snapshot()), snap);
}
