use history_tree::HistoryTree;
use history_tree::Record;

#[test]
fn root_is_zero() {
    let t = HistoryTree::new();
    assert_eq!(t.root(), 0);
    assert_eq!(t.records.len(), 1);
    assert_eq!(t.cursor, None);
}

#[test]
fn cursor_tracks_latest() {
    let mut t = HistoryTree::new();
    assert_eq!(t.cursor(), 0);
    t.add(0);
    assert_eq!(t.cursor(), 1);
    t.add(0);
    assert_eq!(t.cursor(), 2);
}

#[test]
fn scenario_add_change_delete_undo() {
    let mut t = HistoryTree::new();
    let a = t.add(0);
    let b = t.add(0);
    assert_eq!(a, 1);
    assert_eq!(b, 2);
    assert_eq!(t.children(0), vec![1, 2]);

    let mut h = a;
    t.change(&mut h);
    assert_eq!(h, 3);
    assert_eq!(t.children(0), vec![2, 3]);

    t.delete(b);
    assert_eq!(t.children(0), vec![3]);

    t.undo();
    assert_eq!(t.children(0), vec![2, 3]);

    t.undo();
    assert_eq!(t.children(0), vec![1, 2]);
}

#[test]
fn indices_monotonic() {
    let mut t = HistoryTree::new();
    let a = t.add(0);
    let b = t.add(a);
    assert!(b > a);
    let mut h = a;
    t.change(&mut h);
    assert!(h > b);
    t.delete(b);
    assert_eq!(t.records.len() - 1, h + 1);
}

#[test]
fn edit_after_undo_truncates_and_clears_redo() {
    let mut t = HistoryTree::new();
    t.add(0);
    t.add(0);
    t.add(0);
    assert_eq!(t.records.len(), 4);
    t.undo();
    t.undo();
    assert_eq!(t.cursor(), 1);
    let n = t.add(0);
    assert_eq!(n, 2);
    assert_eq!(t.records.len(), 3);
    assert_eq!(t.children(0), vec![1, 2]);
    t.redo();
    assert_eq!(t.cursor(), 2);
    assert_eq!(t.children(0), vec![1, 2]);
}

#[test]
fn change_preserves_parent_linkage() {
    let mut t = HistoryTree::new();
    let a = t.add(0);
    let mut h = a;
    t.change(&mut h);
    assert_eq!(h, 2);
    assert_eq!(t.children(0), vec![2]);
}

#[test]
fn change_carries_children_to_new_handle() {
    let mut t = HistoryTree::new();
    let a = t.add(0);
    let child = t.add(a);
    let mut h = a;
    t.change(&mut h);
    assert_eq!(h, 3);
    assert_eq!(t.children(h), vec![child]);
    assert_eq!(t.children(0), vec![3]);
}

#[test]
fn delete_hides_and_undo_restores() {
    let mut t = HistoryTree::new();
    let a = t.add(0);
    let b = t.add(0);
    t.delete(a);
    assert_eq!(t.children(0), vec![b]);
    t.undo();
    assert_eq!(t.children(0), vec![a, b]);
}

#[test]
fn delete_tombstone_not_listed() {
    let mut t = HistoryTree::new();
    let a = t.add(0);
    t.delete(a);
    let tomb = t.records.len() - 1;
    let cs = t.children(0);
    assert!(!cs.contains(&a));
    assert!(!cs.contains(&tomb));
    assert_eq!(cs, Vec::<usize>::new());
}

#[test]
fn children_sorted_one_version_per_node() {
    let mut t = HistoryTree::new();
    let a = t.add(0);
    let b = t.add(0);
    let c = t.add(0);
    let mut h = b;
    t.change(&mut h);
    t.change(&mut h);
    let cs = t.children(0);
    assert_eq!(cs, vec![a, c, h]);
    for w in cs.windows(2) {
        assert!(w[0] < w[1]);
    }
    assert!(!cs.contains(&b));
}

#[test]
fn undo_redo_round_trip() {
    let mut t = HistoryTree::new();
    t.add(0);
    t.add(0);
    let before_cursor = t.cursor();
    let before_children = t.children(0);
    t.undo();
    t.redo();
    assert_eq!(t.cursor(), before_cursor);
    assert_eq!(t.children(0), before_children);
}

#[test]
fn undo_on_fresh_tree_is_noop() {
    let mut t = HistoryTree::new();
    t.undo();
    assert_eq!(t.cursor(), 0);
    assert_eq!(t.children(0), Vec::<usize>::new());
    t.redo();
    assert_eq!(t.cursor(), 0);
}

#[test]
fn undo_stops_at_root() {
    let mut t = HistoryTree::new();
    t.add(0);
    t.undo();
    t.undo();
    t.undo();
    assert_eq!(t.cursor(), 0);
    assert_eq!(t.children(0), Vec::<usize>::new());
}

#[test]
fn redo_at_latest_is_noop() {
    let mut t = HistoryTree::new();
    t.add(0);
    t.redo();
    assert_eq!(t.cursor(), 1);
    assert_eq!(t.cursor, None);
}

#[test]
fn redo_walks_forward_to_latest() {
    let mut t = HistoryTree::new();
    t.add(0);
    t.add(0);
    t.undo();
    t.undo();
    assert_eq!(t.children(0), Vec::<usize>::new());
    t.redo();
    assert_eq!(t.children(0), vec![1]);
    t.redo();
    assert_eq!(t.children(0), vec![1, 2]);
    assert_eq!(t.cursor, Some(2));
    t.redo();
    assert_eq!(t.cursor, None);
    assert_eq!(t.children(0), vec![1, 2]);
}

#[test]
fn children_of_parent_beyond_cursor_empty() {
    let mut t = HistoryTree::new();
    let a = t.add(0);
    t.undo();
    assert_eq!(t.children(a), Vec::<usize>::new());
    assert_eq!(t.children(100), Vec::<usize>::new());
}

#[test]
fn nested_children() {
    let mut t = HistoryTree::new();
    let a = t.add(0);
    let b = t.add(a);
    let c = t.add(a);
    let d = t.add(b);
    assert_eq!(t.children(0), vec![a]);
    assert_eq!(t.children(a), vec![b, c]);
    assert_eq!(t.children(b), vec![d]);
    assert_eq!(t.children(c), Vec::<usize>::new());
}

#[test]
fn well_formedness_check() {
    let mut t = HistoryTree::new();
    assert!(t.is_well_formed());
    t.add(0);
    let mut h = t.add(0);
    t.change(&mut h);
    t.undo();
    assert!(t.is_well_formed());

    let empty = HistoryTree { records: Vec::new(), cursor: None };
    assert!(!empty.is_well_formed());

    let forward_link = HistoryTree {
        records: vec![
            Record { prev: 0, parent: 0, remove: false },
            Record { prev: 5, parent: 0, remove: false },
        ],
        cursor: None,
    };
    assert!(!forward_link.is_well_formed());

    let cursor_out_of_range = HistoryTree {
        records: vec![Record { prev: 0, parent: 0, remove: false }],
        cursor: Some(3),
    };
    assert!(!cursor_out_of_range.is_well_formed());
}
