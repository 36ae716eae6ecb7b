use avim::buffer::Buffer;
use avim::manager::WindowManager;
use avim::window::LayoutNode;

fn leaf_ids(node: &LayoutNode, out: &mut Vec<usize>) {
    if let Some(id) = node.get_window_id() {
        out.push(id);
    } else if let Some((_st, _ratio, children)) = node.get_split_info() {
        assert_eq!(children.len(), 2, "a split must have exactly two children");
        for child in children {
            leaf_ids(child, out);
        }
    }
}

fn collect_leaves(m: &WindowManager) -> Vec<usize> {
    let mut out = Vec::new();
    leaf_ids(m.get_layout_root().expect("layout root missing"), &mut out);
    out
}

fn assert_leaves_match_windows(m: &WindowManager) {
    let mut leaves = collect_leaves(m);
    let n = m.get_window_count();
    assert_eq!(leaves.len(), n, "leaf count must equal window count");
    leaves.sort();
    leaves.dedup();
    assert_eq!(leaves.len(), n, "leaf ids must be unique");
    for id in leaves {
        assert!(id < n, "leaf id must name a live window");
    }
}

#[test]
fn initial_manager_has_one_full_screen_window() {
    let m = WindowManager::new(Buffer::new());
    assert_eq!(m.get_window_count(), 1);
    let b = m.get_window_bounds(0).expect("bounds missing");
    assert_eq!((b.x, b.y, b.width, b.height), (0, 0, 80, 24));
    assert!(m.get_layout_root().unwrap().is_leaf());
    assert_leaves_match_windows(&m);
}

#[test]
fn horizontal_split_halves_the_height() {
    let mut m = WindowManager::new(Buffer::new());
    m.split_horizontal(None).expect("split failed");
    assert_eq!(m.get_window_count(), 2);

    let top = m.get_window_bounds(0).expect("bounds missing");
    assert_eq!((top.x, top.y, top.width, top.height), (0, 0, 80, 12));
    let bottom = m.get_window_bounds(1).expect("bounds missing");
    assert_eq!((bottom.x, bottom.y, bottom.width, bottom.height), (0, 12, 80, 12));
    assert_leaves_match_windows(&m);
}

#[test]
fn vertical_split_halves_the_width() {
    let mut m = WindowManager::new(Buffer::new());
    m.split_vertical(None).expect("split failed");

    let left = m.get_window_bounds(0).expect("bounds missing");
    assert_eq!((left.x, left.y, left.width, left.height), (0, 0, 40, 24));
    let right = m.get_window_bounds(1).expect("bounds missing");
    assert_eq!((right.x, right.y, right.width, right.height), (40, 0, 40, 24));
    assert_leaves_match_windows(&m);
}

#[test]
fn repeated_splits_keep_leaves_matching_windows() {
    let mut m = WindowManager::new(Buffer::new());
    m.split_horizontal(None).unwrap();
    assert_leaves_match_windows(&m);
    m.split_vertical(None).unwrap();
    assert_leaves_match_windows(&m);
    m.next_window();
    m.split_horizontal(None).unwrap();
    assert_leaves_match_windows(&m);
    assert_eq!(m.get_window_count(), 4);
}

#[test]
fn split_without_path_shares_the_buffer() {
    let mut m = WindowManager::new(Buffer::new());
    m.split_horizontal(None).unwrap();
    assert_eq!(m.get_buffers().len(), 1);
}

#[test]
fn split_with_new_buffer_appends_it() {
    let mut m = WindowManager::new(Buffer::new());
    m.split_horizontal(Some(Buffer::from_text("other", None))).unwrap();
    assert_eq!(m.get_buffers().len(), 2);
    assert_eq!(m.get_window_count(), 2);
}

#[test]
fn closing_a_window_shrinks_the_tree_by_one_leaf() {
    let mut m = WindowManager::new(Buffer::new());
    m.split_horizontal(None).unwrap();
    m.split_vertical(None).unwrap();
    assert_eq!(m.get_window_count(), 3);

    let before = collect_leaves(&m).len();
    m.close_window().expect("close failed");
    let after = collect_leaves(&m).len();
    assert_eq!(after, before - 1);
    assert_eq!(m.get_window_count(), 2);
    assert_leaves_match_windows(&m);
}

#[test]
fn closing_the_last_window_fails_and_changes_nothing() {
    let mut m = WindowManager::new(Buffer::from_text("keep", None));
    let err = m.close_window().expect_err("closing the only window must fail");
    assert_eq!(err, "Cannot close the last window");
    assert_eq!(m.get_window_count(), 1);
    assert_eq!(m.get_buffers().len(), 1);
    let b = m.get_window_bounds(0).expect("bounds missing");
    assert_eq!((b.x, b.y, b.width, b.height), (0, 0, 80, 24));
}

#[test]
fn closing_back_to_one_window_restores_full_bounds() {
    let mut m = WindowManager::new(Buffer::new());
    m.split_horizontal(None).unwrap();
    m.close_window().unwrap();
    assert_eq!(m.get_window_count(), 1);
    let b = m.get_window_bounds(0).expect("bounds missing");
    assert_eq!((b.x, b.y, b.width, b.height), (0, 0, 80, 24));
    assert_leaves_match_windows(&m);
}

#[test]
fn next_and_prev_window_cycle() {
    let mut m = WindowManager::new(Buffer::new());
    m.split_horizontal(None).unwrap();
    m.split_horizontal(None).unwrap();
    // active stays at 0 after splits
    m.next_window();
    m.next_window();
    m.next_window();
    // cycled all the way around
    m.prev_window();
    m.prev_window();
    m.prev_window();
    assert_eq!(m.get_window_count(), 3);
}

#[test]
fn navigation_keys_cycle_and_others_do_nothing() {
    let mut m = WindowManager::new(Buffer::new());
    m.split_horizontal(None).unwrap();
    assert!(m.navigate_to_window('h'));
    assert!(m.navigate_to_window('j'));
    assert!(m.navigate_to_window('k'));
    assert!(m.navigate_to_window('l'));
    assert!(!m.navigate_to_window('q'));
}

#[test]
fn cursor_and_viewport_are_stored_per_window() {
    let mut m = WindowManager::new(Buffer::from_text("a\nb\nc", None));
    let mut cursor = m.get_active_cursor();
    cursor.line = 2;
    cursor.col = 1;
    m.set_active_cursor(cursor);
    let back = m.get_active_cursor();
    assert_eq!((back.line, back.col), (2, 1));

    m.set_viewport_offset(5);
    assert_eq!(m.get_viewport_offset(), 5);
}

#[test]
fn active_buffer_follows_the_active_window() {
    let mut m = WindowManager::new(Buffer::from_text("first", None));
    m.split_horizontal(Some(Buffer::from_text("second", None))).unwrap();
    // the new window was appended; the active window is still the first
    let active = m.get_active_window();
    assert_eq!(active.buffer_id, 0);
    m.next_window();
    assert_eq!(m.get_active_window().buffer_id, 1);
    let text: String = m
        .get_active_buffer()
        .get_line(0)
        .unwrap()
        .iter()
        .collect();
    assert_eq!(text, "second");
}

#[test]
fn nested_splits_divide_the_screen_recursively() {
    let mut m = WindowManager::new(Buffer::new());
    m.split_horizontal(None).unwrap();
    // the active window is still the first: the second split divides it
    m.split_horizontal(None).unwrap();

    let a = m.get_window_bounds(0).expect("bounds missing");
    assert_eq!((a.x, a.y, a.width, a.height), (0, 0, 80, 6));
    let c = m.get_window_bounds(2).expect("bounds missing");
    assert_eq!((c.x, c.y, c.width, c.height), (0, 6, 80, 6));
    let b = m.get_window_bounds(1).expect("bounds missing");
    assert_eq!((b.x, b.y, b.width, b.height), (0, 12, 80, 12));
    assert_leaves_match_windows(&m);
}

#[test]
fn closing_the_last_positioned_window_clamps_the_active_index() {
    let mut m = WindowManager::new(Buffer::new());
    m.split_horizontal(None).unwrap();
    m.next_window();
    // the active window is now the final one; closing it must leave a
    // valid active index
    m.close_window().unwrap();
    assert_eq!(m.get_window_count(), 1);
    let _w = m.get_active_window();
}

#[test]
fn a_split_replaces_the_leaf_with_a_half_split_of_old_and_new() {
    let mut m = WindowManager::new(Buffer::new());
    m.split_horizontal(None).unwrap();
    let root = m.get_layout_root().expect("layout root missing");
    let (split_type, ratio, children) = root.get_split_info().expect("root must be a split");
    assert_eq!(split_type, avim::window::SplitType::Horizontal);
    assert_eq!((ratio.num, ratio.den), (1, 2));
    assert_eq!(children.len(), 2);
    assert_eq!(children[0].get_window_id(), Some(0));
    assert_eq!(children[1].get_window_id(), Some(1));
}
