use rupss::labels::centered_rect;
use rupss::navigation::{
    boundary_selection, clamp_scroll_offset, ensure_visible_scroll, is_inside_table,
    move_visible_index, restored_selection, table_hit_test, Rect,
};
use rupss::snapshot::ProcessRow;
use rupss::tree::TreeRow;
use rupss::view::{visible_row_range, ViewMode};

fn sample_row(pid: i32) -> ProcessRow {
    ProcessRow {
        pid,
        ppid: 1,
        owner_uid: 0,
        threads: 1,
        name: "name".to_string(),
        command: "cmd".to_string(),
        rss_bytes: pid as u64,
        uss_bytes: None,
        pss_bytes: None,
        base_swap_bytes: 0,
        detailed_swap_bytes: None,
        cpu_percent: 0,
    }
}

#[test]
fn clamp_scroll_offset_limits_to_last_page() {
    assert_eq!(clamp_scroll_offset(8, 10, 3), 7);
    assert_eq!(clamp_scroll_offset(2, 2, 5), 0);
}

#[test]
fn ensure_visible_scroll_moves_to_show_selected_row() {
    assert_eq!(ensure_visible_scroll(1, 4, 3, 10), 1);
    assert_eq!(ensure_visible_scroll(8, 4, 3, 10), 6);
}

#[test]
fn restored_selection_prefers_matching_pid() {
    let processes = vec![sample_row(10), sample_row(20), sample_row(30)];
    assert_eq!(restored_selection(Some(20), &processes), 1);
    assert_eq!(restored_selection(Some(99), &processes), 0);
    assert_eq!(restored_selection(None, &[]), 0);
}

#[test]
fn move_visible_index_clamps_at_edges() {
    assert_eq!(move_visible_index(Some(1), 2, 4), Some(3));
    assert_eq!(move_visible_index(Some(1), -3, 4), Some(0));
    assert_eq!(move_visible_index(None, 1, 4), None);
}

#[test]
fn boundary_selection_uses_tree_rows_in_tree_mode() {
    let tree_rows = vec![
        TreeRow {
            process_index: 4,
            depth: 0,
            has_children: false,
            expanded: false,
            parent_index: None,
            is_last_sibling: false,
            ancestor_has_next_sibling: Vec::new(),
        },
        TreeRow {
            process_index: 7,
            depth: 0,
            has_children: false,
            expanded: false,
            parent_index: None,
            is_last_sibling: true,
            ancestor_has_next_sibling: Vec::new(),
        },
    ];

    assert_eq!(boundary_selection(ViewMode::Tree, 10, &tree_rows, true), 4);
    assert_eq!(boundary_selection(ViewMode::Tree, 10, &tree_rows, false), 7);
    assert_eq!(boundary_selection(ViewMode::Flat, 3, &tree_rows, false), 2);
}

#[test]
fn table_hit_test_returns_visible_row_index() {
    let area = Rect::new(5, 2, 40, 8);
    assert_eq!(table_hit_test(area, 10, 4), Some(0));
    assert_eq!(table_hit_test(area, 10, 5), Some(1));
    assert_eq!(table_hit_test(area, 4, 4), None);
}

#[test]
fn visible_row_range_clamps_to_last_page() {
    assert_eq!(visible_row_range(1, 2, 5), 1..3);
    assert_eq!(visible_row_range(10, 2, 5), 5..5);
}

#[test]
fn centered_rect_stays_within_frame() {
    assert_eq!(
        centered_rect(Rect::new(0, 0, 20, 8), 36, 15),
        Rect::new(1, 1, 18, 6)
    );
}

#[test]
fn centered_rect_centres_a_small_popup() {
    assert_eq!(
        centered_rect(Rect::new(10, 4, 80, 24), 36, 15),
        Rect::new(32, 8, 36, 15)
    );
    assert_eq!(centered_rect(Rect::new(0, 0, 2, 2), 36, 15), Rect::new(0, 0, 1, 1));
}

#[test]
fn table_hit_test_rejects_tiny_areas_and_borders() {
    assert_eq!(table_hit_test(Rect::new(0, 0, 2, 8), 1, 3), None);
    assert_eq!(table_hit_test(Rect::new(0, 0, 40, 3), 1, 2), None);
    let area = Rect::new(5, 2, 40, 8);
    assert_eq!(table_hit_test(area, 10, 3), None);
    assert_eq!(table_hit_test(area, 10, 8), Some(4));
    assert_eq!(table_hit_test(area, 10, 9), None);
    assert_eq!(table_hit_test(area, 43, 4), Some(0));
    assert_eq!(table_hit_test(area, 44, 4), None);
}

#[test]
fn is_inside_table_includes_the_border() {
    let area = Rect::new(5, 2, 40, 8);
    assert!(is_inside_table(area, 5, 2));
    assert!(is_inside_table(area, 44, 9));
    assert!(!is_inside_table(area, 45, 9));
    assert!(!is_inside_table(area, 4, 2));
    assert!(!is_inside_table(area, 10, 10));
}

#[test]
fn ensure_visible_scroll_shows_the_row_it_scrolls_to() {
    // A row below the viewport becomes its last row; one above becomes its
    // first; the offset never passes the last page.
    for total in 1..12usize {
        for viewport in 0..6usize {
            for offset in 0..14usize {
                for selected in 0..total {
                    let next = ensure_visible_scroll(selected, offset, viewport, total);
                    let rows = viewport.max(1);
                    assert!(next <= total.saturating_sub(rows));
                    assert!(next <= selected && selected < next + rows);
                }
            }
        }
    }
}

#[test]
fn move_visible_index_handles_empty_lists() {
    assert_eq!(move_visible_index(Some(0), 1, 0), None);
    assert_eq!(move_visible_index(Some(2), 10, 4), Some(3));
}

#[test]
fn boundary_selection_of_empty_lists_is_zero() {
    assert_eq!(boundary_selection(ViewMode::Tree, 10, &[], true), 0);
    assert_eq!(boundary_selection(ViewMode::Flat, 0, &[], false), 0);
    assert_eq!(boundary_selection(ViewMode::Flat, 5, &[], true), 0);
}
