use rupss::app_state::{ancestor_pids_checked, AppState};
use rupss::collector::{
    CollectorError, CpuSample, DetailedMemorySample, SystemCollector, VisibleDetailRequest,
};
use rupss::filter::{MetricFilterField, MetricFilterValue};
use rupss::input::{KeyCode, KeyEvent, KeyModifiers};
use rupss::owners::OwnerNameResolver;
use rupss::snapshot::{HistoryPoint, ProcessRow, Snapshot, SortDirection, SortKey, SortState};
use rupss::tree::{
    _visible_row_entries, build_parent_index, build_pid_to_index, build_process_tree_state,
    expanded_ancestor_pids, selected_tree_visible_index, toggle_pid_expansion, TreeRow,
};
use rupss::view::ViewMode;
use std::collections::{HashMap, HashSet};
use std::time::Instant;

struct TestOwnerLookup;

impl OwnerNameResolver for TestOwnerLookup {
    fn owner_name(&self, uid: u32) -> String {
        uid.to_string()
    }
}

struct IdleCollector;

impl SystemCollector for IdleCollector {
    fn collect_base_snapshot(
        &self,
        _previous_cpu: &HashMap<i32, CpuSample>,
        _now: Instant,
    ) -> Result<(Snapshot, HashMap<i32, CpuSample>, HistoryPoint), CollectorError> {
        Err(CollectorError::ListProcesses)
    }

    fn collect_visible_memory_details(
        &self,
        _pids: &[i32],
        _request: VisibleDetailRequest,
    ) -> HashMap<i32, DetailedMemorySample> {
        HashMap::new()
    }
}

fn no_metric(_field: MetricFilterField, _text: &str) -> Option<MetricFilterValue> {
    None
}

fn cpu_key(value: f32) -> u32 {
    let value = if value == 0.0 { 0.0 } else { value };
    let bits = value.to_bits();
    if bits & 0x8000_0000 != 0 {
        !bits
    } else {
        bits | 0x8000_0000
    }
}

fn tree_row(pid: i32, ppid: i32) -> ProcessRow {
    ProcessRow {
        pid,
        ppid,
        owner_uid: 0,
        threads: 1,
        name: format!("p{pid}"),
        command: format!("cmd{pid}"),
        rss_bytes: pid as u64,
        uss_bytes: None,
        pss_bytes: None,
        base_swap_bytes: 0,
        detailed_swap_bytes: None,
        cpu_percent: cpu_key(pid as f32),
    }
}

fn key(code: KeyCode) -> KeyEvent {
    KeyEvent::new(code, KeyModifiers::none())
}

fn visible_pids(app: &AppState<IdleCollector>) -> Vec<i32> {
    app.visible_row_range()
        .filter_map(|visible_index| app.process_index_at_visible_row(visible_index))
        .map(|index| app.data.snapshot.processes[index].pid)
        .collect()
}

#[test]
fn visible_row_entries_slices_flat_rows() {
    let rows = _visible_row_entries(ViewMode::Flat, 1, 2, 5, &[]);
    let indexes: Vec<usize> = rows.into_iter().map(|row| row.process_index).collect();
    assert_eq!(indexes, vec![1, 2]);
}

#[test]
fn selected_tree_visible_index_finds_selected_process() {
    let rows = vec![
        TreeRow {
            process_index: 4,
            depth: 0,
            has_children: true,
            expanded: true,
            parent_index: None,
            is_last_sibling: false,
            ancestor_has_next_sibling: Vec::new(),
        },
        TreeRow {
            process_index: 7,
            depth: 1,
            has_children: false,
            expanded: false,
            parent_index: Some(4),
            is_last_sibling: true,
            ancestor_has_next_sibling: vec![false],
        },
    ];

    assert_eq!(selected_tree_visible_index(&rows, 7), Some(1));
    assert_eq!(selected_tree_visible_index(&rows, 3), None);
}

#[test]
fn expanded_ancestor_pids_returns_parent_chain() {
    let processes = vec![tree_row(1, 0), tree_row(2, 1), tree_row(3, 2)];
    let parents = vec![None, Some(0), Some(1)];

    assert_eq!(expanded_ancestor_pids(2, &parents, &processes), vec![2, 1]);
}

#[test]
fn build_parent_index_ignores_invalid_self_and_missing_parents() {
    let processes = vec![
        tree_row(1, 0),
        tree_row(2, 1),
        tree_row(3, 3),
        tree_row(4, 99),
    ];
    let pid_to_index = HashMap::from([(1, 0), (2, 1), (3, 2), (4, 3)]);

    assert_eq!(
        build_parent_index(&processes, &pid_to_index),
        vec![None, Some(0), None, None]
    );
}

#[test]
fn build_process_tree_state_keeps_only_known_expanded_pids() {
    let processes = vec![tree_row(1, 0), tree_row(2, 1), tree_row(3, 0)];
    let expanded = HashSet::from([1, 99]);

    let state = build_process_tree_state(
        &processes,
        SortState::new(SortKey::Pid, SortDirection::Ascending),
        &TestOwnerLookup,
        &expanded,
    );

    assert_eq!(state.expanded_pids, HashSet::from([1]));
    let visible: Vec<i32> = state
        .rows
        .into_iter()
        .map(|row| processes[row.process_index].pid)
        .collect();
    assert_eq!(visible, vec![1, 2, 3]);
}

#[test]
fn tree_mode_starts_with_roots_only() {
    let mut app = AppState::new(IdleCollector);
    app.view.sort_state = SortState::new(SortKey::Pid, SortDirection::Ascending);
    app.data.snapshot.processes = vec![
        tree_row(1, 0),
        tree_row(2, 1),
        tree_row(3, 1),
        tree_row(4, 0),
    ];
    app.rebuild_tree_rows();
    app.handle_key(key(KeyCode::Char('t')), &no_metric);

    assert_eq!(app.view.view_mode, ViewMode::Tree);
    assert_eq!(visible_pids(&app), vec![1, 4]);
}

#[test]
fn tree_right_expands_and_left_collapses() {
    let mut app = AppState::new(IdleCollector);
    app.view.sort_state = SortState::new(SortKey::Pid, SortDirection::Ascending);
    app.data.snapshot.processes = vec![tree_row(1, 0), tree_row(2, 1), tree_row(3, 2)];
    app.rebuild_tree_rows();
    app.handle_key(key(KeyCode::Char('t')), &no_metric);

    app.handle_key(key(KeyCode::Right), &no_metric);
    assert_eq!(visible_pids(&app), vec![1, 2]);

    app.handle_key(key(KeyCode::Left), &no_metric);
    assert_eq!(visible_pids(&app), vec![1]);
}

#[test]
fn tree_sort_reorders_siblings_without_breaking_hierarchy() {
    let mut app = AppState::new(IdleCollector);
    let mut parent = tree_row(1, 0);
    parent.rss_bytes = 100;
    let mut child_a = tree_row(2, 1);
    child_a.rss_bytes = 10;
    let mut child_b = tree_row(3, 1);
    child_b.rss_bytes = 50;
    app.data.snapshot.processes = vec![parent, child_a, child_b];
    app.rebuild_tree_rows();
    app.handle_key(key(KeyCode::Char('t')), &no_metric);
    app.handle_key(key(KeyCode::Right), &no_metric);

    assert_eq!(visible_pids(&app), vec![1, 3, 2]);
}

#[test]
fn tree_mode_keeps_multiple_unresolved_roots_visible() {
    let mut app = AppState::new(IdleCollector);
    app.view.sort_state = SortState::new(SortKey::Pid, SortDirection::Ascending);
    app.data.snapshot.processes = vec![
        tree_row(1, 0),
        tree_row(2, 9999),
        tree_row(3, -1),
        tree_row(4, 4),
        tree_row(5, 1),
    ];
    app.rebuild_tree_rows();
    app.handle_key(key(KeyCode::Char('t')), &no_metric);

    assert_eq!(visible_pids(&app), vec![1, 2, 3, 4]);
}

#[test]
fn tree_child_of_non_last_root_tracks_root_vertical_guide() {
    let mut app = AppState::new(IdleCollector);
    app.view.sort_state = SortState::new(SortKey::Pid, SortDirection::Ascending);
    app.data.snapshot.processes = vec![tree_row(1, 0), tree_row(2, 1), tree_row(3, 0)];
    app.tree.expanded_pids.insert(1);
    app.rebuild_tree_rows();
    app.handle_key(key(KeyCode::Char('t')), &no_metric);

    let child = app
        .visible_row_range()
        .filter_map(|visible_index| app.tree_row_at_visible_row(visible_index))
        .find(|row| app.data.snapshot.processes[row.process_index].pid == 2)
        .unwrap();

    assert_eq!(child.ancestor_has_next_sibling, vec![true]);
}

#[test]
fn root_tree_toggle_starts_at_name_column() {
    let row = TreeRow {
        process_index: 0,
        depth: 0,
        has_children: true,
        expanded: false,
        parent_index: None,
        is_last_sibling: false,
        ancestor_has_next_sibling: Vec::new(),
    };

    assert_eq!(row.name_toggle_range(), Some((0, 3)));
}

#[test]
fn toggling_expansion_twice_restores_the_set() {
    let mut expanded = HashSet::from([3, 5]);
    toggle_pid_expansion(&mut expanded, 7);
    assert_eq!(expanded, HashSet::from([3, 5, 7]));
    toggle_pid_expansion(&mut expanded, 7);
    assert_eq!(expanded, HashSet::from([3, 5]));
    toggle_pid_expansion(&mut expanded, 3);
    assert_eq!(expanded, HashSet::from([5]));
}

#[test]
fn pid_index_maps_each_pid_to_its_row() {
    let processes = vec![tree_row(7, 0), tree_row(3, 7), tree_row(9, 3)];
    let map = build_pid_to_index(&processes);
    assert_eq!(map, HashMap::from([(7, 0), (3, 1), (9, 2)]));
}

#[test]
fn tree_rows_of_expanded_tree_follow_depth_first_order() {
    let processes = vec![
        tree_row(1, 0),
        tree_row(2, 1),
        tree_row(3, 2),
        tree_row(4, 1),
        tree_row(5, 0),
    ];
    let expanded = HashSet::from([1, 2]);
    let state = build_process_tree_state(
        &processes,
        SortState::new(SortKey::Pid, SortDirection::Ascending),
        &TestOwnerLookup,
        &expanded,
    );
    let shape: Vec<(i32, usize, bool, bool)> = state
        .rows
        .iter()
        .map(|row| {
            (
                processes[row.process_index].pid,
                row.depth,
                row.has_children,
                row.is_last_sibling,
            )
        })
        .collect();
    assert_eq!(
        shape,
        vec![
            (1, 0, true, false),
            (2, 1, true, false),
            (3, 2, false, true),
            (4, 1, false, true),
            (5, 0, false, true),
        ]
    );
    assert_eq!(state.parents, vec![None, Some(0), Some(1), Some(0), None]);
}

#[test]
fn tree_toggle_of_a_child_row_sits_after_its_guides() {
    let row = TreeRow {
        process_index: 1,
        depth: 2,
        has_children: true,
        expanded: false,
        parent_index: Some(0),
        is_last_sibling: true,
        ancestor_has_next_sibling: vec![true, false],
    };
    assert_eq!(row.name_toggle_range(), Some((8, 3)));
    let leaf = TreeRow {
        process_index: 1,
        depth: 1,
        has_children: false,
        expanded: false,
        parent_index: Some(0),
        is_last_sibling: true,
        ancestor_has_next_sibling: vec![false],
    };
    assert_eq!(leaf.name_toggle_range(), None);
}

#[test]
fn ancestor_pids_stop_on_loops_and_unknown_rows() {
    let rows = vec![tree_row(1, 0), tree_row(10, 1), tree_row(20, 10)];
    let parents = vec![None, Some(0), Some(1)];
    assert_eq!(ancestor_pids_checked(2, &parents, &rows), Some(vec![10, 1]));
    assert_eq!(ancestor_pids_checked(0, &parents, &rows), Some(vec![]));
    let looping = vec![Some(1), Some(0), Some(1)];
    assert_eq!(ancestor_pids_checked(2, &looping, &rows), None);
    let outside = vec![None, Some(7), Some(1)];
    assert_eq!(ancestor_pids_checked(2, &outside, &rows), None);
}
