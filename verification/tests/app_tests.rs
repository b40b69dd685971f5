use rupss::app_state::AppState;
use rupss::collector::{
    CollectorError, CpuSample, DetailedMemorySample, SystemCollector, VisibleDetailRequest,
};
use rupss::columns::ProcessColumn;
use rupss::config::AppConfigV1;
use rupss::filter::{MetricFilterField, MetricFilterValue, ProcessFilter};
use rupss::input::{
    key_command, AppCommand, KeyAction, KeyCode, KeyEvent, KeyModifiers, MouseEvent,
    MouseEventKind,
};
use rupss::navigation::Rect;
use rupss::snapshot::{
    empty_snapshot, HistoryPoint, ProcessRow, Snapshot, SortDirection, SortKey, SortState,
};
use rupss::view::ViewMode;
use std::collections::HashMap;
use std::time::Instant;

struct IdleCollector;

impl SystemCollector for IdleCollector {
    fn collect_base_snapshot(
        &self,
        _previous_cpu: &HashMap<i32, CpuSample>,
        _now: Instant,
    ) -> Result<(Snapshot, HashMap<i32, CpuSample>, HistoryPoint), CollectorError> {
        Err(CollectorError::ListProcesses)
    }

    fn collect_visible_memory_details(
        &self,
        _pids: &[i32],
        _request: VisibleDetailRequest,
    ) -> HashMap<i32, DetailedMemorySample> {
        HashMap::new()
    }
}

/// Returns a fixed list of processes and loads detailed values of 8 KiB USS
/// and 16 KiB PSS for every process asked for.
struct FixedCollector {
    rows: Vec<ProcessRow>,
}

impl SystemCollector for FixedCollector {
    fn collect_base_snapshot(
        &self,
        _previous_cpu: &HashMap<i32, CpuSample>,
        now: Instant,
    ) -> Result<(Snapshot, HashMap<i32, CpuSample>, HistoryPoint), CollectorError> {
        let mut snapshot = empty_snapshot();
        snapshot.captured_at = now;
        snapshot.processes = self.rows.clone();
        let rss: u64 = self.rows.iter().map(|row| row.rss_bytes).sum();
        Ok((
            snapshot,
            HashMap::new(),
            HistoryPoint {
                rss_bytes: rss,
                swap_bytes: 0,
            },
        ))
    }

    fn collect_visible_memory_details(
        &self,
        pids: &[i32],
        request: VisibleDetailRequest,
    ) -> HashMap<i32, DetailedMemorySample> {
        pids.iter()
            .map(|pid| {
                (
                    *pid,
                    DetailedMemorySample {
                        uss_bytes: request.uss.then_some(8192),
                        pss_bytes: request.pss.then_some(16384),
                        swap_bytes: None,
                    },
                )
            })
            .collect()
    }
}

fn cpu_key(value: f32) -> u32 {
    let value = if value == 0.0 { 0.0 } else { value };
    let bits = value.to_bits();
    if bits & 0x8000_0000 != 0 {
        !bits
    } else {
        bits | 0x8000_0000
    }
}

fn parse_cpu_value(value: &str) -> Option<f32> {
    let number = value.strip_suffix('%').unwrap_or(value);
    let parsed = number.parse::<f32>().ok()?;
    parsed.is_finite().then_some(parsed)
}

fn parse_bytes_value(value: &str) -> Option<u64> {
    let number_len = value
        .char_indices()
        .take_while(|(_, ch)| ch.is_ascii_digit() || *ch == '.')
        .map(|(index, ch)| index + ch.len_utf8())
        .last()?;
    let number = value[..number_len].parse::<f64>().ok()?;
    if !number.is_finite() || number < 0.0 {
        return None;
    }
    let unit = value[number_len..].to_ascii_lowercase();
    let multiplier = match unit.as_str() {
        "" | "b" => 1.0,
        "kb" => 1024.0,
        "mb" => 1024.0 * 1024.0,
        "gb" => 1024.0 * 1024.0 * 1024.0,
        _ => return None,
    };
    let bytes = number * multiplier;
    (bytes <= u64::MAX as f64).then_some(bytes.round() as u64)
}

fn parse_value(field: MetricFilterField, text: &str) -> Option<MetricFilterValue> {
    match field {
        MetricFilterField::Cpu => parse_cpu_value(text).map(|v| MetricFilterValue::Percent(cpu_key(v))),
        _ => parse_bytes_value(text).map(MetricFilterValue::Bytes),
    }
}

fn key(code: KeyCode) -> KeyEvent {
    KeyEvent::new(code, KeyModifiers::none())
}

fn shifted(code: KeyCode) -> KeyEvent {
    KeyEvent::new(code, KeyModifiers::shift_only())
}

fn controlled(code: KeyCode) -> KeyEvent {
    KeyEvent::new(code, KeyModifiers::control_only())
}

fn press(app: &mut AppState<IdleCollector>, event: KeyEvent) -> KeyAction {
    app.handle_key(event, &parse_value)
}

fn sample_row(pid: i32) -> ProcessRow {
    ProcessRow {
        pid,
        ppid: 1,
        owner_uid: 0,
        threads: 1,
        name: "name".to_string(),
        command: "cmd".to_string(),
        rss_bytes: pid as u64,
        uss_bytes: None,
        pss_bytes: Some(pid as u64),
        base_swap_bytes: pid as u64,
        detailed_swap_bytes: None,
        cpu_percent: cpu_key(pid as f32),
    }
}

fn tree_row(pid: i32, ppid: i32) -> ProcessRow {
    let mut row = sample_row(pid);
    row.ppid = ppid;
    row
}

fn new_app() -> AppState<IdleCollector> {
    AppState::new(IdleCollector)
}

fn replace_processes(app: &mut AppState<IdleCollector>, rows: Vec<ProcessRow>) {
    app.data.snapshot.processes = rows;
    app.rebuild_filtered_indexes();
    app.rebuild_tree_rows();
}

fn left_down(column: u16, row: u16) -> MouseEvent {
    MouseEvent {
        kind: MouseEventKind::LeftDown,
        column,
        row,
    }
}

fn wheel(kind: MouseEventKind, column: u16, row: u16) -> MouseEvent {
    MouseEvent { kind, column, row }
}

fn visible_pids_of(app: &AppState<IdleCollector>) -> Vec<i32> {
    app.visible_row_range()
        .filter_map(|visible_index| app.process_index_at_visible_row(visible_index))
        .map(|index| app.data.snapshot.processes[index].pid)
        .collect()
}

#[test]
fn key_command_maps_page_navigation() {
    assert_eq!(
        key_command(key(KeyCode::PageUp), 3, false, false, false, false, false),
        AppCommand::MoveSelection(-3)
    );
    assert_eq!(
        key_command(key(KeyCode::PageDown), 3, false, false, false, false, false),
        AppCommand::MoveSelection(3)
    );
}

#[test]
fn key_command_maps_pause_toggle() {
    assert_eq!(
        key_command(key(KeyCode::Char('p')), 3, false, false, false, false, false),
        AppCommand::TogglePause
    );
}

#[test]
fn key_command_maps_enter_to_process_monitor_from_table() {
    assert_eq!(
        key_command(key(KeyCode::Enter), 3, false, false, false, false, false),
        AppCommand::StartProcessMonitor
    );
}

#[test]
fn key_command_uses_process_monitor_bindings_when_open() {
    assert_eq!(
        key_command(key(KeyCode::Esc), 3, false, false, false, false, true),
        AppCommand::CloseProcessMonitorOverlay
    );
    assert_eq!(
        key_command(key(KeyCode::Char('q')), 3, false, false, false, false, true),
        AppCommand::Quit
    );
    assert_eq!(
        key_command(key(KeyCode::Enter), 3, false, false, false, false, true),
        AppCommand::Noop
    );
}

#[test]
fn key_command_uses_column_picker_bindings_when_open() {
    assert_eq!(
        key_command(key(KeyCode::Down), 3, true, false, false, false, false),
        AppCommand::MoveColumnPicker(1)
    );
    assert_eq!(
        key_command(key(KeyCode::Enter), 3, true, false, false, false, false),
        AppCommand::ToggleSelectedColumn
    );
    assert_eq!(
        key_command(shifted(KeyCode::Up), 3, true, false, false, false, false),
        AppCommand::ReorderSelectedColumn(-1)
    );
    assert_eq!(
        key_command(key(KeyCode::Char('J')), 3, true, false, false, false, false),
        AppCommand::ReorderSelectedColumn(1)
    );
}

#[test]
fn key_command_uses_sort_picker_bindings_when_open() {
    assert_eq!(
        key_command(key(KeyCode::Down), 3, false, true, false, false, false),
        AppCommand::MoveSortPicker(1)
    );
    assert_eq!(
        key_command(key(KeyCode::Enter), 3, false, true, false, false, false),
        AppCommand::ApplySelectedSort
    );
    assert_eq!(
        key_command(key(KeyCode::Esc), 3, false, true, false, false, false),
        AppCommand::CloseOverlay
    );
}

#[test]
fn key_command_uses_filter_modal_bindings_when_open() {
    assert_eq!(
        key_command(key(KeyCode::Char('a')), 3, false, false, true, true, false),
        AppCommand::FilterPushChar('a')
    );
    assert_eq!(
        key_command(key(KeyCode::Backspace), 3, false, false, true, true, false),
        AppCommand::FilterPopChar
    );
    assert_eq!(
        key_command(controlled(KeyCode::Char('u')), 3, false, false, true, true, false),
        AppCommand::FilterClear
    );
    assert_eq!(
        key_command(key(KeyCode::Enter), 3, false, false, true, true, false),
        AppCommand::ToggleFilterEditing
    );
    assert_eq!(
        key_command(key(KeyCode::Char('p')), 3, false, false, true, true, false),
        AppCommand::FilterPushChar('p')
    );
}

#[test]
fn f_opens_filter_modal() {
    let mut app = new_app();

    press(&mut app, key(KeyCode::Char('f')));

    assert!(app.view.filter_modal.open);
}

#[test]
fn enter_opens_process_monitor_and_esc_closes_overlay_only() {
    let mut app = new_app();
    replace_processes(&mut app, vec![sample_row(10)]);

    press(&mut app, key(KeyCode::Enter));
    assert!(app.view.process_monitor_open);
    assert!(app.data.process_monitor.is_some());

    press(&mut app, key(KeyCode::Esc));
    assert!(!app.view.process_monitor_open);
    assert!(app.data.process_monitor.is_some());
}

#[test]
fn enter_closes_other_overlays_when_monitoring() {
    let mut app = new_app();
    replace_processes(&mut app, vec![sample_row(10)]);
    app.view.column_picker_open = true;
    assert!(app.view.column_picker_open);

    app.start_process_monitor_for_selected();

    assert!(!app.view.column_picker_open);
    assert!(app.view.process_monitor_open);
}

#[test]
fn filter_modal_filters_name() {
    let mut app = new_app();
    let mut ssh = sample_row(10);
    ssh.name = "sshd".to_string();
    ssh.command = "/usr/sbin/sshd".to_string();
    let mut postgres = sample_row(20);
    postgres.name = "postgres".to_string();
    postgres.command = "postgres: checkpointer".to_string();
    app.data.snapshot.processes = vec![ssh, postgres];
    app.rebuild_filtered_indexes();

    press(&mut app, key(KeyCode::Char('f')));
    press(&mut app, key(KeyCode::Char('j')));
    press(&mut app, key(KeyCode::Char('j')));
    press(&mut app, key(KeyCode::Enter));
    for ch in "post".chars() {
        press(&mut app, key(KeyCode::Char(ch)));
    }
    press(&mut app, key(KeyCode::Enter));

    assert_eq!(app.view.filtered_indexes, vec![1]);
    assert_eq!(app.selected_pid(), Some(20));
}

#[test]
fn filter_modal_filters_metric_threshold() {
    let mut app = new_app();
    let mut small = sample_row(10);
    small.rss_bytes = 99 * 1024 * 1024;
    let mut large = sample_row(20);
    large.rss_bytes = 100 * 1024 * 1024;
    app.data.snapshot.processes = vec![small, large];
    app.rebuild_filtered_indexes();

    press(&mut app, key(KeyCode::Char('f')));
    for _ in 0..4 {
        press(&mut app, key(KeyCode::Char('j')));
    }
    press(&mut app, key(KeyCode::Enter));
    for ch in "100MB".chars() {
        press(&mut app, key(KeyCode::Char(ch)));
    }
    press(&mut app, key(KeyCode::Enter));

    assert_eq!(app.view.filtered_indexes, vec![1]);
    assert_eq!(app.selected_pid(), Some(20));
}

#[test]
fn filter_modal_backspace_and_ctrl_u_update_visible_rows() {
    let mut app = new_app();
    let mut alpha = sample_row(10);
    alpha.name = "alpha".to_string();
    let mut beta = sample_row(20);
    beta.name = "beta".to_string();
    app.data.snapshot.processes = vec![alpha, beta];
    app.rebuild_filtered_indexes();

    press(&mut app, key(KeyCode::Char('f')));
    assert_eq!(app.view.filter_modal.selected, 0);
    press(&mut app, key(KeyCode::Char('j')));
    press(&mut app, key(KeyCode::Char('j')));
    assert_eq!(app.view.filter_modal.selected, 2);
    press(&mut app, key(KeyCode::Enter));
    assert!(app.view.filter_modal.editing);
    press(&mut app, key(KeyCode::Char('a')));
    press(&mut app, key(KeyCode::Char('l')));
    assert_eq!(app.view.filtered_indexes, vec![0]);

    press(&mut app, key(KeyCode::Backspace));
    assert_eq!(app.view.filtered_indexes, vec![0, 1]);

    press(&mut app, controlled(KeyCode::Char('u')));
    assert_eq!(app.view.filtered_indexes, vec![0, 1]);
}

#[test]
fn filtered_flat_navigation_moves_between_matching_process_indexes() {
    let mut app = new_app();
    let mut first = sample_row(10);
    first.name = "skip".to_string();
    let mut second = sample_row(20);
    second.name = "target-a".to_string();
    let mut third = sample_row(30);
    third.name = "skip".to_string();
    let mut fourth = sample_row(40);
    fourth.name = "target-b".to_string();
    app.data.snapshot.processes = vec![first, second, third, fourth];
    app.rebuild_filtered_indexes();

    press(&mut app, key(KeyCode::Char('f')));
    press(&mut app, key(KeyCode::Char('j')));
    press(&mut app, key(KeyCode::Char('j')));
    press(&mut app, key(KeyCode::Enter));
    for ch in "target".chars() {
        press(&mut app, key(KeyCode::Char(ch)));
    }
    press(&mut app, key(KeyCode::Enter));
    press(&mut app, key(KeyCode::Esc));

    assert_eq!(app.view.filtered_indexes, vec![1, 3]);
    assert_eq!(app.selected_pid(), Some(20));

    press(&mut app, key(KeyCode::Char('j')));
    assert_eq!(app.selected_pid(), Some(40));

    press(&mut app, key(KeyCode::Char('k')));
    assert_eq!(app.selected_pid(), Some(20));

    press(&mut app, key(KeyCode::Down));
    assert_eq!(app.selected_pid(), Some(40));

    press(&mut app, key(KeyCode::Up));
    assert_eq!(app.selected_pid(), Some(20));
}

#[test]
fn filtered_flat_ensure_visible_uses_visible_position_not_process_index() {
    let mut app = new_app();
    app.data.snapshot.processes = (10..70).step_by(10).map(sample_row).collect();
    app.view.filter = ProcessFilter::from_text_query("name", &parse_value);
    app.rebuild_filtered_indexes();
    app.view.filtered_indexes = vec![1, 3, 5];
    app.view.selected = 5;
    app.view.viewport_rows = 2;

    app.ensure_visible();

    assert_eq!(app.view.scroll_offset, 1);
}

#[test]
fn sort_direction_toggles_on_same_key() {
    let mut app = new_app();
    app.data.snapshot.processes = vec![sample_row(1), sample_row(2)];
    app.view.sort_state = SortState::new(SortKey::Rss, SortDirection::Descending);

    press(&mut app, key(KeyCode::Char('s')));
    press(&mut app, key(KeyCode::Enter));
    assert_eq!(app.view.sort_state.direction, SortDirection::Ascending);

    press(&mut app, key(KeyCode::Enter));
    assert_eq!(app.view.sort_state.direction, SortDirection::Descending);
}

#[test]
fn sort_direction_resets_on_new_key() {
    let mut app = new_app();
    app.data.snapshot.processes = vec![sample_row(1), sample_row(2)];
    app.view.sort_state = SortState::new(SortKey::Rss, SortDirection::Descending);

    press(&mut app, key(KeyCode::Char('s')));
    app.view.sort_picker_index = 0;
    press(&mut app, key(KeyCode::Enter));
    assert_eq!(app.view.sort_state.key, SortKey::Pid);
    assert_eq!(app.view.sort_state.direction, SortDirection::Ascending);
}

#[test]
fn old_sort_shortcuts_do_not_resort_from_table() {
    let mut app = new_app();
    app.data.snapshot.processes = vec![sample_row(1), sample_row(2)];
    app.view.sort_state = SortState::new(SortKey::Rss, SortDirection::Descending);

    press(&mut app, key(KeyCode::Char('i')));
    press(&mut app, key(KeyCode::Char('r')));
    press(&mut app, key(KeyCode::Char('c')));

    assert_eq!(
        app.view.sort_state,
        SortState::new(SortKey::Rss, SortDirection::Descending)
    );
}

#[test]
fn j_and_k_move_selection() {
    let mut app = new_app();
    app.data.snapshot.processes = vec![sample_row(1), sample_row(2), sample_row(3)];
    app.set_viewport_rows(3);
    app.view.selected = 1;

    assert_eq!(press(&mut app, key(KeyCode::Char('j'))), KeyAction::Continue);
    assert_eq!(app.view.selected, 2);

    assert_eq!(press(&mut app, key(KeyCode::Char('j'))), KeyAction::Continue);
    assert_eq!(app.view.selected, 2);

    assert_eq!(press(&mut app, key(KeyCode::Char('k'))), KeyAction::Continue);
    assert_eq!(app.view.selected, 1);

    assert_eq!(press(&mut app, key(KeyCode::Char('k'))), KeyAction::Continue);
    assert_eq!(app.view.selected, 0);
}

#[test]
fn q_requests_quit() {
    let mut app = new_app();
    assert_eq!(press(&mut app, key(KeyCode::Char('q'))), KeyAction::Quit);
}

#[test]
fn left_click_selects_visible_row() {
    let mut app = new_app();
    app.data.snapshot.processes = vec![sample_row(10), sample_row(20), sample_row(30)];
    app.set_viewport_rows(3);
    app.set_process_table_area(Rect::new(0, 0, 40, 8));

    app.handle_mouse(left_down(5, 3));

    assert_eq!(app.view.selected, 1);
}

#[test]
fn click_outside_data_rows_does_not_change_selection() {
    let mut app = new_app();
    app.data.snapshot.processes = vec![sample_row(10), sample_row(20), sample_row(30)];
    app.set_viewport_rows(3);
    app.set_process_table_area(Rect::new(0, 0, 40, 8));
    app.view.selected = 2;

    app.handle_mouse(left_down(5, 1));
    app.handle_mouse(left_down(0, 3));
    app.handle_mouse(left_down(5, 7));

    assert_eq!(app.view.selected, 2);
}

fn four_rows_app() -> AppState<IdleCollector> {
    let mut app = new_app();
    app.data.snapshot.processes = vec![
        sample_row(10),
        sample_row(20),
        sample_row(30),
        sample_row(40),
    ];
    app
}

#[test]
fn wheel_scroll_up_changes_offset_not_selected() {
    let mut app = four_rows_app();
    app.set_viewport_rows(2);
    app.set_process_table_area(Rect::new(0, 0, 40, 8));
    app.view.selected = 3;
    app.view.scroll_offset = 2;

    app.handle_mouse(wheel(MouseEventKind::ScrollUp, 10, 3));

    assert_eq!(app.view.scroll_offset, 1);
    assert_eq!(app.view.selected, 3);
}

#[test]
fn wheel_scroll_down_changes_offset_not_selected() {
    let mut app = four_rows_app();
    app.set_viewport_rows(2);
    app.set_process_table_area(Rect::new(0, 0, 40, 8));
    app.view.selected = 0;
    app.view.scroll_offset = 0;

    app.handle_mouse(wheel(MouseEventKind::ScrollDown, 10, 3));

    assert_eq!(app.view.scroll_offset, 1);
    assert_eq!(app.view.selected, 0);
}

#[test]
fn wheel_scroll_clamps_at_bounds() {
    let mut app = four_rows_app();
    app.set_viewport_rows(2);
    app.set_process_table_area(Rect::new(0, 0, 40, 8));
    app.view.scroll_offset = 0;

    app.handle_mouse(wheel(MouseEventKind::ScrollUp, 10, 3));
    assert_eq!(app.view.scroll_offset, 0);

    app.view.scroll_offset = 2;
    app.handle_mouse(wheel(MouseEventKind::ScrollDown, 10, 3));
    assert_eq!(app.view.scroll_offset, 2);
}

#[test]
fn wheel_outside_table_does_not_change_state() {
    let mut app = four_rows_app();
    app.set_viewport_rows(2);
    app.set_process_table_area(Rect::new(0, 0, 40, 8));
    app.view.selected = 2;
    app.view.scroll_offset = 1;

    app.handle_mouse(wheel(MouseEventKind::ScrollDown, 41, 3));

    assert_eq!(app.view.scroll_offset, 1);
    assert_eq!(app.view.selected, 2);
}

#[test]
fn wheel_on_table_border_is_handled() {
    let mut app = four_rows_app();
    app.set_viewport_rows(2);
    app.set_process_table_area(Rect::new(5, 2, 40, 8));
    app.view.scroll_offset = 0;

    app.handle_mouse(wheel(MouseEventKind::ScrollDown, 5, 2));

    assert_eq!(app.view.scroll_offset, 1);
}

#[test]
fn set_viewport_rows_does_not_force_selected_visible() {
    let mut app = new_app();
    app.data.snapshot.processes = vec![
        sample_row(10),
        sample_row(20),
        sample_row(30),
        sample_row(40),
        sample_row(50),
    ];
    app.view.selected = 0;
    app.view.scroll_offset = 2;

    app.set_viewport_rows(2);

    assert_eq!(app.view.scroll_offset, 2);
    assert_eq!(app.view.selected, 0);
}

#[test]
fn restore_selection_without_ensure_visible_keeps_scroll_offset() {
    let mut app = new_app();
    app.data.snapshot.processes = vec![
        sample_row(10),
        sample_row(20),
        sample_row(30),
        sample_row(40),
        sample_row(50),
    ];
    app.set_viewport_rows(2);
    app.view.selected = 0;
    app.view.scroll_offset = 3;

    app.restore_selection(Some(10), false);

    assert_eq!(app.view.selected, 0);
    assert_eq!(app.view.scroll_offset, 3);
}

#[test]
fn tree_gutter_click_toggles_expansion() {
    let mut app = new_app();
    app.view.sort_state = SortState::new(SortKey::Pid, SortDirection::Ascending);
    app.data.snapshot.processes = vec![tree_row(1, 0), tree_row(2, 1), tree_row(3, 0)];
    app.rebuild_tree_rows();
    press(&mut app, key(KeyCode::Char('t')));
    app.set_viewport_rows(5);
    app.set_process_table_area(Rect::new(0, 0, 120, 8));
    let (name_start, _) = app.name_column_bounds().unwrap();

    app.handle_mouse(left_down(name_start, 2));

    assert_eq!(visible_pids_of(&app), vec![1, 2, 3]);
}

#[test]
fn tree_name_branch_click_selects_without_toggling() {
    let mut app = new_app();
    app.view.sort_state = SortState::new(SortKey::Pid, SortDirection::Ascending);
    app.data.snapshot.processes = vec![tree_row(1, 0), tree_row(2, 1), tree_row(3, 0)];
    app.rebuild_tree_rows();
    app.tree.expanded_pids.insert(1);
    app.rebuild_tree_rows();
    press(&mut app, key(KeyCode::Char('t')));
    app.set_viewport_rows(5);
    app.set_process_table_area(Rect::new(0, 0, 120, 8));
    let (name_start, _) = app.name_column_bounds().unwrap();

    app.handle_mouse(left_down(name_start, 3));

    assert_eq!(app.selected_pid(), Some(2));
    assert_eq!(visible_pids_of(&app), vec![1, 2, 3]);
}

#[test]
fn v_toggles_column_picker() {
    let mut app = new_app();

    assert!(!app.view.column_picker_open);
    press(&mut app, key(KeyCode::Char('v')));
    assert!(app.view.column_picker_open);
    press(&mut app, key(KeyCode::Char('v')));
    assert!(!app.view.column_picker_open);
}

#[test]
fn s_toggles_sort_picker() {
    let mut app = new_app();

    assert!(!app.view.sort_picker_open);
    press(&mut app, key(KeyCode::Char('s')));
    assert!(app.view.sort_picker_open);
    press(&mut app, key(KeyCode::Char('s')));
    assert!(!app.view.sort_picker_open);
}

#[test]
fn p_toggles_pause() {
    let mut app = new_app();

    assert!(!app.is_paused());
    press(&mut app, key(KeyCode::Char('p')));
    assert!(app.is_paused());
    press(&mut app, key(KeyCode::Char('p')));
    assert!(!app.is_paused());
}

#[test]
fn opening_one_picker_closes_the_other() {
    let mut app = new_app();

    press(&mut app, key(KeyCode::Char('v')));
    assert!(app.view.column_picker_open);

    press(&mut app, key(KeyCode::Char('s')));

    assert!(!app.view.column_picker_open);
    assert!(app.view.sort_picker_open);
}

#[test]
fn sort_picker_can_move_selection() {
    let mut app = new_app();
    press(&mut app, key(KeyCode::Char('s')));

    press(&mut app, key(KeyCode::Char('j')));

    assert_eq!(app.view.sort_picker_index, 6);

    press(&mut app, key(KeyCode::Char('k')));

    assert_eq!(app.view.sort_picker_index, 5);
}

#[test]
fn column_picker_can_toggle_visible_column() {
    let mut app = new_app();
    press(&mut app, key(KeyCode::Char('v')));
    app.view.column_picker_index = 5;

    press(&mut app, key(KeyCode::Enter));

    assert!(!app.view.columns.is_visible(ProcessColumn::Command));
}

#[test]
fn hiding_sorted_column_falls_back_to_rss_sort() {
    let mut app = new_app();
    app.data.snapshot.processes = vec![sample_row(1), sample_row(2)];
    app.view.sort_state = SortState::new(SortKey::Pid, SortDirection::Ascending);
    press(&mut app, key(KeyCode::Char('v')));
    app.view.column_picker_index = 0;

    press(&mut app, key(KeyCode::Enter));

    assert_eq!(
        app.view.sort_state,
        SortState::new(SortKey::Rss, SortDirection::Descending)
    );
}

#[test]
fn column_picker_reorders_selected_column() {
    let mut app = new_app();
    press(&mut app, key(KeyCode::Char('v')));
    app.view.column_picker_index = 0;

    press(&mut app, shifted(KeyCode::Down));

    assert_eq!(app.view.column_picker_index, 1);
    assert_eq!(app.visible_columns()[0], ProcessColumn::Ppid);
    assert_eq!(app.visible_columns()[1], ProcessColumn::Pid);
}

#[test]
fn owner_name_falls_back_to_numeric_uid() {
    let app = new_app();

    assert_eq!(app.owner_name(u32::MAX), u32::MAX.to_string());
}

#[test]
fn last_error_keeps_typed_collector_error() {
    let mut app = new_app();
    app.data.last_error = Some(CollectorError::ReadMeminfo);

    assert!(matches!(app.last_error(), Some(CollectorError::ReadMeminfo)));
}

#[test]
fn last_error_message_formats_collector_error_for_display() {
    let mut app = new_app();
    app.data.last_error = Some(CollectorError::ListProcesses);

    assert_eq!(
        app.last_error_message().as_deref(),
        Some("failed to enumerate /proc processes")
    );
}

#[test]
fn visible_pids_uses_flat_viewport_slice() {
    let mut app = new_app();
    app.data.snapshot.processes = vec![sample_row(10), sample_row(20), sample_row(30)];
    app.view.scroll_offset = 1;
    app.view.viewport_rows = 2;

    assert_eq!(app.visible_pids(), vec![20, 30]);
}

#[test]
fn visible_pids_uses_tree_visible_rows() {
    let mut app = new_app();
    app.view.sort_state = SortState::new(SortKey::Pid, SortDirection::Ascending);
    app.data.snapshot.processes = vec![tree_row(1, 0), tree_row(2, 1), tree_row(3, 0)];
    app.tree.expanded_pids.insert(1);
    app.rebuild_tree_rows();
    app.view.view_mode = ViewMode::Tree;
    app.view.viewport_rows = 3;

    assert_eq!(app.visible_pids(), vec![1, 2, 3]);
}

#[test]
fn detail_request_is_empty_when_heavy_columns_hidden() {
    let mut app = new_app();
    assert!(app.view.columns.toggle(ProcessColumn::Uss));
    assert!(app.view.columns.toggle(ProcessColumn::Pss));

    let request = app.detail_request();
    assert!(!request.needs_any());
}

#[test]
fn process_monitor_replaces_prior_target() {
    let mut app = new_app();
    replace_processes(&mut app, vec![sample_row(10), sample_row(20)]);
    app.view.selected = 0;
    app.start_process_monitor_for_selected();

    app.view.selected = 1;
    app.start_process_monitor_for_selected();

    let monitor = app.process_monitor().unwrap();
    assert_eq!(monitor.pid, 20);
    assert_eq!(monitor.history.len(), 1);
}

#[test]
fn process_monitor_records_heavy_values_when_columns_hidden() {
    let mut app = new_app();
    let mut row = sample_row(10);
    row.uss_bytes = Some(123);
    row.pss_bytes = Some(456);
    assert!(app.view.columns.toggle(ProcessColumn::Uss));
    assert!(app.view.columns.toggle(ProcessColumn::Pss));

    app.record_process_monitor_row(&row);

    let monitor = app.process_monitor().unwrap();
    assert_eq!(monitor.latest.uss_bytes, Some(123));
    assert_eq!(monitor.latest.pss_bytes, Some(456));
    assert_eq!(app.process_monitor_uss_points(), vec![(0, 123)]);
    assert_eq!(app.process_monitor_pss_points(), vec![(0, 456)]);
}

#[test]
fn process_monitor_marks_missing_without_adding_zero_sample() {
    let mut app = new_app();
    let row = sample_row(10);
    app.record_process_monitor_row(&row);
    app.data.snapshot.processes.clear();

    app.record_process_monitor_sample();

    let monitor = app.process_monitor().unwrap();
    assert!(monitor.missing);
    assert_eq!(monitor.history.len(), 1);
    assert_eq!(monitor.latest.rss_bytes, 10);
}

#[test]
fn config_roundtrips_view_preferences() {
    let mut app = new_app();
    app.view.columns.move_in_order(0, 1);
    app.view.columns.toggle(ProcessColumn::Uss);
    app.view.sort_state = SortState::new(SortKey::Pid, SortDirection::Ascending);
    app.view.view_mode = ViewMode::Tree;
    app.view.filter_modal.name = "postgres".to_string();
    app.view.filter_modal.rss_value = "100MB".to_string();

    let stored = AppConfigV1::from_app(&app);

    let mut restored = new_app();
    stored.apply_to_app(&mut restored, &parse_value);

    assert_eq!(restored.view.columns.ordered_columns()[0], ProcessColumn::Ppid);
    assert!(!restored.view.columns.is_visible(ProcessColumn::Uss));
    assert_eq!(
        restored.view.sort_state,
        SortState::new(SortKey::Pid, SortDirection::Ascending)
    );
    assert_eq!(restored.view.view_mode, ViewMode::Tree);
    assert_eq!(restored.view.filter_modal.name, "postgres");
    assert!(restored.view.filter.is_active());
}

#[test]
fn invalid_config_values_fall_back_to_defaults() {
    let mut config = AppConfigV1::default();
    config.view_mode = "grid".to_string();
    config.sort.key = "missing".to_string();
    config.sort.direction = "sideways".to_string();
    let mut app = new_app();
    config.apply_to_app(&mut app, &parse_value);

    assert_eq!(
        app.view.sort_state,
        SortState::new(SortKey::Rss, SortDirection::Descending)
    );
    assert_eq!(app.view.view_mode, ViewMode::Flat);
}

#[test]
fn refresh_loads_sorts_and_records_history() {
    let mut rows = vec![sample_row(10), sample_row(30), sample_row(20)];
    rows[0].rss_bytes = 5;
    let mut app = AppState::new(FixedCollector { rows });
    app.refresh();

    assert!(app.last_error().is_none());
    let pids: Vec<i32> = app.data.snapshot.processes.iter().map(|row| row.pid).collect();
    assert_eq!(pids, vec![30, 20, 10]);
    assert_eq!(app.rss_history().len(), 1);
    assert_eq!(app.rss_history().back(), Some(&55));
    assert_eq!(app.selected_pid(), Some(30));
    // The shown columns ask for USS and PSS of the visible rows.
    assert_eq!(app.data.snapshot.processes[0].uss_bytes, Some(8192));
    assert_eq!(app.data.snapshot.processes[0].pss_bytes, Some(16384));
}

#[test]
fn refresh_failure_keeps_the_snapshot_and_reports_the_error() {
    let mut app = new_app();
    replace_processes(&mut app, vec![sample_row(10)]);
    app.refresh();

    assert_eq!(app.last_error(), Some(CollectorError::ListProcesses));
    assert_eq!(app.data.snapshot.processes.len(), 1);
    assert!(app.rss_history().is_empty());
}

#[test]
fn resort_marks_preferences_changed_once() {
    let mut app = new_app();
    replace_processes(&mut app, vec![sample_row(1), sample_row(2)]);
    assert!(!app.take_config_changed());
    app.resort(SortKey::Pid);
    assert!(app.take_config_changed());
    assert!(!app.take_config_changed());
    let pids: Vec<i32> = app.data.snapshot.processes.iter().map(|row| row.pid).collect();
    assert_eq!(pids, vec![1, 2]);
}

#[test]
fn home_and_end_jump_to_the_listed_ends() {
    let mut app = new_app();
    replace_processes(&mut app, vec![sample_row(1), sample_row(2), sample_row(3)]);
    app.set_viewport_rows(2);
    press(&mut app, key(KeyCode::End));
    assert_eq!(app.view.selected, 2);
    assert_eq!(app.view.scroll_offset, 1);
    press(&mut app, key(KeyCode::Home));
    assert_eq!(app.view.selected, 0);
    assert_eq!(app.view.scroll_offset, 0);
}

#[test]
fn escape_closes_every_overlay() {
    let mut app = new_app();
    press(&mut app, key(KeyCode::Char('v')));
    press(&mut app, key(KeyCode::Esc));
    assert!(!app.view.column_picker_open);
    press(&mut app, key(KeyCode::Char('f')));
    assert!(app.view.filter_modal.open);
    press(&mut app, key(KeyCode::Esc));
    assert!(!app.view.filter_modal.open);
}

#[test]
fn applied_snapshot_is_sorted_and_extends_history() {
    let mut app = new_app();
    app.view.selected = 0;
    let mut snapshot = empty_snapshot();
    snapshot.processes = vec![sample_row(10), sample_row(30), sample_row(20)];
    snapshot.system.process_count = 3;
    let mut cpu = HashMap::new();
    cpu.insert(10, CpuSample { total_time_ticks: 7, captured_at: Instant::now() });
    let point = HistoryPoint { rss_bytes: 60, swap_bytes: 5 };
    app.apply_base_snapshot(Ok((snapshot, cpu, point)), Some(20));
    assert!(app.last_error().is_none());
    let pids: Vec<i32> = app.snapshot().processes.iter().map(|row| row.pid).collect();
    assert_eq!(pids, vec![30, 20, 10]);
    assert_eq!(app.snapshot().system.process_count, 3);
    assert_eq!(app.data.previous_cpu.len(), 1);
    assert_eq!(app.rss_history().iter().copied().collect::<Vec<_>>(), vec![60]);
    assert_eq!(app.swap_history().iter().copied().collect::<Vec<_>>(), vec![5]);
    assert_eq!(app.selected_pid(), Some(20));
}

#[test]
fn failed_snapshot_keeps_everything_but_the_error() {
    let mut app = new_app();
    replace_processes(&mut app, vec![sample_row(1), sample_row(2)]);
    app.push_history(HistoryPoint { rss_bytes: 3, swap_bytes: 4 });
    app.apply_base_snapshot(Err(CollectorError::ReadMeminfo), Some(1));
    assert!(matches!(app.last_error(), Some(CollectorError::ReadMeminfo)));
    assert_eq!(app.snapshot().processes.len(), 2);
    assert_eq!(app.rss_history().iter().copied().collect::<Vec<_>>(), vec![3]);
    assert_eq!(app.swap_history().iter().copied().collect::<Vec<_>>(), vec![4]);
}

#[test]
fn resort_rebuilds_the_tree_in_the_new_order() {
    let mut app = new_app();
    app.view.sort_state = SortState::new(SortKey::Pid, SortDirection::Ascending);
    replace_processes(&mut app, vec![tree_row(1, 0), tree_row(2, 0), tree_row(3, 0)]);
    press(&mut app, key(KeyCode::Char('t')));
    app.set_viewport_rows(5);
    assert_eq!(visible_pids_of(&app), vec![1, 2, 3]);
    app.resort(SortKey::Pid);
    assert_eq!(app.sort_state(), SortState::new(SortKey::Pid, SortDirection::Descending));
    assert_eq!(visible_pids_of(&app), vec![3, 2, 1]);
}

#[test]
fn typing_a_filter_relists_the_rows_and_keeps_the_selection() {
    let mut app = new_app();
    let mut rows = vec![sample_row(1), sample_row(2), sample_row(3)];
    rows[1].name = "bash".to_string();
    rows[2].name = "bash".to_string();
    replace_processes(&mut app, rows);
    app.view.selected = 2;
    press(&mut app, key(KeyCode::Char('f')));
    press(&mut app, key(KeyCode::Down));
    press(&mut app, key(KeyCode::Down));
    press(&mut app, key(KeyCode::Enter));
    for ch in "bash".chars() {
        press(&mut app, key(KeyCode::Char(ch)));
    }
    assert_eq!(app.view.filtered_indexes, vec![1, 2]);
    assert_eq!(app.selected_pid(), Some(3));
}
