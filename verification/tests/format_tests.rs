use rupss::format::{
    format_bytes, format_bytes_si, format_option_bytes, format_option_bytes_si, truncate_owned,
};
use rupss::columns::ProcessColumn;
use rupss::filter::{FilterModalState, FilterRow, MetricFilterOperator};
use rupss::labels::{
    chart_y_upper_bound, column_picker_line, filter_hint, filter_modal_title, filter_row_line,
    format_tree_name, memory_line, pad_right, pause_hint, process_cell_text, process_line,
    process_table_title, signed_decimal_string, sort_picker_line, status_label, swap_line,
};
use rupss::snapshot::{empty_snapshot, ProcessRow, SortDirection, SortKey, SortState};
use rupss::view::ViewMode;
use rupss::tree::TreeRow;

fn float_label(bytes: u64, units: &[&str], base: f64) -> String {
    let mut value = bytes as f64;
    let mut unit_idx = 0usize;
    while value >= base && unit_idx < units.len() - 1 {
        value /= base;
        unit_idx += 1;
    }
    if unit_idx == 0 {
        format!("{} {}", bytes, units[unit_idx])
    } else {
        format!("{value:.1} {}", units[unit_idx])
    }
}

fn float_binary(bytes: u64) -> String {
    float_label(bytes, &["B", "KiB", "MiB", "GiB", "TiB"], 1024.0)
}

fn float_si(bytes: u64) -> String {
    float_label(bytes, &["B", "kB", "MB", "GB", "TB"], 1000.0)
}

fn sample_inputs() -> Vec<u64> {
    let mut values = vec![
        0,
        1,
        999,
        1000,
        1023,
        1024,
        1025,
        1075,
        1076,
        1126,
        1127,
        1280,
        1536,
        1792,
        2_250,
        2_750,
        2047,
        2048,
        999_949,
        999_950,
        1_048_575,
        1_048_576,
        5 * 1024 * 1024,
        1_073_741_823,
        1_099_511_627_775,
        1_099_511_627_776,
        (1u64 << 53) - 1,
        1u64 << 53,
        (1u64 << 53) + 1,
        (1u64 << 53) + 3,
        u64::MAX,
        u64::MAX - 1024,
        u64::MAX / 3,
        9_999_999_999_999_999,
        123_456_789_012_345_678,
    ];
    let mut x: u64 = 0x9E37_79B9_7F4A_7C15;
    for shift in 0..64u32 {
        x ^= x << 13;
        x ^= x >> 7;
        x ^= x << 17;
        values.push(x >> shift);
        values.push((x >> shift).wrapping_add(512));
        values.push((1u64 << (shift % 64)) + (x % 1000));
    }
    for k in 1..5u32 {
        for base in [1000u64, 1024u64] {
            let unit = base.pow(k);
            for tenths in [0u64, 4, 5, 6, 14, 15, 16, 25, 95, 99] {
                values.push(unit + unit * tenths / 100);
                values.push(unit * 9 + unit * tenths / 100);
                values.push((unit * 999).saturating_add(unit * tenths / 100));
            }
        }
    }
    values
}

#[test]
fn formats_binary_units() {
    assert_eq!(format_bytes(200), "200 B");
    assert_eq!(format_bytes(2048), "2.0 KiB");

    assert_eq!(format_bytes(5 * 1024 * 1024), "5.0 MiB");
    assert_eq!(format_bytes(5 * 1024 * 1024 * 1024), "5.0 GiB");
    assert_eq!(format_bytes(5 * 1024 * 1024 * 1024 * 1024), "5.0 TiB");
}

#[test]
fn formats_si_units() {
    assert_eq!(format_bytes_si(200), "200 B");
    assert_eq!(format_bytes_si(2_000), "2.0 kB");
    assert_eq!(format_bytes_si(5_000_000), "5.0 MB");
    assert_eq!(format_bytes_si(5_000_000_000), "5.0 GB");
    assert_eq!(format_bytes_si(5_000_000_000_000), "5.0 TB");
}

#[test]
fn formats_optional_si_units() {
    assert_eq!(format_option_bytes_si(Some(2_000)).as_str(), "2.0 kB");
    assert_eq!(format_option_bytes_si(None).as_str(), "N/A");
}

#[test]
fn formats_optional_binary_units() {
    assert_eq!(format_option_bytes(Some(1536)), "1.5 KiB");
    assert_eq!(format_option_bytes(None), "N/A");
}

#[test]
fn binary_labels_round_to_the_nearest_tenth() {
    assert_eq!(format_bytes(1023), "1023 B");
    assert_eq!(format_bytes(1024), "1.0 KiB");
    assert_eq!(format_bytes(1536), "1.5 KiB");
    assert_eq!(format_bytes(1075), "1.0 KiB");
    assert_eq!(format_bytes(1076), "1.1 KiB");
    assert_eq!(format_bytes(u64::MAX), "16777216.0 TiB");
}

#[test]
fn si_labels_stop_at_the_largest_unit() {
    assert_eq!(format_bytes_si(999), "999 B");
    assert_eq!(format_bytes_si(999_949), "999.9 kB");
    assert_eq!(format_bytes_si(u64::MAX), "18446744.1 TB");
}

#[test]
fn binary_labels_match_floating_point_formatting() {
    for bytes in sample_inputs() {
        assert_eq!(format_bytes(bytes), float_binary(bytes), "bytes = {bytes}");
    }
}

#[test]
fn si_labels_match_floating_point_formatting() {
    for bytes in sample_inputs() {
        assert_eq!(format_bytes_si(bytes), float_si(bytes), "bytes = {bytes}");
    }
}

#[test]
fn truncates_without_panicking() {
    assert_eq!(truncate_owned("abcdef", 4), "abcd");
    assert_eq!(truncate_owned("abc", 8), "abc");
}

#[test]
fn truncation_counts_characters_not_bytes() {
    assert_eq!(truncate_owned("äöüß", 2), "äö");
    assert_eq!(truncate_owned("", 3), "");
    assert_eq!(truncate_owned("abc", 0), "");
}

#[test]
fn chart_upper_bound_uses_total_when_non_zero() {
    assert_eq!(chart_y_upper_bound(1024), 1024);
}

#[test]
fn chart_upper_bound_falls_back_to_one_for_zero() {
    assert_eq!(chart_y_upper_bound(0), 1);
}

#[test]
fn format_tree_name_renders_root_toggle_without_leading_padding() {
    let root = TreeRow {
        process_index: 0,
        depth: 0,
        has_children: true,
        expanded: false,
        parent_index: None,
        is_last_sibling: false,
        ancestor_has_next_sibling: Vec::new(),
    };

    assert_eq!(format_tree_name(&root, "init"), "[+] init");
}

#[test]
fn format_tree_name_uses_branch_markers() {
    let parent = TreeRow {
        process_index: 0,
        depth: 1,
        has_children: true,
        expanded: false,
        parent_index: Some(0),
        is_last_sibling: false,
        ancestor_has_next_sibling: vec![true],
    };
    let leaf = TreeRow {
        process_index: 1,
        depth: 2,
        has_children: false,
        expanded: false,
        parent_index: Some(0),
        is_last_sibling: true,
        ancestor_has_next_sibling: vec![true, false],
    };

    assert_eq!(format_tree_name(&parent, "bash"), "│  ├─[+] bash");
    assert_eq!(format_tree_name(&leaf, "worker"), "│     └─ worker");
}

#[test]
fn format_tree_name_of_plain_root_is_the_name() {
    let root = TreeRow {
        process_index: 0,
        depth: 0,
        has_children: false,
        expanded: false,
        parent_index: None,
        is_last_sibling: true,
        ancestor_has_next_sibling: Vec::new(),
    };
    let open = TreeRow {
        process_index: 0,
        depth: 0,
        has_children: true,
        expanded: true,
        parent_index: None,
        is_last_sibling: true,
        ancestor_has_next_sibling: Vec::new(),
    };

    assert_eq!(format_tree_name(&root, "init"), "init");
    assert_eq!(format_tree_name(&open, "init"), "[-] init");
}

#[test]
fn title_hints_describe_the_state() {
    assert_eq!(pause_hint(true), "p:resume");
    assert_eq!(pause_hint(false), "p:pause");
    assert_eq!(status_label(true), "paused");
    assert_eq!(status_label(false), "running");
    assert_eq!(filter_hint(true, true, true, false), " filter[edit] !");
    assert_eq!(filter_hint(true, false, false, true), " filter[nav]");
    assert_eq!(filter_hint(false, false, false, true), " filter[on]");
    assert_eq!(filter_hint(false, true, true, false), " filter[-]");
}

#[test]
fn padding_fills_to_the_width() {
    assert_eq!(pad_right("PID", 8), "PID     ");
    assert_eq!(pad_right("COMMANDS!", 8), "COMMANDS!");
    assert_eq!(pad_right("é", 3), "é  ");
}

#[test]
fn filter_modal_lines_match_their_layout() {
    let mut modal = FilterModalState::default();
    modal.name = "post".to_string();
    modal.rss_op = MetricFilterOperator::LessThan;
    modal.rss_value = "100MB".to_string();
    assert_eq!(filter_row_line(&modal, FilterRow::Name), format!("{:<8} {}", "NAME", "post"));
    assert_eq!(filter_row_line(&modal, FilterRow::Pid), format!("{:<8} {}", "PID", "-"));
    assert_eq!(
        filter_row_line(&modal, FilterRow::Rss),
        format!("{:<8} {:<2} {}", "RSS", "<", "100MB")
    );
    assert_eq!(
        filter_row_line(&modal, FilterRow::Cpu),
        format!("{:<8} {:<2} {}", "CPU", ">=", "-")
    );

    assert_eq!(filter_modal_title(&modal), "Filter (nav)  j/k:move  Enter:edit  h/l:op  Esc:close");
    modal.selected = 4;
    modal.editing = true;
    assert_eq!(
        filter_modal_title(&modal),
        "Filter (edit)  j/k:move  Enter:edit  h/l:op  Esc:close  units: B/KB/MB/GB (1024-base), cpu: % optional"
    );
    modal.error = Some("invalid rss value".to_string());
    assert_eq!(
        filter_modal_title(&modal),
        "Filter (edit)  j/k:move  Enter:edit  h/l:op  Esc:close  error: invalid rss value"
    );
}

#[test]
fn picker_lines_mark_the_active_and_fixed_entries() {
    let state = SortState::new(SortKey::Rss, SortDirection::Ascending);
    assert_eq!(sort_picker_line(SortKey::Rss, state), format!("> {:<8} {}", "RSS", "asc"));
    assert_eq!(sort_picker_line(SortKey::Cpu, state), format!("  {:<8} {}", "CPU", "desc"));
    assert_eq!(sort_picker_line(SortKey::Name, state), format!("  {:<8} {}", "NAME", "asc"));
    assert_eq!(column_picker_line(ProcessColumn::Name, true), "[x] NAME (fixed)");
    assert_eq!(column_picker_line(ProcessColumn::Uss, false), "[ ] USS");
}

#[test]
fn summary_lines_show_sizes_and_state() {
    let mut system = empty_snapshot().system;
    system.mem_total = 8 * 1024 * 1024 * 1024;
    system.mem_used = 3 * 1024 * 1024 * 1024;
    system.mem_available = Some(5 * 1024 * 1024 * 1024);
    system.mem_free = 1536;
    system.swap_total = 2048;
    system.swap_used = 1024;
    system.swap_free = 1024;
    system.process_count = 12;
    system.total_process_rss = 1_048_576;
    assert_eq!(memory_line(&system), "used 3.0 GiB / total 8.0 GiB / avail 5.0 GiB / free 1.5 KiB");
    system.mem_available = None;
    assert_eq!(memory_line(&system), "used 3.0 GiB / total 8.0 GiB / avail N/A / free 1.5 KiB");
    assert_eq!(swap_line(&system), "used 1.0 KiB / total 2.0 KiB / free 1.0 KiB");
    let state = SortState::new(SortKey::Pid, SortDirection::Ascending);
    assert_eq!(
        process_line(&system, 7, state, ViewMode::Tree, true, Some(42), 15),
        "count 12 / shown 7 / agg-rss 1.0 MiB / agg-swap 0 B / sort pid asc / mode tree / status paused / selected 42 / age 15ms"
    );
    assert_eq!(
        process_line(&system, 0, state, ViewMode::Flat, false, None, 0),
        "count 12 / shown 0 / agg-rss 1.0 MiB / agg-swap 0 B / sort pid asc / mode flat / status running / selected - / age 0ms"
    );
    assert!(process_line(&system, 0, state, ViewMode::Flat, false, Some(-3), 0).contains("selected -3 /"));
}

#[test]
fn signed_decimals_match_to_string() {
    for n in [0i64, 7, -7, 1234567, -1234567, i64::MAX, i64::MIN] {
        assert_eq!(signed_decimal_string(n), n.to_string());
    }
}

#[test]
fn process_cells_show_each_column() {
    let row = ProcessRow {
        pid: 4321,
        ppid: -1,
        owner_uid: 1000,
        threads: 12,
        name: "bash".to_string(),
        command: "/usr/bin/bash -l".to_string(),
        rss_bytes: 2048,
        uss_bytes: Some(1536),
        pss_bytes: None,
        base_swap_bytes: 1024,
        detailed_swap_bytes: Some(3072),
        cpu_percent: 0,
    };
    let cell = |column| process_cell_text(column, &row, "|- bash", "alice");
    assert_eq!(cell(ProcessColumn::Pid).as_deref(), Some("4321"));
    assert_eq!(cell(ProcessColumn::Ppid).as_deref(), Some("-1"));
    assert_eq!(cell(ProcessColumn::Owner).as_deref(), Some("alice"));
    assert_eq!(cell(ProcessColumn::Thread).as_deref(), Some("12"));
    assert_eq!(cell(ProcessColumn::Name).as_deref(), Some("|- bash"));
    assert_eq!(cell(ProcessColumn::Command).as_deref(), Some("/usr/bin/bash -l"));
    assert_eq!(cell(ProcessColumn::Rss).as_deref(), Some("2.0 KiB"));
    assert_eq!(cell(ProcessColumn::Uss).as_deref(), Some("1.5 KiB"));
    assert_eq!(cell(ProcessColumn::Pss).as_deref(), Some("N/A"));
    assert_eq!(cell(ProcessColumn::Swap).as_deref(), Some("3.0 KiB"));
    assert_eq!(cell(ProcessColumn::Cpu), None);
}

#[test]
fn table_title_carries_hints() {
    assert_eq!(
        process_table_title(false, " filter[-]"),
        "Processes  q:quit  p:pause  f:filter filter[-]  t:tree  v:columns  s:sort  arrows/jk:move  Left/Right:collapse/expand  click:select/toggle  PgUp/PgDn:page"
    );
    assert!(process_table_title(true, " filter[on]").starts_with("Processes  q:quit  p:resume  f:filter filter[on]  t:tree"));
}
