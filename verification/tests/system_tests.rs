use rupss::collector::{detailed_sample, history_point, process_totals, rss_bytes, swap_bytes, system_summary, total_ticks};
use rupss::config::{
    parse_metric_operator, parse_sort_direction, parse_sort_key, parse_view_mode,
    sort_direction_id, sort_key_id, view_mode_id, FilterConfigV1, SortConfigV1,
};
use rupss::filter::{FilterModalState, MetricFilterOperator};
use rupss::owners::{owner_display_name, OwnerNameCache, OwnerNameResolver};
use rupss::snapshot::{ProcessRow, SortDirection, SortKey, SortState};
use rupss::view::ViewMode;
use users::{get_current_uid, get_user_by_uid};

fn row(pid: i32, rss: u64, swap: u64) -> ProcessRow {
    ProcessRow {
        pid,
        ppid: 1,
        owner_uid: 0,
        threads: 1,
        name: "n".to_string(),
        command: "c".to_string(),
        rss_bytes: rss,
        uss_bytes: None,
        pss_bytes: None,
        base_swap_bytes: swap,
        detailed_swap_bytes: None,
        cpu_percent: 0,
    }
}

#[test]
fn resolves_current_uid_from_users_database() {
    let resolver = OwnerNameCache::new();
    let uid = get_current_uid();
    let expected = get_user_by_uid(uid)
        .map(|user| user.name().to_string_lossy().into_owned())
        .unwrap_or_else(|| uid.to_string());

    assert_eq!(resolver.owner_name(uid), expected);
}

#[test]
fn falls_back_to_numeric_uid_when_user_is_missing() {
    let resolver = OwnerNameCache::new();
    let missing_uid = u32::MAX;

    assert_eq!(resolver.owner_name(missing_uid), missing_uid.to_string());
}

#[test]
fn owner_display_prefers_the_account_name() {
    assert_eq!(owner_display_name(Some("alice".to_string()), 1000), "alice");
    assert_eq!(owner_display_name(None, 1000), "1000");
    assert_eq!(owner_display_name(None, 0), "0");
}

#[test]
fn memory_readings_convert_to_bytes() {
    assert_eq!(rss_bytes(Some(4), 100, 4096), 4096);
    assert_eq!(rss_bytes(None, 3, 4096), 12288);
    assert_eq!(swap_bytes(Some(2)), 2048);
    assert_eq!(swap_bytes(None), 0);
    assert_eq!(total_ticks(5, 7), 12);
    assert_eq!(total_ticks(u64::MAX, 1), u64::MAX);
}

#[test]
fn summary_totals_the_rows_and_derives_used_memory() {
    let rows = vec![row(1, 10, 1), row(2, 20, 2), row(3, u64::MAX, 0)];
    assert_eq!(process_totals(&rows[..2]), (30, 3));
    assert_eq!(process_totals(&rows), (u64::MAX, 3));

    let summary = system_summary(1000, Some(300), 100, 500, 600, &rows[..2]);
    assert_eq!(summary.mem_used, 700);
    assert_eq!(summary.swap_used, 0);
    assert_eq!(summary.total_process_rss, 30);
    assert_eq!(summary.total_process_swap, 3);
    assert_eq!(summary.process_count, 2);

    let without_available = system_summary(1000, None, 100, 500, 200, &[]);
    assert_eq!(without_available.mem_used, 900);
    assert_eq!(without_available.swap_used, 300);

    let point = history_point(&summary);
    assert_eq!(point.rss_bytes, 30);
    assert_eq!(point.swap_bytes, 3);
}

#[test]
fn identifiers_round_trip_and_unknown_ones_fall_back() {
    for key in [
        SortKey::Pid,
        SortKey::Ppid,
        SortKey::Owner,
        SortKey::Name,
        SortKey::Command,
        SortKey::Rss,
        SortKey::Swap,
        SortKey::Cpu,
    ] {
        assert_eq!(parse_sort_key(sort_key_id(key)), key);
    }
    assert_eq!(parse_sort_key("nope"), SortKey::Rss);
    for direction in [SortDirection::Ascending, SortDirection::Descending] {
        assert_eq!(parse_sort_direction(sort_direction_id(direction)), Some(direction));
    }
    assert_eq!(parse_sort_direction("sideways"), None);
    assert_eq!(parse_view_mode(view_mode_id(ViewMode::Tree)), ViewMode::Tree);
    assert_eq!(parse_view_mode("grid"), ViewMode::Flat);
    assert_eq!(parse_metric_operator("less_than"), MetricFilterOperator::LessThan);
    assert_eq!(
        parse_metric_operator("bogus"),
        MetricFilterOperator::GreaterThanOrEqual
    );
}

#[test]
fn sort_config_reads_back_the_stored_state() {
    let state = SortState::new(SortKey::Cpu, SortDirection::Ascending);
    assert_eq!(SortConfigV1::from_sort_state(state).to_sort_state(), state);
    let mut stored = SortConfigV1::default();
    assert_eq!(
        stored.to_sort_state(),
        SortState::new(SortKey::Rss, SortDirection::Descending)
    );
    stored.key = "name".to_string();
    stored.direction = "unknown".to_string();
    assert_eq!(
        stored.to_sort_state(),
        SortState::new(SortKey::Name, SortDirection::Ascending)
    );
}

#[test]
fn filter_config_reads_back_the_modal_texts() {
    let mut modal = FilterModalState::default();
    modal.open = true;
    modal.selected = 3;
    modal.name = "db".to_string();
    modal.cpu_op = MetricFilterOperator::LessThan;
    modal.cpu_value = "5".to_string();
    let stored = FilterConfigV1::from_modal(&modal);

    let mut loaded = FilterModalState::default();
    loaded.error = Some("old".to_string());
    stored.apply_to_modal(&mut loaded);
    assert!(!loaded.open);
    assert_eq!(loaded.selected, 0);
    assert_eq!(loaded.error, None);
    assert_eq!(loaded.name, "db");
    assert_eq!(loaded.cpu_op, MetricFilterOperator::LessThan);
    assert_eq!(loaded.cpu_value, "5");
    assert_eq!(loaded.rss_op, MetricFilterOperator::GreaterThanOrEqual);
}

#[test]
fn sort_state_toggles_and_labels() {
    let mut state = SortState::new(SortKey::Rss, SortDirection::Descending);
    state.toggle_key(SortKey::Rss);
    assert_eq!(state.direction, SortDirection::Ascending);
    state.toggle_key(SortKey::Name);
    assert_eq!(state, SortState::new(SortKey::Name, SortDirection::Ascending));
    state.toggle_key(SortKey::Cpu);
    assert_eq!(state, SortState::new(SortKey::Cpu, SortDirection::Descending));
    state.toggle();
    state.toggle();
    assert_eq!(state.direction, SortDirection::Descending);
    assert_eq!(ViewMode::Flat.toggle().toggle(), ViewMode::Flat);
    assert_eq!(ViewMode::Flat.toggle(), ViewMode::Tree);
    assert_eq!(
        SortState::new(SortKey::Rss, SortDirection::Descending).label().as_str(),
        "rss desc"
    );
    assert_eq!(
        SortState::new(SortKey::Ppid, SortDirection::Ascending).label().as_str(),
        "ppid asc"
    );
}

#[test]
fn unique_set_is_the_private_pages() {
    let sample = detailed_sample(Some(4096), Some(8192), Some(6000), None);
    assert_eq!(sample.uss_bytes, Some(12288));
    assert_eq!(sample.pss_bytes, Some(6000));
    assert_eq!(sample.swap_bytes, None);
    assert_eq!(detailed_sample(None, None, None, Some(5)).uss_bytes, Some(0));
    assert_eq!(detailed_sample(Some(u64::MAX), Some(1), None, None).uss_bytes, Some(u64::MAX));
}
