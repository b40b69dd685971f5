use rupss::columns::{
    process_table_columns, process_table_detail_request, ColumnConfigV1, ColumnLayout,
    ColumnVisibility, ProcessColumn,
};
use rupss::view::ViewMode;

const ALL_IDS: [&str; 11] = [
    "pid", "ppid", "owner", "thread", "name", "command", "rss", "uss", "pss", "swap", "cpu",
];

#[test]
fn config_sanitizes_unknown_and_duplicates_and_missing() {
    let config = ColumnConfigV1 {
        version: 1,
        order: vec!["pid".into(), "pid".into(), "unknown".into(), "name".into()],
        hidden: vec![],
    };
    let layout = ColumnLayout::from_config(&config);

    assert_eq!(layout.ordered_columns()[0], ProcessColumn::Pid);
    assert_eq!(layout.ordered_columns()[1], ProcessColumn::Name);
    assert_eq!(layout.ordered_columns().len(), 11);
}

#[test]
fn config_forces_name_visible() {
    let config = ColumnConfigV1 {
        version: 1,
        order: vec![],
        hidden: vec!["name".into()],
    };
    let layout = ColumnLayout::from_config(&config);

    assert!(layout.is_visible(ProcessColumn::Name));
}

#[test]
fn config_never_hides_all_columns() {
    let config = ColumnConfigV1 {
        version: 1,
        order: vec![],
        hidden: ALL_IDS.iter().map(|id| id.to_string()).collect(),
    };
    let layout = ColumnLayout::from_config(&config);

    assert!(layout.visible_count() >= 1);
    assert!(layout.is_visible(ProcessColumn::Name));
}

#[test]
fn to_config_roundtrips_visibility_and_order_semantics() {
    let mut layout = ColumnLayout::new_default();
    assert!(layout.move_in_order(0, 1).is_some());
    assert!(layout.toggle(ProcessColumn::Uss));
    let config = layout.to_config_v1();
    let loaded = ColumnLayout::from_config(&config);

    assert_eq!(loaded.ordered_columns()[0], ProcessColumn::Ppid);
    assert!(!loaded.is_visible(ProcessColumn::Uss));
}

#[test]
fn column_visibility_keeps_name_visible() {
    let mut visibility = ColumnVisibility::new();

    assert!(!visibility.toggle(ProcessColumn::Name));
    assert!(visibility.is_visible(ProcessColumn::Name));
}

#[test]
fn detail_request_only_includes_visible_heavy_columns() {
    let mut visibility = ColumnVisibility::new();
    assert!(visibility.toggle(ProcessColumn::Uss));

    let request = process_table_detail_request(&visibility);
    assert!(!request.uss);
    assert!(request.pss);
}

#[test]
fn column_visibility_can_reorder_columns() {
    let mut visibility = ColumnVisibility::new();

    assert_eq!(visibility.move_column(0, 1), Some(1));
    assert_eq!(visibility.ordered_columns()[0], ProcessColumn::Ppid);
    assert_eq!(visibility.ordered_columns()[1], ProcessColumn::Pid);
}

#[test]
fn column_ids_round_trip() {
    for (index, id) in ALL_IDS.iter().enumerate() {
        let column = ProcessColumn::from_index(index);
        assert_eq!(column.id(), *id);
        assert_eq!(ProcessColumn::try_from_id(id), Some(column));
        assert_eq!(column.index(), index);
    }
    assert_eq!(ProcessColumn::try_from_id("PID"), None);
    assert_eq!(ProcessColumn::try_from_id(""), None);
}

#[test]
fn column_titles_and_widths() {
    assert_eq!(ProcessColumn::Thread.title(), "THREAD");
    assert_eq!(ProcessColumn::Name.width(ViewMode::Flat), 24);
    assert_eq!(ProcessColumn::Name.width(ViewMode::Tree), 32);
    assert_eq!(ProcessColumn::Command.width(ViewMode::Tree), 16);
    assert!(!ProcessColumn::Name.is_toggleable());
    assert!(ProcessColumn::Cpu.is_toggleable());
}

#[test]
fn moving_a_column_out_of_range_is_refused() {
    let mut layout = ColumnLayout::new_default();
    assert_eq!(layout.move_in_order(0, -1), None);
    assert_eq!(layout.move_in_order(10, 1), None);
    assert_eq!(layout.ordered_columns()[0], ProcessColumn::Pid);
    assert_eq!(layout.move_in_order(3, -2), Some(1));
    assert_eq!(layout.ordered_columns()[1], ProcessColumn::Thread);
    assert_eq!(layout.ordered_columns()[3], ProcessColumn::Ppid);
    // Moving back undoes the move.
    assert_eq!(layout.move_in_order(1, 2), Some(3));
    assert_eq!(layout.ordered_columns(), ColumnLayout::new_default().ordered_columns());
}

#[test]
fn the_last_visible_column_cannot_be_hidden() {
    let mut visibility = ColumnVisibility::new();
    for index in 0..11 {
        let column = ProcessColumn::from_index(index);
        if column != ProcessColumn::Name {
            assert!(visibility.toggle(column));
        }
    }
    assert_eq!(visibility.visible_count(), 1);
    assert_eq!(process_table_columns(&visibility), vec![ProcessColumn::Name]);
    assert!(visibility.toggle(ProcessColumn::Rss));
    assert_eq!(visibility.visible_count(), 2);
}

#[test]
fn stored_layout_names_hidden_columns_in_default_order() {
    let mut layout = ColumnLayout::new_default();
    assert!(layout.toggle(ProcessColumn::Cpu));
    assert!(layout.toggle(ProcessColumn::Pid));
    let config = layout.to_config_v1();
    assert_eq!(config.version, 1);
    assert_eq!(config.hidden, vec!["pid".to_string(), "cpu".to_string()]);
    assert_eq!(config.order.len(), 11);
    let default = ColumnConfigV1::default();
    assert_eq!(default.order, ALL_IDS.iter().map(|id| id.to_string()).collect::<Vec<_>>());
    assert!(default.hidden.is_empty());
}
