use rupss::owners::OwnerNameResolver;
use rupss::snapshot::{ProcessRow, SortDirection, SortKey, SortState};
use rupss::sort::{compare_process_rows, sort_process_indexes, sort_processes};
use std::collections::HashMap;

struct TestOwnerLookup {
    owners: HashMap<u32, String>,
}

impl OwnerNameResolver for TestOwnerLookup {
    fn owner_name(&self, uid: u32) -> String {
        self.owners
            .get(&uid)
            .cloned()
            .unwrap_or_else(|| uid.to_string())
    }
}

fn cpu_key(value: f32) -> u32 {
    let value = if value == 0.0 { 0.0 } else { value };
    let bits = value.to_bits();
    if bits & 0x8000_0000 != 0 {
        !bits
    } else {
        bits | 0x8000_0000
    }
}

fn sample_row(pid: i32) -> ProcessRow {
    ProcessRow {
        pid,
        ppid: 1,
        owner_uid: 0,
        threads: 1,
        name: "name".to_string(),
        command: "cmd".to_string(),
        rss_bytes: pid as u64,
        uss_bytes: None,
        pss_bytes: Some(pid as u64),
        base_swap_bytes: pid as u64,
        detailed_swap_bytes: None,
        cpu_percent: cpu_key(pid as f32),
    }
}

fn no_owners() -> TestOwnerLookup {
    TestOwnerLookup {
        owners: HashMap::new(),
    }
}

#[test]
fn sort_prefers_highest_metric() {
    let owners = no_owners();
    let ordering = compare_process_rows(
        SortState::new(SortKey::Cpu, SortDirection::Descending),
        &owners,
        &sample_row(10),
        &sample_row(20),
    );
    assert_eq!(ordering, std::cmp::Ordering::Greater);
}

#[test]
fn sort_by_pid_is_ascending() {
    let owners = no_owners();
    let ordering = compare_process_rows(
        SortState::new(SortKey::Pid, SortDirection::Ascending),
        &owners,
        &sample_row(10),
        &sample_row(20),
    );
    assert_eq!(ordering, std::cmp::Ordering::Less);
}

#[test]
fn sort_by_owner_is_case_insensitive() {
    let mut owner_names = HashMap::new();
    owner_names.insert(1000, "Alice".to_string());
    owner_names.insert(1001, "bob".to_string());
    let owners = TestOwnerLookup {
        owners: owner_names,
    };

    let mut left = sample_row(10);
    left.owner_uid = 1000;
    let mut right = sample_row(20);
    right.owner_uid = 1001;

    let ordering = compare_process_rows(
        SortState::new(SortKey::Owner, SortDirection::Ascending),
        &owners,
        &left,
        &right,
    );
    assert_eq!(ordering, std::cmp::Ordering::Less);
}

#[test]
fn equal_keys_fall_back_to_ascending_pid() {
    let owners = no_owners();
    let mut a = sample_row(30);
    let mut b = sample_row(20);
    a.rss_bytes = 5;
    b.rss_bytes = 5;
    for direction in [SortDirection::Ascending, SortDirection::Descending] {
        let state = SortState::new(SortKey::Rss, direction);
        assert_eq!(
            compare_process_rows(state, &owners, &a, &b),
            std::cmp::Ordering::Greater
        );
        assert_eq!(compare_process_rows(state, &owners, &b, &a), std::cmp::Ordering::Less);
        assert_eq!(compare_process_rows(state, &owners, &a, &a), std::cmp::Ordering::Equal);
    }
}

#[test]
fn name_sort_ignores_case_and_swap_uses_the_shown_value() {
    let owners = no_owners();
    let mut a = sample_row(1);
    a.name = "Zsh".to_string();
    let mut b = sample_row(2);
    b.name = "bash".to_string();
    let name = SortState::new(SortKey::Name, SortDirection::Ascending);
    assert_eq!(compare_process_rows(name, &owners, &a, &b), std::cmp::Ordering::Greater);

    a.base_swap_bytes = 100;
    b.base_swap_bytes = 10;
    b.detailed_swap_bytes = Some(1000);
    let swap = SortState::new(SortKey::Swap, SortDirection::Ascending);
    assert_eq!(compare_process_rows(swap, &owners, &a, &b), std::cmp::Ordering::Less);
}

#[test]
fn sorting_orders_rows_and_keeps_them_all() {
    let owners = no_owners();
    let mut rows = vec![sample_row(3), sample_row(1), sample_row(4), sample_row(2)];
    rows[0].rss_bytes = 7;
    rows[2].rss_bytes = 7;
    sort_processes(
        SortState::new(SortKey::Rss, SortDirection::Descending),
        &owners,
        &mut rows,
    );
    let pids: Vec<i32> = rows.iter().map(|row| row.pid).collect();
    assert_eq!(pids, vec![3, 4, 2, 1]);

    sort_processes(
        SortState::new(SortKey::Pid, SortDirection::Ascending),
        &owners,
        &mut rows,
    );
    let pids: Vec<i32> = rows.iter().map(|row| row.pid).collect();
    assert_eq!(pids, vec![1, 2, 3, 4]);
}

#[test]
fn sorting_indexes_orders_the_referenced_rows() {
    let owners = no_owners();
    let rows = vec![sample_row(5), sample_row(9), sample_row(7)];
    let mut indexes = vec![2, 0, 1];
    sort_process_indexes(
        SortState::new(SortKey::Cpu, SortDirection::Descending),
        &owners,
        &rows,
        &mut indexes,
    );
    assert_eq!(indexes, vec![1, 2, 0]);
}
