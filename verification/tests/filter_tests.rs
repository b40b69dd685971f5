use rupss::filter::{
    build_filter_from_modal, parse_metric_field, split_metric_filter_token,
    try_build_filter_from_modal, FilterModalState, FilterPredicate, MetricFilterField,
    MetricFilterOperator, MetricFilterValue, ProcessFilter,
};
use rupss::snapshot::ProcessRow;

fn cpu_key(value: f32) -> u32 {
    let value = if value == 0.0 { 0.0 } else { value };
    let bits = value.to_bits();
    if bits & 0x8000_0000 != 0 {
        !bits
    } else {
        bits | 0x8000_0000
    }
}

fn parse_cpu_value(value: &str) -> Option<f32> {
    let number = value.strip_suffix('%').unwrap_or(value);
    let parsed = number.parse::<f32>().ok()?;
    parsed.is_finite().then_some(parsed)
}

fn parse_bytes_value(value: &str) -> Option<u64> {
    let number_len = value
        .char_indices()
        .take_while(|(_, ch)| ch.is_ascii_digit() || *ch == '.')
        .map(|(index, ch)| index + ch.len_utf8())
        .last()?;
    let number = value[..number_len].parse::<f64>().ok()?;
    if !number.is_finite() || number < 0.0 {
        return None;
    }
    let unit = value[number_len..].to_ascii_lowercase();
    let multiplier = match unit.as_str() {
        "" | "b" => 1.0,
        "kb" => 1024.0,
        "mb" => 1024.0 * 1024.0,
        "gb" => 1024.0 * 1024.0 * 1024.0,
        _ => return None,
    };
    let bytes = number * multiplier;
    (bytes <= u64::MAX as f64).then_some(bytes.round() as u64)
}

fn parse_value(field: MetricFilterField, text: &str) -> Option<MetricFilterValue> {
    match field {
        MetricFilterField::Cpu => parse_cpu_value(text).map(|v| MetricFilterValue::Percent(cpu_key(v))),
        _ => parse_bytes_value(text).map(MetricFilterValue::Bytes),
    }
}

fn query(text: &str) -> ProcessFilter {
    ProcessFilter::from_text_query(text, &parse_value)
}

fn sample_row(pid: i32, name: &str, command: &str) -> ProcessRow {
    ProcessRow {
        pid,
        ppid: 1,
        owner_uid: 0,
        threads: 1,
        name: name.to_string(),
        command: command.to_string(),
        rss_bytes: 0,
        uss_bytes: None,
        pss_bytes: None,
        base_swap_bytes: 0,
        detailed_swap_bytes: None,
        cpu_percent: cpu_key(0.0),
    }
}

#[test]
fn matches_name() {
    let filter = query("bash");
    let rows = vec![
        sample_row(1, "bash", "/usr/bin/bash"),
        sample_row(2, "zsh", "/usr/bin/zsh"),
    ];

    assert_eq!(filter.matching_indexes(&rows), vec![0]);
}

#[test]
fn matches_command() {
    let filter = query("worker");
    let rows = vec![
        sample_row(1, "python", "python app.py"),
        sample_row(2, "python", "python worker.py"),
    ];

    assert_eq!(filter.matching_indexes(&rows), vec![1]);
}

#[test]
fn text_match_is_case_insensitive() {
    let filter = query("POSTGRES");
    let rows = vec![sample_row(1, "postgres", "/usr/bin/postgres")];

    assert_eq!(filter.matching_indexes(&rows), vec![0]);
}

#[test]
fn empty_filter_matches_all_rows() {
    let filter = query("");
    let rows = vec![
        sample_row(1, "bash", "/usr/bin/bash"),
        sample_row(2, "zsh", "/usr/bin/zsh"),
    ];

    assert_eq!(filter.matching_indexes(&rows), vec![0, 1]);
}

#[test]
fn filters_by_rss_threshold() {
    let mut small = sample_row(1, "small", "small");
    small.rss_bytes = 99 * 1024 * 1024;
    let mut large = sample_row(2, "large", "large");
    large.rss_bytes = 100 * 1024 * 1024;
    let filter = query("rss>=100MB");

    assert_eq!(filter.matching_indexes(&[small, large]), vec![1]);
}

#[test]
fn metric_filter_supports_comparison_operators() {
    let mut low = sample_row(1, "low", "low");
    low.base_swap_bytes = 9 * 1024 * 1024;
    let mut high = sample_row(2, "high", "high");
    high.base_swap_bytes = 10 * 1024 * 1024;

    assert_eq!(
        query("swap<10MB").matching_indexes(&[low.clone(), high.clone()]),
        vec![0]
    );
    assert_eq!(query("swap=10MB").matching_indexes(&[low, high]), vec![1]);
}

#[test]
fn cpu_percent_suffix_is_optional() {
    let mut idle = sample_row(1, "idle", "idle");
    idle.cpu_percent = cpu_key(4.9);
    let mut busy = sample_row(2, "busy", "busy");
    busy.cpu_percent = cpu_key(5.0);
    let rows = vec![idle, busy];

    assert_eq!(query("cpu>=5").matching_indexes(&rows), vec![1]);
    assert_eq!(query("cpu>=5%").matching_indexes(&rows), vec![1]);
}

#[test]
fn uss_and_pss_filters_ignore_unknown_values() {
    let mut unknown = sample_row(1, "unknown", "unknown");
    unknown.uss_bytes = None;
    unknown.pss_bytes = None;
    let mut known = sample_row(2, "known", "known");
    known.uss_bytes = Some(100 * 1024 * 1024);
    known.pss_bytes = Some(101 * 1024 * 1024);

    assert_eq!(
        query("uss>=100MB").matching_indexes(&[unknown.clone(), known.clone()]),
        vec![1]
    );
    assert_eq!(query("pss>=101MB").matching_indexes(&[unknown, known]), vec![1]);
}

#[test]
fn text_and_metric_tokens_are_combined_with_and() {
    let mut postgres = sample_row(1, "postgres", "postgres: checkpointer");
    postgres.rss_bytes = 100 * 1024 * 1024;
    let mut firefox = sample_row(2, "firefox", "firefox");
    firefox.rss_bytes = 200 * 1024 * 1024;

    let filter = query("postgres rss>=100MB");

    assert_eq!(filter.matching_indexes(&[postgres, firefox]), vec![0]);
}

#[test]
fn reports_detailed_memory_needed_for_uss_and_pss_filters() {
    let filter = query("rss>=1MB uss>=2MB pss>=3MB");

    assert!(filter.detail_request().uss);
    assert!(filter.detail_request().pss);
}

#[test]
fn unreadable_metric_tokens_become_text_searches() {
    let rows = vec![sample_row(1, "rss>=lots", "x"), sample_row(2, "other", "y")];
    assert_eq!(query("rss>=lots").matching_indexes(&rows), vec![0]);
    assert_eq!(query("   ").matching_indexes(&rows), vec![0, 1]);
    assert!(!query("   ").is_active());
    assert!(query("x").is_active());
}

#[test]
fn metric_tokens_split_on_the_first_operator_in_order() {
    assert_eq!(
        split_metric_filter_token("rss>=10"),
        Some(("rss".to_string(), MetricFilterOperator::GreaterThanOrEqual, "10".to_string()))
    );
    assert_eq!(
        split_metric_filter_token("a=b<c"),
        Some(("a=b".to_string(), MetricFilterOperator::LessThan, "c".to_string()))
    );
    // With nothing before `>=`, the token splits at its `=`.
    assert_eq!(
        split_metric_filter_token(">=10"),
        Some((">".to_string(), MetricFilterOperator::Equal, "10".to_string()))
    );
    assert_eq!(split_metric_filter_token("=10"), None);
    assert_eq!(
        split_metric_filter_token("rss>="),
        Some(("rss".to_string(), MetricFilterOperator::GreaterThan, "=".to_string()))
    );
    assert_eq!(split_metric_filter_token("rss<"), None);
    assert_eq!(split_metric_filter_token("plain"), None);
    assert_eq!(parse_metric_field("RsS"), Some(MetricFilterField::Rss));
    assert_eq!(parse_metric_field("cpu%"), None);
}

#[test]
fn operators_cycle_in_the_modal_order() {
    let op = MetricFilterOperator::GreaterThanOrEqual;
    assert_eq!(op.cycle(1), MetricFilterOperator::GreaterThan);
    assert_eq!(op.cycle(-1), MetricFilterOperator::LessThanOrEqual);
    assert_eq!(op.cycle(5), op);
    assert_eq!(op.cycle(1).cycle(-1), op);
    assert_eq!(MetricFilterOperator::LessThan.label(), "<");
    assert_eq!(MetricFilterOperator::Equal.id(), "equal");
}

#[test]
fn modal_builds_predicates_and_reports_the_first_error() {
    let mut modal = FilterModalState::default();
    modal.pid = " 42 ".to_string();
    modal.ppid = "x".to_string();
    modal.name = " Post ".to_string();
    modal.rss_value = "lots".to_string();
    modal.cpu_value = "5".to_string();
    let (filter, error) = try_build_filter_from_modal(&modal, &parse_value);

    assert_eq!(error, Some("ppid is not a number".to_string()));
    let mut row = sample_row(42, "postgres", "pg");
    row.cpu_percent = cpu_key(6.0);
    assert!(filter.matches(&row));
    row.pid = 43;
    assert!(!filter.matches(&row));

    let mut only_metric = FilterModalState::default();
    only_metric.swap_value = "1MB".to_string();
    let (_, no_error) = build_filter_from_modal(&only_metric, [None, Some(MetricFilterValue::Bytes(1)), None, None, None]);
    assert_eq!(no_error, None);
    let (_, bad_swap) = build_filter_from_modal(&only_metric, [None; 5]);
    assert_eq!(bad_swap, Some("invalid swap value".to_string()));
}

#[test]
fn predicates_match_their_fields() {
    let mut row = sample_row(7, "Nginx", "nginx: worker");
    row.ppid = 3;
    assert!(FilterPredicate::Pid(7).matches(&row));
    assert!(!FilterPredicate::Pid(8).matches(&row));
    assert!(FilterPredicate::Ppid(3).matches(&row));
    let metric = FilterPredicate::Metric {
        field: MetricFilterField::Uss,
        operator: MetricFilterOperator::LessThan,
        value: MetricFilterValue::Bytes(10),
    };
    assert!(!metric.matches(&row));
    row.uss_bytes = Some(9);
    assert!(metric.matches(&row));
}

#[test]
fn operator_cycle_has_five_steps() {
    assert_eq!(MetricFilterOperator::GreaterThanOrEqual.cycle(1), MetricFilterOperator::GreaterThan);
    assert_eq!(MetricFilterOperator::GreaterThanOrEqual.cycle(-1), MetricFilterOperator::LessThanOrEqual);
    for op in [MetricFilterOperator::GreaterThanOrEqual, MetricFilterOperator::GreaterThan, MetricFilterOperator::Equal, MetricFilterOperator::LessThan, MetricFilterOperator::LessThanOrEqual] {
        assert_eq!(op.cycle(0), op);
        for delta in [-7isize, -1, 1, 3, 11] {
            assert_eq!(op.cycle(delta + 5), op.cycle(delta));
            assert_eq!(op.cycle(delta).cycle(-delta), op);
        }
    }
}
