use rupss::history::HistoryBuffer;

#[test]
fn keeps_only_latest_items() {
    let mut history = HistoryBuffer::new(3);
    history.push(1);
    history.push(2);
    history.push(3);
    history.push(4);

    let items: Vec<_> = (&history).into_iter().copied().collect();
    assert_eq!(items, vec![2, 3, 4]);
}

#[test]
fn reports_length_capacity_and_ends() {
    let mut history = HistoryBuffer::new(2);
    assert!(history.is_empty());
    assert_eq!(history.capacity(), 2);
    assert_eq!(history.front(), None);
    assert_eq!(history.back(), None);

    history.push(7);
    history.push(8);
    history.push(9);
    assert_eq!(history.len(), 2);
    assert!(!history.is_empty());
    assert_eq!(history.front(), Some(&8));
    assert_eq!(history.back(), Some(&9));
    assert_eq!(history.get(1), Some(&9));
    assert_eq!(history.get(2), None);

    history.clear();
    assert!(history.is_empty());
    assert_eq!(history.capacity(), 2);
}

#[test]
fn extend_keeps_the_latest_of_everything_pushed() {
    let mut history = HistoryBuffer::new(3);
    history.push(1);
    history.extend(vec![2, 3, 4, 5]);
    let items: Vec<_> = history.iter().copied().collect();
    assert_eq!(items, vec![3, 4, 5]);
    assert!(history.len() <= history.capacity());
}

#[test]
fn zero_capacity_keeps_growing() {
    let mut history = HistoryBuffer::new(0);
    history.push(1);
    history.push(2);
    assert_eq!(history.len(), 2);
}
