use candle_chart::market::{get_price_range, get_volume_max, search_ix_by_dt, Bar, HistoryData, LoadError};

fn bar(datetime: i64, open: i64, high: i64, low: i64, close: i64, volume: i64) -> Bar {
    Bar { datetime, open, high, low, close, volume }
}

fn sample() -> HistoryData {
    HistoryData::new(vec![
        bar(100, 10, 15, 8, 12, 300),
        bar(160, 12, 20, 11, 19, 900),
        bar(220, 19, 19, 5, 6, 100),
        bar(280, 6, 9, 6, 9, 500),
    ])
    .unwrap()
}

#[test]
fn empty_dataset_is_rejected() {
    assert!(matches!(HistoryData::new(vec![]), Err(LoadError::EmptyDataset)));
}

#[test]
fn bars_are_read_back() {
    let h = sample();
    assert_eq!(h.bar_count(), 4);
    assert_eq!(h.bar(2), bar(220, 19, 19, 5, 6, 100));
}

#[test]
fn price_range_over_window() {
    let h = sample();
    assert_eq!(get_price_range(&h, 0, 3), (5, 20));
    assert_eq!(get_price_range(&h, 0, 1), (8, 20));
    assert_eq!(get_price_range(&h, 3, 3), (6, 9));
}

#[test]
fn volume_max_over_window() {
    let h = sample();
    assert_eq!(get_volume_max(&h, 0, 3), 900);
    assert_eq!(get_volume_max(&h, 2, 3), 500);
    assert_eq!(get_volume_max(&h, 0, 0), 300);
}

#[test]
fn search_scans_forward_from_start() {
    let h = sample();
    assert_eq!(search_ix_by_dt(&h, 220, 0), Some(2));
    assert_eq!(search_ix_by_dt(&h, 220, 2), Some(2));
    assert_eq!(search_ix_by_dt(&h, 160, 2), None);
    assert_eq!(search_ix_by_dt(&h, 161, 0), None);
    assert_eq!(search_ix_by_dt(&h, 100, 9), None);
}
