use candle_chart::loader::{decode_history, decode_trades, MAX_TIMESTAMP};
use candle_chart::market::LoadError;
use candle_chart::matcher::Direction;

fn header(version: u64, count: u64) -> Vec<u8> {
    let mut b = version.to_le_bytes().to_vec();
    b.extend_from_slice(&count.to_le_bytes());
    b
}

fn bar_record(ts: u64, values: [f64; 5]) -> Vec<u8> {
    let mut b = ts.to_le_bytes().to_vec();
    for v in values {
        b.extend_from_slice(&v.to_le_bytes());
    }
    b
}

fn trade_record(ts: u64, direction: u8, price: f64, volume: f64) -> Vec<u8> {
    let mut b = ts.to_le_bytes().to_vec();
    b.push(direction);
    b.extend_from_slice(&price.to_le_bytes());
    b.extend_from_slice(&volume.to_le_bytes());
    b
}

const TS: u64 = 1_705_320_000;

#[test]
fn history_records_are_decoded() {
    let mut b = header(0, 2);
    b.extend(bar_record(TS, [1.5, 2.25, 1.0, 2.0, 300.0]));
    b.extend(bar_record(TS + 60, [2.0, 2.5, 1.75, 1.75, 12.5]));
    let v = decode_history(&b).unwrap();
    assert_eq!(v.len(), 2);
    assert_eq!(v[0].open_bits, 1.5f64.to_bits());
    assert_eq!(v[0].high_bits, 2.25f64.to_bits());
    assert_eq!(v[0].low_bits, 1.0f64.to_bits());
    assert_eq!(v[0].close_bits, 2.0f64.to_bits());
    assert_eq!(v[0].volume_bits, 300.0f64.to_bits());
    assert_eq!(v[1].close_bits, 1.75f64.to_bits());
    assert_eq!(v[1].datetime - v[0].datetime, 60);
}

#[test]
fn trailing_bytes_are_ignored() {
    let mut b = header(0, 1);
    b.extend(bar_record(TS, [1.0; 5]));
    b.extend([7u8; 10]);
    assert_eq!(decode_history(&b).unwrap().len(), 1);
}

#[test]
fn unsupported_version() {
    let mut b = header(1, 1);
    b.extend(bar_record(TS, [1.0; 5]));
    assert_eq!(decode_history(&b), Err(LoadError::UnsupportedVersion));
    assert_eq!(decode_trades(&header(3, 0)), Err(LoadError::UnsupportedVersion));
}

#[test]
fn short_files_are_corrupt() {
    assert_eq!(decode_history(&[0u8; 5]), Err(LoadError::CorruptData));
    assert_eq!(decode_history(&[0u8; 12]), Err(LoadError::CorruptData));
    let mut b = header(0, 2);
    b.extend(bar_record(TS, [1.0; 5]));
    assert_eq!(decode_history(&b), Err(LoadError::CorruptData));
    let mut b = header(0, u64::MAX);
    b.extend(bar_record(TS, [1.0; 5]));
    assert_eq!(decode_history(&b), Err(LoadError::CorruptData));
}

#[test]
fn empty_history_is_rejected() {
    assert_eq!(decode_history(&header(0, 0)), Err(LoadError::EmptyDataset));
}

#[test]
fn out_of_range_timestamp_is_corrupt() {
    let mut b = header(0, 1);
    b.extend(bar_record(MAX_TIMESTAMP + 1, [1.0; 5]));
    assert_eq!(decode_history(&b), Err(LoadError::CorruptData));
    let mut b = header(0, 1);
    b.extend(trade_record(u64::MAX, 1, 1.0, 1.0));
    assert_eq!(decode_trades(&b), Err(LoadError::CorruptData));
}

#[test]
fn trade_records_are_decoded() {
    let mut b = header(0, 2);
    b.extend(trade_record(TS, 1, 100.5, 3.0));
    b.extend(trade_record(TS + 120, 2, 101.0, 2.0));
    let v = decode_trades(&b).unwrap();
    assert_eq!(v.len(), 2);
    assert_eq!(v[0].direction, Direction::Long);
    assert_eq!(v[1].direction, Direction::Short);
    assert_eq!(v[0].price_bits, 100.5f64.to_bits());
    assert_eq!(v[1].volume_bits, 2.0f64.to_bits());
    assert_eq!(v[1].datetime - v[0].datetime, 120);
    assert_eq!(decode_trades(&header(0, 0)), Ok(vec![]));
}

#[test]
fn unknown_direction_is_corrupt() {
    let mut b = header(0, 1);
    b.extend(trade_record(TS, 3, 100.0, 1.0));
    assert_eq!(decode_trades(&b), Err(LoadError::CorruptData));
}

#[test]
fn local_datetime_is_within_a_day_of_the_timestamp() {
    let mut b = header(0, 1);
    b.extend(bar_record(TS, [1.0; 5]));
    let v = decode_history(&b).unwrap();
    assert!((v[0].datetime - TS as i64).abs() < 86_400);
    let mut b = header(0, 1);
    b.extend(trade_record(0, 2, 1.0, 1.0));
    let v = decode_trades(&b).unwrap();
    assert!(v[0].datetime.abs() < 86_400);
}
