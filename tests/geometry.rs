use candle_chart::geometry::{candle_vertex, trade_pairs_vertex, volume_vertex, GeometryError, Vertex};
use candle_chart::market::{Bar, HistoryData};
use candle_chart::matcher::{Direction, TradePair};

fn v(x_tenths: i64, y: i64) -> Vertex {
    Vertex { x_tenths, y }
}

fn sample() -> HistoryData {
    HistoryData::new(vec![
        Bar { datetime: 100, open: 10, high: 15, low: 8, close: 12, volume: 300 },
        Bar { datetime: 160, open: 12, high: 20, low: 11, close: 9, volume: 900 },
        Bar { datetime: 220, open: 9, high: 12, low: 5, close: 9, volume: 100 },
    ])
    .unwrap()
}

#[test]
fn candles_by_kind() {
    let c = candle_vertex(&sample());
    assert_eq!(
        c.up,
        vec![
            v(-4, 12), v(4, 12), v(4, 12), v(4, 10), v(4, 10), v(-4, 10), v(-4, 10), v(-4, 12),
            v(0, 15), v(0, 12), v(0, 8), v(0, 10),
        ]
    );
    assert_eq!(c.down, vec![v(6, 12), v(6, 9), v(14, 12), v(14, 12), v(6, 9), v(14, 9)]);
    assert_eq!(c.down_hl, vec![v(10, 20), v(10, 11)]);
    assert_eq!(c.stay, vec![v(16, 9), v(24, 9), v(20, 12), v(20, 5)]);
}

#[test]
fn volume_bars_by_kind() {
    let g = volume_vertex(&sample());
    assert_eq!(g.up, vec![v(-4, 300), v(4, 300), v(4, 300), v(4, 0), v(4, 0), v(-4, 0), v(-4, 0), v(-4, 300)]);
    assert_eq!(g.down, vec![v(6, 900), v(6, 0), v(14, 900), v(14, 900), v(6, 0), v(14, 0)]);
    assert_eq!(g.stay, vec![v(16, 100), v(24, 100), v(24, 100), v(24, 0), v(24, 0), v(16, 0), v(16, 0), v(16, 100)]);
}

fn pair(open_dt: i64, open_price: i64, close_dt: i64, close_price: i64, direction: Direction, volume: u64) -> TradePair {
    TradePair { open_dt, open_price, close_dt, close_price, direction, volume }
}

#[test]
fn trade_overlays() {
    let pairs = vec![
        pair(100, 11, 160, 13, Direction::Long, 2),
        pair(160, 14, 220, 10, Direction::Short, 3),
        pair(160, 14, 220, 15, Direction::Short, 1),
    ];
    let t = trade_pairs_vertex(&sample(), &pairs).unwrap();
    assert_eq!(t.profit, vec![v(0, 11), v(10, 13), v(10, 14), v(20, 10)]);
    assert_eq!(t.loss, vec![v(10, 14), v(20, 15)]);
    assert_eq!(t.buy, vec![v(0, 8); 3]);
    assert_eq!(t.sell, vec![v(10, 20); 3]);
    assert_eq!(t.short, vec![v(10, 20), v(10, 20), v(10, 20), v(10, 20), v(10, 20), v(10, 20)]);
    assert_eq!(t.cover, vec![v(20, 5); 6]);
    assert_eq!(t.buy_text, vec![(v(0, 8), 2)]);
    assert_eq!(t.sell_text, vec![(v(10, 20), 2)]);
    assert_eq!(t.short_text, vec![(v(10, 20), 3), (v(10, 20), 1)]);
    assert_eq!(t.cover_text, vec![(v(20, 5), 3), (v(20, 5), 1)]);
}

#[test]
fn long_closed_at_open_price_is_profit() {
    let pairs = vec![pair(100, 11, 220, 11, Direction::Long, 1)];
    let t = trade_pairs_vertex(&sample(), &pairs).unwrap();
    assert_eq!(t.profit.len(), 2);
    assert!(t.loss.is_empty());
}

#[test]
fn unknown_datetime_is_an_error() {
    let pairs = vec![pair(100, 11, 161, 13, Direction::Long, 2)];
    assert_eq!(trade_pairs_vertex(&sample(), &pairs).err(), Some(GeometryError::DatetimeNotFound));
}

#[test]
fn scan_does_not_go_back_before_previous_open() {
    // The second pair opens before the first one's open bar: not found.
    let pairs = vec![pair(160, 11, 220, 13, Direction::Long, 2), pair(100, 11, 220, 13, Direction::Long, 2)];
    assert_eq!(trade_pairs_vertex(&sample(), &pairs).err(), Some(GeometryError::DatetimeNotFound));
}
