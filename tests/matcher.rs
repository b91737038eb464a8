use candle_chart::matcher::{generate_trade_pairs, Direction, TradeData, TradePair};

fn exec(datetime: i64, direction: Direction, price: i64, volume: u64) -> TradeData {
    TradeData { datetime, direction, price, volume }
}

#[test]
fn one_long_closed_by_two_shorts() {
    let log = vec![
        exec(1, Direction::Long, 100, 10),
        exec(2, Direction::Short, 110, 6),
        exec(3, Direction::Short, 120, 4),
    ];
    let pairs = generate_trade_pairs(&log);
    assert_eq!(
        pairs,
        vec![
            TradePair { open_dt: 1, open_price: 100, close_dt: 2, close_price: 110, direction: Direction::Long, volume: 6 },
            TradePair { open_dt: 1, open_price: 100, close_dt: 3, close_price: 120, direction: Direction::Long, volume: 4 },
        ]
    );
    // The long lot is used up: a further short opens a new position.
    let mut more = log.clone();
    more.push(exec(4, Direction::Short, 130, 5));
    assert_eq!(generate_trade_pairs(&more).len(), 2);
}

#[test]
fn closes_oldest_open_first() {
    let log = vec![
        exec(1, Direction::Short, 50, 3),
        exec(2, Direction::Short, 52, 3),
        exec(3, Direction::Long, 48, 4),
        exec(4, Direction::Long, 47, 2),
    ];
    let pairs = generate_trade_pairs(&log);
    let opens: Vec<(i64, i64, u64)> = pairs.iter().map(|p| (p.open_dt, p.close_dt, p.volume)).collect();
    assert_eq!(opens, vec![(1, 3, 3), (2, 3, 1), (2, 4, 2)]);
    assert!(pairs.iter().all(|p| p.direction == Direction::Short));
}

#[test]
fn one_execution_closes_several_and_reverses() {
    let log = vec![
        exec(1, Direction::Long, 10, 2),
        exec(2, Direction::Long, 11, 2),
        exec(3, Direction::Short, 12, 7),
        exec(4, Direction::Long, 9, 1),
    ];
    let pairs = generate_trade_pairs(&log);
    assert_eq!(pairs.len(), 3);
    assert_eq!((pairs[0].open_dt, pairs[0].volume, pairs[0].direction), (1, 2, Direction::Long));
    assert_eq!((pairs[1].open_dt, pairs[1].volume, pairs[1].direction), (2, 2, Direction::Long));
    // The short remainder of 3 is then partly closed by the later long.
    assert_eq!(pairs[2], TradePair { open_dt: 3, open_price: 12, close_dt: 4, close_price: 9, direction: Direction::Short, volume: 1 });
}

#[test]
fn volume_is_conserved_on_an_example() {
    let log = vec![
        exec(1, Direction::Long, 10, 5),
        exec(2, Direction::Short, 11, 3),
        exec(3, Direction::Long, 12, 4),
        exec(4, Direction::Short, 13, 8),
        exec(5, Direction::Long, 14, 1),
    ];
    let pairs = generate_trade_pairs(&log);
    let matched: u64 = pairs.iter().map(|p| p.volume).sum();
    // Long input 10, short input 11; matched 10, so long inventory 0 and short inventory 1.
    assert_eq!(matched, 10);
    assert!(pairs.iter().all(|p| p.volume > 0));
}

#[test]
fn empty_log_and_zero_volume_give_no_pairs() {
    assert!(generate_trade_pairs(&vec![]).is_empty());
    let log = vec![exec(1, Direction::Long, 10, 0), exec(2, Direction::Short, 11, 0)];
    assert!(generate_trade_pairs(&log).is_empty());
}

#[test]
fn same_direction_only_never_pairs() {
    let log = vec![exec(1, Direction::Long, 10, 1), exec(2, Direction::Long, 11, 2)];
    assert!(generate_trade_pairs(&log).is_empty());
}

#[test]
fn pairs_follow_arrival_of_closing_executions() {
    let log = vec![
        exec(1, Direction::Long, 10, 3),
        exec(2, Direction::Short, 20, 5),
        exec(3, Direction::Long, 30, 1),
        exec(4, Direction::Long, 40, 4),
    ];
    let pairs = generate_trade_pairs(&log);
    let closes: Vec<(i64, i64, Direction, u64)> = pairs.iter().map(|p| (p.close_dt, p.close_price, p.direction, p.volume)).collect();
    assert_eq!(
        closes,
        vec![(2, 20, Direction::Long, 3), (3, 30, Direction::Short, 1), (4, 40, Direction::Short, 1)]
    );
}
