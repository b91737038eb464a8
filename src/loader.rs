//! Decoding of the two dataset files. Each starts with a little-endian `u64`
//! version (must be 0) and a `u64` record count. Floating-point fields are
//! handed on as their raw IEEE-754 bits.
use vstd::prelude::*;
use crate::market::LoadError;
use crate::matcher::Direction;

verus! {

pub const FORMAT_VERSION: u64 = 0;
pub const HEADER_LEN: usize = 16;
/// Timestamp, then open, high, low, close and volume.
pub const BAR_RECORD_LEN: usize = 48;
/// Timestamp, direction byte, price and volume.
pub const TRADE_RECORD_LEN: usize = 25;
/// Latest timestamp accepted, in seconds since the epoch (about the year 255000).
pub const MAX_TIMESTAMP: u64 = 8_000_000_000_000;
/// A local datetime lies strictly within this many seconds of its timestamp.
pub const SECONDS_PER_DAY: i64 = 86_400;
pub const DIRECTION_LONG: u8 = 1;
pub const DIRECTION_SHORT: u8 = 2;

/// A bar as stored: local datetime in seconds, prices and volume as `f64` bits.
#[derive(Clone, Copy, Debug, PartialEq, Eq, Structural)]
pub struct BarRecord {
    pub datetime: i64,
    pub open_bits: u64,
    pub high_bits: u64,
    pub low_bits: u64,
    pub close_bits: u64,
    pub volume_bits: u64,
}

/// An execution as stored: local datetime in seconds, price and volume as `f64` bits.
#[derive(Clone, Copy, Debug, PartialEq, Eq, Structural)]
pub struct TradeRecord {
    pub datetime: i64,
    pub direction: Direction,
    pub price_bits: u64,
    pub volume_bits: u64,
}

/// The little-endian `u64` at byte offset `at`.
pub open spec fn le_u64(b: Seq<u8>, at: int) -> int {
    b[at] + 256 * b[at + 1] + 0x1_0000 * b[at + 2] + 0x100_0000 * b[at + 3] + 0x1_0000_0000 * b[at + 4]
        + 0x100_0000_0000 * b[at + 5] + 0x1_0000_0000_0000 * b[at + 6] + 0x100_0000_0000_0000 * b[at + 7]
}

fn read_u64_le(b: &[u8], at: usize) -> (r: u64)
    requires
        at + 8 <= b@.len(),
    ensures
        r == le_u64(b@, at as int),
{
    (b[at] as u64) + 256 * (b[at + 1] as u64) + 0x1_0000 * (b[at + 2] as u64) + 0x100_0000 * (b[at + 3] as u64)
        + 0x1_0000_0000 * (b[at + 4] as u64) + 0x100_0000_0000 * (b[at + 5] as u64)
        + 0x1_0000_0000_0000 * (b[at + 6] as u64) + 0x100_0000_0000_0000 * (b[at + 7] as u64)
}

/// Relies on chrono's `DateTime::from_timestamp` (which gives `Some` for every
/// timestamp from 0 to `MAX_TIMESTAMP`, far inside its date range) and on
/// `with_timezone(&Local)` and `naive_local`, which convert to the machine's
/// local time zone (chrono panics there only when that zone's data is
/// unusable); the local wall-clock time is read back as seconds. Which offset
/// applies depends on the machine; chrono's `FixedOffset` keeps it strictly
/// within a day either way.
#[verifier::external_body]
fn local_seconds(ts: i64) -> (r: Option<i64>)
    requires
        0 <= ts <= MAX_TIMESTAMP,
    ensures
        r.is_some(),
        r matches Some(t) ==> ts - SECONDS_PER_DAY < t < ts + SECONDS_PER_DAY,
{
    match chrono::DateTime::from_timestamp(ts, 0) {
        Some(d) => Some(d.with_timezone(&chrono::Local).naive_local().and_utc().timestamp()),
        None => None,
    }
}

/// The file's records, when it is long enough to hold `count` records of
/// `len` bytes after the header.
pub open spec fn holds_records(b: Seq<u8>, count: int, len: int) -> bool {
    HEADER_LEN + count * len <= b.len()
}

/// The timestamp of record `k`, records being `len` bytes long.
pub open spec fn record_ts(b: Seq<u8>, k: int, len: int) -> int {
    le_u64(b, HEADER_LEN + k * len)
}

/// Every record's timestamp is at most `MAX_TIMESTAMP`.
pub open spec fn timestamps_ok(b: Seq<u8>, count: int, len: int) -> bool {
    forall|k: int| 0 <= k < count ==> #[trigger] record_ts(b, k, len) <= MAX_TIMESTAMP
}

/// Why the header of `b` is not acceptable, if it is not.
pub open spec fn header_error(b: Seq<u8>) -> Option<LoadError> {
    if b.len() < 8 {
        Some(LoadError::CorruptData)
    } else if le_u64(b, 0) != FORMAT_VERSION {
        Some(LoadError::UnsupportedVersion)
    } else if b.len() < HEADER_LEN {
        Some(LoadError::CorruptData)
    } else {
        None
    }
}

fn check_header(b: &[u8]) -> (r: Result<u64, LoadError>)
    ensures
        match r {
            Ok(count) => header_error(b@) is None && count == le_u64(b@, 8),
            Err(e) => header_error(b@) == Some(e),
        },
{
    if b.len() < 8 {
        return Err(LoadError::CorruptData);
    }
    if read_u64_le(b, 0) != FORMAT_VERSION {
        return Err(LoadError::UnsupportedVersion);
    }
    if b.len() < HEADER_LEN {
        return Err(LoadError::CorruptData);
    }
    Ok(read_u64_le(b, 8))
}

/// The record count fits in the file after the header.
fn fits(b: &[u8], count: u64, len: usize) -> (r: bool)
    requires
        HEADER_LEN <= b@.len(),
        len >= 1,
    ensures
        r == holds_records(b@, count as int, len as int),
{
    let room = (b.len() - HEADER_LEN) / len;
    proof {
        let c = count as int;
        let l = len as int;
        let m = b@.len() - HEADER_LEN;
        assert(c <= m / l <==> c * l <= m) by (nonlinear_arith)
            requires
                l >= 1,
                m >= 0,
                c >= 0,
        ;
    }
    count <= room as u64
}

/// The bar records of a history file.
pub fn decode_history(b: &[u8]) -> (r: Result<Vec<BarRecord>, LoadError>)
    ensures
        header_error(b@) matches Some(e) ==> r == Err::<Vec<BarRecord>, LoadError>(e),
        header_error(b@) is None ==> ({
            let count = le_u64(b@, 8);
            &&& count == 0 ==> r == Err::<Vec<BarRecord>, LoadError>(LoadError::EmptyDataset)
            &&& (count > 0 && !(holds_records(b@, count, BAR_RECORD_LEN as int) && timestamps_ok(b@, count, BAR_RECORD_LEN as int)))
                ==> r == Err::<Vec<BarRecord>, LoadError>(LoadError::CorruptData)
            &&& (count > 0 && holds_records(b@, count, BAR_RECORD_LEN as int) && timestamps_ok(b@, count, BAR_RECORD_LEN as int))
                ==> (r matches Ok(v) && v@.len() == count && forall|k: int| 0 <= k < count ==> {
                    let at = HEADER_LEN + k * BAR_RECORD_LEN;
                    &&& record_ts(b@, k, BAR_RECORD_LEN as int) - SECONDS_PER_DAY < (#[trigger] v@[k]).datetime
                        < record_ts(b@, k, BAR_RECORD_LEN as int) + SECONDS_PER_DAY
                    &&& v@[k].open_bits == le_u64(b@, at + 8)
                    &&& v@[k].high_bits == le_u64(b@, at + 16)
                    &&& v@[k].low_bits == le_u64(b@, at + 24)
                    &&& v@[k].close_bits == le_u64(b@, at + 32)
                    &&& v@[k].volume_bits == le_u64(b@, at + 40)
                })
        }),
{
    let count = match check_header(b) {
        Ok(c) => c,
        Err(e) => return Err(e),
    };
    if count == 0 {
        return Err(LoadError::EmptyDataset);
    }
    if !fits(b, count, BAR_RECORD_LEN) {
        return Err(LoadError::CorruptData);
    }
    proof {
        assert(count <= b@.len()) by (nonlinear_arith)
            requires
                HEADER_LEN + count * BAR_RECORD_LEN <= b@.len(),
        ;
        assert(b@.len() == b.len());
    }
    let n = count as usize;
    let mut out: Vec<BarRecord> = Vec::new();
    let mut k: usize = 0;
    while k < n
        invariant
            n == count,
            count > 0,
            header_error(b@) is None,
            count == le_u64(b@, 8),
            holds_records(b@, count as int, BAR_RECORD_LEN as int),
            k <= n,
            out@.len() == k,
            forall|j: int| 0 <= j < k ==> #[trigger] record_ts(b@, j, BAR_RECORD_LEN as int) <= MAX_TIMESTAMP,
            forall|j: int| 0 <= j < k ==> {
                let at = HEADER_LEN + j * BAR_RECORD_LEN;
                &&& record_ts(b@, j, BAR_RECORD_LEN as int) - SECONDS_PER_DAY < (#[trigger] out@[j]).datetime
                    < record_ts(b@, j, BAR_RECORD_LEN as int) + SECONDS_PER_DAY
                &&& out@[j].open_bits == le_u64(b@, at + 8)
                &&& out@[j].high_bits == le_u64(b@, at + 16)
                &&& out@[j].low_bits == le_u64(b@, at + 24)
                &&& out@[j].close_bits == le_u64(b@, at + 32)
                &&& out@[j].volume_bits == le_u64(b@, at + 40)
            },
        decreases n - k,
    {
        proof {
            assert(HEADER_LEN + k * BAR_RECORD_LEN + BAR_RECORD_LEN <= b@.len()) by (nonlinear_arith)
                requires
                    k < n,
                    HEADER_LEN + n * BAR_RECORD_LEN <= b@.len(),
            ;
            assert(b@.len() == b.len());
        }
        let at = HEADER_LEN + k * BAR_RECORD_LEN;
        let ts = read_u64_le(b, at);
        if ts > MAX_TIMESTAMP {
            proof {
                assert(!timestamps_ok(b@, count as int, BAR_RECORD_LEN as int)) by {
                    assert(record_ts(b@, k as int, BAR_RECORD_LEN as int) > MAX_TIMESTAMP);
                }
            }
            return Err(LoadError::CorruptData);
        }
        let datetime = match local_seconds(ts as i64) {
            Some(d) => d,
            None => return Err(LoadError::CorruptData),
        };
        out.push(BarRecord {
            datetime,
            open_bits: read_u64_le(b, at + 8),
            high_bits: read_u64_le(b, at + 16),
            low_bits: read_u64_le(b, at + 24),
            close_bits: read_u64_le(b, at + 32),
            volume_bits: read_u64_le(b, at + 40),
        });
        k = k + 1;
    }
    Ok(out)
}

/// The direction byte of trade record `k`.
pub open spec fn record_dir(b: Seq<u8>, k: int) -> u8 {
    b[HEADER_LEN + k * TRADE_RECORD_LEN + 8]
}

/// Every trade record's direction byte is `DIRECTION_LONG` or `DIRECTION_SHORT`.
pub open spec fn directions_ok(b: Seq<u8>, count: int) -> bool {
    forall|k: int| 0 <= k < count ==> #[trigger] record_dir(b, k) == DIRECTION_LONG || record_dir(b, k) == DIRECTION_SHORT
}

/// The trade records are all well formed.
pub open spec fn trades_ok(b: Seq<u8>, count: int) -> bool {
    &&& holds_records(b, count, TRADE_RECORD_LEN as int)
    &&& timestamps_ok(b, count, TRADE_RECORD_LEN as int)
    &&& directions_ok(b, count)
}

/// The trade record `v` holds the fields of record `k` of `b`.
pub open spec fn trade_record_at(b: Seq<u8>, k: int, v: TradeRecord) -> bool {
    let at = HEADER_LEN + k * TRADE_RECORD_LEN;
    &&& record_ts(b, k, TRADE_RECORD_LEN as int) - SECONDS_PER_DAY < v.datetime
        < record_ts(b, k, TRADE_RECORD_LEN as int) + SECONDS_PER_DAY
    &&& v.direction == (if b[at + 8] == DIRECTION_LONG { Direction::Long } else { Direction::Short })
    &&& v.price_bits == le_u64(b, at + 9)
    &&& v.volume_bits == le_u64(b, at + 17)
}

/// The execution records of a trades file (there may be none).
pub fn decode_trades(b: &[u8]) -> (r: Result<Vec<TradeRecord>, LoadError>)
    ensures
        header_error(b@) matches Some(e) ==> r == Err::<Vec<TradeRecord>, LoadError>(e),
        header_error(b@) is None ==> ({
            let count = le_u64(b@, 8);
            &&& !trades_ok(b@, count) ==> r == Err::<Vec<TradeRecord>, LoadError>(LoadError::CorruptData)
            &&& trades_ok(b@, count) ==> (r matches Ok(v) && v@.len() == count
                && forall|k: int| 0 <= k < count ==> trade_record_at(b@, k, #[trigger] v@[k]))
        }),
{
    let count = match check_header(b) {
        Ok(c) => c,
        Err(e) => return Err(e),
    };
    if !fits(b, count, TRADE_RECORD_LEN) {
        return Err(LoadError::CorruptData);
    }
    proof {
        assert(count <= b@.len()) by (nonlinear_arith)
            requires
                HEADER_LEN + count * TRADE_RECORD_LEN <= b@.len(),
        ;
        assert(b@.len() == b.len());
    }
    let n = count as usize;
    let mut out: Vec<TradeRecord> = Vec::new();
    let mut k: usize = 0;
    while k < n
        invariant
            n == count,
            header_error(b@) is None,
            count == le_u64(b@, 8),
            holds_records(b@, count as int, TRADE_RECORD_LEN as int),
            k <= n,
            out@.len() == k,
            forall|j: int| 0 <= j < k ==> #[trigger] record_ts(b@, j, TRADE_RECORD_LEN as int) <= MAX_TIMESTAMP,
            forall|j: int| 0 <= j < k ==> #[trigger] record_dir(b@, j) == DIRECTION_LONG || record_dir(b@, j) == DIRECTION_SHORT,
            forall|j: int| 0 <= j < k ==> trade_record_at(b@, j, #[trigger] out@[j]),
        decreases n - k,
    {
        proof {
            assert(HEADER_LEN + k * TRADE_RECORD_LEN + TRADE_RECORD_LEN <= b@.len()) by (nonlinear_arith)
                requires
                    k < n,
                    HEADER_LEN + n * TRADE_RECORD_LEN <= b@.len(),
            ;
            assert(b@.len() == b.len());
        }
        let at = HEADER_LEN + k * TRADE_RECORD_LEN;
        let ts = read_u64_le(b, at);
        if ts > MAX_TIMESTAMP {
            proof {
                assert(record_ts(b@, k as int, TRADE_RECORD_LEN as int) > MAX_TIMESTAMP);
            }
            return Err(LoadError::CorruptData);
        }
        let d = b[at + 8];
        let direction = if d == DIRECTION_LONG {
            Direction::Long
        } else if d == DIRECTION_SHORT {
            Direction::Short
        } else {
            proof {
                assert(record_dir(b@, k as int) == d);
            }
            return Err(LoadError::CorruptData);
        };
        let datetime = match local_seconds(ts as i64) {
            Some(t) => t,
            None => return Err(LoadError::CorruptData),
        };
        let rec = TradeRecord { datetime, direction, price_bits: read_u64_le(b, at + 9), volume_bits: read_u64_le(b, at + 17) };
        proof {
            assert(record_dir(b@, k as int) == d);
            assert(trade_record_at(b@, k as int, rec));
        }
        out.push(rec);
        k = k + 1;
    }
    Ok(out)
}

} // verus!
