//! The data store: bars and executions, loaded once and read-only after.
use vstd::prelude::*;

verus! {

/// Largest number of bars a dataset may hold, so that a bar's x coordinate
/// in tenths of an index step fits in an `i64`.
pub const MAX_BARS: u64 = 100_000_000_000_000;

/// One OHLCV candlestick; prices in ticks, volume in traded units.
#[derive(Clone, Copy, Debug, PartialEq, Eq, Structural)]
pub struct Bar {
    /// Local wall-clock time in seconds.
    pub datetime: i64,
    pub open: i64,
    pub high: i64,
    pub low: i64,
    pub close: i64,
    pub volume: i64,
}

/// Why a dataset could not be loaded.
#[derive(Clone, Copy, Debug, PartialEq, Eq, Structural)]
pub enum LoadError {
    /// The file's version number is not the supported one.
    UnsupportedVersion,
    /// The file ends early or a record holds a value out of its range.
    CorruptData,
    /// No bars are present.
    EmptyDataset,
}

/// The bar history: never empty, indexed by position.
pub struct HistoryData {
    bars: Vec<Bar>,
}

impl View for HistoryData {
    type V = Seq<Bar>;

    closed spec fn view(&self) -> Seq<Bar> {
        self.bars@
    }
}

impl HistoryData {
    pub open spec fn wf(&self) -> bool {
        &&& 1 <= self@.len() <= MAX_BARS
        &&& self@.len() <= usize::MAX
    }

    /// The last valid bar index.
    pub open spec fn last_ix(&self) -> int {
        self@.len() - 1
    }

    /// Takes ownership of the bars; fails with `EmptyDataset` when there are none.
    pub fn new(bars: Vec<Bar>) -> (r: Result<HistoryData, LoadError>)
        requires
            bars@.len() <= MAX_BARS,
        ensures
            bars@.len() == 0 ==> r == Err::<HistoryData, LoadError>(LoadError::EmptyDataset),
            bars@.len() > 0 ==> (r matches Ok(h) && h@ == bars@ && h.wf()),
    {
        if bars.len() == 0 {
            Err(LoadError::EmptyDataset)
        } else {
            Ok(HistoryData { bars })
        }
    }

    pub fn bar_count(&self) -> (r: usize)
        ensures
            r == self@.len(),
    {
        self.bars.len()
    }

    pub fn bar(&self, i: usize) -> (r: Bar)
        requires
            i < self@.len(),
        ensures
            r == self@[i as int],
    {
        self.bars[i]
    }
}

/// `v` is the least low price of the bars `left..=right`.
pub open spec fn is_min_low(bars: Seq<Bar>, left: int, right: int, v: i64) -> bool {
    &&& exists|k: int| left <= k <= right && #[trigger] bars[k].low == v
    &&& forall|k: int| left <= k <= right ==> v <= #[trigger] bars[k].low
}

/// `v` is the greatest high price of the bars `left..=right`.
pub open spec fn is_max_high(bars: Seq<Bar>, left: int, right: int, v: i64) -> bool {
    &&& exists|k: int| left <= k <= right && #[trigger] bars[k].high == v
    &&& forall|k: int| left <= k <= right ==> #[trigger] bars[k].high <= v
}

/// `v` is the greatest volume of the bars `left..=right`.
pub open spec fn is_max_volume(bars: Seq<Bar>, left: int, right: int, v: i64) -> bool {
    &&& exists|k: int| left <= k <= right && #[trigger] bars[k].volume == v
    &&& forall|k: int| left <= k <= right ==> #[trigger] bars[k].volume <= v
}

/// The least low and the greatest high over the bars `left..=right`.
pub fn get_price_range(history: &HistoryData, left_ix: i64, right_ix: i64) -> (r: (i64, i64))
    requires
        history.wf(),
        0 <= left_ix <= right_ix <= history.last_ix(),
    ensures
        is_min_low(history@, left_ix as int, right_ix as int, r.0),
        is_max_high(history@, left_ix as int, right_ix as int, r.1),
{
    let first = history.bar(left_ix as usize);
    let mut lo = first.low;
    let mut hi = first.high;
    let mut i: usize = left_ix as usize + 1;
    let end: usize = right_ix as usize;
    while i <= end
        invariant
            history.wf(),
            left_ix < i <= end + 1,
            end == right_ix,
            right_ix <= history.last_ix(),
            is_min_low(history@, left_ix as int, i - 1, lo),
            is_max_high(history@, left_ix as int, i - 1, hi),
        decreases end + 1 - i,
    {
        let b = history.bar(i);
        if b.low < lo {
            lo = b.low;
        }
        if b.high > hi {
            hi = b.high;
        }
        i = i + 1;
    }
    (lo, hi)
}

/// The greatest volume over the bars `left..=right`.
pub fn get_volume_max(history: &HistoryData, left_ix: i64, right_ix: i64) -> (r: i64)
    requires
        history.wf(),
        0 <= left_ix <= right_ix <= history.last_ix(),
    ensures
        is_max_volume(history@, left_ix as int, right_ix as int, r),
{
    let mut hi = history.bar(left_ix as usize).volume;
    let mut i: usize = left_ix as usize + 1;
    let end: usize = right_ix as usize;
    while i <= end
        invariant
            history.wf(),
            left_ix < i <= end + 1,
            end == right_ix,
            right_ix <= history.last_ix(),
            is_max_volume(history@, left_ix as int, i - 1, hi),
        decreases end + 1 - i,
    {
        let v = history.bar(i).volume;
        if v > hi {
            hi = v;
        }
        i = i + 1;
    }
    hi
}

/// The first bar index at or after `start` whose datetime is `dt`, if any.
pub open spec fn scan_ix(bars: Seq<Bar>, dt: i64, start: int) -> Option<int>
    decreases bars.len() - start,
{
    if start < 0 || start >= bars.len() {
        None
    } else if bars[start].datetime == dt {
        Some(start)
    } else {
        scan_ix(bars, dt, start + 1)
    }
}

/// The first bar index at or after `start` whose datetime is exactly `dt`,
/// scanning forward only.
pub fn search_ix_by_dt(history: &HistoryData, dt: i64, start: usize) -> (r: Option<usize>)
    ensures
        match r {
            Some(i) => scan_ix(history@, dt, start as int) == Some(i as int) && start <= i < history@.len()
                && history@[i as int].datetime == dt,
            None => scan_ix(history@, dt, start as int) == None::<int>,
        },
{
    let n = history.bar_count();
    let mut i = start;
    while i < n
        invariant
            n == history@.len(),
            start <= i,
            scan_ix(history@, dt, start as int) == scan_ix(history@, dt, i as int),
        decreases n - i,
    {
        if history.bar(i).datetime == dt {
            return Some(i);
        }
        i = i + 1;
    }
    None
}

} // verus!
