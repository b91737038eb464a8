//! Coordinate transforms: the data-space box each plot shows, and the values
//! and bars its axes are labelled with.
use vstd::prelude::*;
use vstd::arithmetic::div_mod::{lemma_fundamental_div_mod, lemma_div_pos_is_pos};
use crate::geometry::Vertex;
use crate::layout::MAX_EXTENT;
use crate::market::MAX_BARS;
use crate::viewport::{scale, scaled};

verus! {

/// Pixels between price or volume axis labels.
pub const AXIS_LABEL_SPACING: i64 = 30;
/// Pixels between datetime axis labels.
pub const AXIS_DATETIME_SPACING: i64 = 300;
/// Trade volume labels are drawn only while at most this many bars per
/// pixel of plot width are visible.
pub const LABEL_BARS_PER_PIXEL: i64 = 5;

/// The data-space rectangle a plot shows: x in tenths of an index step.
/// An orthographic camera centred on it, with half-extents half its size,
/// maps it onto the plot.
#[derive(Clone, Copy, Debug, PartialEq, Eq, Structural)]
pub struct ViewBox {
    pub x_min_tenths: i64,
    pub x_max_tenths: i64,
    pub y_min: i64,
    pub y_max: i64,
}

/// The bars `left..=right` padded by half a bar on each side, over `y_min..=y_max`.
pub open spec fn view_box_of(left: int, right: int, y_min: int, y_max: int) -> ViewBox {
    ViewBox { x_min_tenths: (10 * left - 5) as i64, x_max_tenths: (10 * right + 5) as i64, y_min: y_min as i64, y_max: y_max as i64 }
}

/// The price plot's box: the visible bars over `min_price..=max_price`.
pub fn candle_view_box(left_ix: i64, right_ix: i64, min_price: i64, max_price: i64) -> (r: ViewBox)
    requires
        0 <= left_ix <= right_ix < MAX_BARS,
    ensures
        r == view_box_of(left_ix as int, right_ix as int, min_price as int, max_price as int),
{
    ViewBox { x_min_tenths: 10 * left_ix - 5, x_max_tenths: 10 * right_ix + 5, y_min: min_price, y_max: max_price }
}

/// The volume plot's box: the visible bars over `0..=max_volume`.
pub fn volume_view_box(left_ix: i64, right_ix: i64, max_volume: i64) -> (r: ViewBox)
    requires
        0 <= left_ix <= right_ix < MAX_BARS,
    ensures
        r == view_box_of(left_ix as int, right_ix as int, 0, max_volume as int),
{
    ViewBox { x_min_tenths: 10 * left_ix - 5, x_max_tenths: 10 * right_ix + 5, y_min: 0, y_max: max_volume }
}

/// `v` lies horizontally within the box widened by a tenth of its width on
/// each side.
pub open spec fn label_in_view(b: ViewBox, v: Vertex) -> bool {
    let span = b.x_max_tenths - b.x_min_tenths;
    -span <= 10 * (v.x_tenths - b.x_min_tenths) <= 11 * span
}

/// Whether a trade label anchored at `v` is near enough to the view to draw.
pub fn label_visible(b: ViewBox, v: Vertex) -> (r: bool)
    requires
        -10 * MAX_BARS <= b.x_min_tenths <= b.x_max_tenths <= 10 * MAX_BARS,
        -10 * MAX_BARS <= v.x_tenths <= 10 * MAX_BARS,
    ensures
        r == label_in_view(b, v),
{
    let span = b.x_max_tenths - b.x_min_tenths;
    let d = 10 * (v.x_tenths - b.x_min_tenths);
    -span <= d && d <= 11 * span
}

/// Trade volume labels are shown while the visible bar count is at most
/// `LABEL_BARS_PER_PIXEL` per pixel of plot width.
pub fn show_trade_labels(left_ix: i64, right_ix: i64, chart_width: i64) -> (r: bool)
    requires
        0 <= left_ix <= right_ix < MAX_BARS,
        0 <= chart_width <= MAX_EXTENT,
    ensures
        r == (right_ix - left_ix + 1 <= chart_width * LABEL_BARS_PER_PIXEL),
{
    right_ix - left_ix + 1 <= chart_width * LABEL_BARS_PER_PIXEL
}

/// Number of label intervals on an axis `extent` pixels long with labels
/// every `spacing` pixels.
pub open spec fn axis_intervals(extent: int, spacing: int) -> int {
    extent / spacing + 1
}

/// Price axis labels from `min_price` up to `max_price`, evenly spaced over
/// a plot `height` pixels tall: label `i` is `i / n` of the way up, for
/// `i` in `0..=n`, the last being `max_price` itself.
pub fn axis_price_values(min_price: i64, max_price: i64, height: i64) -> (r: Vec<i64>)
    requires
        1 <= height <= MAX_EXTENT,
    ensures
        r@.len() == axis_intervals(height as int, AXIS_LABEL_SPACING as int) + 1,
        forall|i: int| 0 <= i < r@.len() ==>
            #[trigger] r@[i] == scaled(i, axis_intervals(height as int, AXIS_LABEL_SPACING as int), min_price as int, max_price as int),
{
    let n = height / AXIS_LABEL_SPACING + 1;
    let mut out: Vec<i64> = Vec::new();
    let mut i: i64 = 0;
    while i <= n
        invariant
            n == axis_intervals(height as int, AXIS_LABEL_SPACING as int),
            1 <= n <= MAX_EXTENT,
            0 <= i <= n + 1,
            out@.len() == i,
            forall|j: int| 0 <= j < i ==> #[trigger] out@[j] == scaled(j, n as int, min_price as int, max_price as int),
        decreases n + 1 - i,
    {
        out.push(scale(i, n, min_price, max_price));
        i = i + 1;
    }
    out
}

/// Volume axis labels from zero, evenly spaced over a plot `height` pixels
/// tall: label `i` is `i / n` of `max_volume`, for `i` in `0..n`.
pub fn axis_volume_values(max_volume: i64, height: i64) -> (r: Vec<i64>)
    requires
        1 <= height <= MAX_EXTENT,
    ensures
        r@.len() == axis_intervals(height as int, AXIS_LABEL_SPACING as int),
        forall|i: int| 0 <= i < r@.len() ==>
            #[trigger] r@[i] == scaled(i, axis_intervals(height as int, AXIS_LABEL_SPACING as int), 0, max_volume as int),
{
    let n = height / AXIS_LABEL_SPACING + 1;
    let mut out: Vec<i64> = Vec::new();
    let mut i: i64 = 0;
    while i < n
        invariant
            n == axis_intervals(height as int, AXIS_LABEL_SPACING as int),
            1 <= n <= MAX_EXTENT,
            0 <= i <= n,
            out@.len() == i,
            forall|j: int| 0 <= j < i ==> #[trigger] out@[j] == scaled(j, n as int, 0, max_volume as int),
        decreases n - i,
    {
        out.push(scale(i, n, 0, max_volume));
        i = i + 1;
    }
    out
}

/// Bars labelled on the datetime axis of a plot `width` pixels wide: with
/// `step` the visible bar count divided by `n`, label `i < n` is bar
/// `left_ix + i * step`, and label `n` is `right_ix`.
pub fn axis_datetime_indices(left_ix: i64, right_ix: i64, width: i64) -> (r: Vec<i64>)
    requires
        0 <= left_ix <= right_ix < MAX_BARS,
        1 <= width <= MAX_EXTENT,
    ensures
        r@.len() == axis_intervals(width as int, AXIS_DATETIME_SPACING as int) + 1,
        forall|i: int| 0 <= i < r@.len() ==> #[trigger] r@[i] == if i == r@.len() - 1 {
            right_ix as int
        } else {
            left_ix + i * ((right_ix - left_ix + 1) / axis_intervals(width as int, AXIS_DATETIME_SPACING as int))
        },
        forall|i: int| 0 <= i < r@.len() ==> left_ix <= #[trigger] r@[i] <= right_ix,
{
    let n = width / AXIS_DATETIME_SPACING + 1;
    let count = right_ix - left_ix + 1;
    let step = count / n;
    proof {
        lemma_fundamental_div_mod(count as int, n as int);
        lemma_div_pos_is_pos(count as int, n as int);
        assert(step * n <= count) by (nonlinear_arith)
            requires
                count == n * step + count % n,
                count % n >= 0,
        ;
    }
    let mut out: Vec<i64> = Vec::new();
    let mut i: i64 = 0;
    while i < n
        invariant
            n == axis_intervals(width as int, AXIS_DATETIME_SPACING as int),
            1 <= n <= MAX_EXTENT,
            count == right_ix - left_ix + 1,
            0 <= left_ix <= right_ix < MAX_BARS,
            step == count / n,
            0 <= step,
            step * n <= count,
            0 <= i <= n,
            out@.len() == i,
            forall|j: int| 0 <= j < i ==> #[trigger] out@[j] == left_ix + j * step,
            forall|j: int| 0 <= j < i ==> left_ix <= #[trigger] out@[j] <= right_ix,
        decreases n - i,
    {
        proof {
            assert(0 <= i * step <= count - 1) by (nonlinear_arith)
                requires
                    0 <= i < n,
                    step >= 0,
                    step * n <= count,
                    count >= 1,
            ;
        }
        out.push(left_ix + i * step);
        i = i + 1;
    }
    out.push(right_ix);
    out
}

} // verus!
