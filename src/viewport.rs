//! The viewport state machine: which bars are visible, and how zoom, pan and
//! cursor movement change that and the cursor readout.
use vstd::prelude::*;
use vstd::arithmetic::div_mod::{lemma_div_is_ordered, lemma_div_by_multiple, lemma_div_pos_is_pos};
use vstd::arithmetic::mul::{lemma_mul_inequality, lemma_mul_nonnegative, lemma_mul_is_commutative};
use crate::layout::{ChartLayout, INFO_WIDTH, MAX_EXTENT, spec_max, spec_min};
use crate::market::{HistoryData, MAX_BARS, get_price_range, get_volume_max, is_min_low, is_max_high, is_max_volume};

verus! {

/// Zooming in stops once this many bars or fewer are visible.
pub const MIN_BAR_COUNT: i64 = 50;

/// Viewport, drag and cursor state of the chart.
#[derive(Clone, Copy, Debug)]
pub struct Manager {
    /// First visible bar index.
    pub left_ix: i64,
    /// Last visible bar index (inclusive).
    pub right_ix: i64,
    /// Index of the dataset's last bar.
    pub last_ix: i64,
    /// Least low price of the visible bars, as last refreshed.
    pub min_price_view: i64,
    /// Greatest high price of the visible bars, as last refreshed.
    pub max_price_view: i64,
    /// Greatest volume of the visible bars, as last refreshed.
    pub max_volume_view: i64,
    /// Bar under the cursor, as last computed over the chart.
    pub cursor_ix: i64,
    /// Price under the cursor, when it is over the price plot.
    pub cursor_price: Option<i64>,
    /// Volume under the cursor, when it is over the volume plot.
    pub cursor_volume: Option<i64>,
    pub current_cursor_position: (i64, i64),
    /// Where the pointer was when the current drag began.
    pub pressed_position: Option<(i64, i64)>,
    /// The visible window when the current drag began.
    pub pressed_left_right_ix: Option<(i64, i64)>,
    /// The cursor is over the price or volume plot.
    pub cursor_show: bool,
    /// The information panel docks at the chart's left edge (else its right edge).
    pub cursor_dock_left: bool,
}

/// `0 <= left <= right <= last`.
pub open spec fn window_ok(left: int, right: int, last: int) -> bool {
    0 <= left <= right <= last
}

/// Division rounding towards zero, as an integer cast of the quotient does.
pub open spec fn trunc_div(a: int, b: int) -> int {
    if a >= 0 { a / b } else { -((-a) / b) }
}

/// Keyboard zoom in: drop a fifth of the visible bars from the left, unless
/// at most `MIN_BAR_COUNT` bars are visible.
pub open spec fn zoom_in_window(left: int, right: int) -> (int, int) {
    if right - left + 1 <= MIN_BAR_COUNT {
        (left, right)
    } else {
        (left + (right - left + 1) / 5, right)
    }
}

/// Keyboard zoom out: add a quarter of the visible bar count on the left,
/// stopping at the first bar.
pub open spec fn zoom_out_window(left: int, right: int) -> (int, int) {
    (spec_max(left - (right - left + 1) / 4, 0), right)
}

/// `v` held within `lo..=hi`.
pub open spec fn spec_clamp(v: int, lo: int, hi: int) -> int {
    spec_min(spec_max(v, lo), hi)
}

/// Zoom in about the cursor bar `cursor`: the left edge moves by a fifth of
/// `cursor - left + 1` and the right edge by a fifth of `right - cursor + 1`
/// (each rounded towards zero), unless at most `MIN_BAR_COUNT` bars are
/// visible. With the cursor bar outside the window a count is negative and
/// that edge moves outwards.
pub open spec fn zoom_in_at_window(left: int, right: int, cursor: int) -> (int, int) {
    if right - left + 1 <= MIN_BAR_COUNT {
        (left, right)
    } else {
        (left + trunc_div(cursor - left + 1, 5), right - trunc_div(right - cursor + 1, 5))
    }
}

/// Zoom out about the cursor bar `cursor`: the left edge moves out by a
/// quarter of `cursor - left + 1` and the right edge by a quarter of
/// `right - cursor + 1` (each rounded towards zero), then each edge is
/// clamped to `0..=last`.
pub open spec fn zoom_out_at_window(left: int, right: int, cursor: int, last: int) -> (int, int) {
    (
        spec_clamp(left - trunc_div(cursor - left + 1, 4), 0, last),
        spec_clamp(right + trunc_div(right - cursor + 1, 4), 0, last),
    )
}

/// Bars to shift for a drag of `dx` pixels over a plot `width` pixels wide
/// showing `count` bars.
pub open spec fn pan_shift(dx: int, count: int, width: int) -> int {
    trunc_div(dx * count, width)
}

/// The drag's starting window moved `shift` bars to the left, then slid back
/// within `0..=last` with its span kept.
pub open spec fn pan_window(left: int, right: int, last: int, shift: int) -> (int, int) {
    let l = left - shift;
    let r = right - shift;
    if l < 0 {
        (0, right - left)
    } else if r > last {
        (last - (right - left), last)
    } else {
        (l, r)
    }
}

/// `m` with its visible window replaced.
pub open spec fn with_window(m: Manager, w: (int, int)) -> Manager {
    Manager { left_ix: w.0 as i64, right_ix: w.1 as i64, ..m }
}

/// The state after the pointer moved to `x` during a drag (unchanged when no
/// drag is active).
pub open spec fn dragged(m: Manager, x: int, width: int) -> Manager {
    match (m.pressed_position, m.pressed_left_right_ix) {
        (Some(p), Some(w)) => with_window(m, pan_window(w.0 as int, w.1 as int, m.last_ix as int,
            pan_shift(x - p.0, w.1 - w.0 + 1, width))),
        _ => m,
    }
}

/// The pointer is over the price or volume plot.
pub open spec fn over_chart(layout: ChartLayout, x: int, y: int) -> bool {
    &&& layout.price.x <= x <= layout.price.x + layout.price.width
    &&& layout.price.y <= y <= layout.volume.y + layout.volume.height
}

/// `lo` plus the fraction `a / h` of the way to `hi`, rounded towards `lo`.
pub open spec fn scaled(a: int, h: int, lo: int, hi: int) -> int {
    lo + trunc_div(a * (hi - lo), h)
}

/// The cursor readout after the pointer moved to `(x, y)` in the window of `m`.
pub open spec fn hovered(m: Manager, layout: ChartLayout, x: int, y: int) -> Manager {
    let k = layout.price;
    let v = layout.volume;
    if over_chart(layout, x, y) {
        let count = m.right_ix - m.left_ix + 1;
        Manager {
            cursor_show: true,
            cursor_ix: spec_min((x - k.x) * count / (k.width as int) + m.left_ix, m.last_ix as int) as i64,
            cursor_price: if k.y <= y < k.y + k.height {
                Some(scaled(k.y + k.height - y, k.height as int, m.min_price_view as int, m.max_price_view as int) as i64)
            } else {
                None
            },
            cursor_volume: if v.y < y <= v.y + v.height {
                Some(scaled(v.y + v.height - y, v.height as int, 0, m.max_volume_view as int) as i64)
            } else {
                None
            },
            cursor_dock_left: x >= k.x + 2 * INFO_WIDTH,
            ..m
        }
    } else {
        Manager { cursor_show: false, cursor_price: None, cursor_volume: None, ..m }
    }
}

proof fn lemma_scaled_bounds(a: int, h: int, d: int)
    requires
        0 <= a <= h,
        1 <= h,
    ensures
        -spec_max(d, -d) <= trunc_div(a * d, h) <= spec_max(d, -d),
        d >= 0 ==> 0 <= trunc_div(a * d, h) <= d,
        d < 0 ==> d <= trunc_div(a * d, h) <= 0,
{
    let m = spec_max(d, -d);
    lemma_mul_inequality(a, h, m);
    lemma_mul_nonnegative(a, m);
    lemma_div_is_ordered(a * m, h * m, h);
    lemma_mul_is_commutative(h, m);
    lemma_div_by_multiple(m, h);
    lemma_div_pos_is_pos(a * m, h);
    if d < 0 {
        assert(a * d == -(a * m)) by (nonlinear_arith)
            requires
                m == -d,
        ;
    }
}

/// `a / d` rounded towards zero.
fn div_towards_zero(a: i64, d: i64) -> (r: i64)
    requires
        d >= 1,
        -MAX_BARS * 4 <= a <= MAX_BARS * 4,
    ensures
        r == trunc_div(a as int, d as int),
{
    if a >= 0 { a / d } else { -((-a) / d) }
}

/// Zooming in about any bar of the dataset keeps the window well formed
/// when more than `MIN_BAR_COUNT` bars are visible.
proof fn lemma_zoom_in_at_ok(left: int, right: int, cursor: int, last: int)
    requires
        window_ok(left, right, last),
        0 <= cursor <= last,
    ensures
        window_ok(zoom_in_at_window(left, right, cursor).0, zoom_in_at_window(left, right, cursor).1, last),
{
}

/// Zooming out about any bar keeps the window well formed.
proof fn lemma_zoom_out_at_ok(left: int, right: int, cursor: int, last: int)
    requires
        window_ok(left, right, last),
        0 <= cursor <= last,
    ensures
        window_ok(zoom_out_at_window(left, right, cursor, last).0, zoom_out_at_window(left, right, cursor, last).1, last),
{
}

/// `lo + trunc((a * (hi - lo)) / h)`: the point a fraction `a / h` of the way
/// from `lo` to `hi`.
pub fn scale(a: i64, h: i64, lo: i64, hi: i64) -> (r: i64)
    requires
        0 <= a <= h,
        1 <= h <= MAX_EXTENT,
    ensures
        r == scaled(a as int, h as int, lo as int, hi as int),
{
    let d: i128 = hi as i128 - lo as i128;
    proof {
        lemma_scaled_bounds(a as int, h as int, d as int);
        assert(-MAX_EXTENT * 0x1_0000_0000_0000_0000 <= a * d <= MAX_EXTENT * 0x1_0000_0000_0000_0000) by (nonlinear_arith)
            requires
                0 <= a <= MAX_EXTENT,
                -0x1_0000_0000_0000_0000 <= d <= 0x1_0000_0000_0000_0000,
        ;
    }
    let num: i128 = a as i128 * d;
    let q: i128 = if num >= 0 { num / (h as i128) } else { -((-num) / (h as i128)) };
    (lo as i128 + q) as i64
}

impl Manager {
    pub open spec fn wf(&self) -> bool {
        &&& 0 <= self.last_ix < MAX_BARS
        &&& window_ok(self.left_ix as int, self.right_ix as int, self.last_ix as int)
        &&& 0 <= self.cursor_ix <= self.last_ix
        &&& self.pressed_left_right_ix matches Some(w) ==> window_ok(w.0 as int, w.1 as int, self.last_ix as int)
    }

    /// The whole dataset visible, no drag, cursor off the chart.
    pub fn new(history: &HistoryData) -> (r: Manager)
        requires
            history.wf(),
        ensures
            r.wf(),
            (r == Manager {
                left_ix: 0,
                right_ix: history.last_ix() as i64,
                last_ix: history.last_ix() as i64,
                min_price_view: 0,
                max_price_view: 0,
                max_volume_view: 0,
                cursor_ix: 0,
                cursor_price: None,
                cursor_volume: None,
                current_cursor_position: (0, 0),
                pressed_position: None,
                pressed_left_right_ix: None,
                cursor_show: false,
                cursor_dock_left: true,
            }),
    {
        let last = history.bar_count() as i64 - 1;
        Manager {
            left_ix: 0,
            right_ix: last,
            last_ix: last,
            min_price_view: 0,
            max_price_view: 0,
            max_volume_view: 0,
            cursor_ix: 0,
            cursor_price: None,
            cursor_volume: None,
            current_cursor_position: (0, 0),
            pressed_position: None,
            pressed_left_right_ix: None,
            cursor_show: false,
            cursor_dock_left: true,
        }
    }

    /// The bar under the cursor, when the cursor is over the chart.
    pub fn hovered_bar_index(&self) -> (r: Option<i64>)
        ensures
            r == (if self.cursor_show { Some(self.cursor_ix) } else { None::<i64> }),
    {
        if self.cursor_show {
            Some(self.cursor_ix)
        } else {
            None
        }
    }

    /// Refreshes the price and volume ranges of the visible bars.
    pub fn update_maxmin_by_left_right_ix(&mut self, history: &HistoryData)
        requires
            old(self).wf(),
            history.wf(),
            old(self).last_ix == history.last_ix(),
        ensures
            final(self).wf(),
            is_min_low(history@, old(self).left_ix as int, old(self).right_ix as int, final(self).min_price_view),
            is_max_high(history@, old(self).left_ix as int, old(self).right_ix as int, final(self).max_price_view),
            is_max_volume(history@, old(self).left_ix as int, old(self).right_ix as int, final(self).max_volume_view),
            (*final(self) == Manager {
                min_price_view: final(self).min_price_view,
                max_price_view: final(self).max_price_view,
                max_volume_view: final(self).max_volume_view,
                ..*old(self)
            }),
    {
        let (lo, hi) = get_price_range(history, self.left_ix, self.right_ix);
        self.min_price_view = lo;
        self.max_price_view = hi;
        self.max_volume_view = get_volume_max(history, self.left_ix, self.right_ix);
    }

    /// Zooms in by dropping bars on the left.
    pub fn zoom_in(&mut self)
        requires
            old(self).wf(),
        ensures
            final(self).wf(),
            *final(self) == with_window(*old(self), zoom_in_window(old(self).left_ix as int, old(self).right_ix as int)),
    {
        let count = self.right_ix - self.left_ix + 1;
        if count <= MIN_BAR_COUNT {
            return;
        }
        self.left_ix = self.left_ix + count / 5;
    }

    /// Zooms out by adding bars on the left.
    pub fn zoom_out(&mut self)
        requires
            old(self).wf(),
        ensures
            final(self).wf(),
            *final(self) == with_window(*old(self), zoom_out_window(old(self).left_ix as int, old(self).right_ix as int)),
    {
        let count = self.right_ix - self.left_ix + 1;
        let left = self.left_ix - count / 4;
        self.left_ix = if left > 0 { left } else { 0 };
    }


    /// Zooms in about the cursor bar.
    pub fn zoom_in_by(&mut self)
        requires
            old(self).wf(),
        ensures
            final(self).wf(),
            *final(self) == with_window(*old(self),
                zoom_in_at_window(old(self).left_ix as int, old(self).right_ix as int, old(self).cursor_ix as int)),
    {
        let count = self.right_ix - self.left_ix + 1;
        if count <= MIN_BAR_COUNT {
            return;
        }
        let c = self.cursor_ix;
        let left = self.left_ix + div_towards_zero(c - self.left_ix + 1, 5);
        let right = self.right_ix - div_towards_zero(self.right_ix - c + 1, 5);
        proof {
            lemma_zoom_in_at_ok(self.left_ix as int, self.right_ix as int, c as int, self.last_ix as int);
        }
        self.left_ix = left;
        self.right_ix = right;
    }

    /// Zooms out about the cursor bar.
    pub fn zoom_out_by(&mut self)
        requires
            old(self).wf(),
        ensures
            final(self).wf(),
            *final(self) == with_window(*old(self),
                zoom_out_at_window(old(self).left_ix as int, old(self).right_ix as int, old(self).cursor_ix as int, old(self).last_ix as int)),
    {
        let c = self.cursor_ix;
        let last = self.last_ix;
        let left = self.left_ix - div_towards_zero(c - self.left_ix + 1, 4);
        let right = self.right_ix + div_towards_zero(self.right_ix - c + 1, 4);
        proof {
            lemma_zoom_out_at_ok(self.left_ix as int, self.right_ix as int, c as int, last as int);
        }
        self.left_ix = if left < 0 { 0 } else if left > last { last } else { left };
        self.right_ix = if right < 0 { 0 } else if right > last { last } else { right };
    }

    /// Starts a drag at the current pointer position.
    pub fn begin_pan(&mut self)
        requires
            old(self).wf(),
        ensures
            final(self).wf(),
            (*final(self) == Manager {
                pressed_position: Some(old(self).current_cursor_position),
                pressed_left_right_ix: Some((old(self).left_ix, old(self).right_ix)),
                ..*old(self)
            }),
    {
        self.pressed_position = Some(self.current_cursor_position);
        self.pressed_left_right_ix = Some((self.left_ix, self.right_ix));
    }

    /// Ends the drag.
    pub fn end_pan(&mut self)
        requires
            old(self).wf(),
        ensures
            final(self).wf(),
            (*final(self) == Manager { pressed_position: None, pressed_left_right_ix: None, ..*old(self) }),
    {
        self.pressed_position = None;
        self.pressed_left_right_ix = None;
    }

    /// Moves the window with a drag whose pointer is now at `x`, over a plot
    /// `chart_width` pixels wide.
    pub fn drag_to(&mut self, x: i64, chart_width: i64)
        requires
            old(self).wf(),
            chart_width >= 1,
        ensures
            final(self).wf(),
            *final(self) == dragged(*old(self), x as int, chart_width as int),
    {
        match (self.pressed_position, self.pressed_left_right_ix) {
            (Some(p), Some(w)) => {
                let dx: i128 = x as i128 - p.0 as i128;
                let count: i128 = (w.1 - w.0 + 1) as i128;
                proof {
                    assert(-0x1_0000_0000_0000_0000 * MAX_BARS <= dx * count <= 0x1_0000_0000_0000_0000 * MAX_BARS) by (nonlinear_arith)
                        requires
                            -0x1_0000_0000_0000_0000 <= dx <= 0x1_0000_0000_0000_0000,
                            1 <= count <= MAX_BARS,
                    ;
                }
                let num: i128 = dx * count;
                let wd = chart_width as i128;
                let shift: i128 = if num >= 0 { num / wd } else { -((-num) / wd) };
                proof {
                    lemma_div_is_ordered(if num >= 0 { num as int } else { -num }, 0x1_0000_0000_0000_0000 * MAX_BARS, wd as int);
                    lemma_div_is_ordered(0x1_0000_0000_0000_0000 * MAX_BARS, 0x1_0000_0000_0000_0000 * MAX_BARS, 1);
                    vstd::arithmetic::div_mod::lemma_div_is_ordered_by_denominator(0x1_0000_0000_0000_0000 * MAX_BARS, 1, wd as int);
                }
                let l: i128 = w.0 as i128 - shift;
                let r: i128 = w.1 as i128 - shift;
                let last = self.last_ix as i128;
                if l < 0 {
                    self.left_ix = 0;
                    self.right_ix = w.1 - w.0;
                } else if r > last {
                    self.right_ix = self.last_ix;
                    self.left_ix = self.last_ix - (w.1 - w.0);
                } else {
                    self.left_ix = l as i64;
                    self.right_ix = r as i64;
                }
            },
            _ => {},
        }
    }

    /// Recomputes the cursor readout for the pointer at `(x, y)`.
    pub fn update_cursor(&mut self, layout: &ChartLayout, x: i64, y: i64)
        requires
            old(self).wf(),
            layout.wf(),
        ensures
            final(self).wf(),
            *final(self) == hovered(*old(self), *layout, x as int, y as int),
    {
        let k = layout.price;
        let v = layout.volume;
        if x >= k.x && x <= k.x + k.width && y >= k.y && y <= v.y + v.height {
            self.cursor_show = true;
            let count = self.right_ix - self.left_ix + 1;
            let dx = x - k.x;
            proof {
                assert(dx * count <= MAX_EXTENT * MAX_BARS) by (nonlinear_arith)
                    requires
                        0 <= dx <= MAX_EXTENT,
                        1 <= count <= MAX_BARS,
                ;
                lemma_mul_nonnegative(dx as int, count as int);
                lemma_div_pos_is_pos(dx * count, k.width as int);
                lemma_div_is_ordered(dx * count, MAX_EXTENT * MAX_BARS, k.width as int);
                vstd::arithmetic::div_mod::lemma_div_is_ordered_by_denominator(MAX_EXTENT * MAX_BARS, 1, k.width as int);
            }
            let ix: i128 = (dx as i128 * count as i128) / (k.width as i128) + self.left_ix as i128;
            self.cursor_ix = if ix < self.last_ix as i128 { ix as i64 } else { self.last_ix };
            if y >= k.y && y < k.y + k.height {
                self.cursor_price = Some(scale(k.y + k.height - y, k.height, self.min_price_view, self.max_price_view));
            } else {
                self.cursor_price = None;
            }
            if y > v.y && y <= v.y + v.height {
                self.cursor_volume = Some(scale(v.y + v.height - y, v.height, 0, self.max_volume_view));
            } else {
                self.cursor_volume = None;
            }
            self.cursor_dock_left = !(x < k.x + 2 * INFO_WIDTH);
        } else {
            self.cursor_show = false;
            self.cursor_price = None;
            self.cursor_volume = None;
        }
    }

    /// The pointer moved to `(x, y)`: drags the window if a drag is active,
    /// then recomputes the cursor readout.
    pub fn cursor_moved(&mut self, layout: &ChartLayout, x: i64, y: i64)
        requires
            old(self).wf(),
            layout.wf(),
        ensures
            final(self).wf(),
            *final(self) == hovered(
                dragged(Manager { current_cursor_position: (x, y), ..*old(self) }, x as int, layout.price.width as int),
                *layout, x as int, y as int),
    {
        self.current_cursor_position = (x, y);
        self.drag_to(x, layout.price.width);
        self.update_cursor(layout, x, y);
    }
}

/// At the zoom floor, zooming in (plainly or about any cursor) leaves the
/// window as it is.
pub proof fn lemma_zoom_in_floor(left: int, right: int, cursor: int)
    requires
        right - left + 1 == MIN_BAR_COUNT,
    ensures
        zoom_in_window(left, right) == (left, right),
        zoom_in_at_window(left, right, cursor) == (left, right),
{
}

/// Zooming in and then out restores the window to within one bar on the
/// left and exactly on the right, when more than `MIN_BAR_COUNT` bars are
/// visible and the window does not start at the first bar.
pub proof fn lemma_zoom_in_then_out(left: int, right: int)
    requires
        1 <= left,
        right - left + 1 > MIN_BAR_COUNT,
    ensures
        ({
            let w = zoom_out_window(zoom_in_window(left, right).0, zoom_in_window(left, right).1);
            &&& left - 1 <= w.0 <= left
            &&& w.1 == right
        }),
{
}

/// Zooming out and then in restores the window exactly, when more than
/// `MIN_BAR_COUNT` bars are visible and there are enough bars left of the
/// window for the zoom out to take its full quarter.
pub proof fn lemma_zoom_out_then_in(left: int, right: int)
    requires
        (right - left + 1) / 4 <= left,
        right - left + 1 > MIN_BAR_COUNT,
    ensures
        zoom_in_window(zoom_out_window(left, right).0, zoom_out_window(left, right).1) == (left, right),
{
}

/// A zoom or pan step, as the viewport's operations perform it.
#[derive(Clone, Copy, Debug, PartialEq, Eq, Structural)]
pub enum ViewOp {
    ZoomIn,
    ZoomOut,
    ZoomInAtCursor,
    ZoomOutAtCursor,
    BeginPan,
    /// The pointer at `x` during a drag over a plot `width` pixels wide.
    DragTo { x: i64, width: i64 },
    EndPan,
}

/// The state after `op`, as the corresponding operation leaves it.
pub open spec fn apply_op(m: Manager, op: ViewOp) -> Manager {
    match op {
        ViewOp::ZoomIn => with_window(m, zoom_in_window(m.left_ix as int, m.right_ix as int)),
        ViewOp::ZoomOut => with_window(m, zoom_out_window(m.left_ix as int, m.right_ix as int)),
        ViewOp::ZoomInAtCursor => with_window(m, zoom_in_at_window(m.left_ix as int, m.right_ix as int, m.cursor_ix as int)),
        ViewOp::ZoomOutAtCursor => with_window(m,
            zoom_out_at_window(m.left_ix as int, m.right_ix as int, m.cursor_ix as int, m.last_ix as int)),
        ViewOp::BeginPan => Manager {
            pressed_position: Some(m.current_cursor_position),
            pressed_left_right_ix: Some((m.left_ix, m.right_ix)),
            ..m
        },
        ViewOp::DragTo { x, width } => dragged(m, x as int, width as int),
        ViewOp::EndPan => Manager { pressed_position: None, pressed_left_right_ix: None, ..m },
    }
}

/// The state after the steps `ops`, in order.
pub open spec fn apply_ops(m: Manager, ops: Seq<ViewOp>) -> Manager
    decreases ops.len(),
{
    if ops.len() == 0 {
        m
    } else {
        apply_op(apply_ops(m, ops.drop_last()), ops.last())
    }
}

/// Drags are over plots at least one pixel wide.
pub open spec fn drags_ok(ops: Seq<ViewOp>) -> bool {
    forall|i: int| 0 <= i < ops.len() ==> (#[trigger] ops[i] matches ViewOp::DragTo { width, .. } ==> width >= 1)
}

proof fn lemma_apply_op_wf(m: Manager, op: ViewOp)
    requires
        m.wf(),
        op matches ViewOp::DragTo { width, .. } ==> width >= 1,
    ensures
        apply_op(m, op).wf(),
{
    match op {
        ViewOp::DragTo { x, width } => {
            match (m.pressed_position, m.pressed_left_right_ix) {
                (Some(p), Some(w)) => {
                    let shift = pan_shift(x - p.0, w.1 - w.0 + 1, width as int);
                    let r = pan_window(w.0 as int, w.1 as int, m.last_ix as int, shift);
                    assert(window_ok(r.0, r.1, m.last_ix as int));
                },
                _ => {},
            }
        },
        _ => {},
    }
}

/// Whatever sequence of zoom and pan steps is applied to a well-formed
/// state, `0 <= left_ix <= right_ix <= last_ix` holds afterwards (so at
/// least one bar stays visible).
pub proof fn lemma_window_invariant(m: Manager, ops: Seq<ViewOp>)
    requires
        m.wf(),
        drags_ok(ops),
    ensures
        apply_ops(m, ops).wf(),
        window_ok(apply_ops(m, ops).left_ix as int, apply_ops(m, ops).right_ix as int, m.last_ix as int),
    decreases ops.len(),
{
    if ops.len() > 0 {
        let prev = ops.drop_last();
        assert forall|i: int| 0 <= i < prev.len() implies (#[trigger] prev[i] matches ViewOp::DragTo { width, .. } ==> width >= 1) by {
            assert(prev[i] == ops[i]);
        }
        lemma_window_invariant(m, prev);
        assert(ops[ops.len() - 1] == ops.last());
        lemma_apply_op_wf(apply_ops(m, prev), ops.last());
        lemma_last_ix_kept(m, ops);
    }
}

proof fn lemma_last_ix_kept(m: Manager, ops: Seq<ViewOp>)
    ensures
        apply_ops(m, ops).last_ix == m.last_ix,
    decreases ops.len(),
{
    if ops.len() > 0 {
        lemma_last_ix_kept(m, ops.drop_last());
    }
}

impl Manager {
    /// Performs one zoom or pan step.
    pub fn apply(&mut self, op: ViewOp)
        requires
            old(self).wf(),
            op matches ViewOp::DragTo { width, .. } ==> width >= 1,
        ensures
            final(self).wf(),
            *final(self) == apply_op(*old(self), op),
    {
        match op {
            ViewOp::ZoomIn => self.zoom_in(),
            ViewOp::ZoomOut => self.zoom_out(),
            ViewOp::ZoomInAtCursor => self.zoom_in_by(),
            ViewOp::ZoomOutAtCursor => self.zoom_out_by(),
            ViewOp::BeginPan => self.begin_pan(),
            ViewOp::DragTo { x, width } => self.drag_to(x, width),
            ViewOp::EndPan => self.end_pan(),
        }
    }
}

/// Zooming in and then out about a cursor bar inside the window restores
/// each edge to within one bar, when more than `MIN_BAR_COUNT` bars are
/// visible and the window touches neither end of the dataset.
pub proof fn lemma_zoom_in_then_out_at(left: int, right: int, cursor: int, last: int)
    requires
        1 <= left <= cursor <= right < last,
        right - left + 1 > MIN_BAR_COUNT,
    ensures
        ({
            let w = zoom_in_at_window(left, right, cursor);
            let z = zoom_out_at_window(w.0, w.1, cursor, last);
            &&& left - 1 <= z.0 <= left
            &&& right <= z.1 <= right + 1
        }),
{
}

/// Zooming out and then in about a cursor bar inside the window restores
/// the window exactly, when more than `MIN_BAR_COUNT` bars are visible and
/// there is room on both sides for the zoom out to take its full quarters.
pub proof fn lemma_zoom_out_then_in_at(left: int, right: int, cursor: int, last: int)
    requires
        0 <= left <= cursor <= right <= last,
        (cursor - left + 1) / 4 <= left,
        right + (right - cursor + 1) / 4 <= last,
        right - left + 1 > MIN_BAR_COUNT,
    ensures
        ({
            let w = zoom_out_at_window(left, right, cursor, last);
            zoom_in_at_window(w.0, w.1, cursor) == (left, right)
        }),
{
}

} // verus!
