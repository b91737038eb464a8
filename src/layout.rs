//! Screen layout of the chart: the outer frame, the price plot and the volume
//! plot below it, in whole pixels with y growing downwards.
use vstd::prelude::*;

verus! {

pub const MARGIN: i64 = 5;
pub const AXIS_X_HEIGHT: i64 = 32;
pub const AXIS_Y_WIDTH: i64 = 80;
pub const HINT_HEIGHT: i64 = 80;
/// Width of the information panel beside the cursor.
pub const INFO_WIDTH: i64 = 80;
/// Largest screen coordinate the chart handles, in pixels.
pub const SCREEN_EXTENT: i64 = 0x1_0000_0000;
/// Largest coordinate of a shape derived from screen positions.
pub const MAX_EXTENT: i64 = 0x4_0000_0000;

/// An outlined rectangle in screen pixels (y down): the chart frame and plots.
#[derive(Clone, Copy, Debug, PartialEq, Eq, Structural)]
pub struct RectangleFrame {
    pub x: i64,
    pub y: i64,
    pub width: i64,
    pub height: i64,
}

impl RectangleFrame {
    /// Every field is within `SCREEN_EXTENT` of zero.
    pub open spec fn on_screen(&self) -> bool {
        &&& -SCREEN_EXTENT <= self.x <= SCREEN_EXTENT
        &&& -SCREEN_EXTENT <= self.y <= SCREEN_EXTENT
        &&& -SCREEN_EXTENT <= self.width <= SCREEN_EXTENT
        &&& -SCREEN_EXTENT <= self.height <= SCREEN_EXTENT
    }

    /// Every field is within `MAX_EXTENT` of zero.
    pub open spec fn bounded(&self) -> bool {
        &&& -MAX_EXTENT <= self.x <= MAX_EXTENT
        &&& -MAX_EXTENT <= self.y <= MAX_EXTENT
        &&& -MAX_EXTENT <= self.width <= MAX_EXTENT
        &&& -MAX_EXTENT <= self.height <= MAX_EXTENT
    }
}

/// A filled rectangle in screen pixels (y down), such as a label background.
#[derive(Clone, Copy, Debug, PartialEq, Eq, Structural)]
pub struct RectangleFilled {
    pub x: i64,
    pub y: i64,
    pub width: i64,
    pub height: i64,
}

impl RectangleFilled {
    /// Every field is within `MAX_EXTENT` of zero.
    pub open spec fn bounded(&self) -> bool {
        &&& -MAX_EXTENT <= self.x <= MAX_EXTENT
        &&& -MAX_EXTENT <= self.y <= MAX_EXTENT
        &&& -MAX_EXTENT <= self.width <= MAX_EXTENT
        &&& -MAX_EXTENT <= self.height <= MAX_EXTENT
    }
}

#[derive(Clone, Copy, Debug, PartialEq, Eq, Structural)]
pub struct ChartLayout {
    pub screen_width: i64,
    pub screen_height: i64,
    /// Frame around everything but the hint lines at the bottom.
    pub frame: RectangleFrame,
    /// The price (candlestick) plot.
    pub price: RectangleFrame,
    /// The volume plot, right below the price plot.
    pub volume: RectangleFrame,
}

pub open spec fn spec_max(a: int, b: int) -> int {
    if a >= b { a } else { b }
}

pub open spec fn spec_min(a: int, b: int) -> int {
    if a <= b { a } else { b }
}

/// Height shared by the two plots on a screen of height `h` (at least one pixel each).
pub open spec fn plots_height(h: int) -> int {
    spec_max(h - 2 * MARGIN - HINT_HEIGHT - AXIS_X_HEIGHT, 2)
}

/// The layout for a screen of `w` by `h` pixels (each taken as at least one):
/// the price plot gets seven tenths of the plots' height, rounded down, and
/// the volume plot the rest.
pub open spec fn layout_of(w: int, h: int) -> ChartLayout {
    let sw = spec_max(w, 1);
    let sh = spec_max(h, 1);
    let ph = plots_height(sh);
    let kh = ph * 7 / 10;
    let pw = spec_max(sw - 2 * MARGIN - AXIS_Y_WIDTH, 1);
    ChartLayout {
        screen_width: sw as i64,
        screen_height: sh as i64,
        frame: RectangleFrame { x: MARGIN, y: MARGIN, width: (sw - 2 * MARGIN) as i64, height: (sh - 2 * MARGIN - HINT_HEIGHT) as i64 },
        price: RectangleFrame { x: MARGIN, y: MARGIN, width: pw as i64, height: kh as i64 },
        volume: RectangleFrame { x: MARGIN, y: (MARGIN + kh) as i64, width: pw as i64, height: (ph - kh) as i64 },
    }
}

impl ChartLayout {
    pub open spec fn wf(&self) -> bool {
        &&& 1 <= self.screen_width <= SCREEN_EXTENT
        &&& 1 <= self.screen_height <= SCREEN_EXTENT
        &&& self.frame.on_screen()
        &&& self.price.on_screen()
        &&& self.volume.on_screen()
        &&& self.volume.y + self.volume.height <= SCREEN_EXTENT
        &&& self.price.width >= 1
        &&& self.price.height >= 1
        &&& self.volume.height >= 1
        &&& self.volume.x == self.price.x
        &&& self.volume.width == self.price.width
        &&& self.volume.y == self.price.y + self.price.height
    }

    /// The layout for a screen of the given size.
    pub fn new(width: u32, height: u32) -> (r: ChartLayout)
        ensures
            r == layout_of(width as int, height as int),
            r.wf(),
    {
        let sw: i64 = if width >= 1 { width as i64 } else { 1 };
        let sh: i64 = if height >= 1 { height as i64 } else { 1 };
        let avail = sh - 2 * MARGIN - HINT_HEIGHT - AXIS_X_HEIGHT;
        let ph: i64 = if avail >= 2 { avail } else { 2 };
        let kh: i64 = ph * 7 / 10;
        let free = sw - 2 * MARGIN - AXIS_Y_WIDTH;
        let pw: i64 = if free >= 1 { free } else { 1 };
        ChartLayout {
            screen_width: sw,
            screen_height: sh,
            frame: RectangleFrame { x: MARGIN, y: MARGIN, width: sw - 2 * MARGIN, height: sh - 2 * MARGIN - HINT_HEIGHT },
            price: RectangleFrame { x: MARGIN, y: MARGIN, width: pw, height: kh },
            volume: RectangleFrame { x: MARGIN, y: MARGIN + kh, width: pw, height: ph - kh },
        }
    }
}

/// Height of the price and volume labels beside the cursor's horizontal line.
pub const CURSOR_LABEL_HEIGHT: i64 = 16;
/// Raise of those labels above the line.
pub const CURSOR_LABEL_RAISE: i64 = 8;
/// Size of the datetime label under the cursor's vertical line.
pub const DATETIME_LABEL_WIDTH: i64 = 80;
pub const DATETIME_LABEL_HEIGHT: i64 = 32;
/// Height of the information panel.
pub const INFO_HEIGHT: i64 = 320;

/// A line segment in screen pixels.
#[derive(Clone, Copy, Debug, PartialEq, Eq, Structural)]
pub struct Line {
    pub x1: i64,
    pub y1: i64,
    pub x2: i64,
    pub y2: i64,
}

/// The cursor overlay: a vertical line through both plots with a datetime
/// label below, a horizontal line across the plot under the pointer with a
/// value label at its right end, and the information panel.
#[derive(Clone, Copy, Debug, PartialEq, Eq, Structural)]
pub struct CursorShapes {
    pub vertical: Line,
    pub vertical_label: RectangleFilled,
    pub horizontal: Option<Line>,
    pub horizontal_label: Option<RectangleFilled>,
    pub info_box: RectangleFilled,
}

/// The horizontal line and label across plot `p` at height `y`.
pub open spec fn crosshair(p: RectangleFrame, y: int) -> (Line, RectangleFilled) {
    (
        Line { x1: p.x, y1: y as i64, x2: (p.x + p.width) as i64, y2: y as i64 },
        RectangleFilled { x: (p.x + p.width) as i64, y: (y - CURSOR_LABEL_RAISE) as i64, width: AXIS_Y_WIDTH, height: CURSOR_LABEL_HEIGHT },
    )
}

/// The overlay for the pointer at `(x, y)`: the horizontal parts over the
/// price plot for `price.y <= y < price.y + price.height`, over the volume
/// plot for `volume.y < y <= volume.y + volume.height`, else none; the panel
/// at the price plot's left edge when `dock_left`, else its right edge.
pub open spec fn cursor_shapes_of(l: ChartLayout, x: int, y: int, dock_left: bool) -> CursorShapes {
    let k = l.price;
    let v = l.volume;
    let bottom = v.y + v.height;
    let across = if k.y <= y < k.y + k.height {
        Some(crosshair(k, y))
    } else if v.y < y <= bottom {
        Some(crosshair(v, y))
    } else {
        None
    };
    CursorShapes {
        vertical: Line { x1: x as i64, y1: k.y, x2: x as i64, y2: bottom as i64 },
        vertical_label: RectangleFilled { x: x as i64, y: bottom as i64, width: DATETIME_LABEL_WIDTH, height: DATETIME_LABEL_HEIGHT },
        horizontal: match across { Some(c) => Some(c.0), None => None },
        horizontal_label: match across { Some(c) => Some(c.1), None => None },
        info_box: RectangleFilled {
            x: if dock_left { k.x } else { (k.x + k.width - INFO_WIDTH) as i64 },
            y: k.y,
            width: INFO_WIDTH,
            height: INFO_HEIGHT,
        },
    }
}

fn crosshair_at(p: RectangleFrame, y: i64) -> (r: (Line, RectangleFilled))
    requires
        p.on_screen(),
        -SCREEN_EXTENT <= y <= SCREEN_EXTENT,
    ensures
        r == crosshair(p, y as int),
{
    (
        Line { x1: p.x, y1: y, x2: p.x + p.width, y2: y },
        RectangleFilled { x: p.x + p.width, y: y - CURSOR_LABEL_RAISE, width: AXIS_Y_WIDTH, height: CURSOR_LABEL_HEIGHT },
    )
}

/// The cursor overlay for the pointer at `(x, y)`.
pub fn cursor_shapes(layout: &ChartLayout, x: i64, y: i64, dock_left: bool) -> (r: CursorShapes)
    requires
        layout.wf(),
        -SCREEN_EXTENT <= x <= SCREEN_EXTENT,
        -SCREEN_EXTENT <= y <= SCREEN_EXTENT,
    ensures
        r == cursor_shapes_of(*layout, x as int, y as int, dock_left),
        r.vertical.shown(),
        r.vertical_label.bounded(),
        r.horizontal matches Some(h) ==> h.shown(),
        r.horizontal_label matches Some(h) ==> h.bounded(),
        r.info_box.bounded(),
{
    let k = layout.price;
    let v = layout.volume;
    let bottom = v.y + v.height;
    let across = if k.y <= y && y < k.y + k.height {
        Some(crosshair_at(k, y))
    } else if v.y < y && y <= bottom {
        Some(crosshair_at(v, y))
    } else {
        None
    };
    CursorShapes {
        vertical: Line { x1: x, y1: k.y, x2: x, y2: bottom },
        vertical_label: RectangleFilled { x, y: bottom, width: DATETIME_LABEL_WIDTH, height: DATETIME_LABEL_HEIGHT },
        horizontal: match across { Some(c) => Some(c.0), None => None },
        horizontal_label: match across { Some(c) => Some(c.1), None => None },
        info_box: RectangleFilled {
            x: if dock_left { k.x } else { k.x + k.width - INFO_WIDTH },
            y: k.y,
            width: INFO_WIDTH,
            height: INFO_HEIGHT,
        },
    }
}

/// A screen point with y measured up from the bottom edge.
pub open spec fn flip(x: int, y: int, screen_height: int) -> (i64, i64) {
    (x as i64, (screen_height - y) as i64)
}

/// The closed outline of `r` (five points, the first repeated), y measured
/// up from the bottom of a screen `screen_height` pixels tall.
pub open spec fn outline_of(r: RectangleFrame, screen_height: int) -> Seq<(i64, i64)> {
    seq![
        flip(r.x as int, r.y as int, screen_height),
        flip(r.x + r.width, r.y as int, screen_height),
        flip(r.x + r.width, r.y + r.height, screen_height),
        flip(r.x as int, r.y + r.height, screen_height),
        flip(r.x as int, r.y as int, screen_height),
    ]
}

/// The corners of `r` as a triangle strip, y measured up from the bottom.
pub open spec fn strip_of(r: RectangleFilled, screen_height: int) -> Seq<(i64, i64)> {
    seq![
        flip(r.x as int, r.y as int, screen_height),
        flip(r.x as int, r.y + r.height, screen_height),
        flip(r.x + r.width, r.y as int, screen_height),
        flip(r.x + r.width, r.y + r.height, screen_height),
    ]
}

impl RectangleFrame {
    /// The outline, drawn as a line strip.
    pub fn make_vertex(&self, screen_height: i64) -> (r: Vec<(i64, i64)>)
        requires
            self.bounded(),
            -MAX_EXTENT <= screen_height <= MAX_EXTENT,
        ensures
            r@ == outline_of(*self, screen_height as int),
    {
        let (l, rt) = (self.x, self.x + self.width);
        let (t, b) = (screen_height - self.y, screen_height - self.y - self.height);
        let r = vec![(l, t), (rt, t), (rt, b), (l, b), (l, t)];
        assert(r@ =~= outline_of(*self, screen_height as int));
        r
    }
}

impl RectangleFilled {
    /// The filled rectangle, drawn as a triangle strip.
    pub fn make_vertex(&self, screen_height: i64) -> (r: Vec<(i64, i64)>)
        requires
            self.bounded(),
            -MAX_EXTENT <= screen_height <= MAX_EXTENT,
        ensures
            r@ == strip_of(*self, screen_height as int),
    {
        let (l, rt) = (self.x, self.x + self.width);
        let (t, b) = (screen_height - self.y, screen_height - self.y - self.height);
        let r = vec![(l, t), (l, b), (rt, t), (rt, b)];
        assert(r@ =~= strip_of(*self, screen_height as int));
        r
    }
}

impl Line {
    /// Every end point coordinate is within `MAX_EXTENT` of zero.
    pub open spec fn shown(&self) -> bool {
        &&& -MAX_EXTENT <= self.x1 <= MAX_EXTENT
        &&& -MAX_EXTENT <= self.y1 <= MAX_EXTENT
        &&& -MAX_EXTENT <= self.x2 <= MAX_EXTENT
        &&& -MAX_EXTENT <= self.y2 <= MAX_EXTENT
    }

    /// The two end points, y measured up from the bottom.
    pub fn make_vertex(&self, screen_height: i64) -> (r: Vec<(i64, i64)>)
        requires
            self.shown(),
            -MAX_EXTENT <= screen_height <= MAX_EXTENT,
        ensures
            r@ == seq![flip(self.x1 as int, self.y1 as int, screen_height as int), flip(self.x2 as int, self.y2 as int, screen_height as int)],
    {
        let (y1, y2) = (screen_height - self.y1, screen_height - self.y2);
        let r = vec![(self.x1, y1), (self.x2, y2)];
        assert(r@ =~= seq![flip(self.x1 as int, self.y1 as int, screen_height as int), flip(self.x2 as int, self.y2 as int, screen_height as int)]);
        r
    }
}

} // verus!
