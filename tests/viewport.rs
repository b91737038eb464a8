use candle_chart::layout::ChartLayout;
use candle_chart::market::{Bar, HistoryData};
use candle_chart::viewport::{Manager, ViewOp, MIN_BAR_COUNT};

fn history(n: usize) -> HistoryData {
    let bars: Vec<Bar> = (0..n as i64)
        .map(|i| Bar { datetime: i * 60, open: 100 + i, high: 110 + i, low: 90 + i, close: 101 + i, volume: 1000 + i })
        .collect();
    HistoryData::new(bars).unwrap()
}

fn manager(n: usize, left: i64, right: i64) -> Manager {
    let mut m = Manager::new(&history(n));
    m.left_ix = left;
    m.right_ix = right;
    m
}

#[test]
fn new_shows_everything() {
    let m = Manager::new(&history(100));
    assert_eq!((m.left_ix, m.right_ix, m.last_ix), (0, 99, 99));
    assert!(!m.cursor_show);
    assert_eq!(m.hovered_bar_index(), None);
}

#[test]
fn zoom_in_drops_a_fifth_on_the_left() {
    let mut m = manager(100, 0, 99);
    m.zoom_in();
    assert_eq!((m.left_ix, m.right_ix), (20, 99));
}

#[test]
fn zoom_in_at_floor_is_a_no_op() {
    let mut m = manager(200, 10, 10 + MIN_BAR_COUNT - 1);
    m.zoom_in();
    assert_eq!((m.left_ix, m.right_ix), (10, 59));
    m.cursor_ix = 30;
    m.zoom_in_by();
    assert_eq!((m.left_ix, m.right_ix), (10, 59));
    // One bar more and zooming works.
    let mut m = manager(200, 10, 60);
    m.zoom_in();
    assert_eq!((m.left_ix, m.right_ix), (20, 60));
}

#[test]
fn zoom_out_adds_a_quarter_and_clamps() {
    let mut m = manager(1000, 400, 499);
    m.zoom_out();
    assert_eq!((m.left_ix, m.right_ix), (375, 499));
    let mut m = manager(1000, 10, 109);
    m.zoom_out();
    assert_eq!((m.left_ix, m.right_ix), (0, 109));
}

#[test]
fn zoom_in_then_out_round_trips() {
    for (l, r) in [(300i64, 399i64), (300, 403), (500, 557), (250, 750)] {
        let mut m = manager(2000, l, r);
        m.zoom_in();
        m.zoom_out();
        assert!(m.left_ix == l || m.left_ix == l - 1, "{} {}", l, m.left_ix);
        assert_eq!(m.right_ix, r);
        let mut m = manager(2000, l, r);
        m.zoom_out();
        m.zoom_in();
        assert_eq!((m.left_ix, m.right_ix), (l, r));
    }
}

#[test]
fn zoom_about_cursor() {
    let mut m = manager(1000, 100, 199);
    m.cursor_ix = 150;
    m.zoom_in_by();
    // 51 bars on the left (ten go), 50 on the right (ten go).
    assert_eq!((m.left_ix, m.right_ix), (110, 189));
    let mut m = manager(1000, 100, 199);
    m.cursor_ix = 150;
    m.zoom_out_by();
    // A quarter of 51 and of 50: twelve each.
    assert_eq!((m.left_ix, m.right_ix), (88, 211));
    let mut m = manager(220, 5, 199);
    m.cursor_ix = 100;
    m.zoom_out_by();
    assert_eq!((m.left_ix, m.right_ix), (0, 219));
}

#[test]
fn zoom_about_cursor_outside_window_anchors_on_that_bar() {
    // Cursor bar left of the window: the left edge moves outwards.
    let mut m = manager(1000, 100, 199);
    m.cursor_ix = 10;
    m.zoom_in_by();
    assert_eq!((m.left_ix, m.right_ix), (83, 161));
    // Cursor bar right of the window.
    let mut m = manager(201, 0, 99);
    m.cursor_ix = 150;
    m.zoom_in_by();
    assert_eq!((m.left_ix, m.right_ix), (30, 109));
    // Cursor one past the right edge: the right edge stays.
    let mut m = manager(1000, 100, 199);
    m.cursor_ix = 200;
    m.zoom_out_by();
    assert_eq!((m.left_ix, m.right_ix), (75, 199));
    // Far outside: each edge is clamped to the dataset.
    let mut m = manager(301, 0, 10);
    m.cursor_ix = 200;
    m.zoom_out_by();
    assert_eq!((m.left_ix, m.right_ix), (0, 0));
}

#[test]
fn pan_moves_window_and_clamps_at_the_ends() {
    let layout = ChartLayout::new(1090, 722);
    assert_eq!(layout.price.width, 1000);
    let mut m = manager(1000, 400, 499);
    m.cursor_moved(&layout, 500, 100);
    m.begin_pan();
    // Dragging right by 100 px over 1000 px showing 100 bars: 10 bars back.
    m.cursor_moved(&layout, 600, 100);
    assert_eq!((m.left_ix, m.right_ix), (390, 489));
    // Dragging left by 55 px: 5.5 truncates to 5 bars forward.
    m.cursor_moved(&layout, 445, 100);
    assert_eq!((m.left_ix, m.right_ix), (405, 504));
    // Far to the right: clamps at the first bar, span kept.
    m.cursor_moved(&layout, 999_999, 100);
    assert_eq!((m.left_ix, m.right_ix), (0, 99));
    // Far to the left: clamps at the last bar.
    m.cursor_moved(&layout, -999_999, 100);
    assert_eq!((m.left_ix, m.right_ix), (900, 999));
    m.end_pan();
    m.cursor_moved(&layout, 100, 100);
    assert_eq!((m.left_ix, m.right_ix), (900, 999));
    assert!(m.pressed_position.is_none());
}

#[test]
fn cursor_outside_chart_hides_readout() {
    let layout = ChartLayout::new(1090, 722);
    let mut m = manager(100, 0, 99);
    m.cursor_moved(&layout, 300, 300);
    assert!(m.cursor_show);
    assert!(m.cursor_price.is_some());
    m.cursor_moved(&layout, 2, 300);
    assert!(!m.cursor_show);
    assert_eq!(m.cursor_price, None);
    assert_eq!(m.cursor_volume, None);
    assert_eq!(m.hovered_bar_index(), None);
    m.cursor_moved(&layout, 300, 5000);
    assert!(!m.cursor_show);
}

#[test]
fn cursor_readout_over_price_and_volume() {
    // Screen 1090 x 722: plots 1000 px wide, 600 px tall together;
    // price plot y 5..425 (420 px), volume plot y 425..605 (180 px).
    let layout = ChartLayout::new(1090, 722);
    assert_eq!((layout.price.y, layout.price.height, layout.volume.y, layout.volume.height), (5, 420, 425, 180));
    let h = history(100);
    let mut m = manager(100, 0, 99);
    m.update_maxmin_by_left_right_ix(&h);
    assert_eq!((m.min_price_view, m.max_price_view, m.max_volume_view), (90, 209, 1099));
    // x = 5 + 255: bar 25 of 100 over 1000 px; y at a quarter up the price plot.
    m.cursor_moved(&layout, 260, 320);
    assert_eq!(m.hovered_bar_index(), Some(25));
    assert_eq!(m.cursor_price, Some(90 + (105 * 119) / 420));
    assert_eq!(m.cursor_volume, None);
    assert!(m.cursor_dock_left);
    // Over the volume plot, near the left edge: the panel docks right.
    m.cursor_moved(&layout, 100, 515);
    assert_eq!(m.hovered_bar_index(), Some(9));
    assert_eq!(m.cursor_price, None);
    assert_eq!(m.cursor_volume, Some(90 * 1099 / 180));
    assert!(!m.cursor_dock_left);
    // The boundary row between the plots belongs to neither.
    m.cursor_moved(&layout, 300, 425);
    assert!(m.cursor_show);
    assert_eq!((m.cursor_price, m.cursor_volume), (None, None));
    // The right edge maps one past the window, within the dataset.
    let mut m = manager(100, 0, 49);
    m.cursor_moved(&layout, 1005, 100);
    assert_eq!(m.hovered_bar_index(), Some(50));
    let mut m = manager(100, 50, 99);
    m.cursor_moved(&layout, 1005, 100);
    assert_eq!(m.hovered_bar_index(), Some(99));
}

#[test]
fn window_stays_valid_under_any_steps() {
    let layout = ChartLayout::new(1090, 722);
    let mut m = manager(300, 0, 299);
    let mut seed: u64 = 12345;
    for _ in 0..2000 {
        seed = seed.wrapping_mul(6364136223846793005).wrapping_add(1442695040888963407);
        let pick = (seed >> 33) % 8;
        let x = ((seed >> 13) % 3000) as i64 - 1000;
        match pick {
            0 => m.zoom_in(),
            1 => m.zoom_out(),
            2 => m.zoom_in_by(),
            3 => m.zoom_out_by(),
            4 => m.begin_pan(),
            5 => m.end_pan(),
            _ => m.cursor_moved(&layout, x, 300),
        }
        assert!(0 <= m.left_ix && m.left_ix <= m.right_ix && m.right_ix <= m.last_ix);
        assert!(0 <= m.cursor_ix && m.cursor_ix <= m.last_ix);
    }
}

#[test]
fn apply_performs_each_step() {
    let mut m = manager(1000, 400, 499);
    m.apply(ViewOp::ZoomIn);
    assert_eq!((m.left_ix, m.right_ix), (420, 499));
    m.apply(ViewOp::ZoomOut);
    assert_eq!((m.left_ix, m.right_ix), (400, 499));
    m.current_cursor_position = (500, 100);
    m.apply(ViewOp::BeginPan);
    m.apply(ViewOp::DragTo { x: 400, width: 1000 });
    assert_eq!((m.left_ix, m.right_ix), (410, 509));
    m.apply(ViewOp::EndPan);
    m.apply(ViewOp::DragTo { x: 0, width: 1000 });
    assert_eq!((m.left_ix, m.right_ix), (410, 509));
    m.cursor_ix = 460;
    m.apply(ViewOp::ZoomInAtCursor);
    assert_eq!((m.left_ix, m.right_ix), (420, 499));
    m.apply(ViewOp::ZoomOutAtCursor);
    assert_eq!((m.left_ix, m.right_ix), (410, 509));
}

#[test]
fn zoom_about_cursor_round_trips() {
    for (l, r, c) in [(300i64, 399i64, 350i64), (300, 403, 301), (500, 620, 600)] {
        let mut m = manager(2000, l, r);
        m.cursor_ix = c;
        m.zoom_in_by();
        m.zoom_out_by();
        assert!(m.left_ix == l || m.left_ix == l - 1);
        assert!(m.right_ix == r || m.right_ix == r + 1);
        let mut m = manager(2000, l, r);
        m.cursor_ix = c;
        m.zoom_out_by();
        m.zoom_in_by();
        assert_eq!((m.left_ix, m.right_ix), (l, r));
    }
}
