use candle_chart::layout::{cursor_shapes, ChartLayout, Line, RectangleFilled, RectangleFrame};

#[test]
fn frame_outline_is_closed_with_y_up() {
    let r = RectangleFrame { x: 5, y: 5, width: 100, height: 50 };
    assert_eq!(r.make_vertex(600), vec![(5, 595), (105, 595), (105, 545), (5, 545), (5, 595)]);
}

#[test]
fn filled_rectangle_is_a_strip() {
    let r = RectangleFilled { x: 10, y: 20, width: 80, height: 16 };
    assert_eq!(r.make_vertex(100), vec![(10, 80), (10, 64), (90, 80), (90, 64)]);
}

#[test]
fn line_end_points_flip_y() {
    let l = Line { x1: 1, y1: 2, x2: 3, y2: 40 };
    assert_eq!(l.make_vertex(50), vec![(1, 48), (3, 10)]);
}

#[test]
fn cursor_over_price_plot() {
    let layout = ChartLayout::new(1090, 722);
    let s = cursor_shapes(&layout, 300, 100, true);
    assert_eq!(s.vertical, Line { x1: 300, y1: 5, x2: 300, y2: 605 });
    assert_eq!(s.vertical_label, RectangleFilled { x: 300, y: 605, width: 80, height: 32 });
    assert_eq!(s.horizontal, Some(Line { x1: 5, y1: 100, x2: 1005, y2: 100 }));
    assert_eq!(s.horizontal_label, Some(RectangleFilled { x: 1005, y: 92, width: 80, height: 16 }));
    assert_eq!(s.info_box, RectangleFilled { x: 5, y: 5, width: 80, height: 320 });
}

#[test]
fn cursor_over_volume_plot_docks_right() {
    let layout = ChartLayout::new(1090, 722);
    let s = cursor_shapes(&layout, 50, 500, false);
    assert_eq!(s.horizontal, Some(Line { x1: 5, y1: 500, x2: 1005, y2: 500 }));
    assert_eq!(s.info_box, RectangleFilled { x: 925, y: 5, width: 80, height: 320 });
    // On the boundary row between the plots there is no horizontal line.
    let s = cursor_shapes(&layout, 50, 425, false);
    assert_eq!((s.horizontal, s.horizontal_label), (None, None));
}
