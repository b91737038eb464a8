use candle_chart::geometry::Vertex;
use candle_chart::layout::{ChartLayout, RectangleFrame};
use candle_chart::transform::{
    axis_datetime_indices, axis_price_values, axis_volume_values, candle_view_box, label_visible, show_trade_labels,
    volume_view_box, ViewBox,
};

#[test]
fn view_boxes_pad_half_a_bar() {
    assert_eq!(candle_view_box(10, 19, 500, 800), ViewBox { x_min_tenths: 95, x_max_tenths: 195, y_min: 500, y_max: 800 });
    assert_eq!(volume_view_box(0, 0, 42), ViewBox { x_min_tenths: -5, x_max_tenths: 5, y_min: 0, y_max: 42 });
}

#[test]
fn labels_near_the_view_are_visible() {
    let b = candle_view_box(10, 19, 0, 1);
    // The box spans 100 tenths; a tenth of that is allowed on each side.
    assert!(label_visible(b, Vertex { x_tenths: 95, y: 0 }));
    assert!(label_visible(b, Vertex { x_tenths: 85, y: 0 }));
    assert!(!label_visible(b, Vertex { x_tenths: 84, y: 0 }));
    assert!(label_visible(b, Vertex { x_tenths: 205, y: 0 }));
    assert!(!label_visible(b, Vertex { x_tenths: 206, y: 0 }));
}

#[test]
fn trade_labels_only_when_zoomed_in_enough() {
    assert!(show_trade_labels(0, 4999, 1000));
    assert!(!show_trade_labels(0, 5000, 1000));
}

#[test]
fn price_axis_values() {
    // 90 px: three intervals plus one, four intervals, five labels.
    assert_eq!(axis_price_values(100, 200, 90), vec![100, 125, 150, 175, 200]);
    assert_eq!(axis_price_values(0, 10, 60), vec![0, 3, 6, 10]);
}

#[test]
fn volume_axis_values() {
    assert_eq!(axis_volume_values(1000, 90), vec![0, 250, 500, 750]);
}

#[test]
fn datetime_axis_indices() {
    // 1000 px: four intervals; 103 bars, a step of 25.
    assert_eq!(axis_datetime_indices(10, 112, 1000), vec![10, 35, 60, 85, 112]);
    assert_eq!(axis_datetime_indices(7, 7, 1000), vec![7, 7, 7, 7, 7]);
}

#[test]
fn layout_of_a_window() {
    let l = ChartLayout::new(800, 600);
    assert_eq!(l.frame, RectangleFrame { x: 5, y: 5, width: 790, height: 510 });
    assert_eq!(l.price, RectangleFrame { x: 5, y: 5, width: 710, height: 334 });
    assert_eq!(l.volume, RectangleFrame { x: 5, y: 339, width: 710, height: 144 });
    let tiny = ChartLayout::new(0, 0);
    assert_eq!((tiny.price.width, tiny.price.height, tiny.volume.height), (1, 1, 1));
}
