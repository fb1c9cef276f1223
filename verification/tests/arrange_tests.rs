use egui_rad_builder::editor::Editor;
use egui_rad_builder::widget::{DockArea, Vec2, Widget, WidgetId, WidgetKind};

fn v(x: i64, y: i64) -> Vec2 {
    Vec2 { x, y }
}

fn widget(id: u64, x: i64, y: i64, w: i64, h: i64) -> Widget {
    Widget {
        id: WidgetId(id),
        kind: WidgetKind::Label,
        pos: v(x, y),
        size: v(w, h),
        z: id as i32,
        area: DockArea::Free,
        props: WidgetKind::Label.default_props(),
    }
}

fn three() -> Editor {
    let mut e = Editor::new();
    e.project.widgets = vec![
        widget(1, 300, 30, 100, 10),
        widget(2, 100, 10, 200, 20),
        widget(3, 500, 50, 50, 5),
    ];
    e.selected = vec![WidgetId(1), WidgetId(2), WidgetId(3)];
    e
}

fn xs(e: &Editor) -> Vec<i64> {
    e.project.widgets.iter().map(|w| w.pos.x).collect()
}

fn ys(e: &Editor) -> Vec<i64> {
    e.project.widgets.iter().map(|w| w.pos.y).collect()
}

#[test]
fn align_left_uses_the_leftmost_edge() {
    let mut e = three();
    e.align_left();
    assert_eq!(xs(&e), vec![100, 100, 100]);
    assert_eq!(ys(&e), vec![30, 10, 50]);
}

#[test]
fn align_right_uses_the_rightmost_edge() {
    let mut e = three();
    e.align_right();
    assert_eq!(xs(&e), vec![450, 350, 500]);
}

#[test]
fn align_center_h_uses_the_mean_centre() {
    let mut e = three();
    e.align_center_h();
    // Centres 35.0, 20.0, 52.5 average to 35.8333; each widget is centred there.
    assert_eq!(xs(&e), vec![308, 258, 333]);
}

#[test]
fn vertical_alignment() {
    let mut e = three();
    e.align_top();
    assert_eq!(ys(&e), vec![10, 10, 10]);
    let mut e = three();
    e.align_bottom();
    assert_eq!(ys(&e), vec![45, 35, 50]);
    let mut e = three();
    e.align_center_v();
    // Doubled centres 70, 40, 105 sum to 215; (215 - 3 * h) / 6.
    assert_eq!(ys(&e), vec![31, 26, 33]);
}

#[test]
fn alignment_needs_two_selected() {
    let mut e = three();
    e.selected = vec![WidgetId(1)];
    e.align_left();
    e.align_bottom();
    e.match_width();
    assert_eq!(xs(&e), vec![300, 100, 500]);
    assert_eq!(ys(&e), vec![30, 10, 50]);
    assert_eq!(e.project.widgets[0].size, v(100, 10));
}

#[test]
fn unselected_widgets_stay() {
    let mut e = three();
    e.selected = vec![WidgetId(1), WidgetId(3)];
    e.align_left();
    assert_eq!(xs(&e), vec![300, 100, 300]);
}

#[test]
fn distribute_horizontal_spreads_evenly() {
    let mut e = Editor::new();
    e.project.widgets = vec![
        widget(1, 1000, 0, 100, 10),
        widget(2, 0, 0, 100, 10),
        widget(3, 150, 0, 100, 10),
    ];
    e.selected = vec![WidgetId(1), WidgetId(2), WidgetId(3)];
    e.distribute_horizontal();
    assert_eq!(xs(&e), vec![1000, 0, 500]);
}

#[test]
fn distribute_rounds_each_position_once() {
    let mut e = Editor::new();
    e.project.widgets = vec![
        widget(1, 0, 0, 100, 10),
        widget(2, 150, 0, 100, 10),
        widget(3, 1001, 0, 100, 10),
    ];
    e.selected = vec![WidgetId(3), WidgetId(2), WidgetId(1)];
    e.distribute_horizontal();
    // Free space 801 shared in two gaps of 400.5.
    assert_eq!(xs(&e), vec![0, 501, 1001]);
}

#[test]
fn distribute_vertical_with_four() {
    let mut e = Editor::new();
    e.project.widgets = vec![
        widget(1, 0, 0, 10, 100),
        widget(2, 0, 900, 10, 100),
        widget(3, 0, 50, 10, 50),
        widget(4, 0, 60, 10, 50),
    ];
    e.selected = vec![WidgetId(1), WidgetId(2), WidgetId(3), WidgetId(4)];
    e.distribute_vertical();
    // Span 0..1000, extents 300: three gaps of 233.3.
    assert_eq!(ys(&e), vec![0, 900, 333, 617]);
}

#[test]
fn distribute_needs_three_selected() {
    let mut e = three();
    e.selected = vec![WidgetId(1), WidgetId(2)];
    e.distribute_horizontal();
    assert_eq!(xs(&e), vec![300, 100, 500]);
}

#[test]
fn match_size_copies_the_first_selected() {
    let mut e = three();
    e.selected = vec![WidgetId(2), WidgetId(1), WidgetId(3)];
    e.match_width();
    let ws: Vec<i64> = e.project.widgets.iter().map(|w| w.size.x).collect();
    assert_eq!(ws, vec![200, 200, 200]);
    e.match_height();
    let hs: Vec<i64> = e.project.widgets.iter().map(|w| w.size.y).collect();
    assert_eq!(hs, vec![20, 20, 20]);
}

#[test]
fn match_size_falls_back_without_a_first_widget() {
    let mut e = three();
    e.selected = vec![WidgetId(9), WidgetId(1)];
    e.match_width();
    e.match_height();
    assert_eq!(e.project.widgets[0].size, v(1000, 300));
    assert_eq!(e.project.widgets[1].size, v(200, 20));
}
