use egui_rad_builder::editor::Editor;
use egui_rad_builder::geometry::{grid_lines, LiveAreas, Rect};
use egui_rad_builder::project::{initial_inner_size, Project};
use egui_rad_builder::widget::{DockArea, Vec2, Widget, WidgetId, WidgetKind};

fn v(x: i64, y: i64) -> Vec2 {
    Vec2 { x, y }
}

fn widget(id: u64, kind: WidgetKind, x: i64, y: i64, w: i64, h: i64) -> Widget {
    Widget {
        id: WidgetId(id),
        kind,
        pos: v(x, y),
        size: v(w, h),
        z: id as i32,
        area: DockArea::Free,
        props: kind.default_props(),
    }
}

fn editor_with(ws: Vec<Widget>) -> Editor {
    let mut e = Editor::new();
    e.project.widgets = ws;
    e.next_id = 100;
    e
}

fn ids(e: &Editor) -> Vec<u64> {
    e.project.widgets.iter().map(|w| w.id.0).collect()
}

#[test]
fn new_editor_is_empty() {
    let e = Editor::new();
    assert!(e.project.widgets.is_empty());
    assert!(e.selected.is_empty());
    assert_eq!(e.next_id, 1);
    assert_eq!(e.grid_size, 10);
    assert!(e.clipboard.is_none());
    assert_eq!(e.project.canvas_size, v(12000, 8000));
}

#[test]
fn spawn_centres_and_snaps_the_new_widget() {
    let mut e = Editor::new();
    e.spawn_widget(WidgetKind::Button, v(1003, 1008), DockArea::Free, v(0, 0));
    assert_eq!(e.project.widgets.len(), 1);
    let w = &e.project.widgets[0];
    // 160 x 32 points: the centre lands on the drop point, then snaps to whole points.
    assert_eq!(w.size, v(1600, 320));
    assert_eq!(w.pos, v(200, 850));
    assert_eq!(w.id, WidgetId(1));
    assert_eq!(w.z, 1);
    assert_eq!(e.selected, vec![WidgetId(1)]);
    assert_eq!(e.next_id, 2);
    assert_eq!(w.props.text, "Button");
}

#[test]
fn spawn_is_relative_to_the_area_origin() {
    let mut e = Editor::new();
    e.grid_size = 100;
    e.spawn_widget(WidgetKind::Label, v(5000, 3000), DockArea::Left, v(1000, 1000));
    let w = &e.project.widgets[0];
    // 5000 - 1000 - 700 = 3300 -> 3300; 3000 - 1000 - 120 = 1880 -> 1900.
    assert_eq!(w.pos, v(3300, 1900));
    assert_eq!(w.area, DockArea::Left);
}

#[test]
fn toggling_twice_restores_the_selection() {
    let mut e = Editor::new();
    e.selected = vec![WidgetId(1), WidgetId(2)];
    e.toggle_selection(WidgetId(3));
    assert_eq!(e.selected, vec![WidgetId(1), WidgetId(2), WidgetId(3)]);
    e.toggle_selection(WidgetId(3));
    assert_eq!(e.selected, vec![WidgetId(1), WidgetId(2)]);
    e.toggle_selection(WidgetId(1));
    assert_eq!(e.selected, vec![WidgetId(2)]);
}

#[test]
fn adding_twice_adds_once() {
    let mut e = Editor::new();
    e.add_to_selection(WidgetId(7));
    e.add_to_selection(WidgetId(7));
    assert_eq!(e.selected, vec![WidgetId(7)]);
    assert!(e.is_selected(WidgetId(7)));
    assert!(!e.is_selected(WidgetId(8)));
    e.select_single(WidgetId(8));
    assert_eq!(e.selected, vec![WidgetId(8)]);
    e.clear_selection();
    assert!(e.selected.is_empty());
}

#[test]
fn select_all_and_selected_index() {
    let mut e = editor_with(vec![
        widget(4, WidgetKind::Label, 0, 0, 100, 100),
        widget(2, WidgetKind::Button, 0, 0, 100, 100),
    ]);
    assert_eq!(e.selected_index(), None);
    e.select_all();
    assert_eq!(e.selected, vec![WidgetId(4), WidgetId(2)]);
    e.selected = vec![WidgetId(2)];
    assert_eq!(e.selected_index(), Some(1));
    e.selected = vec![WidgetId(9)];
    assert_eq!(e.selected_index(), None);
    assert_eq!(e.index_of(WidgetId(4)), Some(0));
}

#[test]
fn z_order_front_and_back() {
    let mut e = editor_with(vec![
        widget(1, WidgetKind::Label, 0, 0, 100, 100),
        widget(2, WidgetKind::Label, 0, 0, 100, 100),
        widget(3, WidgetKind::Label, 0, 0, 100, 100),
    ]);
    assert_eq!((e.max_z(), e.min_z()), (3, 1));
    e.selected = vec![WidgetId(1), WidgetId(2)];
    e.bring_to_front();
    let z: Vec<i32> = e.project.widgets.iter().map(|w| w.z).collect();
    assert_eq!(z, vec![4, 5, 3]);
    e.selected = vec![WidgetId(3)];
    e.send_to_back();
    let z: Vec<i32> = e.project.widgets.iter().map(|w| w.z).collect();
    assert_eq!(z, vec![4, 5, 2]);
    e.selected = vec![WidgetId(2), WidgetId(1)];
    e.send_to_back();
    let z: Vec<i32> = e.project.widgets.iter().map(|w| w.z).collect();
    assert_eq!(z, vec![0, 1, 2]);
}

#[test]
fn nudging_moves_by_the_grid_and_stops_at_zero() {
    let mut e = editor_with(vec![widget(1, WidgetKind::Label, 5, 300, 100, 100)]);
    e.selected = vec![WidgetId(1)];
    e.nudge_selected(false, false, true, false);
    assert_eq!(e.project.widgets[0].pos, v(0, 300));
    e.grid_size = 80;
    e.nudge_selected(true, false, false, true);
    assert_eq!(e.project.widgets[0].pos, v(80, 220));
    // Opposite keys cancel.
    e.nudge_selected(true, true, false, false);
    assert_eq!(e.project.widgets[0].pos, v(80, 220));
    // A grid under one point still moves by one point.
    e.grid_size = 3;
    e.nudge_selected(false, true, false, false);
    assert_eq!(e.project.widgets[0].pos, v(80, 230));
}

#[test]
fn deleting_removes_every_selected_widget() {
    let mut e = editor_with(vec![
        widget(1, WidgetKind::Label, 0, 0, 100, 100),
        widget(2, WidgetKind::Label, 0, 0, 100, 100),
        widget(3, WidgetKind::Label, 0, 0, 100, 100),
    ]);
    e.selected = vec![WidgetId(3), WidgetId(1)];
    e.delete_selected();
    assert_eq!(ids(&e), vec![2]);
    assert!(e.selected.is_empty());
    e.delete_widget(WidgetId(2));
    assert!(e.project.widgets.is_empty());
}

#[test]
fn copy_paste_and_duplicate() {
    let mut e = editor_with(vec![
        widget(1, WidgetKind::Button, 100, 100, 1600, 320),
        widget(2, WidgetKind::Label, 500, 500, 1400, 240),
    ]);
    e.selected = vec![WidgetId(2), WidgetId(1)];
    e.copy_selected();
    assert_eq!(e.clipboard.as_ref().map(|w| w.id), Some(WidgetId(2)));
    e.paste();
    assert_eq!(ids(&e), vec![1, 2, 100]);
    let p = &e.project.widgets[2];
    assert_eq!(p.pos, v(700, 700));
    assert_eq!(p.z, 100);
    assert_eq!(p.kind, WidgetKind::Label);
    assert_eq!(e.selected, vec![WidgetId(100)]);
    assert_eq!(e.next_id, 101);

    e.selected = vec![WidgetId(1), WidgetId(9), WidgetId(2)];
    e.duplicate_selected();
    assert_eq!(ids(&e), vec![1, 2, 100, 101, 102]);
    assert_eq!(e.project.widgets[3].pos, v(300, 300));
    assert_eq!(e.project.widgets[4].pos, v(700, 700));
    assert_eq!(e.selected, vec![WidgetId(101), WidgetId(102)]);
    assert_eq!(e.next_id, 103);
}

#[test]
fn pasting_with_an_empty_clipboard_does_nothing() {
    let mut e = editor_with(vec![widget(1, WidgetKind::Button, 0, 0, 100, 100)]);
    e.paste();
    assert_eq!(ids(&e), vec![1]);
    assert_eq!(e.next_id, 100);
    e.copy_selected();
    assert!(e.clipboard.is_none());
}

#[test]
fn loading_continues_the_numbering() {
    let mut e = Editor::new();
    let mut p = Project::default();
    p.widgets = vec![
        widget(5, WidgetKind::Label, 0, 0, 100, 100),
        widget(9, WidgetKind::Label, 0, 0, 100, 100),
        widget(2, WidgetKind::Label, 0, 0, 100, 100),
    ];
    e.selected = vec![WidgetId(1)];
    e.load_project(p);
    assert_eq!(e.next_id, 10);
    assert!(e.selected.is_empty());
    assert_eq!(e.max_id(), 9);

    // An empty project keeps the counter.
    e.load_project(Project::default());
    assert_eq!(e.next_id, 10);

    e.new_project();
    assert!(e.project.widgets.is_empty());
    assert_eq!(e.next_id, 10);
}

#[test]
fn sort_by_z_is_stable() {
    let mut a = widget(1, WidgetKind::Label, 0, 0, 100, 100);
    a.z = 5;
    let mut b = widget(2, WidgetKind::Label, 0, 0, 100, 100);
    b.z = 1;
    let mut c = widget(3, WidgetKind::Label, 0, 0, 100, 100);
    c.z = 5;
    let mut d = widget(4, WidgetKind::Label, 0, 0, 100, 100);
    d.z = -2;
    let mut e = editor_with(vec![a, b, c, d]);
    e.sort_by_z();
    assert_eq!(ids(&e), vec![4, 2, 1, 3]);
}

#[test]
fn widgets_in_a_rectangle() {
    let e = editor_with(vec![
        widget(1, WidgetKind::Label, 0, 0, 100, 100),
        widget(2, WidgetKind::Label, 500, 500, 100, 100),
        widget(3, WidgetKind::Label, 1000, 0, 100, 100),
    ]);
    let r = Rect { min: v(1050, 1050), max: v(1700, 1700) };
    assert_eq!(e.widgets_in_rect(r, v(1000, 1000)), vec![WidgetId(1), WidgetId(2)]);
    // Touching edges count.
    let r = Rect { min: v(1100, 1000), max: v(1200, 1100) };
    assert_eq!(e.widgets_in_rect(r, v(1000, 1000)), vec![WidgetId(1)]);
}

#[test]
fn indices_by_area() {
    let mut a = widget(1, WidgetKind::Label, 0, 0, 100, 100);
    a.area = DockArea::Top;
    let b = widget(2, WidgetKind::Label, 0, 0, 100, 100);
    let mut c = widget(3, WidgetKind::Label, 0, 0, 100, 100);
    c.area = DockArea::Top;
    let e = editor_with(vec![a, b, c]);
    assert_eq!(e.indices_in_area(DockArea::Top), vec![0, 2]);
    assert_eq!(e.indices_in_area(DockArea::Free), vec![1]);
    assert!(e.indices_in_area(DockArea::Right).is_empty());
}

#[test]
fn dragging_snaps_and_keeps_inside_the_canvas() {
    let mut e = editor_with(vec![widget(1, WidgetKind::Label, 1000, 1000, 1400, 240)]);
    e.grid_size = 100;
    e.drag_widget(0, v(44, -56), v(12000, 8000));
    assert_eq!(e.project.widgets[0].pos, v(1000, 900));
    e.drag_widget(0, v(-5000, 20000), v(12000, 8000));
    assert_eq!(e.project.widgets[0].pos, v(0, 7760));
}

#[test]
fn resizing_keeps_a_minimum_and_the_canvas() {
    let mut e = editor_with(vec![widget(1, WidgetKind::Label, 0, 0, 1400, 240)]);
    e.resize_widget(0, v(-1300, -200), v(12000, 8000));
    assert_eq!(e.project.widgets[0].size, v(200, 160));
    e.resize_widget(0, v(20000, 100), v(12000, 8000));
    assert_eq!(e.project.widgets[0].size, v(12000, 260));
}

#[test]
fn moving_to_another_area_snaps() {
    let mut e = editor_with(vec![widget(1, WidgetKind::Label, 1234, 56, 100, 100)]);
    e.grid_size = 100;
    e.set_area(0, DockArea::Free);
    assert_eq!(e.project.widgets[0].pos, v(1234, 56));
    e.set_area(0, DockArea::Right);
    assert_eq!(e.project.widgets[0].pos, v(1200, 100));
    assert_eq!(e.project.widgets[0].area, DockArea::Right);
}

#[test]
fn items_round_trip_through_text() {
    let mut e = editor_with(vec![widget(1, WidgetKind::ComboBox, 0, 0, 100, 100)]);
    assert_eq!(e.items_text(0), "Red\nGreen\nBlue");
    e.project.widgets[0].props.selected = 2;
    e.set_items_from_text(0, "a\r\nb");
    assert_eq!(e.project.widgets[0].props.items, vec!["a".to_string(), "b".to_string()]);
    assert_eq!(e.project.widgets[0].props.selected, 1);
    e.set_items_from_text(0, "");
    assert!(e.project.widgets[0].props.items.is_empty());
    assert_eq!(e.project.widgets[0].props.selected, 0);
}

#[test]
fn live_areas_pick_the_first_hit() {
    let top = Rect { min: v(0, 0), max: v(1000, 100) };
    let centre = Rect { min: v(0, 0), max: v(1000, 1000) };
    let areas = LiveAreas { top: Some(top), bottom: None, left: None, right: None, center: Some(centre) };
    assert_eq!(areas.area_at(v(50, 50)), DockArea::Top);
    assert_eq!(areas.area_at(v(50, 500)), DockArea::Center);
    assert_eq!(areas.area_at(v(5000, 500)), DockArea::Free);
    assert_eq!(areas.origin_for_area(DockArea::Free), Some(v(0, 0)));
    assert_eq!(areas.origin_for_area(DockArea::Left), None);
    assert!(top.contains(v(1000, 100)));
    assert!(!top.contains(v(1001, 100)));
}

#[test]
fn grid_line_positions() {
    assert_eq!(grid_lines(0, 95, 10), vec![0, 10, 20, 30, 40, 50, 60, 70, 80, 90]);
    assert_eq!(grid_lines(-20, 100, 50), vec![-20, 30, 80]);
    assert_eq!(grid_lines(5, -5, 10), vec![5]);
    assert!(grid_lines(0, -15, 10).is_empty());
}

#[test]
fn window_size_fits_the_default_canvas() {
    assert_eq!(initial_inner_size(), v(16960, 8400));
}

#[test]
fn loading_continues_after_large_ids() {
    let mut e = Editor::new();
    let mut p = Project::default();
    p.widgets = vec![widget(1 << 31, WidgetKind::Label, 0, 0, 100, 100)];
    e.load_project(p);
    assert_eq!(e.next_id, (1 << 31) + 1);
    let mut p = Project::default();
    p.widgets = vec![widget(1 << 40, WidgetKind::Label, 0, 0, 100, 100)];
    e.load_project(p);
    assert_eq!(e.next_id, (1 << 40) + 1);
}

#[test]
fn resizing_on_a_negative_canvas() {
    let mut e = editor_with(vec![widget(1, WidgetKind::Label, 0, 0, 1400, 240)]);
    e.resize_widget(0, v(0, 0), v(-50, 100));
    assert_eq!(e.project.widgets[0].size, v(-50, 100));
}

#[test]
fn editing_keeps_ids_distinct_and_below_the_next_id() {
    let mut e = Editor::new();
    e.spawn_widget(WidgetKind::Button, v(1000, 1000), DockArea::Free, v(0, 0));
    e.spawn_widget(WidgetKind::Label, v(2000, 2000), DockArea::Free, v(0, 0));
    e.select_all();
    e.copy_selected();
    e.paste();
    e.select_all();
    e.duplicate_selected();
    e.selected = vec![WidgetId(2)];
    e.delete_selected();
    let ids = ids(&e);
    for (i, a) in ids.iter().enumerate() {
        assert!(*a < e.next_id);
        for b in &ids[i + 1..] {
            assert_ne!(a, b);
        }
    }
    assert_eq!(ids, vec![1, 3, 4, 5, 6]);
    assert_eq!(e.next_id, 7);
}
