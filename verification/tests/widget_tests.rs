use egui_rad_builder::editor::snap_pos_with_grid;
use egui_rad_builder::widget::{
    escape, DockArea, Vec2, WidgetCategory, WidgetId, WidgetKind, WidgetProps,
};

fn v(x: i64, y: i64) -> Vec2 {
    Vec2 { x, y }
}

#[test]
fn test_snap_pos_with_grid() {
    // Geometry is in tenths of a point: 5.0 is 50, a grid of 10.0 is 100.
    assert_eq!(snap_pos_with_grid(v(50, 50), 100), v(100, 100));
    assert_eq!(snap_pos_with_grid(v(49, 49), 100), v(0, 0));
    assert_eq!(snap_pos_with_grid(v(150, 250), 100), v(200, 300));

    // A grid of 1.0 rounds to whole points.
    assert_eq!(snap_pos_with_grid(v(54, 36), 10), v(50, 40));

    // A grid of 8.0.
    assert_eq!(snap_pos_with_grid(v(120, 200), 80), v(160, 240));
}

#[test]
fn test_escape() {
    assert_eq!(escape("hello"), "hello");
    assert_eq!(escape("path\\to\\file"), "path\\\\to\\\\file");
    assert_eq!(escape("say \"hello\""), "say \\\"hello\\\"");
    assert_eq!(escape("c:\\path\\\"file\""), "c:\\\\path\\\\\\\"file\\\"");
}

#[test]
fn test_widget_kind_default_size() {
    let kinds = [
        WidgetKind::Label,
        WidgetKind::Button,
        WidgetKind::Checkbox,
        WidgetKind::TextEdit,
        WidgetKind::Slider,
        WidgetKind::ProgressBar,
        WidgetKind::RadioGroup,
        WidgetKind::ComboBox,
        WidgetKind::Separator,
        WidgetKind::Spinner,
        WidgetKind::ColorPicker,
        WidgetKind::Group,
        WidgetKind::Window,
    ];
    for kind in kinds {
        let size = kind.default_size();
        assert!(size.x > 0, "{:?} should have positive width", kind);
        assert!(size.y > 0, "{:?} should have positive height", kind);
    }
}

#[test]
fn test_widget_kind_default_props() {
    let label_props = WidgetKind::Label.default_props();
    assert_eq!(label_props.text, "Label");

    let button_props = WidgetKind::Button.default_props();
    assert_eq!(button_props.text, "Button");

    let slider_props = WidgetKind::Slider.default_props();
    assert!(slider_props.min < slider_props.max);
    assert!(slider_props.value >= slider_props.min);
    assert!(slider_props.value <= slider_props.max);

    let combobox_props = WidgetKind::ComboBox.default_props();
    assert!(!combobox_props.items.is_empty());
    assert!(combobox_props.selected < combobox_props.items.len());
}

#[test]
fn test_widget_props_default() {
    let props = WidgetProps::default();
    assert!(!props.text.is_empty());
    assert!(props.min <= props.max);
    assert_eq!(props.columns, 2);
    assert!(props.enabled);
}

#[test]
fn test_dock_area_default() {
    let area = DockArea::default();
    assert_eq!(area, DockArea::Free);
}

#[test]
fn test_widget_id_display() {
    let id = WidgetId::new(42);
    assert_eq!(id.to_string(), "42");
}

#[test]
fn test_widget_id_z_order() {
    let id = WidgetId::new(100);
    assert_eq!(id.as_z(), 100);
}

#[test]
fn test_widget_category_all() {
    let categories = WidgetCategory::all();
    assert_eq!(categories.len(), 5);
    assert!(categories.contains(&WidgetCategory::Basic));
    assert!(categories.contains(&WidgetCategory::Input));
    assert!(categories.contains(&WidgetCategory::Display));
    assert!(categories.contains(&WidgetCategory::Containers));
    assert!(categories.contains(&WidgetCategory::Advanced));
}

#[test]
fn test_widget_kind_categories() {
    assert_eq!(WidgetKind::Label.category(), WidgetCategory::Basic);
    assert_eq!(WidgetKind::Button.category(), WidgetCategory::Basic);
    assert_eq!(WidgetKind::TextEdit.category(), WidgetCategory::Input);
    assert_eq!(WidgetKind::Slider.category(), WidgetCategory::Input);
    assert_eq!(WidgetKind::ProgressBar.category(), WidgetCategory::Display);
    assert_eq!(WidgetKind::Group.category(), WidgetCategory::Containers);
    assert_eq!(WidgetKind::Tree.category(), WidgetCategory::Advanced);
}

#[test]
fn test_widget_kind_all_have_categories() {
    for kind in WidgetKind::all() {
        let _category = kind.category();
        let _name = kind.display_name();
    }
}

#[test]
fn test_widget_kind_display_names() {
    assert_eq!(WidgetKind::Label.display_name(), "Label");
    assert_eq!(WidgetKind::ImageTextButton.display_name(), "Image + Text Button");
    assert_eq!(WidgetKind::CollapsingHeader.display_name(), "Collapsing Header");
}

#[test]
fn test_widgets_in_category() {
    let basic_widgets = WidgetKind::widgets_in_category(WidgetCategory::Basic);
    assert!(basic_widgets.contains(&WidgetKind::Label));
    assert!(basic_widgets.contains(&WidgetKind::Button));
    assert!(!basic_widgets.contains(&WidgetKind::TextEdit));

    let input_widgets = WidgetKind::widgets_in_category(WidgetCategory::Input);
    assert!(input_widgets.contains(&WidgetKind::TextEdit));
    assert!(input_widgets.contains(&WidgetKind::Slider));
}

// ---- further cases ----

#[test]
fn every_kind_is_listed_once_and_has_positive_size() {
    let all = WidgetKind::all();
    assert_eq!(all.len(), 34);
    for (i, a) in all.iter().enumerate() {
        for b in &all[i + 1..] {
            assert_ne!(a, b);
        }
        let s = a.default_size();
        assert!(s.x > 0 && s.y > 0);
    }
}

#[test]
fn categories_partition_the_kinds() {
    let mut total = 0;
    for c in WidgetCategory::all() {
        let kinds = WidgetKind::widgets_in_category(*c);
        total += kinds.len();
        for k in &kinds {
            assert_eq!(k.category(), *c);
        }
        for k in WidgetKind::all() {
            assert_eq!(kinds.contains(k), k.category() == *c);
        }
    }
    assert_eq!(total, WidgetKind::all().len());
}

#[test]
fn category_names_and_open_state() {
    let names: Vec<&str> = WidgetCategory::all().iter().map(|c| c.display_name()).collect();
    assert_eq!(names, vec!["Basic", "Input", "Display", "Containers", "Advanced"]);
    assert!(WidgetCategory::Basic.default_open());
    assert!(!WidgetCategory::Advanced.default_open());
}

#[test]
fn default_props_keep_value_in_range() {
    for k in WidgetKind::all() {
        let p = k.default_props();
        assert!(p.min <= p.value && p.value <= p.max, "{:?}", k);
        if !p.items.is_empty() {
            assert!(p.selected < p.items.len(), "{:?}", k);
        }
    }
}

#[test]
fn slider_and_tree_defaults() {
    let s = WidgetKind::Slider.default_props();
    assert_eq!((s.min, s.max, s.value), (0, 100_000, 42_000));
    assert_eq!(s.text, "Value");
    let t = WidgetKind::Tree.default_props();
    assert_eq!(t.items.len(), 8);
    assert_eq!(t.items[1], "  Mammals");
    let d = WidgetKind::DatePicker.default_props();
    assert_eq!((d.year, d.month, d.day), (2025, 1, 1));
    assert_eq!(WidgetKind::Spinner.default_size(), v(320, 320));
    assert_eq!(WidgetKind::Tree.default_size(), v(2600, 2000));
}

#[test]
fn widget_id_text_of_large_and_zero_ids() {
    assert_eq!(WidgetId::new(0).to_string(), "0");
    assert_eq!(WidgetId::new(18_446_744_073_709_551_615).to_string(), "18446744073709551615");
    assert_eq!(WidgetId::new(0x1_0000_0005).as_z(), 5);
}

#[test]
fn escape_leaves_other_characters() {
    assert_eq!(escape(""), "");
    assert_eq!(escape("a\nb\t'c'"), "a\nb\t'c'");
    assert_eq!(escape("\\\\"), "\\\\\\\\");
}

#[test]
fn snap_rounds_halves_away_from_zero() {
    assert_eq!(snap_pos_with_grid(v(-50, -49), 100), v(-100, 0));
    assert_eq!(snap_pos_with_grid(v(0, 0), 7), v(0, 0));
    let once = snap_pos_with_grid(v(1234, -5678), 30);
    assert_eq!(snap_pos_with_grid(once, 30), once);
}

#[test]
fn palette_labels_are_distinct_and_groups_make_the_palette() {
    let all = WidgetKind::all();
    for (i, a) in all.iter().enumerate() {
        assert!(!a.display_name().is_empty());
        for b in &all[i + 1..] {
            assert_ne!(a.display_name(), b.display_name());
        }
    }
    let mut joined = Vec::new();
    let mut sizes = Vec::new();
    for c in WidgetCategory::all() {
        let kinds = WidgetKind::widgets_in_category(*c);
        sizes.push(kinds.len());
        joined.extend(kinds);
    }
    assert_eq!(joined, all.to_vec());
    assert_eq!(sizes, vec![8, 10, 7, 6, 3]);
}
