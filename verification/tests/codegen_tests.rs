use egui_rad_builder::codegen::{
    generate_code, generate_separate_files, generate_single_file, generate_ui_only, CodeGenFormat,
};
use egui_rad_builder::project::Project;
use egui_rad_builder::widget::{DockArea, Vec2, Widget, WidgetId, WidgetKind};

const EMPTY_STATE: &str = "struct GeneratedState {\n    enable_top: bool, enable_bottom: bool, enable_left: bool, enable_right: bool,\n}\n\n";

const EMPTY_UI: &str = "fn generated_ui(ctx: &egui::Context, state: &mut GeneratedState) {\n\
\x20   if state.enable_top {\n\
\x20       egui::TopBottomPanel::top(\"gen_top\")\n\
\x20           .resizable(true)\n\
\x20           .show(ctx, |ui| {\n\
\x20           });\n\
\x20   }\n\
\x20   if state.enable_bottom {\n\
\x20       egui::TopBottomPanel::bottom(\"gen_bottom\")\n\
\x20           .resizable(true)\n\
\x20           .show(ctx, |ui| {\n\
\x20           });\n\
\x20   }\n\
\x20   if state.enable_left {\n\
\x20       egui::SidePanel::left(\"gen_left\")\n\
\x20           .resizable(true)\n\
\x20           .show(ctx, |ui| {\n\
\x20           });\n\
\x20   }\n\
\x20   if state.enable_right {\n\
\x20       egui::SidePanel::right(\"gen_right\")\n\
\x20           .resizable(true)\n\
\x20           .show(ctx, |ui| {\n\
\x20           });\n\
\x20   }\n\
\x20   egui::CentralPanel::default().show(ctx, |ui| {\n\
\x20       let canvas = egui::Rect::from_min_size(ui.min_rect().min, egui::vec2(1200.0, 800.0));\n\
\x20       let _ = ui.allocate_painter(canvas.size(), egui::Sense::hover());\n\
\x20   });\n\
}\n";

const APP_FOOTER: &str = "pub struct GeneratedApp {\nstate: GeneratedState,\n}\n\nimpl Default for GeneratedApp {\nfn default() -> Self {\nSelf { state: Default::default() }\n}\n}\n\nimpl eframe::App for GeneratedApp {\nfn update(&mut self, ctx: &egui::Context, _frame: &mut eframe::Frame) {\ngenerated_ui(ctx, &mut self.state);\n}\n}\n\nfn main() -> eframe::Result<()> {\nlet native_options = eframe::NativeOptions::default();\neframe::run_native(\n\"Generated UI\",\nnative_options,\nBox::new(|_cc| Ok(Box::new(GeneratedApp::default()))),\n)\n}\n";

fn empty_single_file() -> String {
    let mut s = String::new();
    s.push_str("// --- generated by egui RAD GUI Builder ---\n");
    s.push_str("use eframe::egui;\nuse egui_extras::DatePickerButton;\nuse chrono::NaiveDate;\n\n");
    s.push_str(EMPTY_STATE);
    s.push_str("impl Default for GeneratedState {\n    fn default() -> Self {\n        Self {\n");
    s.push_str("            enable_top: false, enable_bottom: false, enable_left: false, enable_right: false,\n");
    s.push_str("        }\n    }\n}\n\n");
    s.push_str(EMPTY_UI);
    s.push('\n');
    s.push_str(APP_FOOTER);
    s
}

fn widget(id: u64, kind: WidgetKind, pos: (i64, i64), size: (i64, i64), area: DockArea) -> Widget {
    Widget {
        id: WidgetId(id),
        kind,
        pos: Vec2 { x: pos.0, y: pos.1 },
        size: Vec2 { x: size.0, y: size.1 },
        z: id as i32,
        area,
        props: kind.default_props(),
    }
}

#[test]
fn single_file_for_an_empty_project() {
    let p = Project::default();
    assert_eq!(generate_single_file(&p, false), empty_single_file());
}

#[test]
fn single_file_with_comments() {
    let p = Project::default();
    let out = generate_single_file(&p, true);
    assert!(out.starts_with(
        "// =============================================================================\n// Generated by egui RAD GUI Builder\n// https://github.com/timschmidt/egui-rad-builder\n// =============================================================================\n\nuse eframe::egui;\n"
    ));
    assert!(out.contains(
        "}\n\n// =============================================================================\n// Application entry point\n// =============================================================================\n\npub struct GeneratedApp {\n"
    ));
}

#[test]
fn ui_only_for_an_empty_project() {
    let p = Project::default();
    let mut expected = String::from("// Required state struct for the UI\n");
    expected.push_str(EMPTY_STATE);
    expected.push_str("// Call this function from your eframe::App::update method:\n// generated_ui(ctx, &mut self.state);\n\n");
    expected.push_str(EMPTY_UI);
    assert_eq!(generate_ui_only(&p, false), expected);
    let commented = generate_ui_only(&p, true);
    assert!(commented.starts_with(
        "// UI function generated by egui RAD GUI Builder\n// Embed this in your existing application\n\n// Required state struct"
    ));
}

#[test]
fn separate_files_wrap_the_single_file() {
    let p = Project::default();
    let head = "// =============================================================================\n// FILE: Cargo.toml\n// =============================================================================\n[package]\nname = \"generated-ui\"\nversion = \"0.1.0\"\nedition = \"2021\"\n\n[dependencies]\neframe = \"0.33\"\negui = \"0.33\"\negui_extras = { version = \"0.33\", features = [\"chrono\"] }\nchrono = \"0.4\"\n\n// =============================================================================\n// FILE: src/main.rs\n// =============================================================================\n";
    let expected = format!("{}{}", head, empty_single_file());
    assert_eq!(generate_separate_files(&p, false), expected);
}

#[test]
fn generate_code_follows_the_format() {
    let mut p = Project::default();
    p.widgets.push(widget(1, WidgetKind::Button, (0, 0), (1600, 320), DockArea::Free));
    assert_eq!(generate_code(&p, CodeGenFormat::SingleFile, true), generate_single_file(&p, true));
    assert_eq!(generate_code(&p, CodeGenFormat::SeparateFiles, false), generate_separate_files(&p, false));
    assert_eq!(generate_code(&p, CodeGenFormat::UiOnly, true), generate_ui_only(&p, true));
    assert_eq!(CodeGenFormat::default(), CodeGenFormat::SingleFile);
    assert_eq!(CodeGenFormat::UiOnly.display_name(), "UI Function Only");
}

#[test]
fn slider_and_label_code() {
    let mut p = Project::default();
    p.panel_top_enabled = true;
    p.widgets.push(widget(3, WidgetKind::Slider, (100, 200), (2200, 240), DockArea::Free));
    let mut label = widget(4, WidgetKind::Label, (0, 0), (1400, 240), DockArea::Top);
    label.props.text = "Hi \"x\"".to_string();
    p.widgets.push(label);
    let out = generate_single_file(&p, false);
    assert!(out.contains("    enable_top: bool, enable_bottom: bool, enable_left: bool, enable_right: bool,\n    value_3: f32,\n}\n"));
    assert!(out.contains("            enable_top: true, enable_bottom: false, enable_left: false, enable_right: false,\n            value_3: 42.000,\n        }\n"));
    assert!(out.contains("    ui.scope_builder(egui::UiBuilder::new().max_rect(egui::Rect::from_min_size(canvas.min + egui::vec2(10.0,20.0), egui::vec2(220.0,24.0))), |ui| { ui.add_sized(egui::vec2(220.0,24.0), egui::Slider::new(&mut state.value_3, 0.000..=100.000).text(\"Value\")); });\n"));
    assert!(out.contains("            .show(ctx, |ui| {\n    ui.scope_builder(egui::UiBuilder::new().max_rect(egui::Rect::from_min_size(ui.min_rect().min + egui::vec2(0.0,0.0), egui::vec2(140.0,24.0))), |ui| { ui.label(\"Hi \\\"x\\\"\"); });\n            });\n"));
    let ui = generate_ui_only(&p, false);
    assert!(ui.contains("    value_3: f32,\n}\n\n// Call this function"));
    assert!(ui.ends_with("    });\n}\n"));
}

#[test]
fn tree_widget_brings_the_tree_helper() {
    let mut p = Project::default();
    p.widgets.push(widget(7, WidgetKind::Tree, (0, 0), (2600, 2000), DockArea::Free));
    let out = generate_single_file(&p, false);
    assert!(out.contains("use chrono::NaiveDate;\n\n#[derive(Clone)]\nstruct GenTreeNode { label: String, children: Vec<GenTreeNode> }\n\nfn gen_show_tree(ui: &mut egui::Ui, nodes: &[GenTreeNode]) {\n\tfor n in nodes {\n"));
    assert!(out.contains("GenTreeNode { label: \"Animals\".to_string(), children: vec![GenTreeNode { label: \"Mammals\".to_string(), children: vec![GenTreeNode { label: \"Dogs\".to_string(), children: vec![] }, GenTreeNode { label: \"Cats\".to_string(), children: vec![] }] }"));
    let ui = generate_ui_only(&p, false);
    assert!(ui.contains("fn gen_show_tree(ui: &mut egui::Ui, nodes: &[GenTreeNode]) {\nfor n in nodes {\n"));
}

#[test]
fn state_for_selection_widgets() {
    let mut p = Project::default();
    let mut combo = widget(5, WidgetKind::ComboBox, (0, 0), (2200, 280), DockArea::Free);
    combo.props.selected = 7;
    p.widgets.push(combo);
    let mut date = widget(6, WidgetKind::DatePicker, (0, 0), (2000, 280), DockArea::Free);
    date.props.month = 14;
    date.props.day = 0;
    p.widgets.push(date);
    let mut bar = widget(8, WidgetKind::ProgressBar, (0, 0), (2200, 200), DockArea::Free);
    bar.props.value = 1500;
    p.widgets.push(bar);
    let out = generate_single_file(&p, false);
    assert!(out.contains("            sel_5: 2,\n"));
    assert!(out.contains("            date_6: NaiveDate::from_ymd_opt(2025, 12, 1).unwrap(),\n"));
    assert!(out.contains("            progress_8: 1.000,\n"));
    assert!(out.contains("    date_6: NaiveDate,\n"));
    let ui = generate_ui_only(&p, false);
    assert!(ui.contains("    date_6: chrono::NaiveDate,\n"));
}

#[test]
fn ui_only_keeps_the_ui_function_whatever_the_texts_hold() {
    let mut p = Project::default();
    let mut edit = widget(2, WidgetKind::TextEdit, (0, 0), (2200, 360), DockArea::Free);
    edit.props.text = "fn generated_ui(\npub struct GeneratedApp".to_string();
    p.widgets.push(edit);
    let ui = generate_ui_only(&p, false);
    assert!(ui.ends_with("    });\n}\n"));
    assert!(ui.contains("// generated_ui(ctx, &mut self.state);\n\nfn generated_ui(ctx: &egui::Context, state: &mut GeneratedState) {\n"));
    assert!(!ui.contains("fn main()"));
    let commented = generate_ui_only(&p, true);
    assert!(commented.ends_with("    });\n}\n\n// =============================================================================\n// Application entry point\n// =============================================================================\n"));
}
