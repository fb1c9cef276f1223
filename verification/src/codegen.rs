use vstd::prelude::*;
use vstd::string::*;
use crate::emit::{push_widget_code, widget_code};
use crate::fmt::{decimal, fixed, push_decimal, push_fixed, push_signed, signed_decimal};
use crate::project::{Project, ProjectView};
use crate::widget::{escape_spec, push_escaped, DockArea, PropsView, Widget, WidgetKind, WidgetProps, WidgetView, widgets_view};

verus! {

/// Code generation output format.
#[derive(Clone, Copy, Debug, PartialEq, Eq, Structural)]
pub enum CodeGenFormat {
    /// Single file with all code.
    SingleFile,
    /// The single file preceded by a Cargo manifest, with file headers.
    SeparateFiles,
    /// Just the state struct and the UI function, for embedding.
    UiOnly,
}

impl Default for CodeGenFormat {
    fn default() -> (r: Self)
        ensures
            r == CodeGenFormat::SingleFile,
    {
        CodeGenFormat::SingleFile
    }
}

impl CodeGenFormat {
    pub open spec fn spec_display_name(self) -> Seq<char> {
        match self {
            CodeGenFormat::SingleFile => "Single File"@,
            CodeGenFormat::SeparateFiles => "Separate Files"@,
            CodeGenFormat::UiOnly => "UI Function Only"@,
        }
    }

    /// The name shown for this format in the settings.
    pub fn display_name(&self) -> (r: &'static str)
        ensures
            r@ == self.spec_display_name(),
    {
        match self {
            CodeGenFormat::SingleFile => "Single File",
            CodeGenFormat::SeparateFiles => "Separate Files",
            CodeGenFormat::UiOnly => "UI Function Only",
        }
    }
}

/// `true` or `false` as Rust source.
pub open spec fn bool_text(b: bool) -> Seq<char> {
    if b { "true"@ } else { "false"@ }
}

fn push_bool(out: &mut String, b: bool)
    ensures
        final(out)@ == old(out)@ + bool_text(b),
{
    if b {
        out.append("true");
    } else {
        out.append("false");
    }
}

/// `v` clamped into `[lo, hi]` (with `lo <= hi`).
pub open spec fn clamp_int(v: int, lo: int, hi: int) -> int {
    if v < lo { lo } else if v > hi { hi } else { v }
}

fn clamp_i128(v: i128, lo: i128, hi: i128) -> (r: i128)
    requires
        lo <= hi,
    ensures
        r == clamp_int(v as int, lo as int, hi as int),
{
    if v < lo { lo } else if v > hi { hi } else { v }
}

/// The selected item index, clamped to the last item (0 without items).
pub open spec fn clamped_selection(p: PropsView) -> nat {
    if p.items.len() == 0 {
        0
    } else if p.selected < p.items.len() - 1 {
        p.selected
    } else {
        (p.items.len() - 1) as nat
    }
}

fn clamped_selection_exec(p: &WidgetProps) -> (r: usize)
    ensures
        r == clamped_selection(p@),
{
    if p.items.len() == 0 {
        0
    } else if p.selected < p.items.len() - 1 {
        p.selected
    } else {
        p.items.len() - 1
    }
}

/// The field of the generated state struct that holds a widget's value, if it has one.
/// `ui_only` selects the type path that the embeddable output uses for dates.
pub open spec fn state_field(w: WidgetView, ui_only: bool) -> Seq<char> {
    match w.kind {
        WidgetKind::TextEdit => "    text_"@ + decimal(w.id.0 as nat) + ": String,\n"@,
        WidgetKind::Checkbox => "    checked_"@ + decimal(w.id.0 as nat) + ": bool,\n"@,
        WidgetKind::Slider => "    value_"@ + decimal(w.id.0 as nat) + ": f32,\n"@,
        WidgetKind::ProgressBar => "    progress_"@ + decimal(w.id.0 as nat) + ": f32,\n"@,
        WidgetKind::SelectableLabel => "    sel_"@ + decimal(w.id.0 as nat) + ": bool,\n"@,
        WidgetKind::RadioGroup => "    sel_"@ + decimal(w.id.0 as nat) + ": usize,\n"@,
        WidgetKind::ComboBox => "    sel_"@ + decimal(w.id.0 as nat) + ": usize,\n"@,
        WidgetKind::MenuButton => "    sel_"@ + decimal(w.id.0 as nat) + ": usize,\n"@,
        WidgetKind::CollapsingHeader => "    open_"@ + decimal(w.id.0 as nat) + ": bool,\n"@,
        WidgetKind::DatePicker => "    date_"@ + decimal(w.id.0 as nat) + (if ui_only { ": chrono::NaiveDate,\n"@ } else { ": NaiveDate,\n"@ }),
        WidgetKind::Password => "    pass_"@ + decimal(w.id.0 as nat) + ": String,\n"@,
        WidgetKind::AngleSelector => "    angle_"@ + decimal(w.id.0 as nat) + ": f32,\n"@,
        WidgetKind::TextArea => "    textarea_"@ + decimal(w.id.0 as nat) + ": String,\n"@,
        WidgetKind::DragValue => "    drag_"@ + decimal(w.id.0 as nat) + ": f32,\n"@,
        WidgetKind::ColorPicker => "    color_"@ + decimal(w.id.0 as nat) + ": egui::Color32,\n"@,
        WidgetKind::Code => "    code_"@ + decimal(w.id.0 as nat) + ": String,\n"@,
        _ => Seq::empty(),
    }
}

fn push_state_field(out: &mut String, w: &Widget, ui_only: bool)
    ensures
        final(out)@ == old(out)@ + state_field(w@, ui_only),
{
    let ghost before = out@;
    match w.kind {
        WidgetKind::TextEdit => { out.append("    text_"); push_decimal(out, w.id.0 as u128); out.append(": String,\n"); }
        WidgetKind::Checkbox => { out.append("    checked_"); push_decimal(out, w.id.0 as u128); out.append(": bool,\n"); }
        WidgetKind::Slider => { out.append("    value_"); push_decimal(out, w.id.0 as u128); out.append(": f32,\n"); }
        WidgetKind::ProgressBar => { out.append("    progress_"); push_decimal(out, w.id.0 as u128); out.append(": f32,\n"); }
        WidgetKind::SelectableLabel => { out.append("    sel_"); push_decimal(out, w.id.0 as u128); out.append(": bool,\n"); }
        WidgetKind::RadioGroup => { out.append("    sel_"); push_decimal(out, w.id.0 as u128); out.append(": usize,\n"); }
        WidgetKind::ComboBox => { out.append("    sel_"); push_decimal(out, w.id.0 as u128); out.append(": usize,\n"); }
        WidgetKind::MenuButton => { out.append("    sel_"); push_decimal(out, w.id.0 as u128); out.append(": usize,\n"); }
        WidgetKind::CollapsingHeader => { out.append("    open_"); push_decimal(out, w.id.0 as u128); out.append(": bool,\n"); }
        WidgetKind::DatePicker => { out.append("    date_"); push_decimal(out, w.id.0 as u128); if ui_only { out.append(": chrono::NaiveDate,\n"); } else { out.append(": NaiveDate,\n"); } }
        WidgetKind::Password => { out.append("    pass_"); push_decimal(out, w.id.0 as u128); out.append(": String,\n"); }
        WidgetKind::AngleSelector => { out.append("    angle_"); push_decimal(out, w.id.0 as u128); out.append(": f32,\n"); }
        WidgetKind::TextArea => { out.append("    textarea_"); push_decimal(out, w.id.0 as u128); out.append(": String,\n"); }
        WidgetKind::DragValue => { out.append("    drag_"); push_decimal(out, w.id.0 as u128); out.append(": f32,\n"); }
        WidgetKind::ColorPicker => { out.append("    color_"); push_decimal(out, w.id.0 as u128); out.append(": egui::Color32,\n"); }
        WidgetKind::Code => { out.append("    code_"); push_decimal(out, w.id.0 as u128); out.append(": String,\n"); }
        _ => {}
    }
    assert(out@ =~= before + state_field(w@, ui_only));
}

/// The initialiser of a widget's field in the generated `Default` impl, if it has one.
pub open spec fn state_init(w: WidgetView) -> Seq<char> {
    match w.kind {
        WidgetKind::TextEdit => "            text_"@ + decimal(w.id.0 as nat) + ": \""@ + escape_spec(w.props.text) + "\".to_owned(),\n"@,
        WidgetKind::Checkbox => "            checked_"@ + decimal(w.id.0 as nat) + ": "@ + bool_text(w.props.checked) + ",\n"@,
        WidgetKind::Slider => "            value_"@ + decimal(w.id.0 as nat) + ": "@ + fixed(w.props.value as int, 3) + ",\n"@,
        WidgetKind::ProgressBar => "            progress_"@ + decimal(w.id.0 as nat) + ": "@ + fixed(clamp_int(w.props.value, 0, 1000), 3) + ",\n"@,
        WidgetKind::SelectableLabel => "            sel_"@ + decimal(w.id.0 as nat) + ": "@ + bool_text(w.props.checked) + ",\n"@,
        WidgetKind::RadioGroup => "            sel_"@ + decimal(w.id.0 as nat) + ": "@ + decimal(clamped_selection(w.props)) + ",\n"@,
        WidgetKind::CollapsingHeader => "            open_"@ + decimal(w.id.0 as nat) + ": "@ + bool_text(w.props.checked) + ",\n"@,
        WidgetKind::DatePicker => "            date_"@ + decimal(w.id.0 as nat) + ": NaiveDate::from_ymd_opt("@ + signed_decimal(w.props.year) + ", "@ + decimal(clamp_int(w.props.month as int, 1, 12) as nat) + ", "@ + decimal(clamp_int(w.props.day as int, 1, 28) as nat) + ").unwrap(),\n"@,
        WidgetKind::Password => "            pass_"@ + decimal(w.id.0 as nat) + ": \""@ + escape_spec(w.props.text) + "\".to_owned(),\n"@,
        WidgetKind::AngleSelector => "            angle_"@ + decimal(w.id.0 as nat) + ": "@ + fixed(w.props.value as int, 3) + ",\n"@,
        WidgetKind::TextArea => "            textarea_"@ + decimal(w.id.0 as nat) + ": \""@ + escape_spec(w.props.text) + "\".to_owned(),\n"@,
        WidgetKind::DragValue => "            drag_"@ + decimal(w.id.0 as nat) + ": "@ + fixed(w.props.value as int, 3) + ",\n"@,
        WidgetKind::ColorPicker => "            color_"@ + decimal(w.id.0 as nat) + ": egui::Color32::from_rgba_unmultiplied("@ + decimal(w.props.color[0] as nat) + ", "@ + decimal(w.props.color[1] as nat) + ", "@ + decimal(w.props.color[2] as nat) + ", "@ + decimal(w.props.color[3] as nat) + "),\n"@,
        WidgetKind::Code => "            code_"@ + decimal(w.id.0 as nat) + ": \""@ + escape_spec(w.props.text) + "\".to_owned(),\n"@,
        WidgetKind::ComboBox => "            sel_"@ + decimal(w.id.0 as nat) + ": "@ + decimal(clamped_selection(w.props)) + ",\n"@,
        WidgetKind::MenuButton => "            sel_"@ + decimal(w.id.0 as nat) + ": "@ + decimal(clamped_selection(w.props)) + ",\n"@,
        _ => Seq::empty(),
    }
}

#[verifier::rlimit(60)]
fn push_state_init(out: &mut String, w: &Widget)
    ensures
        final(out)@ == old(out)@ + state_init(w@),
{
    let ghost before = out@;
    match w.kind {
        WidgetKind::TextEdit => {
            out.append("            text_");
            push_decimal(out, w.id.0 as u128);
            out.append(": \"");
            push_escaped(out, w.props.text.as_str());
            out.append("\".to_owned(),\n");
        }
        WidgetKind::Checkbox => {
            out.append("            checked_");
            push_decimal(out, w.id.0 as u128);
            out.append(": ");
            push_bool(out, w.props.checked);
            out.append(",\n");
        }
        WidgetKind::Slider => {
            out.append("            value_");
            push_decimal(out, w.id.0 as u128);
            out.append(": ");
            push_fixed(out, w.props.value as i128, 3);
            out.append(",\n");
        }
        WidgetKind::ProgressBar => {
            out.append("            progress_");
            push_decimal(out, w.id.0 as u128);
            out.append(": ");
            push_fixed(out, clamp_i128(w.props.value as i128, 0, 1000), 3);
            out.append(",\n");
        }
        WidgetKind::SelectableLabel => {
            out.append("            sel_");
            push_decimal(out, w.id.0 as u128);
            out.append(": ");
            push_bool(out, w.props.checked);
            out.append(",\n");
        }
        WidgetKind::RadioGroup => {
            out.append("            sel_");
            push_decimal(out, w.id.0 as u128);
            out.append(": ");
            push_decimal(out, clamped_selection_exec(&w.props) as u128);
            out.append(",\n");
        }
        WidgetKind::CollapsingHeader => {
            out.append("            open_");
            push_decimal(out, w.id.0 as u128);
            out.append(": ");
            push_bool(out, w.props.checked);
            out.append(",\n");
        }
        WidgetKind::DatePicker => {
            out.append("            date_");
            push_decimal(out, w.id.0 as u128);
            out.append(": NaiveDate::from_ymd_opt(");
            push_signed(out, w.props.year as i128);
            out.append(", ");
            push_decimal(out, clamp_i128(w.props.month as i128, 1, 12) as u128);
            out.append(", ");
            push_decimal(out, clamp_i128(w.props.day as i128, 1, 28) as u128);
            out.append(").unwrap(),\n");
        }
        WidgetKind::Password => {
            out.append("            pass_");
            push_decimal(out, w.id.0 as u128);
            out.append(": \"");
            push_escaped(out, w.props.text.as_str());
            out.append("\".to_owned(),\n");
        }
        WidgetKind::AngleSelector => {
            out.append("            angle_");
            push_decimal(out, w.id.0 as u128);
            out.append(": ");
            push_fixed(out, w.props.value as i128, 3);
            out.append(",\n");
        }
        WidgetKind::TextArea => {
            out.append("            textarea_");
            push_decimal(out, w.id.0 as u128);
            out.append(": \"");
            push_escaped(out, w.props.text.as_str());
            out.append("\".to_owned(),\n");
        }
        WidgetKind::DragValue => {
            out.append("            drag_");
            push_decimal(out, w.id.0 as u128);
            out.append(": ");
            push_fixed(out, w.props.value as i128, 3);
            out.append(",\n");
        }
        WidgetKind::ColorPicker => {
            out.append("            color_");
            push_decimal(out, w.id.0 as u128);
            out.append(": egui::Color32::from_rgba_unmultiplied(");
            push_decimal(out, w.props.color[0] as u128);
            out.append(", ");
            push_decimal(out, w.props.color[1] as u128);
            out.append(", ");
            push_decimal(out, w.props.color[2] as u128);
            out.append(", ");
            push_decimal(out, w.props.color[3] as u128);
            out.append("),\n");
        }
        WidgetKind::Code => {
            out.append("            code_");
            push_decimal(out, w.id.0 as u128);
            out.append(": \"");
            push_escaped(out, w.props.text.as_str());
            out.append("\".to_owned(),\n");
        }
        WidgetKind::ComboBox => {
            out.append("            sel_");
            push_decimal(out, w.id.0 as u128);
            out.append(": ");
            push_decimal(out, clamped_selection_exec(&w.props) as u128);
            out.append(",\n");
        }
        WidgetKind::MenuButton => {
            out.append("            sel_");
            push_decimal(out, w.id.0 as u128);
            out.append(": ");
            push_decimal(out, clamped_selection_exec(&w.props) as u128);
            out.append(",\n");
        }
        _ => {}
    }
    assert(out@ =~= before + state_init(w@));
}


/// The state fields of the widgets, in order.
pub open spec fn state_fields(ws: Seq<WidgetView>, ui_only: bool) -> Seq<char>
    decreases ws.len(),
{
    if ws.len() == 0 {
        Seq::empty()
    } else {
        state_fields(ws.drop_last(), ui_only) + state_field(ws.last(), ui_only)
    }
}

/// The state initialisers of the widgets, in order.
pub open spec fn state_inits(ws: Seq<WidgetView>) -> Seq<char>
    decreases ws.len(),
{
    if ws.len() == 0 {
        Seq::empty()
    } else {
        state_inits(ws.drop_last()) + state_init(ws.last())
    }
}

/// The placement code of the widgets, in order.
pub open spec fn widgets_code(ws: Seq<WidgetView>, origin: Seq<char>) -> Seq<char>
    decreases ws.len(),
{
    if ws.len() == 0 {
        Seq::empty()
    } else {
        widgets_code(ws.drop_last(), origin) + widget_code(ws.last(), origin)
    }
}

/// The widgets docked in `area`, in order.
pub open spec fn in_area(ws: Seq<WidgetView>, area: DockArea) -> Seq<WidgetView> {
    ws.filter(|w: WidgetView| w.area == area)
}

/// Whether some widget is a tree (the generated code then needs the tree helpers).
pub open spec fn has_tree(ws: Seq<WidgetView>) -> bool {
    exists|i: int| 0 <= i < ws.len() && ws[i].kind == WidgetKind::Tree
}

fn push_state_fields(out: &mut String, widgets: &Vec<Widget>, ui_only: bool)
    ensures
        final(out)@ == old(out)@ + state_fields(widgets_view(widgets@), ui_only),
{
    let ghost v = widgets_view(widgets@);
    let ghost start = out@;
    let mut i: usize = 0;
    assert(v.take(0) =~= Seq::<WidgetView>::empty());
    while i < widgets.len()
        invariant
            i <= widgets@.len(),
            v == widgets_view(widgets@),
            out@ == start + state_fields(v.take(i as int), ui_only),
        decreases widgets@.len() - i,
    {
        let ghost t = v.take(i as int + 1);
        assert(t.drop_last() =~= v.take(i as int));
        assert(t.last() == widgets@[i as int]@);
        push_state_field(out, &widgets[i], ui_only);
        assert(out@ =~= start + state_fields(t, ui_only));
        i = i + 1;
    }
    assert(v.take(widgets@.len() as int) =~= v);
}

fn push_state_inits(out: &mut String, widgets: &Vec<Widget>)
    ensures
        final(out)@ == old(out)@ + state_inits(widgets_view(widgets@)),
{
    let ghost v = widgets_view(widgets@);
    let ghost start = out@;
    let mut i: usize = 0;
    assert(v.take(0) =~= Seq::<WidgetView>::empty());
    while i < widgets.len()
        invariant
            i <= widgets@.len(),
            v == widgets_view(widgets@),
            out@ == start + state_inits(v.take(i as int)),
        decreases widgets@.len() - i,
    {
        let ghost t = v.take(i as int + 1);
        assert(t.drop_last() =~= v.take(i as int));
        assert(t.last() == widgets@[i as int]@);
        push_state_init(out, &widgets[i]);
        assert(out@ =~= start + state_inits(t));
        i = i + 1;
    }
    assert(v.take(widgets@.len() as int) =~= v);
}

fn push_area_code(out: &mut String, widgets: &Vec<Widget>, area: DockArea, origin: &str)
    ensures
        final(out)@ == old(out)@ + widgets_code(in_area(widgets_view(widgets@), area), origin@),
{
    let ghost v = widgets_view(widgets@);
    let ghost pred = |w: WidgetView| w.area == area;
    let ghost start = out@;
    let mut i: usize = 0;
    assert(v.take(0) =~= Seq::<WidgetView>::empty());
    reveal_with_fuel(Seq::filter, 1);
    while i < widgets.len()
        invariant
            i <= widgets@.len(),
            v == widgets_view(widgets@),
            pred == (|w: WidgetView| w.area == area),
            out@ == start + widgets_code(v.take(i as int).filter(pred), origin@),
        decreases widgets@.len() - i,
    {
        let ghost t = v.take(i as int + 1);
        let ghost before = v.take(i as int).filter(pred);
        assert(t.drop_last() =~= v.take(i as int));
        assert(t.last() == widgets@[i as int]@);
        reveal_with_fuel(Seq::filter, 1);
        if widgets[i].area == area {
            assert(t.filter(pred) == before.push(widgets@[i as int]@));
            push_widget_code(out, &widgets[i], origin);
            assert(before.push(widgets@[i as int]@).drop_last() =~= before);
            assert(out@ =~= start + widgets_code(t.filter(pred), origin@));
        } else {
            assert(t.filter(pred) == before);
        }
        i = i + 1;
    }
    assert(v.take(widgets@.len() as int) =~= v);
}

fn any_tree(widgets: &Vec<Widget>) -> (r: bool)
    ensures
        r == has_tree(widgets_view(widgets@)),
{
    let mut i: usize = 0;
    while i < widgets.len()
        invariant
            i <= widgets@.len(),
            forall|k: int| 0 <= k < i ==> widgets@[k].kind != WidgetKind::Tree,
        decreases widgets@.len() - i,
    {
        if widgets[i].kind == WidgetKind::Tree {
            assert(widgets_view(widgets@)[i as int].kind == WidgetKind::Tree);
            return true;
        }
        i = i + 1;
    }
    assert forall|k: int| 0 <= k < widgets_view(widgets@).len() implies widgets_view(widgets@)[k].kind != WidgetKind::Tree by {
        assert(widgets_view(widgets@)[k] == widgets@[k]@);
    }
    false
}

/// Opening comment of the generated file.
pub open spec fn file_header(comments: bool) -> Seq<char> {
    if comments { "// =============================================================================\n// Generated by egui RAD GUI Builder\n// https://github.com/timschmidt/egui-rad-builder\n// =============================================================================\n\n"@ } else { "// --- generated by egui RAD GUI Builder ---\n"@ }
}

/// The generated state struct. `ui_only` selects the embeddable variant.
#[verifier::opaque]
pub open spec fn state_struct(ws: Seq<WidgetView>, ui_only: bool) -> Seq<char> {
    "struct GeneratedState {\n"@ + "    enable_top: bool, enable_bottom: bool, enable_left: bool, enable_right: bool,\n"@ + state_fields(ws, ui_only) + "}\n\n"@
}

/// The initialiser of the four panel flags.
pub open spec fn enables_init(p: ProjectView) -> Seq<char> {
    "            enable_top: "@ + bool_text(p.panel_top_enabled)
        + ", enable_bottom: "@ + bool_text(p.panel_bottom_enabled)
        + ", enable_left: "@ + bool_text(p.panel_left_enabled)
        + ", enable_right: "@ + bool_text(p.panel_right_enabled) + ",\n"@
}

/// The generated `Default` impl of the state struct.
#[verifier::opaque]
pub open spec fn state_default_impl(p: ProjectView) -> Seq<char> {
    "impl Default for GeneratedState {\n"@ + "    fn default() -> Self {\n"@ + "        Self {\n"@
        + enables_init(p) + state_inits(p.widgets) + "        }\n"@ + "    }\n"@ + "}\n\n"@
}

/// A side panel holding the widgets docked in `area`, shown when its flag is set.
#[verifier::opaque]
pub open spec fn panel_code(ws: Seq<WidgetView>, flag: Seq<char>, ctor: Seq<char>, area: DockArea) -> Seq<char> {
    "    if state."@ + flag + " {\n"@ + "        egui::"@ + ctor + "\n"@
        + "            .resizable(true)\n"@ + "            .show(ctx, |ui| {\n"@
        + widgets_code(in_area(ws, area), "ui.min_rect().min"@)
        + "            });\n"@ + "    }\n"@
}

/// The generated `generated_ui` function item: the four panels, then the central canvas
/// with the centre widgets and the free widgets.
#[verifier::opaque]
pub open spec fn ui_function_item(p: ProjectView) -> Seq<char> {
    "fn generated_ui(ctx: &egui::Context, state: &mut GeneratedState) {\n"@
        + panel_code(p.widgets, "enable_top"@, "TopBottomPanel::top(\"gen_top\")"@, DockArea::Top)
        + panel_code(p.widgets, "enable_bottom"@, "TopBottomPanel::bottom(\"gen_bottom\")"@, DockArea::Bottom)
        + panel_code(p.widgets, "enable_left"@, "SidePanel::left(\"gen_left\")"@, DockArea::Left)
        + panel_code(p.widgets, "enable_right"@, "SidePanel::right(\"gen_right\")"@, DockArea::Right)
        + central_code(p) + "}\n"@
}

/// The UI function as it stands in the single-file program: the item and a blank line.
pub open spec fn ui_function(p: ProjectView) -> Seq<char> {
    ui_function_item(p) + "\n"@
}

/// The central panel: the fixed canvas with the centre widgets, then the free widgets.
#[verifier::opaque]
pub open spec fn central_code(p: ProjectView) -> Seq<char> {
    "    egui::CentralPanel::default().show(ctx, |ui| {\n"@
        + "        let canvas = egui::Rect::from_min_size(ui.min_rect().min, egui::vec2("@
        + fixed(p.canvas_size.x as int, 1) + ", "@ + fixed(p.canvas_size.y as int, 1) + "));\n"@
        + "        let _ = ui.allocate_painter(canvas.size(), egui::Sense::hover());\n"@
        + widgets_code(in_area(p.widgets, DockArea::Center), "canvas.min"@)
        + widgets_code(in_area(p.widgets, DockArea::Free), "canvas.min"@)
        + "    });\n"@
}

/// The application scaffolding after the UI function.
pub open spec fn app_footer(comments: bool) -> Seq<char> {
    (if comments { "// =============================================================================\n// Application entry point\n// =============================================================================\n\n"@ } else { Seq::empty() }) + "pub struct GeneratedApp {\nstate: GeneratedState,\n}\n\nimpl Default for GeneratedApp {\nfn default() -> Self {\nSelf { state: Default::default() }\n}\n}\n\nimpl eframe::App for GeneratedApp {\nfn update(&mut self, ctx: &egui::Context, _frame: &mut eframe::Frame) {\ngenerated_ui(ctx, &mut self.state);\n}\n}\n\nfn main() -> eframe::Result<()> {\nlet native_options = eframe::NativeOptions::default();\neframe::run_native(\n\"Generated UI\",\nnative_options,\nBox::new(|_cc| Ok(Box::new(GeneratedApp::default()))),\n)\n}\n"@
}

/// The part of the single-file program before the UI function: header, imports, the tree
/// helper when a tree is used, the state struct and its `Default` impl.
pub open spec fn single_file_prelude(p: ProjectView, comments: bool) -> Seq<char> {
    file_header(comments) + "use eframe::egui;\nuse egui_extras::DatePickerButton;\nuse chrono::NaiveDate;\n\n"@
        + (if has_tree(p.widgets) { "#[derive(Clone)]\nstruct GenTreeNode { label: String, children: Vec<GenTreeNode> }\n\nfn gen_show_tree(ui: &mut egui::Ui, nodes: &[GenTreeNode]) {\n\tfor n in nodes {\n\t\tif n.children.is_empty() { ui.label(&n.label); }\n\t\telse { ui.collapsing(&n.label, |ui| gen_show_tree(ui, &n.children)); }\n\t}\n}\n\n"@ } else { Seq::empty() })
        + state_struct(p.widgets, false) + state_default_impl(p)
}

/// The complete single-file program for a project.
pub open spec fn single_file_spec(p: ProjectView, comments: bool) -> Seq<char> {
    single_file_prelude(p, comments) + ui_function(p) + app_footer(comments)
}

/// The part of the embeddable output before the UI function: the optional heading comment,
/// the tree helper when a tree is used, the state struct and how to call the function.
pub open spec fn ui_only_prelude(p: ProjectView, comments: bool) -> Seq<char> {
    (if comments { "// UI function generated by egui RAD GUI Builder\n// Embed this in your existing application\n\n"@ } else { Seq::empty() })
        + "// Required state struct for the UI\n"@
        + (if has_tree(p.widgets) { "#[derive(Clone)]\nstruct GenTreeNode { label: String, children: Vec<GenTreeNode> }\n\nfn gen_show_tree(ui: &mut egui::Ui, nodes: &[GenTreeNode]) {\nfor n in nodes {\nif n.children.is_empty() { ui.label(&n.label); }\nelse { ui.collapsing(&n.label, |ui| gen_show_tree(ui, &n.children)); }\n}\n}\n\n"@ } else { Seq::empty() })
        + state_struct(p.widgets, true)
        + "// Call this function from your eframe::App::update method:\n"@
        + "// generated_ui(ctx, &mut self.state);\n\n"@
}

/// What follows the UI function in the embeddable output: with comments, a blank line and
/// the comment lines that head the application entry point in the single file.
pub open spec fn entry_comment(comments: bool) -> Seq<char> {
    if comments { "\n// =============================================================================\n// Application entry point\n// =============================================================================\n"@ } else { Seq::empty() }
}

/// The embeddable output: the state struct, then the UI function item of the single-file
/// program, followed (with comments) by the comment that heads the application entry point
/// there.
pub open spec fn ui_only_spec(p: ProjectView, comments: bool) -> Seq<char> {
    ui_only_prelude(p, comments) + ui_function_item(p) + entry_comment(comments)
}

/// The embeddable output holds the single file's UI function item, the very text that the
/// single file holds between its prelude and its application part, and after it only
/// comment lines; it starts with the "UI function generated" comment exactly when comments
/// are on.
pub proof fn lemma_ui_only_holds_the_ui_function(p: ProjectView, comments: bool)
    ensures
        single_file_spec(p, comments) == single_file_prelude(p, comments) + ui_function_item(p) + "\n"@
            + app_footer(comments),
        ui_only_spec(p, comments) == ui_only_prelude(p, comments) + ui_function_item(p) + entry_comment(comments),
        ({
            let heading = "// UI function generated by egui RAD GUI Builder\n"@;
            (ui_only_spec(p, comments).len() >= heading.len()
                && ui_only_spec(p, comments).take(heading.len() as int) == heading) <==> comments
        }),
{
    let heading = "// UI function generated by egui RAD GUI Builder\n"@;
    let out = ui_only_spec(p, comments);
    assert(single_file_spec(p, comments) =~= single_file_prelude(p, comments) + ui_function_item(p) + "\n"@
        + app_footer(comments));
    reveal_strlit("// UI function generated by egui RAD GUI Builder\n");
    reveal_strlit("// UI function generated by egui RAD GUI Builder\n// Embed this in your existing application\n\n");
    reveal_strlit("// Required state struct for the UI\n");
    if comments {
        let first = "// UI function generated by egui RAD GUI Builder\n// Embed this in your existing application\n\n"@;
        assert(out.take(heading.len() as int) =~= heading) by {
            assert forall|i: int| 0 <= i < heading.len() implies out[i] == heading[i] by {
                assert(out[i] == first[i]);
            }
        }
    } else {
        let first = "// Required state struct for the UI\n"@;
        assert(out[3] == first[3]);
        assert(first[3] != heading[3]);
        if out.len() >= heading.len() {
            assert(out.take(heading.len() as int)[3] == out[3]);
        }
    }
}

/// The single file preceded by a Cargo manifest, each under a file header.
pub open spec fn separate_files_spec(p: ProjectView, comments: bool) -> Seq<char> {
    "// =============================================================================\n// FILE: Cargo.toml\n// =============================================================================\n[package]\nname = \"generated-ui\"\nversion = \"0.1.0\"\nedition = \"2021\"\n\n[dependencies]\neframe = \"0.33\"\negui = \"0.33\"\negui_extras = { version = \"0.33\", features = [\"chrono\"] }\nchrono = \"0.4\"\n\n// =============================================================================\n// FILE: src/main.rs\n// =============================================================================\n"@ + single_file_spec(p, comments)
}

/// The output of the chosen format.
pub open spec fn generate_code_spec(p: ProjectView, format: CodeGenFormat, comments: bool) -> Seq<char> {
    match format {
        CodeGenFormat::SingleFile => single_file_spec(p, comments),
        CodeGenFormat::SeparateFiles => separate_files_spec(p, comments),
        CodeGenFormat::UiOnly => ui_only_spec(p, comments),
    }
}

fn push_state_struct(out: &mut String, widgets: &Vec<Widget>, ui_only: bool)
    ensures
        final(out)@ == old(out)@ + state_struct(widgets_view(widgets@), ui_only),
{
    let ghost before = out@;
    out.append("struct GeneratedState {\n");
    out.append("    enable_top: bool, enable_bottom: bool, enable_left: bool, enable_right: bool,\n");
    push_state_fields(out, widgets, ui_only);
    out.append("}\n\n");
    reveal(state_struct);
    assert(out@ =~= before + state_struct(widgets_view(widgets@), ui_only));
}

#[verifier::rlimit(80)]
fn push_state_default_impl(out: &mut String, p: &Project)
    ensures
        final(out)@ == old(out)@ + state_default_impl(p@),
{
    let ghost before = out@;
    out.append("impl Default for GeneratedState {\n");
    out.append("    fn default() -> Self {\n");
    out.append("        Self {\n");
    let ghost mid = out@;
    out.append("            enable_top: ");
    push_bool(out, p.panel_top_enabled);
    out.append(", enable_bottom: ");
    push_bool(out, p.panel_bottom_enabled);
    out.append(", enable_left: ");
    push_bool(out, p.panel_left_enabled);
    out.append(", enable_right: ");
    push_bool(out, p.panel_right_enabled);
    out.append(",\n");
    assert(out@ =~= mid + enables_init(p@));
    push_state_inits(out, &p.widgets);
    out.append("        }\n");
    out.append("    }\n");
    out.append("}\n\n");
    reveal(state_default_impl);
    assert(out@ =~= before + state_default_impl(p@));
}

fn push_panel_code(out: &mut String, widgets: &Vec<Widget>, flag: &str, ctor: &str, area: DockArea)
    ensures
        final(out)@ == old(out)@ + panel_code(widgets_view(widgets@), flag@, ctor@, area),
{
    let ghost before = out@;
    out.append("    if state.");
    out.append(flag);
    out.append(" {\n");
    out.append("        egui::");
    out.append(ctor);
    out.append("\n");
    out.append("            .resizable(true)\n");
    out.append("            .show(ctx, |ui| {\n");
    push_area_code(out, widgets, area, "ui.min_rect().min");
    out.append("            });\n");
    out.append("    }\n");
    reveal(panel_code);
    assert(out@ =~= before + panel_code(widgets_view(widgets@), flag@, ctor@, area));
}

fn push_ui_function_item(out: &mut String, p: &Project)
    ensures
        final(out)@ == old(out)@ + ui_function_item(p@),
{
    let ghost before = out@;
    out.append("fn generated_ui(ctx: &egui::Context, state: &mut GeneratedState) {\n");
    let ghost s1 = out@;
    push_panel_code(out, &p.widgets, "enable_top", "TopBottomPanel::top(\"gen_top\")", DockArea::Top);
    push_panel_code(out, &p.widgets, "enable_bottom", "TopBottomPanel::bottom(\"gen_bottom\")", DockArea::Bottom);
    push_panel_code(out, &p.widgets, "enable_left", "SidePanel::left(\"gen_left\")", DockArea::Left);
    push_panel_code(out, &p.widgets, "enable_right", "SidePanel::right(\"gen_right\")", DockArea::Right);
    let ghost s2 = out@;
    push_central_code(out, p);
    out.append("}\n");
    reveal(ui_function_item);
    assert(out@ =~= before + ui_function_item(p@));
}

fn push_central_code(out: &mut String, p: &Project)
    ensures
        final(out)@ == old(out)@ + central_code(p@),
{
    let ghost before = out@;
    out.append("    egui::CentralPanel::default().show(ctx, |ui| {\n");
    out.append("        let canvas = egui::Rect::from_min_size(ui.min_rect().min, egui::vec2(");
    push_fixed(out, p.canvas_size.x as i128, 1);
    out.append(", ");
    push_fixed(out, p.canvas_size.y as i128, 1);
    out.append("));\n");
    out.append("        let _ = ui.allocate_painter(canvas.size(), egui::Sense::hover());\n");
    push_area_code(out, &p.widgets, DockArea::Center, "canvas.min");
    push_area_code(out, &p.widgets, DockArea::Free, "canvas.min");
    out.append("    });\n");
    reveal(central_code);
    assert(out@ =~= before + central_code(p@));
}

/// Generates the whole program (state, UI function and application) as one file.
pub fn generate_single_file(p: &Project, comments: bool) -> (r: String)
    ensures
        r@ == single_file_spec(p@, comments),
{
    let mut out = String::new();
    if comments {
        out.append("// =============================================================================\n// Generated by egui RAD GUI Builder\n// https://github.com/timschmidt/egui-rad-builder\n// =============================================================================\n\n");
    } else {
        out.append("// --- generated by egui RAD GUI Builder ---\n");
    }
    out.append("use eframe::egui;\nuse egui_extras::DatePickerButton;\nuse chrono::NaiveDate;\n\n");
    if any_tree(&p.widgets) {
        out.append("#[derive(Clone)]\nstruct GenTreeNode { label: String, children: Vec<GenTreeNode> }\n\nfn gen_show_tree(ui: &mut egui::Ui, nodes: &[GenTreeNode]) {\n\tfor n in nodes {\n\t\tif n.children.is_empty() { ui.label(&n.label); }\n\t\telse { ui.collapsing(&n.label, |ui| gen_show_tree(ui, &n.children)); }\n\t}\n}\n\n");
    }
    push_state_struct(&mut out, &p.widgets, false);
    push_state_default_impl(&mut out, p);
    push_ui_function_item(&mut out, p);
    out.append("\n");
    if comments {
        out.append("// =============================================================================\n// Application entry point\n// =============================================================================\n\n");
    }
    out.append("pub struct GeneratedApp {\nstate: GeneratedState,\n}\n\nimpl Default for GeneratedApp {\nfn default() -> Self {\nSelf { state: Default::default() }\n}\n}\n\nimpl eframe::App for GeneratedApp {\nfn update(&mut self, ctx: &egui::Context, _frame: &mut eframe::Frame) {\ngenerated_ui(ctx, &mut self.state);\n}\n}\n\nfn main() -> eframe::Result<()> {\nlet native_options = eframe::NativeOptions::default();\neframe::run_native(\n\"Generated UI\",\nnative_options,\nBox::new(|_cc| Ok(Box::new(GeneratedApp::default()))),\n)\n}\n");
    assert(out@ =~= single_file_spec(p@, comments));
    out
}

/// Generates the single file preceded by a Cargo manifest, with a header before each file.
pub fn generate_separate_files(p: &Project, comments: bool) -> (r: String)
    ensures
        r@ == separate_files_spec(p@, comments),
{
    let single = generate_single_file(p, comments);
    let mut out = String::new();
    out.append("// =============================================================================\n// FILE: Cargo.toml\n// =============================================================================\n[package]\nname = \"generated-ui\"\nversion = \"0.1.0\"\nedition = \"2021\"\n\n[dependencies]\neframe = \"0.33\"\negui = \"0.33\"\negui_extras = { version = \"0.33\", features = [\"chrono\"] }\nchrono = \"0.4\"\n\n// =============================================================================\n// FILE: src/main.rs\n// =============================================================================\n");
    out.append(single.as_str());
    out
}

/// Generates only the state struct and the UI function, for embedding in an existing app.
pub fn generate_ui_only(p: &Project, comments: bool) -> (r: String)
    ensures
        r@ == ui_only_spec(p@, comments),
{
    let mut out = String::new();
    if comments {
        out.append("// UI function generated by egui RAD GUI Builder\n// Embed this in your existing application\n\n");
    }
    out.append("// Required state struct for the UI\n");
    if any_tree(&p.widgets) {
        out.append("#[derive(Clone)]\nstruct GenTreeNode { label: String, children: Vec<GenTreeNode> }\n\nfn gen_show_tree(ui: &mut egui::Ui, nodes: &[GenTreeNode]) {\nfor n in nodes {\nif n.children.is_empty() { ui.label(&n.label); }\nelse { ui.collapsing(&n.label, |ui| gen_show_tree(ui, &n.children)); }\n}\n}\n\n");
    }
    push_state_struct(&mut out, &p.widgets, true);
    out.append("// Call this function from your eframe::App::update method:\n");
    out.append("// generated_ui(ctx, &mut self.state);\n\n");
    push_ui_function_item(&mut out, p);
    if comments {
        out.append("\n// =============================================================================\n// Application entry point\n// =============================================================================\n");
    }
    assert(out@ =~= ui_only_spec(p@, comments));
    out
}

/// Generates the output of the chosen format.
pub fn generate_code(p: &Project, format: CodeGenFormat, comments: bool) -> (r: String)
    ensures
        r@ == generate_code_spec(p@, format, comments),
{
    match format {
        CodeGenFormat::SingleFile => generate_single_file(p, comments),
        CodeGenFormat::SeparateFiles => generate_separate_files(p, comments),
        CodeGenFormat::UiOnly => generate_ui_only(p, comments),
    }
}

} // verus!
