use vstd::prelude::*;
use vstd::string::*;
use crate::fmt::{decimal, fixed, push_decimal, push_fixed};
use crate::tree::{outline_literal, outline_spec, push_outline_literal, parse_outline};
use crate::widget::{escape_spec, push_escaped, strings_view, PropsView, Widget, WidgetKind, WidgetProps, WidgetView};

verus! {

/// The opening of the scope that places a widget at its rectangle, relative to `origin`.
pub open spec fn scope_open(w: WidgetView, origin: Seq<char>) -> Seq<char> {
    "    ui.scope_builder(egui::UiBuilder::new().max_rect(egui::Rect::from_min_size("@ + origin + " + egui::vec2("@ + fixed(w.pos.x as int, 1) + ","@ + fixed(w.pos.y as int, 1) + "), egui::vec2("@ + fixed(w.size.x as int, 1) + ","@ + fixed(w.size.y as int, 1) + "))), |ui| {"@
}

fn push_scope_open(out: &mut String, w: &Widget, origin: &str)
    ensures
        final(out)@ == old(out)@ + scope_open(w@, origin@),
{
    let ghost before = out@;
    out.append("    ui.scope_builder(egui::UiBuilder::new().max_rect(egui::Rect::from_min_size(");
    out.append(origin);
    out.append(" + egui::vec2(");
    push_fixed(out, w.pos.x as i128, 1);
    out.append(",");
    push_fixed(out, w.pos.y as i128, 1);
    out.append("), egui::vec2(");
    push_fixed(out, w.size.x as i128, 1);
    out.append(",");
    push_fixed(out, w.size.y as i128, 1);
    out.append("))), |ui| {");
    assert(out@ =~= before + scope_open(w@, origin@));
}

/// One list item as Rust source: `"item".to_string()`.
pub open spec fn item_code(s: Seq<char>) -> Seq<char> {
    "\""@ + escape_spec(s) + "\".to_string()"@
}

/// The items as Rust source, separated by ", ".
pub open spec fn item_list(items: Seq<Seq<char>>) -> Seq<char>
    decreases items.len(),
{
    if items.len() == 0 {
        Seq::empty()
    } else if items.len() == 1 {
        item_code(items[0])
    } else {
        item_list(items.drop_last()) + ", "@ + item_code(items.last())
    }
}

/// The elements of a generated `vec![..]` of items; a single `"Item"` when there is none.
pub open spec fn items_code(items: Seq<Seq<char>>) -> Seq<char> {
    if items.len() == 0 {
        "\"Item\".to_string()"@
    } else {
        item_list(items)
    }
}

fn push_items_code(out: &mut String, items: &Vec<String>)
    ensures
        final(out)@ == old(out)@ + items_code(strings_view(items@)),
{
    let ghost v = strings_view(items@);
    if items.len() == 0 {
        out.append("\"Item\".to_string()");
        return;
    }
    let ghost start = out@;
    let mut i: usize = 0;
    while i < items.len()
        invariant
            i <= items@.len(),
            items@.len() > 0,
            v == strings_view(items@),
            out@ == start + item_list(v.take(i as int)),
        decreases items@.len() - i,
    {
        let ghost t = v.take(i as int + 1);
        assert(t.drop_last() =~= v.take(i as int));
        assert(t.last() == items@[i as int]@);
        if i > 0 {
            out.append(", ");
        } else {
            assert(v.take(0) =~= Seq::<Seq<char>>::empty());
        }
        out.append("\"");
        push_escaped(out, items[i].as_str());
        out.append("\".to_string()");
        assert(out@ =~= start + item_list(t));
        i = i + 1;
    }
    assert(v.take(items@.len() as int) =~= v);
}

/// One tab of a generated tab bar.
pub open spec fn tab_code(id: nat, i: nat, tab: Seq<char>) -> Seq<char> {
    "ui.selectable_value(&mut state.tab_"@ + decimal(id) + ", "@ + decimal(i) + ", \""@
        + escape_spec(tab) + "\"); "@
}

/// The tabs of a generated tab bar, numbered from 0.
pub open spec fn tabs_code(id: nat, items: Seq<Seq<char>>) -> Seq<char>
    decreases items.len(),
{
    if items.len() == 0 {
        Seq::empty()
    } else {
        tabs_code(id, items.drop_last()) + tab_code(id, (items.len() - 1) as nat, items.last())
    }
}

fn push_tabs_code(out: &mut String, id: u64, items: &Vec<String>)
    ensures
        final(out)@ == old(out)@ + tabs_code(id as nat, strings_view(items@)),
{
    let ghost v = strings_view(items@);
    let ghost start = out@;
    let mut i: usize = 0;
    assert(v.take(0) =~= Seq::<Seq<char>>::empty());
    while i < items.len()
        invariant
            i <= items@.len(),
            v == strings_view(items@),
            out@ == start + tabs_code(id as nat, v.take(i as int)),
        decreases items@.len() - i,
    {
        let ghost t = v.take(i as int + 1);
        assert(t.drop_last() =~= v.take(i as int));
        assert(t.last() == items@[i as int]@);
        out.append("ui.selectable_value(&mut state.tab_");
        push_decimal(out, id as u128);
        out.append(", ");
        push_decimal(out, i as u128);
        out.append(", \"");
        push_escaped(out, items[i].as_str());
        out.append("\"); ");
        assert(out@ =~= start + tabs_code(id as nat, t));
        i = i + 1;
    }
    assert(v.take(items@.len() as int) =~= v);
}

/// The lines a tree widget shows: its items, or a root with one child when it has none.
pub open spec fn tree_lines(items: Seq<Seq<char>>) -> Seq<Seq<char>> {
    if items.len() == 0 {
        seq!["Root"@, "  Child"@]
    } else {
        items
    }
}

fn push_tree_literal(out: &mut String, items: &Vec<String>)
    ensures
        final(out)@ == old(out)@ + outline_literal(outline_spec(tree_lines(strings_view(items@)))),
{
    if items.len() == 0 {
        let lines = vec!["Root".to_owned(), "  Child".to_owned()];
        assert(strings_view(lines@) =~= seq!["Root"@, "  Child"@]);
        let es = parse_outline(&lines);
        push_outline_literal(out, &es);
    } else {
        let es = parse_outline(items);
        push_outline_literal(out, &es);
    }
}

/// The layout a group uses: `horizontal` or `vertical`.
pub open spec fn group_layout(p: PropsView) -> Seq<char> {
    if p.horizontal { "horizontal"@ } else { "vertical"@ }
}

fn push_group_layout(out: &mut String, p: &WidgetProps)
    ensures
        final(out)@ == old(out)@ + group_layout(p@),
{
    if p.horizontal {
        out.append("horizontal");
    } else {
        out.append("vertical");
    }
}

/// The title line of a group: its text in bold and a separator, or nothing without a text.
pub open spec fn group_title(p: PropsView) -> Seq<char> {
    if p.text.len() == 0 {
        Seq::empty()
    } else {
        "ui.strong(\""@ + escape_spec(p.text) + "\"); ui.separator(); "@
    }
}

fn push_group_title(out: &mut String, p: &WidgetProps)
    ensures
        final(out)@ == old(out)@ + group_title(p@),
{
    if !p.text.as_str().is_empty() {
        let ghost before = out@;
        out.append("ui.strong(\"");
        push_escaped(out, p.text.as_str());
        out.append("\"); ui.separator(); ");
        assert(out@ =~= before + group_title(p@));
    } else {
        assert(p.text@.len() == 0);
        assert(out@ =~= old(out)@ + group_title(p@));
    }
}

/// The column count of a columns widget, at least one.
pub open spec fn columns_count(p: PropsView) -> nat {
    if p.columns < 1 { 1 } else { p.columns }
}

/// Code that places a `MenuButton` widget.
pub open spec fn emit_menu_button_spec(w: WidgetView, origin: Seq<char>) -> Seq<char> {
    scope_open(w, origin) + "\n"@ + "        let items = vec!["@ + items_code(w.props.items) + "];\n"@ + "        ui.menu_button(\""@ + escape_spec(w.props.text) + "\", |ui| {\n"@ + "            for (i, it) in items.iter().enumerate() { if ui.button(it).clicked() { state.sel_"@ + decimal(w.id.0 as nat) + " = i; ui.close_kind(egui::UiKind::Menu); } }\n"@ + "        });\n"@ + "    });\n"@
}

fn emit_menu_button(out: &mut String, w: &Widget, origin: &str)
    ensures
        final(out)@ == old(out)@ + emit_menu_button_spec(w@, origin@),
{
    let ghost before = out@;
    push_scope_open(out, w, origin);
    out.append("\n");
    out.append("        let items = vec![");
    push_items_code(out, &w.props.items);
    out.append("];\n");
    out.append("        ui.menu_button(\"");
    push_escaped(out, w.props.text.as_str());
    out.append("\", |ui| {\n");
    out.append("            for (i, it) in items.iter().enumerate() { if ui.button(it).clicked() { state.sel_");
    push_decimal(out, w.id.0 as u128);
    out.append(" = i; ui.close_kind(egui::UiKind::Menu); } }\n");
    out.append("        });\n");
    out.append("    });\n");
    assert(out@ =~= before + emit_menu_button_spec(w@, origin@));
}

/// Code that places a `Label` widget.
pub open spec fn emit_label_spec(w: WidgetView, origin: Seq<char>) -> Seq<char> {
    scope_open(w, origin) + " ui.label(\""@ + escape_spec(w.props.text) + "\"); });\n"@
}

fn emit_label(out: &mut String, w: &Widget, origin: &str)
    ensures
        final(out)@ == old(out)@ + emit_label_spec(w@, origin@),
{
    let ghost before = out@;
    push_scope_open(out, w, origin);
    out.append(" ui.label(\"");
    push_escaped(out, w.props.text.as_str());
    out.append("\"); });\n");
    assert(out@ =~= before + emit_label_spec(w@, origin@));
}

/// Code that places a `Small` widget.
pub open spec fn emit_small_spec(w: WidgetView, origin: Seq<char>) -> Seq<char> {
    scope_open(w, origin) + " ui.small(\""@ + escape_spec(w.props.text) + "\"); });\n"@
}

fn emit_small(out: &mut String, w: &Widget, origin: &str)
    ensures
        final(out)@ == old(out)@ + emit_small_spec(w@, origin@),
{
    let ghost before = out@;
    push_scope_open(out, w, origin);
    out.append(" ui.small(\"");
    push_escaped(out, w.props.text.as_str());
    out.append("\"); });\n");
    assert(out@ =~= before + emit_small_spec(w@, origin@));
}

/// Code that places a `Monospace` widget.
pub open spec fn emit_monospace_spec(w: WidgetView, origin: Seq<char>) -> Seq<char> {
    scope_open(w, origin) + " ui.monospace(\""@ + escape_spec(w.props.text) + "\"); });\n"@
}

fn emit_monospace(out: &mut String, w: &Widget, origin: &str)
    ensures
        final(out)@ == old(out)@ + emit_monospace_spec(w@, origin@),
{
    let ghost before = out@;
    push_scope_open(out, w, origin);
    out.append(" ui.monospace(\"");
    push_escaped(out, w.props.text.as_str());
    out.append("\"); });\n");
    assert(out@ =~= before + emit_monospace_spec(w@, origin@));
}

/// Code that places a `Button` widget.
pub open spec fn emit_button_spec(w: WidgetView, origin: Seq<char>) -> Seq<char> {
    scope_open(w, origin) + " ui.add_sized(egui::vec2("@ + fixed(w.size.x as int, 1) + ","@ + fixed(w.size.y as int, 1) + "), egui::Button::new(\""@ + escape_spec(w.props.text) + "\")); });\n"@
}

fn emit_button(out: &mut String, w: &Widget, origin: &str)
    ensures
        final(out)@ == old(out)@ + emit_button_spec(w@, origin@),
{
    let ghost before = out@;
    push_scope_open(out, w, origin);
    out.append(" ui.add_sized(egui::vec2(");
    push_fixed(out, w.size.x as i128, 1);
    out.append(",");
    push_fixed(out, w.size.y as i128, 1);
    out.append("), egui::Button::new(\"");
    push_escaped(out, w.props.text.as_str());
    out.append("\")); });\n");
    assert(out@ =~= before + emit_button_spec(w@, origin@));
}

/// Code that places a `ImageTextButton` widget.
pub open spec fn emit_image_text_button_spec(w: WidgetView, origin: Seq<char>) -> Seq<char> {
    scope_open(w, origin) + " ui.add_sized(egui::vec2("@ + fixed(w.size.x as int, 1) + ","@ + fixed(w.size.y as int, 1) + "), egui::Button::new(format!(\"{}  {}\", \""@ + escape_spec(w.props.icon) + "\", \""@ + escape_spec(w.props.text) + "\")) ); });\n"@
}

fn emit_image_text_button(out: &mut String, w: &Widget, origin: &str)
    ensures
        final(out)@ == old(out)@ + emit_image_text_button_spec(w@, origin@),
{
    let ghost before = out@;
    push_scope_open(out, w, origin);
    out.append(" ui.add_sized(egui::vec2(");
    push_fixed(out, w.size.x as i128, 1);
    out.append(",");
    push_fixed(out, w.size.y as i128, 1);
    out.append("), egui::Button::new(format!(\"{}  {}\", \"");
    push_escaped(out, w.props.icon.as_str());
    out.append("\", \"");
    push_escaped(out, w.props.text.as_str());
    out.append("\")) ); });\n");
    assert(out@ =~= before + emit_image_text_button_spec(w@, origin@));
}

/// Code that places a `Checkbox` widget.
pub open spec fn emit_checkbox_spec(w: WidgetView, origin: Seq<char>) -> Seq<char> {
    scope_open(w, origin) + " ui.checkbox(&mut state.checked_"@ + decimal(w.id.0 as nat) + ", \""@ + escape_spec(w.props.text) + "\"); });\n"@
}

fn emit_checkbox(out: &mut String, w: &Widget, origin: &str)
    ensures
        final(out)@ == old(out)@ + emit_checkbox_spec(w@, origin@),
{
    let ghost before = out@;
    push_scope_open(out, w, origin);
    out.append(" ui.checkbox(&mut state.checked_");
    push_decimal(out, w.id.0 as u128);
    out.append(", \"");
    push_escaped(out, w.props.text.as_str());
    out.append("\"); });\n");
    assert(out@ =~= before + emit_checkbox_spec(w@, origin@));
}

/// Code that places a `TextEdit` widget.
pub open spec fn emit_text_edit_spec(w: WidgetView, origin: Seq<char>) -> Seq<char> {
    scope_open(w, origin) + " ui.add_sized(egui::vec2("@ + fixed(w.size.x as int, 1) + ","@ + fixed(w.size.y as int, 1) + "), egui::TextEdit::singleline(&mut state.text_"@ + decimal(w.id.0 as nat) + ").hint_text(\""@ + escape_spec(w.props.text) + "\")); });\n"@
}

fn emit_text_edit(out: &mut String, w: &Widget, origin: &str)
    ensures
        final(out)@ == old(out)@ + emit_text_edit_spec(w@, origin@),
{
    let ghost before = out@;
    push_scope_open(out, w, origin);
    out.append(" ui.add_sized(egui::vec2(");
    push_fixed(out, w.size.x as i128, 1);
    out.append(",");
    push_fixed(out, w.size.y as i128, 1);
    out.append("), egui::TextEdit::singleline(&mut state.text_");
    push_decimal(out, w.id.0 as u128);
    out.append(").hint_text(\"");
    push_escaped(out, w.props.text.as_str());
    out.append("\")); });\n");
    assert(out@ =~= before + emit_text_edit_spec(w@, origin@));
}

/// Code that places a `Slider` widget.
pub open spec fn emit_slider_spec(w: WidgetView, origin: Seq<char>) -> Seq<char> {
    scope_open(w, origin) + " ui.add_sized(egui::vec2("@ + fixed(w.size.x as int, 1) + ","@ + fixed(w.size.y as int, 1) + "), egui::Slider::new(&mut state.value_"@ + decimal(w.id.0 as nat) + ", "@ + fixed(w.props.min as int, 3) + "..="@ + fixed(w.props.max as int, 3) + ").text(\""@ + escape_spec(w.props.text) + "\")); });\n"@
}

fn emit_slider(out: &mut String, w: &Widget, origin: &str)
    ensures
        final(out)@ == old(out)@ + emit_slider_spec(w@, origin@),
{
    let ghost before = out@;
    push_scope_open(out, w, origin);
    out.append(" ui.add_sized(egui::vec2(");
    push_fixed(out, w.size.x as i128, 1);
    out.append(",");
    push_fixed(out, w.size.y as i128, 1);
    out.append("), egui::Slider::new(&mut state.value_");
    push_decimal(out, w.id.0 as u128);
    out.append(", ");
    push_fixed(out, w.props.min as i128, 3);
    out.append("..=");
    push_fixed(out, w.props.max as i128, 3);
    out.append(").text(\"");
    push_escaped(out, w.props.text.as_str());
    out.append("\")); });\n");
    assert(out@ =~= before + emit_slider_spec(w@, origin@));
}

/// Code that places a `ProgressBar` widget.
pub open spec fn emit_progress_bar_spec(w: WidgetView, origin: Seq<char>) -> Seq<char> {
    scope_open(w, origin) + " ui.add_sized(egui::vec2("@ + fixed(w.size.x as int, 1) + ","@ + fixed(w.size.y as int, 1) + "), egui::ProgressBar::new(state.progress_"@ + decimal(w.id.0 as nat) + ").show_percentage()); });\n"@
}

fn emit_progress_bar(out: &mut String, w: &Widget, origin: &str)
    ensures
        final(out)@ == old(out)@ + emit_progress_bar_spec(w@, origin@),
{
    let ghost before = out@;
    push_scope_open(out, w, origin);
    out.append(" ui.add_sized(egui::vec2(");
    push_fixed(out, w.size.x as i128, 1);
    out.append(",");
    push_fixed(out, w.size.y as i128, 1);
    out.append("), egui::ProgressBar::new(state.progress_");
    push_decimal(out, w.id.0 as u128);
    out.append(").show_percentage()); });\n");
    assert(out@ =~= before + emit_progress_bar_spec(w@, origin@));
}

/// Code that places a `RadioGroup` widget.
pub open spec fn emit_radio_group_spec(w: WidgetView, origin: Seq<char>) -> Seq<char> {
    scope_open(w, origin) + "\n"@ + "        let items = vec!["@ + items_code(w.props.items) + "];\n"@ + "        for (i, it) in items.iter().enumerate() { if ui.add(egui::RadioButton::new(state.sel_"@ + decimal(w.id.0 as nat) + " == i, it)).clicked() { state.sel_"@ + decimal(w.id.0 as nat) + " = i; } }\n"@ + "    });\n"@
}

fn emit_radio_group(out: &mut String, w: &Widget, origin: &str)
    ensures
        final(out)@ == old(out)@ + emit_radio_group_spec(w@, origin@),
{
    let ghost before = out@;
    push_scope_open(out, w, origin);
    out.append("\n");
    out.append("        let items = vec![");
    push_items_code(out, &w.props.items);
    out.append("];\n");
    out.append("        for (i, it) in items.iter().enumerate() { if ui.add(egui::RadioButton::new(state.sel_");
    push_decimal(out, w.id.0 as u128);
    out.append(" == i, it)).clicked() { state.sel_");
    push_decimal(out, w.id.0 as u128);
    out.append(" = i; } }\n");
    out.append("    });\n");
    assert(out@ =~= before + emit_radio_group_spec(w@, origin@));
}

/// Code that places a `Link` widget.
pub open spec fn emit_link_spec(w: WidgetView, origin: Seq<char>) -> Seq<char> {
    scope_open(w, origin) + " ui.link(\""@ + escape_spec(w.props.text) + "\"); });\n"@
}

fn emit_link(out: &mut String, w: &Widget, origin: &str)
    ensures
        final(out)@ == old(out)@ + emit_link_spec(w@, origin@),
{
    let ghost before = out@;
    push_scope_open(out, w, origin);
    out.append(" ui.link(\"");
    push_escaped(out, w.props.text.as_str());
    out.append("\"); });\n");
    assert(out@ =~= before + emit_link_spec(w@, origin@));
}

/// Code that places a `Hyperlink` widget.
pub open spec fn emit_hyperlink_spec(w: WidgetView, origin: Seq<char>) -> Seq<char> {
    scope_open(w, origin) + " ui.hyperlink_to(\""@ + escape_spec(w.props.text) + "\", \""@ + escape_spec(w.props.url) + "\"); });\n"@
}

fn emit_hyperlink(out: &mut String, w: &Widget, origin: &str)
    ensures
        final(out)@ == old(out)@ + emit_hyperlink_spec(w@, origin@),
{
    let ghost before = out@;
    push_scope_open(out, w, origin);
    out.append(" ui.hyperlink_to(\"");
    push_escaped(out, w.props.text.as_str());
    out.append("\", \"");
    push_escaped(out, w.props.url.as_str());
    out.append("\"); });\n");
    assert(out@ =~= before + emit_hyperlink_spec(w@, origin@));
}

/// Code that places a `SelectableLabel` widget.
pub open spec fn emit_selectable_label_spec(w: WidgetView, origin: Seq<char>) -> Seq<char> {
    scope_open(w, origin) + " if ui.add(egui::Button::selectable(state.sel_"@ + decimal(w.id.0 as nat) + ", \""@ + escape_spec(w.props.text) + "\")).clicked() { state.sel_"@ + decimal(w.id.0 as nat) + " = !state.sel_"@ + decimal(w.id.0 as nat) + "; } });\n"@
}

fn emit_selectable_label(out: &mut String, w: &Widget, origin: &str)
    ensures
        final(out)@ == old(out)@ + emit_selectable_label_spec(w@, origin@),
{
    let ghost before = out@;
    push_scope_open(out, w, origin);
    out.append(" if ui.add(egui::Button::selectable(state.sel_");
    push_decimal(out, w.id.0 as u128);
    out.append(", \"");
    push_escaped(out, w.props.text.as_str());
    out.append("\")).clicked() { state.sel_");
    push_decimal(out, w.id.0 as u128);
    out.append(" = !state.sel_");
    push_decimal(out, w.id.0 as u128);
    out.append("; } });\n");
    assert(out@ =~= before + emit_selectable_label_spec(w@, origin@));
}

/// Code that places a `ComboBox` widget.
pub open spec fn emit_combo_box_spec(w: WidgetView, origin: Seq<char>) -> Seq<char> {
    scope_open(w, origin) + "\n"@ + "        let items = vec!["@ + items_code(w.props.items) + "];\n"@ + "        egui::ComboBox::from_id_source("@ + decimal(w.id.0 as nat) + ")\n"@ + "            .width("@ + fixed(w.size.x as int, 1) + ")\n"@ + "            .selected_text(items.get(state.sel_"@ + decimal(w.id.0 as nat) + ").cloned().unwrap_or_else(|| \"\".to_string()))\n"@ + "            .show_ui(ui, |ui| {\n"@ + "                for (i, it) in items.iter().enumerate() { ui.selectable_value(&mut state.sel_"@ + decimal(w.id.0 as nat) + ", i, it.clone()); }\n"@ + "            });\n"@ + "    });\n"@
}

fn emit_combo_box(out: &mut String, w: &Widget, origin: &str)
    ensures
        final(out)@ == old(out)@ + emit_combo_box_spec(w@, origin@),
{
    let ghost before = out@;
    push_scope_open(out, w, origin);
    out.append("\n");
    out.append("        let items = vec![");
    push_items_code(out, &w.props.items);
    out.append("];\n");
    out.append("        egui::ComboBox::from_id_source(");
    push_decimal(out, w.id.0 as u128);
    out.append(")\n");
    out.append("            .width(");
    push_fixed(out, w.size.x as i128, 1);
    out.append(")\n");
    out.append("            .selected_text(items.get(state.sel_");
    push_decimal(out, w.id.0 as u128);
    out.append(").cloned().unwrap_or_else(|| \"\".to_string()))\n");
    out.append("            .show_ui(ui, |ui| {\n");
    out.append("                for (i, it) in items.iter().enumerate() { ui.selectable_value(&mut state.sel_");
    push_decimal(out, w.id.0 as u128);
    out.append(", i, it.clone()); }\n");
    out.append("            });\n");
    out.append("    });\n");
    assert(out@ =~= before + emit_combo_box_spec(w@, origin@));
}

/// Code that places a `Separator` widget.
pub open spec fn emit_separator_spec(w: WidgetView, origin: Seq<char>) -> Seq<char> {
    scope_open(w, origin) + " ui.separator(); });\n"@
}

fn emit_separator(out: &mut String, w: &Widget, origin: &str)
    ensures
        final(out)@ == old(out)@ + emit_separator_spec(w@, origin@),
{
    let ghost before = out@;
    push_scope_open(out, w, origin);
    out.append(" ui.separator(); });\n");
    assert(out@ =~= before + emit_separator_spec(w@, origin@));
}

/// Code that places a `CollapsingHeader` widget.
pub open spec fn emit_collapsing_header_spec(w: WidgetView, origin: Seq<char>) -> Seq<char> {
    scope_open(w, origin) + " egui::CollapsingHeader::new(\""@ + escape_spec(w.props.text) + "\").default_open(state.open_"@ + decimal(w.id.0 as nat) + ").show(ui, |ui| { ui.label(\"\u{2026} place your inner content here \u{2026}\"); }); });\n"@
}

fn emit_collapsing_header(out: &mut String, w: &Widget, origin: &str)
    ensures
        final(out)@ == old(out)@ + emit_collapsing_header_spec(w@, origin@),
{
    let ghost before = out@;
    push_scope_open(out, w, origin);
    out.append(" egui::CollapsingHeader::new(\"");
    push_escaped(out, w.props.text.as_str());
    out.append("\").default_open(state.open_");
    push_decimal(out, w.id.0 as u128);
    out.append(").show(ui, |ui| { ui.label(\"\u{2026} place your inner content here \u{2026}\"); }); });\n");
    assert(out@ =~= before + emit_collapsing_header_spec(w@, origin@));
}

/// Code that places a `DatePicker` widget.
pub open spec fn emit_date_picker_spec(w: WidgetView, origin: Seq<char>) -> Seq<char> {
    scope_open(w, origin) + " ui.horizontal(|ui| { ui.label(\""@ + escape_spec(w.props.text) + "\"); ui.add(DatePickerButton::new(&mut state.date_"@ + decimal(w.id.0 as nat) + ")); }); });\n"@
}

fn emit_date_picker(out: &mut String, w: &Widget, origin: &str)
    ensures
        final(out)@ == old(out)@ + emit_date_picker_spec(w@, origin@),
{
    let ghost before = out@;
    push_scope_open(out, w, origin);
    out.append(" ui.horizontal(|ui| { ui.label(\"");
    push_escaped(out, w.props.text.as_str());
    out.append("\"); ui.add(DatePickerButton::new(&mut state.date_");
    push_decimal(out, w.id.0 as u128);
    out.append(")); }); });\n");
    assert(out@ =~= before + emit_date_picker_spec(w@, origin@));
}

/// Code that places a `Password` widget.
pub open spec fn emit_password_spec(w: WidgetView, origin: Seq<char>) -> Seq<char> {
    scope_open(w, origin) + " ui.add_sized(egui::vec2("@ + fixed(w.size.x as int, 1) + ","@ + fixed(w.size.y as int, 1) + "), egui::TextEdit::singleline(&mut state.pass_"@ + decimal(w.id.0 as nat) + ").password(true).hint_text(\"password\") ); });\n"@
}

fn emit_password(out: &mut String, w: &Widget, origin: &str)
    ensures
        final(out)@ == old(out)@ + emit_password_spec(w@, origin@),
{
    let ghost before = out@;
    push_scope_open(out, w, origin);
    out.append(" ui.add_sized(egui::vec2(");
    push_fixed(out, w.size.x as i128, 1);
    out.append(",");
    push_fixed(out, w.size.y as i128, 1);
    out.append("), egui::TextEdit::singleline(&mut state.pass_");
    push_decimal(out, w.id.0 as u128);
    out.append(").password(true).hint_text(\"password\") ); });\n");
    assert(out@ =~= before + emit_password_spec(w@, origin@));
}

/// Code that places a `AngleSelector` widget.
pub open spec fn emit_angle_selector_spec(w: WidgetView, origin: Seq<char>) -> Seq<char> {
    scope_open(w, origin) + " ui.add_sized(egui::vec2("@ + fixed(w.size.x as int, 1) + ","@ + fixed(w.size.y as int, 1) + "), egui::Slider::new(&mut state.angle_"@ + decimal(w.id.0 as nat) + ", "@ + fixed(w.props.min as int, 3) + "..="@ + fixed(w.props.max as int, 3) + ").suffix(\"\u{b0}\").text(\""@ + escape_spec(w.props.text) + "\") ); });\n"@
}

fn emit_angle_selector(out: &mut String, w: &Widget, origin: &str)
    ensures
        final(out)@ == old(out)@ + emit_angle_selector_spec(w@, origin@),
{
    let ghost before = out@;
    push_scope_open(out, w, origin);
    out.append(" ui.add_sized(egui::vec2(");
    push_fixed(out, w.size.x as i128, 1);
    out.append(",");
    push_fixed(out, w.size.y as i128, 1);
    out.append("), egui::Slider::new(&mut state.angle_");
    push_decimal(out, w.id.0 as u128);
    out.append(", ");
    push_fixed(out, w.props.min as i128, 3);
    out.append("..=");
    push_fixed(out, w.props.max as i128, 3);
    out.append(").suffix(\"\u{b0}\").text(\"");
    push_escaped(out, w.props.text.as_str());
    out.append("\") ); });\n");
    assert(out@ =~= before + emit_angle_selector_spec(w@, origin@));
}

/// Code that places a `Tree` widget.
pub open spec fn emit_tree_spec(w: WidgetView, origin: Seq<char>) -> Seq<char> {
    scope_open(w, origin) + " let nodes: Vec<GenTreeNode> = "@ + outline_literal(outline_spec(tree_lines(w.props.items))) + "; egui::ScrollArea::vertical().auto_shrink([false,false]).show(ui, |ui| { gen_show_tree(ui, &nodes); }); });\n"@
}

fn emit_tree(out: &mut String, w: &Widget, origin: &str)
    ensures
        final(out)@ == old(out)@ + emit_tree_spec(w@, origin@),
{
    let ghost before = out@;
    push_scope_open(out, w, origin);
    out.append(" let nodes: Vec<GenTreeNode> = ");
    push_tree_literal(out, &w.props.items);
    out.append("; egui::ScrollArea::vertical().auto_shrink([false,false]).show(ui, |ui| { gen_show_tree(ui, &nodes); }); });\n");
    assert(out@ =~= before + emit_tree_spec(w@, origin@));
}

/// Code that places a `TextArea` widget.
pub open spec fn emit_text_area_spec(w: WidgetView, origin: Seq<char>) -> Seq<char> {
    scope_open(w, origin) + " ui.add_sized(egui::vec2("@ + fixed(w.size.x as int, 1) + ","@ + fixed(w.size.y as int, 1) + "), egui::TextEdit::multiline(&mut state.textarea_"@ + decimal(w.id.0 as nat) + ").desired_rows(5) ); });\n"@
}

fn emit_text_area(out: &mut String, w: &Widget, origin: &str)
    ensures
        final(out)@ == old(out)@ + emit_text_area_spec(w@, origin@),
{
    let ghost before = out@;
    push_scope_open(out, w, origin);
    out.append(" ui.add_sized(egui::vec2(");
    push_fixed(out, w.size.x as i128, 1);
    out.append(",");
    push_fixed(out, w.size.y as i128, 1);
    out.append("), egui::TextEdit::multiline(&mut state.textarea_");
    push_decimal(out, w.id.0 as u128);
    out.append(").desired_rows(5) ); });\n");
    assert(out@ =~= before + emit_text_area_spec(w@, origin@));
}

/// Code that places a `DragValue` widget.
pub open spec fn emit_drag_value_spec(w: WidgetView, origin: Seq<char>) -> Seq<char> {
    scope_open(w, origin) + " ui.horizontal(|ui| { ui.label(\""@ + escape_spec(w.props.text) + "\"); ui.add(egui::DragValue::new(&mut state.drag_"@ + decimal(w.id.0 as nat) + ").range("@ + fixed(w.props.min as int, 3) + "..="@ + fixed(w.props.max as int, 3) + ")); }); });\n"@
}

fn emit_drag_value(out: &mut String, w: &Widget, origin: &str)
    ensures
        final(out)@ == old(out)@ + emit_drag_value_spec(w@, origin@),
{
    let ghost before = out@;
    push_scope_open(out, w, origin);
    out.append(" ui.horizontal(|ui| { ui.label(\"");
    push_escaped(out, w.props.text.as_str());
    out.append("\"); ui.add(egui::DragValue::new(&mut state.drag_");
    push_decimal(out, w.id.0 as u128);
    out.append(").range(");
    push_fixed(out, w.props.min as i128, 3);
    out.append("..=");
    push_fixed(out, w.props.max as i128, 3);
    out.append(")); }); });\n");
    assert(out@ =~= before + emit_drag_value_spec(w@, origin@));
}

/// Code that places a `Spinner` widget.
pub open spec fn emit_spinner_spec(w: WidgetView, origin: Seq<char>) -> Seq<char> {
    scope_open(w, origin) + " ui.add(egui::Spinner::new()); });\n"@
}

fn emit_spinner(out: &mut String, w: &Widget, origin: &str)
    ensures
        final(out)@ == old(out)@ + emit_spinner_spec(w@, origin@),
{
    let ghost before = out@;
    push_scope_open(out, w, origin);
    out.append(" ui.add(egui::Spinner::new()); });\n");
    assert(out@ =~= before + emit_spinner_spec(w@, origin@));
}

/// Code that places a `ColorPicker` widget.
pub open spec fn emit_color_picker_spec(w: WidgetView, origin: Seq<char>) -> Seq<char> {
    scope_open(w, origin) + " ui.horizontal(|ui| { ui.label(\""@ + escape_spec(w.props.text) + "\"); egui::color_picker::color_edit_button_srgba(ui, &mut state.color_"@ + decimal(w.id.0 as nat) + ", egui::color_picker::Alpha::OnlyBlend); }); });\n"@
}

fn emit_color_picker(out: &mut String, w: &Widget, origin: &str)
    ensures
        final(out)@ == old(out)@ + emit_color_picker_spec(w@, origin@),
{
    let ghost before = out@;
    push_scope_open(out, w, origin);
    out.append(" ui.horizontal(|ui| { ui.label(\"");
    push_escaped(out, w.props.text.as_str());
    out.append("\"); egui::color_picker::color_edit_button_srgba(ui, &mut state.color_");
    push_decimal(out, w.id.0 as u128);
    out.append(", egui::color_picker::Alpha::OnlyBlend); }); });\n");
    assert(out@ =~= before + emit_color_picker_spec(w@, origin@));
}

/// Code that places a `Code` widget.
pub open spec fn emit_code_spec(w: WidgetView, origin: Seq<char>) -> Seq<char> {
    scope_open(w, origin) + " egui::ScrollArea::vertical().auto_shrink([false,false]).show(ui, |ui| { ui.add(egui::TextEdit::multiline(&mut state.code_"@ + decimal(w.id.0 as nat) + ").code_editor().desired_width("@ + fixed(w.size.x as int, 1) + ").desired_rows(8)); }); });\n"@
}

fn emit_code(out: &mut String, w: &Widget, origin: &str)
    ensures
        final(out)@ == old(out)@ + emit_code_spec(w@, origin@),
{
    let ghost before = out@;
    push_scope_open(out, w, origin);
    out.append(" egui::ScrollArea::vertical().auto_shrink([false,false]).show(ui, |ui| { ui.add(egui::TextEdit::multiline(&mut state.code_");
    push_decimal(out, w.id.0 as u128);
    out.append(").code_editor().desired_width(");
    push_fixed(out, w.size.x as i128, 1);
    out.append(").desired_rows(8)); }); });\n");
    assert(out@ =~= before + emit_code_spec(w@, origin@));
}

/// Code that places a `Heading` widget.
pub open spec fn emit_heading_spec(w: WidgetView, origin: Seq<char>) -> Seq<char> {
    scope_open(w, origin) + " ui.heading(\""@ + escape_spec(w.props.text) + "\"); });\n"@
}

fn emit_heading(out: &mut String, w: &Widget, origin: &str)
    ensures
        final(out)@ == old(out)@ + emit_heading_spec(w@, origin@),
{
    let ghost before = out@;
    push_scope_open(out, w, origin);
    out.append(" ui.heading(\"");
    push_escaped(out, w.props.text.as_str());
    out.append("\"); });\n");
    assert(out@ =~= before + emit_heading_spec(w@, origin@));
}

/// Code that places a `Image` widget.
pub open spec fn emit_image_spec(w: WidgetView, origin: Seq<char>) -> Seq<char> {
    scope_open(w, origin) + " ui.add(egui::Image::new(\""@ + escape_spec(w.props.url) + "\").fit_to_exact_size(egui::vec2("@ + fixed(w.size.x as int, 1) + ","@ + fixed(w.size.y as int, 1) + "))); });\n"@
}

fn emit_image(out: &mut String, w: &Widget, origin: &str)
    ensures
        final(out)@ == old(out)@ + emit_image_spec(w@, origin@),
{
    let ghost before = out@;
    push_scope_open(out, w, origin);
    out.append(" ui.add(egui::Image::new(\"");
    push_escaped(out, w.props.url.as_str());
    out.append("\").fit_to_exact_size(egui::vec2(");
    push_fixed(out, w.size.x as i128, 1);
    out.append(",");
    push_fixed(out, w.size.y as i128, 1);
    out.append("))); });\n");
    assert(out@ =~= before + emit_image_spec(w@, origin@));
}

/// Code that places a `Placeholder` widget.
pub open spec fn emit_placeholder_spec(w: WidgetView, origin: Seq<char>) -> Seq<char> {
    scope_open(w, origin) + " egui::Frame::NONE.fill(egui::Color32::from_rgba_unmultiplied("@ + decimal(w.props.color[0] as nat) + ","@ + decimal(w.props.color[1] as nat) + ","@ + decimal(w.props.color[2] as nat) + ","@ + decimal(w.props.color[3] as nat) + ")).corner_radius(4.0).show(ui, |ui| { ui.set_min_size(egui::vec2("@ + fixed(w.size.x as int, 1) + ","@ + fixed(w.size.y as int, 1) + ")); ui.centered_and_justified(|ui| ui.label(\""@ + escape_spec(w.props.text) + "\")); }); });\n"@
}

#[verifier::rlimit(60)]
fn emit_placeholder(out: &mut String, w: &Widget, origin: &str)
    ensures
        final(out)@ == old(out)@ + emit_placeholder_spec(w@, origin@),
{
    let ghost before = out@;
    push_scope_open(out, w, origin);
    out.append(" egui::Frame::NONE.fill(egui::Color32::from_rgba_unmultiplied(");
    push_decimal(out, w.props.color[0] as u128);
    out.append(",");
    push_decimal(out, w.props.color[1] as u128);
    out.append(",");
    push_decimal(out, w.props.color[2] as u128);
    out.append(",");
    push_decimal(out, w.props.color[3] as u128);
    out.append(")).corner_radius(4.0).show(ui, |ui| { ui.set_min_size(egui::vec2(");
    push_fixed(out, w.size.x as i128, 1);
    out.append(",");
    push_fixed(out, w.size.y as i128, 1);
    out.append(")); ui.centered_and_justified(|ui| ui.label(\"");
    push_escaped(out, w.props.text.as_str());
    out.append("\")); }); });\n");
    assert(out@ =~= before + emit_placeholder_spec(w@, origin@));
}

/// Code that places a `Group` widget.
pub open spec fn emit_group_spec(w: WidgetView, origin: Seq<char>) -> Seq<char> {
    scope_open(w, origin) + " egui::Frame::group(ui.style()).show(ui, |ui| { ui.set_min_size(egui::vec2("@ + fixed(w.size.x - 120, 1) + ","@ + fixed(w.size.y - 120, 1) + ")); ui."@ + group_layout(w.props) + "(|ui| { "@ + group_title(w.props) + "/* group contents */ }); }); });\n"@
}

fn emit_group(out: &mut String, w: &Widget, origin: &str)
    ensures
        final(out)@ == old(out)@ + emit_group_spec(w@, origin@),
{
    let ghost before = out@;
    push_scope_open(out, w, origin);
    out.append(" egui::Frame::group(ui.style()).show(ui, |ui| { ui.set_min_size(egui::vec2(");
    push_fixed(out, w.size.x as i128 - 120, 1);
    out.append(",");
    push_fixed(out, w.size.y as i128 - 120, 1);
    out.append(")); ui.");
    push_group_layout(out, &w.props);
    out.append("(|ui| { ");
    push_group_title(out, &w.props);
    out.append("/* group contents */ }); }); });\n");
    assert(out@ =~= before + emit_group_spec(w@, origin@));
}

/// Code that places a `ScrollBox` widget.
pub open spec fn emit_scroll_box_spec(w: WidgetView, origin: Seq<char>) -> Seq<char> {
    scope_open(w, origin) + " egui::ScrollArea::both().max_width("@ + fixed(w.size.x - 40, 1) + ").max_height("@ + fixed(w.size.y - 40, 1) + ").auto_shrink([false,false]).show(ui, |ui| { ui.label(\""@ + escape_spec(w.props.text) + "\"); }); });\n"@
}

fn emit_scroll_box(out: &mut String, w: &Widget, origin: &str)
    ensures
        final(out)@ == old(out)@ + emit_scroll_box_spec(w@, origin@),
{
    let ghost before = out@;
    push_scope_open(out, w, origin);
    out.append(" egui::ScrollArea::both().max_width(");
    push_fixed(out, w.size.x as i128 - 40, 1);
    out.append(").max_height(");
    push_fixed(out, w.size.y as i128 - 40, 1);
    out.append(").auto_shrink([false,false]).show(ui, |ui| { ui.label(\"");
    push_escaped(out, w.props.text.as_str());
    out.append("\"); }); });\n");
    assert(out@ =~= before + emit_scroll_box_spec(w@, origin@));
}

/// Code that places a `TabBar` widget.
pub open spec fn emit_tab_bar_spec(w: WidgetView, origin: Seq<char>) -> Seq<char> {
    scope_open(w, origin) + " ui.horizontal(|ui| { "@ + tabs_code(w.id.0 as nat, w.props.items) + " }); });\n"@
}

fn emit_tab_bar(out: &mut String, w: &Widget, origin: &str)
    ensures
        final(out)@ == old(out)@ + emit_tab_bar_spec(w@, origin@),
{
    let ghost before = out@;
    push_scope_open(out, w, origin);
    out.append(" ui.horizontal(|ui| { ");
    push_tabs_code(out, w.id.0, &w.props.items);
    out.append(" }); });\n");
    assert(out@ =~= before + emit_tab_bar_spec(w@, origin@));
}

/// Code that places a `Columns` widget.
pub open spec fn emit_columns_spec(w: WidgetView, origin: Seq<char>) -> Seq<char> {
    scope_open(w, origin) + " ui.columns("@ + decimal(columns_count(w.props)) + ", |columns| { for col in columns.iter_mut() { col.label(\""@ + escape_spec(w.props.text) + "\"); } }); });\n"@
}

fn emit_columns(out: &mut String, w: &Widget, origin: &str)
    ensures
        final(out)@ == old(out)@ + emit_columns_spec(w@, origin@),
{
    let ghost before = out@;
    push_scope_open(out, w, origin);
    out.append(" ui.columns(");
    push_decimal(out, if w.props.columns < 1 { 1 } else { w.props.columns as u128 });
    out.append(", |columns| { for col in columns.iter_mut() { col.label(\"");
    push_escaped(out, w.props.text.as_str());
    out.append("\"); } }); });\n");
    assert(out@ =~= before + emit_columns_spec(w@, origin@));
}

/// Code that places a `Window` widget.
pub open spec fn emit_window_spec(w: WidgetView, origin: Seq<char>) -> Seq<char> {
    "    egui::Window::new(\""@ + escape_spec(w.props.text) + "\").default_pos("@ + origin + " + egui::vec2("@ + fixed(w.pos.x as int, 1) + ","@ + fixed(w.pos.y as int, 1) + ")).default_size(egui::vec2("@ + fixed(w.size.x as int, 1) + ","@ + fixed(w.size.y as int, 1) + ")).open(&mut state.window_"@ + decimal(w.id.0 as nat) + "_open).show(ctx, |ui| { /* window contents */ });\n"@
}

fn emit_window(out: &mut String, w: &Widget, origin: &str)
    ensures
        final(out)@ == old(out)@ + emit_window_spec(w@, origin@),
{
    let ghost before = out@;
    out.append("    egui::Window::new(\"");
    push_escaped(out, w.props.text.as_str());
    out.append("\").default_pos(");
    out.append(origin);
    out.append(" + egui::vec2(");
    push_fixed(out, w.pos.x as i128, 1);
    out.append(",");
    push_fixed(out, w.pos.y as i128, 1);
    out.append(")).default_size(egui::vec2(");
    push_fixed(out, w.size.x as i128, 1);
    out.append(",");
    push_fixed(out, w.size.y as i128, 1);
    out.append(")).open(&mut state.window_");
    push_decimal(out, w.id.0 as u128);
    out.append("_open).show(ctx, |ui| { /* window contents */ });\n");
    assert(out@ =~= before + emit_window_spec(w@, origin@));
}

/// The code that places one widget, relative to `origin`.
pub open spec fn widget_code(w: WidgetView, origin: Seq<char>) -> Seq<char> {
    match w.kind {
        WidgetKind::MenuButton => emit_menu_button_spec(w, origin),
        WidgetKind::Label => emit_label_spec(w, origin),
        WidgetKind::Small => emit_small_spec(w, origin),
        WidgetKind::Monospace => emit_monospace_spec(w, origin),
        WidgetKind::Button => emit_button_spec(w, origin),
        WidgetKind::ImageTextButton => emit_image_text_button_spec(w, origin),
        WidgetKind::Checkbox => emit_checkbox_spec(w, origin),
        WidgetKind::TextEdit => emit_text_edit_spec(w, origin),
        WidgetKind::Slider => emit_slider_spec(w, origin),
        WidgetKind::ProgressBar => emit_progress_bar_spec(w, origin),
        WidgetKind::RadioGroup => emit_radio_group_spec(w, origin),
        WidgetKind::Link => emit_link_spec(w, origin),
        WidgetKind::Hyperlink => emit_hyperlink_spec(w, origin),
        WidgetKind::SelectableLabel => emit_selectable_label_spec(w, origin),
        WidgetKind::ComboBox => emit_combo_box_spec(w, origin),
        WidgetKind::Separator => emit_separator_spec(w, origin),
        WidgetKind::CollapsingHeader => emit_collapsing_header_spec(w, origin),
        WidgetKind::DatePicker => emit_date_picker_spec(w, origin),
        WidgetKind::Password => emit_password_spec(w, origin),
        WidgetKind::AngleSelector => emit_angle_selector_spec(w, origin),
        WidgetKind::Tree => emit_tree_spec(w, origin),
        WidgetKind::TextArea => emit_text_area_spec(w, origin),
        WidgetKind::DragValue => emit_drag_value_spec(w, origin),
        WidgetKind::Spinner => emit_spinner_spec(w, origin),
        WidgetKind::ColorPicker => emit_color_picker_spec(w, origin),
        WidgetKind::Code => emit_code_spec(w, origin),
        WidgetKind::Heading => emit_heading_spec(w, origin),
        WidgetKind::Image => emit_image_spec(w, origin),
        WidgetKind::Placeholder => emit_placeholder_spec(w, origin),
        WidgetKind::Group => emit_group_spec(w, origin),
        WidgetKind::ScrollBox => emit_scroll_box_spec(w, origin),
        WidgetKind::TabBar => emit_tab_bar_spec(w, origin),
        WidgetKind::Columns => emit_columns_spec(w, origin),
        WidgetKind::Window => emit_window_spec(w, origin),
    }
}

/// The egui call that the code of each kind of widget makes to show it.
pub open spec fn egui_call(k: WidgetKind) -> Seq<char> {
    match k {
        WidgetKind::MenuButton => "        ui.menu_button(\""@,
        WidgetKind::Label => " ui.label(\""@,
        WidgetKind::Small => " ui.small(\""@,
        WidgetKind::Monospace => " ui.monospace(\""@,
        WidgetKind::Button => "), egui::Button::new(\""@,
        WidgetKind::ImageTextButton => "), egui::Button::new(format!(\"{}  {}\", \""@,
        WidgetKind::Checkbox => " ui.checkbox(&mut state.checked_"@,
        WidgetKind::TextEdit => "), egui::TextEdit::singleline(&mut state.text_"@,
        WidgetKind::Slider => "), egui::Slider::new(&mut state.value_"@,
        WidgetKind::ProgressBar => "), egui::ProgressBar::new(state.progress_"@,
        WidgetKind::RadioGroup => "        for (i, it) in items.iter().enumerate() { if ui.add(egui::RadioButton::new(state.sel_"@,
        WidgetKind::Link => " ui.link(\""@,
        WidgetKind::Hyperlink => " ui.hyperlink_to(\""@,
        WidgetKind::SelectableLabel => " if ui.add(egui::Button::selectable(state.sel_"@,
        WidgetKind::ComboBox => "        egui::ComboBox::from_id_source("@,
        WidgetKind::Separator => " ui.separator(); });\n"@,
        WidgetKind::CollapsingHeader => " egui::CollapsingHeader::new(\""@,
        WidgetKind::DatePicker => "\"); ui.add(DatePickerButton::new(&mut state.date_"@,
        WidgetKind::Password => "), egui::TextEdit::singleline(&mut state.pass_"@,
        WidgetKind::AngleSelector => "), egui::Slider::new(&mut state.angle_"@,
        WidgetKind::Tree => " let nodes: Vec<GenTreeNode> = "@,
        WidgetKind::TextArea => "), egui::TextEdit::multiline(&mut state.textarea_"@,
        WidgetKind::DragValue => "\"); ui.add(egui::DragValue::new(&mut state.drag_"@,
        WidgetKind::Spinner => " ui.add(egui::Spinner::new()); });\n"@,
        WidgetKind::ColorPicker => "\"); egui::color_picker::color_edit_button_srgba(ui, &mut state.color_"@,
        WidgetKind::Code => " egui::ScrollArea::vertical().auto_shrink([false,false]).show(ui, |ui| { ui.add(egui::TextEdit::multiline(&mut state.code_"@,
        WidgetKind::Heading => " ui.heading(\""@,
        WidgetKind::Image => " ui.add(egui::Image::new(\""@,
        WidgetKind::Placeholder => " egui::Frame::NONE.fill(egui::Color32::from_rgba_unmultiplied("@,
        WidgetKind::Group => " egui::Frame::group(ui.style()).show(ui, |ui| { ui.set_min_size(egui::vec2("@,
        WidgetKind::ScrollBox => " egui::ScrollArea::both().max_width("@,
        WidgetKind::TabBar => " ui.horizontal(|ui| { "@,
        WidgetKind::Columns => " ui.columns("@,
        WidgetKind::Window => "    egui::Window::new(\""@,
    }
}

/// `needle` occurs somewhere in `hay`.
pub open spec fn occurs_in(needle: Seq<char>, hay: Seq<char>) -> bool {
    exists|i: int| 0 <= i && i + needle.len() <= hay.len() && #[trigger] hay.subrange(i, i + needle.len()) == needle
}

broadcast proof fn lemma_occurs_at_end(a: Seq<char>, n: Seq<char>)
    ensures
        #[trigger] occurs_in(n, a + n),
{
    assert((a + n).subrange(a.len() as int, (a.len() + n.len()) as int) =~= n);
}

broadcast proof fn lemma_occurs_at_start(n: Seq<char>, b: Seq<char>)
    ensures
        #[trigger] occurs_in(n, n + b),
{
    let i: int = 0;
    assert((n + b).subrange(i, i + n.len()) =~= n);
}

broadcast proof fn lemma_occurs_extend(n: Seq<char>, a: Seq<char>, b: Seq<char>)
    requires
        occurs_in(n, a),
    ensures
        #[trigger] occurs_in(n, a + b),
{
    let i = choose|i: int| 0 <= i && i + n.len() <= a.len() && #[trigger] a.subrange(i, i + n.len()) == n;
    assert((a + b).subrange(i, i + n.len()) =~= a.subrange(i, i + n.len()));
}

/// The code of every widget makes the egui call of its kind: a heading calls
/// `ui.heading`, a label `ui.label`, a button `egui::Button::new`, and so on. Every widget
/// but a window is placed in a scope at its rectangle.
#[verifier::rlimit(60)]
pub proof fn lemma_widget_code_makes_its_call(w: WidgetView, origin: Seq<char>)
    ensures
        occurs_in(egui_call(w.kind), widget_code(w, origin)),
        w.kind != WidgetKind::Window ==> widget_code(w, origin).subrange(0, scope_open(w, origin).len() as int)
            == scope_open(w, origin),
{
    broadcast use lemma_occurs_at_end, lemma_occurs_at_start, lemma_occurs_extend;
    let c = widget_code(w, origin);
    let so = scope_open(w, origin);
    match w.kind {
        WidgetKind::MenuButton => {
            assert(occurs_in(egui_call(w.kind), c));
        },
        WidgetKind::Label => {
            assert(occurs_in(egui_call(w.kind), c));
        },
        WidgetKind::Small => {
            assert(occurs_in(egui_call(w.kind), c));
        },
        WidgetKind::Monospace => {
            assert(occurs_in(egui_call(w.kind), c));
        },
        WidgetKind::Button => {
            assert(occurs_in(egui_call(w.kind), c));
        },
        WidgetKind::ImageTextButton => {
            assert(occurs_in(egui_call(w.kind), c));
        },
        WidgetKind::Checkbox => {
            assert(occurs_in(egui_call(w.kind), c));
        },
        WidgetKind::TextEdit => {
            assert(occurs_in(egui_call(w.kind), c));
        },
        WidgetKind::Slider => {
            assert(occurs_in(egui_call(w.kind), c));
        },
        WidgetKind::ProgressBar => {
            assert(occurs_in(egui_call(w.kind), c));
        },
        WidgetKind::RadioGroup => {
            assert(occurs_in(egui_call(w.kind), c));
        },
        WidgetKind::Link => {
            assert(occurs_in(egui_call(w.kind), c));
        },
        WidgetKind::Hyperlink => {
            assert(occurs_in(egui_call(w.kind), c));
        },
        WidgetKind::SelectableLabel => {
            assert(occurs_in(egui_call(w.kind), c));
        },
        WidgetKind::ComboBox => {
            assert(occurs_in(egui_call(w.kind), c));
        },
        WidgetKind::Separator => {
            assert(occurs_in(egui_call(w.kind), c));
        },
        WidgetKind::CollapsingHeader => {
            assert(occurs_in(egui_call(w.kind), c));
        },
        WidgetKind::DatePicker => {
            assert(occurs_in(egui_call(w.kind), c));
        },
        WidgetKind::Password => {
            assert(occurs_in(egui_call(w.kind), c));
        },
        WidgetKind::AngleSelector => {
            assert(occurs_in(egui_call(w.kind), c));
        },
        WidgetKind::Tree => {
            assert(occurs_in(egui_call(w.kind), c));
        },
        WidgetKind::TextArea => {
            assert(occurs_in(egui_call(w.kind), c));
        },
        WidgetKind::DragValue => {
            assert(occurs_in(egui_call(w.kind), c));
        },
        WidgetKind::Spinner => {
            assert(occurs_in(egui_call(w.kind), c));
        },
        WidgetKind::ColorPicker => {
            assert(occurs_in(egui_call(w.kind), c));
        },
        WidgetKind::Code => {
            assert(occurs_in(egui_call(w.kind), c));
        },
        WidgetKind::Heading => {
            assert(occurs_in(egui_call(w.kind), c));
        },
        WidgetKind::Image => {
            assert(occurs_in(egui_call(w.kind), c));
        },
        WidgetKind::Placeholder => {
            assert(occurs_in(egui_call(w.kind), c));
        },
        WidgetKind::Group => {
            assert(occurs_in(egui_call(w.kind), c));
        },
        WidgetKind::ScrollBox => {
            assert(occurs_in(egui_call(w.kind), c));
        },
        WidgetKind::TabBar => {
            assert(occurs_in(egui_call(w.kind), c));
        },
        WidgetKind::Columns => {
            assert(occurs_in(egui_call(w.kind), c));
        },
        WidgetKind::Window => {
            assert(occurs_in(egui_call(w.kind), c));
        },
    }
    if w.kind != WidgetKind::Window {
        assert(c.subrange(0, so.len() as int) =~= so);
    }
}

/// The code of a text widget (label, small, monospace, heading, link) is exactly its scope,
/// the egui call of its kind on the escaped text, and the closing of the call and scope.
pub proof fn lemma_text_widget_code(w: WidgetView, origin: Seq<char>)
    requires
        w.kind == WidgetKind::Label || w.kind == WidgetKind::Small || w.kind == WidgetKind::Monospace
            || w.kind == WidgetKind::Heading || w.kind == WidgetKind::Link,
    ensures
        widget_code(w, origin) == scope_open(w, origin) + egui_call(w.kind) + escape_spec(w.props.text) + "\"); });\n"@,
        w.kind == WidgetKind::Heading ==> widget_code(w, origin) == scope_open(w, origin) + " ui.heading(\""@
            + escape_spec(w.props.text) + "\"); });\n"@,
        w.kind == WidgetKind::Label ==> widget_code(w, origin) == scope_open(w, origin) + " ui.label(\""@
            + escape_spec(w.props.text) + "\"); });\n"@,
{
}

/// Two text widgets of different kinds that are otherwise alike get different code: each
/// kind shows its text with its own egui call.
pub proof fn lemma_text_kinds_differ(w: WidgetView, k: WidgetKind, origin: Seq<char>)
    requires
        w.kind == WidgetKind::Label || w.kind == WidgetKind::Small || w.kind == WidgetKind::Monospace
            || w.kind == WidgetKind::Heading || w.kind == WidgetKind::Link,
        k == WidgetKind::Label || k == WidgetKind::Small || k == WidgetKind::Monospace
            || k == WidgetKind::Heading || k == WidgetKind::Link,
        k != w.kind,
    ensures
        widget_code(w, origin) != widget_code(WidgetView { kind: k, ..w }, origin),
{
    let v = WidgetView { kind: k, ..w };
    lemma_text_widget_code(w, origin);
    lemma_text_widget_code(v, origin);
    let so = scope_open(w, origin);
    assert(scope_open(v, origin) == so);
    let a = egui_call(w.kind);
    let b = egui_call(k);
    let rest = escape_spec(w.props.text) + "\"); });\n"@;
    reveal_strlit(" ui.label(\"");
    reveal_strlit(" ui.small(\"");
    reveal_strlit(" ui.monospace(\"");
    reveal_strlit(" ui.heading(\"");
    reveal_strlit(" ui.link(\"");
    if widget_code(w, origin) == widget_code(v, origin) {
        assert(widget_code(w, origin) =~= so + (a + rest));
        assert(widget_code(v, origin) =~= so + (b + rest));
        assert((so + (a + rest)).subrange(so.len() as int, (so.len() + a.len() + rest.len()) as int) =~= a + rest);
        assert((so + (b + rest)).subrange(so.len() as int, (so.len() + b.len() + rest.len()) as int) =~= b + rest);
        assert(a.len() == b.len());
        assert((a + rest).subrange(0, a.len() as int) =~= a);
        assert((b + rest).subrange(0, b.len() as int) =~= b);
        assert(a == b);
        assert(a[4] != b[4] || a[5] != b[5]);
    }
}

/// Appends the code that places `w`.
pub fn push_widget_code(out: &mut String, w: &Widget, origin: &str)
    ensures
        final(out)@ == old(out)@ + widget_code(w@, origin@),
{
    match w.kind {
        WidgetKind::MenuButton => emit_menu_button(out, w, origin),
        WidgetKind::Label => emit_label(out, w, origin),
        WidgetKind::Small => emit_small(out, w, origin),
        WidgetKind::Monospace => emit_monospace(out, w, origin),
        WidgetKind::Button => emit_button(out, w, origin),
        WidgetKind::ImageTextButton => emit_image_text_button(out, w, origin),
        WidgetKind::Checkbox => emit_checkbox(out, w, origin),
        WidgetKind::TextEdit => emit_text_edit(out, w, origin),
        WidgetKind::Slider => emit_slider(out, w, origin),
        WidgetKind::ProgressBar => emit_progress_bar(out, w, origin),
        WidgetKind::RadioGroup => emit_radio_group(out, w, origin),
        WidgetKind::Link => emit_link(out, w, origin),
        WidgetKind::Hyperlink => emit_hyperlink(out, w, origin),
        WidgetKind::SelectableLabel => emit_selectable_label(out, w, origin),
        WidgetKind::ComboBox => emit_combo_box(out, w, origin),
        WidgetKind::Separator => emit_separator(out, w, origin),
        WidgetKind::CollapsingHeader => emit_collapsing_header(out, w, origin),
        WidgetKind::DatePicker => emit_date_picker(out, w, origin),
        WidgetKind::Password => emit_password(out, w, origin),
        WidgetKind::AngleSelector => emit_angle_selector(out, w, origin),
        WidgetKind::Tree => emit_tree(out, w, origin),
        WidgetKind::TextArea => emit_text_area(out, w, origin),
        WidgetKind::DragValue => emit_drag_value(out, w, origin),
        WidgetKind::Spinner => emit_spinner(out, w, origin),
        WidgetKind::ColorPicker => emit_color_picker(out, w, origin),
        WidgetKind::Code => emit_code(out, w, origin),
        WidgetKind::Heading => emit_heading(out, w, origin),
        WidgetKind::Image => emit_image(out, w, origin),
        WidgetKind::Placeholder => emit_placeholder(out, w, origin),
        WidgetKind::Group => emit_group(out, w, origin),
        WidgetKind::ScrollBox => emit_scroll_box(out, w, origin),
        WidgetKind::TabBar => emit_tab_bar(out, w, origin),
        WidgetKind::Columns => emit_columns(out, w, origin),
        WidgetKind::Window => emit_window(out, w, origin),
    }
}


} // verus!
