use vstd::prelude::*;
use crate::widget::{Vec2, Widget, WidgetView, widgets_view};

verus! {

/// A designed user interface: the widgets, the canvas and the optional side panels.
/// Lengths are in tenths of a logical point.
#[derive(Debug)]
pub struct Project {
    pub widgets: Vec<Widget>,
    pub canvas_size: Vec2,
    pub panel_top_h: i64,
    pub panel_bottom_h: i64,
    pub panel_left_w: i64,
    pub panel_right_w: i64,
    pub panel_top_enabled: bool,
    pub panel_bottom_enabled: bool,
    pub panel_left_enabled: bool,
    pub panel_right_enabled: bool,
}

/// The mathematical value of a `Project`.
pub struct ProjectView {
    pub widgets: Seq<WidgetView>,
    pub canvas_size: Vec2,
    pub panel_top_h: int,
    pub panel_bottom_h: int,
    pub panel_left_w: int,
    pub panel_right_w: int,
    pub panel_top_enabled: bool,
    pub panel_bottom_enabled: bool,
    pub panel_left_enabled: bool,
    pub panel_right_enabled: bool,
}

impl View for Project {
    type V = ProjectView;

    open spec fn view(&self) -> ProjectView {
        ProjectView {
            widgets: widgets_view(self.widgets@),
            canvas_size: self.canvas_size,
            panel_top_h: self.panel_top_h as int,
            panel_bottom_h: self.panel_bottom_h as int,
            panel_left_w: self.panel_left_w as int,
            panel_right_w: self.panel_right_w as int,
            panel_top_enabled: self.panel_top_enabled,
            panel_bottom_enabled: self.panel_bottom_enabled,
            panel_left_enabled: self.panel_left_enabled,
            panel_right_enabled: self.panel_right_enabled,
        }
    }
}

/// A new project: no widget, a 1200 x 800 canvas, panels of 80 / 80 / 220 / 260 points, all off.
pub open spec fn spec_default_project() -> ProjectView {
    ProjectView {
        widgets: Seq::empty(),
        canvas_size: Vec2 { x: 12000, y: 8000 },
        panel_top_h: 800,
        panel_bottom_h: 800,
        panel_left_w: 2200,
        panel_right_w: 2600,
        panel_top_enabled: false,
        panel_bottom_enabled: false,
        panel_left_enabled: false,
        panel_right_enabled: false,
    }
}

impl Default for Project {
    fn default() -> (r: Self)
        ensures
            r@ == spec_default_project(),
    {
        let r = Project {
            widgets: Vec::new(),
            canvas_size: Vec2 { x: 12000, y: 8000 },
            panel_top_h: 800,
            panel_bottom_h: 800,
            panel_left_w: 2200,
            panel_right_w: 2600,
            panel_top_enabled: false,
            panel_bottom_enabled: false,
            panel_left_enabled: false,
            panel_right_enabled: false,
        };
        assert(r@.widgets =~= Seq::<WidgetView>::empty());
        r
    }
}

/// The window size the builder opens with, in tenths of a point: the default canvas, the
/// inspector (260 points) and the palette (220 points) beside it, 16 points of side padding,
/// 40 points for the menu bar.
pub fn initial_inner_size() -> (r: Vec2)
    ensures
        r.x == spec_default_project().canvas_size.x + 2600 + 2200 + 160,
        r.y == spec_default_project().canvas_size.y + 400,
{
    let project = Project::default();
    let mut w: i64 = project.canvas_size.x;
    let mut h: i64 = project.canvas_size.y;
    w = w + 2600;
    w = w + 2200;
    h = h + 400;
    w = w + 160;
    Vec2 { x: w, y: h }
}

} // verus!
