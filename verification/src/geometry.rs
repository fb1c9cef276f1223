use vstd::prelude::*;
use crate::widget::{DockArea, Vec2};

verus! {

/// An axis-aligned rectangle, in tenths of a point.
#[derive(Clone, Copy, Debug, PartialEq, Eq, Structural)]
pub struct Rect {
    pub min: Vec2,
    pub max: Vec2,
}

impl Rect {
    /// `p` lies in the rectangle, borders included (as `egui::Rect::contains`).
    pub open spec fn spec_contains(self, p: Vec2) -> bool {
        self.min.x <= p.x && p.x <= self.max.x && self.min.y <= p.y && p.y <= self.max.y
    }

    /// The rectangles overlap or touch (as `egui::Rect::intersects`).
    pub open spec fn spec_intersects(self, other: Rect) -> bool {
        self.min.x <= other.max.x && other.min.x <= self.max.x && self.min.y <= other.max.y
            && other.min.y <= self.max.y
    }

    pub fn contains(&self, p: Vec2) -> (r: bool)
        ensures
            r == self.spec_contains(p),
    {
        self.min.x <= p.x && p.x <= self.max.x && self.min.y <= p.y && p.y <= self.max.y
    }

    pub fn intersects(&self, other: &Rect) -> (r: bool)
        ensures
            r == self.spec_intersects(*other),
    {
        self.min.x <= other.max.x && other.min.x <= self.max.x && self.min.y <= other.max.y
            && other.min.y <= self.max.y
    }
}

/// The rectangles of the preview areas in the last frame (`None` for an area not shown).
#[derive(Clone, Copy, Debug)]
pub struct LiveAreas {
    pub top: Option<Rect>,
    pub bottom: Option<Rect>,
    pub left: Option<Rect>,
    pub right: Option<Rect>,
    pub center: Option<Rect>,
}

/// `r` is present and contains `p`.
pub open spec fn hit(r: Option<Rect>, p: Vec2) -> bool {
    r matches Some(rect) && rect.spec_contains(p)
}

fn hit_exec(r: &Option<Rect>, p: Vec2) -> (b: bool)
    ensures
        b == hit(*r, p),
{
    match r {
        Some(rect) => rect.contains(p),
        None => false,
    }
}

impl LiveAreas {
    /// The area under a point: top, bottom, left, right, centre, checked in that order;
    /// `Free` when none contains it.
    pub open spec fn spec_area_at(self, p: Vec2) -> DockArea {
        if hit(self.top, p) {
            DockArea::Top
        } else if hit(self.bottom, p) {
            DockArea::Bottom
        } else if hit(self.left, p) {
            DockArea::Left
        } else if hit(self.right, p) {
            DockArea::Right
        } else if hit(self.center, p) {
            DockArea::Center
        } else {
            DockArea::Free
        }
    }

    /// The rectangle that holds the widgets of an area: its own, the centre canvas for
    /// `Free` widgets.
    pub open spec fn spec_rect_for(self, area: DockArea) -> Option<Rect> {
        match area {
            DockArea::Top => self.top,
            DockArea::Bottom => self.bottom,
            DockArea::Left => self.left,
            DockArea::Right => self.right,
            DockArea::Center | DockArea::Free => self.center,
        }
    }

    pub fn area_at(&self, p: Vec2) -> (r: DockArea)
        ensures
            r == self.spec_area_at(p),
    {
        if hit_exec(&self.top, p) {
            DockArea::Top
        } else if hit_exec(&self.bottom, p) {
            DockArea::Bottom
        } else if hit_exec(&self.left, p) {
            DockArea::Left
        } else if hit_exec(&self.right, p) {
            DockArea::Right
        } else if hit_exec(&self.center, p) {
            DockArea::Center
        } else {
            DockArea::Free
        }
    }

    /// The rectangle that holds the widgets of `area` (see `spec_rect_for`).
    pub fn rect_for(&self, area: DockArea) -> (r: Option<Rect>)
        ensures
            r == self.spec_rect_for(area),
    {
        match area {
            DockArea::Top => self.top,
            DockArea::Bottom => self.bottom,
            DockArea::Left => self.left,
            DockArea::Right => self.right,
            DockArea::Center | DockArea::Free => self.center,
        }
    }

    /// The origin (top-left corner) that positions in `area` are relative to.
    pub fn origin_for_area(&self, area: DockArea) -> (r: Option<Vec2>)
        ensures
            r == match self.spec_rect_for(area) {
                Some(rect) => Some(rect.min),
                None => None,
            },
    {
        match self.rect_for(area) {
            Some(rect) => Some(rect.min),
            None => None,
        }
    }
}

/// Two rectangles with their corners in order meet exactly when some point lies in both.
pub proof fn lemma_intersects_iff_common_point(a: Rect, b: Rect)
    requires
        a.min.x <= a.max.x,
        a.min.y <= a.max.y,
        b.min.x <= b.max.x,
        b.min.y <= b.max.y,
    ensures
        a.spec_intersects(b) <==> exists|p: Vec2| a.spec_contains(p) && b.spec_contains(p),
{
    if a.spec_intersects(b) {
        let x = if a.min.x < b.min.x { b.min.x } else { a.min.x };
        let y = if a.min.y < b.min.y { b.min.y } else { a.min.y };
        let p = Vec2 { x, y };
        assert(a.spec_contains(p) && b.spec_contains(p));
    }
}

/// A rectangle holds exactly the points between its corners on both axes: its corners
/// when they are in order, and no point left, right, above or below it.
pub proof fn lemma_contains_between_corners(r: Rect, p: Vec2)
    ensures
        r.spec_contains(p) ==> r.min.x <= p.x <= r.max.x && r.min.y <= p.y <= r.max.y,
        p.x < r.min.x || p.x > r.max.x || p.y < r.min.y || p.y > r.max.y ==> !r.spec_contains(p),
        r.min.x <= r.max.x && r.min.y <= r.max.y ==> r.spec_contains(r.min) && r.spec_contains(r.max),
{
}

/// Meeting rectangles overlap on both axes, so a rectangle that lies wholly above, below,
/// left or right of another does not meet it; and meeting is symmetric.
pub proof fn lemma_intersects_needs_both_axes(a: Rect, b: Rect)
    ensures
        a.spec_intersects(b) ==> a.min.x <= b.max.x && b.min.x <= a.max.x,
        a.spec_intersects(b) ==> a.min.y <= b.max.y && b.min.y <= a.max.y,
        a.max.y < b.min.y ==> !a.spec_intersects(b),
        b.max.y < a.min.y ==> !a.spec_intersects(b),
        a.max.x < b.min.x ==> !a.spec_intersects(b),
        b.max.x < a.min.x ==> !a.spec_intersects(b),
        a.spec_intersects(b) == b.spec_intersects(a),
{
}

/// The area under a point contains it: the area's rectangle holds the point unless the
/// area is `Free`, which it is exactly when no shown area holds the point. Where areas
/// overlap, the first in the order top, bottom, left, right, centre is taken.
pub proof fn lemma_area_at_contains(areas: LiveAreas, p: Vec2)
    ensures
        areas.spec_area_at(p) != DockArea::Free ==> hit(areas.spec_rect_for(areas.spec_area_at(p)), p),
        areas.spec_area_at(p) == DockArea::Free <==> !hit(areas.top, p) && !hit(areas.bottom, p)
            && !hit(areas.left, p) && !hit(areas.right, p) && !hit(areas.center, p),
        hit(areas.top, p) ==> areas.spec_area_at(p) == DockArea::Top,
        hit(areas.bottom, p) && !hit(areas.top, p) ==> areas.spec_area_at(p) == DockArea::Bottom,
        hit(areas.left, p) && !hit(areas.top, p) && !hit(areas.bottom, p) ==> areas.spec_area_at(p)
            == DockArea::Left,
        hit(areas.right, p) && !hit(areas.top, p) && !hit(areas.bottom, p) && !hit(areas.left, p)
            ==> areas.spec_area_at(p) == DockArea::Right,
        hit(areas.center, p) && !hit(areas.top, p) && !hit(areas.bottom, p) && !hit(areas.left, p)
            && !hit(areas.right, p) ==> areas.spec_area_at(p) == DockArea::Center,
{
}

/// How many grid lines `draw_grid` draws across an extent: one per whole step that fits,
/// plus the one at the start (the count of steps is cut at `i32::MAX`, and a negative extent
/// of less than a step still gets its start line).
pub open spec fn grid_line_count(extent: int, step: int) -> int {
    if extent >= 0 {
        (if extent / step > i32::MAX { i32::MAX as int } else { extent / step }) + 1
    } else if extent > -step {
        1
    } else {
        0
    }
}

/// The coordinates of the grid lines across an extent that begins at `start`: `start`,
/// `start + step`, and so on, `grid_line_count(extent, step)` of them.
pub fn grid_lines(start: i64, extent: i64, step: i64) -> (r: Vec<i64>)
    requires
        0 < step,
        -0x10_0000_0000_0000 <= start <= 0x10_0000_0000_0000,
        -0x10_0000_0000_0000 <= extent <= 0x10_0000_0000_0000,
    ensures
        r@.len() == grid_line_count(extent as int, step as int),
        forall|c: int| 0 <= c < r@.len() ==> #[trigger] r@[c] == start + c * step,
{
    let count: u64 = if extent >= 0 {
        let cols: i64 = extent / step;
        let capped: i64 = if cols > 0x7fff_ffff { 0x7fff_ffff } else { cols };
        capped as u64 + 1
    } else if extent > -step {
        1
    } else {
        0
    };
    let mut r: Vec<i64> = Vec::new();
    let mut c: u64 = 0;
    let mut x: i64 = start;
    while c < count
        invariant
            c <= count,
            count == grid_line_count(extent as int, step as int),
            count <= 0x8000_0000,
            0 < step,
            -0x10_0000_0000_0000 <= start <= 0x10_0000_0000_0000,
            -0x10_0000_0000_0000 <= extent <= 0x10_0000_0000_0000,
            extent < 0 ==> count <= 1,
            extent >= 0 ==> count <= extent / step + 1,
            c < count ==> x == start + c * step,
            r@.len() == c,
            forall|k: int| 0 <= k < c ==> #[trigger] r@[k] == start + k * step,
        decreases count - c,
    {
        r.push(x);
        if c + 1 < count {
            proof {
                vstd::arithmetic::div_mod::lemma_fundamental_div_mod(extent as int, step as int);
                vstd::arithmetic::div_mod::lemma_mod_pos_bound(extent as int, step as int);
                let qq = extent as int / step as int;
                assert((c + 1) * step <= qq * step) by (nonlinear_arith)
                    requires c + 1 <= qq, step > 0;
                assert(qq * step <= extent) by (nonlinear_arith)
                    requires extent == step * qq + extent as int % step as int, extent as int % step as int >= 0;
                assert(x + step == start + (c + 1) * step) by (nonlinear_arith)
                    requires x == start + c * step;
            }
            x = x + step;
        }
        c = c + 1;
    }
    r
}

} // verus!
