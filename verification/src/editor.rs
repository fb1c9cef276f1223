use vstd::prelude::*;
use crate::codegen::CodeGenFormat;
use crate::geometry::Rect;
use crate::text::{lines_spec, split_lines, join_spec, join_lines};
use crate::widget::PropsView;
use crate::project::{Project, ProjectView, spec_default_project};
use crate::sorting::{sort_widgets, sorted_by, lemma_sorted_by_multiset, SortKey};
use crate::widget::{
    spec_default_props, spec_default_size_points, DockArea, Vec2, Widget, WidgetId, WidgetKind,
    WidgetView, widgets_view,
};

verus! {

/// Largest magnitude of a stored coordinate, in tenths of a point. Results of geometry
/// operations are clamped into `[-COORD_LIMIT, COORD_LIMIT]`.
pub const COORD_LIMIT: i64 = 0x10_0000_0000_0000;

/// Largest grid step, in tenths of a point.
pub const GRID_LIMIT: i64 = 1_000_000;

/// `v` clamped into the coordinate range.
pub open spec fn clamp_coord(v: int) -> int {
    if v < -COORD_LIMIT { -COORD_LIMIT as int } else if v > COORD_LIMIT { COORD_LIMIT as int } else { v }
}

pub open spec fn coord_ok(v: i64) -> bool {
    -COORD_LIMIT <= v <= COORD_LIMIT
}

pub open spec fn vec_ok(v: Vec2) -> bool {
    coord_ok(v.x) && coord_ok(v.y)
}

/// A widget whose geometry lies in the coordinate range.
pub open spec fn widget_ok(w: WidgetView) -> bool {
    vec_ok(w.pos) && vec_ok(w.size)
}

pub fn clamp_coord_exec(v: i128) -> (r: i64)
    ensures
        r == clamp_coord(v as int),
{
    if v < -(COORD_LIMIT as i128) {
        -COORD_LIMIT
    } else if v > COORD_LIMIT as i128 {
        COORD_LIMIT
    } else {
        v as i64
    }
}

/// `n / d` rounded to the nearest integer, halves away from zero (as `f32::round` rounds).
pub open spec fn round_div(n: int, d: int) -> int
    recommends
        d > 0,
{
    if n >= 0 { (2 * n + d) / (2 * d) } else { -((2 * (-n) + d) / (2 * d)) }
}

/// A coordinate snapped to the nearest multiple of the grid step (halves away from zero).
pub open spec fn snap_coord(v: int, grid: int) -> int {
    clamp_coord(grid * round_div(v, grid))
}

pub open spec fn snap_spec(p: Vec2, grid: int) -> Vec2 {
    Vec2 { x: snap_coord(p.x as int, grid) as i64, y: snap_coord(p.y as int, grid) as i64 }
}

pub(crate) fn round_div_exec(n: i128, d: i128) -> (r: i128)
    requires
        0 < d <= 0x40_0000_0000_0000_0000,
        -0x400_0000_0000_0000_0000_0000_0000_0000 <= n <= 0x400_0000_0000_0000_0000_0000_0000_0000,
    ensures
        r == round_div(n as int, d as int),
        n >= 0 ==> 0 <= r <= n,
        n < 0 ==> n <= r <= 0,
{
    if n >= 0 {
        assert(0 <= (2 * n + d) / (2 * d) <= n) by (nonlinear_arith)
            requires n >= 0, d > 0;
        (2 * n + d) / (2 * d)
    } else {
        assert(0 <= (2 * (-n) + d) / (2 * d) <= -n) by (nonlinear_arith)
            requires -n > 0, d > 0;
        -((2 * (-n) + d) / (2 * d))
    }
}

fn snap_coord_exec(v: i64, grid: i64) -> (r: i64)
    requires
        0 < grid <= GRID_LIMIT,
    ensures
        r == snap_coord(v as int, grid as int),
{
    let q = round_div_exec(v as i128, grid as i128);
    assert(-0x8000_0000_0000_0000 * GRID_LIMIT <= grid as i128 * q <= 0x8000_0000_0000_0000 * GRID_LIMIT) by (nonlinear_arith)
        requires 0 < grid <= GRID_LIMIT, -0x8000_0000_0000_0000 <= q <= 0x8000_0000_0000_0000;
    clamp_coord_exec(grid as i128 * q)
}

/// Snaps a position to the grid: each coordinate to the nearest multiple of `grid`.
pub fn snap_pos_with_grid(p: Vec2, grid: i64) -> (r: Vec2)
    requires
        0 < grid <= GRID_LIMIT,
    ensures
        r == snap_spec(p, grid as int),
{
    Vec2 { x: snap_coord_exec(p.x, grid), y: snap_coord_exec(p.y, grid) }
}


/// Rounding is monotone: a larger numerator never rounds to a smaller quotient.
pub proof fn lemma_round_div_monotone(a: int, b: int, d: int)
    requires
        a <= b,
        d > 0,
    ensures
        round_div(a, d) <= round_div(b, d),
{
    if a >= 0 {
        vstd::arithmetic::div_mod::lemma_div_is_ordered(2 * a + d, 2 * b + d, 2 * d);
    } else if b < 0 {
        vstd::arithmetic::div_mod::lemma_div_is_ordered(2 * (-b) + d, 2 * (-a) + d, 2 * d);
    } else {
        vstd::arithmetic::div_mod::lemma_div_pos_is_pos(2 * (-a) + d, 2 * d);
        vstd::arithmetic::div_mod::lemma_div_pos_is_pos(2 * b + d, 2 * d);
    }
}

/// A multiple of `d` divided by `d` rounds to itself.
proof fn lemma_round_div_exact(q: int, d: int)
    requires
        d > 0,
    ensures
        round_div(d * q, d) == q,
{
    if q >= 0 {
        assert(2 * (d * q) + d == q * (2 * d) + d) by (nonlinear_arith);
        vstd::arithmetic::div_mod::lemma_fundamental_div_mod_converse(2 * (d * q) + d, 2 * d, q, d);
        assert(d * q >= 0) by (nonlinear_arith)
            requires q >= 0, d > 0;
    } else {
        assert(d * q < 0) by (nonlinear_arith)
            requires q < 0, d > 0;
        assert(2 * (-(d * q)) + d == (-q) * (2 * d) + d) by (nonlinear_arith);
        vstd::arithmetic::div_mod::lemma_fundamental_div_mod_converse(2 * (-(d * q)) + d, 2 * d, -q, d);
    }
}

/// Snapping a coordinate of the coordinate range a second time does not move it.
pub proof fn lemma_snap_coord_idempotent(v: int, grid: int)
    requires
        0 < grid <= GRID_LIMIT,
        -COORD_LIMIT <= v <= COORD_LIMIT,
    ensures
        snap_coord(snap_coord(v, grid), grid) == snap_coord(v, grid),
{
    let q = round_div(v, grid);
    let m = grid * q;
    if -COORD_LIMIT <= m <= COORD_LIMIT {
        lemma_round_div_exact(q, grid);
    } else if m > COORD_LIMIT {
        lemma_round_div_monotone(v, COORD_LIMIT as int, grid);
        let q2 = round_div(COORD_LIMIT as int, grid);
        assert(grid * q2 >= grid * q) by (nonlinear_arith)
            requires q2 >= q, grid > 0;
    } else {
        lemma_round_div_monotone(-COORD_LIMIT as int, v, grid);
        let q2 = round_div(-COORD_LIMIT as int, grid);
        assert(grid * q2 <= grid * q) by (nonlinear_arith)
            requires q2 <= q, grid > 0;
    }
}

/// Snapping a position of the coordinate range to the grid twice is the same as snapping it
/// once.
pub proof fn lemma_snap_idempotent(p: Vec2, grid: int)
    requires
        0 < grid <= GRID_LIMIT,
        vec_ok(p),
    ensures
        snap_spec(snap_spec(p, grid), grid) == snap_spec(p, grid),
{
    lemma_snap_coord_idempotent(p.x as int, grid);
    lemma_snap_coord_idempotent(p.y as int, grid);
}

/// The first position of `id` in a list of ids.
pub open spec fn first_pos(s: Seq<WidgetId>, id: WidgetId) -> Option<int>
    decreases s.len(),
{
    if s.len() == 0 {
        None
    } else {
        match first_pos(s.drop_last(), id) {
            Some(i) => Some(i),
            None => if s.last() == id { Some(s.len() - 1) } else { None },
        }
    }
}

/// The selection after toggling `id`: its first occurrence removed if it is selected, else
/// `id` added at the end.
pub open spec fn toggled(s: Seq<WidgetId>, id: WidgetId) -> Seq<WidgetId> {
    match first_pos(s, id) {
        Some(i) => s.remove(i),
        None => s.push(id),
    }
}

/// The selection after adding `id`: unchanged if it is selected, else `id` at the end.
pub open spec fn with_added(s: Seq<WidgetId>, id: WidgetId) -> Seq<WidgetId> {
    if s.contains(id) { s } else { s.push(id) }
}

/// Toggling an id that is not selected and then toggling it again restores the selection.
pub proof fn lemma_toggle_twice(s: Seq<WidgetId>, id: WidgetId)
    requires
        !s.contains(id),
    ensures
        toggled(s, id) == s.push(id),
        toggled(toggled(s, id), id) == s,
{
    lemma_first_pos(s, id);
    assert(first_pos(s, id) is None) by {
        if first_pos(s, id) is Some {
            assert(s[first_pos(s, id)->0] == id);
        }
    }
    let t = s.push(id);
    assert(t.drop_last() =~= s);
    assert(first_pos(t, id) == Some(s.len() as int));
    assert(t.remove(s.len() as int) =~= s);
}

/// Toggling the only occurrence of a selected id removes it from the selection.
pub proof fn lemma_toggle_removes(s: Seq<WidgetId>, id: WidgetId, i: int)
    requires
        0 <= i < s.len(),
        s[i] == id,
        forall|k: int| 0 <= k < s.len() && k != i ==> s[k] != id,
    ensures
        toggled(s, id) == s.remove(i),
        !toggled(s, id).contains(id),
{
    lemma_first_pos(s, id);
    let r = s.remove(i);
    assert forall|k: int| 0 <= k < r.len() implies r[k] != id by {
        if k < i {
            assert(r[k] == s[k]);
        } else {
            assert(r[k] == s[k + 1]);
        }
    }
}

/// Adding an id selects it, and adding it a second time changes nothing.
pub proof fn lemma_add_idempotent(s: Seq<WidgetId>, id: WidgetId)
    ensures
        with_added(s, id).contains(id),
        with_added(with_added(s, id), id) == with_added(s, id),
{
    if !s.contains(id) {
        assert(s.push(id)[s.len() as int] == id);
    }
}

/// The position of the first widget with the id `id`.
pub open spec fn find_first(ws: Seq<WidgetView>, id: WidgetId) -> Option<int>
    decreases ws.len(),
{
    if ws.len() == 0 {
        None
    } else {
        match find_first(ws.drop_last(), id) {
            Some(i) => Some(i),
            None => if ws.last().id == id { Some(ws.len() - 1) } else { None },
        }
    }
}

/// `first_pos` finds the first occurrence of an id, or reports that there is none.
pub proof fn lemma_first_pos(s: Seq<WidgetId>, id: WidgetId)
    ensures
        match first_pos(s, id) {
            Some(i) => 0 <= i < s.len() && s[i] == id && forall|k: int| 0 <= k < i ==> s[k] != id,
            None => forall|k: int| 0 <= k < s.len() ==> s[k] != id,
        },
    decreases s.len(),
{
    if s.len() > 0 {
        let d = s.drop_last();
        lemma_first_pos(d, id);
        assert forall|k: int| 0 <= k < d.len() implies d[k] == s[k] by {}
    }
}

/// `find_first` finds the first widget with an id, or reports that there is none.
pub proof fn lemma_find_first(ws: Seq<WidgetView>, id: WidgetId)
    ensures
        match find_first(ws, id) {
            Some(i) => 0 <= i < ws.len() && ws[i].id == id && forall|k: int| 0 <= k < i ==> ws[k].id != id,
            None => forall|k: int| 0 <= k < ws.len() ==> ws[k].id != id,
        },
    decreases ws.len(),
{
    if ws.len() > 0 {
        let d = ws.drop_last();
        lemma_find_first(d, id);
        assert forall|k: int| 0 <= k < d.len() implies d[k] == ws[k] by {}
    }
}

/// The editing state of the builder: the project, the selection (ids, in the order they were
/// selected), the next id to hand out, the copied widget, the grid step and the code
/// generation settings.
#[derive(Debug)]
pub struct Editor {
    pub project: Project,
    pub selected: Vec<WidgetId>,
    pub next_id: u64,
    pub clipboard: Option<Widget>,
    /// Grid step in tenths of a point.
    pub grid_size: i64,
    pub codegen_format: CodeGenFormat,
    pub codegen_comments: bool,
}

impl Editor {
    /// The editor is well formed: the grid step is positive and bounded, and every stored
    /// coordinate lies in the coordinate range.
    pub open spec fn wf(&self) -> bool {
        &&& 0 < self.grid_size <= GRID_LIMIT
        &&& forall|i: int| 0 <= i < self.project@.widgets.len() ==> widget_ok(#[trigger] self.project@.widgets[i])
        &&& self.clipboard matches Some(w) ==> widget_ok(w@)
    }

    pub open spec fn widgets(&self) -> Seq<WidgetView> {
        self.project@.widgets
    }

    /// A new editor: default project, nothing selected, ids from 1, a grid of one point,
    /// single-file output with comments.
    pub fn new() -> (r: Self)
        ensures
            r.wf(),
            r.project@ == spec_default_project(),
            r.selected@ == Seq::<WidgetId>::empty(),
            r.next_id == 1,
            r.clipboard is None,
            r.grid_size == 10,
            r.codegen_format == CodeGenFormat::SingleFile,
            r.codegen_comments,
    {
        Editor {
            project: Project::default(),
            selected: Vec::new(),
            next_id: 1,
            clipboard: None,
            grid_size: 10,
            codegen_format: CodeGenFormat::SingleFile,
            codegen_comments: true,
        }
    }

    /// Position of the first widget with the id `id`.
    pub fn index_of(&self, id: WidgetId) -> (r: Option<usize>)
        ensures
            match r {
                Some(i) => find_first(self.widgets(), id) == Some(i as int),
                None => find_first(self.widgets(), id) is None,
            },
    {
        let ghost ws = self.widgets();
        let mut i: usize = 0;
        while i < self.project.widgets.len()
            invariant
                i <= ws.len(),
                ws == self.widgets(),
                forall|k: int| 0 <= k < i ==> ws[k].id != id,
            decreases ws.len() - i,
        {
            if self.project.widgets[i].id == id {
                proof {
                    lemma_find_first(ws, id);
                    assert(ws[i as int].id == id);
                }
                return Some(i);
            }
            i = i + 1;
        }
        proof {
            lemma_find_first(ws, id);
        }
        None
    }

    /// Whether `id` is selected.
    pub fn is_selected(&self, id: WidgetId) -> (r: bool)
        ensures
            r == self.selected@.contains(id),
    {
        let mut i: usize = 0;
        while i < self.selected.len()
            invariant
                i <= self.selected@.len(),
                forall|k: int| 0 <= k < i ==> self.selected@[k] != id,
            decreases self.selected@.len() - i,
        {
            if self.selected[i] == id {
                return true;
            }
            i = i + 1;
        }
        false
    }

    /// Position of `id` in the selection.
    fn selection_pos(&self, id: WidgetId) -> (r: Option<usize>)
        ensures
            match r {
                Some(i) => first_pos(self.selected@, id) == Some(i as int) && i < self.selected@.len(),
                None => first_pos(self.selected@, id) is None,
            },
    {
        let mut i: usize = 0;
        proof {
            lemma_first_pos(self.selected@, id);
        }
        while i < self.selected.len()
            invariant
                i <= self.selected@.len(),
                forall|k: int| 0 <= k < i ==> self.selected@[k] != id,
            decreases self.selected@.len() - i,
        {
            if self.selected[i] == id {
                proof {
                    lemma_first_pos(self.selected@, id);
                }
                return Some(i);
            }
            i = i + 1;
        }
        None
    }

    /// Selects only `id`.
    pub fn select_single(&mut self, id: WidgetId)
        ensures
            final(self).same_options(&*old(self)),
            final(self).selected@ == seq![id],
            final(self).project@ == old(self).project@,
            final(self).next_id == old(self).next_id,
            final(self).clipboard == old(self).clipboard,
            final(self).grid_size == old(self).grid_size,
    {
        self.selected = vec![id];
    }

    /// Removes `id` from the selection if it is there (its first occurrence), adds it at the
    /// end otherwise.
    pub fn toggle_selection(&mut self, id: WidgetId)
        ensures
            final(self).same_options(&*old(self)),
            final(self).selected@ == toggled(old(self).selected@, id),
            final(self).project@ == old(self).project@,
            final(self).next_id == old(self).next_id,
            final(self).clipboard == old(self).clipboard,
            final(self).grid_size == old(self).grid_size,
    {
        proof {
            lemma_first_pos(self.selected@, id);
        }
        match self.selection_pos(id) {
            Some(i) => {
                self.selected.remove(i);
            },
            None => {
                self.selected.push(id);
            },
        }
    }

    /// Adds `id` at the end of the selection unless it is already selected.
    pub fn add_to_selection(&mut self, id: WidgetId)
        ensures
            final(self).same_options(&*old(self)),
            final(self).selected@ == with_added(old(self).selected@, id),
            final(self).project@ == old(self).project@,
            final(self).next_id == old(self).next_id,
            final(self).clipboard == old(self).clipboard,
            final(self).grid_size == old(self).grid_size,
    {
        if !self.is_selected(id) {
            self.selected.push(id);
        }
    }

    /// Clears the selection.
    pub fn clear_selection(&mut self)
        ensures
            final(self).same_options(&*old(self)),
            final(self).selected@ == Seq::<WidgetId>::empty(),
            final(self).project@ == old(self).project@,
            final(self).next_id == old(self).next_id,
            final(self).clipboard == old(self).clipboard,
            final(self).grid_size == old(self).grid_size,
    {
        self.selected.clear();
    }

    /// Selects every widget, in canvas order.
    pub fn select_all(&mut self)
        ensures
            final(self).same_options(&*old(self)),
            final(self).selected@ == old(self).widgets().map_values(|w: WidgetView| w.id),
            final(self).project@ == old(self).project@,
            final(self).next_id == old(self).next_id,
            final(self).clipboard == old(self).clipboard,
            final(self).grid_size == old(self).grid_size,
    {
        let ghost ws = self.widgets();
        let mut ids: Vec<WidgetId> = Vec::new();
        let mut i: usize = 0;
        while i < self.project.widgets.len()
            invariant
                i <= ws.len(),
                ws == self.widgets(),
                ids@ == ws.take(i as int).map_values(|w: WidgetView| w.id),
            decreases ws.len() - i,
        {
            ids.push(self.project.widgets[i].id);
            assert(ids@ =~= ws.take(i as int + 1).map_values(|w: WidgetView| w.id));
            i = i + 1;
        }
        assert(ws.take(ws.len() as int) =~= ws);
        self.selected = ids;
    }

    /// The widget edited in the inspector: the first widget with the first selected id.
    pub fn selected_index(&self) -> (r: Option<usize>)
        ensures
            r == (if self.selected@.len() == 0 {
                None
            } else {
                match find_first(self.widgets(), self.selected@[0]) {
                    Some(i) => Some(i as usize),
                    None => None,
                }
            }),
    {
        if self.selected.len() == 0 {
            return None;
        }
        self.index_of(self.selected[0])
    }
}


/// Whether two widget lists have the same ids at the same places.
pub open spec fn same_ids(a: Seq<WidgetView>, b: Seq<WidgetView>) -> bool {
    a.len() == b.len() && forall|k: int| 0 <= k < a.len() ==> #[trigger] a[k].id == b[k].id
}

/// Widget lists with the same ids at the same places have the same first widget per id.
pub proof fn lemma_find_first_same_ids(a: Seq<WidgetView>, b: Seq<WidgetView>, id: WidgetId)
    requires
        same_ids(a, b),
    ensures
        find_first(a, id) == find_first(b, id),
    decreases a.len(),
{
    if a.len() > 0 {
        assert(a.drop_last().len() == b.drop_last().len());
        assert forall|k: int| 0 <= k < a.drop_last().len() implies #[trigger] a.drop_last()[k].id == b.drop_last()[k].id by {
            assert(a[k].id == b[k].id);
        }
        lemma_find_first_same_ids(a.drop_last(), b.drop_last(), id);
        assert(a.last().id == b.last().id) by {
            assert(a[a.len() - 1].id == b[b.len() - 1].id);
        }
    }
}

/// Applies `f` in turn, for each selected id in selection order, to the first widget with
/// that id (`f` also receives the position in the selection). Ids not on the canvas are
/// skipped.
pub open spec fn sel_fold(
    ws: Seq<WidgetView>,
    sel: Seq<WidgetId>,
    f: spec_fn(WidgetView, int) -> WidgetView,
) -> Seq<WidgetView>
    decreases sel.len(),
{
    if sel.len() == 0 {
        ws
    } else {
        let w1 = sel_fold(ws, sel.drop_last(), f);
        match find_first(w1, sel.last()) {
            Some(j) => w1.update(j, f(w1[j], sel.len() - 1)),
            None => w1,
        }
    }
}

/// `f` keeps the id of a widget.
pub open spec fn keeps_id(f: spec_fn(WidgetView, int) -> WidgetView) -> bool {
    forall|w: WidgetView, i: int| #[trigger] f(w, i).id == w.id
}

/// A selection operation that keeps ids keeps every widget's id in place.
pub proof fn lemma_sel_fold_ids(ws: Seq<WidgetView>, sel: Seq<WidgetId>, f: spec_fn(WidgetView, int) -> WidgetView)
    requires
        keeps_id(f),
    ensures
        same_ids(sel_fold(ws, sel, f), ws),
    decreases sel.len(),
{
    if sel.len() > 0 {
        lemma_sel_fold_ids(ws, sel.drop_last(), f);
        let w1 = sel_fold(ws, sel.drop_last(), f);
        lemma_find_first(w1, sel.last());
        match find_first(w1, sel.last()) {
            Some(j) => {
                let r = w1.update(j, f(w1[j], sel.len() - 1));
                assert forall|k: int| 0 <= k < r.len() implies #[trigger] r[k].id == ws[k].id by {
                    if k == j {
                        assert(f(w1[j], sel.len() - 1).id == w1[j].id);
                    }
                    assert(w1[k].id == ws[k].id);
                }
            },
            None => {},
        }
    }
}

/// A selection operation leaves alone every widget that is not the first widget of a
/// selected id.
pub proof fn lemma_sel_fold_frame(
    ws: Seq<WidgetView>,
    sel: Seq<WidgetId>,
    f: spec_fn(WidgetView, int) -> WidgetView,
    k: int,
)
    requires
        keeps_id(f),
        0 <= k < ws.len(),
        forall|i: int| 0 <= i < sel.len() ==> find_first(ws, #[trigger] sel[i]) != Some(k),
    ensures
        sel_fold(ws, sel, f).len() == ws.len(),
        sel_fold(ws, sel, f)[k] == ws[k],
    decreases sel.len(),
{
    if sel.len() > 0 {
        let d = sel.drop_last();
        assert forall|i: int| 0 <= i < d.len() implies find_first(ws, #[trigger] d[i]) != Some(k) by {
            assert(d[i] == sel[i]);
        }
        lemma_sel_fold_frame(ws, d, f, k);
        lemma_sel_fold_ids(ws, d, f);
        let w1 = sel_fold(ws, d, f);
        lemma_find_first_same_ids(w1, ws, sel.last());
        assert(find_first(ws, sel[sel.len() - 1]) != Some(k));
        lemma_find_first(w1, sel.last());
    }
}

/// After a selection operation whose every result satisfies `p`, the first widget of each
/// selected id satisfies `p`.
pub proof fn lemma_sel_fold_sets(
    ws: Seq<WidgetView>,
    sel: Seq<WidgetId>,
    f: spec_fn(WidgetView, int) -> WidgetView,
    p: spec_fn(WidgetView) -> bool,
    id: WidgetId,
)
    requires
        keeps_id(f),
        forall|w: WidgetView, i: int| #[trigger] p(f(w, i)),
        sel.contains(id),
        find_first(ws, id) is Some,
    ensures
        p(sel_fold(ws, sel, f)[find_first(ws, id)->0]),
    decreases sel.len(),
{
    let d = sel.drop_last();
    lemma_sel_fold_ids(ws, d, f);
    let w1 = sel_fold(ws, d, f);
    lemma_find_first_same_ids(w1, ws, sel.last());
    lemma_find_first(ws, id);
    lemma_find_first(w1, sel.last());
    let k = find_first(ws, id)->0;
    if sel.last() == id {
        assert(p(f(w1[k], sel.len() - 1)));
    } else {
        let i = choose|i: int| 0 <= i < sel.len() && sel[i] == id;
        assert(i < sel.len() - 1);
        assert(d[i] == id);
        lemma_sel_fold_sets(ws, d, f, p, id);
    }
}

/// `w` with its draw order set.
pub open spec fn with_z(w: WidgetView, z: int) -> WidgetView {
    WidgetView { z: z as i32, ..w }
}

/// `w` moved by `(dx, dy)`, each coordinate kept in `[lo, COORD_LIMIT]`.
pub open spec fn moved(w: WidgetView, dx: int, dy: int, lo: int) -> WidgetView {
    let x = clamp_coord(w.pos.x + dx);
    let y = clamp_coord(w.pos.y + dy);
    WidgetView {
        pos: Vec2 { x: (if x < lo { lo } else { x }) as i64, y: (if y < lo { lo } else { y }) as i64 },
        ..w
    }
}

/// The highest draw order among the widgets (0 without widgets).
pub open spec fn max_z(ws: Seq<WidgetView>) -> int
    decreases ws.len(),
{
    if ws.len() == 0 {
        0
    } else if ws.len() == 1 {
        ws[0].z as int
    } else {
        let m = max_z(ws.drop_last());
        if ws.last().z as int > m { ws.last().z as int } else { m }
    }
}

/// The lowest draw order among the widgets (0 without widgets).
pub open spec fn min_z(ws: Seq<WidgetView>) -> int
    decreases ws.len(),
{
    if ws.len() == 0 {
        0
    } else if ws.len() == 1 {
        ws[0].z as int
    } else {
        let m = min_z(ws.drop_last());
        if (ws.last().z as int) < m { ws.last().z as int } else { m }
    }
}


/// The highest draw order of a non-empty list is at least that of every widget in it and
/// is the draw order of one of them.
pub proof fn lemma_max_z_is_greatest(ws: Seq<WidgetView>)
    requires
        ws.len() > 0,
    ensures
        forall|k: int| 0 <= k < ws.len() ==> #[trigger] ws[k].z <= max_z(ws),
        exists|k: int| 0 <= k < ws.len() && max_z(ws) == #[trigger] ws[k].z,
    decreases ws.len(),
{
    if ws.len() > 1 {
        let d = ws.drop_last();
        lemma_max_z_is_greatest(d);
        assert forall|k: int| 0 <= k < ws.len() implies #[trigger] ws[k].z <= max_z(ws) by {
            if k < ws.len() - 1 {
                assert(d[k] == ws[k]);
            }
        }
        let j = choose|j: int| 0 <= j < d.len() && max_z(d) == #[trigger] d[j].z;
        assert(d[j] == ws[j]);
        let l = ws.len() - 1;
        if ws.last().z as int > max_z(d) {
            assert(max_z(ws) == ws[l].z);
        } else {
            assert(max_z(ws) == ws[j].z);
        }
    } else {
        assert(max_z(ws) == ws[0].z);
    }
}

/// The lowest draw order of a non-empty list is at most that of every widget in it and is
/// the draw order of one of them.
pub proof fn lemma_min_z_is_least(ws: Seq<WidgetView>)
    requires
        ws.len() > 0,
    ensures
        forall|k: int| 0 <= k < ws.len() ==> min_z(ws) <= #[trigger] ws[k].z,
        exists|k: int| 0 <= k < ws.len() && min_z(ws) == #[trigger] ws[k].z,
    decreases ws.len(),
{
    if ws.len() > 1 {
        let d = ws.drop_last();
        lemma_min_z_is_least(d);
        assert forall|k: int| 0 <= k < ws.len() implies min_z(ws) <= #[trigger] ws[k].z by {
            if k < ws.len() - 1 {
                assert(d[k] == ws[k]);
            }
        }
        let j = choose|j: int| 0 <= j < d.len() && min_z(d) == #[trigger] d[j].z;
        assert(d[j] == ws[j]);
        let l = ws.len() - 1;
        if (ws.last().z as int) < min_z(d) {
            assert(min_z(ws) == ws[l].z);
        } else {
            assert(min_z(ws) == ws[j].z);
        }
    } else {
        assert(min_z(ws) == ws[0].z);
    }
}

/// After a selection operation whose result satisfies `p` at every selection position whose
/// id is on the canvas, the first widget of each selected id satisfies `p`.
proof fn lemma_sel_fold_sets_found(
    ws: Seq<WidgetView>,
    sel: Seq<WidgetId>,
    f: spec_fn(WidgetView, int) -> WidgetView,
    p: spec_fn(WidgetView) -> bool,
    id: WidgetId,
)
    requires
        keeps_id(f),
        forall|w: WidgetView, i: int|
            0 <= i < sel.len() && find_first(ws, #[trigger] sel[i]) is Some ==> #[trigger] p(f(w, i)),
        sel.contains(id),
        find_first(ws, id) is Some,
    ensures
        p(sel_fold(ws, sel, f)[find_first(ws, id)->0]),
    decreases sel.len(),
{
    let d = sel.drop_last();
    lemma_sel_fold_ids(ws, d, f);
    let w1 = sel_fold(ws, d, f);
    lemma_find_first_same_ids(w1, ws, sel.last());
    lemma_find_first(ws, id);
    lemma_find_first(w1, sel.last());
    let k = find_first(ws, id)->0;
    if sel.last() == id {
        assert(sel[sel.len() - 1] == id);
        assert(p(f(w1[k], sel.len() - 1)));
    } else {
        let i = choose|i: int| 0 <= i < sel.len() && sel[i] == id;
        assert(i < sel.len() - 1);
        assert(d[i] == id);
        assert forall|w: WidgetView, i2: int|
            0 <= i2 < d.len() && find_first(ws, #[trigger] d[i2]) is Some implies #[trigger] p(f(w, i2)) by {
            assert(d[i2] == sel[i2]);
        }
        lemma_sel_fold_sets_found(ws, d, f, p, id);
    }
}

/// Bringing the selection to front draws every selected widget above every widget that is
/// not selected: after the call, the first widget of a selected id has a higher draw order
/// than any widget that is not the first widget of a selected id.
pub proof fn lemma_front_above_rest(ws: Seq<WidgetView>, sel: Seq<WidgetId>, a: int, b: int)
    requires
        forall|i: int|
            0 <= i < sel.len() && find_first(ws, #[trigger] sel[i]) is Some ==> max_z(ws) + 1 + i <= i32::MAX,
        0 <= a < ws.len(),
        0 <= b < ws.len(),
        exists|i: int| 0 <= i < sel.len() && find_first(ws, #[trigger] sel[i]) == Some(a),
        forall|i: int| 0 <= i < sel.len() ==> find_first(ws, #[trigger] sel[i]) != Some(b),
    ensures
        ({
            let r = sel_fold(ws, sel, front_fn(max_z(ws)));
            r[a].z > r[b].z
        }),
{
    let base = max_z(ws);
    let f = front_fn(base);
    lemma_max_z_is_greatest(ws);
    let i0 = choose|i: int| 0 <= i < sel.len() && find_first(ws, #[trigger] sel[i]) == Some(a);
    let id = sel[i0];
    let kz = choose|k: int| 0 <= k < ws.len() && base == #[trigger] ws[k].z;
    assert(base >= i32::MIN);
    assert(keeps_id(f));
    let p = |w: WidgetView| w.z > base;
    assert forall|w: WidgetView, i: int|
        0 <= i < sel.len() && find_first(ws, #[trigger] sel[i]) is Some implies #[trigger] p(f(w, i)) by {
        assert(base + 1 + i <= i32::MAX);
    }
    lemma_sel_fold_sets_found(ws, sel, f, p, id);
    lemma_sel_fold_frame(ws, sel, f, b);
    assert(ws[b].z <= base);
}

/// Sending the selection to back draws every selected widget below every widget that is not
/// selected: after the call, the first widget of a selected id has a lower draw order than
/// any widget that is not the first widget of a selected id.
pub proof fn lemma_back_below_rest(ws: Seq<WidgetView>, sel: Seq<WidgetId>, a: int, b: int)
    requires
        forall|i: int|
            0 <= i < sel.len() && find_first(ws, #[trigger] sel[i]) is Some ==> min_z(ws) - 1 - i >= i32::MIN,
        0 <= a < ws.len(),
        0 <= b < ws.len(),
        exists|i: int| 0 <= i < sel.len() && find_first(ws, #[trigger] sel[i]) == Some(a),
        forall|i: int| 0 <= i < sel.len() ==> find_first(ws, #[trigger] sel[i]) != Some(b),
    ensures
        ({
            let r = sel_fold(ws, sel, back_fn(min_z(ws)));
            r[a].z < r[b].z
        }),
{
    let base = min_z(ws);
    let f = back_fn(base);
    lemma_min_z_is_least(ws);
    let i0 = choose|i: int| 0 <= i < sel.len() && find_first(ws, #[trigger] sel[i]) == Some(a);
    let id = sel[i0];
    let kz = choose|k: int| 0 <= k < ws.len() && base == #[trigger] ws[k].z;
    assert(base <= i32::MAX);
    assert(keeps_id(f));
    let p = |w: WidgetView| w.z < base;
    assert forall|w: WidgetView, i: int|
        0 <= i < sel.len() && find_first(ws, #[trigger] sel[i]) is Some implies #[trigger] p(f(w, i)) by {
        assert(base - 1 - i >= i32::MIN);
    }
    lemma_sel_fold_sets_found(ws, sel, f, p, id);
    lemma_sel_fold_frame(ws, sel, f, b);
    assert(ws[b].z >= base);
}

/// Raises the selected widgets above `base`, in selection order.
pub open spec fn front_fn(base: int) -> spec_fn(WidgetView, int) -> WidgetView {
    |w: WidgetView, i: int| with_z(w, base + 1 + i)
}

/// Lowers the selected widgets below `base`, in selection order.
pub open spec fn back_fn(base: int) -> spec_fn(WidgetView, int) -> WidgetView {
    |w: WidgetView, i: int| with_z(w, base - 1 - i)
}

/// Moves a widget by `(dx, dy)`, keeping it at non-negative coordinates.
pub open spec fn nudge_fn(dx: int, dy: int) -> spec_fn(WidgetView, int) -> WidgetView {
    |w: WidgetView, i: int| moved(w, dx, dy, 0)
}

/// The nudge offset along one axis: minus `step` for the first direction, plus `step` for the second.
pub open spec fn nudge_delta(neg: bool, pos: bool, step: int) -> int {
    (if neg { -step } else { 0 }) + (if pos { step } else { 0 })
}

impl Editor {
    /// The grid step and the code generation settings are left alone.
    pub open spec fn same_options(&self, old: &Editor) -> bool {
        &&& self.grid_size == old.grid_size
        &&& self.codegen_format == old.codegen_format
        &&& self.codegen_comments == old.codegen_comments
    }

    /// The options, the canvas size and the panels are left alone.
    pub open spec fn same_settings(&self, old: &Editor) -> bool {
        &&& self.same_options(old)
        &&& self.project.canvas_size == old.project.canvas_size
        &&& self.project@.panel_top_enabled == old.project@.panel_top_enabled
        &&& self.project@.panel_bottom_enabled == old.project@.panel_bottom_enabled
        &&& self.project@.panel_left_enabled == old.project@.panel_left_enabled
        &&& self.project@.panel_right_enabled == old.project@.panel_right_enabled
        &&& self.project@.panel_top_h == old.project@.panel_top_h
        &&& self.project@.panel_bottom_h == old.project@.panel_bottom_h
        &&& self.project@.panel_left_w == old.project@.panel_left_w
        &&& self.project@.panel_right_w == old.project@.panel_right_w
    }

    /// Fields other than the widgets are left alone.
    pub open spec fn same_but_widgets(&self, old: &Editor) -> bool {
        &&& self.same_settings(old)
        &&& self.selected@ == old.selected@
        &&& self.next_id == old.next_id
        &&& self.clipboard == old.clipboard
    }

    /// The highest draw order on the canvas (0 when it is empty).
    pub fn max_z(&self) -> (r: i32)
        ensures
            r == max_z(self.widgets()),
    {
        let ghost ws = self.widgets();
        if self.project.widgets.len() == 0 {
            return 0;
        }
        let mut m = self.project.widgets[0].z;
        let mut i: usize = 1;
        assert(ws.take(1).drop_last() =~= Seq::<WidgetView>::empty());
        assert(max_z(ws.take(1)) == ws[0].z);
        while i < self.project.widgets.len()
            invariant
                1 <= i <= ws.len(),
                ws == self.widgets(),
                m == max_z(ws.take(i as int)),
            decreases ws.len() - i,
        {
            let z = self.project.widgets[i].z;
            assert(ws.take(i as int + 1).drop_last() =~= ws.take(i as int));
            if z > m {
                m = z;
            }
            i = i + 1;
        }
        assert(ws.take(ws.len() as int) =~= ws);
        m
    }

    /// The lowest draw order on the canvas (0 when it is empty).
    pub fn min_z(&self) -> (r: i32)
        ensures
            r == min_z(self.widgets()),
    {
        let ghost ws = self.widgets();
        if self.project.widgets.len() == 0 {
            return 0;
        }
        let mut m = self.project.widgets[0].z;
        let mut i: usize = 1;
        assert(ws.take(1).drop_last() =~= Seq::<WidgetView>::empty());
        assert(min_z(ws.take(1)) == ws[0].z);
        while i < self.project.widgets.len()
            invariant
                1 <= i <= ws.len(),
                ws == self.widgets(),
                m == min_z(ws.take(i as int)),
            decreases ws.len() - i,
        {
            let z = self.project.widgets[i].z;
            assert(ws.take(i as int + 1).drop_last() =~= ws.take(i as int));
            if z < m {
                m = z;
            }
            i = i + 1;
        }
        assert(ws.take(ws.len() as int) =~= ws);
        m
    }

    /// Puts the selected widgets on top: the k-th selected gets the draw order
    /// `max + 1 + k`, where `max` is the highest draw order before the call.
    pub fn bring_to_front(&mut self)
        requires
            old(self).wf(),
            forall|i: int|
                0 <= i < old(self).selected@.len() && find_first(old(self).widgets(), #[trigger] old(self).selected@[i]) is Some
                    ==> max_z(old(self).widgets()) + 1 + i <= i32::MAX,
        ensures
            final(self).wf(),
            final(self).same_but_widgets(&*old(self)),
            final(self).widgets() == if old(self).selected@.len() == 0 {
                old(self).widgets()
            } else {
                sel_fold(old(self).widgets(), old(self).selected@, front_fn(max_z(old(self).widgets())))
            },
    {
        if self.selected.len() == 0 {
            return;
        }
        let base = self.max_z();
        let ghost ws0 = self.widgets();
        let ghost f = front_fn(base as int);
        let mut i: usize = 0;
        assert(self.selected@.take(0) =~= Seq::<WidgetId>::empty());
        while i < self.selected.len()
            invariant
                i <= self.selected@.len(),
                self.wf(),
                self.same_but_widgets(&*old(self)),
                ws0 == old(self).widgets(),
                base == max_z(ws0),
                f == front_fn(base as int),
                forall|k: int|
                    0 <= k < self.selected@.len() && find_first(ws0, #[trigger] self.selected@[k]) is Some
                        ==> base + 1 + k <= i32::MAX,
                self.widgets() == sel_fold(ws0, self.selected@.take(i as int), f),
            decreases self.selected@.len() - i,
        {
            let ghost cur = self.widgets();
            let ghost t = self.selected@.take(i as int + 1);
            assert(t.drop_last() =~= self.selected@.take(i as int));
            let id = self.selected[i];
            proof {
                lemma_find_first(cur, id);
                lemma_sel_fold_ids(ws0, self.selected@.take(i as int), f);
                lemma_find_first_same_ids(cur, ws0, id);
            }
            match self.index_of(id) {
                Some(j) => {
                    assert(find_first(ws0, self.selected@[i as int]) is Some);
                    let z: i32 = (base as i128 + 1 + i as i128) as i32;
                    self.project.widgets[j].z = z;
                    assert(self.widgets() =~= cur.update(j as int, f(cur[j as int], i as int)));
                },
                None => {},
            }
            i = i + 1;
        }
        assert(self.selected@.take(self.selected@.len() as int) =~= self.selected@);
    }
}


impl Editor {
    /// Puts the selected widgets at the bottom: the k-th selected gets the draw order
    /// `min - 1 - k`, where `min` is the lowest draw order before the call.
    pub fn send_to_back(&mut self)
        requires
            old(self).wf(),
            forall|i: int|
                0 <= i < old(self).selected@.len() && find_first(old(self).widgets(), #[trigger] old(self).selected@[i]) is Some
                    ==> min_z(old(self).widgets()) - 1 - i >= i32::MIN,
        ensures
            final(self).wf(),
            final(self).same_but_widgets(&*old(self)),
            final(self).widgets() == if old(self).selected@.len() == 0 {
                old(self).widgets()
            } else {
                sel_fold(old(self).widgets(), old(self).selected@, back_fn(min_z(old(self).widgets())))
            },
    {
        if self.selected.len() == 0 {
            return;
        }
        let base = self.min_z();
        let ghost ws0 = self.widgets();
        let ghost f = back_fn(base as int);
        let mut i: usize = 0;
        assert(self.selected@.take(0) =~= Seq::<WidgetId>::empty());
        while i < self.selected.len()
            invariant
                i <= self.selected@.len(),
                self.wf(),
                self.same_but_widgets(&*old(self)),
                ws0 == old(self).widgets(),
                base == min_z(ws0),
                f == back_fn(base as int),
                forall|k: int|
                    0 <= k < self.selected@.len() && find_first(ws0, #[trigger] self.selected@[k]) is Some
                        ==> base - 1 - k >= i32::MIN,
                self.widgets() == sel_fold(ws0, self.selected@.take(i as int), f),
            decreases self.selected@.len() - i,
        {
            let ghost cur = self.widgets();
            let ghost t = self.selected@.take(i as int + 1);
            assert(t.drop_last() =~= self.selected@.take(i as int));
            let id = self.selected[i];
            proof {
                lemma_find_first(cur, id);
                lemma_sel_fold_ids(ws0, self.selected@.take(i as int), f);
                lemma_find_first_same_ids(cur, ws0, id);
            }
            match self.index_of(id) {
                Some(j) => {
                    assert(find_first(ws0, self.selected@[i as int]) is Some);
                    let z: i32 = (base as i128 - 1 - i as i128) as i32;
                    self.project.widgets[j].z = z;
                    assert(self.widgets() =~= cur.update(j as int, f(cur[j as int], i as int)));
                },
                None => {},
            }
            i = i + 1;
        }
        assert(self.selected@.take(self.selected@.len() as int) =~= self.selected@);
    }

    /// The distance an arrow key moves the selection: the grid step, at least one point.
    pub open spec fn nudge_step(&self) -> int {
        if self.grid_size < 10 { 10 } else { self.grid_size as int }
    }

    /// Moves every selected widget by one nudge step in the directions given (opposite
    /// directions cancel), keeping coordinates non-negative. Without a selection or a
    /// direction nothing changes.
    pub fn nudge_selected(&mut self, up: bool, down: bool, left: bool, right: bool)
        requires
            old(self).wf(),
        ensures
            final(self).wf(),
            final(self).same_but_widgets(&*old(self)),
            final(self).widgets() == if old(self).selected@.len() == 0 || !(up || down || left || right) {
                old(self).widgets()
            } else {
                sel_fold(
                    old(self).widgets(),
                    old(self).selected@,
                    nudge_fn(
                        nudge_delta(left, right, old(self).nudge_step()),
                        nudge_delta(up, down, old(self).nudge_step()),
                    ),
                )
            },
    {
        if self.selected.len() == 0 || !(up || down || left || right) {
            return;
        }
        let step: i64 = if self.grid_size < 10 { 10 } else { self.grid_size };
        let dx: i64 = (if left { -step } else { 0 }) + (if right { step } else { 0 });
        let dy: i64 = (if up { -step } else { 0 }) + (if down { step } else { 0 });
        let ghost ws0 = self.widgets();
        let ghost f = nudge_fn(dx as int, dy as int);
        let mut i: usize = 0;
        assert(self.selected@.take(0) =~= Seq::<WidgetId>::empty());
        while i < self.selected.len()
            invariant
                i <= self.selected@.len(),
                self.wf(),
                self.same_but_widgets(&*old(self)),
                ws0 == old(self).widgets(),
                -GRID_LIMIT <= dx <= GRID_LIMIT,
                -GRID_LIMIT <= dy <= GRID_LIMIT,
                f == nudge_fn(dx as int, dy as int),
                self.widgets() == sel_fold(ws0, self.selected@.take(i as int), f),
            decreases self.selected@.len() - i,
        {
            let ghost cur = self.widgets();
            let ghost t = self.selected@.take(i as int + 1);
            assert(t.drop_last() =~= self.selected@.take(i as int));
            let id = self.selected[i];
            proof {
                lemma_find_first(cur, id);
            }
            match self.index_of(id) {
                Some(j) => {
                    let x = clamp_coord_exec(self.project.widgets[j].pos.x as i128 + dx as i128);
                    let y = clamp_coord_exec(self.project.widgets[j].pos.y as i128 + dy as i128);
                    self.project.widgets[j].pos = Vec2 { x: if x < 0 { 0 } else { x }, y: if y < 0 { 0 } else { y } };
                    assert(self.widgets() =~= cur.update(j as int, f(cur[j as int], i as int)));
                },
                None => {},
            }
            i = i + 1;
        }
        assert(self.selected@.take(self.selected@.len() as int) =~= self.selected@);
    }
}


/// Where a widget dropped at `at` lands: centred on the drop point, relative to the area
/// origin, snapped to the grid.
pub open spec fn spawn_pos(kind: WidgetKind, at: Vec2, origin: Vec2, grid: int) -> Vec2 {
    let half_w = 5 * spec_default_size_points(kind).0;
    let half_h = 5 * spec_default_size_points(kind).1;
    snap_spec(Vec2 { x: (at.x - origin.x - half_w) as i64, y: (at.y - origin.y - half_h) as i64 }, grid)
}

/// The widget created by dropping a `kind` from the palette.
pub open spec fn spawned(kind: WidgetKind, n: u64, at: Vec2, area: DockArea, origin: Vec2, grid: int) -> WidgetView {
    WidgetView {
        id: WidgetId(n),
        kind,
        pos: spawn_pos(kind, at, origin, grid),
        size: Vec2 { x: (10 * spec_default_size_points(kind).0) as i64, y: (10 * spec_default_size_points(kind).1) as i64 },
        z: n as i32,
        area,
        props: spec_default_props(kind),
    }
}

/// A position moved by 20 points right and down (coordinates kept in range).
pub open spec fn offset_pos(p: Vec2) -> Vec2 {
    Vec2 { x: clamp_coord(p.x + 200) as i64, y: clamp_coord(p.y + 200) as i64 }
}

/// A copy of `w` with the id `n`, the matching draw order, moved by 20 points.
pub open spec fn copy_with_id(w: WidgetView, n: int) -> WidgetView {
    WidgetView { id: WidgetId(n as u64), z: (n as u64) as i32, pos: offset_pos(w.pos), ..w }
}

/// Duplicating the selected widgets in selection order: each id found on the canvas (the
/// first widget with it, looked up among the widgets added so far too) is copied with the
/// next id. Gives the widgets, the next id and the ids of the copies.
pub open spec fn dup_fold(ws: Seq<WidgetView>, next: int, sel: Seq<WidgetId>) -> (Seq<WidgetView>, int, Seq<WidgetId>)
    decreases sel.len(),
{
    if sel.len() == 0 {
        (ws, next, Seq::empty())
    } else {
        let (w1, n1, ids1) = dup_fold(ws, next, sel.drop_last());
        match find_first(w1, sel.last()) {
            Some(j) => (w1.push(copy_with_id(w1[j], n1)), n1 + 1, ids1.push(WidgetId(n1 as u64))),
            None => (w1, n1, ids1),
        }
    }
}

/// Duplicating hands out at most one new id per selected id, and never goes back.
pub proof fn lemma_dup_fold_next(ws: Seq<WidgetView>, next: int, sel: Seq<WidgetId>)
    ensures
        next <= dup_fold(ws, next, sel).1 <= next + sel.len(),
    decreases sel.len(),
{
    if sel.len() > 0 {
        lemma_dup_fold_next(ws, next, sel.drop_last());
    }
}

/// Duplicating a prefix of the selection never hands out more ids than duplicating all of it.
pub proof fn lemma_dup_fold_prefix(ws: Seq<WidgetView>, next: int, sel: Seq<WidgetId>, i: int)
    requires
        0 <= i <= sel.len(),
    ensures
        dup_fold(ws, next, sel.take(i)).1 <= dup_fold(ws, next, sel).1,
    decreases sel.len() - i,
{
    if i < sel.len() {
        lemma_dup_fold_prefix(ws, next, sel, i + 1);
        let t = sel.take(i + 1);
        assert(t.drop_last() =~= sel.take(i));
    } else {
        assert(sel.take(i) =~= sel);
    }
}

impl Editor {
    fn set_widget_vec(&mut self, v: Vec<Widget>)
        ensures
            final(self).project@.widgets == widgets_view(v@),
            final(self).same_but_widgets(&*old(self)),
    {
        self.project.widgets = v;
    }

    /// Drops a new `kind` widget at the global point `at` into `area`, whose origin is
    /// `area_origin`: it gets the next id, its default size and properties, the draw order
    /// of its id, and becomes the only selected widget.
    pub fn spawn_widget(&mut self, kind: WidgetKind, at_global: Vec2, area: DockArea, area_origin: Vec2)
        requires
            old(self).wf(),
            vec_ok(at_global),
            vec_ok(area_origin),
            old(self).next_id < u64::MAX,
        ensures
            final(self).same_settings(&*old(self)),
            final(self).wf(),
            final(self).widgets() == old(self).widgets().push(
                spawned(kind, old(self).next_id, at_global, area, area_origin, old(self).grid_size as int),
            ),
            final(self).next_id == old(self).next_id + 1,
            final(self).selected@ == seq![WidgetId(old(self).next_id)],
            final(self).clipboard == old(self).clipboard,
            final(self).grid_size == old(self).grid_size,
            final(self).project.canvas_size == old(self).project.canvas_size,
    {
        let id = WidgetId::new(self.next_id);
        self.next_id = self.next_id + 1;
        let size = kind.default_size();
        let props = kind.default_props();
        let vecpos = Vec2 {
            x: at_global.x - area_origin.x - size.x / 2,
            y: at_global.y - area_origin.y - size.y / 2,
        };
        let pos = snap_pos_with_grid(vecpos, self.grid_size);
        let w = Widget { id, kind, pos, size, z: id.as_z(), area, props };
        let ghost before = self.widgets();
        self.project.widgets.push(w);
        assert(self.widgets() =~= before.push(w@));
        self.selected = vec![id];
        assert(self.wf()) by {
            assert forall|i: int| 0 <= i < self.widgets().len() implies widget_ok(#[trigger] self.widgets()[i]) by {
                if i < before.len() {
                    assert(self.widgets()[i] == before[i]);
                }
            }
        }
    }

    /// Removes every selected widget (all widgets with a selected id) and clears the selection.
    pub fn delete_selected(&mut self)
        requires
            old(self).wf(),
        ensures
            final(self).same_settings(&*old(self)),
            final(self).wf(),
            final(self).widgets() == old(self).widgets().filter(|w: WidgetView| !old(self).selected@.contains(w.id)),
            final(self).selected@ == Seq::<WidgetId>::empty(),
            final(self).next_id == old(self).next_id,
            final(self).clipboard == old(self).clipboard,
            final(self).grid_size == old(self).grid_size,
            final(self).project.canvas_size == old(self).project.canvas_size,
    {
        let ghost ws = self.widgets();
        let ghost pred = |w: WidgetView| !old(self).selected@.contains(w.id);
        let mut kept: Vec<Widget> = Vec::new();
        let mut i: usize = 0;
        assert(ws.take(0) =~= Seq::<WidgetView>::empty());
        reveal_with_fuel(Seq::filter, 1);
        while i < self.project.widgets.len()
            invariant
                i <= ws.len(),
                self == old(self),
                ws == self.widgets(),
                self.wf(),
                pred == (|w: WidgetView| !old(self).selected@.contains(w.id)),
                widgets_view(kept@) == ws.take(i as int).filter(pred),
                forall|k: int| 0 <= k < kept@.len() ==> widget_ok(#[trigger] kept@[k]@),
            decreases ws.len() - i,
        {
            let ghost t = ws.take(i as int + 1);
            let ghost before = ws.take(i as int).filter(pred);
            assert(t.drop_last() =~= ws.take(i as int));
            assert(t.last() == ws[i as int]);
            reveal_with_fuel(Seq::filter, 1);
            if !self.is_selected(self.project.widgets[i].id) {
                let c = self.project.widgets[i].clone();
                kept.push(c);
                assert(widgets_view(kept@) =~= before.push(ws[i as int]));
            } else {
                assert(widgets_view(kept@) =~= before);
            }
            i = i + 1;
        }
        assert(ws.take(ws.len() as int) =~= ws);
        self.set_widget_vec(kept);
        self.selected.clear();
    }
}


/// The largest widget id (0 without widgets).
pub open spec fn max_id(ws: Seq<WidgetView>) -> u64
    decreases ws.len(),
{
    if ws.len() == 0 {
        0
    } else if ws.len() == 1 {
        ws[0].id.0
    } else {
        let m = max_id(ws.drop_last());
        if ws.last().id.0 > m { ws.last().id.0 } else { m }
    }
}

/// The next id after loading widgets: numbering continues after the largest id.
pub open spec fn next_id_after_load(ws: Seq<WidgetView>) -> int {
    max_id(ws) + 1
}

/// Every id is at most the largest id.
proof fn lemma_max_id_bound(ws: Seq<WidgetView>, k: int)
    requires
        0 <= k < ws.len(),
    ensures
        ws[k].id.0 <= max_id(ws),
    decreases ws.len(),
{
    if ws.len() > 1 && k < ws.len() - 1 {
        lemma_max_id_bound(ws.drop_last(), k);
    }
}

/// Numbering continues after a loaded project: the next id handed out is above every id
/// of the project.
pub proof fn lemma_next_id_after_load_fresh(ws: Seq<WidgetView>)
    requires
        ws.len() > 0,
    ensures
        forall|k: int| 0 <= k < ws.len() ==> (#[trigger] ws[k]).id.0 < next_id_after_load(ws),
{
    assert forall|k: int| 0 <= k < ws.len() implies (#[trigger] ws[k]).id.0 < next_id_after_load(ws) by {
        lemma_max_id_bound(ws, k);
    }
}

/// Every widget of the project has its geometry in range.
pub open spec fn project_ok(p: ProjectView) -> bool {
    forall|i: int| 0 <= i < p.widgets.len() ==> widget_ok(#[trigger] p.widgets[i])
}

impl Editor {
    /// Removes every widget with the id `id` (the inspector's Delete) and clears the selection.
    pub fn delete_widget(&mut self, id: WidgetId)
        requires
            old(self).wf(),
        ensures
            final(self).same_settings(&*old(self)),
            final(self).wf(),
            final(self).widgets() == old(self).widgets().filter(|w: WidgetView| w.id != id),
            final(self).selected@ == Seq::<WidgetId>::empty(),
            final(self).next_id == old(self).next_id,
            final(self).clipboard == old(self).clipboard,
            final(self).grid_size == old(self).grid_size,
            final(self).project.canvas_size == old(self).project.canvas_size,
    {
        let ghost ws = self.widgets();
        let ghost pred = |w: WidgetView| w.id != id;
        let mut kept: Vec<Widget> = Vec::new();
        let mut i: usize = 0;
        assert(ws.take(0) =~= Seq::<WidgetView>::empty());
        reveal_with_fuel(Seq::filter, 1);
        while i < self.project.widgets.len()
            invariant
                i <= ws.len(),
                self == old(self),
                ws == self.widgets(),
                self.wf(),
                pred == (|w: WidgetView| w.id != id),
                widgets_view(kept@) == ws.take(i as int).filter(pred),
                forall|k: int| 0 <= k < kept@.len() ==> widget_ok(#[trigger] kept@[k]@),
            decreases ws.len() - i,
        {
            let ghost t = ws.take(i as int + 1);
            let ghost before = ws.take(i as int).filter(pred);
            assert(t.drop_last() =~= ws.take(i as int));
            assert(t.last() == ws[i as int]);
            reveal_with_fuel(Seq::filter, 1);
            if self.project.widgets[i].id != id {
                let c = self.project.widgets[i].clone();
                kept.push(c);
                assert(widgets_view(kept@) =~= before.push(ws[i as int]));
            } else {
                assert(widgets_view(kept@) =~= before);
            }
            i = i + 1;
        }
        assert(ws.take(ws.len() as int) =~= ws);
        self.set_widget_vec(kept);
        self.selected.clear();
    }

    /// Copies the first selected widget (the first widget with its id) to the clipboard.
    /// Without a selection, or when that id is not on the canvas, nothing changes.
    pub fn copy_selected(&mut self)
        requires
            old(self).wf(),
        ensures
            final(self).same_options(&*old(self)),
            final(self).wf(),
            final(self).project@ == old(self).project@,
            final(self).selected@ == old(self).selected@,
            final(self).next_id == old(self).next_id,
            final(self).grid_size == old(self).grid_size,
            if old(self).selected@.len() > 0 && find_first(old(self).widgets(), old(self).selected@[0]) is Some {
                final(self).clipboard matches Some(c)
                    && c@ == old(self).widgets()[find_first(old(self).widgets(), old(self).selected@[0])->0]
            } else {
                final(self).clipboard == old(self).clipboard
            },
    {
        if self.selected.len() == 0 {
            return;
        }
        let ghost ws = self.widgets();
        proof {
            lemma_find_first(ws, self.selected@[0]);
        }
        match self.index_of(self.selected[0]) {
            Some(j) => {
                let c = self.project.widgets[j].clone();
                assert(widget_ok(ws[j as int]));
                self.clipboard = Some(c);
            },
            None => {},
        }
    }

    /// Pastes the clipboard widget as a new widget: the next id, the matching draw order,
    /// 20 points right and down of the copy; it becomes the only selected widget.
    /// With an empty clipboard nothing changes.
    pub fn paste(&mut self)
        requires
            old(self).wf(),
            old(self).clipboard is Some ==> old(self).next_id < u64::MAX,
        ensures
            final(self).same_settings(&*old(self)),
            final(self).wf(),
            final(self).clipboard == old(self).clipboard,
            final(self).grid_size == old(self).grid_size,
            final(self).project.canvas_size == old(self).project.canvas_size,
            match old(self).clipboard {
                Some(c) => {
                    &&& final(self).widgets() == old(self).widgets().push(copy_with_id(c@, old(self).next_id as int))
                    &&& final(self).next_id == old(self).next_id + 1
                    &&& final(self).selected@ == seq![WidgetId(old(self).next_id)]
                },
                None => {
                    &&& final(self).widgets() == old(self).widgets()
                    &&& final(self).next_id == old(self).next_id
                    &&& final(self).selected@ == old(self).selected@
                },
            },
    {
        match &self.clipboard {
            Some(c) => {
                let mut pasted = c.clone();
                let id = WidgetId::new(self.next_id);
                self.next_id = self.next_id + 1;
                pasted.id = id;
                pasted.z = id.as_z();
                pasted.pos = Vec2 {
                    x: clamp_coord_exec(pasted.pos.x as i128 + 200),
                    y: clamp_coord_exec(pasted.pos.y as i128 + 200),
                };
                let ghost before = self.widgets();
                self.project.widgets.push(pasted);
                assert(self.widgets() =~= before.push(pasted@));
                self.selected = vec![id];
                assert(self.wf()) by {
                    assert forall|i: int| 0 <= i < self.widgets().len() implies widget_ok(#[trigger] self.widgets()[i]) by {
                        if i < before.len() {
                            assert(self.widgets()[i] == before[i]);
                        }
                    }
                }
            },
            None => {},
        }
    }

    /// Duplicates the selected widgets (see `dup_fold`); the copies become the selection.
    /// Without a selection nothing changes.
    pub fn duplicate_selected(&mut self)
        requires
            old(self).wf(),
            dup_fold(old(self).widgets(), old(self).next_id as int, old(self).selected@).1 <= u64::MAX,
        ensures
            final(self).same_settings(&*old(self)),
            final(self).wf(),
            final(self).clipboard == old(self).clipboard,
            final(self).grid_size == old(self).grid_size,
            final(self).project.canvas_size == old(self).project.canvas_size,
            old(self).selected@.len() == 0 ==> final(self).widgets() == old(self).widgets()
                && final(self).selected@ == old(self).selected@
                && final(self).next_id == old(self).next_id,
            old(self).selected@.len() > 0 ==> ({
                let r = dup_fold(old(self).widgets(), old(self).next_id as int, old(self).selected@);
                &&& final(self).widgets() == r.0
                &&& final(self).next_id == r.1
                &&& final(self).selected@ == r.2
            }),
    {
        if self.selected.len() == 0 {
            return;
        }
        let ghost ws0 = self.widgets();
        let ghost sel = self.selected@;
        let ghost n0 = self.next_id as int;
        let mut new_ids: Vec<WidgetId> = Vec::new();
        let mut i: usize = 0;
        assert(sel.take(0) =~= Seq::<WidgetId>::empty());
        while i < self.selected.len()
            invariant
                i <= sel.len(),
                sel == self.selected@,
                sel == old(self).selected@,
                self.wf(),
                self.clipboard == old(self).clipboard,
                self.grid_size == old(self).grid_size,
                self.same_settings(&*old(self)),
                self.project.canvas_size == old(self).project.canvas_size,
                ws0 == old(self).widgets(),
                n0 == old(self).next_id,
                dup_fold(ws0, n0, sel).1 <= u64::MAX,
                (self.widgets(), self.next_id as int, new_ids@) == dup_fold(ws0, n0, sel.take(i as int)),
            decreases sel.len() - i,
        {
            let ghost cur = self.widgets();
            let ghost t = sel.take(i as int + 1);
            assert(t.drop_last() =~= sel.take(i as int));
            proof {
                lemma_dup_fold_prefix(ws0, n0, sel, i as int + 1);
                lemma_find_first(cur, sel[i as int]);
            }
            let sel_id = self.selected[i];
            match self.index_of(sel_id) {
                Some(j) => {
                    let mut dup = self.project.widgets[j].clone();
                    let new_id = WidgetId::new(self.next_id);
                    self.next_id = self.next_id + 1;
                    dup.id = new_id;
                    dup.z = new_id.as_z();
                    dup.pos = Vec2 {
                        x: clamp_coord_exec(dup.pos.x as i128 + 200),
                        y: clamp_coord_exec(dup.pos.y as i128 + 200),
                    };
                    assert(dup@ == copy_with_id(cur[j as int], new_id.0 as int));
                    self.project.widgets.push(dup);
                    new_ids.push(new_id);
                    assert(self.widgets() =~= cur.push(dup@));
                    assert(self.wf()) by {
                        assert forall|k: int| 0 <= k < self.widgets().len() implies widget_ok(#[trigger] self.widgets()[k]) by {
                            if k < cur.len() {
                                assert(self.widgets()[k] == cur[k]);
                            }
                        }
                    }
                },
                None => {},
            }
            i = i + 1;
        }
        assert(sel.take(sel.len() as int) =~= sel);
        self.selected = new_ids;
    }

    /// Starts a new, empty project and clears the selection.
    pub fn new_project(&mut self)
        requires
            old(self).wf(),
        ensures
            final(self).same_options(&*old(self)),
            final(self).wf(),
            final(self).project@ == spec_default_project(),
            final(self).selected@ == Seq::<WidgetId>::empty(),
            final(self).next_id == old(self).next_id,
            final(self).clipboard == old(self).clipboard,
            final(self).grid_size == old(self).grid_size,
    {
        self.project = Project::default();
        self.selected.clear();
    }

    /// The largest widget id on the canvas (0 when it is empty).
    pub fn max_id(&self) -> (r: u64)
        ensures
            r == max_id(self.widgets()),
    {
        let ghost ws = self.widgets();
        if self.project.widgets.len() == 0 {
            return 0;
        }
        let mut m = self.project.widgets[0].id.0;
        let mut i: usize = 1;
        assert(ws.take(1).drop_last() =~= Seq::<WidgetView>::empty());
        assert(max_id(ws.take(1)) == ws[0].id.0);
        while i < self.project.widgets.len()
            invariant
                1 <= i <= ws.len(),
                ws == self.widgets(),
                m == max_id(ws.take(i as int)),
            decreases ws.len() - i,
        {
            let v = self.project.widgets[i].id.0;
            assert(ws.take(i as int + 1).drop_last() =~= ws.take(i as int));
            if v > m {
                m = v;
            }
            i = i + 1;
        }
        assert(ws.take(ws.len() as int) =~= ws);
        m
    }

    /// Replaces the project by one read from a file: ids continue after the largest loaded
    /// id (see `next_id_after_load`; unchanged for an empty project), the selection is cleared.
    pub fn load_project(&mut self, project: Project)
        requires
            old(self).wf(),
            project_ok(project@),
            project@.widgets.len() > 0 ==> next_id_after_load(project@.widgets) <= u64::MAX,
        ensures
            final(self).same_options(&*old(self)),
            final(self).wf(),
            final(self).project@ == project@,
            final(self).selected@ == Seq::<WidgetId>::empty(),
            final(self).next_id == if project@.widgets.len() > 0 {
                next_id_after_load(project@.widgets)
            } else {
                old(self).next_id as int
            },
            final(self).clipboard == old(self).clipboard,
            final(self).grid_size == old(self).grid_size,
    {
        self.project = project;
        if self.project.widgets.len() > 0 {
            let m = self.max_id();
            self.next_id = m + 1;
        }
        self.selected.clear();
    }

    /// Replaces the project by one imported from JSON text; ids are not renumbered and the
    /// selection is cleared.
    pub fn import_project(&mut self, project: Project)
        requires
            old(self).wf(),
            project_ok(project@),
        ensures
            final(self).same_options(&*old(self)),
            final(self).wf(),
            final(self).project@ == project@,
            final(self).selected@ == Seq::<WidgetId>::empty(),
            final(self).next_id == old(self).next_id,
            final(self).clipboard == old(self).clipboard,
            final(self).grid_size == old(self).grid_size,
    {
        self.project = project;
        self.selected.clear();
    }
}


/// The rectangle a widget covers, its position taken relative to `origin`.
pub open spec fn widget_rect(w: WidgetView, origin: Vec2) -> Rect {
    let min = Vec2 { x: (origin.x + w.pos.x) as i64, y: (origin.y + w.pos.y) as i64 };
    Rect { min, max: Vec2 { x: (min.x + w.size.x) as i64, y: (min.y + w.size.y) as i64 } }
}

/// The items after editing them as text: one per line; the selected index is kept in range.
pub open spec fn props_with_items_text(p: PropsView, text: Seq<char>) -> PropsView {
    let items = lines_spec(text);
    PropsView {
        items,
        selected: if p.selected >= items.len() {
            if items.len() == 0 { 0 } else { (items.len() - 1) as nat }
        } else {
            p.selected
        },
        ..p
    }
}

/// `v` clamped into `[lo, hi]`, where `lo <= hi`.
pub open spec fn clamp_range(v: int, lo: int, hi: int) -> int {
    if v < lo { lo } else if v > hi { hi } else { v }
}

/// The position of a widget dragged by `delta` on a canvas of size `canvas`: moved, snapped
/// to the grid, then kept inside the canvas (top-left corner between the origin and the
/// canvas size minus the widget size, or the origin when the widget is larger).
pub open spec fn dragged_pos(w: WidgetView, delta: Vec2, grid: int, canvas: Vec2) -> Vec2 {
    let moved = Vec2 { x: clamp_coord(w.pos.x + delta.x) as i64, y: clamp_coord(w.pos.y + delta.y) as i64 };
    let snapped = snap_spec(moved, grid);
    let maxx = if canvas.x - w.size.x > 0 { canvas.x - w.size.x } else { 0 };
    let maxy = if canvas.y - w.size.y > 0 { canvas.y - w.size.y } else { 0 };
    Vec2 { x: clamp_range(snapped.x as int, 0, maxx) as i64, y: clamp_range(snapped.y as int, 0, maxy) as i64 }
}

/// The size of a widget resized by `delta`: at least 20 x 16 points, at most the canvas.
pub open spec fn resized(w: WidgetView, delta: Vec2, canvas: Vec2) -> Vec2 {
    let x = clamp_coord(w.size.x + delta.x);
    let y = clamp_coord(w.size.y + delta.y);
    let x1 = if x < 200 { 200 } else { x };
    let y1 = if y < 160 { 160 } else { y };
    Vec2 { x: (if x1 > canvas.x { canvas.x as int } else { x1 }) as i64, y: (if y1 > canvas.y { canvas.y as int } else { y1 }) as i64 }
}

impl Editor {
    /// The ids of the widgets whose rectangle (relative to `area_origin`) meets `rect`.
    pub fn widgets_in_rect(&self, rect: Rect, area_origin: Vec2) -> (r: Vec<WidgetId>)
        requires
            self.wf(),
            vec_ok(area_origin),
        ensures
            r@ == self.widgets().filter(|w: WidgetView| widget_rect(w, area_origin).spec_intersects(rect)).map_values(
                |w: WidgetView| w.id,
            ),
    {
        let ghost ws = self.widgets();
        let ghost pred = |w: WidgetView| widget_rect(w, area_origin).spec_intersects(rect);
        let mut ids: Vec<WidgetId> = Vec::new();
        let mut i: usize = 0;
        assert(ws.take(0) =~= Seq::<WidgetView>::empty());
        reveal_with_fuel(Seq::filter, 1);
        while i < self.project.widgets.len()
            invariant
                i <= ws.len(),
                ws == self.widgets(),
                self.wf(),
                vec_ok(area_origin),
                pred == (|w: WidgetView| widget_rect(w, area_origin).spec_intersects(rect)),
                ids@ == ws.take(i as int).filter(pred).map_values(|w: WidgetView| w.id),
            decreases ws.len() - i,
        {
            let ghost t = ws.take(i as int + 1);
            let ghost before = ws.take(i as int).filter(pred);
            assert(t.drop_last() =~= ws.take(i as int));
            assert(t.last() == ws[i as int]);
            reveal_with_fuel(Seq::filter, 1);
            let w = &self.project.widgets[i];
            assert(widget_ok(ws[i as int]));
            let min = Vec2 { x: area_origin.x + w.pos.x, y: area_origin.y + w.pos.y };
            let wr = Rect { min, max: Vec2 { x: min.x + w.size.x, y: min.y + w.size.y } };
            assert(wr == widget_rect(ws[i as int], area_origin));
            if wr.intersects(&rect) {
                ids.push(w.id);
                assert(ids@ =~= before.push(ws[i as int]).map_values(|w: WidgetView| w.id));
            }
            i = i + 1;
        }
        assert(ws.take(ws.len() as int) =~= ws);
        ids
    }

    /// Sorts the widgets by draw order, keeping the order of equal ones.
    pub fn sort_by_z(&mut self)
        requires
            old(self).wf(),
        ensures
            final(self).wf(),
            final(self).same_but_widgets(&*old(self)),
            final(self).widgets() == sorted_by(old(self).widgets(), SortKey::Depth),
    {
        let ghost ws = self.widgets();
        let mut rest: Vec<Widget> = Vec::new();
        std::mem::swap(&mut rest, &mut self.project.widgets);
        let sorted = sort_widgets(rest, SortKey::Depth);
        proof {
            broadcast use vstd::seq_lib::group_to_multiset_ensures;

            lemma_sorted_by_multiset(ws, SortKey::Depth);
            let r = sorted_by(ws, SortKey::Depth);
            assert forall|k: int| 0 <= k < r.len() implies widget_ok(#[trigger] r[k]) by {
                assert(r.contains(r[k]));
                assert(r.to_multiset().count(r[k]) > 0);
                assert(ws.contains(r[k]));
            }
        }
        self.set_widget_vec(sorted);
    }

    /// Moves the widget at `index` to another area; when the area changes, its position is
    /// snapped to the grid.
    pub fn set_area(&mut self, index: usize, area: DockArea)
        requires
            old(self).wf(),
            index < old(self).widgets().len(),
        ensures
            final(self).wf(),
            final(self).same_but_widgets(&*old(self)),
            final(self).widgets() == if old(self).widgets()[index as int].area == area {
                old(self).widgets()
            } else {
                old(self).widgets().update(index as int, WidgetView {
                    area,
                    pos: snap_spec(old(self).widgets()[index as int].pos, old(self).grid_size as int),
                    ..old(self).widgets()[index as int]
                })
            },
    {
        if self.project.widgets[index].area != area {
            let ghost before = self.widgets();
            let p = snap_pos_with_grid(self.project.widgets[index].pos, self.grid_size);
            self.project.widgets[index].area = area;
            self.project.widgets[index].pos = p;
            assert(self.widgets() =~= before.update(index as int, WidgetView { area, pos: p, ..before[index as int] }));
        }
    }

    /// Replaces the items of the widget at `index` by the lines of `text`, keeping the
    /// selected index within the new items.
    pub fn set_items_from_text(&mut self, index: usize, text: &str)
        requires
            old(self).wf(),
            index < old(self).widgets().len(),
        ensures
            final(self).wf(),
            final(self).same_but_widgets(&*old(self)),
            final(self).widgets() == old(self).widgets().update(index as int, WidgetView {
                props: props_with_items_text(old(self).widgets()[index as int].props, text@),
                ..old(self).widgets()[index as int]
            }),
    {
        let ghost before = self.widgets();
        let items = split_lines(text);
        let n: usize = items.len();
        let sel: usize = self.project.widgets[index].props.selected;
        let new_sel: usize = if sel >= n {
            if n == 0 { 0 } else { n - 1 }
        } else {
            sel
        };
        self.project.widgets[index].props.items = items;
        self.project.widgets[index].props.selected = new_sel;
        proof {
            let after = WidgetView {
                props: props_with_items_text(before[index as int].props, text@),
                ..before[index as int]
            };
            assert(self.widgets()[index as int] == after);
            assert(self.widgets() =~= before.update(index as int, after));
            assert forall|k: int| 0 <= k < self.widgets().len() implies widget_ok(#[trigger] self.widgets()[k]) by {
                if k != index {
                    assert(self.widgets()[k] == before[k]);
                }
            }
        }
    }

    /// The items of the widget at `index` as text, one per line.
    pub fn items_text(&self, index: usize) -> (r: String)
        requires
            index < self.widgets().len(),
        ensures
            r@ == join_spec(self.widgets()[index as int].props.items, seq!['\n']),
    {
        join_lines(&self.project.widgets[index].props.items)
    }

    /// Drags the widget at `index` by `delta` on a canvas of size `canvas` (see `dragged_pos`).
    pub fn drag_widget(&mut self, index: usize, delta: Vec2, canvas: Vec2)
        requires
            old(self).wf(),
            index < old(self).widgets().len(),
            vec_ok(delta),
            vec_ok(canvas),
        ensures
            final(self).wf(),
            final(self).same_but_widgets(&*old(self)),
            final(self).widgets() == old(self).widgets().update(index as int, WidgetView {
                pos: dragged_pos(old(self).widgets()[index as int], delta, old(self).grid_size as int, canvas),
                ..old(self).widgets()[index as int]
            }),
    {
        let ghost before = self.widgets();
        assert(widget_ok(before[index as int]));
        let w = &self.project.widgets[index];
        let moved = Vec2 {
            x: clamp_coord_exec(w.pos.x as i128 + delta.x as i128),
            y: clamp_coord_exec(w.pos.y as i128 + delta.y as i128),
        };
        let snapped = snap_pos_with_grid(moved, self.grid_size);
        let maxx: i64 = if canvas.x - w.size.x > 0 { canvas.x - w.size.x } else { 0 };
        let maxy: i64 = if canvas.y - w.size.y > 0 { canvas.y - w.size.y } else { 0 };
        let x = if snapped.x < 0 { 0 } else if snapped.x > maxx { maxx } else { snapped.x };
        let y = if snapped.y < 0 { 0 } else if snapped.y > maxy { maxy } else { snapped.y };
        self.project.widgets[index].pos = Vec2 { x, y };
        assert(self.widgets() =~= before.update(index as int, WidgetView {
            pos: dragged_pos(before[index as int], delta, self.grid_size as int, canvas),
            ..before[index as int]
        }));
        assert(self.wf()) by {
            assert forall|k: int| 0 <= k < self.widgets().len() implies widget_ok(#[trigger] self.widgets()[k]) by {
                if k != index {
                    assert(self.widgets()[k] == before[k]);
                }
            }
        }
    }

    /// Resizes the widget at `index` by `delta` on a canvas of size `canvas` (see `resized`).
    pub fn resize_widget(&mut self, index: usize, delta: Vec2, canvas: Vec2)
        requires
            old(self).wf(),
            index < old(self).widgets().len(),
            vec_ok(delta),
            vec_ok(canvas),
        ensures
            final(self).wf(),
            final(self).same_but_widgets(&*old(self)),
            final(self).widgets() == old(self).widgets().update(index as int, WidgetView {
                size: resized(old(self).widgets()[index as int], delta, canvas),
                ..old(self).widgets()[index as int]
            }),
    {
        let ghost before = self.widgets();
        assert(widget_ok(before[index as int]));
        let w = &self.project.widgets[index];
        let x = clamp_coord_exec(w.size.x as i128 + delta.x as i128);
        let y = clamp_coord_exec(w.size.y as i128 + delta.y as i128);
        let x1 = if x < 200 { 200 } else { x };
        let y1 = if y < 160 { 160 } else { y };
        let size = Vec2 { x: if x1 > canvas.x { canvas.x } else { x1 }, y: if y1 > canvas.y { canvas.y } else { y1 } };
        self.project.widgets[index].size = size;
        assert(self.widgets() =~= before.update(index as int, WidgetView {
            size: resized(before[index as int], delta, canvas),
            ..before[index as int]
        }));
        assert(self.wf()) by {
            assert forall|k: int| 0 <= k < self.widgets().len() implies widget_ok(#[trigger] self.widgets()[k]) by {
                if k != index {
                    assert(self.widgets()[k] == before[k]);
                }
            }
        }
    }
}

/// The positions of the widgets placed in `area`, in canvas order.
pub open spec fn area_indices(ws: Seq<WidgetView>, area: DockArea) -> Seq<usize>
    decreases ws.len(),
{
    if ws.len() == 0 {
        Seq::empty()
    } else if ws.last().area == area {
        area_indices(ws.drop_last(), area).push((ws.len() - 1) as usize)
    } else {
        area_indices(ws.drop_last(), area)
    }
}

impl Editor {
    /// The positions of the widgets placed in `area`, in canvas order (the widgets that
    /// the preview draws in that area).
    pub fn indices_in_area(&self, area: DockArea) -> (r: Vec<usize>)
        ensures
            r@ == area_indices(self.widgets(), area),
    {
        let ghost ws = self.widgets();
        let mut r: Vec<usize> = Vec::new();
        let mut i: usize = 0;
        assert(ws.take(0) =~= Seq::<WidgetView>::empty());
        while i < self.project.widgets.len()
            invariant
                i <= ws.len(),
                ws == self.widgets(),
                r@ == area_indices(ws.take(i as int), area),
            decreases ws.len() - i,
        {
            let ghost t = ws.take(i as int + 1);
            assert(t.drop_last() =~= ws.take(i as int));
            assert(t.last() == ws[i as int]);
            if self.project.widgets[i].area == area {
                r.push(i);
            }
            i = i + 1;
        }
        assert(ws.take(ws.len() as int) =~= ws);
        r
    }
}

/// The ids of the widgets are pairwise distinct and all below `next`, so the next id handed
/// out is fresh.
pub open spec fn ids_fresh(ws: Seq<WidgetView>, next: int) -> bool {
    &&& forall|i: int, j: int| 0 <= i < j < ws.len() ==> (#[trigger] ws[i]).id != (#[trigger] ws[j]).id
    &&& forall|i: int| 0 <= i < ws.len() ==> (#[trigger] ws[i]).id.0 < next
}

/// Adding a widget with the next id, and moving on to the id after it, keeps ids fresh.
proof fn lemma_ids_fresh_push(ws: Seq<WidgetView>, next: int, w: WidgetView)
    requires
        ids_fresh(ws, next),
        w.id.0 == next,
    ensures
        ids_fresh(ws.push(w), next + 1),
{
    let r = ws.push(w);
    assert forall|i: int, j: int| 0 <= i < j < r.len() implies (#[trigger] r[i]).id != (#[trigger] r[j]).id by {
        assert(r[i] == ws[i]);
        if j < ws.len() {
            assert(r[j] == ws[j]);
        }
    }
    assert forall|i: int| 0 <= i < r.len() implies (#[trigger] r[i]).id.0 < next + 1 by {
        if i < ws.len() {
            assert(r[i] == ws[i]);
        }
    }
}

/// Placing a new widget from the palette keeps ids fresh: it gets the next id.
pub proof fn lemma_spawn_keeps_ids_fresh(
    ws: Seq<WidgetView>,
    next: u64,
    kind: WidgetKind,
    at: Vec2,
    area: DockArea,
    origin: Vec2,
    grid: int,
)
    requires
        ids_fresh(ws, next as int),
    ensures
        ids_fresh(ws.push(spawned(kind, next, at, area, origin, grid)), next + 1),
{
    lemma_ids_fresh_push(ws, next as int, spawned(kind, next, at, area, origin, grid));
}

/// Pasting keeps ids fresh: the copy gets the next id.
pub proof fn lemma_paste_keeps_ids_fresh(ws: Seq<WidgetView>, c: WidgetView, next: int)
    requires
        ids_fresh(ws, next),
        0 <= next <= u64::MAX,
    ensures
        ids_fresh(ws.push(copy_with_id(c, next)), next + 1),
{
    lemma_ids_fresh_push(ws, next, copy_with_id(c, next));
}

/// Duplicating keeps ids fresh: each copy gets the next id in turn.
pub proof fn lemma_duplicate_keeps_ids_fresh(ws: Seq<WidgetView>, next: int, sel: Seq<WidgetId>)
    requires
        ids_fresh(ws, next),
        0 <= next,
        dup_fold(ws, next, sel).1 <= u64::MAX,
    ensures
        ids_fresh(dup_fold(ws, next, sel).0, dup_fold(ws, next, sel).1),
    decreases sel.len(),
{
    if sel.len() > 0 {
        let d = sel.drop_last();
        lemma_dup_fold_prefix(ws, next, sel, sel.len() - 1);
        assert(sel.take(sel.len() - 1) =~= d);
        lemma_duplicate_keeps_ids_fresh(ws, next, d);
        lemma_dup_fold_next(ws, next, d);
        let (w1, n1, ids1) = dup_fold(ws, next, d);
        match find_first(w1, sel.last()) {
            Some(j) => {
                lemma_ids_fresh_push(w1, n1, copy_with_id(w1[j], n1));
            },
            None => {},
        }
    }
}

/// Deleting widgets keeps ids fresh: what is left is part of what was there.
pub proof fn lemma_delete_keeps_ids_fresh(ws: Seq<WidgetView>, next: int, keep: spec_fn(WidgetView) -> bool)
    requires
        ids_fresh(ws, next),
    ensures
        ids_fresh(ws.filter(keep), next),
    decreases ws.len(),
{
    reveal(Seq::filter);
    if ws.len() > 0 {
        let d = ws.drop_last();
        assert(ids_fresh(d, next)) by {
            assert forall|i: int, j: int| 0 <= i < j < d.len() implies (#[trigger] d[i]).id != (#[trigger] d[j]).id by {
                assert(d[i] == ws[i] && d[j] == ws[j]);
            }
            assert forall|i: int| 0 <= i < d.len() implies (#[trigger] d[i]).id.0 < next by {
                assert(d[i] == ws[i]);
            }
        }
        lemma_delete_keeps_ids_fresh(d, next, keep);
        let f = d.filter(keep);
        if keep(ws.last()) {
            let r = f.push(ws.last());
            assert(ws.last() == ws[ws.len() - 1]);
            assert forall|i: int, j: int| 0 <= i < j < r.len() implies (#[trigger] r[i]).id != (#[trigger] r[j]).id by {
                assert(r[i] == f[i]);
                if j < f.len() {
                    assert(r[j] == f[j]);
                } else {
                    assert(f.contains(f[i]));
                    d.lemma_filter_contains_rev(keep, f[i]);
                    let k = choose|k: int| 0 <= k < d.len() && d[k] == f[i];
                    assert(d[k] == ws[k]);
                }
            }
            assert forall|i: int| 0 <= i < r.len() implies (#[trigger] r[i]).id.0 < next by {
                if i < f.len() {
                    assert(r[i] == f[i]);
                }
            }
        }
    }
}

/// Loading a project whose ids are pairwise distinct leaves ids fresh: numbering continues
/// after the largest id.
pub proof fn lemma_load_keeps_ids_fresh(ws: Seq<WidgetView>)
    requires
        ws.len() > 0,
        forall|i: int, j: int| 0 <= i < j < ws.len() ==> (#[trigger] ws[i]).id != (#[trigger] ws[j]).id,
    ensures
        ids_fresh(ws, next_id_after_load(ws)),
{
    lemma_next_id_after_load_fresh(ws);
}

} // verus!
