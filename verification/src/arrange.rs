//! Aligning, distributing and resizing the selected widgets.
use vstd::prelude::*;
use crate::editor::{
    clamp_coord, clamp_coord_exec, find_first, keeps_id, lemma_find_first, lemma_sel_fold_sets,
    round_div, round_div_exec, sel_fold, widget_ok, Editor, COORD_LIMIT,
};
use crate::sorting::{lemma_sorted_by_multiset, sort_widgets, sorted_by, SortKey};
use crate::widget::{Vec2, Widget, WidgetId, WidgetView, widgets_view};

verus! {

/// The selected widgets in selection order: for each selected id, the first widget with that
/// id. Ids with no widget are skipped.
pub open spec fn sel_found(ws: Seq<WidgetView>, sel: Seq<WidgetId>) -> Seq<WidgetView>
    decreases sel.len(),
{
    if sel.len() == 0 {
        Seq::empty()
    } else {
        let f = sel_found(ws, sel.drop_last());
        match find_first(ws, sel.last()) {
            Some(j) => f.push(ws[j]),
            None => f,
        }
    }
}

/// The coordinate of a widget along one axis (`vertical` picks y).
pub open spec fn axis_pos(w: WidgetView, vertical: bool) -> int {
    if vertical { w.pos.y as int } else { w.pos.x as int }
}

/// The extent of a widget along one axis.
pub open spec fn axis_size(w: WidgetView, vertical: bool) -> int {
    if vertical { w.size.y as int } else { w.size.x as int }
}

/// `w` with its coordinate along one axis set to `v`, clamped into the coordinate range.
pub open spec fn with_axis_pos(w: WidgetView, vertical: bool, v: int) -> WidgetView {
    let c = clamp_coord(v) as i64;
    WidgetView { pos: if vertical { Vec2 { y: c, ..w.pos } } else { Vec2 { x: c, ..w.pos } }, ..w }
}

/// `w` with its extent along one axis set to `v`, clamped into the coordinate range.
pub open spec fn with_axis_size(w: WidgetView, vertical: bool, v: int) -> WidgetView {
    let c = clamp_coord(v) as i64;
    WidgetView { size: if vertical { Vec2 { y: c, ..w.size } } else { Vec2 { x: c, ..w.size } }, ..w }
}

/// The smallest start coordinate among the widgets (0 for none).
pub open spec fn min_start(ws: Seq<WidgetView>, vertical: bool) -> int
    decreases ws.len(),
{
    if ws.len() == 0 {
        0
    } else if ws.len() == 1 {
        axis_pos(ws[0], vertical)
    } else {
        let m = min_start(ws.drop_last(), vertical);
        let v = axis_pos(ws.last(), vertical);
        if v < m { v } else { m }
    }
}

/// The largest end coordinate (start plus extent) among the widgets (0 for none).
pub open spec fn max_end(ws: Seq<WidgetView>, vertical: bool) -> int
    decreases ws.len(),
{
    if ws.len() == 0 {
        0
    } else if ws.len() == 1 {
        axis_pos(ws[0], vertical) + axis_size(ws[0], vertical)
    } else {
        let m = max_end(ws.drop_last(), vertical);
        let v = axis_pos(ws.last(), vertical) + axis_size(ws.last(), vertical);
        if v > m { v } else { m }
    }
}

/// The sum of twice the centres of the widgets along one axis.
pub open spec fn sum_centres2(ws: Seq<WidgetView>, vertical: bool) -> int
    decreases ws.len(),
{
    if ws.len() == 0 {
        0
    } else {
        sum_centres2(ws.drop_last(), vertical) + 2 * axis_pos(ws.last(), vertical) + axis_size(ws.last(), vertical)
    }
}

/// Sets the start coordinate to `target`.
pub open spec fn start_fn(target: int, vertical: bool) -> spec_fn(WidgetView, int) -> WidgetView {
    |w: WidgetView, i: int| with_axis_pos(w, vertical, target)
}

/// Sets the start coordinate so that the widget ends at `target`.
pub open spec fn end_fn(target: int, vertical: bool) -> spec_fn(WidgetView, int) -> WidgetView {
    |w: WidgetView, i: int| with_axis_pos(w, vertical, target - axis_size(w, vertical))
}

/// Centres the widget on the mean of `n` centres whose doubled sum is `s2`, to the nearest
/// tenth.
pub open spec fn centre_fn(s2: int, n: int, vertical: bool) -> spec_fn(WidgetView, int) -> WidgetView {
    |w: WidgetView, i: int| with_axis_pos(w, vertical, round_div(s2 - n * axis_size(w, vertical), 2 * n))
}

/// Sets the extent to `target`.
pub open spec fn size_fn(target: int, vertical: bool) -> spec_fn(WidgetView, int) -> WidgetView {
    |w: WidgetView, i: int| with_axis_size(w, vertical, target)
}

/// The widgets after aligning the starts of the selected ones on the smallest start.
/// Fewer than two selected ids leave everything as it is.
pub open spec fn aligned_start(ws: Seq<WidgetView>, sel: Seq<WidgetId>, vertical: bool) -> Seq<WidgetView> {
    if sel.len() < 2 {
        ws
    } else {
        sel_fold(ws, sel, start_fn(min_start(sel_found(ws, sel), vertical), vertical))
    }
}

/// The widgets after aligning the ends of the selected ones on the largest end.
pub open spec fn aligned_end(ws: Seq<WidgetView>, sel: Seq<WidgetId>, vertical: bool) -> Seq<WidgetView> {
    if sel.len() < 2 {
        ws
    } else {
        sel_fold(ws, sel, end_fn(max_end(sel_found(ws, sel), vertical), vertical))
    }
}

/// The widgets after centring the selected ones on the mean of their centres.
pub open spec fn aligned_centre(ws: Seq<WidgetView>, sel: Seq<WidgetId>, vertical: bool) -> Seq<WidgetView> {
    if sel.len() < 2 {
        ws
    } else {
        let found = sel_found(ws, sel);
        sel_fold(ws, sel, centre_fn(sum_centres2(found, vertical), found.len() as int, vertical))
    }
}

/// The extent that "match size" copies: that of the first selected widget, else the
/// fallback (100 points wide, 30 points high).
pub open spec fn match_target(ws: Seq<WidgetView>, sel: Seq<WidgetId>, vertical: bool) -> int {
    match find_first(ws, sel[0]) {
        Some(j) => axis_size(ws[j], vertical),
        None => if vertical { 300 } else { 1000 },
    }
}

/// The widgets after giving every selected one the extent of the first selected.
pub open spec fn matched_size(ws: Seq<WidgetView>, sel: Seq<WidgetId>, vertical: bool) -> Seq<WidgetView> {
    if sel.len() < 2 {
        ws
    } else {
        sel_fold(ws, sel, size_fn(match_target(ws, sel, vertical), vertical))
    }
}

/// One adjustment applied to each selected widget.
enum Adjust {
    /// Start at the given coordinate.
    Start(i64),
    /// End at the given coordinate.
    End(i64),
    /// Centre on the mean of `n` centres whose doubled sum is given: `(sum, n)`.
    Centre(i128, i128),
    /// Take the given extent.
    Size(i64),
}

spec fn adjust_fn(a: Adjust, vertical: bool) -> spec_fn(WidgetView, int) -> WidgetView {
    match a {
        Adjust::Start(t) => start_fn(t as int, vertical),
        Adjust::End(t) => end_fn(t as int, vertical),
        Adjust::Centre(s2, n) => centre_fn(s2 as int, n as int, vertical),
        Adjust::Size(t) => size_fn(t as int, vertical),
    }
}

/// The bounds under which an adjustment is computed without overflow.
spec fn adjust_ok(a: Adjust) -> bool {
    match a {
        Adjust::Start(t) => -4 * COORD_LIMIT <= t <= 4 * COORD_LIMIT,
        Adjust::End(t) => -4 * COORD_LIMIT <= t <= 4 * COORD_LIMIT,
        Adjust::Centre(s2, n) => 0 < n <= 0x1_0000_0000_0000_0000 && -n * 3 * COORD_LIMIT <= s2 <= n * 3 * COORD_LIMIT,
        Adjust::Size(t) => -COORD_LIMIT <= t <= COORD_LIMIT,
    }
}

/// The new coordinate or extent that `a` gives the widget `w`.
fn adjusted_value(w: &crate::widget::Widget, a: &Adjust, vertical: bool) -> (r: i64)
    requires
        widget_ok(w@),
        adjust_ok(*a),
    ensures
        ({
            let f = adjust_fn(*a, vertical);
            let nw = f(w@, 0);
            if a is Size { r == axis_size(nw, vertical) } else { r == axis_pos(nw, vertical) }
        }),
{
    let size: i64 = if vertical { w.size.y } else { w.size.x };
    match a {
        Adjust::Start(t) => clamp_coord_exec(*t as i128),
        Adjust::End(t) => clamp_coord_exec(*t as i128 - size as i128),
        Adjust::Centre(s2, n) => {
            let s2: i128 = *s2;
            let n: i128 = *n;
            assert(-n * COORD_LIMIT <= n * size <= n * COORD_LIMIT) by (nonlinear_arith)
                requires 0 < n, -COORD_LIMIT <= size <= COORD_LIMIT;
            assert(n * COORD_LIMIT <= 0x1_0000_0000_0000_0000 * COORD_LIMIT) by (nonlinear_arith)
                requires 0 < n <= 0x1_0000_0000_0000_0000;
            let num: i128 = s2 - n * size as i128;
            let q = round_div_exec(num, 2 * n);
            clamp_coord_exec(q)
        },
        Adjust::Size(t) => clamp_coord_exec(*t as i128),
    }
}

/// One more selected id adds its first widget, if it has one.
proof fn lemma_sel_found_step(ws: Seq<WidgetView>, sel: Seq<WidgetId>, i: int)
    requires
        0 <= i < sel.len(),
    ensures
        sel_found(ws, sel.take(i + 1)) == match find_first(ws, sel[i]) {
            Some(j) => sel_found(ws, sel.take(i)).push(ws[j]),
            None => sel_found(ws, sel.take(i)),
        },
{
    let t = sel.take(i + 1);
    assert(t.drop_last() =~= sel.take(i));
    assert(t.last() == sel[i]);
}

impl Editor {
    /// Applies `a` to the first widget of each selected id, in selection order.
    fn apply_adjust(&mut self, a: Adjust, vertical: bool)
        requires
            old(self).wf(),
            adjust_ok(a),
        ensures
            final(self).wf(),
            final(self).same_but_widgets(&*old(self)),
            final(self).widgets() == sel_fold(old(self).widgets(), old(self).selected@, adjust_fn(a, vertical)),
    {
        let ghost ws0 = self.widgets();
        let ghost f = adjust_fn(a, vertical);
        let mut i: usize = 0;
        assert(self.selected@.take(0) =~= Seq::<WidgetId>::empty());
        while i < self.selected.len()
            invariant
                i <= self.selected@.len(),
                self.wf(),
                self.same_but_widgets(&*old(self)),
                ws0 == old(self).widgets(),
                adjust_ok(a),
                f == adjust_fn(a, vertical),
                self.widgets() == sel_fold(ws0, self.selected@.take(i as int), f),
            decreases self.selected@.len() - i,
        {
            let ghost cur = self.widgets();
            let ghost t = self.selected@.take(i as int + 1);
            assert(t.drop_last() =~= self.selected@.take(i as int));
            let id = self.selected[i];
            proof {
                lemma_find_first(cur, id);
            }
            match self.index_of(id) {
                Some(j) => {
                    assert(widget_ok(cur[j as int]));
                    let v = adjusted_value(&self.project.widgets[j], &a, vertical);
                    let is_size = match a {
                        Adjust::Size(_) => true,
                        _ => false,
                    };
                    if is_size {
                        if vertical {
                            self.project.widgets[j].size.y = v;
                        } else {
                            self.project.widgets[j].size.x = v;
                        }
                    } else {
                        if vertical {
                            self.project.widgets[j].pos.y = v;
                        } else {
                            self.project.widgets[j].pos.x = v;
                        }
                    }
                    assert(self.widgets()[j as int] == f(cur[j as int], i as int));
                    assert(self.widgets() =~= cur.update(j as int, f(cur[j as int], i as int)));
                    assert forall|k: int| 0 <= k < self.widgets().len() implies widget_ok(#[trigger] self.widgets()[k]) by {
                        if k != j {
                            assert(self.widgets()[k] == cur[k]);
                        }
                    }
                },
                None => {},
            }
            i = i + 1;
        }
        assert(self.selected@.take(self.selected@.len() as int) =~= self.selected@);
    }
}

/// When no selected id has a widget, a selection operation changes nothing.
proof fn lemma_sel_fold_none_found(ws: Seq<WidgetView>, sel: Seq<WidgetId>, f: spec_fn(WidgetView, int) -> WidgetView)
    requires
        sel_found(ws, sel).len() == 0,
    ensures
        sel_fold(ws, sel, f) == ws,
    decreases sel.len(),
{
    if sel.len() > 0 {
        let d = sel_found(ws, sel.drop_last());
        match find_first(ws, sel.last()) {
            Some(j) => {
                assert(sel_found(ws, sel).len() == d.len() + 1);
            },
            None => {},
        }
        lemma_sel_fold_none_found(ws, sel.drop_last(), f);
    }
}

impl Editor {
    /// The count, smallest start, largest end and doubled-centre sum of the selected widgets.
    #[verifier::rlimit(30)]
    fn found_stats(&self, vertical: bool) -> (r: (usize, i64, i64, i128))
        requires
            self.wf(),
        ensures
            ({
                let found = sel_found(self.widgets(), self.selected@);
                &&& r.0 == found.len()
                &&& r.1 == min_start(found, vertical)
                &&& r.2 == max_end(found, vertical)
                &&& r.3 == sum_centres2(found, vertical)
                &&& -COORD_LIMIT <= r.1 <= COORD_LIMIT
                &&& -2 * COORD_LIMIT <= r.2 <= 2 * COORD_LIMIT
                &&& -r.0 * 3 * COORD_LIMIT <= r.3 <= r.0 * 3 * COORD_LIMIT
            }),
    {
        let ghost ws = self.widgets();
        let ghost sel = self.selected@;
        let mut cnt: usize = 0;
        let mut mn: i64 = 0;
        let mut mx: i64 = 0;
        let mut s2: i128 = 0;
        let mut i: usize = 0;
        assert(sel.take(0) =~= Seq::<WidgetId>::empty());
        while i < self.selected.len()
            invariant
                i <= sel.len(),
                ws == self.widgets(),
                sel == self.selected@,
                self.wf(),
                cnt <= i,
                ({
                    let found = sel_found(ws, sel.take(i as int));
                    &&& cnt == found.len()
                    &&& mn == min_start(found, vertical)
                    &&& mx == max_end(found, vertical)
                    &&& s2 == sum_centres2(found, vertical)
                }),
                -COORD_LIMIT <= mn <= COORD_LIMIT,
                -2 * COORD_LIMIT <= mx <= 2 * COORD_LIMIT,
                -cnt * 3 * COORD_LIMIT <= s2 <= cnt * 3 * COORD_LIMIT,
            decreases sel.len() - i,
        {
            let ghost before = sel_found(ws, sel.take(i as int));
            proof {
                lemma_sel_found_step(ws, sel, i as int);
                lemma_find_first(ws, sel[i as int]);
            }
            match self.index_of(self.selected[i]) {
                Some(j) => {
                    let w = &self.project.widgets[j];
                    assert(widget_ok(ws[j as int]));
                    let p: i64 = if vertical { w.pos.y } else { w.pos.x };
                    let z: i64 = if vertical { w.size.y } else { w.size.x };
                    let e: i64 = p + z;
                    if cnt == 0 {
                        mn = p;
                        mx = e;
                    } else {
                        if p < mn {
                            mn = p;
                        }
                        if e > mx {
                            mx = e;
                        }
                    }
                    s2 = s2 + 2 * p as i128 + z as i128;
                    cnt = cnt + 1;
                    proof {
                        let after = before.push(ws[j as int]);
                        assert(after.drop_last() =~= before);
                        assert(after.last() == ws[j as int]);
                        if before.len() == 0 {
                            assert(after[0] == ws[j as int]);
                        }
                    }
                },
                None => {},
            }
            i = i + 1;
        }
        assert(sel.take(sel.len() as int) =~= sel);
        (cnt, mn, mx, s2)
    }

    fn align_start(&mut self, vertical: bool)
        requires
            old(self).wf(),
        ensures
            final(self).wf(),
            final(self).same_but_widgets(&*old(self)),
            final(self).widgets() == aligned_start(old(self).widgets(), old(self).selected@, vertical),
    {
        if self.selected.len() < 2 {
            return;
        }
        let (_, mn, _, _) = self.found_stats(vertical);
        self.apply_adjust(Adjust::Start(mn), vertical);
    }

    fn align_end(&mut self, vertical: bool)
        requires
            old(self).wf(),
        ensures
            final(self).wf(),
            final(self).same_but_widgets(&*old(self)),
            final(self).widgets() == aligned_end(old(self).widgets(), old(self).selected@, vertical),
    {
        if self.selected.len() < 2 {
            return;
        }
        let (_, _, mx, _) = self.found_stats(vertical);
        self.apply_adjust(Adjust::End(mx), vertical);
    }

    fn align_centre(&mut self, vertical: bool)
        requires
            old(self).wf(),
        ensures
            final(self).wf(),
            final(self).same_but_widgets(&*old(self)),
            final(self).widgets() == aligned_centre(old(self).widgets(), old(self).selected@, vertical),
    {
        if self.selected.len() < 2 {
            return;
        }
        let (n, _, _, s2) = self.found_stats(vertical);
        if n == 0 {
            proof {
                let found = sel_found(self.widgets(), self.selected@);
                lemma_sel_fold_none_found(self.widgets(), self.selected@, centre_fn(sum_centres2(found, vertical), 0, vertical));
            }
            return;
        }
        self.apply_adjust(Adjust::Centre(s2, n as i128), vertical);
    }

    fn match_size(&mut self, vertical: bool)
        requires
            old(self).wf(),
        ensures
            final(self).wf(),
            final(self).same_but_widgets(&*old(self)),
            final(self).widgets() == matched_size(old(self).widgets(), old(self).selected@, vertical),
    {
        if self.selected.len() < 2 {
            return;
        }
        let target: i64 = match self.index_of(self.selected[0]) {
            Some(j) => {
                proof {
                    lemma_find_first(self.widgets(), self.selected@[0]);
                    assert(widget_ok(self.widgets()[j as int]));
                }
                if vertical { self.project.widgets[j].size.y } else { self.project.widgets[j].size.x }
            },
            None => if vertical { 300 } else { 1000 },
        };
        self.apply_adjust(Adjust::Size(target), vertical);
    }

    /// Moves the selected widgets so that their left edges meet the leftmost one.
    pub fn align_left(&mut self)
        requires
            old(self).wf(),
        ensures
            final(self).wf(),
            final(self).same_but_widgets(&*old(self)),
            final(self).widgets() == aligned_start(old(self).widgets(), old(self).selected@, false),
    {
        self.align_start(false)
    }

    /// Moves the selected widgets so that their right edges meet the rightmost one.
    pub fn align_right(&mut self)
        requires
            old(self).wf(),
        ensures
            final(self).wf(),
            final(self).same_but_widgets(&*old(self)),
            final(self).widgets() == aligned_end(old(self).widgets(), old(self).selected@, false),
    {
        self.align_end(false)
    }

    /// Centres the selected widgets horizontally on the mean of their centres.
    pub fn align_center_h(&mut self)
        requires
            old(self).wf(),
        ensures
            final(self).wf(),
            final(self).same_but_widgets(&*old(self)),
            final(self).widgets() == aligned_centre(old(self).widgets(), old(self).selected@, false),
    {
        self.align_centre(false)
    }

    /// Moves the selected widgets so that their top edges meet the topmost one.
    pub fn align_top(&mut self)
        requires
            old(self).wf(),
        ensures
            final(self).wf(),
            final(self).same_but_widgets(&*old(self)),
            final(self).widgets() == aligned_start(old(self).widgets(), old(self).selected@, true),
    {
        self.align_start(true)
    }

    /// Moves the selected widgets so that their bottom edges meet the lowest one.
    pub fn align_bottom(&mut self)
        requires
            old(self).wf(),
        ensures
            final(self).wf(),
            final(self).same_but_widgets(&*old(self)),
            final(self).widgets() == aligned_end(old(self).widgets(), old(self).selected@, true),
    {
        self.align_end(true)
    }

    /// Centres the selected widgets vertically on the mean of their centres.
    pub fn align_center_v(&mut self)
        requires
            old(self).wf(),
        ensures
            final(self).wf(),
            final(self).same_but_widgets(&*old(self)),
            final(self).widgets() == aligned_centre(old(self).widgets(), old(self).selected@, true),
    {
        self.align_centre(true)
    }

    /// Gives every selected widget the width of the first selected one.
    pub fn match_width(&mut self)
        requires
            old(self).wf(),
        ensures
            final(self).wf(),
            final(self).same_but_widgets(&*old(self)),
            final(self).widgets() == matched_size(old(self).widgets(), old(self).selected@, false),
    {
        self.match_size(false)
    }

    /// Gives every selected widget the height of the first selected one.
    pub fn match_height(&mut self)
        requires
            old(self).wf(),
        ensures
            final(self).wf(),
            final(self).same_but_widgets(&*old(self)),
            final(self).widgets() == matched_size(old(self).widgets(), old(self).selected@, true),
    {
        self.match_size(true)
    }
}

/// The sort key of an axis: x for horizontal, y for vertical.
pub open spec fn axis_key(vertical: bool) -> SortKey {
    if vertical { SortKey::Top } else { SortKey::Left }
}

/// The sum of the extents of the widgets along one axis.
pub open spec fn sum_sizes(ws: Seq<WidgetView>, vertical: bool) -> int
    decreases ws.len(),
{
    if ws.len() == 0 {
        0
    } else {
        sum_sizes(ws.drop_last(), vertical) + axis_size(ws.last(), vertical)
    }
}

/// The free space between the first start and the last end of `e`, once the extents of all
/// its widgets are taken off.
pub open spec fn spread_gap(e: Seq<WidgetView>, vertical: bool) -> int {
    axis_pos(e.last(), vertical) + axis_size(e.last(), vertical) - axis_pos(e[0], vertical) - sum_sizes(e, vertical)
}

/// Where the `k`-th widget of `e` starts once the free space is shared out evenly: the first
/// start, the extents of the widgets before it, and `k` equal gaps, to the nearest tenth.
pub open spec fn spread_target(e: Seq<WidgetView>, vertical: bool, k: int) -> int {
    if k == 0 {
        axis_pos(e[0], vertical)
    } else {
        axis_pos(e[0], vertical) + sum_sizes(e.take(k), vertical) + round_div(k * spread_gap(e, vertical), e.len() - 1)
    }
}

/// Moves the `k`-th widget to its share of the free space.
pub open spec fn spread_fn(e: Seq<WidgetView>, vertical: bool) -> spec_fn(WidgetView, int) -> WidgetView {
    |w: WidgetView, k: int| with_axis_pos(w, vertical, spread_target(e, vertical, k))
}

/// The ids of a widget list.
pub open spec fn entry_ids(e: Seq<WidgetView>) -> Seq<WidgetId> {
    e.map_values(|w: WidgetView| w.id)
}

/// The widgets after spreading the selected ones evenly along one axis: they are taken in
/// order of their start, the first and the last keep their place, and the gaps between
/// neighbours become equal. Fewer than three selected ids leave everything as it is.
pub open spec fn distributed(ws: Seq<WidgetView>, sel: Seq<WidgetId>, vertical: bool) -> Seq<WidgetView> {
    if sel.len() < 3 {
        ws
    } else {
        let e = sorted_by(sel_found(ws, sel), axis_key(vertical));
        sel_fold(ws, entry_ids(e), spread_fn(e, vertical))
    }
}

/// `x / d` rounded, from the Euclidean quotient and remainder of `x` by `d`.
proof fn lemma_round_div_qr(x: int, d: int, q: int, r: int)
    requires
        d > 0,
        0 <= r < d,
        x == q * d + r,
    ensures
        round_div(x, d) == q + (if q >= 0 {
            if 2 * r >= d { 1int } else { 0 }
        } else {
            if 2 * r > d { 1int } else { 0 }
        }),
{
    let dd = 2 * d;
    if q >= 0 {
        assert(x >= 0) by (nonlinear_arith)
            requires x == q * d + r, q >= 0, d > 0, r >= 0;
        if 2 * r < d {
            assert(2 * x + d == q * dd + (2 * r + d)) by (nonlinear_arith)
                requires x == q * d + r, dd == 2 * d;
            vstd::arithmetic::div_mod::lemma_fundamental_div_mod_converse(2 * x + d, dd, q, 2 * r + d);
        } else {
            assert(2 * x + d == (q + 1) * dd + (2 * r - d)) by (nonlinear_arith)
                requires x == q * d + r, dd == 2 * d;
            vstd::arithmetic::div_mod::lemma_fundamental_div_mod_converse(2 * x + d, dd, q + 1, 2 * r - d);
        }
    } else {
        assert(x < 0) by (nonlinear_arith)
            requires x == q * d + r, q < 0, d > r, r >= 0;
        if 2 * r > d {
            assert(2 * (-x) + d == (-q - 1) * dd + (3 * d - 2 * r)) by (nonlinear_arith)
                requires x == q * d + r, dd == 2 * d;
            vstd::arithmetic::div_mod::lemma_fundamental_div_mod_converse(2 * (-x) + d, dd, -q - 1, 3 * d - 2 * r);
        } else {
            assert(2 * (-x) + d == (-q) * dd + (d - 2 * r)) by (nonlinear_arith)
                requires x == q * d + r, dd == 2 * d;
            vstd::arithmetic::div_mod::lemma_fundamental_div_mod_converse(2 * (-x) + d, dd, -q, d - 2 * r);
        }
    }
}

/// The quotient of `k * g` by `d` stays within twice `|g|` when `k <= d + 1`.
proof fn lemma_quotient_bound(k: int, g: int, d: int, q: int, r: int)
    requires
        d > 0,
        0 <= k <= d + 1,
        0 <= r < d,
        k * g == q * d + r,
    ensures
        -2 * (if g < 0 { -g } else { g }) - 1 <= q <= 2 * (if g < 0 { -g } else { g }) + 1,
{
    if g >= 0 {
        assert(k * g <= 2 * d * g) by (nonlinear_arith)
            requires 0 <= k <= d + 1, d > 0, g >= 0;
        assert(q <= 2 * g) by (nonlinear_arith)
            requires q * d + r <= 2 * d * g, r >= 0, d > 0;
        assert(k * g >= 0) by (nonlinear_arith)
            requires k >= 0, g >= 0;
        assert(q >= 0) by (nonlinear_arith)
            requires q * d + r == k * g, k * g >= 0, r < d, d > 0;
    } else {
        assert(k * g >= 2 * d * g) by (nonlinear_arith)
            requires 0 <= k <= d + 1, d > 0, g < 0;
        assert(q >= 2 * g) by (nonlinear_arith)
            requires q * d + r >= 2 * d * g, r < d, d > 0;
        assert(k * g <= 0) by (nonlinear_arith)
            requires k >= 0, g < 0;
        assert(q <= 0) by (nonlinear_arith)
            requires q * d + r == k * g, k * g <= 0, r >= 0, d > 0;
    }
}

impl Editor {
    /// Copies of the selected widgets, in selection order (see `sel_found`).
    fn found_widgets(&self) -> (r: Vec<Widget>)
        requires
            self.wf(),
        ensures
            widgets_view(r@) == sel_found(self.widgets(), self.selected@),
            forall|k: int| 0 <= k < r@.len() ==> widget_ok(#[trigger] r@[k]@),
    {
        let ghost ws = self.widgets();
        let ghost sel = self.selected@;
        let mut out: Vec<Widget> = Vec::new();
        let mut i: usize = 0;
        assert(sel.take(0) =~= Seq::<WidgetId>::empty());
        assert(widgets_view(out@) =~= Seq::<WidgetView>::empty());
        while i < self.selected.len()
            invariant
                i <= sel.len(),
                ws == self.widgets(),
                sel == self.selected@,
                self.wf(),
                widgets_view(out@) == sel_found(ws, sel.take(i as int)),
                forall|k: int| 0 <= k < out@.len() ==> widget_ok(#[trigger] out@[k]@),
            decreases sel.len() - i,
        {
            proof {
                lemma_sel_found_step(ws, sel, i as int);
                lemma_find_first(ws, sel[i as int]);
            }
            match self.index_of(self.selected[i]) {
                Some(j) => {
                    assert(widget_ok(ws[j as int]));
                    let w = self.project.widgets[j].clone();
                    let ghost before = out@;
                    out.push(w);
                    assert(widgets_view(out@) =~= widgets_view(before).push(w@));
                },
                None => {},
            }
            i = i + 1;
        }
        assert(sel.take(sel.len() as int) =~= sel);
        out
    }

    /// Spreads the selected widgets evenly along one axis (see `distributed`).
    #[verifier::rlimit(40)]
    fn distribute(&mut self, vertical: bool)
        requires
            old(self).wf(),
            old(self).selected@.len() >= 3 ==> sel_found(old(self).widgets(), old(self).selected@).len() > 0,
        ensures
            final(self).wf(),
            final(self).same_but_widgets(&*old(self)),
            final(self).widgets() == distributed(old(self).widgets(), old(self).selected@, vertical),
    {
        if self.selected.len() < 3 {
            return;
        }
        let ghost ws0 = self.widgets();
        let fw = self.found_widgets();
        let ghost fv = widgets_view(fw@);
        let key = if vertical { SortKey::Top } else { SortKey::Left };
        let e = sort_widgets(fw, key);
        let ghost ev = widgets_view(e@);
        proof {
            broadcast use vstd::seq_lib::group_to_multiset_ensures;

            lemma_sorted_by_multiset(fv, key);
            assert forall|k: int| 0 <= k < ev.len() implies widget_ok(#[trigger] ev[k]) by {
                assert(ev.contains(ev[k]));
                assert(ev.to_multiset().count(ev[k]) > 0);
                assert(fv.contains(ev[k]));
                let m = choose|m: int| 0 <= m < fv.len() && fv[m] == ev[k];
                assert(widget_ok(fw@[m]@));
            }
            assert(ev.to_multiset().len() == ev.len());
            assert(fv.to_multiset().len() == fv.len());
            assert(ev.len() == fv.len());
        }
        let n: usize = e.len();
        assert(widget_ok(ev[0]));
        assert(widget_ok(ev[n - 1]));
        let first: i64 = if vertical { e[0].pos.y } else { e[0].pos.x };
        let last_end: i64 = if vertical { e[n - 1].pos.y + e[n - 1].size.y } else { e[n - 1].pos.x + e[n - 1].size.x };
        let mut total: i128 = 0;
        let mut t: usize = 0;
        assert(ev.take(0) =~= Seq::<WidgetView>::empty());
        while t < n
            invariant
                t <= n,
                n == ev.len(),
                ev == widgets_view(e@),
                forall|k: int| 0 <= k < ev.len() ==> widget_ok(#[trigger] ev[k]),
                total == sum_sizes(ev.take(t as int), vertical),
                -t * COORD_LIMIT <= total <= t * COORD_LIMIT,
            decreases n - t,
        {
            assert(ev.take(t + 1).drop_last() =~= ev.take(t as int));
            assert(widget_ok(ev[t as int]));
            let z: i64 = if vertical { e[t].size.y } else { e[t].size.x };
            total = total + z as i128;
            t = t + 1;
        }
        assert(ev.take(n as int) =~= ev);
        let gap: i128 = last_end as i128 - first as i128 - total;
        assert(gap == spread_gap(ev, vertical));
        let ghost ag: int = if gap < 0 { -gap } else { gap as int };
        let d: i128 = n as i128 - 1;
        let mut gq: i128 = 0;
        let mut gr: i128 = 0;
        if d > 0 {
            if gap >= 0 {
                gq = gap / d;
                gr = gap % d;
                proof {
                    vstd::arithmetic::div_mod::lemma_fundamental_div_mod(gap as int, d as int);
                    vstd::arithmetic::div_mod::lemma_mod_pos_bound(gap as int, d as int);
                    assert(0 <= gq <= gap) by (nonlinear_arith)
                        requires gap == d * gq + gr, 0 <= gr < d, d > 0, gap >= 0;
                    assert(gap == gq * d + gr) by (nonlinear_arith)
                        requires gap == d * gq + gr;
                }
            } else {
                let a: i128 = -gap;
                let aq: i128 = a / d;
                let ar: i128 = a % d;
                proof {
                    vstd::arithmetic::div_mod::lemma_fundamental_div_mod(a as int, d as int);
                    vstd::arithmetic::div_mod::lemma_mod_pos_bound(a as int, d as int);
                    assert(0 <= aq <= a) by (nonlinear_arith)
                        requires a == d * aq + ar, 0 <= ar < d, d > 0, a > 0;
                }
                if ar == 0 {
                    gq = -aq;
                    gr = 0;
                    assert(gap == gq * d + gr) by (nonlinear_arith)
                        requires a == d * aq + ar, ar == 0, gap == -a, gq == -aq, gr == 0;
                } else {
                    gq = -aq - 1;
                    gr = d - ar;
                    assert(gap == gq * d + gr) by (nonlinear_arith)
                        requires a == d * aq + ar, gap == -a, gq == -aq - 1, gr == d - ar;
                }
            }
        }
        let ghost ids = entry_ids(ev);
        let ghost f = spread_fn(ev, vertical);
        let mut acc: i128 = first as i128;
        let mut q: i128 = 0;
        let mut r: i128 = 0;
        let mut k: usize = 0;
        assert(ids.take(0) =~= Seq::<WidgetId>::empty());
        while k < n
            invariant
                k <= n,
                n == ev.len(),
                n > 0,
                ev == widgets_view(e@),
                forall|i: int| 0 <= i < ev.len() ==> widget_ok(#[trigger] ev[i]),
                first == axis_pos(ev[0], vertical),
                gap == spread_gap(ev, vertical),
                ag == (if gap < 0 { -gap } else { gap as int }),
                ag <= (n + 3) * COORD_LIMIT,
                d == n - 1,
                d > 0 ==> gap == gq * d + gr && 0 <= gr < d && -ag - 1 <= gq <= ag + 1,
                acc == first + sum_sizes(ev.take(k as int), vertical),
                -(k + 1) * COORD_LIMIT <= acc <= (k + 1) * COORD_LIMIT,
                d > 0 ==> k * gap == q * d + r && 0 <= r < d,
                -2 * ag - 1 <= q <= 2 * ag + 1,
                self.wf(),
                self.same_but_widgets(&*old(self)),
                ws0 == old(self).widgets(),
                ids == entry_ids(ev),
                f == spread_fn(ev, vertical),
                self.widgets() == sel_fold(ws0, ids.take(k as int), f),
            decreases n - k,
        {
            let target: i128 = if k == 0 {
                first as i128
            } else {
                let adj: i128 = if q >= 0 {
                    if 2 * r >= d { 1 } else { 0 }
                } else {
                    if 2 * r > d { 1 } else { 0 }
                };
                acc + q + adj
            };
            proof {
                if k > 0 {
                    lemma_round_div_qr(k * gap, d as int, q as int, r as int);
                }
            }
            assert(target == spread_target(ev, vertical, k as int));
            let v = clamp_coord_exec(target);
            let ghost cur = self.widgets();
            let ghost tk = ids.take(k as int + 1);
            assert(tk.drop_last() =~= ids.take(k as int));
            assert(tk.last() == ev[k as int].id);
            let id = e[k].id;
            proof {
                lemma_find_first(cur, id);
            }
            match self.index_of(id) {
                Some(j) => {
                    if vertical {
                        self.project.widgets[j].pos.y = v;
                    } else {
                        self.project.widgets[j].pos.x = v;
                    }
                    assert(self.widgets()[j as int] == f(cur[j as int], k as int));
                    assert(self.widgets() =~= cur.update(j as int, f(cur[j as int], k as int)));
                    assert forall|i: int| 0 <= i < self.widgets().len() implies widget_ok(#[trigger] self.widgets()[i]) by {
                        if i != j {
                            assert(self.widgets()[i] == cur[i]);
                        }
                    }
                },
                None => {},
            }
            assert(widget_ok(ev[k as int]));
            let z: i64 = if vertical { e[k].size.y } else { e[k].size.x };
            assert(ev.take(k + 1).drop_last() =~= ev.take(k as int));
            acc = acc + z as i128;
            if d > 0 {
                let ghost q0 = q;
                let ghost r0 = r;
                q = q + gq;
                r = r + gr;
                if r >= d {
                    r = r - d;
                    q = q + 1;
                }
                proof {
                    assert((k + 1) * gap == q * d + r) by (nonlinear_arith)
                        requires
                            k * gap == q0 * d + r0,
                            gap == gq * d + gr,
                            (q == q0 + gq && r == r0 + gr) || (q == q0 + gq + 1 && r == r0 + gr - d);
                    lemma_quotient_bound(k + 1, gap as int, d as int, q as int, r as int);
                }
            }
            k = k + 1;
        }
        assert(ids.take(n as int) =~= ids);
    }

    /// Spreads the selected widgets evenly across: ordered by x, the leftmost and the
    /// rightmost stay, and the horizontal gaps between neighbours become equal.
    pub fn distribute_horizontal(&mut self)
        requires
            old(self).wf(),
            old(self).selected@.len() >= 3 ==> sel_found(old(self).widgets(), old(self).selected@).len() > 0,
        ensures
            final(self).wf(),
            final(self).same_but_widgets(&*old(self)),
            final(self).widgets() == distributed(old(self).widgets(), old(self).selected@, false),
    {
        self.distribute(false)
    }

    /// Spreads the selected widgets evenly downwards: ordered by y, the top and the bottom
    /// ones stay, and the vertical gaps between neighbours become equal.
    pub fn distribute_vertical(&mut self)
        requires
            old(self).wf(),
            old(self).selected@.len() >= 3 ==> sel_found(old(self).widgets(), old(self).selected@).len() > 0,
        ensures
            final(self).wf(),
            final(self).same_but_widgets(&*old(self)),
            final(self).widgets() == distributed(old(self).widgets(), old(self).selected@, true),
    {
        self.distribute(true)
    }
}

/// The selected widgets are widgets of the canvas, so they lie in the coordinate range.
proof fn lemma_sel_found_ok(ws: Seq<WidgetView>, sel: Seq<WidgetId>)
    requires
        forall|k: int| 0 <= k < ws.len() ==> widget_ok(#[trigger] ws[k]),
    ensures
        forall|k: int| 0 <= k < sel_found(ws, sel).len() ==> widget_ok(#[trigger] sel_found(ws, sel)[k]),
    decreases sel.len(),
{
    if sel.len() > 0 {
        lemma_sel_found_ok(ws, sel.drop_last());
        lemma_find_first(ws, sel.last());
        let f0 = sel_found(ws, sel.drop_last());
        let r = sel_found(ws, sel);
        match find_first(ws, sel.last()) {
            Some(j) => {
                assert(widget_ok(ws[j]));
                assert forall|k: int| 0 <= k < r.len() implies widget_ok(#[trigger] r[k]) by {
                    if k < f0.len() {
                        assert(r[k] == f0[k]);
                    }
                }
            },
            None => {},
        }
    }
}

/// The smallest start of widgets in the coordinate range is in the range.
proof fn lemma_min_start_range(ws: Seq<WidgetView>, vertical: bool)
    requires
        forall|k: int| 0 <= k < ws.len() ==> widget_ok(#[trigger] ws[k]),
    ensures
        -COORD_LIMIT <= min_start(ws, vertical) <= COORD_LIMIT,
    decreases ws.len(),
{
    if ws.len() > 1 {
        lemma_min_start_range(ws.drop_last(), vertical);
        assert(widget_ok(ws[ws.len() - 1]));
    } else if ws.len() == 1 {
        assert(widget_ok(ws[0]));
    }
}

/// The smallest start of a non-empty list is at most the start of every widget in it and is
/// the start of one of them.
pub proof fn lemma_min_start_is_least(ws: Seq<WidgetView>, vertical: bool)
    requires
        ws.len() > 0,
    ensures
        forall|k: int| 0 <= k < ws.len() ==> min_start(ws, vertical) <= #[trigger] axis_pos(ws[k], vertical),
        exists|k: int| 0 <= k < ws.len() && min_start(ws, vertical) == #[trigger] axis_pos(ws[k], vertical),
    decreases ws.len(),
{
    if ws.len() == 1 {
        assert(min_start(ws, vertical) == axis_pos(ws[0], vertical));
    } else {
        let d = ws.drop_last();
        lemma_min_start_is_least(d, vertical);
        assert forall|k: int| 0 <= k < ws.len() implies min_start(ws, vertical) <= #[trigger] axis_pos(ws[k], vertical) by {
            if k < ws.len() - 1 {
                assert(d[k] == ws[k]);
                assert(min_start(d, vertical) <= axis_pos(d[k], vertical));
            }
        }
        let j = choose|j: int| 0 <= j < d.len() && min_start(d, vertical) == #[trigger] axis_pos(d[j], vertical);
        assert(d[j] == ws[j]);
        if axis_pos(ws.last(), vertical) < min_start(d, vertical) {
            assert(min_start(ws, vertical) == axis_pos(ws[ws.len() - 1], vertical));
        } else {
            assert(min_start(ws, vertical) == axis_pos(ws[j], vertical));
        }
    }
}

/// The largest end of a non-empty list is at least the end (start plus extent) of every
/// widget in it and is the end of one of them.
pub proof fn lemma_max_end_is_greatest(ws: Seq<WidgetView>, vertical: bool)
    requires
        ws.len() > 0,
    ensures
        forall|k: int| 0 <= k < ws.len() ==> #[trigger] axis_pos(ws[k], vertical) + axis_size(ws[k], vertical)
            <= max_end(ws, vertical),
        exists|k: int| 0 <= k < ws.len() && max_end(ws, vertical) == #[trigger] axis_pos(ws[k], vertical)
            + axis_size(ws[k], vertical),
    decreases ws.len(),
{
    if ws.len() == 1 {
        assert(max_end(ws, vertical) == axis_pos(ws[0], vertical) + axis_size(ws[0], vertical));
    } else {
        let d = ws.drop_last();
        lemma_max_end_is_greatest(d, vertical);
        assert forall|k: int| 0 <= k < ws.len() implies #[trigger] axis_pos(ws[k], vertical) + axis_size(ws[k], vertical)
            <= max_end(ws, vertical) by {
            if k < ws.len() - 1 {
                assert(d[k] == ws[k]);
                assert(axis_pos(d[k], vertical) + axis_size(d[k], vertical) <= max_end(d, vertical));
            }
        }
        let j = choose|j: int| 0 <= j < d.len() && max_end(d, vertical) == #[trigger] axis_pos(d[j], vertical)
            + axis_size(d[j], vertical);
        assert(d[j] == ws[j]);
        let l = ws.len() - 1;
        if axis_pos(ws.last(), vertical) + axis_size(ws.last(), vertical) > max_end(d, vertical) {
            assert(max_end(ws, vertical) == axis_pos(ws[l], vertical) + axis_size(ws[l], vertical));
        } else {
            assert(max_end(ws, vertical) == axis_pos(ws[j], vertical) + axis_size(ws[j], vertical));
        }
    }
}

/// Aligning the starts (left or top edges) gives the first widget of every selected id the
/// smallest start among the selected widgets.
pub proof fn lemma_aligned_start_meets(ws: Seq<WidgetView>, sel: Seq<WidgetId>, vertical: bool, id: WidgetId)
    requires
        forall|k: int| 0 <= k < ws.len() ==> widget_ok(#[trigger] ws[k]),
        sel.len() >= 2,
        sel.contains(id),
        find_first(ws, id) is Some,
    ensures
        axis_pos(aligned_start(ws, sel, vertical)[find_first(ws, id)->0], vertical)
            == min_start(sel_found(ws, sel), vertical),
{
    let m = min_start(sel_found(ws, sel), vertical);
    lemma_sel_found_ok(ws, sel);
    lemma_min_start_range(sel_found(ws, sel), vertical);
    let f = start_fn(m, vertical);
    let p = |w: WidgetView| axis_pos(w, vertical) == m;
    assert(keeps_id(f));
    assert forall|w: WidgetView, i: int| #[trigger] p(f(w, i)) by {}
    lemma_sel_fold_sets(ws, sel, f, p, id);
}

/// Aligning the ends (right or bottom edges) puts the end of the first widget of every
/// selected id at the largest end among the selected widgets (as far as the coordinate range
/// allows).
pub proof fn lemma_aligned_end_meets(ws: Seq<WidgetView>, sel: Seq<WidgetId>, vertical: bool, id: WidgetId)
    requires
        sel.len() >= 2,
        sel.contains(id),
        find_first(ws, id) is Some,
    ensures
        ({
            let w = aligned_end(ws, sel, vertical)[find_first(ws, id)->0];
            axis_pos(w, vertical) == clamp_coord(max_end(sel_found(ws, sel), vertical) - axis_size(w, vertical))
        }),
{
    let m = max_end(sel_found(ws, sel), vertical);
    let f = end_fn(m, vertical);
    let p = |w: WidgetView| axis_pos(w, vertical) == clamp_coord(m - axis_size(w, vertical));
    assert(keeps_id(f));
    assert forall|w: WidgetView, i: int| #[trigger] p(f(w, i)) by {}
    lemma_sel_fold_sets(ws, sel, f, p, id);
}

/// The selected widgets include the first widget of every selected id that is on the canvas.
proof fn lemma_sel_found_has(ws: Seq<WidgetView>, sel: Seq<WidgetId>, id: WidgetId)
    requires
        sel.contains(id),
        find_first(ws, id) is Some,
    ensures
        sel_found(ws, sel).contains(ws[find_first(ws, id)->0]),
    decreases sel.len(),
{
    let d = sel.drop_last();
    let f = sel_found(ws, d);
    if sel.last() == id {
        assert(sel_found(ws, sel) == f.push(ws[find_first(ws, id)->0]));
        assert(sel_found(ws, sel)[f.len() as int] == ws[find_first(ws, id)->0]);
    } else {
        let i = choose|i: int| 0 <= i < sel.len() && sel[i] == id;
        assert(i < sel.len() - 1);
        assert(d[i] == id);
        lemma_sel_found_has(ws, d, id);
        let k = choose|k: int| 0 <= k < f.len() && f[k] == ws[find_first(ws, id)->0];
        match find_first(ws, sel.last()) {
            Some(j) => {
                assert(sel_found(ws, sel)[k] == f[k]);
            },
            None => {},
        }
    }
}

/// Aligning the left (or top) edges puts every selected widget's start on the smallest
/// start among the selected widgets before the call: a start that no selected widget was
/// left of, and that one of them had.
pub proof fn lemma_aligned_start_on_leftmost(ws: Seq<WidgetView>, sel: Seq<WidgetId>, vertical: bool, id: WidgetId)
    requires
        forall|k: int| 0 <= k < ws.len() ==> widget_ok(#[trigger] ws[k]),
        sel.len() >= 2,
        sel.contains(id),
        find_first(ws, id) is Some,
    ensures
        ({
            let found = sel_found(ws, sel);
            let m = axis_pos(aligned_start(ws, sel, vertical)[find_first(ws, id)->0], vertical);
            &&& found.contains(ws[find_first(ws, id)->0])
            &&& forall|k: int| 0 <= k < found.len() ==> m <= #[trigger] axis_pos(found[k], vertical)
            &&& exists|k: int| 0 <= k < found.len() && m == #[trigger] axis_pos(found[k], vertical)
        }),
{
    lemma_sel_found_has(ws, sel, id);
    lemma_aligned_start_meets(ws, sel, vertical, id);
    lemma_min_start_is_least(sel_found(ws, sel), vertical);
}

/// Aligning the right (or bottom) edges puts every selected widget's end on the largest end
/// among the selected widgets before the call (an end that no selected widget went past, and
/// that one of them had), as far as the coordinate range lets its start follow.
pub proof fn lemma_aligned_end_on_rightmost(ws: Seq<WidgetView>, sel: Seq<WidgetId>, vertical: bool, id: WidgetId)
    requires
        sel.len() >= 2,
        sel.contains(id),
        find_first(ws, id) is Some,
    ensures
        ({
            let found = sel_found(ws, sel);
            let m = max_end(found, vertical);
            let w = aligned_end(ws, sel, vertical)[find_first(ws, id)->0];
            &&& found.contains(ws[find_first(ws, id)->0])
            &&& forall|k: int| 0 <= k < found.len() ==> #[trigger] axis_pos(found[k], vertical) + axis_size(found[k], vertical) <= m
            &&& exists|k: int| 0 <= k < found.len() && m == #[trigger] axis_pos(found[k], vertical) + axis_size(found[k], vertical)
            &&& -COORD_LIMIT <= m - axis_size(w, vertical) <= COORD_LIMIT ==> axis_pos(w, vertical) + axis_size(w, vertical) == m
        }),
{
    lemma_sel_found_has(ws, sel, id);
    lemma_aligned_end_meets(ws, sel, vertical, id);
    lemma_max_end_is_greatest(sel_found(ws, sel), vertical);
}

/// Matching sizes gives the first widget of every selected id the extent of the first
/// selected widget.
pub proof fn lemma_matched_size_meets(ws: Seq<WidgetView>, sel: Seq<WidgetId>, vertical: bool, id: WidgetId)
    requires
        forall|k: int| 0 <= k < ws.len() ==> widget_ok(#[trigger] ws[k]),
        sel.len() >= 2,
        sel.contains(id),
        find_first(ws, id) is Some,
    ensures
        axis_size(matched_size(ws, sel, vertical)[find_first(ws, id)->0], vertical) == match_target(ws, sel, vertical),
{
    let t = match_target(ws, sel, vertical);
    lemma_find_first(ws, sel[0]);
    match find_first(ws, sel[0]) {
        Some(j) => {
            assert(widget_ok(ws[j]));
        },
        None => {},
    }
    let f = size_fn(t, vertical);
    let p = |w: WidgetView| axis_size(w, vertical) == t;
    assert(keeps_id(f));
    assert forall|w: WidgetView, i: int| #[trigger] p(f(w, i)) by {}
    lemma_sel_fold_sets(ws, sel, f, p, id);
}

/// Spreading keeps the first widget and the last widget where they are: the first starts at
/// its own start and the last at its own start.
pub proof fn lemma_spread_keeps_ends(e: Seq<WidgetView>, vertical: bool)
    requires
        e.len() >= 2,
    ensures
        spread_target(e, vertical, 0) == axis_pos(e[0], vertical),
        spread_target(e, vertical, e.len() - 1) == axis_pos(e[e.len() - 1], vertical),
{
    let d = e.len() - 1;
    let g = spread_gap(e, vertical);
    assert(d * g == g * d + 0) by (nonlinear_arith);
    lemma_round_div_qr(d * g, d, g, 0);
    assert(e.take(e.len() as int) =~= e);
    assert(e.take(d).len() == d);
    assert(e.drop_last() =~= e.take(d));
}

/// `round_div(x, d)` is within half of `d` of the exact quotient: `d * round_div(x, d)` differs
/// from `x` by at most `d / 2`.
proof fn lemma_round_div_close(x: int, d: int)
    requires
        d > 0,
    ensures
        -d <= 2 * (d * round_div(x, d) - x) <= d,
{
    let q = x / d;
    let r = x % d;
    vstd::arithmetic::div_mod::lemma_fundamental_div_mod(x, d);
    vstd::arithmetic::div_mod::lemma_mod_bound(x, d);
    assert(x == q * d + r) by (nonlinear_arith)
        requires x == d * q + r;
    lemma_round_div_qr(x, d, q, r);
    let c = round_div(x, d) - q;
    assert(d * round_div(x, d) - x == d * c - r) by (nonlinear_arith)
        requires x == q * d + r, c == round_div(x, d) - q;
    if c == 0 {
        assert(d * c == 0);
    } else {
        assert(c == 1);
        assert(d * c == d) by (nonlinear_arith)
            requires c == 1;
    }
}

/// Spreading makes the gaps between neighbours equal to within a tenth: `d` times the gap
/// after the `k`-th widget differs from the total free space by at most `d`, where `d + 1`
/// widgets are spread.
pub proof fn lemma_spread_gaps_even(e: Seq<WidgetView>, vertical: bool, k: int)
    requires
        e.len() >= 2,
        0 <= k < e.len() - 1,
    ensures
        ({
            let d = e.len() - 1;
            let gap_k = spread_target(e, vertical, k + 1) - spread_target(e, vertical, k) - axis_size(e[k], vertical);
            -d <= d * gap_k - spread_gap(e, vertical) <= d
        }),
{
    let d = e.len() - 1;
    let g = spread_gap(e, vertical);
    assert(e.take(k + 1).drop_last() =~= e.take(k));
    assert(e.take(k + 1).last() == e[k]);
    lemma_round_div_close((k + 1) * g, d);
    lemma_round_div_close(k * g, d);
    if k == 0 {
        assert(0 * g == 0 * d + 0) by (nonlinear_arith);
        lemma_round_div_qr(0, d, 0, 0);
        assert(e.take(0) =~= Seq::<WidgetView>::empty());
    }
    let a = round_div((k + 1) * g, d);
    let b = round_div(k * g, d);
    assert(sum_sizes(e.take(k + 1), vertical) == sum_sizes(e.take(k), vertical) + axis_size(e[k], vertical));
    let gap_k = spread_target(e, vertical, k + 1) - spread_target(e, vertical, k) - axis_size(e[k], vertical);
    assert(gap_k == a - b);
    assert(d * gap_k - g == (d * a - (k + 1) * g) - (d * b - k * g)) by (nonlinear_arith)
        requires gap_k == a - b;
}

} // verus!
