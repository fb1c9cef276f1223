//! Stable sorting of widgets by draw order or by position.
use vstd::prelude::*;
use crate::widget::{Widget, WidgetView, widgets_view};

verus! {

/// What widgets are sorted by.
#[derive(Clone, Copy, Debug, PartialEq, Eq, Structural)]
pub enum SortKey {
    /// The draw order.
    Depth,
    /// The x coordinate.
    Left,
    /// The y coordinate.
    Top,
}

/// The value a widget is sorted by.
pub open spec fn key_of(key: SortKey, w: WidgetView) -> int {
    match key {
        SortKey::Depth => w.z as int,
        SortKey::Left => w.pos.x as int,
        SortKey::Top => w.pos.y as int,
    }
}

/// `w` inserted into `s` after the last widget whose key is not above that of `w`.
pub open spec fn insert_by(s: Seq<WidgetView>, w: WidgetView, key: SortKey) -> Seq<WidgetView>
    decreases s.len(),
{
    if s.len() == 0 {
        seq![w]
    } else if key_of(key, s.last()) <= key_of(key, w) {
        s.push(w)
    } else {
        insert_by(s.drop_last(), w, key).push(s.last())
    }
}

/// `ws` sorted by `key`, widgets with equal keys keeping their order (a stable sort).
pub open spec fn sorted_by(ws: Seq<WidgetView>, key: SortKey) -> Seq<WidgetView>
    decreases ws.len(),
{
    if ws.len() == 0 {
        ws
    } else {
        insert_by(sorted_by(ws.drop_last(), key), ws.last(), key)
    }
}

/// Whether `s` is in non-decreasing order of `key`.
pub open spec fn is_sorted_by(s: Seq<WidgetView>, key: SortKey) -> bool {
    forall|i: int, j: int| 0 <= i <= j < s.len() ==> key_of(key, #[trigger] s[i]) <= key_of(key, #[trigger] s[j])
}

/// Inserting adds `w` and keeps every other widget.
pub proof fn lemma_insert_by_multiset(s: Seq<WidgetView>, w: WidgetView, key: SortKey)
    ensures
        insert_by(s, w, key).to_multiset() == s.to_multiset().insert(w),
    decreases s.len(),
{
    broadcast use vstd::seq_lib::group_to_multiset_ensures;
    broadcast use vstd::multiset::group_multiset_axioms;

    if s.len() == 0 {
        assert(seq![w] =~= s.push(w));
    } else if key_of(key, s.last()) <= key_of(key, w) {
    } else {
        let d = s.drop_last();
        lemma_insert_by_multiset(d, w, key);
        assert(s =~= d.push(s.last()));
        assert(d.to_multiset().insert(w).insert(s.last()) =~= d.to_multiset().insert(s.last()).insert(w));
    }
}

/// Sorting keeps the widgets: the result is a permutation of the input.
pub proof fn lemma_sorted_by_multiset(ws: Seq<WidgetView>, key: SortKey)
    ensures
        sorted_by(ws, key).to_multiset() == ws.to_multiset(),
    decreases ws.len(),
{
    broadcast use vstd::seq_lib::group_to_multiset_ensures;

    if ws.len() > 0 {
        let d = ws.drop_last();
        lemma_sorted_by_multiset(d, key);
        lemma_insert_by_multiset(sorted_by(d, key), ws.last(), key);
        assert(ws =~= d.push(ws.last()));
    }
}

/// Every widget of `insert_by(s, w, key)` is `w` or a widget of `s`.
proof fn lemma_insert_by_contains(s: Seq<WidgetView>, w: WidgetView, key: SortKey, x: WidgetView)
    requires
        insert_by(s, w, key).contains(x),
    ensures
        x == w || s.contains(x),
{
    broadcast use vstd::seq_lib::group_to_multiset_ensures;
    broadcast use vstd::multiset::group_multiset_axioms;

    lemma_insert_by_multiset(s, w, key);
    assert(insert_by(s, w, key).to_multiset().count(x) > 0);
}

/// Inserting into a sorted sequence gives a sorted sequence.
pub proof fn lemma_insert_by_sorted(s: Seq<WidgetView>, w: WidgetView, key: SortKey)
    requires
        is_sorted_by(s, key),
    ensures
        is_sorted_by(insert_by(s, w, key), key),
    decreases s.len(),
{
    if s.len() == 0 {
    } else if key_of(key, s.last()) <= key_of(key, w) {
        let r = s.push(w);
        assert forall|i: int, j: int| 0 <= i <= j < r.len() implies key_of(key, #[trigger] r[i]) <= key_of(key, #[trigger] r[j]) by {
            if j == s.len() {
                assert(key_of(key, s[i]) <= key_of(key, s[s.len() - 1]) || i == s.len());
            }
        }
    } else {
        let d = s.drop_last();
        let l = s.last();
        assert(is_sorted_by(d, key)) by {
            assert forall|i: int, j: int| 0 <= i <= j < d.len() implies key_of(key, #[trigger] d[i]) <= key_of(key, #[trigger] d[j]) by {
                assert(d[i] == s[i] && d[j] == s[j]);
            }
        }
        lemma_insert_by_sorted(d, w, key);
        let m = insert_by(d, w, key);
        let r = m.push(l);
        assert forall|i: int, j: int| 0 <= i <= j < r.len() implies key_of(key, #[trigger] r[i]) <= key_of(key, #[trigger] r[j]) by {
            if j == m.len() && i < m.len() {
                assert(m.contains(m[i]));
                lemma_insert_by_contains(d, w, key, m[i]);
                if m[i] != w {
                    let k = choose|k: int| 0 <= k < d.len() && d[k] == m[i];
                    assert(s[k] == d[k]);
                    assert(key_of(key, s[k]) <= key_of(key, s[s.len() - 1]));
                }
            }
        }
    }
}

/// The result of sorting is in order.
pub proof fn lemma_sorted_by_sorted(ws: Seq<WidgetView>, key: SortKey)
    ensures
        is_sorted_by(sorted_by(ws, key), key),
    decreases ws.len(),
{
    if ws.len() > 0 {
        lemma_sorted_by_sorted(ws.drop_last(), key);
        lemma_insert_by_sorted(sorted_by(ws.drop_last(), key), ws.last(), key);
    }
}

fn key_value(w: &Widget, key: SortKey) -> (r: i64)
    ensures
        r == key_of(key, w@),
{
    match key {
        SortKey::Depth => w.z as i64,
        SortKey::Left => w.pos.x,
        SortKey::Top => w.pos.y,
    }
}

/// Sorts `v` by `key`, keeping the order of widgets with equal keys.
pub fn sort_widgets(v: Vec<Widget>, key: SortKey) -> (r: Vec<Widget>)
    ensures
        widgets_view(r@) == sorted_by(widgets_view(v@), key),
{
    let ghost ws = widgets_view(v@);
    let mut rest = v;
    let mut sorted: Vec<Widget> = Vec::new();
    let mut i: usize = 0;
    assert(ws.take(0) =~= Seq::<WidgetView>::empty());
    assert(widgets_view(rest@) =~= ws.skip(0));
    let n: usize = rest.len();
    assert(ws.len() == n);
    while rest.len() > 0
        invariant
            i <= ws.len(),
            ws.len() <= usize::MAX,
            widgets_view(rest@) == ws.skip(i as int),
            widgets_view(sorted@) == sorted_by(ws.take(i as int), key),
        decreases rest@.len(),
    {
        let ghost r0 = rest@;
        assert(widgets_view(r0).len() == r0.len());
        assert(i < ws.len());
        assert(widgets_view(r0)[0] == ws.skip(i as int)[0]);
        let w = rest.remove(0);
        assert(w@ == ws[i as int]);
        assert(widgets_view(rest@) =~= ws.skip(i as int + 1)) by {
            assert forall|k: int| 0 <= k < rest@.len() implies #[trigger] widgets_view(rest@)[k] == ws.skip(i as int + 1)[k] by {
                assert(rest@[k] == r0[k + 1]);
                assert(widgets_view(r0)[k + 1] == ws.skip(i as int)[k + 1]);
            }
        }
        let ghost t = ws.take(i as int + 1);
        assert(t.drop_last() =~= ws.take(i as int));
        assert(t.last() == w@);
        let ghost s0 = widgets_view(sorted@);
        let wk = key_value(&w, key);
        let mut k: usize = sorted.len();
        assert(s0.take(k as int) =~= s0);
        assert(s0.skip(k as int) =~= Seq::<WidgetView>::empty());
        assert(insert_by(s0, w@, key) + Seq::<WidgetView>::empty() =~= insert_by(s0, w@, key));
        while k > 0 && key_value(&sorted[k - 1], key) > wk
            invariant
                k <= sorted@.len(),
                s0 == widgets_view(sorted@),
                wk == key_of(key, w@),
                insert_by(s0, w@, key) == insert_by(s0.take(k as int), w@, key) + s0.skip(k as int),
            decreases k,
        {
            let ghost a = s0.take(k as int);
            assert(a.last() == s0[k - 1]);
            assert(a.drop_last() =~= s0.take(k - 1));
            assert(s0.skip(k - 1) =~= seq![s0[k - 1]] + s0.skip(k as int));
            assert(insert_by(s0.take(k - 1), w@, key) + s0.skip(k - 1) =~= insert_by(s0.take(k - 1), w@, key).push(s0[k - 1]) + s0.skip(k as int));
            k = k - 1;
        }
        proof {
            let a = s0.take(k as int);
            if k > 0 {
                assert(a.last() == s0[k - 1]);
            }
            assert(insert_by(a, w@, key) =~= a.push(w@));
        }
        sorted.insert(k, w);
        assert(widgets_view(sorted@) =~= s0.take(k as int).push(w@) + s0.skip(k as int));
        i = i + 1;
    }
    assert(rest@.len() == 0);
    assert(i == ws.len()) by {
        assert(ws.skip(i as int).len() == 0);
    }
    assert(ws.take(ws.len() as int) =~= ws);
    sorted
}

} // verus!
