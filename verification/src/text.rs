use vstd::prelude::*;
use vstd::string::*;
use crate::fmt::push_char;

verus! {

/// The characters of a string slice, in order.
pub fn to_chars(s: &str) -> (r: Vec<char>)
    ensures
        r@ == s@,
{
    let mut r: Vec<char> = Vec::new();
    for c in it: s.chars()
        invariant
            r@ == it.seq().take(it.index() as int),
            it.seq() == s@,
    {
        r.push(c);
    }
    r
}

/// Appends the characters `v[from..to]` to `out`.
pub fn push_chars(out: &mut String, v: &Vec<char>, from: usize, to: usize)
    requires
        from <= to <= v@.len(),
    ensures
        final(out)@ == old(out)@ + v@.subrange(from as int, to as int),
{
    let mut i = from;
    while i < to
        invariant
            from <= i <= to,
            to <= v@.len(),
            out@ == old(out)@ + v@.subrange(from as int, i as int),
        decreases to - i,
    {
        push_char(out, v[i]);
        assert(v@.subrange(from as int, i + 1) =~= v@.subrange(from as int, i as int).push(v@[i as int]));
        i = i + 1;
    }
}

/// A string holding the characters `v[from..to]`.
pub fn string_from_chars(v: &Vec<char>, from: usize, to: usize) -> (r: String)
    requires
        from <= to <= v@.len(),
    ensures
        r@ == v@.subrange(from as int, to as int),
{
    let mut r = String::new();
    push_chars(&mut r, v, from, to);
    r
}

/// Unicode `White_Space`, the property `char::is_whitespace` tests.
pub open spec fn is_ws(c: char) -> bool {
    ||| c == ' '
    ||| ('\u{9}' <= c && c <= '\u{d}')
    ||| c == '\u{85}'
    ||| c == '\u{a0}'
    ||| c == '\u{1680}'
    ||| ('\u{2000}' <= c && c <= '\u{200a}')
    ||| c == '\u{2028}'
    ||| c == '\u{2029}'
    ||| c == '\u{202f}'
    ||| c == '\u{205f}'
    ||| c == '\u{3000}'
}

pub fn is_whitespace(c: char) -> (r: bool)
    ensures
        r == is_ws(c),
{
    c == ' ' || ('\u{9}' <= c && c <= '\u{d}') || c == '\u{85}' || c == '\u{a0}' || c
        == '\u{1680}' || ('\u{2000}' <= c && c <= '\u{200a}') || c == '\u{2028}' || c
        == '\u{2029}' || c == '\u{202f}' || c == '\u{205f}' || c == '\u{3000}'
}

/// `s` without leading white space.
pub open spec fn trim_start(s: Seq<char>) -> Seq<char>
    decreases s.len(),
{
    if s.len() > 0 && is_ws(s[0]) {
        trim_start(s.drop_first())
    } else {
        s
    }
}

/// `s` without trailing white space.
pub open spec fn trim_end(s: Seq<char>) -> Seq<char>
    decreases s.len(),
{
    if s.len() > 0 && is_ws(s.last()) {
        trim_end(s.drop_last())
    } else {
        s
    }
}

/// `s` without leading and trailing white space, as `str::trim` gives it.
pub open spec fn trim(s: Seq<char>) -> Seq<char> {
    trim_end(trim_start(s))
}

/// Skipping leading whitespace one character at a time reaches `trim_start`.
proof fn lemma_trim_start_skip(s: Seq<char>, i: int)
    requires
        0 <= i <= s.len(),
        forall|k: int| 0 <= k < i ==> is_ws(#[trigger] s[k]),
        i == s.len() || !is_ws(s[i]),
    ensures
        trim_start(s) == s.subrange(i, s.len() as int),
    decreases i,
{
    if i > 0 {
        assert forall|k: int| 0 <= k < i - 1 implies is_ws(#[trigger] s.drop_first()[k]) by {
            assert(s.drop_first()[k] == s[k + 1]);
        }
        if i - 1 < s.drop_first().len() {
            assert(s.drop_first()[i - 1] == s[i]);
        }
        lemma_trim_start_skip(s.drop_first(), i - 1);
        assert(s.drop_first().subrange(i - 1, s.drop_first().len() as int) =~= s.subrange(
            i,
            s.len() as int,
        ));
    } else {
        assert(s.subrange(0, s.len() as int) =~= s);
    }
}

/// Cutting trailing whitespace one character at a time reaches `trim_end`.
proof fn lemma_trim_end_cut(s: Seq<char>, j: int)
    requires
        0 <= j <= s.len(),
        forall|k: int| j <= k < s.len() ==> is_ws(#[trigger] s[k]),
        j == 0 || !is_ws(s[j - 1]),
    ensures
        trim_end(s) == s.subrange(0, j),
    decreases s.len() - j,
{
    if j < s.len() {
        assert forall|k: int| j <= k < s.drop_last().len() implies is_ws(
            #[trigger] s.drop_last()[k],
        ) by {
            assert(s.drop_last()[k] == s[k]);
        }
        if j > 0 {
            assert(s.drop_last()[j - 1] == s[j - 1]);
        }
        lemma_trim_end_cut(s.drop_last(), j);
        assert(s.drop_last().subrange(0, j) =~= s.subrange(0, j));
    } else {
        assert(s.subrange(0, j) =~= s);
    }
}

/// The bounds `[i, j)` of `v` once leading and trailing white space are left out.
pub fn trim_bounds(v: &Vec<char>) -> (r: (usize, usize))
    ensures
        r.0 <= r.1 <= v@.len(),
        r.0 == v@.len() - trim_start(v@).len(),
        v@.subrange(r.0 as int, r.1 as int) == trim(v@),
{
    let mut i: usize = 0;
    while i < v.len() && is_whitespace(v[i])
        invariant
            i <= v@.len(),
            forall|k: int| 0 <= k < i ==> is_ws(#[trigger] v@[k]),
        decreases v@.len() - i,
    {
        i = i + 1;
    }
    proof {
        lemma_trim_start_skip(v@, i as int);
    }
    let mut j: usize = v.len();
    while j > i && is_whitespace(v[j - 1])
        invariant
            i <= j <= v@.len(),
            forall|k: int| j <= k < v@.len() ==> is_ws(#[trigger] v@[k]),
        decreases j,
    {
        j = j - 1;
    }
    proof {
        let t = v@.subrange(i as int, v@.len() as int);
        assert forall|k: int| j - i <= k < t.len() implies is_ws(#[trigger] t[k]) by {
            assert(t[k] == v@[k + i]);
        }
        if j > i {
            assert(t[j - i - 1] == v@[j - 1]);
        }
        lemma_trim_end_cut(t, j - i);
        assert(t.subrange(0, j - i) =~= v@.subrange(i as int, j as int));
    }
    (i, j)
}

/// The number of leading space characters (U+0020) of `s`.
pub open spec fn leading_spaces(s: Seq<char>) -> nat
    decreases s.len(),
{
    if s.len() > 0 && s[0] == ' ' {
        1 + leading_spaces(s.drop_first())
    } else {
        0
    }
}

pub fn count_leading_spaces(v: &Vec<char>) -> (r: usize)
    ensures
        r == leading_spaces(v@),
{
    let mut i: usize = 0;
    assert(v@.subrange(0, v@.len() as int) =~= v@);
    while i < v.len() && v[i] == ' '
        invariant
            i <= v@.len(),
            leading_spaces(v@) == i + leading_spaces(v@.subrange(i as int, v@.len() as int)),
        decreases v@.len() - i,
    {
        assert(v@.subrange(i as int, v@.len() as int).drop_first() =~= v@.subrange(
            i + 1,
            v@.len() as int,
        ));
        i = i + 1;
    }
    proof {
        if i < v@.len() {
            assert(v@.subrange(i as int, v@.len() as int)[0] == v@[i as int]);
        }
    }
    i
}


/// The pieces of `s` between newline characters (as `split('\n')` gives them).
pub open spec fn split_nl(s: Seq<char>) -> Seq<Seq<char>>
    decreases s.len(),
{
    if s.len() == 0 {
        seq![Seq::empty()]
    } else if s.last() == '\n' {
        split_nl(s.drop_last()).push(Seq::empty())
    } else {
        let p = split_nl(s.drop_last());
        p.update(p.len() - 1, p.last().push(s.last()))
    }
}

/// A line without the carriage return that ended it, if any.
pub open spec fn strip_cr(l: Seq<char>) -> Seq<char> {
    if l.len() > 0 && l.last() == '\r' {
        l.drop_last()
    } else {
        l
    }
}

/// The lines of `s` as `str::lines` yields them: split at `\n`, a `\r` just before a `\n`
/// dropped, and no empty line after a final line ending.
pub open spec fn lines_spec(s: Seq<char>) -> Seq<Seq<char>> {
    let segs = split_nl(s);
    let ended = segs.drop_last().map_values(|l: Seq<char>| strip_cr(l));
    if segs.last().len() == 0 {
        ended
    } else {
        ended.push(segs.last())
    }
}

/// Splitting at newlines gives at least one piece.
proof fn lemma_split_nl_nonempty(s: Seq<char>)
    ensures
        split_nl(s).len() >= 1,
    decreases s.len(),
{
    if s.len() > 0 {
        lemma_split_nl_nonempty(s.drop_last());
    }
}

/// Splits a text into lines as `str::lines` does.
pub fn split_lines(s: &str) -> (r: Vec<String>)
    ensures
        crate::widget::strings_view(r@) == lines_spec(s@),
{
    let v = to_chars(s);
    let mut done: Vec<String> = Vec::new();
    let mut start: usize = 0;
    let mut i: usize = 0;
    proof {
        assert(v@.take(0) =~= Seq::<char>::empty());
    }
    while i < v.len()
        invariant
            start <= i <= v@.len(),
            v@ == s@,
            split_nl(v@.take(i as int)).len() == done@.len() + 1,
            split_nl(v@.take(i as int)).last() == v@.subrange(start as int, i as int),
            forall|k: int| 0 <= k < done@.len() ==> #[trigger] done@[k]@ == strip_cr(split_nl(v@.take(i as int))[k]),
        decreases v@.len() - i,
    {
        let ghost prev = split_nl(v@.take(i as int));
        let ghost t = v@.take(i as int + 1);
        assert(t.drop_last() =~= v@.take(i as int));
        assert(t.last() == v@[i as int]);
        if v[i] == '\n' {
            let mut end = i;
            if end > start && v[end - 1] == '\r' {
                end = end - 1;
            }
            let line = string_from_chars(&v, start, end);
            proof {
                let seg = v@.subrange(start as int, i as int);
                if i > start && v@[i - 1] == '\r' {
                    assert(seg.last() == v@[i - 1]);
                    assert(seg.drop_last() =~= v@.subrange(start as int, end as int));
                } else {
                    assert(seg =~= v@.subrange(start as int, end as int));
                }
                assert(line@ == strip_cr(prev.last()));
            }
            done.push(line);
            start = i + 1;
            proof {
                assert(v@.subrange(start as int, i + 1) =~= Seq::<char>::empty());
            }
        } else {
            proof {
                assert(v@.subrange(start as int, i + 1) =~= v@.subrange(start as int, i as int).push(v@[i as int]));
            }
        }
        i = i + 1;
    }
    proof {
        assert(v@.take(v@.len() as int) =~= v@);
    }
    let ghost segs = split_nl(v@);
    if start < v.len() {
        let last = string_from_chars(&v, start, v.len());
        done.push(last);
    }
    proof {
        assert(crate::widget::strings_view(done@) =~= lines_spec(s@));
    }
    done
}

/// `items` joined with `sep` between consecutive items.
pub open spec fn join_spec(items: Seq<Seq<char>>, sep: Seq<char>) -> Seq<char>
    decreases items.len(),
{
    if items.len() == 0 {
        Seq::empty()
    } else if items.len() == 1 {
        items[0]
    } else {
        join_spec(items.drop_last(), sep) + sep + items.last()
    }
}

/// Joins the lines with newline characters (as `items.join("\n")` does).
pub fn join_lines(items: &Vec<String>) -> (r: String)
    ensures
        r@ == join_spec(crate::widget::strings_view(items@), seq!['\n']),
{
    let ghost view = crate::widget::strings_view(items@);
    let mut r = String::new();
    let mut i: usize = 0;
    while i < items.len()
        invariant
            i <= items@.len(),
            view == crate::widget::strings_view(items@),
            r@ == join_spec(view.take(i as int), seq!['\n']),
        decreases items@.len() - i,
    {
        let ghost t = view.take(i as int + 1);
        assert(t.drop_last() =~= view.take(i as int));
        assert(t.last() == items@[i as int]@);
        if i > 0 {
            push_char(&mut r, '\n');
        } else {
            assert(view.take(0) =~= Seq::<Seq<char>>::empty());
        }
        r.append(items[i].as_str());
        i = i + 1;
    }
    assert(view.take(items@.len() as int) =~= view);
    r
}


/// A text without newlines is a single piece.
proof fn lemma_split_nl_plain(s: Seq<char>)
    requires
        !s.contains('\n'),
    ensures
        split_nl(s) == seq![s],
    decreases s.len(),
{
    if s.len() > 0 {
        assert(!s.drop_last().contains('\n')) by {
            if s.drop_last().contains('\n') {
                let k = choose|k: int| 0 <= k < s.drop_last().len() && s.drop_last()[k] == '\n';
                assert(s[k] == '\n');
            }
        }
        lemma_split_nl_plain(s.drop_last());
        assert(s[s.len() - 1] == s.last());
        assert(s.last() != '\n') by {
            if s.last() == '\n' {
                assert(s.contains(s[s.len() - 1]));
            }
        }
        assert(s.drop_last().push(s.last()) =~= s);
        assert(seq![s.drop_last()].update(0, s.drop_last().push(s.last())) =~= seq![s]);
    } else {
        assert(s =~= Seq::<char>::empty());
    }
}

/// Splitting a text joined at a newline splits both halves.
proof fn lemma_split_nl_concat(a: Seq<char>, b: Seq<char>)
    ensures
        split_nl(a + seq!['\n'] + b) == split_nl(a) + split_nl(b),
    decreases b.len(),
{
    let a2 = a + seq!['\n'];
    if b.len() == 0 {
        assert(a2 + b =~= a2);
        assert(a2.drop_last() =~= a);
        assert(split_nl(a).push(Seq::empty()) =~= split_nl(a) + split_nl(b));
    } else {
        lemma_split_nl_concat(a, b.drop_last());
        lemma_split_nl_nonempty(a);
        lemma_split_nl_nonempty(b.drop_last());
        let s = a2 + b;
        assert(s.drop_last() =~= a2 + b.drop_last());
        assert(s.last() == b.last());
        let p = split_nl(a2 + b.drop_last());
        if b.last() == '\n' {
            assert(split_nl(s) =~= split_nl(a) + split_nl(b));
        } else {
            let q = split_nl(b.drop_last());
            assert(p.update(p.len() - 1, p.last().push(s.last())) =~= split_nl(a) + q.update(
                q.len() - 1,
                q.last().push(b.last()),
            ));
        }
    }
}

/// Text that can stand as one line of a multi-line editor and be read back:
/// no line break in it and no carriage return at its end.
pub open spec fn is_plain_line(l: Seq<char>) -> bool {
    &&& !l.contains('\n')
    &&& !(l.len() > 0 && l.last() == '\r')
}

/// Splitting lines joined with newlines gives the lines back.
proof fn lemma_split_join(items: Seq<Seq<char>>)
    requires
        items.len() >= 1,
        forall|k: int| 0 <= k < items.len() ==> !(#[trigger] items[k]).contains('\n'),
    ensures
        split_nl(join_spec(items, seq!['\n'])) == items,
    decreases items.len(),
{
    if items.len() == 1 {
        lemma_split_nl_plain(items[0]);
        assert(seq![items[0]] =~= items);
    } else {
        let init = items.drop_last();
        assert forall|k: int| 0 <= k < init.len() implies !(#[trigger] init[k]).contains('\n') by {
            assert(init[k] == items[k]);
        }
        lemma_split_join(init);
        lemma_split_nl_concat(join_spec(init, seq!['\n']), items.last());
        lemma_split_nl_plain(items.last());
        assert(init + seq![items.last()] =~= items);
    }
}

/// Reading back the lines of joined items gives the items again, when every item is a
/// plain line and the last one is not empty (an empty last line is not read back).
pub proof fn lemma_lines_of_joined(items: Seq<Seq<char>>)
    requires
        forall|k: int| 0 <= k < items.len() ==> is_plain_line(#[trigger] items[k]),
        items.len() > 0 ==> items.last().len() > 0,
    ensures
        lines_spec(join_spec(items, seq!['\n'])) == items,
{
    if items.len() == 0 {
        assert(split_nl(Seq::<char>::empty()).drop_last() =~= Seq::<Seq<char>>::empty());
        assert(lines_spec(join_spec(items, seq!['\n'])) =~= items);
    } else {
        assert forall|k: int| 0 <= k < items.len() implies !(#[trigger] items[k]).contains('\n') by {
            assert(is_plain_line(items[k]));
        }
        lemma_split_join(items);
        let ended = items.drop_last().map_values(|l: Seq<char>| strip_cr(l));
        assert forall|k: int| 0 <= k < ended.len() implies #[trigger] ended[k] == items[k] by {
            assert(is_plain_line(items[k]));
        }
        assert(ended.push(items.last()) =~= items);
    }
}


} // verus!
