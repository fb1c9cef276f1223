use vstd::prelude::*;
use vstd::string::*;
use crate::text::{leading_spaces, trim, to_chars, trim_bounds, count_leading_spaces, string_from_chars};
use crate::widget::{escape_spec, push_escaped, strings_view};

verus! {

/// One node of an outline: its nesting depth and its label.
#[derive(Debug)]
pub struct OutlineNode {
    pub depth: usize,
    pub label: String,
}

impl View for OutlineNode {
    type V = (nat, Seq<char>);

    open spec fn view(&self) -> (nat, Seq<char>) {
        (self.depth as nat, self.label@)
    }
}

pub open spec fn outline_view(v: Seq<OutlineNode>) -> Seq<(nat, Seq<char>)> {
    v.map_values(|n: OutlineNode| n@)
}

/// The node a text line describes: two leading spaces per level, the label trimmed.
pub open spec fn line_entry(l: Seq<char>) -> (nat, Seq<char>) {
    (leading_spaces(l) / 2, trim(l))
}

/// The nodes the lines describe, blank lines left out.
pub open spec fn line_entries(lines: Seq<Seq<char>>) -> Seq<(nat, Seq<char>)>
    decreases lines.len(),
{
    if lines.len() == 0 {
        Seq::empty()
    } else {
        let rest = line_entries(lines.drop_last());
        let e = line_entry(lines.last());
        if e.1.len() > 0 { rest.push(e) } else { rest }
    }
}

/// Whether node `i` cannot be placed: the first node is not at depth 0, or a node is more
/// than one level deeper than the one before it.
pub open spec fn breaks_nesting(es: Seq<(nat, Seq<char>)>, i: int) -> bool {
    if i == 0 {
        es[0].0 > 0
    } else {
        es[i].0 > es[i - 1].0 + 1
    }
}

/// The number of leading nodes, from position `i` on, kept before the first one that breaks nesting.
pub open spec fn kept_from(es: Seq<(nat, Seq<char>)>, i: int) -> int
    decreases es.len() - i,
{
    if i < 0 || i >= es.len() {
        i
    } else if breaks_nesting(es, i) {
        i
    } else {
        kept_from(es, i + 1)
    }
}

/// The outline of indented lines: the nodes up to (not including) the first one that breaks
/// nesting. Everything from that node on is dropped.
pub open spec fn outline_spec(lines: Seq<Seq<char>>) -> Seq<(nat, Seq<char>)> {
    let es = line_entries(lines);
    es.take(kept_from(es, 0))
}

/// Parses indented lines (two spaces per level) into an outline, in order.
pub fn parse_outline(lines: &Vec<String>) -> (r: Vec<OutlineNode>)
    ensures
        outline_view(r@) == outline_spec(strings_view(lines@)),
{
    let ghost lv = strings_view(lines@);
    let mut es: Vec<OutlineNode> = Vec::new();
    let mut i: usize = 0;
    while i < lines.len()
        invariant
            i <= lines@.len(),
            lv == strings_view(lines@),
            outline_view(es@) == line_entries(lv.take(i as int)),
        decreases lines@.len() - i,
    {
        let chars = to_chars(lines[i].as_str());
        let (a, b) = trim_bounds(&chars);
        let ghost t = lv.take(i as int + 1);
        assert(t.drop_last() =~= lv.take(i as int));
        assert(t.last() == chars@);
        if a < b {
            let depth = count_leading_spaces(&chars) / 2;
            let label = string_from_chars(&chars, a, b);
            es.push(OutlineNode { depth, label });
            assert(outline_view(es@) =~= line_entries(t));
        } else {
            assert(outline_view(es@) =~= line_entries(t));
        }
        i = i + 1;
    }
    assert(lv.take(lines@.len() as int) =~= lv);
    let ghost all = outline_view(es@);
    let mut k: usize = 0;
    while k < es.len()
        invariant
            k <= es@.len(),
            all == outline_view(es@),
            kept_from(all, 0) == kept_from(all, k as int),
        ensures
            k <= es@.len(),
            all == outline_view(es@),
            kept_from(all, 0) == k,
        decreases es@.len() - k,
    {
        let breaks = if k == 0 { es[0].depth > 0 } else { es[k].depth > es[k - 1].depth && es[k].depth - es[k - 1].depth > 1 };
        assert(breaks == breaks_nesting(all, k as int));
        if breaks {
            break;
        }
        k = k + 1;
    }
    es.truncate(k);
    assert(outline_view(es@) =~= all.take(k as int));
    es
}


/// The depth of the node after node `i`, or 0 after the last node.
pub open spec fn next_depth(es: Seq<(nat, Seq<char>)>, i: int) -> nat {
    if i + 1 < es.len() { es[i + 1].0 } else { 0 }
}

/// `k` times the text that closes a child list and its parent node.
pub open spec fn closers(k: nat) -> Seq<char>
    decreases k,
{
    if k == 0 { Seq::empty() } else { closers((k - 1) as nat) + "] }"@ }
}

/// The text that node `i` contributes to the literal: a separator from its previous sibling,
/// its own opening, and either the start of its child list or its (empty) child list
/// followed by the closing of every list that ends after it.
pub open spec fn node_piece(es: Seq<(nat, Seq<char>)>, i: int) -> Seq<char> {
    let d = es[i].0;
    let nd = next_depth(es, i);
    (if i > 0 && d <= es[i - 1].0 { ", "@ } else { Seq::empty() })
        + "GenTreeNode { label: \""@ + escape_spec(es[i].1) + "\".to_string(), children: "@
        + (if nd > d { "vec!["@ } else { "vec![] }"@ + closers((d - nd) as nat) })
}

pub open spec fn node_pieces(es: Seq<(nat, Seq<char>)>, n: int) -> Seq<char>
    decreases n,
{
    if n <= 0 { Seq::empty() } else { node_pieces(es, n - 1) + node_piece(es, n - 1) }
}

/// Rust source of a `Vec<GenTreeNode>` literal holding the outline as nested nodes: each node
/// `GenTreeNode { label: "..".to_string(), children: vec![..] }`, siblings separated by ", ".
pub open spec fn outline_literal(es: Seq<(nat, Seq<char>)>) -> Seq<char> {
    "vec!["@ + node_pieces(es, es.len() as int) + "]"@
}

/// Appends the Rust literal of an outline (see `outline_literal`).
#[verifier::rlimit(50)]
pub fn push_outline_literal(out: &mut String, es: &Vec<OutlineNode>)
    ensures
        final(out)@ == old(out)@ + outline_literal(outline_view(es@)),
{
    let ghost v = outline_view(es@);
    out.append("vec![");
    let ghost start = out@;
    let mut i: usize = 0;
    while i < es.len()
        invariant
            i <= es@.len(),
            v == outline_view(es@),
            out@ == start + node_pieces(v, i as int),
        decreases es@.len() - i,
    {
        let ghost before = out@;
        let d: usize = es[i].depth;
        if i > 0 && d <= es[i - 1].depth {
            out.append(", ");
        }
        out.append("GenTreeNode { label: \"");
        push_escaped(out, es[i].label.as_str());
        out.append("\".to_string(), children: ");
        let nd: usize = if i + 1 < es.len() { es[i + 1].depth } else { 0 };
        let ghost mid = out@;
        if nd > d {
            out.append("vec![");
        } else {
            out.append("vec![] }");
            let mut k: usize = 0;
            while k < d - nd
                invariant
                    k <= d - nd,
                    nd <= d,
                    out@ == mid + "vec![] }"@ + closers(k as nat),
                decreases d - nd - k,
            {
                out.append("] }");
                k = k + 1;
            }
        }
        assert(out@ =~= before + node_piece(v, i as int));
        i = i + 1;
    }
    out.append("]");
}

/// Rust source of the node literal for the outline of `lines`.
pub fn nodes_literal(lines: &Vec<String>) -> (r: String)
    ensures
        r@ == outline_literal(outline_spec(strings_view(lines@))),
{
    let es = parse_outline(lines);
    let mut r = String::new();
    push_outline_literal(&mut r, &es);
    r
}

} // verus!
