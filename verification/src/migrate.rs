//! Source migrations: lossless rewrites of one spelling into the preferred
//! one, computed over the tree and applied as byte-range replacements, so
//! that everything outside the edited ranges (comments, blank lines, the
//! author's spacing) is untouched.
use crate::ast::nodes::{DriveDecl, MappingDecl, Type};
use crate::ast::support::{deref_nodes, desc, descendants, first_tok, nth_kid, KindClass};
use crate::kind::SyntaxKind;
use crate::lexer::{byte_offset, utf8_len};
use crate::parser::parse_module;
use crate::span::Span;
use crate::syntax::{node_text, SyntaxNode};
use vstd::multiset::Multiset;
use vstd::prelude::*;

verus! {

/// One insertion or replacement of a byte range of the source.
#[derive(Debug)]
pub struct SourceEdit {
    pub span: Span,
    pub text: String,
}

/// An edit as a value: its span and its text.
pub open spec fn edit_view(e: SourceEdit) -> (Span, Seq<char>) {
    (e.span, e.text@)
}

pub open spec fn edit_views(es: Seq<SourceEdit>) -> Seq<(Span, Seq<char>)> {
    es.map_values(|e: SourceEdit| edit_view(e))
}

// ---- order -------------------------------------------------------------------

/// `x` put into the start-ordered `s`, after every edit that starts no later.
pub open spec fn insert_by_start(x: (Span, Seq<char>), s: Seq<(Span, Seq<char>)>) -> Seq<
    (Span, Seq<char>),
>
    decreases s.len(),
{
    if s.len() == 0 {
        seq![x]
    } else if s.last().0.start <= x.0.start {
        s.push(x)
    } else {
        insert_by_start(x, s.drop_last()).push(s.last())
    }
}

/// The edits ordered by where they start; edits that start together keep
/// their order.
pub open spec fn sort_by_start(es: Seq<(Span, Seq<char>)>) -> Seq<(Span, Seq<char>)>
    decreases es.len(),
{
    if es.len() == 0 {
        Seq::empty()
    } else {
        insert_by_start(es.last(), sort_by_start(es.drop_last()))
    }
}

proof fn lemma_insert_at(x: (Span, Seq<char>), s: Seq<(Span, Seq<char>)>, p: int)
    requires
        0 <= p <= s.len(),
        p > 0 ==> s[p - 1].0.start <= x.0.start,
        forall|j: int| p <= j < s.len() ==> #[trigger] s[j].0.start > x.0.start,
    ensures
        insert_by_start(x, s) == s.subrange(0, p) + seq![x] + s.subrange(p, s.len() as int),
    decreases s.len(),
{
    if s.len() == 0 {
        assert(seq![x] =~= s.subrange(0, p) + seq![x] + s.subrange(p, s.len() as int));
    } else if p == s.len() {
        assert(s.push(x) =~= s.subrange(0, p) + seq![x] + s.subrange(p, s.len() as int));
    } else {
        let t = s.drop_last();
        lemma_insert_at(x, t, p);
        assert(insert_by_start(x, t).push(s.last()) =~= s.subrange(0, p) + seq![x] + s.subrange(
            p,
            s.len() as int,
        ));
    }
}

/// The edits, ordered by start; equal starts keep their order.
fn sorted_edits(edits: &[SourceEdit]) -> (r: Vec<&SourceEdit>)
    ensures
        r@.map_values(|e: &SourceEdit| edit_view(*e)) == sort_by_start(edit_views(edits@)),
{
    let mut v: Vec<&SourceEdit> = Vec::new();
    let mut k: usize = 0;
    while k < edits.len()
        invariant
            k <= edits@.len(),
            v@.map_values(|e: &SourceEdit| edit_view(*e)) == sort_by_start(
                edit_views(edits@.subrange(0, k as int)),
            ),
        decreases edits@.len() - k,
    {
        let x = &edits[k];
        let ghost vs = v@.map_values(|e: &SourceEdit| edit_view(*e));
        let mut p = v.len();
        while p > 0 && v[p - 1].span.start > x.span.start
            invariant
                p <= v@.len(),
                vs == v@.map_values(|e: &SourceEdit| edit_view(*e)),
                forall|j: int| p <= j < vs.len() ==> #[trigger] vs[j].0.start > x.span.start,
            decreases p,
        {
            p = p - 1;
        }
        proof {
            lemma_insert_at(edit_view(*x), vs, p as int);
            assert(edit_views(edits@.subrange(0, k + 1)).drop_last() =~= edit_views(
                edits@.subrange(0, k as int),
            ));
            assert(edit_views(edits@.subrange(0, k + 1)).last() == edit_view(*x));
        }
        v.insert(p, x);
        assert(v@.map_values(|e: &SourceEdit| edit_view(*e)) =~= vs.subrange(0, p as int) + seq![
            edit_view(*x),
        ] + vs.subrange(p as int, vs.len() as int));
        k = k + 1;
    }
    assert(edits@.subrange(0, k as int) =~= edits@);
    v
}

// ---- law: edits apply in any order ---------------------------------------------

/// Edits in start order.
pub open spec fn starts_sorted(s: Seq<(Span, Seq<char>)>) -> bool {
    forall|i: int, j: int| 0 <= i < j < s.len() ==> #[trigger] s[i].0.start <= #[trigger] s[j].0.start
}

/// No two edits start at the same place.
pub open spec fn distinct_starts(s: Seq<(Span, Seq<char>)>) -> bool {
    forall|i: int, j: int|
        0 <= i < s.len() && 0 <= j < s.len() && i != j ==> #[trigger] s[i].0.start
            != #[trigger] s[j].0.start
}

proof fn lemma_empty_multiset()
    ensures
        Seq::<(Span, Seq<char>)>::empty().to_multiset() =~= Multiset::empty(),
{
    let e = Seq::<(Span, Seq<char>)>::empty();
    vstd::seq_lib::to_multiset_len(e);
    vstd::multiset::lemma_multiset_empty_len(e.to_multiset());
}

proof fn lemma_insert_by_start_props(x: (Span, Seq<char>), s: Seq<(Span, Seq<char>)>)
    requires
        starts_sorted(s),
    ensures
        starts_sorted(insert_by_start(x, s)),
        insert_by_start(x, s).to_multiset() =~= s.to_multiset().insert(x),
        forall|e: (Span, Seq<char>)| #[trigger] insert_by_start(x, s).contains(e) ==> e == x || s.contains(e),
        distinct_starts(s) && (forall|i: int| 0 <= i < s.len() ==> #[trigger] s[i].0.start != x.0.start)
            ==> distinct_starts(insert_by_start(x, s)),
    decreases s.len(),
{
    broadcast use vstd::seq_lib::to_multiset_build, vstd::multiset::group_multiset_axioms;

    if s.len() == 0 {
        assert(s =~= Seq::<(Span, Seq<char>)>::empty());
        assert(seq![x] =~= Seq::<(Span, Seq<char>)>::empty().push(x));
        lemma_empty_multiset();
        assert(Seq::<(Span, Seq<char>)>::empty().push(x).to_multiset() =~= Multiset::empty().insert(x));
        assert forall|e: (Span, Seq<char>)| #[trigger] seq![x].contains(e) implies e == x by {
            let k = choose|k: int| 0 <= k < seq![x].len() && seq![x][k] == e;
        }
    } else if s.last().0.start <= x.0.start {
        assert forall|e: (Span, Seq<char>)| #[trigger] s.push(x).contains(e) implies e == x || s.contains(e) by {
            let k = choose|k: int| 0 <= k < s.push(x).len() && s.push(x)[k] == e;
            if k < s.len() {
                assert(s[k] == e);
            }
        }
    } else {
        let d = s.drop_last();
        assert(starts_sorted(d));
        lemma_insert_by_start_props(x, d);
        let m = insert_by_start(x, d);
        assert(s =~= d.push(s.last()));
        assert(m.push(s.last()).to_multiset() =~= m.to_multiset().insert(s.last()));
        assert(s.to_multiset() =~= d.to_multiset().insert(s.last()));
        assert forall|e: (Span, Seq<char>)| #[trigger] m.push(s.last()).contains(e) implies e == x
            || s.contains(e) by {
            let k = choose|k: int| 0 <= k < m.push(s.last()).len() && m.push(s.last())[k] == e;
            if k < m.len() {
                assert(m.contains(m[k]));
                if e != x {
                    assert(d.contains(e));
                    let q = choose|q: int| 0 <= q < d.len() && d[q] == e;
                    assert(s[q] == e);
                }
            } else {
                assert(s[s.len() - 1] == e);
            }
        }
        assert forall|i: int, j: int| 0 <= i < j < m.push(s.last()).len() implies #[trigger] m.push(
            s.last(),
        )[i].0.start <= #[trigger] m.push(s.last())[j].0.start by {
            if j == m.len() {
                let e = m[i];
                assert(m.contains(e));
                if e != x {
                    let q = choose|q: int| 0 <= q < d.len() && d[q] == e;
                    assert(s[q] == e);
                    assert(s[q].0.start <= s[s.len() - 1].0.start);
                }
            }
        }
        if distinct_starts(s) && (forall|i: int| 0 <= i < s.len() ==> #[trigger] s[i].0.start != x.0.start) {
            assert(distinct_starts(d));
            assert forall|i: int| 0 <= i < d.len() implies #[trigger] d[i].0.start != x.0.start by {
                assert(d[i] == s[i]);
            }
            assert forall|i: int, j: int|
                0 <= i < m.push(s.last()).len() && 0 <= j < m.push(s.last()).len() && i != j
                    implies #[trigger] m.push(s.last())[i].0.start != #[trigger] m.push(s.last())[j].0.start by {
                if i == m.len() || j == m.len() {
                    let k = if i == m.len() { j } else { i };
                    let e = m[k];
                    assert(m.contains(e));
                    if e == x {
                        assert(s[s.len() - 1].0.start != x.0.start);
                    } else {
                        let q = choose|q: int| 0 <= q < d.len() && d[q] == e;
                        assert(s[q] == e);
                        assert(q != s.len() - 1);
                    }
                }
            }
        }
    }
}

/// Sorting by start keeps the edits (as a multiset) and puts them in order;
/// distinct starts stay distinct.
proof fn lemma_sort_by_start_props(es: Seq<(Span, Seq<char>)>)
    ensures
        starts_sorted(sort_by_start(es)),
        sort_by_start(es).to_multiset() =~= es.to_multiset(),
        distinct_starts(es) ==> distinct_starts(sort_by_start(es)),
    decreases es.len(),
{
    broadcast use vstd::seq_lib::to_multiset_build, vstd::multiset::group_multiset_axioms;

    if es.len() == 0 {
        lemma_empty_multiset();
        assert(es =~= Seq::<(Span, Seq<char>)>::empty());
    } else {
        let d = es.drop_last();
        lemma_sort_by_start_props(d);
        let sd = sort_by_start(d);
        lemma_insert_by_start_props(es.last(), sd);
        assert(es =~= d.push(es.last()));
        if distinct_starts(es) {
            assert(distinct_starts(d)) by {
                assert forall|i: int, j: int| 0 <= i < d.len() && 0 <= j < d.len() && i != j implies #[trigger] d[i].0.start != #[trigger] d[j].0.start by {
                    assert(d[i] == es[i] && d[j] == es[j]);
                }
            }
            assert forall|i: int| 0 <= i < sd.len() implies #[trigger] sd[i].0.start != es.last().0.start by {
                let e = sd[i];
                assert(sd.to_multiset().count(e) > 0) by {
                    vstd::seq_lib::to_multiset_contains(sd, e);
                    assert(sd.contains(e));
                }
                vstd::seq_lib::to_multiset_contains(d, e);
                let q = choose|q: int| 0 <= q < d.len() && d[q] == e;
                assert(es[q] == e);
                assert(q != es.len() - 1);
            }
        }
    }
}

/// Two start-ordered lists of the same edits, no two starting together, are
/// the same list.
proof fn lemma_sorted_unique(s: Seq<(Span, Seq<char>)>, t: Seq<(Span, Seq<char>)>)
    requires
        starts_sorted(s),
        starts_sorted(t),
        distinct_starts(s),
        s.to_multiset() =~= t.to_multiset(),
    ensures
        s == t,
    decreases s.len(),
{
    vstd::seq_lib::to_multiset_len(s);
    vstd::seq_lib::to_multiset_len(t);
    if s.len() == 0 {
        assert(s =~= t);
    } else {
        let x = s[0];
        let y = t[0];
        assert(s.contains(x));
        assert(t.contains(y));
        vstd::seq_lib::to_multiset_contains(s, x);
        vstd::seq_lib::to_multiset_contains(t, y);
        vstd::seq_lib::to_multiset_contains(s, y);
        vstd::seq_lib::to_multiset_contains(t, x);
        assert(t.contains(x));
        assert(s.contains(y));
        let jx = choose|j: int| 0 <= j < t.len() && t[j] == x;
        let ky = choose|k: int| 0 <= k < s.len() && s[k] == y;
        assert(t[0].0.start <= t[jx].0.start);
        assert(s[0].0.start <= s[ky].0.start);
        assert(ky == 0);
        assert(x == y);
        vstd::seq_lib::to_multiset_remove(s, 0);
        vstd::seq_lib::to_multiset_remove(t, 0);
        assert(s.remove(0) =~= s.drop_first());
        assert(t.remove(0) =~= t.drop_first());
        let s1 = s.drop_first();
        let t1 = t.drop_first();
        assert(starts_sorted(s1)) by {
            assert forall|i: int, j: int| 0 <= i < j < s1.len() implies #[trigger] s1[i].0.start <= #[trigger] s1[j].0.start by {
                assert(s1[i] == s[i + 1] && s1[j] == s[j + 1]);
            }
        }
        assert(starts_sorted(t1)) by {
            assert forall|i: int, j: int| 0 <= i < j < t1.len() implies #[trigger] t1[i].0.start <= #[trigger] t1[j].0.start by {
                assert(t1[i] == t[i + 1] && t1[j] == t[j + 1]);
            }
        }
        assert(distinct_starts(s1)) by {
            assert forall|i: int, j: int| 0 <= i < s1.len() && 0 <= j < s1.len() && i != j implies #[trigger] s1[i].0.start != #[trigger] s1[j].0.start by {
                assert(s1[i] == s[i + 1] && s1[j] == s[j + 1]);
            }
        }
        lemma_sorted_unique(s1, t1);
        assert(s =~= seq![x] + s1);
        assert(t =~= seq![y] + t1);
    }
}

/// Edits apply in any order: two lists of the same edits, no two of which
/// start at the same place, give the same text.
pub proof fn lemma_edits_apply_in_any_order(
    src: Seq<char>,
    a: Seq<(Span, Seq<char>)>,
    b: Seq<(Span, Seq<char>)>,
)
    requires
        a.to_multiset() =~= b.to_multiset(),
        distinct_starts(a),
    ensures
        splice(src, 0, sort_by_start(a)) == splice(src, 0, sort_by_start(b)),
{
    lemma_sort_by_start_props(a);
    lemma_sort_by_start_props(b);
    lemma_sorted_unique(sort_by_start(a), sort_by_start(b));
}

/// No edits, no change.
pub proof fn lemma_no_edits_change_nothing(src: Seq<char>)
    ensures
        splice(src, 0, sort_by_start(Seq::empty())) == src,
{
    assert(src.subrange(0, src.len() as int) =~= src);
}

// ---- splicing ----------------------------------------------------------------

/// The first character index from `i` on whose byte offset reaches `b`
/// (the end of `s` if none does).
pub open spec fn ceil_from(s: Seq<char>, i: int, b: int) -> int
    decreases s.len() - i,
{
    if i >= s.len() || byte_offset(s, i) >= b {
        i
    } else {
        ceil_from(s, i + 1, b)
    }
}

/// `s` from character `i` on, with the ordered edits `es` applied: the text
/// up to an edit's start, the edit's text, then on from the edit's end.
pub open spec fn splice(s: Seq<char>, i: int, es: Seq<(Span, Seq<char>)>) -> Seq<char>
    decreases es.len(),
{
    if es.len() == 0 {
        s.subrange(i, s.len() as int)
    } else {
        let a = ceil_from(s, i, es[0].0.start as int);
        let b = ceil_from(s, a, es[0].0.end as int);
        s.subrange(i, a) + es[0].1 + splice(s, b, es.subrange(1, es.len() as int))
    }
}

proof fn lemma_ceil_bounds(s: Seq<char>, i: int, b: int)
    requires
        0 <= i <= s.len(),
    ensures
        i <= ceil_from(s, i, b) <= s.len(),
    decreases s.len() - i,
{
    if i < s.len() && byte_offset(s, i) < b {
        lemma_ceil_bounds(s, i + 1, b);
    }
}

/// Bytes of the UTF-8 encoding of `c`.
fn utf8_width(c: char) -> (r: u64)
    ensures
        r == utf8_len(c),
{
    let u = c as u32;
    if u < 0x80 {
        1
    } else if u < 0x800 {
        2
    } else if u < 0x10000 {
        3
    } else {
        4
    }
}

/// Advance from character `i` (at byte offset `at`) to `ceil_from(s, i, b)`,
/// copying what is passed over to `out` when `copy` is set.
fn advance_to(cs: &Vec<char>, i: usize, at: u64, b: u32, copy: bool, out: &mut String) -> (r: (
    usize,
    u64,
))
    requires
        i <= cs@.len(),
        at == byte_offset(cs@, i as int),
    ensures
        r.0 == ceil_from(cs@, i as int, b as int),
        r.1 == byte_offset(cs@, r.0 as int),
        copy ==> final(out)@ == old(out)@ + cs@.subrange(i as int, r.0 as int),
        !copy ==> final(out)@ == old(out)@,
{
    let mut j = i;
    let mut o = at;
    while j < cs.len() && o < b as u64
        invariant
            i <= j <= cs@.len(),
            o == byte_offset(cs@, j as int),
            ceil_from(cs@, i as int, b as int) == ceil_from(cs@, j as int, b as int),
            copy ==> out@ == old(out)@ + cs@.subrange(i as int, j as int),
            !copy ==> out@ == old(out)@,
        decreases cs@.len() - j,
    {
        if copy {
            crate::text::push_char(out, cs[j]);
            assert(cs@.subrange(i as int, j + 1) =~= cs@.subrange(i as int, j as int).push(cs@[j as int]));
        }
        o = o + utf8_width(cs[j]);
        j = j + 1;
    }
    (j, o)
}

/// Apply the edits to `src`, in order of their start (edits that start
/// together in the order given).  Edits that do not overlap, with bounds
/// on character boundaries, replace exactly their ranges; a bound inside a
/// character moves to the next boundary, and a start before the end of the
/// previous edit to that end.
pub fn apply(src: &str, edits: &[SourceEdit]) -> (r: String)
    ensures
        r@ == splice(src@, 0, sort_by_start(edit_views(edits@))),
{
    let cs = crate::text::chars_of(src);
    let sorted = sorted_edits(edits);
    let ghost es = sorted@.map_values(|e: &SourceEdit| edit_view(*e));
    let mut out = String::new();
    let mut i: usize = 0;
    let mut at: u64 = 0;
    let mut k: usize = 0;
    assert(es.subrange(0, es.len() as int) =~= es);
    while k < sorted.len()
        invariant
            es == sorted@.map_values(|e: &SourceEdit| edit_view(*e)),
            cs@ == src@,
            k <= sorted@.len(),
            i <= cs@.len(),
            at == byte_offset(cs@, i as int),
            out@ + splice(cs@, i as int, es.subrange(k as int, es.len() as int)) == splice(
                cs@,
                0,
                es,
            ),
        decreases sorted@.len() - k,
    {
        let e = sorted[k];
        let ghost rest = es.subrange(k as int, es.len() as int);
        assert(rest[0] == edit_view(*e));
        assert(rest.subrange(1, rest.len() as int) =~= es.subrange(k + 1, es.len() as int));
        let ghost before = out@;
        let (a, at_a) = advance_to(&cs, i, at, e.span.start, true, &mut out);
        out.append(e.text.as_str());
        proof {
            lemma_ceil_bounds(cs@, i as int, e.span.start as int);
        }
        let (b, at_b) = advance_to(&cs, a, at_a, e.span.end, false, &mut out);
        proof {
            lemma_ceil_bounds(cs@, a as int, e.span.end as int);
            assert(out@ == before + cs@.subrange(i as int, a as int) + e.text@);
        }
        i = b;
        at = at_b;
        k = k + 1;
    }
    let ghost before = out@;
    let mut j = i;
    while j < cs.len()
        invariant
            i <= j <= cs@.len(),
            out@ == before + cs@.subrange(i as int, j as int),
        decreases cs@.len() - j,
    {
        crate::text::push_char(&mut out, cs[j]);
        assert(cs@.subrange(i as int, j + 1) =~= cs@.subrange(i as int, j as int).push(cs@[j as int]));
        j = j + 1;
    }
    assert(es.subrange(k as int, es.len() as int) =~= Seq::<(Span, Seq<char>)>::empty());
    out
}

// ---- `drive o = m` → `drive o by m` -------------------------------------------

/// The drive declarations among `ns` written with `=`, each with the span
/// of its `=`.
pub open spec fn legacy_drives(ns: Seq<SyntaxNode>) -> Seq<(SyntaxNode, Span)>
    decreases ns.len(),
{
    if ns.len() == 0 {
        Seq::empty()
    } else {
        let r = legacy_drives(ns.drop_last());
        let n = ns.last();
        if n.kind == SyntaxKind::DriveDecl && first_tok(n, SyntaxKind::Eq) is Some {
            r.push((n, first_tok(n, SyntaxKind::Eq)->0.span))
        } else {
            r
        }
    }
}

/// Every drive declaration under `root` written in the older spelling
/// `drive o = m` (the preferred one is `drive o by m`): the declaration and
/// the span of its `=`, in source order.
pub fn legacy_drive_decls<'a>(root: &'a SyntaxNode) -> (r: Vec<(DriveDecl<'a>, Span)>)
    ensures
        r@.map_values(|p: (DriveDecl<'a>, Span)| (p.0@, p.1)) == legacy_drives(desc(*root)),
{
    let ns = descendants(root);
    let mut out: Vec<(DriveDecl<'a>, Span)> = Vec::new();
    let mut i: usize = 0;
    while i < ns.len()
        invariant
            i <= ns@.len(),
            deref_nodes(ns@) == desc(*root),
            out@.map_values(|p: (DriveDecl<'a>, Span)| (p.0@, p.1)) == legacy_drives(
                deref_nodes(ns@).subrange(0, i as int),
            ),
        decreases ns@.len() - i,
    {
        let ghost pre = deref_nodes(ns@).subrange(0, i + 1);
        assert(pre.drop_last() =~= deref_nodes(ns@).subrange(0, i as int));
        assert(pre.last() == *ns@[i as int]);
        let n = ns[i];
        if n.kind == SyntaxKind::DriveDecl {
            let d = DriveDecl(n);
            match d.legacy_eq() {
                Some(eq) => {
                    let ghost before = out@;
                    out.push((d, eq.span));
                    assert(out@.map_values(|p: (DriveDecl<'a>, Span)| (p.0@, p.1)) =~= before.map_values(
                        |p: (DriveDecl<'a>, Span)| (p.0@, p.1),
                    ).push((*n, eq.span)));
                },
                None => {},
            }
        }
        i = i + 1;
    }
    assert(deref_nodes(ns@).subrange(0, i as int) =~= deref_nodes(ns@));
    out
}

/// The edits that turn each legacy drive of `ds` into `by`.
pub open spec fn by_edits(ds: Seq<(SyntaxNode, Span)>) -> Seq<(Span, Seq<char>)> {
    ds.map_values(|d: (SyntaxNode, Span)| (d.1, "by"@))
}

/// The edits that rewrite every legacy `drive o = m` under `root` as
/// `drive o by m`: the `=` token becomes `by`, nothing else moves.
pub fn drive_by_edits_in(root: &SyntaxNode) -> (r: Vec<SourceEdit>)
    ensures
        edit_views(r@) == by_edits(legacy_drives(desc(*root))),
{
    let ds = legacy_drive_decls(root);
    let ghost dv = ds@.map_values(|p: (DriveDecl, Span)| (p.0@, p.1));
    let mut out: Vec<SourceEdit> = Vec::new();
    let mut i: usize = 0;
    while i < ds.len()
        invariant
            i <= ds@.len(),
            dv == ds@.map_values(|p: (DriveDecl, Span)| (p.0@, p.1)),
            edit_views(out@) == by_edits(dv.subrange(0, i as int)),
        decreases ds@.len() - i,
    {
        let ghost before = out@;
        let by = String::from_str("by");
        let sp = ds[i].1;
        assert(sp == dv[i as int].1);
        out.push(SourceEdit { span: sp, text: by });
        assert(edit_views(out@) =~= edit_views(before).push((sp, "by"@)));
        assert(dv.subrange(0, i + 1) =~= dv.subrange(0, i as int).push(dv[i as int]));
        assert(by_edits(dv.subrange(0, i + 1)) =~= by_edits(dv.subrange(0, i as int)).push((sp, "by"@)));
        i = i + 1;
    }
    assert(dv.subrange(0, i as int) =~= dv);
    out
}

/// The outcome of a migration of `src` over a parse whose tree is `root`:
/// no change when the parse has errors, else the edits applied and their
/// count.
pub open spec fn migrated(
    src: Seq<char>,
    has_errors: bool,
    edits: Seq<(Span, Seq<char>)>,
    out: Seq<char>,
    count: int,
) -> bool {
    if has_errors {
        out == src && count == 0
    } else {
        out == splice(src, 0, sort_by_start(edits)) && count == edits.len()
    }
}

/// The edits a migration plans for a parse with or without errors: none
/// when the parse has errors, else `edits`.
pub open spec fn planned(
    has_errors: bool,
    edits: Seq<(Span, Seq<char>)>,
    r: Seq<(Span, Seq<char>)>,
) -> bool {
    if has_errors {
        r.len() == 0
    } else {
        r == edits
    }
}

/// The edits that rewrite every legacy `drive o = m` as `drive o by m`:
/// the `=` token becomes `by`, nothing else moves.  A source with syntax
/// errors yields no edits.
pub fn drive_by_edits(src: &str) -> (r: Vec<SourceEdit>)
    ensures
        exists|root: SyntaxNode, has_errors: bool|
            #![trigger planned(has_errors, by_edits(legacy_drives(desc(root))), edit_views(r@))]
            node_text(root) == src@ && root.kind == SyntaxKind::Module
                && crate::format::leaf_pairs(crate::format::leaves(root)) == crate::lexer::lexed_pairs(src@)
                && (crate::lexer::lex_diagnostics(src@).len() > 0 ==> has_errors)
                && (crate::lexer::trivia_only(src@) && crate::lexer::lex_diagnostics(src@).len() == 0
                ==> !has_errors) && planned(
                has_errors,
                by_edits(legacy_drives(desc(root))),
                edit_views(r@),
            ),
{
    let parse = parse_module(src);
    let ghost root = parse.root;
    if !parse.is_ok() {
        let r: Vec<SourceEdit> = Vec::new();
        assert(planned(true, by_edits(legacy_drives(desc(root))), edit_views(r@)));
        return r;
    }
    let r = drive_by_edits_in(&parse.root);
    assert(planned(false, by_edits(legacy_drives(desc(root))), edit_views(r@)));
    r
}

/// Rewrite every `drive o = m` as `drive o by m`: the migrated source and
/// how many drives were rewritten.  A source with syntax errors is left
/// alone (its tree's shape is not what the author means yet).
pub fn make_drives_by(src: &str) -> (r: (String, usize))
    ensures
        exists|root: SyntaxNode, has_errors: bool|
            #![trigger migrated(src@, has_errors, by_edits(legacy_drives(desc(root))), r.0@, r.1 as int)]
            node_text(root) == src@ && root.kind == SyntaxKind::Module
                && crate::format::leaf_pairs(crate::format::leaves(root)) == crate::lexer::lexed_pairs(src@)
                && (crate::lexer::lex_diagnostics(src@).len() > 0 ==> has_errors)
                && (crate::lexer::trivia_only(src@) && crate::lexer::lex_diagnostics(src@).len() == 0
                ==> !has_errors) && migrated(
                src@,
                has_errors,
                by_edits(legacy_drives(desc(root))),
                r.0@,
                r.1 as int,
            ),
{
    let parse = parse_module(src);
    let ghost root = parse.root;
    if !parse.is_ok() {
        let r = (String::from_str(src), 0);
        assert(migrated(src@, true, by_edits(legacy_drives(desc(root))), r.0@, r.1 as int));
        return r;
    }
    let edits = drive_by_edits_in(&parse.root);
    let n = edits.len();
    let r = (apply(src, edits.as_slice()), n);
    assert(migrated(src@, false, by_edits(legacy_drives(desc(root))), r.0@, r.1 as int));
    r
}

// ---- `mapping f : A` → `mapping f : () -> A` ----------------------------------

/// The mappings among `ns` whose signature is written in the output-only
/// shorthand (`mapping f : A` for `mapping f : () -> A`), each with the
/// span of its signature.
pub open spec fn legacy_signatures(ns: Seq<SyntaxNode>) -> Seq<(SyntaxNode, Span)>
    decreases ns.len(),
{
    if ns.len() == 0 {
        Seq::empty()
    } else {
        let r = legacy_signatures(ns.drop_last());
        let n = ns.last();
        if n.kind == SyntaxKind::MappingDecl && nth_kid(n, KindClass::Type, 0) is Some
            && nth_kid(n, KindClass::Type, 0)->0.kind != SyntaxKind::FunctionType {
            r.push((n, nth_kid(n, KindClass::Type, 0)->0.span))
        } else {
            r
        }
    }
}

/// Every `mapping` under `root` whose signature is written in the legacy
/// output-only shorthand: the declaration and the span of its signature,
/// in source order.  Only `mapping` declarations: a bare type is what the
/// shorthand means there and nowhere else.
pub fn legacy_unit_domain_signatures<'a>(root: &'a SyntaxNode) -> (r: Vec<(MappingDecl<'a>, Span)>)
    ensures
        r@.map_values(|p: (MappingDecl<'a>, Span)| (p.0@, p.1)) == legacy_signatures(desc(*root)),
{
    let ns = descendants(root);
    let mut out: Vec<(MappingDecl<'a>, Span)> = Vec::new();
    let mut i: usize = 0;
    while i < ns.len()
        invariant
            i <= ns@.len(),
            deref_nodes(ns@) == desc(*root),
            out@.map_values(|p: (MappingDecl<'a>, Span)| (p.0@, p.1)) == legacy_signatures(
                deref_nodes(ns@).subrange(0, i as int),
            ),
        decreases ns@.len() - i,
    {
        let ghost pre = deref_nodes(ns@).subrange(0, i + 1);
        assert(pre.drop_last() =~= deref_nodes(ns@).subrange(0, i as int));
        assert(pre.last() == *ns@[i as int]);
        let n = ns[i];
        if n.kind == SyntaxKind::MappingDecl {
            let m = MappingDecl(n);
            match m.signature() {
                Some(Type::Function(_)) => {},
                Some(sig) => {
                    let ghost before = out@;
                    out.push((m, sig.syntax().span));
                    assert(out@.map_values(|p: (MappingDecl<'a>, Span)| (p.0@, p.1)) =~= before.map_values(
                        |p: (MappingDecl<'a>, Span)| (p.0@, p.1),
                    ).push((*n, sig@.span)));
                },
                None => {},
            }
        }
        i = i + 1;
    }
    assert(deref_nodes(ns@).subrange(0, i as int) =~= deref_nodes(ns@));
    out
}

/// The edits that insert `() -> ` before each legacy signature of `ms`.
pub open spec fn unit_domain_edits(ms: Seq<(SyntaxNode, Span)>) -> Seq<(Span, Seq<char>)> {
    ms.map_values(|m: (SyntaxNode, Span)| (Span { start: m.1.start, end: m.1.start }, "() -> "@))
}

/// The edits that make every legacy output-only signature under `root`
/// explicit: an insertion of `() -> ` before each such signature.
pub fn explicit_unit_domain_edits_in(root: &SyntaxNode) -> (r: Vec<SourceEdit>)
    ensures
        edit_views(r@) == unit_domain_edits(legacy_signatures(desc(*root))),
{
    let ms = legacy_unit_domain_signatures(root);
    let ghost mv = ms@.map_values(|p: (MappingDecl, Span)| (p.0@, p.1));
    let mut out: Vec<SourceEdit> = Vec::new();
    let mut i: usize = 0;
    while i < ms.len()
        invariant
            i <= ms@.len(),
            mv == ms@.map_values(|p: (MappingDecl, Span)| (p.0@, p.1)),
            edit_views(out@) == unit_domain_edits(mv.subrange(0, i as int)),
        decreases ms@.len() - i,
    {
        let ghost before = out@;
        let start = ms[i].1.start;
        assert(start == mv[i as int].1.start);
        let arrow = String::from_str("() -> ");
        let sp = Span::new(start, start);
        out.push(SourceEdit { span: sp, text: arrow });
        assert(edit_views(out@) =~= edit_views(before).push((sp, "() -> "@)));
        assert(mv.subrange(0, i + 1) =~= mv.subrange(0, i as int).push(mv[i as int]));
        assert(unit_domain_edits(mv.subrange(0, i + 1)) =~= unit_domain_edits(mv.subrange(0, i as int)).push((sp, "() -> "@)));
        i = i + 1;
    }
    assert(mv.subrange(0, i as int) =~= mv);
    out
}

/// The edits that make every legacy output-only signature explicit: an
/// insertion of `() -> ` before each such signature.  A source with syntax
/// errors yields no edits.
pub fn explicit_unit_domain_edits(src: &str) -> (r: Vec<SourceEdit>)
    ensures
        exists|root: SyntaxNode, has_errors: bool|
            #![trigger planned(has_errors, unit_domain_edits(legacy_signatures(desc(root))), edit_views(r@))]
            node_text(root) == src@ && root.kind == SyntaxKind::Module
                && crate::format::leaf_pairs(crate::format::leaves(root)) == crate::lexer::lexed_pairs(src@)
                && (crate::lexer::lex_diagnostics(src@).len() > 0 ==> has_errors)
                && (crate::lexer::trivia_only(src@) && crate::lexer::lex_diagnostics(src@).len() == 0
                ==> !has_errors) && planned(
                has_errors,
                unit_domain_edits(legacy_signatures(desc(root))),
                edit_views(r@),
            ),
{
    let parse = parse_module(src);
    let ghost root = parse.root;
    if !parse.is_ok() {
        let r: Vec<SourceEdit> = Vec::new();
        assert(planned(true, unit_domain_edits(legacy_signatures(desc(root))), edit_views(r@)));
        return r;
    }
    let r = explicit_unit_domain_edits_in(&parse.root);
    assert(planned(false, unit_domain_edits(legacy_signatures(desc(root))), edit_views(r@)));
    r
}

/// Make every legacy output-only signature explicit: the migrated source
/// and how many signatures were rewritten.  A source with syntax errors is
/// left alone.
pub fn make_unit_domains_explicit(src: &str) -> (r: (String, usize))
    ensures
        exists|root: SyntaxNode, has_errors: bool|
            #![trigger migrated(src@, has_errors, unit_domain_edits(legacy_signatures(desc(root))), r.0@, r.1 as int)]
            node_text(root) == src@ && root.kind == SyntaxKind::Module
                && crate::format::leaf_pairs(crate::format::leaves(root)) == crate::lexer::lexed_pairs(src@)
                && (crate::lexer::lex_diagnostics(src@).len() > 0 ==> has_errors)
                && (crate::lexer::trivia_only(src@) && crate::lexer::lex_diagnostics(src@).len() == 0
                ==> !has_errors) && migrated(
                src@,
                has_errors,
                unit_domain_edits(legacy_signatures(desc(root))),
                r.0@,
                r.1 as int,
            ),
{
    let parse = parse_module(src);
    let ghost root = parse.root;
    if !parse.is_ok() {
        let r = (String::from_str(src), 0);
        assert(migrated(src@, true, unit_domain_edits(legacy_signatures(desc(root))), r.0@, r.1 as int));
        return r;
    }
    let edits = explicit_unit_domain_edits_in(&parse.root);
    let n = edits.len();
    let r = (apply(src, edits.as_slice()), n);
    assert(migrated(src@, false, unit_domain_edits(legacy_signatures(desc(root))), r.0@, r.1 as int));
    r
}


proof fn lemma_ascii_offsets(s: Seq<char>, i: int)
    requires
        0 <= i <= s.len(),
        forall|j: int| 0 <= j < s.len() ==> utf8_len(#[trigger] s[j]) == 1,
    ensures
        byte_offset(s, i) == i,
    decreases i,
{
    if i > 0 {
        lemma_ascii_offsets(s, i - 1);
        assert(utf8_len(s[i - 1]) == 1);
    }
}

proof fn lemma_ascii_ceil(s: Seq<char>, i: int, b: int)
    requires
        0 <= i <= b <= s.len(),
        forall|j: int| 0 <= j < s.len() ==> utf8_len(#[trigger] s[j]) == 1,
    ensures
        ceil_from(s, i, b) == b,
    decreases s.len() - i,
{
    lemma_ascii_offsets(s, i);
    if i < b {
        lemma_ascii_ceil(s, i + 1, b);
    }
}

/// In a source of one-byte characters, one edit whose range lies in the
/// source replaces exactly that range with its text and keeps the rest.
pub proof fn lemma_one_edit_replaces_its_range(s: Seq<char>, span: Span, text: Seq<char>)
    requires
        forall|j: int| 0 <= j < s.len() ==> utf8_len(#[trigger] s[j]) == 1,
        span.start <= span.end <= s.len(),
    ensures
        splice(s, 0, sort_by_start(seq![(span, text)])) == s.subrange(0, span.start as int) + text
            + s.subrange(span.end as int, s.len() as int),
{
    let es = seq![(span, text)];
    let none = Seq::<(Span, Seq<char>)>::empty();
    assert(es.drop_last() =~= none);
    assert(sort_by_start(none) == none);
    assert(sort_by_start(es) == insert_by_start(es.last(), sort_by_start(es.drop_last())));
    assert(insert_by_start(es.last(), none) == seq![es.last()]);
    assert(sort_by_start(es) =~= es);
    let a = span.start as int;
    let b = span.end as int;
    lemma_ascii_ceil(s, 0, a);
    lemma_ascii_ceil(s, a, b);
    assert(es.subrange(1, 1) =~= Seq::<(Span, Seq<char>)>::empty());
    assert(splice(s, b, es.subrange(1, 1)) == s.subrange(b, s.len() as int));
    assert(splice(s, 0, es) == s.subrange(0, a) + text + splice(s, b, es.subrange(1, 1)));
}

} // verus!
