//! The unit expression written after a number: the symbols that may
//! continue a unit after `*`, and the whole-number exponents after `^`.
use crate::ast::support::{child_tokens, toks};
use crate::kind::SyntaxKind;
use crate::literal::parse_i64;
use crate::lower::{SurfaceUnitFactor, Unit};
use crate::syntax::{SyntaxNode, SyntaxToken};
use crate::text::{i64_text, int_text, push_char, str_eq};
use vstd::prelude::*;

verus! {

/// The symbols a unit may continue with after `*` (`1 N * m`).  Any other
/// name after `*` is a value (`90 deg * gain`).
pub open spec fn spec_unit_symbol(s: Seq<char>) -> bool {
    ||| s == "m"@ || s == "s"@ || s == "kg"@ || s == "g"@ || s == "A"@ || s == "K"@
    ||| s == "mol"@ || s == "cd"@ || s == "N"@ || s == "J"@ || s == "W"@ || s == "Pa"@
    ||| s == "Hz"@ || s == "V"@ || s == "C"@ || s == "rad"@ || s == "sr"@ || s == "deg"@
    ||| s == "turn"@ || s == "rev"@ || s == "min"@ || s == "h"@ || s == "ms"@ || s == "us"@
    ||| s == "mm"@ || s == "cm"@ || s == "km"@ || s == "mg"@ || s == "mA"@ || s == "mV"@
    ||| s == "kN"@ || s == "kW"@ || s == "kHz"@ || s == "bar"@
}

/// Whether `s` is one of the unit symbols.
pub fn is_unit_symbol(s: &str) -> (r: bool)
    ensures
        r == spec_unit_symbol(s@),
{
    str_eq(s, "m") || str_eq(s, "s") || str_eq(s, "kg") || str_eq(s, "g") || str_eq(s, "A")
        || str_eq(s, "K") || str_eq(s, "mol") || str_eq(s, "cd") || str_eq(s, "N") || str_eq(
        s,
        "J",
    ) || str_eq(s, "W") || str_eq(s, "Pa") || str_eq(s, "Hz") || str_eq(s, "V") || str_eq(
        s,
        "C",
    ) || str_eq(s, "rad") || str_eq(s, "sr") || str_eq(s, "deg") || str_eq(s, "turn")
        || str_eq(s, "rev") || str_eq(s, "min") || str_eq(s, "h") || str_eq(s, "ms") || str_eq(
        s,
        "us",
    ) || str_eq(s, "mm") || str_eq(s, "cm") || str_eq(s, "km") || str_eq(s, "mg") || str_eq(
        s,
        "mA",
    ) || str_eq(s, "mV") || str_eq(s, "kN") || str_eq(s, "kW") || str_eq(s, "kHz") || str_eq(
        s,
        "bar",
    )
}

/// The value of an exponent written as the number `s`: a whole number
/// that fits in an `i64`, or nothing.
pub fn exponent_value(s: &str) -> (r: Option<i64>)
    ensures
        r == parse_i64(s@),
{
    let cs = crate::text::chars_of(s);
    let n = cs.len();
    let r = crate::literal::parse_i64_c(cs.as_slice(), 0, n);
    assert(cs@.subrange(0, n as int) =~= s@);
    r
}

// ---- reading a unit ------------------------------------------------------------

/// A factor as plain values: its symbol and its exponent.
pub open spec fn factor_view(f: SurfaceUnitFactor) -> (Seq<char>, i64) {
    (f.symbol@, f.exponent)
}

pub open spec fn factors_view(v: Seq<SurfaceUnitFactor>) -> Seq<(Seq<char>, i64)> {
    v.map_values(|f: SurfaceUnitFactor| factor_view(f))
}

/// Where reading a unit's tokens stands: the numerator and denominator
/// factors so far, whether `per` has been passed, whether an exponent is
/// due after `^`, and whether that exponent is negative.
pub open spec fn unit_start() -> (Seq<(Seq<char>, i64)>, Seq<(Seq<char>, i64)>, bool, bool, bool) {
    (Seq::empty(), Seq::empty(), false, false, false)
}

/// `side` with the exponent of its last factor set to `e`.
pub open spec fn with_exponent(side: Seq<(Seq<char>, i64)>, e: i64) -> Seq<(Seq<char>, i64)> {
    if side.len() == 0 {
        side
    } else {
        side.update(side.len() - 1, (side.last().0, e))
    }
}

/// The word `per`.
pub open spec fn per_word() -> Seq<char> {
    seq!['p', 'e', 'r']
}

/// One token read: a name other than `per` is a factor with exponent 1 on
/// the side reached so far; `per` moves to the denominator; `^`, an
/// optional `-` and a whole number set the last factor's exponent.
pub open spec fn unit_step(
    st: (Seq<(Seq<char>, i64)>, Seq<(Seq<char>, i64)>, bool, bool, bool),
    t: SyntaxToken,
) -> (Seq<(Seq<char>, i64)>, Seq<(Seq<char>, i64)>, bool, bool, bool) {
    let (num, den, per, pow, neg) = st;
    if t.kind == SyntaxKind::Ident {
        if t.text@ == per_word() {
            (num, den, true, false, false)
        } else if per {
            (num, den.push((t.text@, 1i64)), per, false, false)
        } else {
            (num.push((t.text@, 1i64)), den, per, false, false)
        }
    } else if t.kind == SyntaxKind::Caret {
        (num, den, per, true, false)
    } else if t.kind == SyntaxKind::Minus && pow {
        (num, den, per, true, true)
    } else if t.kind == SyntaxKind::Number && pow {
        match parse_i64(t.text@) {
            Some(v) => {
                let e = if neg && v > i64::MIN {
                    (-v) as i64
                } else {
                    v
                };
                if per {
                    (num, with_exponent(den, e), per, false, false)
                } else {
                    (with_exponent(num, e), den, per, false, false)
                }
            },
            None => (num, den, per, false, false),
        }
    } else {
        st
    }
}

/// The reading after the tokens `ts`, in order.
pub open spec fn unit_read(ts: Seq<SyntaxToken>) -> (
    Seq<(Seq<char>, i64)>,
    Seq<(Seq<char>, i64)>,
    bool,
    bool,
    bool,
)
    decreases ts.len(),
{
    if ts.len() == 0 {
        unit_start()
    } else {
        unit_step(unit_read(ts.drop_last()), ts.last())
    }
}

/// A factor spelled: `s`, `s^2`, `s^-1`.
pub open spec fn factor_spelling(f: (Seq<char>, i64)) -> Seq<char> {
    if f.1 == 1 {
        f.0
    } else {
        f.0 + seq!['^'] + int_text(f.1 as int)
    }
}

/// Factors spelled and joined by ` * `.
pub open spec fn product_spelling(fs: Seq<(Seq<char>, i64)>) -> Seq<char>
    decreases fs.len(),
{
    if fs.len() == 0 {
        Seq::empty()
    } else if fs.len() == 1 {
        factor_spelling(fs[0])
    } else {
        product_spelling(fs.drop_last()) + seq![' ', '*', ' '] + factor_spelling(fs.last())
    }
}

/// The canonical spelling of a unit: `kg * m per s^2`.
pub open spec fn unit_spelling(num: Seq<(Seq<char>, i64)>, den: Seq<(Seq<char>, i64)>) -> Seq<
    char,
> {
    if den.len() == 0 {
        product_spelling(num)
    } else {
        product_spelling(num) + seq![' ', 'p', 'e', 'r', ' '] + product_spelling(den)
    }
}

/// `u` is what the unit suffix node `us` reads as.
pub open spec fn unit_reads(us: SyntaxNode, u: Unit) -> bool {
    let st = unit_read(toks(us));
    &&& u.span == us.span
    &&& factors_view(u.numerator@) == st.0
    &&& factors_view(u.denominator@) == st.1
    &&& u.name@ == unit_spelling(st.0, st.1)
}

/// Append `f` spelled to `out`.
fn push_factor(out: &mut String, f: &SurfaceUnitFactor)
    ensures
        final(out)@ == old(out)@ + factor_spelling(factor_view(*f)),
{
    out.append(f.symbol.as_str());
    if f.exponent != 1 {
        push_char(out, '^');
        let e = i64_text(f.exponent);
        out.append(e.as_str());
    }
}

/// Append the factors `fs` spelled and joined by ` * ` to `out`.
fn push_product(out: &mut String, fs: &Vec<SurfaceUnitFactor>)
    ensures
        final(out)@ == old(out)@ + product_spelling(factors_view(fs@)),
{
    let ghost start = out@;
    let mut i: usize = 0;
    while i < fs.len()
        invariant
            i <= fs@.len(),
            out@ == start + product_spelling(factors_view(fs@.take(i as int))),
        decreases fs@.len() - i,
    {
        let ghost before = out@;
        if i > 0 {
            push_char(out, ' ');
            push_char(out, '*');
            push_char(out, ' ');
        }
        push_factor(out, &fs[i]);
        proof {
            let v = factors_view(fs@.take(i + 1));
            assert(v.drop_last() =~= factors_view(fs@.take(i as int)));
            assert(v.last() == factor_view(fs@[i as int]));
            if i == 0 {
                assert(v.len() == 1);
                assert(product_spelling(factors_view(fs@.take(0))) =~= Seq::<char>::empty());
            }
        }
        i = i + 1;
    }
    assert(fs@.take(fs@.len() as int) =~= fs@);
}

/// The last factor of `side`, with exponent `e`.
fn set_exponent(side: &mut Vec<SurfaceUnitFactor>, e: i64)
    ensures
        factors_view(final(side)@) == with_exponent(factors_view(old(side)@), e),
{
    match side.pop() {
        Some(f) => {
            side.push(SurfaceUnitFactor { symbol: f.symbol, exponent: e });
            assert(factors_view(side@) =~= with_exponent(factors_view(old(side)@), e));
        },
        None => {},
    }
}

/// Read the unit written in the suffix node `us`.
pub fn read_unit(us: &SyntaxNode) -> (u: Unit)
    ensures
        unit_reads(*us, u),
{
    let ts = child_tokens(us);
    let ghost s = toks(*us);
    let mut num: Vec<SurfaceUnitFactor> = Vec::new();
    let mut den: Vec<SurfaceUnitFactor> = Vec::new();
    let mut per = false;
    let mut pow = false;
    let mut neg = false;
    let mut i: usize = 0;
    assert(s.take(0) =~= Seq::<SyntaxToken>::empty());
    while i < ts.len()
        invariant
            ts@.map_values(|x: &SyntaxToken| *x) == s,
            i <= ts@.len(),
            (factors_view(num@), factors_view(den@), per, pow, neg) == unit_read(s.take(i as int)),
        decreases ts@.len() - i,
    {
        let t = ts[i];
        proof {
            assert(s.take(i + 1).drop_last() =~= s.take(i as int));
            assert(s.take(i + 1).last() == *t);
        }
        if t.kind == SyntaxKind::Ident {
            if str_eq(t.text.as_str(), "per") {
                proof {
                    reveal_strlit("per");
                    assert("per"@ =~= per_word());
                }
                per = true;
            } else {
                proof {
                    reveal_strlit("per");
                    assert("per"@ =~= per_word());
                }
                let f = SurfaceUnitFactor { symbol: t.text.clone(), exponent: 1 };
                if per {
                    den.push(f);
                    assert(factors_view(den@) =~= unit_read(s.take(i as int)).1.push((t.text@, 1i64)));
                } else {
                    num.push(f);
                    assert(factors_view(num@) =~= unit_read(s.take(i as int)).0.push((t.text@, 1i64)));
                }
            }
            pow = false;
            neg = false;
        } else if t.kind == SyntaxKind::Caret {
            pow = true;
            neg = false;
        } else if t.kind == SyntaxKind::Minus && pow {
            neg = true;
        } else if t.kind == SyntaxKind::Number && pow {
            match exponent_value(t.text.as_str()) {
                Some(v) => {
                    let e = if neg && v > i64::MIN {
                        -v
                    } else {
                        v
                    };
                    if per {
                        set_exponent(&mut den, e);
                    } else {
                        set_exponent(&mut num, e);
                    }
                },
                None => {},
            }
            pow = false;
            neg = false;
        }
        i = i + 1;
    }
    assert(s.take(ts@.len() as int) =~= s);
    let mut name = String::new();
    push_product(&mut name, &num);
    if den.len() > 0 {
        name.append(" per ");
        proof {
            reveal_strlit(" per ");
            assert(" per "@ =~= seq![' ', 'p', 'e', 'r', ' ']);
        }
        push_product(&mut name, &den);
    }
    Unit { name, span: us.span, numerator: num, denominator: den }
}

// ---- what the factors are ----------------------------------------------------------

/// The names among `ts`, in order, other than `per` (the names a unit's
/// factors are made of).
pub open spec fn unit_names(ts: Seq<SyntaxToken>) -> Seq<Seq<char>>
    decreases ts.len(),
{
    if ts.len() == 0 {
        Seq::empty()
    } else if ts.last().kind == SyntaxKind::Ident && ts.last().text@ != per_word() {
        unit_names(ts.drop_last()).push(ts.last().text@)
    } else {
        unit_names(ts.drop_last())
    }
}

/// Where the first `per` of `ts` is.
pub open spec fn first_per(ts: Seq<SyntaxToken>) -> Option<int>
    decreases ts.len(),
{
    if ts.len() == 0 {
        None
    } else {
        match first_per(ts.drop_last()) {
            Some(p) => Some(p),
            None => if ts.last().kind == SyntaxKind::Ident && ts.last().text@ == per_word() {
                Some(ts.len() - 1)
            } else {
                None
            },
        }
    }
}

/// The symbols of some factors.
pub open spec fn symbols(fs: Seq<(Seq<char>, i64)>) -> Seq<Seq<char>> {
    fs.map_values(|f: (Seq<char>, i64)| f.0)
}

proof fn lemma_exponent_keeps_symbols(side: Seq<(Seq<char>, i64)>, e: i64)
    ensures
        symbols(with_exponent(side, e)) == symbols(side),
{
    assert(symbols(with_exponent(side, e)) =~= symbols(side));
}

proof fn lemma_unit_read_sides(ts: Seq<SyntaxToken>)
    ensures
        unit_read(ts).2 == first_per(ts) is Some,
        first_per(ts) is None ==> symbols(unit_read(ts).0) == unit_names(ts) && unit_read(ts).1.len() == 0,
        first_per(ts) matches Some(p) ==> 0 <= p < ts.len() && symbols(unit_read(ts).0) == unit_names(
            ts.take(p),
        ) && symbols(unit_read(ts).1) == unit_names(ts.skip(p + 1)),
    decreases ts.len(),
{
    if ts.len() > 0 {
        let q = ts.drop_last();
        let t = ts.last();
        lemma_unit_read_sides(q);
        let st = unit_read(q);
        lemma_exponent_keeps_symbols(st.0, 0);
        assert forall|e: i64| #[trigger] symbols(with_exponent(st.0, e)) == symbols(st.0) by {
            lemma_exponent_keeps_symbols(st.0, e);
        }
        assert forall|e: i64| #[trigger] symbols(with_exponent(st.1, e)) == symbols(st.1) by {
            lemma_exponent_keeps_symbols(st.1, e);
        }
        assert(symbols(st.0.push((t.text@, 1i64))) =~= symbols(st.0).push(t.text@));
        assert(symbols(st.1.push((t.text@, 1i64))) =~= symbols(st.1).push(t.text@));
        match first_per(q) {
            Some(p) => {
                assert(ts.take(p) =~= q.take(p));
                if p + 1 < ts.len() {
                    assert(ts.skip(p + 1).drop_last() =~= q.skip(p + 1));
                    assert(ts.skip(p + 1).last() == t);
                }
            },
            None => {
                if t.kind == SyntaxKind::Ident && t.text@ == per_word() {
                    assert(ts.take(ts.len() - 1) =~= q);
                    assert(ts.skip(ts.len() as int) =~= Seq::<SyntaxToken>::empty());
                    assert(symbols(st.1) =~= Seq::<Seq<char>>::empty());
                } else {
                    assert(symbols(st.1) =~= Seq::<Seq<char>>::empty());
                }
            },
        }
    }
}

/// A unit's numerator is made of the names written before `per` and its
/// denominator of the names written after it, each in the order written
/// (`J per kg * K` has `J` above and `kg`, `K` below).
pub proof fn lemma_unit_sides(us: SyntaxNode, u: Unit)
    requires
        unit_reads(us, u),
    ensures
        first_per(toks(us)) is None ==> u.numerator@.map_values(|f: SurfaceUnitFactor| f.symbol@)
            == unit_names(toks(us)) && u.denominator@.len() == 0,
        first_per(toks(us)) matches Some(p) ==> u.numerator@.map_values(|f: SurfaceUnitFactor| f.symbol@)
            == unit_names(toks(us).take(p)) && u.denominator@.map_values(|f: SurfaceUnitFactor| f.symbol@)
            == unit_names(toks(us).skip(p + 1)),
{
    lemma_unit_read_sides(toks(us));
    assert(u.numerator@.map_values(|f: SurfaceUnitFactor| f.symbol@) =~= symbols(factors_view(u.numerator@)));
    assert(u.denominator@.map_values(|f: SurfaceUnitFactor| f.symbol@) =~= symbols(factors_view(u.denominator@)));
}


/// A factor written `s ^ n` (or `s ^ - n`) after some tokens `ts` joins
/// the side reached so far, last, with exponent `n` (or `-n`); the other
/// side stays as it was.
pub proof fn lemma_unit_factor_with_exponent(
    ts: Seq<SyntaxToken>,
    name: SyntaxToken,
    caret: SyntaxToken,
    minus: SyntaxToken,
    num: SyntaxToken,
    neg: bool,
    v: i64,
)
    requires
        name.kind == SyntaxKind::Ident,
        name.text@ != per_word(),
        caret.kind == SyntaxKind::Caret,
        minus.kind == SyntaxKind::Minus,
        num.kind == SyntaxKind::Number,
        parse_i64(num.text@) == Some(v),
        v > i64::MIN,
    ensures
        ({
            let tail = if neg { seq![name, caret, minus, num] } else { seq![name, caret, num] };
            let before = unit_read(ts);
            let after = unit_read(ts + tail);
            let f = (name.text@, if neg { (-v) as i64 } else { v });
            &&& after.2 == before.2
            &&& before.2 ==> after.0 == before.0 && after.1 == before.1.push(f)
            &&& !before.2 ==> after.0 == before.0.push(f) && after.1 == before.1
        }),
{
    let before = unit_read(ts);
    let t1 = ts.push(name);
    let t2 = t1.push(caret);
    assert(t1.drop_last() =~= ts);
    assert(t2.drop_last() =~= t1);
    let s1 = unit_read(t1);
    let s2 = unit_read(t2);
    let e: i64 = if neg { (-v) as i64 } else { v };
    let f = (name.text@, e);
    assert(with_exponent(before.0.push((name.text@, 1i64)), e) =~= before.0.push(f));
    assert(with_exponent(before.1.push((name.text@, 1i64)), e) =~= before.1.push(f));
    if neg {
        let t3 = t2.push(minus);
        let t4 = t3.push(num);
        assert(t3.drop_last() =~= t2);
        assert(t4.drop_last() =~= t3);
        assert(ts + seq![name, caret, minus, num] =~= t4);
        assert(unit_read(t3) == (s2.0, s2.1, s2.2, true, true));
    } else {
        let t3 = t2.push(num);
        assert(t3.drop_last() =~= t2);
        assert(ts + seq![name, caret, num] =~= t3);
    }
}

} // verus!
