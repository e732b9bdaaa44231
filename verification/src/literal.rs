//! Number literals as *spellings* with an exact decimal reading.  Nothing
//! here produces a machine number: `0.1` stays `"0.1"`, and
//! [`NumberLiteral::decimal`] reads it as the exact `1 × 10⁻¹`.
use crate::text::{chars_of, push_char, string_of};
use vstd::prelude::*;

verus! {

/// The source text of a number token.  Equality is spelling equality:
/// `1.0` ≠ `1`.
#[derive(Clone, Debug, PartialEq, Eq)]
pub struct NumberLiteral {
    pub text: String,
}

/// An exact decimal: `digits × 10^exponent`, `digits` a non-empty run of
/// ASCII digits without leading zeros (`"0"` for zero).
#[derive(Clone, Debug, PartialEq, Eq)]
pub struct Decimal {
    pub digits: String,
    pub exponent: i64,
}

pub open spec fn is_digit_char(c: char) -> bool {
    '0' <= c && c <= '9'
}

pub open spec fn all_digits(s: Seq<char>) -> bool {
    forall|i: int| 0 <= i < s.len() ==> #[trigger] is_digit_char(s[i])
}

/// The first index of `s` holding a character of `cs`, if any.
pub open spec fn find_any(s: Seq<char>, cs: Seq<char>, from: int) -> Option<int>
    decreases s.len() - from,
{
    if from < 0 || from >= s.len() {
        None
    } else if cs.contains(s[from]) {
        Some(from)
    } else {
        find_any(s, cs, from + 1)
    }
}

/// The value of a run of decimal digits.
pub open spec fn digits_value(s: Seq<char>) -> int
    decreases s.len(),
{
    if s.len() == 0 {
        0
    } else {
        10 * digits_value(s.drop_last()) + (s.last() as int - '0' as int)
    }
}

/// `i64::from_str`: an optional sign, then one or more digits, in range.
pub open spec fn parse_i64(s: Seq<char>) -> Option<i64> {
    let neg = s.len() > 0 && s[0] == '-';
    let body = if s.len() > 0 && (s[0] == '-' || s[0] == '+') {
        s.skip(1)
    } else {
        s
    };
    let v = if neg {
        -digits_value(body)
    } else {
        digits_value(body)
    };
    if body.len() > 0 && all_digits(body) && i64::MIN <= v <= i64::MAX {
        Some(v as i64)
    } else {
        None
    }
}

/// `s` without its leading `'0'`s.
pub open spec fn trim_leading_zeros(s: Seq<char>) -> Seq<char>
    decreases s.len(),
{
    if s.len() > 0 && s[0] == '0' {
        trim_leading_zeros(s.skip(1))
    } else {
        s
    }
}

/// `s` without its trailing `'0'`s.
pub open spec fn trim_trailing_zeros(s: Seq<char>) -> Seq<char>
    decreases s.len(),
{
    if s.len() > 0 && s.last() == '0' {
        trim_trailing_zeros(s.drop_last())
    } else {
        s
    }
}

/// The exact reading of a number spelling: `(digits, exponent)`.
pub open spec fn spec_decimal(t: Seq<char>) -> Option<(Seq<char>, i64)> {
    let e = find_any(t, seq!['e', 'E'], 0);
    let mantissa = match e {
        Some(i) => t.subrange(0, i),
        None => t,
    };
    let exp = match e {
        Some(i) => parse_i64(t.subrange(i + 1, t.len() as int)),
        None => Some(0i64),
    };
    let dot = find_any(mantissa, seq!['.'], 0);
    let int_part = match dot {
        Some(i) => mantissa.subrange(0, i),
        None => mantissa,
    };
    let frac_part = match dot {
        Some(i) => mantissa.subrange(i + 1, mantissa.len() as int),
        None => Seq::empty(),
    };
    let digits = trim_leading_zeros(int_part + frac_part);
    match exp {
        None => None,
        Some(x) => if !all_digits(int_part) || !all_digits(frac_part) || (int_part.len() == 0
            && frac_part.len() == 0) || x - frac_part.len() < i64::MIN {
            None
        } else if digits.len() == 0 {
            Some((seq!['0'], 0i64))
        } else {
            Some((digits, (x - frac_part.len()) as i64))
        },
    }
}

/// The canonical form: trailing zeros folded into the exponent.
pub open spec fn spec_normalized(digits: Seq<char>, exponent: i64) -> (Seq<char>, i64) {
    if digits == seq!['0'] {
        (seq!['0'], 0i64)
    } else {
        let trimmed = trim_trailing_zeros(digits);
        let zeros = digits.len() - trimmed.len();
        (
            trimmed,
            if exponent + zeros > i64::MAX {
                i64::MAX
            } else {
                (exponent + zeros) as i64
            },
        )
    }
}

/// Whether the spelling has a fraction or an exponent.
pub fn has_fraction_or_exponent(text: &str) -> (r: bool)
    ensures
        r == (text@.contains('.') || text@.contains('e') || text@.contains('E')),
{
    let cs = chars_of(text);
    let mut i: usize = 0;
    while i < cs.len()
        invariant
            cs@ == text@,
            i <= cs@.len(),
            forall|j: int| 0 <= j < i ==> cs@[j] != '.' && cs@[j] != 'e' && cs@[j] != 'E',
        decreases cs@.len() - i,
    {
        if cs[i] == '.' || cs[i] == 'e' || cs[i] == 'E' {
            return true;
        }
        i = i + 1;
    }
    false
}

fn find_any_c(s: &[char], a: char, b: char, from: usize) -> (r: Option<usize>)
    requires
        from <= s@.len(),
    ensures
        r matches Some(i) ==> find_any(s@, seq![a, b], from as int) == Some(i as int)
            && i < s@.len(),
        r is None ==> find_any(s@, seq![a, b], from as int) is None,
{
    let mut i = from;
    while i < s.len()
        invariant
            from <= i <= s@.len(),
            find_any(s@, seq![a, b], i as int) == find_any(s@, seq![a, b], from as int),
        decreases s@.len() - i,
    {
        if s[i] == a || s[i] == b {
            assert(seq![a, b].contains(s@[i as int])) by {
                if s@[i as int] == a {
                    assert(seq![a, b][0] == a);
                } else {
                    assert(seq![a, b][1] == b);
                }
            }
            return Some(i);
        }
        assert(!seq![a, b].contains(s@[i as int])) by {
            if seq![a, b].contains(s@[i as int]) {
                let k = choose|k: int| 0 <= k < 2 && seq![a, b][k] == s@[i as int];
                assert(k == 0 || k == 1);
            }
        }
        i = i + 1;
    }
    None
}

fn all_digits_c(s: &[char], lo: usize, hi: usize) -> (r: bool)
    requires
        lo <= hi <= s@.len(),
    ensures
        r == all_digits(s@.subrange(lo as int, hi as int)),
{
    let mut i = lo;
    while i < hi
        invariant
            lo <= i <= hi <= s@.len(),
            all_digits(s@.subrange(lo as int, i as int)),
        decreases hi - i,
    {
        if !('0' <= s[i] && s[i] <= '9') {
            assert(s@.subrange(lo as int, hi as int)[i - lo] == s@[i as int]);
            assert(!is_digit_char(s@.subrange(lo as int, hi as int)[i - lo]));
            return false;
        }
        assert(forall|j: int|
            0 <= j < i + 1 - lo ==> #[trigger] s@.subrange(lo as int, i + 1)[j] == s@[lo + j]);
        i = i + 1;
    }
    true
}

pub proof fn lemma_digits_value_nonneg(s: Seq<char>)
    requires
        all_digits(s),
    ensures
        digits_value(s) >= 0,
    decreases s.len(),
{
    if s.len() > 0 {
        assert(all_digits(s.drop_last())) by {
            assert forall|i: int| 0 <= i < s.drop_last().len() implies #[trigger] is_digit_char(
                s.drop_last()[i],
            ) by {
                assert(s.drop_last()[i] == s[i]);
            }
        }
        lemma_digits_value_nonneg(s.drop_last());
        assert(is_digit_char(s[s.len() - 1]));
    }
}

/// `i64::from_str` over `s[lo..hi]`.
pub(crate) fn parse_i64_c(s: &[char], lo: usize, hi: usize) -> (r: Option<i64>)
    requires
        lo <= hi <= s@.len(),
    ensures
        r == parse_i64(s@.subrange(lo as int, hi as int)),
{
    let ghost t = s@.subrange(lo as int, hi as int);
    let neg = hi > lo && s[lo] == '-';
    let start = if hi > lo && (s[lo] == '-' || s[lo] == '+') {
        lo + 1
    } else {
        lo
    };
    let ghost body = s@.subrange(start as int, hi as int);
    assert(body =~= if t.len() > 0 && (t[0] == '-' || t[0] == '+') {
        t.skip(1)
    } else {
        t
    });
    if start == hi || !all_digits_c(s, start, hi) {
        return None;
    }
    // magnitude, stopping once it is certainly out of range
    let limit: u128 = 0x8000_0000_0000_0000;
    let mut mag: u128 = 0;
    let mut i = start;
    while i < hi
        invariant
            start <= i <= hi <= s@.len(),
            all_digits(body),
            body == s@.subrange(start as int, hi as int),
            mag == digits_value(s@.subrange(start as int, i as int)),
            limit == 0x8000_0000_0000_0000u128,
            mag <= limit,
            t == s@.subrange(lo as int, hi as int),
            body =~= if t.len() > 0 && (t[0] == '-' || t[0] == '+') {
                t.skip(1)
            } else {
                t
            },
            neg == (t.len() > 0 && t[0] == '-'),
        decreases hi - i,
    {
        assert(s@.subrange(start as int, i + 1).drop_last() =~= s@.subrange(start as int, i as int));
        assert(is_digit_char(body[i - start]));
        assert(body[i - start] == s@[i as int]);
        let d = (s[i] as u32 - '0' as u32) as u128;
        assert(d <= 9);
        assert(mag * 10 <= 0x8000_0000_0000_0000u128 * 10) by (nonlinear_arith)
            requires
                mag <= 0x8000_0000_0000_0000u128,
        ;
        let m10 = mag * 10;
        mag = m10 + d;
        i = i + 1;
        if mag > limit {
            // more digits only make it larger
            proof {
                lemma_digits_value_grows(body, (i - start) as int);
                assert(body.subrange(0, (i - start) as int) =~= s@.subrange(start as int, i as int));
            }
            return None;
        }
    }
    assert(s@.subrange(start as int, hi as int) =~= body);
    if neg {
        if mag == limit {
            Some(i64::MIN)
        } else {
            Some(-(mag as i64))
        }
    } else {
        if mag >= limit {
            None
        } else {
            Some(mag as i64)
        }
    }
}

pub proof fn lemma_digits_value_grows(s: Seq<char>, k: int)
    requires
        0 <= k <= s.len(),
        all_digits(s),
    ensures
        digits_value(s) >= digits_value(s.subrange(0, k)),
    decreases s.len() - k,
{
    if k < s.len() {
        lemma_digits_value_grows(s, k + 1);
        assert(s.subrange(0, k + 1).drop_last() =~= s.subrange(0, k));
        assert(is_digit_char(s[k]));
        assert(all_digits(s.subrange(0, k))) by {
            assert forall|i: int| 0 <= i < k implies #[trigger] is_digit_char(s.subrange(0, k)[i]) by {
                assert(s.subrange(0, k)[i] == s[i]);
            }
        }
        lemma_digits_value_nonneg(s.subrange(0, k));
    } else {
        assert(s.subrange(0, k) =~= s);
    }
}

impl NumberLiteral {
    pub fn new(text: &str) -> (r: NumberLiteral)
        ensures
            r.text@ == text@,
    {
        NumberLiteral { text: String::from_str(text) }
    }

    pub fn as_str(&self) -> (r: &str)
        ensures
            r@ == self.text@,
    {
        self.text.as_str()
    }

    /// `true` when the spelling has no fraction and no exponent (`42`, not
    /// `4.2e1`), the class literal patterns accept.
    pub fn is_integer_spelling(&self) -> (r: bool)
        ensures
            r == !(self.text@.contains('.') || self.text@.contains('e') || self.text@.contains('E')),
    {
        !has_fraction_or_exponent(self.text.as_str())
    }
}

/// The first `'.'` of `s[0..hi]`.
fn find_dot(s: &[char], hi: usize) -> (r: Option<usize>)
    requires
        hi <= s@.len(),
    ensures
        r matches Some(i) ==> find_any(s@.subrange(0, hi as int), seq!['.'], 0) == Some(i as int)
            && i < hi,
        r is None ==> find_any(s@.subrange(0, hi as int), seq!['.'], 0) is None,
{
    let ghost m = s@.subrange(0, hi as int);
    let mut i: usize = 0;
    while i < hi
        invariant
            i <= hi <= s@.len(),
            m == s@.subrange(0, hi as int),
            find_any(m, seq!['.'], i as int) == find_any(m, seq!['.'], 0),
        decreases hi - i,
    {
        assert(m[i as int] == s@[i as int]);
        if s[i] == '.' {
            assert(seq!['.'][0] == '.');
            return Some(i);
        }
        assert(!seq!['.'].contains(m[i as int])) by {
            if seq!['.'].contains(m[i as int]) {
                let k = choose|k: int| 0 <= k < 1 && seq!['.'][k] == m[i as int];
                assert(k == 0);
            }
        }
        i = i + 1;
    }
    None
}

/// The characters `s[lo..hi]` appended to `v`.
fn extend_chars(v: &mut Vec<char>, s: &[char], lo: usize, hi: usize)
    requires
        lo <= hi <= s@.len(),
    ensures
        final(v)@ == old(v)@ + s@.subrange(lo as int, hi as int),
{
    let mut i = lo;
    while i < hi
        invariant
            lo <= i <= hi <= s@.len(),
            v@ == old(v)@ + s@.subrange(lo as int, i as int),
        decreases hi - i,
    {
        v.push(s[i]);
        assert(s@.subrange(lo as int, i + 1) =~= s@.subrange(lo as int, i as int).push(s@[i as int]));
        i = i + 1;
    }
}

impl NumberLiteral {
    /// The exact value.  `None` only when the exponent does not fit an
    /// `i64` (a spelling no product will ever contain) or the text is not a
    /// number token's text.
    pub fn decimal(&self) -> (r: Option<Decimal>)
        ensures
            match spec_decimal(self.text@) {
                Some((d, e)) => r matches Some(x) && x.digits@ == d && x.exponent == e,
                None => r is None,
            },
    {
        let cs = chars_of(self.text.as_str());
        let ghost t = cs@;
        let n = cs.len();
        let e = find_any_c(cs.as_slice(), 'e', 'E', 0);
        let mend = match e {
            Some(i) => i,
            None => n,
        };
        let exp = match e {
            Some(i) => parse_i64_c(cs.as_slice(), i + 1, n),
            None => Some(0i64),
        };
        assert(t.subrange(0, n as int) =~= t);
        let ghost mantissa = t.subrange(0, mend as int);
        let dot = find_dot(cs.as_slice(), mend);
        let (ilo, ihi, flo, fhi) = match dot {
            Some(i) => (0, i, i + 1, mend),
            None => (0, mend, mend, mend),
        };
        assert(t.subrange(ilo as int, ihi as int) =~= match dot {
            Some(i) => mantissa.subrange(0, i as int),
            None => mantissa,
        });
        assert(t.subrange(flo as int, fhi as int) =~= match dot {
            Some(i) => mantissa.subrange(i + 1, mantissa.len() as int),
            None => Seq::<char>::empty(),
        });
        let x = match exp {
            Some(x) => x,
            None => {
                return None;
            },
        };
        if !all_digits_c(cs.as_slice(), ilo, ihi) || !all_digits_c(cs.as_slice(), flo, fhi) || (ihi
            == ilo && fhi == flo) {
            return None;
        }
        let frac_len = fhi - flo;
        let ex: i128 = x as i128 - frac_len as i128;
        if ex < i64::MIN as i128 {
            return None;
        }
        let mut all: Vec<char> = Vec::new();
        extend_chars(&mut all, cs.as_slice(), ilo, ihi);
        extend_chars(&mut all, cs.as_slice(), flo, fhi);
        let ghost joined = all@;
        let mut k: usize = 0;
        assert(all@.subrange(0, all@.len() as int) =~= all@);
        while k < all.len() && all[k] == '0'
            invariant
                k <= all@.len(),
                all@ == joined,
                trim_leading_zeros(joined) == trim_leading_zeros(all@.subrange(k as int, all@.len() as int)),
            decreases all@.len() - k,
        {
            assert(all@.subrange(k as int, all@.len() as int).skip(1) =~= all@.subrange(k + 1, all@.len() as int));
            k = k + 1;
        }
        assert(trim_leading_zeros(all@.subrange(k as int, all@.len() as int)) == all@.subrange(k as int, all@.len() as int));
        if k == all.len() {
            let mut z = String::new();
            crate::text::push_char(&mut z, '0');
            assert(z@ =~= seq!['0']);
            return Some(Decimal { digits: z, exponent: 0 });
        }
        let digits = crate::text::string_of(all.as_slice(), k, all.len());
        Some(Decimal { digits, exponent: ex as i64 })
    }
}

impl Decimal {
    /// Canonical form: trailing zeros of the digits folded into the
    /// exponent, so `1.0` and `1` and `10e-1` compare equal.
    pub fn normalized(&self) -> (r: Decimal)
        ensures
            (r.digits@, r.exponent) == spec_normalized(self.digits@, self.exponent),
    {
        let cs = chars_of(self.digits.as_str());
        if cs.len() == 1 && cs[0] == '0' {
            assert(cs@ =~= seq!['0']);
            let mut z = String::new();
            crate::text::push_char(&mut z, '0');
            assert(z@ =~= seq!['0']);
            return Decimal { digits: z, exponent: 0 };
        }
        assert(cs@ != seq!['0']) by {
            if cs@ == seq!['0'] {
                assert(cs@.len() == 1 && cs@[0] == '0');
            }
        }
        let mut end = cs.len();
        assert(cs@.subrange(0, end as int) =~= cs@);
        while end > 0 && cs[end - 1] == '0'
            invariant
                end <= cs@.len(),
                trim_trailing_zeros(cs@) == trim_trailing_zeros(cs@.subrange(0, end as int)),
            decreases end,
        {
            assert(cs@.subrange(0, end as int).drop_last() =~= cs@.subrange(0, end - 1));
            end = end - 1;
        }
        assert(trim_trailing_zeros(cs@.subrange(0, end as int)) == cs@.subrange(0, end as int));
        let zeros = cs.len() - end;
        let sum: i128 = self.exponent as i128 + zeros as i128;
        let exponent: i64 = if sum > i64::MAX as i128 {
            i64::MAX
        } else {
            sum as i64
        };
        Decimal { digits: crate::text::string_of(cs.as_slice(), 0, end), exponent }
    }

    /// The reading as text: the digits, `e`, the exponent (`"15e2"`).
    pub fn to_string(&self) -> (r: String)
        ensures
            r@ == self.digits@ + "e"@ + crate::text::int_text(self.exponent as int),
    {
        let mut s = String::from_str(self.digits.as_str());
        s.append("e");
        let e = crate::text::i64_text(self.exponent);
        s.append(e.as_str());
        s
    }
}

// ---- laws: normalization is value equality ----------------------------------

/// `10^n`.
pub open spec fn pow10(n: nat) -> int
    decreases n,
{
    if n == 0 {
        1
    } else {
        10 * pow10((n - 1) as nat)
    }
}

/// `digits × 10^exponent` and `digits2 × 10^exponent2` are the same number.
pub open spec fn same_value(d1: Seq<char>, e1: int, d2: Seq<char>, e2: int) -> bool {
    if e1 >= e2 {
        digits_value(d1) * pow10((e1 - e2) as nat) == digits_value(d2)
    } else {
        digits_value(d1) == digits_value(d2) * pow10((e2 - e1) as nat)
    }
}

/// A well-formed digit string: a non-empty run of ASCII digits without
/// leading zeros, `"0"` for zero (what `decimal` produces).
pub open spec fn canonical_digits(d: Seq<char>) -> bool {
    d.len() > 0 && all_digits(d) && (d[0] != '0' || d == seq!['0'])
}

/// The number of trailing zeros of `d`.
pub open spec fn trailing_zeros(d: Seq<char>) -> int {
    d.len() - trim_trailing_zeros(d).len()
}

/// Normalizing `digits × 10^exponent` does not saturate the exponent.
pub open spec fn fits(d: Seq<char>, e: i64) -> bool {
    e + trailing_zeros(d) <= i64::MAX
}

proof fn lemma_pow10_pos(n: nat)
    ensures
        pow10(n) > 0,
    decreases n,
{
    if n > 0 {
        lemma_pow10_pos((n - 1) as nat);
    }
}

proof fn lemma_all_digits_drop_last(s: Seq<char>)
    requires
        all_digits(s),
        s.len() > 0,
    ensures
        all_digits(s.drop_last()),
        0 <= s.last() as int - '0' as int <= 9,
{
    assert forall|i: int| 0 <= i < s.drop_last().len() implies #[trigger] is_digit_char(
        s.drop_last()[i],
    ) by {
        assert(s.drop_last()[i] == s[i]);
    }
    assert(is_digit_char(s[s.len() - 1]));
}

/// Trimming trailing zeros keeps a prefix; what it drops are zeros, and
/// what is left is empty or ends in another digit.
proof fn lemma_trim_shape(s: Seq<char>)
    ensures
        trim_trailing_zeros(s).len() <= s.len(),
        trim_trailing_zeros(s) == s.subrange(0, trim_trailing_zeros(s).len() as int),
        trim_trailing_zeros(s).len() == 0 || trim_trailing_zeros(s).last() != '0',
        trim_trailing_zeros(trim_trailing_zeros(s)) == trim_trailing_zeros(s),
    decreases s.len(),
{
    if s.len() > 0 && s.last() == '0' {
        lemma_trim_shape(s.drop_last());
        let t = trim_trailing_zeros(s.drop_last());
        assert(s.drop_last().subrange(0, t.len() as int) =~= s.subrange(0, t.len() as int));
    } else {
        assert(s.subrange(0, s.len() as int) =~= s);
    }
}

/// The value of a digit run is its trailing-zero-free part scaled by the
/// zeros dropped.
proof fn lemma_trim_value(s: Seq<char>)
    requires
        all_digits(s),
    ensures
        digits_value(s) == digits_value(trim_trailing_zeros(s)) * pow10(
            trailing_zeros(s) as nat,
        ),
        all_digits(trim_trailing_zeros(s)),
    decreases s.len(),
{
    lemma_trim_shape(s);
    if s.len() > 0 && s.last() == '0' {
        lemma_all_digits_drop_last(s);
        lemma_trim_value(s.drop_last());
        lemma_trim_shape(s.drop_last());
        let t = trim_trailing_zeros(s.drop_last());
        let z = trailing_zeros(s.drop_last());
        assert(trailing_zeros(s) == z + 1);
        assert(pow10((z + 1) as nat) == 10 * pow10(z as nat));
        let a = digits_value(t);
        let p = pow10(z as nat);
        assert(digits_value(s) == 10 * digits_value(s.drop_last()));
        assert(10 * (a * p) == a * (10 * p)) by (nonlinear_arith);
    } else {
        assert(trailing_zeros(s) == 0);
        assert(digits_value(s) * 1 == digits_value(s));
    }
}

/// Normalizing keeps the value of the number, as long as the exponent does
/// not saturate.
pub proof fn lemma_normalized_keeps_value(d: Seq<char>, e: i64)
    requires
        all_digits(d),
        fits(d, e),
    ensures
        same_value(spec_normalized(d, e).0, spec_normalized(d, e).1 as int, d, e as int),
{
    lemma_trim_value(d);
    lemma_trim_shape(d);
    if d == seq!['0'] {
        assert(digits_value(seq!['0']) == 0) by {
            assert(seq!['0'].drop_last() =~= Seq::<char>::empty());
        }
        lemma_pow10_pos((0 - e) as nat);
        lemma_pow10_pos(e as nat);
        assert(0 * pow10((0 - e) as nat) == 0);
        assert(0 * pow10(e as nat) == 0);
    } else {
        let z = trailing_zeros(d);
        assert((e + z) - e == z);
    }
}

/// Normalizing a normal form changes nothing.
pub proof fn lemma_normalized_idempotent(d: Seq<char>, e: i64)
    ensures
        spec_normalized(spec_normalized(d, e).0, spec_normalized(d, e).1) == spec_normalized(d, e),
{
    lemma_trim_shape(d);
    if d != seq!['0'] {
        let t = trim_trailing_zeros(d);
        if t == seq!['0'] {
            assert(t.last() == '0');
        }
        assert(trim_trailing_zeros(t) == t);
    }
}



proof fn lemma_pow10_add(a: nat, b: nat)
    ensures
        pow10(a) * pow10(b) == pow10(a + b),
    decreases a,
{
    if a > 0 {
        lemma_pow10_add((a - 1) as nat, b);
        let x = pow10((a - 1) as nat);
        let y = pow10(b);
        assert((10 * x) * y == 10 * (x * y)) by (nonlinear_arith);
        assert((a - 1) as nat + b == (a + b - 1) as nat);
    }
}

proof fn lemma_pow10_monotone(a: nat, b: nat)
    requires
        a <= b,
    ensures
        pow10(a) <= pow10(b),
    decreases b,
{
    if a < b {
        lemma_pow10_monotone(a, (b - 1) as nat);
        lemma_pow10_pos((b - 1) as nat);
    }
}

/// A digit run is below `10^len`, and at least `10^(len-1)` when it does
/// not start with `0`.
proof fn lemma_value_bounds(s: Seq<char>)
    requires
        all_digits(s),
    ensures
        0 <= digits_value(s) < pow10(s.len()),
        s.len() > 0 && s[0] != '0' ==> digits_value(s) >= pow10((s.len() - 1) as nat),
    decreases s.len(),
{
    if s.len() > 0 {
        lemma_all_digits_drop_last(s);
        lemma_value_bounds(s.drop_last());
        if s.len() > 1 {
            assert(s.drop_last()[0] == s[0]);
        } else {
            assert(s.drop_last() =~= Seq::<char>::empty());
            assert(s[0] == s.last());
        }
    }
}

/// Two digit runs of one length with one value are the same run.
proof fn lemma_same_len_same_value(a: Seq<char>, b: Seq<char>)
    requires
        all_digits(a),
        all_digits(b),
        a.len() == b.len(),
        digits_value(a) == digits_value(b),
    ensures
        a == b,
    decreases a.len(),
{
    if a.len() > 0 {
        lemma_all_digits_drop_last(a);
        lemma_all_digits_drop_last(b);
        let x = a.last() as int - '0' as int;
        let y = b.last() as int - '0' as int;
        assert(10 * digits_value(a.drop_last()) + x == 10 * digits_value(b.drop_last()) + y);
        assert(x == y);
        lemma_same_len_same_value(a.drop_last(), b.drop_last());
        assert(a =~= a.drop_last().push(a.last()));
        assert(b =~= b.drop_last().push(b.last()));
    } else {
        assert(a =~= b);
    }
}

/// A digit run that does not end in `0` is not a multiple of ten.
proof fn lemma_not_multiple_of_ten(t: Seq<char>, m: int)
    requires
        all_digits(t),
        t.len() > 0,
        t.last() != '0',
    ensures
        digits_value(t) != 10 * m,
{
    lemma_all_digits_drop_last(t);
    let y = t.last() as int - '0' as int;
    assert(digits_value(t) == 10 * digits_value(t.drop_last()) + y);
    assert(1 <= y <= 9);
}

/// Two runs without trailing zeros, each scaled by a power of ten, agree
/// only with equal powers and equal values.
proof fn lemma_scaled_equal(t1: Seq<char>, k1: nat, t2: Seq<char>, k2: nat)
    requires
        all_digits(t1),
        all_digits(t2),
        t1.len() > 0,
        t2.len() > 0,
        t1.last() != '0',
        t2.last() != '0',
        digits_value(t1) * pow10(k1) == digits_value(t2) * pow10(k2),
    ensures
        k1 == k2,
        digits_value(t1) == digits_value(t2),
    decreases k1 + k2,
{
    let a = digits_value(t1);
    let b = digits_value(t2);
    if k1 > 0 && k2 > 0 {
        let p = pow10((k1 - 1) as nat);
        let q = pow10((k2 - 1) as nat);
        assert(a * (10 * p) == 10 * (a * p)) by (nonlinear_arith);
        assert(b * (10 * q) == 10 * (b * q)) by (nonlinear_arith);
        lemma_scaled_equal(t1, (k1 - 1) as nat, t2, (k2 - 1) as nat);
    } else if k1 > 0 {
        let p = pow10((k1 - 1) as nat);
        assert(a * (10 * p) == 10 * (a * p)) by (nonlinear_arith);
        assert(b * 1 == b);
        lemma_not_multiple_of_ten(t2, a * p);
    } else if k2 > 0 {
        let q = pow10((k2 - 1) as nat);
        assert(b * (10 * q) == 10 * (b * q)) by (nonlinear_arith);
        assert(a * 1 == a);
        lemma_not_multiple_of_ten(t1, b * q);
    } else {
        assert(a * 1 == a && b * 1 == b);
    }
}

/// A well-formed run is zero exactly when it is `"0"`.
proof fn lemma_zero_iff(d: Seq<char>)
    requires
        canonical_digits(d),
    ensures
        digits_value(d) == 0 <==> d == seq!['0'],
{
    lemma_value_bounds(d);
    if d == seq!['0'] {
        assert(d.drop_last() =~= Seq::<char>::empty());
        assert(d.last() == '0');
        assert(digits_value(d) == 10 * digits_value(d.drop_last()) + (d.last() as int - '0' as int));
    } else {
        assert(d[0] != '0');
        lemma_pow10_pos((d.len() - 1) as nat);
    }
}

/// The trailing-zero-free part of a well-formed non-zero run, and its value.
proof fn lemma_core(d: Seq<char>)
    requires
        canonical_digits(d),
        d != seq!['0'],
    ensures
        trim_trailing_zeros(d).len() > 0,
        trim_trailing_zeros(d).last() != '0',
        trim_trailing_zeros(d)[0] != '0',
        all_digits(trim_trailing_zeros(d)),
        digits_value(d) == digits_value(trim_trailing_zeros(d)) * pow10(trailing_zeros(d) as nat),
{
    lemma_trim_shape(d);
    lemma_trim_value(d);
    lemma_zero_iff(d);
    let t = trim_trailing_zeros(d);
    if t.len() == 0 {
        assert(digits_value(t) == 0);
        assert(0 * pow10(trailing_zeros(d) as nat) == 0);
    } else {
        assert(t[0] == d.subrange(0, t.len() as int)[0]);
    }
}

/// Normalization is value equality: two well-formed decimals with the same
/// value have the same normal form (as long as neither exponent saturates).
pub proof fn lemma_same_value_same_normal_form(d1: Seq<char>, e1: i64, d2: Seq<char>, e2: i64)
    requires
        canonical_digits(d1),
        canonical_digits(d2),
        fits(d1, e1),
        fits(d2, e2),
        same_value(d1, e1 as int, d2, e2 as int),
    ensures
        spec_normalized(d1, e1) == spec_normalized(d2, e2),
{
    lemma_zero_iff(d1);
    lemma_zero_iff(d2);
    lemma_value_bounds(d1);
    lemma_value_bounds(d2);
    if d1 == seq!['0'] || d2 == seq!['0'] {
        let v1 = digits_value(d1);
        let v2 = digits_value(d2);
        if e1 >= e2 {
            let p = pow10((e1 - e2) as nat);
            lemma_pow10_pos((e1 - e2) as nat);
            assert(v1 * p == v2);
            assert(v1 == 0 <==> v2 == 0) by (nonlinear_arith)
                requires
                    v1 * p == v2,
                    p > 0,
                    v1 >= 0,
            ;
        } else {
            let p = pow10((e2 - e1) as nat);
            lemma_pow10_pos((e2 - e1) as nat);
            assert(v1 == v2 * p);
            assert(v1 == 0 <==> v2 == 0) by (nonlinear_arith)
                requires
                    v1 == v2 * p,
                    p > 0,
                    v2 >= 0,
            ;
        }
    } else {
        lemma_core(d1);
        lemma_core(d2);
        lemma_trim_shape(d1);
        lemma_trim_shape(d2);
        let t1 = trim_trailing_zeros(d1);
        let t2 = trim_trailing_zeros(d2);
        let z1 = trailing_zeros(d1);
        let z2 = trailing_zeros(d2);
        let a = digits_value(t1);
        let b = digits_value(t2);
        if e1 >= e2 {
            let g = (e1 - e2) as nat;
            lemma_pow10_add(z1 as nat, g);
            let pz = pow10(z1 as nat);
            let pg = pow10(g);
            assert((a * pz) * pg == a * (pz * pg)) by (nonlinear_arith);
            assert(digits_value(d1) * pg == digits_value(d2));
            assert(digits_value(d1) == a * pz);
            assert(digits_value(d2) == b * pow10(z2 as nat));
            assert(pz * pg == pow10((z1 + g) as nat));
            assert(a * pow10((z1 + g) as nat) == b * pow10(z2 as nat));
            lemma_scaled_equal(t1, (z1 + g) as nat, t2, z2 as nat);
        } else {
            let g = (e2 - e1) as nat;
            lemma_pow10_add(z2 as nat, g);
            let pz = pow10(z2 as nat);
            let pg = pow10(g);
            assert((b * pz) * pg == b * (pz * pg)) by (nonlinear_arith);
            assert(digits_value(d1) == digits_value(d2) * pg);
            assert(digits_value(d1) == a * pow10(z1 as nat));
            assert(digits_value(d2) == b * pz);
            assert(pz * pg == pow10((z2 + g) as nat));
            assert(a * pow10(z1 as nat) == b * pow10((z2 + g) as nat));
            lemma_scaled_equal(t1, z1 as nat, t2, (z2 + g) as nat);
        }
        lemma_value_bounds(t1);
        lemma_value_bounds(t2);
        if t1.len() < t2.len() {
            lemma_pow10_monotone(t1.len(), (t2.len() - 1) as nat);
        } else if t2.len() < t1.len() {
            lemma_pow10_monotone(t2.len(), (t1.len() - 1) as nat);
        }
        lemma_same_len_same_value(t1, t2);
    }
}


proof fn lemma_trim_leading(s: Seq<char>)
    requires
        all_digits(s),
    ensures
        all_digits(trim_leading_zeros(s)),
        trim_leading_zeros(s).len() == 0 || trim_leading_zeros(s)[0] != '0',
    decreases s.len(),
{
    if s.len() > 0 && s[0] == '0' {
        assert forall|i: int| 0 <= i < s.skip(1).len() implies #[trigger] is_digit_char(s.skip(1)[i]) by {
            assert(s.skip(1)[i] == s[i + 1]);
        }
        lemma_trim_leading(s.skip(1));
    }
}

/// What `decimal` reads from a spelling is a well-formed digit run, so the
/// law above applies to any two readings.
pub proof fn lemma_decimal_canonical(t: Seq<char>)
    ensures
        spec_decimal(t) matches Some((d, e)) ==> canonical_digits(d),
{
    let e = find_any(t, seq!['e', 'E'], 0);
    let mantissa = match e {
        Some(i) => t.subrange(0, i),
        None => t,
    };
    let dot = find_any(mantissa, seq!['.'], 0);
    let int_part = match dot {
        Some(i) => mantissa.subrange(0, i),
        None => mantissa,
    };
    let frac_part = match dot {
        Some(i) => mantissa.subrange(i + 1, mantissa.len() as int),
        None => Seq::empty(),
    };
    if all_digits(int_part) && all_digits(frac_part) {
        let both = int_part + frac_part;
        assert forall|i: int| 0 <= i < both.len() implies #[trigger] is_digit_char(both[i]) by {
            if i < int_part.len() {
                assert(both[i] == int_part[i]);
            } else {
                assert(both[i] == frac_part[i - int_part.len()]);
            }
        }
        lemma_trim_leading(both);
        let z: Seq<char> = seq!['0'];
        assert(all_digits(z)) by {
            assert forall|i: int| 0 <= i < z.len() implies #[trigger] is_digit_char(z[i]) by {
                assert(z[i] == '0');
            }
        }
    }
}

/// `d · 10^e` measured in units of `10^m`, for `m <= e`.
pub open spec fn scaled(d: Seq<char>, e: int, m: int) -> int {
    digits_value(d) * pow10((e - m) as nat)
}

proof fn lemma_same_value_scaled(a: Seq<char>, ea: int, b: Seq<char>, eb: int, m: int)
    requires
        m <= ea,
        m <= eb,
    ensures
        same_value(a, ea, b, eb) <==> scaled(a, ea, m) == scaled(b, eb, m),
{
    let va = digits_value(a);
    let vb = digits_value(b);
    if ea >= eb {
        let k = (ea - eb) as nat;
        let j = (eb - m) as nat;
        lemma_pow10_add(k, j);
        lemma_pow10_pos(j);
        assert((ea - m) as nat == k + j);
        assert(va * pow10(k + j) == (va * pow10(k)) * pow10(j)) by (nonlinear_arith)
            requires
                pow10(k) * pow10(j) == pow10(k + j),
        ;
        if (va * pow10(k)) * pow10(j) == vb * pow10(j) {
            assert(va * pow10(k) == vb) by (nonlinear_arith)
                requires
                    (va * pow10(k)) * pow10(j) == vb * pow10(j),
                    pow10(j) > 0,
            ;
        }
    } else {
        let k = (eb - ea) as nat;
        let j = (ea - m) as nat;
        lemma_pow10_add(k, j);
        lemma_pow10_pos(j);
        assert((eb - m) as nat == k + j);
        assert(vb * pow10(k + j) == (vb * pow10(k)) * pow10(j)) by (nonlinear_arith)
            requires
                pow10(k) * pow10(j) == pow10(k + j),
        ;
        if va * pow10(j) == (vb * pow10(k)) * pow10(j) {
            assert(va == vb * pow10(k)) by (nonlinear_arith)
                requires
                    va * pow10(j) == (vb * pow10(k)) * pow10(j),
                    pow10(j) > 0,
            ;
        }
    }
}

/// Two literals with the same normal form have the same value.
pub proof fn lemma_same_normal_form_same_value(d1: Seq<char>, e1: i64, d2: Seq<char>, e2: i64)
    requires
        all_digits(d1),
        all_digits(d2),
        fits(d1, e1),
        fits(d2, e2),
        spec_normalized(d1, e1) == spec_normalized(d2, e2),
    ensures
        same_value(d1, e1 as int, d2, e2 as int),
{
    lemma_normalized_keeps_value(d1, e1);
    lemma_normalized_keeps_value(d2, e2);
    let (nd, ne) = spec_normalized(d1, e1);
    let m = if (e1 as int) < (e2 as int) {
        if (e1 as int) < (ne as int) { e1 as int } else { ne as int }
    } else {
        if (e2 as int) < (ne as int) { e2 as int } else { ne as int }
    };
    lemma_same_value_scaled(nd, ne as int, d1, e1 as int, m);
    lemma_same_value_scaled(nd, ne as int, d2, e2 as int, m);
    lemma_same_value_scaled(d1, e1 as int, d2, e2 as int, m);
}

proof fn lemma_zero_value()
    ensures
        digits_value(seq!['0']) == 0,
{
    let z: Seq<char> = seq!['0'];
    assert(z.drop_last() =~= Seq::<char>::empty());
    assert(z.last() == '0');
    assert(digits_value(z) == 10 * digits_value(z.drop_last()) + (z.last() as int - '0' as int));
}

proof fn lemma_find_any_at(s: Seq<char>, cs: Seq<char>, from: int, k: int)
    requires
        0 <= from <= k < s.len(),
        cs.contains(s[k]),
        forall|j: int| from <= j < k ==> !cs.contains(#[trigger] s[j]),
    ensures
        find_any(s, cs, from) == Some(k),
    decreases k - from,
{
    if from < k {
        lemma_find_any_at(s, cs, from + 1, k);
    }
}

proof fn lemma_find_any_none(s: Seq<char>, cs: Seq<char>, from: int)
    requires
        0 <= from,
        forall|j: int| from <= j < s.len() ==> !cs.contains(#[trigger] s[j]),
    ensures
        find_any(s, cs, from) is None,
    decreases s.len() - from,
{
    if from < s.len() {
        lemma_find_any_none(s, cs, from + 1);
    }
}

/// Leading zeros add nothing to a digit run's value.
proof fn lemma_leading_zeros_value(s: Seq<char>)
    requires
        all_digits(s),
    ensures
        digits_value(trim_leading_zeros(s)) == digits_value(s),
    decreases s.len(),
{
    if s.len() > 0 && s[0] == '0' {
        assert forall|i: int| 0 <= i < s.skip(1).len() implies #[trigger] is_digit_char(s.skip(1)[i]) by {
            assert(s.skip(1)[i] == s[i + 1]);
        }
        lemma_leading_zeros_value(s.skip(1));
        lemma_drop_zero_value(s);
    }
}

/// A leading zero adds nothing to a digit run's value.
proof fn lemma_drop_zero_value(s: Seq<char>)
    requires
        s.len() > 0,
        s[0] == '0',
    ensures
        digits_value(s) == digits_value(s.skip(1)),
    decreases s.len(),
{
    if s.len() == 1 {
        assert(s.drop_last() =~= Seq::<char>::empty());
        assert(s.skip(1) =~= Seq::<char>::empty());
    } else {
        lemma_drop_zero_value(s.drop_last());
        assert(s.skip(1).drop_last() =~= s.drop_last().skip(1));
        assert(s.skip(1).last() == s.last());
    }
}

proof fn lemma_digits_concat(a: Seq<char>, b: Seq<char>)
    requires
        all_digits(a),
        all_digits(b),
    ensures
        all_digits(a + b),
{
    assert forall|i: int| 0 <= i < (a + b).len() implies #[trigger] is_digit_char((a + b)[i]) by {
        if i < a.len() {
            assert((a + b)[i] == a[i]);
        } else {
            assert((a + b)[i] == b[i - a.len()]);
        }
    }
}

/// What `decimal` reads from `ip.fp` with exponent text `xs` (spelling
/// `ip` `.` `fp` `e` `xs`, or with `E`) is worth `ip fp · 10^(x − |fp|)`: the digits
/// before and after the point, scaled by the written exponent less the
/// places after the point.
pub proof fn lemma_decimal_reads_written_value(ip: Seq<char>, fp: Seq<char>, ec: char, xs: Seq<char>, x: i64)
    requires
        ec == 'e' || ec == 'E',
        all_digits(ip),
        all_digits(fp),
        ip.len() + fp.len() > 0,
        parse_i64(xs) == Some(x),
        x - fp.len() >= i64::MIN,
    ensures
        spec_decimal(ip + seq!['.'] + fp + seq![ec] + xs) matches Some((d, e)) && same_value(
            d,
            e as int,
            ip + fp,
            x - fp.len(),
        ),
{
    let t = ip + seq!['.'] + fp + seq![ec] + xs;
    let p: int = (ip.len() + 1 + fp.len()) as int;
    assert(t[p as int] == ec);
    assert forall|j: int| 0 <= j < p implies !seq!['e', 'E'].contains(#[trigger] t[j]) by {
        if j < ip.len() {
            assert(t[j] == ip[j]);
            assert(is_digit_char(ip[j]));
        } else if j == ip.len() {
            assert(t[j] == '.');
        } else {
            assert(t[j] == fp[j - ip.len() - 1]);
            assert(is_digit_char(fp[j - ip.len() - 1]));
        }
        if seq!['e', 'E'].contains(t[j]) {
            let q = choose|q: int| 0 <= q < 2 && seq!['e', 'E'][q] == t[j];
        }
    }
    assert(seq!['e', 'E'].contains(t[p as int])) by {
        assert(seq!['e', 'E'][0] == 'e');
        assert(seq!['e', 'E'][1] == 'E');
    }
    lemma_find_any_at(t, seq!['e', 'E'], 0, p as int);
    let mantissa = t.subrange(0, p as int);
    assert(mantissa =~= ip + seq!['.'] + fp);
    assert(t.subrange((p + 1) as int, t.len() as int) =~= xs);
    assert(mantissa[ip.len() as int] == '.');
    assert(seq!['.'].contains(mantissa[ip.len() as int])) by {
        assert(seq!['.'][0] == '.');
    }
    assert forall|j: int| 0 <= j < ip.len() implies !seq!['.'].contains(#[trigger] mantissa[j]) by {
        assert(mantissa[j] == ip[j]);
        assert(is_digit_char(ip[j]));
        if seq!['.'].contains(mantissa[j]) {
            let q = choose|q: int| 0 <= q < 1 && seq!['.'][q] == mantissa[j];
        }
    }
    lemma_find_any_at(mantissa, seq!['.'], 0, ip.len() as int);
    assert(mantissa.subrange(0, ip.len() as int) =~= ip);
    assert(mantissa.subrange((ip.len() + 1) as int, mantissa.len() as int) =~= fp);
    lemma_digits_concat(ip, fp);
    lemma_leading_zeros_value(ip + fp);
    lemma_digits_value_nonneg(ip + fp);
    let digits = trim_leading_zeros(ip + fp);
    if digits.len() == 0 {
        assert(digits_value(digits) == 0);
        let k = x - fp.len();
        if k >= 0 {
            lemma_pow10_pos(k as nat);
            lemma_zero_value();
            assert(0 * pow10(k as nat) == 0);
        } else {
            lemma_zero_value();
            assert(0 * pow10((0 - k) as nat) == 0);
        }
    } else {
        assert(pow10(0) == 1);
    }
}

/// Without an exponent, `ip.fp` reads as `ip fp · 10^(−|fp|)`.
pub proof fn lemma_decimal_reads_point(ip: Seq<char>, fp: Seq<char>)
    requires
        all_digits(ip),
        all_digits(fp),
        ip.len() + fp.len() > 0,
        fp.len() <= 0x7fff_ffff_ffff_ffff,
    ensures
        spec_decimal(ip + seq!['.'] + fp) matches Some((d, e)) && same_value(
            d,
            e as int,
            ip + fp,
            0 - fp.len(),
        ),
{
    let t = ip + seq!['.'] + fp;
    assert forall|j: int| 0 <= j < t.len() implies !seq!['e', 'E'].contains(#[trigger] t[j]) by {
        if j < ip.len() {
            assert(t[j] == ip[j]);
            assert(is_digit_char(ip[j]));
        } else if j == ip.len() {
            assert(t[j] == '.');
        } else {
            assert(t[j] == fp[j - ip.len() - 1]);
            assert(is_digit_char(fp[j - ip.len() - 1]));
        }
        if seq!['e', 'E'].contains(t[j]) {
            let q = choose|q: int| 0 <= q < 2 && seq!['e', 'E'][q] == t[j];
        }
    }
    lemma_find_any_none(t, seq!['e', 'E'], 0);
    assert(t[ip.len() as int] == '.');
    assert(seq!['.'].contains(t[ip.len() as int])) by {
        assert(seq!['.'][0] == '.');
    }
    assert forall|j: int| 0 <= j < ip.len() implies !seq!['.'].contains(#[trigger] t[j]) by {
        assert(t[j] == ip[j]);
        assert(is_digit_char(ip[j]));
        if seq!['.'].contains(t[j]) {
            let q = choose|q: int| 0 <= q < 1 && seq!['.'][q] == t[j];
        }
    }
    lemma_find_any_at(t, seq!['.'], 0, ip.len() as int);
    assert(t.subrange(0, ip.len() as int) =~= ip);
    assert(t.subrange((ip.len() + 1) as int, t.len() as int) =~= fp);
    lemma_digits_concat(ip, fp);
    lemma_leading_zeros_value(ip + fp);
    lemma_digits_value_nonneg(ip + fp);
    let digits = trim_leading_zeros(ip + fp);
    lemma_zero_value();
    if digits.len() == 0 {
        assert(digits_value(digits) == 0);
        assert(0 * pow10(fp.len() as nat) == 0);
    } else {
        assert(pow10(0) == 1);
    }
}


/// A run of digits `ip` with exponent text `xs` (spelling `ip` `e` `xs`, or
/// with `E`) reads as `ip · 10^x`.
pub proof fn lemma_decimal_reads_integer_exponent(ip: Seq<char>, ec: char, xs: Seq<char>, x: i64)
    requires
        ec == 'e' || ec == 'E',
        all_digits(ip),
        ip.len() > 0,
        parse_i64(xs) == Some(x),
    ensures
        spec_decimal(ip + seq![ec] + xs) matches Some((d, e)) && same_value(d, e as int, ip, x as int),
{
    let t = ip + seq![ec] + xs;
    let p: int = ip.len() as int;
    assert(t[p] == ec);
    assert forall|j: int| 0 <= j < p implies !seq!['e', 'E'].contains(#[trigger] t[j]) by {
        assert(t[j] == ip[j]);
        assert(is_digit_char(ip[j]));
        if seq!['e', 'E'].contains(t[j]) {
            let q = choose|q: int| 0 <= q < 2 && seq!['e', 'E'][q] == t[j];
        }
    }
    assert(seq!['e', 'E'].contains(t[p])) by {
        assert(seq!['e', 'E'][0] == 'e');
        assert(seq!['e', 'E'][1] == 'E');
    }
    lemma_find_any_at(t, seq!['e', 'E'], 0, p);
    let mantissa = t.subrange(0, p);
    assert(mantissa =~= ip);
    assert(t.subrange(p + 1, t.len() as int) =~= xs);
    assert forall|j: int| 0 <= j < mantissa.len() implies !seq!['.'].contains(#[trigger] mantissa[j]) by {
        assert(mantissa[j] == ip[j]);
        assert(is_digit_char(ip[j]));
        if seq!['.'].contains(mantissa[j]) {
            let q = choose|q: int| 0 <= q < 1 && seq!['.'][q] == mantissa[j];
        }
    }
    lemma_find_any_none(mantissa, seq!['.'], 0);
    let empty: Seq<char> = Seq::empty();
    assert(ip + empty =~= ip);
    assert(all_digits(empty));
    lemma_leading_zeros_value(ip);
    lemma_digits_value_nonneg(ip);
    let digits = trim_leading_zeros(ip);
    lemma_zero_value();
    if digits.len() == 0 {
        assert(digits_value(digits) == 0);
        if x >= 0 {
            assert(0 * pow10(x as nat) == 0);
        } else {
            assert(0 * pow10((0 - x) as nat) == 0);
        }
    } else {
        assert(pow10(0) == 1);
    }
}

/// A run of digits alone reads as its own value.
pub proof fn lemma_decimal_reads_integer(ip: Seq<char>)
    requires
        all_digits(ip),
        ip.len() > 0,
    ensures
        spec_decimal(ip) matches Some((d, e)) && same_value(d, e as int, ip, 0),
{
    assert forall|j: int| 0 <= j < ip.len() implies !seq!['e', 'E'].contains(#[trigger] ip[j]) by {
        assert(is_digit_char(ip[j]));
        if seq!['e', 'E'].contains(ip[j]) {
            let q = choose|q: int| 0 <= q < 2 && seq!['e', 'E'][q] == ip[j];
        }
    }
    lemma_find_any_none(ip, seq!['e', 'E'], 0);
    assert forall|j: int| 0 <= j < ip.len() implies !seq!['.'].contains(#[trigger] ip[j]) by {
        assert(is_digit_char(ip[j]));
        if seq!['.'].contains(ip[j]) {
            let q = choose|q: int| 0 <= q < 1 && seq!['.'][q] == ip[j];
        }
    }
    lemma_find_any_none(ip, seq!['.'], 0);
    let empty: Seq<char> = Seq::empty();
    assert(ip + empty =~= ip);
    assert(all_digits(empty));
    lemma_leading_zeros_value(ip);
    lemma_digits_value_nonneg(ip);
    lemma_zero_value();
    assert(pow10(0) == 1);
}


proof fn lemma_decimal_text_digits(n: nat)
    ensures
        all_digits(crate::text::decimal_text(n)),
        digits_value(crate::text::decimal_text(n)) == n,
        crate::text::decimal_text(n).len() > 0,
        n > 0 ==> crate::text::decimal_text(n)[0] != '0',
    decreases n,
{
    let t = crate::text::decimal_text(n);
    if n < 10 {
        let c = (n + '0' as nat) as char;
        assert(t =~= seq![c]);
        assert(t.drop_last() =~= Seq::<char>::empty());
        assert(c as int == n + '0' as int);
        assert(t.last() == c);
        assert(digits_value(t) == 10 * digits_value(t.drop_last()) + (c as int - '0' as int));
    } else {
        let q = n / 10;
        let c = ((n % 10) + '0' as nat) as char;
        lemma_decimal_text_digits(q);
        let h = crate::text::decimal_text(q);
        assert(t == h + seq![c]);
        assert(t.drop_last() =~= h);
        assert(c as int == (n % 10) + '0' as int);
        assert(t.last() == c);
        assert(digits_value(t) == 10 * digits_value(h) + (c as int - '0' as int));
        assert(n == 10 * q + n % 10);
        assert forall|i: int| 0 <= i < t.len() implies #[trigger] is_digit_char(t[i]) by {
            if i < h.len() {
                assert(t[i] == h[i]);
            }
        }
        assert(t[0] == h[0]);
    }
}

/// A whole number written in decimal reads back as itself: what `i64_text`
/// writes, `i64::from_str` parses to the same number.
pub proof fn lemma_int_text_reads_back(x: i64)
    ensures
        parse_i64(crate::text::int_text(x as int)) == Some(x),
        x >= 0 ==> all_digits(crate::text::int_text(x as int)),
{
    reveal_strlit("-");
    if x < 0 {
        let m: nat = (-(x as int)) as nat;
        lemma_decimal_text_digits(m);
        let d = crate::text::decimal_text(m);
        let t = crate::text::int_text(x as int);
        assert(t == "-"@ + d);
        assert(t[0] == '-');
        assert(t.skip(1) =~= d);
    } else {
        lemma_decimal_text_digits(x as nat);
        let t = crate::text::int_text(x as int);
        assert(is_digit_char(t[0]));
    }
}

} // verus!
