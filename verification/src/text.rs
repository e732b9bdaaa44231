use vstd::prelude::*;

verus! {

/// `String::push`: appends one character to the string.
#[verifier::external_body]
pub fn push_char(s: &mut String, c: char)
    ensures
        final(s)@ == old(s)@.push(c),
{
    s.push(c);
}

/// The characters of `s`, in order.
pub fn chars_of(s: &str) -> (r: Vec<char>)
    ensures
        r@ == s@,
{
    let n = s.unicode_len();
    let mut v: Vec<char> = Vec::new();
    let mut i: usize = 0;
    while i < n
        invariant
            n == s@.len(),
            i <= n,
            v@ == s@.subrange(0, i as int),
        decreases n - i,
    {
        v.push(s.get_char(i));
        i = i + 1;
    }
    v
}

/// The string made of `cs[lo..hi]`.
pub fn string_of(cs: &[char], lo: usize, hi: usize) -> (r: String)
    requires
        lo <= hi <= cs@.len(),
    ensures
        r@ == cs@.subrange(lo as int, hi as int),
{
    let mut s = String::new();
    let mut i: usize = lo;
    while i < hi
        invariant
            lo <= i <= hi,
            hi <= cs@.len(),
            s@ == cs@.subrange(lo as int, i as int),
        decreases hi - i,
    {
        push_char(&mut s, cs[i]);
        i = i + 1;
    }
    s
}

/// Appends the characters `cs` to `s`.
pub fn push_chars(s: &mut String, cs: &[char])
    ensures
        final(s)@ == old(s)@ + cs@,
{
    let mut i: usize = 0;
    while i < cs.len()
        invariant
            i <= cs@.len(),
            s@ == old(s)@ + cs@.subrange(0, i as int),
        decreases cs@.len() - i,
    {
        push_char(s, cs[i]);
        i = i + 1;
    }
}

/// Whether two strings have the same characters.
pub fn str_eq(a: &str, b: &str) -> (r: bool)
    ensures
        r == (a@ == b@),
{
    let n = a.unicode_len();
    if n != b.unicode_len() {
        return false;
    }
    let mut i: usize = 0;
    while i < n
        invariant
            n == a@.len(),
            n == b@.len(),
            i <= n,
            a@.subrange(0, i as int) == b@.subrange(0, i as int),
        decreases n - i,
    {
        if a.get_char(i) != b.get_char(i) {
            return false;
        }
        assert(a@.subrange(0, i + 1) =~= a@.subrange(0, i as int).push(a@[i as int]));
        assert(b@.subrange(0, i + 1) =~= b@.subrange(0, i as int).push(b@[i as int]));
        i = i + 1;
    }
    assert(a@ =~= a@.subrange(0, n as int));
    assert(b@ =~= b@.subrange(0, n as int));
    true
}

/// Whether `cs[lo..hi]` spells `word`.
pub fn chars_eq_str(cs: &[char], lo: usize, hi: usize, word: &str) -> (r: bool)
    requires
        lo <= hi <= cs@.len(),
    ensures
        r == (cs@.subrange(lo as int, hi as int) == word@),
{
    let n = word.unicode_len();
    if hi - lo != n {
        return false;
    }
    let mut i: usize = 0;
    while i < n
        invariant
            n == word@.len(),
            hi - lo == n,
            lo <= hi <= cs@.len(),
            i <= n,
            cs@.subrange(lo as int, lo + i) == word@.subrange(0, i as int),
        decreases n - i,
    {
        if cs[lo + i] != word.get_char(i) {
            assert(cs@.subrange(lo as int, hi as int)[i as int] == cs@[lo + i]);
            return false;
        }
        assert(cs@.subrange(lo as int, lo + i + 1) =~= cs@.subrange(lo as int, lo + i).push(cs@[lo + i]));
        assert(word@.subrange(0, i + 1) =~= word@.subrange(0, i as int).push(word@[i as int]));
        i = i + 1;
    }
    assert(word@ =~= word@.subrange(0, n as int));
    true
}

/// Unicode white space.
pub open spec fn is_white(c: char) -> bool {
    ||| c == '\t' || c == '\n' || c == '\u{b}' || c == '\u{c}' || c == '\r' || c == ' '
    ||| c == '\u{85}' || c == '\u{a0}' || c == '\u{1680}'
    ||| ('\u{2000}' <= c && c <= '\u{200a}')
    ||| c == '\u{2028}' || c == '\u{2029}' || c == '\u{202f}' || c == '\u{205f}' || c == '\u{3000}'
}

/// `s` without its trailing white space.
pub open spec fn trim_end(s: Seq<char>) -> Seq<char>
    decreases s.len(),
{
    if s.len() > 0 && is_white(s.last()) {
        trim_end(s.drop_last())
    } else {
        s
    }
}

pub fn white(c: char) -> (r: bool)
    ensures
        r == is_white(c),
{
    c == '\t' || c == '\n' || c == '\u{b}' || c == '\u{c}' || c == '\r' || c == ' ' || c == '\u{85}'
        || c == '\u{a0}' || c == '\u{1680}' || ('\u{2000}' <= c && c <= '\u{200a}') || c == '\u{2028}'
        || c == '\u{2029}' || c == '\u{202f}' || c == '\u{205f}' || c == '\u{3000}'
}

/// `s` without its leading white space.
pub open spec fn trim_start(s: Seq<char>) -> Seq<char>
    decreases s.len(),
{
    if s.len() > 0 && is_white(s[0]) {
        trim_start(s.skip(1))
    } else {
        s
    }
}

/// `str::trim`: `s` without its leading and trailing white space.
pub open spec fn trim(s: Seq<char>) -> Seq<char> {
    trim_end(trim_start(s))
}

/// `s` without its leading and trailing white space.
pub fn trimmed(s: &str) -> (r: String)
    ensures
        r@ == trim(s@),
{
    let cs = chars_of(s);
    let mut lo: usize = 0;
    assert(cs@.subrange(0, cs@.len() as int) =~= cs@);
    while lo < cs.len() && white(cs[lo])
        invariant
            lo <= cs@.len(),
            trim_start(cs@) == trim_start(cs@.subrange(lo as int, cs@.len() as int)),
        decreases cs@.len() - lo,
    {
        assert(cs@.subrange(lo as int, cs@.len() as int).skip(1) =~= cs@.subrange(lo + 1, cs@.len() as int));
        lo = lo + 1;
    }
    let ghost front = cs@.subrange(lo as int, cs@.len() as int);
    assert(trim_start(front) == front);
    let mut hi: usize = cs.len();
    assert(front.subrange(0, front.len() as int) =~= front);
    while hi > lo && white(cs[hi - 1])
        invariant
            lo <= hi <= cs@.len(),
            front == cs@.subrange(lo as int, cs@.len() as int),
            trim_end(front) == trim_end(cs@.subrange(lo as int, hi as int)),
        decreases hi,
    {
        assert(cs@.subrange(lo as int, hi as int).drop_last() =~= cs@.subrange(lo as int, hi - 1));
        hi = hi - 1;
    }
    assert(trim_end(cs@.subrange(lo as int, hi as int)) == cs@.subrange(lo as int, hi as int));
    string_of(&cs, lo, hi)
}

/// The decimal spelling of `n`.
pub open spec fn decimal_text(n: nat) -> Seq<char>
    decreases n,
{
    if n < 10 {
        seq![(n + '0' as nat) as char]
    } else {
        decimal_text(n / 10) + seq![((n % 10) + '0' as nat) as char]
    }
}

/// `n` written in decimal.
pub fn u64_text(n: u64) -> (r: String)
    ensures
        r@ == decimal_text(n as nat),
    decreases n,
{
    let c = match n % 10 {
        0 => '0',
        1 => '1',
        2 => '2',
        3 => '3',
        4 => '4',
        5 => '5',
        6 => '6',
        7 => '7',
        8 => '8',
        _ => '9',
    };
    assert(c == ((n % 10) + '0' as nat) as char);
    if n < 10 {
        let mut s = String::new();
        push_char(&mut s, c);
        s
    } else {
        let mut s = u64_text(n / 10);
        push_char(&mut s, c);
        s
    }
}


/// The decimal spelling of a signed integer, with `-` before a negative one.
pub open spec fn int_text(n: int) -> Seq<char> {
    if n < 0 {
        "-"@ + decimal_text((-n) as nat)
    } else {
        decimal_text(n as nat)
    }
}

/// `n` written in decimal, with `-` before a negative number.
pub fn i64_text(n: i64) -> (r: String)
    ensures
        r@ == int_text(n as int),
{
    if n < 0 {
        let m: u64 = if n == i64::MIN {
            9223372036854775808u64
        } else {
            (-n) as u64
        };
        let digits = u64_text(m);
        let mut s = String::from_str("-");
        s.append(digits.as_str());
        proof {
            reveal_strlit("-");
        }
        s
    } else {
        u64_text(n as u64)
    }
}

/// How many line feeds `s` holds.
pub open spec fn newline_count(s: Seq<char>) -> nat
    decreases s.len(),
{
    if s.len() == 0 {
        0
    } else {
        newline_count(s.drop_last()) + if s.last() == '\n' {
            1nat
        } else {
            0nat
        }
    }
}

/// How many characters follow the last line feed of `s` (all of them when
/// there is none).
pub open spec fn last_line_len(s: Seq<char>) -> nat
    decreases s.len(),
{
    if s.len() == 0 {
        0
    } else if s.last() == '\n' {
        0
    } else {
        last_line_len(s.drop_last()) + 1
    }
}

/// `newline_count` is at most the length.
pub proof fn lemma_newline_count_le(s: Seq<char>)
    ensures
        newline_count(s) <= s.len(),
        last_line_len(s) <= s.len(),
    decreases s.len(),
{
    if s.len() > 0 {
        lemma_newline_count_le(s.drop_last());
    }
}


proof fn lemma_trim_start_cut(s: Seq<char>) -> (lo: int)
    ensures
        0 <= lo <= s.len(),
        trim_start(s) == s.subrange(lo, s.len() as int),
        forall|i: int| 0 <= i < lo ==> #[trigger] is_white(s[i]),
        lo < s.len() ==> !is_white(s[lo]),
    decreases s.len(),
{
    if s.len() > 0 && is_white(s[0]) {
        let r = lemma_trim_start_cut(s.skip(1));
        assert(s.skip(1).subrange(r, s.len() - 1) =~= s.subrange(r + 1, s.len() as int));
        assert forall|i: int| 0 <= i < r + 1 implies #[trigger] is_white(s[i]) by {
            if i > 0 {
                assert(s[i] == s.skip(1)[i - 1]);
            }
        }
        assert(r + 1 < s.len() ==> s[r + 1] == s.skip(1)[r]);
        r + 1
    } else {
        assert(s.subrange(0, s.len() as int) =~= s);
        0
    }
}

proof fn lemma_trim_end_cut(s: Seq<char>) -> (hi: int)
    ensures
        0 <= hi <= s.len(),
        trim_end(s) == s.subrange(0, hi),
        forall|i: int| hi <= i < s.len() ==> #[trigger] is_white(s[i]),
        hi > 0 ==> !is_white(s[hi - 1]),
    decreases s.len(),
{
    if s.len() > 0 && is_white(s.last()) {
        let r = lemma_trim_end_cut(s.drop_last());
        assert(s.drop_last().subrange(0, r) =~= s.subrange(0, r));
        assert forall|i: int| r <= i < s.len() implies #[trigger] is_white(s[i]) by {
            if i < s.len() - 1 {
                assert(s[i] == s.drop_last()[i]);
            }
        }
        assert(r > 0 ==> s[r - 1] == s.drop_last()[r - 1]);
        r
    } else {
        assert(s.subrange(0, s.len() as int) =~= s);
        s.len() as int
    }
}

/// Trimming takes off white space at both ends and nothing else: what is
/// left is one stretch of the text, only white space lies around it, and
/// it neither begins nor ends with white space.
pub proof fn lemma_trim_cuts_white_ends(s: Seq<char>)
    ensures
        exists|lo: int, hi: int|
            0 <= lo <= hi <= s.len() && trim(s) == s.subrange(lo, hi) && (forall|i: int|
                0 <= i < lo ==> #[trigger] is_white(s[i])) && (forall|i: int|
                hi <= i < s.len() ==> #[trigger] is_white(s[i])),
        trim(s).len() > 0 ==> !is_white(trim(s)[0]) && !is_white(trim(s).last()),
{
    let lo = lemma_trim_start_cut(s);
    let front = s.subrange(lo, s.len() as int);
    let h = lemma_trim_end_cut(front);
    assert(front.subrange(0, h) =~= s.subrange(lo, lo + h));
    assert forall|i: int| lo + h <= i < s.len() implies #[trigger] is_white(s[i]) by {
        assert(s[i] == front[i - lo]);
    }
    if trim(s).len() > 0 {
        assert(trim(s)[0] == s[lo]);
        assert(trim(s).last() == front[h - 1]);
    }
}

} // verus!

