use crate::span::Span;
use crate::text::{decimal_text, u64_text};
use vstd::prelude::*;

verus! {

/// Stable machine-readable classes of syntax error.
#[derive(Clone, Copy, Debug, PartialEq, Eq, Hash, Structural)]
pub enum SyntaxErrorCode {
    /// A specific token or category was required here.
    Expected,
    /// Something was found that nothing in the grammar allows here.
    Unexpected,
    ChainedComparison,
    ReservedWord,
    InvalidCharacter,
    UnterminatedComment,
    LiteralPattern,
    Empty,
    /// A unit expression after a number is not well formed.
    MalformedUnit,
}

/// The stable code string of each class.
pub open spec fn spec_code_str(c: SyntaxErrorCode) -> Seq<char> {
    match c {
        SyntaxErrorCode::Expected => "syntax.expected"@,
        SyntaxErrorCode::Unexpected => "syntax.unexpected"@,
        SyntaxErrorCode::ChainedComparison => "syntax.chained_comparison"@,
        SyntaxErrorCode::ReservedWord => "syntax.reserved_word"@,
        SyntaxErrorCode::InvalidCharacter => "syntax.invalid_character"@,
        SyntaxErrorCode::UnterminatedComment => "syntax.unterminated_comment"@,
        SyntaxErrorCode::LiteralPattern => "syntax.literal_pattern"@,
        SyntaxErrorCode::Empty => "syntax.empty"@,
        SyntaxErrorCode::MalformedUnit => "syntax.malformed_unit"@,
    }
}

impl SyntaxErrorCode {
    pub fn as_str(self) -> (r: &'static str)
        ensures
            r@ == spec_code_str(self),
    {
        match self {
            SyntaxErrorCode::Expected => "syntax.expected",
            SyntaxErrorCode::Unexpected => "syntax.unexpected",
            SyntaxErrorCode::ChainedComparison => "syntax.chained_comparison",
            SyntaxErrorCode::ReservedWord => "syntax.reserved_word",
            SyntaxErrorCode::InvalidCharacter => "syntax.invalid_character",
            SyntaxErrorCode::UnterminatedComment => "syntax.unterminated_comment",
            SyntaxErrorCode::LiteralPattern => "syntax.literal_pattern",
            SyntaxErrorCode::Empty => "syntax.empty",
            SyntaxErrorCode::MalformedUnit => "syntax.malformed_unit",
        }
    }
}

/// One syntax diagnostic.  `message` is for the designer; `expected` and
/// `found` are the token-level detail for a technical line; `hint` is a
/// suggested rewrite when one is known.
#[derive(Debug)]
pub struct SyntaxError {
    pub code: SyntaxErrorCode,
    pub span: Span,
    pub message: String,
    /// What would have been accepted here, e.g. "`)`", "an expression".
    pub expected: Vec<String>,
    /// What was there instead, e.g. "`else`", "the end of the source".
    pub found: String,
    pub hint: Option<String>,
}

/// `parts` joined by `sep`.
pub open spec fn spec_join(parts: Seq<Seq<char>>, sep: Seq<char>) -> Seq<char>
    decreases parts.len(),
{
    if parts.len() == 0 {
        Seq::empty()
    } else if parts.len() == 1 {
        parts[0]
    } else {
        spec_join(parts.drop_last(), sep) + sep + parts.last()
    }
}

/// The sort key of a diagnostic: where it starts, then where it ends.
pub open spec fn error_key_le(a: SyntaxError, b: SyntaxError) -> bool {
    a.span.start < b.span.start || (a.span.start == b.span.start && a.span.end <= b.span.end)
}

pub open spec fn errors_sorted(s: Seq<SyntaxError>) -> bool {
    forall|i: int, j: int| 0 <= i < j < s.len() ==> error_key_le(s[i], s[j])
}

/// Sort diagnostics by span, keeping the order of equal spans (stable).
pub fn sort_errors(v: Vec<SyntaxError>) -> (r: Vec<SyntaxError>)
    ensures
        r@.to_multiset() == v@.to_multiset(),
        errors_sorted(r@),
{
    broadcast use vstd::seq_lib::group_to_multiset_ensures;

    let mut out: Vec<SyntaxError> = Vec::new();
    let mut rest = v;
    let ghost orig = rest@;
    let mut taken: usize = 0;
    let mut src: Vec<SyntaxError> = Vec::new();
    // move the input into a reversed stack so elements can be popped in order
    while rest.len() > 0
        invariant
            src@.to_multiset().add(rest@.to_multiset()) == orig.to_multiset(),
        decreases rest@.len(),
    {
        let ghost r0 = rest@;
        let e = rest.pop().unwrap();
        assert(r0 =~= rest@.push(e));
        let ghost s0 = src@;
        src.push(e);
        proof {
            vstd::seq_lib::to_multiset_build(s0, e);
            vstd::seq_lib::to_multiset_build(rest@, e);
        }
    }
    assert(rest@.to_multiset() =~= vstd::multiset::Multiset::empty());
    while src.len() > 0
        invariant
            out@.to_multiset().add(src@.to_multiset()) == orig.to_multiset(),
            errors_sorted(out@),
        decreases src@.len(),
    {
        let ghost s0 = src@;
        let e = src.pop().unwrap();
        assert(s0 =~= src@.push(e));
        proof {
            vstd::seq_lib::to_multiset_build(src@, e);
        }
        // after every element whose key is not larger
        let mut j = out.len();
        while j > 0 && (out[j - 1].span.start > e.span.start || (out[j - 1].span.start
            == e.span.start && out[j - 1].span.end > e.span.end))
            invariant
                j <= out@.len(),
                forall|k: int| j <= k < out@.len() ==> !error_key_le(#[trigger] out@[k], e),
            decreases j,
        {
            j = j - 1;
        }
        let ghost o0 = out@;
        assert(j > 0 ==> error_key_le(o0[j - 1], e));
        proof {
            vstd::seq_lib::to_multiset_insert(o0, j as int, e);
        }
        out.insert(j, e);
        let ghost o1 = out@;
        assert(o1 == o0.insert(j as int, e));
        assert(forall|a: int| 0 <= a < j ==> o1[a] == o0[a]);
        assert(o1[j as int] == e);
        assert(forall|a: int| j < a < o1.len() ==> o1[a] == o0[a - 1]);
        assert(errors_sorted(o1)) by {
            assert forall|a: int, b: int| 0 <= a < b < o1.len() implies error_key_le(
                o1[a],
                o1[b],
            ) by {
                if b < j {
                    assert(error_key_le(o0[a], o0[b]));
                } else if a < j && b == j {
                    assert(error_key_le(o0[a], o0[j - 1]) || a == j - 1);
                } else if a < j {
                    assert(error_key_le(o0[a], o0[b - 1]));
                } else if a == j {
                    assert(!error_key_le(o0[b - 1], e));
                } else {
                    assert(error_key_le(o0[a - 1], o0[b - 1]));
                }
            }
        }
    }
    out
}

impl SyntaxError {
    /// A copy of the diagnostic.
    pub fn copy(&self) -> (r: SyntaxError)
        ensures
            r.code == self.code,
            r.span == self.span,
            r.message@ == self.message@,
            r.found@ == self.found@,
            r.expected@.len() == self.expected@.len(),
            forall|i: int| 0 <= i < r.expected@.len() ==> #[trigger] r.expected@[i]@ == self.expected@[i]@,
            r.expected@.map_values(|x: String| x@) == self.expected@.map_values(|x: String| x@),
            match self.hint {
                Some(h) => r.hint matches Some(g) && g@ == h@,
                None => r.hint is None,
            },
    {
        let mut expected: Vec<String> = Vec::new();
        let mut i: usize = 0;
        while i < self.expected.len()
            invariant
                i <= self.expected@.len(),
                expected@.len() == i,
                forall|j: int| 0 <= j < i ==> #[trigger] expected@[j]@ == self.expected@[j]@,
            decreases self.expected@.len() - i,
        {
            expected.push(self.expected[i].clone());
            i = i + 1;
        }
        assert(expected@.map_values(|x: String| x@) =~= self.expected@.map_values(|x: String| x@));
        SyntaxError {
            code: self.code,
            span: self.span,
            message: self.message.clone(),
            expected,
            found: self.found.clone(),
            hint: match &self.hint {
                Some(h) => Some(h.clone()),
                None => None,
            },
        }
    }

    pub fn new(code: SyntaxErrorCode, span: Span, message: String, found: String) -> (r: SyntaxError)
        ensures
            r.code == code,
            r.span == span,
            r.message@ == message@,
            r.expected@.len() == 0,
            r.expected@.map_values(|x: String| x@) == Seq::<Seq<char>>::empty(),
            r.found@ == found@,
            r.hint is None,
    {
        let r = SyntaxError { code, span, message, expected: Vec::new(), found, hint: None };
        assert(r.expected@.map_values(|x: String| x@) =~= Seq::<Seq<char>>::empty());
        r
    }

    pub fn expecting(self, expected: Vec<String>) -> (r: SyntaxError)
        ensures
            r.code == self.code,
            r.span == self.span,
            r.message == self.message,
            r.expected == expected,
            r.found == self.found,
            r.hint == self.hint,
    {
        SyntaxError { expected, ..self }
    }

    pub fn with_hint(self, hint: String) -> (r: SyntaxError)
        ensures
            r.code == self.code,
            r.span == self.span,
            r.message == self.message,
            r.expected == self.expected,
            r.found == self.found,
            r.hint == Some(hint),
    {
        SyntaxError { hint: Some(hint), ..self }
    }

    /// The one-line rendering: `start..end code: message`.
    pub fn to_string(&self) -> (r: String)
        ensures
            r@ == decimal_text(self.span.start as nat) + ".."@ + decimal_text(self.span.end as nat)
                + " "@ + spec_code_str(self.code) + ": "@ + self.message@,
    {
        let mut out = u64_text(self.span.start as u64);
        out.append("..");
        let end = u64_text(self.span.end as u64);
        out.append(end.as_str());
        out.append(" ");
        out.append(self.code.as_str());
        out.append(": ");
        out.append(self.message.as_str());
        out
    }

    /// The technical line: "expected `)` or `,`, found `else`".
    pub fn technical(&self) -> (r: String)
        ensures
            self.expected@.len() == 0 ==> r@ == "found "@ + self.found@,
            self.expected@.len() > 0 ==> r@ == "expected "@ + spec_join(
                self.expected@.map_values(|e: String| e@),
                " or "@,
            ) + ", found "@ + self.found@,
    {
        if self.expected.len() == 0 {
            let r = String::from_str("found ");
            r.concat(self.found.as_str())
        } else {
            let ghost parts = self.expected@.map_values(|e: String| e@);
            let mut joined = String::from_str("expected ");
            let ghost head = joined@;
            let mut i: usize = 0;
            while i < self.expected.len()
                invariant
                    0 <= i <= self.expected@.len(),
                    parts == self.expected@.map_values(|e: String| e@),
                    head == "expected "@,
                    joined@ == head + spec_join(parts.subrange(0, i as int), " or "@),
                decreases self.expected@.len() - i,
            {
                assert(parts.subrange(0, i + 1).drop_last() =~= parts.subrange(0, i as int));
                if i > 0 {
                    joined.append(" or ");
                }
                joined.append(self.expected[i].as_str());
                i = i + 1;
            }
            assert(parts.subrange(0, i as int) =~= parts);
            joined.append(", found ");
            joined.append(self.found.as_str());
            joined
        }
    }
}

} // verus!
