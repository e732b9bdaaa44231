//! The naming rules of system edits.
use crate::text::{chars_of, push_char, trim, trimmed};
use vstd::prelude::*;

verus! {

/// Why a name was refused.
#[derive(Clone, Copy, Debug, PartialEq, Eq, Structural)]
pub enum NameError {
    /// Nothing but white space.
    EmptyName,
}

/// A name as an edit stores it: trimmed, and not empty.
pub fn valid_name(name: &str) -> (r: Result<String, NameError>)
    ensures
        trim(name@).len() == 0 ==> r == Err::<String, NameError>(NameError::EmptyName),
        trim(name@).len() > 0 ==> (r matches Ok(n) && n@ == trim(name@)),
{
    let n = trimmed(name);
    if n.unicode_len() == 0 {
        Err(NameError::EmptyName)
    } else {
        Ok(n)
    }
}

/// Whether `c` has the Unicode `Uppercase` property (`char::is_uppercase`).
pub uninterp spec fn uppercase(c: char) -> bool;

/// The lowercase mapping of `c`, one or more characters
/// (`char::to_lowercase`).
pub uninterp spec fn lowercase(c: char) -> Seq<char>;

/// `char::is_uppercase`: the contract names the result; of ASCII letters it
/// states what the documentation shows (`'A'..='Z'` are uppercase,
/// `'a'..='z'` are not).
#[verifier::external_body]
fn is_uppercase(c: char) -> (r: bool)
    ensures
        r == uppercase(c),
        'A' <= c <= 'Z' ==> r,
        'a' <= c <= 'z' ==> !r,
{
    c.is_uppercase()
}

/// `char::to_lowercase`, collected: the contract names the result; of an
/// ASCII capital it states the one letter it maps to.
#[verifier::external_body]
fn to_lowercase(c: char) -> (r: String)
    ensures
        r@ == lowercase(c),
        'A' <= c <= 'Z' ==> r@ == seq![((c as u32) + 32) as char],
{
    c.to_lowercase().collect()
}

/// The instance name a component's name suggests.
pub open spec fn spec_instance_name(component: Seq<char>) -> Seq<char> {
    if component.len() == 0 {
        "instance"@
    } else if uppercase(component[0]) {
        lowercase(component[0]) + component.skip(1)
    } else {
        component + "1"@
    }
}

/// `AdaptiveLamp` → `adaptiveLamp`; a name that is already lower-case
/// gets a `1`.
pub fn instance_name_for(component: &str) -> (r: String)
    ensures
        r@ == spec_instance_name(component@),
        component@.len() > 0 && 'A' <= component@[0] <= 'Z' ==> r@ == seq![
            ((component@[0] as u32) + 32) as char,
        ] + component@.skip(1),
        component@.len() > 0 && 'a' <= component@[0] <= 'z' ==> r@ == component@ + "1"@,
{
    let cs = chars_of(component);
    if cs.len() == 0 {
        return String::from_str("instance");
    }
    if is_uppercase(cs[0]) {
        let mut out = to_lowercase(cs[0]);
        let ghost head = out@;
        let mut i: usize = 1;
        while i < cs.len()
            invariant
                1 <= i <= cs@.len(),
                out@ == head + cs@.subrange(1, i as int),
            decreases cs@.len() - i,
        {
            push_char(&mut out, cs[i]);
            assert(cs@.subrange(1, i + 1) =~= cs@.subrange(1, i as int).push(cs@[i as int]));
            i = i + 1;
        }
        assert(cs@.subrange(1, cs@.len() as int) =~= cs@.skip(1));
        out
    } else {
        let mut out = String::from_str(component);
        out.append("1");
        out
    }
}

} // verus!
