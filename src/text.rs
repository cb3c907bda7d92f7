//! The character and string operations of std that the library relies on,
//! each behind one small wrapper whose contract says what std documents.
use vstd::prelude::*;

verus! {

/// Whether a character has Unicode's `Alphabetic` property.
pub uninterp spec fn alphabetic(c: char) -> bool;

/// Whether a character has Unicode's `White_Space` property.
pub uninterp spec fn whitespace(c: char) -> bool;

/// The Unicode lowercase mapping of a string.
pub uninterp spec fn lower_of(s: Seq<char>) -> Seq<char>;

/// `s` without its leading whitespace.
pub open spec fn trim_start(s: Seq<char>) -> Seq<char>
    decreases s.len(),
{
    if s.len() > 0 && whitespace(s[0]) {
        trim_start(s.drop_first())
    } else {
        s
    }
}

/// `s` without its trailing whitespace.
pub open spec fn trim_end(s: Seq<char>) -> Seq<char>
    decreases s.len(),
{
    if s.len() > 0 && whitespace(s.last()) {
        trim_end(s.drop_last())
    } else {
        s
    }
}

/// `s` with every occurrence of `t` taken out, matching from the left
/// without overlap; an empty `t` leaves `s` as it is.
pub open spec fn removed(s: Seq<char>, t: Seq<char>) -> Seq<char>
    decreases s.len(),
{
    if t.len() == 0 || s.len() == 0 {
        s
    } else if s.len() >= t.len() && s.take(t.len() as int) == t {
        removed(s.skip(t.len() as int), t)
    } else {
        seq![s[0]] + removed(s.drop_first(), t)
    }
}

/// Relies on `char::is_alphabetic`: true for characters with the
/// `Alphabetic` property.
#[verifier::external_body]
pub(crate) fn is_alphabetic(c: char) -> (r: bool)
    ensures
        r == alphabetic(c),
{
    c.is_alphabetic()
}

/// Relies on `char::is_whitespace`: true for characters with the
/// `White_Space` property.
#[verifier::external_body]
pub(crate) fn is_whitespace(c: char) -> (r: bool)
    ensures
        r == whitespace(c),
{
    c.is_whitespace()
}

/// Relies on `str::to_lowercase`: the lowercase mapping of the whole string.
#[verifier::external_body]
pub(crate) fn to_lowercase(s: &str) -> (r: String)
    ensures
        r@ == lower_of(s@),
{
    s.to_lowercase()
}

/// Relies on `str::trim`: leading and trailing `White_Space` removed.
#[verifier::external_body]
pub(crate) fn trim(s: &str) -> (r: &str)
    ensures
        r@ == trim_end(trim_start(s@)),
{
    s.trim()
}

/// Relies on `str::replace` with an empty replacement: every match of
/// `token`, left to right and without overlap, is taken out.
#[verifier::external_body]
pub(crate) fn remove_all(s: &str, token: &str) -> (r: String)
    ensures
        r@ == removed(s@, token@),
{
    s.replace(token, "")
}

/// Relies on `str::chars`, collected: the characters of `s` in order.
#[verifier::external_body]
pub(crate) fn chars_of(s: &str) -> (r: Vec<char>)
    ensures
        r@ == s@,
{
    s.chars().collect()
}

/// Relies on `String: FromIterator<char>`: the string of these characters.
#[verifier::external_body]
pub(crate) fn string_of(v: &Vec<char>) -> (r: String)
    ensures
        r@ == v@,
{
    v.iter().collect()
}

} // verus!
