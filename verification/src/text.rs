//! ASCII case handling and string comparisons on which item lookups rely.

use vstd::prelude::*;

verus! {

/// The ASCII lower-case counterpart of a character: `'A'..='Z'` map to
/// `'a'..='z'`, every other character is left as it is.
pub open spec fn ascii_lower_char(c: char) -> char {
    if 65 <= (c as u32) && (c as u32) <= 90 {
        ((c as u32) + 32) as char
    } else {
        c
    }
}

/// A string with each of its characters mapped to its ASCII lower case.
pub open spec fn ascii_lower(s: Seq<char>) -> Seq<char> {
    s.map_values(|c: char| ascii_lower_char(c))
}

/// Two strings are equal when ASCII case is ignored.
pub open spec fn ascii_case_eq(a: Seq<char>, b: Seq<char>) -> bool {
    ascii_lower(a) == ascii_lower(b)
}

/// `p` is a prefix of `s`.
pub open spec fn has_prefix(s: Seq<char>, p: Seq<char>) -> bool {
    p.len() <= s.len() && s.take(p.len() as int) == p
}

/// `str::to_ascii_lowercase`: the documentation says that it returns a copy of
/// the string in which `'A'..='Z'` are mapped to `'a'..='z'` and every other
/// character is unchanged.
#[verifier::external_body]
pub(crate) fn to_ascii_lowercase(s: &str) -> (r: String)
    ensures
        r@ == ascii_lower(s@),
{
    s.to_ascii_lowercase()
}

/// `str::eq_ignore_ascii_case`: the documentation says that it is the same as
/// comparing `to_ascii_lowercase` of both strings.
#[verifier::external_body]
pub(crate) fn eq_ignore_ascii_case(a: &str, b: &str) -> (r: bool)
    ensures
        r == ascii_case_eq(a@, b@),
{
    a.eq_ignore_ascii_case(b)
}

/// `==` on `str`: true exactly when both hold the same characters.
#[verifier::external_body]
pub(crate) fn str_eq(a: &str, b: &str) -> (r: bool)
    ensures
        r == (a@ == b@),
{
    a == b
}

/// `str::strip_prefix` with a string prefix: the documentation says that it
/// returns the rest of the string after `prefix` when the string starts with
/// it, and `None` otherwise.
#[verifier::external_body]
pub(crate) fn strip_prefix<'a>(s: &'a str, prefix: &str) -> (r: Option<&'a str>)
    ensures
        match r {
            Some(rest) => has_prefix(s@, prefix@) && rest@ == s@.skip(prefix@.len() as int),
            None => !has_prefix(s@, prefix@),
        },
{
    s.strip_prefix(prefix)
}

} // verus!
