//! URL joining and parsing, behind trusted calls into the `url` crate.

use vstd::prelude::*;

verus! {

/// The serialization of `href` resolved against `base` by standard URL-join
/// semantics, or nothing when `base` does not parse or the join fails. A
/// function of the two strings alone.
pub uninterp spec fn url_joined(base: Seq<char>, href: Seq<char>) -> Option<Seq<char>>;

/// Relies on `url::Url::parse` and `url::Url::join`: parses `base`, resolves
/// `href` against it (a relative reference becomes absolute, an absolute one
/// passes through), and serializes the result.
#[verifier::external_body]
pub(crate) fn join_url(base: &str, href: &str) -> (r: Option<String>)
    ensures
        (r is Some) == (url_joined(base@, href@) is Some),
        r matches Some(u) ==> url_joined(base@, href@) == Some(u@),
{
    match url::Url::parse(base) {
        Ok(b) => match b.join(href) {
            Ok(u) => Some(u.to_string()),
            Err(_) => None,
        },
        Err(_) => None,
    }
}

/// The canonical serialization of `s` as an absolute URL, or nothing when `s`
/// is not a syntactically valid one. A function of the string alone.
pub uninterp spec fn url_normalized(s: Seq<char>) -> Option<Seq<char>>;

/// Relies on `url::Url::parse`: succeeds exactly on syntactically valid
/// absolute URLs and hands back the canonical serialization.
#[verifier::external_body]
pub(crate) fn parse_url(s: &str) -> (r: Option<String>)
    ensures
        (r is Some) == (url_normalized(s@) is Some),
        r matches Some(u) ==> url_normalized(s@) == Some(u@),
{
    match url::Url::parse(s) {
        Ok(u) => Some(u.to_string()),
        Err(_) => None,
    }
}

} // verus!
