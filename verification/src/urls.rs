//! What the library needs from the `url` crate (WHATWG URL parsing), behind
//! trusted wrappers from plain strings to plain strings.
//!
//! URL parsing is specified by pages of the WHATWG standard, so its results
//! are named here rather than written out; the callers' contracts speak of
//! these names.

use vstd::prelude::*;

verus! {

/// Whether `url::Url::parse` accepts `input` as an absolute URL.
pub uninterp spec fn url_parses(input: Seq<char>) -> bool;

/// The host that `url::Url::host_str` reports for `input` once
/// `url::Url::parse` has accepted it; `None` when parsing fails or the URL
/// has no host.
pub uninterp spec fn url_host_of(input: Seq<char>) -> Option<Seq<char>>;

/// The serialization of `input` resolved against `base` by
/// `url::Url::join`, after `url::Url::parse` has accepted `base`; `None`
/// when either step fails.
pub uninterp spec fn url_joined(base: Seq<char>, input: Seq<char>) -> Option<Seq<char>>;

/// Calls `url::Url::parse` and reports whether it succeeded. The contract
/// claims only that the answer is the named `url_parses` of the input.
#[verifier::external_body]
pub fn url_is_valid(input: &str) -> (r: bool)
    ensures
        r == url_parses(input@),
{
    url::Url::parse(input).is_ok()
}

/// Calls `url::Url::parse` and then `url::Url::host_str` on the parsed URL.
/// The contract claims that the result is the named `url_host_of` of the
/// input, and that a host is only reported for an input that parses.
#[verifier::external_body]
pub fn url_host(input: &str) -> (r: Option<String>)
    ensures
        r matches Some(h) ==> url_host_of(input@) == Some(h@),
        r is None ==> url_host_of(input@) is None,
        r is Some ==> url_parses(input@),
{
    match url::Url::parse(input) {
        Ok(u) => match u.host_str() {
            Some(h) => Some(h.to_string()),
            None => None,
        },
        Err(_) => None,
    }
}

/// Calls `url::Url::parse` on `base`, then `url::Url::join` with `input`,
/// and serializes the result with its `Display`. The contract claims that
/// the result is the named `url_joined` of the two inputs, and that a result
/// is only given for a base that parses.
#[verifier::external_body]
pub fn url_join(base: &str, input: &str) -> (r: Option<String>)
    ensures
        r matches Some(j) ==> url_joined(base@, input@) == Some(j@),
        r is None ==> url_joined(base@, input@) is None,
        r is Some ==> url_parses(base@),
{
    match url::Url::parse(base) {
        Ok(b) => match b.join(input) {
            Ok(u) => Some(u.to_string()),
            Err(_) => None,
        },
        Err(_) => None,
    }
}

} // verus!
