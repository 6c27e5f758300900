//! Shape checks for the shortened-URL bodies.
use vstd::prelude::*;
use vstd::string::*;
use vstd::utf8::*;

verus! {

/// Whether the string parses as a URL, a function of the string alone;
/// given meaning by `parses_as_url` below.
pub uninterp spec fn url_ok(s: Seq<char>) -> bool;

/// Relies on url::Url::parse: success depends on the string alone.
#[verifier::external_body]
fn parses_as_url(candidate: &str) -> (r: bool)
    ensures
        r == url_ok(candidate@),
{
    url::Url::parse(candidate).is_ok()
}

/// A long URL is at most 2048 bytes and parses as a URL.
pub open spec fn valid_long_url(s: Seq<char>) -> bool {
    encode_utf8(s).len() <= 2048 && url_ok(s)
}

/// A title is at most 64 bytes.
pub open spec fn valid_title(s: Seq<char>) -> bool {
    encode_utf8(s).len() <= 64
}

/// A description is at most 256 bytes.
pub open spec fn valid_description(s: Seq<char>) -> bool {
    encode_utf8(s).len() <= 256
}

/// Exact check of the long-URL rule.
pub fn is_valid_long_url(candidate: &str) -> (r: bool)
    ensures
        r == valid_long_url(candidate@),
{
    candidate.as_bytes().len() <= 2048 && parses_as_url(candidate)
}

/// Exact check of the title length bound.
pub fn is_valid_title(title: &str) -> (r: bool)
    ensures
        r == valid_title(title@),
{
    title.as_bytes().len() <= 64
}

/// Exact check of the description length bound.
pub fn is_valid_description(description: &str) -> (r: bool)
    ensures
        r == valid_description(description@),
{
    description.as_bytes().len() <= 256
}

} // verus!
