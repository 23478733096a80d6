use vstd::prelude::*;

use crate::error::CliError;

verus! {

#[verifier::external_type_specification]
#[verifier::external_body]
pub struct ExUrlParseError(url::ParseError);

/// The serialization of the absolute URL that `s` denotes, if `s` is a
/// well-formed absolute URL.
pub uninterp spec fn url_serialization(s: Seq<char>) -> Option<Seq<char>>;

/// The text is a well-formed absolute URI.
pub open spec fn is_absolute_uri(s: Seq<char>) -> bool {
    url_serialization(s) is Some
}

/// Relies on url::Url::parse, which accepts absolute URLs only, and on
/// `String::from(Url)`, which hands back the parsed URL's serialization.
#[verifier::external_body]
fn url_parse(s: &str) -> (r: Result<String, url::ParseError>)
    ensures
        r is Ok <==> url_serialization(s@) is Some,
        r matches Ok(u) ==> url_serialization(s@) == Some(u@),
{
    url::Url::parse(s).map(String::from)
}

/// Validates a URL argument: a well-formed absolute URI comes back in its
/// normalized form, anything else is refused with an error naming it.
pub fn parse_url(url: &str) -> (r: Result<String, CliError>)
    ensures
        r is Ok <==> is_absolute_uri(url@),
        r matches Ok(u) ==> url_serialization(url@) == Some(u@),
        r matches Err(e) ==> e == (CliError::InvalidUrl { url: e->url }) && e->url@ == url@,
{
    match url_parse(url) {
        Ok(u) => Ok(u),
        Err(_) => Err(CliError::InvalidUrl { url: String::from_str(url) }),
    }
}

} // verus!
