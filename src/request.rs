use vstd::prelude::*;

use crate::error::CliError;
use crate::kv::{is_pair_token, parse_kv_pair, splits_into, KvPair};
use crate::uri::{is_absolute_uri, parse_url, url_serialization};

verus! {

/// The HTTP method of a request.
#[derive(Debug, Clone, Copy, PartialEq, Eq)]
pub enum Method {
    Get,
    Post,
}

/// A validated request: an absolute URL, and for POST the body fields in the
/// order given.
#[derive(Debug, Clone)]
pub struct RequestDescriptor {
    pub method: Method,
    pub url: String,
    pub body: Vec<KvPair>,
}

/// Index of the first token that is not a body token, if any.
pub open spec fn first_bad_token(tokens: Seq<String>, i: int) -> bool {
    &&& 0 <= i < tokens.len()
    &&& !is_pair_token(tokens[i]@)
    &&& forall|j: int| 0 <= j < i ==> is_pair_token(#[trigger] tokens[j]@)
}

impl RequestDescriptor {
    /// A GET request to `url`, which must be a well-formed absolute URI.
    pub fn get_request(url: &str) -> (r: Result<RequestDescriptor, CliError>)
        ensures
            r is Ok <==> is_absolute_uri(url@),
            r matches Ok(d) ==> d.method == Method::Get && url_serialization(url@) == Some(
                d.url@,
            ) && d.body@.len() == 0,
            r matches Err(e) ==> e == (CliError::InvalidUrl { url: e->url }) && e->url@ == url@,
    {
        let u = parse_url(url)?;
        Ok(RequestDescriptor { method: Method::Get, url: u, body: Vec::new() })
    }

    /// A POST request to `url` whose body is made of `tokens`, each `key=value`.
    /// The URL is checked first; then the first token that is not a body
    /// token is reported.
    pub fn post_request(url: &str, tokens: &Vec<String>) -> (r: Result<RequestDescriptor, CliError>)
        ensures
            r is Ok <==> is_absolute_uri(url@) && forall|j: int|
                0 <= j < tokens@.len() ==> is_pair_token(#[trigger] tokens@[j]@),
            r matches Ok(d) ==> {
                &&& d.method == Method::Post
                &&& url_serialization(url@) == Some(d.url@)
                &&& d.body@.len() == tokens@.len()
                &&& forall|j: int|
                    0 <= j < tokens@.len() ==> splits_into(
                        #[trigger] tokens@[j]@,
                        d.body@[j].k@,
                        d.body@[j].v@,
                    )
            },
            r matches Err(e) ==> if !is_absolute_uri(url@) {
                e == (CliError::InvalidUrl { url: e->url }) && e->url@ == url@
            } else {
                e == (CliError::InvalidBodyPair { token: e->token }) && exists|i: int|
                    first_bad_token(tokens@, i) && #[trigger] tokens@[i]@ == e->token@
            },
    {
        let u = parse_url(url)?;
        let mut body: Vec<KvPair> = Vec::new();
        let mut i: usize = 0;
        while i < tokens.len()
            invariant
                i <= tokens@.len(),
                is_absolute_uri(url@),
                url_serialization(url@) == Some(u@),
                body@.len() == i,
                forall|j: int| 0 <= j < i ==> is_pair_token(#[trigger] tokens@[j]@),
                forall|j: int|
                    0 <= j < i ==> splits_into(#[trigger] tokens@[j]@, body@[j].k@, body@[j].v@),
            decreases tokens@.len() - i,
        {
            match parse_kv_pair(tokens[i].as_str()) {
                Ok(kv) => {
                    body.push(kv);
                },
                Err(e) => {
                    assert(first_bad_token(tokens@, i as int));
                    assert(tokens@[i as int]@ == e->token@);
                    return Err(e);
                },
            }
            i = i + 1;
        }
        Ok(RequestDescriptor { method: Method::Post, url: u, body })
    }
}

} // verus!
