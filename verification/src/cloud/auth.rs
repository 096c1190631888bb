//! API key authentication.

use vstd::prelude::*;
use crate::cloud::state::Timestamp;
use crate::text::{starts_with_seq, trim_start_matches, trim_start_matches_seq};

verus! {

/// An API key with the name it was issued under and when.
#[derive(Debug)]
pub struct ApiKeyConfig {
    pub key: String,
    pub name: String,
    pub created_at: Timestamp,
}

/// The API key in an `Authorization` header value: the value with its
/// leading `"Bearer "` prefixes removed.
pub open spec fn api_key_of(header: Seq<char>) -> Seq<char> {
    trim_start_matches_seq(header, "Bearer "@)
}

/// The API key of a request, from the text of its `Authorization` header
/// (`None` when the request has none).
pub fn extract_api_key(authorization: Option<&str>) -> (r: Option<String>)
    ensures
        match authorization {
            Some(h) => r is Some && r->0@ == api_key_of(h@),
            None => r is None,
        },
{
    match authorization {
        Some(h) => Some(trim_start_matches(h, "Bearer ")),
        None => None,
    }
}

/// Whether an API key is accepted: any key that is not empty.
pub fn validate_api_key(key: &str) -> (r: bool)
    ensures
        r == (key@.len() > 0),
{
    !key.is_empty()
}

/// Whether a request with this `Authorization` header text may pass: it
/// must carry an accepted API key.
pub fn is_authorized(authorization: Option<&str>) -> (r: bool)
    ensures
        r == match authorization {
            Some(h) => api_key_of(h@).len() > 0,
            None => false,
        },
{
    match extract_api_key(authorization) {
        Some(key) => validate_api_key(key.as_str()),
        None => false,
    }
}

/// A header "Bearer <key>" carries the key, for any key that does not
/// itself start with "Bearer " (those lose every leading copy).
pub proof fn law_bearer_key(key: Seq<char>)
    requires
        !starts_with_seq(key, "Bearer "@),
    ensures
        api_key_of("Bearer "@ + key) == key,
{
    reveal_strlit("Bearer ");
    let h = "Bearer "@ + key;
    assert(h.subrange(0, 7) =~= "Bearer "@);
    assert(h.skip(7) =~= key);
    assert(starts_with_seq(h, "Bearer "@));
    assert(trim_start_matches_seq(h, "Bearer "@) == trim_start_matches_seq(key, "Bearer "@));
}

} // verus!
