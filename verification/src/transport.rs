//! Transport-policy decisions: the success-code gate that turns non-2xx
//! statuses into typed failures, the cache-control header rewriting, and
//! the trusted query-URL builder.

use vstd::prelude::*;
use crate::error::ApiError;
use crate::error::ApiErrorView;
use crate::error::ERR_MSG;
use crate::error::NOT_FOUND;
use crate::error::PRIVATE_PROFILE;
use crate::error::USER_NOT_FOUND;
use crate::text::contains_seq;
use crate::text::str_contains;

verus! {

/// Which failure a non-success status maps to: not-found on a detail
/// lookup names the missing entity; elsewhere 404 means "no such user",
/// 403 means "private profile", and anything else carries the reason
/// phrase or a generic fallback.
pub open spec fn spec_gate_failure(
    status: u16,
    reason: Option<Seq<char>>,
    detail_lookup: bool,
) -> ApiErrorView {
    if status == 404 && detail_lookup {
        ApiErrorView::EntityNotFoundFailure(NOT_FOUND@)
    } else if status == 404 {
        ApiErrorView::HttpStatusFailure(USER_NOT_FOUND@)
    } else if status == 403 {
        ApiErrorView::HttpStatusFailure(PRIVATE_PROFILE@)
    } else {
        ApiErrorView::HttpStatusFailure(
            match reason {
                Some(t) => t,
                None => ERR_MSG@,
            },
        )
    }
}

/// The success-code gate: a 2xx status passes, everything else becomes a
/// typed failure with provider-appropriate display text. A 404 on a
/// single-entity detail endpoint is a missing entity, not a generic
/// transport error.
pub fn gate_response(status: u16, reason: Option<&str>, detail_lookup: bool) -> (r: Result<
    (),
    ApiError,
>)
    ensures
        (r is Ok) == (200 <= status < 300),
        r matches Err(e) ==> e@ == spec_gate_failure(status, reason.deep_view(), detail_lookup),
{
    if 200 <= status && status < 300 {
        Ok(())
    } else if status == 404 && detail_lookup {
        Err(ApiError::EntityNotFoundFailure(NOT_FOUND.to_owned()))
    } else if status == 404 {
        Err(ApiError::HttpStatusFailure(USER_NOT_FOUND.to_owned()))
    } else if status == 403 {
        Err(ApiError::HttpStatusFailure(PRIVATE_PROFILE.to_owned()))
    } else {
        match reason {
            Some(t) => Err(ApiError::HttpStatusFailure(t.to_owned())),
            None => Err(ApiError::HttpStatusFailure(ERR_MSG.to_owned())),
        }
    }
}

/// The cache-control request header for a call site: serve-slightly-stale
/// when cached answers are acceptable, force revalidation otherwise.
pub fn cache_control_value(prefer_cached: bool) -> (r: &'static str)
    ensures
        prefer_cached ==> r@ == "max-stale=300"@,
        !prefer_cached ==> r@ == "no-cache, must-revalidate"@,
{
    if prefer_cached {
        "max-stale=300"
    } else {
        "no-cache, must-revalidate"
    }
}

/// Whether an outgoing request opted out of the cache.
pub open spec fn spec_no_cache(existing: Option<Seq<char>>) -> bool {
    match existing {
        Some(h) => contains_seq(h, "no-cache"@),
        None => false,
    }
}

/// What the cache middleware appends to an outgoing request: a stale
/// allowance, unless the request already opted out of the cache.
pub fn rewrite_request_cache_control(existing: Option<&str>) -> (r: Option<&'static str>)
    ensures
        match r {
            Some(v) => !spec_no_cache(existing.deep_view()) && v@ == "max-stale=300"@,
            None => spec_no_cache(existing.deep_view()),
        },
{
    let no_cache = match existing {
        Some(h) => str_contains(h, "no-cache"),
        None => false,
    };
    if no_cache {
        None
    } else {
        Some("max-stale=300")
    }
}

/// What the cache middleware writes on an incoming response so that
/// intermediate caches cooperate, unless the request opted out.
pub fn rewrite_response_cache_control(existing: Option<&str>) -> (r: Option<&'static str>)
    ensures
        match r {
            Some(v) => !spec_no_cache(existing.deep_view()) && v@ == "max-age=300, public, immutable"@,
            None => spec_no_cache(existing.deep_view()),
        },
{
    let no_cache = match existing {
        Some(h) => str_contains(h, "no-cache"),
        None => false,
    };
    if no_cache {
        None
    } else {
        Some("max-age=300, public, immutable")
    }
}

/// What serializing a base URL with appended query pairs yields: a
/// function of the inputs alone.
pub uninterp spec fn url_of(base: Seq<char>, params: Seq<(Seq<char>, Seq<char>)>) -> Option<
    Seq<char>,
>;

/// Relies on url::Url::parse_with_params: parsing the base URL and
/// appending the pairs to its query is deterministic in the inputs;
/// `url_of` names the serialized result, and an unparsable base yields
/// nothing.
#[verifier::external_body]
pub(crate) fn build_query_url(base: &str, params: &Vec<(String, String)>) -> (r: Option<String>)
    ensures
        r.deep_view() == url_of(base@, params.deep_view()),
{
    match url::Url::parse_with_params(base, params.iter().map(|p| (p.0.as_str(), p.1.as_str()))) {
        Ok(u) => Some(String::from(u)),
        Err(_) => None,
    }
}

} // verus!
