//! The typed failure taxonomy: transport errors, HTTP status errors with
//! their human-readable display text, malformed provider responses, and
//! missing single entities.

use vstd::prelude::*;

verus! {

pub const ERR_MSG: &'static str = "Oopsie doopsie, I did a fucky wucky!";

pub const USER_NOT_FOUND: &'static str = "No such uwuser";

pub const PRIVATE_PROFILE: &'static str =
    "Your scrobbles are hidden. To use this bot, disable that at https://www.last.fm/settings/privacy";

pub const NOT_FOUND: &'static str = "Not found.";

pub const MALFORMED_RESPONSE: &'static str = "Malformed response.";

pub const INVALID_URL: &'static str = "Invalid request URL.";

/// A typed failure from the aggregation core. Every variant carries the
/// display text that the presentation layer shows.
#[derive(Debug, Clone)]
pub enum ApiError {
    /// The network, TLS or timeout layer failed; nothing was received.
    TransportFailure(String),
    /// The provider answered with a non-success status.
    HttpStatusFailure(String),
    /// The provider answered 2xx but the expected JSON shape was absent.
    MalformedResponseFailure(String),
    /// A single-entity detail lookup found no such entity.
    EntityNotFoundFailure(String),
}

pub enum ApiErrorView {
    TransportFailure(Seq<char>),
    HttpStatusFailure(Seq<char>),
    MalformedResponseFailure(Seq<char>),
    EntityNotFoundFailure(Seq<char>),
}

impl View for ApiError {
    type V = ApiErrorView;

    open spec fn view(&self) -> ApiErrorView {
        match self {
            ApiError::TransportFailure(m) => ApiErrorView::TransportFailure(m@),
            ApiError::HttpStatusFailure(m) => ApiErrorView::HttpStatusFailure(m@),
            ApiError::MalformedResponseFailure(m) => ApiErrorView::MalformedResponseFailure(m@),
            ApiError::EntityNotFoundFailure(m) => ApiErrorView::EntityNotFoundFailure(m@),
        }
    }
}

impl DeepView for ApiError {
    type V = ApiErrorView;

    open spec fn deep_view(&self) -> ApiErrorView {
        self.view()
    }
}

impl ApiError {
    pub open spec fn spec_message(&self) -> Seq<char> {
        match self {
            ApiError::TransportFailure(m) => m@,
            ApiError::HttpStatusFailure(m) => m@,
            ApiError::MalformedResponseFailure(m) => m@,
            ApiError::EntityNotFoundFailure(m) => m@,
        }
    }

    /// The display text carried by the failure.
    pub fn message(&self) -> (r: &String)
        ensures
            r@ == self.spec_message(),
    {
        match self {
            ApiError::TransportFailure(m) => m,
            ApiError::HttpStatusFailure(m) => m,
            ApiError::MalformedResponseFailure(m) => m,
            ApiError::EntityNotFoundFailure(m) => m,
        }
    }
}

} // verus!
