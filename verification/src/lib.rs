//! Core of a scrobble-history inspector: provider adapters that normalize
//! three scrobbling services' JSON into one entity model, a free-text
//! argument mini-parser, transport-policy decisions (status gate, cache
//! control), and request planning for the aggregation facade.

pub mod cache;
pub mod dates;
pub mod error;
pub mod facade;
pub mod json;
pub mod lastfm;
pub mod listenbrainz;
pub mod model;
pub mod parser;
pub mod text;
pub mod transport;
