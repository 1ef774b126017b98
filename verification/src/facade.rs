//! The aggregation facade: request planning for every (entity, scope)
//! operation, the pure halves of the response handling, and the
//! sequenced two-step recent-tracks protocol of the structurally
//! different provider. The caller performs the HTTP exchange and hands
//! the response bodies back in.

use vstd::prelude::*;
use vstd::string::StringExecFns;
use crate::error::ApiError;
use crate::error::ApiErrorView;
use crate::error::INVALID_URL;
use crate::error::MALFORMED_RESPONSE;
use crate::json::decode_json;
use crate::json::jget;
use crate::json::jget2;
use crate::json::json_of;
use crate::json::get_u64_or_zero;
use crate::json::JsonValue;
use crate::lastfm::parse_lastfm_top_albums;
use crate::lastfm::parse_lastfm_top_artists;
use crate::lastfm::parse_lastfm_top_tracks;
use crate::lastfm::parse_lastfm_tracks;
use crate::lastfm::parse_lastfm_track_detail;
use crate::lastfm::parse_lastfm_album_detail;
use crate::lastfm::parse_lastfm_artist_detail;
use crate::lastfm::parse_lastfm_user_info;
use crate::lastfm::spec_lastfm_top_album_item;
use crate::lastfm::spec_lastfm_top_artist_item;
use crate::lastfm::spec_lastfm_top_track_item;
use crate::lastfm::spec_lastfm_tracks;
use crate::lastfm::spec_lastfm_track_detail;
use crate::lastfm::spec_lastfm_album_detail;
use crate::lastfm::spec_lastfm_artist_detail;
use crate::lastfm::spec_lastfm_user_info;
use crate::listenbrainz::parse_listenbrainz_top_albums;
use crate::listenbrainz::parse_listenbrainz_top_artists;
use crate::listenbrainz::parse_listenbrainz_tracks;
use crate::listenbrainz::parse_listenbrainz_tracks_np;
use crate::listenbrainz::spec_listenbrainz_top_album_item;
use crate::listenbrainz::spec_listenbrainz_top_artist_item;
use crate::listenbrainz::spec_listenbrainz_tracks;
use crate::model::Album;
use crate::model::AlbumView;
use crate::model::ApiType;
use crate::model::Artist;
use crate::model::ArtistView;
use crate::model::EntryType;
use crate::model::ScrobbleUser;
use crate::model::ScrobbleUserView;
use crate::model::spec_base_url;
use crate::model::spec_period_string;
use crate::model::get_base_url;
use crate::model::time_period_to_api_string;
use crate::model::TimePeriod;
use crate::model::Track;
use crate::model::TrackView;
use crate::text::dec_str;
use crate::text::u64_to_dec_string;
use crate::transport::build_query_url;
use crate::transport::url_of;

verus! {

/// The failure used when a provider body does not decode or lacks the
/// expected shape.
pub open spec fn spec_malformed_err() -> ApiErrorView {
    ApiErrorView::MalformedResponseFailure(MALFORMED_RESPONSE@)
}

/// The failure used when a request URL cannot be built.
pub open spec fn spec_invalid_url_err() -> ApiErrorView {
    ApiErrorView::TransportFailure(INVALID_URL@)
}

fn push_param(params: &mut Vec<(String, String)>, k: &str, v: &str)
    ensures
        final(params).deep_view() == old(params).deep_view().push((k@, v@)),
{
    let entry = (k.to_owned(), v.to_owned());
    let ghost prev = params@;
    let ghost prevdv = params.deep_view();
    params.push(entry);
    proof {
        assert forall|i: int|
            0 <= i < params@.len() implies params.deep_view()[i] == prevdv.push((k@, v@))[i] by {
            if i < prev.len() {
                assert(params@[i] == prev[i]);
                assert(prevdv[i] == prev[i].deep_view());
            } else {
                assert(params@[i].deep_view() == (k@, v@));
            }
        }
        assert(params.deep_view() =~~= prevdv.push((k@, v@)));
    }
}

/// Builds a query URL on a provider's API root; failure to build one is
/// a transport failure.
fn plan_lastfm_query(api_type: &ApiType, params: &Vec<(String, String)>) -> (r: Result<
    String,
    ApiError,
>)
    ensures
        match url_of(spec_base_url(*api_type), params.deep_view()) {
            Some(u) => r matches Ok(x) && x@ == u,
            None => r matches Err(e) && e@ == spec_invalid_url_err(),
        },
{
    match build_query_url(get_base_url(api_type), params) {
        Some(u) => Ok(u),
        None => Err(ApiError::TransportFailure(INVALID_URL.to_owned())),
    }
}

/// The URL of the currently-playing probe, the first call of the
/// two-step recent-tracks protocol.
pub open spec fn spec_playing_now_url(username: Seq<char>) -> Seq<char> {
    spec_base_url(ApiType::Listenbrainz) + "user/"@ + username + "/playing-now"@
}

/// The URL of the historical-listens call, the conditional second step.
pub open spec fn spec_history_url(username: Seq<char>) -> Seq<char> {
    spec_base_url(ApiType::Listenbrainz) + "user/"@ + username + "/listens?count=3"@
}

/// The recent-tracks query parameters of the two API-compatible
/// providers.
pub open spec fn spec_recent_params(username: Seq<char>, api_key: Seq<char>) -> Seq<
    (Seq<char>, Seq<char>),
> {
    seq![
        ("method"@, "user.getrecenttracks"@),
        ("user"@, username),
        ("extended"@, "1"@),
        ("limit"@, "3"@),
        ("api_key"@, api_key),
        ("format"@, "json"@),
    ]
}

/// Plans the first recent-tracks request: the currently-playing probe
/// for the structurally different provider, the single list call for
/// the other two.
pub fn plan_recent_tracks(username: &str, api_type: &ApiType, api_key: &str) -> (r: Result<
    String,
    ApiError,
>)
    ensures
        *api_type is Listenbrainz ==> (r matches Ok(u) && u@ == spec_playing_now_url(username@)),
        !(*api_type is Listenbrainz) ==> match url_of(
            spec_base_url(*api_type),
            spec_recent_params(username@, api_key@),
        ) {
            Some(u) => r matches Ok(x) && x@ == u,
            None => r matches Err(e) && e@ == spec_invalid_url_err(),
        },
{
    match api_type {
        ApiType::Listenbrainz => {
            let u = String::from_str(get_base_url(api_type)).concat("user/").concat(
                username,
            ).concat("/playing-now");
            Ok(u)
        },
        _ => {
            let mut params: Vec<(String, String)> = Vec::new();
            push_param(&mut params, "method", "user.getrecenttracks");
            push_param(&mut params, "user", username);
            push_param(&mut params, "extended", "1");
            push_param(&mut params, "limit", "3");
            push_param(&mut params, "api_key", api_key);
            push_param(&mut params, "format", "json");
            proof {
                assert(params.deep_view() =~~= spec_recent_params(username@, api_key@));
            }
            plan_lastfm_query(api_type, &params)
        },
    }
}

/// Plans the historical-listens call of the two-step protocol.
pub fn plan_listenbrainz_history(username: &str) -> (r: String)
    ensures
        r@ == spec_history_url(username@),
{
    let u = String::from_str(get_base_url(&ApiType::Listenbrainz)).concat("user/").concat(
        username,
    ).concat("/listens?count=3");
    u
}

/// The outcome of the currently-playing probe: either the protocol is
/// already finished, or the history call must be issued and its tracks
/// appended.
#[derive(Debug)]
pub enum RecentStep {
    Finished(Vec<Track>),
    FetchHistory(Vec<Track>),
}

pub enum RecentStepView {
    Finished(Seq<TrackView>),
    FetchHistory(Seq<TrackView>),
}

impl View for RecentStep {
    type V = RecentStepView;

    open spec fn view(&self) -> RecentStepView {
        match self {
            RecentStep::Finished(tracks) => RecentStepView::Finished(tracks.deep_view()),
            RecentStep::FetchHistory(tracks) => RecentStepView::FetchHistory(tracks.deep_view()),
        }
    }
}

/// What the probe decides: with at least one currently-playing entry and
/// a caller limit of one, the history call is not issued.
pub open spec fn spec_recent_after_probe(body: Seq<char>, actual_limit: nat) -> Result<
    RecentStepView,
    ApiErrorView,
> {
    match json_of(body) {
        None => Err(spec_malformed_err()),
        Some(j) => {
            let tracks = spec_listenbrainz_tracks(jget2(j, "payload"@, "listens"@), true);
            if tracks.len() > 0 && actual_limit == 1 {
                Ok(RecentStepView::Finished(tracks))
            } else {
                Ok(RecentStepView::FetchHistory(tracks))
            }
        },
    }
}

/// Decides the second step of the recent-tracks protocol from the probe
/// response: when the probe yields an entry and the caller asked for
/// exactly one, the result stands and no history call happens.
pub fn listenbrainz_recent_after_probe(probe_body: &str, actual_limit: usize) -> (r: Result<
    RecentStep,
    ApiError,
>)
    ensures
        (r is Ok) == (spec_recent_after_probe(probe_body@, actual_limit as nat) is Ok),
        r matches Ok(step) ==> step@ == spec_recent_after_probe(
            probe_body@,
            actual_limit as nat,
        )->Ok_0,
        r matches Err(e) ==> e@ == spec_malformed_err(),
{
    let j = match decode_json(probe_body) {
        Some(j) => j,
        None => {
            return Err(ApiError::MalformedResponseFailure(MALFORMED_RESPONSE.to_owned()));
        },
    };
    let listens: &JsonValue = match j.get("payload") {
        Some(p) => match p.get("listens") {
            Some(l) => l,
            None => &JsonValue::Null,
        },
        None => &JsonValue::Null,
    };
    let tracks = parse_listenbrainz_tracks_np(listens, true);
    if tracks.len() > 0 && actual_limit == 1 {
        Ok(RecentStep::Finished(tracks))
    } else {
        Ok(RecentStep::FetchHistory(tracks))
    }
}

/// Appends the historical listens behind the currently-playing entries.
pub fn listenbrainz_recent_finish(now_playing: Vec<Track>, history_body: &str) -> (r: Result<
    Vec<Track>,
    ApiError,
>)
    ensures
        (r is Ok) == (json_of(history_body@) is Some),
        r matches Ok(v) ==> json_of(history_body@) matches Some(j) && v.deep_view()
            == now_playing.deep_view() + spec_listenbrainz_tracks(
            jget2(j, "payload"@, "listens"@),
            false,
        ),
        r matches Err(e) ==> e@ == spec_malformed_err(),
{
    let j = match decode_json(history_body) {
        Some(j) => j,
        None => {
            return Err(ApiError::MalformedResponseFailure(MALFORMED_RESPONSE.to_owned()));
        },
    };
    let listens: &JsonValue = match j.get("payload") {
        Some(p) => match p.get("listens") {
            Some(l) => l,
            None => &JsonValue::Null,
        },
        None => &JsonValue::Null,
    };
    let ghost npdv = now_playing.deep_view();
    let mut all = now_playing;
    let mut history = parse_listenbrainz_tracks(listens);
    let ghost histdv = history.deep_view();
    let ghost alldv_before = all.deep_view();
    all.append(&mut history);
    proof {
        assert forall|k: int|
            0 <= k < all@.len() implies all.deep_view()[k] == (npdv + histdv)[k] by {
            if k < npdv.len() {
                assert(alldv_before[k] == all@[k].deep_view());
            }
        }
        assert(all.deep_view() =~~= npdv + histdv);
    }
    Ok(all)
}


/// The short-circuit law of the two-step protocol: when the probe body
/// yields at least one currently-playing entry and the caller asked for
/// exactly one track, the probe's outcome is final — the history call
/// is never issued, so exactly one outbound request is made.
pub proof fn lemma_probe_short_circuit(body: Seq<char>)
    requires
        json_of(body) is Some,
        spec_listenbrainz_tracks(jget2(json_of(body)->0, "payload"@, "listens"@), true).len() >= 1,
    ensures
        spec_recent_after_probe(body, 1) matches Ok(step) && step is Finished,
{
}

/// The provider-reported error text of a 200 response, where the body
/// carries an error object.
pub open spec fn spec_lastfm_error_text(j: JsonValue) -> Seq<char> {
    jget2(j, "error"@, "#text"@).spec_str_or_empty()
}

pub open spec fn spec_lastfm_has_error(j: JsonValue) -> bool {
    jget(j, "error"@) is Obj && spec_lastfm_error_text(j).len() > 0
}

/// What the recent-tracks response of the API-compatible providers
/// yields: a provider-reported error aborts, otherwise the track array
/// under "recenttracks.track" is normalized.
pub open spec fn spec_lastfm_recent_result(body: Seq<char>) -> Result<
    Seq<TrackView>,
    ApiErrorView,
> {
    match json_of(body) {
        None => Err(spec_malformed_err()),
        Some(j) => {
            if spec_lastfm_has_error(j) {
                Err(ApiErrorView::HttpStatusFailure(spec_lastfm_error_text(j)))
            } else {
                Ok(spec_lastfm_tracks(jget2(j, "recenttracks"@, "track"@)))
            }
        },
    }
}

/// Handles the single recent-tracks response of the two API-compatible
/// providers.
pub fn parse_lastfm_recent_tracks_response(body: &str) -> (r: Result<Vec<Track>, ApiError>)
    ensures
        (r is Ok) == (spec_lastfm_recent_result(body@) is Ok),
        r matches Ok(v) ==> v.deep_view() == spec_lastfm_recent_result(body@)->Ok_0,
        r matches Err(e) ==> e@ == spec_lastfm_recent_result(body@)->Err_0,
{
    let j = match decode_json(body) {
        Some(j) => j,
        None => {
            return Err(ApiError::MalformedResponseFailure(MALFORMED_RESPONSE.to_owned()));
        },
    };
    let mut has_error = false;
    let mut error_text = String::new();
    match j.get("error") {
        Some(e) => {
            if e.is_obj() {
                error_text = crate::json::get_str_or_empty(e, "#text");
                if !error_text.as_str().is_empty() {
                    has_error = true;
                }
            }
        },
        None => {},
    }
    if has_error {
        return Err(ApiError::HttpStatusFailure(error_text));
    }
    let arr: &JsonValue = match j.get("recenttracks") {
        Some(rt) => match rt.get("track") {
            Some(t) => t,
            None => &JsonValue::Null,
        },
        None => &JsonValue::Null,
    };
    Ok(parse_lastfm_tracks(arr))
}

/// The loved-tracks query parameters of the API-compatible providers.
pub open spec fn spec_loved_params(username: Seq<char>, api_key: Seq<char>) -> Seq<
    (Seq<char>, Seq<char>),
> {
    seq![
        ("method"@, "user.getlovedtracks"@),
        ("user"@, username),
        ("limit"@, "5"@),
        ("api_key"@, api_key),
        ("format"@, "json"@),
    ]
}

/// The loved-tracks (feedback) URL of the structurally different
/// provider.
pub open spec fn spec_feedback_url(username: Seq<char>) -> Seq<char> {
    spec_base_url(ApiType::Listenbrainz) + "user/"@ + username + "/get-feedback?metadata=true&count=5"@
}

/// Plans the loved-tracks request of a provider.
pub fn plan_loved_tracks(username: &str, api_type: &ApiType, api_key: &str) -> (r: Result<
    String,
    ApiError,
>)
    ensures
        *api_type is Listenbrainz ==> (r matches Ok(u) && u@ == spec_feedback_url(username@)),
        !(*api_type is Listenbrainz) ==> match url_of(
            spec_base_url(*api_type),
            spec_loved_params(username@, api_key@),
        ) {
            Some(u) => r matches Ok(x) && x@ == u,
            None => r matches Err(e) && e@ == spec_invalid_url_err(),
        },
{
    match api_type {
        ApiType::Listenbrainz => {
            let u = String::from_str(get_base_url(api_type)).concat("user/").concat(
                username,
            ).concat("/get-feedback?metadata=true&count=5");
            Ok(u)
        },
        _ => {
            let mut params: Vec<(String, String)> = Vec::new();
            push_param(&mut params, "method", "user.getlovedtracks");
            push_param(&mut params, "user", username);
            push_param(&mut params, "limit", "5");
            push_param(&mut params, "api_key", api_key);
            push_param(&mut params, "format", "json");
            proof {
                assert(params.deep_view() =~~= spec_loved_params(username@, api_key@));
            }
            plan_lastfm_query(api_type, &params)
        },
    }
}

/// What a loved-tracks response yields per provider: the "feedback"
/// array of the different provider, or "lovedtracks.track" of the
/// compatible pair; a list tolerant of missing arrays.
pub open spec fn spec_loved_tracks_result(body: Seq<char>, api: ApiType) -> Result<
    Seq<TrackView>,
    ApiErrorView,
> {
    match json_of(body) {
        None => Err(spec_malformed_err()),
        Some(j) => match api {
            ApiType::Listenbrainz => Ok(spec_listenbrainz_tracks(jget(j, "feedback"@), false)),
            _ => Ok(spec_lastfm_tracks(jget2(j, "lovedtracks"@, "track"@))),
        },
    }
}

/// Handles a loved-tracks response.
pub fn parse_loved_tracks_response(body: &str, api_type: &ApiType) -> (r: Result<
    Vec<Track>,
    ApiError,
>)
    ensures
        (r is Ok) == (spec_loved_tracks_result(body@, *api_type) is Ok),
        r matches Ok(v) ==> v.deep_view() == spec_loved_tracks_result(body@, *api_type)->Ok_0,
        r matches Err(e) ==> e@ == spec_malformed_err(),
{
    let j = match decode_json(body) {
        Some(j) => j,
        None => {
            return Err(ApiError::MalformedResponseFailure(MALFORMED_RESPONSE.to_owned()));
        },
    };
    match api_type {
        ApiType::Listenbrainz => {
            let feedback: &JsonValue = match j.get("feedback") {
                Some(f) => f,
                None => &JsonValue::Null,
            };
            Ok(parse_listenbrainz_tracks(feedback))
        },
        _ => {
            let arr: &JsonValue = match j.get("lovedtracks") {
                Some(lt) => match lt.get("track") {
                    Some(t) => t,
                    None => &JsonValue::Null,
                },
                None => &JsonValue::Null,
            };
            Ok(parse_lastfm_tracks(arr))
        },
    }
}

/// The top-statistics URL of the structurally different provider.
pub open spec fn spec_lb_stats_url(
    username: Seq<char>,
    endpoint: Seq<char>,
    range: Seq<char>,
    count: nat,
) -> Seq<char> {
    spec_base_url(ApiType::Listenbrainz) + "stats/user/"@ + username + "/"@ + endpoint + "?range="@
        + range + "&count="@ + dec_str(count)
}

/// The statistics endpoint that serves an entry type.
pub open spec fn spec_entry_endpoint(e: EntryType) -> Seq<char> {
    match e {
        EntryType::Artist => "artists"@,
        EntryType::Album => "releases"@,
        EntryType::Track => "recordings"@,
    }
}

/// The top-list method of the API-compatible providers for an entry
/// type.
pub open spec fn spec_top_method(e: EntryType) -> Seq<char> {
    match e {
        EntryType::Artist => "user.gettopartists"@,
        EntryType::Album => "user.gettopalbums"@,
        EntryType::Track => "user.gettoptracks"@,
    }
}

/// The top-list query parameters of the API-compatible providers.
pub open spec fn spec_top_params(
    method: Seq<char>,
    username: Seq<char>,
    period_str: Seq<char>,
    limit: nat,
    api_key: Seq<char>,
) -> Seq<(Seq<char>, Seq<char>)> {
    seq![
        ("method"@, method),
        ("period"@, period_str),
        ("user"@, username),
        ("limit"@, dec_str(limit)),
        ("api_key"@, api_key),
        ("format"@, "json"@),
    ]
}

/// Plans a top-artists, top-albums or top-tracks request. The period is
/// translated to the provider's vocabulary here, before any network
/// I/O; a missing limit falls back to the provider's default page size.
pub fn plan_top_entries(
    entry_type: &EntryType,
    username: &str,
    duration: &TimePeriod,
    api_type: &ApiType,
    limit: Option<usize>,
    api_key: &str,
) -> (r: Result<String, ApiError>)
    ensures
        *api_type is Listenbrainz ==> (r matches Ok(u) && u@ == spec_lb_stats_url(
            username@,
            spec_entry_endpoint(*entry_type),
            spec_period_string(*duration, *api_type),
            match limit {
                Some(l) => l as nat,
                None => 100,
            },
        )),
        !(*api_type is Listenbrainz) ==> match url_of(
            spec_base_url(*api_type),
            spec_top_params(
                spec_top_method(*entry_type),
                username@,
                spec_period_string(*duration, *api_type),
                match limit {
                    Some(l) => l as nat,
                    None => 200,
                },
                api_key@,
            ),
        ) {
            Some(u) => r matches Ok(x) && x@ == u,
            None => r matches Err(e) && e@ == spec_invalid_url_err(),
        },
{
    let duration_str = time_period_to_api_string(duration, api_type);
    match api_type {
        ApiType::Listenbrainz => {
            let count: u64 = match limit {
                Some(l) => l as u64,
                None => 100,
            };
            let endpoint = match entry_type {
                EntryType::Artist => "artists",
                EntryType::Album => "releases",
                EntryType::Track => "recordings",
            };
            let u = String::from_str(get_base_url(api_type)).concat("stats/user/").concat(
                username,
            ).concat("/").concat(endpoint).concat("?range=").concat(duration_str).concat(
                "&count=",
            ).concat(u64_to_dec_string(count).as_str());
            Ok(u)
        },
        _ => {
            let count: u64 = match limit {
                Some(l) => l as u64,
                None => 200,
            };
            let method = match entry_type {
                EntryType::Artist => "user.gettopartists",
                EntryType::Album => "user.gettopalbums",
                EntryType::Track => "user.gettoptracks",
            };
            let count_str = u64_to_dec_string(count);
            let mut params: Vec<(String, String)> = Vec::new();
            push_param(&mut params, "method", method);
            push_param(&mut params, "period", duration_str);
            push_param(&mut params, "user", username);
            push_param(&mut params, "limit", count_str.as_str());
            push_param(&mut params, "api_key", api_key);
            push_param(&mut params, "format", "json");
            proof {
                assert(params.deep_view() =~~= spec_top_params(
                    spec_top_method(*entry_type),
                    username@,
                    spec_period_string(*duration, *api_type),
                    count as nat,
                    api_key@,
                ));
            }
            plan_lastfm_query(api_type, &params)
        },
    }
}

/// What a top-albums response yields per provider.
pub open spec fn spec_top_albums_result(body: Seq<char>, api: ApiType) -> Result<
    Seq<AlbumView>,
    ApiErrorView,
> {
    match json_of(body) {
        None => Err(spec_malformed_err()),
        Some(j) => match api {
            ApiType::Listenbrainz => match jget2(j, "payload"@, "releases"@).spec_arr() {
                Some(items) => Ok(
                    items.map_values(|a: JsonValue| spec_listenbrainz_top_album_item(a)),
                ),
                None => Err(spec_malformed_err()),
            },
            _ => match jget2(j, "topalbums"@, "album"@).spec_arr() {
                Some(items) => Ok(items.map_values(|a: JsonValue| spec_lastfm_top_album_item(a))),
                None => Err(spec_malformed_err()),
            },
        },
    }
}

/// Handles a top-albums response: the provider's rank order is kept.
pub fn parse_top_albums_response(body: &str, api_type: &ApiType) -> (r: Result<
    Vec<Album>,
    ApiError,
>)
    ensures
        (r is Ok) == (spec_top_albums_result(body@, *api_type) is Ok),
        r matches Ok(v) ==> v.deep_view() == spec_top_albums_result(body@, *api_type)->Ok_0,
        r matches Err(e) ==> e@ == spec_malformed_err(),
{
    let j = match decode_json(body) {
        Some(j) => j,
        None => {
            return Err(ApiError::MalformedResponseFailure(MALFORMED_RESPONSE.to_owned()));
        },
    };
    match api_type {
        ApiType::Listenbrainz => parse_listenbrainz_top_albums(&j),
        _ => parse_lastfm_top_albums(&j),
    }
}

/// What a top-artists response yields per provider.
pub open spec fn spec_top_artists_result(body: Seq<char>, api: ApiType) -> Result<
    Seq<ArtistView>,
    ApiErrorView,
> {
    match json_of(body) {
        None => Err(spec_malformed_err()),
        Some(j) => match api {
            ApiType::Listenbrainz => match jget2(j, "payload"@, "artists"@).spec_arr() {
                Some(items) => Ok(
                    items.map_values(|a: JsonValue| spec_listenbrainz_top_artist_item(a)),
                ),
                None => Err(spec_malformed_err()),
            },
            _ => match jget2(j, "topartists"@, "artist"@).spec_arr() {
                Some(items) => Ok(items.map_values(|a: JsonValue| spec_lastfm_top_artist_item(a))),
                None => Err(spec_malformed_err()),
            },
        },
    }
}

/// Handles a top-artists response.
pub fn parse_top_artists_response(body: &str, api_type: &ApiType) -> (r: Result<
    Vec<Artist>,
    ApiError,
>)
    ensures
        (r is Ok) == (spec_top_artists_result(body@, *api_type) is Ok),
        r matches Ok(v) ==> v.deep_view() == spec_top_artists_result(body@, *api_type)->Ok_0,
        r matches Err(e) ==> e@ == spec_malformed_err(),
{
    let j = match decode_json(body) {
        Some(j) => j,
        None => {
            return Err(ApiError::MalformedResponseFailure(MALFORMED_RESPONSE.to_owned()));
        },
    };
    match api_type {
        ApiType::Listenbrainz => parse_listenbrainz_top_artists(&j),
        _ => parse_lastfm_top_artists(&j),
    }
}

/// What a top-tracks response yields per provider; the different
/// provider's recordings list tolerates a missing array, as its listen
/// parser does.
pub open spec fn spec_top_tracks_result(body: Seq<char>, api: ApiType) -> Result<
    Seq<TrackView>,
    ApiErrorView,
> {
    match json_of(body) {
        None => Err(spec_malformed_err()),
        Some(j) => match api {
            ApiType::Listenbrainz => Ok(
                spec_listenbrainz_tracks(jget2(j, "payload"@, "recordings"@), false),
            ),
            _ => match jget2(j, "toptracks"@, "track"@).spec_arr() {
                Some(items) => Ok(items.map_values(|t: JsonValue| spec_lastfm_top_track_item(t))),
                None => Err(spec_malformed_err()),
            },
        },
    }
}

/// Handles a top-tracks response.
pub fn parse_top_tracks_response(body: &str, api_type: &ApiType) -> (r: Result<
    Vec<Track>,
    ApiError,
>)
    ensures
        (r is Ok) == (spec_top_tracks_result(body@, *api_type) is Ok),
        r matches Ok(v) ==> v.deep_view() == spec_top_tracks_result(body@, *api_type)->Ok_0,
        r matches Err(e) ==> e@ == spec_malformed_err(),
{
    let j = match decode_json(body) {
        Some(j) => j,
        None => {
            return Err(ApiError::MalformedResponseFailure(MALFORMED_RESPONSE.to_owned()));
        },
    };
    match api_type {
        ApiType::Listenbrainz => {
            let recordings: &JsonValue = match j.get("payload") {
                Some(p) => match p.get("recordings") {
                    Some(x) => x,
                    None => &JsonValue::Null,
                },
                None => &JsonValue::Null,
            };
            Ok(parse_listenbrainz_tracks(recordings))
        },
        _ => parse_lastfm_top_tracks(&j),
    }
}

pub open spec fn spec_listen_count_url(username: Seq<char>) -> Seq<char> {
    spec_base_url(ApiType::Listenbrainz) + "user/"@ + username + "/listen-count"@
}

pub open spec fn spec_lb_user_stats_url(username: Seq<char>, suffix: Seq<char>) -> Seq<char> {
    spec_base_url(ApiType::Listenbrainz) + "stats/user/"@ + username + suffix
}

/// The profile-summary query parameters of the API-compatible providers.
pub open spec fn spec_user_info_params(username: Seq<char>, api_key: Seq<char>) -> Seq<
    (Seq<char>, Seq<char>),
> {
    seq![
        ("method"@, "user.getInfo"@),
        ("user"@, username),
        ("api_key"@, api_key),
        ("format"@, "json"@),
    ]
}

/// Plans the profile-summary operation: one call for the API-compatible
/// providers, a four-call fan-out (total listens, artists, releases,
/// recordings) for the structurally different one. The four calls are
/// independent; the caller dispatches them concurrently and joins.
pub fn plan_user_info(username: &str, api_type: &ApiType, api_key: &str) -> (r: Result<
    Vec<String>,
    ApiError,
>)
    ensures
        *api_type is Listenbrainz ==> (r matches Ok(v) && v.deep_view() == seq![
            spec_listen_count_url(username@),
            spec_lb_user_stats_url(username@, "/artists"@),
            spec_lb_user_stats_url(username@, "/releases"@),
            spec_lb_user_stats_url(username@, "/recordings"@),
        ]),
        !(*api_type is Listenbrainz) ==> match url_of(
            spec_base_url(*api_type),
            spec_user_info_params(username@, api_key@),
        ) {
            Some(u) => r matches Ok(v) && v.deep_view() == seq![u],
            None => r matches Err(e) && e@ == spec_invalid_url_err(),
        },
{
    match api_type {
        ApiType::Listenbrainz => {
            let base = get_base_url(api_type);
            let u1 = String::from_str(base).concat("user/").concat(username).concat(
                "/listen-count",
            );
            let u2 = String::from_str(base).concat("stats/user/").concat(username).concat(
                "/artists",
            );
            let u3 = String::from_str(base).concat("stats/user/").concat(username).concat(
                "/releases",
            );
            let u4 = String::from_str(base).concat("stats/user/").concat(username).concat(
                "/recordings",
            );
            let ghost views = seq![u1@, u2@, u3@, u4@];
            proof {
                assert(u1@ == spec_listen_count_url(username@));
                assert(u2@ == spec_lb_user_stats_url(username@, "/artists"@));
                assert(u3@ == spec_lb_user_stats_url(username@, "/releases"@));
                assert(u4@ == spec_lb_user_stats_url(username@, "/recordings"@));
            }
            let mut v: Vec<String> = Vec::new();
            v.push(u1);
            v.push(u2);
            v.push(u3);
            v.push(u4);
            proof {
                assert forall|k: int| 0 <= k < 4 implies v.deep_view()[k] == views[k] by {
                    assert(v@[k]@ == views[k]);
                }
                assert(v.deep_view() =~~= seq![
                    spec_listen_count_url(username@),
                    spec_lb_user_stats_url(username@, "/artists"@),
                    spec_lb_user_stats_url(username@, "/releases"@),
                    spec_lb_user_stats_url(username@, "/recordings"@),
                ]);
            }
            Ok(v)
        },
        _ => {
            let mut params: Vec<(String, String)> = Vec::new();
            push_param(&mut params, "method", "user.getInfo");
            push_param(&mut params, "user", username);
            push_param(&mut params, "api_key", api_key);
            push_param(&mut params, "format", "json");
            proof {
                assert(params.deep_view() =~~= spec_user_info_params(username@, api_key@));
            }
            match plan_lastfm_query(api_type, &params) {
                Ok(u) => {
                    let ghost uv = u@;
                    let mut v: Vec<String> = Vec::new();
                    v.push(u);
                    proof {
                        assert(v@[0]@ == uv);
                        assert(v.deep_view() =~~= seq![uv]);
                    }
                    Ok(v)
                },
                Err(e) => Err(e),
            }
        },
    }
}

/// What a profile-summary response of the API-compatible providers
/// yields.
pub open spec fn spec_user_info_result(body: Seq<char>, username: Seq<char>) -> Result<
    ScrobbleUserView,
    ApiErrorView,
> {
    match json_of(body) {
        None => Err(spec_malformed_err()),
        Some(j) => Ok(spec_lastfm_user_info(j, username)),
    }
}

/// Handles a profile-summary response of the API-compatible providers.
pub fn parse_user_info_response(body: &str, username: &str) -> (r: Result<ScrobbleUser, ApiError>)
    ensures
        (r is Ok) == (spec_user_info_result(body@, username@) is Ok),
        r matches Ok(u) ==> u@ == spec_user_info_result(body@, username@)->Ok_0,
        r matches Err(e) ==> e@ == spec_malformed_err(),
{
    let j = match decode_json(body) {
        Some(j) => j,
        None => {
            return Err(ApiError::MalformedResponseFailure(MALFORMED_RESPONSE.to_owned()));
        },
    };
    Ok(parse_lastfm_user_info(&j, username))
}

/// What joining the four-call fan-out yields: each count is read
/// leniently from its own response — the release total is the album
/// count and the recording total the track count, as a release is an
/// album and a recording a track; a body that does not decode fails
/// the whole operation.
pub open spec fn spec_listenbrainz_user_info(
    username: Seq<char>,
    listen_count_body: Seq<char>,
    artists_body: Seq<char>,
    releases_body: Seq<char>,
    recordings_body: Seq<char>,
) -> Result<ScrobbleUserView, ApiErrorView> {
    match json_of(listen_count_body) {
        None => Err(spec_malformed_err()),
        Some(j1) => match json_of(artists_body) {
            None => Err(spec_malformed_err()),
            Some(j2) => match json_of(releases_body) {
                None => Err(spec_malformed_err()),
                Some(j3) => match json_of(recordings_body) {
                    None => Err(spec_malformed_err()),
                    Some(j4) => Ok(
                        ScrobbleUserView {
                            username: username,
                            playcount: jget2(j1, "payload"@, "count"@).spec_u64_or_zero(),
                            artist_count: jget2(
                                j2,
                                "payload"@,
                                "total_artist_count"@,
                            ).spec_u64_or_zero(),
                            album_count: jget2(
                                j3,
                                "payload"@,
                                "total_release_count"@,
                            ).spec_u64_or_zero(),
                            track_count: jget2(
                                j4,
                                "payload"@,
                                "total_recording_count"@,
                            ).spec_u64_or_zero(),
                            profile_pic_url: None,
                            registered_date: None,
                        },
                    ),
                },
            },
        },
    }
}

/// Joins the four-call profile fan-out of the structurally different
/// provider into one summary record.
pub fn combine_listenbrainz_user_info(
    username: &str,
    listen_count_body: &str,
    artists_body: &str,
    releases_body: &str,
    recordings_body: &str,
) -> (r: Result<ScrobbleUser, ApiError>)
    ensures
        (r is Ok) == (spec_listenbrainz_user_info(
            username@,
            listen_count_body@,
            artists_body@,
            releases_body@,
            recordings_body@,
        ) is Ok),
        r matches Ok(u) ==> u@ == spec_listenbrainz_user_info(
            username@,
            listen_count_body@,
            artists_body@,
            releases_body@,
            recordings_body@,
        )->Ok_0,
        r matches Err(e) ==> e@ == spec_malformed_err(),
{
    let j1 = match decode_json(listen_count_body) {
        Some(j) => j,
        None => {
            return Err(ApiError::MalformedResponseFailure(MALFORMED_RESPONSE.to_owned()));
        },
    };
    let j2 = match decode_json(artists_body) {
        Some(j) => j,
        None => {
            return Err(ApiError::MalformedResponseFailure(MALFORMED_RESPONSE.to_owned()));
        },
    };
    let j3 = match decode_json(releases_body) {
        Some(j) => j,
        None => {
            return Err(ApiError::MalformedResponseFailure(MALFORMED_RESPONSE.to_owned()));
        },
    };
    let j4 = match decode_json(recordings_body) {
        Some(j) => j,
        None => {
            return Err(ApiError::MalformedResponseFailure(MALFORMED_RESPONSE.to_owned()));
        },
    };
    let playcount = match j1.get("payload") {
        Some(p) => get_u64_or_zero(p, "count"),
        None => 0,
    };
    let artist_count = match j2.get("payload") {
        Some(p) => get_u64_or_zero(p, "total_artist_count"),
        None => 0,
    };
    let album_count = match j3.get("payload") {
        Some(p) => get_u64_or_zero(p, "total_release_count"),
        None => 0,
    };
    let track_count = match j4.get("payload") {
        Some(p) => get_u64_or_zero(p, "total_recording_count"),
        None => 0,
    };
    Ok(
        ScrobbleUser {
            username: username.to_owned(),
            playcount,
            artist_count,
            album_count,
            track_count,
            profile_pic_url: None,
            registered_date: None,
        },
    )
}

/// The track.getInfo query parameters.
pub open spec fn spec_track_detail_params(
    username: Seq<char>,
    artist: Seq<char>,
    track: Seq<char>,
    api_key: Seq<char>,
) -> Seq<(Seq<char>, Seq<char>)> {
    seq![
        ("method"@, "track.getInfo"@),
        ("track"@, track),
        ("artist"@, artist),
        ("user"@, username),
        ("api_key"@, api_key),
        ("format"@, "json"@),
    ]
}

/// Plans a single-track detail lookup on the primary provider.
pub fn plan_lastfm_track(username: &str, artist: &str, track: &str, api_key: &str) -> (r: Result<
    String,
    ApiError,
>)
    ensures
        match url_of(
            spec_base_url(ApiType::Lastfm),
            spec_track_detail_params(username@, artist@, track@, api_key@),
        ) {
            Some(u) => r matches Ok(x) && x@ == u,
            None => r matches Err(e) && e@ == spec_invalid_url_err(),
        },
{
    let mut params: Vec<(String, String)> = Vec::new();
    push_param(&mut params, "method", "track.getInfo");
    push_param(&mut params, "track", track);
    push_param(&mut params, "artist", artist);
    push_param(&mut params, "user", username);
    push_param(&mut params, "api_key", api_key);
    push_param(&mut params, "format", "json");
    proof {
        assert(params.deep_view() =~~= spec_track_detail_params(
            username@,
            artist@,
            track@,
            api_key@,
        ));
    }
    plan_lastfm_query(&ApiType::Lastfm, &params)
}

/// The album.getInfo query parameters.
pub open spec fn spec_album_detail_params(
    username: Seq<char>,
    artist: Seq<char>,
    album: Seq<char>,
    api_key: Seq<char>,
) -> Seq<(Seq<char>, Seq<char>)> {
    seq![
        ("method"@, "album.getInfo"@),
        ("album"@, album),
        ("artist"@, artist),
        ("user"@, username),
        ("api_key"@, api_key),
        ("format"@, "json"@),
    ]
}

/// Plans a single-album detail lookup on the primary provider.
pub fn plan_lastfm_album(username: &str, artist: &str, album: &str, api_key: &str) -> (r: Result<
    String,
    ApiError,
>)
    ensures
        match url_of(
            spec_base_url(ApiType::Lastfm),
            spec_album_detail_params(username@, artist@, album@, api_key@),
        ) {
            Some(u) => r matches Ok(x) && x@ == u,
            None => r matches Err(e) && e@ == spec_invalid_url_err(),
        },
{
    let mut params: Vec<(String, String)> = Vec::new();
    push_param(&mut params, "method", "album.getInfo");
    push_param(&mut params, "album", album);
    push_param(&mut params, "artist", artist);
    push_param(&mut params, "user", username);
    push_param(&mut params, "api_key", api_key);
    push_param(&mut params, "format", "json");
    proof {
        assert(params.deep_view() =~~= spec_album_detail_params(
            username@,
            artist@,
            album@,
            api_key@,
        ));
    }
    plan_lastfm_query(&ApiType::Lastfm, &params)
}

/// The artist.getInfo query parameters.
pub open spec fn spec_artist_detail_params(
    username: Seq<char>,
    artist: Seq<char>,
    api_key: Seq<char>,
) -> Seq<(Seq<char>, Seq<char>)> {
    seq![
        ("method"@, "artist.getInfo"@),
        ("artist"@, artist),
        ("user"@, username),
        ("api_key"@, api_key),
        ("format"@, "json"@),
    ]
}

/// Plans a single-artist detail lookup on the primary provider.
pub fn plan_lastfm_artist(username: &str, artist: &str, api_key: &str) -> (r: Result<
    String,
    ApiError,
>)
    ensures
        match url_of(
            spec_base_url(ApiType::Lastfm),
            spec_artist_detail_params(username@, artist@, api_key@),
        ) {
            Some(u) => r matches Ok(x) && x@ == u,
            None => r matches Err(e) && e@ == spec_invalid_url_err(),
        },
{
    let mut params: Vec<(String, String)> = Vec::new();
    push_param(&mut params, "method", "artist.getInfo");
    push_param(&mut params, "artist", artist);
    push_param(&mut params, "user", username);
    push_param(&mut params, "api_key", api_key);
    push_param(&mut params, "format", "json");
    proof {
        assert(params.deep_view() =~~= spec_artist_detail_params(username@, artist@, api_key@));
    }
    plan_lastfm_query(&ApiType::Lastfm, &params)
}

/// What a track detail response yields: a malformed body, a missing
/// entity, or the normalized track.
pub open spec fn spec_track_detail_result(body: Seq<char>) -> Result<TrackView, ApiErrorView> {
    match json_of(body) {
        None => Err(spec_malformed_err()),
        Some(j) => {
            if jget(j, "track"@) is Obj {
                Ok(spec_lastfm_track_detail(jget(j, "track"@)))
            } else {
                Err(ApiErrorView::EntityNotFoundFailure("Track not found."@))
            }
        },
    }
}

/// Handles a track.getInfo response.
pub fn parse_lastfm_track_response(body: &str) -> (r: Result<Track, ApiError>)
    ensures
        (r is Ok) == (spec_track_detail_result(body@) is Ok),
        r matches Ok(t) ==> t@ == spec_track_detail_result(body@)->Ok_0,
        r matches Err(e) ==> e@ == spec_track_detail_result(body@)->Err_0,
{
    let j = match decode_json(body) {
        Some(j) => j,
        None => {
            return Err(ApiError::MalformedResponseFailure(MALFORMED_RESPONSE.to_owned()));
        },
    };
    parse_lastfm_track_detail(&j)
}

/// What an album detail response yields.
pub open spec fn spec_album_detail_result(body: Seq<char>) -> Result<AlbumView, ApiErrorView> {
    match json_of(body) {
        None => Err(spec_malformed_err()),
        Some(j) => {
            if jget(j, "album"@) is Obj {
                Ok(spec_lastfm_album_detail(jget(j, "album"@)))
            } else {
                Err(ApiErrorView::EntityNotFoundFailure("Album not found."@))
            }
        },
    }
}

/// Handles an album.getInfo response.
pub fn parse_lastfm_album_response(body: &str) -> (r: Result<Album, ApiError>)
    ensures
        (r is Ok) == (spec_album_detail_result(body@) is Ok),
        r matches Ok(a) ==> a@ == spec_album_detail_result(body@)->Ok_0,
        r matches Err(e) ==> e@ == spec_album_detail_result(body@)->Err_0,
{
    let j = match decode_json(body) {
        Some(j) => j,
        None => {
            return Err(ApiError::MalformedResponseFailure(MALFORMED_RESPONSE.to_owned()));
        },
    };
    parse_lastfm_album_detail(&j)
}

/// What an artist detail response yields.
pub open spec fn spec_artist_detail_result(body: Seq<char>) -> Result<ArtistView, ApiErrorView> {
    match json_of(body) {
        None => Err(spec_malformed_err()),
        Some(j) => {
            if jget(j, "artist"@) is Obj {
                Ok(spec_lastfm_artist_detail(jget(j, "artist"@)))
            } else {
                Err(ApiErrorView::EntityNotFoundFailure("Artist not found."@))
            }
        },
    }
}

/// Handles an artist.getInfo response.
pub fn parse_lastfm_artist_response(body: &str) -> (r: Result<Artist, ApiError>)
    ensures
        (r is Ok) == (spec_artist_detail_result(body@) is Ok),
        r matches Ok(a) ==> a@ == spec_artist_detail_result(body@)->Ok_0,
        r matches Err(e) ==> e@ == spec_artist_detail_result(body@)->Err_0,
{
    let j = match decode_json(body) {
        Some(j) => j,
        None => {
            return Err(ApiError::MalformedResponseFailure(MALFORMED_RESPONSE.to_owned()));
        },
    };
    parse_lastfm_artist_detail(&j)
}

} // verus!
