//! The adapter for the structurally different provider: its own field
//! names, its "track_metadata" nesting, content identifiers that become
//! cover-art URLs, and numeric fields that arrive as numbers rather than
//! strings.

use vstd::prelude::*;
use vstd::string::StringExecFns;
use crate::error::ApiError;
use crate::error::ApiErrorView;
use crate::error::MALFORMED_RESPONSE;
use crate::json::jget;
use crate::json::jget2;
use crate::json::get_opt_str;
use crate::json::get_opt_u64;
use crate::json::get_str_or_empty;
use crate::json::get_u64_or_zero;
use crate::json::JsonValue;
use crate::model::Album;
use crate::model::AlbumView;
use crate::model::Artist;
use crate::model::ArtistView;
use crate::model::Track;
use crate::model::TrackView;

verus! {

/// The cover-art URL for a release identifier, at thumbnail size.
pub open spec fn spec_cover_art_url_250(mbid: Seq<char>) -> Seq<char> {
    "https://coverartarchive.org/release/"@ + mbid + "/front-250"@
}

/// The cover-art URL for a release identifier, at collage size.
pub open spec fn spec_cover_art_url_500(mbid: Seq<char>) -> Seq<char> {
    "https://coverartarchive.org/release/"@ + mbid + "/front-500"@
}

fn cover_art_url_250(mbid: &String) -> (r: String)
    ensures
        r@ == spec_cover_art_url_250(mbid@),
{
    let r = String::from_str("https://coverartarchive.org/release/").concat(mbid.as_str()).concat(
        "/front-250",
    );
    r
}

fn cover_art_url_500(mbid: &String) -> (r: String)
    ensures
        r@ == spec_cover_art_url_500(mbid@),
{
    let r = String::from_str("https://coverartarchive.org/release/").concat(mbid.as_str()).concat(
        "/front-500",
    );
    r
}

/// One listen item: fields live in "track_metadata" when that nesting
/// exists, at top level otherwise.
pub open spec fn spec_listenbrainz_track_item(t: JsonValue, now_playing: bool) -> TrackView {
    let meta = match t.spec_get("track_metadata"@) {
        Some(m) => m,
        None => t,
    };
    TrackView {
        name: jget(meta, "track_name"@).spec_str_or_empty(),
        album: jget(meta, "release_name"@).spec_str(),
        artist: jget(meta, "artist_name"@).spec_str_or_empty(),
        album_art_url: match jget(meta, "release_mbid"@).spec_str() {
            Some(mbid) => Some(spec_cover_art_url_250(mbid)),
            None => None,
        },
        date: jget(t, "listened_at"@).spec_u64(),
        duration: 0,
        listeners: 0,
        playcount: 0,
        user_playcount: jget(meta, "listen_count"@).spec_u64_or_zero(),
        user_loved: false,
        now_playing: now_playing,
        tags: None,
    }
}

fn listenbrainz_track_item(t: &JsonValue, now_playing: bool) -> (r: Track)
    ensures
        r@ == spec_listenbrainz_track_item(*t, now_playing),
{
    let meta: &JsonValue = match t.get("track_metadata") {
        Some(m) => m,
        None => t,
    };
    let artist = get_str_or_empty(meta, "artist_name");
    let album = get_opt_str(meta, "release_name");
    let name = get_str_or_empty(meta, "track_name");
    let album_art_url = match get_opt_str(meta, "release_mbid") {
        Some(mbid) => Some(cover_art_url_250(&mbid)),
        None => None,
    };
    let user_playcount = get_u64_or_zero(meta, "listen_count");
    let date = get_opt_u64(t, "listened_at");
    Track {
        name,
        album,
        artist,
        album_art_url,
        date,
        duration: 0,
        listeners: 0,
        playcount: 0,
        user_playcount,
        user_loved: false,
        now_playing,
        tags: None,
    }
}

/// The normalization of a listen array; anything that is not an array
/// yields an empty list rather than an error.
pub open spec fn spec_listenbrainz_tracks(j: JsonValue, now_playing: bool) -> Seq<TrackView> {
    match j.spec_arr() {
        Some(items) => items.map_values(|t: JsonValue| spec_listenbrainz_track_item(t, now_playing)),
        None => Seq::empty(),
    }
}

/// Normalizes a listen array, marking every entry with the given
/// now-playing flag.
pub fn parse_listenbrainz_tracks_np(json_arr: &JsonValue, now_playing: bool) -> (r: Vec<Track>)
    ensures
        r.deep_view() == spec_listenbrainz_tracks(*json_arr, now_playing),
{
    let mut r: Vec<Track> = Vec::new();
    match json_arr.as_arr() {
        Some(items) => {
            let mut i: usize = 0;
            while i < items.len()
                invariant
                    i <= items@.len(),
                    r@.len() == i,
                    forall|k: int|
                        0 <= k < i ==> r.deep_view()[k] == spec_listenbrainz_track_item(
                            items@[k],
                            now_playing,
                        ),
                decreases items@.len() - i,
            {
                let t = listenbrainz_track_item(&items[i], now_playing);
                let ghost tv = t@;
                let ghost prev = r@;
                let ghost prevdv = r.deep_view();
                r.push(t);
                proof {
                    assert forall|k: int|
                        0 <= k < i + 1 implies r.deep_view()[k] == spec_listenbrainz_track_item(
                        items@[k],
                        now_playing,
                    ) by {
                        if k < i {
                            assert(r@[k] == prev[k]);
                            assert(prevdv[k] == prev[k].deep_view());
                        } else {
                            assert(r@[k]@ == tv);
                        }
                    }
                }
                i = i + 1;
            }
            proof {
                assert(r.deep_view() =~~= spec_listenbrainz_tracks(*json_arr, now_playing));
            }
        },
        None => {
            proof {
                assert(r.deep_view() =~~= Seq::<TrackView>::empty());
            }
        },
    }
    r
}

/// Normalizes a historical listen array (nothing currently playing).
pub fn parse_listenbrainz_tracks(json_arr: &JsonValue) -> (r: Vec<Track>)
    ensures
        r.deep_view() == spec_listenbrainz_tracks(*json_arr, false),
{
    parse_listenbrainz_tracks_np(json_arr, false)
}

/// One entry of the provider's top-releases list.
pub open spec fn spec_listenbrainz_top_album_item(a: JsonValue) -> AlbumView {
    AlbumView {
        name: jget(a, "release_name"@).spec_str_or_empty(),
        artist: jget(a, "artist_name"@).spec_str_or_empty(),
        album_art_url: match jget(a, "release_mbid"@).spec_str() {
            Some(mbid) => Some(spec_cover_art_url_500(mbid)),
            None => None,
        },
        playcount: 0,
        listeners: 0,
        user_playcount: jget(a, "listen_count"@).spec_u64_or_zero(),
        tags: None,
    }
}

/// Normalizes the "payload.releases" array; a missing array is a
/// malformed response.
pub fn parse_listenbrainz_top_albums(j: &JsonValue) -> (r: Result<Vec<Album>, ApiError>)
    ensures
        (r is Ok) == jget2(*j, "payload"@, "releases"@).spec_arr() is Some,
        r matches Ok(albums) ==> albums.deep_view() == jget2(
            *j,
            "payload"@,
            "releases"@,
        ).spec_arr()->0.map_values(|a: JsonValue| spec_listenbrainz_top_album_item(a)),
        r matches Err(e) ==> e@ == ApiErrorView::MalformedResponseFailure(MALFORMED_RESPONSE@),
{
    let arr = match j.get("payload") {
        Some(p) => p.get("releases"),
        None => None,
    };
    let items = match arr {
        Some(x) => match x.as_arr() {
            Some(items) => items,
            None => {
                return Err(ApiError::MalformedResponseFailure(MALFORMED_RESPONSE.to_owned()));
            },
        },
        None => {
            return Err(ApiError::MalformedResponseFailure(MALFORMED_RESPONSE.to_owned()));
        },
    };
    let mut r: Vec<Album> = Vec::new();
    let mut i: usize = 0;
    while i < items.len()
        invariant
            i <= items@.len(),
            r@.len() == i,
            forall|k: int|
                0 <= k < i ==> r.deep_view()[k] == spec_listenbrainz_top_album_item(items@[k]),
        decreases items@.len() - i,
    {
        let name = get_str_or_empty(&items[i], "release_name");
        let artist = get_str_or_empty(&items[i], "artist_name");
        let album_art_url = match get_opt_str(&items[i], "release_mbid") {
            Some(mbid) => Some(cover_art_url_500(&mbid)),
            None => None,
        };
        let user_playcount = get_u64_or_zero(&items[i], "listen_count");
        let a = Album {
            name,
            artist,
            album_art_url,
            playcount: 0,
            listeners: 0,
            user_playcount,
            tags: None,
        };
        let ghost av = a@;
        let ghost prev = r@;
        let ghost prevdv = r.deep_view();
        r.push(a);
        proof {
            assert forall|k: int|
                0 <= k < i + 1 implies r.deep_view()[k] == spec_listenbrainz_top_album_item(
                items@[k],
            ) by {
                if k < i {
                    assert(r@[k] == prev[k]);
                    assert(prevdv[k] == prev[k].deep_view());
                } else {
                    assert(r@[k]@ == av);
                }
            }
        }
        i = i + 1;
    }
    proof {
        assert(r.deep_view() =~~= jget2(*j, "payload"@, "releases"@).spec_arr()->0.map_values(
            |a: JsonValue| spec_listenbrainz_top_album_item(a),
        ));
    }
    Ok(r)
}

/// One entry of the provider's top-artists list.
pub open spec fn spec_listenbrainz_top_artist_item(a: JsonValue) -> ArtistView {
    ArtistView {
        name: jget(a, "artist_name"@).spec_str_or_empty(),
        playcount: 0,
        listeners: 0,
        user_playcount: jget(a, "listen_count"@).spec_u64_or_zero(),
        tags: None,
    }
}

/// Normalizes the "payload.artists" array; a missing array is a
/// malformed response.
pub fn parse_listenbrainz_top_artists(j: &JsonValue) -> (r: Result<Vec<Artist>, ApiError>)
    ensures
        (r is Ok) == jget2(*j, "payload"@, "artists"@).spec_arr() is Some,
        r matches Ok(artists) ==> artists.deep_view() == jget2(
            *j,
            "payload"@,
            "artists"@,
        ).spec_arr()->0.map_values(|a: JsonValue| spec_listenbrainz_top_artist_item(a)),
        r matches Err(e) ==> e@ == ApiErrorView::MalformedResponseFailure(MALFORMED_RESPONSE@),
{
    let arr = match j.get("payload") {
        Some(p) => p.get("artists"),
        None => None,
    };
    let items = match arr {
        Some(x) => match x.as_arr() {
            Some(items) => items,
            None => {
                return Err(ApiError::MalformedResponseFailure(MALFORMED_RESPONSE.to_owned()));
            },
        },
        None => {
            return Err(ApiError::MalformedResponseFailure(MALFORMED_RESPONSE.to_owned()));
        },
    };
    let mut r: Vec<Artist> = Vec::new();
    let mut i: usize = 0;
    while i < items.len()
        invariant
            i <= items@.len(),
            r@.len() == i,
            forall|k: int|
                0 <= k < i ==> r.deep_view()[k] == spec_listenbrainz_top_artist_item(items@[k]),
        decreases items@.len() - i,
    {
        let name = get_str_or_empty(&items[i], "artist_name");
        let user_playcount = get_u64_or_zero(&items[i], "listen_count");
        let a = Artist { name, playcount: 0, listeners: 0, user_playcount, tags: None };
        let ghost av = a@;
        let ghost prev = r@;
        let ghost prevdv = r.deep_view();
        r.push(a);
        proof {
            assert forall|k: int|
                0 <= k < i + 1 implies r.deep_view()[k] == spec_listenbrainz_top_artist_item(
                items@[k],
            ) by {
                if k < i {
                    assert(r@[k] == prev[k]);
                    assert(prevdv[k] == prev[k].deep_view());
                } else {
                    assert(r@[k]@ == av);
                }
            }
        }
        i = i + 1;
    }
    proof {
        assert(r.deep_view() =~~= jget2(*j, "payload"@, "artists"@).spec_arr()->0.map_values(
            |a: JsonValue| spec_listenbrainz_top_artist_item(a),
        ));
    }
    Ok(r)
}

} // verus!
