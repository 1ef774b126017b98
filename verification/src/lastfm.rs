//! The adapter for the two API-compatible providers (the "Lastfm-style"
//! service and its mirror): normalization of their JSON payloads into the
//! shared entity model. All functions here are pure; the transport lives
//! with the caller.

use vstd::prelude::*;
use crate::error::ApiError;
use crate::error::ApiErrorView;
use crate::error::MALFORMED_RESPONSE;
use crate::json::jget;
use crate::json::jget2;
use crate::json::get_str_or_empty;
use crate::json::get_str_u64_or_zero;
use crate::json::JsonValue;
use crate::model::Album;
use crate::model::AlbumView;
use crate::model::Artist;
use crate::model::ArtistView;
use crate::model::ScrobbleUser;
use crate::model::ScrobbleUserView;
use crate::model::Track;
use crate::model::TrackView;
use crate::text::contains_seq;
use crate::text::spec_parse_u64;
use crate::text::str_chars;
use crate::text::str_contains;
use crate::text::str_eq;
use crate::text::chars_parse_u64;

verus! {

/// The image fingerprint that marks the provider's generic placeholder
/// cover, treated as "no art".
pub const LASTFM_PLACEHOLDER_FINGERPRINT: &'static str = "2a96cbd8b46e442fc41c2b86b821562f";

/// The largest (last) image URL of the provider's small-to-large image
/// array; empty URLs and the placeholder cover count as no art.
pub open spec fn spec_biggest_lastfm_image(v: JsonValue) -> Option<Seq<char>> {
    let url = match jget(v, "image"@).spec_arr() {
        Some(items) => if items.len() > 0 {
            jget(items.last(), "#text"@).spec_str_or_empty()
        } else {
            Seq::empty()
        },
        None => Seq::empty(),
    };
    if url.len() == 0 || contains_seq(url, LASTFM_PLACEHOLDER_FINGERPRINT@) {
        None
    } else {
        Some(url)
    }
}

/// Resolves the album-art URL of an entity: the last entry of the image
/// array is the largest; a known placeholder fingerprint means no art.
pub fn get_biggest_lastfm_image(json_value: &JsonValue) -> (r: Option<String>)
    ensures
        r.deep_view() == spec_biggest_lastfm_image(*json_value),
{
    let mut url = String::new();
    match json_value.get("image") {
        Some(img) => {
            match img.as_arr() {
                Some(items) => {
                    if items.len() > 0 {
                        url = get_str_or_empty(&items[items.len() - 1], "#text");
                        proof {
                            assert(items@[items@.len() - 1] == items@.last());
                        }
                    }
                },
                None => {},
            }
        },
        None => {},
    }
    if url.as_str().is_empty() || str_contains(url.as_str(), LASTFM_PLACEHOLDER_FINGERPRINT) {
        None
    } else {
        Some(url)
    }
}

/// The artist of a track item: the "#text" field when the artist is in
/// extended form, the "name" field otherwise, empty when neither exists.
pub open spec fn spec_lastfm_artist_name(t: JsonValue) -> Seq<char> {
    match jget(t, "artist"@).spec_get("#text"@) {
        Some(v) => v.spec_str_or_empty(),
        None => match jget(t, "artist"@).spec_get("name"@) {
            Some(v) => v.spec_str_or_empty(),
            None => Seq::empty(),
        },
    }
}

/// The album of a track item: the "#text" of the album object, present
/// only when non-empty.
pub open spec fn spec_lastfm_album_field(t: JsonValue) -> Option<Seq<char>> {
    if jget(t, "album"@) is Obj {
        let x = jget2(t, "album"@, "#text"@).spec_str_or_empty();
        if x.len() > 0 {
            Some(x)
        } else {
            None
        }
    } else {
        None
    }
}

/// One item of a recent-tracks or loved-tracks list.
pub open spec fn spec_lastfm_track_item(t: JsonValue) -> TrackView {
    TrackView {
        name: jget(t, "name"@).spec_str_or_empty(),
        album: spec_lastfm_album_field(t),
        artist: spec_lastfm_artist_name(t),
        album_art_url: spec_biggest_lastfm_image(t),
        date: spec_parse_u64(jget2(t, "date"@, "uts"@).spec_str_or_empty()),
        duration: 0,
        listeners: 0,
        playcount: 0,
        user_playcount: 0,
        user_loved: jget(t, "loved"@).spec_str_or_empty() == "1"@,
        now_playing: (match jget(t, "@attr"@).spec_get("nowplaying"@) {
            Some(v) => v.spec_str_or_empty(),
            None => Seq::<char>::empty(),
        }) == "true"@,
        tags: None,
    }
}

fn lastfm_track_item(t: &JsonValue) -> (r: Track)
    ensures
        r@ == spec_lastfm_track_item(*t),
{
    proof {
        reveal_strlit("1");
        reveal_strlit("true");
        assert("1"@.len() == 1);
        assert("true"@.len() == 4);
    }
    let artist = match t.get("artist") {
        Some(a) => match a.get("#text") {
            Some(x) => x.str_or_empty(),
            None => match a.get("name") {
                Some(x) => x.str_or_empty(),
                None => String::new(),
            },
        },
        None => String::new(),
    };
    let album = match t.get("album") {
        Some(a) => {
            if a.is_obj() {
                let x = get_str_or_empty(a, "#text");
                if x.as_str().is_empty() {
                    None
                } else {
                    Some(x)
                }
            } else {
                None
            }
        },
        None => None,
    };
    let name = get_str_or_empty(t, "name");
    let album_art_url = get_biggest_lastfm_image(t);
    let date_text = match t.get("date") {
        Some(d) => get_str_or_empty(d, "uts"),
        None => String::new(),
    };
    let date_chars = str_chars(date_text.as_str());
    let date = chars_parse_u64(&date_chars);
    let loved_text = get_str_or_empty(t, "loved");
    let user_loved = str_eq(loved_text.as_str(), "1");
    let now_playing = match t.get("@attr") {
        Some(at) => match at.get("nowplaying") {
            Some(x) => {
                let s = x.str_or_empty();
                str_eq(s.as_str(), "true")
            },
            None => false,
        },
        None => false,
    };
    Track {
        name,
        album,
        artist,
        album_art_url,
        date,
        duration: 0,
        listeners: 0,
        playcount: 0,
        user_playcount: 0,
        user_loved,
        now_playing,
        tags: None,
    }
}

/// The normalization of a provider-native track array; anything that is
/// not an array yields an empty list rather than an error.
pub open spec fn spec_lastfm_tracks(j: JsonValue) -> Seq<TrackView> {
    match j.spec_arr() {
        Some(items) => items.map_values(|t: JsonValue| spec_lastfm_track_item(t)),
        None => Seq::empty(),
    }
}

/// Normalizes a provider-native track array (recent or loved tracks)
/// into the shared track model, in provider order.
pub fn parse_lastfm_tracks(json_arr: &JsonValue) -> (r: Vec<Track>)
    ensures
        r.deep_view() == spec_lastfm_tracks(*json_arr),
{
    let mut r: Vec<Track> = Vec::new();
    match json_arr.as_arr() {
        Some(items) => {
            let mut i: usize = 0;
            while i < items.len()
                invariant
                    i <= items@.len(),
                    r@.len() == i,
                    forall|k: int|
                        0 <= k < i ==> r.deep_view()[k] == spec_lastfm_track_item(items@[k]),
                decreases items@.len() - i,
            {
                let t = lastfm_track_item(&items[i]);
                let ghost tv = t@;
                let ghost prev = r@;
                let ghost prevdv = r.deep_view();
                r.push(t);
                proof {
                    assert forall|k: int|
                        0 <= k < i + 1 implies r.deep_view()[k] == spec_lastfm_track_item(
                        items@[k],
                    ) by {
                        if k < i {
                            assert(r@[k] == prev[k]);
                            assert(prevdv[k] == prev[k].deep_view());
                            assert(prevdv[k] == spec_lastfm_track_item(items@[k]));
                        } else {
                            assert(r@[k]@ == tv);
                        }
                    }
                }
                i = i + 1;
            }
            proof {
                assert(r.deep_view().len() == r@.len());
            }
            proof {
                assert(r.deep_view() =~= spec_lastfm_tracks(*json_arr));
            }
        },
        None => {
            proof {
                assert(r.deep_view() =~= Seq::<TrackView>::empty());
            }
        },
    }
    r
}

/// Tag names of a tag array, skipping entries with an empty name.
pub open spec fn spec_nonempty_names(items: Seq<JsonValue>) -> Seq<Seq<char>>
    decreases items.len(),
{
    if items.len() == 0 {
        Seq::empty()
    } else {
        spec_nonempty_names(items.drop_last()) + ({
            let nm = jget(items.last(), "name"@).spec_str_or_empty();
            if nm.len() > 0 {
                seq![nm]
            } else {
                Seq::<Seq<char>>::empty()
            }
        })
    }
}

/// Tag names of a "tag" field, with empty names dropped; a non-array
/// yields no names.
pub open spec fn spec_tag_names_filtered(x: JsonValue) -> Seq<Seq<char>> {
    match x.spec_arr() {
        Some(items) => spec_nonempty_names(items),
        None => Seq::empty(),
    }
}

fn tag_names_filtered(x: &JsonValue) -> (r: Vec<String>)
    ensures
        r.deep_view() == spec_tag_names_filtered(*x),
{
    let mut r: Vec<String> = Vec::new();
    match x.as_arr() {
        Some(items) => {
            let mut i: usize = 0;
            while i < items.len()
                invariant
                    i <= items@.len(),
                    r.deep_view() == spec_nonempty_names(items@.subrange(0, i as int)),
                decreases items@.len() - i,
            {
                let nm = get_str_or_empty(&items[i], "name");
                let ghost nv = nm@;
                let ghost prev = r@;
                let ghost prevdv = r.deep_view();
                let pushed = !nm.as_str().is_empty();
                if pushed {
                    r.push(nm);
                }
                proof {
                    assert(items@.subrange(0, i + 1).drop_last() =~= items@.subrange(0, i as int));
                    assert(items@.subrange(0, i + 1).last() == items@[i as int]);
                    if pushed {
                        assert forall|k: int| 0 <= k < r@.len() implies r.deep_view()[k]
                            == spec_nonempty_names(items@.subrange(0, i + 1))[k] by {
                            if k < prev.len() {
                                assert(r@[k] == prev[k]);
                                assert(prevdv[k] == prev[k].deep_view());
                            } else {
                                assert(r@[k]@ == nv);
                            }
                        }
                        assert(r.deep_view() =~~= spec_nonempty_names(items@.subrange(0, i + 1)));
                    } else {
                        assert(r.deep_view() =~~= spec_nonempty_names(items@.subrange(0, i + 1)));
                    }
                }
                i = i + 1;
            }
            proof {
                assert(items@.subrange(0, items@.len() as int) =~= items@);
            }
        },
        None => {
            proof {
                assert(r.deep_view() =~~= Seq::<Seq<char>>::empty());
            }
        },
    }
    r
}

/// Tag names of a tag array, kept as they stand.
pub open spec fn spec_plain_names(x: JsonValue) -> Seq<Seq<char>> {
    match x.spec_arr() {
        Some(items) => items.map_values(|i: JsonValue| jget(i, "name"@).spec_str_or_empty()),
        None => Seq::empty(),
    }
}

fn plain_names(x: &JsonValue) -> (r: Vec<String>)
    ensures
        r.deep_view() == spec_plain_names(*x),
{
    let mut r: Vec<String> = Vec::new();
    match x.as_arr() {
        Some(items) => {
            let mut i: usize = 0;
            while i < items.len()
                invariant
                    i <= items@.len(),
                    r@.len() == i,
                    forall|k: int|
                        0 <= k < i ==> r.deep_view()[k] == jget(
                            items@[k],
                            "name"@,
                        ).spec_str_or_empty(),
                decreases items@.len() - i,
            {
                let nm = get_str_or_empty(&items[i], "name");
                let ghost nv = nm@;
                let ghost prev = r@;
                let ghost prevdv = r.deep_view();
                r.push(nm);
                proof {
                    assert forall|k: int|
                        0 <= k < i + 1 implies r.deep_view()[k] == jget(
                        items@[k],
                        "name"@,
                    ).spec_str_or_empty() by {
                        if k < i {
                            assert(r@[k] == prev[k]);
                            assert(prevdv[k] == prev[k].deep_view());
                        } else {
                            assert(r@[k]@ == nv);
                        }
                    }
                }
                i = i + 1;
            }
            proof {
                assert(r.deep_view() =~~= spec_plain_names(*x));
            }
        },
        None => {
            proof {
                assert(r.deep_view() =~~= Seq::<Seq<char>>::empty());
            }
        },
    }
    r
}

/// A single-track detail record, built from the "track" object.
pub open spec fn spec_lastfm_track_detail(t: JsonValue) -> TrackView {
    TrackView {
        name: jget(t, "name"@).spec_str_or_empty(),
        album: match t.spec_get("album"@) {
            Some(a) => {
                let x = jget(a, "title"@).spec_str_or_empty();
                if x.len() > 0 {
                    Some(x)
                } else {
                    None
                }
            },
            None => None,
        },
        artist: jget2(t, "artist"@, "name"@).spec_str_or_empty(),
        album_art_url: None,
        date: None,
        duration: jget(t, "duration"@).spec_str_u64_or_zero(),
        listeners: jget(t, "listeners"@).spec_str_u64_or_zero(),
        playcount: jget(t, "playcount"@).spec_str_u64_or_zero(),
        user_playcount: jget(t, "userplaycount"@).spec_str_u64_or_zero(),
        user_loved: jget(t, "userloved"@).spec_str_or_empty() == "1"@,
        now_playing: false,
        tags: match jget(t, "toptags"@).spec_get("tag"@) {
            Some(x) => Some(spec_tag_names_filtered(x)),
            None => None,
        },
    }
}

/// Normalizes a track.getInfo payload: the "track" object must exist,
/// else the track does not; optional numeric fields default to zero.
pub fn parse_lastfm_track_detail(j: &JsonValue) -> (r: Result<Track, ApiError>)
    ensures
        (r is Ok) == jget(*j, "track"@) is Obj,
        r matches Ok(t) ==> t@ == spec_lastfm_track_detail(jget(*j, "track"@)),
        r matches Err(e) ==> e@ == ApiErrorView::EntityNotFoundFailure("Track not found."@),
{
    proof {
        reveal_strlit("1");
        assert("1"@.len() == 1);
    }
    let track = match j.get("track") {
        Some(tv) => {
            if tv.is_obj() {
                tv
            } else {
                return Err(ApiError::EntityNotFoundFailure("Track not found.".to_owned()));
            }
        },
        None => {
            return Err(ApiError::EntityNotFoundFailure("Track not found.".to_owned()));
        },
    };
    let name = get_str_or_empty(track, "name");
    let album = match track.get("album") {
        Some(a) => {
            let x = get_str_or_empty(a, "title");
            if x.as_str().is_empty() {
                None
            } else {
                Some(x)
            }
        },
        None => None,
    };
    let artist = match track.get("artist") {
        Some(a) => get_str_or_empty(a, "name"),
        None => String::new(),
    };
    let listeners = get_str_u64_or_zero(track, "listeners");
    let playcount = get_str_u64_or_zero(track, "playcount");
    let duration = get_str_u64_or_zero(track, "duration");
    let user_playcount = get_str_u64_or_zero(track, "userplaycount");
    let loved_text = get_str_or_empty(track, "userloved");
    let user_loved = str_eq(loved_text.as_str(), "1");
    let tags = match track.get("toptags") {
        Some(tt) => match tt.get("tag") {
            Some(x) => Some(tag_names_filtered(x)),
            None => None,
        },
        None => None,
    };
    Ok(
        Track {
            name,
            album,
            artist,
            album_art_url: None,
            date: None,
            duration,
            listeners,
            playcount,
            user_playcount,
            user_loved,
            now_playing: false,
            tags,
        },
    )
}

/// A single-album detail record, built from the "album" object.
pub open spec fn spec_lastfm_album_detail(a: JsonValue) -> AlbumView {
    AlbumView {
        name: jget(a, "name"@).spec_str_or_empty(),
        artist: jget(a, "artist"@).spec_str_or_empty(),
        album_art_url: None,
        playcount: jget(a, "playcount"@).spec_str_u64_or_zero(),
        listeners: jget(a, "listeners"@).spec_str_u64_or_zero(),
        user_playcount: jget(a, "userplaycount"@).spec_str_u64_or_zero(),
        tags: Some(spec_plain_names(jget(a, "tags"@))),
    }
}

/// Normalizes an album.getInfo payload: the "album" object must exist,
/// else the album does not.
pub fn parse_lastfm_album_detail(j: &JsonValue) -> (r: Result<Album, ApiError>)
    ensures
        (r is Ok) == jget(*j, "album"@) is Obj,
        r matches Ok(a) ==> a@ == spec_lastfm_album_detail(jget(*j, "album"@)),
        r matches Err(e) ==> e@ == ApiErrorView::EntityNotFoundFailure("Album not found."@),
{
    let album = match j.get("album") {
        Some(av) => {
            if av.is_obj() {
                av
            } else {
                return Err(ApiError::EntityNotFoundFailure("Album not found.".to_owned()));
            }
        },
        None => {
            return Err(ApiError::EntityNotFoundFailure("Album not found.".to_owned()));
        },
    };
    let name = get_str_or_empty(album, "name");
    let artist = get_str_or_empty(album, "artist");
    let listeners = get_str_u64_or_zero(album, "listeners");
    let playcount = get_str_u64_or_zero(album, "playcount");
    let user_playcount = get_str_u64_or_zero(album, "userplaycount");
    let tags = match album.get("tags") {
        Some(x) => plain_names(x),
        None => {
            let empty: Vec<String> = Vec::new();
            proof {
                assert(empty.deep_view() =~~= Seq::<Seq<char>>::empty());
            }
            empty
        },
    };
    Ok(
        Album {
            name,
            artist,
            album_art_url: None,
            playcount,
            listeners,
            user_playcount,
            tags: Some(tags),
        },
    )
}

/// A single-artist detail record, built from the "artist" object.
pub open spec fn spec_lastfm_artist_detail(a: JsonValue) -> ArtistView {
    ArtistView {
        name: jget(a, "name"@).spec_str_or_empty(),
        playcount: jget2(a, "stats"@, "playcount"@).spec_str_u64_or_zero(),
        listeners: jget2(a, "stats"@, "listeners"@).spec_str_u64_or_zero(),
        user_playcount: jget2(a, "stats"@, "userplaycount"@).spec_str_u64_or_zero(),
        tags: Some(spec_plain_names(jget(a, "tags"@))),
    }
}

/// Normalizes an artist.getInfo payload: the "artist" object must exist,
/// else the artist does not.
pub fn parse_lastfm_artist_detail(j: &JsonValue) -> (r: Result<Artist, ApiError>)
    ensures
        (r is Ok) == jget(*j, "artist"@) is Obj,
        r matches Ok(a) ==> a@ == spec_lastfm_artist_detail(jget(*j, "artist"@)),
        r matches Err(e) ==> e@ == ApiErrorView::EntityNotFoundFailure("Artist not found."@),
{
    let artist = match j.get("artist") {
        Some(av) => {
            if av.is_obj() {
                av
            } else {
                return Err(ApiError::EntityNotFoundFailure("Artist not found.".to_owned()));
            }
        },
        None => {
            return Err(ApiError::EntityNotFoundFailure("Artist not found.".to_owned()));
        },
    };
    let name = get_str_or_empty(artist, "name");
    let stats_listeners = match artist.get("stats") {
        Some(st) => get_str_u64_or_zero(st, "listeners"),
        None => 0,
    };
    let stats_playcount = match artist.get("stats") {
        Some(st) => get_str_u64_or_zero(st, "playcount"),
        None => 0,
    };
    let user_playcount = match artist.get("stats") {
        Some(st) => get_str_u64_or_zero(st, "userplaycount"),
        None => 0,
    };
    let tags = match artist.get("tags") {
        Some(x) => plain_names(x),
        None => {
            let empty: Vec<String> = Vec::new();
            proof {
                assert(empty.deep_view() =~~= Seq::<Seq<char>>::empty());
            }
            empty
        },
    };
    Ok(
        Artist {
            name,
            playcount: stats_playcount,
            listeners: stats_listeners,
            user_playcount,
            tags: Some(tags),
        },
    )
}

/// A profile summary built from the "user" object; numeric fields that
/// the provider encodes as strings default to zero.
pub open spec fn spec_lastfm_user_info(j: JsonValue, username: Seq<char>) -> ScrobbleUserView {
    let u = jget(j, "user"@);
    ScrobbleUserView {
        username: username,
        playcount: jget(u, "playcount"@).spec_str_u64_or_zero(),
        artist_count: jget(u, "artist_count"@).spec_str_u64_or_zero(),
        album_count: jget(u, "album_count"@).spec_str_u64_or_zero(),
        track_count: jget(u, "track_count"@).spec_str_u64_or_zero(),
        profile_pic_url: spec_biggest_lastfm_image(u),
        registered_date: match jget(u, "registered"@).spec_get("#text"@) {
            Some(x) => x.spec_u64(),
            None => None,
        },
    }
}

/// Normalizes a user.getInfo payload into a profile summary.
pub fn parse_lastfm_user_info(j: &JsonValue, username: &str) -> (r: ScrobbleUser)
    ensures
        r@ == spec_lastfm_user_info(*j, username@),
{
    let null_value = JsonValue::Null;
    let user: &JsonValue = match j.get("user") {
        Some(u) => u,
        None => &null_value,
    };
    let playcount = get_str_u64_or_zero(user, "playcount");
    let artist_count = get_str_u64_or_zero(user, "artist_count");
    let album_count = get_str_u64_or_zero(user, "album_count");
    let track_count = get_str_u64_or_zero(user, "track_count");
    let profile_pic_url = get_biggest_lastfm_image(user);
    let registered_date = match user.get("registered") {
        Some(reg) => match reg.get("#text") {
            Some(x) => x.as_u64(),
            None => None,
        },
        None => None,
    };
    ScrobbleUser {
        username: username.to_owned(),
        playcount,
        artist_count,
        album_count,
        track_count,
        profile_pic_url,
        registered_date,
    }
}

/// One entry of a top-albums list.
pub open spec fn spec_lastfm_top_album_item(a: JsonValue) -> AlbumView {
    AlbumView {
        name: jget(a, "name"@).spec_str_or_empty(),
        artist: jget2(a, "artist"@, "name"@).spec_str_or_empty(),
        album_art_url: spec_biggest_lastfm_image(a),
        playcount: 0,
        listeners: 0,
        user_playcount: jget(a, "playcount"@).spec_str_u64_or_zero(),
        tags: None,
    }
}

/// Normalizes the "topalbums.album" array; a missing array is a
/// malformed response.
pub fn parse_lastfm_top_albums(j: &JsonValue) -> (r: Result<Vec<Album>, ApiError>)
    ensures
        (r is Ok) == jget2(*j, "topalbums"@, "album"@).spec_arr() is Some,
        r matches Ok(albums) ==> albums.deep_view() == jget2(
            *j,
            "topalbums"@,
            "album"@,
        ).spec_arr()->0.map_values(|a: JsonValue| spec_lastfm_top_album_item(a)),
        r matches Err(e) ==> e@ == ApiErrorView::MalformedResponseFailure(MALFORMED_RESPONSE@),
{
    let arr = match j.get("topalbums") {
        Some(ta) => ta.get("album"),
        None => None,
    };
    let items = match arr {
        Some(x) => match x.as_arr() {
            Some(items) => items,
            None => {
                return Err(ApiError::MalformedResponseFailure(MALFORMED_RESPONSE.to_owned()));
            },
        },
        None => {
            return Err(ApiError::MalformedResponseFailure(MALFORMED_RESPONSE.to_owned()));
        },
    };
    let mut r: Vec<Album> = Vec::new();
    let mut i: usize = 0;
    while i < items.len()
        invariant
            i <= items@.len(),
            r@.len() == i,
            forall|k: int| 0 <= k < i ==> r.deep_view()[k] == spec_lastfm_top_album_item(items@[k]),
        decreases items@.len() - i,
    {
        let name = get_str_or_empty(&items[i], "name");
        let artist = match items[i].get("artist") {
            Some(a) => get_str_or_empty(a, "name"),
            None => String::new(),
        };
        let album_art_url = get_biggest_lastfm_image(&items[i]);
        let user_playcount = get_str_u64_or_zero(&items[i], "playcount");
        let a = Album {
            name,
            artist,
            album_art_url,
            playcount: 0,
            listeners: 0,
            user_playcount,
            tags: None,
        };
        let ghost av = a@;
        let ghost prev = r@;
        let ghost prevdv = r.deep_view();
        r.push(a);
        proof {
            assert forall|k: int|
                0 <= k < i + 1 implies r.deep_view()[k] == spec_lastfm_top_album_item(
                items@[k],
            ) by {
                if k < i {
                    assert(r@[k] == prev[k]);
                    assert(prevdv[k] == prev[k].deep_view());
                } else {
                    assert(r@[k]@ == av);
                }
            }
        }
        i = i + 1;
    }
    proof {
        assert(r.deep_view() =~~= jget2(*j, "topalbums"@, "album"@).spec_arr()->0.map_values(
            |a: JsonValue| spec_lastfm_top_album_item(a),
        ));
    }
    Ok(r)
}

/// One entry of a top-artists list.
pub open spec fn spec_lastfm_top_artist_item(a: JsonValue) -> ArtistView {
    ArtistView {
        name: jget(a, "name"@).spec_str_or_empty(),
        playcount: 0,
        listeners: 0,
        user_playcount: jget(a, "playcount"@).spec_str_u64_or_zero(),
        tags: None,
    }
}

/// Normalizes the "topartists.artist" array; a missing array is a
/// malformed response.
pub fn parse_lastfm_top_artists(j: &JsonValue) -> (r: Result<Vec<Artist>, ApiError>)
    ensures
        (r is Ok) == jget2(*j, "topartists"@, "artist"@).spec_arr() is Some,
        r matches Ok(artists) ==> artists.deep_view() == jget2(
            *j,
            "topartists"@,
            "artist"@,
        ).spec_arr()->0.map_values(|a: JsonValue| spec_lastfm_top_artist_item(a)),
        r matches Err(e) ==> e@ == ApiErrorView::MalformedResponseFailure(MALFORMED_RESPONSE@),
{
    let arr = match j.get("topartists") {
        Some(ta) => ta.get("artist"),
        None => None,
    };
    let items = match arr {
        Some(x) => match x.as_arr() {
            Some(items) => items,
            None => {
                return Err(ApiError::MalformedResponseFailure(MALFORMED_RESPONSE.to_owned()));
            },
        },
        None => {
            return Err(ApiError::MalformedResponseFailure(MALFORMED_RESPONSE.to_owned()));
        },
    };
    let mut r: Vec<Artist> = Vec::new();
    let mut i: usize = 0;
    while i < items.len()
        invariant
            i <= items@.len(),
            r@.len() == i,
            forall|k: int|
                0 <= k < i ==> r.deep_view()[k] == spec_lastfm_top_artist_item(items@[k]),
        decreases items@.len() - i,
    {
        let name = get_str_or_empty(&items[i], "name");
        let user_playcount = get_str_u64_or_zero(&items[i], "playcount");
        let a = Artist { name, playcount: 0, listeners: 0, user_playcount, tags: None };
        let ghost av = a@;
        let ghost prev = r@;
        let ghost prevdv = r.deep_view();
        r.push(a);
        proof {
            assert forall|k: int|
                0 <= k < i + 1 implies r.deep_view()[k] == spec_lastfm_top_artist_item(
                items@[k],
            ) by {
                if k < i {
                    assert(r@[k] == prev[k]);
                    assert(prevdv[k] == prev[k].deep_view());
                } else {
                    assert(r@[k]@ == av);
                }
            }
        }
        i = i + 1;
    }
    proof {
        assert(r.deep_view() =~~= jget2(*j, "topartists"@, "artist"@).spec_arr()->0.map_values(
            |a: JsonValue| spec_lastfm_top_artist_item(a),
        ));
    }
    Ok(r)
}

/// One entry of a top-tracks list.
pub open spec fn spec_lastfm_top_track_item(t: JsonValue) -> TrackView {
    TrackView {
        name: jget(t, "name"@).spec_str_or_empty(),
        album: None,
        artist: jget2(t, "artist"@, "name"@).spec_str_or_empty(),
        album_art_url: None,
        date: None,
        duration: 0,
        listeners: 0,
        playcount: 0,
        user_playcount: jget(t, "playcount"@).spec_str_u64_or_zero(),
        user_loved: false,
        now_playing: false,
        tags: None,
    }
}

/// Normalizes the "toptracks.track" array; a missing array is a
/// malformed response.
pub fn parse_lastfm_top_tracks(j: &JsonValue) -> (r: Result<Vec<Track>, ApiError>)
    ensures
        (r is Ok) == jget2(*j, "toptracks"@, "track"@).spec_arr() is Some,
        r matches Ok(tracks) ==> tracks.deep_view() == jget2(
            *j,
            "toptracks"@,
            "track"@,
        ).spec_arr()->0.map_values(|t: JsonValue| spec_lastfm_top_track_item(t)),
        r matches Err(e) ==> e@ == ApiErrorView::MalformedResponseFailure(MALFORMED_RESPONSE@),
{
    let arr = match j.get("toptracks") {
        Some(tt) => tt.get("track"),
        None => None,
    };
    let items = match arr {
        Some(x) => match x.as_arr() {
            Some(items) => items,
            None => {
                return Err(ApiError::MalformedResponseFailure(MALFORMED_RESPONSE.to_owned()));
            },
        },
        None => {
            return Err(ApiError::MalformedResponseFailure(MALFORMED_RESPONSE.to_owned()));
        },
    };
    let mut r: Vec<Track> = Vec::new();
    let mut i: usize = 0;
    while i < items.len()
        invariant
            i <= items@.len(),
            r@.len() == i,
            forall|k: int| 0 <= k < i ==> r.deep_view()[k] == spec_lastfm_top_track_item(items@[k]),
        decreases items@.len() - i,
    {
        let name = get_str_or_empty(&items[i], "name");
        let artist = match items[i].get("artist") {
            Some(a) => get_str_or_empty(a, "name"),
            None => String::new(),
        };
        let user_playcount = get_str_u64_or_zero(&items[i], "playcount");
        let t = Track {
            name,
            album: None,
            artist,
            album_art_url: None,
            date: None,
            duration: 0,
            listeners: 0,
            playcount: 0,
            user_playcount,
            user_loved: false,
            now_playing: false,
            tags: None,
        };
        let ghost tv = t@;
        let ghost prev = r@;
        let ghost prevdv = r.deep_view();
        r.push(t);
        proof {
            assert forall|k: int|
                0 <= k < i + 1 implies r.deep_view()[k] == spec_lastfm_top_track_item(
                items@[k],
            ) by {
                if k < i {
                    assert(r@[k] == prev[k]);
                    assert(prevdv[k] == prev[k].deep_view());
                } else {
                    assert(r@[k]@ == tv);
                }
            }
        }
        i = i + 1;
    }
    proof {
        assert(r.deep_view() =~~= jget2(*j, "toptracks"@, "track"@).spec_arr()->0.map_values(
            |t: JsonValue| spec_lastfm_top_track_item(t),
        ));
    }
    Ok(r)
}

} // verus!
