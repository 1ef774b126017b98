use scrobble_core::error::ApiError;
use scrobble_core::facade::combine_listenbrainz_user_info;
use scrobble_core::facade::parse_lastfm_recent_tracks_response;
use scrobble_core::facade::parse_lastfm_track_response;
use scrobble_core::facade::parse_loved_tracks_response;
use scrobble_core::facade::parse_top_albums_response;
use scrobble_core::facade::parse_top_artists_response;
use scrobble_core::facade::parse_top_tracks_response;
use scrobble_core::facade::parse_user_info_response;
use scrobble_core::facade::listenbrainz_recent_after_probe;
use scrobble_core::facade::RecentStep;
use scrobble_core::json::JsonField;
use scrobble_core::json::JsonValue;
use scrobble_core::lastfm::get_biggest_lastfm_image;
use scrobble_core::lastfm::parse_lastfm_tracks;
use scrobble_core::model::ApiType;

fn obj(fields: Vec<(&str, JsonValue)>) -> JsonValue {
    JsonValue::Obj(
        fields
            .into_iter()
            .map(|(name, value)| JsonField {
                name: name.to_string(),
                value,
            })
            .collect(),
    )
}

fn text(s: &str) -> JsonValue {
    JsonValue::Str(s.to_string())
}

const PLACEHOLDER_URL: &str =
    "https://lastfm.freetls.fastly.net/i/u/300x300/2a96cbd8b46e442fc41c2b86b821562f.png";

#[test]
fn numeric_as_string_normalizes_to_its_value() {
    let body = r##"{"topalbums":{"album":[
        {"name":"X","artist":{"name":"Y"},"playcount":"42"}
    ]}}"##;
    let albums = parse_top_albums_response(body, &ApiType::Lastfm).unwrap();
    assert_eq!(albums.len(), 1);
    assert_eq!(albums[0].user_playcount, 42);
    assert_eq!(albums[0].name, "X");
    assert_eq!(albums[0].artist, "Y");
}

#[test]
fn empty_or_absent_numeric_field_defaults_to_zero() {
    let body = r##"{"topalbums":{"album":[
        {"name":"A","artist":{"name":"Y"},"playcount":""},
        {"name":"B","artist":{"name":"Y"}}
    ]}}"##;
    let albums = parse_top_albums_response(body, &ApiType::Lastfm).unwrap();
    assert_eq!(albums[0].user_playcount, 0);
    assert_eq!(albums[1].user_playcount, 0);
}

fn entity_with_images(urls: Vec<&str>) -> JsonValue {
    obj(vec![(
        "image",
        JsonValue::Arr(urls.into_iter().map(|u| obj(vec![("#text", text(u))])).collect()),
    )])
}

#[test]
fn placeholder_album_art_normalizes_to_none() {
    let with_placeholder = entity_with_images(vec!["small.png", PLACEHOLDER_URL]);
    assert_eq!(get_biggest_lastfm_image(&with_placeholder), None);

    let with_art = entity_with_images(vec!["s.png", "https://img.example/big.png"]);
    assert_eq!(
        get_biggest_lastfm_image(&with_art),
        Some("https://img.example/big.png".to_string())
    );

    let empty_url = entity_with_images(vec![""]);
    assert_eq!(get_biggest_lastfm_image(&empty_url), None);
}

#[test]
fn placeholder_album_art_normalizes_through_the_response_path() {
    let body = String::new()
        + r##"{"recenttracks":{"track":[{"name":"S","artist":{"name":"A"},"image":[{"#text":""##
        + PLACEHOLDER_URL
        + r##""}]}]}}"##;
    let tracks = parse_lastfm_recent_tracks_response(&body).unwrap();
    assert_eq!(tracks[0].album_art_url, None);
}

#[test]
fn recent_tracks_read_extended_fields() {
    let body = r##"{"recenttracks":{"track":[
        {"name":"Song","artist":{"#text":"Band"},"album":{"#text":"Disc"},
         "date":{"uts":"1700000000"},"loved":"1",
         "@attr":{"nowplaying":"true"},
         "image":[{"#text":"https://img.example/a.png"}]}
    ]}}"##;
    let tracks = parse_lastfm_recent_tracks_response(body).unwrap();
    assert_eq!(tracks.len(), 1);
    let t = &tracks[0];
    assert_eq!(t.name, "Song");
    assert_eq!(t.artist, "Band");
    assert_eq!(t.album.as_deref(), Some("Disc"));
    assert_eq!(t.date, Some(1700000000));
    assert!(t.user_loved);
    assert!(t.now_playing);
    assert_eq!(t.album_art_url.as_deref(), Some("https://img.example/a.png"));
}

#[test]
fn recent_tracks_artist_name_fallback_and_empty_album() {
    let body = r##"{"recenttracks":{"track":[
        {"name":"S","artist":{"name":"Named"},"album":{"#text":""}}
    ]}}"##;
    let tracks = parse_lastfm_recent_tracks_response(body).unwrap();
    assert_eq!(tracks[0].artist, "Named");
    assert_eq!(tracks[0].album, None);
    assert!(!tracks[0].user_loved);
    assert!(!tracks[0].now_playing);
}

#[test]
fn provider_reported_error_aborts_recent_tracks() {
    let body = r##"{"error":{"#text":"User not found"}}"##;
    let r = parse_lastfm_recent_tracks_response(body);
    match r {
        Err(ApiError::HttpStatusFailure(m)) => assert_eq!(m, "User not found"),
        other => panic!("expected a status failure, got {:?}", other),
    }
}

#[test]
fn undecodable_body_is_a_malformed_response() {
    let r = parse_lastfm_recent_tracks_response("not json at all {{");
    assert!(matches!(r, Err(ApiError::MalformedResponseFailure(_))));
}

#[test]
fn non_array_track_list_yields_empty_not_error() {
    let j = obj(vec![("a", JsonValue::Num(Some(1)))]);
    assert_eq!(parse_lastfm_tracks(&j).len(), 0);
    let missing = parse_lastfm_recent_tracks_response(r##"{"recenttracks":{}}"##).unwrap();
    assert_eq!(missing.len(), 0);
}

#[test]
fn missing_top_level_array_is_malformed() {
    let body = r##"{"topalbums":{"album":{"not":"an array"}}}"##;
    let r = parse_top_albums_response(body, &ApiType::Lastfm);
    assert!(matches!(r, Err(ApiError::MalformedResponseFailure(_))));
    let r = parse_top_artists_response(r##"{}"##, &ApiType::Listenbrainz);
    assert!(matches!(r, Err(ApiError::MalformedResponseFailure(_))));
}

#[test]
fn listenbrainz_listens_normalize_metadata_and_cover_art() {
    let body = r##"{"payload":{"listens":[
        {"listened_at":1700000001,
         "track_metadata":{"track_name":"T","artist_name":"A","release_name":"R",
                           "release_mbid":"abc-123","listen_count":9}}
    ]}}"##;
    let tracks = match listenbrainz_recent_after_probe(body, 5).unwrap() {
        RecentStep::FetchHistory(tracks) => tracks,
        RecentStep::Finished(_) => panic!("a limit above one always fetches history"),
    };
    assert_eq!(tracks.len(), 1);
    let t = &tracks[0];
    assert_eq!(t.name, "T");
    assert_eq!(t.artist, "A");
    assert_eq!(t.album.as_deref(), Some("R"));
    assert_eq!(
        t.album_art_url.as_deref(),
        Some("https://coverartarchive.org/release/abc-123/front-250")
    );
    assert_eq!(t.user_playcount, 9);
    assert_eq!(t.date, Some(1700000001));
    assert!(t.now_playing);
}

#[test]
fn listenbrainz_top_fields_live_at_top_level_without_metadata() {
    let body = r##"{"payload":{"recordings":[
        {"track_name":"T2","artist_name":"A2","listen_count":4}
    ]}}"##;
    let tracks = parse_top_tracks_response(body, &ApiType::Listenbrainz).unwrap();
    assert_eq!(tracks[0].name, "T2");
    assert_eq!(tracks[0].artist, "A2");
    assert_eq!(tracks[0].user_playcount, 4);
    assert!(!tracks[0].now_playing);
}

#[test]
fn listenbrainz_top_albums_use_collage_sized_art() {
    let body = r##"{"payload":{"releases":[
        {"release_name":"R","artist_name":"A","release_mbid":"m1","listen_count":3}
    ]}}"##;
    let albums = parse_top_albums_response(body, &ApiType::Listenbrainz).unwrap();
    assert_eq!(
        albums[0].album_art_url.as_deref(),
        Some("https://coverartarchive.org/release/m1/front-500")
    );
}

#[test]
fn loved_tracks_parse_for_both_shapes() {
    let lfm = r##"{"lovedtracks":{"track":[{"name":"L","artist":{"name":"B"}}]}}"##;
    let tracks = parse_loved_tracks_response(lfm, &ApiType::Lastfm).unwrap();
    assert_eq!(tracks[0].name, "L");

    let lb = r##"{"feedback":[{"track_metadata":{"track_name":"F","artist_name":"C"}}]}"##;
    let tracks = parse_loved_tracks_response(lb, &ApiType::Listenbrainz).unwrap();
    assert_eq!(tracks[0].name, "F");
    assert_eq!(tracks[0].artist, "C");
}

#[test]
fn missing_track_object_is_entity_not_found() {
    let r = parse_lastfm_track_response(r##"{}"##);
    match r {
        Err(ApiError::EntityNotFoundFailure(m)) => assert_eq!(m, "Track not found."),
        other => panic!("expected entity-not-found, got {:?}", other),
    }
}

#[test]
fn track_detail_reads_counts_and_filters_empty_tags() {
    let body = r##"{"track":{"name":"N","artist":{"name":"Ar"},
        "album":{"title":"Al"},
        "duration":"185000","listeners":"10","playcount":"20","userplaycount":"2",
        "userloved":"1",
        "toptags":{"tag":[{"name":"rock"},{"name":""},{"name":"indie"}]}}}"##;
    let t = parse_lastfm_track_response(body).unwrap();
    assert_eq!(t.name, "N");
    assert_eq!(t.artist, "Ar");
    assert_eq!(t.album.as_deref(), Some("Al"));
    assert_eq!(t.duration, 185000);
    assert_eq!(t.listeners, 10);
    assert_eq!(t.playcount, 20);
    assert_eq!(t.user_playcount, 2);
    assert!(t.user_loved);
    assert_eq!(t.tags, Some(vec!["rock".to_string(), "indie".to_string()]));
}

#[test]
fn user_info_reads_string_counts_and_registration() {
    let body = r##"{"user":{"playcount":"100","artist_count":"5","album_count":"6",
        "track_count":"7","registered":{"#text":1500000000},
        "image":[{"#text":"https://img.example/u.png"}]}}"##;
    let u = parse_user_info_response(body, "bob").unwrap();
    assert_eq!(u.username, "bob");
    assert_eq!(u.playcount, 100);
    assert_eq!(u.artist_count, 5);
    assert_eq!(u.album_count, 6);
    assert_eq!(u.track_count, 7);
    assert_eq!(u.registered_date, Some(1500000000));
    assert_eq!(u.profile_pic_url.as_deref(), Some("https://img.example/u.png"));
}

#[test]
fn listenbrainz_user_info_joins_four_responses() {
    let u = combine_listenbrainz_user_info(
        "bob",
        r##"{"payload":{"count":1000}}"##,
        r##"{"payload":{"total_artist_count":11}}"##,
        r##"{"payload":{"total_release_count":22}}"##,
        r##"{"payload":{"total_recording_count":33}}"##,
    )
    .unwrap();
    assert_eq!(u.playcount, 1000);
    assert_eq!(u.artist_count, 11);
    // A release is an album and a recording a track, so the release
    // total feeds the album counter and the recording total the track
    // counter.
    assert_eq!(u.album_count, 22);
    assert_eq!(u.track_count, 33);
    assert_eq!(u.profile_pic_url, None);

    let bad = combine_listenbrainz_user_info("bob", "{", "{}", "{}", "{}");
    assert!(matches!(bad, Err(ApiError::MalformedResponseFailure(_))));
}
