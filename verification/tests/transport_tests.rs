use scrobble_core::error::ApiError;
use scrobble_core::facade::listenbrainz_recent_after_probe;
use scrobble_core::facade::listenbrainz_recent_finish;
use scrobble_core::facade::plan_listenbrainz_history;
use scrobble_core::facade::plan_loved_tracks;
use scrobble_core::facade::plan_recent_tracks;
use scrobble_core::facade::plan_top_entries;
use scrobble_core::facade::plan_user_info;
use scrobble_core::facade::RecentStep;
use scrobble_core::model::ApiType;
use scrobble_core::model::EntryType;
use scrobble_core::model::TimePeriod;
use scrobble_core::transport::cache_control_value;
use scrobble_core::transport::gate_response;
use scrobble_core::transport::rewrite_request_cache_control;
use scrobble_core::transport::rewrite_response_cache_control;

#[test]
fn success_codes_pass_the_gate() {
    assert!(gate_response(200, None, false).is_ok());
    assert!(gate_response(204, None, true).is_ok());
    assert!(gate_response(299, None, false).is_ok());
}

#[test]
fn not_found_on_a_detail_endpoint_is_entity_not_found() {
    let r = gate_response(404, Some("Not Found"), true);
    match r {
        Err(ApiError::EntityNotFoundFailure(m)) => assert_eq!(m, "Not found."),
        other => panic!("expected entity-not-found, got {:?}", other),
    }
}

#[test]
fn not_found_elsewhere_names_the_user() {
    let r = gate_response(404, Some("Not Found"), false);
    match r {
        Err(ApiError::HttpStatusFailure(m)) => assert_eq!(m, "No such uwuser"),
        other => panic!("expected a status failure, got {:?}", other),
    }
}

#[test]
fn forbidden_is_a_private_profile() {
    let r = gate_response(403, None, false);
    match r {
        Err(ApiError::HttpStatusFailure(m)) => {
            assert!(m.contains("hidden"));
        }
        other => panic!("expected a status failure, got {:?}", other),
    }
}

#[test]
fn other_statuses_carry_the_reason_or_a_fallback() {
    match gate_response(500, Some("Internal Server Error"), false) {
        Err(ApiError::HttpStatusFailure(m)) => assert_eq!(m, "Internal Server Error"),
        other => panic!("unexpected {:?}", other),
    }
    match gate_response(500, None, false) {
        Err(ApiError::HttpStatusFailure(m)) => assert_eq!(m, "Oopsie doopsie, I did a fucky wucky!"),
        other => panic!("unexpected {:?}", other),
    }
}

#[test]
fn cache_control_choices() {
    assert_eq!(cache_control_value(true), "max-stale=300");
    assert_eq!(cache_control_value(false), "no-cache, must-revalidate");
}

#[test]
fn request_rewrite_respects_an_opt_out() {
    assert_eq!(rewrite_request_cache_control(None), Some("max-stale=300"));
    assert_eq!(
        rewrite_request_cache_control(Some("max-stale=60")),
        Some("max-stale=300")
    );
    assert_eq!(
        rewrite_request_cache_control(Some("no-cache, must-revalidate")),
        None
    );
    assert_eq!(
        rewrite_response_cache_control(None),
        Some("max-age=300, public, immutable")
    );
    assert_eq!(rewrite_response_cache_control(Some("no-cache")), None);
}

#[test]
fn query_urls_serialize_base_and_pairs() {
    let urls = plan_user_info("bob", &ApiType::Lastfm, "k").unwrap();
    assert_eq!(
        urls[0],
        "https://ws.audioscrobbler.com/2.0/?method=user.getInfo&user=bob&api_key=k&format=json"
    );
}

#[test]
fn recent_tracks_plans_per_provider() {
    assert_eq!(
        plan_recent_tracks("bob", &ApiType::Listenbrainz, "k").unwrap(),
        "https://api.listenbrainz.org/1/user/bob/playing-now"
    );
    assert_eq!(
        plan_recent_tracks("bob", &ApiType::Lastfm, "k").unwrap(),
        "https://ws.audioscrobbler.com/2.0/?method=user.getrecenttracks&user=bob&extended=1&limit=3&api_key=k&format=json"
    );
    assert_eq!(
        plan_listenbrainz_history("bob"),
        "https://api.listenbrainz.org/1/user/bob/listens?count=3"
    );
}

#[test]
fn loved_and_top_plans() {
    assert_eq!(
        plan_loved_tracks("bob", &ApiType::Listenbrainz, "k").unwrap(),
        "https://api.listenbrainz.org/1/user/bob/get-feedback?metadata=true&count=5"
    );
    assert_eq!(
        plan_loved_tracks("bob", &ApiType::Librefm, "k").unwrap(),
        "https://libre.fm/2.0/?method=user.getlovedtracks&user=bob&limit=5&api_key=k&format=json"
    );
    assert_eq!(
        plan_top_entries(
            &EntryType::Album,
            "bob",
            &TimePeriod::AllTime,
            &ApiType::Listenbrainz,
            Some(9),
            "k"
        )
        .unwrap(),
        "https://api.listenbrainz.org/1/stats/user/bob/releases?range=all_time&count=9"
    );
    assert_eq!(
        plan_top_entries(
            &EntryType::Artist,
            "bob",
            &TimePeriod::OneMonth,
            &ApiType::Lastfm,
            None,
            "k"
        )
        .unwrap(),
        "https://ws.audioscrobbler.com/2.0/?method=user.gettopartists&period=1month&user=bob&limit=200&api_key=k&format=json"
    );
}

#[test]
fn user_info_plans_a_four_call_fan_out() {
    let urls = plan_user_info("bob", &ApiType::Listenbrainz, "k").unwrap();
    assert_eq!(
        urls,
        vec![
            "https://api.listenbrainz.org/1/user/bob/listen-count".to_string(),
            "https://api.listenbrainz.org/1/stats/user/bob/artists".to_string(),
            "https://api.listenbrainz.org/1/stats/user/bob/releases".to_string(),
            "https://api.listenbrainz.org/1/stats/user/bob/recordings".to_string(),
        ]
    );
    let urls = plan_user_info("bob", &ApiType::Lastfm, "k").unwrap();
    assert_eq!(urls.len(), 1);
}

#[test]
fn probe_with_one_entry_and_limit_one_finishes_without_history() {
    let probe = r#"{"payload":{"listens":[
        {"track_metadata":{"track_name":"Now","artist_name":"A"}}
    ]}}"#;
    match listenbrainz_recent_after_probe(probe, 1).unwrap() {
        RecentStep::Finished(tracks) => {
            assert_eq!(tracks.len(), 1);
            assert!(tracks[0].now_playing);
        }
        RecentStep::FetchHistory(_) => panic!("the history call must not be issued"),
    }
}

#[test]
fn probe_needs_history_otherwise() {
    let empty_probe = r#"{"payload":{"listens":[]}}"#;
    assert!(matches!(
        listenbrainz_recent_after_probe(empty_probe, 1).unwrap(),
        RecentStep::FetchHistory(_)
    ));
    let probe = r#"{"payload":{"listens":[
        {"track_metadata":{"track_name":"Now","artist_name":"A"}}
    ]}}"#;
    assert!(matches!(
        listenbrainz_recent_after_probe(probe, 3).unwrap(),
        RecentStep::FetchHistory(_)
    ));
}

#[test]
fn history_is_appended_behind_the_current_track() {
    let probe = r#"{"payload":{"listens":[
        {"track_metadata":{"track_name":"Now","artist_name":"A"}}
    ]}}"#;
    let now_playing = match listenbrainz_recent_after_probe(probe, 3).unwrap() {
        RecentStep::FetchHistory(t) => t,
        RecentStep::Finished(_) => panic!("limit 3 must fetch history"),
    };
    let history = r#"{"payload":{"listens":[
        {"listened_at":1,"track_metadata":{"track_name":"Old","artist_name":"B"}}
    ]}}"#;
    let all = listenbrainz_recent_finish(now_playing, history).unwrap();
    assert_eq!(all.len(), 2);
    assert_eq!(all[0].name, "Now");
    assert!(all[0].now_playing);
    assert_eq!(all[1].name, "Old");
    assert!(!all[1].now_playing);
}
