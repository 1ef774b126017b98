use scrobble_core::model::api_type_name;
use scrobble_core::model::get_base_url;
use scrobble_core::model::name_with_link;
use scrobble_core::model::time_period_to_api_string;
use scrobble_core::model::ApiType;
use scrobble_core::model::TimePeriod;
use scrobble_core::model::User;

const ALL_APIS: [ApiType; 3] = [ApiType::Lastfm, ApiType::Librefm, ApiType::Listenbrainz];

const ALL_PERIODS: [TimePeriod; 6] = [
    TimePeriod::OneWeek,
    TimePeriod::OneMonth,
    TimePeriod::ThreeMonths,
    TimePeriod::SixMonths,
    TimePeriod::OneYear,
    TimePeriod::AllTime,
];

#[test]
fn period_table_is_total_and_nonempty() {
    for api in ALL_APIS {
        for period in ALL_PERIODS {
            let s = time_period_to_api_string(&period, &api);
            assert!(!s.is_empty(), "{:?} x {:?}", period, api);
        }
    }
}

#[test]
fn period_table_exact_values() {
    assert_eq!(
        time_period_to_api_string(&TimePeriod::OneWeek, &ApiType::Lastfm),
        "7day"
    );
    assert_eq!(
        time_period_to_api_string(&TimePeriod::OneYear, &ApiType::Librefm),
        "12month"
    );
    assert_eq!(
        time_period_to_api_string(&TimePeriod::AllTime, &ApiType::Lastfm),
        "overall"
    );
    assert_eq!(
        time_period_to_api_string(&TimePeriod::ThreeMonths, &ApiType::Listenbrainz),
        "quarter"
    );
    assert_eq!(
        time_period_to_api_string(&TimePeriod::SixMonths, &ApiType::Listenbrainz),
        "half_yearly"
    );
    assert_eq!(
        time_period_to_api_string(&TimePeriod::AllTime, &ApiType::Listenbrainz),
        "all_time"
    );
}

#[test]
fn base_urls() {
    assert_eq!(get_base_url(&ApiType::Lastfm), "https://ws.audioscrobbler.com/2.0/");
    assert_eq!(get_base_url(&ApiType::Librefm), "https://libre.fm/2.0/");
    assert_eq!(get_base_url(&ApiType::Listenbrainz), "https://api.listenbrainz.org/1/");
}

#[test]
fn user_round_trips_its_provider() {
    for api in ALL_APIS {
        let u = User::new(7, "bob".to_string(), &api, true);
        assert_eq!(u.api_type(), api);
    }
}

#[test]
fn unknown_stored_provider_falls_back_to_default() {
    let mut u = User::new(7, "bob".to_string(), &ApiType::Librefm, true);
    u.api_type = "something else".to_string();
    assert_eq!(u.api_type(), ApiType::Lastfm);
}

#[test]
fn api_type_names() {
    assert_eq!(api_type_name(&ApiType::Lastfm), "lastfm");
    assert_eq!(api_type_name(&ApiType::Librefm), "librefm");
    assert_eq!(api_type_name(&ApiType::Listenbrainz), "listenbrainz");
}

#[test]
fn name_with_link_wraps_shown_profiles() {
    let u = User::new(7, "bob".to_string(), &ApiType::Lastfm, true);
    assert_eq!(
        name_with_link("Ann", &u),
        "<a href=\"https://www.last.fm/user/bob\">Ann</a>"
    );
    let lb = User::new(7, "bob".to_string(), &ApiType::Listenbrainz, true);
    assert_eq!(
        name_with_link("Ann", &lb),
        "<a href=\"https://listenbrainz.org/user/bob\">Ann</a>"
    );
}

#[test]
fn name_with_link_escapes_and_hides() {
    let hidden = User::new(7, "bob".to_string(), &ApiType::Lastfm, false);
    assert_eq!(name_with_link("A<b>&c", &hidden), "A&lt;b&gt;&amp;c");
}
