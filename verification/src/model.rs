//! The shared entity model: provider-agnostic records for tracks, albums,
//! artists and user profiles, the closed provider / period / entry-type
//! enums, and the per-provider string tables.

use vstd::prelude::*;
use vstd::string::StringExecFns;
use crate::text::str_eq;
use crate::text::replace_html_symbols;
use crate::text::spec_html_escape;

verus! {

/// One of the three scrobble-tracking services.
#[derive(Clone, Copy, Debug, PartialEq, Eq, Structural)]
pub enum ApiType {
    Lastfm,
    Librefm,
    Listenbrainz,
}

/// The aggregation window for "top N" queries.
#[derive(Clone, Copy, Debug, PartialEq, Eq, Structural)]
pub enum TimePeriod {
    OneWeek,
    OneMonth,
    ThreeMonths,
    SixMonths,
    OneYear,
    AllTime,
}

/// Which collection an aggregation call asks for.
#[derive(Clone, Copy, Debug, PartialEq, Eq, Structural)]
pub enum EntryType {
    Artist,
    Album,
    Track,
}

pub open spec fn spec_base_url(api: ApiType) -> Seq<char> {
    match api {
        ApiType::Lastfm => "https://ws.audioscrobbler.com/2.0/"@,
        ApiType::Librefm => "https://libre.fm/2.0/"@,
        ApiType::Listenbrainz => "https://api.listenbrainz.org/1/"@,
    }
}

/// The fixed API root of a provider.
pub fn get_base_url(api_type: &ApiType) -> (r: &'static str)
    ensures
        r@ == spec_base_url(*api_type),
{
    match api_type {
        ApiType::Lastfm => "https://ws.audioscrobbler.com/2.0/",
        ApiType::Librefm => "https://libre.fm/2.0/",
        ApiType::Listenbrainz => "https://api.listenbrainz.org/1/",
    }
}

pub open spec fn spec_period_string(period: TimePeriod, api: ApiType) -> Seq<char> {
    match api {
        ApiType::Lastfm | ApiType::Librefm => match period {
            TimePeriod::OneWeek => "7day"@,
            TimePeriod::OneMonth => "1month"@,
            TimePeriod::ThreeMonths => "3month"@,
            TimePeriod::SixMonths => "6month"@,
            TimePeriod::OneYear => "12month"@,
            TimePeriod::AllTime => "overall"@,
        },
        ApiType::Listenbrainz => match period {
            TimePeriod::OneWeek => "week"@,
            TimePeriod::OneMonth => "month"@,
            TimePeriod::ThreeMonths => "quarter"@,
            TimePeriod::SixMonths => "half_yearly"@,
            TimePeriod::OneYear => "year"@,
            TimePeriod::AllTime => "all_time"@,
        },
    }
}

/// The literal a provider's API expects for an aggregation window.
pub fn time_period_to_api_string(duration: &TimePeriod, api_type: &ApiType) -> (r: &'static str)
    ensures
        r@ == spec_period_string(*duration, *api_type),
{
    match api_type {
        ApiType::Lastfm | ApiType::Librefm => match duration {
            TimePeriod::OneWeek => "7day",
            TimePeriod::OneMonth => "1month",
            TimePeriod::ThreeMonths => "3month",
            TimePeriod::SixMonths => "6month",
            TimePeriod::OneYear => "12month",
            TimePeriod::AllTime => "overall",
        },
        ApiType::Listenbrainz => match duration {
            TimePeriod::OneWeek => "week",
            TimePeriod::OneMonth => "month",
            TimePeriod::ThreeMonths => "quarter",
            TimePeriod::SixMonths => "half_yearly",
            TimePeriod::OneYear => "year",
            TimePeriod::AllTime => "all_time",
        },
    }
}

/// The period table is total: every (provider, period) pair has its own
/// non-empty literal, so no call can reach a missing entry.
pub proof fn lemma_period_table_total()
    ensures
        forall|p: TimePeriod, a: ApiType| #[trigger] spec_period_string(p, a).len() > 0,
{
    reveal_strlit("7day");
    reveal_strlit("1month");
    reveal_strlit("3month");
    reveal_strlit("6month");
    reveal_strlit("12month");
    reveal_strlit("overall");
    reveal_strlit("week");
    reveal_strlit("month");
    reveal_strlit("quarter");
    reveal_strlit("half_yearly");
    reveal_strlit("year");
    reveal_strlit("all_time");
    assert forall|p: TimePeriod, a: ApiType| #[trigger] spec_period_string(p, a).len() > 0 by {
        match a {
            ApiType::Lastfm | ApiType::Librefm => {
                match p {
                    TimePeriod::OneWeek => assert(spec_period_string(p, a).len() > 0),
                    TimePeriod::OneMonth => assert(spec_period_string(p, a).len() > 0),
                    TimePeriod::ThreeMonths => assert(spec_period_string(p, a).len() > 0),
                    TimePeriod::SixMonths => assert(spec_period_string(p, a).len() > 0),
                    TimePeriod::OneYear => assert(spec_period_string(p, a).len() > 0),
                    TimePeriod::AllTime => assert(spec_period_string(p, a).len() > 0),
                }
            },
            ApiType::Listenbrainz => {
                match p {
                    TimePeriod::OneWeek => assert(spec_period_string(p, a).len() > 0),
                    TimePeriod::OneMonth => assert(spec_period_string(p, a).len() > 0),
                    TimePeriod::ThreeMonths => assert(spec_period_string(p, a).len() > 0),
                    TimePeriod::SixMonths => assert(spec_period_string(p, a).len() > 0),
                    TimePeriod::OneYear => assert(spec_period_string(p, a).len() > 0),
                    TimePeriod::AllTime => assert(spec_period_string(p, a).len() > 0),
                }
            },
        }
    }
}

pub open spec fn spec_api_type_name(api: ApiType) -> Seq<char> {
    match api {
        ApiType::Lastfm => "lastfm"@,
        ApiType::Librefm => "librefm"@,
        ApiType::Listenbrainz => "listenbrainz"@,
    }
}

/// The lower-case name under which a provider choice is stored.
pub fn api_type_name(api_type: &ApiType) -> (r: &'static str)
    ensures
        r@ == spec_api_type_name(*api_type),
{
    match api_type {
        ApiType::Lastfm => "lastfm",
        ApiType::Librefm => "librefm",
        ApiType::Listenbrainz => "listenbrainz",
    }
}

/// How a stored provider name reads back: unknown names fall back to the
/// default provider.
pub open spec fn spec_api_type_of_name(s: Seq<char>) -> ApiType {
    if s == "librefm"@ {
        ApiType::Librefm
    } else if s == "listenbrainz"@ {
        ApiType::Listenbrainz
    } else {
        ApiType::Lastfm
    }
}

/// A normalized track record; numeric fields are zero when the provider
/// does not report them.
#[derive(Debug, Clone)]
pub struct Track {
    pub name: String,
    pub album: Option<String>,
    pub artist: String,
    pub album_art_url: Option<String>,
    pub date: Option<u64>,
    pub duration: u64,
    pub listeners: u64,
    pub playcount: u64,
    pub user_playcount: u64,
    pub user_loved: bool,
    pub now_playing: bool,
    pub tags: Option<Vec<String>>,
}

pub struct TrackView {
    pub name: Seq<char>,
    pub album: Option<Seq<char>>,
    pub artist: Seq<char>,
    pub album_art_url: Option<Seq<char>>,
    pub date: Option<u64>,
    pub duration: u64,
    pub listeners: u64,
    pub playcount: u64,
    pub user_playcount: u64,
    pub user_loved: bool,
    pub now_playing: bool,
    pub tags: Option<Seq<Seq<char>>>,
}

impl View for Track {
    type V = TrackView;

    open spec fn view(&self) -> TrackView {
        TrackView {
            name: self.name@,
            album: self.album.deep_view(),
            artist: self.artist@,
            album_art_url: self.album_art_url.deep_view(),
            date: self.date,
            duration: self.duration,
            listeners: self.listeners,
            playcount: self.playcount,
            user_playcount: self.user_playcount,
            user_loved: self.user_loved,
            now_playing: self.now_playing,
            tags: self.tags.deep_view(),
        }
    }
}

impl DeepView for Track {
    type V = TrackView;

    open spec fn deep_view(&self) -> TrackView {
        self.view()
    }
}

/// A normalized album record.
#[derive(Debug, Clone)]
pub struct Album {
    pub name: String,
    pub artist: String,
    pub album_art_url: Option<String>,
    pub playcount: u64,
    pub listeners: u64,
    pub user_playcount: u64,
    pub tags: Option<Vec<String>>,
}

pub struct AlbumView {
    pub name: Seq<char>,
    pub artist: Seq<char>,
    pub album_art_url: Option<Seq<char>>,
    pub playcount: u64,
    pub listeners: u64,
    pub user_playcount: u64,
    pub tags: Option<Seq<Seq<char>>>,
}

impl View for Album {
    type V = AlbumView;

    open spec fn view(&self) -> AlbumView {
        AlbumView {
            name: self.name@,
            artist: self.artist@,
            album_art_url: self.album_art_url.deep_view(),
            playcount: self.playcount,
            listeners: self.listeners,
            user_playcount: self.user_playcount,
            tags: self.tags.deep_view(),
        }
    }
}

impl DeepView for Album {
    type V = AlbumView;

    open spec fn deep_view(&self) -> AlbumView {
        self.view()
    }
}

/// A normalized artist record.
#[derive(Debug, Clone)]
pub struct Artist {
    pub name: String,
    pub playcount: u64,
    pub listeners: u64,
    pub user_playcount: u64,
    pub tags: Option<Vec<String>>,
}

pub struct ArtistView {
    pub name: Seq<char>,
    pub playcount: u64,
    pub listeners: u64,
    pub user_playcount: u64,
    pub tags: Option<Seq<Seq<char>>>,
}

impl View for Artist {
    type V = ArtistView;

    open spec fn view(&self) -> ArtistView {
        ArtistView {
            name: self.name@,
            playcount: self.playcount,
            listeners: self.listeners,
            user_playcount: self.user_playcount,
            tags: self.tags.deep_view(),
        }
    }
}

impl DeepView for Artist {
    type V = ArtistView;

    open spec fn deep_view(&self) -> ArtistView {
        self.view()
    }
}

/// A provider account's profile summary.
#[derive(Debug, Clone)]
pub struct ScrobbleUser {
    pub username: String,
    pub playcount: u64,
    pub artist_count: u64,
    pub album_count: u64,
    pub track_count: u64,
    pub profile_pic_url: Option<String>,
    pub registered_date: Option<u64>,
}

pub struct ScrobbleUserView {
    pub username: Seq<char>,
    pub playcount: u64,
    pub artist_count: u64,
    pub album_count: u64,
    pub track_count: u64,
    pub profile_pic_url: Option<Seq<char>>,
    pub registered_date: Option<u64>,
}

impl View for ScrobbleUser {
    type V = ScrobbleUserView;

    open spec fn view(&self) -> ScrobbleUserView {
        ScrobbleUserView {
            username: self.username@,
            playcount: self.playcount,
            artist_count: self.artist_count,
            album_count: self.album_count,
            track_count: self.track_count,
            profile_pic_url: self.profile_pic_url.deep_view(),
            registered_date: self.registered_date,
        }
    }
}

impl DeepView for ScrobbleUser {
    type V = ScrobbleUserView;

    open spec fn deep_view(&self) -> ScrobbleUserView {
        self.view()
    }
}

/// One chat user's stored preference record: which provider account to
/// query, and whether the profile link may be shown.
#[derive(Clone, Debug)]
pub struct User {
    pub tg_user_id: u64,
    pub account_username: String,
    pub api_type: String,
    pub profile_shown: bool,
}

impl User {
    /// The provider that the stored name denotes, falling back to the
    /// default provider for anything unknown.
    pub open spec fn spec_api_type(&self) -> ApiType {
        spec_api_type_of_name(self.api_type@)
    }

    pub fn new(
        tg_user_id: u64,
        account_username: String,
        api_type: &ApiType,
        profile_shown: bool,
    ) -> (r: User)
        ensures
            r.tg_user_id == tg_user_id,
            r.account_username == account_username,
            r.profile_shown == profile_shown,
            r.spec_api_type() == *api_type,
    {
        let stored = api_type_name(api_type);
        proof {
            reveal_strlit("lastfm");
            reveal_strlit("librefm");
            reveal_strlit("listenbrainz");
            assert("lastfm"@.len() == 6);
            assert("librefm"@.len() == 7);
            assert("listenbrainz"@.len() == 12);
        }
        let r = User {
            tg_user_id,
            account_username,
            api_type: stored.to_owned(),
            profile_shown,
        };
        proof {
            match *api_type {
                ApiType::Lastfm => {
                    assert(r.api_type@ == "lastfm"@);
                    assert(r.spec_api_type() == ApiType::Lastfm);
                },
                ApiType::Librefm => {
                    assert(r.spec_api_type() == ApiType::Librefm);
                },
                ApiType::Listenbrainz => {
                    assert(r.spec_api_type() == ApiType::Listenbrainz);
                },
            }
        }
        r
    }

    pub fn api_type(&self) -> (r: ApiType)
        ensures
            r == self.spec_api_type(),
    {
        if str_eq(self.api_type.as_str(), "librefm") {
            ApiType::Librefm
        } else if str_eq(self.api_type.as_str(), "listenbrainz") {
            ApiType::Listenbrainz
        } else {
            ApiType::Lastfm
        }
    }
}


/// The public profile page root of a provider.
pub open spec fn spec_profile_url_prefix(api: ApiType) -> Seq<char> {
    match api {
        ApiType::Lastfm => "https://www.last.fm/user/"@,
        ApiType::Librefm => "https://libre.fm/user/"@,
        ApiType::Listenbrainz => "https://listenbrainz.org/user/"@,
    }
}

/// The display name rendered for chat output: the HTML-escaped first
/// name, wrapped in a link to the account's profile page when the user
/// allows the profile to be shown.
pub open spec fn spec_name_with_link(first_name: Seq<char>, user: User) -> Seq<char> {
    let name = spec_html_escape(first_name);
    if user.profile_shown {
        "<a href=\""@ + spec_profile_url_prefix(user.spec_api_type()) + user.account_username@
            + "\">"@ + name + "</a>"@
    } else {
        name
    }
}

/// Renders a chat user's display name, linking it to their provider
/// profile when they allow that.
pub fn name_with_link(tg_first_name: &str, db_user: &User) -> (r: String)
    ensures
        r@ == spec_name_with_link(tg_first_name@, *db_user),
{
    let name = replace_html_symbols(tg_first_name);
    if db_user.profile_shown {
        let prefix = match db_user.api_type() {
            ApiType::Lastfm => "https://www.last.fm/user/",
            ApiType::Librefm => "https://libre.fm/user/",
            ApiType::Listenbrainz => "https://listenbrainz.org/user/",
        };
        let r = String::from_str("<a href=\"").concat(prefix).concat(
            db_user.account_username.as_str(),
        ).concat("\">").concat(name.as_str()).concat("</a>");
        r
    } else {
        name
    }
}

} // verus!
