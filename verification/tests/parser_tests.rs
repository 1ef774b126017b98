use scrobble_core::model::EntryType;
use scrobble_core::model::TimePeriod;
use scrobble_core::parser::parse_collage_arg;
use scrobble_core::parser::render_collage_arg;

#[test]
fn defaults_on_empty_phrase() {
    assert_eq!(
        parse_collage_arg(""),
        (3, TimePeriod::AllTime, EntryType::Album, false)
    );
}

#[test]
fn clean_size_and_alltime() {
    assert_eq!(
        parse_collage_arg("clean 4 alltime"),
        (4, TimePeriod::AllTime, EntryType::Album, true)
    );
}

#[test]
fn bare_entry_type() {
    assert_eq!(
        parse_collage_arg("artist"),
        (3, TimePeriod::AllTime, EntryType::Artist, false)
    );
}

#[test]
fn grid_notation() {
    assert_eq!(
        parse_collage_arg("3x3"),
        (3, TimePeriod::AllTime, EntryType::Album, false)
    );
    assert_eq!(
        parse_collage_arg("5x5"),
        (5, TimePeriod::AllTime, EntryType::Album, false)
    );
}

#[test]
fn unstripped_command_word_claims_the_period_slot() {
    // "collage" is not an entry type and not a size, but its fragment
    // "coll" contains 'o', which the keyword branch reads as all-time;
    // the later "1m" is then ignored because the period slot is claimed.
    assert_eq!(
        parse_collage_arg("collage 5 1m"),
        (5, TimePeriod::AllTime, EntryType::Album, false)
    );
    // With the command word stripped, the month is read.
    assert_eq!(
        parse_collage_arg("5 1m"),
        (5, TimePeriod::OneMonth, EntryType::Album, false)
    );
}

#[test]
fn period_abbreviations() {
    assert_eq!(parse_collage_arg("7d").1, TimePeriod::OneWeek);
    assert_eq!(parse_collage_arg("1w").1, TimePeriod::OneWeek);
    assert_eq!(parse_collage_arg("1m").1, TimePeriod::OneMonth);
    assert_eq!(parse_collage_arg("3m").1, TimePeriod::ThreeMonths);
    assert_eq!(parse_collage_arg("6m").1, TimePeriod::SixMonths);
    assert_eq!(parse_collage_arg("1y").1, TimePeriod::OneYear);
    assert_eq!(parse_collage_arg("week").1, TimePeriod::OneWeek);
    assert_eq!(parse_collage_arg("month").1, TimePeriod::OneMonth);
    assert_eq!(parse_collage_arg("year").1, TimePeriod::OneYear);
    assert_eq!(parse_collage_arg("all").1, TimePeriod::AllTime);
}

#[test]
fn leading_digit_tie_breaks() {
    // A bare digit in range is consumed by the size check first.
    assert_eq!(
        parse_collage_arg("1"),
        (1, TimePeriod::AllTime, EntryType::Album, false)
    );
    // A leading 6 matches the month rule whatever the letter says.
    assert_eq!(parse_collage_arg("8 6d").1, TimePeriod::SixMonths);
    // An out-of-range size falls through to the period check.
    assert_eq!(
        parse_collage_arg("9"),
        (3, TimePeriod::AllTime, EntryType::Album, false)
    );
}

#[test]
fn flag_words_set_clean_anywhere() {
    assert!(parse_collage_arg("notext").3);
    assert!(parse_collage_arg("nonames").3);
    assert!(parse_collage_arg("4 1m clean").3);
    assert!(!parse_collage_arg("4 1m").3);
}

#[test]
fn entry_type_claimed_once() {
    assert_eq!(
        parse_collage_arg("track 5 artist"),
        (5, TimePeriod::AllTime, EntryType::Track, false)
    );
}

#[test]
fn render_round_trips_through_parse() {
    let sizes: Vec<u32> = vec![1, 2, 3, 4, 5, 6, 7];
    let periods = vec![
        TimePeriod::OneWeek,
        TimePeriod::OneMonth,
        TimePeriod::ThreeMonths,
        TimePeriod::SixMonths,
        TimePeriod::OneYear,
        TimePeriod::AllTime,
    ];
    let entries = vec![EntryType::Artist, EntryType::Album, EntryType::Track];
    for &size in &sizes {
        for &period in &periods {
            for &entry in &entries {
                for &clean in &[false, true] {
                    let phrase = render_collage_arg(size, &period, &entry, clean);
                    assert_eq!(
                        parse_collage_arg(phrase.as_str()),
                        (size, period, entry, clean),
                        "phrase was {:?}",
                        phrase
                    );
                }
            }
        }
    }
}

#[test]
fn render_produces_expected_phrase() {
    assert_eq!(
        render_collage_arg(5, &TimePeriod::OneMonth, &EntryType::Artist, true),
        "artist 5 1m clean"
    );
    assert_eq!(
        render_collage_arg(3, &TimePeriod::AllTime, &EntryType::Album, false),
        "album 3 all"
    );
}

#[test]
fn parse_is_idempotent_through_render() {
    for phrase in ["clean 4 alltime", "collage 5 1m", "artist", "", "3x3 7d"] {
        let parsed = parse_collage_arg(phrase);
        let rendered = render_collage_arg(parsed.0, &parsed.1, &parsed.2, parsed.3);
        assert_eq!(parse_collage_arg(rendered.as_str()), parsed);
    }
}
