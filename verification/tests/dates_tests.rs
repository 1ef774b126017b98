use scrobble_core::dates::epoch_to_civil;
use scrobble_core::dates::format_epoch_secs;

#[test]
fn epoch_start() {
    assert_eq!(epoch_to_civil(0), (1970, 1, 1));
    assert_eq!(format_epoch_secs(0, false), "1970-01-01");
    assert_eq!(format_epoch_secs(0, true), "1970-01-01 00:00:00");
}

#[test]
fn day_boundaries() {
    assert_eq!(format_epoch_secs(86399, true), "1970-01-01 23:59:59");
    assert_eq!(format_epoch_secs(86400, true), "1970-01-02 00:00:00");
}

#[test]
fn leap_day_of_a_leap_century() {
    // 2000 is divisible by 400 and keeps its February 29th.
    assert_eq!(epoch_to_civil(951782400), (2000, 2, 29));
    assert_eq!(format_epoch_secs(951782400, false), "2000-02-29");
}

#[test]
fn skipped_leap_day_of_a_plain_century() {
    // 2100 is divisible by 100 but not 400: February ends on the 28th.
    assert_eq!(format_epoch_secs(4107542399, true), "2100-02-28 23:59:59");
    assert_eq!(format_epoch_secs(4107542400, false), "2100-03-01");
}

#[test]
fn a_full_timestamp() {
    assert_eq!(format_epoch_secs(1700000000, true), "2023-11-14 22:13:20");
    assert_eq!(format_epoch_secs(1700000000, false), "2023-11-14");
}

#[test]
fn far_future_years_render_unpadded() {
    assert_eq!(format_epoch_secs(253402300799, true), "9999-12-31 23:59:59");
    assert_eq!(epoch_to_civil(253402300800).0, 10000);
}
