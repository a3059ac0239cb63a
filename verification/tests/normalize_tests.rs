use spielerplus_sync::errors::SyncError;
use spielerplus_sync::normalize::format_local_datetime;
use spielerplus_sync::normalize::normalize_date;
use spielerplus_sync::normalize::parse_sp_timestring;

#[test]
fn time_morning() {
    assert_eq!(parse_sp_timestring("9:30 AM"), Some("09:30".to_string()));
}

#[test]
fn time_afternoon() {
    assert_eq!(parse_sp_timestring("2:15 PM"), Some("14:15".to_string()));
}

#[test]
fn time_sentinel_is_no_time() {
    assert_eq!(parse_sp_timestring("-:-"), None);
}

#[test]
fn time_noon_keeps_the_plus_twelve() {
    // No wraparound correction: noon comes out as 24:00, as the
    // site's consumers have always seen it.
    assert_eq!(parse_sp_timestring("12:00 PM"), Some("24:00".to_string()));
}

#[test]
fn time_midnight_label_stays_twelve() {
    assert_eq!(parse_sp_timestring("12:00 AM"), Some("12:00".to_string()));
}

#[test]
fn time_unknown_meridiem() {
    assert_eq!(parse_sp_timestring("9:30 XX"), None);
}

#[test]
fn time_missing_meridiem() {
    assert_eq!(parse_sp_timestring("9:30"), None);
}

#[test]
fn time_no_colon_in_first_token() {
    assert_eq!(parse_sp_timestring("930 AM"), None);
}

#[test]
fn time_surrounding_whitespace_tolerated() {
    assert_eq!(parse_sp_timestring("  7:05   AM  "), Some("07:05".to_string()));
}

#[test]
fn time_minutes_kept_verbatim() {
    assert_eq!(parse_sp_timestring("9:3 AM"), Some("09:3".to_string()));
}

#[test]
fn time_second_colon_cuts_minutes() {
    assert_eq!(parse_sp_timestring("9:30:45 AM"), Some("09:30".to_string()));
}

#[test]
fn time_hour_beyond_a_byte() {
    assert_eq!(parse_sp_timestring("300:00 AM"), None);
}

#[test]
fn time_empty_hour() {
    assert_eq!(parse_sp_timestring(":30 AM"), None);
}

#[test]
fn date_within_reference_year() {
    assert_eq!(normalize_date("05/12", 2024, 12), Ok((2024, 12, 5)));
}

#[test]
fn date_rolls_over_to_next_year() {
    assert_eq!(normalize_date("05/01", 2024, 12), Ok((2025, 1, 5)));
}

#[test]
fn date_mid_year_keeps_year() {
    assert_eq!(normalize_date("20/07", 2024, 6), Ok((2024, 7, 20)));
}

#[test]
fn date_missing_slash() {
    assert_eq!(normalize_date("0512", 2024, 12), Err(SyncError::MissingField));
}

#[test]
fn date_unreadable_month() {
    assert_eq!(normalize_date("05/xx", 2024, 12), Err(SyncError::MissingField));
}

#[test]
fn date_unreadable_day() {
    assert_eq!(normalize_date("xx/12", 2024, 12), Err(SyncError::MissingField));
}

#[test]
fn date_second_slash_cuts_month() {
    assert_eq!(normalize_date("05/12/99", 2024, 12), Ok((2024, 12, 5)));
}

#[test]
fn datetime_combination() {
    assert_eq!(
        format_local_datetime(2024, 12, 5, "19:30"),
        "2024-12-05T19:30:00"
    );
}

#[test]
fn datetime_pads_month_and_day() {
    assert_eq!(format_local_datetime(2025, 1, 7, "08:05"), "2025-01-07T08:05:00");
}
