use sense_maxer::civil::{civil_from_days, utc_date_from_unix_ms};
use sense_maxer::ids::{
    aim_trial_id, database_path, format_target_id, next_aim_sequence, next_config_id,
    next_sequence, next_session_id,
    parse_u32_from, push_padded,
};

#[test]
fn ids_are_stable_and_zero_padded() {
    assert_eq!(next_session_id("20260917", 1), "session_20260917_000001");
    assert_eq!(next_config_id(42), "config_000042");
}

#[test]
fn utc_date_is_derived_without_locale() {
    assert_eq!(utc_date_from_unix_ms(0), "19700101");
    assert_eq!(utc_date_from_unix_ms(1_788_998_400_000), "20260910");
}

#[test]
fn utc_date_before_the_epoch_floors_to_the_previous_day() {
    assert_eq!(utc_date_from_unix_ms(-1), "19691231");
    assert_eq!(utc_date_from_unix_ms(-86_400_000), "19691231");
    assert_eq!(utc_date_from_unix_ms(-86_400_001), "19691230");
}

#[test]
fn utc_date_handles_leap_days() {
    // 2024-02-29T12:00:00Z
    assert_eq!(utc_date_from_unix_ms(1_709_208_000_000), "20240229");
    // 2000-03-01T00:00:00Z (2000 is a leap year)
    assert_eq!(utc_date_from_unix_ms(951_868_800_000), "20000301");
    // 1900-03-01 is 25 508 days before the epoch; 1900 is not a leap year.
    assert_eq!(civil_from_days(-25_508), (1900, 3, 1));
    assert_eq!(civil_from_days(-25_509), (1900, 2, 28));
}

#[test]
fn negative_years_keep_a_sign_and_three_digits() {
    // Day 0 of year 0 is 1970 * 365.2425 days back; year -1 ends one day earlier.
    let (y, m, d) = civil_from_days(-719_529);
    assert_eq!((y, m, d), (-1, 12, 31));
    let ms = -719_529i64 * 86_400_000;
    assert_eq!(utc_date_from_unix_ms(ms), "-0011231");
}

#[test]
fn civil_from_days_round_trips_the_epoch() {
    assert_eq!(civil_from_days(0), (1970, 1, 1));
    assert_eq!(civil_from_days(31), (1970, 2, 1));
    assert_eq!(civil_from_days(365), (1971, 1, 1));
}

#[test]
fn other_ids_use_their_own_prefix_and_width() {
    assert_eq!(format_target_id(7), "target_007");
    assert_eq!(format_target_id(1234), "target_1234");
    assert_eq!(aim_trial_id("20260101", 12), "aim_20260101_000012");
    assert_eq!(next_config_id(1_234_567), "config_1234567");
    assert_eq!(database_path(), "data/sense_maxer.db");
}

#[test]
fn push_padded_appends() {
    let mut s = String::from("x");
    push_padded(&mut s, 5, 3);
    assert_eq!(s, "x005");
    push_padded(&mut s, 0, 0);
    assert_eq!(s, "x0050");
}

#[test]
fn parse_accepts_digits_and_an_optional_plus() {
    assert_eq!(parse_u32_from("config_000042", 7), Some(42));
    assert_eq!(parse_u32_from("+17", 0), Some(17));
    assert_eq!(parse_u32_from("4294967295", 0), Some(u32::MAX));
    assert_eq!(parse_u32_from("4294967296", 0), None);
    assert_eq!(parse_u32_from("", 0), None);
    assert_eq!(parse_u32_from("+", 0), None);
    assert_eq!(parse_u32_from("12a", 0), None);
    assert_eq!(parse_u32_from("-1", 0), None);
}

#[test]
fn next_sequence_is_one_past_the_highest_matching_id() {
    let ids: Vec<String> = vec![
        "config_000003".into(),
        "config_000010".into(),
        "session_20260101_000099".into(),
        "config_abc".into(),
    ];
    assert_eq!(next_sequence(&ids, "config_"), Ok(11));
    assert_eq!(next_sequence(&ids, "session_20260101_"), Ok(100));
    assert_eq!(next_sequence(&ids, "aim_"), Ok(1));
    assert_eq!(next_sequence(&Vec::new(), "config_"), Ok(1));
}

#[test]
fn next_sequence_errs_when_exhausted() {
    let ids: Vec<String> = vec!["config_4294967295".into()];
    assert_eq!(
        next_sequence(&ids, "config_"),
        Err("ID sequence exhausted for config_".to_string())
    );
}

#[test]
fn aim_trial_ids_follow_the_highest_of_the_day() {
    let ids: Vec<String> = vec!["aim_20260918_000001".into(), "aim_20260918_000007".into()];
    assert_eq!(next_aim_sequence(&ids, "aim_20260918_"), Ok(8));
    assert_eq!(next_aim_sequence(&ids, "aim_20260919_"), Ok(1));
    let full: Vec<String> = vec!["aim_20260918_4294967295".into()];
    assert_eq!(
        next_aim_sequence(&full, "aim_20260918_"),
        Err("aim trial ID sequence exhausted for aim_20260918_".to_string())
    );
}
