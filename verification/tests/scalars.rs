use flupp::error::Error;
use flupp::scalars::{parse_date, parse_duration, parse_time};
use flupp::settings::{GeneralSettings, LicenseSettings};

#[test]
fn duration_with_colon() {
    let d = parse_duration("2:30").unwrap();
    assert_eq!(d.minutes, 150);
}

#[test]
fn duration_without_colon_is_hours() {
    let d = parse_duration("5").unwrap();
    assert_eq!(d.minutes, 300);
}

#[test]
fn duration_negative() {
    let d = parse_duration("-1:30").unwrap();
    assert_eq!(d.minutes, -30);
}

#[test]
fn duration_malformed() {
    let e = parse_duration("2:xx").unwrap_err();
    match e {
        Error::InvalidDuration(raw) => assert_eq!(raw, "2:xx"),
        other => panic!("wrong error: {:?}", other),
    }
}

#[test]
fn date_two_digit_year_is_literal() {
    let d = parse_date("01.02.23").unwrap();
    assert_eq!(d.day, 1);
    assert_eq!(d.month, 2);
    assert_eq!(d.year, 23);
}

#[test]
fn date_leap_day() {
    assert!(parse_date("29.02.2024").is_ok());
    let e = parse_date("29.02.2023").unwrap_err();
    match e {
        Error::InvalidDate(raw) => assert_eq!(raw, "29.02.2023"),
        other => panic!("wrong error: {:?}", other),
    }
}

#[test]
fn date_month_out_of_range() {
    assert!(matches!(parse_date("01.13.23"), Err(Error::InvalidDate(_))));
    assert!(matches!(parse_date("0.1.23"), Err(Error::InvalidDate(_))));
    assert!(matches!(parse_date("1.2"), Err(Error::InvalidDate(_))));
}

#[test]
fn time_of_day() {
    let t = parse_time("08:45").unwrap();
    assert_eq!((t.hour, t.minute, t.second), (8, 45, 0));
}

#[test]
fn time_out_of_range() {
    assert!(matches!(parse_time("24:00"), Err(Error::InvalidTime(_))));
    assert!(matches!(parse_time("12:60"), Err(Error::InvalidTime(_))));
    assert!(matches!(parse_time("0845"), Err(Error::InvalidTime(_))));
}

#[test]
fn general_settings_fields_and_defaults() {
    let gs = GeneralSettings::from_str("Club;Way 1;Town;Jo");
    assert_eq!(gs.name, "Club");
    assert_eq!(gs.road, "Way 1");
    assert_eq!(gs.location, "Town");
    assert_eq!(gs.pilot_name, "Jo");

    let gs = GeneralSettings::from_str("Club");
    assert_eq!(gs.name, "Club");
    assert_eq!(gs.road, "");
    assert_eq!(gs.location, "");
    assert_eq!(gs.pilot_name, "");

    let gs = GeneralSettings::from_str("");
    assert_eq!(gs.name, "");
}

#[test]
fn license_settings_positions() {
    let ls = LicenseSettings::from_str("5;2:30;skip;01.02.23;D-;r1;r2;r3;km").unwrap();
    assert_eq!(ls.bf_starts, 5);
    assert_eq!(ls.bf_time.minutes, 150);
    let since = ls.license_since.unwrap();
    assert_eq!((since.day, since.month, since.year), (1, 2, 23));
    assert_eq!(ls.id_prefix, "D-");
    assert_eq!(ls.distance_unit, "km");
}

#[test]
fn license_settings_defaults() {
    let ls = LicenseSettings::from_str("0").unwrap();
    assert_eq!(ls.bf_starts, 0);
    assert_eq!(ls.bf_time.minutes, 0);
    assert!(ls.license_since.is_none());
    assert_eq!(ls.id_prefix, "");
    assert_eq!(ls.distance_unit, "");
}

#[test]
fn license_settings_bad_start_count() {
    let e = LicenseSettings::from_str("abc;2:30").unwrap_err();
    match e {
        Error::InvalidLicSettings(raw) => assert_eq!(raw, "abc;2:30"),
        other => panic!("wrong error: {:?}", other),
    }
}

#[test]
fn license_settings_bad_duration_and_date() {
    assert!(matches!(
        LicenseSettings::from_str("1;x"),
        Err(Error::InvalidDuration(_))
    ));
    assert!(matches!(
        LicenseSettings::from_str("1;2:30;skip;nodate"),
        Err(Error::InvalidDate(_))
    ));
}
