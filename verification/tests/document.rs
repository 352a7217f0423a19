use flupp::error::Error;
use flupp::File;

fn doc(version: &str, header: &str, logs: &[&str]) -> String {
    let mut s = String::new();
    s.push_str(version);
    s.push('\n');
    s.push_str(header);
    for log in logs {
        s.push_str("\n:");
        s.push_str(log);
    }
    s
}

const SIMPLE_LOG: &str = "Title\n[LicSettings]0\n[TableCols]Dat;StT;LaT\n01.02.23;08:45;09:15\n";

#[test]
fn version_3_rejected_with_exact_token() {
    let text = doc("3", "h", &[SIMPLE_LOG]);
    match File::from_str(&text).unwrap_err() {
        Error::UnsupportedFileVersion(raw) => assert_eq!(raw, "3"),
        other => panic!("wrong error: {:?}", other),
    }
}

#[test]
fn version_5_rejected_with_exact_token() {
    let text = doc("5", "h", &[SIMPLE_LOG]);
    match File::from_str(&text).unwrap_err() {
        Error::UnsupportedFileVersion(raw) => assert_eq!(raw, "5"),
        other => panic!("wrong error: {:?}", other),
    }
}

#[test]
fn version_4_with_trailing_spaces_succeeds() {
    let text = doc("4   ", "h", &[SIMPLE_LOG]);
    assert!(File::from_str(&text).is_ok());
    let text = doc("  4\t", "h", &[SIMPLE_LOG]);
    assert!(File::from_str(&text).is_ok());
}

#[test]
fn missing_version_line_break_is_invalid() {
    assert!(matches!(File::from_str("4"), Err(Error::InvalidFile)));
}

#[test]
fn missing_log_delimiter_is_invalid() {
    assert!(matches!(
        File::from_str("4\nheader only, no log region"),
        Err(Error::InvalidFile)
    ));
}

#[test]
fn row_with_one_field_fewer_than_header_is_invalid() {
    let log = "Title\n[LicSettings]0\n[TableCols]Dat;StT;LaT\n01.02.23;08:45\n";
    let text = doc("4", "h", &[log]);
    assert!(matches!(File::from_str(&text), Err(Error::InvalidFile)));
}

#[test]
fn aid_list_drops_empty_tokens_keeps_order() {
    let log = "Title\n[LicSettings]0\n[AId]A;B;;C\n[TableCols]Dat;StT;LaT\n";
    let text = doc("4", "h", &[log]);
    let file = File::from_str(&text).unwrap();
    assert_eq!(file.flight_logs[0].aircraft_ids, vec!["A", "B", "C"]);
}

#[test]
fn last_general_settings_line_wins() {
    let header = "[GenSettings]First;;;\nmiddle\n[GenSettings]Second;Road;;";
    let text = doc("4", header, &[SIMPLE_LOG]);
    let file = File::from_str(&text).unwrap();
    let gs = file.general_settings.unwrap();
    assert_eq!(gs.name, "Second");
    assert_eq!(gs.road, "Road");
}

#[test]
fn no_general_settings_is_not_an_error() {
    let text = doc("4", "just a line", &[SIMPLE_LOG]);
    let file = File::from_str(&text).unwrap();
    assert!(file.general_settings.is_none());
}

#[test]
fn last_marker_list_line_wins() {
    let log = "Title\n[LicSettings]0\n[AId]Old\n[AId]New;Two\n[TableCols]Dat;StT;LaT\n";
    let text = doc("4", "h", &[log]);
    let file = File::from_str(&text).unwrap();
    assert_eq!(file.flight_logs[0].aircraft_ids, vec!["New", "Two"]);
}

#[test]
fn unknown_column_key_is_ignored() {
    let log = "Title\n[LicSettings]0\n[TableCols]Dat;Xyz;StT;LaT\n01.02.23;whatever;08:45;09:15\n";
    let text = doc("4", "h", &[log]);
    let file = File::from_str(&text).unwrap();
    let f = &file.flight_logs[0].flights[0];
    assert_eq!((f.date.day, f.date.month, f.date.year), (1, 2, 23));
    assert_eq!(f.start_time.hour, 8);
    assert_eq!(f.landing_time.minute, 15);
}

#[test]
fn aircraft_type_alias_spellings_agree() {
    let modern = "T\n[LicSettings]0\n[TableCols]Dat;StT;LaT;ATy\n01.02.23;08:45;09:15;ASK 21\n";
    let legacy = "T\n[LicSettings]0\n[TableCols]Dat;StT;LaT;Mus\n01.02.23;08:45;09:15;ASK 21\n";
    let a = File::from_str(&doc("4", "h", &[modern])).unwrap();
    let b = File::from_str(&doc("4", "h", &[legacy])).unwrap();
    let fa = &a.flight_logs[0].flights[0];
    let fb = &b.flight_logs[0].flights[0];
    assert_eq!(fa.aircraft_type, "ASK 21");
    assert_eq!(fa.aircraft_type, fb.aircraft_type);
}

#[test]
fn header_only_table_gives_empty_flight_list() {
    let log = "Title\n[LicSettings]0\n[TableCols]Dat;StT;LaT\n";
    let text = doc("4", "h", &[log]);
    let file = File::from_str(&text).unwrap();
    assert!(file.flight_logs[0].flights.is_empty());
}

#[test]
fn missing_license_settings_line() {
    let log = "Title\n[TableCols]Dat;StT;LaT\n";
    let text = doc("4", "h", &[log]);
    assert!(matches!(
        File::from_str(&text),
        Err(Error::MissingLicSettings)
    ));
}

#[test]
fn missing_table_marker_is_invalid() {
    let log = "Title\n[LicSettings]0\nno table here\n";
    let text = doc("4", "h", &[log]);
    assert!(matches!(File::from_str(&text), Err(Error::InvalidFile)));
}

#[test]
fn title_is_cut_at_first_semicolon() {
    let log = "My Log;rest;more\n[LicSettings]0\n[TableCols]Dat;StT;LaT\n";
    let text = doc("4", "h", &[log]);
    let file = File::from_str(&text).unwrap();
    assert_eq!(file.flight_logs[0].title, "My Log");
}

#[test]
fn several_logs_in_order() {
    let log1 = "One\n[LicSettings]0\n[TableCols]Dat;StT;LaT\n";
    let log2 = "Two\n[LicSettings]3\n[TableCols]Dat;StT;LaT\n";
    let text = doc("4", "h", &[log1, log2]);
    let file = File::from_str(&text).unwrap();
    assert_eq!(file.flight_logs.len(), 2);
    assert_eq!(file.flight_logs[0].title, "One");
    assert_eq!(file.flight_logs[1].title, "Two");
    assert_eq!(file.flight_logs[1].license_settings.bf_starts, 3);
}

#[test]
fn full_modern_row_decodes_every_field() {
    let log = "T\n[LicSettings]0\n[TableCols]Num;Dat;ATy;AId;Pi1;Pi2;Pas;ToS;StT;LaT;FlT;StB;LaB;BlT;NoL;StL;LaL;Rem;Dst;Cat\n\
        7;01.02.23;ASK 21;D-1234;Alice;Bob;1;W;08:45;09:15;0:30;08:40;09:20;0:40;2;Here;There;ok;12.5;A/B\n";
    let text = doc("4", "h", &[log]);
    let file = File::from_str(&text).unwrap();
    let f = &file.flight_logs[0].flights[0];
    assert_eq!(f.number, Some(7));
    assert_eq!((f.date.day, f.date.month, f.date.year), (1, 2, 23));
    assert_eq!(f.aircraft_type, "ASK 21");
    assert_eq!(f.aircraft_id, "D-1234");
    assert_eq!(f.pilot_name, "Alice");
    assert_eq!(f.copilot_name, "Bob");
    assert_eq!(f.num_passengers, 1);
    assert_eq!(f.start_type, "W");
    assert_eq!((f.start_time.hour, f.start_time.minute), (8, 45));
    assert_eq!((f.landing_time.hour, f.landing_time.minute), (9, 15));
    assert_eq!(f.flight_time.minutes, 30);
    assert_eq!(f.block_on_time.unwrap().minute, 40);
    assert_eq!(f.block_off_time.unwrap().minute, 20);
    assert_eq!(f.block_time.unwrap().minutes, 40);
    assert_eq!(f.num_landings, 2);
    assert_eq!(f.start_location, "Here");
    assert_eq!(f.landing_location, "There");
    assert_eq!(f.remarks, "ok");
    assert_eq!(f.distance.as_deref(), Some("12.5"));
    assert_eq!(f.categories, vec!["A", "B"]);
}

#[test]
fn full_legacy_row_decodes_every_field() {
    let log = "T\n[LicSettings]0\n[TableCols]Dat;Mus;Ken;Pil;Beg;Art;StZ;LaZ;FlZ;BlZ;AFl;StO;LaO;Bem;Str;Kat\n\
        01.02.23;LS4;D-5678;Carol;Dan;F;10:00;11:00;1:00;1:10;1;A;B;note;99;X//Y\n";
    let text = doc("4", "h", &[log]);
    let file = File::from_str(&text).unwrap();
    let f = &file.flight_logs[0].flights[0];
    assert_eq!(f.aircraft_type, "LS4");
    assert_eq!(f.aircraft_id, "D-5678");
    assert_eq!(f.pilot_name, "Carol");
    assert_eq!(f.copilot_name, "Dan");
    assert_eq!(f.start_type, "F");
    assert_eq!(f.flight_time.minutes, 60);
    assert_eq!(f.block_time.unwrap().minutes, 70);
    assert_eq!(f.num_landings, 1);
    assert_eq!(f.start_location, "A");
    assert_eq!(f.landing_location, "B");
    assert_eq!(f.remarks, "note");
    assert_eq!(f.distance.as_deref(), Some("99"));
    assert_eq!(f.categories, vec!["X", "Y"]);
}

#[test]
fn row_defaults_apply() {
    let log = "T\n[LicSettings]0\n[TableCols]Dat;StT;LaT;Dst\n01.02.23;08:45;09:15;\n";
    let text = doc("4", "h", &[log]);
    let file = File::from_str(&text).unwrap();
    let f = &file.flight_logs[0].flights[0];
    assert_eq!(f.number, None);
    assert_eq!(f.num_passengers, 0);
    assert_eq!(f.num_landings, 1);
    assert_eq!(f.flight_time.minutes, 0);
    assert!(f.block_on_time.is_none());
    assert!(f.block_time.is_none());
    assert!(f.distance.is_none());
    assert!(f.categories.is_empty());
    assert_eq!(f.aircraft_type, "");
}

#[test]
fn missing_required_date_is_invalid() {
    let log = "T\n[LicSettings]0\n[TableCols]StT;LaT\n08:45;09:15\n";
    let text = doc("4", "h", &[log]);
    assert!(matches!(File::from_str(&text), Err(Error::InvalidFile)));
}

#[test]
fn bad_time_in_row_carries_raw_value() {
    let log = "T\n[LicSettings]0\n[TableCols]Dat;StT;LaT\n01.02.23;8h45;09:15\n";
    let text = doc("4", "h", &[log]);
    match File::from_str(&text).unwrap_err() {
        Error::InvalidTime(raw) => assert_eq!(raw, "8h45"),
        other => panic!("wrong error: {:?}", other),
    }
}

#[test]
fn bad_date_in_row_carries_raw_value() {
    let log = "T\n[LicSettings]0\n[TableCols]Dat;StT;LaT\n32.01.23;08:45;09:15\n";
    let text = doc("4", "h", &[log]);
    match File::from_str(&text).unwrap_err() {
        Error::InvalidDate(raw) => assert_eq!(raw, "32.01.23"),
        other => panic!("wrong error: {:?}", other),
    }
}

#[test]
fn crlf_line_endings_are_handled() {
    let text = "4\r\nh\r\n:T\r\n[LicSettings]0\r\n[AId]A;B\r\n[TableCols]Dat;StT;LaT\r\n01.02.23;08:45;09:15\r\n";
    let file = File::from_str(text).unwrap();
    assert_eq!(file.flight_logs[0].aircraft_ids, vec!["A", "B"]);
    assert_eq!(file.flight_logs[0].flights.len(), 1);
}

#[test]
fn from_slice_decodes_the_legacy_codepage() {
    // 0x80 is the euro sign in the legacy codepage, not U+0080.
    let mut bytes = Vec::new();
    bytes.extend_from_slice(b"4\nh\n:Caf\x80\n[LicSettings]0\n[TableCols]Dat;StT;LaT\n");
    let file = File::from_slice(&bytes).unwrap();
    assert_eq!(file.flight_logs[0].title, "Caf\u{20ac}");
}

fn doc_with_distance(value: &str) -> String {
    let log = format!(
        "T\n[LicSettings]0\n[TableCols]Dat;StT;LaT;Dst\n01.02.23;08:00;09:00;{}\n",
        value
    );
    doc("4", "h", &[&log])
}

#[test]
fn non_float_distance_fails_the_parse() {
    let text = doc_with_distance("x");
    assert!(matches!(File::from_str(&text), Err(Error::InvalidFile)));
}

#[test]
fn float_distance_forms_are_accepted_and_kept_raw() {
    for value in [
        "12.5", "1e3", ".5", "1.", "-inf", "NaN", "iNfInItY", "+5", "1e+3", "-0.5E-2",
    ] {
        let text = doc_with_distance(value);
        let file = File::from_str(&text).unwrap_or_else(|e| panic!("{value}: {e:?}"));
        let f = &file.flight_logs[0].flights[0];
        assert_eq!(f.distance.as_deref(), Some(value));
    }
}

#[test]
fn malformed_distance_forms_are_rejected() {
    for value in ["1.2.3", "1e", "e5", "+", "in", "1 ", "nan2", "--1", "1f"] {
        let text = doc_with_distance(value);
        assert!(
            matches!(File::from_str(&text), Err(Error::InvalidFile)),
            "{value} should be rejected"
        );
    }
}

#[test]
fn empty_lines_between_rows_are_no_data_rows() {
    let log = "T\n[LicSettings]0\n[TableCols]Dat;StT;LaT\n01.02.23;08:45;09:15\n\n02.02.23;10:00;11:00\n";
    let text = doc("4", "h", &[log]);
    let file = File::from_str(&text).unwrap();
    assert_eq!(file.flight_logs[0].flights.len(), 2);
    assert_eq!(file.flight_logs[0].flights[1].date.day, 2);
}
