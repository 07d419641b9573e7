//! Unit scenarios for the decoders and the display computations.

use ofx_parser::OfxParser;
use ofx_parser::amount::Amount;
use ofx_parser::amount::parse_amount;
use ofx_parser::datetime::OfxDateTime;
use ofx_parser::display::human_date;
use ofx_parser::display::select_position;
use ofx_parser::error::OfxError;

#[test]
fn datetime_decodes_negative_offset() {
    let dt = OfxParser::parse_custom_datetime("20250604000000[-3:BRT]").unwrap();
    assert_eq!(
        dt,
        OfxDateTime {
            year: 2025,
            month: 6,
            day: 4,
            hour: 0,
            minute: 0,
            second: 0,
            offset_hours: -3,
        },
    );
}

#[test]
fn datetime_round_trips_for_various_offsets() {
    // Writing a local time and an hour offset into the OFX notation and
    // decoding it hands back exactly those fields.
    for &(h, tag) in &[(0i32, "+0"), (0, "0"), (5, "5"), (-23, "-23"), (23, "23"), (-1, "-1")] {
        let text = format!("20231231235959[{tag}:ANY]");
        let dt = OfxParser::parse_custom_datetime(&text).unwrap();
        assert_eq!(dt.year, 2023);
        assert_eq!(dt.month, 12);
        assert_eq!(dt.day, 31);
        assert_eq!(dt.hour, 23);
        assert_eq!(dt.minute, 59);
        assert_eq!(dt.second, 59);
        assert_eq!(dt.offset_hours, h);
    }
}

#[test]
fn datetime_without_bracket_is_rejected() {
    let e = OfxParser::parse_custom_datetime("20250604000000").unwrap_err();
    assert_eq!(e, "Invalid date format");
}

#[test]
fn datetime_with_unparsable_offset_is_rejected() {
    let e = OfxParser::parse_custom_datetime("20250604000000[x:BRT]").unwrap_err();
    assert_eq!(e, "Unable to parse hour offset");
    let e = OfxParser::parse_custom_datetime("20250604000000[:BRT]").unwrap_err();
    assert_eq!(e, "Unable to parse hour offset");
}

#[test]
fn datetime_with_bad_calendar_or_offset_is_rejected() {
    // Month 13 is no date.
    assert!(OfxParser::parse_custom_datetime("20251301000000[-3:X]").is_err());
    // February 30th is no date either.
    assert!(OfxParser::parse_custom_datetime("20250230000000[-3:X]").is_err());
    // An offset beyond a day's reach is rejected.
    assert!(OfxParser::parse_custom_datetime("20250604000000[24:X]").is_err());
    assert!(OfxParser::parse_custom_datetime("20250604000000[-24:X]").is_err());
    // Too few digits.
    assert!(OfxParser::parse_custom_datetime("202506040000[-3:X]").is_err());
}

#[test]
fn datetime_leap_day_accepted_only_in_leap_years() {
    assert!(OfxParser::parse_custom_datetime("20240229000000[0:X]").is_ok());
    assert!(OfxParser::parse_custom_datetime("20250229000000[0:X]").is_err());
    assert!(OfxParser::parse_custom_datetime("20000229000000[0:X]").is_ok());
    assert!(OfxParser::parse_custom_datetime("19000229000000[0:X]").is_err());
}

#[test]
fn amount_parses_exactly() {
    assert_eq!(
        parse_amount("-100.00"),
        Some(Amount { negative: true, mantissa: 10000, scale: 2 }),
    );
    assert_eq!(
        parse_amount("2000.00"),
        Some(Amount { negative: false, mantissa: 200000, scale: 2 }),
    );
    assert_eq!(parse_amount("0"), Some(Amount { negative: false, mantissa: 0, scale: 0 }));
    assert_eq!(parse_amount("+1.5"), Some(Amount { negative: false, mantissa: 15, scale: 1 }));
    assert_eq!(parse_amount(".25"), Some(Amount { negative: false, mantissa: 25, scale: 2 }));
    assert_eq!(parse_amount("7."), Some(Amount { negative: false, mantissa: 7, scale: 0 }));
    assert_eq!(parse_amount(""), None);
    assert_eq!(parse_amount("-"), None);
    assert_eq!(parse_amount("."), None);
    assert_eq!(parse_amount("1.2.3"), None);
    assert_eq!(parse_amount("12a"), None);
}

#[test]
fn header_decodes_directly() {
    let h = OfxParser::parse_header(
        "OFXHEADER:100\r\nDATA:OFXSGML\r\nVERSION:102\r\nSECURITY:NONE\r\nNEWFILEUID:NONE\r\n",
    )
    .unwrap();
    assert_eq!(h.version, "102");
    assert_eq!(h.security.as_deref(), Some("NONE"));
    assert_eq!(h.new_file_uid.as_deref(), Some("NONE"));
    assert_eq!(h.encoding, None);
    assert_eq!(h.old_file_uid, None);
}

#[test]
fn header_values_are_trimmed() {
    let h = OfxParser::parse_header("OFXHEADER: 100 \nVERSION:\t102\nCHARSET:  1252  \n").unwrap();
    assert_eq!(h.version, "102");
    assert_eq!(h.charset.as_deref(), Some("1252"));
}

#[test]
fn error_messages_name_their_kind() {
    assert_eq!(
        OfxError::InvalidVersion(String::from("200")).message(),
        "Invalid OFX version: 200",
    );
    assert_eq!(
        OfxError::MissingHeader(String::from("VERSION")).message(),
        "Missing required header: VERSION",
    );
    assert_eq!(
        OfxError::InvalidContent(String::from("No valid header found")).message(),
        "Invalid content: No valid header found",
    );
    assert_eq!(
        OfxError::InvalidDateFormat(String::from("x")).message(),
        "Invalid date format: x",
    );
    assert_eq!(OfxError::Io(String::from("gone")).message(), "IO error: gone");
    assert_eq!(
        OfxError::UnsupportedFeature(String::from("investment")).message(),
        "Unsupported OFX feature: investment",
    );
    assert_eq!(OfxError::Xml(String::from("bad")).message(), "XML parsing error: bad");
}

#[test]
fn human_date_formats_eight_digits() {
    assert_eq!(human_date("20250604"), "2025-06-04");
    assert_eq!(human_date("20250604120000"), "2025-06-04");
    assert_eq!(human_date("2025"), "2025");
    assert_eq!(human_date(""), "");
}

#[test]
fn select_position_clamps_and_scrolls() {
    // Selection clamps into the row count.
    assert_eq!(select_position(10, 99, 0, 5), (9, 5));
    // Moving above the window scrolls up to the selection.
    assert_eq!(select_position(10, 1, 3, 5), (1, 1));
    // Moving inside the window keeps the scroll.
    assert_eq!(select_position(10, 4, 3, 5), (4, 3));
    // Moving below the window scrolls just enough.
    assert_eq!(select_position(10, 8, 0, 5), (8, 4));
    // An empty table pins everything at the top.
    assert_eq!(select_position(0, 7, 2, 5), (0, 0));
}

#[test]
fn sentinel_is_epoch() {
    let dt = OfxDateTime::default();
    assert_eq!(
        dt,
        OfxDateTime { year: 1970, month: 1, day: 1, hour: 0, minute: 0, second: 0, offset_hours: 0 },
    );
}
