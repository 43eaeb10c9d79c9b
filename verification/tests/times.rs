use crates_io::times::{
    normalize_crates_datetime, parse_crates_datetime, parse_pubtime_rfc3339, remove_all, Timestamp,
};

fn at(secs: i64, nanos: u32) -> Option<Timestamp> {
    Some(Timestamp { secs, nanos })
}

#[test]
fn publication_times_are_in_utc() {
    assert_eq!(parse_pubtime_rfc3339("2026-01-15T12:53:12Z"), at(1768481592, 0));
    assert_eq!(
        parse_pubtime_rfc3339("2026-01-15T14:53:12.25+02:00"),
        at(1768481592, 250_000_000)
    );
    assert_eq!(parse_pubtime_rfc3339("2026-01-15 nonsense"), None);
    assert_eq!(parse_pubtime_rfc3339(""), None);
}

#[test]
fn crate_list_times_are_made_readable() {
    let read = |raw: &str| normalize_crates_datetime(raw);
    assert_eq!(
        read(" \"1/2/2020 03:04:05.-1f+00\" ").as_deref(),
        Some("1/2/2020 03:04:05+0000")
    );
    assert_eq!(read("01/02/2020 03:04:05+0130").as_deref(), Some("01/02/2020 03:04:05+0130"));
    assert_eq!(read("a-1").as_deref(), Some("a-1"));
    assert_eq!(read("a-b+12").as_deref(), Some("a-b+1200"));
    assert_eq!(read("a-12+").as_deref(), Some("a-12+"));
    assert_eq!(read("abc").as_deref(), Some("abc"));
    assert_eq!(read("-\u{661}\u{662}").as_deref(), Some("-\u{661}\u{662}"));
    assert_eq!(read("\"\""), None);
    assert_eq!(read("  "), None);
    assert_eq!(read(".-1f").as_deref(), Some(""));
}

#[test]
fn crate_list_times_are_in_utc() {
    assert_eq!(parse_crates_datetime("\"15/01/2026 12:53:12.-1f+00\""), at(1768481592, 0));
    assert_eq!(parse_crates_datetime("15/01/2026 14:53:12+02"), at(1768481592, 0));
    assert_eq!(parse_crates_datetime("15/01/2026 10:53:12-0200"), at(1768481592, 0));
    assert_eq!(parse_crates_datetime("2026-01-15 12:53:12+00"), None);
    assert_eq!(parse_crates_datetime(""), None);
}

#[test]
fn marks_are_removed_from_left_to_right() {
    for (s, part) in [
        ("a.-1fb.-1f", ".-1f"),
        (".-.-1f1f", ".-1f"),
        ("aaa", "aa"),
        ("abc", "x"),
        ("", "x"),
    ] {
        assert_eq!(remove_all(s, part), s.replace(part, ""));
    }
}

#[test]
fn hours_alone_stand_for_a_full_offset() {
    for (hours, full) in [
        ("15/01/2026 14:53:12+02", "15/01/2026 14:53:12+0200"),
        (" \"15/01/2026 12:53:12.-1f+00\"", "15/01/2026 12:53:12.-1f+0000"),
    ] {
        assert_eq!(normalize_crates_datetime(hours), normalize_crates_datetime(full));
        assert_eq!(parse_crates_datetime(hours), parse_crates_datetime(full));
        assert_eq!(parse_crates_datetime(hours), at(1768481592, 0));
    }
}
