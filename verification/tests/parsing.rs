//! Text-level parsing: chapters, visit counts, counters, dates, identifiers.

use ao3_opds::dates::AoDate;
use ao3_opds::history::{parse_history_block, Changed};
use ao3_opds::text::{parse_count, visited_count};
use ao3_opds::work::{parse_chapters, work_id_from_uri, Chapters};
use ao3_opds::ExtractError;

#[test]
fn chapters_known_round_trip() {
    assert_eq!(parse_chapters("3/10").unwrap(), Chapters::Known(3, 10));
    assert_eq!(parse_chapters("1/1").unwrap(), Chapters::Known(1, 1));
    assert_eq!(parse_chapters("0/0").unwrap(), Chapters::Known(0, 0));
    assert_eq!(parse_chapters("4294967295/4294967295").unwrap(),
        Chapters::Known(u32::MAX, u32::MAX));
}

#[test]
fn chapters_unknown_total() {
    assert_eq!(parse_chapters("12/?").unwrap(), Chapters::Unknown(12));
    assert_eq!(parse_chapters("3/").unwrap(), Chapters::Unknown(3));
    assert_eq!(parse_chapters("3/10/x").unwrap(), Chapters::Unknown(3));
    assert_eq!(parse_chapters("7/99999999999").unwrap(), Chapters::Unknown(7));
}

#[test]
fn chapters_total_below_written_reads_as_unknown() {
    // a known total is never below the written count
    assert_eq!(parse_chapters("10/3").unwrap(), Chapters::Unknown(10));
    assert_eq!(parse_chapters("4/3").unwrap(), Chapters::Unknown(4));
    assert_eq!(parse_chapters("3/3").unwrap(), Chapters::Known(3, 3));
}

#[test]
fn chapters_rejected() {
    assert!(matches!(parse_chapters("abc"), Err(ExtractError::NotNumeric)));
    assert!(matches!(parse_chapters(""), Err(ExtractError::NotNumeric)));
    assert!(matches!(parse_chapters("/5"), Err(ExtractError::NotNumeric)));
    assert!(matches!(parse_chapters("x/5"), Err(ExtractError::NotNumeric)));
}

#[test]
fn visit_counts() {
    assert_eq!(visited_count("once"), 1);
    assert_eq!(visited_count("3 times"), 3);
    assert_eq!(visited_count("17 times"), 17);
    assert_eq!(visited_count("twice"), 0);
    assert_eq!(visited_count(""), 0);
    assert_eq!(visited_count("3 visits"), 0);
    assert_eq!(visited_count("times"), 0);
    assert_eq!(visited_count(" times"), 0);
    assert_eq!(visited_count("99999999999999999999 times"), 0);
}

#[test]
fn counters_strip_thousands_separators() {
    assert_eq!(parse_count("42"), Some(42));
    assert_eq!(parse_count("1,234"), Some(1234));
    assert_eq!(parse_count("1,2,3"), Some(123));
    assert_eq!(parse_count(""), None);
    assert_eq!(parse_count(","), None);
    assert_eq!(parse_count("abc"), None);
    assert_eq!(parse_count("-5"), None);
    assert_eq!(parse_count("99999999999"), None);
}

#[test]
fn dates_parse_and_render() {
    let d = ao3_opds::dates::ao3_dt_parse("05 Jan 2023");
    assert_eq!(d, AoDate { year: 2023, month: 1, day: 5 });
    assert_eq!(d.to_rfc3339(), "2023-01-05T00:00:00+00:00");

    let d = ao3_opds::dates::ao3_dt_parse("7 Dec 0999");
    assert_eq!(d, AoDate { year: 999, month: 12, day: 7 });
    assert_eq!(d.to_rfc3339(), "0999-12-07T00:00:00+00:00");
}

#[test]
fn dates_respect_the_calendar() {
    let sentinel = AoDate { year: 1970, month: 1, day: 1 };
    assert_eq!(ao3_opds::dates::ao3_dt_parse("31 Feb 2023"), sentinel);
    assert_eq!(ao3_opds::dates::ao3_dt_parse("29 Feb 2023"), sentinel);
    assert_eq!(
        ao3_opds::dates::ao3_dt_parse("29 Feb 2024"),
        AoDate { year: 2024, month: 2, day: 29 }
    );
    assert_eq!(ao3_opds::dates::ao3_dt_parse("29 Feb 1900"), sentinel);
    assert_eq!(
        ao3_opds::dates::ao3_dt_parse("29 Feb 2000"),
        AoDate { year: 2000, month: 2, day: 29 }
    );
    assert_eq!(ao3_opds::dates::ao3_dt_parse("31 Apr 2023"), sentinel);
    assert_eq!(
        ao3_opds::dates::ao3_dt_parse("30 Apr 2023"),
        AoDate { year: 2023, month: 4, day: 30 }
    );
}

#[test]
fn dates_fall_back_to_sentinel() {
    let sentinel = AoDate { year: 1970, month: 1, day: 1 };
    assert_eq!(ao3_opds::dates::ao3_dt_parse(""), sentinel);
    assert_eq!(ao3_opds::dates::ao3_dt_parse("05 Foo 2023"), sentinel);
    assert_eq!(ao3_opds::dates::ao3_dt_parse("05 Jan 23"), sentinel);
    assert_eq!(ao3_opds::dates::ao3_dt_parse("32 Jan 2023"), sentinel);
    assert_eq!(ao3_opds::dates::ao3_dt_parse("not a date"), sentinel);
    assert_eq!(sentinel.to_rfc3339(), "1970-01-01T00:00:00+00:00");
}

#[test]
fn work_ids_from_canonical_links() {
    assert_eq!(work_id_from_uri("/works/12345"), Some(12345));
    assert_eq!(work_id_from_uri("12345"), Some(12345));
    assert_eq!(work_id_from_uri("https://archiveofourown.org/works/777"), Some(777));
    assert_eq!(work_id_from_uri("/works/abc"), None);
    assert_eq!(work_id_from_uri("/works/"), None);
    assert_eq!(work_id_from_uri(""), None);
}

#[test]
fn work_ids_at_the_representable_boundary() {
    assert_eq!(
        ao3_opds::work::work_id_from_uri("/works/18446744073709551615"),
        Some(u64::MAX)
    );
    assert_eq!(ao3_opds::work::work_id_from_uri("/works/18446744073709551616"), None);
}

#[test]
fn digits_render() {
    assert_eq!(ao3_opds::u64_to_string(0), "0");
    assert_eq!(ao3_opds::u64_to_string(7), "7");
    assert_eq!(ao3_opds::u64_to_string(1234), "1234");
    assert_eq!(ao3_opds::u64_to_string(u64::MAX), "18446744073709551615");
}

#[test]
fn history_block_scenario() {
    let text = "Last visited: 05 Jan 2023\n\nUpdate available.\n\nVisited 3 times\n";
    let (date, changed, visited) = parse_history_block(text);
    assert_eq!(date, AoDate { year: 2023, month: 1, day: 5 });
    assert!(matches!(changed, Changed::Updated));
    assert_eq!(visited, 3);
}

#[test]
fn history_block_known_phrases() {
    let (_, changed, visited) =
        parse_history_block("Last visited: 01 Feb 2020\n\nLatest version.\n\nVisited once\n");
    assert!(matches!(changed, Changed::Latest));
    assert_eq!(visited, 1);

    let (_, changed, _) = parse_history_block(
        "Last visited: 01 Feb 2020\n\nMinor edits made since then.\n\nVisited 2 times\n",
    );
    assert!(matches!(changed, Changed::Minor));
}

#[test]
fn history_block_preserves_unknown_phrases() {
    let (_, changed, _) =
        parse_history_block("Last visited: 01 Feb 2020\n\nSomething new.\n\nVisited 2 times\n");
    match changed {
        Changed::Unknown(t) => assert_eq!(t, "Something new."),
        other => panic!("expected the phrase to be preserved, got {:?}", other),
    }
}

#[test]
fn history_block_is_total() {
    let (date, changed, visited) = parse_history_block("");
    assert_eq!(date, AoDate { year: 1970, month: 1, day: 1 });
    assert!(matches!(changed, Changed::Unknown(t) if t.is_empty()));
    assert_eq!(visited, 0);

    let (date, _, visited) = parse_history_block("no structure here at all");
    assert_eq!(date, AoDate { year: 1970, month: 1, day: 1 });
    assert_eq!(visited, 0);
}

#[test]
fn listing_urls() {
    assert_eq!(ao3_opds::urls::login_url(), "https://archiveofourown.org/users/login");
    assert_eq!(
        ao3_opds::urls::history_url("laundmo", 2),
        "https://archiveofourown.org/users/laundmo/readings?page=2"
    );
    assert_eq!(
        ao3_opds::urls::subscriptions_url("a", 1),
        "https://archiveofourown.org/users/a/subscriptions?page=1"
    );
    assert_eq!(
        ao3_opds::urls::bookmarks_url("a", 3),
        "https://archiveofourown.org/users/a/bookmarks?page=3"
    );
    assert!(!ao3_opds::urls::login_succeeded("https://archiveofourown.org/users/login"));
    assert!(ao3_opds::urls::login_succeeded("https://archiveofourown.org/users/laundmo"));
}
