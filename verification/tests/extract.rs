//! Extraction through real markup: work fragments, listing pages, pager
//! flags, the failure taxonomy, and the login-token helper.

use ao3_opds::history::HistoryPage;
use ao3_opds::work::{Chapters, Work};
use ao3_opds::{authenticity_token_from_markup, ExtractError};

fn work_fragment(stats_extra: &str) -> String {
    let mut s = String::new();
    s.push_str("<li class=\"reading blurb\">");
    s.push_str("<h4 class=\"heading\">");
    s.push_str("<a href=\"/works/777\">My Title</a>");
    s.push_str(" by <a rel=\"author\" href=\"/users/alice\">alice</a>");
    s.push_str("</h4>");
    s.push_str("<div class=\"header\"><p class=\"datetime\">05 Jan 2023</p></div>");
    s.push_str("<ul class=\"tags\">");
    s.push_str("<li class=\"warnings\"><strong><a>No Warnings</a></strong></li>");
    s.push_str("<li class=\"relationships\"><a>A/B</a></li>");
    s.push_str("<li class=\"characters\"><a>A</a></li>");
    s.push_str("<li class=\"freeforms\"><a>Fluff</a></li>");
    s.push_str("</ul>");
    s.push_str("<blockquote class=\"summary\">A summary.</blockquote>");
    s.push_str("<dl class=\"stats\">");
    s.push_str("<dd class=\"language\">English</dd>");
    s.push_str("<dd class=\"words\">1,234</dd>");
    s.push_str("<dd class=\"chapters\">3/10</dd>");
    s.push_str("<dd class=\"comments\"><a>5</a></dd>");
    s.push_str("<dd class=\"kudos\"><a>42</a></dd>");
    s.push_str(stats_extra);
    s.push_str("<dd class=\"hits\">100</dd>");
    s.push_str("</dl>");
    s.push_str("</li>");
    s
}

#[test]
fn scenario_work_fragment() {
    // chapters 3/10, bookmarks node absent, kudos 42
    let markup = work_fragment("");
    let w = Work::from_markup(&markup).unwrap();
    assert_eq!(w.id, 777);
    assert_eq!(w.title, "My Title");
    assert_eq!(w.chapters, Chapters::Known(3, 10));
    assert_eq!(w.bookmarks, 0);
    assert_eq!(w.kudos, 42);
    assert_eq!(w.words, 1234);
    assert_eq!(w.comments, 5);
    assert_eq!(w.hits, 100);
    assert_eq!(w.language, "English");
    assert_eq!(w.summary, "A summary.");
    assert_eq!(w.authors.0, vec!["alice".to_string()]);
    assert_eq!(w.tags.warnings, vec!["No Warnings".to_string()]);
    assert_eq!(w.tags.relationships, vec!["A/B".to_string()]);
    assert_eq!(w.last_updated.to_rfc3339(), "2023-01-05T00:00:00+00:00");
    assert!(w.series.is_none());
}

#[test]
fn bookmarks_preserved_when_present() {
    let markup = work_fragment("<dd class=\"bookmarks\"><a>7</a></dd>");
    let w = Work::from_markup(&markup).unwrap();
    assert_eq!(w.bookmarks, 7);

    let markup = work_fragment("<dd class=\"bookmarks\"><a>1,000</a></dd>");
    let w = Work::from_markup(&markup).unwrap();
    assert_eq!(w.bookmarks, 1000);
}

#[test]
fn series_extracted_when_well_formed() {
    let mut markup = work_fragment("");
    markup.push_str(
        "<ul class=\"series\"><li>Part <strong>2</strong> of \
         <a href=\"/series/11\">The Series</a></li></ul>",
    );
    let w = Work::from_markup(&markup).unwrap();
    let s = w.series.expect("series should be present");
    assert_eq!(s.part, 2);
    assert_eq!(s.name, "The Series");
    assert_eq!(s.uri, "/series/11");
}

#[test]
fn malformed_series_reads_as_no_series() {
    let mut markup = work_fragment("");
    markup.push_str(
        "<ul class=\"series\"><li>Part <strong>two</strong> of \
         <a href=\"/series/11\">The Series</a></li></ul>",
    );
    let w = Work::from_markup(&markup).unwrap();
    assert!(w.series.is_none());
}

#[test]
fn missing_required_node_is_not_found() {
    let err = Work::from_markup("<p>nothing here</p>").unwrap_err();
    assert!(matches!(err, ExtractError::NotFound(sel) if sel == "h4.heading"));
}

#[test]
fn empty_link_text_is_no_text() {
    let markup = "<h4 class=\"heading\"><a href=\"/works/1\"></a></h4>";
    let err = Work::from_markup(markup).unwrap_err();
    assert!(matches!(err, ExtractError::NoText));
}

#[test]
fn missing_href_is_attribute_missing() {
    let markup = "<h4 class=\"heading\"><a>My Title</a></h4>";
    let err = Work::from_markup(markup).unwrap_err();
    assert!(matches!(err, ExtractError::AttributeMissing(a) if a == "href"));
}

#[test]
fn non_numeric_counter_is_not_numeric() {
    let markup = work_fragment("").replace("1,234", "lots");
    let err = Work::from_markup(&markup).unwrap_err();
    assert!(matches!(err, ExtractError::NotNumeric));
}

#[test]
fn non_numeric_id_is_not_numeric() {
    let markup = work_fragment("").replace("/works/777", "/works/seven");
    let err = Work::from_markup(&markup).unwrap_err();
    assert!(matches!(err, ExtractError::NotNumeric));
}

#[test]
fn malformed_selector_is_bad_selector() {
    let err = ao3_opds::select::select_string_from_markup("<p>x</p>", "???").unwrap_err();
    assert!(matches!(err, ExtractError::BadSelector(sel) if sel == "???"));
}

#[test]
fn selector_utilities_on_documents() {
    assert_eq!(
        ao3_opds::select::select_string_from_markup("<p class=\"n\">hi</p>", "p.n").unwrap(),
        "hi"
    );
    assert_eq!(
        ao3_opds::select::select_int_from_markup("<p class=\"n\">1,024</p>", "p.n").unwrap(),
        1024
    );
    assert!(matches!(
        ao3_opds::select::select_int_from_markup("<p class=\"n\">x</p>", "p.n"),
        Err(ExtractError::NotNumeric)
    ));
    assert!(matches!(
        ao3_opds::select::select_string_from_markup("<p></p>", "p.absent"),
        Err(ExtractError::NotFound(_))
    ));
}

fn history_item(id: u64) -> String {
    let base = work_fragment("").replace("/works/777", &format!("/works/{}", id));
    base.replace(
        "<h4 class=\"heading\">",
        "<div class=\"user\"><h4>Last visited: 05 Jan 2023\n\n\
         Update available.\n\nVisited 3 times\n</h4></div><h4 class=\"heading\">",
    )
}

fn listing_page(n_items: u64, pager: &str) -> String {
    let mut page = String::from("<ol class=\"reading index group\">");
    for i in 0..n_items {
        page.push_str(&history_item(100 + i));
    }
    page.push_str("</ol>");
    page.push_str(pager);
    page
}

#[test]
fn scenario_listing_page_with_next_only() {
    // a "next" pager control, no "previous" control, 5 records
    let markup = listing_page(
        5,
        "<ol class=\"pagination\"><li class=\"next\"><a>Next</a></li></ol>",
    );
    let page = HistoryPage::from_markup(&markup, 1).unwrap();
    assert_eq!(page.history.len(), 5);
    assert!(page.has_next);
    assert!(!page.has_prev);
    assert_eq!(page.page, 1);

    let feed = page.to_feed();
    assert_eq!(feed.id, "history-page-1");
    assert_eq!(feed.title, "History page 1");
    let links = feed.links.as_ref().unwrap();
    assert_eq!(links.len(), 3);
    assert_eq!(links[0].rel, "self");
    assert_eq!(links[1].rel, "start");
    assert_eq!(links[2].rel, "next");
    assert_eq!(feed.entries.len(), 5);
    assert_eq!(feed.entries[0].id, "/works/100");
    assert_eq!(feed.entries[4].id, "/works/104");
}

#[test]
fn empty_listing_page_yields_an_empty_feed() {
    let page = HistoryPage::from_markup("<ol class=\"reading index\"></ol>", 1).unwrap();
    assert!(page.history.is_empty());
    assert!(!page.has_next);
    assert!(!page.has_prev);
    let feed = page.to_feed();
    assert!(feed.entries.is_empty());
    assert_eq!(feed.links.as_ref().unwrap().len(), 2);
}

#[test]
fn history_records_carry_visit_metadata() {
    let markup = listing_page(1, "");
    let page = HistoryPage::from_markup(&markup, 1).unwrap();
    let h = &page.history[0];
    assert_eq!(h.visited, 3);
    assert!(matches!(h.changed, ao3_opds::history::Changed::Updated));
    assert_eq!(h.last_visited.to_rfc3339(), "2023-01-05T00:00:00+00:00");
    assert_eq!(h.work.id, 100);
}

#[test]
fn first_page_never_reports_a_previous_page() {
    let pager = "<ol class=\"pagination\">\
                 <li class=\"previous\"><a>Prev</a></li>\
                 <li class=\"next\"><a>Next</a></li></ol>";
    let markup = listing_page(1, pager);
    let page = HistoryPage::from_markup(&markup, 1).unwrap();
    assert!(!page.has_prev);
    assert!(page.has_next);

    let page = HistoryPage::from_markup(&markup, 2).unwrap();
    assert!(page.has_prev);
    assert!(page.has_next);
}

#[test]
fn pager_flags_are_independent() {
    let markup = listing_page(
        1,
        "<ol class=\"pagination\"><li class=\"previous\"><a>Prev</a></li></ol>",
    );
    let page = HistoryPage::from_markup(&markup, 3).unwrap();
    assert!(page.has_prev);
    assert!(!page.has_next);

    let markup = listing_page(1, "");
    let page = HistoryPage::from_markup(&markup, 3).unwrap();
    assert!(!page.has_prev);
    assert!(!page.has_next);
}

#[test]
fn broken_record_fails_the_whole_page() {
    let good = listing_page(2, "");
    let broken = good.replacen("3/10", "broken", 1);
    assert!(matches!(
        HistoryPage::from_markup(&broken, 1),
        Err(ExtractError::NotNumeric)
    ));
}

#[test]
fn authenticity_token_extraction() {
    let markup = "<form><input name=\"authenticity_token\" value=\"SECRET-REDACTED\"/></form>";
    assert_eq!(authenticity_token_from_markup(markup).unwrap(), "SECRET-REDACTED");

    let markup = "<form><input name=\"other\"/></form>";
    assert_eq!(authenticity_token_from_markup(markup).unwrap(), "");

    let markup = "<form><input name=\"authenticity_token\"/></form>";
    assert!(matches!(
        authenticity_token_from_markup(markup),
        Err(ExtractError::AttributeMissing(a)) if a == "value"
    ));
}
