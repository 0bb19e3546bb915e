//! Feed assembly and serialization: link order, entry mapping, exact wire
//! bytes, and idempotent rendering.

use ao3_opds::dates::AoDate;
use ao3_opds::work::{Authors, Chapters, Tags, Work};
use ao3_opds::{OpdsEntry, OpdsEnumStr, OpdsFeed, OpdsLink, OpdsLinkRel, OpdsLinkType, StumpAuthor};

fn sample_date() -> AoDate {
    AoDate { year: 2023, month: 1, day: 5 }
}

fn sample_work(id: u64) -> Work {
    Work {
        authors: Authors(vec!["alice".to_string()]),
        title: "My Title".to_string(),
        id,
        tags: Tags {
            warnings: vec!["No Warnings".to_string()],
            relationships: vec!["A/B".to_string()],
            characters: vec!["A".to_string()],
            freeform: vec!["Fluff".to_string()],
        },
        summary: "A summary.".to_string(),
        series: None,
        last_updated: sample_date(),
        language: "English".to_string(),
        words: 1234,
        chapters: Chapters::Known(3, 10),
        comments: 5,
        kudos: 42,
        bookmarks: 0,
        hits: 100,
    }
}

#[test]
fn feed_it_works() {
    let entry = OpdsEntry::new(
        "2".to_string(),
        sample_date(),
        "Test Entry".to_string(),
        Some("Test Entry Content blah blah blah".to_string()),
        Some(vec![StumpAuthor::new("Test Author".to_string(), None)]),
        Some(vec![OpdsLink::new(
            OpdsLinkType::Image,
            OpdsLinkRel::Image,
            "https://i.laundmo.com/tENe0/noLAletu89.png".to_string(),
        )]),
    );
    let link = OpdsLink::new(OpdsLinkType::Navigation, OpdsLinkRel::ItSelf, "/".to_string());
    let feed = OpdsFeed::new(
        "1".to_string(),
        "Test Feed".to_string(),
        Some(vec![link]),
        vec![entry],
    );
    println!("{}?", feed.to_xml());
}

#[test]
fn link_it_works() {
    let v = OpdsLink::new(OpdsLinkType::Acquisition, OpdsLinkRel::ItSelf, "test".to_string());
    println!("{:?}", v);
    assert_eq!(v.href, "test");
    assert_eq!(v.rel, "self");
    assert_eq!(v.link_type, "application/atom+xml;profile=opds-catalog;kind=acquisition");
}

#[test]
fn enum_wire_strings() {
    assert_eq!(OpdsLinkType::Navigation.as_str(),
        "application/atom+xml;profile=opds-catalog;kind=navigation");
    assert_eq!(OpdsLinkType::Epub.as_str(), "application/epub+zip");
    assert_eq!(OpdsLinkType::OctetStream.as_str(), "application/octet-stream");
    assert_eq!(OpdsLinkType::Zip.as_str(), "application/zip");
    assert_eq!(OpdsLinkType::Search.as_str(), "application/opensearchdescription+xml");
    assert_eq!(OpdsLinkType::Image.to_string(), "image/jpeg");
    assert_eq!(OpdsLinkRel::Acquisition.as_str(), "http://opds-spec.org/acquisition");
    assert_eq!(OpdsLinkRel::Thumbnail.as_str(), "http://opds-spec.org/image/thumbnail");
    assert_eq!(OpdsLinkRel::Image.as_str(), "http://opds-spec.org/image");
    assert_eq!(OpdsLinkRel::PageStream.as_str(), "http://vaemendis.net/opds-pse/stream");
    assert_eq!(OpdsLinkRel::Subsection.to_string(), "subsection");
    assert_eq!(OpdsLinkRel::Start.to_string(), "start");
    assert_eq!(OpdsLinkRel::Next.to_string(), "next");
    assert_eq!(OpdsLinkRel::Previous.to_string(), "previous");
    assert_eq!(OpdsLinkRel::Search.to_string(), "search");
}

fn rels(feed: &OpdsFeed) -> Vec<String> {
    feed.links.as_ref().unwrap().iter().map(|l| l.rel.clone()).collect()
}

#[test]
fn nav_link_order_full() {
    let w = sample_work(777);
    let feed = OpdsFeed::paginated("id", "title", "history", vec![&w], 5, true, true);
    assert_eq!(rels(&feed), vec!["self", "start", "previous", "next"]);
    let links = feed.links.as_ref().unwrap();
    assert_eq!(links[0].href, "/opds/v1.2/history");
    assert_eq!(links[1].href, "/opds/v1.2/catalog");
    assert_eq!(links[2].href, "/opds/v1.2/history?page=4");
    assert_eq!(links[3].href, "/opds/v1.2/history?page=6");
    for l in links.iter() {
        assert_eq!(l.link_type, "application/atom+xml;profile=opds-catalog;kind=navigation");
    }
    assert_eq!(feed.entries.len(), 1);
}

#[test]
fn nav_link_order_is_independent_of_entries_and_flags() {
    let feed = OpdsFeed::paginated::<&Work>("id", "t", "history", vec![], 2, false, false);
    assert_eq!(rels(&feed), vec!["self", "start"]);

    let feed = OpdsFeed::paginated::<&Work>("id", "t", "history", vec![], 2, true, false);
    assert_eq!(rels(&feed), vec!["self", "start", "next"]);
    assert_eq!(feed.links.as_ref().unwrap()[2].href, "/opds/v1.2/history?page=3");

    let feed = OpdsFeed::paginated::<&Work>("id", "t", "history", vec![], 2, false, true);
    assert_eq!(rels(&feed), vec!["self", "start", "previous"]);
    assert_eq!(feed.links.as_ref().unwrap()[2].href, "/opds/v1.2/history?page=1");
}

#[test]
fn work_entry_mapping() {
    let w = sample_work(777);
    let feed = OpdsFeed::paginated("id", "title", "history", vec![&w], 1, false, false);
    let e = &feed.entries[0];
    assert_eq!(e.id, "/works/777");
    assert_eq!(e.title, "My Title");
    assert_eq!(e.updated, "2023-01-05T00:00:00+00:00");
    assert_eq!(
        e.content.as_deref(),
        Some("[No Warnings], [A/B], [A], [Fluff]\nA summary.")
    );
    let authors = e.authors.as_ref().unwrap();
    assert_eq!(authors.len(), 1);
    assert_eq!(authors[0].name, "alice");
    assert!(authors[0].uri.is_none());
    assert_eq!(e.links.len(), 1);
    assert_eq!(e.links[0].rel, "http://opds-spec.org/acquisition");
    assert_eq!(e.links[0].link_type, "application/epub+zip");
    assert_eq!(e.links[0].href, "https://archiveofourown.org/downloads/777/a.epub");
}

#[test]
fn entry_content_synthesis_with_empty_tag_lists() {
    let mut w = sample_work(1);
    w.tags.relationships = vec![];
    w.tags.freeform = vec![];
    let feed = OpdsFeed::paginated("id", "t", "history", vec![&w], 1, false, false);
    assert_eq!(
        feed.entries[0].content.as_deref(),
        Some("[No Warnings], [], [A], []\nA summary.")
    );
}

#[test]
fn get_content_rewrites_newlines() {
    let entry = OpdsEntry::new(
        "1".to_string(),
        sample_date(),
        "t".to_string(),
        Some("a\nb\nc".to_string()),
        None,
        None,
    );
    assert_eq!(entry.get_content().as_deref(), Some("a<br/>b<br/>c"));

    let empty = OpdsEntry::new("1".to_string(), sample_date(), "t".to_string(), None, None, None);
    assert!(empty.get_content().is_none());
}

fn fixed_feed() -> OpdsFeed {
    OpdsFeed {
        xmlns: "http://www.w3.org/2005/Atom".to_string(),
        xmlns_opds: "http://opds-spec.org/2010/catalog".to_string(),
        updated: "2024-02-01T00:00:00+00:00".to_string(),
        id: "history-page-1".to_string(),
        title: "History page 1".to_string(),
        links: Some(vec![OpdsLink::new(
            OpdsLinkType::Navigation,
            OpdsLinkRel::ItSelf,
            "/opds/v1.2/history".to_string(),
        )]),
        entries: vec![OpdsEntry::new(
            "/works/7".to_string(),
            sample_date(),
            "A <b>bold</b> & title".to_string(),
            Some("line one\nline & two".to_string()),
            Some(vec![StumpAuthor::new("alice".to_string(), None)]),
            None,
        )],
    }
}

#[test]
fn serializer_exact_bytes() {
    let mut expected = String::new();
    expected.push_str("<feed xmlns=\"http://www.w3.org/2005/Atom\"");
    expected.push_str(" xmlns:opds=\"http://opds-spec.org/2010/catalog\">");
    expected.push_str("<id>history-page-1</id>");
    expected.push_str("<title>History page 1</title>");
    expected.push_str("<updated>2024-02-01T00:00:00+00:00</updated>");
    expected.push_str("<link type=\"application/atom+xml;profile=opds-catalog;kind=navigation\"");
    expected.push_str(" rel=\"self\" href=\"/opds/v1.2/history\"/>");
    expected.push_str("<entry>");
    expected.push_str("<title>A &lt;b&gt;bold&lt;/b&gt; &amp; title</title>");
    expected.push_str("<id>/works/7</id>");
    expected.push_str("<updated>2023-01-05T00:00:00+00:00</updated>");
    expected.push_str("<content>line one<br/>line &amp; two</content>");
    expected.push_str("<author><name>alice</name></author>");
    expected.push_str("</entry>");
    expected.push_str("</feed>");
    assert_eq!(fixed_feed().to_xml(), expected);
}

#[test]
fn serializer_empty_content_element_still_present() {
    let feed = OpdsFeed {
        xmlns: "http://www.w3.org/2005/Atom".to_string(),
        xmlns_opds: "http://opds-spec.org/2010/catalog".to_string(),
        updated: "2024-02-01T00:00:00+00:00".to_string(),
        id: "x".to_string(),
        title: "t".to_string(),
        links: None,
        entries: vec![OpdsEntry::new(
            "i".to_string(),
            sample_date(),
            "t".to_string(),
            None,
            None,
            None,
        )],
    };
    let xml = feed.to_xml();
    assert!(xml.contains("<content></content>"));
}

#[test]
fn serialization_is_idempotent() {
    let feed = fixed_feed();
    let first = feed.to_xml();
    let second = feed.to_xml();
    assert_eq!(first.as_bytes(), second.as_bytes());

    let assembled = OpdsFeed::paginated(
        "id",
        "title",
        "history",
        vec![&sample_work(9)],
        3,
        true,
        false,
    );
    assert_eq!(assembled.to_xml().as_bytes(), assembled.to_xml().as_bytes());
}

#[test]
fn author_uri_rendered_when_present() {
    let feed = OpdsFeed {
        xmlns: "http://www.w3.org/2005/Atom".to_string(),
        xmlns_opds: "http://opds-spec.org/2010/catalog".to_string(),
        updated: "u".to_string(),
        id: "x".to_string(),
        title: "t".to_string(),
        links: None,
        entries: vec![OpdsEntry::new(
            "i".to_string(),
            sample_date(),
            "t".to_string(),
            None,
            Some(vec![StumpAuthor::new(
                "alice".to_string(),
                Some("/users/alice".to_string()),
            )]),
            None,
        )],
    };
    let xml = feed.to_xml();
    assert!(xml.contains("<author><name>alice</name><uri>/users/alice</uri></author>"));
}
