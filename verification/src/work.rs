//! The bibliographic record of one archived work, and the exact parsing of
//! its text-level fields.
//!
//! Field gathering from markup lives in `extract`; this module owns the pure
//! step from gathered text fields to a typed record, with an exact contract
//! for every field rule: the identifier from the canonical link, chapter
//! state, counters with thousands separators, and the bookmarks default.

use vstd::prelude::*;

use crate::dates::{date_of_text, date_valid, rfc3339_of, AoDate};
use crate::errors::ExtractError;
use crate::opds::entry::{OpdsEntry, ToOpdsEntry};
use crate::opds::link::{is_link, OpdsLink, OpdsLinkRel, OpdsLinkType};
use crate::opds::StumpAuthor;
use crate::text::{
    count_val_u32, dec_digits, dec_val, find_eq, is_digits, lemma_dec_digits_are_digits,
    lemma_dec_val_nonneg, lemma_dec_val_of_dec_digits, lemma_find_eq_is, lemma_rlast_eq_bounds,
    parse_count, parse_u64_digits, rlast_eq, scan_after_last, scan_eq, u64_to_string,
};

verus! {

/// The author names of one work; zero authors is a legitimate state.
#[derive(Debug)]
pub struct Authors(pub Vec<String>);

/// The tag lists of one work. Exactly one content warning is required; the
/// other lists may each be empty.
#[derive(Debug)]
pub struct Tags {
    pub warnings: Vec<String>,
    pub relationships: Vec<String>,
    pub characters: Vec<String>,
    pub freeform: Vec<String>,
}

/// A reference to the series a work belongs to.
#[derive(Debug)]
pub struct SeriesRef {
    pub name: String,
    pub uri: String,
    pub part: u32,
}

/// The chapter state: the total count is not always published upstream.
#[derive(Debug, Clone, Copy, PartialEq, Eq, Structural)]
pub enum Chapters {
    Known(u32, u32),
    Unknown(u32),
}

/// The chapter-state invariant: the written count never exceeds a known total.
pub open spec fn chapters_wf(c: Chapters) -> bool {
    c matches Chapters::Known(a, b) ==> a <= b
}

/// The chapter state a `"<written>/<total>"` text denotes; `None` when the
/// written part (or the separator) is missing or not a number. A total that
/// is not a number, or that lies below the written count, reads as
/// `Unknown(written)`: a known total is never below what was written.
pub open spec fn chapters_of_text(s: Seq<char>) -> Option<Chapters> {
    let p = find_eq(s, 0, '/');
    if p == s.len() {
        None
    } else {
        let w_s = s.take(p);
        let t_s = s.subrange(p + 1, s.len() as int);
        if is_digits(w_s) && w_s.len() > 0 && dec_val(w_s) <= u32::MAX {
            if is_digits(t_s) && t_s.len() > 0 && dec_val(t_s) <= u32::MAX && dec_val(w_s)
                <= dec_val(t_s) {
                Some(Chapters::Known(dec_val(w_s) as u32, dec_val(t_s) as u32))
            } else {
                Some(Chapters::Unknown(dec_val(w_s) as u32))
            }
        } else {
            None
        }
    }
}

/// Whatever `chapters_of_text` yields upholds the chapter-state invariant.
pub proof fn lemma_chapters_of_text_wf(s: Seq<char>)
    ensures
        chapters_of_text(s) matches Some(c) ==> chapters_wf(c),
{
    let p = find_eq(s, 0, '/');
    if p != s.len() {
        let w_s = s.take(p);
        let t_s = s.subrange(p + 1, s.len() as int);
        if is_digits(w_s) && w_s.len() > 0 {
            lemma_dec_val_nonneg(w_s);
        }
        if is_digits(t_s) && t_s.len() > 0 {
            lemma_dec_val_nonneg(t_s);
        }
    }
}

/// Parses a chapter text; exact on every input shape.
pub fn parse_chapters(s: &str) -> (r: Result<Chapters, ExtractError>)
    ensures
        (match chapters_of_text(s@) {
            Some(c) => r matches Ok(got) && got == c,
            None => r matches Err(e) && e is NotNumeric,
        }),
        r matches Ok(c) ==> chapters_wf(c),
{
    let n = s.unicode_len();
    let p = scan_eq(s, 0, '/');
    if p == n {
        return Err(ExtractError::NotNumeric);
    }
    let w_str = s.substring_char(0, p);
    let t_str = s.substring_char(p + 1, n);
    proof {
        assert(w_str@ =~= s@.take(p as int));
        assert(t_str@ =~= s@.subrange(p + 1, s@.len() as int));
        if is_digits(w_str@) && w_str@.len() > 0 {
            lemma_dec_val_nonneg(w_str@);
        }
        if is_digits(t_str@) && t_str@.len() > 0 {
            lemma_dec_val_nonneg(t_str@);
        }
    }
    let written = match crate::text::parse_u32_digits(w_str) {
        Some(v) => v,
        None => {
            return Err(ExtractError::NotNumeric);
        },
    };
    match crate::text::parse_u32_digits(t_str) {
        Some(total) => {
            if written <= total {
                Ok(Chapters::Known(written, total))
            } else {
                Ok(Chapters::Unknown(written))
            }
        },
        None => Ok(Chapters::Unknown(written)),
    }
}

/// A valid `"<written>/<total>"` text round-trips both numbers exactly.
pub proof fn lemma_chapters_round_trip(w: u32, t: u32)
    requires
        w <= t,
    ensures
        chapters_of_text(dec_digits(w as int) + seq!['/'] + dec_digits(t as int)) == Some(
            Chapters::Known(w, t),
        ),
{
    let a = dec_digits(w as int);
    let b = dec_digits(t as int);
    let s = a + seq!['/'] + b;
    lemma_dec_digits_are_digits(w as int);
    lemma_dec_digits_are_digits(t as int);
    lemma_dec_val_of_dec_digits(w as int);
    lemma_dec_val_of_dec_digits(t as int);
    assert(forall|j: int| 0 <= j < a.len() ==> s[j] == a[j] && s[j] != '/');
    assert(s[a.len() as int] == '/');
    lemma_find_eq_is(s, 0, a.len() as int, '/');
    assert(s.take(a.len() as int) =~= a);
    assert(s.subrange(a.len() as int + 1, s.len() as int) =~= b);
}

/// A written count over an unusable total — not a number, or a number below
/// the written count — reads as `Unknown(written)`; the written number
/// itself still round-trips exactly.
pub proof fn lemma_chapters_unknown_total(w: u32, t_s: Seq<char>)
    requires
        !(is_digits(t_s) && t_s.len() > 0 && dec_val(t_s) <= u32::MAX && w <= dec_val(t_s)),
    ensures
        chapters_of_text(dec_digits(w as int) + seq!['/'] + t_s) == Some(Chapters::Unknown(w)),
{
    let a = dec_digits(w as int);
    let s = a + seq!['/'] + t_s;
    lemma_dec_digits_are_digits(w as int);
    lemma_dec_val_of_dec_digits(w as int);
    assert(forall|j: int| 0 <= j < a.len() ==> s[j] == a[j] && s[j] != '/');
    assert(s[a.len() as int] == '/');
    lemma_find_eq_is(s, 0, a.len() as int, '/');
    assert(s.take(a.len() as int) =~= a);
    assert(s.subrange(a.len() as int + 1, s.len() as int) =~= t_s);
}

/// One archived work.
#[derive(Debug)]
pub struct Work {
    pub authors: Authors,
    pub title: String,
    pub id: u64,
    pub tags: Tags,
    pub summary: String,
    pub series: Option<SeriesRef>,
    pub last_updated: AoDate,
    pub language: String,
    pub words: u32,
    pub chapters: Chapters,
    pub comments: u32,
    pub kudos: u32,
    pub bookmarks: u32,
    pub hits: u32,
}

/// The trailing path segment of a canonical link, the segment after the last
/// slash (the whole text when there is none), read as the work identifier.
pub open spec fn work_id_val(s: Seq<char>) -> Option<int> {
    let seg = s.subrange(rlast_eq(s, '/') + 1, s.len() as int);
    if is_digits(seg) && seg.len() > 0 && dec_val(seg) <= u64::MAX {
        Some(dec_val(seg))
    } else {
        None
    }
}

/// Derives the numeric work identifier from its canonical link.
pub fn work_id_from_uri(s: &str) -> (r: Option<u64>)
    ensures
        (match work_id_val(s@) {
            Some(v) => r matches Some(got) && got == v,
            None => r is None,
        }),
{
    proof {
        lemma_rlast_eq_bounds(s@, '/');
    }
    let start = scan_after_last(s, '/');
    let seg = s.substring_char(start, s.unicode_len());
    proof {
        assert(seg@ =~= s@.subrange(rlast_eq(s@, '/') + 1, s@.len() as int));
        if is_digits(seg@) && seg@.len() > 0 {
            lemma_dec_val_nonneg(seg@);
        }
    }
    parse_u64_digits(seg)
}

/// The gathered text fields of one work fragment, before the typed step.
#[derive(Debug)]
pub struct RawSeries {
    pub part_text: String,
    pub name: String,
    pub uri: String,
}

/// The gathered text fields of one work fragment. `bookmarks_text` is `None`
/// exactly when the markup omitted the bookmarks node.
#[derive(Debug)]
pub struct RawWork {
    pub title: String,
    pub href: String,
    pub datetime_text: String,
    pub chapters_text: String,
    pub summary: String,
    pub language: String,
    pub words_text: String,
    pub comments_text: String,
    pub kudos_text: String,
    pub bookmarks_text: Option<String>,
    pub hits_text: String,
    pub authors: Vec<String>,
    pub tags: Tags,
    pub series: Option<RawSeries>,
}

/// Whether the typed step must reject these fields.
pub open spec fn raw_work_rejected(raw: RawWork) -> bool {
    ||| work_id_val(raw.href@) is None
    ||| chapters_of_text(raw.chapters_text@) is None
    ||| count_val_u32(raw.words_text@) is None
    ||| count_val_u32(raw.comments_text@) is None
    ||| count_val_u32(raw.kudos_text@) is None
    ||| count_val_u32(raw.hits_text@) is None
}

/// What the typed record must hold for these fields.
pub open spec fn work_matches_raw(w: Work, raw: RawWork) -> bool {
    &&& work_id_val(raw.href@) matches Some(v) && w.id == v
    &&& w.title == raw.title
    &&& w.summary == raw.summary
    &&& w.language == raw.language
    &&& w.authors.0 == raw.authors
    &&& w.tags == raw.tags
    &&& w.last_updated == date_of_text(raw.datetime_text@)
    &&& chapters_of_text(raw.chapters_text@) matches Some(c) && w.chapters == c
    &&& count_val_u32(raw.words_text@) matches Some(v) && w.words == v
    &&& count_val_u32(raw.comments_text@) matches Some(v) && w.comments == v
    &&& count_val_u32(raw.kudos_text@) matches Some(v) && w.kudos == v
    &&& count_val_u32(raw.hits_text@) matches Some(v) && w.hits == v
    &&& w.bookmarks == (match raw.bookmarks_text {
        // the upstream page omits the node entirely for zero-bookmark works
        None => 0u32,
        Some(t) => (match count_val_u32(t@) {
            Some(v) => v,
            None => 0u32,
        }),
    })
    &&& (match raw.series {
        // a present-but-malformed series block reads as "no series"
        None => w.series is None,
        Some(rs) => (match count_val_u32(rs.part_text@) {
            Some(p) => w.series matches Some(sr) && sr.name == rs.name && sr.uri == rs.uri
                && sr.part == p,
            None => w.series is None,
        }),
    })
}

impl Work {
    /// The typed step: turns gathered text fields into a record, or rejects
    /// them. Bookmarks default to 0 exactly when the field was absent and are
    /// preserved exactly when present; a malformed series block reads as no
    /// series; an unparsable date falls back to the sentinel.
    pub fn from_raw(raw: RawWork) -> (r: Result<Work, ExtractError>)
        ensures
            r is Err <==> raw_work_rejected(raw),
            r matches Err(e) ==> e is NotNumeric,
            r matches Ok(w) ==> work_matches_raw(w, raw) && date_valid(w.last_updated)
                && chapters_wf(w.chapters),
    {
        let id = match work_id_from_uri(raw.href.as_str()) {
            Some(v) => v,
            None => {
                return Err(ExtractError::NotNumeric);
            },
        };
        let last_updated = crate::dates::ao3_dt_parse(raw.datetime_text.as_str());
        let chapters = match parse_chapters(raw.chapters_text.as_str()) {
            Ok(c) => c,
            Err(e) => {
                return Err(e);
            },
        };
        let words = match parse_count(raw.words_text.as_str()) {
            Some(v) => v,
            None => {
                return Err(ExtractError::NotNumeric);
            },
        };
        let comments = match parse_count(raw.comments_text.as_str()) {
            Some(v) => v,
            None => {
                return Err(ExtractError::NotNumeric);
            },
        };
        let kudos = match parse_count(raw.kudos_text.as_str()) {
            Some(v) => v,
            None => {
                return Err(ExtractError::NotNumeric);
            },
        };
        let hits = match parse_count(raw.hits_text.as_str()) {
            Some(v) => v,
            None => {
                return Err(ExtractError::NotNumeric);
            },
        };
        let bookmarks = match &raw.bookmarks_text {
            None => 0,
            Some(t) => match parse_count(t.as_str()) {
                Some(v) => v,
                None => 0,
            },
        };
        let series = match raw.series {
            None => None,
            Some(rs) => match parse_count(rs.part_text.as_str()) {
                Some(p) => Some(SeriesRef { name: rs.name, uri: rs.uri, part: p }),
                None => None,
            },
        };
        Ok(
            Work {
                authors: Authors(raw.authors),
                title: raw.title,
                id,
                tags: raw.tags,
                summary: raw.summary,
                series,
                last_updated,
                language: raw.language,
                words,
                chapters,
                comments,
                kudos,
                bookmarks,
                hits,
            },
        )
    }
}

/// The first element of a list of strings, or the empty text.
pub open spec fn first_or_empty(v: Seq<String>) -> Seq<char> {
    if v.len() > 0 {
        v[0]@
    } else {
        Seq::<char>::empty()
    }
}

/// The synthesized content body of a work's feed entry: the first element of
/// each tag list in brackets, then the summary on its own line.
pub open spec fn content_text(w: Work) -> Seq<char> {
    "["@ + first_or_empty(w.tags.warnings@) + "], ["@ + first_or_empty(w.tags.relationships@)
        + "], ["@ + first_or_empty(w.tags.characters@) + "], ["@ + first_or_empty(w.tags.freeform@)
        + "]\n"@ + w.summary@
}

/// The acquisition href of a work's feed entry.
pub open spec fn download_href(id: int) -> Seq<char> {
    "https://archiveofourown.org/downloads/"@ + dec_digits(id) + "/a.epub"@
}

/// Appends a tag list's first element, or nothing.
fn append_first(out: &mut String, v: &Vec<String>)
    ensures
        final(out)@ == old(out)@ + first_or_empty(v@),
{
    if v.len() > 0 {
        out.append(v[0].as_str());
    }
    proof {
        assert(out@ =~= old(out)@ + first_or_empty(v@));
    }
}

/// The feed entry of one work: id and acquisition link derived from the
/// numeric identifier, the synthesized content body, authors carried across
/// with no profile URI.
pub open spec fn work_entry_rel(w: Work, e: OpdsEntry) -> bool {
    &&& e.id@ == "/works/"@ + dec_digits(w.id as int)
    &&& e.updated@ == rfc3339_of(w.last_updated)
    &&& e.title@ == w.title@
    &&& e.content matches Some(c) && c@ == content_text(w)
    &&& e.authors matches Some(aa) && aa@.len() == w.authors.0@.len() && (forall|i: int|
        0 <= i < aa@.len() ==> (#[trigger] aa@[i].name)@ == w.authors.0@[i]@ && aa@[i].uri is None)
    &&& e.links@.len() == 1 && is_link(
        e.links@[0],
        OpdsLinkType::Epub,
        OpdsLinkRel::Acquisition,
        download_href(w.id as int),
    )
}

/// The record-to-entry mapping is stable: any two entries produced for the
/// same work carry identical ids, timestamps, titles, content text and
/// acquisition hrefs.
pub proof fn lemma_entry_mapping_stable(w: Work, e1: OpdsEntry, e2: OpdsEntry)
    requires
        work_entry_rel(w, e1),
        work_entry_rel(w, e2),
    ensures
        e1.id@ == e2.id@,
        e1.updated@ == e2.updated@,
        e1.title@ == e2.title@,
        e1.content matches Some(c1) && e2.content matches Some(c2) && c1@ == c2@,
        e1.links@[0].href@ == e2.links@[0].href@,
{
}

impl<'a> ToOpdsEntry for &'a Work {
    open spec fn entry_rel(self, e: OpdsEntry) -> bool {
        work_entry_rel(*self, e)
    }

    fn into_opds_entry(self) -> (r: OpdsEntry) {
        let num = u64_to_string(self.id);

        let mut id = String::new();
        id.append("/works/");
        id.append(num.as_str());

        let mut content = String::new();
        content.append("[");
        append_first(&mut content, &self.tags.warnings);
        content.append("], [");
        append_first(&mut content, &self.tags.relationships);
        content.append("], [");
        append_first(&mut content, &self.tags.characters);
        content.append("], [");
        append_first(&mut content, &self.tags.freeform);
        content.append("]\n");
        content.append(self.summary.as_str());
        proof {
            assert(content@ =~= content_text(*self));
        }

        let mut authors: Vec<StumpAuthor> = Vec::new();
        let n = self.authors.0.len();
        let mut i: usize = 0;
        while i < n
            invariant
                0 <= i <= n,
                n == self.authors.0@.len(),
                authors@.len() == i,
                forall|j: int|
                    0 <= j < i ==> (#[trigger] authors@[j].name)@ == self.authors.0@[j]@
                        && authors@[j].uri is None,
            decreases n - i,
        {
            authors.push(StumpAuthor { name: self.authors.0[i].clone(), uri: None });
            i += 1;
        }

        let mut href = String::new();
        href.append("https://archiveofourown.org/downloads/");
        href.append(num.as_str());
        href.append("/a.epub");
        proof {
            assert(href@ =~= download_href(self.id as int));
        }
        let mut links: Vec<OpdsLink> = Vec::new();
        links.push(OpdsLink::new(OpdsLinkType::Epub, OpdsLinkRel::Acquisition, href));

        OpdsEntry::new(
            id,
            self.last_updated,
            self.title.clone(),
            Some(content),
            Some(authors),
            Some(links),
        )
    }
}

} // verus!
