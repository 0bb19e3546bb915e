//! Reading-history records: a work plus visit metadata, and the listing page
//! that carries them.
//!
//! The visit metadata comes from one free-text block shaped as blank-line
//! separated segments: `Last visited: <date>`, a change phrase, and
//! `Visited <count>`. The block parse is total: an unrecognized date falls
//! back to the sentinel, an unrecognized phrase is preserved verbatim, and
//! an unrecognized count reads as zero.

use vstd::prelude::*;

use scraper::ElementRef;

use crate::dates::{ao3_dt_parse, date_of_text, date_valid, sentinel_date, AoDate};
use crate::errors::ExtractError;
use crate::opds::entry::{OpdsEntry, ToOpdsEntry};
use crate::opds::feed::{nav_links_ok, OpdsFeed};
use crate::select::{parse_document, root_element, select_all, select_next, text_concat};
use crate::text::{
    find_eq, find_ne, spec_starts_with, str_eq, str_starts_with, u64_to_string, visit_count_val,
};
use crate::work::{chapters_wf, work_entry_rel, Work};

verus! {

/// Whether a work changed since the last visit; unrecognized upstream copy
/// is preserved verbatim rather than failing.
#[derive(Debug)]
pub enum Changed {
    Latest,
    Minor,
    Updated,
    Unknown(String),
}

/// Which change state a phrase denotes.
pub open spec fn changed_matches(c: Changed, line: Seq<char>) -> bool {
    if line == "Latest version."@ {
        c is Latest
    } else if line == "Minor edits made since then."@ {
        c is Minor
    } else if line == "Update available."@ {
        c is Updated
    } else {
        c matches Changed::Unknown(t) && t@ == line
    }
}

/// Matches a change phrase against the closed set of known phrases.
pub fn changed_of(line: &str) -> (c: Changed)
    ensures
        changed_matches(c, line@),
{
    if str_eq(line, "Latest version.") {
        Changed::Latest
    } else if str_eq(line, "Minor edits made since then.") {
        Changed::Minor
    } else if str_eq(line, "Update available.") {
        Changed::Updated
    } else {
        Changed::Unknown(line.to_owned())
    }
}

/// The first three newline-separated non-empty lines of the block.
pub open spec fn block_lines(s: Seq<char>) -> (Seq<char>, Seq<char>, Seq<char>) {
    let i0 = find_ne(s, 0, '\n');
    let e0 = find_eq(s, i0, '\n');
    let i1 = find_ne(s, e0, '\n');
    let e1 = find_eq(s, i1, '\n');
    let i2 = find_ne(s, e1, '\n');
    let e2 = find_eq(s, i2, '\n');
    (s.subrange(i0, e0), s.subrange(i1, e1), s.subrange(i2, e2))
}

/// The visit date the block denotes: the text after `Last visited: ` on the
/// first line, or the sentinel.
pub open spec fn visit_date_of(s: Seq<char>) -> AoDate {
    let l0 = block_lines(s).0;
    if spec_starts_with(l0, "Last visited: "@) {
        date_of_text(l0.skip("Last visited: "@.len() as int))
    } else {
        sentinel_date()
    }
}

/// The visit count the block denotes: the text after `Visited ` on the third
/// line, or zero.
pub open spec fn visit_count_of(s: Seq<char>) -> int {
    let l2 = block_lines(s).2;
    if spec_starts_with(l2, "Visited "@) {
        visit_count_val(l2.skip("Visited "@.len() as int))
    } else {
        0
    }
}

/// Parses the visit block; total on every input.
pub fn parse_history_block(s: &str) -> (r: (AoDate, Changed, u32))
    ensures
        r.0 == visit_date_of(s@),
        date_valid(r.0),
        changed_matches(r.1, block_lines(s@).1),
        r.2 == (if visit_count_of(s@) <= u32::MAX {
            visit_count_of(s@)
        } else {
            0
        }),
{
    let i0 = crate::text::scan_ne(s, 0, '\n');
    let e0 = crate::text::scan_eq(s, i0, '\n');
    let i1 = crate::text::scan_ne(s, e0, '\n');
    let e1 = crate::text::scan_eq(s, i1, '\n');
    let i2 = crate::text::scan_ne(s, e1, '\n');
    let e2 = crate::text::scan_eq(s, i2, '\n');
    let l0 = s.substring_char(i0, e0);
    let l1 = s.substring_char(i1, e1);
    let l2 = s.substring_char(i2, e2);
    proof {
        assert(l0@ =~= block_lines(s@).0);
        assert(l1@ =~= block_lines(s@).1);
        assert(l2@ =~= block_lines(s@).2);
    }

    let date = if str_starts_with(l0, "Last visited: ") {
        let plen = "Last visited: ".unicode_len();
        let rest = l0.substring_char(plen, l0.unicode_len());
        proof {
            assert(rest@ =~= l0@.skip("Last visited: "@.len() as int));
        }
        ao3_dt_parse(rest)
    } else {
        proof {
            crate::dates::lemma_date_of_text_valid(Seq::<char>::empty());
        }
        AoDate::sentinel()
    };

    let changed = changed_of(l1);

    let visited = if str_starts_with(l2, "Visited ") {
        let plen = "Visited ".unicode_len();
        let rest = l2.substring_char(plen, l2.unicode_len());
        proof {
            assert(rest@ =~= l2@.skip("Visited "@.len() as int));
        }
        crate::text::visited_count(rest)
    } else {
        0
    };

    (date, changed, visited)
}

/// One history record: a work plus its visit metadata.
#[derive(Debug)]
pub struct HistoryWork {
    pub work: Work,
    pub last_visited: AoDate,
    pub changed: Changed,
    pub visited: u32,
}

impl HistoryWork {
    /// Extracts one history record from its fragment: the visit block from
    /// the user heading, the work record from the rest.
    pub fn from_element(element: &ElementRef<'_>) -> (r: Result<HistoryWork, ExtractError>)
        ensures
            r matches Ok(h) ==> date_valid(h.last_visited) && date_valid(h.work.last_updated)
                && chapters_wf(h.work.chapters),
            r matches Err(e) ==> e matches ExtractError::BadSelector(_) || e
                matches ExtractError::NotFound(_) || e is NoText || (
            e matches ExtractError::AttributeMissing(a) && a@ == "href"@) || e is NotNumeric,
    {
        let visited_el = match select_next(element, "div.user > h4") {
            Ok(el) => el,
            Err(e) => {
                return Err(e);
            },
        };
        let block = text_concat(&visited_el);
        let (last_visited, changed, visited) = parse_history_block(block.as_str());
        let work = match Work::from_element(element) {
            Ok(w) => w,
            Err(e) => {
                return Err(e);
            },
        };
        Ok(HistoryWork { work, last_visited, changed, visited })
    }
}

impl<'a> ToOpdsEntry for &'a HistoryWork {
    /// A history record republishes as the entry of its work.
    open spec fn entry_rel(self, e: OpdsEntry) -> bool {
        work_entry_rel(self.work, e)
    }

    fn into_opds_entry(self) -> (r: OpdsEntry) {
        (&self.work).into_opds_entry()
    }
}

/// One listing page of history records with its pagination flags.
#[derive(Debug)]
pub struct HistoryPage {
    pub history: Vec<HistoryWork>,
    pub page: usize,
    pub has_next: bool,
    pub has_prev: bool,
}

impl HistoryPage {
    /// Extracts a whole listing page: every record fragment in order (one
    /// broken record fails the page), and the pagination flags from the
    /// pager controls. The first page never reports a previous page.
    pub fn from_element(element: &ElementRef<'_>, page: usize) -> (r: Result<
        HistoryPage,
        ExtractError,
    >)
        requires
            page >= 1,
        ensures
            r matches Ok(p) ==> p.page == page && (page == 1 ==> !p.has_prev) && (forall|i: int|
                0 <= i < p.history@.len() ==> chapters_wf(
                    (#[trigger] p.history@[i]).work.chapters,
                )),
            r matches Err(e) ==> e matches ExtractError::BadSelector(_) || e
                matches ExtractError::NotFound(_) || e is NoText || (
            e matches ExtractError::AttributeMissing(a) && a@ == "href"@) || e is NotNumeric,
    {
        let nodes = match select_all(element, "ol.reading.index > li.reading.blurb") {
            Ok(v) => v,
            Err(e) => {
                return Err(e);
            },
        };
        let mut history: Vec<HistoryWork> = Vec::new();
        let n = nodes.len();
        let mut i: usize = 0;
        while i < n
            invariant
                0 <= i <= n,
                n == nodes@.len(),
                history@.len() == i,
                forall|j: int|
                    0 <= j < i ==> chapters_wf((#[trigger] history@[j]).work.chapters),
            decreases n - i,
        {
            match HistoryWork::from_element(&nodes[i]) {
                Ok(h) => history.push(h),
                Err(e) => {
                    return Err(e);
                },
            }
            i += 1;
        }
        let prev_control = match select_next(element, "ol.pagination > li.previous > a") {
            Ok(_) => true,
            Err(_) => false,
        };
        let has_prev = page > 1 && prev_control;
        let has_next = match select_next(element, "ol.pagination > li.next > a") {
            Ok(_) => true,
            Err(_) => false,
        };
        Ok(HistoryPage { history, page, has_next, has_prev })
    }

    /// Extracts a listing page from a whole markup document.
    pub fn from_markup(markup: &str, page: usize) -> (r: Result<HistoryPage, ExtractError>)
        requires
            page >= 1,
        ensures
            r matches Ok(p) ==> p.page == page && (page == 1 ==> !p.has_prev) && (forall|i: int|
                0 <= i < p.history@.len() ==> chapters_wf(
                    (#[trigger] p.history@[i]).work.chapters,
                )),
            r matches Err(e) ==> e matches ExtractError::BadSelector(_) || e
                matches ExtractError::NotFound(_) || e is NoText || (
            e matches ExtractError::AttributeMissing(a) && a@ == "href"@) || e is NotNumeric,
    {
        let doc = parse_document(markup);
        let root = root_element(&doc);
        HistoryPage::from_element(&root, page)
    }

    /// Assembles this page into a feed: entries in record order, navigation
    /// links in the fixed order self, start, previous, next.
    pub fn to_feed(&self) -> (r: OpdsFeed)
        requires
            1 <= self.page < usize::MAX,
        ensures
            r.id@ == "history-page-"@ + crate::text::dec_digits(self.page as int),
            r.title@ == "History page "@ + crate::text::dec_digits(self.page as int),
            r.links matches Some(ls) && nav_links_ok(
                ls@,
                "history"@,
                self.page as int,
                self.has_next,
                self.has_prev,
            ),
            r.entries@.len() == self.history@.len(),
            forall|i: int|
                0 <= i < self.history@.len() ==> work_entry_rel(
                    self.history@[i].work,
                    #[trigger] r.entries@[i],
                ),
    {
        let num = u64_to_string(self.page as u64);
        let mut id = String::new();
        id.append("history-page-");
        id.append(num.as_str());
        let mut title = String::new();
        title.append("History page ");
        title.append(num.as_str());
        proof {
            assert(id@ =~= "history-page-"@ + crate::text::dec_digits(self.page as int));
            assert(title@ =~= "History page "@ + crate::text::dec_digits(self.page as int));
        }

        let mut data: Vec<&HistoryWork> = Vec::new();
        let n = self.history.len();
        let mut i: usize = 0;
        while i < n
            invariant
                0 <= i <= n,
                n == self.history@.len(),
                data@.len() == i,
                forall|j: int| 0 <= j < i ==> data@[j] == self.history@[j],
            decreases n - i,
        {
            data.push(&self.history[i]);
            i += 1;
        }

        OpdsFeed::paginated(
            id.as_str(),
            title.as_str(),
            "history",
            data,
            self.page,
            self.has_next,
            self.has_prev,
        )
    }
}

} // verus!
