//! Record extraction: gathers the text fields of one work fragment through
//! the selector utilities and hands them to the verified typed step.
//!
//! What a selector yields depends on the document, which is opaque here, so
//! these functions promise the shape of their failures and the
//! well-formedness of what they build; every text-level rule is stated and
//! proved on `Work::from_raw` and the parsing functions it calls.

use vstd::prelude::*;

use scraper::ElementRef;

use crate::dates::date_valid;
use crate::errors::ExtractError;
use crate::select::{
    attr_value, first_text, parse_document, root_element, select_all, select_next,
    select_next_attr, select_next_str, select_string,
};
use crate::work::{chapters_wf, Authors, RawSeries, RawWork, SeriesRef, Tags, Work};

verus! {

impl Authors {
    /// Every author-link node within the fragment contributes one name; zero
    /// authors is not an error, but a matched link with no text is.
    pub fn from_element(element: &ElementRef<'_>) -> (r: Result<Authors, ExtractError>)
        ensures
            r matches Err(e) ==> e matches ExtractError::BadSelector(_) || e is NoText,
    {
        let nodes = match select_all(element, "a[rel=\"author\"]") {
            Ok(v) => v,
            Err(e) => {
                return Err(e);
            },
        };
        let mut authors: Vec<String> = Vec::new();
        let n = nodes.len();
        let mut i: usize = 0;
        while i < n
            invariant
                0 <= i <= n,
                n == nodes@.len(),
            decreases n - i,
        {
            match first_text(&nodes[i]) {
                Some(t) => authors.push(t),
                None => {
                    return Err(ExtractError::NoText);
                },
            }
            i += 1;
        }
        Ok(Authors(authors))
    }
}

/// Collects the text of the first `a` under every node the selector matches.
fn collect_link_texts(element: &ElementRef<'_>, selector: &str) -> (r: Result<
    Vec<String>,
    ExtractError,
>)
    ensures
        r matches Err(e) ==> e matches ExtractError::BadSelector(_) || e
            matches ExtractError::NotFound(_) || e is NoText,
{
    let nodes = match select_all(element, selector) {
        Ok(v) => v,
        Err(e) => {
            return Err(e);
        },
    };
    let mut texts: Vec<String> = Vec::new();
    let n = nodes.len();
    let mut i: usize = 0;
    while i < n
        invariant
            0 <= i <= n,
            n == nodes@.len(),
        decreases n - i,
    {
        match select_next_str(&nodes[i], "a") {
            Ok(t) => texts.push(t),
            Err(e) => {
                return Err(e);
            },
        }
        i += 1;
    }
    Ok(texts)
}

impl Tags {
    /// The single content warning is required; the relationship, character
    /// and free-form lists each collect all matches, empty allowed.
    pub fn from_element(element: &ElementRef<'_>) -> (r: Result<Tags, ExtractError>)
        ensures
            r matches Ok(t) ==> t.warnings@.len() == 1,
            r matches Err(e) ==> e matches ExtractError::BadSelector(_) || e
                matches ExtractError::NotFound(_) || e is NoText,
    {
        let relationships = match collect_link_texts(element, "li.relationships") {
            Ok(v) => v,
            Err(e) => {
                return Err(e);
            },
        };
        let characters = match collect_link_texts(element, "li.characters") {
            Ok(v) => v,
            Err(e) => {
                return Err(e);
            },
        };
        let freeform = match collect_link_texts(element, "li.freeforms") {
            Ok(v) => v,
            Err(e) => {
                return Err(e);
            },
        };
        let warning = match select_next_str(element, "li.warnings > strong > a") {
            Ok(t) => t,
            Err(e) => {
                return Err(e);
            },
        };
        let mut warnings: Vec<String> = Vec::new();
        warnings.push(warning);
        Ok(Tags { warnings, relationships, characters, freeform })
    }
}

/// Gathers the text fields of a series block; any missing part fails the
/// gather, and the caller treats that as "no series".
fn gather_series(element: &ElementRef<'_>) -> (r: Result<RawSeries, ExtractError>)
    ensures
        r matches Err(e) ==> e matches ExtractError::BadSelector(_) || e
            matches ExtractError::NotFound(_) || e is NoText || (
        e matches ExtractError::AttributeMissing(a) && a@ == "href"@),
{
    let part_text = match select_string(element, "li > strong") {
        Ok(t) => t,
        Err(e) => {
            return Err(e);
        },
    };
    let name = match select_next_str(element, "a") {
        Ok(t) => t,
        Err(e) => {
            return Err(e);
        },
    };
    let uri = match select_next_attr(element, "a", "href") {
        Ok(t) => t,
        Err(e) => {
            return Err(e);
        },
    };
    Ok(RawSeries { part_text, name, uri })
}

impl SeriesRef {
    /// Extracts a series reference from its block: the position from the
    /// part marker (thousands separators stripped), the name from the link
    /// text, the URI from the link's href. Which failures it can produce is
    /// pinned; when each comes depends on the document.
    pub fn from_element(element: &ElementRef<'_>) -> (r: Result<SeriesRef, ExtractError>)
        ensures
            r matches Err(e) ==> e matches ExtractError::BadSelector(_) || e
                matches ExtractError::NotFound(_) || e is NoText || (
            e matches ExtractError::AttributeMissing(a) && a@ == "href"@) || e is NotNumeric,
    {
        let raw = match gather_series(element) {
            Ok(rs) => rs,
            Err(e) => {
                return Err(e);
            },
        };
        let part = match crate::text::parse_count(raw.part_text.as_str()) {
            Some(v) => v,
            None => {
                return Err(ExtractError::NotNumeric);
            },
        };
        Ok(SeriesRef { name: raw.name, uri: raw.uri, part })
    }
}

impl Work {
    /// Extracts one work record from its fragment: gathers every text field
    /// through the selector utilities, then runs the verified typed step.
    /// Any required field whose selector fails fails the whole record.
    pub fn from_element(element: &ElementRef<'_>) -> (r: Result<Work, ExtractError>)
        ensures
            r matches Ok(w) ==> w.tags.warnings@.len() == 1 && date_valid(w.last_updated)
                && chapters_wf(w.chapters),
            r matches Err(e) ==> e matches ExtractError::BadSelector(_) || e
                matches ExtractError::NotFound(_) || e is NoText || (
            e matches ExtractError::AttributeMissing(a) && a@ == "href"@) || e is NotNumeric,
    {
        let heading = match select_next(element, "h4.heading") {
            Ok(el) => el,
            Err(e) => {
                return Err(e);
            },
        };
        let title = match select_next_str(&heading, "a") {
            Ok(t) => t,
            Err(e) => {
                return Err(e);
            },
        };
        let href = match select_next_attr(&heading, "a", "href") {
            Ok(t) => t,
            Err(e) => {
                return Err(e);
            },
        };
        let authors = match Authors::from_element(&heading) {
            Ok(a) => a,
            Err(e) => {
                return Err(e);
            },
        };
        let datetime_text = match select_next_str(element, "div > p.datetime") {
            Ok(t) => t,
            Err(e) => {
                return Err(e);
            },
        };
        let chapters_text = match select_string(element, "dl.stats > dd.chapters") {
            Ok(t) => t,
            Err(e) => {
                return Err(e);
            },
        };
        let series = match select_next(element, "ul.series") {
            Ok(el) => match gather_series(&el) {
                Ok(rs) => Some(rs),
                // a present-but-malformed series block reads as "no series"
                Err(_) => None,
            },
            Err(_) => None,
        };
        let tags_element = match select_next(element, "ul.tags") {
            Ok(el) => el,
            Err(e) => {
                return Err(e);
            },
        };
        let tags = match Tags::from_element(&tags_element) {
            Ok(t) => t,
            Err(e) => {
                return Err(e);
            },
        };
        let summary = match select_string(element, "blockquote.summary") {
            Ok(t) => t,
            Err(e) => {
                return Err(e);
            },
        };
        let language = match select_next_str(element, "dl.stats > dd.language") {
            Ok(t) => t,
            Err(e) => {
                return Err(e);
            },
        };
        let words_text = match select_string(element, "dl.stats > dd.words") {
            Ok(t) => t,
            Err(e) => {
                return Err(e);
            },
        };
        let comments_text = match select_string(element, "dl.stats > dd.comments > a") {
            Ok(t) => t,
            Err(e) => {
                return Err(e);
            },
        };
        let kudos_text = match select_string(element, "dl.stats > dd.kudos > a") {
            Ok(t) => t,
            Err(e) => {
                return Err(e);
            },
        };
        let bookmarks_text = match select_string(element, "dl.stats > dd.bookmarks > a") {
            // the upstream page omits the node entirely for zero-bookmark works
            Ok(t) => Some(t),
            Err(_) => None,
        };
        let hits_text = match select_string(element, "dl.stats > dd.hits") {
            Ok(t) => t,
            Err(e) => {
                return Err(e);
            },
        };
        let raw = RawWork {
            title,
            href,
            datetime_text,
            chapters_text,
            summary,
            language,
            words_text,
            comments_text,
            kudos_text,
            bookmarks_text,
            hits_text,
            authors: authors.0,
            tags,
            series,
        };
        Work::from_raw(raw)
    }

    /// Extracts one work record from a whole markup document.
    pub fn from_markup(markup: &str) -> (r: Result<Work, ExtractError>)
        ensures
            r matches Ok(w) ==> w.tags.warnings@.len() == 1 && date_valid(w.last_updated)
                && chapters_wf(w.chapters),
            r matches Err(e) ==> e matches ExtractError::BadSelector(_) || e
                matches ExtractError::NotFound(_) || e is NoText || (
            e matches ExtractError::AttributeMissing(a) && a@ == "href"@) || e is NotNumeric,
    {
        let doc = parse_document(markup);
        let root = root_element(&doc);
        Work::from_element(&root)
    }
}

/// Pulls the hidden authenticity token out of a login page: the value
/// attribute of the token input, the empty string when the page carries no
/// such input at all.
pub fn authenticity_token_from_markup(markup: &str) -> (r: Result<String, ExtractError>)
    ensures
        r matches Err(e) ==> e matches ExtractError::BadSelector(_) || (
        e matches ExtractError::AttributeMissing(a) && a@ == "value"@),
{
    let doc = parse_document(markup);
    let root = root_element(&doc);
    match select_next(&root, "input[name=\"authenticity_token\"]") {
        Ok(el) => match attr_value(&el, "value") {
            Some(v) => Ok(v),
            None => Err(ExtractError::AttributeMissing("value".to_owned())),
        },
        Err(e) => match e {
            ExtractError::NotFound(_) => Ok(String::new()),
            other => Err(other),
        },
    }
}

} // verus!
