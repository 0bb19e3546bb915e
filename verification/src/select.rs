//! Selector utilities over the markup tree, and the trusted boundary to the
//! HTML engine.
//!
//! What a selector matches depends on the document, which stays opaque here;
//! the utilities therefore promise exactly which failures they can produce,
//! and every text-level rule is verified downstream in functions that take
//! the selected text as an argument.

use vstd::prelude::*;

use scraper::{ElementRef, Html, Selector};

use crate::errors::ExtractError;

verus! {

#[verifier::external_type_specification]
#[verifier::external_body]
pub struct ExHtml(Html);

#[verifier::external_type_specification]
#[verifier::external_body]
pub struct ExSelector(Selector);

#[verifier::external_type_specification]
#[verifier::external_body]
pub struct ExElementRef<'a>(ElementRef<'a>);

/// Relies on `scraper::Html::parse_document`: parses any string into a
/// document tree (HTML parsing never fails; malformed input yields a
/// best-effort tree).
#[verifier::external_body]
pub(crate) fn parse_document(markup: &str) -> Html {
    Html::parse_document(markup)
}

/// Relies on `scraper::Html::root_element`. A document built by
/// `parse_document` always holds a root `html` element, so the call does not
/// panic for the documents this crate builds.
#[verifier::external_body]
pub(crate) fn root_element(doc: &Html) -> ElementRef<'_> {
    doc.root_element()
}

/// Relies on `scraper::Selector::parse`: `Some` exactly when the selector
/// text is valid; the error only borrows the text, so it is dropped here.
#[verifier::external_body]
pub(crate) fn parse_selector(selector: &str) -> Option<Selector> {
    Selector::parse(selector).ok()
}

/// Relies on `scraper::ElementRef::select`: the first descendant element
/// matching the selector, in tree order, if any.
#[verifier::external_body]
pub(crate) fn select_first_node<'a>(el: &ElementRef<'a>, sel: &Selector) -> Option<ElementRef<'a>> {
    el.select(sel).next()
}

/// Relies on `scraper::ElementRef::select`: every descendant element matching
/// the selector, in tree order; possibly none.
#[verifier::external_body]
pub(crate) fn select_all_nodes<'a>(el: &ElementRef<'a>, sel: &Selector) -> Vec<ElementRef<'a>> {
    el.select(sel).collect()
}

/// Relies on `scraper::ElementRef::text`: the concatenation of every
/// descendant text node, in tree order.
#[verifier::external_body]
pub(crate) fn text_concat(el: &ElementRef<'_>) -> String {
    el.text().collect::<String>()
}

/// Relies on `scraper::ElementRef::text`: the first descendant text node,
/// if any.
#[verifier::external_body]
pub(crate) fn first_text(el: &ElementRef<'_>) -> Option<String> {
    el.text().next().map(|t| t.to_string())
}

/// Relies on `scraper::ElementRef::attr`: the element's value for the named
/// attribute, if it carries one.
#[verifier::external_body]
pub(crate) fn attr_value(el: &ElementRef<'_>, name: &str) -> Option<String> {
    el.attr(name).map(|t| t.to_string())
}

/// The first node matching `selector`, or `BadSelector` / `NotFound` naming
/// the selector.
pub(crate) fn select_next<'a>(html: &ElementRef<'a>, selector: &str) -> (r: Result<
    ElementRef<'a>,
    ExtractError,
>)
    ensures
        r matches Err(e) ==> (e matches ExtractError::BadSelector(t) && t@ == selector@) || (
        e matches ExtractError::NotFound(t) && t@ == selector@),
{
    let sel = match parse_selector(selector) {
        Some(s) => s,
        None => {
            return Err(ExtractError::BadSelector(selector.to_owned()));
        },
    };
    match select_first_node(html, &sel) {
        Some(el) => Ok(el),
        None => Err(ExtractError::NotFound(selector.to_owned())),
    }
}

/// The first matching node's first text node, or `NoText`.
pub(crate) fn select_next_str<'a>(html: &ElementRef<'a>, selector: &str) -> (r: Result<
    String,
    ExtractError,
>)
    ensures
        r matches Err(e) ==> e matches ExtractError::BadSelector(_) || e
            matches ExtractError::NotFound(_) || e is NoText,
{
    let el = match select_next(html, selector) {
        Ok(el) => el,
        Err(e) => {
            return Err(e);
        },
    };
    match first_text(&el) {
        Some(t) => Ok(t),
        None => Err(ExtractError::NoText),
    }
}

/// The first matching node's concatenated text (possibly empty).
pub(crate) fn select_string<'a>(html: &ElementRef<'a>, selector: &str) -> (r: Result<
    String,
    ExtractError,
>)
    ensures
        r matches Err(e) ==> e matches ExtractError::BadSelector(_) || e
            matches ExtractError::NotFound(_),
{
    match select_next(html, selector) {
        Ok(el) => Ok(text_concat(&el)),
        Err(e) => Err(e),
    }
}

/// The first matching node's text as a counter: thousands separators
/// stripped, `NotNumeric` when what remains is not a number.
pub(crate) fn select_int<'a>(html: &ElementRef<'a>, selector: &str) -> (r: Result<
    u32,
    ExtractError,
>)
    ensures
        r matches Err(e) ==> e matches ExtractError::BadSelector(_) || e
            matches ExtractError::NotFound(_) || e is NotNumeric,
{
    let text = match select_string(html, selector) {
        Ok(t) => t,
        Err(e) => {
            return Err(e);
        },
    };
    match crate::text::parse_count(text.as_str()) {
        Some(v) => Ok(v),
        None => Err(ExtractError::NotNumeric),
    }
}

/// The first matching node's value for `attr`, or `AttributeMissing` naming
/// the attribute.
pub(crate) fn select_next_attr<'a>(html: &ElementRef<'a>, selector: &str, attr: &str) -> (r: Result<
    String,
    ExtractError,
>)
    ensures
        r matches Err(e) ==> e matches ExtractError::BadSelector(_) || e
            matches ExtractError::NotFound(_) || (e matches ExtractError::AttributeMissing(a)
            && a@ == attr@),
{
    let el = match select_next(html, selector) {
        Ok(el) => el,
        Err(e) => {
            return Err(e);
        },
    };
    match attr_value(&el, attr) {
        Some(v) => Ok(v),
        None => Err(ExtractError::AttributeMissing(attr.to_owned())),
    }
}

/// Every matching node (possibly none); fails only on a malformed selector.
pub(crate) fn select_all<'a>(html: &ElementRef<'a>, selector: &str) -> (r: Result<
    Vec<ElementRef<'a>>,
    ExtractError,
>)
    ensures
        r matches Err(e) ==> e matches ExtractError::BadSelector(t) && t@ == selector@,
{
    match parse_selector(selector) {
        Some(sel) => Ok(select_all_nodes(html, &sel)),
        None => Err(ExtractError::BadSelector(selector.to_owned())),
    }
}

/// Runs a selector against a whole markup document and returns the first
/// match's concatenated text.
pub fn select_string_from_markup(markup: &str, selector: &str) -> (r: Result<String, ExtractError>)
    ensures
        r matches Err(e) ==> e matches ExtractError::BadSelector(_) || e
            matches ExtractError::NotFound(_),
{
    let doc = parse_document(markup);
    let root = root_element(&doc);
    select_string(&root, selector)
}

/// Runs a selector against a whole markup document and reads the first
/// match's text as a counter.
pub fn select_int_from_markup(markup: &str, selector: &str) -> (r: Result<u32, ExtractError>)
    ensures
        r matches Err(e) ==> e matches ExtractError::BadSelector(_) || e
            matches ExtractError::NotFound(_) || e is NotNumeric,
{
    let doc = parse_document(markup);
    let root = root_element(&doc);
    select_int(&root, selector)
}

} // verus!
