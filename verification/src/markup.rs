//! The parsed page: what the library takes from the `scraper` crate.

use crate::listing::{text_of, texts_of};
use vstd::prelude::*;

verus! {

/// `scraper::Html`, a parsed document: nothing inside it is visible here.
#[verifier::external_type_specification]
#[verifier::external_body]
pub struct ExHtml(scraper::Html);

/// `scraper::ElementRef`, an element of a parsed document: nothing inside
/// it is visible here.
#[verifier::external_type_specification]
#[verifier::external_body]
pub struct ExElementRef<'a>(scraper::ElementRef<'a>);

/// The document that `scraper::Html::parse_document` builds from a markup
/// text.
pub uninterp spec fn parsed_document(markup: Seq<char>) -> scraper::Html;

/// The elements of a document that match a selector, in the order in which
/// `scraper::Html::select` yields them; none where the selector is not valid.
pub uninterp spec fn document_matches(doc: &scraper::Html, selector: Seq<char>) -> Seq<
    scraper::ElementRef<'_>,
>;

/// The elements below an element that match a selector, in the order in
/// which `scraper::ElementRef::select` yields them; none where the selector
/// is not valid.
pub uninterp spec fn element_matches(
    element: scraper::ElementRef<'_>,
    selector: Seq<char>,
) -> Seq<scraper::ElementRef<'_>>;

/// The texts of the text nodes below an element, in the order in which
/// `scraper::ElementRef::text` yields them.
pub uninterp spec fn element_chunks(element: scraper::ElementRef<'_>) -> Seq<Seq<char>>;

/// The value that `scraper::ElementRef::attr` gives for an attribute name.
pub uninterp spec fn element_attribute(
    element: scraper::ElementRef<'_>,
    name: Seq<char>,
) -> Option<Seq<char>>;

/// Parses markup with `scraper::Html::parse_document`, which takes any text
/// and always gives a document; the document depends on the text alone.
#[verifier::external_body]
pub(crate) fn parse_document(markup: &str) -> (doc: scraper::Html)
    ensures
        doc == parsed_document(markup@),
{
    scraper::Html::parse_document(markup)
}

/// Parses the selector with `scraper::Selector::parse` and collects what
/// `scraper::Html::select` yields for it; a selector that does not parse
/// matches nothing.
#[verifier::external_body]
pub(crate) fn select_in_document<'a>(doc: &'a scraper::Html, selector: &str) -> (found: Vec<
    scraper::ElementRef<'a>,
>)
    ensures
        found@ == document_matches(doc, selector@),
{
    match scraper::Selector::parse(selector) {
        Ok(parsed) => doc.select(&parsed).collect(),
        Err(_) => Vec::new(),
    }
}

/// Parses the selector with `scraper::Selector::parse` and collects what
/// `scraper::ElementRef::select` yields for it below the element; a selector
/// that does not parse matches nothing.
#[verifier::external_body]
pub(crate) fn select_in_element<'a>(element: &scraper::ElementRef<'a>, selector: &str) -> (found:
    Vec<scraper::ElementRef<'a>>)
    ensures
        found@ == element_matches(*element, selector@),
{
    match scraper::Selector::parse(selector) {
        Ok(parsed) => element.select(&parsed).collect(),
        Err(_) => Vec::new(),
    }
}

/// Collects what `scraper::ElementRef::text` yields: the text nodes below
/// the element, in document order.
#[verifier::external_body]
pub(crate) fn text_chunks(element: &scraper::ElementRef<'_>) -> (chunks: Vec<String>)
    ensures
        texts_of(chunks@) == element_chunks(*element),
{
    element.text().map(String::from).collect()
}

/// Reads an attribute with `scraper::ElementRef::attr`: its value, or `None`
/// where the element has no such attribute.
#[verifier::external_body]
pub(crate) fn attribute(element: &scraper::ElementRef<'_>, name: &str) -> (value: Option<String>)
    ensures
        text_of(value) == element_attribute(*element, name@),
{
    element.attr(name).map(String::from)
}

} // verus!
