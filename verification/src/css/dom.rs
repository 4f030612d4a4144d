//! The calls into scraper that parse HTML and match selectors against its
//! elements.
//!
//! A parsed document keeps the text it was parsed from and whether it was
//! read as a fragment. Elements are addressed by their index in document
//! order, the root element first, as `select("*")` under the root yields
//! the others. scraper parses and matches deterministically, so what each
//! call returns is a function of the text, the way it was read, the index
//! and the selector. Those functions are named here (the `dom_` names);
//! nothing more of them is stated.

use scraper::{Html, Selector};
use vstd::prelude::*;

verus! {

#[verifier::external_type_specification]
#[verifier::external_body]
pub struct ExHtml(Html);

/// A parsed HTML text, with the text and whether it was read as a
/// fragment. Only `parse_html` makes one.
pub struct Document<'t> {
    html: Html,
    text: &'t str,
    fragment: bool,
}

impl<'t> Document<'t> {
    /// The text the document was parsed from.
    pub closed spec fn source(&self) -> Seq<char> {
        self.text@
    }

    /// Whether the text was read as a fragment rather than a document.
    pub closed spec fn is_fragment(&self) -> bool {
        self.fragment
    }

    /// The text read as a whole document (`Html::parse_document`).
    pub fn document(content: &'t str) -> (r: Document<'t>)
        ensures
            r.source() == content@,
            !r.is_fragment(),
    {
        parse_html(content, false)
    }

    /// The text read as a fragment (`Html::parse_fragment`).
    pub fn fragment(content: &'t str) -> (r: Document<'t>)
        ensures
            r.source() == content@,
            r.is_fragment(),
    {
        parse_html(content, true)
    }
}

/// `Html::parse_fragment` when `fragment`, else `Html::parse_document`; the
/// document keeps the text and the way it was read.
#[verifier::external_body]
fn parse_html<'t>(content: &'t str, fragment: bool) -> (r: Document<'t>)
    ensures
        r.source() == content@,
        r.is_fragment() == fragment,
{
    let html = if fragment { Html::parse_fragment(content) } else { Html::parse_document(content) };
    Document { html, text: content, fragment }
}

/// The number of elements of the text read as a fragment or a document.
pub uninterp spec fn dom_element_count(text: Seq<char>, fragment: bool) -> usize;

/// The number of elements: the root element and the ones that
/// `select("*")` yields under it. Named `dom_element_count`.
#[verifier::external_body]
pub(crate) fn element_count(doc: &Document) -> (n: usize)
    ensures
        n == dom_element_count(doc.source(), doc.is_fragment()),
{
    let root = doc.html.root_element();
    let all = Selector::parse("*").ok();
    std::iter::once(root).chain(all.iter().flat_map(|s| root.select(s))).count()
}

/// The tag name of the `i`th element.
pub uninterp spec fn dom_element_name(text: Seq<char>, fragment: bool, i: usize) -> Seq<char>;

/// The tag name of the `i`th element, named `dom_element_name`.
#[verifier::external_body]
pub(crate) fn element_name(doc: &Document, i: usize) -> (t: String)
    ensures
        t@ == dom_element_name(doc.source(), doc.is_fragment(), i),
{
    let root = doc.html.root_element();
    let all = Selector::parse("*").ok();
    let mut rest = all.iter().flat_map(|s| root.select(s));
    std::iter::once(root).chain(&mut rest).nth(i).map_or(String::new(), |e| e.value().name().to_string())
}

/// The `class` attribute of the `i`th element.
pub uninterp spec fn dom_element_class(text: Seq<char>, fragment: bool, i: usize) -> Option<Seq<char>>;

/// The `class` attribute of the `i`th element, if it has one, named
/// `dom_element_class`.
#[verifier::external_body]
pub(crate) fn element_class(doc: &Document, i: usize) -> (t: Option<String>)
    ensures
        match t {
            Some(c) => dom_element_class(doc.source(), doc.is_fragment(), i) == Some(c@),
            None => dom_element_class(doc.source(), doc.is_fragment(), i) is None,
        },
{
    let root = doc.html.root_element();
    let all = Selector::parse("*").ok();
    let mut rest = all.iter().flat_map(|s| root.select(s));
    std::iter::once(root).chain(&mut rest).nth(i).and_then(|e| e.value().attr("class").map(|c| c.to_string()))
}

/// Whether the selector matches the `i`th element; none when it does not
/// parse (or there is no such element).
pub uninterp spec fn dom_matches(text: Seq<char>, fragment: bool, i: usize, selector: Seq<char>) -> Option<bool>;

/// Whether the selector `selector` (`Selector::parse`) matches the `i`th
/// element (`Selector::matches`); `None` when it does not parse. Named
/// `dom_matches`.
#[verifier::external_body]
pub(crate) fn element_matches(doc: &Document, i: usize, selector: &str) -> (m: Option<bool>)
    ensures
        m == dom_matches(doc.source(), doc.is_fragment(), i, selector@),
{
    let root = doc.html.root_element();
    let all = Selector::parse("*").ok();
    let mut rest = all.iter().flat_map(|s| root.select(s));
    let element = std::iter::once(root).chain(&mut rest).nth(i)?;
    Selector::parse(selector).ok().map(|s| s.matches(&element))
}

} // verus!
