//! The calls into the `scraper` crate. Each trusted item below parses HTML
//! text with `scraper::Html`, runs CSS selectors over it with
//! `scraper::Selector`, and hands back as plain strings what the library reads
//! of the matched elements: their inner HTML, their outer HTML or an attribute.
//! What scraper computes from an HTML text and a selector depends on those
//! texts alone, so each result has a name below; the contracts of the
//! library's functions speak of those names.
use ::scraper::{Html, Selector};

use vstd::prelude::*;

use crate::entities::table::{opt_text, texts};

verus! {

/// `scraper::Selector`, carried through unopened.
#[verifier::external_type_specification]
#[verifier::external_body]
pub struct ExSelector(::scraper::Selector);

/// Whether `scraper::Selector::parse` accepts the text as a CSS selector group.
pub uninterp spec fn selector_parses(selector: Seq<char>) -> bool;

/// The selector that `scraper::Selector::parse` compiles from the text, where it
/// accepts it.
pub uninterp spec fn compiled_selector(selector: Seq<char>) -> Selector;

/// The inner HTML of each element of the parsed document that matches the
/// selector, in the order in which `Html::select` yields them.
pub uninterp spec fn document_inner_html(document: Seq<char>, selector: Seq<char>) -> Seq<Seq<char>>;

/// The inner HTML of each element of the parsed fragment that matches the selector.
pub uninterp spec fn fragment_inner_html(fragment: Seq<char>, selector: Seq<char>) -> Seq<Seq<char>>;

/// The value of the attribute of each element of the parsed fragment that
/// matches the selector (`None` where the element lacks it).
pub uninterp spec fn fragment_attribute(
    fragment: Seq<char>,
    selector: Seq<char>,
    attribute: Seq<char>,
) -> Seq<Option<Seq<char>>>;

/// For each element of the parsed document that matches `outer`, the inner HTML
/// of each of its descendants that matches `inner`.
pub uninterp spec fn nested_inner_html(
    document: Seq<char>,
    outer: Seq<char>,
    inner: Seq<char>,
) -> Seq<Seq<Seq<char>>>;

/// For each element of the parsed document that matches `outer`, the value of the
/// attribute of each of its descendants that matches `inner`.
pub uninterp spec fn nested_attribute(
    document: Seq<char>,
    outer: Seq<char>,
    inner: Seq<char>,
    attribute: Seq<char>,
) -> Seq<Seq<Option<Seq<char>>>>;

/// For each element of the parsed document that matches `row`, for each of its
/// descendants that matches `cell`, the inner HTML of each of that cell's
/// descendants that matches `inner`.
pub uninterp spec fn cell_inner_html(
    document: Seq<char>,
    row: Seq<char>,
    cell: Seq<char>,
    inner: Seq<char>,
) -> Seq<Seq<Seq<Seq<char>>>>;

/// As `cell_inner_html`, with the outer HTML (`ElementRef::html`) of each match.
pub uninterp spec fn cell_outer_html(
    document: Seq<char>,
    row: Seq<char>,
    cell: Seq<char>,
    inner: Seq<char>,
) -> Seq<Seq<Seq<Seq<char>>>>;

/// The texts of a sequence of optional strings.
pub open spec fn opt_texts(v: Seq<Option<String>>) -> Seq<Option<Seq<char>>> {
    v.map_values(|o: Option<String>| opt_text(o))
}

/// The texts of a nested sequence of strings.
pub open spec fn texts2(v: Seq<Vec<String>>) -> Seq<Seq<Seq<char>>> {
    v.map_values(|w: Vec<String>| texts(w@))
}

/// The texts of a nested sequence of optional strings.
pub open spec fn opt_texts2(v: Seq<Vec<Option<String>>>) -> Seq<Seq<Option<Seq<char>>>> {
    v.map_values(|w: Vec<Option<String>>| opt_texts(w@))
}

/// The texts of a doubly nested sequence of strings.
pub open spec fn texts3(v: Seq<Vec<Vec<String>>>) -> Seq<Seq<Seq<Seq<char>>>> {
    v.map_values(|w: Vec<Vec<String>>| texts2(w@))
}

/// `Selector::parse(selector)`. Claims: `None` exactly where scraper refuses the
/// selector; else the selector it compiles from the text (a function of the
/// text alone).
#[verifier::external_body]
pub(crate) fn parse_selector(selector: &str) -> (r: Option<Selector>)
    ensures
        r is Some <==> selector_parses(selector@),
        r matches Some(sel) ==> sel == compiled_selector(selector@),
{
    Selector::parse(selector).ok()
}

/// `Html::parse_document(document).select(selector)`, each match's `inner_html()`.
/// Claims: `None` exactly when scraper refuses the selector; else the named result.
#[verifier::external_body]
pub(crate) fn select_inner_html(document: &str, selector: &str) -> (r: Option<Vec<String>>)
    ensures
        r is Some <==> selector_parses(selector@),
        r matches Some(v) ==> texts(v@) == document_inner_html(document@, selector@),
{
    let sel = Selector::parse(selector).ok()?;
    Some(Html::parse_document(document).select(&sel).map(|e| e.inner_html()).collect())
}

/// `Html::parse_fragment(fragment).select(selector)`, each match's `inner_html()`.
/// Claims: `None` exactly when scraper refuses the selector; else the named result.
#[verifier::external_body]
pub(crate) fn select_fragment_inner_html(fragment: &str, selector: &str) -> (r: Option<Vec<String>>)
    ensures
        r is Some <==> selector_parses(selector@),
        r matches Some(v) ==> texts(v@) == fragment_inner_html(fragment@, selector@),
{
    let sel = Selector::parse(selector).ok()?;
    Some(Html::parse_fragment(fragment).select(&sel).map(|e| e.inner_html()).collect())
}

/// `Html::parse_fragment(fragment).select(selector)`, each match's `attr(attribute)`.
/// Claims: `None` exactly when scraper refuses the selector; else the named
/// result, with one entry per match of the selector, as many as
/// `fragment_inner_html` has for the same fragment and selector.
#[verifier::external_body]
pub(crate) fn select_fragment_attribute(fragment: &str, selector: &str, attribute: &str) -> (r: Option<Vec<Option<String>>>)
    ensures
        r is Some <==> selector_parses(selector@),
        r matches Some(v) ==> opt_texts(v@) == fragment_attribute(fragment@, selector@, attribute@),
        r matches Some(v) ==> v@.len() == fragment_inner_html(fragment@, selector@).len(),
{
    let sel = Selector::parse(selector).ok()?;
    let doc = Html::parse_fragment(fragment);
    Some(doc.select(&sel).map(|e| e.attr(attribute).map(|a| a.to_string())).collect())
}

/// For each match of `outer` in `Html::parse_document(document)`, `select(inner)`
/// on it and each match's `inner_html()`. Claims: `None` exactly when scraper
/// refuses either selector; else the named result, with one entry per match of
/// `outer`, as many as `document_inner_html` has for that selector.
#[verifier::external_body]
pub(crate) fn select_nested_inner_html(document: &str, outer: &str, inner: &str) -> (r: Option<Vec<Vec<String>>>)
    ensures
        r is Some <==> (selector_parses(outer@) && selector_parses(inner@)),
        r matches Some(v) ==> texts2(v@) == nested_inner_html(document@, outer@, inner@),
        r matches Some(v) ==> v@.len() == document_inner_html(document@, outer@).len(),
{
    let o = Selector::parse(outer).ok()?;
    let i = Selector::parse(inner).ok()?;
    let doc = Html::parse_document(document);
    Some(doc.select(&o).map(|e| e.select(&i).map(|c| c.inner_html()).collect()).collect())
}

/// For each match of `outer` in `Html::parse_document(document)`, `select(inner)`
/// on it and each match's `attr(attribute)`. Claims: `None` exactly when scraper
/// refuses either selector; else the named result, whose entries line up one
/// for one with those of `nested_inner_html` for the same selectors.
#[verifier::external_body]
pub(crate) fn select_nested_attribute(
    document: &str,
    outer: &str,
    inner: &str,
    attribute: &str,
) -> (r: Option<Vec<Vec<Option<String>>>>)
    ensures
        r is Some <==> (selector_parses(outer@) && selector_parses(inner@)),
        r matches Some(v) ==> opt_texts2(v@) == nested_attribute(document@, outer@, inner@, attribute@),
        r matches Some(v) ==> v@.len() == nested_inner_html(document@, outer@, inner@).len(),
        r matches Some(v) ==> forall|k: int|
            0 <= k < v@.len() ==> (#[trigger] v@[k])@.len() == nested_inner_html(
                document@,
                outer@,
                inner@,
            )[k].len(),
{
    let o = Selector::parse(outer).ok()?;
    let i = Selector::parse(inner).ok()?;
    let doc = Html::parse_document(document);
    Some(doc.select(&o).map(|e| e.select(&i).map(|c| c.attr(attribute).map(|a| a.to_string())).collect()).collect())
}

/// For each match of `row` in `Html::parse_document(document)`, for each match of
/// `cell` in it, `select(inner)` on the cell and each match's `inner_html()`.
/// Claims: `None` exactly when scraper refuses a selector; else the named
/// result, whose rows and cells line up one for one with `nested_inner_html`
/// for the same row and cell selectors.
#[verifier::external_body]
pub(crate) fn select_cell_inner_html(document: &str, row: &str, cell: &str, inner: &str) -> (r: Option<Vec<Vec<Vec<String>>>>)
    ensures
        r is Some <==> (selector_parses(row@) && selector_parses(cell@) && selector_parses(inner@)),
        r matches Some(v) ==> texts3(v@) == cell_inner_html(document@, row@, cell@, inner@),
        r matches Some(v) ==> v@.len() == nested_inner_html(document@, row@, cell@).len(),
        r matches Some(v) ==> forall|k: int|
            0 <= k < v@.len() ==> (#[trigger] v@[k])@.len() == nested_inner_html(
                document@,
                row@,
                cell@,
            )[k].len(),
{
    let (r, c, i) = (Selector::parse(row).ok()?, Selector::parse(cell).ok()?, Selector::parse(inner).ok()?);
    let doc = Html::parse_document(document);
    Some(doc.select(&r).map(|e| e.select(&c).map(|x| x.select(&i).map(|y| y.inner_html()).collect()).collect()).collect())
}

/// As `select_cell_inner_html`, with each match's outer HTML (`html()`).
#[verifier::external_body]
pub(crate) fn select_cell_outer_html(document: &str, row: &str, cell: &str, inner: &str) -> (r: Option<Vec<Vec<Vec<String>>>>)
    ensures
        r is Some <==> (selector_parses(row@) && selector_parses(cell@) && selector_parses(inner@)),
        r matches Some(v) ==> texts3(v@) == cell_outer_html(document@, row@, cell@, inner@),
        r matches Some(v) ==> v@.len() == nested_inner_html(document@, row@, cell@).len(),
        r matches Some(v) ==> forall|k: int|
            0 <= k < v@.len() ==> (#[trigger] v@[k])@.len() == nested_inner_html(
                document@,
                row@,
                cell@,
            )[k].len(),
{
    let (r, c, i) = (Selector::parse(row).ok()?, Selector::parse(cell).ok()?, Selector::parse(inner).ok()?);
    let doc = Html::parse_document(document);
    Some(doc.select(&r).map(|e| e.select(&c).map(|x| x.select(&i).map(|y| y.html()).collect()).collect()).collect())
}

/// The selector that `text` spells, where scraper accepts it: tests the text,
/// then turns it into a selector with `to_sel`.
pub fn selector_for(text: &str) -> (r: Option<Selector>)
    ensures
        r is Some <==> selector_parses(text@),
        r matches Some(sel) ==> sel == compiled_selector(text@),
{
    match parse_selector(text) {
        Some(_) => Some(text.to_sel()),
        None => None,
    }
}

/// Turns a text into a CSS selector.
pub trait Scraper {
    /// The selector's text.
    spec fn selector_text(&self) -> Seq<char>;

    /// The selector that the text spells; the text must be one that scraper accepts.
    fn to_sel(&self) -> (sel: Selector)
        requires
            selector_parses(self.selector_text()),
        ensures
            sel == compiled_selector(self.selector_text()),
    ;
}

impl Scraper for str {
    open spec fn selector_text(&self) -> Seq<char> {
        self@
    }

    fn to_sel(&self) -> Selector {
        match parse_selector(self) {
            Some(sel) => sel,
            None => vstd::pervasive::unreached(),
        }
    }
}

} // verus!
