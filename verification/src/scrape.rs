//! Queries on HTML documents, answered by the `scraper` crate.
//!
//! Each query parses the document, runs CSS selectors on it and hands the
//! matches back as plain strings, in the order the parser created the
//! elements (document order, except where the parser moves misplaced nodes).
//! What the parser and the selector engine make of a document is not restated
//! here: each result is named by a spec function of the query's arguments.

use vstd::prelude::*;

verus! {

/// The texts of the elements of `html` that match `selector`, in the order
/// the parser created them; `None` when `selector` does not parse.
pub uninterp spec fn scraped_texts(html: Seq<char>, selector: Seq<char>) -> Option<Seq<Seq<char>>>;

/// For each element of `html` that matches `selector`, in the order the
/// parser created them, the value of its attribute `attr`; `None` when
/// `selector` does not parse.
pub uninterp spec fn scraped_attrs(html: Seq<char>, selector: Seq<char>, attr: Seq<char>) -> Option<
    Seq<Option<Seq<char>>>,
>;

/// For each element of `html` that matches `outer`, in the order the parser
/// created them, the text of the first descendant that matches `inner`;
/// `None` when a selector does not parse.
pub uninterp spec fn scraped_inner_texts(html: Seq<char>, outer: Seq<char>, inner: Seq<char>) -> Option<
    Seq<Option<Seq<char>>>,
>;

/// For each element of `html` that matches `outer`, in the order the parser
/// created them, the attribute `attr` of the first descendant that matches
/// `inner`; `None` when a selector does not parse.
pub uninterp spec fn scraped_inner_attrs(
    html: Seq<char>,
    outer: Seq<char>,
    inner: Seq<char>,
    attr: Seq<char>,
) -> Option<Seq<Option<Seq<char>>>>;

/// For each element of `html` that matches `outer`, in the order the parser
/// created them, the text and the attribute `attr` of its first descendant
/// that matches `inner`; `None` when a selector does not parse.
pub uninterp spec fn scraped_inner_text_attrs(
    html: Seq<char>,
    outer: Seq<char>,
    inner: Seq<char>,
    attr: Seq<char>,
) -> Option<Seq<Option<(Seq<char>, Option<Seq<char>>)>>>;

/// The views of a vector of strings.
pub open spec fn string_views(v: Seq<String>) -> Seq<Seq<char>> {
    v.map_values(|s: String| s@)
}

/// The views of a vector of optional strings.
pub open spec fn opt_string_views(v: Seq<Option<String>>) -> Seq<Option<Seq<char>>> {
    v.map_values(
        |o: Option<String>|
            match o {
                Some(s) => Some(s@),
                None => None,
            },
    )
}

/// The view of an optional vector of strings.
pub open spec fn texts_view(r: Option<Vec<String>>) -> Option<Seq<Seq<char>>> {
    match r {
        Some(v) => Some(string_views(v@)),
        None => None,
    }
}

/// The view of an optional vector of optional strings.
pub open spec fn values_view(r: Option<Vec<Option<String>>>) -> Option<Seq<Option<Seq<char>>>> {
    match r {
        Some(v) => Some(opt_string_views(v@)),
        None => None,
    }
}

/// The view of an element's text and optional attribute.
pub open spec fn text_attr_view(o: Option<(String, Option<String>)>) -> Option<
    (Seq<char>, Option<Seq<char>>),
> {
    match o {
        Some((t, a)) => Some(
            (
                t@,
                match a {
                    Some(s) => Some(s@),
                    None => None,
                },
            ),
        ),
        None => None,
    }
}

/// The view of an optional vector of optional texts with attributes.
pub open spec fn text_attrs_view(r: Option<Vec<Option<(String, Option<String>)>>>) -> Option<
    Seq<Option<(Seq<char>, Option<Seq<char>>)>>,
> {
    match r {
        Some(v) => Some(v@.map_values(|o: Option<(String, Option<String>)>| text_attr_view(o))),
        None => None,
    }
}

/// `Html::parse_document`, `Selector::parse`, `Html::select` and
/// `ElementRef::text`: the concatenated text of every match of `selector`.
/// Claims only that the result is the named function of the arguments.
#[verifier::external_body]
pub(crate) fn select_texts(html: &str, selector: &str) -> (r: Option<Vec<String>>)
    ensures
        texts_view(r) == scraped_texts(html@, selector@),
{
    let selector = scraper::Selector::parse(selector).ok()?;
    let doc = scraper::Html::parse_document(html);
    Some(doc.select(&selector).map(|el| el.text().collect::<String>()).collect())
}

/// `Html::parse_document`, `Selector::parse`, `Html::select` and
/// `ElementRef::attr`: the attribute `attr` of every match of `selector`.
/// Claims only that the result is the named function of the arguments.
#[verifier::external_body]
pub(crate) fn select_attrs(html: &str, selector: &str, attr: &str) -> (r: Option<Vec<Option<String>>>)
    ensures
        values_view(r) == scraped_attrs(html@, selector@, attr@),
{
    let selector = scraper::Selector::parse(selector).ok()?;
    let doc = scraper::Html::parse_document(html);
    Some(doc.select(&selector).map(|el| el.attr(attr).map(str::to_owned)).collect())
}

/// `Html::parse_document`, `Selector::parse`, `Html::select`,
/// `ElementRef::select` and `ElementRef::text`: per match of `outer`, the text
/// of its first descendant matching `inner`. Claims only that the result is
/// the named function of the arguments.
#[verifier::external_body]
pub(crate) fn select_inner_texts(html: &str, outer: &str, inner: &str) -> (r: Option<Vec<Option<String>>>)
    ensures
        values_view(r) == scraped_inner_texts(html@, outer@, inner@),
{
    let outer = scraper::Selector::parse(outer).ok()?;
    let inner = scraper::Selector::parse(inner).ok()?;
    let doc = scraper::Html::parse_document(html);
    Some(doc.select(&outer).map(|row| row.select(&inner).next().map(|el| el.text().collect())).collect())
}

/// `Html::parse_document`, `Selector::parse`, `Html::select`,
/// `ElementRef::select` and `ElementRef::attr`: per match of `outer`, the
/// attribute `attr` of its first descendant matching `inner`. Claims only that
/// the result is the named function of the arguments.
#[verifier::external_body]
pub(crate) fn select_inner_attrs(html: &str, outer: &str, inner: &str, attr: &str) -> (r: Option<
    Vec<Option<String>>,
>)
    ensures
        values_view(r) == scraped_inner_attrs(html@, outer@, inner@, attr@),
{
    let outer = scraper::Selector::parse(outer).ok()?;
    let inner = scraper::Selector::parse(inner).ok()?;
    let doc = scraper::Html::parse_document(html);
    Some(doc.select(&outer).map(|row| row.select(&inner).next().and_then(|el| el.attr(attr)).map(str::to_owned)).collect())
}

/// `Html::parse_document`, `Selector::parse`, `Html::select`,
/// `ElementRef::select`, `ElementRef::text` and `ElementRef::attr`: per match
/// of `outer`, the text and the attribute `attr` of one and the same element,
/// its first descendant matching `inner`. Claims only that the result is the
/// named function of the arguments.
#[verifier::external_body]
pub(crate) fn select_inner_text_attrs(html: &str, outer: &str, inner: &str, attr: &str) -> (r: Option<
    Vec<Option<(String, Option<String>)>>,
>)
    ensures
        text_attrs_view(r) == scraped_inner_text_attrs(html@, outer@, inner@, attr@),
{
    let outer = scraper::Selector::parse(outer).ok()?;
    let inner = scraper::Selector::parse(inner).ok()?;
    let doc = scraper::Html::parse_document(html);
    Some(doc.select(&outer).map(|row| row.select(&inner).next().map(|el| (el.text().collect(), el.attr(attr).map(str::to_owned)))).collect())
}

} // verus!
