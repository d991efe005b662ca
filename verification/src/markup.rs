//! HTML documents, as the `scraper` crate reads them.

use crate::patterns::opt_texts;
use crate::text::texts;
use vstd::prelude::*;

verus! {

/// The text content of each element that the selector picks, in the order in
/// which `scraper` hands them out; `None` where it refuses the selector.
pub uninterp spec fn element_texts(html: Seq<char>, selector: Seq<char>) -> Option<Seq<Seq<char>>>;

/// The value of an attribute on each element that the selector picks, in the
/// order in which `scraper` hands them out; `None` where it refuses the
/// selector.
pub uninterp spec fn element_attributes(
    html: Seq<char>,
    selector: Seq<char>,
    attribute: Seq<char>,
) -> Option<Seq<Option<Seq<char>>>>;

/// `scraper::Html::select` on the parsed document: the concatenated text of
/// each selected element.
#[verifier::external_body]
pub(crate) fn select_texts(html: &str, selector: &str) -> (r: Option<Vec<String>>)
    ensures
        match r {
            Some(found) => element_texts(html@, selector@) == Some(texts(found@)),
            None => element_texts(html@, selector@) is None,
        },
{
    let parsed = scraper::Selector::parse(selector).ok()?;
    let document = scraper::Html::parse_document(html);
    Some(document.select(&parsed).map(|e| e.text().collect::<String>()).collect())
}

/// `scraper::ElementRef::value` with `attr`: the named attribute of each
/// selected element of the parsed document.
#[verifier::external_body]
pub(crate) fn select_attributes(html: &str, selector: &str, attribute: &str) -> (r: Option<
    Vec<Option<String>>,
>)
    ensures
        match r {
            Some(found) => element_attributes(html@, selector@, attribute@) == Some(
                opt_texts(found@),
            ),
            None => element_attributes(html@, selector@, attribute@) is None,
        },
{
    let parsed = scraper::Selector::parse(selector).ok()?;
    let document = scraper::Html::parse_document(html);
    Some(
        document.select(&parsed).map(|e| e.value().attr(attribute).map(|v| v.to_string())).collect(),
    )
}

} // verus!
