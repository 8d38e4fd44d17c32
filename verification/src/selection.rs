//! Link extraction by CSS selection.
//!
//! A second route from a page to its links: an HTML5 parser builds the
//! document, a selector picks the anchors, and each anchor gives the value of
//! its `href`, if it has one. What parses as an absolute URL is a link.

use crate::address::Url;
use crate::extract::{first_of, first_url_among, forms, links_among, parse_links, texts};
use crate::markup::text_of;
use vstd::prelude::*;

verus! {

/// What selection makes of a page: for each element that the selector
/// matches, in the order in which the document yields them, the value of the
/// named attribute, `None` where the element lacks it; or the selector
/// parser's message where `selector` is no selector.
pub uninterp spec fn selected_values(
    text: Seq<char>,
    selector: Seq<char>,
    attribute: Seq<char>,
) -> Result<Seq<Option<Seq<char>>>, Seq<char>>;

/// The characters of each optional string.
pub open spec fn optional_texts(values: Seq<Option<String>>) -> Seq<Option<Seq<char>>> {
    values.map_values(|value: Option<String>| text_of(value))
}

/// Calls `scraper::Html::parse_document` on the text and
/// `scraper::Selector::parse` on the selector, walks `Html::select`, and hands
/// back what `Element::attr` returns for each match, or the text of the
/// selector's error. Trusted: the outcome is the one that `selected_values`
/// names for these three texts.
#[verifier::external_body]
fn select_attribute(text: &str, selector: &str, attribute: &str) -> (out: Result<
    Vec<Option<String>>,
    String,
>)
    ensures
        match out {
            Ok(values) => selected_values(text@, selector@, attribute@) == Ok::<
                Seq<Option<Seq<char>>>,
                Seq<char>,
            >(optional_texts(values@)),
            Err(reason) => selected_values(text@, selector@, attribute@) == Err::<
                Seq<Option<Seq<char>>>,
                Seq<char>,
            >(reason@),
        },
{
    let document = scraper::Html::parse_document(text);
    match scraper::Selector::parse(selector) {
        Ok(group) => Ok(
            document.select(&group).map(
                |element| element.value().attr(attribute).map(String::from),
            ).collect(),
        ),
        Err(error) => Err(error.to_string()),
    }
}

/// The reason a selector was not accepted.
#[derive(Debug, PartialEq, Eq)]
pub struct SelectorError {
    pub reason: String,
}

/// The selector that matches every anchor.
pub open spec fn anchor_selector() -> Seq<char> {
    "a"@
}

/// The attribute that holds an anchor's target.
pub open spec fn target_attribute() -> Seq<char> {
    "href"@
}

/// The values that are present, in order.
pub open spec fn given(values: Seq<Option<Seq<char>>>) -> Seq<Seq<char>>
    decreases values.len(),
{
    if values.len() == 0 {
        Seq::empty()
    } else {
        match values.last() {
            Some(value) => given(values.drop_last()).push(value),
            None => given(values.drop_last()),
        }
    }
}

/// The values that are present, in order: an element that lacks the attribute
/// is passed over.
pub fn present_values(values: &Vec<Option<String>>) -> (present: Vec<String>)
    ensures
        texts(present@) == given(optional_texts(values@)),
{
    let mut present: Vec<String> = Vec::new();
    let mut i: usize = 0;
    assert(optional_texts(values@).take(0) == Seq::<Option<Seq<char>>>::empty());
    assert(texts(present@) == Seq::<Seq<char>>::empty());
    while i < values.len()
        invariant
            i <= values.len(),
            texts(present@) == given(optional_texts(values@).take(i as int)),
        decreases values.len() - i,
    {
        let ghost before = present@;
        let ghost all = optional_texts(values@);
        assert(all.take(i + 1).drop_last() == all.take(i as int));
        assert(all.take(i + 1).last() == text_of(values@[i as int]));
        match &values[i] {
            Some(value) => {
                present.push(value.clone());
                assert(texts(present@) == texts(before).push(value@));
            },
            None => {},
        }
        i += 1;
    }
    assert(optional_texts(values@).take(values.len() as int) == optional_texts(values@));
    present
}

/// The links among the `href` values of a page's anchors: each value that is
/// present and parses as an absolute URL, in order.
pub fn urls_in_values(values: &Vec<Option<String>>) -> (urls: Vec<Url>)
    ensures
        forms(urls@) == links_among(given(optional_texts(values@))),
{
    let present = present_values(values);
    parse_links(&present)
}

/// The links that a selector picks from a page: of the elements that the
/// selector matches, those that have the attribute with a value that parses
/// as an absolute URL give that URL, in the order in which selection yields
/// the elements. The only failure is a text that is no selector.
pub fn select_urls(text: &str, selector: &str, attribute: &str) -> (out: Result<
    Vec<Url>,
    SelectorError,
>)
    ensures
        match out {
            Ok(urls) => selected_values(text@, selector@, attribute@) matches Ok(values)
                && forms(urls@) == links_among(given(values)),
            Err(error) => selected_values(text@, selector@, attribute@) == Err::<
                Seq<Option<Seq<char>>>,
                Seq<char>,
            >(error.reason@),
        },
{
    match select_attribute(text, selector, attribute) {
        Ok(values) => Ok(urls_in_values(&values)),
        Err(reason) => Err(SelectorError { reason }),
    }
}

/// All links of a page: the `href` of every anchor that has one and whose
/// value parses as an absolute URL, in the order in which selection yields the
/// anchors.
pub fn all_urls_in_text(text: &str) -> (out: Result<Vec<Url>, SelectorError>)
    ensures
        match out {
            Ok(urls) => selected_values(text@, anchor_selector(), target_attribute()) matches Ok(
                values,
            ) && forms(urls@) == links_among(given(values)),
            Err(error) => selected_values(text@, anchor_selector(), target_attribute()) == Err::<
                Seq<Option<Seq<char>>>,
                Seq<char>,
            >(error.reason@),
        },
{
    select_urls(text, "a", "href")
}

/// The first link of a page, if it has any: the first of `all_urls_in_text`.
pub fn first_url_in_text(text: &str) -> (out: Result<Option<Url>, SelectorError>)
    ensures
        match out {
            Ok(Some(url)) => selected_values(text@, anchor_selector(), target_attribute())
                matches Ok(values) && first_of(links_among(given(values))) == Some(url@),
            Ok(None) => selected_values(text@, anchor_selector(), target_attribute()) matches Ok(
                values,
            ) && first_of(links_among(given(values))) is None,
            Err(error) => selected_values(text@, anchor_selector(), target_attribute()) == Err::<
                Seq<Option<Seq<char>>>,
                Seq<char>,
            >(error.reason@),
        },
{
    match select_attribute(text, "a", "href") {
        Ok(values) => {
            let present = present_values(&values);
            Ok(first_url_among(&present))
        },
        Err(reason) => Err(SelectorError { reason }),
    }
}

} // verus!
