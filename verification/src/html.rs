//! HTML pages, as far as the library looks at them: the attributes of the
//! elements that a selector picks.

use vstd::prelude::*;

verus! {

/// What `scraper` finds in a page: the elements of the document
/// (`Html::parse_document`) that match the selector (`Selector::parse`), in
/// the order in which `Html::select` gives them, each by the value of the
/// given attribute (`Element::attr`), where it has one. Nothing where the
/// selector cannot be parsed.
pub uninterp spec fn selected_attributes(
    html: Seq<char>,
    selector: Seq<char>,
    attribute: Seq<char>,
) -> Option<Seq<Option<Seq<char>>>>;

/// The characters of an attribute's value, where there is one.
pub open spec fn value_view(value: Option<String>) -> Option<Seq<char>> {
    match value {
        Some(text) => Some(text@),
        None => None,
    }
}

/// The characters of each attribute's value, in the same order.
pub open spec fn attribute_views(values: Option<Vec<Option<String>>>) -> Option<
    Seq<Option<Seq<char>>>,
> {
    match values {
        Some(values) => Some(values@.map_values(|value: Option<String>| value_view(value))),
        None => None,
    }
}

/// Parses the page with `scraper::Html::parse_document` and the selector
/// with `scraper::Selector::parse`, and hands out, for each element that
/// `Html::select` gives, what `Element::attr` gives for the attribute.
#[verifier::external_body]
pub(crate) fn select_attributes(html: &str, selector: &str, attribute: &str) -> (values: Option<
    Vec<Option<String>>,
>)
    ensures
        attribute_views(values) == selected_attributes(html@, selector@, attribute@),
{
    let selector = match scraper::Selector::parse(selector) {
        Ok(selector) => selector,
        Err(_) => return None,
    };
    let document = scraper::Html::parse_document(html);
    let mut values = Vec::new();
    for element in document.select(&selector) {
        values.push(element.value().attr(attribute).map(String::from));
    }
    Some(values)
}

} // verus!
