//! Web pages and addresses: the attributes of the elements of an HTML page
//! that a CSS selector picks, and addresses resolved against a page's.

use vstd::prelude::*;

use crate::text::{opt_text, starts_with};

verus! {

/// The rows of attribute values, as plain values.
pub open spec fn attr_rows(rows: Seq<Vec<Option<String>>>) -> Seq<Seq<Option<Seq<char>>>> {
    rows.map_values(|row: Vec<Option<String>>| row@.map_values(|v: Option<String>| opt_text(v)))
}

/// The characters of each name.
pub open spec fn name_texts(names: Seq<&str>) -> Seq<Seq<char>> {
    names.map_values(|n: &str| n@)
}

/// For each element of the HTML page `html` that the CSS selector `selector`
/// picks, in document order, the values of its attributes `names`, as scraper
/// reads them (nothing where the selector is not valid).
pub uninterp spec fn selected_attrs(
    html: Seq<char>,
    selector: Seq<char>,
    names: Seq<Seq<char>>,
) -> Seq<Seq<Option<Seq<char>>>>;

/// The attributes `names` of the elements of `html` that `selector` picks:
/// `scraper::Html::parse_document`, `scraper::Selector::parse`, `Html::select`
/// and `Element::attr`.
///
/// Trusted: the rows are a function of the page, the selector and the names
/// alone (`selected_attrs`), one value a name in each row.
#[verifier::external_body]
pub(crate) fn select_attrs(html: &str, selector: &str, names: &[&str]) -> (r: Vec<Vec<Option<String>>>)
    ensures
        attr_rows(r@) == selected_attrs(html@, selector@, name_texts(names@)),
        forall|i: int| 0 <= i < r@.len() ==> (#[trigger] r@[i])@.len() == names@.len(),
{
    let doc = scraper::Html::parse_document(html);
    let sel = match scraper::Selector::parse(selector) {
        Ok(s) => s,
        Err(_) => return Vec::new(),
    };
    doc.select(&sel).map(|el| names.iter().map(|n| el.value().attr(n).map(|v| v.to_string())).collect()).collect()
}

/// The address `target` resolved against `base` as the url crate does it
/// (`Url::parse(base)` then `Url::join(target)`, written out), or nothing
/// where either step fails.
pub uninterp spec fn joined_url(base: Seq<char>, target: Seq<char>) -> Option<Seq<char>>;

/// `target` resolved against `base`: `url::Url::parse`, `Url::join` and the
/// written form of the result.
///
/// Trusted: the result is a function of the two texts alone (`joined_url`).
#[verifier::external_body]
pub(crate) fn join_url(base: &str, target: &str) -> (r: Option<String>)
    ensures
        opt_text(r) == joined_url(base@, target@),
{
    url::Url::parse(base).ok()?.join(target).ok().map(|u| u.to_string())
}

/// `target` is an absolute web address (it starts with `http://` or `https://`).
pub open spec fn is_web_address(target: Seq<char>) -> bool {
    "http://"@.is_prefix_of(target) || "https://"@.is_prefix_of(target)
}

/// `target` resolved against the page address `base`: itself where it is an
/// absolute web address, else as the url crate joins it.
pub open spec fn resolved_url(base: Seq<char>, target: Seq<char>) -> Option<Seq<char>> {
    if is_web_address(target) {
        Some(target)
    } else {
        joined_url(base, target)
    }
}

/// `target` resolved against the page address `base`.
pub fn resolve_url(base: &str, target: &str) -> (r: Option<String>)
    ensures
        opt_text(r) == resolved_url(base@, target@),
{
    if starts_with(target, "http://")
        || starts_with(target, "https://") {
        return Some(target.to_string());
    }
    join_url(base, target)
}

} // verus!
