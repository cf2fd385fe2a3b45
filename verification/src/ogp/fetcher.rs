//! The Open Graph image and description that a page declares.

use vstd::prelude::*;

use crate::error::concat_str;
use crate::text::{is_trim_of, is_white_space, opt_text, trim};
use crate::web::{resolve_url, resolved_url, select_attrs, selected_attrs};

verus! {

/// The Open Graph image and description of a page.
#[derive(Debug, Clone)]
pub struct OgpData {
    pub og_image_url: Option<String>,
    pub og_description: Option<String>,
}

/// The CSS selector of the `meta` elements of an Open Graph property.
pub open spec fn meta_selector(property: Seq<char>) -> Seq<char> {
    "meta[property=\""@ + property + "\"]"@
}

/// The `content` of the first `meta` element of `property` in `html`, if any.
pub open spec fn first_meta_content(html: Seq<char>, property: Seq<char>) -> Option<Seq<char>> {
    let rows = selected_attrs(html, meta_selector(property), seq!["content"@]);
    if rows.len() > 0 && rows[0].len() > 0 {
        rows[0][0]
    } else {
        None
    }
}

/// Every character of `s` is white space.
pub open spec fn all_white(s: Seq<char>) -> bool {
    forall|i: int| 0 <= i < s.len() ==> is_white_space(#[trigger] s[i])
}

/// `r` is the declared value of `property` in `html`: the trimmed content of
/// its first `meta` element, absent where that is missing or blank.
pub open spec fn is_meta_value(html: Seq<char>, property: Seq<char>, r: Option<Seq<char>>) -> bool {
    match first_meta_content(html, property) {
        None => r is None,
        Some(c) => if all_white(c) {
            r is None
        } else {
            r matches Some(t) && is_trim_of(c, t) && t.len() > 0
        },
    }
}

/// The trimmed content of the first `meta` element of `property` in `html`,
/// where it is not blank.
pub fn extract_meta_content(html: &str, property: &str) -> (r: Option<String>)
    ensures
        is_meta_value(html@, property@, opt_text(r)),
{
    let head = concat_str("meta[property=\"", property);
    let selector = head.concat("\"]");
    let names: [&str; 1] = ["content"];
    let rows = select_attrs(html, selector.as_str(), names.as_slice());
    proof {
        reveal_strlit("content");
        assert(crate::web::name_texts(names@) =~= seq!["content"@]);
        assert(selector@ == meta_selector(property@));
    }
    if rows.len() == 0 {
        return None;
    }
    let content = match &rows[0][0] {
        Some(c) => c,
        None => return None,
    };
    proof {
        let row = rows@[0];
        assert(crate::web::attr_rows(rows@)[0] == row@.map_values(|v: Option<String>| opt_text(v)));
    }
    let t = trim(content.as_str());
    if t.as_str().unicode_len() == 0 {
        proof {
            let (a, b) = choose|a: int, b: int|
                0 <= a <= b <= content@.len() && t@ == content@.subrange(a, b) && (forall|i: int|
                    0 <= i < a ==> is_white_space(#[trigger] content@[i])) && (forall|i: int|
                    b <= i < content@.len() ==> is_white_space(#[trigger] content@[i])) && (a < b
                    ==> !is_white_space(content@[a]) && !is_white_space(content@[b - 1])) && (a == b
                    ==> forall|i: int| 0 <= i < content@.len() ==> is_white_space(#[trigger] content@[i]));
            assert(a == b);
        }
        return None;
    }
    proof {
        if all_white(content@) {
            let (a, b) = choose|a: int, b: int|
                0 <= a <= b <= content@.len() && t@ == content@.subrange(a, b) && (forall|i: int|
                    0 <= i < a ==> is_white_space(#[trigger] content@[i])) && (forall|i: int|
                    b <= i < content@.len() ==> is_white_space(#[trigger] content@[i])) && (a < b
                    ==> !is_white_space(content@[a]) && !is_white_space(content@[b - 1])) && (a == b
                    ==> forall|i: int| 0 <= i < content@.len() ==> is_white_space(#[trigger] content@[i]));
            assert(is_white_space(content@[a]));
        }
    }
    Some(t)
}

/// The Open Graph data that `html`, the page at `page_url`, declares.
pub open spec fn is_ogp_of(html: Seq<char>, page_url: Seq<char>, d: OgpData) -> bool {
    &&& exists|image: Option<Seq<char>>|
        is_meta_value(html, "og:image"@, image) && opt_text(d.og_image_url) == match image {
            Some(i) => resolved_url(page_url, i),
            None => None,
        }
    &&& is_meta_value(html, "og:description"@, opt_text(d.og_description))
}

/// The Open Graph image (resolved against `page_url`) and description that
/// the page `html` declares.
pub fn extract_ogp(html: &str, page_url: &str) -> (r: OgpData)
    ensures
        is_ogp_of(html@, page_url@, r),
{
    let image = extract_meta_content(html, "og:image");
    let og_image_url = match &image {
        Some(i) => resolve_url(page_url, i.as_str()),
        None => None,
    };
    let og_description = extract_meta_content(html, "og:description");
    OgpData { og_image_url, og_description }
}

} // verus!
