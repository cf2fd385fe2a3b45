//! Finding the feed of a web page: the feeds that its `link rel="alternate"`
//! elements announce, and which address to subscribe to for a given one.

use vstd::prelude::*;

use crate::error::AppError;
use crate::feed::parser::{parse_feed_details, parsed_document, reader_may_panic};
use crate::text::{contains_str, from_utf8_lossy, holds_text, lossy_text, lowercase, opt_text, str_eq, to_lowercase};
use crate::web::{resolve_url, resolved_url, select_attrs, selected_attrs};

verus! {

/// A feed that a page announces.
#[derive(Debug, Clone)]
pub struct DiscoveredFeed {
    pub url: String,
    pub title: Option<String>,
    pub feed_type: String,
}

/// The kind of feed that a `link` of media type `t` announces: Atom, RSS or
/// JSON Feed; none for any other type.
pub open spec fn announced_kind(t: Seq<char>) -> Option<Seq<char>> {
    if t == "application/atom+xml"@ {
        Some("atom"@)
    } else if t == "application/rss+xml"@ {
        Some("rss"@)
    } else if t == "application/feed+json"@ || t == "application/json"@ {
        Some("json"@)
    } else {
        None
    }
}

/// The selector of the links that announce alternate versions of a page.
pub open spec fn alternate_links() -> Seq<char> {
    "link[rel=\"alternate\"]"@
}

/// The attributes read from each alternate link: its type, target and title.
pub open spec fn link_attrs() -> Seq<Seq<char>> {
    seq!["type"@, "href"@, "title"@]
}

/// The feed that one alternate link (its type, target and title) announces on
/// the page at `page_url`: none where its type is not a feed's, its target is
/// missing or empty, or the target cannot be resolved.
pub open spec fn link_feed(row: Seq<Option<Seq<char>>>, page_url: Seq<char>) -> Seq<(Seq<char>, Option<Seq<char>>, Seq<char>)> {
    match (row[0], row[1]) {
        (Some(t), Some(h)) => match (announced_kind(t), resolved_url(page_url, h)) {
            (Some(k), Some(u)) => if h.len() > 0 {
                seq![(u, row[2], k)]
            } else {
                Seq::empty()
            },
            _ => Seq::empty(),
        },
        _ => Seq::empty(),
    }
}

/// The feeds that the alternate links `rows` announce, in document order.
pub open spec fn announced_feeds(rows: Seq<Seq<Option<Seq<char>>>>, page_url: Seq<char>) -> Seq<(Seq<char>, Option<Seq<char>>, Seq<char>)>
    decreases rows.len(),
{
    if rows.len() == 0 {
        Seq::empty()
    } else {
        announced_feeds(rows.drop_last(), page_url) + link_feed(rows.last(), page_url)
    }
}

/// A discovered feed as plain values: address, title, kind.
pub open spec fn discovered_view(d: DiscoveredFeed) -> (Seq<char>, Option<Seq<char>>, Seq<char>) {
    (d.url@, opt_text(d.title), d.feed_type@)
}

/// The feeds that the page `html`, at `page_url`, announces.
pub open spec fn page_feeds(html: Seq<char>, page_url: Seq<char>) -> Seq<(Seq<char>, Option<Seq<char>>, Seq<char>)> {
    announced_feeds(selected_attrs(html, alternate_links(), link_attrs()), page_url)
}

/// The kind of feed of media type `t`, if it is one.
pub fn kind_of_type(t: &str) -> (r: Option<&'static str>)
    ensures
        crate::text::opt_str(r) == announced_kind(t@),
{
    proof {
        reveal_strlit("application/atom+xml");
        reveal_strlit("application/rss+xml");
        reveal_strlit("application/feed+json");
        reveal_strlit("application/json");
    }
    if str_eq(t, "application/atom+xml") {
        Some("atom")
    } else if str_eq(t, "application/rss+xml") {
        Some("rss")
    } else if str_eq(t, "application/feed+json") || str_eq(t, "application/json") {
        Some("json")
    } else {
        None
    }
}

/// The feeds that the page `html`, at `page_url`, announces with
/// `link rel="alternate"` elements of a feed's media type and with a target,
/// each target resolved against the page's address; in document order.
pub fn discover_feeds_from_html(html: &str, page_url: &str) -> (r: Vec<DiscoveredFeed>)
    ensures
        r@.map_values(|d: DiscoveredFeed| discovered_view(d)) == page_feeds(html@, page_url@),
{
    let names: [&str; 3] = ["type", "href", "title"];
    let rows = select_attrs(html, "link[rel=\"alternate\"]", names.as_slice());
    let ghost rs = crate::web::attr_rows(rows@);
    proof {
        reveal_strlit("type");
        reveal_strlit("href");
        reveal_strlit("title");
        assert(crate::web::name_texts(names@) =~= link_attrs());
    }
    let mut feeds: Vec<DiscoveredFeed> = Vec::new();
    let mut i: usize = 0;
    while i < rows.len()
        invariant
            i <= rows@.len(),
            rs == crate::web::attr_rows(rows@),
            forall|k: int| 0 <= k < rows@.len() ==> (#[trigger] rows@[k])@.len() == 3,
            feeds@.map_values(|d: DiscoveredFeed| discovered_view(d)) == announced_feeds(
                rs.take(i as int),
                page_url@,
            ),
        decreases rows@.len() - i,
    {
        let row = &rows[i];
        let ghost before = feeds@;
        proof {
            assert(rs.take(i + 1).drop_last() =~= rs.take(i as int));
            assert(rs.take(i + 1).last() == rs[i as int]);
            assert(rs[i as int] == row@.map_values(|v: Option<String>| opt_text(v)));
        }
        let mut found: Option<DiscoveredFeed> = None;
        if let (Some(t), Some(h)) = (&row[0], &row[1]) {
            if let Some(kind) = kind_of_type(t.as_str()) {
                if h.as_str().unicode_len() > 0 {
                    if let Some(u) = resolve_url(page_url, h.as_str()) {
                        found = Some(DiscoveredFeed { url: u, title: crate::text::clone_opt(&row[2]), feed_type: kind.to_string() });
                    }
                }
            }
        }
        match found {
            Some(d) => {
                feeds.push(d);
            },
            None => {},
        }
        proof {
            let lf = link_feed(rs[i as int], page_url@);
            assert(feeds@.map_values(|d: DiscoveredFeed| discovered_view(d)) =~= before.map_values(
                |d: DiscoveredFeed| discovered_view(d),
            ) + lf);
        }
        i = i + 1;
    }
    proof {
        assert(rs.take(rows@.len() as int) =~= rs);
    }
    feeds
}

} // verus!

verus! {

/// The message when neither the address nor the page it shows is a feed.
pub open spec fn no_feed_found() -> Seq<char> {
    "フィードが見つかりませんでした。フィードURLを直接指定してください。"@
}

/// A media type (in lowercase) that marks a response as a feed.
pub open spec fn is_feed_media_type(ct: Seq<char>) -> bool {
    holds_text(ct, "xml"@) || holds_text(ct, "atom"@) || holds_text(ct, "rss"@) || holds_text(
        ct,
        "feed+json"@,
    )
}

/// The address to subscribe to, given what `url` answered with: `url` itself
/// where the response's media type is a feed's or feed-rs reads its body
/// (a body on which feed-rs could panic is not tried), else the first feed
/// that the body, read as a page, announces; refused where there is none.
pub fn choose_feed_url(url: &str, content_type: &str, body: &[u8]) -> (r: Result<String, AppError>)
    ensures
        is_feed_media_type(lowercase(content_type@)) ==> (r matches Ok(u) && u@ == url@),
        !is_feed_media_type(lowercase(content_type@)) && !reader_may_panic(body@) && parsed_document(
            body@,
        ) is Ok ==> (r matches Ok(u) && u@ == url@),
        !is_feed_media_type(lowercase(content_type@)) && (reader_may_panic(body@) || parsed_document(
            body@,
        ) is Err) ==> {
            let found = page_feeds(lossy_text(body@), url@);
            &&& found.len() > 0 ==> (r matches Ok(u) && u@ == found[0].0)
            &&& found.len() == 0 ==> (r matches Err(AppError::FeedParse(m)) && m@ == no_feed_found())
        },
{
    let ct = to_lowercase(content_type);
    if contains_str(ct.as_str(), "xml") || contains_str(ct.as_str(), "atom") || contains_str(
        ct.as_str(),
        "rss",
    ) || contains_str(ct.as_str(), "feed+json") {
        return Ok(url.to_string());
    }
    if !crate::feed::parser::may_panic_reader(body) && parse_feed_details(body).is_ok() {
        return Ok(url.to_string());
    }
    let html = from_utf8_lossy(body);
    let discovered = discover_feeds_from_html(html.as_str(), url);
    if discovered.len() > 0 {
        proof {
            assert(discovered@.map_values(|d: DiscoveredFeed| discovered_view(d))[0] == discovered_view(
                discovered@[0],
            ));
        }
        Ok(discovered[0].url.clone())
    } else {
        Err(
            AppError::FeedParse(
                "フィードが見つかりませんでした。フィードURLを直接指定してください。".to_string(),
            ),
        )
    }
}

} // verus!
