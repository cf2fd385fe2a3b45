use my_rss_feeder::commands::{
    add_feed, apply_refresh, check_new_feed_url, join_categories, list_articles_page,
    persist_ogp_result, persist_ogp_results, RefreshAll,
};
use my_rss_feeder::db::article_repo::{get_article_by_id, list_articles};
use my_rss_feeder::db::feed_repo::get_feed_by_id;
use my_rss_feeder::db::Database;
use my_rss_feeder::error::AppError;
use my_rss_feeder::feed::fetcher::FetchResult;
use my_rss_feeder::models::Feed;
use my_rss_feeder::ogp::{join_error_result, missing_url_result, ogp_result, OgpResultData};

const RSS: &str = r#"<?xml version="1.0" encoding="UTF-8"?>
<rss version="2.0">
  <channel>
    <title>Command Feed</title>
    <link>https://example.com</link>
    <item>
      <title>One</title>
      <link>https://example.com/1</link>
      <guid>one</guid>
      <pubDate>Mon, 01 Jan 2024 00:00:00 GMT</pubDate>
      <category>Rust</category>
      <category>Verus</category>
    </item>
    <item>
      <title>Two</title>
      <link>https://example.com/2</link>
      <guid>two</guid>
    </item>
  </channel>
</rss>"#;

fn fetched(body: &str) -> Option<FetchResult> {
    Some(FetchResult {
        body: body.as_bytes().to_vec(),
        etag: Some("\"v1\"".to_string()),
        last_modified: Some("Mon, 01 Jan 2024 00:00:00 GMT".to_string()),
    })
}

#[test]
fn add_feed_without_content_is_refused() {
    let mut db = Database::new();
    match add_feed(&mut db, "https://example.com/feed.xml", None) {
        Err(AppError::Other(m)) => assert_eq!(m, "No content returned from feed"),
        other => panic!("unexpected: {:?}", other),
    }
    assert!(db.feeds.is_empty());
}

#[test]
fn add_feed_with_unreadable_body_is_a_parse_error() {
    let mut db = Database::new();
    let r = add_feed(&mut db, "https://example.com/feed.xml", fetched("not a feed"));
    assert!(matches!(r, Err(AppError::FeedParse(_))));
    assert!(db.feeds.is_empty());
    assert!(db.articles.is_empty());
}

#[test]
fn add_feed_stores_feed_and_unread_articles() {
    let mut db = Database::new();
    let feed = add_feed(&mut db, "https://example.com/feed.xml", fetched(RSS)).unwrap();
    assert_eq!(feed.title, "Command Feed");
    assert_eq!(feed.url, "https://example.com/feed.xml");
    assert_eq!(feed.feed_type.as_deref(), Some("rss2"));
    assert_eq!(feed.site_url.as_deref(), Some("https://example.com/"));
    assert_eq!(feed.etag.as_deref(), Some("\"v1\""));
    assert_eq!(feed.created_at, feed.updated_at);
    assert_eq!(feed.last_fetched_at.as_deref(), Some(feed.created_at.as_str()));
    assert_eq!(feed.id.len(), 36);

    let stored = get_feed_by_id(&db, &feed.id).unwrap();
    assert_eq!(stored.title, "Command Feed");

    let articles = list_articles(&db, Some(&feed.id), None, None, 100, 0).unwrap();
    assert_eq!(articles.len(), 2);
    // dated article first, undated one last
    assert_eq!(articles[0].entry_id, "one");
    // the article table has no column for categories that a write fills in
    assert_eq!(articles[0].categories, None);
    assert_eq!(articles[0].feed_title.as_deref(), Some("Command Feed"));
    assert_eq!(articles[1].entry_id, "two");
    assert_eq!(articles[1].categories, None);
    assert!(articles.iter().all(|a| !a.is_read && !a.og_fetched));
}

#[test]
fn adding_a_known_address_is_a_duplicate() {
    let mut db = Database::new();
    add_feed(&mut db, "https://example.com/feed.xml", fetched(RSS)).unwrap();
    match check_new_feed_url(&db, "https://example.com/feed.xml") {
        Err(AppError::Duplicate(m)) => {
            assert_eq!(m, "Feed already exists: https://example.com/feed.xml")
        }
        other => panic!("unexpected: {:?}", other),
    }
    assert!(check_new_feed_url(&db, "https://example.com/other.xml").is_ok());
    let again = add_feed(&mut db, "https://example.com/feed.xml", fetched(RSS));
    match again {
        Err(AppError::Duplicate(m)) => {
            assert_eq!(m, "Feed already exists: https://example.com/feed.xml")
        }
        other => panic!("unexpected: {:?}", other),
    }
    let without_fetch = add_feed(&mut db, "https://example.com/feed.xml", None);
    assert!(matches!(without_fetch, Err(AppError::Duplicate(_))));
    assert_eq!(db.feeds.len(), 1);
}

#[test]
fn refresh_not_modified_changes_nothing() {
    let mut db = Database::new();
    let feed = add_feed(&mut db, "https://example.com/feed.xml", fetched(RSS)).unwrap();
    let before = db.articles.len();
    assert_eq!(apply_refresh(&mut db, &feed, None).unwrap(), 0);
    assert_eq!(db.articles.len(), before);
}

#[test]
fn refreshing_twice_does_not_duplicate_articles() {
    let mut db = Database::new();
    let feed = add_feed(&mut db, "https://example.com/feed.xml", fetched(RSS)).unwrap();
    let first = apply_refresh(&mut db, &feed, fetched(RSS)).unwrap();
    let second = apply_refresh(&mut db, &feed, fetched(RSS)).unwrap();
    assert_eq!(first, 2);
    assert_eq!(second, 2);
    assert_eq!(db.articles.len(), 2);
    let stored = get_feed_by_id(&db, &feed.id).unwrap();
    assert_eq!(stored.created_at, feed.created_at);
    assert!(stored.last_fetched_at.is_some());
}

#[test]
fn refresh_all_counts_entries_of_every_feed() {
    let mut db = Database::new();
    add_feed(&mut db, "https://example.com/a.xml", fetched(RSS)).unwrap();
    add_feed(&mut db, "https://example.com/b.xml", fetched(RSS)).unwrap();
    let mut run = RefreshAll::start(&db).unwrap();
    let mut seen = 0;
    while let Some(_feed) = run.current() {
        let f = if seen == 0 { fetched(RSS) } else { None };
        run.record(&mut db, f).unwrap();
        seen += 1;
    }
    assert_eq!(seen, 2);
    assert_eq!(run.total, 2);
    assert_eq!(db.articles.len(), 4);
}

#[test]
fn join_categories_uses_commas() {
    assert_eq!(join_categories(&vec![]), None);
    assert_eq!(join_categories(&vec!["a".to_string()]), Some("a".to_string()));
    assert_eq!(
        join_categories(&vec!["a".to_string(), "b".to_string(), "c".to_string()]),
        Some("a,b,c".to_string())
    );
}

#[test]
fn failed_ogp_fetch_still_marks_article_fetched() {
    let mut db = Database::new();
    add_feed(&mut db, "https://example.com/feed.xml", fetched(RSS)).unwrap();
    let id = db.articles[0].id.clone();
    let result = ogp_result(&id, Err(AppError::Http("boom".to_string())));
    assert!(!result.success);
    assert_eq!(result.error.as_deref(), Some("HTTP error: boom"));
    persist_ogp_result(&mut db, &result);
    let a = get_article_by_id(&db, &id).unwrap();
    assert!(a.og_fetched);
    assert!(a.og_image_url.is_none());
}

#[test]
fn successful_ogp_fetch_is_kept() {
    let mut db = Database::new();
    add_feed(&mut db, "https://example.com/feed.xml", fetched(RSS)).unwrap();
    let id = db.articles[1].id.clone();
    let data = OgpResultData {
        og_image_url: Some("https://example.com/i.png".to_string()),
        og_image_local: Some("/cache/x.png".to_string()),
        og_description: Some("desc".to_string()),
    };
    let result = ogp_result(&id, Ok(data));
    assert!(result.success);
    persist_ogp_result(&mut db, &result);
    let a = get_article_by_id(&db, &id).unwrap();
    assert!(a.og_fetched);
    assert_eq!(a.og_image_local.as_deref(), Some("/cache/x.png"));
    assert_eq!(a.og_description.as_deref(), Some("desc"));
}

#[test]
fn ogp_outcome_without_article_changes_nothing() {
    let mut db = Database::new();
    add_feed(&mut db, "https://example.com/feed.xml", fetched(RSS)).unwrap();
    let result = join_error_result("panicked");
    assert_eq!(result.article_id, "");
    assert_eq!(result.error.as_deref(), Some("Task join error: panicked"));
    persist_ogp_result(&mut db, &result);
    assert!(db.articles.iter().all(|a| !a.og_fetched));
    let missing = missing_url_result("x");
    assert!(!missing.success);
    assert_eq!(missing.error.as_deref(), Some("Article has no URL"));
}

#[test]
fn article_page_defaults_to_fifty_from_the_start() {
    let mut db = Database::new();
    add_feed(&mut db, "https://example.com/feed.xml", fetched(RSS)).unwrap();
    let page = list_articles_page(&db, None, None, None, None, None).unwrap();
    assert_eq!(page.len(), 2);
    let second = list_articles_page(&db, None, None, None, Some(1), Some(1)).unwrap();
    assert_eq!(second.len(), 1);
    assert_eq!(second[0].entry_id, "two");
}

#[test]
fn refresh_of_an_unstored_feed_fails_on_its_entries() {
    let mut db = Database::new();
    let feed = Feed {
        id: "ghost".to_string(),
        title: "t".to_string(),
        url: "https://example.com/ghost.xml".to_string(),
        feed_type: None,
        site_url: None,
        description: None,
        icon_url: None,
        created_at: "c".to_string(),
        updated_at: "c".to_string(),
        last_fetched_at: None,
        etag: None,
        last_modified: None,
    };
    let r = apply_refresh(&mut db, &feed, fetched(RSS));
    match r {
        Err(AppError::Database(m)) => assert_eq!(m, "FOREIGN KEY constraint failed"),
        other => panic!("unexpected: {:?}", other),
    }
    assert!(db.feeds.is_empty());
}

#[test]
fn refresh_to_an_address_another_feed_has_is_refused() {
    let mut db = Database::new();
    let a = add_feed(&mut db, "https://example.com/a.xml", fetched(RSS)).unwrap();
    add_feed(&mut db, "https://example.com/b.xml", fetched(RSS)).unwrap();
    let mut moved = a.clone();
    moved.url = "https://example.com/b.xml".to_string();
    let feeds_before = db.feeds.clone();
    let articles_before = db.articles.len();
    match apply_refresh(&mut db, &moved, fetched(RSS)) {
        Err(AppError::Database(m)) => assert_eq!(m, "UNIQUE constraint failed: feeds.url"),
        other => panic!("unexpected: {:?}", other),
    }
    assert_eq!(db.feeds.len(), feeds_before.len());
    assert_eq!(db.feeds[0].etag, feeds_before[0].etag);
    assert_eq!(db.articles.len(), articles_before);
}

#[test]
fn refresh_of_known_entries_succeeds_and_takes_new_details() {
    let mut db = Database::new();
    let feed = add_feed(&mut db, "https://example.com/feed.xml", fetched(RSS)).unwrap();
    let renamed = RSS.replace("Command Feed", "Renamed Feed");
    let n = apply_refresh(&mut db, &feed, fetched(&renamed)).unwrap();
    assert_eq!(n, 2);
    let stored = get_feed_by_id(&db, &feed.id).unwrap();
    assert_eq!(stored.title, "Renamed Feed");
    assert_eq!(stored.updated_at, stored.last_fetched_at.clone().unwrap());
    assert_eq!(db.articles.len(), 2);
}

#[test]
fn kept_batch_leaves_nothing_to_fetch() {
    let mut db = Database::new();
    add_feed(&mut db, "https://example.com/feed.xml", fetched(RSS)).unwrap();
    let ids: Vec<String> = db.articles.iter().map(|a| a.id.clone()).collect();
    let waiting = my_rss_feeder::db::article_repo::list_unfetched_ogp_articles(&db, &ids).unwrap();
    assert_eq!(waiting.len(), 2);
    let data = OgpResultData {
        og_image_url: Some("https://example.com/i.png".to_string()),
        og_image_local: None,
        og_description: Some("desc".to_string()),
    };
    let results = vec![
        ogp_result(&ids[0], Ok(data)),
        ogp_result(&ids[1], Err(AppError::Http("boom".to_string()))),
        join_error_result("panicked"),
    ];
    persist_ogp_results(&mut db, &results);
    let first = get_article_by_id(&db, &ids[0]).unwrap();
    assert!(first.og_fetched);
    assert_eq!(first.og_description.as_deref(), Some("desc"));
    let second = get_article_by_id(&db, &ids[1]).unwrap();
    assert!(second.og_fetched);
    assert!(second.og_description.is_none());
    let again = my_rss_feeder::db::article_repo::list_unfetched_ogp_articles(&db, &ids).unwrap();
    assert!(again.is_empty());
}
