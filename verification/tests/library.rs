use my_rss_feeder::db::article_repo::{list_articles, upsert_article};
use my_rss_feeder::db::feed_repo::{delete_feed, insert_feed};
use my_rss_feeder::db::Database;
use my_rss_feeder::digest::{sha256_hex, to_hex};
use my_rss_feeder::error::AppError;
use my_rss_feeder::feed::discovery::choose_feed_url;
use my_rss_feeder::feed::fetcher::{conditional_headers, fetch_status, FetchStatus};
use my_rss_feeder::models::{Article, Feed};
use my_rss_feeder::notification::scheduler::{
    count_todays_unread, count_unread_between, duration_until, next_step, reminder_for,
    wait_for, SchedulerStep,
};
use my_rss_feeder::models::NotificationSettings;
use my_rss_feeder::ogp::image_cache::{accepts_image_size, extract_extension, MAX_IMAGE_SIZE};
use my_rss_feeder::text::{contains_str, trim};
use my_rss_feeder::web::resolve_url;
use my_rss_feeder::webview::{build_highlight_call, escape_for_js};

fn feed(id: &str, url: &str) -> Feed {
    Feed {
        id: id.to_string(),
        title: id.to_string(),
        url: url.to_string(),
        feed_type: None,
        site_url: None,
        description: None,
        icon_url: None,
        created_at: "2024-01-01T00:00:00+00:00".to_string(),
        updated_at: "2024-01-01T00:00:00+00:00".to_string(),
        last_fetched_at: None,
        etag: None,
        last_modified: None,
    }
}

fn article(id: &str, feed_id: &str, published: Option<&str>, created: &str) -> Article {
    Article {
        id: id.to_string(),
        feed_id: feed_id.to_string(),
        entry_id: id.to_string(),
        title: id.to_string(),
        url: None,
        summary: None,
        content: None,
        author: None,
        published_at: published.map(|s| s.to_string()),
        is_read: false,
        read_at: None,
        og_image_url: None,
        og_image_local: None,
        og_description: None,
        og_fetched: false,
        created_at: created.to_string(),
        feed_title: None,
        categories: None,
    }
}

#[test]
fn listing_is_newest_first_with_undated_last() {
    let mut db = Database::new();
    insert_feed(&mut db, &feed("f", "u")).unwrap();
    upsert_article(&mut db, &article("a", "f", Some("2024-01-01"), "2024-09-01")).unwrap();
    upsert_article(&mut db, &article("b", "f", None, "2024-12-01")).unwrap();
    upsert_article(&mut db, &article("c", "f", Some("2024-05-01"), "2024-09-01")).unwrap();
    upsert_article(&mut db, &article("d", "f", Some("2024-05-01"), "2024-10-01")).unwrap();
    let all = list_articles(&db, None, None, None, -1, 0).unwrap();
    let ids: Vec<&str> = all.iter().map(|a| a.id.as_str()).collect();
    assert_eq!(ids, vec!["d", "c", "a", "b"]);
}

#[test]
fn pages_follow_one_another() {
    let mut db = Database::new();
    insert_feed(&mut db, &feed("f", "u")).unwrap();
    for i in 0..7 {
        let p = format!("2024-01-0{}", i + 1);
        upsert_article(&mut db, &article(&format!("a{}", i), "f", Some(&p), "c")).unwrap();
    }
    let first = list_articles(&db, None, None, None, 2, 1).unwrap();
    let second = list_articles(&db, None, None, None, 3, 3).unwrap();
    let both = list_articles(&db, None, None, None, 5, 1).unwrap();
    let joined: Vec<String> = first.iter().chain(second.iter()).map(|a| a.id.clone()).collect();
    let whole: Vec<String> = both.iter().map(|a| a.id.clone()).collect();
    assert_eq!(joined, whole);
    assert_eq!(whole, vec!["a5", "a4", "a3", "a2", "a1"]);
}

#[test]
fn negative_offset_counts_as_none_and_large_offset_is_empty() {
    let mut db = Database::new();
    insert_feed(&mut db, &feed("f", "u")).unwrap();
    upsert_article(&mut db, &article("a", "f", None, "c")).unwrap();
    assert_eq!(list_articles(&db, None, None, None, 10, -5).unwrap().len(), 1);
    assert_eq!(list_articles(&db, None, None, None, 10, 9).unwrap().len(), 0);
    assert_eq!(list_articles(&db, None, None, None, 0, 0).unwrap().len(), 0);
}

#[test]
fn upsert_errors_name_the_constraint() {
    let mut db = Database::new();
    match upsert_article(&mut db, &article("a", "missing", None, "c")) {
        Err(AppError::Database(m)) => assert_eq!(m, "FOREIGN KEY constraint failed"),
        other => panic!("unexpected: {:?}", other),
    }
    insert_feed(&mut db, &feed("f", "u")).unwrap();
    upsert_article(&mut db, &article("a", "f", None, "c")).unwrap();
    let mut same_id = article("a", "f", None, "c");
    same_id.entry_id = "other".to_string();
    match upsert_article(&mut db, &same_id) {
        Err(AppError::Database(m)) => assert_eq!(m, "UNIQUE constraint failed: articles.id"),
        other => panic!("unexpected: {:?}", other),
    }
}

#[test]
fn feed_errors_name_the_column_and_missing_feed() {
    let mut db = Database::new();
    insert_feed(&mut db, &feed("f", "u")).unwrap();
    match insert_feed(&mut db, &feed("f", "v")) {
        Err(AppError::Database(m)) => assert_eq!(m, "UNIQUE constraint failed: feeds.id"),
        other => panic!("unexpected: {:?}", other),
    }
    match insert_feed(&mut db, &feed("g", "u")) {
        Err(AppError::Database(m)) => assert_eq!(m, "UNIQUE constraint failed: feeds.url"),
        other => panic!("unexpected: {:?}", other),
    }
    match delete_feed(&mut db, "nope") {
        Err(AppError::NotFound(m)) => assert_eq!(m, "Feed not found: nope"),
        other => panic!("unexpected: {:?}", other),
    }
}

#[test]
fn error_messages() {
    assert_eq!(AppError::Database("x".to_string()).message(), "Database error: x");
    assert_eq!(AppError::Io("x".to_string()).message(), "IO error: x");
    assert_eq!(AppError::FeedParse("x".to_string()).message(), "Feed parse error: x");
    assert_eq!(AppError::NotFound("x".to_string()).message(), "x");
    assert_eq!(AppError::Duplicate("x".to_string()).message(), "x");
    assert_eq!(AppError::Other("x".to_string()).message(), "x");
}

#[test]
fn digests_are_lowercase_hex() {
    assert_eq!(
        sha256_hex(""),
        "e3b0c44298fc1c149afbf4c8996fb92427ae41e4649b934ca495991b7852b855"
    );
    assert_eq!(
        sha256_hex("abc"),
        "ba7816bf8f01cfea414140de5dae2223b00361a396177a9cb410ff61f20015ad"
    );
    assert_eq!(to_hex(&[0, 15, 16, 255]), "000f10ff");
}

#[test]
fn extensions_are_kept_as_written() {
    assert_eq!(extract_extension("https://x.com/a/b.PNG?x=1.jpg"), Some("PNG"));
    assert_eq!(extract_extension("https://x.com/a/b.webp"), Some("webp"));
    assert_eq!(extract_extension("https://x.com/a/b.txt"), None);
    assert_eq!(extract_extension("https://x.com/a/image"), None);
    assert_eq!(extract_extension("jpeg"), Some("jpeg"));
}

#[test]
fn image_size_limit_is_two_mebibytes() {
    assert_eq!(MAX_IMAGE_SIZE, 2 * 1024 * 1024);
    assert!(accepts_image_size(2 * 1024 * 1024));
    assert!(!accepts_image_size(2 * 1024 * 1024 + 1));
}

#[test]
fn escaping_reads_back() {
    assert_eq!(escape_for_js("plain 記事"), "plain 記事");
    assert_eq!(escape_for_js("'\\\n\r"), "\\'\\\\\\n\\r");
    assert_eq!(
        build_highlight_call("it's"),
        "if (typeof window.__rssHighlightTitle === 'function') { window.__rssHighlightTitle('it\\'s'); }"
    );
}

#[test]
fn time_of_day_waits() {
    // 00:00:00 to 10:00 is ten hours
    assert_eq!(wait_for(0, 0, 10, 0), 36_000_000_000_000);
    // at 10:00:00.5 the next 10:00 is tomorrow
    assert_eq!(wait_for(36_000, 500_000_000, 10, 0), 86_400_000_000_000 - 500_000_000);
    // exactly at the target the next one is tomorrow
    assert_eq!(wait_for(36_000, 0, 10, 0), 86_400_000_000_000);
}

#[test]
fn scheduler_steps() {
    let off = NotificationSettings { enabled: false, time: "08:00".to_string() };
    assert_eq!(next_step(&off), SchedulerStep::AwaitSettings);
    let bad = NotificationSettings { enabled: true, time: "8h".to_string() };
    assert_eq!(next_step(&bad), SchedulerStep::AwaitSettings);
    let on = NotificationSettings { enabled: true, time: "+8:05".to_string() };
    assert_eq!(next_step(&on), SchedulerStep::WaitUntil { hour: 8, minute: 5 });
}

#[test]
fn reminders() {
    assert!(reminder_for(0).is_none());
    let r = reminder_for(12).unwrap();
    assert_eq!(r.title, "My RSS Feeder");
    assert_eq!(r.body, "本日の未読記事が12件あります");
}

#[test]
fn unread_between_two_instants() {
    let mut db = Database::new();
    insert_feed(&mut db, &feed("f", "u")).unwrap();
    upsert_article(&mut db, &article("a", "f", None, "2024-03-01T10:00:00+00:00")).unwrap();
    upsert_article(&mut db, &article("b", "f", None, "2024-03-02T10:00:00+00:00")).unwrap();
    upsert_article(&mut db, &article("d", "f", None, "2024-02-29T15:00:00.25+00:00")).unwrap();
    upsert_article(&mut db, &article("e", "f", None, "2024-02-29T15:00:00+00:00")).unwrap();
    upsert_article(&mut db, &article("g", "f", None, "2024-02-29T14:59:59.999+00:00")).unwrap();
    let mut read = article("c", "f", None, "2024-03-01T11:00:00+00:00");
    read.is_read = true;
    upsert_article(&mut db, &read).unwrap();
    // The local day of 1 March 2024 at UTC+9 runs from 15:00 UTC on 29 February.
    let from = "2024-02-29T15:00:00+00:00";
    let to = "2024-03-01T15:00:00+00:00";
    assert_eq!(count_unread_between(&db, from, to), 3);
    assert_eq!(count_unread_between(&db, "2024-03-01T00:00:00+00:00", "2024-03-02T00:00:00+00:00"), 1);
    assert_eq!(count_unread_between(&db, to, from), 0);
}

#[test]
fn validators_and_statuses() {
    let h = conditional_headers(Some("\"e\""), Some("Mon"));
    assert_eq!(
        h,
        vec![
            ("If-None-Match".to_string(), "\"e\"".to_string()),
            ("If-Modified-Since".to_string(), "Mon".to_string())
        ]
    );
    assert!(conditional_headers(None, None).is_empty());
    assert_eq!(fetch_status(304), FetchStatus::NotModified);
    assert_eq!(fetch_status(404), FetchStatus::Failed);
    assert_eq!(fetch_status(503), FetchStatus::Failed);
    assert_eq!(fetch_status(200), FetchStatus::Body);
}

#[test]
fn feed_address_choice() {
    let url = "https://example.com/";
    assert_eq!(
        choose_feed_url(url, "Application/RSS+XML; charset=UTF-8", b"").unwrap(),
        url
    );
    let rss = br#"<?xml version="1.0"?><rss version="2.0"><channel><title>t</title></channel></rss>"#;
    assert_eq!(choose_feed_url(url, "text/html", rss).unwrap(), url);
    let page = br#"<html><head><link rel="alternate" type="application/rss+xml" href="/rss"></head></html>"#;
    assert_eq!(choose_feed_url(url, "text/html", page).unwrap(), "https://example.com/rss");
    match choose_feed_url(url, "text/html", b"<html></html>") {
        Err(AppError::FeedParse(m)) => {
            assert_eq!(m, "フィードが見つかりませんでした。フィードURLを直接指定してください。")
        }
        other => panic!("unexpected: {:?}", other),
    }
}

#[test]
fn addresses_resolve() {
    assert_eq!(
        resolve_url("https://example.com/blog/page", "../feed.xml").as_deref(),
        Some("https://example.com/feed.xml")
    );
    assert_eq!(resolve_url("not a url", "x").as_deref(), None);
    assert_eq!(resolve_url("not a url", "https://a.b/c").as_deref(), Some("https://a.b/c"));
}

#[test]
fn text_helpers() {
    assert_eq!(trim("  \u{3000}a b\t\n"), "a b");
    assert_eq!(trim(" \t "), "");
    assert!(contains_str("application/atom+xml", "atom"));
    assert!(!contains_str("text/html", "xml"));
    assert!(contains_str("abc", ""));
}

#[test]
fn clock_based_values_stay_in_range() {
    let db = Database::new();
    assert!(matches!(count_todays_unread(&db), Some(0) | None));
    let wait = duration_until(10, 0);
    assert!(wait <= 86_401_000_000_000);
}
