use my_rss_feeder::db::article_repo::{
    get_article_by_id, list_articles, list_unfetched_ogp_articles, mark_as_read, update_ogp,
    upsert_article,
};
use my_rss_feeder::db::feed_repo;
use my_rss_feeder::db::Database;
use my_rss_feeder::models::{Article, Feed};

fn setup() -> Database {
    Database::new()
}

fn sample_feed() -> Feed {
    Feed {
        id: "feed-1".to_string(),
        title: "Test Feed".to_string(),
        url: "https://example.com/feed.xml".to_string(),
        feed_type: None,
        site_url: Some("https://example.com".to_string()),
        description: None,
        icon_url: None,
        created_at: "2024-01-01T00:00:00+00:00".to_string(),
        updated_at: "2024-01-01T00:00:00+00:00".to_string(),
        last_fetched_at: None,
        etag: None,
        last_modified: None,
    }
}

fn sample_article(feed_id: &str, entry_id: &str) -> Article {
    Article {
        id: uuid::Uuid::new_v4().to_string(),
        feed_id: feed_id.to_string(),
        entry_id: entry_id.to_string(),
        title: format!("Article {}", entry_id),
        url: Some(format!("https://example.com/{}", entry_id)),
        summary: None,
        content: None,
        author: None,
        published_at: Some("2024-01-01T00:00:00+00:00".to_string()),
        is_read: false,
        read_at: None,
        og_image_url: None,
        og_image_local: None,
        og_description: None,
        og_fetched: false,
        created_at: "2024-01-01T00:00:00+00:00".to_string(),
        feed_title: None,
        categories: None,
    }
}

#[test]
fn upsert_and_get_article() {
    let mut db = setup();
    let feed = sample_feed();
    feed_repo::insert_feed(&mut db, &feed).unwrap();

    let article = sample_article(&feed.id, "entry-1");
    upsert_article(&mut db, &article).unwrap();

    let retrieved = get_article_by_id(&db, &article.id).unwrap();
    assert_eq!(retrieved.title, "Article entry-1");
    assert_eq!(retrieved.feed_title, Some("Test Feed".to_string()));
}

#[test]
fn upsert_updates_existing_article() {
    let mut db = setup();
    let feed = sample_feed();
    feed_repo::insert_feed(&mut db, &feed).unwrap();

    let article = sample_article(&feed.id, "entry-1");
    upsert_article(&mut db, &article).unwrap();

    let mut updated = article.clone();
    updated.id = uuid::Uuid::new_v4().to_string();
    updated.title = "Updated Title".to_string();
    upsert_article(&mut db, &updated).unwrap();

    let articles = list_articles(&db, Some(&feed.id), None, None, 100, 0).unwrap();
    assert_eq!(articles.len(), 1);
    assert_eq!(articles[0].title, "Updated Title");
}

#[test]
fn list_articles_filters_by_feed_id() {
    let mut db = setup();

    let feed1 = sample_feed();
    feed_repo::insert_feed(&mut db, &feed1).unwrap();

    let mut feed2 = sample_feed();
    feed2.id = "feed-2".to_string();
    feed2.url = "https://example.com/feed2.xml".to_string();
    feed_repo::insert_feed(&mut db, &feed2).unwrap();

    let a1 = sample_article("feed-1", "e1");
    let a2 = sample_article("feed-2", "e2");
    upsert_article(&mut db, &a1).unwrap();
    upsert_article(&mut db, &a2).unwrap();

    let articles = list_articles(&db, Some("feed-1"), None, None, 100, 0).unwrap();
    assert_eq!(articles.len(), 1);
    assert_eq!(articles[0].feed_id, "feed-1");

    let all = list_articles(&db, None, None, None, 100, 0).unwrap();
    assert_eq!(all.len(), 2);
}

#[test]
fn mark_article_as_read() {
    let mut db = setup();
    let feed = sample_feed();
    feed_repo::insert_feed(&mut db, &feed).unwrap();

    let article = sample_article(&feed.id, "entry-1");
    upsert_article(&mut db, &article).unwrap();

    mark_as_read(&mut db, &article.id).unwrap();

    let retrieved = get_article_by_id(&db, &article.id).unwrap();
    assert!(retrieved.is_read);
    assert!(retrieved.read_at.is_some());
}

#[test]
fn mark_nonexistent_article_returns_not_found() {
    let mut db = setup();
    let result = mark_as_read(&mut db, "nonexistent");
    assert!(result.is_err());
}

#[test]
fn cascade_delete_removes_articles() {
    let mut db = setup();
    let feed = sample_feed();
    feed_repo::insert_feed(&mut db, &feed).unwrap();

    let article = sample_article(&feed.id, "entry-1");
    upsert_article(&mut db, &article).unwrap();

    feed_repo::delete_feed(&mut db, &feed.id).unwrap();

    let articles = list_articles(&db, Some(&feed.id), None, None, 100, 0).unwrap();
    assert_eq!(articles.len(), 0);
}

#[test]
fn update_ogp_sets_fields_and_marks_fetched() {
    let mut db = setup();
    let feed = sample_feed();
    feed_repo::insert_feed(&mut db, &feed).unwrap();

    let article = sample_article(&feed.id, "entry-ogp");
    upsert_article(&mut db, &article).unwrap();

    update_ogp(
        &mut db,
        &article.id,
        Some("https://example.com/og.png"),
        Some("/cache/abc.png"),
        Some("OG description"),
    )
    .unwrap();

    let retrieved = get_article_by_id(&db, &article.id).unwrap();
    assert!(retrieved.og_fetched);
    assert_eq!(retrieved.og_image_url.as_deref(), Some("https://example.com/og.png"));
    assert_eq!(retrieved.og_image_local.as_deref(), Some("/cache/abc.png"));
    assert_eq!(retrieved.og_description.as_deref(), Some("OG description"));
}

#[test]
fn update_ogp_with_none_values() {
    let mut db = setup();
    let feed = sample_feed();
    feed_repo::insert_feed(&mut db, &feed).unwrap();

    let article = sample_article(&feed.id, "entry-ogp-none");
    upsert_article(&mut db, &article).unwrap();

    update_ogp(&mut db, &article.id, None, None, None).unwrap();

    let retrieved = get_article_by_id(&db, &article.id).unwrap();
    assert!(retrieved.og_fetched);
    assert!(retrieved.og_image_url.is_none());
}

#[test]
fn update_ogp_nonexistent_article_returns_not_found() {
    let mut db = setup();
    let result = update_ogp(&mut db, "nonexistent", None, None, None);
    assert!(result.is_err());
}

#[test]
fn list_unfetched_ogp_articles_filters_correctly() {
    let mut db = setup();
    let feed = sample_feed();
    feed_repo::insert_feed(&mut db, &feed).unwrap();

    let a1 = sample_article(&feed.id, "e-fetched");
    let a2 = sample_article(&feed.id, "e-unfetched");
    upsert_article(&mut db, &a1).unwrap();
    upsert_article(&mut db, &a2).unwrap();

    // Mark a1 as OGP-fetched
    update_ogp(&mut db, &a1.id, None, None, None).unwrap();

    let ids = vec![a1.id.clone(), a2.id.clone()];
    let unfetched = list_unfetched_ogp_articles(&db, &ids).unwrap();
    assert_eq!(unfetched.len(), 1);
    assert_eq!(unfetched[0].id, a2.id);
}

#[test]
fn list_unfetched_ogp_articles_empty_input() {
    let db = setup();
    let result = list_unfetched_ogp_articles(&db, &[]).unwrap();
    assert!(result.is_empty());
}

#[test]
fn list_articles_respects_limit_and_offset() {
    let mut db = setup();
    let feed = sample_feed();
    feed_repo::insert_feed(&mut db, &feed).unwrap();

    for i in 0..5 {
        let mut a = sample_article(&feed.id, &format!("entry-{}", i));
        a.published_at = Some(format!("2024-01-0{}T00:00:00+00:00", i + 1));
        upsert_article(&mut db, &a).unwrap();
    }

    let page1 = list_articles(&db, None, None, None, 2, 0).unwrap();
    assert_eq!(page1.len(), 2);

    let page2 = list_articles(&db, None, None, None, 2, 2).unwrap();
    assert_eq!(page2.len(), 2);

    let page3 = list_articles(&db, None, None, None, 2, 4).unwrap();
    assert_eq!(page3.len(), 1);
}

#[test]
fn list_articles_filters_by_date_from() {
    let mut db = setup();
    let feed = sample_feed();
    feed_repo::insert_feed(&mut db, &feed).unwrap();

    let mut a1 = sample_article(&feed.id, "old");
    a1.published_at = Some("2024-01-01T00:00:00+00:00".to_string());
    let mut a2 = sample_article(&feed.id, "new");
    a2.published_at = Some("2024-06-01T00:00:00+00:00".to_string());
    upsert_article(&mut db, &a1).unwrap();
    upsert_article(&mut db, &a2).unwrap();

    let articles =
        list_articles(&db, None, Some("2024-03-01T00:00:00+00:00"), None, 100, 0).unwrap();
    assert_eq!(articles.len(), 1);
    assert_eq!(articles[0].entry_id, "new");
}

#[test]
fn list_articles_filters_by_date_to() {
    let mut db = setup();
    let feed = sample_feed();
    feed_repo::insert_feed(&mut db, &feed).unwrap();

    let mut a1 = sample_article(&feed.id, "old");
    a1.published_at = Some("2024-01-01T00:00:00+00:00".to_string());
    let mut a2 = sample_article(&feed.id, "new");
    a2.published_at = Some("2024-06-01T00:00:00+00:00".to_string());
    upsert_article(&mut db, &a1).unwrap();
    upsert_article(&mut db, &a2).unwrap();

    let articles =
        list_articles(&db, None, None, Some("2024-03-01T00:00:00+00:00"), 100, 0).unwrap();
    assert_eq!(articles.len(), 1);
    assert_eq!(articles[0].entry_id, "old");
}

#[test]
fn list_articles_filters_by_date_range() {
    let mut db = setup();
    let feed = sample_feed();
    feed_repo::insert_feed(&mut db, &feed).unwrap();

    let mut a1 = sample_article(&feed.id, "jan");
    a1.published_at = Some("2024-01-15T00:00:00+00:00".to_string());
    let mut a2 = sample_article(&feed.id, "mar");
    a2.published_at = Some("2024-03-15T00:00:00+00:00".to_string());
    let mut a3 = sample_article(&feed.id, "jun");
    a3.published_at = Some("2024-06-15T00:00:00+00:00".to_string());
    upsert_article(&mut db, &a1).unwrap();
    upsert_article(&mut db, &a2).unwrap();
    upsert_article(&mut db, &a3).unwrap();

    let articles = list_articles(
        &db,
        None,
        Some("2024-02-01T00:00:00+00:00"),
        Some("2024-05-01T00:00:00+00:00"),
        100,
        0,
    )
    .unwrap();
    assert_eq!(articles.len(), 1);
    assert_eq!(articles[0].entry_id, "mar");
}

#[test]
fn list_articles_null_published_at_falls_back() {
    let mut db = setup();
    let feed = sample_feed();
    feed_repo::insert_feed(&mut db, &feed).unwrap();

    let mut a1 = sample_article(&feed.id, "no-pub");
    a1.published_at = None;
    a1.created_at = "2024-04-01T00:00:00+00:00".to_string();
    upsert_article(&mut db, &a1).unwrap();

    // Should match using created_at fallback
    let articles = list_articles(
        &db,
        None,
        Some("2024-03-01T00:00:00+00:00"),
        Some("2024-05-01T00:00:00+00:00"),
        100,
        0,
    )
    .unwrap();
    assert_eq!(articles.len(), 1);
    assert_eq!(articles[0].entry_id, "no-pub");

    // Should not match when outside range
    let articles =
        list_articles(&db, None, Some("2024-05-01T00:00:00+00:00"), None, 100, 0).unwrap();
    assert_eq!(articles.len(), 0);
}

#[test]
fn list_articles_date_and_feed_id_combined() {
    let mut db = setup();

    let feed1 = sample_feed();
    feed_repo::insert_feed(&mut db, &feed1).unwrap();

    let mut feed2 = sample_feed();
    feed2.id = "feed-2".to_string();
    feed2.url = "https://example.com/feed2.xml".to_string();
    feed_repo::insert_feed(&mut db, &feed2).unwrap();

    let mut a1 = sample_article("feed-1", "f1-old");
    a1.published_at = Some("2024-01-01T00:00:00+00:00".to_string());
    let mut a2 = sample_article("feed-1", "f1-new");
    a2.published_at = Some("2024-06-01T00:00:00+00:00".to_string());
    let mut a3 = sample_article("feed-2", "f2-new");
    a3.published_at = Some("2024-06-01T00:00:00+00:00".to_string());
    upsert_article(&mut db, &a1).unwrap();
    upsert_article(&mut db, &a2).unwrap();
    upsert_article(&mut db, &a3).unwrap();

    // feed-1 + date_from: should only get f1-new
    let articles = list_articles(
        &db,
        Some("feed-1"),
        Some("2024-03-01T00:00:00+00:00"),
        None,
        100,
        0,
    )
    .unwrap();
    assert_eq!(articles.len(), 1);
    assert_eq!(articles[0].entry_id, "f1-new");
}
