use my_rss_feeder::db::feed_repo::{
    delete_feed, get_feed_by_id, get_feed_by_url, insert_feed, list_feeds, update_feed,
};
use my_rss_feeder::db::Database;
use my_rss_feeder::models::Feed;

fn setup() -> Database {
    Database::new()
}

fn sample_feed() -> Feed {
    Feed {
        id: uuid::Uuid::new_v4().to_string(),
        title: "Test Feed".to_string(),
        url: "https://example.com/feed.xml".to_string(),
        feed_type: Some("rss2".to_string()),
        site_url: Some("https://example.com".to_string()),
        description: Some("A test feed".to_string()),
        icon_url: None,
        created_at: "2024-01-01T00:00:00+00:00".to_string(),
        updated_at: "2024-01-01T00:00:00+00:00".to_string(),
        last_fetched_at: None,
        etag: None,
        last_modified: None,
    }
}

#[test]
fn insert_and_get_feed() {
    let mut db = setup();
    let feed = sample_feed();
    insert_feed(&mut db, &feed).unwrap();
    let retrieved = get_feed_by_id(&db, &feed.id).unwrap();
    assert_eq!(retrieved.title, "Test Feed");
    assert_eq!(retrieved.url, "https://example.com/feed.xml");
}

#[test]
fn list_feeds_returns_all_ordered_by_title() {
    let mut db = setup();

    let mut feed1 = sample_feed();
    feed1.title = "BBB Feed".to_string();
    feed1.url = "https://example.com/feed1.xml".to_string();

    let mut feed2 = sample_feed();
    feed2.title = "AAA Feed".to_string();
    feed2.url = "https://example.com/feed2.xml".to_string();

    insert_feed(&mut db, &feed1).unwrap();
    insert_feed(&mut db, &feed2).unwrap();

    let feeds = list_feeds(&db).unwrap();
    assert_eq!(feeds.len(), 2);
    assert_eq!(feeds[0].title, "AAA Feed");
    assert_eq!(feeds[1].title, "BBB Feed");
}

#[test]
fn duplicate_url_returns_error() {
    let mut db = setup();
    let feed = sample_feed();
    insert_feed(&mut db, &feed).unwrap();

    let mut dup = sample_feed();
    dup.id = uuid::Uuid::new_v4().to_string();
    let result = insert_feed(&mut db, &dup);
    assert!(result.is_err());
}

#[test]
fn delete_feed_removes_it() {
    let mut db = setup();
    let feed = sample_feed();
    insert_feed(&mut db, &feed).unwrap();
    delete_feed(&mut db, &feed.id).unwrap();

    let result = get_feed_by_id(&db, &feed.id);
    assert!(result.is_err());
}

#[test]
fn delete_nonexistent_feed_returns_not_found() {
    let mut db = setup();
    let result = delete_feed(&mut db, "nonexistent");
    assert!(result.is_err());
}

#[test]
fn update_feed_changes_fields() {
    let mut db = setup();
    let mut feed = sample_feed();
    insert_feed(&mut db, &feed).unwrap();

    feed.title = "Updated Title".to_string();
    feed.updated_at = "2024-02-01T00:00:00+00:00".to_string();
    update_feed(&mut db, &feed).unwrap();

    let retrieved = get_feed_by_id(&db, &feed.id).unwrap();
    assert_eq!(retrieved.title, "Updated Title");
}

#[test]
fn get_feed_by_url_returns_matching_feed() {
    let mut db = setup();
    let feed = sample_feed();
    insert_feed(&mut db, &feed).unwrap();

    let found = get_feed_by_url(&db, &feed.url).unwrap();
    assert!(found.is_some());
    assert_eq!(found.unwrap().id, feed.id);
}

#[test]
fn get_feed_by_url_returns_none_for_unknown() {
    let db = setup();
    let found = get_feed_by_url(&db, "https://unknown.com/feed").unwrap();
    assert!(found.is_none());
}
