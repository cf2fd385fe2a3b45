use my_rss_feeder::models::{Article, NotificationSettings};

fn sample_article() -> Article {
    Article {
        id: "article-1".to_string(),
        feed_id: "feed-1".to_string(),
        entry_id: "entry-1".to_string(),
        title: "Test Article".to_string(),
        url: Some("https://example.com/article".to_string()),
        summary: None,
        content: None,
        author: None,
        published_at: None,
        is_read: false,
        read_at: None,
        og_image_url: None,
        og_image_local: None,
        og_description: None,
        og_fetched: false,
        created_at: "2024-01-01T00:00:00+00:00".to_string(),
        feed_title: None,
        categories: None,
    }
}

#[test]
fn article_default_state_is_unread() {
    let article = sample_article();
    assert!(!article.is_read);
    assert!(article.read_at.is_none());
}

#[test]
fn article_default_og_is_unfetched() {
    let article = sample_article();
    assert!(!article.og_fetched);
    assert!(article.og_image_url.is_none());
}

#[test]
fn notification_settings_default_is_off_at_ten() {
    let s = NotificationSettings::default();
    assert!(!s.enabled);
    assert_eq!(s.time, "10:00");
}
