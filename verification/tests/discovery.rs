use my_rss_feeder::feed::discovery::discover_feeds_from_html;

#[test]
fn discover_atom_feed_from_html() {
    let html = r#"
        <html>
        <head>
            <link rel="alternate" type="application/atom+xml" title="Atom Feed" href="/feed/atom" />
        </head>
        <body></body>
        </html>
        "#;
    let feeds = discover_feeds_from_html(html, "https://example.com");
    assert_eq!(feeds.len(), 1);
    assert_eq!(feeds[0].url, "https://example.com/feed/atom");
    assert_eq!(feeds[0].feed_type, "atom");
    assert_eq!(feeds[0].title, Some("Atom Feed".to_string()));
}

#[test]
fn discover_rss_feed_from_html() {
    let html = r#"
        <html>
        <head>
            <link rel="alternate" type="application/rss+xml" title="RSS Feed" href="https://example.com/rss.xml" />
        </head>
        <body></body>
        </html>
        "#;
    let feeds = discover_feeds_from_html(html, "https://example.com");
    assert_eq!(feeds.len(), 1);
    assert_eq!(feeds[0].url, "https://example.com/rss.xml");
    assert_eq!(feeds[0].feed_type, "rss");
}

#[test]
fn discover_multiple_feeds() {
    let html = r#"
        <html>
        <head>
            <link rel="alternate" type="application/atom+xml" title="Atom" href="/atom.xml" />
            <link rel="alternate" type="application/rss+xml" title="RSS" href="/rss.xml" />
        </head>
        <body></body>
        </html>
        "#;
    let feeds = discover_feeds_from_html(html, "https://example.com");
    assert_eq!(feeds.len(), 2);
}

#[test]
fn no_feeds_in_html() {
    let html = r#"
        <html>
        <head>
            <link rel="stylesheet" href="/style.css" />
        </head>
        <body></body>
        </html>
        "#;
    let feeds = discover_feeds_from_html(html, "https://example.com");
    assert!(feeds.is_empty());
}

#[test]
fn ignores_link_without_href() {
    let html = r#"
        <html>
        <head>
            <link rel="alternate" type="application/atom+xml" title="No Href" />
        </head>
        <body></body>
        </html>
        "#;
    let feeds = discover_feeds_from_html(html, "https://example.com");
    assert!(feeds.is_empty());
}

#[test]
fn resolves_relative_urls() {
    let html = r#"
        <html>
        <head>
            <link rel="alternate" type="application/atom+xml" href="../feed.xml" />
        </head>
        <body></body>
        </html>
        "#;
    let feeds = discover_feeds_from_html(html, "https://example.com/blog/page");
    assert_eq!(feeds.len(), 1);
    assert_eq!(feeds[0].url, "https://example.com/feed.xml");
}
