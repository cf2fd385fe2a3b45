use my_rss_feeder::error::AppError;
use my_rss_feeder::feed::parser::parse_feed;

const SAMPLE_RSS2: &str = r#"<?xml version="1.0" encoding="UTF-8"?>
<rss version="2.0">
  <channel>
    <title>Test RSS Feed</title>
    <link>https://example.com</link>
    <description>A test RSS feed</description>
    <item>
      <title>First Article</title>
      <link>https://example.com/article1</link>
      <guid>article-1</guid>
      <pubDate>Mon, 01 Jan 2024 00:00:00 GMT</pubDate>
      <description>Summary of first article</description>
    </item>
    <item>
      <title>Second Article</title>
      <link>https://example.com/article2</link>
      <guid>article-2</guid>
    </item>
  </channel>
</rss>"#;

const SAMPLE_ATOM: &str = r#"<?xml version="1.0" encoding="UTF-8"?>
<feed xmlns="http://www.w3.org/2005/Atom">
  <title>Test Atom Feed</title>
  <link href="https://example.com"/>
  <id>urn:uuid:test-feed</id>
  <entry>
    <title>Atom Entry</title>
    <link href="https://example.com/atom-entry"/>
    <id>urn:uuid:atom-entry-1</id>
    <updated>2024-01-01T00:00:00Z</updated>
    <summary>Summary of atom entry</summary>
    <author><name>Author Name</name></author>
  </entry>
</feed>"#;

#[test]
fn parse_rss2_feed() {
    let result =
        parse_feed(SAMPLE_RSS2.as_bytes(), "https://example.com/feed.xml").unwrap();
    assert_eq!(result.title, "Test RSS Feed");
    assert_eq!(result.entries.len(), 2);
    assert_eq!(result.entries[0].title, "First Article");
    assert!(result.entries[0].url.is_some());
    assert!(result.entries[0].summary.is_some());
}

#[test]
fn parse_atom_feed() {
    let result =
        parse_feed(SAMPLE_ATOM.as_bytes(), "https://example.com/atom.xml").unwrap();
    assert_eq!(result.title, "Test Atom Feed");
    assert_eq!(result.entries.len(), 1);
    assert_eq!(result.entries[0].title, "Atom Entry");
    assert_eq!(
        result.entries[0].author,
        Some("Author Name".to_string())
    );
}

#[test]
fn title_falls_back_to_url_when_missing() {
    let no_title_rss = r#"<?xml version="1.0" encoding="UTF-8"?>
<rss version="2.0">
  <channel>
    <link>https://example.com</link>
    <item>
      <title>An Article</title>
      <guid>a-1</guid>
    </item>
  </channel>
</rss>"#;
    let result = parse_feed(
        no_title_rss.as_bytes(),
        "https://example.com/feed.xml",
    )
    .unwrap();
    assert_eq!(result.title, "https://example.com/feed.xml");
}

#[test]
fn entries_always_have_non_empty_entry_id() {
    let result =
        parse_feed(SAMPLE_RSS2.as_bytes(), "https://example.com/feed.xml").unwrap();
    for entry in &result.entries {
        assert!(!entry.entry_id.is_empty());
    }
}

#[test]
fn invalid_xml_returns_error() {
    let result = parse_feed(b"not xml at all", "https://example.com/feed.xml");
    assert!(result.is_err());
}

#[test]
fn parse_rss2_extracts_description() {
    let result =
        parse_feed(SAMPLE_RSS2.as_bytes(), "https://example.com/feed.xml").unwrap();
    assert_eq!(result.description, Some("A test RSS feed".to_string()));
}

#[test]
fn parse_atom_extracts_site_url() {
    let result =
        parse_feed(SAMPLE_ATOM.as_bytes(), "https://example.com/atom.xml").unwrap();
    assert!(result.site_url.is_some());
}

#[test]
fn parse_rss2_returns_rss2_feed_type() {
    let result =
        parse_feed(SAMPLE_RSS2.as_bytes(), "https://example.com/feed.xml").unwrap();
    assert_eq!(result.feed_type, "rss2");
}

#[test]
fn parse_atom_returns_atom_feed_type() {
    let result =
        parse_feed(SAMPLE_ATOM.as_bytes(), "https://example.com/atom.xml").unwrap();
    assert_eq!(result.feed_type, "atom");
}

#[test]
fn parse_atom_with_categories() {
    let atom_with_categories = r#"<?xml version="1.0" encoding="UTF-8"?>
<feed xmlns="http://www.w3.org/2005/Atom">
  <title>Category Feed</title>
  <link href="https://example.com"/>
  <id>urn:uuid:cat-feed</id>
  <entry>
    <title>Tagged Entry</title>
    <link href="https://example.com/tagged"/>
    <id>urn:uuid:tagged-1</id>
    <updated>2024-01-01T00:00:00Z</updated>
    <category term="tech" label="Technology"/>
    <category term="rust"/>
  </entry>
</feed>"#;
    let result = parse_feed(
        atom_with_categories.as_bytes(),
        "https://example.com/atom.xml",
    )
    .unwrap();
    assert_eq!(result.entries[0].categories.len(), 2);
    // label がある場合はlabelを、なければtermを使用
    assert_eq!(result.entries[0].categories[0], "Technology");
    assert_eq!(result.entries[0].categories[1], "rust");
}

#[test]
fn parse_atom_with_content() {
    let atom_with_content = r#"<?xml version="1.0" encoding="UTF-8"?>
<feed xmlns="http://www.w3.org/2005/Atom">
  <title>Content Feed</title>
  <link href="https://example.com"/>
  <id>urn:uuid:content-feed</id>
  <entry>
    <title>Rich Entry</title>
    <link href="https://example.com/rich"/>
    <id>urn:uuid:rich-1</id>
    <updated>2024-01-01T00:00:00Z</updated>
    <content type="html">&lt;p&gt;Hello World&lt;/p&gt;</content>
    <summary>Plain summary</summary>
  </entry>
</feed>"#;
    let result = parse_feed(
        atom_with_content.as_bytes(),
        "https://example.com/atom.xml",
    )
    .unwrap();
    assert!(result.entries[0].content.is_some());
    assert!(result.entries[0].summary.is_some());
}

#[test]
fn parse_rss2_with_categories() {
    let rss_with_categories = r#"<?xml version="1.0" encoding="UTF-8"?>
<rss version="2.0">
  <channel>
    <title>RSS Category Feed</title>
    <link>https://example.com</link>
    <item>
      <title>Categorized</title>
      <link>https://example.com/cat</link>
      <guid>cat-1</guid>
      <category>Programming</category>
      <category>Rust</category>
    </item>
  </channel>
</rss>"#;
    let result = parse_feed(
        rss_with_categories.as_bytes(),
        "https://example.com/feed.xml",
    )
    .unwrap();
    assert_eq!(result.entries[0].categories.len(), 2);
    assert_eq!(result.entries[0].categories[0], "Programming");
    assert_eq!(result.entries[0].categories[1], "Rust");
}

#[test]
fn entries_have_empty_categories_when_none() {
    let result =
        parse_feed(SAMPLE_RSS2.as_bytes(), "https://example.com/feed.xml").unwrap();
    assert!(result.entries[0].categories.is_empty());
}

#[test]
fn entry_ids_are_the_documents_own() {
    let result =
        parse_feed(SAMPLE_RSS2.as_bytes(), "https://example.com/feed.xml").unwrap();
    let ids: Vec<&str> = result.entries.iter().map(|e| e.entry_id.as_str()).collect();
    assert_eq!(ids, vec!["article-1", "article-2"]);
}

#[test]
fn podcast_with_an_overlong_duration_is_refused_unread() {
    let doc = r#"<?xml version="1.0"?>
<rss version="2.0" xmlns:itunes="http://www.itunes.com/dtds/podcast-1.0.dtd">
  <channel>
    <title>Cast</title>
    <item>
      <title>Episode</title>
      <guid>ep-1</guid>
      <itunes:duration>1234567890123456789012345</itunes:duration>
    </item>
  </channel>
</rss>"#;
    match parse_feed(doc.as_bytes(), "https://example.com/cast.xml") {
        Err(AppError::FeedParse(m)) => assert_eq!(
            m,
            "the document holds a media time that feed-rs may fail to read without stopping"
        ),
        other => panic!("unexpected: {:?}", other),
    }
}

#[test]
fn podcast_with_plain_text_is_read() {
    let doc = r#"<?xml version="1.0"?>
<rss version="2.0" xmlns:itunes="http://www.itunes.com/dtds/podcast-1.0.dtd">
  <channel>
    <title>Cast</title>
    <item>
      <title>Episode</title>
      <guid>ep-1</guid>
      <itunes:duration>12:30</itunes:duration>
    </item>
  </channel>
</rss>"#;
    let result = parse_feed(doc.as_bytes(), "https://example.com/cast.xml").unwrap();
    assert_eq!(result.title, "Cast");
    assert_eq!(result.entries.len(), 1);
    assert_eq!(result.entries[0].entry_id, "ep-1");
}

#[test]
fn podcast_with_digits_joined_across_a_comment_is_refused_unread() {
    let doc = r#"<?xml version="1.0"?>
<rss version="2.0" xmlns:itunes="http://www.itunes.com/dtds/podcast-1.0.dtd">
  <channel>
    <title>Cast</title>
    <item>
      <title>Episode</title>
      <guid>ep-1</guid>
      <itunes:duration>12345678<!-- -->901234567890123</itunes:duration>
    </item>
  </channel>
</rss>"#;
    assert!(matches!(
        parse_feed(doc.as_bytes(), "https://example.com/cast.xml"),
        Err(AppError::FeedParse(_))
    ));
}

#[test]
fn podcast_with_a_cdata_description_is_read() {
    let doc = r#"<?xml version="1.0"?>
<rss version="2.0" xmlns:itunes="http://www.itunes.com/dtds/podcast-1.0.dtd">
  <channel>
    <title>Cast</title>
    <item>
      <title>Episode</title>
      <guid>ep-2</guid>
      <description><![CDATA[A talk about <b>feeds</b>.]]></description>
      <itunes:duration>45:00</itunes:duration>
    </item>
  </channel>
</rss>"#;
    let result = parse_feed(doc.as_bytes(), "https://example.com/cast.xml").unwrap();
    assert_eq!(result.entries[0].entry_id, "ep-2");
}

#[test]
fn podcast_with_accents_and_references_is_read() {
    let doc = "<?xml version=\"1.0\"?>
<rss version=\"2.0\" xmlns:itunes=\"http://www.itunes.com/dtds/podcast-1.0.dtd\">
  <channel>
    <title>Caf\u{e9} Talk</title>
    <item>
      <title>It\u{2019}s episode 12345678901234567890</title>
      <description>Don&#8217;t miss it</description>
      <guid>ep-3</guid>
      <itunes:duration>01:02:03</itunes:duration>
    </item>
  </channel>
</rss>";
    let result = parse_feed(doc.as_bytes(), "https://example.com/cast.xml").unwrap();
    assert_eq!(result.title, "Caf\u{e9} Talk");
    assert_eq!(result.entries.len(), 1);
    assert_eq!(result.entries[0].entry_id, "ep-3");
}

#[test]
fn media_feed_with_non_ascii_text_is_read() {
    let doc = "<?xml version=\"1.0\" encoding=\"UTF-8\"?>
<feed xmlns=\"http://www.w3.org/2005/Atom\" xmlns:media=\"http://search.yahoo.com/mrss/\">
  <title>Cha\u{ee}ne</title>
  <id>yt:channel:abc</id>
  <entry>
    <id>yt:video:1</id>
    <title>Vid\u{e9}o \u{65e5}\u{672c}</title>
    <link rel=\"alternate\" href=\"https://example.com/v/1\"/>
    <media:group>
      <media:thumbnail url=\"https://example.com/t.jpg\" width=\"480\" height=\"360\"/>
      <media:description>\u{30c6}\u{30b9}\u{30c8}</media:description>
    </media:group>
  </entry>
</feed>";
    let result = parse_feed(doc.as_bytes(), "https://example.com/yt.xml").unwrap();
    assert_eq!(result.title, "Cha\u{ee}ne");
    assert_eq!(result.entries[0].entry_id, "yt:video:1");
}

#[test]
fn media_thumbnail_with_an_overlong_time_is_refused_unread() {
    let doc = r#"<?xml version="1.0"?>
<rss version="2.0" xmlns:media="http://search.yahoo.com/mrss/">
  <channel>
    <title>Clips</title>
    <item>
      <title>Clip</title>
      <guid>c-1</guid>
      <media:thumbnail url="https://example.com/t.jpg" time="123456789012345678901234"/>
    </item>
  </channel>
</rss>"#;
    assert!(matches!(
        parse_feed(doc.as_bytes(), "https://example.com/clips.xml"),
        Err(AppError::FeedParse(_))
    ));
}

#[test]
fn duration_in_another_script_is_refused_unread() {
    let doc = "<?xml version=\"1.0\"?>
<rss version=\"2.0\" xmlns:itunes=\"http://www.itunes.com/dtds/podcast-1.0.dtd\">
  <channel>
    <title>Cast</title>
    <item>
      <title>Episode</title>
      <guid>ep-4</guid>
      <itunes:duration>\u{661}\u{662}:\u{663}\u{664}</itunes:duration>
    </item>
  </channel>
</rss>";
    assert!(matches!(
        parse_feed(doc.as_bytes(), "https://example.com/cast.xml"),
        Err(AppError::FeedParse(_))
    ));
}
