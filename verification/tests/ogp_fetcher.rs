use my_rss_feeder::ogp::fetcher::extract_ogp;

#[test]
fn extracts_og_image_and_og_description() {
    let html = r#"
        <html>
        <head>
            <meta property="og:image" content="https://example.com/image.png" />
            <meta property="og:description" content="A test page" />
        </head>
        <body></body>
        </html>
        "#;
    let ogp = extract_ogp(html, "https://example.com/page");
    assert_eq!(
        ogp.og_image_url.as_deref(),
        Some("https://example.com/image.png")
    );
    assert_eq!(ogp.og_description.as_deref(), Some("A test page"));
}

#[test]
fn returns_none_when_og_image_not_set() {
    let html = r#"
        <html>
        <head>
            <meta property="og:description" content="No image here" />
        </head>
        <body></body>
        </html>
        "#;
    let ogp = extract_ogp(html, "https://example.com/page");
    assert!(ogp.og_image_url.is_none());
    assert_eq!(ogp.og_description.as_deref(), Some("No image here"));
}

#[test]
fn converts_relative_url_to_absolute() {
    let html = r#"
        <html>
        <head>
            <meta property="og:image" content="/images/photo.jpg" />
        </head>
        <body></body>
        </html>
        "#;
    let ogp = extract_ogp(html, "https://example.com/blog/post");
    assert_eq!(
        ogp.og_image_url.as_deref(),
        Some("https://example.com/images/photo.jpg")
    );
}

#[test]
fn returns_none_for_empty_content() {
    let html = r#"
        <html>
        <head>
            <meta property="og:image" content="" />
            <meta property="og:description" content="   " />
        </head>
        <body></body>
        </html>
        "#;
    let ogp = extract_ogp(html, "https://example.com/page");
    assert!(ogp.og_image_url.is_none());
    assert!(ogp.og_description.is_none());
}

#[test]
fn returns_none_when_no_meta_tags() {
    let html = "<html><head></head><body></body></html>";
    let ogp = extract_ogp(html, "https://example.com/page");
    assert!(ogp.og_image_url.is_none());
    assert!(ogp.og_description.is_none());
}
