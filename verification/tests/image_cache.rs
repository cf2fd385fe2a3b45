use my_rss_feeder::ogp::image_cache::url_to_filename;

#[test]
fn url_to_filename_uses_sha256_and_extension() {
    let filename = url_to_filename("https://example.com/photo.png");
    assert!(filename.ends_with(".png"));
    assert!(filename.len() > 64); // SHA256 hex = 64 chars + dot + ext
}

#[test]
fn url_to_filename_defaults_to_jpg() {
    let filename = url_to_filename("https://example.com/image");
    assert!(filename.ends_with(".jpg"));
}
