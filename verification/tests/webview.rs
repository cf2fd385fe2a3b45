use my_rss_feeder::webview::{build_highlight_eval, escape_for_js};

#[test]
fn build_highlight_eval_escapes_single_quotes() {
    let js = build_highlight_eval("it's a test");
    assert!(js.contains(r"it\'s a test"));
    assert!(!js.contains("it's a test"));
}

#[test]
fn build_highlight_eval_escapes_backslashes() {
    let js = build_highlight_eval(r"path\to\file");
    assert!(js.contains(r"path\\to\\file"));
}

#[test]
fn build_highlight_eval_escapes_newlines() {
    let js = build_highlight_eval("line1\nline2\rline3");
    assert!(js.contains(r"line1\nline2\rline3"));
    assert!(!js.contains('\n') || !js.contains("line1\nline2"));
}

#[test]
fn build_highlight_eval_handles_japanese() {
    let js = build_highlight_eval("官報の記事タイトル");
    assert!(js.contains("官報の記事タイトル"));
    assert!(js.contains("__rssHighlightTitle"));
}

#[test]
fn build_highlight_eval_contains_required_functions() {
    let js = build_highlight_eval("test title");
    assert!(js.contains("__rssHighlightTitle"));
    assert!(js.contains("tryHighlight"));
    assert!(js.contains("setTimeout"));
}

#[test]
fn escape_for_js_handles_combined() {
    let result = escape_for_js("it's a\\path\nwith\rstuff");
    assert_eq!(result, r"it\'s a\\path\nwith\rstuff");
}
