use rho_brain::markdown::{preview_html, render_markdown, sanitize_kind, EventKind};

#[test]
fn renders_basic_markdown() {
    assert!(render_markdown("# Title").contains("<h1>Title</h1>"));
    assert!(render_markdown("**bold**").contains("<strong>bold</strong>"));
    assert!(render_markdown("*em*").contains("<em>em</em>"));
}

#[test]
fn tables_extension_is_enabled() {
    let md = "| a | b |\n| --- | --- |\n| 1 | 2 |";
    let html = render_markdown(md);
    assert!(html.contains("<table>"), "GFM tables should render: {html}");
    assert!(html.contains("<td>1</td>"), "cell contents should render: {html}");
}

#[test]
fn strikethrough_extension_is_enabled() {
    let html = render_markdown("~~gone~~");
    assert!(
        html.contains("<del>gone</del>"),
        "GFM strikethrough should render: {html}"
    );
}

#[test]
fn raw_html_is_not_passed_through() {
    let html = render_markdown("<script>alert(1)</script>");
    assert!(!html.contains("<script>"), "raw HTML leaked: {html}");
    assert!(html.contains("&lt;script&gt;"), "should be visible as text: {html}");
}

#[test]
fn preview_renders_markdown() {
    let html = preview_html(&Some("# Hi **there**\n\nsome `code`".to_string()));
    assert!(html.contains("<h1>Hi <strong>there</strong></h1>"), "{html}");
    assert!(html.contains("<code>code</code>"), "{html}");
}

#[test]
fn preview_escapes_raw_html() {
    let html = preview_html(&Some("<script>alert(1)</script>".to_string()));
    assert!(!html.contains("<script>alert"), "{html}");
}

#[test]
fn preview_of_missing_or_blank_content_is_empty() {
    assert_eq!(preview_html(&None), "");
    assert_eq!(preview_html(&Some("   \n".to_string())), "");
}

#[test]
fn preview_matches_page_rendering() {
    let md = "Hello **world** from markdown";
    assert_eq!(preview_html(&Some(md.to_string())), render_markdown(md));
}

#[test]
fn raw_html_kinds_are_written_as_text() {
    assert_eq!(sanitize_kind(EventKind::Html), EventKind::Text);
    assert_eq!(sanitize_kind(EventKind::InlineHtml), EventKind::Text);
    assert_eq!(sanitize_kind(EventKind::Text), EventKind::Text);
    assert_eq!(sanitize_kind(EventKind::Other), EventKind::Other);
    let html = render_markdown("a <b>bold</b> word\n\n<div>block</div>");
    assert!(!html.contains("<b>") && !html.contains("<div>"), "{html}");
    assert!(html.contains("&lt;b&gt;") && html.contains("&lt;div&gt;"), "{html}");
}
