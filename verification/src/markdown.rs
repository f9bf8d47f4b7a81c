//! Markdown rendering for the web pages, through the `pulldown-cmark`
//! crate. The same rendering backs the document page and the editor's live
//! preview, so the preview always matches the saved page.
use pulldown_cmark::{html, Event, Options, Parser};
use vstd::prelude::*;

verus! {

/// The `pulldown-cmark` option bit for GitHub-style tables.
pub const MARKDOWN_TABLES: u32 = 2;

/// The `pulldown-cmark` option bit for `~~strikethrough~~`.
pub const MARKDOWN_STRIKETHROUGH: u32 = 8;

/// The kinds of markdown event the rendering decides on: raw HTML, as a
/// block or inline, plain text, and every other event.
#[derive(Debug, Clone, Copy, PartialEq, Eq, Structural)]
pub enum EventKind {
    Html,
    InlineHtml,
    Text,
    Other,
}

/// Whether an event kind is raw HTML from the source.
pub open spec fn is_raw_html(k: EventKind) -> bool {
    k is Html || k is InlineHtml
}

/// The kind an event has when it reaches the HTML writer: raw HTML is
/// handed on as text, every other kind as it is.
pub open spec fn written_kind(k: EventKind) -> EventKind {
    if is_raw_html(k) {
        EventKind::Text
    } else {
        k
    }
}

/// The rendering's decision on raw HTML: since the pages embed the
/// rendered HTML unescaped, raw HTML in a document must not become markup,
/// so a raw HTML event is written as text (which the writer escapes), and
/// every other event is written as it is.
pub fn sanitize_kind(k: EventKind) -> (r: EventKind)
    ensures
        r == written_kind(k),
        is_raw_html(k) ==> r is Text,
        !is_raw_html(k) ==> r == k,
{
    match k {
        EventKind::Html | EventKind::InlineHtml => EventKind::Text,
        other => other,
    }
}

/// No raw HTML reaches the writer: whatever kind an event has, the kind it
/// is written as is not raw HTML.
pub proof fn lemma_no_raw_html_written(k: EventKind)
    ensures
        !is_raw_html(written_kind(k)),
{
}

/// The HTML `pulldown-cmark` writes for `content` under the option bits
/// `options`, each event of the parse being written as the kind
/// `sanitize_kind` gives it (so raw HTML is written as escaped text).
pub uninterp spec fn markdown_html(content: Seq<char>, options: u32) -> Seq<char>;

/// `pulldown_cmark::Parser::new_ext` with `Options::from_bits_truncate(options)`,
/// its events written out by `pulldown_cmark::html::push_html`. Each raw
/// HTML event (`Html`, `InlineHtml`) is converted to its `EventKind`,
/// passed through the verified `sanitize_kind`, and converted back with its
/// text (a `Text` event, which the writer escapes); every other event is
/// handed on as it is. The HTML is named, not stated.
#[verifier::external_body]
fn cmark_html(content: &str, options: u32) -> (res: String)
    ensures
        res@ == markdown_html(content@, options),
{
    let parser = Parser::new_ext(content, Options::from_bits_truncate(options)).map(|event| {
        let (kind, raw) = match event {
            Event::Html(raw) => (EventKind::Html, raw),
            Event::InlineHtml(raw) => (EventKind::InlineHtml, raw),
            other => return other,
        };
        match sanitize_kind(kind) {
            EventKind::Html => Event::Html(raw),
            EventKind::InlineHtml => Event::InlineHtml(raw),
            EventKind::Text | EventKind::Other => Event::Text(raw),
        }
    });
    let mut output = String::new();
    html::push_html(&mut output, parser);
    output
}

/// Renders markdown to HTML with tables and strikethrough enabled. Raw HTML
/// in the source is not passed through: it shows as escaped text, since
/// the pages embed the result unescaped.
pub fn render_markdown(content: &str) -> (res: String)
    ensures
        res@ == markdown_html(content@, (MARKDOWN_TABLES | MARKDOWN_STRIKETHROUGH) as u32),
{
    cmark_html(content, MARKDOWN_TABLES | MARKDOWN_STRIKETHROUGH)
}

/// The editor's live preview of its `content`: nothing when the content is
/// missing or blank, else the rendered markdown.
pub fn preview_html(content: &Option<String>) -> (res: String)
    ensures
        match content {
            Some(c) => if crate::text::is_blank(c@) {
                res@.len() == 0
            } else {
                res@ == markdown_html(c@, (MARKDOWN_TABLES | MARKDOWN_STRIKETHROUGH) as u32)
            },
            None => res@.len() == 0,
        },
{
    match content {
        Some(c) => {
            if crate::text::is_blank_str(c.as_str()) {
                String::new()
            } else {
                render_markdown(c.as_str())
            }
        },
        None => String::new(),
    }
}

} // verus!
