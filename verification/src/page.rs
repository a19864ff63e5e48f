//! Markdown rendering for the gateway: CommonMark through `pulldown-cmark`,
//! wrapped in a small standalone HTML page.

use vstd::prelude::*;

use crate::text::push_str;

verus! {

/// The `pulldown-cmark` options the gateway renders with: tables (`1 << 1`),
/// strikethrough (`1 << 3`) and task lists (`1 << 4`).
pub const GATEWAY_MARKDOWN_OPTIONS: u32 = 26;

/// What `html::push_html` writes into an empty string for the events of
/// `Parser::new_ext(markdown, Options::from_bits_truncate(options))`.
pub uninterp spec fn commonmark_html(markdown: Seq<char>, options: u32) -> Seq<char>;

/// Renders `markdown` to HTML with `pulldown-cmark` (`Parser::new_ext` and
/// `html::push_html`); the result is named, not spelled out.
#[verifier::external_body]
fn render_commonmark(markdown: &str, options: u32) -> (r: String)
    ensures
        r@ == commonmark_html(markdown@, options),
{
    let mut out = String::new();
    let options = pulldown_cmark::Options::from_bits_truncate(options);
    pulldown_cmark::html::push_html(&mut out, pulldown_cmark::Parser::new_ext(markdown, options));
    out
}

/// The head of the standalone page, up to and including the line that opens
/// its body.
pub open spec fn page_head() -> Seq<char> {
    r#"<!DOCTYPE html>
<html>
<head>
    <meta charset="UTF-8">
    <meta name="viewport" content="width=device-width, initial-scale=1.0">
    <style>
        body { font-family: -apple-system, BlinkMacSystemFont, "Segoe UI", Roboto, sans-serif; max-width: 800px; margin: 40px auto; padding: 0 20px; line-height: 1.6; }
        img { max-width: 100%; height: auto; }
        code { background: #f4f4f4; padding: 2px 6px; border-radius: 3px; }
        pre { background: #f4f4f4; padding: 12px; border-radius: 5px; overflow-x: auto; }
        table { border-collapse: collapse; width: 100%; }
        th, td { border: 1px solid #ddd; padding: 8px; text-align: left; }
        th { background-color: #f4f4f4; }
    </style>
</head>
<body>
"#@
}

/// The end of the standalone page, after its body.
pub open spec fn page_tail() -> Seq<char> {
    "\n</body>\n</html>"@
}

/// `body` in the standalone page.
pub open spec fn html_page(body: Seq<char>) -> Seq<char> {
    page_head() + body + page_tail()
}

/// Wraps an HTML fragment in the standalone page.
pub fn wrap_html_page(body: &str) -> (r: String)
    ensures
        r@ == html_page(body@),
{
    let mut r = String::from_str(
        r#"<!DOCTYPE html>
<html>
<head>
    <meta charset="UTF-8">
    <meta name="viewport" content="width=device-width, initial-scale=1.0">
    <style>
        body { font-family: -apple-system, BlinkMacSystemFont, "Segoe UI", Roboto, sans-serif; max-width: 800px; margin: 40px auto; padding: 0 20px; line-height: 1.6; }
        img { max-width: 100%; height: auto; }
        code { background: #f4f4f4; padding: 2px 6px; border-radius: 3px; }
        pre { background: #f4f4f4; padding: 12px; border-radius: 5px; overflow-x: auto; }
        table { border-collapse: collapse; width: 100%; }
        th, td { border: 1px solid #ddd; padding: 8px; text-align: left; }
        th { background-color: #f4f4f4; }
    </style>
</head>
<body>
"#,
    );
    push_str(&mut r, body);
    push_str(&mut r, "\n</body>\n</html>");
    r
}

/// Converts markdown content to HTML: the CommonMark rendering with tables,
/// strikethrough and task lists, in the standalone page.
pub fn markdown_to_html(markdown: &str) -> (r: String)
    ensures
        r@ == html_page(commonmark_html(markdown@, GATEWAY_MARKDOWN_OPTIONS)),
{
    let body = render_commonmark(markdown, GATEWAY_MARKDOWN_OPTIONS);
    wrap_html_page(body.as_str())
}

} // verus!
