//! Conversion of a document's body markup to HTML.

use vstd::prelude::*;

verus! {

/// The HTML that the markup converter, with tables switched on, writes for
/// a body: a function of the body's text alone.
pub uninterp spec fn markdown_html(body: Seq<char>) -> Seq<char>;

/// Calls `pulldown_cmark::html::push_html` on
/// `pulldown_cmark::Parser::new_ext(body, Options::ENABLE_TABLES)`, the parser
/// with tables switched on and no other extension. Trusted: the call only
/// appends to `out`, and what it appends depends on `body` alone (the writer
/// starts from a fixed state and never reads what `out` already holds); that
/// text is named `markdown_html(body@)`. The parser accepts every string.
#[verifier::external_body]
fn push_markdown(out: &mut String, body: &str)
    ensures
        final(out)@ == old(out)@ + markdown_html(body@),
{
    let parser = pulldown_cmark::Parser::new_ext(body, pulldown_cmark::Options::ENABLE_TABLES);
    pulldown_cmark::html::push_html(out, parser);
}

/// The HTML of `body`: headings, emphasis, lists, links, code, block quotes
/// and tables are converted. Never fails: markup that is not well formed
/// comes out as the converter leaves it.
pub fn render(body: &str) -> (html: String)
    ensures
        html@ == markdown_html(body@),
{
    let mut html = String::new();
    push_markdown(&mut html, body);
    assert(html@ =~= markdown_html(body@));
    html
}

} // verus!
