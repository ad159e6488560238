//! Markdown to HTML, by `pulldown_cmark`.

use vstd::prelude::*;

verus! {

/// The HTML fragment that `pulldown_cmark` writes for a markdown text with
/// no extension enabled.
pub uninterp spec fn markdown_html(source: Seq<char>) -> Seq<char>;

/// Calls `pulldown_cmark::html::push_html` on an empty string and the events
/// of `pulldown_cmark::Parser::new(source)`. The contract names what is
/// written; the conversion itself is not proved here.
#[verifier::external_body]
fn push_markdown(source: &str) -> (html: String)
    ensures
        html@ == markdown_html(source@),
{
    let mut html = String::new();
    pulldown_cmark::html::push_html(&mut html, pulldown_cmark::Parser::new(source));
    html
}

/// The HTML fragment for a markdown text.
pub fn to_html(source: &str) -> (html: String)
    ensures
        html@ == markdown_html(source@),
{
    push_markdown(source)
}

} // verus!
