//! Markdown to HTML, by `pulldown_cmark`.

use vstd::prelude::*;

verus! {

/// The HTML that `pulldown_cmark` makes of the markdown text `body`, with
/// no extension switched on.
pub uninterp spec fn markdown_html(body: Seq<char>) -> Seq<char>;

/// Calls `pulldown_cmark::Parser::new` on `body` and hands the parser to
/// `pulldown_cmark::html::push_html`, which writes into an empty string.
///
/// Not proved: that the string is a function of `body` alone. The parser
/// reads nothing but its input and takes every text as markdown; the writer
/// appends the HTML of each event to the string it is given.
#[verifier::external_body]
fn push_html(body: &str) -> (html: String)
    ensures
        html@ == markdown_html(body@),
{
    let mut html = String::new();
    pulldown_cmark::html::push_html(&mut html, pulldown_cmark::Parser::new(body));
    html
}

/// Renders a markdown body as an HTML fragment. Every text is accepted.
pub fn render_markdown(body: &str) -> (html: String)
    ensures
        html@ == markdown_html(body@),
{
    push_html(body)
}

} // verus!
