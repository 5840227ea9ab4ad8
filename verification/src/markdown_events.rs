//! The events of a Markdown parse, one line each, as the `md-events` tool
//! prints them.

use vstd::prelude::*;

use crate::sorted_keys::string_views;

verus! {

/// The `Debug` forms of the events that `pulldown_cmark::Parser` produces
/// for a text, in order.
pub uninterp spec fn markdown_events(text: Seq<char>) -> Seq<Seq<char>>;

/// `pulldown_cmark::Parser::new` run over `text`: each event, in the order
/// the parser produces it, formatted with `Debug`. The contract only names
/// the result; it claims nothing about the events themselves.
#[verifier::external_body]
fn parse_markdown_events(text: &str) -> (res: Vec<String>)
    ensures
        string_views(res@) == markdown_events(text@),
{
    let mut lines = Vec::new();
    for event in pulldown_cmark::Parser::new(text) {
        lines.push(format!("{event:?}"));
    }
    lines
}

/// The lines that describe the Markdown events of `input`, one per event.
pub fn markdown_event_lines(input: &str) -> (res: Vec<String>)
    ensures
        string_views(res@) == markdown_events(input@),
{
    parse_markdown_events(input)
}

} // verus!
