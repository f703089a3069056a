use vstd::prelude::*;

verus! {

/// The HTML that jotdown's default renderer makes of a Djot document.
pub uninterp spec fn djot_html(src: Seq<char>) -> Seq<char>;

/// Renders a Djot document to HTML with jotdown.
///
/// Calls `jotdown::html::render_to_string` on the events of
/// `jotdown::Parser::new(src)`, which renders with the default renderer into a
/// fresh `String` and gives it back (the renderer fails only when its writer
/// does, and writing into a `String` does not fail). The contract claims only
/// that the result is a function of the document's text; which HTML that is,
/// is jotdown's to say and is not stated here.
#[verifier::external_body]
pub(crate) fn render_djot(src: &str) -> (html: String)
    ensures
        html@ == djot_html(src@),
{
    jotdown::html::render_to_string(jotdown::Parser::new(src))
}

} // verus!
