//! A screenplay turned into HTML in one step, with what the parse could not do shown in
//! the page itself.
use vstd::prelude::*;
use vstd::string::*;
use crate::error::{Rule, error_text};
use crate::grammar::{Outcome, document_spec};
use crate::html::document_html;
use crate::parse::document;

verus! {

/// The HTML for the screenplay `s`: its rendering where it parses to the end; where text
/// is left over, that text in a section of its own before the rendering; and where the
/// parse fails, the error.
pub open spec fn screenplay_html(s: Seq<char>) -> Seq<char> {
    match document_spec(s) {
        Outcome::Matched(d, f) => if f == s.len() {
            document_html(d)
        } else {
            "<h1 class='fountain-unparsed-title'>Unparsed</h1>\n<p class='fountain-unparsed-body'>'"@
                + s.subrange(f, s.len() as int) + "'</p>\n"@ + document_html(d)
        },
        Outcome::Fatal(x) => "<h1 class='fountain-parse-error-title'>Error</h1>\n<p class='fountain-parse-error-body'>"@
            + error_text(true, s.subrange(x, s.len() as int), seq![Rule::Parenthetical, Rule::SpdBlock, Rule::Block])
            + "</p>"@,
        Outcome::Mismatch => Seq::empty(),
    }
}

/// Parses `screenplay` and renders it as HTML, reporting left-over text or the error.
pub fn parse(screenplay: &str) -> (r: String)
    ensures
        r@ == screenplay_html(screenplay@),
{
    let parsed = document(screenplay);
    match parsed {
        Err(e) => {
            let mut r = "<h1 class='fountain-parse-error-title'>Error</h1>\n<p class='fountain-parse-error-body'>".to_owned();
            r.append(e.describe().as_str());
            r.append("</p>");
            r
        },
        Ok((unparsed, parsed)) => {
            if unparsed.unicode_len() == 0 {
                parsed.as_html()
            } else {
                let mut r = "<h1 class='fountain-unparsed-title'>Unparsed</h1>\n<p class='fountain-unparsed-body'>'".to_owned();
                r.append(unparsed);
                r.append("'</p>\n");
                r.append(parsed.as_html().as_str());
                r
            }
        },
    }
}

} // verus!
