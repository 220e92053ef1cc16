//! The minifier boundary: an opaque text-to-text transform.

use vstd::prelude::*;

verus! {

/// What the minifier makes of a text: the minified text, or nothing when it
/// rejects the input. The transform is a function of the text alone.
pub uninterp spec fn minified_of(text: Seq<char>) -> Option<Seq<char>>;

/// Relies on `html_minifier::minify`: it minifies with default options, and
/// the result - success or failure - depends on the input text alone.
#[verifier::external_body]
pub fn minify_html(text: &str) -> (r: Result<String, String>)
    ensures
        match r {
            Ok(t) => minified_of(text@) == Some(t@),
            Err(_) => minified_of(text@) is None,
        },
{
    match html_minifier::minify(text) {
        Ok(t) => Ok(t),
        Err(e) => Err(e.to_string()),
    }
}

} // verus!
