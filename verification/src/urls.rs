//! URL handling for `play` input: the angle-bracket unwrapping the chat
//! platform invites, and the trusted boundary to the URL parser.

use vstd::prelude::*;
use vstd::string::StrSliceExecFns;

verus! {

/// A pasted link the platform renders unlinked, `<url>`, with the brackets
/// taken off; any other text unchanged.
pub fn strip_angle_brackets(s: &str) -> (r: &str)
    ensures
        r@ == if s@.len() >= 2 && s@[0] == '<' && s@.last() == '>' {
            s@.subrange(1, s@.len() - 1)
        } else {
            s@
        },
{
    let n = s.unicode_len();
    if n >= 2 && s.get_char(0) == '<' && s.get_char(n - 1) == '>' {
        s.substring_char(1, n - 1)
    } else {
        s
    }
}

/// Whether the text parses as an absolute URL.  This names the outcome of
/// the url crate's parser, which depends on its input alone.
pub uninterp spec fn is_absolute_url(s: Seq<char>) -> bool;

/// Relies on url's `Url::parse`: it returns `Ok` exactly on text it accepts
/// as an absolute URL, never panics, and its outcome depends on the input
/// alone.
#[verifier::external_body]
pub(crate) fn parses_as_url(s: &str) -> (r: bool)
    ensures
        r == is_absolute_url(s@),
{
    url::Url::parse(s).is_ok()
}

} // verus!
