//! Paths written with the separator of the platform.

use vstd::prelude::*;

use crate::text::{replace_char, replace_chars};

verus! {

/// `s` with each `/` replaced by `separator`.
pub open spec fn with_separator(s: Seq<char>, separator: char) -> Seq<char> {
    replace_char(s, '/', separator)
}

/// Relies on `std::path::MAIN_SEPARATOR`, which is `\` on Windows and `/`
/// elsewhere.
#[verifier::external_body]
fn main_separator() -> (r: char)
    ensures
        r == '/' || r == '\\',
{
    std::path::MAIN_SEPARATOR
}

/// `s` with each `/` replaced by a backslash where `separator` is not `/`.
pub fn convert_separators(s: &str, separator: char) -> (r: String)
    ensures
        r@ == if separator == '/' {
            s@
        } else {
            with_separator(s@, '\\')
        },
{
    if separator == '/' {
        return s.to_owned();
    }
    proof {
        reveal_strlit("\\");
    }
    replace_chars(s, '/', "\\")
}

/// A path written with `/` in the form the platform expects.
pub fn ensure_correct_path_separator(string: String) -> (r: String)
    ensures
        r@ == string@ || r@ == with_separator(string@, '\\'),
{
    convert_separators(string.as_str(), main_separator())
}

} // verus!
