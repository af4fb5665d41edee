use vstd::prelude::*;
use crate::lexer::flat::ident_char;
use crate::strings::is_ascii_alphanumeric;

verus! {

/// A character that may appear in a variable name: an ASCII letter or digit, or `_`.
pub fn is_var_char(c: char) -> (r: bool)
    ensures
        r == ident_char(c),
{
    is_ascii_alphanumeric(c) || c == '_'
}

/// Collects the text up to a closing delimiter. This version reads nothing
/// and gives back an empty string, whatever its arguments.
pub fn extract_until_matching(chars: &[char], start: &str, end: &str) -> (r: String)
    ensures
        r@ == Seq::<char>::empty(),
{
    String::new()
}

} // verus!
