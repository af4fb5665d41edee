pub mod error;
pub mod ast;
pub mod strings;
pub mod lexer;
pub mod parser;
pub mod expansion;
pub mod lx;
pub mod envirement;
pub mod commands;
pub mod builtins;
pub mod shell_interactions;
pub mod events_handler;
pub mod exec;
pub mod redirection;
pub mod config;

use vstd::prelude::*;
use vstd::string::{StrSliceExecFns, StringExecFns};
use crate::lexer::tokenize::matches_at;
use crate::strings::str_to_chars;

verus! {

/// The text before the first occurrence of `pattern` in `s` (all of `s`
/// when there is none; empty for an empty pattern), as the first piece
/// that `str::split` yields.
pub open spec fn first_piece(s: Seq<char>, pattern: Seq<char>) -> Seq<char> {
    if pattern.len() == 0 {
        Seq::empty()
    } else if exists|k: int| 0 <= k <= s.len() && #[trigger] matches_at(s, k, pattern) {
        let k = choose|k: int| 0 <= k <= s.len() && #[trigger] matches_at(s, k, pattern) && forall|j: int|
            0 <= j < k ==> !matches_at(s, j, pattern);
        s.subrange(0, k)
    } else {
        s
    }
}

/// The first piece of `s` split at `pattern`.
pub fn get_first_element<'a>(s: &'a str, pattern: &str) -> (r: &'a str)
    ensures
        r@ == first_piece(s@, pattern@),
{
    let c = str_to_chars(s);
    let p = str_to_chars(pattern);
    if p.len() == 0 {
        return s.substring_char(0, 0);
    }
    let mut k: usize = 0;
    while k < c.len()
        invariant
            0 <= k <= c@.len(),
            c@ == s@,
            p@ == pattern@,
            p@.len() > 0,
            forall|j: int| 0 <= j < k ==> !matches_at(s@, j, pattern@),
        decreases c@.len() - k,
    {
        if c.len() - k >= p.len() {
            let mut m: usize = 0;
            while m < p.len() && c[k + m] == p[m]
                invariant
                    0 <= m <= p@.len(),
                    k + p@.len() <= c.len(),
                    forall|t: int| 0 <= t < m ==> c@[k + t] == p@[t],
                decreases p@.len() - m,
            {
                m = m + 1;
            }
            if m == p.len() {
                assert(c@.subrange(k as int, k + p@.len()) =~= p@);
                assert(matches_at(s@, k as int, pattern@));
                return s.substring_char(0, k);
            }
            assert(!matches_at(s@, k as int, pattern@)) by {
                if matches_at(s@, k as int, pattern@) {
                    assert(c@.subrange(k as int, k + p@.len())[m as int] == p@[m as int]);
                }
            }
        }
        k = k + 1;
    }
    assert(forall|j: int| 0 <= j <= s@.len() ==> !#[trigger] matches_at(s@, j, pattern@));
    s.substring_char(0, c.len())
}

/// The number of characters of the prompt `➜ <dir> ` for the current
/// directory's name `current_directory`.
pub fn prompt_len(current_directory: &str) -> (r: usize)
    requires
        current_directory@.len() + 3 <= usize::MAX,
    ensures
        r == current_directory@.len() + 3,
{
    current_directory.unicode_len() + 3
}

/// Text to be shown in a colour.
#[allow(non_camel_case_types)]
pub enum Colors {
    YELLOW(String),
}

impl Colors {
    /// The text wrapped in the ANSI escapes for its colour.
    pub fn to_ansi(&self) -> (r: String)
        ensures
            match self {
                Colors::YELLOW(text) => r@ == "\x1b[1;31m"@ + text@ + "\x1b[0m"@,
            },
    {
        match self {
            Colors::YELLOW(text) => {
                let s = String::from_str("\x1b[1;31m");
                let s = s.concat(text.as_str());
                s.concat("\x1b[0m")
            },
        }
    }
}

} // verus!
