use vstd::prelude::*;
use crate::lexer::types::{clone_parts_from, parts_view, tokens_view, QuoteType, Token, Word, WordPart, WordPartV, WordV};
use crate::parser::spec::{find_char, sp_assignment};
use crate::parser::Parser;
use crate::strings::{str_to_chars, substring_of};

verus! {

/// The index of the first `c` in `v`, or its length.
pub fn find_char_index(v: &Vec<char>, c: char) -> (r: usize)
    ensures
        r == find_char(v@, c, 0),
{
    let mut i: usize = 0;
    while i < v.len()
        invariant
            0 <= i <= v@.len(),
            find_char(v@, c, i as int) == find_char(v@, c, 0),
        decreases v@.len() - i,
    {
        if v[i] == c {
            return i;
        }
        i = i + 1;
    }
    i
}

/// The value of an assignment found by `parse_assignment`.
pub open spec fn assignment_opt_view(r: Option<(usize, (String, Word))>) -> Option<(int, (Seq<char>, WordV))> {
    match r {
        Some((k, (name, w))) => Some((k as int, (name@, w@))),
        None => None,
    }
}

/// An assignment `NAME=value` at `pos` of `tokens` (or `NAME=` followed by
/// a word): how many tokens it takes, its name and its value.
pub fn assignment_at(tokens: &Vec<Token>, pos: usize) -> (r: Option<(usize, (String, Word))>)
    ensures
        assignment_opt_view(r) == sp_assignment(tokens_view(tokens@), pos as int),
{
    if pos >= tokens.len() {
        return None;
    }
    match &tokens[pos] {
        Token::Word(word) => {
            if word.quote == QuoteType::Unquoted && word.parts.len() > 0 {
                match &word.parts[0] {
                    WordPart::Literal(part) => {
                        let cs = str_to_chars(part.as_str());
                        let eq = find_char_index(&cs, '=');
                        if eq < cs.len() {
                            let key = substring_of(&cs, 0, eq);
                            if eq == cs.len() - 1 && word.parts.len() == 1 {
                                if pos + 1 < tokens.len() {
                                    match &tokens[pos + 1] {
                                        Token::Word(val) => {
                                            let parts = clone_parts_from(&val.parts, 0);
                                            assert(parts_view(val.parts@).subrange(0, val.parts@.len() as int) =~= parts_view(val.parts@));
                                            Some((2, (key, Word { parts, quote: QuoteType::Unquoted })))
                                        },
                                        _ => None,
                                    }
                                } else {
                                    None
                                }
                            } else {
                                let mut parts = clone_parts_from(&word.parts, 1);
                                let ghost rest = parts_view(parts@);
                                if eq + 1 < cs.len() {
                                    let after = substring_of(&cs, eq + 1, cs.len());
                                    parts.insert(0, WordPart::Literal(after));
                                    assert(parts_view(parts@) =~= seq![WordPartV::Literal(cs@.subrange(eq + 1, cs@.len() as int))] + rest);
                                } else {
                                    assert(parts_view(parts@) =~= Seq::<WordPartV>::empty() + rest);
                                }
                                Some((1, (key, Word { parts, quote: QuoteType::Unquoted })))
                            }
                        } else {
                            None
                        }
                    },
                    _ => None,
                }
            } else {
                None
            }
        },
        _ => None,
    }
}

impl Parser {
    /// An assignment `NAME=value` at `pos` (or `NAME=` followed by a word):
    /// how many tokens it takes, its name and its value.
    pub fn parse_assignment(&self, pos: usize) -> (r: Option<(usize, (String, Word))>)
        ensures
            assignment_opt_view(r) == sp_assignment(self.state().toks, pos as int),
    {
        assignment_at(&self.tokens, pos)
    }
}

} // verus!
