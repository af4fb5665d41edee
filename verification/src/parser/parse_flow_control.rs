use vstd::prelude::*;
use crate::error::ShellError;
use crate::lexer::types::{clone_word, Token, WordPart};
use crate::parser::spec::sp_flow_control;
use crate::parser::types::AstNode;
use crate::parser::{res_view, string_is, Parser};

verus! {

impl Parser {
    /// `break` or `continue` with an optional level word; see `sp_flow_control`.
    pub fn parse_flow_control(&mut self) -> (r: Result<Option<AstNode>, ShellError>)
        ensures
            res_view(r) == sp_flow_control(old(self).state()).0,
            final(self).state() == sp_flow_control(old(self).state()).1,
    {
        let is_break: bool = match self.current() {
            Some(Token::Word(word)) => {
                if word.parts.len() != 1 {
                    return Ok(None);
                }
                match &word.parts[0] {
                    WordPart::Literal(s) => {
                        if string_is(s, "break") {
                            true
                        } else if string_is(s, "continue") {
                            false
                        } else {
                            return Ok(None);
                        }
                    },
                    _ => {
                        return Ok(None);
                    },
                }
            },
            _ => {
                return Ok(None);
            },
        };
        self.advance();
        let level_word = match self.current() {
            Some(Token::Word(word)) => Some(clone_word(word)),
            _ => None,
        };
        if level_word.is_some() {
            self.advance();
        }
        if is_break {
            Ok(Some(AstNode::Break(level_word)))
        } else {
            proof {
                reveal_strlit("break");
                reveal_strlit("continue");
            }
            Ok(Some(AstNode::Continue(level_word)))
        }
    }
}

} // verus!
