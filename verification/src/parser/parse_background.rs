use vstd::prelude::*;
use vstd::string::StringExecFns;
use crate::error::ShellError;
use crate::lexer::types::Token;
use crate::parser::spec::{bg_finish, sp_background};
use crate::parser::types::AstNode;
use crate::parser::{is_reserved_token, res_view, Parser};

verus! {

impl Parser {
    /// An optional `!`, an `if` or a command, and a trailing `&`; see `sp_background`.
    pub fn parse_background(&mut self) -> (r: Result<Option<AstNode>, ShellError>)
        ensures
            res_view(r) == sp_background(old(self).state()).0,
            final(self).state() == sp_background(old(self).state()).1,
    {
        let should_negate = match self.current() {
            Some(Token::LogicalNot) => true,
            _ => false,
        };
        if should_negate {
            self.advance();
        }
        let node = match self.parse_if() {
            Err(e) => {
                return Err(e);
            },
            Ok(Some(n)) => n,
            Ok(None) => {
                match self.parse_command() {
                    Err(e) => {
                        return Err(e);
                    },
                    Ok(None) => {
                        return Ok(None);
                    },
                    Ok(Some(cmd)) => {
                        if should_negate {
                            AstNode::Not(Box::new(cmd))
                        } else {
                            cmd
                        }
                    },
                }
            },
        };
        self.finish_background(node)
    }

    /// A trailing `&` after a parsed command; see `bg_finish`.
    fn finish_background(&mut self, node: AstNode) -> (r: Result<Option<AstNode>, ShellError>)
        ensures
            res_view(r) == bg_finish(node@, old(self).state()).0,
            final(self).state() == bg_finish(node@, old(self).state()).1,
    {
        let amp = match self.current() {
            Some(Token::Ampersand) => true,
            _ => false,
        };
        if amp {
            let next = if self.pos < self.tokens.len() && self.pos + 1 < self.tokens.len() {
                Some(&self.tokens[self.pos + 1])
            } else {
                None
            };
            if !is_reserved_token(next) {
                self.advance();
                match self.current() {
                    Some(Token::Semicolon) => {
                        return Err(ShellError::Parse(String::from_str("Unexpected `;` after background `&`")));
                    },
                    _ => {},
                }
            }
            return Ok(Some(AstNode::Background(Box::new(node))));
        }
        Ok(Some(node))
    }
}

} // verus!
