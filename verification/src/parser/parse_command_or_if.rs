use vstd::prelude::*;
use crate::error::ShellError;
use crate::lexer::types::Token;
use crate::parser::spec::sp_command_or_if;
use crate::parser::types::AstNode;
use crate::parser::{res_view, Parser};

verus! {

impl Parser {
    /// An optional `!`, then an `if`, a loop or a command; see `sp_command_or_if`.
    #[verifier::rlimit(40)]
    pub fn parse_command_or_if(&mut self) -> (r: Result<Option<AstNode>, ShellError>)
        ensures
            res_view(r) == sp_command_or_if(old(self).state()).0,
            final(self).state() == sp_command_or_if(old(self).state()).1,
    {
        let should_negate = match self.current() {
            Some(Token::LogicalNot) => true,
            _ => false,
        };
        if should_negate {
            self.advance();
        }
        match self.parse_if() {
            Err(e) => {
                return Err(e);
            },
            Ok(Some(n)) => {
                return Ok(Some(n));
            },
            Ok(None) => {},
        }
        match self.parse_while_or_until() {
            Err(e) => {
                return Err(e);
            },
            Ok(Some(n)) => {
                return Ok(Some(n));
            },
            Ok(None) => {},
        }
        match self.parse_for() {
            Err(e) => {
                return Err(e);
            },
            Ok(Some(n)) => {
                return Ok(Some(n));
            },
            Ok(None) => {},
        }
        match self.parse_command() {
            Err(e) => Err(e),
            Ok(None) => Ok(None),
            Ok(Some(cmd)) => {
                if should_negate {
                    Ok(Some(AstNode::Not(Box::new(cmd))))
                } else {
                    Ok(Some(cmd))
                }
            },
        }
    }
}

} // verus!
