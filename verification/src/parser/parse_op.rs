use vstd::prelude::*;
use vstd::string::StringExecFns;
use crate::error::ShellError;
use crate::lexer::types::{Token, TokenV};
use crate::parser::spec::{cur, lemma_adv_measure, meas, op_loop, sp_op};
use crate::parser::types::AstNode;
use crate::parser::{res_view, Parser};

verus! {

impl Parser {
    /// An optional `!`, an `if` or a command, then `&&`/`||` continuations; see `sp_op`.
    pub fn parse_op(&mut self) -> (r: Result<Option<AstNode>, ShellError>)
        ensures
            res_view(r) == sp_op(old(self).state()).0,
            final(self).state() == sp_op(old(self).state()).1,
            meas(final(self).state()) <= meas(old(self).state()),
        decreases meas(old(self).state()), 4int,
    {
        let ghost s0 = self.state();
        let should_negate = match self.current() {
            Some(Token::LogicalNot) => true,
            _ => false,
        };
        if should_negate {
            self.advance();
        }
        proof {
            lemma_adv_measure(s0);
        }
        let mut left = match self.parse_if() {
            Err(e) => {
                return Err(e);
            },
            Ok(Some(n)) => n,
            Ok(None) => {
                match self.parse_command() {
                    Err(e) => {
                        return Err(e);
                    },
                    Ok(None) => {
                        return Ok(None);
                    },
                    Ok(Some(cmd)) => {
                        if should_negate {
                            AstNode::Not(Box::new(cmd))
                        } else {
                            cmd
                        }
                    },
                }
            },
        };
        loop
            invariant_except_break
                s0 == old(self).state(),
                op_loop(self.state(), left@) == sp_op(s0),
                meas(self.state()) <= meas(s0),
            ensures
                s0 == old(self).state(),
                op_loop(self.state(), left@) == sp_op(s0),
                meas(self.state()) <= meas(s0),
                cur(self.state()) != Some(TokenV::LogicalAnd),
                cur(self.state()) != Some(TokenV::LogicalOr),
            decreases meas(self.state()),
        {
            let ghost s = self.state();
            proof {
                lemma_adv_measure(s);
            }
            let kind: u8 = match self.current() {
                Some(Token::LogicalAnd) => 1,
                Some(Token::LogicalOr) => 2,
                _ => 0,
            };
            if kind == 1 {
                self.advance();
                let right = match self.parse_if() {
                    Err(e) => {
                        return Err(e);
                    },
                    Ok(Some(n)) => n,
                    Ok(None) => {
                        match self.parse_command() {
                            Err(e) => {
                                return Err(e);
                            },
                            Ok(None) => {
                                return Err(ShellError::Parse(String::from_str("expected command after &&")));
                            },
                            Ok(Some(cmd)) => cmd,
                        }
                    },
                };
                left = AstNode::And(Box::new(left), Box::new(right));
            } else if kind == 2 {
                self.advance();
                let right = match self.parse_op() {
                    Err(e) => {
                        return Err(e);
                    },
                    Ok(None) => {
                        return Err(ShellError::Parse(String::from_str("Expected command after ||")));
                    },
                    Ok(Some(cmd)) => cmd,
                };
                left = AstNode::Or(Box::new(left), Box::new(right));
            } else {
                break;
            }
        }
        Ok(Some(left))
    }
}

} // verus!
