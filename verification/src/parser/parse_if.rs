use vstd::prelude::*;
use vstd::string::StringExecFns;
use crate::error::ShellError;
use crate::lexer::types::{QuoteType, Token, WordPart};
use crate::parser::spec::{elif_loop, if_finish, lemma_adv_measure, meas, sp_expect, sp_if};
use crate::parser::types::{ast_view, elifs_view, lemma_elifs_push, AstNode, AstNodeV};
use crate::parser::{is_keyword, res_view, string_is, Parser};

verus! {

/// The value of an optional else branch.
pub open spec fn else_view(b: Option<Box<AstNode>>) -> Option<Box<AstNodeV>> {
    match b {
        Some(b) => Some(Box::new(ast_view(*b))),
        None => None,
    }
}

impl Parser {
    /// `if cond then body [elif cond then body]* [else body] fi`; see `sp_if`.
    pub fn parse_if(&mut self) -> (r: Result<Option<AstNode>, ShellError>)
        ensures
            res_view(r) == sp_if(old(self).state()).0,
            final(self).state() == sp_if(old(self).state()).1,
            meas(final(self).state()) <= meas(old(self).state()),
            r matches Ok(None) ==> final(self).state() == old(self).state(),
        decreases meas(old(self).state()), 2int,
    {
        let ghost s0 = self.state();
        let is_if = match self.current() {
            Some(t) => is_keyword(t, "if"),
            None => false,
        };
        if !is_if {
            return Ok(None);
        }
        self.advance();
        proof {
            lemma_adv_measure(s0);
        }
        let condition = match self.parse_sequence(true) {
            Err(e) => {
                return Err(e);
            },
            Ok(None) => {
                return Err(ShellError::Syntax(String::from_str("Expected command after 'if'")));
            },
            Ok(Some(c)) => c,
        };
        match self.expect_word("then") {
            Err(e) => {
                return Err(e);
            },
            Ok(()) => {},
        }
        let then_branch = match self.parse_sequence(true) {
            Err(e) => {
                return Err(e);
            },
            Ok(None) => {
                return Err(ShellError::Syntax(String::from_str("Expected body after 'then' branch")));
            },
            Ok(Some(c)) => c,
        };
        let mut elif: Vec<(Box<AstNode>, Box<AstNode>)> = Vec::new();
        let mut else_branch: Option<Box<AstNode>> = None;
        assert(elifs_view(elif@) =~= Seq::empty());
        loop
            invariant_except_break
                s0 == old(self).state(),
                else_branch is None,
                elif_loop(self.state(), condition@, then_branch@, elifs_view(elif@)) == sp_if(s0),
                meas(self.state()) < meas(s0),
            ensures
                s0 == old(self).state(),
                if_finish(self.state(), condition@, then_branch@, elifs_view(elif@), else_view(else_branch)) == sp_if(s0),
                meas(self.state()) < meas(s0),
            decreases meas(self.state()),
        {
            let ghost s = self.state();
            proof {
                lemma_adv_measure(s);
            }
            let kind: u8 = match self.current() {
                Some(Token::Word(w)) => {
                    if w.parts.len() > 0 {
                        match &w.parts[0] {
                            WordPart::Literal(x) => {
                                if string_is(x, "elif") && w.quote == QuoteType::Unquoted {
                                    1
                                } else if string_is(x, "else") && w.quote == QuoteType::Unquoted {
                                    2
                                } else {
                                    0
                                }
                            },
                            _ => 0,
                        }
                    } else {
                        0
                    }
                },
                _ => 0,
            };
            if kind == 1 {
                self.advance();
                let c = match self.parse_sequence(true) {
                    Err(e) => {
                        return Err(e);
                    },
                    Ok(None) => {
                        return Err(ShellError::Parse(String::from_str("expected condition after elif")));
                    },
                    Ok(Some(c)) => c,
                };
                match self.expect_word("then") {
                    Err(e) => {
                        return Err(e);
                    },
                    Ok(()) => {},
                }
                let b = match self.parse_sequence(true) {
                    Err(e) => {
                        return Err(e);
                    },
                    Ok(None) => {
                        return Err(ShellError::Parse(String::from_str("Expected body after elif then")));
                    },
                    Ok(Some(b)) => b,
                };
                let pair = (Box::new(c), Box::new(b));
                proof {
                    lemma_elifs_push(elif@, pair);
                }
                elif.push(pair);
            } else if kind == 2 {
                self.advance();
                let b = match self.parse_sequence(true) {
                    Err(e) => {
                        return Err(e);
                    },
                    Ok(None) => {
                        return Err(ShellError::Parse(String::from_str("expected body after else")));
                    },
                    Ok(Some(b)) => b,
                };
                else_branch = Some(Box::new(b));
                break;
            } else {
                break;
            }
        }
        match self.expect_word("fi") {
            Err(e) => {
                return Err(e);
            },
            Ok(()) => {},
        }
        Ok(Some(AstNode::If {
            condition: Box::new(condition),
            then_branch: Box::new(then_branch),
            elif,
            else_branch,
        }))
    }
}

} // verus!
