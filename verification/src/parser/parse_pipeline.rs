use vstd::prelude::*;
use vstd::string::StringExecFns;
use crate::error::ShellError;
use crate::lexer::types::{Token, TokenV};
use crate::parser::spec::{cur, lemma_adv_measure, meas, pipe_loop, sp_pipeline};
use crate::parser::types::{asts_view, lemma_asts_len, lemma_asts_push, lemma_asts_single, AstNode};
use crate::parser::{res_view, Parser};

verus! {

impl Parser {
    /// Commands joined by `|`; see `sp_pipeline`.
    pub fn parse_pipeline(&mut self) -> (r: Result<Option<AstNode>, ShellError>)
        ensures
            res_view(r) == sp_pipeline(old(self).state()).0,
            final(self).state() == sp_pipeline(old(self).state()).1,
            meas(final(self).state()) <= meas(old(self).state()),
        decreases meas(old(self).state()), 6int,
    {
        let ghost s0 = self.state();
        let first = match self.parse_op() {
            Err(e) => {
                return Err(e);
            },
            Ok(None) => {
                return Ok(None);
            },
            Ok(Some(c)) => c,
        };
        let mut commands: Vec<AstNode> = Vec::new();
        proof {
            lemma_asts_push(commands@, first);
            assert(asts_view(commands@) =~= Seq::empty());
        }
        commands.push(first);
        loop
            invariant_except_break
                s0 == old(self).state(),
                pipe_loop(self.state(), asts_view(commands@)) == sp_pipeline(s0),
                meas(self.state()) <= meas(s0),
                commands@.len() >= 1,
            ensures
                s0 == old(self).state(),
                pipe_loop(self.state(), asts_view(commands@)) == sp_pipeline(s0),
                meas(self.state()) <= meas(s0),
                commands@.len() >= 1,
                cur(self.state()) != Some(TokenV::Pipe),
            decreases meas(self.state()),
        {
            let ghost s = self.state();
            match self.current() {
                Some(Token::Pipe) => {},
                _ => {
                    break;
                },
            }
            self.advance();
            proof {
                lemma_adv_measure(s);
            }
            let next = match self.parse_op() {
                Err(e) => {
                    return Err(e);
                },
                Ok(None) => {
                    return Err(ShellError::Parse(String::from_str("Expected command after pipe")));
                },
                Ok(Some(c)) => c,
            };
            proof {
                lemma_asts_push(commands@, next);
            }
            commands.push(next);
        }
        proof {
            lemma_asts_len(commands@);
        }
        if commands.len() == 1 {
            proof {
                lemma_asts_single(commands@);
            }
            let c = commands.pop().unwrap();
            Ok(Some(c))
        } else {
            Ok(Some(AstNode::Pipeline(commands)))
        }
    }
}

} // verus!
