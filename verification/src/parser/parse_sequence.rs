use vstd::prelude::*;
use vstd::string::StringExecFns;
use crate::error::ShellError;
use crate::lexer::types::Token;
use crate::parser::spec::{adv, lemma_adv_measure, meas, seq_loop, seq_result, sp_sequence};
use crate::parser::types::{asts_view, lemma_asts_len, lemma_asts_push, lemma_asts_single, AstNode};
use crate::parser::{res_view, Parser};

verus! {

/// The result of a finished list of commands: nothing, the one command, or a `Sequence`.
fn finish_sequence(mut commands: Vec<AstNode>) -> (r: Result<Option<AstNode>, ShellError>)
    ensures
        res_view(r) == seq_result(asts_view(commands@)),
{
    proof {
        lemma_asts_len(commands@);
    }
    if commands.len() == 0 {
        Ok(None)
    } else if commands.len() == 1 {
        proof {
            lemma_asts_single(commands@);
        }
        let c = commands.pop().unwrap();
        Ok(Some(c))
    } else {
        Ok(Some(AstNode::Sequence(commands)))
    }
}

impl Parser {
    /// Pipelines separated by `;`, newlines or `&`; see `sp_sequence`.
    pub fn parse_sequence(&mut self, in_if_condition: bool) -> (r: Result<Option<AstNode>, ShellError>)
        ensures
            res_view(r) == sp_sequence(old(self).state(), in_if_condition).0,
            final(self).state() == sp_sequence(old(self).state(), in_if_condition).1,
            meas(final(self).state()) <= meas(old(self).state()),
        decreases meas(old(self).state()), 8int,
    {
        let ghost s0 = self.state();
        let mut commands: Vec<AstNode> = Vec::new();
        assert(asts_view(commands@) =~= Seq::empty());
        loop
            invariant
                s0 == old(self).state(),
                seq_loop(self.state(), in_if_condition, asts_view(commands@)) == sp_sequence(s0, in_if_condition),
                meas(self.state()) <= meas(s0),
            decreases meas(self.state()),
        {
            let ghost s = self.state();
            let ghost cv = asts_view(commands@);
            let cmd = match self.parse_pipeline() {
                Err(e) => {
                    return Err(e);
                },
                Ok(None) => {
                    return finish_sequence(commands);
                },
                Ok(Some(cmd)) => cmd,
            };
            let ghost s1 = self.state();
            let delim = match self.current() {
                Some(Token::Semicolon) | Some(Token::Newline) | Some(Token::Ampersand) => true,
                _ => false,
            };
            if delim {
                let is_background = match self.current() {
                    Some(Token::Ampersand) => true,
                    _ => false,
                };
                self.advance();
                proof {
                    lemma_adv_measure(s1);
                }
                let node = if is_background { AstNode::Background(Box::new(cmd)) } else { cmd };
                proof {
                    lemma_asts_push(commands@, node);
                }
                commands.push(node);
                if in_if_condition && self.is_reserved_word() {
                    return finish_sequence(commands);
                }
            } else {
                if in_if_condition {
                    return Err(ShellError::Parse(String::from_str("expected sequence to end with Newline, Semicolon, or &")));
                }
                proof {
                    lemma_asts_push(commands@, cmd);
                }
                commands.push(cmd);
                return finish_sequence(commands);
            }
        }
    }
}

} // verus!
