use vstd::prelude::*;
use vstd::string::StringExecFns;
use crate::error::ShellError;
use crate::lexer::types::{clone_word, parts_view, QuoteType, Token, TokenV, Word, WordPart, WordPartV};
use crate::parser::parse_assignment::assignment_opt_view;
use crate::parser::spec::{
    adv, args_loop, assign_loop, at, bang_word, command_rest, cur, lemma_adv_measure, lemma_assignment_bounds,
    lemma_at_measure, lemma_redirection_bounds, meas, sp_command, PS,
};
use crate::error::ShellErrorV;
use crate::parser::types::{AstNodeV, assignments_view, redirects_view, words_view, AstNode, Redirect};
use crate::parser::{res_view, Parser};

verus! {

impl Parser {
    /// A function definition, a brace group, or a simple command; see `sp_command`.
    pub fn parse_command(&mut self) -> (r: Result<Option<AstNode>, ShellError>)
        ensures
            res_view(r) == sp_command(old(self).state()).0,
            final(self).state() == sp_command(old(self).state()).1,
            meas(final(self).state()) <= meas(old(self).state()),
        decreases meas(old(self).state()), 2int,
    {
        match self.parse_function() {
            Err(e) => {
                return Err(e);
            },
            Ok(Some(f)) => {
                return Ok(Some(f));
            },
            Ok(None) => {},
        }
        match self.parse_group() {
            Ok(Some(g)) => {
                return Ok(Some(g));
            },
            _ => {},
        }
        self.command_rest()
    }

    /// Assignments, the command word, its arguments and redirections.
    fn command_rest(&mut self) -> (r: Result<Option<AstNode>, ShellError>)
        ensures
            res_view(r) == command_rest(old(self).state()).0,
            final(self).state() == command_rest(old(self).state()).1,
            meas(final(self).state()) <= meas(old(self).state()),
    {
        let ghost s0 = self.state();
        let mut assignments: Vec<(String, Word)> = Vec::new();
        let mut current_pos = self.pos;
        let ntok = self.tokens.len();
        assert(assignments_view(assignments@) =~= Seq::empty());
        loop
            invariant_except_break
                s0 == old(self).state(),
                self.state() == s0,
                ntok == s0.toks.len(),
                s0.pos <= current_pos,
                assign_loop(s0.toks, current_pos as int, assignments_view(assignments@)) == assign_loop(s0.toks, s0.pos, Seq::empty()),
            ensures
                s0 == old(self).state(),
                self.state() == s0,
                s0.pos <= current_pos,
                assign_loop(s0.toks, s0.pos, Seq::empty()) == (assignments_view(assignments@), current_pos as int),
            decreases s0.toks.len() - current_pos,
        {
            proof {
                lemma_assignment_bounds(s0.toks, current_pos as int);
            }
            match self.parse_assignment(current_pos) {
                Some((advance_by, assignment)) => {
                    let ghost a = assignment;
                    let ghost before = assignments@;
                    assignments.push(assignment);
                    assert(assignments_view(assignments@) =~= assignments_view(before).push((a.0@, a.1@)));
                    current_pos = current_pos + advance_by;
                },
                None => {
                    break;
                },
            }
        }
        self.pos = current_pos;
        proof {
            lemma_at_measure(s0, current_pos as int);
        }
        let ghost s1 = self.state();
        let cmd_word = match self.current() {
            Some(Token::Word(w)) => {
                let w2 = clone_word(w);
                self.advance();
                w2
            },
            _ => {
                if assignments.len() > 0 {
                    let w = Word { parts: Vec::new(), quote: QuoteType::Unquoted };
                    assert(parts_view(w.parts@) =~= Seq::<WordPartV>::empty());
                    w
                } else {
                    return Ok(None);
                }
            },
        };
        proof {
            lemma_adv_measure(s1);
        }
        let mut args: Vec<Word> = Vec::new();
        let mut redirects: Vec<Redirect> = Vec::new();
        let mut current_pos = self.pos;
        assert(words_view(args@) =~= Seq::empty());
        assert(redirects_view(redirects@) =~= Seq::empty());
        loop
            invariant_except_break
                s0 == old(self).state(),
                self.state().toks == s0.toks,
                s0.pos <= current_pos <= self.pos,
                current_pos < self.pos ==> s0.toks[current_pos as int] == TokenV::LogicalNot,
                ntok == s0.toks.len(),
                args_loop(self.state(), current_pos as int, cmd_word@, assignments_view(assignments@), words_view(args@), redirects_view(redirects@))
                    == command_rest(s0),
            ensures
                s0 == old(self).state(),
                self.state().toks == s0.toks,
                s0.pos <= self.pos,
                command_rest(s0) == (Ok::<Option<AstNodeV>, ShellErrorV>(Some(AstNodeV::Command {
                    cmd: cmd_word@,
                    args: words_view(args@),
                    assignments: assignments_view(assignments@),
                    redirects: redirects_view(redirects@),
                })), self.state()),
            decreases s0.toks.len() - self.pos,
        {
            if self.pos >= self.tokens.len() {
                break;
            }
            proof {
                lemma_redirection_bounds(self.state().toks, current_pos as int);
            }
            match self.parse_redirection(current_pos) {
                Ok(Some((advance_by, redirect))) => {
                    let ghost before = redirects@;
                    let ghost rv = redirect@;
                    redirects.push(redirect);
                    assert(redirects_view(redirects@) =~= redirects_view(before).push(rv));
                    current_pos = current_pos + advance_by;
                    self.pos = current_pos;
                    continue;
                },
                Ok(None) => {},
                Err(e) => {
                    proof {
                        lemma_at_measure(s0, self.pos as int);
                    }
                    return Err(e);
                },
            }
            let end = self.is_command_end(&self.tokens[self.pos]);
            if end {
                break;
            }
            let kind: u8 = match &self.tokens[self.pos] {
                Token::Word(_) => 1,
                Token::LogicalNot => 2,
                _ => 0,
            };
            if kind == 1 {
                let w2 = match &self.tokens[self.pos] {
                    Token::Word(w) => clone_word(w),
                    _ => {
                        return Ok(None);
                    },
                };
                let ghost before = args@;
                let ghost wv = w2@;
                args.push(w2);
                assert(words_view(args@) =~= words_view(before).push(wv));
                self.advance();
                current_pos = self.pos;
            } else if kind == 2 {
                if cmd_word.parts.len() != 0 {
                    let bang = Word { parts: vec![WordPart::Literal(String::from_str("!"))], quote: QuoteType::Unquoted };
                    assert(bang@ == bang_word()) by {
                        assert(parts_view(bang.parts@) =~= bang_word().parts);
                    }
                    let ghost before = args@;
                    args.push(bang);
                    assert(words_view(args@) =~= words_view(before).push(bang_word()));
                    self.advance();
                } else {
                    break;
                }
            } else {
                break;
            }
        }
        proof {
            lemma_at_measure(s0, self.pos as int);
        }
        Ok(Some(AstNode::Command { cmd: cmd_word, assignments, args, redirects }))
    }
}

} // verus!
