use vstd::prelude::*;
use vstd::string::StringExecFns;
use crate::error::ShellError;
use crate::lexer::types::Token;
use crate::parser::spec::{
    adv, at, cur, group_loop, group_redirs, lemma_adv_measure, lemma_at_measure, lemma_redirection_bounds,
    lemma_skip_delims_measure, meas, skip_delims, sp_group, PS,
};
use crate::error::ShellErrorV;
use crate::parser::types::{AstNodeV, asts_view, lemma_asts_push, redirects_view, AstNode, Redirect};
use crate::parser::{res_view, Parser};

verus! {

impl Parser {
    /// `{ pipeline; ... }` and the redirections after it; see `sp_group`.
    pub fn parse_group(&mut self) -> (r: Result<Option<AstNode>, ShellError>)
        ensures
            res_view(r) == sp_group(old(self).state()).0,
            final(self).state() == sp_group(old(self).state()).1,
            meas(final(self).state()) <= meas(old(self).state()),
            r matches Ok(None) ==> final(self).state() == old(self).state(),
        decreases meas(old(self).state()), 0int,
    {
        let ghost s0 = self.state();
        match self.current() {
            Some(Token::OpenBrace) => {},
            _ => {
                return Ok(None);
            },
        }
        self.advance();
        proof {
            lemma_adv_measure(s0);
            lemma_skip_delims_measure(adv(s0));
        }
        loop
            invariant_except_break
                s0 == old(self).state(),
                self.state().toks == s0.toks,
                skip_delims(self.state()) == skip_delims(adv(s0)),
            ensures
                s0 == old(self).state(),
                self.state() == skip_delims(adv(s0)),
            decreases s0.toks.len() - self.pos,
        {
            match self.current() {
                Some(Token::Newline) | Some(Token::Semicolon) => {
                    self.advance();
                },
                _ => {
                    break;
                },
            }
        }
        let mut commands: Vec<AstNode> = Vec::new();
        assert(asts_view(commands@) =~= Seq::empty());
        loop
            invariant_except_break
                s0 == old(self).state(),
                group_loop(self.state(), asts_view(commands@)) == sp_group(s0),
                meas(self.state()) < meas(s0),
            ensures
                s0 == old(self).state(),
                group_loop(self.state(), asts_view(commands@)) == sp_group(s0),
                meas(self.state()) < meas(s0),
                cur(self.state()) == Some(crate::lexer::types::TokenV::CloseBrace),
            decreases meas(self.state()),
        {
            match self.current() {
                Some(Token::CloseBrace) => {
                    break;
                },
                None => {
                    return Err(ShellError::Parse(String::from_str("Unexpected EOF in command group")));
                },
                _ => {},
            }
            let c = match self.parse_pipeline() {
                Err(e) => {
                    return Err(e);
                },
                Ok(None) => {
                    return Err(ShellError::Parse(String::from_str("Expected command in group")));
                },
                Ok(Some(c)) => c,
            };
            let ghost s2 = self.state();
            match self.current() {
                Some(Token::Semicolon) | Some(Token::Newline) => {
                    self.advance();
                },
                Some(_) => {
                    return Err(ShellError::Parse(String::from_str("Expected `;`, `&`, or newline before `}`")));
                },
                None => {
                    return Err(ShellError::Parse(String::from_str("Unexpected EOF")));
                },
            }
            proof {
                lemma_adv_measure(s2);
                lemma_asts_push(commands@, c);
            }
            commands.push(c);
        }
        let ghost sc = self.state();
        self.advance();
        proof {
            lemma_adv_measure(sc);
        }
        if commands.len() == 0 {
            return Err(ShellError::Parse(String::from_str("Empty command group")));
        }
        let ghost s1 = self.state();
        let mut redirects: Vec<Redirect> = Vec::new();
        let mut current_pos = self.pos;
        let ntok = self.tokens.len();
        assert(redirects_view(redirects@) =~= Seq::empty());
        loop
            invariant_except_break
                s0 == old(self).state(),
                meas(s1) < meas(s0),
                ntok == s1.toks.len(),
                self.state().toks == s1.toks,
                0 <= s1.pos <= self.pos,
                current_pos == self.pos,
                group_redirs(self.state(), asts_view(commands@), redirects_view(redirects@)) == sp_group(s0),
            ensures
                s0 == old(self).state(),
                0 <= s1.pos <= self.pos,
                meas(s1) < meas(s0),
                self.state().toks == s1.toks,
                sp_group(s0) == (Ok::<Option<AstNodeV>, ShellErrorV>(Some(AstNodeV::Group { commands: asts_view(commands@), redirects: redirects_view(redirects@) })), self.state()),
            decreases s1.toks.len() - self.pos,
        {
            if self.current().is_none() {
                break;
            }
            proof {
                lemma_redirection_bounds(self.state().toks, current_pos as int);
            }
            match self.parse_redirection(current_pos) {
                Ok(Some((advance_by, redirect))) => {
                    let ghost before = redirects@;
                    let ghost rv = redirect@;
                    redirects.push(redirect);
                    assert(redirects_view(redirects@) =~= redirects_view(before).push(rv));
                    current_pos = current_pos + advance_by;
                    self.pos = current_pos;
                },
                Ok(None) => {
                    break;
                },
                Err(e) => {
                    proof {
                        lemma_at_measure(s1, self.pos as int);
                    }
                    return Err(e);
                },
            }
        }
        proof {
            lemma_at_measure(s1, self.pos as int);
        }
        Ok(Some(AstNode::Group { commands, redirects }))
    }
}

} // verus!
