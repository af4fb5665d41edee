use vstd::prelude::*;
use vstd::string::StringExecFns;
use crate::error::ShellError;
use crate::lexer::types::{clone_word, parts_view, tokens_view, QuoteType, Token, Word, WordPart, WordPartV, WordV, TokenV};
use crate::parser::spec::{
    adv, lemma_adv_measure, lemma_split_brace_measure, meas, split_brace, sp_function, PS,
};
use crate::parser::types::AstNode;
use crate::parser::{res_view, Parser};
use crate::strings::{str_to_chars, substring_of};

verus! {

impl Parser {
    /// `name ( ) { body }`, the brace possibly glued to the body's first word
    /// (which is then split into `{` and the rest); see `sp_function`.
    pub fn parse_function(&mut self) -> (r: Result<Option<AstNode>, ShellError>)
        ensures
            res_view(r) == sp_function(old(self).state()).0,
            final(self).state() == sp_function(old(self).state()).1,
            meas(final(self).state()) <= meas(old(self).state()),
            r matches Ok(None) ==> final(self).state() == old(self).state(),
        decreases meas(old(self).state()), 1int,
    {
        let ghost s0 = self.state();
        let start_pos = self.pos;
        let name = match self.current() {
            Some(Token::Word(w)) => clone_word(w),
            _ => {
                return Ok(None);
            },
        };
        self.advance();
        let ghost s1 = self.state();
        match self.current() {
            Some(Token::OpenParen) => {},
            _ => {
                self.pos = start_pos;
                return Ok(None);
            },
        }
        self.advance();
        let ghost s2 = self.state();
        match self.current() {
            Some(Token::CloseParen) => {},
            _ => {
                self.pos = start_pos;
                return Ok(None);
            },
        }
        self.advance();
        proof {
            lemma_adv_measure(s0);
            lemma_adv_measure(s1);
            lemma_adv_measure(s2);
        }
        let ghost s3 = self.state();
        let is_brace = match self.current() {
            Some(Token::OpenBrace) => true,
            _ => false,
        };
        let body = if is_brace {
            match self.parse_group() {
                Err(e) => {
                    return Err(e);
                },
                Ok(None) => {
                    return Err(ShellError::Parse(String::from_str("Empty function body1")));
                },
                Ok(Some(b)) => b,
            }
        } else {
            let info: Option<(Vec<char>, QuoteType)> = match self.current() {
                Some(Token::Word(w)) => {
                    if w.parts.len() > 0 {
                        match &w.parts[0] {
                            WordPart::Literal(content) => Some((str_to_chars(content.as_str()), w.quote)),
                            _ => None,
                        }
                    } else {
                        None
                    }
                },
                _ => None,
            };
            match info {
                Some((cs, q)) => {
                    if cs.len() > 0 && cs[0] == '{' {
                        if cs.len() > 1 {
                            let rest = substring_of(&cs, 1, cs.len());
                            let ghost rest_v = rest@;
                            let rw = Word { parts: vec![WordPart::Literal(rest)], quote: q };
                            let ghost rwv = rw@;
                            assert(rwv == WordV { parts: seq![WordPartV::Literal(rest_v)], quote: q }) by {
                                assert(parts_view(rw.parts@) =~= seq![WordPartV::Literal(rest_v)]);
                            }
                            let _n = self.tokens.len();
                            let p = self.pos;
                            let ghost old_toks = self.tokens@;
                            self.tokens.set(p, Token::OpenBrace);
                            self.tokens.insert(p + 1, Token::Word(rw));
                            assert(tokens_view(self.tokens@) =~= split_brace(s3.toks, s3.pos, rest_v, q));
                            proof {
                                lemma_split_brace_measure(s3.toks, s3.pos, rest_v, q);
                            }
                        }
                        match self.parse_group() {
                            Err(e) => {
                                return Err(e);
                            },
                            Ok(None) => {
                                return Err(ShellError::Parse(String::from_str("Empty function body")));
                            },
                            Ok(Some(b)) => b,
                        }
                    } else {
                        self.pos = start_pos;
                        return Ok(None);
                    }
                },
                None => {
                    self.pos = start_pos;
                    return Ok(None);
                },
            }
        };
        Ok(Some(AstNode::FunctionDef { name, body: Box::new(body) }))
    }
}

} // verus!
