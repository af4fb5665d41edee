use vstd::prelude::*;
use vstd::string::StringExecFns;
use crate::error::ShellError;
use crate::lexer::types::{clone_word, QuoteType, Token, Word, WordPart};
use crate::parser::spec::{sp_for, values_loop, PS};
use crate::error::ShellErrorV;
use crate::parser::types::{words_view, AstNode, AstNodeV};
use crate::parser::{is_keyword, res_view, Parser};

verus! {

impl Parser {
    /// `for NAME in words ; do body done`; see `sp_for`.
    pub fn parse_for(&mut self) -> (r: Result<Option<AstNode>, ShellError>)
        ensures
            res_view(r) == sp_for(old(self).state()).0,
            final(self).state() == sp_for(old(self).state()).1,
            r matches Ok(None) ==> final(self).state() == old(self).state(),
    {
        let is_for = match self.current() {
            Some(t) => is_keyword(t, "for"),
            None => false,
        };
        if !is_for {
            return Ok(None);
        }
        self.advance();
        let var: String = match self.current() {
            Some(Token::Word(word)) => {
                if word.parts.len() == 1 && word.quote == QuoteType::Unquoted {
                    match &word.parts[0] {
                        WordPart::Literal(s) => s.clone(),
                        _ => {
                            return Err(ShellError::Parse(String::from_str("Invalid loop variable")));
                        },
                    }
                } else {
                    return Err(ShellError::Parse(String::from_str("Expected loop variable after 'for'")));
                }
            },
            _ => {
                return Err(ShellError::Parse(String::from_str("Expected loop variable after 'for'")));
            },
        };
        self.advance();
        match self.expect_word("in") {
            Err(e) => {
                return Err(e);
            },
            Ok(()) => {},
        }
        let ghost s3 = self.state();
        let mut values: Vec<Word> = Vec::new();
        assert(words_view(values@) =~= Seq::empty());
        loop
            invariant_except_break
                self.state().toks == s3.toks,
                values_loop(self.state(), words_view(values@)) == values_loop(s3, Seq::empty()),
                values_loop(s3, Seq::empty()).0 is Err ==> sp_for(old(self).state()) == (
                    Err::<Option<AstNodeV>, ShellErrorV>(values_loop(s3, Seq::empty()).0->Err_0),
                    values_loop(s3, Seq::empty()).1,
                ),
            ensures
                values_loop(s3, Seq::empty()) == (Ok::<Seq<crate::lexer::types::WordV>, crate::error::ShellErrorV>(words_view(values@)), self.state()),
            decreases s3.toks.len() - self.pos,
        {
            let ghost prev = self.state();
            let kind: u8 = match self.current() {
                None => 0,
                Some(Token::Word(_)) => 1,
                Some(Token::Semicolon) | Some(Token::Newline) => 2,
                Some(_) => 3,
            };
            if kind == 0 {
                break;
            } else if kind == 1 {
                let w = match self.current() {
                    Some(Token::Word(w)) => clone_word(w),
                    _ => {
                        return Ok(None);
                    },
                };
                let ghost before = values@;
                let ghost wv = w@;
                values.push(w);
                assert(words_view(values@) =~= words_view(before).push(wv));
                self.advance();
            } else if kind == 2 {
                self.advance();
                if self.is_reserved_word() {
                    break;
                } else {
                    assert(values_loop(prev, words_view(values@)).0 is Err);
                    return Err(ShellError::Parse(String::from_str("expected words after in")));
                }
            } else {
                assert(values_loop(prev, words_view(values@)).0 is Err);
                return Err(ShellError::Parse(String::from_str("expected words after in")));
            }
        }
        match self.expect_word("do") {
            Err(e) => {
                return Err(e);
            },
            Ok(()) => {},
        }
        let body = match self.parse_sequence(true) {
            Err(e) => {
                return Err(e);
            },
            Ok(None) => {
                return Err(ShellError::Parse(String::from_str("Expected commands in 'do' body")));
            },
            Ok(Some(b)) => b,
        };
        match self.expect_word("done") {
            Err(e) => {
                return Err(e);
            },
            Ok(()) => {},
        }
        Ok(Some(AstNode::For { var, values, body: Box::new(body) }))
    }
}

} // verus!
