pub mod types;
pub mod spec;
pub mod parse_assignment;
pub mod parse_redirection;
pub mod parse_sequence;
pub mod parse_pipeline;
pub mod parse_op;
pub mod parse_if;
pub mod parse_command;
pub mod parse_function;
pub mod parse_group;
pub mod parse_while_or_until;
pub mod parse_for;
pub mod parse_command_or_if;
pub mod parse_background;
pub mod parse_flow_control;
pub mod parser;
pub mod text;
pub mod debug;

use vstd::prelude::*;
use vstd::string::StringExecFns;
use crate::error::{ShellError, ShellErrorV};
use crate::lexer::types::{tokens_view, QuoteType, Token, TokenV, Word, WordPart};
use crate::lexer::pretty::debug_opt_token_text;
use crate::parser::spec::{adv, at_eof, command_end, cur, literal_word, meas, reserved_token, sp_expect, sp_parse, PS};
use crate::parser::types::AstNode;

verus! {

/// A recursive-descent parser over a token list.
pub struct Parser {
    pub tokens: Vec<Token>,
    pub pos: usize,
}

/// The value of a parsing result.
pub open spec fn res_view(r: Result<Option<AstNode>, ShellError>) -> Result<Option<crate::parser::types::AstNodeV>, ShellErrorV> {
    match r {
        Ok(Some(n)) => Ok(Some(n@)),
        Ok(None) => Ok(None),
        Err(e) => Err(e@),
    }
}

/// `s` is the literal `lit`.
pub fn string_is(s: &String, lit: &str) -> (r: bool)
    ensures
        r == (s@ == lit@),
{
    *s == String::from_str(lit)
}

/// The text and quoting of a word made of one literal part.
pub fn single_literal(t: &Token) -> (r: Option<(&String, QuoteType)>)
    ensures
        match literal_word(t@) {
            Some((x, q)) => r matches Some((s, q2)) && s@ == x && q2 == q,
            None => r is None,
        },
{
    match t {
        Token::Word(w) => {
            if w.parts.len() == 1 {
                match &w.parts[0] {
                    WordPart::Literal(s) => Some((s, w.quote)),
                    _ => None,
                }
            } else {
                None
            }
        },
        _ => None,
    }
}

/// The token is the unquoted one-literal word `kw`.
pub fn is_keyword(t: &Token, kw: &str) -> (r: bool)
    ensures
        r == (literal_word(t@) == Some((kw@, QuoteType::Unquoted))),
{
    match single_literal(t) {
        Some((s, q)) => q == QuoteType::Unquoted && string_is(s, kw),
        None => false,
    }
}

/// The token is an unquoted reserved word.
pub fn is_reserved_token(t: Option<&Token>) -> (r: bool)
    ensures
        r == reserved_token(
            match t {
                Some(t) => Some(t@),
                None => None,
            },
        ),
{
    match t {
        Some(tok) => match single_literal(tok) {
            Some((s, q)) => q == QuoteType::Unquoted && (string_is(s, "then") || string_is(s, "fi")
                || string_is(s, "else") || string_is(s, "elif") || string_is(s, "do") || string_is(s, "done")
                || string_is(s, "in")),
            None => false,
        },
        None => false,
    }
}

impl Parser {
    /// The parser's tokens (by value) and position.
    pub open spec fn state(&self) -> PS {
        PS { toks: tokens_view(self.tokens@), pos: self.pos as int }
    }

    pub fn new(tokens: Vec<Token>) -> (p: Self)
        ensures
            p.tokens@ == tokens@,
            p.pos == 0,
    {
        Self { tokens, pos: 0 }
    }

    /// The token `offset` places after the current one, if any.
    pub fn look_ahead(&self, offset: usize) -> (r: Option<&Token>)
        requires
            self.pos + offset <= usize::MAX,
        ensures
            match r {
                Some(t) => self.pos + offset < self.tokens@.len() && *t == self.tokens@[self.pos + offset],
                None => self.pos + offset >= self.tokens@.len(),
            },
    {
        if self.pos + offset < self.tokens.len() {
            Some(&self.tokens[self.pos + offset])
        } else {
            None
        }
    }

    /// Moves to the next token, staying put at the end.
    pub fn advance(&mut self)
        ensures
            final(self).tokens@ == old(self).tokens@,
            final(self).pos == if old(self).pos < old(self).tokens@.len() { old(self).pos + 1 } else { old(self).pos as int },
            final(self).state() == adv(old(self).state()),
    {
        if self.pos < self.tokens.len() {
            self.pos += 1;
        }
    }

    /// The current token, if any.
    pub fn current(&self) -> (r: Option<&Token>)
        ensures
            match r {
                Some(t) => self.pos < self.tokens@.len() && *t == self.tokens@[self.pos as int],
                None => self.pos >= self.tokens@.len(),
            },
            match r {
                Some(t) => cur(self.state()) == Some(t@),
                None => cur(self.state()) is None,
            },
    {
        if self.pos < self.tokens.len() {
            Some(&self.tokens[self.pos])
        } else {
            None
        }
    }

    /// At `Eof` or past the last token.
    pub fn is_eof(&self) -> (r: bool)
        ensures
            r == at_eof(self.state()),
    {
        match self.current() {
            Some(Token::Eof) => true,
            None => true,
            _ => false,
        }
    }

    /// The token ends a simple command (`Eof`, newline, `;`, `&`, `&&`, `||`, `|`).
    pub fn is_command_end(&self, token: &Token) -> (r: bool)
        ensures
            r == command_end(token@),
    {
        match token {
            Token::Eof | Token::Newline | Token::Semicolon | Token::Ampersand | Token::LogicalAnd
            | Token::LogicalOr | Token::Pipe => true,
            _ => false,
        }
    }

    /// The current token is an unquoted reserved word
    /// (`then`, `fi`, `else`, `elif`, `do`, `done`, `in`).
    pub fn is_reserved_word(&self) -> (r: bool)
        ensures
            r == reserved_token(cur(self.state())),
    {
        is_reserved_token(self.current())
    }

    /// Reads the unquoted word `expected`, or fails with "Expected '...'".
    pub fn expect_word(&mut self, expected: &str) -> (r: Result<(), ShellError>)
        ensures
            final(self).tokens@ == old(self).tokens@,
            ({
                let (rs, s1) = sp_expect(old(self).state(), expected@);
                &&& final(self).state() == s1
                &&& match rs {
                    Ok(()) => r is Ok,
                    Err(e) => r matches Err(e2) && e2@ == e,
                }
            }),
    {
        let ok = match self.current() {
            Some(t) => is_keyword(t, expected),
            None => false,
        };
        if ok {
            self.advance();
            Ok(())
        } else {
            let mut msg = String::from_str("Expected '");
            msg.append(expected);
            msg.append("'");
            Err(ShellError::Syntax(msg))
        }
    }

    /// Parses the whole token list: reads a sequence; when tokens are left
    /// after it (whether the sequence parsed or failed), fails with
    /// "unexpected token at end of tokens" and the token; else gives what
    /// the sequence gave. See `sp_parse`.
    pub fn parse(&mut self) -> (r: Result<Option<AstNode>, ShellError>)
        ensures
            res_view(r) == sp_parse(old(self).state()).0,
            final(self).state() == sp_parse(old(self).state()).1,
    {
        let ast = self.parse_sequence(false);
        if !self.is_eof() {
            let mut msg = String::from_str("unexpected token at end of tokens");
            let d = debug_opt_token_text(self.current());
            msg.append(d.as_str());
            return Err(ShellError::Parse(msg));
        }
        ast
    }

    /// Reads a `;`, newline or `&` if one is next.
    pub fn expect_delimiter(&mut self) -> (r: bool)
        ensures
            final(self).tokens@ == old(self).tokens@,
            r == (cur(old(self).state()) matches Some(t) && (t == TokenV::Semicolon || t == TokenV::Newline
                || t == TokenV::Ampersand)),
            final(self).state() == if r { adv(old(self).state()) } else { old(self).state() },
    {
        match self.current() {
            Some(Token::Semicolon) | Some(Token::Newline) | Some(Token::Ampersand) => {
                self.advance();
                true
            },
            _ => false,
        }
    }
}

} // verus!

verus! {

/// A successful parse has read the whole token list: it stops at `Eof` or
/// past the last token.
pub proof fn law_parse_reads_everything(s: PS)
    ensures
        sp_parse(s).0 is Ok ==> at_eof(sp_parse(s).1),
{
}

} // verus!
