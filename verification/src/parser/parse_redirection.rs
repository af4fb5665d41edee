use vstd::prelude::*;
use vstd::string::StringExecFns;
use crate::error::{ShellError, ShellErrorV};
use crate::lexer::types::{clone_word, Token};
use crate::parser::spec::{redir_target, sp_redirection};
use crate::parser::types::{Redirect, RedirectOp, RedirectV};
use crate::parser::Parser;

verus! {

/// The value of what `parse_redirection` gives back.
pub open spec fn redirection_res_view(r: Result<Option<(usize, Redirect)>, ShellError>) -> Result<Option<(int, RedirectV)>, ShellErrorV> {
    match r {
        Ok(Some((k, red))) => Ok(Some((k as int, red@))),
        Ok(None) => Ok(None),
        Err(e) => Err(e@),
    }
}

impl Parser {
    fn redirect_target(&self, pos: usize, fd: Option<u64>, kind: RedirectOp, missing: &str, not_word: &str) -> (r: Result<Option<(usize, Redirect)>, ShellError>)
        requires
            pos < self.tokens@.len(),
        ensures
            redirection_res_view(r) == redir_target(self.state().toks, pos as int, fd, kind, missing@, not_word@),
    {
        let n = self.tokens.len();
        if pos + 1 < n {
            match &self.tokens[pos + 1] {
                Token::Word(target) => Ok(Some((2, Redirect { fd, kind, target: clone_word(target) }))),
                _ => Err(ShellError::Parse(String::from_str(not_word))),
            }
        } else {
            Err(ShellError::Parse(String::from_str(missing)))
        }
    }

    /// A redirection (`>`, `<`, `>>`, `<<`, and their descriptor forms) at `pos`:
    /// how many tokens it takes and the redirection, `None` when there is no
    /// redirection operator at `pos`.
    pub fn parse_redirection(&self, pos: usize) -> (r: Result<Option<(usize, Redirect)>, ShellError>)
        ensures
            redirection_res_view(r) == sp_redirection(self.state().toks, pos as int),
    {
        if pos >= self.tokens.len() {
            return Err(ShellError::Parse(String::from_str("Unexpected end of input while parsing redirection")));
        }
        match &self.tokens[pos] {
            Token::RedirectOut => self.redirect_target(pos, None, RedirectOp::Write,
                "Expected target after '>'",
                "Expected filename, file descriptor, or '-' after redirection operator '>'"),
            Token::RedirectIn => self.redirect_target(pos, None, RedirectOp::Read,
                "Expected target after '<'",
                "Expected filename, file descriptor, or '-' after redirection operator '<'"),
            Token::RedirectAppend => self.redirect_target(pos, None, RedirectOp::Append,
                "Expected target after '>>'",
                "Expected filename, file descriptor, or '-' after redirection operator '>>'"),
            Token::RedirectHereDoc => self.redirect_target(pos, None, RedirectOp::HereDoc,
                "Expected delimiter after '<<'",
                "Expected word token as heredoc delimiter after '<<'"),
            Token::RedirectOutFd(n) => self.redirect_target(pos, Some(*n), RedirectOp::Write,
                "Expected target after '>...'",
                "Expected filename, file descriptor, or '-' after redirection operator '>...'"),
            Token::RedirectInFd(n) => self.redirect_target(pos, Some(*n), RedirectOp::Read,
                "Expected target after '<...'",
                "Expected filename, file descriptor, or '-' after redirection operator '<...'"),
            Token::RedirectAppendFd(n) => self.redirect_target(pos, Some(*n), RedirectOp::Append,
                "Expected target after '>>...'",
                "Expected filename or '-' after redirection operator '>>...'"),
            _ => Ok(None),
        }
    }
}

} // verus!
