use vstd::prelude::*;
use vstd::string::StringExecFns;
use crate::error::{ShellError, ShellErrorV};
use crate::lexer::types::{clone_word, parts_view, tokens_view, QuoteType, Token, TokenV, Word, WordPart, WordPartV, WordV};
use crate::parser::parse_assignment::assignment_at;
use crate::parser::spec::{lemma_assignment_bounds, perr, sp_assignment};
use crate::strings::{chars_between, decimal, parse_u64_text, str_to_chars, u64_text, u64_to_decimal};

verus! {

/// Where a redirection points: a file named by a word, a file descriptor
/// (`&N`), or closing (`&-`).
pub enum RedirectTarget {
    File(Word),
    Fd(u64),
    Close,
}

/// The kinds of redirection, the duplicating forms included.
#[derive(Debug, Clone, Copy, PartialEq, Eq, Structural)]
pub enum RedirectOp {
    Write,
    Append,
    Read,
    HereDoc,
    ReadWrite,
    DupWrite,
    DupRead,
}

/// A redirection of the simple-command parser.
pub struct Redirect {
    pub fd: Option<u64>,
    pub kind: RedirectOp,
    pub target: RedirectTarget,
}

/// The syntax tree that the simple-command parser builds: one command with
/// its leading assignments, arguments and redirections.
pub enum AstNode {
    Command { cmd: Word, args: Vec<Word>, assignments: Vec<(String, Vec<WordPart>)>, redirects: Vec<Redirect> },
}

/// The value of a `RedirectTarget`.
pub enum RedirectTargetV {
    File(WordV),
    Fd(u64),
    Close,
}

/// The value of a `Redirect`.
pub struct RedirectV {
    pub fd: Option<u64>,
    pub kind: RedirectOp,
    pub target: RedirectTargetV,
}

/// The value of an `AstNode`.
pub enum AstNodeV {
    Command {
        cmd: WordV,
        args: Seq<WordV>,
        assignments: Seq<(Seq<char>, Seq<WordPartV>)>,
        redirects: Seq<RedirectV>,
    },
}

impl View for RedirectTarget {
    type V = RedirectTargetV;

    open spec fn view(&self) -> RedirectTargetV {
        match self {
            RedirectTarget::File(w) => RedirectTargetV::File(w@),
            RedirectTarget::Fd(n) => RedirectTargetV::Fd(*n),
            RedirectTarget::Close => RedirectTargetV::Close,
        }
    }
}

impl View for Redirect {
    type V = RedirectV;

    open spec fn view(&self) -> RedirectV {
        RedirectV { fd: self.fd, kind: self.kind, target: self.target@ }
    }
}

pub open spec fn redirects_view(v: Seq<Redirect>) -> Seq<RedirectV> {
    v.map_values(|r: Redirect| r@)
}

pub open spec fn words_view(v: Seq<Word>) -> Seq<WordV> {
    v.map_values(|w: Word| w@)
}

pub open spec fn assignments_view(v: Seq<(String, Vec<WordPart>)>) -> Seq<(Seq<char>, Seq<WordPartV>)> {
    v.map_values(|a: (String, Vec<WordPart>)| (a.0@, parts_view(a.1@)))
}

impl View for AstNode {
    type V = AstNodeV;

    open spec fn view(&self) -> AstNodeV {
        match self {
            AstNode::Command { cmd, args, assignments, redirects } => AstNodeV::Command {
                cmd: cmd@,
                args: words_view(args@),
                assignments: assignments_view(assignments@),
                redirects: redirects_view(redirects@),
            },
        }
    }
}

/// The target a redirection word names: `&-` closes, `&N` is descriptor
/// `N`, anything else is a file.
pub open spec fn target_of(w: WordV) -> RedirectTargetV {
    if w.parts.len() > 0 && (w.parts[0] matches WordPartV::Literal(p) && p.len() > 0 && p[0] == '&') {
        let p = w.parts[0]->Literal_0;
        let fd = p.subrange(1, p.len() as int);
        if fd == "-"@ {
            RedirectTargetV::Close
        } else if u64_text(fd) is Some {
            RedirectTargetV::Fd(u64_text(fd)->0)
        } else {
            RedirectTargetV::File(w)
        }
    } else {
        RedirectTargetV::File(w)
    }
}

/// The kind of a redirection: `dup` when it points at a descriptor or closes.
pub open spec fn kind_for(t: RedirectTargetV, dup: RedirectOp, plain: RedirectOp) -> RedirectOp {
    match t {
        RedirectTargetV::File(_) => plain,
        _ => dup,
    }
}

/// A redirection whose target word is expected at `p`; it takes `n` tokens.
pub open spec fn redirect_to(
    toks: Seq<TokenV>,
    p: int,
    fd: Option<u64>,
    dup: RedirectOp,
    plain: RedirectOp,
    missing: Seq<char>,
    not_word: Seq<char>,
    n: int,
) -> Result<Option<(int, RedirectV)>, ShellErrorV> {
    if 0 <= p < toks.len() {
        match toks[p] {
            TokenV::Word(w) => Ok(
                Some((n, RedirectV { fd, kind: kind_for(target_of(w), dup, plain), target: target_of(w) })),
            ),
            _ => Err(perr(not_word)),
        }
    } else {
        Err(perr(missing))
    }
}

/// `try_parse_redirection_at(pos)`: a redirection operator, or a descriptor
/// number followed by one, and its target.
pub open spec fn redirect_at(toks: Seq<TokenV>, pos: int) -> Result<Option<(int, RedirectV)>, ShellErrorV> {
    if !(0 <= pos < toks.len()) {
        Err(perr("Unexpected end of input while parsing redirection"@))
    } else {
        match toks[pos] {
            TokenV::RedirectOut => redirect_to(toks, pos + 1, None, RedirectOp::DupWrite, RedirectOp::Write,
                "Expected target after '>'"@,
                "Expected filename, file descriptor, or '-' after redirection operator '>'"@, 2),
            TokenV::RedirectIn => redirect_to(toks, pos + 1, None, RedirectOp::DupRead, RedirectOp::Read,
                "Expected target after '<'"@,
                "Expected filename, file descriptor, or '-' after redirection operator '<'"@, 2),
            TokenV::RedirectAppend => redirect_to(toks, pos + 1, None, RedirectOp::Append, RedirectOp::Append,
                "Expected target after '>>'"@,
                "Expected filename, file descriptor, or '-' after redirection operator '>>'"@, 2),
            TokenV::RedirectHereDoc => if pos + 1 < toks.len() {
                match toks[pos + 1] {
                    TokenV::Word(w) => Ok(
                        Some((2, RedirectV { fd: None, kind: RedirectOp::HereDoc, target: RedirectTargetV::File(w) })),
                    ),
                    _ => Err(perr("Expected word token as heredoc delimiter after '<<'"@)),
                }
            } else {
                Err(perr("Expected delimiter after '<<'"@))
            },
            TokenV::Word(w) => if w.quote == QuoteType::Unquoted && w.parts.len() > 0 && (
            w.parts[0] matches WordPartV::Literal(p) && u64_text(p) is Some) {
                let fd = u64_text(w.parts[0]->Literal_0)->0;
                if pos + 1 < toks.len() {
                    match toks[pos + 1] {
                        TokenV::RedirectOut => redirect_to(toks, pos + 2, Some(fd), RedirectOp::DupWrite, RedirectOp::Write,
                            "Expected target after '>...'"@,
                            "Expected filename, file descriptor, or '-' after redirection operator '>&' or '>...'"@, 3),
                        TokenV::RedirectIn => redirect_to(toks, pos + 2, Some(fd), RedirectOp::DupRead, RedirectOp::Read,
                            "Expected target after '<...'"@,
                            "Expected filename, file descriptor, or '-' after redirection operator '<&' or '<...'"@, 3),
                        TokenV::RedirectAppend => redirect_to(toks, pos + 2, Some(fd), RedirectOp::Append, RedirectOp::Append,
                            "Expected target after '>>...'"@,
                            "Expected filename, file descriptor, or '-' after redirection operator '>>&' or '>>...'"@, 3),
                        _ => Ok(None),
                    }
                } else {
                    Err(perr("Expected redirection operator after file descriptor '"@ + decimal(fd as nat) + "'"@))
                }
            } else {
                Ok(None)
            },
            _ => Ok(None),
        }
    }
}

/// `try_parse_assignment_at(pos)`: like the assignment of the full parser,
/// with the value given by its parts.
pub open spec fn assignment_parts_at(toks: Seq<TokenV>, pos: int) -> Option<(int, (Seq<char>, Seq<WordPartV>))> {
    match sp_assignment(toks, pos) {
        Some((k, (key, w))) => Some((k, (key, w.parts))),
        None => None,
    }
}

/// The leading assignments from `p` on: all of them and the position after.
pub open spec fn assignments_from(toks: Seq<TokenV>, p: int, acc: Seq<(Seq<char>, Seq<WordPartV>)>) -> (Seq<(Seq<char>, Seq<WordPartV>)>, int)
    decreases toks.len() - p,
{
    match assignment_parts_at(toks, p) {
        Some((k, a)) => if 0 <= p < p + k <= toks.len() {
            assignments_from(toks, p + k, acc.push(a))
        } else {
            (acc, p)
        },
        None => (acc, p),
    }
}

/// The arguments and redirections from `p` on; `None` (with the position)
/// when a redirection is malformed.
pub open spec fn rest_from(toks: Seq<TokenV>, p: int, args: Seq<WordV>, redirs: Seq<RedirectV>) -> (Option<(Seq<WordV>, Seq<RedirectV>)>, int)
    decreases toks.len() - p,
{
    if !(0 <= p < toks.len()) {
        (Some((args, redirs)), p)
    } else {
        match redirect_at(toks, p) {
            Ok(Some((k, r))) => if p < p + k <= toks.len() {
                rest_from(toks, p + k, args, redirs.push(r))
            } else {
                (None, p)
            },
            Err(_) => (None, p),
            Ok(None) => match toks[p] {
                TokenV::Word(w) => rest_from(toks, p + 1, args.push(w), redirs),
                _ => (Some((args, redirs)), p),
            },
        }
    }
}

/// The command built from its word, its assignments and what `rest_from`
/// found after the word.
pub open spec fn finish_command(
    cmd: WordV,
    assigns: Seq<(Seq<char>, Seq<WordPartV>)>,
    rest: (Option<(Seq<WordV>, Seq<RedirectV>)>, int),
) -> (Option<AstNodeV>, int) {
    match rest.0 {
        Some((args, redirs)) => (Some(AstNodeV::Command { cmd, args, assignments: assigns, redirects: redirs }), rest.1),
        None => (None, rest.1),
    }
}

/// `parse_command` from position `pos`: the command (if any) and the
/// position reached.
pub open spec fn command_from(toks: Seq<TokenV>, pos: int) -> (Option<AstNodeV>, int) {
    let (assigns, p1) = assignments_from(toks, pos, Seq::empty());
    if 0 <= p1 < toks.len() && toks[p1] is Word {
        finish_command(toks[p1]->Word_0, assigns, rest_from(toks, p1 + 1, Seq::empty(), Seq::empty()))
    } else {
        (None, p1)
    }
}

} // verus!

verus! {

/// The value of what `parse_command` gives back.
pub open spec fn command_opt_view(r: Option<AstNode>) -> Option<AstNodeV> {
    match r {
        Some(n) => Some(n@),
        None => None,
    }
}

/// The value of what a redirection reader gives back.
pub open spec fn redirect_res_view(r: Result<Option<(usize, Redirect)>, ShellError>) -> Result<Option<(int, RedirectV)>, ShellErrorV> {
    match r {
        Ok(Some((k, red))) => Ok(Some((k as int, red@))),
        Ok(None) => Ok(None),
        Err(e) => Err(e@),
    }
}

/// A redirection found at `pos` takes two or three tokens, all present.
pub proof fn lemma_redirect_at_bounds(toks: Seq<TokenV>, pos: int)
    ensures
        redirect_at(toks, pos) matches Ok(Some((k, _))) ==> 2 <= k <= 3 && 0 <= pos && pos + k <= toks.len(),
{
}

/// The descriptor number a word stands for when it comes right before a
/// redirection operator: an unquoted word whose first part is a literal
/// that reads as a `u64`.
pub open spec fn fd_of_word(w: WordV) -> Option<u64> {
    if w.quote == QuoteType::Unquoted && w.parts.len() > 0 && (w.parts[0] matches WordPartV::Literal(p) && u64_text(p) is Some) {
        u64_text(w.parts[0]->Literal_0)
    } else {
        None
    }
}

fn fd_word(w: &Word) -> (r: Option<u64>)
    ensures
        r == fd_of_word(w@),
{
    if w.quote == QuoteType::Unquoted && w.parts.len() > 0 {
        match &w.parts[0] {
            WordPart::Literal(part) => {
                let cs = str_to_chars(part.as_str());
                parse_u64_text(&cs)
            },
            _ => None,
        }
    } else {
        None
    }
}

/// The simple-command parser: reads one command with its leading
/// assignments, its arguments and its redirections.
pub struct Parser {
    tokens: Vec<Token>,
    pos: usize,
}

impl Parser {
    /// The tokens, by value.
    pub closed spec fn toks(&self) -> Seq<TokenV> {
        tokens_view(self.tokens@)
    }

    /// The position of the next token to read.
    pub closed spec fn position(&self) -> int {
        self.pos as int
    }

    pub fn new(tokens: Vec<Token>) -> (p: Self)
        ensures
            p.toks() == tokens_view(tokens@),
            p.position() == 0,
    {
        Parser { tokens, pos: 0 }
    }

    /// The token `offset` places after the current one, if there is one.
    pub fn look_ahead(&self, offset: usize) -> (r: Option<&Token>)
        requires
            self.position() + offset <= usize::MAX,
        ensures
            match r {
                Some(t) => self.position() + offset < self.toks().len() && t@ == self.toks()[self.position() + offset],
                None => self.position() + offset >= self.toks().len(),
            },
    {
        let i = self.pos + offset;
        if i < self.tokens.len() {
            Some(&self.tokens[i])
        } else {
            None
        }
    }

    /// Moves to the next token, unless all are read.
    pub fn advance(&mut self)
        ensures
            final(self).toks() == old(self).toks(),
            final(self).position() == if old(self).position() < old(self).toks().len() {
                old(self).position() + 1
            } else {
                old(self).position()
            },
    {
        if self.pos < self.tokens.len() {
            self.pos = self.pos + 1;
        }
    }

    /// The current token, if any.
    pub fn current(&self) -> (r: Option<&Token>)
        ensures
            match r {
                Some(t) => self.position() < self.toks().len() && t@ == self.toks()[self.position()],
                None => self.position() >= self.toks().len(),
            },
    {
        if self.pos < self.tokens.len() {
            Some(&self.tokens[self.pos])
        } else {
            None
        }
    }

    /// How many tokens are left to read.
    pub fn remaining(&self) -> (r: usize)
        ensures
            r == if self.toks().len() >= self.position() { self.toks().len() - self.position() } else { 0 },
    {
        if self.tokens.len() >= self.pos {
            self.tokens.len() - self.pos
        } else {
            0
        }
    }

    /// Reads one command; fails with "Unexpected token or end of input"
    /// when there is none. See `command_from`.
    pub fn parse(&mut self) -> (r: Result<AstNode, ShellError>)
        ensures
            final(self).toks() == old(self).toks(),
            final(self).position() == command_from(old(self).toks(), old(self).position()).1,
            match command_from(old(self).toks(), old(self).position()).0 {
                Some(n) => r matches Ok(a) && a@ == n,
                None => r matches Err(e) && e@ == perr("Unexpected token or end of input"@),
            },
    {
        match self.parse_command() {
            Some(n) => Ok(n),
            None => Err(ShellError::Parse(String::from_str("Unexpected token or end of input"))),
        }
    }

    fn try_parse_assignment_at(&self, pos: usize) -> (r: Option<(usize, (String, Vec<WordPart>))>)
        ensures
            match assignment_parts_at(self.toks(), pos as int) {
                Some((k, (key, ps))) => r matches Some((k2, (key2, ps2))) && k2 == k && key2@ == key && parts_view(ps2@) == ps,
                None => r is None,
            },
    {
        match assignment_at(&self.tokens, pos) {
            Some((k, (key, w))) => Some((k, (key, w.parts))),
            None => None,
        }
    }

    fn parse_redirect_target(word: &Word) -> (r: RedirectTarget)
        ensures
            r@ == target_of(word@),
    {
        if word.parts.len() > 0 {
            match &word.parts[0] {
                WordPart::Literal(part) => {
                    let cs = str_to_chars(part.as_str());
                    if cs.len() > 0 && cs[0] == '&' {
                        let fd = chars_between(&cs, 1, cs.len());
                        proof {
                            reveal_strlit("-");
                        }
                        if fd.len() == 1 && fd[0] == '-' {
                            assert(fd@ =~= "-"@);
                            return RedirectTarget::Close;
                        }
                        assert(fd@ != "-"@);
                        match parse_u64_text(&fd) {
                            Some(n) => {
                                return RedirectTarget::Fd(n);
                            },
                            None => {},
                        }
                    }
                },
                _ => {},
            }
        }
        RedirectTarget::File(clone_word(word))
    }

    fn redirect_to_exec(
        &self,
        p: usize,
        fd: Option<u64>,
        dup: RedirectOp,
        plain: RedirectOp,
        missing: &str,
        not_word: &str,
        n: usize,
    ) -> (r: Result<Option<(usize, Redirect)>, ShellError>)
        ensures
            redirect_res_view(r) == redirect_to(self.toks(), p as int, fd, dup, plain, missing@, not_word@, n as int),
    {
        if p < self.tokens.len() {
            match &self.tokens[p] {
                Token::Word(w) => {
                    let target = Self::parse_redirect_target(w);
                    let kind = match &target {
                        RedirectTarget::File(_) => plain,
                        _ => dup,
                    };
                    Ok(Some((n, Redirect { fd, kind, target })))
                },
                _ => Err(ShellError::Parse(String::from_str(not_word))),
            }
        } else {
            Err(ShellError::Parse(String::from_str(missing)))
        }
    }

    fn try_parse_redirection_at(&self, pos: usize) -> (r: Result<Option<(usize, Redirect)>, ShellError>)
        ensures
            redirect_res_view(r) == redirect_at(self.toks(), pos as int),
    {
        let n = self.tokens.len();
        if pos >= n {
            return Err(ShellError::Parse(String::from_str("Unexpected end of input while parsing redirection")));
        }
        match &self.tokens[pos] {
            Token::RedirectOut => self.redirect_to_exec(
                pos + 1,
                None,
                RedirectOp::DupWrite,
                RedirectOp::Write,
                "Expected target after '>'",
                "Expected filename, file descriptor, or '-' after redirection operator '>'",
                2,
            ),
            Token::RedirectIn => self.redirect_to_exec(
                pos + 1,
                None,
                RedirectOp::DupRead,
                RedirectOp::Read,
                "Expected target after '<'",
                "Expected filename, file descriptor, or '-' after redirection operator '<'",
                2,
            ),
            Token::RedirectAppend => self.redirect_to_exec(
                pos + 1,
                None,
                RedirectOp::Append,
                RedirectOp::Append,
                "Expected target after '>>'",
                "Expected filename, file descriptor, or '-' after redirection operator '>>'",
                2,
            ),
            Token::RedirectHereDoc => {
                if pos + 1 < n {
                    match &self.tokens[pos + 1] {
                        Token::Word(w) => Ok(
                            Some((2, Redirect { fd: None, kind: RedirectOp::HereDoc, target: RedirectTarget::File(clone_word(w)) })),
                        ),
                        _ => Err(ShellError::Parse(String::from_str("Expected word token as heredoc delimiter after '<<'"))),
                    }
                } else {
                    Err(ShellError::Parse(String::from_str("Expected delimiter after '<<'")))
                }
            },
            Token::Word(w) => {
                match fd_word(w) {
                    Some(fd) => {
                        if pos + 1 < n {
                            match &self.tokens[pos + 1] {
                                Token::RedirectOut => self.redirect_to_exec(
                                    pos + 2,
                                    Some(fd),
                                    RedirectOp::DupWrite,
                                    RedirectOp::Write,
                                    "Expected target after '>...'",
                                    "Expected filename, file descriptor, or '-' after redirection operator '>&' or '>...'",
                                    3,
                                ),
                                Token::RedirectIn => self.redirect_to_exec(
                                    pos + 2,
                                    Some(fd),
                                    RedirectOp::DupRead,
                                    RedirectOp::Read,
                                    "Expected target after '<...'",
                                    "Expected filename, file descriptor, or '-' after redirection operator '<&' or '<...'",
                                    3,
                                ),
                                Token::RedirectAppend => self.redirect_to_exec(
                                    pos + 2,
                                    Some(fd),
                                    RedirectOp::Append,
                                    RedirectOp::Append,
                                    "Expected target after '>>...'",
                                    "Expected filename, file descriptor, or '-' after redirection operator '>>&' or '>>...'",
                                    3,
                                ),
                                _ => Ok(None),
                            }
                        } else {
                            let mut msg = String::from_str("Expected redirection operator after file descriptor '");
                            let digits = u64_to_decimal(fd);
                            msg.append(digits.as_str());
                            msg.append("'");
                            Err(ShellError::Parse(msg))
                        }
                    },
                    None => Ok(None),
                }
            },
            _ => Ok(None),
        }
    }

    /// Reads the leading assignments, the command word, then arguments and
    /// redirections up to the first other token; `None` when there is no
    /// command word or a redirection is malformed. See `command_from`.
    pub fn parse_command(&mut self) -> (r: Option<AstNode>)
        ensures
            final(self).toks() == old(self).toks(),
            command_opt_view(r) == command_from(old(self).toks(), old(self).position()).0,
            final(self).position() == command_from(old(self).toks(), old(self).position()).1,
    {
        let ghost toks = self.toks();
        let ghost pos0 = self.pos as int;
        let mut assignments: Vec<(String, Vec<WordPart>)> = Vec::new();
        let mut current_pos = self.pos;
        let mut next = self.try_parse_assignment_at(current_pos);
        assert(assignments_view(assignments@) =~= Seq::<(Seq<char>, Seq<WordPartV>)>::empty());
        while next.is_some()
            invariant
                toks == self.toks(),
                toks == old(self).toks(),
                pos0 == old(self).position(),
                pos0 == self.pos,
                current_pos >= pos0,
                next is Some ==> current_pos < toks.len(),
                match assignment_parts_at(toks, current_pos as int) {
                    Some((k, (key, ps))) => next matches Some((k2, (key2, ps2))) && k2 == k && key2@ == key
                        && parts_view(ps2@) == ps,
                    None => next is None,
                },
                assignments_from(toks, current_pos as int, assignments_view(assignments@))
                    == assignments_from(toks, pos0, Seq::empty()),
            decreases toks.len() - current_pos,
        {
            proof {
                lemma_assignment_bounds(toks, current_pos as int);
            }
            let nt = self.tokens.len();
            match next {
                Some((k, a)) => {
                    let ghost before = assignments@;
                    assignments.push(a);
                    assert(assignments_view(assignments@) =~= assignments_view(before).push(
                        (a.0@, parts_view(a.1@)),
                    ));
                    current_pos = current_pos + k;
                },
                None => {},
            }
            proof {
                lemma_assignment_bounds(toks, current_pos as int);
            }
            next = self.try_parse_assignment_at(current_pos);
        }
        self.pos = current_pos;
        let ghost assigns = assignments_view(assignments@);
        let ghost p1 = current_pos as int;
        assert(assignments_from(toks, pos0, Seq::empty()) == (assigns, p1));
        if current_pos >= self.tokens.len() {
            return None;
        }
        let cmd_word = match &self.tokens[current_pos] {
            Token::Word(w) => clone_word(w),
            _ => {
                return None;
            },
        };
        current_pos = current_pos + 1;
        self.pos = current_pos;
        let mut args: Vec<Word> = Vec::new();
        let mut redirects: Vec<Redirect> = Vec::new();
        assert(words_view(args@) =~= Seq::<WordV>::empty());
        assert(redirects_view(redirects@) =~= Seq::<RedirectV>::empty());
        while current_pos < self.tokens.len()
            invariant
                toks == self.toks(),
                toks == old(self).toks(),
                pos0 == old(self).position(),
                self.pos == current_pos,
                current_pos <= toks.len(),
                p1 + 1 <= current_pos,
                0 <= p1 < toks.len(),
                toks[p1] is Word,
                cmd_word@ == toks[p1]->Word_0,
                assignments_view(assignments@) == assigns,
                assignments_from(toks, pos0, Seq::empty()) == (assigns, p1),
                rest_from(toks, current_pos as int, words_view(args@), redirects_view(redirects@))
                    == rest_from(toks, p1 + 1, Seq::empty(), Seq::empty()),
            decreases toks.len() - current_pos,
        {
            proof {
                lemma_redirect_at_bounds(toks, current_pos as int);
            }
            match self.try_parse_redirection_at(current_pos) {
                Ok(Some((k, red))) => {
                    let ghost before = redirects@;
                    redirects.push(red);
                    assert(redirects_view(redirects@) =~= redirects_view(before).push(red@));
                    current_pos = current_pos + k;
                    self.pos = current_pos;
                },
                Ok(None) => {
                    match &self.tokens[current_pos] {
                        Token::Word(w) => {
                            let ghost before = args@;
                            let c = clone_word(w);
                            args.push(c);
                            assert(words_view(args@) =~= words_view(before).push(c@));
                            current_pos = current_pos + 1;
                            self.pos = current_pos;
                        },
                        _ => {
                            return Some(AstNode::Command { cmd: cmd_word, args, assignments, redirects });
                        },
                    }
                },
                Err(_) => {
                    return None;
                },
            }
        }
        Some(AstNode::Command { cmd: cmd_word, args, assignments, redirects })
    }
}

} // verus!
