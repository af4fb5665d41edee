use vstd::prelude::*;
use crate::error::ShellErrorV;
use crate::lexer::types::{QuoteType, TokenV, WordPartV, WordV};
use crate::parser::types::{AstNodeV, RedirectOp, RedirectV};
use crate::lexer::pretty::debug_opt_token;

verus! {

/// The parser's position in its tokens (the tokens may be rewritten while parsing).
pub struct PS {
    pub toks: Seq<TokenV>,
    pub pos: int,
}

/// What a parsing function gives back: its result and the parser's new position.
pub type PRes = (Result<Option<AstNodeV>, ShellErrorV>, PS);

pub open spec fn cur(s: PS) -> Option<TokenV> {
    if 0 <= s.pos < s.toks.len() {
        Some(s.toks[s.pos])
    } else {
        None
    }
}

pub open spec fn adv(s: PS) -> PS {
    if s.pos < s.toks.len() {
        PS { pos: s.pos + 1, ..s }
    } else {
        s
    }
}

pub open spec fn at(s: PS, p: int) -> PS {
    PS { pos: p, ..s }
}

/// The size of a token for the parser's termination measure: a word
/// weighs one more than the length of its leading literal.
pub open spec fn tok_weight(t: TokenV) -> nat {
    match t {
        TokenV::Word(w) => 1 + if w.parts.len() > 0 {
            match w.parts[0] {
                WordPartV::Literal(x) => x.len(),
                _ => 0nat,
            }
        } else {
            0nat
        },
        _ => 1,
    }
}

pub open spec fn suffix_weight(toks: Seq<TokenV>, pos: int) -> nat
    decreases toks.len() - pos,
{
    if 0 <= pos < toks.len() {
        tok_weight(toks[pos]) + suffix_weight(toks, pos + 1)
    } else {
        0
    }
}

/// The measure that parsing never raises and that every token read lowers.
pub open spec fn meas(s: PS) -> nat {
    if s.pos < 0 {
        suffix_weight(s.toks, 0) + 1
    } else {
        suffix_weight(s.toks, s.pos)
    }
}

/// A word made of one literal part: its text and quoting.
pub open spec fn literal_word(t: TokenV) -> Option<(Seq<char>, QuoteType)> {
    match t {
        TokenV::Word(w) => if w.parts.len() == 1 {
            match w.parts[0] {
                WordPartV::Literal(x) => Some((x, w.quote)),
                _ => None,
            }
        } else {
            None
        },
        _ => None,
    }
}

/// A word whose first part is a literal: that text and the word's quoting.
pub open spec fn first_literal(w: WordV) -> Option<(Seq<char>, QuoteType)> {
    if w.parts.len() > 0 {
        match w.parts[0] {
            WordPartV::Literal(x) => Some((x, w.quote)),
            _ => None,
        }
    } else {
        None
    }
}

pub open spec fn reserved_word(x: Seq<char>) -> bool {
    x == "then"@ || x == "fi"@ || x == "else"@ || x == "elif"@ || x == "do"@ || x == "done"@
        || x == "in"@
}

/// The token is an unquoted reserved word (`then`, `fi`, `else`, `elif`, `do`, `done`, `in`).
pub open spec fn reserved_token(t: Option<TokenV>) -> bool {
    match t {
        Some(tok) => match literal_word(tok) {
            Some((x, q)) => q == QuoteType::Unquoted && reserved_word(x),
            None => false,
        },
        None => false,
    }
}

pub open spec fn command_end(t: TokenV) -> bool {
    match t {
        TokenV::Eof | TokenV::Newline | TokenV::Semicolon | TokenV::Ampersand | TokenV::LogicalAnd
        | TokenV::LogicalOr | TokenV::Pipe => true,
        _ => false,
    }
}

pub open spec fn at_eof(s: PS) -> bool {
    match cur(s) {
        Some(TokenV::Eof) => true,
        None => true,
        _ => false,
    }
}

pub open spec fn perr(msg: Seq<char>) -> ShellErrorV {
    ShellErrorV::Parse(msg)
}

/// `expect_word`: the current token is the unquoted one-literal word `e`.
pub open spec fn sp_expect(s: PS, e: Seq<char>) -> (Result<(), ShellErrorV>, PS) {
    if cur(s) matches Some(t) && literal_word(t) == Some((e, QuoteType::Unquoted)) {
        (Ok(()), adv(s))
    } else {
        (Err(ShellErrorV::Syntax("Expected '"@ + e + "'"@)), s)
    }
}

/// The target word of a redirection operator at `pos`.
pub open spec fn redir_target(
    toks: Seq<TokenV>,
    pos: int,
    fd: Option<u64>,
    kind: RedirectOp,
    missing: Seq<char>,
    not_word: Seq<char>,
) -> Result<Option<(int, RedirectV)>, ShellErrorV> {
    if 0 <= pos + 1 < toks.len() {
        match toks[pos + 1] {
            TokenV::Word(w) => Ok(Some((2, RedirectV { fd, kind, target: w }))),
            _ => Err(perr(not_word)),
        }
    } else {
        Err(perr(missing))
    }
}

/// `parse_redirection(pos)`.
pub open spec fn sp_redirection(toks: Seq<TokenV>, pos: int) -> Result<Option<(int, RedirectV)>, ShellErrorV> {
    if !(0 <= pos < toks.len()) {
        Err(perr("Unexpected end of input while parsing redirection"@))
    } else {
        match toks[pos] {
            TokenV::RedirectOut => redir_target(toks, pos, None, RedirectOp::Write,
                "Expected target after '>'"@,
                "Expected filename, file descriptor, or '-' after redirection operator '>'"@),
            TokenV::RedirectIn => redir_target(toks, pos, None, RedirectOp::Read,
                "Expected target after '<'"@,
                "Expected filename, file descriptor, or '-' after redirection operator '<'"@),
            TokenV::RedirectAppend => redir_target(toks, pos, None, RedirectOp::Append,
                "Expected target after '>>'"@,
                "Expected filename, file descriptor, or '-' after redirection operator '>>'"@),
            TokenV::RedirectHereDoc => redir_target(toks, pos, None, RedirectOp::HereDoc,
                "Expected delimiter after '<<'"@,
                "Expected word token as heredoc delimiter after '<<'"@),
            TokenV::RedirectOutFd(n) => redir_target(toks, pos, Some(n), RedirectOp::Write,
                "Expected target after '>...'"@,
                "Expected filename, file descriptor, or '-' after redirection operator '>...'"@),
            TokenV::RedirectInFd(n) => redir_target(toks, pos, Some(n), RedirectOp::Read,
                "Expected target after '<...'"@,
                "Expected filename, file descriptor, or '-' after redirection operator '<...'"@),
            TokenV::RedirectAppendFd(n) => redir_target(toks, pos, Some(n), RedirectOp::Append,
                "Expected target after '>>...'"@,
                "Expected filename or '-' after redirection operator '>>...'"@),
            _ => Ok(None),
        }
    }
}

/// The index of the first `c` in `s` at or after `i`, or the length of `s`.
pub open spec fn find_char(s: Seq<char>, c: char, i: int) -> int
    decreases s.len() - i,
{
    if i < 0 || i >= s.len() {
        s.len() as int
    } else if s[i] == c {
        i
    } else {
        find_char(s, c, i + 1)
    }
}

/// `parse_assignment(pos)`: a `NAME=value` word (or `NAME=` followed by a word)
/// at `pos`: how many tokens it takes and the name with its value.
pub open spec fn sp_assignment(toks: Seq<TokenV>, pos: int) -> Option<(int, (Seq<char>, WordV))> {
    if !(0 <= pos < toks.len()) {
        None
    } else {
        match toks[pos] {
            TokenV::Word(w) => {
                if w.quote == QuoteType::Unquoted && w.parts.len() > 0 && (w.parts[0] matches WordPartV::Literal(part) && find_char(part, '=', 0) < part.len()) {
                    let part = w.parts[0]->Literal_0;
                    let eq = find_char(part, '=', 0);
                    let key = part.subrange(0, eq);
                    if eq == part.len() - 1 && w.parts.len() == 1 {
                        if pos + 1 < toks.len() {
                            match toks[pos + 1] {
                                TokenV::Word(v) => Some((2, (key, WordV { parts: v.parts, quote: QuoteType::Unquoted }))),
                                _ => None,
                            }
                        } else {
                            None
                        }
                    } else {
                        let after = part.subrange(eq + 1, part.len() as int);
                        let head = if after.len() > 0 { seq![WordPartV::Literal(after)] } else { Seq::empty() };
                        Some((1, (key, WordV { parts: head + w.parts.subrange(1, w.parts.len() as int), quote: QuoteType::Unquoted })))
                    }
                } else {
                    None
                }
            },
            _ => None,
        }
    }
}

/// The run of assignments that starts at `pos`, and the position after it.
pub open spec fn assign_loop(toks: Seq<TokenV>, pos: int, acc: Seq<(Seq<char>, WordV)>) -> (Seq<(Seq<char>, WordV)>, int)
    decreases toks.len() - pos,
{
    match sp_assignment(toks, pos) {
        Some((k, a)) => if 0 <= pos < toks.len() && k >= 1 {
            assign_loop(toks, pos + k, acc.push(a))
        } else {
            (acc, pos)
        },
        None => (acc, pos),
    }
}

/// The word `!` given as an argument.
pub open spec fn bang_word() -> WordV {
    WordV { parts: seq![WordPartV::Literal("!"@)], quote: QuoteType::Unquoted }
}

/// The arguments and redirections of a simple command. `cpos` is where the
/// redirection check looks: the current position, or the `!` argument that
/// was read last when `!` arguments were read since the last word.
pub open spec fn args_loop(
    s: PS,
    cpos: int,
    cmd: WordV,
    asg: Seq<(Seq<char>, WordV)>,
    args: Seq<WordV>,
    reds: Seq<RedirectV>,
) -> PRes
    decreases s.toks.len() - s.pos,
{
    let done = (Ok(Some(AstNodeV::Command { cmd, args, assignments: asg, redirects: reds })), s);
    match cur(s) {
        None => done,
        Some(tok) => {
            match sp_redirection(s.toks, cpos) {
                Err(e) => (Err(e), s),
                Ok(Some((k, r))) => if s.pos < cpos + k <= s.toks.len() {
                    args_loop(at(s, cpos + k), cpos + k, cmd, asg, args, reds.push(r))
                } else {
                    done
                },
                Ok(None) => if command_end(tok) {
                    done
                } else {
                    match tok {
                        TokenV::Word(w) => args_loop(adv(s), adv(s).pos, cmd, asg, args.push(w), reds),
                        TokenV::LogicalNot => if cmd.parts.len() != 0 {
                            args_loop(adv(s), cpos, cmd, asg, args.push(bang_word()), reds)
                        } else {
                            done
                        },
                        _ => done,
                    }
                },
            }
        },
    }
}

/// A simple command (assignments, command word, arguments, redirections) at `s`.
pub open spec fn command_rest(s: PS) -> PRes {
    let (asg, p1) = assign_loop(s.toks, s.pos, Seq::empty());
    let s1 = at(s, p1);
    match cur(s1) {
        Some(TokenV::Word(w)) => args_loop(adv(s1), adv(s1).pos, w, asg, Seq::empty(), Seq::empty()),
        _ => if asg.len() > 0 {
            args_loop(s1, s1.pos, WordV { parts: Seq::empty(), quote: QuoteType::Unquoted }, asg, Seq::empty(), Seq::empty())
        } else {
            (Ok(None), s1)
        },
    }
}

/// Redirections after a group's closing brace.
pub open spec fn group_redirs(s: PS, cmds: Seq<AstNodeV>, reds: Seq<RedirectV>) -> PRes
    decreases s.toks.len() - s.pos,
{
    let done = (Ok(Some(AstNodeV::Group { commands: cmds, redirects: reds })), s);
    if cur(s) is None {
        done
    } else {
        match sp_redirection(s.toks, s.pos) {
            Ok(Some((k, r))) => if k >= 1 {
                group_redirs(at(s, s.pos + k), cmds, reds.push(r))
            } else {
                done
            },
            Ok(None) => done,
            Err(e) => (Err(e), s),
        }
    }
}

pub open spec fn skip_delims(s: PS) -> PS
    decreases s.toks.len() - s.pos,
{
    match cur(s) {
        Some(TokenV::Newline) | Some(TokenV::Semicolon) => skip_delims(adv(s)),
        _ => s,
    }
}

/// What a finished sequence of commands is: nothing, the one command, or a `Sequence`.
pub open spec fn seq_result(cmds: Seq<AstNodeV>) -> Result<Option<AstNodeV>, ShellErrorV> {
    if cmds.len() == 0 {
        Ok(None)
    } else if cmds.len() == 1 {
        Ok(Some(cmds[0]))
    } else {
        Ok(Some(AstNodeV::Sequence(cmds)))
    }
}

pub open spec fn seq_finish(s: PS, cmds: Seq<AstNodeV>) -> PRes {
    (seq_result(cmds), s)
}

pub open spec fn if_finish(
    s: PS,
    cond: AstNodeV,
    then: AstNodeV,
    elifs: Seq<(AstNodeV, AstNodeV)>,
    els: Option<Box<AstNodeV>>,
) -> PRes {
    let (r, s1) = sp_expect(s, "fi"@);
    match r {
        Err(e) => (Err(e), s1),
        Ok(()) => (Ok(Some(AstNodeV::If {
            condition: Box::new(cond),
            then_branch: Box::new(then),
            elif: elifs,
            else_branch: els,
        })), s1),
    }
}

/// The words of a `for` loop's list, up to the delimiter before `do`.
pub open spec fn values_loop(s: PS, vals: Seq<WordV>) -> (Result<Seq<WordV>, ShellErrorV>, PS)
    decreases s.toks.len() - s.pos,
{
    match cur(s) {
        None => (Ok(vals), s),
        Some(TokenV::Word(w)) => values_loop(adv(s), vals.push(w)),
        Some(TokenV::Semicolon) | Some(TokenV::Newline) => {
            let s1 = adv(s);
            if reserved_token(cur(s1)) {
                (Ok(vals), s1)
            } else {
                (Err(perr("expected words after in"@)), s1)
            }
        },
        _ => (Err(perr("expected words after in"@)), s),
    }
}

/// The token list after `parse_function` turns the word `{rest` at `p` into
/// an opening brace followed by the word `rest`.
pub open spec fn split_brace(toks: Seq<TokenV>, p: int, rest: Seq<char>, q: QuoteType) -> Seq<TokenV> {
    toks.update(p, TokenV::OpenBrace).insert(
        p + 1,
        TokenV::Word(WordV { parts: seq![WordPartV::Literal(rest)], quote: q }),
    )
}

pub proof fn lemma_suffix_weight_ext(a: Seq<TokenV>, i: int, b: Seq<TokenV>, j: int)
    requires
        0 <= i <= a.len(),
        0 <= j <= b.len(),
        a.subrange(i, a.len() as int) == b.subrange(j, b.len() as int),
    ensures
        suffix_weight(a, i) == suffix_weight(b, j),
    decreases a.len() - i,
{
    let sa = a.subrange(i, a.len() as int);
    let sb = b.subrange(j, b.len() as int);
    assert(sa.len() == a.len() - i);
    assert(sb.len() == b.len() - j);
    if i < a.len() {
        assert(sa[0] == a[i]);
        assert(sb[0] == b[j]);
        assert(a.subrange(i + 1, a.len() as int) =~= sa.subrange(1, sa.len() as int));
        assert(b.subrange(j + 1, b.len() as int) =~= sb.subrange(1, sb.len() as int));
        lemma_suffix_weight_ext(a, i + 1, b, j + 1);
    }
}

pub proof fn lemma_suffix_weight_nonneg(a: Seq<TokenV>, i: int)
    ensures
        suffix_weight(a, i) >= 0,
    decreases a.len() - i,
{
    if 0 <= i < a.len() {
        lemma_suffix_weight_nonneg(a, i + 1);
    }
}

/// Splitting `{rest` into `{` and `rest` leaves the measure unchanged.
pub proof fn lemma_split_brace_measure(toks: Seq<TokenV>, p: int, rest: Seq<char>, q: QuoteType)
    requires
        0 <= p < toks.len(),
        toks[p] matches TokenV::Word(w) && first_literal(w) matches Some((x, _)) && x.len() == rest.len() + 1,
    ensures
        suffix_weight(split_brace(toks, p, rest, q), p) == suffix_weight(toks, p),
        split_brace(toks, p, rest, q).len() == toks.len() + 1,
{
    let t2 = split_brace(toks, p, rest, q);
    assert(t2[p] == TokenV::OpenBrace);
    assert(t2.subrange(p + 2, t2.len() as int) =~= toks.subrange(p + 1, toks.len() as int));
    lemma_suffix_weight_ext(t2, p + 2, toks, p + 1);
    assert(suffix_weight(t2, p) == tok_weight(t2[p]) + suffix_weight(t2, p + 1));
    assert(suffix_weight(t2, p + 1) == tok_weight(t2[p + 1]) + suffix_weight(t2, p + 2));
}

pub proof fn lemma_adv_measure(s: PS)
    ensures
        meas(adv(s)) <= meas(s),
        cur(s) is Some ==> meas(adv(s)) < meas(s),
        meas(s) >= 0,
{
    lemma_suffix_weight_nonneg(s.toks, s.pos + 1);
    lemma_suffix_weight_nonneg(s.toks, s.pos);
    lemma_suffix_weight_nonneg(s.toks, 0);
}

pub proof fn lemma_suffix_weight_mono(toks: Seq<TokenV>, i: int, j: int)
    requires
        0 <= i <= j,
    ensures
        suffix_weight(toks, j) <= suffix_weight(toks, i),
    decreases j - i,
{
    if i < j {
        lemma_suffix_weight_mono(toks, i + 1, j);
        if i >= toks.len() {
            assert(suffix_weight(toks, i + 1) == 0);
            lemma_suffix_weight_nonneg(toks, j);
            assert(suffix_weight(toks, j) == 0) by {
                assert(!(0 <= j < toks.len()));
            }
        }
    }
}

/// The measure only goes down as the position goes forward.
pub proof fn lemma_at_measure(s: PS, p: int)
    requires
        0 <= s.pos <= p,
    ensures
        meas(at(s, p)) <= meas(s),
{
    lemma_suffix_weight_mono(s.toks, s.pos, p);
}

pub proof fn lemma_assignment_bounds(toks: Seq<TokenV>, pos: int)
    ensures
        sp_assignment(toks, pos) matches Some((k, _)) ==> 1 <= k <= 2 && 0 <= pos && pos + k <= toks.len(),
{
}

pub proof fn lemma_redirection_bounds(toks: Seq<TokenV>, pos: int)
    ensures
        sp_redirection(toks, pos) matches Ok(Some((k, _))) ==> k == 2 && 0 <= pos && pos + k <= toks.len(),
{
}

pub proof fn lemma_skip_delims_measure(s: PS)
    ensures
        meas(skip_delims(s)) <= meas(s),
    decreases s.toks.len() - s.pos,
{
    lemma_adv_measure(s);
    match cur(s) {
        Some(TokenV::Newline) | Some(TokenV::Semicolon) => {
            lemma_skip_delims_measure(adv(s));
        },
        _ => {},
    }
}

/// `parse_sequence`: pipelines separated by `;`, newlines or `&` (which puts
/// the pipeline before it in the background); inside an `if`/loop condition
/// or body, it stops before a reserved word and needs a delimiter after
/// each pipeline.
pub open spec fn sp_sequence(s: PS, in_if: bool) -> PRes
    decreases meas(s), 8int,
{
    seq_loop(s, in_if, Seq::empty())
}

pub open spec fn seq_loop(s: PS, in_if: bool, cmds: Seq<AstNodeV>) -> PRes
    decreases meas(s), 7int,
{
    let (rp, s1) = sp_pipeline(s);
    match rp {
        Err(e) => (Err(e), s1),
        Ok(None) => seq_finish(s1, cmds),
        Ok(Some(c)) => match cur(s1) {
            Some(TokenV::Semicolon) | Some(TokenV::Newline) | Some(TokenV::Ampersand) => {
                let bg = cur(s1) == Some(TokenV::Ampersand);
                let s2 = adv(s1);
                let cmds2 = if bg { cmds.push(AstNodeV::Background(Box::new(c))) } else { cmds.push(c) };
                if in_if && reserved_token(cur(s2)) {
                    seq_finish(s2, cmds2)
                } else if meas(s2) < meas(s) {
                    seq_loop(s2, in_if, cmds2)
                } else {
                    arbitrary()
                }
            },
            _ => if in_if {
                (Err(perr("expected sequence to end with Newline, Semicolon, or &"@)), s1)
            } else {
                seq_finish(s1, cmds.push(c))
            },
        },
    }
}

/// `parse_pipeline`: commands joined by `|`.
pub open spec fn sp_pipeline(s: PS) -> PRes
    decreases meas(s), 6int,
{
    let (r, s1) = sp_op(s);
    match r {
        Err(e) => (Err(e), s1),
        Ok(None) => (Ok(None), s1),
        Ok(Some(f)) => if meas(s1) <= meas(s) { pipe_loop(s1, seq![f]) } else { arbitrary() },
    }
}

pub open spec fn pipe_loop(s: PS, cmds: Seq<AstNodeV>) -> PRes
    decreases meas(s), 5int,
{
    if cur(s) == Some(TokenV::Pipe) {
        let s1 = adv(s);
        proof {
            lemma_adv_measure(s);
        }
        let (r, s2) = sp_op(s1);
        match r {
            Err(e) => (Err(e), s2),
            Ok(None) => (Err(perr("Expected command after pipe"@)), s2),
            Ok(Some(c)) => if meas(s2) < meas(s) {
                pipe_loop(s2, cmds.push(c))
            } else {
                arbitrary()
            },
        }
    } else if cmds.len() == 1 {
        (Ok(Some(cmds[0])), s)
    } else {
        (Ok(Some(AstNodeV::Pipeline(cmds))), s)
    }
}

/// `parse_op`: an optional `!`, then an `if` or a command, followed by
/// `&& command` and `|| op` continuations (left to right).
pub open spec fn sp_op(s: PS) -> PRes
    decreases meas(s), 4int,
{
    let neg = cur(s) == Some(TokenV::LogicalNot);
    let s1 = if neg { adv(s) } else { s };
    proof {
        lemma_adv_measure(s);
    }
    let (ri, s2) = sp_if(s1);
    match ri {
        Err(e) => (Err(e), s2),
        Ok(Some(n)) => if meas(s2) <= meas(s) { op_loop(s2, n) } else { arbitrary() },
        Ok(None) => {
            let (rc, s3) = sp_command(s1);
            match rc {
                Err(e) => (Err(e), s3),
                Ok(None) => (Ok(None), s3),
                Ok(Some(c)) => if meas(s3) <= meas(s) {
                    op_loop(s3, if neg { AstNodeV::Not(Box::new(c)) } else { c })
                } else {
                    arbitrary()
                },
            }
        },
    }
}

pub open spec fn op_loop(s: PS, left: AstNodeV) -> PRes
    decreases meas(s), 3int,
{
    proof {
        lemma_adv_measure(s);
    }
    match cur(s) {
        Some(TokenV::LogicalAnd) => {
            let s1 = adv(s);
            let (ri, s2) = sp_if(s1);
            match ri {
                Err(e) => (Err(e), s2),
                Ok(Some(right)) => if meas(s2) < meas(s) {
                    op_loop(s2, AstNodeV::And(Box::new(left), Box::new(right)))
                } else {
                    arbitrary()
                },
                Ok(None) => {
                    let (rc, s3) = sp_command(s1);
                    match rc {
                        Err(e) => (Err(e), s3),
                        Ok(None) => (Err(perr("expected command after &&"@)), s3),
                        Ok(Some(right)) => if meas(s3) < meas(s) {
                            op_loop(s3, AstNodeV::And(Box::new(left), Box::new(right)))
                        } else {
                            arbitrary()
                        },
                    }
                },
            }
        },
        Some(TokenV::LogicalOr) => {
            let s1 = adv(s);
            let (r, s2) = sp_op(s1);
            match r {
                Err(e) => (Err(e), s2),
                Ok(None) => (Err(perr("Expected command after ||"@)), s2),
                Ok(Some(right)) => if meas(s2) < meas(s) {
                    op_loop(s2, AstNodeV::Or(Box::new(left), Box::new(right)))
                } else {
                    arbitrary()
                },
            }
        },
        _ => (Ok(Some(left)), s),
    }
}

/// `parse_if`: `if cond then body [elif cond then body]* [else body] fi`.
pub open spec fn sp_if(s: PS) -> PRes
    decreases meas(s), 2int,
{
    if cur(s) matches Some(t) && literal_word(t) == Some(("if"@, QuoteType::Unquoted)) {
        let s1 = adv(s);
        proof {
            lemma_adv_measure(s);
        }
        let (rc, s2) = sp_sequence(s1, true);
        match rc {
            Err(e) => (Err(e), s2),
            Ok(None) => (Err(ShellErrorV::Syntax("Expected command after 'if'"@)), s2),
            Ok(Some(cond)) => {
                let (re, s3) = sp_expect(s2, "then"@);
                match re {
                    Err(e) => (Err(e), s3),
                    Ok(()) => if meas(s3) < meas(s) {
                        let (rt, s4) = sp_sequence(s3, true);
                        match rt {
                            Err(e) => (Err(e), s4),
                            Ok(None) => (Err(ShellErrorV::Syntax("Expected body after 'then' branch"@)), s4),
                            Ok(Some(then)) => if meas(s4) < meas(s) {
                                elif_loop(s4, cond, then, Seq::empty())
                            } else {
                                arbitrary()
                            },
                        }
                    } else {
                        arbitrary()
                    },
                }
            },
        }
    } else {
        (Ok(None), s)
    }
}

pub open spec fn elif_loop(s: PS, cond: AstNodeV, then: AstNodeV, elifs: Seq<(AstNodeV, AstNodeV)>) -> PRes
    decreases meas(s), 1int,
{
    proof {
        lemma_adv_measure(s);
    }
    match cur(s) {
        Some(TokenV::Word(w)) => match first_literal(w) {
            Some((x, q)) => if x == "elif"@ && q == QuoteType::Unquoted {
                let s1 = adv(s);
                let (rc, s2) = sp_sequence(s1, true);
                match rc {
                    Err(e) => (Err(e), s2),
                    Ok(None) => (Err(perr("expected condition after elif"@)), s2),
                    Ok(Some(c)) => {
                        let (re, s3) = sp_expect(s2, "then"@);
                        match re {
                            Err(e) => (Err(e), s3),
                            Ok(()) => if meas(s3) < meas(s) {
                                let (rb, s4) = sp_sequence(s3, true);
                                match rb {
                                    Err(e) => (Err(e), s4),
                                    Ok(None) => (Err(perr("Expected body after elif then"@)), s4),
                                    Ok(Some(b)) => if meas(s4) < meas(s) {
                                        elif_loop(s4, cond, then, elifs.push((c, b)))
                                    } else {
                                        arbitrary()
                                    },
                                }
                            } else {
                                arbitrary()
                            },
                        }
                    },
                }
            } else if x == "else"@ && q == QuoteType::Unquoted {
                let s1 = adv(s);
                let (rb, s2) = sp_sequence(s1, true);
                match rb {
                    Err(e) => (Err(e), s2),
                    Ok(None) => (Err(perr("expected body after else"@)), s2),
                    Ok(Some(b)) => if_finish(s2, cond, then, elifs, Some(Box::new(b))),
                }
            } else {
                if_finish(s, cond, then, elifs, None)
            },
            None => if_finish(s, cond, then, elifs, None),
        },
        _ => if_finish(s, cond, then, elifs, None),
    }
}

/// `parse_while_or_until`: `while|until cond do body done`.
pub open spec fn sp_while(s: PS) -> PRes {
    if cur(s) matches Some(t) && literal_word(t) matches Some((x, _)) && (x == "while"@ || x == "until"@) {
        let kind = literal_word(cur(s)->Some_0)->Some_0.0;
        let s1 = adv(s);
        let (rc, s2) = sp_sequence(s1, true);
        match rc {
            Err(e) => (Err(e), s2),
            Ok(None) => (Err(perr("Expected command after '"@ + kind + "'"@)), s2),
            Ok(Some(cond)) => {
                let (re, s3) = sp_expect(s2, "do"@);
                match re {
                    Err(e) => (Err(e), s3),
                    Ok(()) => {
                        let (rb, s4) = sp_sequence(s3, true);
                        match rb {
                            Err(e) => (Err(e), s4),
                            Ok(None) => (Err(perr("Expected body after 'do' in "@ + kind + " loop"@)), s4),
                            Ok(Some(body)) => {
                                let (rd, s5) = sp_expect(s4, "done"@);
                                match rd {
                                    Err(e) => (Err(e), s5),
                                    Ok(()) => (Ok(Some(if kind == "while"@ {
                                        AstNodeV::While { condition: Box::new(cond), body: Box::new(body) }
                                    } else {
                                        AstNodeV::Until { condition: Box::new(cond), body: Box::new(body) }
                                    })), s5),
                                }
                            },
                        }
                    },
                }
            },
        }
    } else {
        (Ok(None), s)
    }
}

/// `parse_for`: `for NAME in words ; do body done`.
pub open spec fn sp_for(s: PS) -> PRes {
    if cur(s) matches Some(t) && literal_word(t) == Some(("for"@, QuoteType::Unquoted)) {
        let s1 = adv(s);
        match cur(s1) {
            Some(TokenV::Word(v)) => if v.parts.len() == 1 && v.quote == QuoteType::Unquoted {
                match v.parts[0] {
                    WordPartV::Literal(name) => {
                        let s2 = adv(s1);
                        let (re, s3) = sp_expect(s2, "in"@);
                        match re {
                            Err(e) => (Err(e), s3),
                            Ok(()) => {
                                let (rv, s4) = values_loop(s3, Seq::empty());
                                match rv {
                                    Err(e) => (Err(e), s4),
                                    Ok(vals) => {
                                        let (rd, s5) = sp_expect(s4, "do"@);
                                        match rd {
                                            Err(e) => (Err(e), s5),
                                            Ok(()) => {
                                                let (rb, s6) = sp_sequence(s5, true);
                                                match rb {
                                                    Err(e) => (Err(e), s6),
                                                    Ok(None) => (Err(perr("Expected commands in 'do' body"@)), s6),
                                                    Ok(Some(body)) => {
                                                        let (rn, s7) = sp_expect(s6, "done"@);
                                                        match rn {
                                                            Err(e) => (Err(e), s7),
                                                            Ok(()) => (Ok(Some(AstNodeV::For { var: name, values: vals, body: Box::new(body) })), s7),
                                                        }
                                                    },
                                                }
                                            },
                                        }
                                    },
                                }
                            },
                        }
                    },
                    _ => (Err(perr("Invalid loop variable"@)), s1),
                }
            } else {
                (Err(perr("Expected loop variable after 'for'"@)), s1)
            },
            _ => (Err(perr("Expected loop variable after 'for'"@)), s1),
        }
    } else {
        (Ok(None), s)
    }
}

/// `parse_command`: a function definition, a brace group, or a simple
/// command; an error inside a brace group is dropped and the simple command
/// is read from where the group stopped.
pub open spec fn sp_command(s: PS) -> PRes
    decreases meas(s), 2int,
{
    let (rf, s1) = sp_function(s);
    match rf {
        Err(e) => (Err(e), s1),
        Ok(Some(f)) => (Ok(Some(f)), s1),
        Ok(None) => {
            let (rg, s2) = sp_group(s);
            match rg {
                Ok(Some(g)) => (Ok(Some(g)), s2),
                _ => command_rest(s2),
            }
        },
    }
}

/// `parse_function`: `name ( ) { body }`, where the brace may be glued to the
/// first word of the body.
pub open spec fn sp_function(s: PS) -> PRes
    decreases meas(s), 1int,
{
    match cur(s) {
        Some(TokenV::Word(name)) => {
            let s1 = adv(s);
            if cur(s1) != Some(TokenV::OpenParen) {
                (Ok(None), s)
            } else {
                let s2 = adv(s1);
                if cur(s2) != Some(TokenV::CloseParen) {
                    (Ok(None), s)
                } else {
                    let s3 = adv(s2);
                    proof {
                        lemma_adv_measure(s);
                        lemma_adv_measure(s1);
                        lemma_adv_measure(s2);
                    }
                    match cur(s3) {
                        Some(TokenV::OpenBrace) => {
                            let (rg, s4) = sp_group(s3);
                            match rg {
                                Err(e) => (Err(e), s4),
                                Ok(None) => (Err(perr("Empty function body1"@)), s4),
                                Ok(Some(b)) => (Ok(Some(AstNodeV::FunctionDef { name, body: Box::new(b) })), s4),
                            }
                        },
                        Some(TokenV::Word(w)) => match first_literal(w) {
                            Some((content, _)) => if content.len() > 0 && content[0] == '{' {
                                let rest = content.subrange(1, content.len() as int);
                                let s3b = if rest.len() > 0 {
                                    PS { toks: split_brace(s3.toks, s3.pos, rest, w.quote), pos: s3.pos }
                                } else {
                                    s3
                                };
                                proof {
                                    if rest.len() > 0 {
                                        lemma_split_brace_measure(s3.toks, s3.pos, rest, w.quote);
                                    }
                                }
                                let (rg, s4) = sp_group(s3b);
                                match rg {
                                    Err(e) => (Err(e), s4),
                                    Ok(None) => (Err(perr("Empty function body"@)), s4),
                                    Ok(Some(b)) => (Ok(Some(AstNodeV::FunctionDef { name, body: Box::new(b) })), s4),
                                }
                            } else {
                                (Ok(None), s)
                            },
                            None => (Ok(None), s),
                        },
                        _ => (Ok(None), s),
                    }
                }
            }
        },
        _ => (Ok(None), s),
    }
}

/// `parse_group`: `{ pipeline; ... }` followed by redirections.
pub open spec fn sp_group(s: PS) -> PRes
    decreases meas(s), 0int,
{
    if cur(s) == Some(TokenV::OpenBrace) {
        proof {
            lemma_adv_measure(s);
            lemma_skip_delims_measure(adv(s));
        }
        group_loop(skip_delims(adv(s)), Seq::empty())
    } else {
        (Ok(None), s)
    }
}

pub open spec fn group_loop(s: PS, cmds: Seq<AstNodeV>) -> PRes
    decreases meas(s), 7int,
{
    match cur(s) {
        Some(TokenV::CloseBrace) => {
            let s1 = adv(s);
            if cmds.len() == 0 {
                (Err(perr("Empty command group"@)), s1)
            } else {
                group_redirs(s1, cmds, Seq::empty())
            }
        },
        None => (Err(perr("Unexpected EOF in command group"@)), s),
        _ => {
            let (rp, s2) = sp_pipeline(s);
            match rp {
                Err(e) => (Err(e), s2),
                Ok(None) => (Err(perr("Expected command in group"@)), s2),
                Ok(Some(c)) => match cur(s2) {
                    Some(TokenV::Semicolon) | Some(TokenV::Newline) => {
                        let s3 = adv(s2);
                        if meas(s3) < meas(s) {
                            group_loop(s3, cmds.push(c))
                        } else {
                            arbitrary()
                        }
                    },
                    Some(_) => (Err(perr("Expected `;`, `&`, or newline before `}`"@)), s2),
                    None => (Err(perr("Unexpected EOF"@)), s2),
                },
            }
        },
    }
}

/// `parse_command_or_if`: an optional `!`, then an `if`, a `while`/`until`,
/// a `for`, or a command (negated when `!` was read).
pub open spec fn sp_command_or_if(s: PS) -> PRes {
    let neg = cur(s) == Some(TokenV::LogicalNot);
    let s1 = if neg { adv(s) } else { s };
    let (ri, si) = sp_if(s1);
    match ri {
        Err(e) => (Err(e), si),
        Ok(Some(n)) => (Ok(Some(n)), si),
        Ok(None) => {
            let (rw, sw) = sp_while(s1);
            match rw {
                Err(e) => (Err(e), sw),
                Ok(Some(n)) => (Ok(Some(n)), sw),
                Ok(None) => {
                    let (rf, sf) = sp_for(s1);
                    match rf {
                        Err(e) => (Err(e), sf),
                        Ok(Some(n)) => (Ok(Some(n)), sf),
                        Ok(None) => {
                            let (rc, sc) = sp_command(s1);
                            match rc {
                                Err(e) => (Err(e), sc),
                                Ok(None) => (Ok(None), sc),
                                Ok(Some(c)) => (Ok(Some(if neg { AstNodeV::Not(Box::new(c)) } else { c })), sc),
                            }
                        },
                    }
                },
            }
        },
    }
}

/// `parse_background`: an optional `!`, an `if` or a command, and a trailing
/// `&` that puts it in the background (unless a reserved word follows the `&`).
pub open spec fn sp_background(s: PS) -> PRes {
    let neg = cur(s) == Some(TokenV::LogicalNot);
    let s1 = if neg { adv(s) } else { s };
    let (ri, si) = sp_if(s1);
    let (node, s2): (Result<Option<AstNodeV>, ShellErrorV>, PS) = match ri {
        Err(e) => (Err(e), si),
        Ok(Some(n)) => (Ok(Some(n)), si),
        Ok(None) => {
            let (rc, sc) = sp_command(s1);
            match rc {
                Err(e) => (Err(e), sc),
                Ok(None) => (Ok(None), sc),
                Ok(Some(c)) => (Ok(Some(if neg { AstNodeV::Not(Box::new(c)) } else { c })), sc),
            }
        },
    };
    match node {
        Ok(Some(n)) => bg_finish(n, s2),
        other => (other, s2),
    }
}

/// What follows a parsed command in `parse_background`: a trailing `&` marks
/// it as a background job.
pub open spec fn bg_finish(n: AstNodeV, s2: PS) -> PRes {
    if cur(s2) == Some(TokenV::Ampersand) {
        if !reserved_token(cur(adv(s2))) {
            let s3 = adv(s2);
            if cur(s3) == Some(TokenV::Semicolon) {
                (Err(perr("Unexpected `;` after background `&`"@)), s3)
            } else {
                (Ok(Some(AstNodeV::Background(Box::new(n)))), s3)
            }
        } else {
            (Ok(Some(AstNodeV::Background(Box::new(n)))), s2)
        }
    } else {
        (Ok(Some(n)), s2)
    }
}

/// `parse_flow_control`: `break` or `continue` with an optional level word.
pub open spec fn sp_flow_control(s: PS) -> PRes {
    match cur(s) {
        Some(TokenV::Word(w)) => if w.parts.len() == 1 && (w.parts[0] matches WordPartV::Literal(x) && (x == "break"@ || x == "continue"@)) {
            let x = w.parts[0]->Literal_0;
            let s1 = adv(s);
            let (level, s2) = match cur(s1) {
                Some(TokenV::Word(l)) => (Some(l), adv(s1)),
                _ => (None, s1),
            };
            (Ok(Some(if x == "break"@ { AstNodeV::Break(level) } else { AstNodeV::Continue(level) })), s2)
        } else {
            (Ok(None), s)
        },
        _ => (Ok(None), s),
    }
}

/// `parse`: a whole command line, which must be read up to `Eof`. When
/// tokens are left after the sequence, whatever the sequence gave, the
/// error names (in the pretty `Debug` layout) the token where reading
/// stopped; otherwise the result is the sequence's.
pub open spec fn sp_parse(s: PS) -> PRes {
    let (r, s1) = sp_sequence(s, false);
    if !at_eof(s1) {
        (Err(perr("unexpected token at end of tokens"@ + debug_opt_token(cur(s1)))), s1)
    } else {
        (r, s1)
    }
}

} // verus!
