use vstd::prelude::*;
use vstd::string::StringExecFns;
use crate::error::{ShellError, ShellErrorV};
use crate::expansion::{arith_toks_view, lemma_arith_toks_push, ArithTokV, ArithmeticToken};
use crate::lexer::flat::{
    arith_pair, arith_pair_exec, arith_single, arith_single_exec, digits_end, digits_end_exec, ident_char, ident_end,
    ident_end_exec, lemma_digits_end, lemma_ident_end, nested_arith_at, syntax,
};
use crate::parser::spec::find_char;
use crate::lexer::helpers::is_var_char;
use crate::parser::parse_assignment::find_char_index;
use crate::strings::{
    all_digits, ascii_alphabetic, ascii_digit, char_is_whitespace, is_ascii_digit, parse_u64_digits, chars_between, chars_to_string, digits_value,
    is_ascii_alphabetic, str_to_chars, string_push, substring_of, unicode_whitespace,
};

verus! {

/// A token of the word-based tokenizer.
#[derive(Debug, PartialEq)]
pub enum Token {
    Word(Vec<WordPart>),
    Assignment(String, String),
    AndIf,
    OrIf,
    Background,
    Pipe,
    Semicolon,
    Newline,
    EOF,
}

/// A piece of a word: text, a variable, or a substitution tokenized in place.
#[derive(Debug, PartialEq)]
pub enum WordPart {
    Literal(String),
    Variable(String),
    CommandSubstitution(Vec<Token>),
    ArithmeticSubstitution(Vec<ArithmeticToken>),
}

/// The value of a `Token`.
pub enum TokV {
    Word(Seq<PartV>),
    Assignment(Seq<char>, Seq<char>),
    AndIf,
    OrIf,
    Background,
    Pipe,
    Semicolon,
    Newline,
    EOF,
}

/// The value of a `WordPart`.
pub enum PartV {
    Literal(Seq<char>),
    Variable(Seq<char>),
    CommandSubstitution(Seq<TokV>),
    ArithmeticSubstitution(Seq<ArithTokV>),
}

pub open spec fn tok_view(t: Token) -> TokV
    decreases t,
{
    match t {
        Token::Word(v) => TokV::Word(parts_view(v@)),
        Token::Assignment(a, b) => TokV::Assignment(a@, b@),
        Token::AndIf => TokV::AndIf,
        Token::OrIf => TokV::OrIf,
        Token::Background => TokV::Background,
        Token::Pipe => TokV::Pipe,
        Token::Semicolon => TokV::Semicolon,
        Token::Newline => TokV::Newline,
        Token::EOF => TokV::EOF,
    }
}

pub open spec fn toks_view(v: Seq<Token>) -> Seq<TokV>
    decreases v,
{
    if v.len() == 0 {
        Seq::empty()
    } else {
        toks_view(v.subrange(0, v.len() - 1)).push(tok_view(v[v.len() - 1]))
    }
}

pub open spec fn part_view(p: WordPart) -> PartV
    decreases p,
{
    match p {
        WordPart::Literal(s) => PartV::Literal(s@),
        WordPart::Variable(s) => PartV::Variable(s@),
        WordPart::CommandSubstitution(v) => PartV::CommandSubstitution(toks_view(v@)),
        WordPart::ArithmeticSubstitution(v) => PartV::ArithmeticSubstitution(arith_toks_view(v@)),
    }
}

pub open spec fn parts_view(v: Seq<WordPart>) -> Seq<PartV>
    decreases v,
{
    if v.len() == 0 {
        Seq::empty()
    } else {
        parts_view(v.subrange(0, v.len() - 1)).push(part_view(v[v.len() - 1]))
    }
}

impl View for Token {
    type V = TokV;

    open spec fn view(&self) -> TokV {
        tok_view(*self)
    }
}

impl View for WordPart {
    type V = PartV;

    open spec fn view(&self) -> PartV {
        part_view(*self)
    }
}

pub proof fn lemma_toks_push(v: Seq<Token>, x: Token)
    ensures
        toks_view(v.push(x)) == toks_view(v).push(tok_view(x)),
{
    assert(v.push(x).subrange(0, v.len() as int) =~= v);
}

pub proof fn lemma_parts_push(v: Seq<WordPart>, x: WordPart)
    ensures
        parts_view(v.push(x)) == parts_view(v).push(part_view(x)),
{
    assert(v.push(x).subrange(0, v.len() as int) =~= v);
}

/// Reading up to the closing `end` from `i` (`extract_until_matching`),
/// with nesting `depth` and `acc` read so far: the text without the closing
/// delimiter, or an error when the input ends first; and the index reached.
/// With a one-character `end`, each `(` opens one more level; with `))`,
/// `(` opens and a lone `)` closes one, and the first `))` ends the text.
pub open spec fn extract(c: Seq<char>, i: int, end: Seq<char>, depth: int, acc: Seq<char>) -> (Result<Seq<char>, ShellErrorV>, int)
    decreases c.len() - i,
{
    if i < 0 || i >= c.len() {
        (if depth != 0 { Err(syntax("Unclosed delimiter"@)) } else { Ok(acc) }, i)
    } else {
        let ch = c[i];
        let acc2 = acc.push(ch);
        if end.len() == 1 {
            if ch == end[0] {
                if depth - 1 == 0 {
                    (Ok(acc), i + 1)
                } else {
                    extract(c, i + 1, end, depth - 1, acc2)
                }
            } else if ch == '(' {
                extract(c, i + 1, end, depth + 1, acc2)
            } else {
                extract(c, i + 1, end, depth, acc2)
            }
        } else if end == "))"@ {
            if ch == '(' {
                extract(c, i + 1, end, depth + 1, acc2)
            } else if ch == ')' {
                if i + 1 < c.len() && c[i + 1] == ')' {
                    (if depth != 0 { Err(syntax("Unclosed delimiter"@)) } else { Ok(acc) }, i + 2)
                } else {
                    extract(c, i + 1, end, depth - 1, acc2)
                }
            } else {
                extract(c, i + 1, end, depth, acc2)
            }
        } else {
            extract(c, i + 1, end, depth, acc2)
        }
    }
}

/// A character that ends a literal run of a word.
pub open spec fn literal_stop(ch: char) -> bool {
    ch == '$' || ch == '"' || ch == '\'' || unicode_whitespace(ch) || ch == '&' || ch == '|' || ch == ';' || ch == '\n'
}

/// The end of the literal run that starts at `j`.
pub open spec fn literal_end(c: Seq<char>, j: int) -> int
    decreases c.len() - j,
{
    if 0 <= j < c.len() && !literal_stop(c[j]) {
        literal_end(c, j + 1)
    } else {
        j
    }
}

/// A character that ends a word.
pub open spec fn word_break(ch: char) -> bool {
    ch == ' ' || ch == '\t' || ch == '\n' || ch == '&' || ch == '|' || ch == ';'
}

/// The parts of the word from `i` on (`parse_word_parts`), with `parts`
/// read so far: `None` when the reader never ends (a whitespace character
/// other than space, tab and newline inside a word), else the parts and the
/// index after the word, or an error.
pub open spec fn word_parts(c: Seq<char>, i: int, parts: Seq<PartV>) -> Option<Result<(Seq<PartV>, int), ShellErrorV>>
    decreases c.len(), c.len() - i,
{
    if i < 0 || i > c.len() {
        None
    } else if i == c.len() || word_break(c[i]) {
        Some(Ok((parts, i)))
    } else {
        let ch = c[i];
        if ch == '$' {
            let i1 = i + 1;
            if i1 < c.len() && c[i1] == '(' {
                let i2 = i1 + 1;
                if i2 < c.len() && c[i2] == '(' {
                    let (r, j) = extract(c, i2 + 1, "))"@, 1, Seq::empty());
                    match r {
                        Err(e) => Some(Err(e)),
                        Ok(inner) => match lx_arith_tokenize(inner) {
                            Err(e) => Some(Err(e)),
                            Ok(t) => if i < j <= c.len() {
                                word_parts(c, j, parts.push(PartV::ArithmeticSubstitution(t)))
                            } else {
                                None
                            },
                        },
                    }
                } else {
                    let (r, j) = extract(c, i2, ")"@, 1, Seq::empty());
                    match r {
                        Err(e) => Some(Err(e)),
                        Ok(inner) => if inner.len() < c.len() && i < j <= c.len() {
                            match lx_tokenize(inner) {
                                None => None,
                                Some(Err(e)) => Some(Err(e)),
                                Some(Ok(t)) => word_parts(c, j, parts.push(PartV::CommandSubstitution(t))),
                            }
                        } else {
                            None
                        },
                    }
                }
            } else if i1 < c.len() && c[i1] == '{' {
                let (r, j) = extract(c, i1 + 1, "}"@, 1, Seq::empty());
                match r {
                    Err(e) => Some(Err(e)),
                    Ok(v) => if i < j <= c.len() {
                        word_parts(c, j, parts.push(PartV::Variable(v)))
                    } else {
                        None
                    },
                }
            } else if i1 < c.len() && ident_char(c[i1]) {
                let j = ident_end(c, i1);
                if i < j <= c.len() {
                    word_parts(c, j, parts.push(PartV::Variable(c.subrange(i1, j))))
                } else {
                    None
                }
            } else {
                Some(Err(ShellErrorV::InvalidVariableSyntax))
            }
        } else if ch == '"' || ch == '\'' {
            let (r, j) = extract(c, i + 1, seq![ch], 1, Seq::empty());
            match r {
                Err(e) => Some(Err(e)),
                Ok(q) => if i < j <= c.len() {
                    word_parts(c, j, parts.push(PartV::Literal(q)))
                } else {
                    None
                },
            }
        } else {
            let j = literal_end(c, i);
            if i < j <= c.len() {
                word_parts(c, j, parts.push(PartV::Literal(c.subrange(i, j))))
            } else {
                None
            }
        }
    }
}

/// The text of a word's parts (`word_parts_to_string`).
pub open spec fn parts_text(parts: Seq<PartV>) -> Seq<char>
    decreases parts.len(),
{
    if parts.len() == 0 {
        Seq::empty()
    } else {
        parts_text(parts.drop_last()) + match parts.last() {
            PartV::Literal(s) => s,
            PartV::Variable(s) => "$"@ + s,
            PartV::CommandSubstitution(_) => "$(...)"@,
            PartV::ArithmeticSubstitution(_) => "$((...))"@,
        }
    }
}

/// A shell variable name: an ASCII letter or `_`, then letters, digits or `_`.
pub open spec fn valid_varname(s: Seq<char>) -> bool {
    s.len() > 0 && (ascii_alphabetic(s[0]) || s[0] == '_') && forall|k: int| 1 <= k < s.len() ==> ident_char(#[trigger] s[k])
}

/// `NAME=value` split at the first `=`, when `NAME` is a valid name.
pub open spec fn assignment_split(w: Seq<char>) -> Option<(Seq<char>, Seq<char>)> {
    let k = find_char(w, '=', 0);
    if k < w.len() && valid_varname(w.subrange(0, k)) {
        Some((w.subrange(0, k), w.subrange(k + 1, w.len() as int)))
    } else {
        None
    }
}

/// The token a word becomes: an assignment when its text is one, else a word.
pub open spec fn word_token(parts: Seq<PartV>) -> TokV {
    match assignment_split(parts_text(parts)) {
        Some((name, value)) => TokV::Assignment(name, value),
        None => TokV::Word(parts),
    }
}

/// Tokenizing from `i` with `toks` produced so far: `None` when the
/// tokenizer never ends.
pub open spec fn lx_run(c: Seq<char>, i: int, toks: Seq<TokV>) -> Option<Result<Seq<TokV>, ShellErrorV>>
    decreases c.len(), c.len() - i + 1,
{
    if i < 0 || i > c.len() {
        None
    } else if i == c.len() {
        Some(Ok(toks.push(TokV::EOF)))
    } else {
        let ch = c[i];
        if ch == ' ' || ch == '\t' {
            lx_run(c, i + 1, toks)
        } else if ch == '\n' {
            lx_run(c, i + 1, toks.push(TokV::Newline))
        } else if ch == '&' {
            if i + 1 < c.len() && c[i + 1] == '&' {
                lx_run(c, i + 2, toks.push(TokV::AndIf))
            } else {
                lx_run(c, i + 1, toks.push(TokV::Background))
            }
        } else if ch == '|' {
            if i + 1 < c.len() && c[i + 1] == '|' {
                lx_run(c, i + 2, toks.push(TokV::OrIf))
            } else {
                lx_run(c, i + 1, toks.push(TokV::Pipe))
            }
        } else if ch == ';' {
            lx_run(c, i + 1, toks.push(TokV::Semicolon))
        } else {
            match word_parts(c, i, Seq::empty()) {
                None => None,
                Some(Err(e)) => Some(Err(e)),
                Some(Ok((parts, j))) => if i < j <= c.len() {
                    lx_run(c, j, toks.push(word_token(parts)))
                } else {
                    None
                },
            }
        }
    }
}

/// What `tokenize` gives for the characters `c`: `None` when it never ends.
pub open spec fn lx_tokenize(c: Seq<char>) -> Option<Result<Seq<TokV>, ShellErrorV>>
    decreases c.len(), c.len() + 2,
{
    lx_run(c, 0, Seq::empty())
}

/// Reading the inside of `$(( ... ))` from `i` (`extract_nested_expression`).
pub open spec fn nested(c: Seq<char>, i: int, depth: int, e: Seq<char>) -> (int, int, Seq<char>)
    decreases c.len() - i,
{
    if 0 <= i < c.len() {
        let ch = c[i];
        let i1 = i + 1;
        if ch == '(' && i1 < c.len() && c[i1] == '(' {
            nested(c, i1 + 1, depth + 1, e.push('(').push('('))
        } else if ch == ')' && i1 < c.len() && c[i1] == ')' {
            if depth - 1 == 0 {
                (0, i1 + 1, e)
            } else {
                nested(c, i1 + 1, depth - 1, e.push(')').push(')'))
            }
        } else {
            nested(c, i1, depth, e.push(ch))
        }
    } else {
        (depth, i, e)
    }
}

/// Tokenizing an arithmetic expression from `i` (this tokenizer's
/// `tokenize_arithmetic`, which rejects a number too large for `i64`).
pub open spec fn lx_arith_run(c: Seq<char>, i: int, toks: Seq<ArithTokV>) -> Result<Seq<ArithTokV>, ShellErrorV>
    decreases c.len(), c.len() - i,
{
    if i < 0 || i >= c.len() {
        Ok(toks)
    } else {
        let ch = c[i];
        if unicode_whitespace(ch) {
            lx_arith_run(c, i + 1, toks)
        } else if ascii_digit(ch) {
            let j = digits_end(c, i);
            let num = c.subrange(i, j);
            if digits_value(num) > i64::MAX {
                Err(syntax("Invalid number: "@ + num))
            } else if i < j <= c.len() {
                lx_arith_run(c, j, toks.push(ArithTokV::Number(digits_value(num) as i64)))
            } else {
                arbitrary()
            }
        } else if ascii_alphabetic(ch) || ch == '_' {
            let j = ident_end(c, i);
            if i < j <= c.len() {
                lx_arith_run(c, j, toks.push(ArithTokV::Variable(c.subrange(i, j))))
            } else {
                arbitrary()
            }
        } else if nested_arith_at(c, i) {
            let k = if ch == '$' { i + 3 } else { i + 2 };
            let (d, j, e) = nested(c, k, 1, Seq::empty());
            if d != 0 {
                Err(syntax("Unclosed arithmetic expression"@))
            } else if e.len() < c.len() && i < j <= c.len() {
                match lx_arith_tokenize(e) {
                    Ok(sub) => lx_arith_run(c, j, toks.push(ArithTokV::Substitution(sub))),
                    Err(x) => Err(x),
                }
            } else {
                arbitrary()
            }
        } else if i + 1 < c.len() && arith_pair(ch, c[i + 1]) is Some {
            lx_arith_run(c, i + 2, toks.push(arith_pair(ch, c[i + 1])->0))
        } else {
            match arith_single(ch) {
                Some(t) => lx_arith_run(c, i + 1, toks.push(t)),
                None => Err(syntax("Unexpected character '"@ + seq![ch] + "'"@)),
            }
        }
    }
}

/// What this tokenizer's `tokenize_arithmetic` gives for `c`.
pub open spec fn lx_arith_tokenize(c: Seq<char>) -> Result<Seq<ArithTokV>, ShellErrorV>
    decreases c.len(), c.len() + 1,
{
    lx_arith_run(c, 0, Seq::empty())
}

/// The value of a text-or-error result.
pub open spec fn text_res(r: Result<String, ShellError>) -> Result<Seq<char>, ShellErrorV> {
    match r {
        Ok(t) => Ok(t@),
        Err(e) => Err(e@),
    }
}

/// Reads from `*pos` up to the closing `end`; see `extract`.
fn extract_until_matching(c: &Vec<char>, pos: &mut usize, end: &str) -> (r: Result<String, ShellError>)
    requires
        *old(pos) <= c@.len(),
    ensures
        (text_res(r), *final(pos) as int) == extract(c@, *old(pos) as int, end@, 1, Seq::empty()),
{
    let ghost start = *pos as int;
    let end_chars = str_to_chars(end);
    proof {
        reveal_strlit("))");
    }
    let single = end_chars.len() == 1;
    let is_pair = end_chars.len() == 2 && end_chars[0] == ')' && end_chars[1] == ')';
    assert(is_pair == (end@ == "))"@)) by {
        if end@ == "))"@ {
            assert(end_chars@[0] == ')' && end_chars@[1] == ')');
        }
        if is_pair {
            assert(end@ =~= "))"@);
        }
    }
    let mut result: Vec<char> = Vec::new();
    let mut depth: i128 = 1;
    while *pos < c.len()
        invariant
            start <= *pos <= c@.len(),
            start == *old(pos) as int,
            end_chars@ == end@,
            single == (end@.len() == 1),
            is_pair == (end@ == "))"@),
            -(*pos as int) <= depth <= *pos as int + 1,
            extract(c@, *pos as int, end@, depth as int, result@) == extract(c@, start, end@, 1, Seq::empty()),
        decreases c@.len() - *pos,
    {
        let i = *pos;
        let ch = c[i];
        *pos = i + 1;
        let ghost before = result@;
        result.push(ch);
        if single {
            if ch == end_chars[0] {
                depth = depth - 1;
                if depth == 0 {
                    result.pop();
                    assert(result@ =~= before);
                    return Ok(chars_to_string(result.as_slice()));
                }
            } else if ch == '(' {
                depth = depth + 1;
            }
        } else if is_pair {
            if ch == '(' {
                depth = depth + 1;
            } else if ch == ')' {
                if *pos < c.len() && c[*pos] == ')' {
                    *pos = *pos + 1;
                    result.pop();
                    assert(result@ =~= before);
                    if depth != 0 {
                        return Err(ShellError::Syntax(String::from_str("Unclosed delimiter")));
                    }
                    return Ok(chars_to_string(result.as_slice()));
                }
                depth = depth - 1;
            }
        }
    }
    if depth != 0 {
        Err(ShellError::Syntax(String::from_str("Unclosed delimiter")))
    } else {
        Ok(chars_to_string(result.as_slice()))
    }
}

pub proof fn lemma_literal_end(c: Seq<char>, j: int)
    requires
        0 <= j <= c.len(),
    ensures
        j <= literal_end(c, j) <= c.len(),
    decreases c.len() - j,
{
    if j < c.len() && !literal_stop(c[j]) {
        lemma_literal_end(c, j + 1);
    }
}

/// Reads a variable name at `*pos`.
fn parse_variable(c: &Vec<char>, pos: &mut usize) -> (r: String)
    requires
        *old(pos) <= c@.len(),
    ensures
        *final(pos) == ident_end(c@, *old(pos) as int),
        r@ == c@.subrange(*old(pos) as int, *final(pos) as int),
{
    let start = *pos;
    let mut k = start;
    while k < c.len() && is_var_char(c[k])
        invariant
            start <= k <= c@.len(),
            ident_end(c@, k as int) == ident_end(c@, start as int),
        decreases c@.len() - k,
    {
        k = k + 1;
    }
    *pos = k;
    substring_of(c, start, k)
}

fn is_literal_stop(ch: char) -> (r: bool)
    ensures
        r == literal_stop(ch),
{
    ch == '$' || ch == '"' || ch == '\'' || char_is_whitespace(ch) || ch == '&' || ch == '|' || ch == ';' || ch == '\n'
}

/// Reads a literal run at `*pos`.
fn parse_literal(c: &Vec<char>, pos: &mut usize) -> (r: String)
    requires
        *old(pos) <= c@.len(),
    ensures
        *final(pos) == literal_end(c@, *old(pos) as int),
        r@ == c@.subrange(*old(pos) as int, *final(pos) as int),
{
    let start = *pos;
    let mut k = start;
    while k < c.len() && !is_literal_stop(c[k])
        invariant
            start <= k <= c@.len(),
            literal_end(c@, k as int) == literal_end(c@, start as int),
        decreases c@.len() - k,
    {
        k = k + 1;
    }
    *pos = k;
    substring_of(c, start, k)
}

/// The text of a word's parts: literals as they are, `$name` for a
/// variable, `$(...)` and `$((...))` for substitutions.
fn word_parts_to_string(parts: &Vec<WordPart>) -> (r: String)
    ensures
        r@ == parts_text(parts_view(parts@)),
{
    let mut out = String::new();
    let mut k: usize = 0;
    while k < parts.len()
        invariant
            0 <= k <= parts@.len(),
            out@ == parts_text(parts_view(parts@.subrange(0, k as int))),
        decreases parts@.len() - k,
    {
        let ghost pre = parts@.subrange(0, k as int);
        assert(parts@.subrange(0, k + 1) =~= pre.push(parts@[k as int]));
        proof {
            lemma_parts_push(pre, parts@[k as int]);
            assert(parts_view(pre.push(parts@[k as int])).drop_last() =~= parts_view(pre));
        }
        match &parts[k] {
            WordPart::Literal(s) => {
                out.append(s.as_str());
            },
            WordPart::Variable(s) => {
                out.append("$");
                out.append(s.as_str());
                proof {
                    reveal_strlit("$");
                }
            },
            WordPart::CommandSubstitution(_) => {
                out.append("$(...)");
            },
            WordPart::ArithmeticSubstitution(_) => {
                out.append("$((...))");
            },
        }
        k = k + 1;
    }
    assert(parts@.subrange(0, k as int) =~= parts@);
    out
}

/// `s` is a valid variable name.
fn is_valid_varname(s: &Vec<char>) -> (r: bool)
    ensures
        r == valid_varname(s@),
{
    if s.len() == 0 {
        return false;
    }
    if !(is_ascii_alphabetic(s[0]) || s[0] == '_') {
        return false;
    }
    let mut k: usize = 1;
    while k < s.len()
        invariant
            1 <= k <= s@.len(),
            forall|j: int| 1 <= j < k ==> ident_char(#[trigger] s@[j]),
        decreases s@.len() - k,
    {
        if !is_var_char(s[k]) {
            return false;
        }
        k = k + 1;
    }
    true
}

/// `NAME=value` split at the first `=`, when `NAME` is a valid name.
fn parse_assignment(word: &str) -> (r: Option<(String, String)>)
    ensures
        match r {
            Some((n, v)) => assignment_split(word@) == Some((n@, v@)),
            None => assignment_split(word@) is None,
        },
{
    let w = str_to_chars(word);
    let k = find_char_index(&w, '=');
    if k < w.len() {
        let name = chars_between(&w, 0, k);
        if is_valid_varname(&name) {
            return Some((substring_of(&w, 0, k), substring_of(&w, k + 1, w.len())));
        }
    }
    None
}

/// The value of what `tokenize` gives back.
pub open spec fn lx_res_view(r: Result<Vec<Token>, ShellError>) -> Result<Seq<TokV>, ShellErrorV> {
    match r {
        Ok(v) => Ok(toks_view(v@)),
        Err(e) => Err(e@),
    }
}

/// The value of what `tokenize_arithmetic` gives back.
pub open spec fn lx_arith_res_view(r: Result<Vec<ArithmeticToken>, ShellError>) -> Result<Seq<ArithTokV>, ShellErrorV> {
    match r {
        Ok(v) => Ok(arith_toks_view(v@)),
        Err(e) => Err(e@),
    }
}

fn push_part(parts: &mut Vec<WordPart>, p: WordPart)
    ensures
        parts_view(final(parts)@) == parts_view(old(parts)@).push(p@),
{
    let ghost p0 = parts@;
    let ghost pv = p;
    parts.push(p);
    proof {
        lemma_parts_push(p0, pv);
    }
}

fn push_tok(toks: &mut Vec<Token>, t: Token)
    ensures
        toks_view(final(toks)@) == toks_view(old(toks)@).push(t@),
{
    let ghost t0 = toks@;
    let ghost tv = t;
    toks.push(t);
    proof {
        lemma_toks_push(t0, tv);
    }
}

/// Reads the parts of the word at `*pos`; see `word_parts`. `None` where
/// the reader would never end.
fn parse_word_parts(c: &Vec<char>, pos: &mut usize) -> (r: Option<Result<Vec<WordPart>, ShellError>>)
    requires
        *old(pos) <= c@.len(),
    ensures
        match word_parts(c@, *old(pos) as int, Seq::empty()) {
            Some(Ok((p, j))) => r matches Some(Ok(v)) && parts_view(v@) == p && *final(pos) == j,
            Some(Err(e)) => r matches Some(Err(x)) && x@ == e,
            None => r is None,
        },
    decreases c@.len(), 0int,
{
    let ghost start = *pos as int;
    let mut parts: Vec<WordPart> = Vec::new();
    assert(parts_view(parts@) =~= Seq::empty());
    while *pos < c.len() && !(c[*pos] == ' ' || c[*pos] == '\t' || c[*pos] == '\n' || c[*pos] == '&' || c[*pos] == '|' || c[*pos] == ';')
        invariant
            *pos <= c@.len(),
            start == *old(pos) as int,
            word_parts(c@, *pos as int, parts_view(parts@)) == word_parts(c@, start, Seq::empty()),
        decreases c@.len() - *pos,
    {
        let i = *pos;
        let ch = c[i];
        if ch == '$' {
            if i + 1 < c.len() && c[i + 1] == '(' {
                if i + 2 < c.len() && c[i + 2] == '(' {
                    let mut j = i + 3;
                    let inner = match extract_until_matching(c, &mut j, "))") {
                        Ok(x) => x,
                        Err(e) => {
                            return Some(Err(e));
                        },
                    };
                    let t = match tokenize_arithmetic(inner.as_str()) {
                        Ok(t) => t,
                        Err(e) => {
                            return Some(Err(e));
                        },
                    };
                    if !(i < j && j <= c.len()) {
                        return None;
                    }
                    push_part(&mut parts, WordPart::ArithmeticSubstitution(t));
                    *pos = j;
                } else {
                    let mut j = i + 2;
                    let inner = match extract_until_matching(c, &mut j, ")") {
                        Ok(x) => x,
                        Err(e) => {
                            return Some(Err(e));
                        },
                    };
                    let inner_chars = str_to_chars(inner.as_str());
                    if !(inner_chars.len() < c.len() && i < j && j <= c.len()) {
                        return None;
                    }
                    let t = match try_tokenize_chars(&inner_chars) {
                        Some(Ok(t)) => t,
                        Some(Err(e)) => {
                            return Some(Err(e));
                        },
                        None => {
                            return None;
                        },
                    };
                    push_part(&mut parts, WordPart::CommandSubstitution(t));
                    *pos = j;
                }
            } else if i + 1 < c.len() && c[i + 1] == '{' {
                let mut j = i + 2;
                let var = match extract_until_matching(c, &mut j, "}") {
                    Ok(x) => x,
                    Err(e) => {
                        return Some(Err(e));
                    },
                };
                if !(i < j && j <= c.len()) {
                    return None;
                }
                push_part(&mut parts, WordPart::Variable(var));
                *pos = j;
            } else if i + 1 < c.len() && is_var_char(c[i + 1]) {
                *pos = i + 1;
                let var = parse_variable(c, pos);
                proof {
                    crate::lexer::flat::lemma_ident_end(c@, i + 2);
                }
                push_part(&mut parts, WordPart::Variable(var));
            } else {
                return Some(Err(ShellError::InvalidVariableSyntax));
            }
        } else if ch == '"' || ch == '\'' {
            let mut quote = String::new();
            string_push(&mut quote, ch);
            assert(quote@ =~= seq![ch]);
            let mut j = i + 1;
            let quoted = match extract_until_matching(c, &mut j, quote.as_str()) {
                Ok(x) => x,
                Err(e) => {
                    return Some(Err(e));
                },
            };
            if !(i < j && j <= c.len()) {
                return None;
            }
            push_part(&mut parts, WordPart::Literal(quoted));
            *pos = j;
        } else {
            proof {
                lemma_literal_end(c@, i as int);
            }
            let literal = parse_literal(c, pos);
            if *pos == i {
                return None;
            }
            push_part(&mut parts, WordPart::Literal(literal));
        }
    }
    Some(Ok(parts))
}

/// Splits a command line into tokens: `&&`, `||`, `&`, `|`, `;`, newlines,
/// and words (a word whose text is `NAME=value` becomes an assignment),
/// then `EOF`. Within a word, `$name`, `${name}`, `$( )` and `$(( ))` and
/// quoted text are read as parts; substitutions are tokenized in turn.
/// `lx_tokenize` states the result; where it is `None` (a whitespace
/// character other than space, tab or newline inside a word) the tokenizer
/// would never return, and `tokenize_ends` tells those inputs apart.
pub fn tokenize(input: &str) -> (r: Result<Vec<Token>, ShellError>)
    requires
        lx_tokenize(input@) is Some,
    ensures
        lx_tokenize(input@) == Some(lx_res_view(r)),
{
    let c = str_to_chars(input);
    match try_tokenize_chars(&c) {
        Some(r) => r,
        None => {
            proof {
                assert(false);
            }
            Ok(Vec::new())
        },
    }
}

/// Whether `tokenize` returns on `input`, that is, whether its `requires`
/// holds.
pub fn tokenize_ends(input: &str) -> (r: bool)
    ensures
        r == (lx_tokenize(input@) is Some),
{
    let c = str_to_chars(input);
    match try_tokenize_chars(&c) {
        Some(_) => true,
        None => false,
    }
}

fn try_tokenize_chars(c: &Vec<char>) -> (r: Option<Result<Vec<Token>, ShellError>>)
    ensures
        match r {
            Some(x) => lx_tokenize(c@) == Some(lx_res_view(x)),
            None => lx_tokenize(c@) is None,
        },
    decreases c@.len(), 1int,
{
    let mut tokens: Vec<Token> = Vec::new();
    let mut i: usize = 0;
    assert(toks_view(tokens@) =~= Seq::empty());
    while i < c.len()
        invariant
            i <= c@.len(),
            lx_run(c@, i as int, toks_view(tokens@)) == lx_tokenize(c@),
        decreases c@.len() - i,
    {
        let ch = c[i];
        if ch == ' ' || ch == '\t' {
            i = i + 1;
        } else if ch == '\n' {
            push_tok(&mut tokens, Token::Newline);
            i = i + 1;
        } else if ch == '&' {
            if i + 1 < c.len() && c[i + 1] == '&' {
                push_tok(&mut tokens, Token::AndIf);
                i = i + 2;
            } else {
                push_tok(&mut tokens, Token::Background);
                i = i + 1;
            }
        } else if ch == '|' {
            if i + 1 < c.len() && c[i + 1] == '|' {
                push_tok(&mut tokens, Token::OrIf);
                i = i + 2;
            } else {
                push_tok(&mut tokens, Token::Pipe);
                i = i + 1;
            }
        } else if ch == ';' {
            push_tok(&mut tokens, Token::Semicolon);
            i = i + 1;
        } else {
            let mut j = i;
            let word_parts = match parse_word_parts(c, &mut j) {
                Some(Ok(p)) => p,
                Some(Err(e)) => {
                    return Some(Err(e));
                },
                None => {
                    return None;
                },
            };
            if !(i < j && j <= c.len()) {
                return None;
            }
            let word_str = word_parts_to_string(&word_parts);
            match parse_assignment(word_str.as_str()) {
                Some((name, value)) => {
                    push_tok(&mut tokens, Token::Assignment(name, value));
                },
                None => {
                    push_tok(&mut tokens, Token::Word(word_parts));
                },
            }
            i = j;
        }
    }
    push_tok(&mut tokens, Token::EOF);
    Some(Ok(tokens))
}

pub proof fn lemma_nested(c: Seq<char>, i: int, depth: int, e: Seq<char>)
    requires
        0 <= i <= c.len(),
        depth >= 1,
    ensures
        ({
            let (d, j, e2) = nested(c, i, depth, e);
            &&& i <= j <= c.len()
            &&& (d == 0 ==> j >= i + 2 && e2.len() + 2 <= e.len() + (j - i))
            &&& e2.len() <= e.len() + (j - i)
        }),
    decreases c.len() - i,
{
    if i < c.len() {
        let ch = c[i];
        if ch == '(' && i + 1 < c.len() && c[i + 1] == '(' {
            lemma_nested(c, i + 2, depth + 1, e.push('(').push('('));
        } else if ch == ')' && i + 1 < c.len() && c[i + 1] == ')' {
            if depth - 1 != 0 {
                lemma_nested(c, i + 2, depth - 1, e.push(')').push(')'));
            }
        } else {
            lemma_nested(c, i + 1, depth, e.push(ch));
        }
    }
}

/// Reads the inside of `$(( ... ))` from `*i`; fails when the closing `))`
/// is missing. See `nested`.
fn extract_nested_expression(chars: &Vec<char>, i: &mut usize) -> (r: Result<String, ShellError>)
    requires
        *old(i) <= chars@.len(),
    ensures
        *final(i) == nested(chars@, *old(i) as int, 1, Seq::empty()).1,
        nested(chars@, *old(i) as int, 1, Seq::empty()).0 != 0 ==> (r matches Err(x) && x@ == syntax("Unclosed arithmetic expression"@)),
        nested(chars@, *old(i) as int, 1, Seq::empty()).0 == 0 ==> (r matches Ok(t) && t@ == nested(chars@, *old(i) as int, 1, Seq::empty()).2),
{
    let ghost start = *i as int;
    let mut depth: usize = 1;
    let mut expr: Vec<char> = Vec::new();
    while *i < chars.len()
        invariant
            start <= *i <= chars@.len(),
            start == *old(i) as int,
            1 <= depth <= *i + 1,
            nested(chars@, *i as int, depth as int, expr@) == nested(chars@, start, 1, Seq::empty()),
        decreases chars@.len() - *i,
    {
        let k = *i;
        let c = chars[k];
        *i = k + 1;
        if c == '(' && *i < chars.len() && chars[*i] == '(' {
            depth = depth + 1;
            expr.push(c);
            expr.push(chars[*i]);
            *i = *i + 1;
            continue;
        }
        if c == ')' && *i < chars.len() && chars[*i] == ')' {
            if depth - 1 == 0 {
                *i = *i + 1;
                return Ok(chars_to_string(expr.as_slice()));
            }
            depth = depth - 1;
            expr.push(c);
            expr.push(chars[*i]);
            *i = *i + 1;
            continue;
        }
        expr.push(c);
    }
    Err(ShellError::Syntax(String::from_str("Unclosed arithmetic expression")))
}

/// Splits the text of an arithmetic expansion into tokens, like the flat
/// tokenizer's `tokenize_arithmetic`, but a number too large for `i64` is
/// an error, and so is a character that starts no token (named in the message).
pub fn tokenize_arithmetic(input: &str) -> (r: Result<Vec<ArithmeticToken>, ShellError>)
    ensures
        lx_arith_res_view(r) == lx_arith_tokenize(input@),
{
    let c = str_to_chars(input);
    arith_chars(&c)
}

fn arith_chars(c: &Vec<char>) -> (r: Result<Vec<ArithmeticToken>, ShellError>)
    ensures
        lx_arith_res_view(r) == lx_arith_tokenize(c@),
    decreases c@.len(),
{
    let mut tokens: Vec<ArithmeticToken> = Vec::new();
    let mut i: usize = 0;
    while i < c.len()
        invariant
            0 <= i <= c@.len(),
            lx_arith_run(c@, i as int, arith_toks_view(tokens@)) == lx_arith_tokenize(c@),
        decreases c@.len() - i,
    {
        let ch = c[i];
        let ghost t0 = tokens@;
        if char_is_whitespace(ch) {
            i = i + 1;
        } else if is_ascii_digit(ch) {
            let j = digits_end_exec(c, i);
            proof {
                lemma_digits_end(c@, i as int);
                lemma_digits_end(c@, i + 1);
            }
            let num = chars_between(c, i, j);
            assert(all_digits(num@));
            let parsed = parse_u64_digits(&num);
            let n: u64 = match parsed {
                Some(n) => n,
                None => 9223372036854775808u64,
            };
            if n > 9223372036854775807u64 {
                let msg = String::from_str("Invalid number: ");
                let num_str = chars_to_string(num.as_slice());
                return Err(ShellError::Syntax(msg.concat(num_str.as_str())));
            }
            let ghost tv = ArithmeticToken::Number(n as i64);
            tokens.push(ArithmeticToken::Number(n as i64));
            proof {
                lemma_arith_toks_push(t0, tv);
            }
            i = j;
        } else if is_ascii_alphabetic(ch) || ch == '_' {
            let j = ident_end_exec(c, i);
            proof {
                lemma_ident_end(c@, i + 1);
            }
            let var = substring_of(c, i, j);
            let ghost tv = ArithmeticToken::Variable(var);
            tokens.push(ArithmeticToken::Variable(var));
            proof {
                lemma_arith_toks_push(t0, tv);
            }
            i = j;
        } else if (c.len() - i >= 3 && ch == '$' && c[i + 1] == '(' && c[i + 2] == '(') || (c.len() - i >= 2 && ch == '(' && c[i + 1] == '(') {
            let mut k = if ch == '$' { i + 3 } else { i + 2 };
            let ghost k0 = k as int;
            proof {
                lemma_nested(c@, k0, 1, Seq::empty());
            }
            let inner = match extract_nested_expression(c, &mut k) {
                Ok(x) => x,
                Err(e) => {
                    return Err(e);
                },
            };
            let inner_chars = str_to_chars(inner.as_str());
            let sub = match arith_chars(&inner_chars) {
                Ok(sub) => sub,
                Err(x) => {
                    return Err(x);
                },
            };
            let ghost tv = ArithmeticToken::Substitution(sub);
            tokens.push(ArithmeticToken::Substitution(sub));
            proof {
                lemma_arith_toks_push(t0, tv);
            }
            i = k;
        } else {
            let pair = if i + 1 < c.len() { arith_pair_exec(ch, c[i + 1]) } else { None };
            match pair {
                Some(t) => {
                    let ghost tv = t;
                    tokens.push(t);
                    proof {
                        lemma_arith_toks_push(t0, tv);
                    }
                    i = i + 2;
                },
                None => {
                    match arith_single_exec(ch) {
                        Some(t) => {
                            let ghost tv = t;
                            tokens.push(t);
                            proof {
                                lemma_arith_toks_push(t0, tv);
                            }
                            i = i + 1;
                        },
                        None => {
                            let mut msg = String::from_str("Unexpected character '");
                            string_push(&mut msg, ch);
                            let msg = msg.concat("'");
                            assert(msg@ =~= "Unexpected character '"@ + seq![ch] + "'"@);
                            return Err(ShellError::Syntax(msg));
                        },
                    }
                },
            }
        }
    }
    Ok(tokens)
}

} // verus!

verus! {

/// No token of `s` is `EOF`.
pub open spec fn no_eof(s: Seq<TokV>) -> bool {
    forall|k: int| 0 <= k < s.len() ==> !(#[trigger] s[k] is EOF)
}

pub proof fn lemma_lx_run_ends_with_eof(c: Seq<char>, i: int, toks: Seq<TokV>)
    requires
        0 <= i <= c.len(),
        no_eof(toks),
    ensures
        lx_run(c, i, toks) matches Some(Ok(t)) ==> t.len() > 0 && t.last() is EOF && no_eof(t.drop_last()),
    decreases c.len() - i,
{
    if i == c.len() {
        assert(toks.push(TokV::EOF).drop_last() =~= toks);
    } else {
        let ch = c[i];
        let next: Option<(int, TokV)> = if ch == ' ' || ch == '\t' {
            None
        } else if ch == '\n' {
            Some((i + 1, TokV::Newline))
        } else if ch == '&' {
            if i + 1 < c.len() && c[i + 1] == '&' { Some((i + 2, TokV::AndIf)) } else { Some((i + 1, TokV::Background)) }
        } else if ch == '|' {
            if i + 1 < c.len() && c[i + 1] == '|' { Some((i + 2, TokV::OrIf)) } else { Some((i + 1, TokV::Pipe)) }
        } else if ch == ';' {
            Some((i + 1, TokV::Semicolon))
        } else {
            None
        };
        if ch == ' ' || ch == '\t' {
            lemma_lx_run_ends_with_eof(c, i + 1, toks);
        } else if next is Some {
            let (j, t) = next->0;
            assert forall|k: int| 0 <= k < toks.push(t).len() implies !(#[trigger] toks.push(t)[k] is EOF) by {
                if k < toks.len() {
                    assert(toks.push(t)[k] == toks[k]);
                }
            }
            lemma_lx_run_ends_with_eof(c, j, toks.push(t));
        } else {
            match word_parts(c, i, Seq::empty()) {
                Some(Ok((parts, j))) => {
                    if i < j <= c.len() {
                        let t = word_token(parts);
                        assert forall|k: int| 0 <= k < toks.push(t).len() implies !(#[trigger] toks.push(t)[k] is EOF) by {
                            if k < toks.len() {
                                assert(toks.push(t)[k] == toks[k]);
                            }
                        }
                        lemma_lx_run_ends_with_eof(c, j, toks.push(t));
                    }
                },
                _ => {},
            }
        }
    }
}

/// A command line that tokenizes gives a token list that ends with `EOF`,
/// and `EOF` nowhere else.
pub proof fn law_lx_tokens_end_with_eof(c: Seq<char>)
    ensures
        lx_tokenize(c) matches Some(Ok(t)) ==> t.len() > 0 && t.last() is EOF && no_eof(t.drop_last()),
{
    lemma_lx_run_ends_with_eof(c, 0, Seq::empty());
}

} // verus!

verus! {

/// Wherever a `/`, `%` or `*` stands that no `=` follows, this arithmetic
/// tokenizer reads it as Divide, Modulo or Multiply and goes on after it.
pub proof fn law_lx_arith_single_operators(c: Seq<char>, i: int, toks: Seq<ArithTokV>)
    requires
        0 <= i < c.len(),
        i + 1 == c.len() || c[i + 1] != '=',
    ensures
        c[i] == '/' ==> lx_arith_run(c, i, toks) == lx_arith_run(c, i + 1, toks.push(ArithTokV::Divide)),
        c[i] == '%' ==> lx_arith_run(c, i, toks) == lx_arith_run(c, i + 1, toks.push(ArithTokV::Modulo)),
        c[i] == '*' ==> lx_arith_run(c, i, toks) == lx_arith_run(c, i + 1, toks.push(ArithTokV::Multiply)),
{
}

/// Two numbers with `/` (or `%`) between them tokenize as the first number,
/// Divide (or Modulo), the second number.
pub proof fn law_lx_arith_divide_numbers(a: Seq<char>, b: Seq<char>, op: char)
    requires
        a.len() > 0,
        b.len() > 0,
        all_digits(a),
        all_digits(b),
        digits_value(a) <= i64::MAX,
        digits_value(b) <= i64::MAX,
        op == '/' || op == '%',
    ensures
        lx_arith_tokenize(a + seq![op] + b) == Ok::<Seq<ArithTokV>, ShellErrorV>(seq![
            ArithTokV::Number(digits_value(a) as i64),
            crate::lexer::flat::div_mod_token(op),
            ArithTokV::Number(digits_value(b) as i64),
        ]),
{
    let c = a + seq![op] + b;
    let n = a.len() as int;
    assert(c.subrange(0, n) =~= a);
    assert(c[n] == op);
    assert(c.subrange(n + 1, c.len() as int) =~= b);
    assert(c[0] == a[0]);
    crate::lexer::flat::lemma_digits_end_at(c, 0, a);
    crate::lexer::flat::lemma_digits_end_at(c, n + 1, b);
    assert(c[n + 1] == b[0]);
    let t1 = Seq::<ArithTokV>::empty().push(ArithTokV::Number(digits_value(a) as i64));
    assert(lx_arith_run(c, 0, Seq::empty()) == lx_arith_run(c, n, t1));
    let t2 = t1.push(crate::lexer::flat::div_mod_token(op));
    assert(lx_arith_run(c, n, t1) == lx_arith_run(c, n + 1, t2));
    let t3 = t2.push(ArithTokV::Number(digits_value(b) as i64));
    assert(lx_arith_run(c, n + 1, t2) == lx_arith_run(c, c.len() as int, t3));
    assert(t3 =~= seq![
        ArithTokV::Number(digits_value(a) as i64),
        crate::lexer::flat::div_mod_token(op),
        ArithTokV::Number(digits_value(b) as i64),
    ]);
}

} // verus!

verus! {

proof fn lemma_literal_end_at(c: Seq<char>, j: int, a: Seq<char>)
    requires
        0 <= j,
        j + a.len() < c.len(),
        c.subrange(j, j + a.len()) == a,
        forall|k: int| 0 <= k < a.len() ==> !literal_stop(#[trigger] a[k]),
        literal_stop(c[j + a.len()]),
    ensures
        literal_end(c, j) == j + a.len(),
    decreases a.len(),
{
    if a.len() > 0 {
        assert(c[j] == a[0]);
        let a2 = a.subrange(1, a.len() as int);
        assert(c.subrange(j + 1, j + 1 + a2.len()) =~= a2);
        assert forall|k: int| 0 <= k < a2.len() implies !literal_stop(#[trigger] a2[k]) by {
            assert(a2[k] == a[k + 1]);
        }
        lemma_literal_end_at(c, j + 1, a2);
    }
}

proof fn lemma_ident_end_at(c: Seq<char>, j: int, a: Seq<char>)
    requires
        0 <= j,
        j + a.len() == c.len(),
        c.subrange(j, j + a.len()) == a,
        forall|k: int| 0 <= k < a.len() ==> ident_char(#[trigger] a[k]),
    ensures
        ident_end(c, j) == c.len(),
    decreases a.len(),
{
    if a.len() > 0 {
        assert(c[j] == a[0]);
        let a2 = a.subrange(1, a.len() as int);
        assert(c.subrange(j + 1, j + 1 + a2.len()) =~= a2);
        assert forall|k: int| 0 <= k < a2.len() implies ident_char(#[trigger] a2[k]) by {
            assert(a2[k] == a[k + 1]);
        }
        lemma_ident_end_at(c, j + 1, a2);
    }
}

/// `NAME=$VAR` on its own tokenizes as the assignment of the text `$VAR`
/// (the dollar sign kept) to `NAME`, then `EOF`.
pub proof fn law_lx_assignment_keeps_variable_text(name: Seq<char>, var: Seq<char>)
    requires
        valid_varname(name),
        var.len() > 0,
        forall|k: int| 0 <= k < var.len() ==> ident_char(#[trigger] var[k]),
    ensures
        lx_tokenize(name + seq!['='] + seq!['$'] + var) == Some(
            Ok::<Seq<TokV>, ShellErrorV>(seq![TokV::Assignment(name, seq!['$'] + var), TokV::EOF]),
        ),
{
    let c = name + seq!['='] + seq!['$'] + var;
    let n = name.len() as int;
    let lit = name.push('=');
    assert(c.subrange(0, n + 1) =~= lit);
    assert(c[n + 1] == '$');
    assert(c.subrange(n + 2, c.len() as int) =~= var);
    assert(c[n + 2] == var[0]);
    assert forall|k: int| 0 <= k < lit.len() implies !literal_stop(#[trigger] lit[k]) by {
        if k < n {
            assert(lit[k] == name[k]);
            assert(ident_char(name[k]) || ascii_alphabetic(name[k]) || name[k] == '_') by {
                if k > 0 {
                    assert(ident_char(name[k]));
                }
            }
        }
    }
    lemma_literal_end_at(c, 0, lit);
    lemma_ident_end_at(c, n + 2, var);
    assert(c[0] == name[0]);
    assert(!word_break(c[0]));
    let p1 = Seq::<PartV>::empty().push(PartV::Literal(lit));
    assert(word_parts(c, 0, Seq::empty()) == word_parts(c, n + 1, p1));
    let p2 = p1.push(PartV::Variable(var));
    assert(word_parts(c, n + 1, p1) == word_parts(c, c.len() as int, p2));
    assert(word_parts(c, c.len() as int, p2) == Some(Ok::<(Seq<PartV>, int), ShellErrorV>((p2, c.len() as int))));
    // The text of the word and where its `=` is.
    assert(p1.drop_last() =~= Seq::<PartV>::empty());
    assert(parts_text(Seq::<PartV>::empty()) == Seq::<char>::empty());
    assert(parts_text(p1) =~= lit);
    assert(p2.drop_last() =~= p1);
    reveal_strlit("$");
    assert("$"@ =~= seq!['$']);
    let w = lit + (seq!['$'] + var);
    assert(parts_text(p2) =~= w);
    assert(w.subrange(0, n) =~= name);
    assert(w[n] == '=');
    assert(find_char(w, '=', 0) == n) by {
        lemma_find_char_prefix(w, name, 0);
    }
    assert(w.subrange(n + 1, w.len() as int) =~= seq!['$'] + var);
    assert(word_token(p2) == TokV::Assignment(name, seq!['$'] + var));
    assert(lx_run(c, 0, Seq::empty()) == lx_run(c, c.len() as int, seq![word_token(p2)]));
    assert(seq![word_token(p2)].push(TokV::EOF) =~= seq![TokV::Assignment(name, seq!['$'] + var), TokV::EOF]);
}

proof fn lemma_find_char_prefix(w: Seq<char>, name: Seq<char>, i: int)
    requires
        0 <= i <= name.len(),
        name.len() < w.len(),
        w.subrange(0, name.len() as int) == name,
        w[name.len() as int] == '=',
        forall|k: int| i <= k < name.len() ==> name[k] != '=',
    ensures
        find_char(w, '=', i) == name.len(),
    decreases name.len() - i,
{
    if i < name.len() {
        assert(w[i] == name[i]);
        lemma_find_char_prefix(w, name, i + 1);
    }
}

} // verus!
