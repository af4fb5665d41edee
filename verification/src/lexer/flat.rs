use vstd::prelude::*;
use vstd::string::StringExecFns;
use crate::error::{ShellError, ShellErrorV};
use crate::expansion::{arith_toks_view, lemma_arith_toks_push, ArithTokV, ArithmeticToken};
use crate::strings::{
    all_digits, ascii_alphabetic, ascii_alphanumeric, ascii_digit, char_is_whitespace, chars_between, chars_to_string,
    digits_value, is_ascii_alphabetic, is_ascii_alphanumeric, is_ascii_digit, parse_u64_digits, str_to_chars,
    substring_of, unicode_whitespace,
};

verus! {

/// A piece of a word of the flat token stream.
#[derive(Debug, PartialEq)]
pub enum WordPart {
    Literal(String),
    Variable(String),
    CommandSubstitution(Vec<Token>),
    ArithmeticSubstitution(Vec<ArithmeticToken>),
}

/// A token of the flat token stream, where substitutions are tokenized in place.
#[derive(Debug, PartialEq)]
pub enum Token {
    Word(Vec<WordPart>),
    Variable(String),
    CommandSubstitution(Vec<Token>),
    ArithmeticSubstitution(Vec<ArithmeticToken>),
    Assignment(String, String),
    AndIf,
    OrIf,
    Pipe,
    Amp,
    Semi,
    Newline,
    LParen,
    RParen,
    LBrace,
    RBrace,
    Less,
    Great,
    DLess,
    DGreat,
    IO(u8),
    Bang,
    HereString,
    Eof,
    RedirectDuplicateOut,
    RedirectDuplicateIn,
}

/// The value of a `WordPart`.
pub enum PartV {
    Literal(Seq<char>),
    Variable(Seq<char>),
    CommandSubstitution(Seq<TokV>),
    ArithmeticSubstitution(Seq<ArithTokV>),
}

/// The value of a `Token`.
pub enum TokV {
    Word(Seq<PartV>),
    Variable(Seq<char>),
    CommandSubstitution(Seq<TokV>),
    ArithmeticSubstitution(Seq<ArithTokV>),
    Assignment(Seq<char>, Seq<char>),
    AndIf,
    OrIf,
    Pipe,
    Amp,
    Semi,
    Newline,
    LParen,
    RParen,
    LBrace,
    RBrace,
    Less,
    Great,
    DLess,
    DGreat,
    IO(u8),
    Bang,
    HereString,
    Eof,
    RedirectDuplicateOut,
    RedirectDuplicateIn,
}

pub open spec fn part_view(p: WordPart) -> PartV
    decreases p,
{
    match p {
        WordPart::Literal(s) => PartV::Literal(s@),
        WordPart::Variable(s) => PartV::Variable(s@),
        WordPart::CommandSubstitution(v) => PartV::CommandSubstitution(toks_view(v@)),
        WordPart::ArithmeticSubstitution(v) => PartV::ArithmeticSubstitution(crate::expansion::arith_toks_view(v@)),
    }
}

pub open spec fn parts_view(v: Seq<WordPart>) -> Seq<PartV>
    decreases v,
{
    if v.len() == 0 {
        Seq::empty()
    } else {
        parts_view(v.subrange(0, v.len() - 1)).push(part_view(v[v.len() - 1]))
    }
}

pub open spec fn tok_view(t: Token) -> TokV
    decreases t,
{
    match t {
        Token::Word(v) => TokV::Word(parts_view(v@)),
        Token::Variable(s) => TokV::Variable(s@),
        Token::CommandSubstitution(v) => TokV::CommandSubstitution(toks_view(v@)),
        Token::ArithmeticSubstitution(v) => TokV::ArithmeticSubstitution(crate::expansion::arith_toks_view(v@)),
        Token::Assignment(a, b) => TokV::Assignment(a@, b@),
        Token::AndIf => TokV::AndIf,
        Token::OrIf => TokV::OrIf,
        Token::Pipe => TokV::Pipe,
        Token::Amp => TokV::Amp,
        Token::Semi => TokV::Semi,
        Token::Newline => TokV::Newline,
        Token::LParen => TokV::LParen,
        Token::RParen => TokV::RParen,
        Token::LBrace => TokV::LBrace,
        Token::RBrace => TokV::RBrace,
        Token::Less => TokV::Less,
        Token::Great => TokV::Great,
        Token::DLess => TokV::DLess,
        Token::DGreat => TokV::DGreat,
        Token::IO(n) => TokV::IO(n),
        Token::Bang => TokV::Bang,
        Token::HereString => TokV::HereString,
        Token::Eof => TokV::Eof,
        Token::RedirectDuplicateOut => TokV::RedirectDuplicateOut,
        Token::RedirectDuplicateIn => TokV::RedirectDuplicateIn,
    }
}

pub open spec fn toks_view(v: Seq<Token>) -> Seq<TokV>
    decreases v,
{
    if v.len() == 0 {
        Seq::empty()
    } else {
        toks_view(v.subrange(0, v.len() - 1)).push(tok_view(v[v.len() - 1]))
    }
}

impl View for Token {
    type V = TokV;

    open spec fn view(&self) -> TokV {
        tok_view(*self)
    }
}

impl View for WordPart {
    type V = PartV;

    open spec fn view(&self) -> PartV {
        part_view(*self)
    }
}

pub proof fn lemma_toks_push(v: Seq<Token>, x: Token)
    ensures
        toks_view(v.push(x)) == toks_view(v).push(tok_view(x)),
{
    assert(v.push(x).subrange(0, v.len() as int) =~= v);
}

pub proof fn lemma_parts_push(v: Seq<WordPart>, x: WordPart)
    ensures
        parts_view(v.push(x)) == parts_view(v).push(part_view(x)),
{
    assert(v.push(x).subrange(0, v.len() as int) =~= v);
}

/// Reading the inside of `$(( ... ))` from `i` with nesting `depth`, having
/// collected `e`: the nesting left (0 once the closing `))` was found), the
/// index reached, and the text collected. Nested `((` and `))` are kept.
pub open spec fn scan_arith(c: Seq<char>, i: int, depth: int, e: Seq<char>) -> (int, int, Seq<char>)
    decreases c.len() - i,
{
    if 0 <= i && i + 1 < c.len() {
        if c[i] == '(' && c[i + 1] == '(' {
            scan_arith(c, i + 2, depth + 1, e.push('(').push('('))
        } else if c[i] == ')' && c[i + 1] == ')' {
            if depth - 1 == 0 {
                (0, i + 2, e)
            } else {
                scan_arith(c, i + 2, depth - 1, e.push(')').push(')'))
            }
        } else {
            scan_arith(c, i + 1, depth, e.push(c[i]))
        }
    } else {
        (depth, i, e)
    }
}

/// Reading the inside of `$( ... )` from `i` with nesting `depth`, having
/// collected `e`; nested `$(` and `)` are kept.
pub open spec fn scan_cmd(c: Seq<char>, i: int, depth: int, e: Seq<char>) -> (int, int, Seq<char>)
    decreases c.len() - i,
{
    if 0 <= i < c.len() {
        if c[i] == '$' && i + 1 < c.len() && c[i + 1] == '(' {
            scan_cmd(c, i + 2, depth + 1, e.push('$').push('('))
        } else if c[i] == ')' {
            if depth - 1 == 0 {
                (0, i + 1, e)
            } else {
                scan_cmd(c, i + 1, depth - 1, e.push(')'))
            }
        } else {
            scan_cmd(c, i + 1, depth, e.push(c[i]))
        }
    } else {
        (depth, i, e)
    }
}

/// An ASCII letter, digit or underscore.
pub open spec fn ident_char(ch: char) -> bool {
    ascii_alphanumeric(ch) || ch == '_'
}

/// The end of the run of identifier characters that starts at `j`.
pub open spec fn ident_end(c: Seq<char>, j: int) -> int
    decreases c.len() - j,
{
    if 0 <= j < c.len() && ident_char(c[j]) {
        ident_end(c, j + 1)
    } else {
        j
    }
}

/// The end of the run of ASCII digits that starts at `j`.
pub open spec fn digits_end(c: Seq<char>, j: int) -> int
    decreases c.len() - j,
{
    if 0 <= j < c.len() && ascii_digit(c[j]) {
        digits_end(c, j + 1)
    } else {
        j
    }
}

/// A character that ends the text after `~`.
pub open spec fn tilde_stop(ch: char) -> bool {
    unicode_whitespace(ch) || ch == '|' || ch == '&' || ch == ';' || ch == '<' || ch == '>'
        || ch == '(' || ch == ')' || ch == '{' || ch == '}'
}

/// The end of the text after `~` that starts at `j`.
pub open spec fn tilde_end(c: Seq<char>, j: int) -> int
    decreases c.len() - j,
{
    if 0 <= j < c.len() && !tilde_stop(c[j]) {
        tilde_end(c, j + 1)
    } else {
        j
    }
}

/// The two-character arithmetic operator `a b`, tried in the tokenizer's order.
pub open spec fn arith_pair(a: char, b: char) -> Option<ArithTokV> {
    if a == '+' && b == '+' {
        Some(ArithTokV::Increment)
    } else if a == '-' && b == '-' {
        Some(ArithTokV::Decrement)
    } else if a == '+' && b == '=' {
        Some(ArithTokV::AddAssign)
    } else if a == '-' && b == '=' {
        Some(ArithTokV::SubAssign)
    } else if a == '*' && b == '=' {
        Some(ArithTokV::MulAssign)
    } else if a == '/' && b == '=' {
        Some(ArithTokV::DivAssign)
    } else if a == '%' && b == '=' {
        Some(ArithTokV::ModAssign)
    } else if a == '=' && b == '=' {
        Some(ArithTokV::Equal)
    } else if a == '!' && b == '=' {
        Some(ArithTokV::NotEqual)
    } else if a == '<' && b == '=' {
        Some(ArithTokV::LessEqual)
    } else if a == '>' && b == '=' {
        Some(ArithTokV::GreaterEqual)
    } else if a == '&' && b == '&' {
        Some(ArithTokV::LogicalAnd)
    } else if a == '|' && b == '|' {
        Some(ArithTokV::LogicalOr)
    } else if a == '<' && b == '<' {
        Some(ArithTokV::ShiftLeft)
    } else if a == '>' && b == '>' {
        Some(ArithTokV::ShiftRight)
    } else {
        None
    }
}

/// The one-character arithmetic operator `a`.
pub open spec fn arith_single(a: char) -> Option<ArithTokV> {
    if a == '+' {
        Some(ArithTokV::Plus)
    } else if a == '-' {
        Some(ArithTokV::Minus)
    } else if a == '*' {
        Some(ArithTokV::Multiply)
    } else if a == '/' {
        Some(ArithTokV::Divide)
    } else if a == '%' {
        Some(ArithTokV::Modulo)
    } else if a == '=' {
        Some(ArithTokV::Assign)
    } else if a == '<' {
        Some(ArithTokV::Less)
    } else if a == '>' {
        Some(ArithTokV::Greater)
    } else if a == '!' {
        Some(ArithTokV::LogicalNot)
    } else if a == '&' {
        Some(ArithTokV::BitAnd)
    } else if a == '|' {
        Some(ArithTokV::BitOr)
    } else if a == '^' {
        Some(ArithTokV::BitXor)
    } else if a == '~' {
        Some(ArithTokV::BitNot)
    } else if a == '?' {
        Some(ArithTokV::QuestionMark)
    } else if a == ':' {
        Some(ArithTokV::Colon)
    } else if a == '(' {
        Some(ArithTokV::LParen)
    } else if a == ')' {
        Some(ArithTokV::RParen)
    } else {
        None
    }
}

/// A nested `$((` or `((` starts at `i`.
pub open spec fn nested_arith_at(c: Seq<char>, i: int) -> bool {
    ||| (0 <= i && i + 3 <= c.len() && c[i] == '$' && c[i + 1] == '(' && c[i + 2] == '(')
    ||| (0 <= i && i + 2 <= c.len() && c[i] == '(' && c[i + 1] == '(')
}

pub open spec fn syntax(m: Seq<char>) -> ShellErrorV {
    ShellErrorV::Syntax(m)
}

/// Tokenizing an arithmetic expression from `i`, with `toks` produced so far.
pub open spec fn arith_run(c: Seq<char>, i: int, toks: Seq<ArithTokV>) -> Result<Seq<ArithTokV>, ShellErrorV>
    decreases c.len(), c.len() - i,
{
    if i < 0 || i >= c.len() {
        Ok(toks)
    } else {
        let ch = c[i];
        if unicode_whitespace(ch) {
            arith_run(c, i + 1, toks)
        } else if ascii_digit(ch) {
            let j = digits_end(c, i);
            let n = digits_value(c.subrange(i, j));
            let t2 = if n <= i64::MAX { toks.push(ArithTokV::Number(n as i64)) } else { toks };
            if i < j <= c.len() {
                arith_run(c, j, t2)
            } else {
                arbitrary()
            }
        } else if ascii_alphabetic(ch) || ch == '_' {
            let j = ident_end(c, i);
            if i < j <= c.len() {
                arith_run(c, j, toks.push(ArithTokV::Variable(c.subrange(i, j))))
            } else {
                arbitrary()
            }
        } else if nested_arith_at(c, i) {
            let k = if ch == '$' { i + 3 } else { i + 2 };
            let (d, j, e) = scan_arith(c, k, 1, Seq::empty());
            if d != 0 {
                Err(syntax("Unclosed arithmetic expression"@))
            } else if e.len() < c.len() && i < j <= c.len() {
                match arith_tokenize(e) {
                    Ok(sub) => arith_run(c, j, toks.push(ArithTokV::Substitution(sub))),
                    Err(x) => Err(x),
                }
            } else {
                arbitrary()
            }
        } else if i + 1 < c.len() && arith_pair(ch, c[i + 1]) is Some {
            arith_run(c, i + 2, toks.push(arith_pair(ch, c[i + 1])->0))
        } else {
            match arith_single(ch) {
                Some(t) => arith_run(c, i + 1, toks.push(t)),
                None => Err(syntax("Unexpected arithmetic token"@)),
            }
        }
    }
}

/// What `tokenize_arithmetic` gives for the characters `c`.
pub open spec fn arith_tokenize(c: Seq<char>) -> Result<Seq<ArithTokV>, ShellErrorV>
    decreases c.len(), c.len() + 1,
{
    arith_run(c, 0, Seq::empty())
}

pub proof fn lemma_scan_arith(c: Seq<char>, i: int, depth: int, e: Seq<char>)
    requires
        0 <= i <= c.len(),
        depth >= 1,
    ensures
        ({
            let (d, j, e2) = scan_arith(c, i, depth, e);
            &&& i <= j <= c.len()
            &&& d >= 0
            &&& (d == 0 ==> j >= i + 2 && e2.len() + 2 <= e.len() + (j - i))
            &&& e2.len() <= e.len() + (j - i)
        }),
    decreases c.len() - i,
{
    if i + 1 < c.len() {
        if c[i] == '(' && c[i + 1] == '(' {
            lemma_scan_arith(c, i + 2, depth + 1, e.push('(').push('('));
        } else if c[i] == ')' && c[i + 1] == ')' {
            if depth - 1 != 0 {
                lemma_scan_arith(c, i + 2, depth - 1, e.push(')').push(')'));
            }
        } else {
            lemma_scan_arith(c, i + 1, depth, e.push(c[i]));
        }
    }
}

pub proof fn lemma_digits_end(c: Seq<char>, j: int)
    requires
        0 <= j <= c.len(),
    ensures
        j <= digits_end(c, j) <= c.len(),
        forall|k: int| j <= k < digits_end(c, j) ==> ascii_digit(#[trigger] c[k]),
    decreases c.len() - j,
{
    if j < c.len() && ascii_digit(c[j]) {
        lemma_digits_end(c, j + 1);
    }
}

pub proof fn lemma_ident_end(c: Seq<char>, j: int)
    requires
        0 <= j <= c.len(),
    ensures
        j <= ident_end(c, j) <= c.len(),
    decreases c.len() - j,
{
    if j < c.len() && ident_char(c[j]) {
        lemma_ident_end(c, j + 1);
    }
}

pub fn digits_end_exec(c: &Vec<char>, j: usize) -> (r: usize)
    requires
        j <= c@.len(),
    ensures
        r == digits_end(c@, j as int),
{
    let mut k = j;
    while k < c.len() && is_ascii_digit(c[k])
        invariant
            j <= k <= c@.len(),
            digits_end(c@, k as int) == digits_end(c@, j as int),
        decreases c@.len() - k,
    {
        k = k + 1;
    }
    k
}

pub fn ident_end_exec(c: &Vec<char>, j: usize) -> (r: usize)
    requires
        j <= c@.len(),
    ensures
        r == ident_end(c@, j as int),
{
    let mut k = j;
    while k < c.len() && (is_ascii_alphanumeric(c[k]) || c[k] == '_')
        invariant
            j <= k <= c@.len(),
            ident_end(c@, k as int) == ident_end(c@, j as int),
        decreases c@.len() - k,
    {
        k = k + 1;
    }
    k
}

/// Reads the inside of `$(( ... ))` from `start`; see `scan_arith`.
fn scan_arith_exec(c: &Vec<char>, start: usize) -> (r: (usize, usize, Vec<char>))
    requires
        start <= c@.len(),
    ensures
        (r.0 as int, r.1 as int, r.2@) == scan_arith(c@, start as int, 1, Seq::empty()),
{
    let mut depth: usize = 1;
    let mut i: usize = start;
    let mut e: Vec<char> = Vec::new();
    while i < c.len() && i + 1 < c.len()
        invariant
            start <= i <= c@.len(),
            1 <= depth <= i + 1,
            scan_arith(c@, i as int, depth as int, e@) == scan_arith(c@, start as int, 1, Seq::empty()),
        decreases c@.len() - i,
    {
        if c[i] == '(' && c[i + 1] == '(' {
            depth = depth + 1;
            e.push('(');
            e.push('(');
            i = i + 2;
        } else if c[i] == ')' && c[i + 1] == ')' {
            if depth - 1 == 0 {
                return (0, i + 2, e);
            }
            depth = depth - 1;
            e.push(')');
            e.push(')');
            i = i + 2;
        } else {
            e.push(c[i]);
            i = i + 1;
        }
    }
    (depth, i, e)
}

pub fn arith_pair_exec(a: char, b: char) -> (r: Option<ArithmeticToken>)
    ensures
        match r {
            Some(t) => arith_pair(a, b) == Some(t@),
            None => arith_pair(a, b) is None,
        },
{
    if a == '+' && b == '+' {
        Some(ArithmeticToken::Increment)
    } else if a == '-' && b == '-' {
        Some(ArithmeticToken::Decrement)
    } else if a == '+' && b == '=' {
        Some(ArithmeticToken::AddAssign)
    } else if a == '-' && b == '=' {
        Some(ArithmeticToken::SubAssign)
    } else if a == '*' && b == '=' {
        Some(ArithmeticToken::MulAssign)
    } else if a == '/' && b == '=' {
        Some(ArithmeticToken::DivAssign)
    } else if a == '%' && b == '=' {
        Some(ArithmeticToken::ModAssign)
    } else if a == '=' && b == '=' {
        Some(ArithmeticToken::Equal)
    } else if a == '!' && b == '=' {
        Some(ArithmeticToken::NotEqual)
    } else if a == '<' && b == '=' {
        Some(ArithmeticToken::LessEqual)
    } else if a == '>' && b == '=' {
        Some(ArithmeticToken::GreaterEqual)
    } else if a == '&' && b == '&' {
        Some(ArithmeticToken::LogicalAnd)
    } else if a == '|' && b == '|' {
        Some(ArithmeticToken::LogicalOr)
    } else if a == '<' && b == '<' {
        Some(ArithmeticToken::ShiftLeft)
    } else if a == '>' && b == '>' {
        Some(ArithmeticToken::ShiftRight)
    } else {
        None
    }
}

pub fn arith_single_exec(a: char) -> (r: Option<ArithmeticToken>)
    ensures
        match r {
            Some(t) => arith_single(a) == Some(t@),
            None => arith_single(a) is None,
        },
{
    if a == '+' {
        Some(ArithmeticToken::Plus)
    } else if a == '-' {
        Some(ArithmeticToken::Minus)
    } else if a == '*' {
        Some(ArithmeticToken::Multiply)
    } else if a == '/' {
        Some(ArithmeticToken::Divide)
    } else if a == '%' {
        Some(ArithmeticToken::Modulo)
    } else if a == '=' {
        Some(ArithmeticToken::Assign)
    } else if a == '<' {
        Some(ArithmeticToken::Less)
    } else if a == '>' {
        Some(ArithmeticToken::Greater)
    } else if a == '!' {
        Some(ArithmeticToken::LogicalNot)
    } else if a == '&' {
        Some(ArithmeticToken::BitAnd)
    } else if a == '|' {
        Some(ArithmeticToken::BitOr)
    } else if a == '^' {
        Some(ArithmeticToken::BitXor)
    } else if a == '~' {
        Some(ArithmeticToken::BitNot)
    } else if a == '?' {
        Some(ArithmeticToken::QuestionMark)
    } else if a == ':' {
        Some(ArithmeticToken::Colon)
    } else if a == '(' {
        Some(ArithmeticToken::LParen)
    } else if a == ')' {
        Some(ArithmeticToken::RParen)
    } else {
        None
    }
}

/// The value of what `tokenize_arithmetic` gives back.
pub open spec fn arith_res_view(r: Result<Vec<ArithmeticToken>, ShellError>) -> Result<Seq<ArithTokV>, ShellErrorV> {
    match r {
        Ok(v) => Ok(arith_toks_view(v@)),
        Err(e) => Err(e@),
    }
}

/// Splits the text of an arithmetic expansion into tokens: numbers,
/// variable names, nested `$(( ))` or `(( ))` groups (tokenized in turn) and
/// operators, skipping whitespace. A number too large for `i64` is dropped.
/// Fails on an unclosed group or a character that starts no token.
pub fn tokenize_arithmetic(input: &str) -> (r: Result<Vec<ArithmeticToken>, ShellError>)
    ensures
        arith_res_view(r) == arith_tokenize(input@),
{
    let c = str_to_chars(input);
    arith_tokenize_chars(&c)
}

fn arith_tokenize_chars(c: &Vec<char>) -> (r: Result<Vec<ArithmeticToken>, ShellError>)
    ensures
        arith_res_view(r) == arith_tokenize(c@),
    decreases c@.len(),
{
    let mut toks: Vec<ArithmeticToken> = Vec::new();
    let mut i: usize = 0;
    while i < c.len()
        invariant
            0 <= i <= c@.len(),
            arith_run(c@, i as int, arith_toks_view(toks@)) == arith_tokenize(c@),
        decreases c@.len() - i,
    {
        let ch = c[i];
        let ghost t0 = toks@;
        if char_is_whitespace(ch) {
            i = i + 1;
        } else if is_ascii_digit(ch) {
            let j = digits_end_exec(c, i);
            proof {
                lemma_digits_end(c@, i as int);
                lemma_digits_end(c@, i + 1);
            }
            let num = chars_between(c, i, j);
            assert(all_digits(num@));
            match parse_u64_digits(&num) {
                Some(n) => {
                    if n <= 9223372036854775807u64 {
                        toks.push(ArithmeticToken::Number(n as i64));
                        proof {
                            lemma_arith_toks_push(t0, ArithmeticToken::Number(n as i64));
                        }
                    }
                },
                None => {},
            }
            i = j;
        } else if is_ascii_alphabetic(ch) || ch == '_' {
            let j = ident_end_exec(c, i);
            proof {
                lemma_ident_end(c@, i + 1);
            }
            let var = substring_of(c, i, j);
            let ghost tv = ArithmeticToken::Variable(var);
            toks.push(ArithmeticToken::Variable(var));
            proof {
                lemma_arith_toks_push(t0, tv);
            }
            i = j;
        } else if (c.len() - i >= 3 && ch == '$' && c[i + 1] == '(' && c[i + 2] == '(') || (c.len() - i >= 2 && ch == '(' && c[i + 1] == '(') {
            let k = if ch == '$' { i + 3 } else { i + 2 };
            let (d, j, e) = scan_arith_exec(c, k);
            proof {
                lemma_scan_arith(c@, k as int, 1, Seq::empty());
            }
            if d != 0 {
                return Err(ShellError::Syntax(String::from_str("Unclosed arithmetic expression")));
            }
            let sub = match arith_tokenize_chars(&e) {
                Ok(sub) => sub,
                Err(x) => {
                    return Err(x);
                },
            };
            let ghost tv = ArithmeticToken::Substitution(sub);
            toks.push(ArithmeticToken::Substitution(sub));
            proof {
                lemma_arith_toks_push(t0, tv);
            }
            i = j;
        } else {
            let pair = if i + 1 < c.len() { arith_pair_exec(ch, c[i + 1]) } else { None };
            match pair {
                Some(t) => {
                    let ghost tv = t;
                    toks.push(t);
                    proof {
                        lemma_arith_toks_push(t0, tv);
                    }
                    i = i + 2;
                },
                None => {
                    match arith_single_exec(ch) {
                        Some(t) => {
                            let ghost tv = t;
                            toks.push(t);
                            proof {
                                lemma_arith_toks_push(t0, tv);
                            }
                            i = i + 1;
                        },
                        None => {
                            return Err(ShellError::Syntax(String::from_str("Unexpected arithmetic token")));
                        },
                    }
                },
            }
        }
    }
    Ok(toks)
}

/// The tokenizer's working values: the index reached, the tokens produced,
/// the text of the word being read, and whether a single quote, a double
/// quote or a backslash escape is open.
pub struct FlatSt {
    pub i: int,
    pub toks: Seq<TokV>,
    pub buf: Seq<char>,
    pub sq: bool,
    pub dq: bool,
    pub esc: bool,
}

/// What one step of the tokenizer does: go on, tokenize a `$( )` or
/// `$(( ))` text and then go on, fail, or stop making progress.
pub enum FlatStep {
    Next(FlatSt),
    Cmd(FlatSt, Seq<char>),
    Arith(FlatSt, Seq<char>),
    Fail(ShellErrorV),
    Stuck,
}

/// The word being read, if any, becomes a token.
pub open spec fn flush(st: FlatSt) -> FlatSt {
    if st.buf.len() > 0 {
        FlatSt { toks: st.toks.push(TokV::Word(seq![PartV::Literal(st.buf)])), buf: Seq::empty(), ..st }
    } else {
        st
    }
}

/// Ends the current word, emits `t` and moves `n` characters on.
pub open spec fn emit(st: FlatSt, t: TokV, n: int) -> FlatStep {
    let f = flush(st);
    FlatStep::Next(FlatSt { i: st.i + n, toks: f.toks.push(t), ..f })
}

/// Escapes, quotes, quoted text and whitespace.
pub open spec fn quote_step(c: Seq<char>, st: FlatSt) -> Option<FlatStep> {
    let ch = c[st.i];
    if st.esc {
        Some(FlatStep::Next(FlatSt { i: st.i + 1, buf: st.buf.push(ch), esc: false, ..st }))
    } else if ch == '\\' && !st.sq {
        Some(FlatStep::Next(FlatSt { i: st.i + 1, esc: true, ..st }))
    } else if ch == '\'' && !st.dq {
        Some(FlatStep::Next(FlatSt { i: st.i + 1, sq: !st.sq, ..st }))
    } else if ch == '"' && !st.sq {
        Some(FlatStep::Next(FlatSt { i: st.i + 1, dq: !st.dq, ..st }))
    } else if st.sq || st.dq {
        Some(FlatStep::Next(FlatSt { i: st.i + 1, buf: st.buf.push(ch), ..st }))
    } else if unicode_whitespace(ch) {
        let f = flush(st);
        Some(FlatStep::Next(FlatSt { i: st.i + 1, toks: if ch == '\n' { f.toks.push(TokV::Newline) } else { f.toks }, ..f }))
    } else {
        None
    }
}

/// `<<<` and `$((`.
pub open spec fn three_step(c: Seq<char>, st: FlatSt) -> Option<FlatStep> {
    let i = st.i;
    if i + 2 < c.len() {
        if c[i] == '<' && c[i + 1] == '<' && c[i + 2] == '<' {
            Some(emit(st, TokV::HereString, 3))
        } else if c[i] == '$' && c[i + 1] == '(' && c[i + 2] == '(' {
            let f = flush(st);
            let (d, j, e) = scan_arith(c, i + 3, 1, Seq::empty());
            if d != 0 {
                Some(FlatStep::Fail(syntax("Unclosed arithmetic substitution"@)))
            } else {
                Some(FlatStep::Arith(FlatSt { i: j, ..f }, e))
            }
        } else {
            None
        }
    } else {
        None
    }
}

/// The two-character operators and `$(`.
pub open spec fn two_step(c: Seq<char>, st: FlatSt) -> Option<FlatStep> {
    let i = st.i;
    if i + 1 < c.len() {
        let a = c[i];
        let b = c[i + 1];
        if a == '&' && b == '&' {
            Some(emit(st, TokV::AndIf, 2))
        } else if a == '|' && b == '|' {
            Some(emit(st, TokV::OrIf, 2))
        } else if a == '>' && b == '>' {
            Some(emit(st, TokV::DGreat, 2))
        } else if a == '<' && b == '<' {
            Some(emit(st, TokV::DLess, 2))
        } else if a == '>' && b == '&' {
            Some(emit(st, TokV::RedirectDuplicateOut, 2))
        } else if a == '<' && b == '&' {
            Some(emit(st, TokV::RedirectDuplicateIn, 2))
        } else if a == '$' && b == '(' {
            let f = flush(st);
            let (d, j, e) = scan_cmd(c, i + 2, 1, Seq::empty());
            if d != 0 {
                Some(FlatStep::Fail(syntax("Unclosed command substitution"@)))
            } else {
                Some(FlatStep::Cmd(FlatSt { i: j, ..f }, e))
            }
        } else {
            None
        }
    } else {
        None
    }
}

/// The token that a single operator character stands for.
pub open spec fn single_token(ch: char) -> Option<TokV> {
    if ch == '|' {
        Some(TokV::Pipe)
    } else if ch == '&' {
        Some(TokV::Amp)
    } else if ch == ';' {
        Some(TokV::Semi)
    } else if ch == '<' {
        Some(TokV::Less)
    } else if ch == '>' {
        Some(TokV::Great)
    } else if ch == '!' {
        Some(TokV::Bang)
    } else if ch == '(' {
        Some(TokV::LParen)
    } else if ch == ')' {
        Some(TokV::RParen)
    } else if ch == '{' {
        Some(TokV::LBrace)
    } else if ch == '}' {
        Some(TokV::RBrace)
    } else {
        None
    }
}

/// The word that `~` followed by `rest` stands for.
pub open spec fn tilde_word(rest: Seq<char>) -> TokV {
    if rest.len() > 0 {
        TokV::Word(seq![PartV::Variable("HOME"@), PartV::Literal(rest)])
    } else {
        TokV::Word(seq![PartV::Variable("HOME"@)])
    }
}

/// Single characters: operators, `$NAME`, `~` and word characters. A `~`
/// inside a word makes no progress.
pub open spec fn single_step(c: Seq<char>, st: FlatSt) -> FlatStep {
    let i = st.i;
    let ch = c[i];
    if single_token(ch) is Some {
        emit(st, single_token(ch)->0, 1)
    } else if ch == '$' {
        let j = ident_end(c, i + 1);
        FlatStep::Next(FlatSt { i: j, toks: st.toks.push(TokV::Variable(c.subrange(i + 1, j))), ..st })
    } else if ch == '~' {
        if st.buf.len() == 0 {
            let j = tilde_end(c, i + 1);
            FlatStep::Next(FlatSt { i: j, toks: st.toks.push(tilde_word(c.subrange(i + 1, j))), ..st })
        } else {
            FlatStep::Stuck
        }
    } else {
        FlatStep::Next(FlatSt { i: i + 1, buf: st.buf.push(ch), ..st })
    }
}

/// One step of the tokenizer at `st.i`.
pub open spec fn flat_step(c: Seq<char>, st: FlatSt) -> FlatStep {
    match quote_step(c, st) {
        Some(x) => x,
        None => match three_step(c, st) {
            Some(x) => x,
            None => match two_step(c, st) {
                Some(x) => x,
                None => single_step(c, st),
            },
        },
    }
}

/// Running the tokenizer from `st`: `None` when it stops making progress,
/// else its result.
pub open spec fn flat_run(c: Seq<char>, st: FlatSt) -> Option<Result<Seq<TokV>, ShellErrorV>>
    decreases c.len(), c.len() - st.i,
{
    if st.i < 0 || st.i > c.len() {
        None
    } else if st.i == c.len() {
        Some(Ok(flush(st).toks))
    } else {
        match flat_step(c, st) {
            FlatStep::Next(s2) => if st.i < s2.i <= c.len() {
                flat_run(c, s2)
            } else {
                None
            },
            FlatStep::Cmd(s2, e) => if st.i < s2.i <= c.len() && e.len() < c.len() {
                match flat_tokenize(e) {
                    Some(Ok(sub)) => flat_run(c, FlatSt { toks: s2.toks.push(TokV::CommandSubstitution(sub)), ..s2 }),
                    other => other,
                }
            } else {
                None
            },
            FlatStep::Arith(s2, e) => if st.i < s2.i <= c.len() && e.len() < c.len() {
                match arith_tokenize(e) {
                    Ok(sub) => flat_run(c, FlatSt { toks: s2.toks.push(TokV::ArithmeticSubstitution(sub)), ..s2 }),
                    Err(x) => Some(Err(x)),
                }
            } else {
                None
            },
            FlatStep::Fail(e) => Some(Err(e)),
            FlatStep::Stuck => None,
        }
    }
}

/// The state the tokenizer starts in.
pub open spec fn flat_start() -> FlatSt {
    FlatSt { i: 0, toks: Seq::empty(), buf: Seq::empty(), sq: false, dq: false, esc: false }
}

/// What `tokenize` gives for the characters `c`: `None` when it never ends.
pub open spec fn flat_tokenize(c: Seq<char>) -> Option<Result<Seq<TokV>, ShellErrorV>>
    decreases c.len(), c.len() + 1,
{
    flat_run(c, flat_start())
}

/// The tokenizer's working values in executable form.
struct Lexing {
    i: usize,
    toks: Vec<Token>,
    buf: Vec<char>,
    sq: bool,
    dq: bool,
    esc: bool,
}

impl Lexing {
    spec fn st(&self) -> FlatSt {
        FlatSt { i: self.i as int, toks: toks_view(self.toks@), buf: self.buf@, sq: self.sq, dq: self.dq, esc: self.esc }
    }
}

/// What a step asks of the tokenizer's main loop.
enum Stepped {
    Next,
    Cmd(Vec<char>),
    Arith(Vec<char>),
    Fail(ShellError),
}

spec fn stepped_as(spec_step: FlatStep, o: Stepped, after: FlatSt) -> bool {
    match spec_step {
        FlatStep::Next(s2) => o is Next && after == s2,
        FlatStep::Cmd(s2, e) => o matches Stepped::Cmd(v) && v@ == e && after == s2,
        FlatStep::Arith(s2, e) => o matches Stepped::Arith(v) && v@ == e && after == s2,
        FlatStep::Fail(e) => o matches Stepped::Fail(x) && x@ == e,
        FlatStep::Stuck => false,
    }
}

/// Ends the word being read, if any, with a literal word token.
fn flush_buf(buf: &mut Vec<char>, tokens: &mut Vec<Token>)
    ensures
        old(buf)@.len() > 0 ==> toks_view(final(tokens)@) == toks_view(old(tokens)@).push(
            TokV::Word(seq![PartV::Literal(old(buf)@)]),
        ) && final(buf)@ == Seq::<char>::empty(),
        old(buf)@.len() == 0 ==> final(tokens)@ == old(tokens)@ && final(buf)@ == old(buf)@,
{
    if buf.len() > 0 {
        let ghost t0 = tokens@;
        let text = chars_to_string(buf.as_slice());
        let mut parts: Vec<WordPart> = Vec::new();
        parts.push(WordPart::Literal(text));
        proof {
            lemma_parts_push(Seq::empty(), WordPart::Literal(text));
            assert(Seq::<WordPart>::empty().push(WordPart::Literal(text)) =~= parts@);
        }
        let ghost tv = Token::Word(parts);
        tokens.push(Token::Word(parts));
        proof {
            lemma_toks_push(t0, tv);
        }
        *buf = Vec::new();
    }
}

fn flush_lexing(s: &mut Lexing)
    ensures
        final(s).st() == flush(old(s).st()),
{
    flush_buf(&mut s.buf, &mut s.toks);
}

fn push_token(s: &mut Lexing, t: Token)
    ensures
        final(s).st() == (FlatSt { toks: old(s).st().toks.push(t@), ..old(s).st() }),
{
    let ghost t0 = s.toks@;
    let ghost tv = t;
    s.toks.push(t);
    proof {
        lemma_toks_push(t0, tv);
    }
}

/// Escapes, quotes, quoted text and whitespace; see `quote_step`.
fn quote_step_exec(c: &Vec<char>, s: &mut Lexing) -> (handled: bool)
    requires
        old(s).i < c@.len(),
    ensures
        handled == quote_step(c@, old(s).st()) is Some,
        handled ==> quote_step(c@, old(s).st()) == Some(FlatStep::Next(final(s).st())),
        !handled ==> *final(s) == *old(s),
{
    let i = s.i;
    assert(i < c.len());
    let ch = c[i];
    if s.esc {
        s.buf.push(ch);
        s.esc = false;
        s.i = i + 1;
        true
    } else if ch == '\\' && !s.sq {
        s.esc = true;
        s.i = i + 1;
        true
    } else if ch == '\'' && !s.dq {
        s.sq = !s.sq;
        s.i = i + 1;
        true
    } else if ch == '"' && !s.sq {
        s.dq = !s.dq;
        s.i = i + 1;
        true
    } else if s.sq || s.dq {
        s.buf.push(ch);
        s.i = i + 1;
        true
    } else if char_is_whitespace(ch) {
        flush_lexing(s);
        if ch == '\n' {
            push_token(s, Token::Newline);
        }
        s.i = i + 1;
        true
    } else {
        false
    }
}

fn emit_exec(s: &mut Lexing, t: Token, n: usize)
    requires
        old(s).i + n <= usize::MAX,
    ensures
        emit(old(s).st(), t@, n as int) == FlatStep::Next(final(s).st()),
{
    flush_lexing(s);
    push_token(s, t);
    s.i = s.i + n;
}

/// Reads the inside of `$( ... )` from `start`; see `scan_cmd`.
fn scan_cmd_exec(c: &Vec<char>, start: usize) -> (r: (usize, usize, Vec<char>))
    requires
        start <= c@.len(),
    ensures
        (r.0 as int, r.1 as int, r.2@) == scan_cmd(c@, start as int, 1, Seq::empty()),
{
    let mut depth: usize = 1;
    let mut i: usize = start;
    let mut e: Vec<char> = Vec::new();
    while i < c.len()
        invariant
            start <= i <= c@.len(),
            1 <= depth <= i + 1,
            scan_cmd(c@, i as int, depth as int, e@) == scan_cmd(c@, start as int, 1, Seq::empty()),
        decreases c@.len() - i,
    {
        if c[i] == '$' && i + 1 < c.len() && c[i + 1] == '(' {
            depth = depth + 1;
            e.push('$');
            e.push('(');
            i = i + 2;
        } else if c[i] == ')' {
            if depth - 1 == 0 {
                return (0, i + 1, e);
            }
            depth = depth - 1;
            e.push(')');
            i = i + 1;
        } else {
            e.push(c[i]);
            i = i + 1;
        }
    }
    (depth, i, e)
}

/// `<<<` and `$((`; see `three_step`.
fn three_step_exec(c: &Vec<char>, s: &mut Lexing) -> (o: Option<Stepped>)
    requires
        old(s).i < c@.len(),
    ensures
        match three_step(c@, old(s).st()) {
            None => o is None && *final(s) == *old(s),
            Some(x) => o matches Some(y) && stepped_as(x, y, final(s).st()),
        },
{
    let i = s.i;
    assert(i < c.len());
    if c.len() - i > 2 {
        if c[i] == '<' && c[i + 1] == '<' && c[i + 2] == '<' {
            emit_exec(s, Token::HereString, 3);
            Some(Stepped::Next)
        } else if c[i] == '$' && c[i + 1] == '(' && c[i + 2] == '(' {
            flush_lexing(s);
            let (d, j, e) = scan_arith_exec(c, i + 3);
            if d != 0 {
                return Some(Stepped::Fail(ShellError::Syntax(String::from_str("Unclosed arithmetic substitution"))));
            }
            s.i = j;
            Some(Stepped::Arith(e))
        } else {
            None
        }
    } else {
        None
    }
}

/// The two-character operators and `$(`; see `two_step`.
fn two_step_exec(c: &Vec<char>, s: &mut Lexing) -> (o: Option<Stepped>)
    requires
        old(s).i < c@.len(),
    ensures
        match two_step(c@, old(s).st()) {
            None => o is None && *final(s) == *old(s),
            Some(x) => o matches Some(y) && stepped_as(x, y, final(s).st()),
        },
{
    let i = s.i;
    assert(i < c.len());
    if i + 1 < c.len() {
        let a = c[i];
        let b = c[i + 1];
        if a == '&' && b == '&' {
            emit_exec(s, Token::AndIf, 2);
            Some(Stepped::Next)
        } else if a == '|' && b == '|' {
            emit_exec(s, Token::OrIf, 2);
            Some(Stepped::Next)
        } else if a == '>' && b == '>' {
            emit_exec(s, Token::DGreat, 2);
            Some(Stepped::Next)
        } else if a == '<' && b == '<' {
            emit_exec(s, Token::DLess, 2);
            Some(Stepped::Next)
        } else if a == '>' && b == '&' {
            emit_exec(s, Token::RedirectDuplicateOut, 2);
            Some(Stepped::Next)
        } else if a == '<' && b == '&' {
            emit_exec(s, Token::RedirectDuplicateIn, 2);
            Some(Stepped::Next)
        } else if a == '$' && b == '(' {
            flush_lexing(s);
            let (d, j, e) = scan_cmd_exec(c, i + 2);
            if d != 0 {
                return Some(Stepped::Fail(ShellError::Syntax(String::from_str("Unclosed command substitution"))));
            }
            s.i = j;
            Some(Stepped::Cmd(e))
        } else {
            None
        }
    } else {
        None
    }
}

fn single_token_exec(ch: char) -> (r: Option<Token>)
    ensures
        match r {
            Some(t) => single_token(ch) == Some(t@),
            None => single_token(ch) is None,
        },
{
    if ch == '|' {
        Some(Token::Pipe)
    } else if ch == '&' {
        Some(Token::Amp)
    } else if ch == ';' {
        Some(Token::Semi)
    } else if ch == '<' {
        Some(Token::Less)
    } else if ch == '>' {
        Some(Token::Great)
    } else if ch == '!' {
        Some(Token::Bang)
    } else if ch == '(' {
        Some(Token::LParen)
    } else if ch == ')' {
        Some(Token::RParen)
    } else if ch == '{' {
        Some(Token::LBrace)
    } else if ch == '}' {
        Some(Token::RBrace)
    } else {
        None
    }
}

pub proof fn lemma_tilde_end(c: Seq<char>, j: int)
    requires
        0 <= j <= c.len(),
    ensures
        j <= tilde_end(c, j) <= c.len(),
    decreases c.len() - j,
{
    if j < c.len() && !tilde_stop(c[j]) {
        lemma_tilde_end(c, j + 1);
    }
}

fn tilde_end_exec(c: &Vec<char>, j: usize) -> (r: usize)
    requires
        j <= c@.len(),
    ensures
        r == tilde_end(c@, j as int),
{
    let mut k = j;
    while k < c.len()
        invariant
            j <= k <= c@.len(),
            tilde_end(c@, k as int) == tilde_end(c@, j as int),
        decreases c@.len() - k,
    {
        let ch = c[k];
        if char_is_whitespace(ch) || ch == '|' || ch == '&' || ch == ';' || ch == '<' || ch == '>' || ch == '('
            || ch == ')' || ch == '{' || ch == '}' {
            return k;
        }
        k = k + 1;
    }
    k
}

/// Single characters; see `single_step`.
fn single_step_exec(c: &Vec<char>, s: &mut Lexing) -> (o: Stepped)
    requires
        old(s).i < c@.len(),
        !(single_step(c@, old(s).st()) is Stuck),
    ensures
        stepped_as(single_step(c@, old(s).st()), o, final(s).st()),
{
    let i = s.i;
    assert(i < c.len());
    let ch = c[i];
    match single_token_exec(ch) {
        Some(t) => {
            emit_exec(s, t, 1);
            return Stepped::Next;
        },
        None => {},
    }
    if ch == '$' {
        let j = ident_end_exec(c, i + 1);
        proof {
            lemma_ident_end(c@, i + 1);
        }
        let var = substring_of(c, i + 1, j);
        push_token(s, Token::Variable(var));
        s.i = j;
        Stepped::Next
    } else if ch == '~' {
        let j = tilde_end_exec(c, i + 1);
        proof {
            lemma_tilde_end(c@, i + 1);
        }
        let rest = chars_between(c, i + 1, j);
        let mut parts: Vec<WordPart> = Vec::new();
        let home = WordPart::Variable(String::from_str("HOME"));
        let ghost hv = home;
        parts.push(home);
        proof {
            lemma_parts_push(Seq::empty(), hv);
            assert(Seq::<WordPart>::empty().push(hv) =~= parts@);
            reveal_strlit("HOME");
        }
        if rest.len() > 0 {
            let lit = WordPart::Literal(chars_to_string(rest.as_slice()));
            let ghost p0 = parts@;
            let ghost lv = lit;
            parts.push(lit);
            proof {
                lemma_parts_push(p0, lv);
                assert(parts_view(parts@) =~= seq![PartV::Variable("HOME"@), PartV::Literal(rest@)]);
            }
        }
        assert(TokV::Word(parts_view(parts@)) == tilde_word(rest@));
        push_token(s, Token::Word(parts));
        s.i = j;
        Stepped::Next
    } else {
        s.buf.push(ch);
        s.i = i + 1;
        Stepped::Next
    }
}

/// One step of the tokenizer; see `flat_step`.
fn lex_step(c: &Vec<char>, s: &mut Lexing) -> (o: Stepped)
    requires
        old(s).i < c@.len(),
        !(flat_step(c@, old(s).st()) is Stuck),
    ensures
        stepped_as(flat_step(c@, old(s).st()), o, final(s).st()),
{
    if quote_step_exec(c, s) {
        return Stepped::Next;
    }
    match three_step_exec(c, s) {
        Some(o) => {
            return o;
        },
        None => {},
    }
    match two_step_exec(c, s) {
        Some(o) => {
            return o;
        },
        None => {},
    }
    single_step_exec(c, s)
}

/// The value of what `tokenize` gives back.
pub open spec fn flat_res_view(r: Result<Vec<Token>, ShellError>) -> Result<Seq<TokV>, ShellErrorV> {
    match r {
        Ok(v) => Ok(toks_view(v@)),
        Err(e) => Err(e@),
    }
}

/// Splits a command line into a flat list of tokens: words (quotes and
/// backslashes taken off), `$NAME` variables, `~` words, operators, and
/// command and arithmetic substitutions, which are tokenized in turn.
/// `flat_tokenize` states the result; on the inputs where it is `None` (a
/// `~` inside an unquoted word) the tokenizer would never return, and
/// `tokenize_ends` tells those inputs apart.
pub fn tokenize(input: &str) -> (r: Result<Vec<Token>, ShellError>)
    requires
        flat_tokenize(input@) is Some,
    ensures
        flat_tokenize(input@) == Some(flat_res_view(r)),
{
    let c = str_to_chars(input);
    match try_tokenize_chars(&c) {
        Some(r) => r,
        None => {
            proof {
                assert(false);
            }
            Ok(Vec::new())
        },
    }
}

/// Whether `tokenize` returns on `input`, that is, whether its `requires`
/// holds.
pub fn tokenize_ends(input: &str) -> (r: bool)
    ensures
        r == (flat_tokenize(input@) is Some),
{
    let c = str_to_chars(input);
    match try_tokenize_chars(&c) {
        Some(_) => true,
        None => false,
    }
}

/// The step at `s` is a `~` inside an unquoted word, where the tokenizer
/// makes no progress.
fn stuck_at(c: &Vec<char>, s: &Lexing) -> (r: bool)
    requires
        s.i < c@.len(),
    ensures
        r == (flat_step(c@, s.st()) is Stuck),
{
    let ch = c[s.i];
    if ch == '~' && s.buf.len() > 0 && !s.esc && !s.sq && !s.dq {
        let ws = char_is_whitespace(ch);
        assert(!ws);
        true
    } else {
        proof {
            law_flat_step_progress(c@, s.st());
        }
        false
    }
}

fn try_tokenize_chars(c: &Vec<char>) -> (r: Option<Result<Vec<Token>, ShellError>>)
    ensures
        match r {
            Some(x) => flat_tokenize(c@) == Some(flat_res_view(x)),
            None => flat_tokenize(c@) is None,
        },
    decreases c@.len(),
{
    let mut s = Lexing { i: 0, toks: Vec::new(), buf: Vec::new(), sq: false, dq: false, esc: false };
    assert(s.st() == flat_start());
    while s.i < c.len()
        invariant
            s.i <= c@.len(),
            flat_run(c@, s.st()) == flat_tokenize(c@),
        decreases c@.len() - s.i,
    {
        if stuck_at(c, &s) {
            return None;
        }
        let ghost before = s.st();
        proof {
            law_flat_step_progress(c@, before);
        }
        let o = lex_step(c, &mut s);
        match o {
            Stepped::Next => {},
            Stepped::Cmd(e) => {
                let sub = match try_tokenize_chars(&e) {
                    Some(Ok(sub)) => sub,
                    Some(Err(x)) => {
                        return Some(Err(x));
                    },
                    None => {
                        return None;
                    },
                };
                push_token(&mut s, Token::CommandSubstitution(sub));
            },
            Stepped::Arith(e) => {
                let sub = match arith_tokenize_chars(&e) {
                    Ok(sub) => sub,
                    Err(x) => {
                        return Some(Err(x));
                    },
                };
                push_token(&mut s, Token::ArithmeticSubstitution(sub));
            },
            Stepped::Fail(x) => {
                return Some(Err(x));
            },
        }
    }
    flush_lexing(&mut s);
    Some(Ok(s.toks))
}

pub proof fn lemma_scan_cmd(c: Seq<char>, i: int, depth: int, e: Seq<char>)
    requires
        0 <= i <= c.len(),
        depth >= 1,
    ensures
        ({
            let (d, j, e2) = scan_cmd(c, i, depth, e);
            &&& i <= j <= c.len()
            &&& e2.len() <= e.len() + (j - i)
        }),
    decreases c.len() - i,
{
    if i < c.len() {
        if c[i] == '$' && i + 1 < c.len() && c[i + 1] == '(' {
            lemma_scan_cmd(c, i + 2, depth + 1, e.push('$').push('('));
        } else if c[i] == ')' {
            if depth - 1 != 0 {
                lemma_scan_cmd(c, i + 1, depth - 1, e.push(')'));
            }
        } else {
            lemma_scan_cmd(c, i + 1, depth, e.push(c[i]));
        }
    }
}

/// Every step of the tokenizer but a `~` inside a word moves forward, and a
/// substitution's text is shorter than the line it came from: the tokenizer
/// stops making progress only at such a `~`.
pub proof fn law_flat_step_progress(c: Seq<char>, st: FlatSt)
    requires
        0 <= st.i < c.len(),
    ensures
        match flat_step(c, st) {
            FlatStep::Next(s2) => st.i < s2.i <= c.len(),
            FlatStep::Cmd(s2, e) => st.i < s2.i <= c.len() && e.len() < c.len(),
            FlatStep::Arith(s2, e) => st.i < s2.i <= c.len() && e.len() < c.len(),
            FlatStep::Stuck => c[st.i] == '~' && st.buf.len() > 0 && !st.sq && !st.dq && !st.esc,
            FlatStep::Fail(_) => true,
        },
{
    let i = st.i;
    if i + 3 <= c.len() {
        lemma_scan_arith(c, i + 3, 1, Seq::empty());
    }
    if i + 2 <= c.len() {
        lemma_scan_cmd(c, i + 2, 1, Seq::empty());
    }
    lemma_ident_end(c, i + 1);
    lemma_tilde_end(c, i + 1);
}

} // verus!

verus! {

/// The token a division or remainder sign stands for in arithmetic.
pub open spec fn div_mod_token(op: char) -> ArithTokV {
    if op == '/' {
        ArithTokV::Divide
    } else {
        ArithTokV::Modulo
    }
}

/// A run of digits `a` at `j`, ended by the end of `c` or a non-digit,
/// ends where `a` does.
pub proof fn lemma_digits_end_at(c: Seq<char>, j: int, a: Seq<char>)
    requires
        0 <= j,
        j + a.len() <= c.len(),
        c.subrange(j, j + a.len()) == a,
        all_digits(a),
        j + a.len() == c.len() || !ascii_digit(c[j + a.len()]),
    ensures
        digits_end(c, j) == j + a.len(),
    decreases a.len(),
{
    if a.len() > 0 {
        assert(c[j] == a[0]);
        let a2 = a.subrange(1, a.len() as int);
        assert(c.subrange(j + 1, j + 1 + a2.len()) =~= a2);
        assert(all_digits(a2)) by {
            assert forall|k: int| 0 <= k < a2.len() implies ascii_digit(#[trigger] a2[k]) by {
                assert(a2[k] == a[k + 1]);
            }
        }
        lemma_digits_end_at(c, j + 1, a2);
    }
}

/// Wherever a `/`, `%` or `*` stands that no `=` follows, the arithmetic
/// tokenizer reads it as Divide, Modulo or Multiply and goes on after it.
pub proof fn law_arith_single_operators(c: Seq<char>, i: int, toks: Seq<ArithTokV>)
    requires
        0 <= i < c.len(),
        i + 1 == c.len() || c[i + 1] != '=',
    ensures
        c[i] == '/' ==> arith_run(c, i, toks) == arith_run(c, i + 1, toks.push(ArithTokV::Divide)),
        c[i] == '%' ==> arith_run(c, i, toks) == arith_run(c, i + 1, toks.push(ArithTokV::Modulo)),
        c[i] == '*' ==> arith_run(c, i, toks) == arith_run(c, i + 1, toks.push(ArithTokV::Multiply)),
{
}

/// Two numbers with `/` (or `%`) between them tokenize as the first number,
/// Divide (or Modulo), the second number.
pub proof fn law_arith_divide_numbers(a: Seq<char>, b: Seq<char>, op: char)
    requires
        a.len() > 0,
        b.len() > 0,
        all_digits(a),
        all_digits(b),
        digits_value(a) <= i64::MAX,
        digits_value(b) <= i64::MAX,
        op == '/' || op == '%',
    ensures
        arith_tokenize(a + seq![op] + b) == Ok::<Seq<ArithTokV>, ShellErrorV>(seq![
            ArithTokV::Number(digits_value(a) as i64),
            div_mod_token(op),
            ArithTokV::Number(digits_value(b) as i64),
        ]),
{
    let c = a + seq![op] + b;
    let n = a.len() as int;
    assert(c.subrange(0, n) =~= a);
    assert(c[n] == op);
    assert(c.subrange(n + 1, c.len() as int) =~= b);
    assert(c[0] == a[0]);
    lemma_digits_end_at(c, 0, a);
    lemma_digits_end_at(c, n + 1, b);
    assert(c[n + 1] == b[0]);
    let t1 = Seq::<ArithTokV>::empty().push(ArithTokV::Number(digits_value(a) as i64));
    assert(arith_run(c, 0, Seq::empty()) == arith_run(c, n, t1));
    let t2 = t1.push(div_mod_token(op));
    assert(arith_run(c, n, t1) == arith_run(c, n + 1, t2));
    let t3 = t2.push(ArithTokV::Number(digits_value(b) as i64));
    assert(arith_run(c, n + 1, t2) == arith_run(c, c.len() as int, t3));
    assert(t3 =~= seq![
        ArithTokV::Number(digits_value(a) as i64),
        div_mod_token(op),
        ArithTokV::Number(digits_value(b) as i64),
    ]);
}

} // verus!
