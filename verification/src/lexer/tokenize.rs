use vstd::prelude::*;
use vstd::string::StringExecFns;
use crate::error::{ShellError, ShellErrorV};
use crate::lexer::types::{
    push_part, push_token, parts_view, tokens_view, QuoteType, State, Token, TokenV, Word, WordPart,
    WordPartV, WordV,
};
use crate::strings::{
    all_digits, char_is_alphanumeric, char_is_whitespace, chars_to_string, digits_value,
    is_ascii_digit, parse_u64_digits, str_to_chars, string_push, unicode_alphanumeric,
    unicode_whitespace,
};

verus! {

/// `pat` occurs in `s` at index `i`.
pub open spec fn matches_at(s: Seq<char>, i: int, pat: Seq<char>) -> bool {
    0 <= i && i + pat.len() <= s.len() && s.subrange(i, i + pat.len()) == pat
}

/// Reading a bracketed text that starts at `i` with nesting `depth`, having
/// collected `acc` so far: whether the closing `end` was found, the index
/// after it, and the text collected (nested `start`/`end` kept, the final
/// `end` dropped).
pub open spec fn read_until(
    chars: Seq<char>,
    i: int,
    start: Seq<char>,
    end: Seq<char>,
    depth: int,
    acc: Seq<char>,
) -> (bool, int, Seq<char>)
    decreases chars.len() - i,
{
    if i < 0 || i >= chars.len() || start.len() == 0 || end.len() == 0 {
        (false, i, acc)
    } else if matches_at(chars, i, start) {
        read_until(chars, i + start.len(), start, end, depth + 1, acc + start)
    } else if matches_at(chars, i, end) {
        if depth - 1 == 0 {
            (true, i + end.len(), acc)
        } else {
            read_until(chars, i + end.len(), start, end, depth - 1, acc + end)
        }
    } else {
        read_until(chars, i + 1, start, end, depth, acc.push(chars[i]))
    }
}

/// A character that may continue a `$NAME` variable reference.
pub open spec fn var_name_char(c: char) -> bool {
    unicode_alphanumeric(c) || c == '_'
}

/// The index where the variable name that starts at `j` ends.
pub open spec fn var_end(chars: Seq<char>, j: int) -> int
    decreases chars.len() - j,
{
    if 0 <= j < chars.len() && var_name_char(chars[j]) {
        var_end(chars, j + 1)
    } else {
        j
    }
}

/// The index just after the comment that runs from `j` to the end of its line.
pub open spec fn comment_end(chars: Seq<char>, j: int) -> int
    decreases chars.len() - j,
{
    if j < 0 || j >= chars.len() {
        chars.len() as int
    } else if chars[j] == '\n' {
        j + 1
    } else {
        comment_end(chars, j + 1)
    }
}

/// The tokenizer's working values: its state, the text of the current part,
/// the parts of the current word, and the tokens produced so far.
pub struct Lex {
    pub state: State,
    pub buffer: Seq<char>,
    pub parts: Seq<WordPartV>,
    pub tokens: Seq<TokenV>,
}

/// The pending text becomes a literal part.
pub open spec fn flush_buf(l: Lex) -> Lex {
    if l.buffer.len() > 0 {
        Lex { parts: l.parts.push(WordPartV::Literal(l.buffer)), buffer: Seq::empty(), ..l }
    } else {
        l
    }
}

/// The pending parts become an unquoted word.
pub open spec fn flush_parts(l: Lex) -> Lex {
    if l.parts.len() > 0 {
        Lex {
            tokens: l.tokens.push(TokenV::Word(WordV { parts: l.parts, quote: QuoteType::Unquoted })),
            parts: Seq::empty(),
            ..l
        }
    } else {
        l
    }
}

/// The current word ends.
pub open spec fn end_word(l: Lex) -> Lex {
    flush_parts(flush_buf(l))
}

/// The pending parts become a quoted word, even when there are none.
pub open spec fn close_quote(l: Lex, q: QuoteType) -> Lex {
    let l1 = flush_buf(l);
    Lex {
        tokens: l1.tokens.push(TokenV::Word(WordV { parts: l1.parts, quote: q })),
        parts: Seq::empty(),
        ..l1
    }
}

pub open spec fn push_tok(l: Lex, t: TokenV) -> Lex {
    Lex { tokens: l.tokens.push(t), ..l }
}

pub open spec fn push_buf(l: Lex, c: char) -> Lex {
    Lex { buffer: l.buffer.push(c), ..l }
}

pub open spec fn set_state(l: Lex, s: State) -> Lex {
    Lex { state: s, ..l }
}

pub open spec fn push_part_v(l: Lex, p: WordPartV) -> Lex {
    Lex { parts: l.parts.push(p), ..l }
}

/// A character after `{` that makes the brace a token of its own.
pub open spec fn open_brace_follower(c: char) -> bool {
    unicode_whitespace(c) || c == ';' || c == '|' || c == '&' || c == '\n'
}

/// A character after `}` that makes the brace a token of its own.
pub open spec fn close_brace_follower(c: char) -> bool {
    unicode_whitespace(c) || c == ';' || c == '|' || c == '&' || c == '\n' || c == ')' || c == '#'
        || c == '('
}

/// Characters that end an unquoted word without being part of it.
pub open spec fn word_breaker(c: char) -> bool {
    c == ' ' || c == '\t' || c == '\n' || c == '|' || c == ';' || c == '&' || c == '!' || c == '('
        || c == ')'
}

/// The substitution that `$` starts at index `i` (the `$` itself already read),
/// the current part having been flushed: the index after it and the new values.
pub open spec fn dollar_step(chars: Seq<char>, j: int, l: Lex) -> Result<(int, Lex), ShellErrorV> {
    if j < chars.len() {
        let d = chars[j];
        if d == '{' {
            let r = read_until(chars, j + 1, "{"@, "}"@, 1, Seq::empty());
            if !r.0 {
                Err(ShellErrorV::Syntax("unclosed "@ + "{"@))
            } else {
                Ok((r.1, push_part_v(l, WordPartV::VariableSubstitution(r.2))))
            }
        } else if d == '(' {
            if j + 1 < chars.len() && chars[j + 1] == '(' {
                let r = read_until(chars, j + 2, "(("@, "))"@, 1, Seq::empty());
                if !r.0 {
                    Err(ShellErrorV::Syntax("unclosed "@ + "(("@))
                } else {
                    Ok((r.1, push_part_v(l, WordPartV::ArithmeticSubstitution(r.2))))
                }
            } else {
                let r = read_until(chars, j + 1, "("@, ")"@, 1, Seq::empty());
                if !r.0 {
                    Err(ShellErrorV::Syntax("unclosed "@ + "("@))
                } else {
                    Ok((r.1, push_part_v(l, WordPartV::CommandSubstitution(r.2))))
                }
            }
        } else if var_name_char(d) {
            let k = var_end(chars, j);
            Ok((k, push_part_v(l, WordPartV::VariableSubstitution(chars.subrange(j, k)))))
        } else {
            Ok((j, push_buf(l, '$')))
        }
    } else {
        Ok((j, push_buf(l, '$')))
    }
}

/// One move of the state machine in the `Default` state on the character at `i`.
pub open spec fn default_step(chars: Seq<char>, i: int, l: Lex) -> (int, Lex) {
    let c = chars[i];
    if c == ' ' || c == '\t' || c == '\n' {
        let l1 = end_word(l);
        let l2 = if c == '\n' { push_tok(l1, TokenV::Newline) } else { l1 };
        (i + 1, set_state(l2, State::Default))
    } else if c == '{' {
        if i + 1 < chars.len() && open_brace_follower(chars[i + 1]) {
            (i + 1, set_state(push_tok(l, TokenV::OpenBrace), State::Default))
        } else {
            (i + 1, set_state(push_buf(l, '{'), State::InWord))
        }
    } else if c == '}' {
        if i + 1 >= chars.len() || close_brace_follower(chars[i + 1]) {
            (i + 1, set_state(push_tok(l, TokenV::CloseBrace), State::Default))
        } else {
            (i + 1, set_state(push_buf(l, '}'), State::InWord))
        }
    } else if c == '(' {
        (i + 1, set_state(push_tok(l, TokenV::OpenParen), State::Default))
    } else if c == ')' {
        (i + 1, set_state(push_tok(l, TokenV::CloseParen), State::Default))
    } else if c == '"' {
        (i + 1, set_state(end_word(l), State::InDoubleQuote))
    } else if c == '\'' {
        (i + 1, set_state(end_word(l), State::InSingleQuote))
    } else if c == '#' {
        (comment_end(chars, i + 1), l)
    } else if c == '&' {
        if i + 1 < chars.len() && chars[i + 1] == '&' {
            (i + 2, push_tok(l, TokenV::LogicalAnd))
        } else {
            (i + 1, push_tok(l, TokenV::Ampersand))
        }
    } else if c == '|' {
        if i + 1 < chars.len() && chars[i + 1] == '|' {
            (i + 2, push_tok(l, TokenV::LogicalOr))
        } else {
            (i + 1, push_tok(l, TokenV::Pipe))
        }
    } else if c == '!' {
        (i + 1, push_tok(l, TokenV::LogicalNot))
    } else if c == '>' {
        (i + 1, set_state(l, State::MaybeRedirectOut2))
    } else if c == '<' {
        (i + 1, set_state(l, State::MaybeRedirectIn2))
    } else if c == ';' {
        (i + 1, set_state(push_tok(end_word(l), TokenV::Semicolon), State::Default))
    } else {
        (i + 1, set_state(push_buf(l, c), State::InWord))
    }
}

/// One move in the `InWord` state on the character at `i`, `c` being neither `$` nor a quote.
pub open spec fn in_word_step(chars: Seq<char>, i: int, l: Lex) -> (int, Lex) {
    let c = chars[i];
    if word_breaker(c) {
        (i, set_state(end_word(l), State::Default))
    } else if c == '>' {
        if l.buffer.len() > 0 && all_digits(l.buffer) && digits_value(l.buffer) <= u64::MAX {
            (i + 1, set_state(Lex { buffer: Seq::empty(), ..l }, State::MaybeRedirectOut2Fd(digits_value(l.buffer) as u64)))
        } else {
            (i + 1, set_state(end_word(l), State::MaybeRedirectOut2))
        }
    } else if c == '<' {
        if l.buffer.len() > 0 && all_digits(l.buffer) && digits_value(l.buffer) <= u64::MAX {
            (i + 1, set_state(Lex { buffer: Seq::empty(), ..l }, State::MaybeRedirectIn2Fd(digits_value(l.buffer) as u64)))
        } else {
            (i + 1, set_state(end_word(l), State::MaybeRedirectIn2))
        }
    } else {
        (i + 1, push_buf(l, c))
    }
}

/// One move of the tokenizer on the character at `i`: the index of the next
/// character to read and the new working values, or the error that stops it.
pub open spec fn lex_step(chars: Seq<char>, i: int, l: Lex) -> Result<(int, Lex), ShellErrorV> {
    let c = chars[i];
    match l.state {
        State::Default => {
            if c == '$' {
                dollar_step(chars, i + 1, flush_buf(l))
            } else {
                Ok(default_step(chars, i, l))
            }
        },
        State::InWord => {
            if c == '$' {
                dollar_step(chars, i + 1, flush_buf(l))
            } else if c == '"' {
                Ok((i + 1, set_state(end_word(l), State::InDoubleQuote)))
            } else if c == '\'' {
                Ok((i + 1, set_state(end_word(l), State::InSingleQuote)))
            } else {
                Ok(in_word_step(chars, i, l))
            }
        },
        State::InDoubleQuote => {
            if c == '$' {
                dollar_step(chars, i + 1, flush_buf(l))
            } else if c == '"' {
                Ok((i + 1, set_state(close_quote(l, QuoteType::Double), State::InWord)))
            } else if c == '\\' {
                if i + 1 < chars.len() {
                    Ok((i + 2, push_buf(l, chars[i + 1])))
                } else {
                    Ok((i + 1, l))
                }
            } else {
                Ok((i + 1, push_buf(l, c)))
            }
        },
        State::InSingleQuote => {
            if c == '\'' {
                Ok((i + 1, set_state(close_quote(l, QuoteType::Single), State::InWord)))
            } else {
                Ok((i + 1, push_buf(l, c)))
            }
        },
        State::MaybeRedirectOut2 => {
            if c == '&' {
                Ok((i + 1, set_state(push_tok(push_buf(l, '&'), TokenV::RedirectOut), State::InWord)))
            } else if c == '>' {
                Ok((i + 1, set_state(push_tok(l, TokenV::RedirectAppend), State::Default)))
            } else {
                Ok((i, set_state(push_tok(l, TokenV::RedirectOut), State::Default)))
            }
        },
        State::MaybeRedirectIn2 => {
            if c == '&' {
                Ok((i + 1, set_state(push_tok(push_buf(l, '&'), TokenV::RedirectIn), State::InWord)))
            } else if c == '<' {
                Ok((i + 1, set_state(push_tok(l, TokenV::RedirectHereDoc), State::Default)))
            } else {
                Ok((i, set_state(push_tok(l, TokenV::RedirectIn), State::Default)))
            }
        },
        State::MaybeRedirectOut2Fd(n) => {
            if c == '&' {
                Ok((i + 1, set_state(push_tok(push_buf(l, '&'), TokenV::RedirectOutFd(n)), State::InWord)))
            } else if c == '>' {
                Ok((i + 1, set_state(push_tok(l, TokenV::RedirectAppendFd(n)), State::Default)))
            } else {
                Ok((i, set_state(push_tok(l, TokenV::RedirectOutFd(n)), State::Default)))
            }
        },
        State::MaybeRedirectIn2Fd(n) => {
            if c == '&' {
                Ok((i + 1, set_state(push_tok(push_buf(l, '&'), TokenV::RedirectInFd(n)), State::InWord)))
            } else if c == '<' {
                Ok((i + 1, set_state(push_tok(l, TokenV::RedirectHereDoc), State::Default)))
            } else {
                Ok((i, set_state(push_tok(l, TokenV::RedirectInFd(n)), State::Default)))
            }
        },
    }
}

/// The measure that every move of the tokenizer lowers.
pub open spec fn lex_measure(chars: Seq<char>, i: int, l: Lex) -> int {
    2 * (chars.len() - i) + if l.state == State::Default { 0int } else { 1int }
}

pub proof fn lemma_read_until_advances(
    chars: Seq<char>,
    i: int,
    start: Seq<char>,
    end: Seq<char>,
    depth: int,
    acc: Seq<char>,
)
    ensures
        read_until(chars, i, start, end, depth, acc).1 >= i,
        0 <= i <= chars.len() ==> read_until(chars, i, start, end, depth, acc).1 <= chars.len(),
    decreases chars.len() - i,
{
    if i < 0 || i >= chars.len() || start.len() == 0 || end.len() == 0 {
    } else if matches_at(chars, i, start) {
        lemma_read_until_advances(chars, i + start.len(), start, end, depth + 1, acc + start);
    } else if matches_at(chars, i, end) {
        if depth - 1 != 0 {
            lemma_read_until_advances(chars, i + end.len(), start, end, depth - 1, acc + end);
        }
    } else {
        lemma_read_until_advances(chars, i + 1, start, end, depth, acc.push(chars[i]));
    }
}

pub proof fn lemma_var_end_bounds(chars: Seq<char>, j: int)
    requires
        0 <= j <= chars.len(),
    ensures
        j <= var_end(chars, j) <= chars.len(),
    decreases chars.len() - j,
{
    if 0 <= j < chars.len() && var_name_char(chars[j]) {
        lemma_var_end_bounds(chars, j + 1);
    }
}

pub proof fn lemma_comment_end_bounds(chars: Seq<char>, j: int)
    requires
        0 <= j <= chars.len(),
    ensures
        j <= comment_end(chars, j) <= chars.len(),
    decreases chars.len() - j,
{
    if j < chars.len() && chars[j] != '\n' {
        lemma_comment_end_bounds(chars, j + 1);
    }
}

/// Every move of the tokenizer reads on within the input and lowers the measure.
pub proof fn lemma_lex_step_progress(chars: Seq<char>, i: int, l: Lex)
    requires
        0 <= i < chars.len(),
    ensures
        lex_step(chars, i, l) matches Ok((j, l2)) ==> i <= j <= chars.len() && lex_measure(chars, j, l2)
            < lex_measure(chars, i, l),
{
    let j = i + 1;
    let z = Seq::<char>::empty();
    lemma_read_until_advances(chars, j + 1, "{"@, "}"@, 1, z);
    lemma_read_until_advances(chars, j + 2, "(("@, "))"@, 1, z);
    lemma_read_until_advances(chars, j + 1, "("@, ")"@, 1, z);
    lemma_var_end_bounds(chars, j);
    lemma_comment_end_bounds(chars, i + 1);
}

/// The tokens the tokenizer ends with once the input is used up.
pub open spec fn lex_finish(l: Lex) -> Seq<TokenV> {
    end_word(l).tokens.push(TokenV::Eof)
}

/// The tokens read from `chars`, starting at `i` with working values `l`, or the error met.
pub open spec fn lex_run(chars: Seq<char>, i: int, l: Lex) -> Result<Seq<TokenV>, ShellErrorV>
    decreases lex_measure(chars, i, l),
    when 0 <= i <= chars.len()
{
    if i >= chars.len() {
        Ok(lex_finish(l))
    } else {
        match lex_step(chars, i, l) {
            Err(e) => Err(e),
            Ok((j, l2)) => {
                proof {
                    lemma_lex_step_progress(chars, i, l);
                }
                lex_run(chars, j, l2)
            },
        }
    }
}

/// The working values the tokenizer starts with.
pub open spec fn lex_start() -> Lex {
    Lex { state: State::Default, buffer: Seq::empty(), parts: Seq::empty(), tokens: Seq::empty() }
}

/// The tokens of a whole command line, or the error that stops the tokenizer.
pub open spec fn spec_tokenize(chars: Seq<char>) -> Result<Seq<TokenV>, ShellErrorV> {
    lex_run(chars, 0, lex_start())
}

} // verus!

verus! {

/// A state-machine tokenizer over the characters of one command line.
#[derive(Debug)]
pub struct Tokenizer {
    chars: Vec<char>,
    pos: usize,
}

/// The tokenizer's working values while it runs.
struct LexWork {
    state: State,
    buffer: Vec<char>,
    parts: Vec<WordPart>,
    tokens: Vec<Token>,
}

impl LexWork {
    spec fn lex(&self) -> Lex {
        Lex {
            state: self.state,
            buffer: self.buffer@,
            parts: parts_view(self.parts@),
            tokens: tokens_view(self.tokens@),
        }
    }

    fn flush_buffer(&mut self)
        ensures
            final(self).lex() == flush_buf(old(self).lex()),
    {
        if self.buffer.len() > 0 {
            let s = chars_to_string(self.buffer.as_slice());
            push_part(&mut self.parts, WordPart::Literal(s));
            self.buffer.clear();
            assert(self.lex().buffer =~= Seq::<char>::empty());
        }
    }

    fn flush_parts(&mut self)
        ensures
            final(self).lex() == flush_parts(old(self).lex()),
    {
        if self.parts.len() > 0 {
            let mut p: Vec<WordPart> = Vec::new();
            std::mem::swap(&mut p, &mut self.parts);
            push_token(&mut self.tokens, Token::Word(Word { parts: p, quote: QuoteType::Unquoted }));
            assert(parts_view(self.parts@) =~= Seq::<WordPartV>::empty());
        }
    }

    fn end_word(&mut self)
        ensures
            final(self).lex() == end_word(old(self).lex()),
    {
        self.flush_buffer();
        self.flush_parts();
    }

    fn close_quote(&mut self, q: QuoteType)
        ensures
            final(self).lex() == close_quote(old(self).lex(), q),
    {
        self.flush_buffer();
        let mut p: Vec<WordPart> = Vec::new();
        std::mem::swap(&mut p, &mut self.parts);
        push_token(&mut self.tokens, Token::Word(Word { parts: p, quote: q }));
        assert(parts_view(self.parts@) =~= Seq::<WordPartV>::empty());
    }

    fn push_tok(&mut self, t: Token)
        ensures
            final(self).lex() == push_tok(old(self).lex(), t@),
    {
        push_token(&mut self.tokens, t);
    }
}

/// Every character of `v` is an ASCII digit (`chars().all(|c| c.is_ascii_digit())`).
fn all_ascii_digits(v: &Vec<char>) -> (r: bool)
    ensures
        r == all_digits(v@),
{
    let mut i: usize = 0;
    while i < v.len()
        invariant
            0 <= i <= v@.len(),
            forall|k: int| 0 <= k < i ==> crate::strings::ascii_digit(#[trigger] v@[k]),
        decreases v@.len() - i,
    {
        if !is_ascii_digit(v[i]) {
            return false;
        }
        i = i + 1;
    }
    true
}

impl Tokenizer {
    #[verifier::type_invariant]
    spec fn position_in_input(&self) -> bool {
        self.pos <= self.chars@.len()
    }

    /// The characters of the command line.
    pub closed spec fn input(&self) -> Seq<char> {
        self.chars@
    }

    /// How many characters have been read.
    pub closed spec fn position(&self) -> int {
        self.pos as int
    }

    /// A tokenizer at the start of `input`.
    pub fn new(input: &str) -> (t: Self)
        ensures
            t.input() == input@,
            t.position() == 0,
    {
        Tokenizer { chars: str_to_chars(input), pos: 0 }
    }

    /// Whether the unread input starts with `s`.
    fn peek_matches(&self, s: &str) -> (r: bool)
        requires
            self.pos <= self.chars@.len(),
        ensures
            r == matches_at(self.chars@, self.pos as int, s@),
    {
        let pat = str_to_chars(s);
        let n = self.chars.len();
        if pat.len() > n - self.pos {
            return false;
        }
        let mut k: usize = 0;
        while k < pat.len()
            invariant
                0 <= k <= pat@.len(),
                pat@ == s@,
                n == self.chars@.len(),
                self.pos + pat@.len() <= n,
                forall|m: int| 0 <= m < k ==> self.chars@[self.pos + m] == #[trigger] pat@[m],
            decreases pat@.len() - k,
        {
            if self.chars[self.pos + k] != pat[k] {
                assert(self.chars@.subrange(self.pos as int, self.pos + pat@.len())[k as int]
                    != pat@[k as int]);
                return false;
            }
            k = k + 1;
        }
        assert(self.chars@.subrange(self.pos as int, self.pos + pat@.len()) =~= pat@);
        true
    }

    /// Reads a bracketed text opened just before the current position, up to
    /// the matching `end`, appending it to `buffer` (nested brackets kept).
    fn read_until_matching(&mut self, start: &str, end: &str, buffer: &mut String) -> (r: Result<
        (),
        ShellError,
    >)
        requires
            1 <= old(self).pos <= old(self).chars@.len(),
            start@.len() > 0,
            end@.len() > 0,
        ensures
            final(self).chars@ == old(self).chars@,
            ({
                let res = read_until(old(self).chars@, old(self).pos as int, start@, end@, 1, Seq::empty());
                &&& final(self).pos == res.1
                &&& final(buffer)@ == old(buffer)@ + res.2
                &&& (r is Ok <==> res.0)
                &&& (r matches Err(e) ==> e@ == ShellErrorV::Syntax("unclosed "@ + start@))
            }),
    {
        let ghost chars = self.chars@;
        let ghost total = read_until(chars, self.pos as int, start@, end@, 1, Seq::empty());
        let ghost old_buffer = buffer@;
        let start_chars = str_to_chars(start);
        let end_chars = str_to_chars(end);
        let start_len = start_chars.len();
        let end_len = end_chars.len();
        let mut depth: usize = 1;
        let _n = self.chars.len();
        let ghost mut acc: Seq<char> = Seq::empty();
        let mut found = false;
        while self.pos < self.chars.len()
            invariant_except_break
                self.chars@ == chars,
                chars.len() <= usize::MAX,
                self.pos <= chars.len(),
                start_chars@ == start@,
                end_chars@ == end@,
                start_len == start@.len(),
                end_len == end@.len(),
                start@.len() > 0,
                end@.len() > 0,
                1 <= depth <= self.pos,
                !found,
                buffer@ == old_buffer + acc,
                read_until(chars, self.pos as int, start@, end@, depth as int, acc) == total,
            ensures
                self.chars@ == chars,
                found == total.0,
                self.pos == total.1,
                buffer@ == old_buffer + total.2,
            decreases chars.len() - self.pos,
        {
            if self.peek_matches(start) {
                let ghost p0 = self.pos as int;
                assert(read_until(chars, p0, start@, end@, depth as int, acc) == read_until(
                    chars, p0 + start@.len(), start@, end@, depth + 1, acc + start@));
                let mut k: usize = 0;
                while k < start_len
                    invariant
                        self.chars@ == chars,
                        chars.len() <= usize::MAX,
                        self.pos == p0 + k,
                        start_chars@ == start@,
                        start_len == start@.len(),
                        0 <= k <= start_len,
                        matches_at(chars, self.pos - k, start@),
                        self.pos - k + start_len <= chars.len(),
                        k <= self.pos,
                        1 <= depth <= self.pos - k,
                        buffer@ == old_buffer + acc + start@.subrange(0, k as int),
                    decreases start_len - k,
                {
                    let c = self.chars[self.pos];
                    assert(chars.subrange(self.pos - k, self.pos - k + start@.len())[k as int] == c);
                    string_push(buffer, c);
                    assert(start@.subrange(0, k + 1) =~= start@.subrange(0, k as int).push(c));
                    self.pos = self.pos + 1;
                    k = k + 1;
                }
                assert(start@.subrange(0, start_len as int) =~= start@);
                assert(old_buffer + acc + start@ =~= old_buffer + (acc + start@));
                proof {
                    acc = acc + start@;
                }
                depth = depth + 1;
                continue;
            }
            if self.peek_matches(end) {
                self.pos = self.pos + end_len;
                depth = depth - 1;
                if depth == 0 {
                    found = true;
                    break;
                }
                buffer.append(end);
                assert(old_buffer + acc + end@ =~= old_buffer + (acc + end@));
                proof {
                    acc = acc + end@;
                }
                continue;
            }
            let c = self.chars[self.pos];
            string_push(buffer, c);
            assert(old_buffer + acc.push(c) =~= (old_buffer + acc).push(c));
            proof {
                acc = acc.push(c);
            }
            self.pos = self.pos + 1;
        }
        if found {
            Ok(())
        } else {
            let mut msg = String::from_str("unclosed ");
            msg.append(start);
            Err(ShellError::Syntax(msg))
        }
    }
}

} // verus!

verus! {

/// `char` test used after `{`.
fn is_open_brace_follower(c: char) -> (r: bool)
    ensures
        r == open_brace_follower(c),
{
    char_is_whitespace(c) || c == ';' || c == '|' || c == '&' || c == '\n'
}

/// `char` test used after `}`.
fn is_close_brace_follower(c: char) -> (r: bool)
    ensures
        r == close_brace_follower(c),
{
    char_is_whitespace(c) || c == ';' || c == '|' || c == '&' || c == '\n' || c == ')' || c == '#'
        || c == '('
}

impl Tokenizer {
    /// After a `$`: reads the substitution it starts, or keeps the `$` as text.
    fn lex_dollar(&mut self, w: &mut LexWork) -> (r: Result<(), ShellError>)
        requires
            1 <= old(self).pos <= old(self).chars@.len(),
        ensures
            final(self).chars@ == old(self).chars@,
            match dollar_step(old(self).chars@, old(self).pos as int, old(w).lex()) {
                Ok((j, l2)) => r is Ok && final(self).pos == j && final(w).lex() == l2,
                Err(e) => r matches Err(e2) && e2@ == e,
            },
    {
        let n = self.chars.len();
        if self.pos < n {
            let d = self.chars[self.pos];
            if d == '{' {
                self.pos = self.pos + 1;
                let mut var = String::new();
                proof {
                    reveal_strlit("{");
                    reveal_strlit("}");
                }
                match self.read_until_matching("{", "}", &mut var) {
                    Err(e) => {
                        return Err(e);
                    },
                    Ok(()) => {},
                }
                assert(Seq::<char>::empty() + read_until(self.chars@, old(self).pos + 1, "{"@, "}"@, 1, Seq::empty()).2
                    =~= read_until(self.chars@, old(self).pos + 1, "{"@, "}"@, 1, Seq::empty()).2);
                push_part(&mut w.parts, WordPart::VariableSubstitution(var));
            } else if d == '(' {
                self.pos = self.pos + 1;
                if self.pos < n && self.chars[self.pos] == '(' {
                    self.pos = self.pos + 1;
                    let mut expr = String::new();
                    proof {
                        reveal_strlit("((");
                        reveal_strlit("))");
                    }
                    match self.read_until_matching("((", "))", &mut expr) {
                        Err(e) => {
                            return Err(e);
                        },
                        Ok(()) => {},
                    }
                    assert(Seq::<char>::empty() + read_until(self.chars@, old(self).pos + 2, "(("@, "))"@, 1, Seq::empty()).2
                        =~= read_until(self.chars@, old(self).pos + 2, "(("@, "))"@, 1, Seq::empty()).2);
                    push_part(&mut w.parts, WordPart::ArithmeticSubstitution(expr));
                } else {
                    let mut cmd = String::new();
                    proof {
                        reveal_strlit("(");
                        reveal_strlit(")");
                    }
                    match self.read_until_matching("(", ")", &mut cmd) {
                        Err(e) => {
                            return Err(e);
                        },
                        Ok(()) => {},
                    }
                    assert(Seq::<char>::empty() + read_until(self.chars@, old(self).pos + 1, "("@, ")"@, 1, Seq::empty()).2
                        =~= read_until(self.chars@, old(self).pos + 1, "("@, ")"@, 1, Seq::empty()).2);
                    push_part(&mut w.parts, WordPart::CommandSubstitution(cmd));
                }
            } else if char_is_alphanumeric(d) || d == '_' {
                let ghost j = self.pos as int;
                let mut var: Vec<char> = Vec::new();
                while self.pos < n && (char_is_alphanumeric(self.chars[self.pos]) || self.chars[self.pos] == '_')
                    invariant
                        self.chars@ == old(self).chars@,
                        n == self.chars@.len(),
                        0 <= j <= self.pos <= n,
                        var@ == self.chars@.subrange(j, self.pos as int),
                        var_end(self.chars@, self.pos as int) == var_end(self.chars@, j),
                    decreases n - self.pos,
                {
                    let ch = self.chars[self.pos];
                    let ghost before = var@;
                    var.push(ch);
                    assert(self.chars@[self.pos as int] == ch);
                    assert(var@ == before.push(ch));
                    assert(self.chars@.subrange(j, self.pos + 1) =~= self.chars@.subrange(j, self.pos as int).push(ch));
                    self.pos = self.pos + 1;
                }
                let name = chars_to_string(var.as_slice());
                push_part(&mut w.parts, WordPart::VariableSubstitution(name));
            } else {
                w.buffer.push('$');
            }
        } else {
            w.buffer.push('$');
        }
        Ok(())
    }

    /// One move in the `Default` state on a character other than `$`.
    fn lex_default(&mut self, w: &mut LexWork)
        requires
            old(self).pos < old(self).chars@.len(),
            old(w).state == State::Default,
            old(self).chars@[old(self).pos as int] != '$',
        ensures
            final(self).chars@ == old(self).chars@,
            (final(self).pos as int, final(w).lex()) == default_step(old(self).chars@, old(self).pos as int, old(w).lex()),
    {
        let n = self.chars.len();
        let c = self.chars[self.pos];
        self.pos = self.pos + 1;
        if c == ' ' || c == '\t' || c == '\n' {
            w.end_word();
            if c == '\n' {
                w.push_tok(Token::Newline);
            }
            w.state = State::Default;
        } else if c == '{' {
            if self.pos < n && is_open_brace_follower(self.chars[self.pos]) {
                w.push_tok(Token::OpenBrace);
                w.state = State::Default;
            } else {
                w.buffer.push('{');
                w.state = State::InWord;
            }
        } else if c == '}' {
            if self.pos >= n || is_close_brace_follower(self.chars[self.pos]) {
                w.push_tok(Token::CloseBrace);
                w.state = State::Default;
            } else {
                w.buffer.push('}');
                w.state = State::InWord;
            }
        } else if c == '(' {
            w.push_tok(Token::OpenParen);
            w.state = State::Default;
        } else if c == ')' {
            w.push_tok(Token::CloseParen);
            w.state = State::Default;
        } else if c == '"' {
            w.end_word();
            w.state = State::InDoubleQuote;
        } else if c == '\'' {
            w.end_word();
            w.state = State::InSingleQuote;
        } else if c == '#' {
            let ghost j = self.pos as int;
            while self.pos < n
                invariant_except_break
                    self.chars@ == old(self).chars@,
                    n == self.chars@.len(),
                    j <= self.pos <= n,
                    comment_end(self.chars@, self.pos as int) == comment_end(self.chars@, j),
                ensures
                    self.chars@ == old(self).chars@,
                    self.pos == comment_end(self.chars@, j),
                decreases n - self.pos,
            {
                let d = self.chars[self.pos];
                self.pos = self.pos + 1;
                if d == '\n' {
                    break;
                }
            }
        } else if c == '&' {
            if self.pos < n && self.chars[self.pos] == '&' {
                self.pos = self.pos + 1;
                w.push_tok(Token::LogicalAnd);
            } else {
                w.push_tok(Token::Ampersand);
            }
        } else if c == '|' {
            if self.pos < n && self.chars[self.pos] == '|' {
                self.pos = self.pos + 1;
                w.push_tok(Token::LogicalOr);
            } else {
                w.push_tok(Token::Pipe);
            }
        } else if c == '!' {
            w.push_tok(Token::LogicalNot);
        } else if c == '>' {
            w.state = State::MaybeRedirectOut2;
        } else if c == '<' {
            w.state = State::MaybeRedirectIn2;
        } else if c == ';' {
            w.end_word();
            w.push_tok(Token::Semicolon);
            w.state = State::Default;
        } else {
            w.buffer.push(c);
            w.state = State::InWord;
        }
    }

    /// One move in the `InWord` state on a character other than `$` and quotes.
    fn lex_in_word(&mut self, w: &mut LexWork)
        requires
            old(self).pos < old(self).chars@.len(),
            old(w).state == State::InWord,
        ensures
            final(self).chars@ == old(self).chars@,
            (final(self).pos as int, final(w).lex()) == in_word_step(old(self).chars@, old(self).pos as int, old(w).lex()),
    {
        let _n = self.chars.len();
        let c = self.chars[self.pos];
        if c == ' ' || c == '\t' || c == '\n' || c == '|' || c == ';' || c == '&' || c == '!' || c == '('
            || c == ')' {
            w.end_word();
            w.state = State::Default;
        } else if c == '>' || c == '<' {
            self.pos = self.pos + 1;
            let mut fd: Option<u64> = None;
            if w.buffer.len() > 0 && all_ascii_digits(&w.buffer) {
                fd = parse_u64_digits(&w.buffer);
            }
            match fd {
                Some(n) => {
                    w.buffer.clear();
                    assert(w.buffer@ =~= Seq::<char>::empty());
                    if c == '>' {
                        w.state = State::MaybeRedirectOut2Fd(n);
                    } else {
                        w.state = State::MaybeRedirectIn2Fd(n);
                    }
                },
                None => {
                    w.end_word();
                    if c == '>' {
                        w.state = State::MaybeRedirectOut2;
                    } else {
                        w.state = State::MaybeRedirectIn2;
                    }
                },
            }
        } else {
            self.pos = self.pos + 1;
            w.buffer.push(c);
        }
    }
}

} // verus!

verus! {

impl Tokenizer {
    /// One move of the state machine on the next character.
    fn lex_step(&mut self, w: &mut LexWork) -> (r: Result<(), ShellError>)
        requires
            old(self).pos < old(self).chars@.len(),
        ensures
            final(self).chars@ == old(self).chars@,
            match lex_step(old(self).chars@, old(self).pos as int, old(w).lex()) {
                Ok((j, l2)) => r is Ok && final(self).pos == j && final(w).lex() == l2,
                Err(e) => r matches Err(e2) && e2@ == e,
            },
    {
        let n = self.chars.len();
        let c = self.chars[self.pos];
        match w.state {
            State::Default => {
                if c == '$' {
                    self.pos = self.pos + 1;
                    w.flush_buffer();
                    self.lex_dollar(w)
                } else {
                    self.lex_default(w);
                    Ok(())
                }
            },
            State::InWord => {
                if c == '$' {
                    self.pos = self.pos + 1;
                    w.flush_buffer();
                    self.lex_dollar(w)
                } else if c == '"' {
                    self.pos = self.pos + 1;
                    w.end_word();
                    w.state = State::InDoubleQuote;
                    Ok(())
                } else if c == '\'' {
                    self.pos = self.pos + 1;
                    w.end_word();
                    w.state = State::InSingleQuote;
                    Ok(())
                } else {
                    self.lex_in_word(w);
                    Ok(())
                }
            },
            State::InDoubleQuote => {
                if c == '$' {
                    self.pos = self.pos + 1;
                    w.flush_buffer();
                    self.lex_dollar(w)
                } else if c == '"' {
                    self.pos = self.pos + 1;
                    w.close_quote(QuoteType::Double);
                    w.state = State::InWord;
                    Ok(())
                } else if c == '\\' {
                    self.pos = self.pos + 1;
                    if self.pos < n {
                        let d = self.chars[self.pos];
                        self.pos = self.pos + 1;
                        w.buffer.push(d);
                    }
                    Ok(())
                } else {
                    self.pos = self.pos + 1;
                    w.buffer.push(c);
                    Ok(())
                }
            },
            State::InSingleQuote => {
                self.pos = self.pos + 1;
                if c == '\'' {
                    w.close_quote(QuoteType::Single);
                    w.state = State::InWord;
                } else {
                    w.buffer.push(c);
                }
                Ok(())
            },
            State::MaybeRedirectOut2 => {
                if c == '&' {
                    w.buffer.push('&');
                    self.pos = self.pos + 1;
                    w.push_tok(Token::RedirectOut);
                    w.state = State::InWord;
                } else if c == '>' {
                    self.pos = self.pos + 1;
                    w.push_tok(Token::RedirectAppend);
                    w.state = State::Default;
                } else {
                    w.push_tok(Token::RedirectOut);
                    w.state = State::Default;
                }
                Ok(())
            },
            State::MaybeRedirectIn2 => {
                if c == '&' {
                    w.buffer.push('&');
                    self.pos = self.pos + 1;
                    w.push_tok(Token::RedirectIn);
                    w.state = State::InWord;
                } else if c == '<' {
                    self.pos = self.pos + 1;
                    w.push_tok(Token::RedirectHereDoc);
                    w.state = State::Default;
                } else {
                    w.push_tok(Token::RedirectIn);
                    w.state = State::Default;
                }
                Ok(())
            },
            State::MaybeRedirectOut2Fd(fd) => {
                if c == '&' {
                    w.buffer.push('&');
                    self.pos = self.pos + 1;
                    w.push_tok(Token::RedirectOutFd(fd));
                    w.state = State::InWord;
                } else if c == '>' {
                    self.pos = self.pos + 1;
                    w.push_tok(Token::RedirectAppendFd(fd));
                    w.state = State::Default;
                } else {
                    w.push_tok(Token::RedirectOutFd(fd));
                    w.state = State::Default;
                }
                Ok(())
            },
            State::MaybeRedirectIn2Fd(fd) => {
                if c == '&' {
                    w.buffer.push('&');
                    self.pos = self.pos + 1;
                    w.push_tok(Token::RedirectInFd(fd));
                    w.state = State::InWord;
                } else if c == '<' {
                    self.pos = self.pos + 1;
                    w.push_tok(Token::RedirectHereDoc);
                    w.state = State::Default;
                } else {
                    w.push_tok(Token::RedirectInFd(fd));
                    w.state = State::Default;
                }
                Ok(())
            },
        }
    }

    /// Splits the rest of the input into tokens, ending with `Eof`: the tokens
    /// the state machine `lex_run` describes, or the error that stopped it.
    pub fn tokenize(&mut self) -> (r: Result<Vec<Token>, ShellError>)
        ensures
            final(self).input() == old(self).input(),
            match lex_run(old(self).input(), old(self).position(), lex_start()) {
                Ok(ts) => r matches Ok(v) && tokens_view(v@) == ts && final(self).position()
                    == final(self).input().len(),
                Err(e) => r matches Err(e2) && e2@ == e,
            },
    {
        proof {
            use_type_invariant(&*self);
        }
        let mut w = LexWork {
            state: State::Default,
            buffer: Vec::new(),
            parts: Vec::new(),
            tokens: Vec::new(),
        };
        assert(w.lex() == lex_start()) by {
            assert(parts_view(w.parts@) =~= Seq::<WordPartV>::empty());
            assert(tokens_view(w.tokens@) =~= Seq::<TokenV>::empty());
        }
        let ghost chars = self.chars@;
        let ghost total = lex_run(chars, self.pos as int, lex_start());
        while self.pos < self.chars.len()
            invariant
                self.chars@ == chars,
                chars == old(self).chars@,
                total == lex_run(old(self).chars@, old(self).pos as int, lex_start()),
                self.pos <= chars.len(),
                lex_run(chars, self.pos as int, w.lex()) == total,
            decreases lex_measure(chars, self.pos as int, w.lex()),
        {
            proof {
                lemma_lex_step_progress(chars, self.pos as int, w.lex());
            }
            let ghost p0 = self.pos as int;
            let ghost l0 = w.lex();
            let r = self.lex_step(&mut w);
            match r {
                Err(e) => {
                    assert(lex_run(chars, p0, l0) == Err::<Seq<TokenV>, ShellErrorV>(e@));
                    return Err(e);
                },
                Ok(()) => {},
            }
        }
        w.end_word();
        w.push_tok(Token::Eof);
        Ok(w.tokens)
    }
}

} // verus!

verus! {

/// No token of `s` is `Eof`.
pub open spec fn no_eof(s: Seq<TokenV>) -> bool {
    forall|k: int| 0 <= k < s.len() ==> !(#[trigger] s[k] is Eof)
}

pub broadcast proof fn lemma_push_keeps_no_eof(s: Seq<TokenV>, t: TokenV)
    requires
        no_eof(s),
        !(t is Eof),
    ensures
        #[trigger] no_eof(s.push(t)),
{
    assert forall|k: int| 0 <= k < s.push(t).len() implies !(#[trigger] s.push(t)[k] is Eof) by {
        if k < s.len() {
            assert(s.push(t)[k] == s[k]);
        }
    }
}

pub proof fn lemma_step_keeps_no_eof(chars: Seq<char>, i: int, l: Lex)
    requires
        0 <= i < chars.len(),
        no_eof(l.tokens),
    ensures
        lex_step(chars, i, l) matches Ok((j, l2)) ==> no_eof(l2.tokens),
{
    broadcast use lemma_push_keeps_no_eof;

    let l1 = flush_buf(l);
    assert(no_eof(l1.tokens));
    assert(no_eof(end_word(l).tokens));
}

pub proof fn lemma_run_ends_with_eof(chars: Seq<char>, i: int, l: Lex)
    requires
        0 <= i <= chars.len(),
        no_eof(l.tokens),
    ensures
        lex_run(chars, i, l) matches Ok(t) ==> t.len() > 0 && t.last() is Eof && no_eof(t.drop_last()),
    decreases lex_measure(chars, i, l),
{
    broadcast use lemma_push_keeps_no_eof;

    if i >= chars.len() {
        assert(no_eof(end_word(l).tokens));
        assert(lex_finish(l).drop_last() =~= end_word(l).tokens);
    } else {
        lemma_lex_step_progress(chars, i, l);
        lemma_step_keeps_no_eof(chars, i, l);
        match lex_step(chars, i, l) {
            Ok((j, l2)) => {
                lemma_run_ends_with_eof(chars, j, l2);
            },
            Err(_) => {},
        }
    }
}

/// A command line that tokenizes gives a token list that ends with `Eof`,
/// and `Eof` nowhere else.
pub proof fn law_tokens_end_with_eof(chars: Seq<char>)
    ensures
        spec_tokenize(chars) matches Ok(t) ==> t.len() > 0 && t.last() is Eof && no_eof(t.drop_last()),
{
    lemma_run_ends_with_eof(chars, 0, lex_start());
}

/// No part of `ps` is an empty literal.
pub open spec fn no_empty_literal(ps: Seq<WordPartV>) -> bool {
    forall|k: int| 0 <= k < ps.len() ==> !(#[trigger] ps[k] matches WordPartV::Literal(x) && x.len() == 0)
}

/// A token that is a word has no empty literal part, and has at least one
/// part when it is unquoted.
pub open spec fn word_ok(t: TokenV) -> bool {
    match t {
        TokenV::Word(w) => no_empty_literal(w.parts) && (w.quote == QuoteType::Unquoted ==> w.parts.len() > 0),
        _ => true,
    }
}

/// Every word among `s` is as `word_ok` asks.
pub open spec fn words_ok(s: Seq<TokenV>) -> bool {
    forall|k: int| 0 <= k < s.len() ==> word_ok(#[trigger] s[k])
}

pub broadcast proof fn lemma_push_keeps_words_ok(s: Seq<TokenV>, t: TokenV)
    requires
        words_ok(s),
        word_ok(t),
    ensures
        #[trigger] words_ok(s.push(t)),
{
    assert forall|k: int| 0 <= k < s.push(t).len() implies word_ok(#[trigger] s.push(t)[k]) by {
        if k < s.len() {
            assert(s.push(t)[k] == s[k]);
        }
    }
}

pub broadcast proof fn lemma_push_keeps_no_empty_literal(ps: Seq<WordPartV>, p: WordPartV)
    requires
        no_empty_literal(ps),
        !(p matches WordPartV::Literal(x) && x.len() == 0),
    ensures
        #[trigger] no_empty_literal(ps.push(p)),
{
    assert forall|k: int| 0 <= k < ps.push(p).len() implies !(#[trigger] ps.push(p)[k] matches WordPartV::Literal(
        x,
    ) && x.len() == 0) by {
        if k < ps.len() {
            assert(ps.push(p)[k] == ps[k]);
        }
    }
}

/// The working values hold only words as `word_ok` asks and parts with no
/// empty literal.
pub open spec fn lex_ok(l: Lex) -> bool {
    words_ok(l.tokens) && no_empty_literal(l.parts)
}

proof fn lemma_end_word_ok(l: Lex)
    requires
        lex_ok(l),
    ensures
        lex_ok(flush_buf(l)),
        lex_ok(end_word(l)),
        lex_ok(close_quote(l, QuoteType::Single)),
        lex_ok(close_quote(l, QuoteType::Double)),
{
    broadcast use lemma_push_keeps_words_ok, lemma_push_keeps_no_empty_literal;

    let l1 = flush_buf(l);
    assert(no_empty_literal(Seq::<WordPartV>::empty()));
    assert(lex_ok(l1));
    assert(lex_ok(flush_parts(l1)));
}

proof fn lemma_dollar_step_ok(chars: Seq<char>, j: int, l: Lex)
    requires
        lex_ok(l),
    ensures
        dollar_step(chars, j, l) matches Ok((k, l2)) ==> lex_ok(l2),
{
    broadcast use lemma_push_keeps_words_ok, lemma_push_keeps_no_empty_literal;
}

proof fn lemma_step_keeps_ok(chars: Seq<char>, i: int, l: Lex)
    requires
        0 <= i < chars.len(),
        lex_ok(l),
    ensures
        lex_step(chars, i, l) matches Ok((j, l2)) ==> lex_ok(l2),
{
    broadcast use lemma_push_keeps_words_ok, lemma_push_keeps_no_empty_literal;

    lemma_end_word_ok(l);
    lemma_dollar_step_ok(chars, i + 1, flush_buf(l));
    lemma_end_word_ok(push_tok(l, TokenV::Newline));
    let e = end_word(l);
    assert(lex_ok(push_tok(e, TokenV::Newline)));
    assert(lex_ok(push_tok(e, TokenV::Semicolon)));
}

proof fn lemma_run_words_ok(chars: Seq<char>, i: int, l: Lex)
    requires
        0 <= i <= chars.len(),
        lex_ok(l),
    ensures
        lex_run(chars, i, l) matches Ok(t) ==> words_ok(t),
    decreases lex_measure(chars, i, l),
{
    broadcast use lemma_push_keeps_words_ok;

    if i >= chars.len() {
        lemma_end_word_ok(l);
    } else {
        lemma_lex_step_progress(chars, i, l);
        lemma_step_keeps_ok(chars, i, l);
        match lex_step(chars, i, l) {
            Ok((j, l2)) => {
                lemma_run_words_ok(chars, j, l2);
            },
            Err(_) => {},
        }
    }
}

/// A command line that tokenizes gives only words that have no empty
/// literal part, and an unquoted word has at least one part.
pub proof fn law_tokens_words_nonempty(chars: Seq<char>)
    ensures
        spec_tokenize(chars) matches Ok(t) ==> words_ok(t),
{
    assert(no_empty_literal(lex_start().parts));
    lemma_run_words_ok(chars, 0, lex_start());
}

proof fn lemma_single_quoted_run(c: Seq<char>, i: int, l: Lex, x: Seq<char>)
    requires
        0 <= i,
        i + x.len() < c.len(),
        c.subrange(i, i + x.len()) == x,
        forall|k: int| 0 <= k < x.len() ==> #[trigger] x[k] != '\'',
        l.state == State::InSingleQuote,
    ensures
        lex_run(c, i, l) == lex_run(c, i + x.len(), Lex { buffer: l.buffer + x, ..l }),
    decreases x.len(),
{
    if x.len() == 0 {
        assert(l.buffer + x =~= l.buffer);
        assert(Lex { buffer: l.buffer + x, ..l } == l);
    } else {
        assert(c[i] == x[0]);
        let l2 = push_buf(l, c[i]);
        let x2 = x.subrange(1, x.len() as int);
        assert(c.subrange(i + 1, i + 1 + x2.len()) =~= x2);
        lemma_single_quoted_run(c, i + 1, l2, x2);
        assert(l2.buffer + x2 =~= l.buffer + x);
    }
}

/// A single-quoted text with no quote inside, alone on the line, comes out
/// as one single-quoted word holding the text as one literal (no part at
/// all when the text is empty), then `Eof`.
pub proof fn law_single_quoted_word(x: Seq<char>)
    requires
        forall|k: int| 0 <= k < x.len() ==> #[trigger] x[k] != '\'',
    ensures
        spec_tokenize(seq!['\''] + x + seq!['\'']) == Ok::<Seq<TokenV>, ShellErrorV>(seq![
            TokenV::Word(WordV {
                parts: if x.len() > 0 { seq![WordPartV::Literal(x)] } else { Seq::empty() },
                quote: QuoteType::Single,
            }),
            TokenV::Eof,
        ]),
{
    let c = seq!['\''] + x + seq!['\''];
    let n = x.len() as int;
    assert(c[0] == '\'');
    assert(c.subrange(1, 1 + n) =~= x);
    assert(c[1 + n] == '\'');
    let l0 = lex_start();
    let l1 = set_state(end_word(l0), State::InSingleQuote);
    assert(lex_step(c, 0, l0) == Ok::<(int, Lex), ShellErrorV>((1, l1)));
    assert(spec_tokenize(c) == lex_run(c, 1, l1));
    lemma_single_quoted_run(c, 1, l1, x);
    let l2 = Lex { buffer: l1.buffer + x, ..l1 };
    assert(l2.buffer =~= x);
    let l3 = set_state(close_quote(l2, QuoteType::Single), State::InWord);
    assert(lex_step(c, 1 + n, l2) == Ok::<(int, Lex), ShellErrorV>((2 + n, l3)));
    assert(lex_run(c, 1 + n, l2) == lex_run(c, 2 + n, l3));
    assert(lex_run(c, 2 + n, l3) == Ok::<Seq<TokenV>, ShellErrorV>(lex_finish(l3)));
    if x.len() > 0 {
        assert(l3.tokens =~= seq![TokenV::Word(WordV { parts: seq![WordPartV::Literal(x)], quote: QuoteType::Single })]);
    } else {
        assert(l3.tokens =~= seq![TokenV::Word(WordV { parts: Seq::empty(), quote: QuoteType::Single })]);
    }
    assert(lex_finish(l3) =~= l3.tokens.push(TokenV::Eof));
    let w = TokenV::Word(WordV {
        parts: if x.len() > 0 { seq![WordPartV::Literal(x)] } else { Seq::empty() },
        quote: QuoteType::Single,
    });
    assert(l3.tokens.push(TokenV::Eof) =~= seq![w, TokenV::Eof]);
}

/// Inside double quotes, a backslash and the character after it add that
/// character alone to the word's text, and reading goes on after both.
pub proof fn law_double_quote_escape(chars: Seq<char>, i: int, l: Lex)
    requires
        0 <= i,
        i + 1 < chars.len(),
        chars[i] == '\\',
        l.state == State::InDoubleQuote,
    ensures
        lex_run(chars, i, l) == lex_run(chars, i + 2, Lex { buffer: l.buffer.push(chars[i + 1]), ..l }),
{
    lemma_lex_step_progress(chars, i, l);
}

proof fn lemma_double_quoted_run(c: Seq<char>, i: int, l: Lex, x: Seq<char>)
    requires
        0 <= i,
        i + x.len() < c.len(),
        c.subrange(i, i + x.len()) == x,
        forall|k: int| 0 <= k < x.len() ==> #[trigger] x[k] != '"' && x[k] != '\\' && x[k] != '$',
        l.state == State::InDoubleQuote,
    ensures
        lex_run(c, i, l) == lex_run(c, i + x.len(), Lex { buffer: l.buffer + x, ..l }),
    decreases x.len(),
{
    if x.len() == 0 {
        assert(l.buffer + x =~= l.buffer);
        assert(Lex { buffer: l.buffer + x, ..l } == l);
    } else {
        assert(c[i] == x[0]);
        let l2 = push_buf(l, c[i]);
        let x2 = x.subrange(1, x.len() as int);
        assert(c.subrange(i + 1, i + 1 + x2.len()) =~= x2);
        lemma_double_quoted_run(c, i + 1, l2, x2);
        assert(l2.buffer + x2 =~= l.buffer + x);
    }
}

/// A double-quoted text `x` (no quote, backslash or `$` in it) followed by
/// a backslash and any character `d`, alone on the line, comes out as one
/// double-quoted word holding `x` then `d` as one literal, then `Eof`.
pub proof fn law_double_quoted_escaped_char(x: Seq<char>, d: char)
    requires
        forall|k: int| 0 <= k < x.len() ==> #[trigger] x[k] != '"' && x[k] != '\\' && x[k] != '$',
    ensures
        spec_tokenize(seq!['"'] + x + seq!['\\', d, '"']) == Ok::<Seq<TokenV>, ShellErrorV>(seq![
            TokenV::Word(WordV { parts: seq![WordPartV::Literal(x.push(d))], quote: QuoteType::Double }),
            TokenV::Eof,
        ]),
{
    let c = seq!['"'] + x + seq!['\\', d, '"'];
    let n = x.len() as int;
    assert(c[0] == '"');
    assert(c.subrange(1, 1 + n) =~= x);
    assert(c[1 + n] == '\\');
    assert(c[2 + n] == d);
    assert(c[3 + n] == '"');
    let l0 = lex_start();
    let l1 = set_state(end_word(l0), State::InDoubleQuote);
    assert(lex_step(c, 0, l0) == Ok::<(int, Lex), ShellErrorV>((1, l1)));
    assert(spec_tokenize(c) == lex_run(c, 1, l1));
    lemma_double_quoted_run(c, 1, l1, x);
    let l2 = Lex { buffer: l1.buffer + x, ..l1 };
    law_double_quote_escape(c, 1 + n, l2);
    let l3 = Lex { buffer: l2.buffer.push(d), ..l2 };
    assert(l3.buffer =~= x.push(d));
    let l4 = set_state(close_quote(l3, QuoteType::Double), State::InWord);
    assert(lex_step(c, 3 + n, l3) == Ok::<(int, Lex), ShellErrorV>((4 + n, l4)));
    assert(lex_run(c, 3 + n, l3) == lex_run(c, 4 + n, l4));
    assert(lex_run(c, 4 + n, l4) == Ok::<Seq<TokenV>, ShellErrorV>(lex_finish(l4)));
    assert(l4.tokens =~= seq![TokenV::Word(WordV { parts: seq![WordPartV::Literal(x.push(d))], quote: QuoteType::Double })]);
    assert(lex_finish(l4) =~= l4.tokens.push(TokenV::Eof));
    let w = TokenV::Word(WordV { parts: seq![WordPartV::Literal(x.push(d))], quote: QuoteType::Double });
    assert(l4.tokens.push(TokenV::Eof) =~= seq![w, TokenV::Eof]);
}

} // verus!
