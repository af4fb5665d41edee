use vstd::prelude::*;

verus! {

/// How a word was quoted in the input.
#[derive(Debug, Clone, Copy, PartialEq, Eq, Structural)]
pub enum QuoteType {
    Single,
    Double,
    Unquoted,
}

/// One piece of a word: plain text or a substitution to expand later.
#[derive(Debug, Clone, PartialEq)]
pub enum WordPart {
    Literal(String),
    VariableSubstitution(String),
    ArithmeticSubstitution(String),
    CommandSubstitution(String),
}

/// A shell word: its parts and how it was quoted.
#[derive(Debug, Clone, PartialEq)]
pub struct Word {
    pub parts: Vec<WordPart>,
    pub quote: QuoteType,
}

/// A token of the command line.
#[derive(Debug, Clone, PartialEq)]
pub enum Token {
    Word(Word),
    Pipe,
    RedirectOut,
    RedirectAppend,
    RedirectIn,
    RedirectHereDoc,
    RedirectOutFd(u64),
    RedirectInFd(u64),
    RedirectAppendFd(u64),
    Semicolon,
    Ampersand,
    LogicalAnd,
    LogicalOr,
    LogicalNot,
    Newline,
    OpenBrace,
    CloseBrace,
    OpenParen,
    CloseParen,
    Eof,
}

/// The states of the tokenizer's state machine.
#[derive(Debug, Clone, Copy, PartialEq, Eq, Structural)]
pub enum State {
    Default,
    InWord,
    InDoubleQuote,
    InSingleQuote,
    MaybeRedirectOut2,
    MaybeRedirectIn2,
    MaybeRedirectOut2Fd(u64),
    MaybeRedirectIn2Fd(u64),
}

/// The value of a `WordPart`, its text taken by characters.
pub enum WordPartV {
    Literal(Seq<char>),
    VariableSubstitution(Seq<char>),
    ArithmeticSubstitution(Seq<char>),
    CommandSubstitution(Seq<char>),
}

/// The value of a `Word`.
pub struct WordV {
    pub parts: Seq<WordPartV>,
    pub quote: QuoteType,
}

/// The value of a `Token`.
pub enum TokenV {
    Word(WordV),
    Pipe,
    RedirectOut,
    RedirectAppend,
    RedirectIn,
    RedirectHereDoc,
    RedirectOutFd(u64),
    RedirectInFd(u64),
    RedirectAppendFd(u64),
    Semicolon,
    Ampersand,
    LogicalAnd,
    LogicalOr,
    LogicalNot,
    Newline,
    OpenBrace,
    CloseBrace,
    OpenParen,
    CloseParen,
    Eof,
}

impl View for WordPart {
    type V = WordPartV;

    open spec fn view(&self) -> WordPartV {
        match self {
            WordPart::Literal(s) => WordPartV::Literal(s@),
            WordPart::VariableSubstitution(s) => WordPartV::VariableSubstitution(s@),
            WordPart::ArithmeticSubstitution(s) => WordPartV::ArithmeticSubstitution(s@),
            WordPart::CommandSubstitution(s) => WordPartV::CommandSubstitution(s@),
        }
    }
}

/// The values of a sequence of word parts.
pub open spec fn parts_view(parts: Seq<WordPart>) -> Seq<WordPartV> {
    parts.map_values(|p: WordPart| p@)
}

impl View for Word {
    type V = WordV;

    open spec fn view(&self) -> WordV {
        WordV { parts: parts_view(self.parts@), quote: self.quote }
    }
}

impl View for Token {
    type V = TokenV;

    open spec fn view(&self) -> TokenV {
        match self {
            Token::Word(w) => TokenV::Word(w@),
            Token::Pipe => TokenV::Pipe,
            Token::RedirectOut => TokenV::RedirectOut,
            Token::RedirectAppend => TokenV::RedirectAppend,
            Token::RedirectIn => TokenV::RedirectIn,
            Token::RedirectHereDoc => TokenV::RedirectHereDoc,
            Token::RedirectOutFd(n) => TokenV::RedirectOutFd(*n),
            Token::RedirectInFd(n) => TokenV::RedirectInFd(*n),
            Token::RedirectAppendFd(n) => TokenV::RedirectAppendFd(*n),
            Token::Semicolon => TokenV::Semicolon,
            Token::Ampersand => TokenV::Ampersand,
            Token::LogicalAnd => TokenV::LogicalAnd,
            Token::LogicalOr => TokenV::LogicalOr,
            Token::LogicalNot => TokenV::LogicalNot,
            Token::Newline => TokenV::Newline,
            Token::OpenBrace => TokenV::OpenBrace,
            Token::CloseBrace => TokenV::CloseBrace,
            Token::OpenParen => TokenV::OpenParen,
            Token::CloseParen => TokenV::CloseParen,
            Token::Eof => TokenV::Eof,
        }
    }
}

/// The values of a sequence of tokens.
pub open spec fn tokens_view(tokens: Seq<Token>) -> Seq<TokenV> {
    tokens.map_values(|t: Token| t@)
}

/// Appends a word part; its value is appended to the values.
pub fn push_part(parts: &mut Vec<WordPart>, p: WordPart)
    ensures
        parts_view(final(parts)@) == parts_view(old(parts)@).push(p@),
{
    let ghost old_parts = parts@;
    parts.push(p);
    assert(parts_view(parts@) =~= parts_view(old_parts).push(p@));
}

/// Appends a token; its value is appended to the values.
pub fn push_token(tokens: &mut Vec<Token>, t: Token)
    ensures
        tokens_view(final(tokens)@) == tokens_view(old(tokens)@).push(t@),
{
    let ghost old_tokens = tokens@;
    tokens.push(t);
    assert(tokens_view(tokens@) =~= tokens_view(old_tokens).push(t@));
}

} // verus!

verus! {

/// A copy of a word part.
pub fn clone_part(p: &WordPart) -> (r: WordPart)
    ensures
        r@ == p@,
{
    match p {
        WordPart::Literal(s) => WordPart::Literal(s.clone()),
        WordPart::VariableSubstitution(s) => WordPart::VariableSubstitution(s.clone()),
        WordPart::ArithmeticSubstitution(s) => WordPart::ArithmeticSubstitution(s.clone()),
        WordPart::CommandSubstitution(s) => WordPart::CommandSubstitution(s.clone()),
    }
}

/// A copy of the parts `from..` of a word.
pub fn clone_parts_from(v: &Vec<WordPart>, from: usize) -> (r: Vec<WordPart>)
    requires
        from <= v@.len(),
    ensures
        parts_view(r@) == parts_view(v@).subrange(from as int, v@.len() as int),
{
    let mut r: Vec<WordPart> = Vec::new();
    let mut i = from;
    while i < v.len()
        invariant
            from <= i <= v@.len(),
            parts_view(r@) == parts_view(v@).subrange(from as int, i as int),
        decreases v@.len() - i,
    {
        let p = clone_part(&v[i]);
        push_part(&mut r, p);
        assert(parts_view(v@).subrange(from as int, i + 1) =~= parts_view(v@).subrange(from as int, i as int).push(v@[i as int]@));
        i = i + 1;
    }
    r
}

/// A copy of a word.
pub fn clone_word(w: &Word) -> (r: Word)
    ensures
        r@ == w@,
{
    let parts = clone_parts_from(&w.parts, 0);
    assert(parts_view(w.parts@).subrange(0, w.parts@.len() as int) =~= parts_view(w.parts@));
    Word { parts, quote: w.quote }
}

} // verus!
