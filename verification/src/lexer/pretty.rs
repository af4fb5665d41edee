use vstd::prelude::*;
use vstd::string::StringExecFns;
use crate::lexer::types::{parts_view, QuoteType, Token, TokenV, Word, WordPart, WordPartV, WordV};
use crate::strings::{char_escape_debug, decimal, escape_debug_text, str_to_chars, u64_to_decimal};

verus! {

/// `4 * n` spaces: the indentation of the pretty `Debug` layout.
pub open spec fn indent(n: nat) -> Seq<char>
    decreases n,
{
    if n == 0 {
        Seq::empty()
    } else {
        indent((n - 1) as nat) + "    "@
    }
}

/// One character of a string in the `Debug` layout (quotes kept as they are).
pub open spec fn debug_char(c: char) -> Seq<char> {
    if c == '\'' {
        seq!['\'']
    } else {
        escape_debug_text(c)
    }
}

pub open spec fn debug_chars(s: Seq<char>) -> Seq<char>
    decreases s.len(),
{
    if s.len() == 0 {
        Seq::empty()
    } else {
        debug_chars(s.drop_last()) + debug_char(s.last())
    }
}

/// A string in the `Debug` layout: quoted and escaped.
pub open spec fn debug_string(s: Seq<char>) -> Seq<char> {
    "\""@ + debug_chars(s) + "\""@
}

/// `Name(\n<inner>,\n)` in the pretty layout at indentation `n`.
pub open spec fn debug_tuple(name: Seq<char>, inner: Seq<char>, n: nat) -> Seq<char> {
    name + "(\n"@ + indent(n + 1) + inner + ",\n"@ + indent(n) + ")"@
}

pub open spec fn debug_part(p: WordPartV, n: nat) -> Seq<char> {
    match p {
        WordPartV::Literal(x) => debug_tuple("Literal"@, debug_string(x), n),
        WordPartV::VariableSubstitution(x) => debug_tuple("VariableSubstitution"@, debug_string(x), n),
        WordPartV::ArithmeticSubstitution(x) => debug_tuple("ArithmeticSubstitution"@, debug_string(x), n),
        WordPartV::CommandSubstitution(x) => debug_tuple("CommandSubstitution"@, debug_string(x), n),
    }
}

/// The items of a list, each on its own line at indentation `n + 1`.
pub open spec fn debug_part_lines(ps: Seq<WordPartV>, n: nat) -> Seq<char>
    decreases ps.len(),
{
    if ps.len() == 0 {
        Seq::empty()
    } else {
        debug_part_lines(ps.drop_last(), n) + indent(n + 1) + debug_part(ps.last(), n + 1) + ",\n"@
    }
}

pub open spec fn debug_parts(ps: Seq<WordPartV>, n: nat) -> Seq<char> {
    if ps.len() == 0 {
        "[]"@
    } else {
        "[\n"@ + debug_part_lines(ps, n) + indent(n) + "]"@
    }
}

/// The name under which messages show each quoting (`None` for a bare word).
pub open spec fn quote_name(q: QuoteType) -> Seq<char> {
    match q {
        QuoteType::Single => "Single"@,
        QuoteType::Double => "Double"@,
        QuoteType::Unquoted => "None"@,
    }
}

pub open spec fn debug_word(w: WordV, n: nat) -> Seq<char> {
    "Word {\n"@ + indent(n + 1) + "parts: "@ + debug_parts(w.parts, n + 1) + ",\n"@ + indent(n + 1) + "quote: "@
        + quote_name(w.quote) + ",\n"@ + indent(n) + "}"@
}

/// A token in the pretty `Debug` layout at indentation `n`.
pub open spec fn debug_token(t: TokenV, n: nat) -> Seq<char> {
    match t {
        TokenV::Word(w) => debug_tuple("Word"@, debug_word(w, n + 1), n),
        TokenV::Pipe => "Pipe"@,
        TokenV::RedirectOut => "RedirectOut"@,
        TokenV::RedirectAppend => "RedirectAppend"@,
        TokenV::RedirectIn => "RedirectIn"@,
        TokenV::RedirectHereDoc => "RedirectHereDoc"@,
        TokenV::RedirectOutFd(k) => debug_tuple("RedirectOutFd"@, decimal(k as nat), n),
        TokenV::RedirectInFd(k) => debug_tuple("RedirectInFd"@, decimal(k as nat), n),
        TokenV::RedirectAppendFd(k) => debug_tuple("RedirectAppendFd"@, decimal(k as nat), n),
        TokenV::Semicolon => "Semicolon"@,
        TokenV::Ampersand => "Ampersand"@,
        TokenV::LogicalAnd => "LogicalAnd"@,
        TokenV::LogicalOr => "LogicalOr"@,
        TokenV::LogicalNot => "LogicalNot"@,
        TokenV::Newline => "Newline"@,
        TokenV::OpenBrace => "OpenBrace"@,
        TokenV::CloseBrace => "CloseBrace"@,
        TokenV::OpenParen => "OpenParen"@,
        TokenV::CloseParen => "CloseParen"@,
        TokenV::Eof => "Eof"@,
    }
}

/// An optional token in the pretty `Debug` layout.
pub open spec fn debug_opt_token(t: Option<TokenV>) -> Seq<char> {
    match t {
        Some(t) => debug_tuple("Some"@, debug_token(t, 1), 0),
        None => "None"@,
    }
}

pub fn push_indent(s: &mut String, n: usize)
    ensures
        final(s)@ == old(s)@ + indent(n as nat),
{
    let mut i: usize = 0;
    while i < n
        invariant
            i <= n,
            s@ == old(s)@ + indent(i as nat),
        decreases n - i,
    {
        s.append("    ");
        assert(old(s)@ + indent(i as nat) + "    "@ =~= old(s)@ + indent((i + 1) as nat));
        i = i + 1;
    }
}

pub fn push_debug_string(s: &mut String, text: &String)
    ensures
        final(s)@ == old(s)@ + debug_string(text@),
{
    s.append("\"");
    let cs = str_to_chars(text.as_str());
    let ghost base = s@;
    let mut i: usize = 0;
    while i < cs.len()
        invariant
            0 <= i <= cs@.len(),
            cs@ == text@,
            s@ == base + debug_chars(cs@.subrange(0, i as int)),
        decreases cs@.len() - i,
    {
        let c = cs[i];
        if c == '\'' {
            s.append("'");
            proof {
                reveal_strlit("'");
            }
        } else {
            let e = char_escape_debug(c);
            s.append(e.as_str());
        }
        assert(cs@.subrange(0, i + 1).drop_last() =~= cs@.subrange(0, i as int));
        assert(base + debug_chars(cs@.subrange(0, i as int)) + debug_char(c) =~= base + debug_chars(cs@.subrange(0, i + 1)));
        i = i + 1;
    }
    assert(cs@.subrange(0, cs@.len() as int) =~= cs@);
    s.append("\"");
    assert(old(s)@ + "\""@ + debug_chars(text@) + "\""@ =~= old(s)@ + debug_string(text@));
}

fn push_tuple_open(s: &mut String, name: &str, n: usize)
    requires
        n < usize::MAX,
    ensures
        final(s)@ == old(s)@ + name@ + "(\n"@ + indent((n + 1) as nat),
{
    s.append(name);
    s.append("(\n");
    push_indent(s, n + 1);
}

fn push_tuple_close(s: &mut String, n: usize)
    ensures
        final(s)@ == old(s)@ + ",\n"@ + indent(n as nat) + ")"@,
{
    s.append(",\n");
    push_indent(s, n);
    s.append(")");
}

fn push_debug_part(s: &mut String, p: &WordPart, n: usize)
    requires
        n < usize::MAX,
    ensures
        final(s)@ == old(s)@ + debug_part(p@, n as nat),
{
    let (name, text) = match p {
        WordPart::Literal(x) => ("Literal", x),
        WordPart::VariableSubstitution(x) => ("VariableSubstitution", x),
        WordPart::ArithmeticSubstitution(x) => ("ArithmeticSubstitution", x),
        WordPart::CommandSubstitution(x) => ("CommandSubstitution", x),
    };
    push_tuple_open(s, name, n);
    push_debug_string(s, text);
    push_tuple_close(s, n);
    assert(final(s)@ =~= old(s)@ + debug_part(p@, n as nat));
}

fn push_debug_parts(s: &mut String, parts: &Vec<WordPart>, n: usize)
    requires
        n + 1 < usize::MAX,
    ensures
        final(s)@ == old(s)@ + debug_parts(parts_view(parts@), n as nat),
{
    if parts.len() == 0 {
        s.append("[]");
    } else {
        s.append("[\n");
        let ghost base = s@;
        let mut i: usize = 0;
        while i < parts.len()
            invariant
                0 <= i <= parts@.len(),
                n + 1 < usize::MAX,
                s@ == base + debug_part_lines(parts_view(parts@).subrange(0, i as int), n as nat),
            decreases parts@.len() - i,
        {
            let ghost before = s@;
            push_indent(s, n + 1);
            push_debug_part(s, &parts[i], n + 1);
            s.append(",\n");
            assert(parts_view(parts@).subrange(0, i + 1).drop_last() =~= parts_view(parts@).subrange(0, i as int));
            assert(s@ =~= base + debug_part_lines(parts_view(parts@).subrange(0, i + 1), n as nat));
            i = i + 1;
        }
        assert(parts_view(parts@).subrange(0, parts@.len() as int) =~= parts_view(parts@));
        push_indent(s, n);
        s.append("]");
        assert(s@ =~= old(s)@ + debug_parts(parts_view(parts@), n as nat));
    }
}

/// Appends `x` to `s`, keeping `s == base + acc` with `acc` grown by `x`.
proof fn lemma_grow(base: Seq<char>, acc: Seq<char>, x: Seq<char>)
    ensures
        (base + acc) + x == base + (acc + x),
{
    vstd::seq_lib::lemma_concat_associative(base, acc, x);
}

fn push_debug_word(s: &mut String, w: &Word, n: usize)
    requires
        n + 2 < usize::MAX,
    ensures
        final(s)@ == old(s)@ + debug_word(w@, n as nat),
{
    let ghost base = s@;
    s.append("Word {\n");
    let ghost acc = "Word {\n"@;
    assert(s@ == base + acc);
    let ghost x = s@;
    push_indent(s, n + 1);
    proof { lemma_grow(base, acc, indent((n + 1) as nat)); acc = acc + indent((n + 1) as nat); }
    s.append("parts: ");
    proof { lemma_grow(base, acc, "parts: "@); acc = acc + "parts: "@; }
    push_debug_parts(s, &w.parts, n + 1);
    proof { lemma_grow(base, acc, debug_parts(w@.parts, (n + 1) as nat)); acc = acc + debug_parts(w@.parts, (n + 1) as nat); }
    s.append(",\n");
    proof { lemma_grow(base, acc, ",\n"@); acc = acc + ",\n"@; }
    push_indent(s, n + 1);
    proof { lemma_grow(base, acc, indent((n + 1) as nat)); acc = acc + indent((n + 1) as nat); }
    s.append("quote: ");
    proof { lemma_grow(base, acc, "quote: "@); acc = acc + "quote: "@; }
    match w.quote {
        QuoteType::Single => s.append("Single"),
        QuoteType::Double => s.append("Double"),
        QuoteType::Unquoted => s.append("None"),
    }
    proof { lemma_grow(base, acc, quote_name(w.quote)); acc = acc + quote_name(w.quote); }
    s.append(",\n");
    proof { lemma_grow(base, acc, ",\n"@); acc = acc + ",\n"@; }
    push_indent(s, n);
    proof { lemma_grow(base, acc, indent(n as nat)); acc = acc + indent(n as nat); }
    s.append("}");
    proof { lemma_grow(base, acc, "}"@); acc = acc + "}"@; }
    assert(acc == debug_word(w@, n as nat));
}

/// An optional token in the indented `{:#?}` layout that parse errors
/// quote, a bare word's quoting shown as `None`.
pub fn debug_opt_token_text(t: Option<&Token>) -> (s: String)
    ensures
        s@ == debug_opt_token(
            match t {
                Some(t) => Some(t@),
                None => None,
            },
        ),
{
    let mut s = String::new();
    match t {
        None => {
            s.append("None");
        },
        Some(tok) => {
            push_tuple_open(&mut s, "Some", 0);
            let ghost mid = s@;
            match tok {
                Token::Word(w) => {
                    push_tuple_open(&mut s, "Word", 1);
                    push_debug_word(&mut s, w, 2);
                    push_tuple_close(&mut s, 1);
                },
                Token::RedirectOutFd(k) => {
                    push_tuple_open(&mut s, "RedirectOutFd", 1);
                    let d = u64_to_decimal(*k);
                    s.append(d.as_str());
                    push_tuple_close(&mut s, 1);
                },
                Token::RedirectInFd(k) => {
                    push_tuple_open(&mut s, "RedirectInFd", 1);
                    let d = u64_to_decimal(*k);
                    s.append(d.as_str());
                    push_tuple_close(&mut s, 1);
                },
                Token::RedirectAppendFd(k) => {
                    push_tuple_open(&mut s, "RedirectAppendFd", 1);
                    let d = u64_to_decimal(*k);
                    s.append(d.as_str());
                    push_tuple_close(&mut s, 1);
                },
                Token::Pipe => s.append("Pipe"),
                Token::RedirectOut => s.append("RedirectOut"),
                Token::RedirectAppend => s.append("RedirectAppend"),
                Token::RedirectIn => s.append("RedirectIn"),
                Token::RedirectHereDoc => s.append("RedirectHereDoc"),
                Token::Semicolon => s.append("Semicolon"),
                Token::Ampersand => s.append("Ampersand"),
                Token::LogicalAnd => s.append("LogicalAnd"),
                Token::LogicalOr => s.append("LogicalOr"),
                Token::LogicalNot => s.append("LogicalNot"),
                Token::Newline => s.append("Newline"),
                Token::OpenBrace => s.append("OpenBrace"),
                Token::CloseBrace => s.append("CloseBrace"),
                Token::OpenParen => s.append("OpenParen"),
                Token::CloseParen => s.append("CloseParen"),
                Token::Eof => s.append("Eof"),
            }
            assert(s@ =~= mid + debug_token(tok@, 1));
            push_tuple_close(&mut s, 0);
        },
    }
    proof {
        reveal_strlit("None");
    }
    assert(s@ =~= debug_opt_token(
        match t {
            Some(t) => Some(t@),
            None => None,
        },
    ));
    s
}

} // verus!
