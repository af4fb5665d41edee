use shell::error::ShellError;
use shell::expansion::ArithmeticToken;
use shell::lexer::tokenize::Tokenizer;
use shell::lexer::types::{QuoteType, Token, Word, WordPart};
use shell::lexer::helpers::{extract_until_matching, is_var_char};
use shell::lexer::word::parse_word;
use shell::lexer::{tokenize as flat_tokenize, tokenize_arithmetic as flat_arith, Token as FT, WordPart as FP};
use shell::lx::{tokenize as lx_tokenize, tokenize_arithmetic as lx_arith, Token as LT, WordPart as LP};

fn lit(s: &str) -> WordPart {
    WordPart::Literal(s.to_string())
}

fn word(parts: Vec<WordPart>) -> Token {
    Token::Word(Word { parts, quote: QuoteType::Unquoted })
}

fn plain(s: &str) -> Token {
    word(vec![lit(s)])
}

fn tok(input: &str) -> Vec<Token> {
    Tokenizer::new(input).tokenize().unwrap()
}

#[test]
fn tokenizer_splits_simple_command() {
    assert_eq!(tok("echo hi"), vec![plain("echo"), plain("hi"), Token::Eof]);
}

#[test]
fn tokenizer_empty_input_gives_only_eof() {
    assert_eq!(tok(""), vec![Token::Eof]);
    assert_eq!(tok("   \t "), vec![Token::Eof]);
}

#[test]
fn tokenizer_operators() {
    assert_eq!(
        tok("a | b && c || d ; e & f"),
        vec![
            plain("a"),
            Token::Pipe,
            plain("b"),
            Token::LogicalAnd,
            plain("c"),
            Token::LogicalOr,
            plain("d"),
            Token::Semicolon,
            plain("e"),
            Token::Ampersand,
            plain("f"),
            Token::Eof,
        ]
    );
}

#[test]
fn tokenizer_newline_and_comment() {
    assert_eq!(
        tok("a # note\nb"),
        vec![plain("a"), plain("b"), Token::Eof]
    );
    assert_eq!(tok("a\nb"), vec![plain("a"), Token::Newline, plain("b"), Token::Eof]);
}

#[test]
fn tokenizer_redirections() {
    assert_eq!(tok("ls > out"), vec![plain("ls"), Token::RedirectOut, plain("out"), Token::Eof]);
    assert_eq!(tok("ls >> out"), vec![plain("ls"), Token::RedirectAppend, plain("out"), Token::Eof]);
    assert_eq!(tok("cat < in"), vec![plain("cat"), Token::RedirectIn, plain("in"), Token::Eof]);
    assert_eq!(tok("cat << EOF"), vec![plain("cat"), Token::RedirectHereDoc, plain("EOF"), Token::Eof]);
    assert_eq!(tok("cmd 2>err"), vec![plain("cmd"), Token::RedirectOutFd(2), plain("err"), Token::Eof]);
    assert_eq!(tok("cmd 2>>err"), vec![plain("cmd"), Token::RedirectAppendFd(2), plain("err"), Token::Eof]);
    assert_eq!(tok("cmd 0<in"), vec![plain("cmd"), Token::RedirectInFd(0), plain("in"), Token::Eof]);
    assert_eq!(tok("cmd a>b"), vec![plain("cmd"), plain("a"), Token::RedirectOut, plain("b"), Token::Eof]);
    assert_eq!(tok("cmd 2>&1"), vec![plain("cmd"), Token::RedirectOutFd(2), plain("&1"), Token::Eof]);
}

#[test]
fn tokenizer_quotes() {
    assert_eq!(
        tok("echo \"a b\" 'c d'"),
        vec![
            plain("echo"),
            Token::Word(Word { parts: vec![lit("a b")], quote: QuoteType::Double }),
            Token::Word(Word { parts: vec![lit("c d")], quote: QuoteType::Single }),
            Token::Eof,
        ]
    );
    assert_eq!(
        tok("echo \"\""),
        vec![plain("echo"), Token::Word(Word { parts: vec![], quote: QuoteType::Double }), Token::Eof]
    );
}

#[test]
fn tokenizer_substitutions() {
    assert_eq!(
        tok("echo $HOME ${USER} $(ls -l) $((1 + 2))"),
        vec![
            plain("echo"),
            word(vec![WordPart::VariableSubstitution("HOME".to_string())]),
            word(vec![WordPart::VariableSubstitution("USER".to_string())]),
            word(vec![WordPart::CommandSubstitution("ls -l".to_string())]),
            word(vec![WordPart::ArithmeticSubstitution("1 + 2".to_string())]),
            Token::Eof,
        ]
    );
    assert_eq!(
        tok("a$b"),
        vec![word(vec![lit("a"), WordPart::VariableSubstitution("b".to_string())]), Token::Eof]
    );
    assert_eq!(tok("cost $"), vec![plain("cost"), plain("$"), Token::Eof]);
}

#[test]
fn tokenizer_unclosed_substitution_is_error() {
    match Tokenizer::new("echo $(ls").tokenize() {
        Err(ShellError::Syntax(m)) => assert_eq!(m, "unclosed ("),
        other => panic!("unexpected {:?}", other),
    }
    match Tokenizer::new("echo ${x").tokenize() {
        Err(ShellError::Syntax(m)) => assert_eq!(m, "unclosed {"),
        other => panic!("unexpected {:?}", other),
    }
    match Tokenizer::new("echo $((1").tokenize() {
        Err(ShellError::Syntax(m)) => assert_eq!(m, "unclosed (("),
        other => panic!("unexpected {:?}", other),
    }
}

#[test]
fn tokenizer_braces_and_parens() {
    assert_eq!(
        tok("{ a; } (b)"),
        vec![
            Token::OpenBrace,
            plain("a"),
            Token::Semicolon,
            Token::CloseBrace,
            Token::OpenParen,
            plain("b"),
            Token::CloseParen,
            Token::Eof,
        ]
    );
    assert_eq!(tok("{a}"), vec![plain("{a}"), Token::Eof]);
}

#[test]
fn tokenizer_result_ends_with_single_eof() {
    for input in ["", "a", "a | b", "echo \"x\" 'y' $z", "a ; b & c", "x 2>y"] {
        let t = tok(input);
        assert_eq!(t.last(), Some(&Token::Eof));
        assert_eq!(t.iter().filter(|x| **x == Token::Eof).count(), 1);
    }
}

#[test]
fn tokenizer_unicode_whitespace_separates_words() {
    assert_eq!(tok("a\u{3000}b"), vec![plain("a\u{3000}b"), Token::Eof]);
    assert_eq!(tok("$été"), vec![word(vec![WordPart::VariableSubstitution("été".to_string())]), Token::Eof]);
}

#[test]
fn arithmetic_tokens() {
    assert_eq!(
        flat_arith("x += 10 * (y - 2)").unwrap(),
        vec![
            ArithmeticToken::Variable("x".to_string()),
            ArithmeticToken::AddAssign,
            ArithmeticToken::Number(10),
            ArithmeticToken::Multiply,
            ArithmeticToken::LParen,
            ArithmeticToken::Variable("y".to_string()),
            ArithmeticToken::Minus,
            ArithmeticToken::Number(2),
            ArithmeticToken::RParen,
        ]
    );
    assert_eq!(
        flat_arith("a<=b&&c!=d").unwrap(),
        vec![
            ArithmeticToken::Variable("a".to_string()),
            ArithmeticToken::LessEqual,
            ArithmeticToken::Variable("b".to_string()),
            ArithmeticToken::LogicalAnd,
            ArithmeticToken::Variable("c".to_string()),
            ArithmeticToken::NotEqual,
            ArithmeticToken::Variable("d".to_string()),
        ]
    );
    assert_eq!(
        flat_arith("$((1+2))*3").unwrap(),
        vec![
            ArithmeticToken::Substitution(vec![
                ArithmeticToken::Number(1),
                ArithmeticToken::Plus,
                ArithmeticToken::Number(2),
            ]),
            ArithmeticToken::Multiply,
            ArithmeticToken::Number(3),
        ]
    );
}

#[test]
fn arithmetic_drops_too_large_number() {
    assert_eq!(
        flat_arith("99999999999999999999 + 1").unwrap(),
        vec![ArithmeticToken::Plus, ArithmeticToken::Number(1)]
    );
    assert_eq!(flat_arith("9223372036854775807").unwrap(), vec![ArithmeticToken::Number(i64::MAX)]);
}

#[test]
fn arithmetic_errors() {
    match flat_arith("1 @ 2") {
        Err(ShellError::Syntax(m)) => assert_eq!(m, "Unexpected arithmetic token"),
        other => panic!("unexpected {:?}", other),
    }
    match flat_arith("((1 + 2)") {
        Err(ShellError::Syntax(m)) => assert_eq!(m, "Unclosed arithmetic expression"),
        other => panic!("unexpected {:?}", other),
    }
}

#[test]
fn flat_tokenizer_words_and_operators() {
    let t = flat_tokenize("ls -l | grep x && echo done; a || b").unwrap();
    let w = |s: &str| FT::Word(vec![FP::Literal(s.to_string())]);
    assert_eq!(
        t,
        vec![
            w("ls"),
            w("-l"),
            FT::Pipe,
            w("grep"),
            w("x"),
            FT::AndIf,
            w("echo"),
            w("done"),
            FT::Semi,
            w("a"),
            FT::OrIf,
            w("b"),
        ]
    );
}

#[test]
fn flat_tokenizer_quotes_escapes_and_redirects() {
    let w = |s: &str| FT::Word(vec![FP::Literal(s.to_string())]);
    assert_eq!(flat_tokenize("echo 'a b' \"c\"d a\\ b").unwrap(), vec![w("echo"), w("a b"), w("cd"), w("a b")]);
    assert_eq!(
        flat_tokenize("cat <<< x >> y << z 2>&1 <& 0").unwrap(),
        vec![
            w("cat"),
            FT::HereString,
            w("x"),
            FT::DGreat,
            w("y"),
            FT::DLess,
            w("z"),
            w("2"),
            FT::RedirectDuplicateOut,
            w("1"),
            FT::RedirectDuplicateIn,
            w("0"),
        ]
    );
    assert_eq!(flat_tokenize("a\nb").unwrap(), vec![w("a"), FT::Newline, w("b")]);
    assert_eq!(flat_tokenize("").unwrap(), vec![]);
}

#[test]
fn flat_tokenizer_variables_and_tilde() {
    assert_eq!(
        flat_tokenize("echo $USER ~/docs ~").unwrap(),
        vec![
            FT::Word(vec![FP::Literal("echo".to_string())]),
            FT::Variable("USER".to_string()),
            FT::Word(vec![FP::Variable("HOME".to_string()), FP::Literal("/docs".to_string())]),
            FT::Word(vec![FP::Variable("HOME".to_string())]),
        ]
    );
    // A variable right after text comes before the text's word.
    assert_eq!(
        flat_tokenize("a$b c").unwrap(),
        vec![FT::Variable("b".to_string()), FT::Word(vec![FP::Literal("a".to_string())]), FT::Word(vec![FP::Literal("c".to_string())])]
    );
}

#[test]
fn flat_tokenizer_substitutions() {
    assert_eq!(
        flat_tokenize("echo $(ls $(pwd)) $((1+2))").unwrap(),
        vec![
            FT::Word(vec![FP::Literal("echo".to_string())]),
            FT::CommandSubstitution(vec![
                FT::Word(vec![FP::Literal("ls".to_string())]),
                FT::CommandSubstitution(vec![FT::Word(vec![FP::Literal("pwd".to_string())])]),
            ]),
            FT::ArithmeticSubstitution(vec![ArithmeticToken::Number(1), ArithmeticToken::Plus, ArithmeticToken::Number(2)]),
        ]
    );
    match flat_tokenize("echo $(ls") {
        Err(ShellError::Syntax(m)) => assert_eq!(m, "Unclosed command substitution"),
        other => panic!("unexpected {:?}", other),
    }
    match flat_tokenize("echo $((1+2)") {
        Err(ShellError::Syntax(m)) => assert_eq!(m, "Unclosed arithmetic substitution"),
        other => panic!("unexpected {:?}", other),
    }
}

#[test]
fn lx_tokenizer_words_and_assignments() {
    assert_eq!(
        lx_tokenize("FOO=bar echo $X ${Y} 'q r'&& z").unwrap(),
        vec![
            LT::Assignment("FOO".to_string(), "bar".to_string()),
            LT::Word(vec![LP::Literal("echo".to_string())]),
            LT::Word(vec![LP::Variable("X".to_string())]),
            LT::Word(vec![LP::Variable("Y".to_string())]),
            LT::Word(vec![LP::Literal("q r".to_string())]),
            LT::AndIf,
            LT::Word(vec![LP::Literal("z".to_string())]),
            LT::EOF,
        ]
    );
    assert_eq!(
        lx_tokenize("a & b | c || d ;\n").unwrap(),
        vec![
            LT::Word(vec![LP::Literal("a".to_string())]),
            LT::Background,
            LT::Word(vec![LP::Literal("b".to_string())]),
            LT::Pipe,
            LT::Word(vec![LP::Literal("c".to_string())]),
            LT::OrIf,
            LT::Word(vec![LP::Literal("d".to_string())]),
            LT::Semicolon,
            LT::Newline,
            LT::EOF,
        ]
    );
    assert_eq!(lx_tokenize("").unwrap(), vec![LT::EOF]);
}

#[test]
fn lx_tokenizer_substitutions_and_errors() {
    assert_eq!(
        lx_tokenize("echo $(ls)").unwrap(),
        vec![
            LT::Word(vec![LP::Literal("echo".to_string())]),
            LT::Word(vec![LP::CommandSubstitution(vec![LT::Word(vec![LP::Literal("ls".to_string())]), LT::EOF])]),
            LT::EOF,
        ]
    );
    assert!(matches!(lx_tokenize("echo $"), Err(ShellError::InvalidVariableSyntax)));
    match lx_tokenize("echo 'abc") {
        Err(ShellError::Syntax(m)) => assert_eq!(m, "Unclosed delimiter"),
        other => panic!("unexpected {:?}", other),
    }
    // `$((1+2))` is read with one level still open and so never closes.
    match lx_tokenize("echo $((1+2))") {
        Err(ShellError::Syntax(m)) => assert_eq!(m, "Unclosed delimiter"),
        other => panic!("unexpected {:?}", other),
    }
}

#[test]
fn lx_arithmetic_errors_name_the_problem() {
    match lx_arith("1 @ 2") {
        Err(ShellError::Syntax(m)) => assert_eq!(m, "Unexpected character '@'"),
        other => panic!("unexpected {:?}", other),
    }
    match lx_arith("99999999999999999999") {
        Err(ShellError::Syntax(m)) => assert_eq!(m, "Invalid number: 99999999999999999999"),
        other => panic!("unexpected {:?}", other),
    }
    assert_eq!(
        lx_arith("((2))").unwrap(),
        vec![ArithmeticToken::Substitution(vec![ArithmeticToken::Number(2)])]
    );
}

#[test]
fn parse_word_at_delimiter_gives_no_parts() {
    assert_eq!(parse_word(&[]).unwrap(), vec![]);
    assert_eq!(parse_word(&[';', 'a']).unwrap(), vec![]);
}

#[test]
fn helpers() {
    assert!(is_var_char('a') && is_var_char('Z') && is_var_char('7') && is_var_char('_'));
    assert!(!is_var_char('-') && !is_var_char('é'));
    assert_eq!(extract_until_matching(&['a', ')'], "(", ")"), "");
}

#[test]
fn tokenizers_tell_when_they_end() {
    use_checkers();
}

fn use_checkers() {
    assert!(shell::lexer::flat::tokenize_ends("echo ~/x a"));
    assert!(!shell::lexer::flat::tokenize_ends("a~b"));
    assert!(!shell::lexer::flat::tokenize_ends("echo $(a~b)"));
    assert!(shell::lexer::flat::tokenize_ends("'a~b'"));
    assert!(shell::lx::tokenize_ends("a b"));
    assert!(!shell::lx::tokenize_ends("a\rb"));
    assert!(!shell::lx::tokenize_ends("echo $(a\rb)"));
    assert!(shell::lx::tokenize_ends("'a\rb'"));
}

#[test]
fn tokenizer_words_are_never_empty_when_bare() {
    for input in ["a b", "\"\" ''", "x\"\"y", "$a$b", "2>&1", "{ a; }", "a$", "'x'y\"z\""] {
        for t in tok(input) {
            if let Token::Word(w) = t {
                if w.quote == QuoteType::Unquoted {
                    assert!(!w.parts.is_empty(), "{input:?}");
                }
                for p in &w.parts {
                    if let WordPart::Literal(l) = p {
                        assert!(!l.is_empty(), "{input:?}");
                    }
                }
            }
        }
    }
}

#[test]
fn single_quoted_text_is_one_literal() {
    assert_eq!(
        tok("'a $b \"c\" ~ #d'"),
        vec![Token::Word(Word { parts: vec![lit("a $b \"c\" ~ #d")], quote: QuoteType::Single }), Token::Eof]
    );
    assert_eq!(tok("''"), vec![Token::Word(Word { parts: vec![], quote: QuoteType::Single }), Token::Eof]);
}
