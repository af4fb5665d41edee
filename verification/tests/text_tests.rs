use shell::envirement::ShellEnv;
use shell::lexer::tokenize::Tokenizer;
use shell::lexer::types::{QuoteType, Token, Word, WordPart};
use shell::parser::text::word_to_string;
use shell::parser::types::{AstNode, Redirect, RedirectOp};
use shell::parser::Parser;

fn tok(input: &str) -> Vec<Token> {
    Tokenizer::new(input).tokenize().unwrap()
}

fn parse(input: &str) -> AstNode {
    Parser::new(tok(input)).parse().unwrap().unwrap()
}

fn lit_word(s: &str) -> Word {
    Word { parts: vec![WordPart::Literal(s.to_string())], quote: QuoteType::Unquoted }
}

/// `Debug` text as the outlines show it: a bare word's quoting reads `None`.
fn dbg<T: std::fmt::Debug>(x: &T) -> String {
    format!("{:?}", x).replace("quote: Unquoted", "quote: None")
}

fn env() -> ShellEnv {
    ShellEnv::new(vec![("USER".to_string(), "bob".to_string()), ("EMPTY".to_string(), String::new())], std::time::SystemTime::UNIX_EPOCH)
}

#[test]
fn word_to_string_expands_variables() {
    let e = env();
    let w = Word {
        parts: vec![
            WordPart::Literal("hi-".to_string()),
            WordPart::VariableSubstitution("USER".to_string()),
            WordPart::VariableSubstitution("NOPE".to_string()),
            WordPart::CommandSubstitution("ls".to_string()),
            WordPart::ArithmeticSubstitution("1+1".to_string()),
            WordPart::Literal("!".to_string()),
        ],
        quote: QuoteType::Double,
    };
    assert_eq!(word_to_string(&w, &e), "hi-bob!");
    assert_eq!(word_to_string(&Word { parts: vec![], quote: QuoteType::Unquoted }, &e), "");
}

#[test]
fn command_to_text() {
    let e = env();
    assert_eq!(parse("echo hi $USER").to_text(&e), "echo hi bob");
    // An unset variable expands to nothing but keeps its place.
    assert_eq!(parse("echo $NOPE x").to_text(&e), "echo  x");
    assert_eq!(parse("A=1 cmd > out 2>> err").to_text(&e), "A=1 cmd >out 2>>err");
    assert_eq!(parse("A=$USER").to_text(&e), "A=bob ");
}

#[test]
fn compound_to_text() {
    let e = env();
    assert_eq!(parse("a | b | c").to_text(&e), "a | b | c");
    assert_eq!(parse("a; b").to_text(&e), "a; b");
    assert_eq!(parse("a && b || c").to_text(&e), "a && b || c");
    assert_eq!(parse("a &").to_text(&e), "a &");
    assert_eq!(Parser::new(vec![Token::LogicalNot, Token::Word(lit_word("a")), Token::Eof]).parse().unwrap().unwrap().to_text(&e), "! a");
    assert_eq!(
        parse("if a; then b; elif c; then d; else e; fi").to_text(&e),
        "if a; then b elif c; then d else e fi"
    );
    assert_eq!(parse("{ a; b; } > f").to_text(&e), "{ a; b; } >f");
    let sub = AstNode::Subshell(Box::new(parse("a")));
    assert_eq!(sub.to_text(&e), "($a)");
}

#[test]
fn loops_and_functions_to_text() {
    let e = env();
    let mut p = Parser::new(tok("while a; do b; done"));
    assert_eq!(p.parse_while_or_until().unwrap().unwrap().to_text(&e), "while a; do b; done");
    let mut p = Parser::new(tok("until a; do b; done"));
    assert_eq!(p.parse_while_or_until().unwrap().unwrap().to_text(&e), "until a; do b; done");
    let mut p = Parser::new(tok("for x in a b; do c; done"));
    assert_eq!(p.parse_for().unwrap().unwrap().to_text(&e), "");
    let toks = vec![
        Token::Word(lit_word("f")),
        Token::OpenParen,
        Token::CloseParen,
        Token::OpenBrace,
        Token::Word(lit_word("a")),
        Token::Semicolon,
        Token::CloseBrace,
        Token::Eof,
    ];
    assert_eq!(Parser::new(toks).parse().unwrap().unwrap().to_text(&e), "f() { { a; }; }");
    let case = AstNode::Case {
        word: "x".to_string(),
        arms: vec![(vec!["a".to_string(), "b".to_string()], parse("c")), (vec!["*".to_string()], parse("d"))],
    };
    assert_eq!(case.to_text(&e), "case x in a | b ) c ;; * ) d ;; esac");
    let mut p = Parser::new(tok("break 2"));
    let brk = p.parse_flow_control().unwrap().unwrap();
    assert_eq!(brk.to_text(&e), dbg(&brk));
    assert_eq!(brk.to_text(&e), "Break(Some(Word { parts: [Literal(\"2\")], quote: None }))");
}

#[test]
fn redirect_to_text_and_display() {
    let e = env();
    let r = Redirect { fd: Some(2), kind: RedirectOp::Append, target: lit_word("log") };
    assert_eq!(r.to_text(&e), "2>>log");
    let r2 = Redirect {
        fd: None,
        kind: RedirectOp::ReadWrite,
        target: Word { parts: vec![WordPart::VariableSubstitution("USER".to_string())], quote: QuoteType::Single },
    };
    assert_eq!(r2.to_text(&e), "<>bob");
    assert_eq!(
        r.display_text(),
        "Redirect(fd: Some(2), kind: Append, target: Word { parts: [Literal(\"log\")], quote: None })"
    );
    assert_eq!(
        r2.display_text(),
        format!("Redirect(fd: {:?}, kind: {:?}, target: {})", r2.fd, r2.kind, dbg(&r2.target))
    );
}

#[test]
fn push_debug_matches_derived_debug() {
    let nodes = vec![
        parse("A=1 echo \"a b\" 'c' $x > out 2>> err"),
        parse("a | b && c || d; e &"),
        parse("if a; then b; elif c; then d; else e; fi"),
        parse("{ a; } < in"),
        Parser::new(tok("while a; do b; done")).parse_while_or_until().unwrap().unwrap(),
        Parser::new(tok("for x in a b; do c; done")).parse_for().unwrap().unwrap(),
        Parser::new(tok("continue")).parse_flow_control().unwrap().unwrap(),
        AstNode::Subshell(Box::new(parse("a"))),
    ];
    for n in &nodes {
        let mut s = String::from(">");
        n.push_debug(&mut s);
        assert_eq!(s, format!(">{}", dbg(n)));
    }
}

#[test]
fn fmt_with_indent_outlines_commands() {
    let n = parse("A=1 echo hi > out");
    let (cmd, arg, asg, red) = match &n {
        AstNode::Command { cmd, args, assignments, redirects } => {
            (cmd.clone(), args[0].clone(), assignments[0].1.clone(), redirects[0].clone())
        }
        _ => panic!("not a command"),
    };
    let expected = format!(
        "Command\n  cmd: {}\n  assignments:\n    A = {}\n  args:\n    {}\n  redirects:\n    {}\n",
        dbg(&cmd),
        dbg(&asg),
        dbg(&arg),
        red.display_text()
    );
    assert_eq!(n.fmt_with_indent(0), expected);
    let plain = parse("ls");
    assert_eq!(plain.fmt_with_indent(1), format!("  Command\n    cmd: {}\n", dbg(&lit_word("ls"))));
}

#[test]
fn fmt_with_indent_nests_operators() {
    let n = parse("a | b && c");
    let a = format!("    Command\n      cmd: {}\n", dbg(&lit_word("a")));
    let b = format!("        Command\n          cmd: {}\n", dbg(&lit_word("b")));
    let c = format!("        Command\n          cmd: {}\n", dbg(&lit_word("c")));
    let expected = format!("Pipeline\n  [0]\n{}  [1]\n    And (&&)\n      left:\n{}      right:\n{}", a, b, c);
    assert_eq!(n.fmt_with_indent(0), expected);
    let o = parse("a || b");
    let expected = format!(
        "Or (||)\n  left:\n    Command\n      cmd: {}\n  right:\n    Command\n      cmd: {}\n",
        dbg(&lit_word("a")),
        dbg(&lit_word("b"))
    );
    assert_eq!(o.fmt_with_indent(0), expected);
    let s = parse("a; b");
    assert_eq!(s.fmt_with_indent(2), format!("    {}\n", dbg(&s)));
}
