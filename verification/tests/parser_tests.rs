use shell::error::ShellError;
use shell::lexer::tokenize::Tokenizer;
use shell::lexer::types::{QuoteType, Token, Word, WordPart};
use shell::parser::types::{AstNode, Redirect, RedirectOp};
use shell::parser::parser::{AstNode as SimpleAst, Parser as SimpleParser, RedirectTarget};
use shell::parser::Parser;

fn tok(input: &str) -> Vec<Token> {
    Tokenizer::new(input).tokenize().unwrap()
}

fn w(s: &str) -> Token {
    Token::Word(Word { parts: vec![WordPart::Literal(s.to_string())], quote: QuoteType::Unquoted })
}

fn word_str(word: &Word) -> String {
    let mut s = String::new();
    for p in &word.parts {
        match p {
            WordPart::Literal(t) => s.push_str(t),
            WordPart::VariableSubstitution(v) => {
                s.push('$');
                s.push_str(v);
            }
            WordPart::ArithmeticSubstitution(a) => s.push_str(&format!("$(({}))", a)),
            WordPart::CommandSubstitution(c) => s.push_str(&format!("$({})", c)),
        }
    }
    match word.quote {
        QuoteType::Single => format!("'{}'", s),
        QuoteType::Double => format!("\"{}\"", s),
        QuoteType::Unquoted => s,
    }
}

fn redirect_str(r: &Redirect) -> String {
    let op = match r.kind {
        RedirectOp::Write => ">",
        RedirectOp::Append => ">>",
        RedirectOp::Read => "<",
        RedirectOp::HereDoc => "<<",
        RedirectOp::ReadWrite => "<>",
    };
    match r.fd {
        Some(fd) => format!("{}{}{}", fd, op, word_str(&r.target)),
        None => format!("{}{}", op, word_str(&r.target)),
    }
}

fn list(nodes: &[AstNode], sep: &str) -> String {
    nodes.iter().map(show).collect::<Vec<_>>().join(sep)
}

fn show(n: &AstNode) -> String {
    match n {
        AstNode::Command { cmd, args, assignments, redirects } => {
            let mut s = String::new();
            for (k, v) in assignments {
                s.push_str(&format!("[{}={}]", k, word_str(v)));
            }
            s.push_str(&word_str(cmd));
            s.push('(');
            s.push_str(&args.iter().map(word_str).collect::<Vec<_>>().join(","));
            s.push(')');
            for r in redirects {
                s.push_str(&redirect_str(r));
            }
            s
        }
        AstNode::Pipeline(v) => format!("pipe[{}]", list(v, " | ")),
        AstNode::Sequence(v) => format!("seq[{}]", list(v, "; ")),
        AstNode::And(a, b) => format!("and({}, {})", show(a), show(b)),
        AstNode::Or(a, b) => format!("or({}, {})", show(a), show(b)),
        AstNode::Not(a) => format!("not({})", show(a)),
        AstNode::Background(a) => format!("bg({})", show(a)),
        AstNode::Subshell(a) => format!("sub({})", show(a)),
        AstNode::Group { commands, redirects } => {
            let mut s = format!("group[{}]", list(commands, "; "));
            for r in redirects {
                s.push_str(&redirect_str(r));
            }
            s
        }
        AstNode::If { condition, then_branch, elif, else_branch } => {
            let mut s = format!("if({}){{{}}}", show(condition), show(then_branch));
            for (c, t) in elif {
                s.push_str(&format!("elif({}){{{}}}", show(c), show(t)));
            }
            if let Some(e) = else_branch {
                s.push_str(&format!("else{{{}}}", show(e)));
            }
            s
        }
        AstNode::While { condition, body } => format!("while({}){{{}}}", show(condition), show(body)),
        AstNode::Until { condition, body } => format!("until({}){{{}}}", show(condition), show(body)),
        AstNode::For { var, values, body } => format!(
            "for {} in [{}] {{{}}}",
            var,
            values.iter().map(word_str).collect::<Vec<_>>().join(","),
            show(body)
        ),
        AstNode::Case { word, .. } => format!("case {}", word),
        AstNode::FunctionDef { name, body } => format!("fn {} {{{}}}", word_str(name), show(body)),
        AstNode::Break(l) => format!("break({})", l.as_ref().map(word_str).unwrap_or_default()),
        AstNode::Continue(l) => format!("continue({})", l.as_ref().map(word_str).unwrap_or_default()),
        AstNode::ArithmeticCommand(_) => "arith".to_string(),
    }
}

fn parse_str(input: &str) -> String {
    let mut p = Parser::new(tok(input));
    match p.parse() {
        Ok(Some(n)) => show(&n),
        Ok(None) => "none".to_string(),
        Err(e) => format!("{:?}", e),
    }
}

fn parse_err(input: &str) -> ShellError {
    Parser::new(tok(input)).parse().unwrap_err()
}

#[test]
fn parses_simple_command() {
    assert_eq!(parse_str("echo hi there"), "echo(hi,there)");
    assert_eq!(parse_str("ls"), "ls()");
    assert_eq!(parse_str(""), "none");
}

#[test]
fn parses_pipeline_with_and_or() {
    assert_eq!(parse_str("a | b"), "pipe[a() | b()]");
    assert_eq!(parse_str("a | b && c || d"), "pipe[a() | or(and(b(), c()), d())]");
    assert_eq!(parse_str("a || b && c"), "or(a(), and(b(), c()))");
}

#[test]
fn parses_sequence_and_background() {
    assert_eq!(parse_str("a; b & c"), "seq[a(); bg(b()); c()]");
    assert_eq!(parse_str("a;"), "a()");
    assert_eq!(parse_str("a &"), "bg(a())");
    assert_eq!(parse_str("a\nb"), "seq[a(); b()]");
}

#[test]
fn parses_negation() {
    let mut p = Parser::new(vec![Token::LogicalNot, w("a"), Token::Eof]);
    assert_eq!(show(&p.parse().unwrap().unwrap()), "not(a())");
    // A `!` after a command word is an argument.
    let mut p = Parser::new(vec![w("echo"), Token::LogicalNot, w("x"), Token::Eof]);
    assert_eq!(show(&p.parse().unwrap().unwrap()), "echo(!,x)");
}

#[test]
fn parses_assignments() {
    assert_eq!(parse_str("A=1 B= x cmd arg"), "[A=1][B=x]cmd(arg)");
    assert_eq!(parse_str("A=1"), "[A=1]()");
    assert_eq!(parse_str("A=$HOME"), "[A=$HOME]()");
}

#[test]
fn parses_redirections() {
    assert_eq!(parse_str("ls > out 2>> err"), "ls()>out2>>err");
    assert_eq!(parse_str("cat < in"), "cat()<in");
    assert_eq!(parse_str("cat 0< in << EOF >> log"), "cat()0<in<<EOF>>log");
    // A trailing operator with nothing after it is dropped by the tokenizer.
    assert_eq!(tok("ls >"), vec![w("ls"), Token::Eof]);
    match Parser::new(vec![w("ls"), Token::RedirectOut, Token::Eof]).parse_command().unwrap_err() {
        ShellError::Parse(m) => {
            assert_eq!(m, "Expected filename, file descriptor, or '-' after redirection operator '>'")
        }
        e => panic!("unexpected {:?}", e),
    }
    // Through `parse`, tokens left unread decide the error.
    match Parser::new(vec![w("ls"), Token::RedirectOut, Token::Eof]).parse().unwrap_err() {
        ShellError::Parse(m) => assert_eq!(m, format!("unexpected token at end of tokens{:#?}", Some(&Token::RedirectOut))),
        e => panic!("unexpected {:?}", e),
    }
}

#[test]
fn parses_if_elif_else() {
    assert_eq!(
        parse_str("if a; then b; elif c; then d; else e; fi"),
        "if(a()){b()}elif(c()){d()}else{e()}"
    );
    assert_eq!(parse_str("if a; then b; c; fi"), "if(a()){seq[b(); c()]}");
    assert_eq!(parse_str("if a; then b; fi && c"), "and(if(a()){b()}, c())");
}

fn if_err(input: &str) -> ShellError {
    match Parser::new(tok(input)).parse_if() {
        Err(e) => e,
        Ok(o) => panic!("no error: {:?}", o.map(|n| show(&n))),
    }
}

fn leftover(t: &Token) -> String {
    format!("unexpected token at end of tokens{}", format!("{:#?}", Some(t)).replace("quote: Unquoted", "quote: None"))
}

#[test]
fn if_errors() {
    // Errors met at the end of the tokens come out of `parse` as they are.
    match parse_err("if a; then b") {
        ShellError::Parse(m) => assert_eq!(m, "expected sequence to end with Newline, Semicolon, or &"),
        e => panic!("unexpected {:?}", e),
    }
    match parse_err("if a; then b;") {
        ShellError::Syntax(m) => assert_eq!(m, "Expected 'fi'"),
        e => panic!("unexpected {:?}", e),
    }
    match if_err("if a; b; fi") {
        ShellError::Syntax(m) => assert_eq!(m, "Expected 'then'"),
        e => panic!("unexpected {:?}", e),
    }
    match if_err("if ; then b; fi") {
        ShellError::Syntax(m) => assert_eq!(m, "Expected command after 'if'"),
        e => panic!("unexpected {:?}", e),
    }
    match if_err("if a; then b; else ; fi") {
        ShellError::Parse(m) => assert_eq!(m, "expected body after else"),
        e => panic!("unexpected {:?}", e),
    }
}

#[test]
fn parse_reports_leftover_tokens_before_inner_errors() {
    match parse_err("if a; b; fi") {
        ShellError::Parse(m) => assert_eq!(m, leftover(&w("fi"))),
        e => panic!("unexpected {:?}", e),
    }
    match parse_err("if ; then b; fi") {
        ShellError::Parse(m) => assert_eq!(m, leftover(&Token::Semicolon)),
        e => panic!("unexpected {:?}", e),
    }
}

#[test]
fn parses_groups() {
    assert_eq!(parse_str("{ a; b; } > out"), "group[a(); b()]>out");
    assert_eq!(parse_str("{\na\n}"), "group[a()]");
    // A group that fails to parse leaves its tokens unread.
    match parse_err("{ a }") {
        ShellError::Parse(m) => assert_eq!(m, "unexpected token at end of tokensSome(\n    CloseBrace,\n)"),
        e => panic!("unexpected {:?}", e),
    }
}

#[test]
fn group_errors_when_called_directly() {
    let mut p = Parser::new(tok("{ a }"));
    match p.parse_group() {
        Err(ShellError::Parse(m)) => assert_eq!(m, "Expected `;`, `&`, or newline before `}`"),
        other => panic!("unexpected {:?}", other.map(|o| o.map(|n| show(&n)))),
    }
    let mut p = Parser::new(vec![Token::OpenBrace, w("a"), Token::Semicolon]);
    match p.parse_group() {
        Err(ShellError::Parse(m)) => assert_eq!(m, "Unexpected EOF in command group"),
        other => panic!("unexpected {:?}", other.map(|o| o.map(|n| show(&n)))),
    }
    let mut p = Parser::new(vec![Token::OpenBrace, w("a")]);
    match p.parse_group() {
        Err(ShellError::Parse(m)) => assert_eq!(m, "Unexpected EOF"),
        other => panic!("unexpected {:?}", other.map(|o| o.map(|n| show(&n)))),
    }
    let mut p = Parser::new(tok("{ ; }"));
    match p.parse_group() {
        Err(ShellError::Parse(m)) => assert_eq!(m, "Empty command group"),
        other => panic!("unexpected {:?}", other.map(|o| o.map(|n| show(&n)))),
    }
    let mut p = Parser::new(tok("a"));
    assert!(matches!(p.parse_group(), Ok(None)));
}

#[test]
fn parses_function_definitions() {
    let toks = vec![
        w("f"),
        Token::OpenParen,
        Token::CloseParen,
        Token::OpenBrace,
        w("echo"),
        w("hi"),
        Token::Semicolon,
        Token::CloseBrace,
        Token::Eof,
    ];
    assert_eq!(show(&Parser::new(toks).parse().unwrap().unwrap()), "fn f {group[echo(hi)]}");
    // `{` glued to the first word of the body is split off.
    let toks = vec![
        w("f"),
        Token::OpenParen,
        Token::CloseParen,
        w("{echo"),
        w("hi"),
        Token::Semicolon,
        Token::CloseBrace,
        Token::Eof,
    ];
    assert_eq!(show(&Parser::new(toks).parse().unwrap().unwrap()), "fn f {group[echo(hi)]}");
    // Without `()` the name is an ordinary command.
    let mut p = Parser::new(vec![w("f"), Token::OpenParen, w("x"), Token::Eof]);
    assert!(matches!(p.parse_function(), Ok(None)));
    assert_eq!(p.pos, 0);
}

#[test]
fn parses_while_and_until() {
    let mut p = Parser::new(tok("while a; do b; done"));
    assert_eq!(show(&p.parse_while_or_until().unwrap().unwrap()), "while(a()){b()}");
    let mut p = Parser::new(tok("until a; do b; c; done"));
    assert_eq!(show(&p.parse_while_or_until().unwrap().unwrap()), "until(a()){seq[b(); c()]}");
    let mut p = Parser::new(tok("while a; do b;"));
    match p.parse_while_or_until() {
        Err(ShellError::Syntax(m)) => assert_eq!(m, "Expected 'done'"),
        other => panic!("unexpected {:?}", other.map(|o| o.map(|n| show(&n)))),
    }
    let mut p = Parser::new(tok("while ; do b; done"));
    match p.parse_while_or_until() {
        Err(ShellError::Parse(m)) => assert_eq!(m, "Expected command after 'while'"),
        other => panic!("unexpected {:?}", other.map(|o| o.map(|n| show(&n)))),
    }
    let mut p = Parser::new(tok("until a; do ; done"));
    match p.parse_while_or_until() {
        Err(ShellError::Parse(m)) => assert_eq!(m, "Expected body after 'do' in until loop"),
        other => panic!("unexpected {:?}", other.map(|o| o.map(|n| show(&n)))),
    }
    let mut p = Parser::new(tok("echo"));
    assert!(matches!(p.parse_while_or_until(), Ok(None)));
}

#[test]
fn parses_for_loops() {
    let mut p = Parser::new(tok("for x in a b; do echo $x; done"));
    assert_eq!(show(&p.parse_for().unwrap().unwrap()), "for x in [a,b] {echo($x)}");
    let mut p = Parser::new(tok("for"));
    match p.parse_for() {
        Err(ShellError::Parse(m)) => assert_eq!(m, "Expected loop variable after 'for'"),
        other => panic!("unexpected {:?}", other.map(|o| o.map(|n| show(&n)))),
    }
    let mut p = Parser::new(tok("for $x in a; do b; done"));
    match p.parse_for() {
        Err(ShellError::Parse(m)) => assert_eq!(m, "Invalid loop variable"),
        other => panic!("unexpected {:?}", other.map(|o| o.map(|n| show(&n)))),
    }
    let mut p = Parser::new(tok("for x in a | b"));
    match p.parse_for() {
        Err(ShellError::Parse(m)) => assert_eq!(m, "expected words after in"),
        other => panic!("unexpected {:?}", other.map(|o| o.map(|n| show(&n)))),
    }
    let mut p = Parser::new(tok("for x in a; b"));
    match p.parse_for() {
        Err(ShellError::Parse(m)) => assert_eq!(m, "expected words after in"),
        other => panic!("unexpected {:?}", other.map(|o| o.map(|n| show(&n)))),
    }
    let mut p = Parser::new(tok("for x of a"));
    match p.parse_for() {
        Err(ShellError::Syntax(m)) => assert_eq!(m, "Expected 'in'"),
        other => panic!("unexpected {:?}", other.map(|o| o.map(|n| show(&n)))),
    }
}

#[test]
fn parses_flow_control() {
    let mut p = Parser::new(tok("break 2"));
    assert_eq!(show(&p.parse_flow_control().unwrap().unwrap()), "break(2)");
    let mut p = Parser::new(tok("continue"));
    assert_eq!(show(&p.parse_flow_control().unwrap().unwrap()), "continue()");
    let mut p = Parser::new(tok("echo"));
    assert!(matches!(p.parse_flow_control(), Ok(None)));
}

#[test]
fn parses_command_or_if() {
    let mut p = Parser::new(vec![Token::LogicalNot, w("a"), Token::Eof]);
    assert_eq!(show(&p.parse_command_or_if().unwrap().unwrap()), "not(a())");
    let mut p = Parser::new(tok("while a; do b; done"));
    assert_eq!(show(&p.parse_command_or_if().unwrap().unwrap()), "while(a()){b()}");
    let mut p = Parser::new(tok("for i in 1; do b; done"));
    assert_eq!(show(&p.parse_command_or_if().unwrap().unwrap()), "for i in [1] {b()}");
    let mut p = Parser::new(tok("if a; then b; fi"));
    assert_eq!(show(&p.parse_command_or_if().unwrap().unwrap()), "if(a()){b()}");
}

#[test]
fn parses_background() {
    let mut p = Parser::new(tok("a &"));
    assert_eq!(show(&p.parse_background().unwrap().unwrap()), "bg(a())");
    assert!(p.is_eof());
    let mut p = Parser::new(tok("a & ;"));
    match p.parse_background() {
        Err(ShellError::Parse(m)) => assert_eq!(m, "Unexpected `;` after background `&`"),
        other => panic!("unexpected {:?}", other.map(|o| o.map(|n| show(&n)))),
    }
    // Before a reserved word the `&` stays unread.
    let mut p = Parser::new(tok("a & fi"));
    assert_eq!(show(&p.parse_background().unwrap().unwrap()), "bg(a())");
    assert_eq!(p.current(), Some(&Token::Ampersand));
    let mut p = Parser::new(tok("b"));
    assert_eq!(show(&p.parse_background().unwrap().unwrap()), "b()");
}

#[test]
fn parse_redirection_at_position() {
    let p = Parser::new(tok("> f"));
    let (n, r) = p.parse_redirection(0).unwrap().unwrap();
    assert_eq!(n, 2);
    assert_eq!(r, Redirect { fd: None, kind: RedirectOp::Write, target: Word { parts: vec![WordPart::Literal("f".to_string())], quote: QuoteType::Unquoted } });
    assert!(matches!(p.parse_redirection(1), Ok(None)));
    match p.parse_redirection(5) {
        Err(ShellError::Parse(m)) => assert_eq!(m, "Unexpected end of input while parsing redirection"),
        other => panic!("unexpected {:?}", other),
    }
    let p = Parser::new(vec![Token::RedirectHereDoc]);
    match p.parse_redirection(0) {
        Err(ShellError::Parse(m)) => assert_eq!(m, "Expected delimiter after '<<'"),
        other => panic!("unexpected {:?}", other),
    }
    let p = Parser::new(vec![Token::RedirectAppendFd(3), Token::Pipe]);
    match p.parse_redirection(0) {
        Err(ShellError::Parse(m)) => assert_eq!(m, "Expected filename or '-' after redirection operator '>>...'"),
        other => panic!("unexpected {:?}", other),
    }
    let p = Parser::new(tok("2>&1"));
    let (_, r) = p.parse_redirection(0).unwrap().unwrap();
    assert_eq!((r.fd, r.kind), (Some(2), RedirectOp::Write));
}

#[test]
fn parse_assignment_at_position() {
    let p = Parser::new(tok("A=1 B= x =y 'C=2' D=a$b"));
    let (n, (k, v)) = p.parse_assignment(0).unwrap();
    assert_eq!((n, k.as_str(), word_str(&v)), (1, "A", "1".to_string()));
    let (n, (k, v)) = p.parse_assignment(1).unwrap();
    assert_eq!((n, k.as_str(), word_str(&v)), (2, "B", "x".to_string()));
    let (n, (k, v)) = p.parse_assignment(3).unwrap();
    assert_eq!((n, k.as_str(), word_str(&v)), (1, "", "y".to_string()));
    assert!(p.parse_assignment(4).is_none());
    let (n, (k, v)) = p.parse_assignment(5).unwrap();
    assert_eq!((n, k.as_str(), word_str(&v)), (1, "D", "a$b".to_string()));
    assert!(p.parse_assignment(6).is_none());
    assert!(p.parse_assignment(60).is_none());
    // `B=` as the last token has no value to take.
    let p = Parser::new(vec![w("B=")]);
    assert!(p.parse_assignment(0).is_none());
}

#[test]
fn parser_cursor_operations() {
    let mut p = Parser::new(vec![w("a"), Token::Semicolon]);
    assert_eq!(p.current(), Some(&w("a")));
    assert_eq!(p.look_ahead(1), Some(&Token::Semicolon));
    assert_eq!(p.look_ahead(2), None);
    assert!(!p.is_eof());
    p.advance();
    assert!(p.expect_delimiter());
    assert!(!p.expect_delimiter());
    assert!(p.is_eof());
    p.advance();
    assert_eq!(p.pos, 2);
    assert!(p.is_command_end(&Token::Pipe));
    assert!(p.is_command_end(&Token::Eof));
    assert!(!p.is_command_end(&w("x")));
    let mut p = Parser::new(vec![w("then"), w("fi")]);
    assert!(p.is_reserved_word());
    assert!(p.expect_word("then").is_ok());
    match p.expect_word("done") {
        Err(ShellError::Syntax(m)) => assert_eq!(m, "Expected 'done'"),
        other => panic!("unexpected {:?}", other),
    }
    assert_eq!(p.pos, 1);
    let p = Parser::new(vec![Token::Word(Word { parts: vec![WordPart::Literal("fi".to_string())], quote: QuoteType::Single })]);
    assert!(!p.is_reserved_word());
}

#[test]
fn successful_parse_reads_every_token() {
    for input in ["a", "a | b; c &", "if a; then b; fi", "{ a; } > f", "A=1 x"] {
        let mut p = Parser::new(tok(input));
        assert!(p.parse().is_ok());
        assert!(p.is_eof());
    }
}

#[test]
fn parse_sequence_in_condition_stops_at_reserved_word() {
    let mut p = Parser::new(tok("a; b; then c"));
    assert_eq!(show(&p.parse_sequence(true).unwrap().unwrap()), "seq[a(); b()]");
    assert_eq!(p.current(), Some(&w("then")));
}

fn cmd_parts(n: &SimpleAst) -> (String, Vec<String>, Vec<(String, Vec<WordPart>)>, Vec<String>) {
    match n {
        SimpleAst::Command { cmd, args, assignments, redirects } => {
            let reds = redirects
                .iter()
                .map(|r| {
                    let t = match &r.target {
                        RedirectTarget::File(w) => word_str(w),
                        RedirectTarget::Fd(n) => format!("&{}", n),
                        RedirectTarget::Close => "&-".to_string(),
                    };
                    format!("{:?}:{:?}:{}", r.fd, r.kind, t)
                })
                .collect();
            (word_str(cmd), args.iter().map(word_str).collect(), assignments.clone(), reds)
        }
    }
}

#[test]
fn simple_parser_reads_command_with_redirections() {
    let toks = vec![
        w("A=1"),
        w("ls"),
        w("-l"),
        Token::RedirectOut,
        w("out"),
        w("2"),
        Token::RedirectOut,
        w("&1"),
        w("x"),
        Token::Eof,
    ];
    let mut p = SimpleParser::new(toks);
    assert_eq!(p.remaining(), 10);
    let n = p.parse().ok().unwrap();
    let (c, args, assigns, reds) = cmd_parts(&n);
    assert_eq!(c, "ls");
    assert_eq!(args, vec!["-l".to_string(), "x".to_string()]);
    assert_eq!(assigns, vec![("A".to_string(), vec![WordPart::Literal("1".to_string())])]);
    assert_eq!(reds, vec!["None:Write:out".to_string(), "Some(2):DupWrite:&1".to_string()]);
    assert_eq!(p.remaining(), 1);
    assert_eq!(p.current(), Some(&Token::Eof));
}

#[test]
fn simple_parser_redirect_targets() {
    let toks = vec![
        w("cmd"),
        Token::RedirectIn,
        w("&-"),
        Token::RedirectAppend,
        w("&3"),
        w("+2"),
        Token::RedirectIn,
        w("f"),
        Token::RedirectHereDoc,
        w("EOF"),
        Token::RedirectOut,
        w("&x"),
        Token::Pipe,
        w("more"),
    ];
    let mut p = SimpleParser::new(toks);
    let n = p.parse().ok().unwrap();
    let (_, args, _, reds) = cmd_parts(&n);
    assert!(args.is_empty());
    assert_eq!(
        reds,
        vec![
            "None:DupRead:&-".to_string(),
            "None:Append:&3".to_string(),
            "Some(2):Read:f".to_string(),
            "None:HereDoc:EOF".to_string(),
            "None:Write:&x".to_string(),
        ]
    );
    assert_eq!(p.current(), Some(&Token::Pipe));
    assert_eq!(p.look_ahead(1), Some(&w("more")));
    assert_eq!(p.look_ahead(2), None);
}

#[test]
fn simple_parser_failures() {
    let mut p = SimpleParser::new(vec![w("ls"), Token::RedirectOut, Token::Eof]);
    match p.parse() {
        Err(ShellError::Parse(m)) => assert_eq!(m, "Unexpected token or end of input"),
        _ => panic!("expected an error"),
    }
    // A descriptor number with nothing after it.
    let mut p = SimpleParser::new(vec![w("ls"), w("5")]);
    assert!(p.parse().is_err());
    // Assignments alone make no command; they are still read.
    let mut p = SimpleParser::new(vec![w("A=1"), Token::Eof]);
    assert!(p.parse().is_err());
    assert_eq!(p.remaining(), 1);
    let mut p = SimpleParser::new(vec![]);
    assert!(p.parse().is_err());
    assert_eq!(p.current(), None);
    p.advance();
    assert_eq!(p.remaining(), 0);
    // A word `5` before a token that is no redirection is an argument.
    let mut p = SimpleParser::new(vec![w("echo"), w("5"), Token::Eof]);
    let (_, args, _, _) = cmd_parts(&p.parse().ok().unwrap());
    assert_eq!(args, vec!["5".to_string()]);
}

#[test]
fn leftover_word_is_quoted_in_the_error() {
    let odd = Token::Word(Word {
        parts: vec![WordPart::Literal("q\"'\n\té\u{301}".to_string()), WordPart::VariableSubstitution("v".to_string())],
        quote: QuoteType::Unquoted,
    });
    let toks = vec![Token::OpenBrace, w("a"), Token::Semicolon, Token::CloseBrace, odd.clone(), Token::Eof];
    let expected = format!("unexpected token at end of tokens{}", format!("{:#?}", Some(&odd)).replace("quote: Unquoted", "quote: None"));
    match Parser::new(toks).parse() {
        Err(ShellError::Parse(m)) => assert_eq!(m, expected),
        other => panic!("unexpected {:?}", other),
    }
    let toks = vec![w("a"), Token::CloseParen, Token::RedirectOutFd(7)];
    match Parser::new(toks).parse() {
        Err(ShellError::Parse(m)) => assert_eq!(m, format!("unexpected token at end of tokens{:#?}", Some(&Token::CloseParen))),
        other => panic!("unexpected {:?}", other),
    }
}
