use shell::builtins::try_builtin;
use shell::commands::cd::Cd;
use shell::commands::echo::Echo;
use shell::commands::ls::{build_perm_string, display_name_with_suffix, file_type_char, EntryMeta, FileTypeInfo, Ls};
use shell::commands::mkdir::mkdir;
use shell::commands::mv::Mv;
use shell::commands::rm::{rm_step, Rm, RmStep};
use shell::commands::{echo_text, mkdir_message};
use shell::envirement::{Job, ShellEnv};
use shell::exec::{build_command, command_status, prepare_command, BuiltCommand};
use shell::error::ShellError;
use shell::expansion::expand;
use shell::parser::types::{Redirect, RedirectOp};
use shell::redirection::{parse_i32_text, redirect_step, IntErrorKind, OpenMode, RedirectStep};
use shell::lexer::types::{QuoteType, Word, WordPart};
use shell::shell_interactions::buffer::{delete_char, insert_char, move_cursor_left, move_cursor_right};
use shell::shell_interactions::keys::{handle_key, history_line, history_step, EditAction, EditKey};
use shell::shell_interactions::rerender::render_layout;
use shell::shell_interactions::utils::{calc_termlines_in_buffer, CursorPosition};
use shell::strings::{join_strings, parse_u64_text, substring_of, u64_to_decimal};
use shell::{get_first_element, prompt_len, Colors};

fn strs(v: &[&str]) -> Vec<String> {
    v.iter().map(|s| s.to_string()).collect()
}

fn file() -> FileTypeInfo {
    FileTypeInfo {
        is_dir: false,
        is_symlink: false,
        is_block_device: false,
        is_char_device: false,
        is_socket: false,
        is_fifo: false,
        is_file: true,
    }
}

fn dir() -> FileTypeInfo {
    FileTypeInfo { is_dir: true, is_file: false, ..file() }
}

fn meta(ft: FileTypeInfo, mode: u32, size: u64) -> EntryMeta {
    EntryMeta {
        file_type: ft,
        mode,
        nlink: 1,
        user: "bob".to_string(),
        group: "staff".to_string(),
        size,
        mtime: Some(1704164640),
    }
}

#[test]
fn env_new_sets_default_path() {
    let e = ShellEnv::new(vec![("A".to_string(), "1".to_string()), ("A".to_string(), "2".to_string())], std::time::SystemTime::UNIX_EPOCH);
    assert_eq!(e.get_var("A"), Some(&"2".to_string()));
    assert_eq!(e.get_var("PATH"), Some(&"/usr/bin:/bin".to_string()));
    assert_eq!(e.get_var("B"), None);
    assert_eq!(e.get_last_status(), 0);
    let e = ShellEnv::new(vec![("PATH".to_string(), "/opt".to_string())], std::time::SystemTime::UNIX_EPOCH);
    assert_eq!(*e.started_at(), std::time::SystemTime::UNIX_EPOCH);
    assert_eq!(e.get_var("PATH"), Some(&"/opt".to_string()));
}

#[test]
fn env_variables_read_back_what_was_set() {
    let mut e = ShellEnv::new(vec![], std::time::SystemTime::UNIX_EPOCH);
    e.set_var("X", "1");
    e.set_var("Y", "2");
    e.set_var("X", "3");
    assert_eq!(e.get_var("X"), Some(&"3".to_string()));
    assert_eq!(e.get_var("Y"), Some(&"2".to_string()));
    e.set_arith("n", -5);
    e.set_arith("n", 7);
    assert_eq!(e.get_arith("n"), Some(7));
    assert_eq!(e.get_arith("m"), None);
    e.set_last_status(42);
    assert_eq!(e.get_last_status(), 42);
}

#[test]
fn env_jobs_get_fresh_ids() {
    let mut e = ShellEnv::new(vec![], std::time::SystemTime::UNIX_EPOCH);
    let a = e.add_job(Job { id: 99 });
    let b = e.add_job(Job { id: 0 });
    assert_eq!((a, b), (1, 2));
    assert_eq!(e.get_job(1).map(|j| j.id), Some(1));
    assert_eq!(e.get_job(2).map(|j| j.id), Some(2));
    e.remove_job(1);
    assert!(e.get_job(1).is_none());
    assert_eq!(e.get_job(2).map(|j| j.id), Some(2));
    assert_eq!(e.add_job(Job { id: 0 }), 3);
}

#[test]
fn builtin_table_is_empty() {
    let mut e = ShellEnv::new(vec![], std::time::SystemTime::UNIX_EPOCH);
    e.set_var("K", "v");
    assert_eq!(try_builtin(&strs(&["cd", "/"]), &mut e), None);
    assert_eq!(e.get_var("K"), Some(&"v".to_string()));
}

#[test]
fn expand_gives_empty_text() {
    let e = ShellEnv::new(vec![], std::time::SystemTime::UNIX_EPOCH);
    assert_eq!(expand("$HOME/x", &e), "");
}

#[test]
fn echo_format_input_splits_and_unquotes() {
    let e = Echo::new(strs(&["hello", "'big world'", "a\\ b"]));
    assert_eq!(e.format_input(), Some(strs(&["hello", "big world", "a b"])));
    let e = Echo::new(strs(&["\"it's\"", "''"]));
    assert_eq!(e.format_input(), Some(strs(&["it's", ""])));
    assert_eq!(Echo::new(strs(&["'open"])).format_input(), None);
    assert_eq!(Echo::new(strs(&["end\\"])).format_input(), None);
    assert_eq!(Echo::new(vec![]).format_input(), Some(vec![]));
}

#[test]
fn echo_and_mkdir_messages() {
    assert_eq!(echo_text(&strs(&["a", "b"])), "a b\n");
    assert_eq!(echo_text(&vec![]), "\n");
    assert_eq!(
        mkdir_message(&vec![]),
        Some("mkdir: missing operand\nTry 'mkdir --help' for more information.\n".to_string())
    );
    assert_eq!(
        mkdir_message(&strs(&["--help"])),
        Some("use only mkdir if you wish to make a dir without options !\n".to_string())
    );
    assert_eq!(mkdir_message(&strs(&["d"])), None);
}

#[test]
fn ls_reads_flags() {
    let l = Ls::new(vec![], strs(&["-al", "-F"]));
    assert!(l.all && l.format && l.classify && l.valid_opts);
    let l = Ls::new(vec![], strs(&["-l", "-x", "-a"]));
    assert!(l.format && !l.valid_opts && !l.all);
    let l = Ls::new(vec![], strs(&["-"]));
    assert!(!l.valid_opts);
    let l = Ls::new(strs(&["d"]), vec![]);
    assert!(!l.all && !l.format && !l.classify && l.valid_opts);
    assert_eq!(l.targets(), strs(&["d"]));
    assert_eq!(Ls::new(vec![], vec![]).targets(), strs(&["."]));
}

#[test]
fn ls_entries() {
    let plain = Ls::new(vec![], vec![]);
    assert!(plain.sorts_entries());
    assert!(plain.shows_entry("a") && !plain.shows_entry(".hidden"));
    let all = Ls::new(vec![], strs(&["-a"]));
    assert!(all.shows_entry(".hidden") && !all.sorts_entries());
    assert_eq!(plain.format_entry("f", &meta(file(), 0o644, 10)), "f\r");
    let f = Ls::new(vec![], strs(&["-F"]));
    assert_eq!(f.format_entry("run", &meta(file(), 0o755, 10)), "run*\r");
    assert_eq!(f.format_entry("d", &meta(dir(), 0o755, 10)), "d/\r");
    let l = Ls::new(vec![], strs(&["-lF"]));
    assert_eq!(
        l.format_entry("d", &meta(dir(), 0o755, 4096)),
        "drwxr-xr-x 1 bob staff  4096 Jan  2 03:04 d/\r"
    );
    assert_eq!(
        l.format_long_entry(&meta(file(), 0o644, 123456), "big"),
        "-rw-r--r-- 1 bob staff 123456 Jan  2 03:04 big\r"
    );
}

#[test]
fn permission_strings() {
    assert_eq!(build_perm_string(0o755), "rwxr-xr-x");
    assert_eq!(build_perm_string(0o4755), "rwsr-xr-x");
    assert_eq!(build_perm_string(0o4644), "rwSr--r--");
    assert_eq!(build_perm_string(0o2750), "rwxr-s---");
    assert_eq!(build_perm_string(0o1777), "rwxrwxrwt");
    assert_eq!(build_perm_string(0o1644), "rw-r--r-T");
    assert_eq!(build_perm_string(0), "---------");
}

#[test]
fn file_kinds_and_suffixes() {
    assert_eq!(file_type_char(&dir()), "d");
    assert_eq!(file_type_char(&file()), "-");
    assert_eq!(file_type_char(&FileTypeInfo { is_symlink: true, is_file: false, ..file() }), "l");
    assert_eq!(file_type_char(&FileTypeInfo { is_block_device: true, is_file: false, ..file() }), "b");
    assert_eq!(file_type_char(&FileTypeInfo { is_char_device: true, is_file: false, ..file() }), "c");
    assert_eq!(file_type_char(&FileTypeInfo { is_socket: true, is_file: false, ..file() }), "s");
    assert_eq!(file_type_char(&FileTypeInfo { is_fifo: true, is_file: false, ..file() }), "p");
    assert_eq!(display_name_with_suffix("x", &dir(), 0o755), "x/");
    assert_eq!(display_name_with_suffix("x", &FileTypeInfo { is_symlink: true, is_file: false, ..file() }, 0), "x@");
    assert_eq!(display_name_with_suffix("x", &FileTypeInfo { is_socket: true, is_file: false, ..file() }, 0), "x=");
    assert_eq!(display_name_with_suffix("x", &FileTypeInfo { is_fifo: true, is_file: false, ..file() }, 0), "x|");
    assert_eq!(display_name_with_suffix("x", &file(), 0o100), "x*");
    assert_eq!(display_name_with_suffix("x", &file(), 0o644), "x");
}

#[test]
fn cd_target() {
    assert_eq!(Cd::new(vec![]).target(), None);
    assert_eq!(Cd::new(strs(&["~"])).target(), None);
    assert_eq!(Cd::new(strs(&["  "])).target(), None);
    assert_eq!(Cd::new(strs(&["/tmp", "x"])).target(), Some(&"/tmp".to_string()));
    assert_eq!(Cd::new(strs(&["~/a"])).target(), Some(&"~/a".to_string()));
}

#[test]
fn mkdir_mv_rm_options() {
    assert!(mkdir::new(strs(&["a"]), strs(&["-v", "-p"])).parse_flags());
    assert!(!mkdir::new(strs(&["a"]), strs(&["-v"])).parse_flags());
    let m = Mv::new(strs(&["a", "b", "c"]));
    assert!(!m.validate_args(false));
    assert!(m.validate_args(true));
    assert!(Mv::new(strs(&["a", "b"])).validate_args(false));
    assert!(!Mv::new(strs(&["a"])).validate_args(true));
    assert_eq!(m.get_param(), Ok((vec!["a", "b"], "c")));
    assert_eq!(Mv::new(strs(&["only"])).get_param(), Ok((vec![], "only")));
    assert!(Rm::new(strs(&["d"]), strs(&["-f", "-r"])).is_recursive());
    assert!(!Rm::new(strs(&["d"]), strs(&["-rf"])).is_recursive());
    assert_eq!(rm_step(false, true, true), RmStep::Missing);
    assert_eq!(rm_step(true, true, true), RmStep::RemoveTree);
    assert_eq!(rm_step(true, true, false), RmStep::RefuseDirectory);
    assert_eq!(rm_step(true, false, true), RmStep::RemoveFile);
}

#[test]
fn command_table() {
    match build_command(&"ls".to_string(), strs(&["d"]), strs(&["-a"])) {
        Some(BuiltCommand::Ls(l)) => assert!(l.all && l.args == strs(&["d"])),
        _ => panic!("expected ls"),
    }
    match build_command(&"echo".to_string(), strs(&["x"]), vec![]) {
        Some(BuiltCommand::Echo(e)) => assert_eq!(e.format_input(), Some(strs(&["x"]))),
        _ => panic!("expected echo"),
    }
    assert!(matches!(build_command(&"exit".to_string(), vec![], vec![]), Some(BuiltCommand::Exit)));
    assert!(matches!(build_command(&"export".to_string(), strs(&["A=1"]), vec![]), Some(BuiltCommand::Export(a)) if a == strs(&["A=1"])));
    assert!(matches!(build_command(&"mkdir".to_string(), strs(&["a"]), strs(&["-p"])), Some(BuiltCommand::Mkdir(m)) if m.parse_flags()));
    assert!(matches!(build_command(&"rm".to_string(), strs(&["a"]), strs(&["-r"])), Some(BuiltCommand::Rm(r)) if r.is_recursive()));
    assert!(matches!(build_command(&"cd".to_string(), strs(&["/"]), vec![]), Some(BuiltCommand::Cd(_))));
    assert!(matches!(build_command(&"pwd".to_string(), vec![], vec![]), Some(BuiltCommand::Pwd(_))));
    assert!(matches!(build_command(&"cat".to_string(), strs(&["f"]), vec![]), Some(BuiltCommand::Cat(c)) if c.args == strs(&["f"])));
    assert!(matches!(build_command(&"cp".to_string(), strs(&["a", "b"]), vec![]), Some(BuiltCommand::Cp(_))));
    assert!(matches!(build_command(&"mv".to_string(), strs(&["a", "b"]), vec![]), Some(BuiltCommand::Mv(_))));
    assert!(build_command(&"vim".to_string(), vec![], vec![]).is_none());
}

#[test]
fn prepare_command_splits_options() {
    let e = ShellEnv::new(vec![("D".to_string(), "-x".to_string())], std::time::SystemTime::UNIX_EPOCH);
    let w = |s: &str| Word { parts: vec![WordPart::Literal(s.to_string())], quote: QuoteType::Unquoted };
    let v = Word { parts: vec![WordPart::VariableSubstitution("D".to_string())], quote: QuoteType::Unquoted };
    let (c, o, a) = prepare_command(&w("ls"), &vec![w("-l"), w("dir"), v, w(""), w("-a")], &e);
    assert_eq!(c, "ls");
    assert_eq!(o, strs(&["-l", "-x", "-a"]));
    assert_eq!(a, strs(&["dir", ""]));
}

#[test]
fn first_element_and_prompt() {
    assert_eq!(get_first_element("a/b/c", "/"), "a");
    assert_eq!(get_first_element("abc", "/"), "abc");
    assert_eq!(get_first_element("x::y", "::"), "x");
    assert_eq!(get_first_element("abc", ""), "");
    assert_eq!(get_first_element("", "/"), "");
    assert_eq!(prompt_len("home"), 7);
    assert_eq!(prompt_len("é"), 4);
    assert_eq!(Colors::YELLOW("hi".to_string()).to_ansi(), "\x1b[1;31mhi\x1b[0m");
}

#[test]
fn line_editing() {
    let mut buf = "ac".to_string();
    let cur = CursorPosition::new(1, 0);
    insert_char(&mut buf, &cur, 'b');
    assert_eq!(buf, "abc");
    assert!(delete_char(&mut buf, &cur));
    assert_eq!(buf, "ac");
    let end = CursorPosition::new(0, 0);
    insert_char(&mut buf, &end, 'é');
    assert_eq!(buf, "acé");
    assert!(delete_char(&mut buf, &end));
    assert_eq!(buf, "ac");
    let start = CursorPosition::new(2, 0);
    assert!(delete_char(&mut buf, &start));
    assert_eq!(buf, "ac");
    let mut empty = String::new();
    assert!(!delete_char(&mut empty, &end));
}

#[test]
fn cursor_moves() {
    let mut c = CursorPosition::new(0, 3);
    assert!(move_cursor_left("ab", &mut c));
    assert!(move_cursor_left("ab", &mut c));
    assert!(!move_cursor_left("ab", &mut c));
    assert_eq!((c.x, c.y), (2, 3));
    // Wide characters take two columns each.
    let mut w = CursorPosition::new(2, 0);
    assert!(move_cursor_left("日本", &mut w));
    assert_eq!(w.x, 3);
    assert!(move_cursor_right(&mut c));
    assert_eq!(c.x, 1);
    c.reset();
    assert_eq!((c.x, c.y), (0, 0));
    assert!(!move_cursor_right(&mut c));
}

#[test]
fn terminal_layout() {
    assert_eq!(calc_termlines_in_buffer(80, 10, 0), 1);
    assert_eq!(calc_termlines_in_buffer(80, 10, 70), 1);
    assert_eq!(calc_termlines_in_buffer(80, 10, 71), 2);
    let r = render_layout(10, 4, 12, 3);
    assert_eq!((r.total_lines, r.cursor_line_offset, r.cursor_col), (2, 1, 4));
    let r = render_layout(10, 0, 0, 0);
    assert_eq!((r.total_lines, r.cursor_line_offset, r.cursor_col), (1, 0, 1));
    let r = render_layout(10, 4, 3, 9);
    assert_eq!((r.total_lines, r.cursor_line_offset, r.cursor_col), (1, 0, 5));
}

#[test]
fn number_text() {
    assert_eq!(u64_to_decimal(0), "0");
    assert_eq!(u64_to_decimal(18446744073709551615), "18446744073709551615");
    assert_eq!(parse_u64_text(&"+42".chars().collect()), Some(42));
    assert_eq!(parse_u64_text(&"".chars().collect()), None);
    assert_eq!(parse_u64_text(&"+".chars().collect()), None);
    assert_eq!(parse_u64_text(&"-1".chars().collect()), None);
    assert_eq!(parse_u64_text(&"18446744073709551616".chars().collect()), None);
    for n in [0u64, 7, 10, 12345, u64::MAX] {
        let text: Vec<char> = u64_to_decimal(n).chars().collect();
        assert_eq!(parse_u64_text(&text), Some(n));
        assert_eq!(n.to_string(), u64_to_decimal(n));
    }
    assert_eq!(join_strings(&strs(&["a", "b", "c"]), ", "), "a, b, c");
    assert_eq!(join_strings(&vec![], ", "), "");
    assert_eq!(substring_of(&"héllo".chars().collect(), 1, 3), "él");
}

#[test]
fn key_handling() {
    let mut buf = "ls".to_string();
    let mut cur = CursorPosition::new(1, 2);
    assert!(matches!(handle_key(&mut buf, &mut cur, EditKey::Char('s')), EditAction::Redraw));
    assert_eq!(buf, "lss");
    assert!(matches!(handle_key(&mut buf, &mut cur, EditKey::Backspace), EditAction::Redraw));
    assert_eq!(buf, "ls");
    assert!(matches!(handle_key(&mut buf, &mut cur, EditKey::Left), EditAction::Redraw));
    assert_eq!(cur.x, 2);
    assert!(matches!(handle_key(&mut buf, &mut cur, EditKey::Left), EditAction::Nothing));
    assert!(matches!(handle_key(&mut buf, &mut cur, EditKey::Right), EditAction::Redraw));
    assert_eq!(cur.x, 1);
    assert!(matches!(handle_key(&mut buf, &mut cur, EditKey::Tab), EditAction::Nothing));
    assert!(matches!(handle_key(&mut buf, &mut cur, EditKey::CtrlC), EditAction::Nothing));
    assert!(matches!(handle_key(&mut buf, &mut cur, EditKey::CtrlD), EditAction::Quit));
    assert_eq!((buf.as_str(), cur.x, cur.y), ("ls", 1, 2));
    assert!(matches!(handle_key(&mut buf, &mut cur, EditKey::Up), EditAction::HistoryPrev));
    assert_eq!((cur.x, cur.y), (0, 0));
    assert!(matches!(handle_key(&mut buf, &mut cur, EditKey::Down), EditAction::HistoryNext));
    match handle_key(&mut buf, &mut cur, EditKey::Enter) {
        EditAction::Run(line) => assert_eq!(line, "ls"),
        _ => panic!("expected the line to run"),
    }
    assert_eq!(buf, "");
    let mut blank = " \t ".to_string();
    assert!(matches!(handle_key(&mut blank, &mut cur, EditKey::Enter), EditAction::Prompt));
    assert_eq!(blank, "");
    assert!(matches!(handle_key(&mut blank, &mut cur, EditKey::Backspace), EditAction::Nothing));
    let mut text = "abc".to_string();
    let mut c2 = CursorPosition::new(2, 1);
    assert!(matches!(handle_key(&mut text, &mut c2, EditKey::CtrlL), EditAction::ClearScreen));
    assert_eq!((text.as_str(), c2.x, c2.y), ("", 0, 0));
    assert!(matches!(handle_key(&mut text, &mut c2, EditKey::Other), EditAction::Nothing));
}

#[test]
fn i32_parsing_matches_std() {
    for text in ["", "+", "-", "0", "-0", "+7", "42", "-2147483648", "2147483647", "2147483648", "-2147483649",
        "12a", "99999999999x", "-99999999999x", "1 ", " 1", "٣"] {
        let chars: Vec<char> = text.chars().collect();
        let ours = parse_i32_text(&chars);
        match text.parse::<i32>() {
            Ok(n) => assert_eq!(ours, Ok(n), "{text:?}"),
            Err(e) => {
                let kind = match e.kind() {
                    std::num::IntErrorKind::Empty => IntErrorKind::Empty,
                    std::num::IntErrorKind::InvalidDigit => IntErrorKind::InvalidDigit,
                    std::num::IntErrorKind::PosOverflow => IntErrorKind::PosOverflow,
                    std::num::IntErrorKind::NegOverflow => IntErrorKind::NegOverflow,
                    _ => panic!("unexpected kind"),
                };
                assert_eq!(ours, Err(kind), "{text:?}");
            }
        }
    }
}

#[test]
fn redirect_steps() {
    let e = ShellEnv::new(vec![("OUT".to_string(), "log.txt".to_string())], std::time::SystemTime::UNIX_EPOCH);
    let w = |s: &str| Word { parts: vec![WordPart::Literal(s.to_string())], quote: QuoteType::Unquoted };
    let red = |fd: Option<u64>, kind: RedirectOp, t: Word| Redirect { fd, kind, target: t };
    assert!(matches!(redirect_step(&red(None, RedirectOp::Read, w("in")), &e), Ok(RedirectStep::Open { fd: 0, path, mode: OpenMode::Read }) if path == "in"));
    assert!(matches!(redirect_step(&red(None, RedirectOp::Write, w("out")), &e), Ok(RedirectStep::Open { fd: 1, mode: OpenMode::Truncate, .. })));
    let var = Word { parts: vec![WordPart::VariableSubstitution("OUT".to_string())], quote: QuoteType::Unquoted };
    assert!(matches!(redirect_step(&red(Some(2), RedirectOp::Append, var), &e), Ok(RedirectStep::Open { fd: 2, path, mode: OpenMode::Append }) if path == "log.txt"));
    assert!(matches!(redirect_step(&red(Some(2), RedirectOp::Write, w("&1")), &e), Ok(RedirectStep::Dup { fd: 2, source: 1 })));
    assert!(matches!(redirect_step(&red(None, RedirectOp::Read, w(" &- ")), &e), Ok(RedirectStep::Close(0))));
    assert!(matches!(redirect_step(&red(Some(5), RedirectOp::Write, w("&-")), &e), Ok(RedirectStep::Close(5))));
    let bad = "&x".trim_start_matches('&').parse::<i32>().unwrap_err().to_string();
    match redirect_step(&red(None, RedirectOp::Write, w("&x")), &e) {
        Err(ShellError::Exec(m)) => assert_eq!(m, format!("Invalid file descriptor in redirection: {}", bad)),
        other => panic!("unexpected {:?}", other),
    }
    let empty = "".parse::<i32>().unwrap_err().to_string();
    match redirect_step(&red(None, RedirectOp::Write, w("&")), &e) {
        Err(ShellError::Exec(m)) => assert_eq!(m, format!("Invalid file descriptor in redirection: {}", empty)),
        other => panic!("unexpected {:?}", other),
    }
    let big = "99999999999".parse::<i32>().unwrap_err().to_string();
    match redirect_step(&red(None, RedirectOp::Write, w("&99999999999")), &e) {
        Err(ShellError::Exec(m)) => assert_eq!(m, format!("Invalid file descriptor in redirection: {}", big)),
        other => panic!("unexpected {:?}", other),
    }
    let small = "-99999999999".parse::<i32>().unwrap_err().to_string();
    match redirect_step(&red(None, RedirectOp::Write, w("&-99999999999")), &e) {
        Err(ShellError::Exec(m)) => assert_eq!(m, format!("Invalid file descriptor in redirection: {}", small)),
        other => panic!("unexpected {:?}", other),
    }
    match redirect_step(&red(None, RedirectOp::HereDoc, w("EOF")), &e) {
        Err(ShellError::Exec(m)) => assert_eq!(m, format!("Unsupported redirection: {:?}", RedirectOp::HereDoc)),
        other => panic!("unexpected {:?}", other),
    }
    match redirect_step(&red(None, RedirectOp::ReadWrite, w("f")), &e) {
        Err(ShellError::Exec(m)) => assert_eq!(m, format!("Unsupported redirection: {:?}", RedirectOp::ReadWrite)),
        other => panic!("unexpected {:?}", other),
    }
}

#[test]
fn echo_gives_back_plain_words() {
    let words = strs(&["ls", "-l", "a.txt", "x=1"]);
    assert_eq!(Echo::new(words.clone()).format_input(), Some(words));
}

#[test]
fn cursor_moves_undo_each_other() {
    let mut c = CursorPosition::new(1, 0);
    assert!(move_cursor_left("abc", &mut c));
    assert!(move_cursor_right(&mut c));
    assert_eq!(c.x, 1);
    assert!(move_cursor_right(&mut c));
    assert!(move_cursor_left("abc", &mut c));
    assert_eq!(c.x, 1);
}

#[test]
fn io_errors_convert_to_shell_errors() {
    let e: ShellError = std::io::Error::new(std::io::ErrorKind::NotFound, "gone").into();
    match e {
        ShellError::Io(inner) => assert_eq!(inner.kind(), std::io::ErrorKind::NotFound),
        other => panic!("unexpected {:?}", other),
    }
}

#[test]
fn ls_time_column() {
    let l = Ls::new(vec![], strs(&["-l"]));
    let line = |mtime: Option<i64>| l.format_long_entry(&EntryMeta { mtime, ..meta(file(), 0o644, 1) }, "f");
    assert_eq!(line(Some(1431648000)), "-rw-r--r-- 1 bob staff     1 May 15 00:00 f\r");
    assert_eq!(line(Some(0)), "-rw-r--r-- 1 bob staff     1 Jan  1 00:00 f\r");
    assert_eq!(line(None), "-rw-r--r-- 1 bob staff     1 ??? f\r");
    // The ends of chrono's range, and just past them.
    let min = chrono::DateTime::<chrono::Utc>::MIN_UTC.timestamp();
    let max = chrono::DateTime::<chrono::Utc>::MAX_UTC.timestamp();
    assert_eq!((min, max), (-8334601228800, 8210266876799));
    assert!(!line(Some(min)).contains("???"));
    assert!(!line(Some(max)).contains("???"));
    assert_eq!(line(Some(min - 1)), "-rw-r--r-- 1 bob staff     1 ??? f\r");
    assert_eq!(line(Some(max + 1)), "-rw-r--r-- 1 bob staff     1 ??? f\r");
    assert_eq!(line(Some(i64::MIN)), "-rw-r--r-- 1 bob staff     1 ??? f\r");
}

fn std_login_shell(passwd: &str, user: &str) -> Option<String> {
    passwd
        .lines()
        .find(|line| line.starts_with(&format!("{}:", user)))
        .and_then(|line| line.split(':').nth(6).map(String::from))
}

#[test]
fn login_shell_lookup() {
    let passwd = "root:x:0:0:root:/root:/bin/bash\r\nbob:x:1000:1000::/home/bob:/usr/bin/zsh\nbobby:x:1001:1001::/home/bobby:/bin/sh\nshort:x:1\nodd:a:b:c:d:e:f:g\nlast:x:2:2::/h:/bin/dash\r";
    assert_eq!(shell::config::login_shell(passwd, "bob"), Some("/usr/bin/zsh".to_string()));
    assert_eq!(shell::config::login_shell(passwd, "root"), Some("/bin/bash".to_string()));
    for user in ["root", "bob", "bobby", "short", "odd", "last", "nobody", "", "bo"] {
        assert_eq!(shell::config::login_shell(passwd, user), std_login_shell(passwd, user), "{user}");
    }
    for text in ["", "\n", "a:\n", "a:1:2:3:4:5:6", "a:1:2:3:4:5:6:7\n", "\r\na:1:2:3:4:5:\r\n"] {
        assert_eq!(shell::config::login_shell(text, "a"), std_login_shell(text, "a"), "{text:?}");
    }
}

#[test]
fn exit_status_and_history() {
    assert_eq!(command_status(false, true), 127);
    assert_eq!(command_status(true, true), 0);
    assert_eq!(command_status(true, false), 1);
    assert_eq!(history_step(3, 3, true), Some(2));
    assert_eq!(history_step(3, 0, true), None);
    assert_eq!(history_step(3, 2, false), Some(3));
    assert_eq!(history_step(3, 3, false), None);
    let h = strs(&["ls", "pwd"]);
    assert_eq!(history_line(&h, 1), "pwd");
    assert_eq!(history_line(&h, 2), "");
}

#[test]
fn functions_table() {
    let mut e = ShellEnv::new(vec![], std::time::SystemTime::UNIX_EPOCH);
    assert!(e.get_function("f").is_none());
    let body = shell::parser::Parser::new(shell::lexer::tokenize::Tokenizer::new("echo hi").tokenize().unwrap()).parse().unwrap().unwrap();
    e.set_function("f", body);
    e.set_var("X", "1");
    e.set_last_status(3);
    assert!(matches!(e.get_function("f"), Some(shell::parser::types::AstNode::Command { .. })));
    assert!(e.get_function("g").is_none());
    let t0 = *e.started_at();
    e.set_arith("n", 1);
    assert_eq!(*e.started_at(), t0);
}

#[test]
fn cd_whitespace_matches_std() {
    let mut chars: Vec<char> = (0u32..0x3100).filter_map(char::from_u32).collect();
    chars.extend(['\u{FEFF}', '\u{E0020}', '\u{10FFFF}']);
    for c in chars {
        let arg = format!("{c}{c}");
        assert_eq!(Cd::new(vec![arg.clone()]).target().is_none(), c.is_whitespace(), "{:x}", c as u32);
    }
}
