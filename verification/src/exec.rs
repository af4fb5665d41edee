use vstd::prelude::*;
use crate::commands::cat::Cat;
use crate::commands::cd::Cd;
use crate::commands::cp::Cp;
use crate::commands::echo::Echo;
use crate::commands::ls::{ls_opts, Ls, LsFlags};
use crate::commands::mkdir::mkdir;
use crate::commands::mv::Mv;
use crate::commands::pwd::Pwd;
use crate::commands::rm::Rm;
use crate::envirement::ShellEnv;
use crate::lexer::types::Word;
use crate::parser::string_is;
use crate::parser::text::{word_text, word_to_string};
use crate::parser::types::strings_view;

verus! {

/// A command of the shell's table, ready to run.
pub enum BuiltCommand {
    Echo(Echo),
    Cd(Cd),
    Ls(Ls),
    Pwd(Pwd),
    Cat(Cat),
    Cp(Cp),
    Rm(Rm),
    Mv(Mv),
    Mkdir(mkdir),
    Export(Vec<String>),
    Exit,
}

/// What `build_command` gives for the name `c`: the command of that name
/// built from the arguments (and, for `ls`, `rm` and `mkdir`, the
/// options), or `None` for a name the table does not have.
pub open spec fn built_as(c: Seq<char>, r: Option<BuiltCommand>, args: Seq<String>, opts: Seq<String>) -> bool {
    if c == "echo"@ {
        r matches Some(BuiltCommand::Echo(e)) && e.args() == strings_view(args)
    } else if c == "cd"@ {
        r matches Some(BuiltCommand::Cd(x)) && x.args@ == args
    } else if c == "ls"@ {
        r matches Some(BuiltCommand::Ls(l)) && l.args@ == args && l.opts@ == opts && l.flags() == ls_opts(
            strings_view(opts),
            0,
            LsFlags { all: false, classify: false, format: false, valid: true },
        )
    } else if c == "pwd"@ {
        r matches Some(BuiltCommand::Pwd(x)) && x.args@ == args
    } else if c == "cat"@ {
        r matches Some(BuiltCommand::Cat(x)) && x.args@ == args
    } else if c == "cp"@ {
        r matches Some(BuiltCommand::Cp(x)) && x.args@ == args
    } else if c == "rm"@ {
        r matches Some(BuiltCommand::Rm(x)) && x.args@ == args && x.opts@ == opts
    } else if c == "mv"@ {
        r matches Some(BuiltCommand::Mv(x)) && x.args@ == args
    } else if c == "mkdir"@ {
        r matches Some(BuiltCommand::Mkdir(x)) && x.args@ == args && x.flags@ == opts
    } else if c == "export"@ {
        r matches Some(BuiltCommand::Export(a)) && a@ == args
    } else if c == "exit"@ {
        r matches Some(BuiltCommand::Exit)
    } else {
        r is None
    }
}

/// Picks the command that `cmd` names, built from its arguments and
/// options; `None` when the table has no such name. See `built_as`.
pub fn build_command(cmd: &String, args: Vec<String>, opts: Vec<String>) -> (r: Option<BuiltCommand>)
    ensures
        built_as(cmd@, r, args@, opts@),
{
    if string_is(cmd, "echo") {
        Some(BuiltCommand::Echo(Echo::new(args)))
    } else if string_is(cmd, "cd") {
        Some(BuiltCommand::Cd(Cd::new(args)))
    } else if string_is(cmd, "ls") {
        Some(BuiltCommand::Ls(Ls::new(args, opts)))
    } else if string_is(cmd, "pwd") {
        Some(BuiltCommand::Pwd(Pwd::new(args)))
    } else if string_is(cmd, "cat") {
        Some(BuiltCommand::Cat(Cat::new(args)))
    } else if string_is(cmd, "cp") {
        Some(BuiltCommand::Cp(Cp::new(args)))
    } else if string_is(cmd, "rm") {
        Some(BuiltCommand::Rm(Rm::new(args, opts)))
    } else if string_is(cmd, "mv") {
        Some(BuiltCommand::Mv(Mv::new(args)))
    } else if string_is(cmd, "mkdir") {
        Some(BuiltCommand::Mkdir(mkdir::new(args, opts)))
    } else if string_is(cmd, "export") {
        Some(BuiltCommand::Export(args))
    } else if string_is(cmd, "exit") {
        Some(BuiltCommand::Exit)
    } else {
        None
    }
}

/// The texts that start with `-`, in order.
pub open spec fn options_of(v: Seq<Seq<char>>) -> Seq<Seq<char>> {
    v.filter(|s: Seq<char>| s.len() > 0 && s[0] == '-')
}

/// The texts that do not start with `-`, in order.
pub open spec fn operands_of(v: Seq<Seq<char>>) -> Seq<Seq<char>> {
    v.filter(|s: Seq<char>| !(s.len() > 0 && s[0] == '-'))
}

fn starts_with_dash(s: &String) -> (r: bool)
    ensures
        r == (s@.len() > 0 && s@[0] == '-'),
{
    let cs = crate::strings::str_to_chars(s.as_str());
    cs.len() > 0 && cs[0] == '-'
}

/// A command's word and its arguments expanded, the arguments split into
/// options (those starting with `-`) and operands, each in order.
pub fn prepare_command(cmd: &Word, args: &Vec<Word>, env: &ShellEnv) -> (r: (String, Vec<String>, Vec<String>))
    ensures
        r.0@ == word_text(cmd@, env.vars()),
        strings_view(r.1@) == options_of(Seq::new(args@.len(), |i: int| word_text(args@[i]@, env.vars()))),
        strings_view(r.2@) == operands_of(Seq::new(args@.len(), |i: int| word_text(args@[i]@, env.vars()))),
{
    let ghost all = Seq::new(args@.len(), |i: int| word_text(args@[i]@, env.vars()));
    let cmd_str = word_to_string(cmd, env);
    let mut opts: Vec<String> = Vec::new();
    let mut operands: Vec<String> = Vec::new();
    let mut i: usize = 0;
    proof {
        reveal(Seq::filter);
    }
    assert(all.subrange(0, 0).filter(|s: Seq<char>| s.len() > 0 && s[0] == '-') =~= Seq::<Seq<char>>::empty());
    assert(all.subrange(0, 0).filter(|s: Seq<char>| !(s.len() > 0 && s[0] == '-')) =~= Seq::<Seq<char>>::empty());
    while i < args.len()
        invariant
            0 <= i <= args@.len(),
            all == Seq::new(args@.len(), |i: int| word_text(args@[i]@, env.vars())),
            strings_view(opts@) == options_of(all.subrange(0, i as int)),
            strings_view(operands@) == operands_of(all.subrange(0, i as int)),
        decreases args@.len() - i,
    {
        let w = word_to_string(&args[i], env);
        assert(all.subrange(0, i + 1).drop_last() =~= all.subrange(0, i as int));
        proof {
            reveal(Seq::filter);
        }
        let ghost o0 = opts@;
        let ghost p0 = operands@;
        if starts_with_dash(&w) {
            opts.push(w);
            assert(strings_view(opts@) =~= strings_view(o0).push(w@));
        } else {
            operands.push(w);
            assert(strings_view(operands@) =~= strings_view(p0).push(w@));
        }
        i = i + 1;
    }
    assert(all.subrange(0, args@.len() as int) =~= all);
    (cmd_str, opts, operands)
}

} // verus!

verus! {

/// The exit status of a command line's command: 127 when the table has no
/// such command, else 0 when it ran without error and 1 when it failed.
pub fn command_status(found: bool, ran_ok: bool) -> (r: i32)
    ensures
        r == if !found { 127i32 } else if ran_ok { 0i32 } else { 1i32 },
{
    if !found {
        127
    } else if ran_ok {
        0
    } else {
        1
    }
}

} // verus!
