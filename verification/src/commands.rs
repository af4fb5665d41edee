pub mod cat;
pub mod cd;
pub mod cp;
pub mod echo;
pub mod ls;
pub mod mkdir;
pub mod mv;
pub mod pwd;
pub mod rm;

use vstd::prelude::*;
use vstd::string::StringExecFns;
use crate::parser::string_is;
use crate::strings::{join_strings, join_with};

verus! {

/// What `echo` prints: the arguments separated by spaces, then a newline.
pub fn echo_text(args: &Vec<String>) -> (r: String)
    ensures
        r@ == join_with(args@.map_values(|s: String| s@), " "@) + "\n"@,
{
    let line = join_strings(args, " ");
    line.concat("\n")
}

/// What `mkdir` prints: a usage message without arguments, a hint for
/// `--help`, and nothing otherwise.
pub fn mkdir_message(args: &Vec<String>) -> (r: Option<String>)
    ensures
        args@.len() == 0 ==> (r matches Some(m) && m@ == "mkdir: missing operand\nTry 'mkdir --help' for more information.\n"@),
        args@.len() > 0 && args@[0]@ == "--help"@ ==> (r matches Some(m)
            && m@ == "use only mkdir if you wish to make a dir without options !\n"@),
        args@.len() > 0 && args@[0]@ != "--help"@ ==> r is None,
{
    if args.len() == 0 {
        return Some(String::from_str("mkdir: missing operand\nTry 'mkdir --help' for more information.\n"));
    }
    if string_is(&args[0], "--help") {
        return Some(String::from_str("use only mkdir if you wish to make a dir without options !\n"));
    }
    None
}

/// `cd` of the command table: does nothing.
pub fn cd() {
}

/// `ls` of the command table: does nothing.
pub fn ls() {
}

/// `cat` of the command table: does nothing.
pub fn cat() {
}

/// `cp` of the command table: does nothing.
pub fn cp() {
}

/// `rm` of the command table: does nothing.
pub fn rm() {
}

/// `mv` of the command table: does nothing.
pub fn mv() {
}

/// `exit` of the command table: does nothing.
pub fn exit() {
}

} // verus!
