use vstd::prelude::*;
use crate::envirement::ShellEnv;

verus! {

/// Runs `args[0]` when it names a built-in command; no name does yet, so
/// the answer is always `None` and the environment is left as it was.
pub fn try_builtin(args: &[String], env: &mut ShellEnv) -> (r: Option<i32>)
    requires
        args@.len() > 0,
    ensures
        r is None,
        final(env).vars() == old(env).vars(),
        final(env).arith() == old(env).arith(),
        final(env).jobs() == old(env).jobs(),
        final(env).next_id() == old(env).next_id(),
        final(env).status() == old(env).status(),
        final(env).funcs() == old(env).funcs(),
        final(env).start() == old(env).start(),
{
    let _name = args[0].as_str();
    None
}

} // verus!
