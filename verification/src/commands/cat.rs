use vstd::prelude::*;

verus! {

/// The `cat` command and its arguments.
#[derive(Debug, PartialEq, Eq)]
pub struct Cat {
    pub args: Vec<String>,
}

impl Cat {
    pub fn new(args: Vec<String>) -> (r: Self)
        ensures
            r.args@ == args@,
    {
        Cat { args: args }
    }
}

} // verus!
