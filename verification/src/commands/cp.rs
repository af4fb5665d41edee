use vstd::prelude::*;

verus! {

/// The `cp` command and its arguments.
#[derive(Debug, PartialEq, Eq)]
pub struct Cp {
    pub args: Vec<String>,
}

impl Cp {
    pub fn new(args: Vec<String>) -> (r: Self)
        ensures
            r.args@ == args@,
    {
        Cp { args: args }
    }
}

} // verus!
