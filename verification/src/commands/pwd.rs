use vstd::prelude::*;

verus! {

/// The `pwd` command and its arguments.
#[derive(Debug, PartialEq, Eq)]
pub struct Pwd {
    pub args: Vec<String>,
}

impl Pwd {
    pub fn new(args: Vec<String>) -> (r: Self)
        ensures
            r.args@ == args@,
    {
        Pwd { args: args }
    }
}

} // verus!
