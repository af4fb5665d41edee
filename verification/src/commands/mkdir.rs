use vstd::prelude::*;
use crate::parser::string_is;

verus! {

/// The `mkdir` command: the directories to make and its flags.
#[allow(non_camel_case_types)]
#[derive(Debug, PartialEq, Eq)]
pub struct mkdir {
    pub args: Vec<String>,
    pub flags: Vec<String>,
}

impl mkdir {
    pub fn new(args: Vec<String>, flags: Vec<String>) -> (r: Self)
        ensures
            r.args@ == args@,
            r.flags@ == flags@,
    {
        mkdir { args: args, flags }
    }

    /// One of the flags is `-p` (make parent directories as needed).
    pub fn parse_flags(&self) -> (r: bool)
        ensures
            r == exists|i: int| 0 <= i < self.flags@.len() && (#[trigger] self.flags@[i])@ == "-p"@,
    {
        let mut i: usize = 0;
        while i < self.flags.len()
            invariant
                0 <= i <= self.flags@.len(),
                forall|j: int| 0 <= j < i ==> (#[trigger] self.flags@[j])@ != "-p"@,
            decreases self.flags@.len() - i,
        {
            if string_is(&self.flags[i], "-p") {
                return true;
            }
            i = i + 1;
        }
        false
    }
}

} // verus!
