use vstd::prelude::*;
use crate::parser::string_is;

verus! {

/// The `rm` command: its targets and its options.
#[derive(Debug, PartialEq, Eq)]
pub struct Rm {
    pub args: Vec<String>,
    pub opts: Vec<String>,
}

impl Rm {
    pub fn new(args: Vec<String>, opts: Vec<String>) -> (r: Self)
        ensures
            r.args@ == args@,
            r.opts@ == opts@,
    {
        Rm { args, opts }
    }

    /// One of the options is `-r`.
    pub fn is_recursive(&self) -> (r: bool)
        ensures
            r == exists|i: int| 0 <= i < self.opts@.len() && (#[trigger] self.opts@[i])@ == "-r"@,
    {
        let mut i: usize = 0;
        while i < self.opts.len()
            invariant
                0 <= i <= self.opts@.len(),
                forall|j: int| 0 <= j < i ==> (#[trigger] self.opts@[j])@ != "-r"@,
            decreases self.opts@.len() - i,
        {
            if string_is(&self.opts[i], "-r") {
                return true;
            }
            i = i + 1;
        }
        false
    }
}

} // verus!

verus! {

/// What `rm` does with one target.
#[derive(Debug, Clone, Copy, PartialEq, Eq, Structural)]
pub enum RmStep {
    /// It does not exist: report it and go on.
    Missing,
    /// A directory under `-r`: remove it with all it holds.
    RemoveTree,
    /// A directory without `-r`: report it and go on.
    RefuseDirectory,
    /// Anything else: remove the file.
    RemoveFile,
}

/// What `rm` does with a target that exists or not, is a directory or
/// not, with or without `-r`.
pub open spec fn rm_step_of(exists: bool, is_dir: bool, recursive: bool) -> RmStep {
    if !exists {
        RmStep::Missing
    } else if is_dir {
        if recursive { RmStep::RemoveTree } else { RmStep::RefuseDirectory }
    } else {
        RmStep::RemoveFile
    }
}

/// What `rm` does with one target; see `rm_step_of`.
pub fn rm_step(exists: bool, is_dir: bool, recursive: bool) -> (r: RmStep)
    ensures
        r == rm_step_of(exists, is_dir, recursive),
{
    if !exists {
        RmStep::Missing
    } else if is_dir {
        if recursive {
            RmStep::RemoveTree
        } else {
            RmStep::RefuseDirectory
        }
    } else {
        RmStep::RemoveFile
    }
}

} // verus!
