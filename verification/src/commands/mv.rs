use vstd::prelude::*;

verus! {

/// The `mv` command and its arguments: sources, then the destination.
#[derive(Debug, PartialEq, Eq)]
pub struct Mv {
    pub args: Vec<String>,
}

impl Mv {
    pub fn new(args: Vec<String>) -> (r: Self)
        ensures
            r.args@ == args@,
    {
        Mv { args: args }
    }

    /// At least two arguments, and with more than two the first names a
    /// directory under the current one (`first_is_dir`, which the caller
    /// finds out).
    pub fn validate_args(&self, first_is_dir: bool) -> (r: bool)
        ensures
            r == (self.args@.len() >= 2 && (self.args@.len() == 2 || first_is_dir)),
    {
        if self.args.len() < 2 {
            return false;
        }
        if self.args.len() > 2 {
            if !first_is_dir {
                return false;
            }
        }
        true
    }

    /// The sources (all arguments but the last) and the destination (the last).
    pub fn get_param(&self) -> (r: Result<(Vec<&str>, &str), &str>)
        requires
            self.args@.len() > 0,
        ensures
            r matches Ok((sources, dest)) && sources@.len() == self.args@.len() - 1
                && (forall|i: int| 0 <= i < sources@.len() ==> (#[trigger] sources@[i])@ == self.args@[i]@)
                && dest@ == self.args@[self.args@.len() - 1]@,
    {
        let mut source: Vec<&str> = Vec::new();
        let last = self.args.len() - 1;
        let mut index: usize = 0;
        while index < self.args.len()
            invariant
                0 <= index <= self.args@.len(),
                last == self.args@.len() - 1,
                source@.len() == if index <= last { index as int } else { last as int },
                forall|i: int| 0 <= i < source@.len() ==> (#[trigger] source@[i])@ == self.args@[i]@,
            decreases self.args@.len() - index,
        {
            if index != last {
                source.push(self.args[index].as_str());
            }
            index = index + 1;
        }
        let dest: &str = self.args[last].as_str();
        Ok((source, dest))
    }
}

} // verus!
