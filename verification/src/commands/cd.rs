use vstd::prelude::*;

verus! {

/// The `cd` command and its arguments.
#[derive(Debug, PartialEq, Eq)]
pub struct Cd {
    pub args: Vec<String>,
}

impl Cd {
    pub fn new(args: Vec<String>) -> (r: Self)
        ensures
            r.args@ == args@,
    {
        Cd { args: args }
    }
}

} // verus!

verus! {

impl Cd {
    /// Where `cd` goes: `None` for the home directory (no argument, `~`, or
    /// an argument of whitespace only), else the first argument.
    pub fn target(&self) -> (r: Option<&String>)
        ensures
            self.args@.len() == 0 ==> r is None,
            self.args@.len() > 0 ==> ({
                let a = self.args@[0]@;
                let home = a == "~"@ || (forall|i: int| 0 <= i < a.len() ==> crate::strings::unicode_whitespace(#[trigger] a[i]));
                if home { r is None } else { r matches Some(t) && t@ == a }
            }),
    {
        if self.args.len() == 0 {
            return None;
        }
        let arg = &self.args[0];
        if crate::parser::string_is(arg, "~") {
            return None;
        }
        let cs = crate::strings::str_to_chars(arg.as_str());
        let mut i: usize = 0;
        while i < cs.len()
            invariant
                0 <= i <= cs@.len(),
                cs@ == arg@,
                self.args@.len() > 0,
                *arg == self.args@[0],
                arg@ != "~"@,
                forall|j: int| 0 <= j < i ==> crate::strings::unicode_whitespace(#[trigger] cs@[j]),
            decreases cs@.len() - i,
        {
            if !crate::strings::char_is_whitespace(cs[i]) {
                return Some(arg);
            }
            i = i + 1;
        }
        None
    }
}

} // verus!
