use vstd::prelude::*;

verus! {

/// The cursor of the interactive line editor: `x` places before the end of
/// the line, `y` lines below the prompt.
#[derive(Debug, Clone, Copy)]
pub struct CursorPostition {
    x: u16,
    y: u16,
}

impl CursorPostition {
    pub closed spec fn col(&self) -> u16 {
        self.x
    }

    pub closed spec fn row(&self) -> u16 {
        self.y
    }

    pub fn new(x: u16, y: u16) -> (r: Self)
        ensures
            r.col() == x,
            r.row() == y,
    {
        Self { x: x, y: y }
    }
}

} // verus!
