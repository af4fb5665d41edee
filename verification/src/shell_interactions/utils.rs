use vstd::prelude::*;

verus! {

/// Where the cursor is: `x` characters before the end of the line being
/// edited, `y` lines below the prompt's line.
#[derive(Debug, Clone, Copy)]
pub struct CursorPosition {
    pub x: u16,
    pub y: u16,
}

impl CursorPosition {
    pub fn new(x: u16, y: u16) -> (r: Self)
        ensures
            r.x == x,
            r.y == y,
    {
        Self { x, y }
    }

    /// Back to the end of the line, on the prompt's line.
    pub fn reset(&mut self)
        ensures
            final(self).x == 0,
            final(self).y == 0,
    {
        self.x = 0;
        self.y = 0;
    }
}

/// How many terminal lines of `width` columns the prompt (`prompt_length`
/// columns) and a buffer of `buffer_size` take; the size is taken modulo
/// 2^16, as a `u16`.
pub fn calc_termlines_in_buffer(width: u16, prompt_length: u16, buffer_size: usize) -> (r: u16)
    requires
        width >= 1,
        prompt_length + (buffer_size as u16) + width <= u16::MAX,
    ensures
        r == (prompt_length + (buffer_size as u16) + width - 1) / (width as int),
{
    let total_content = prompt_length + buffer_size as u16;
    (total_content + width - 1) / width
}

} // verus!
