use vstd::prelude::*;

verus! {

/// Where a redrawn line goes: how many terminal lines it takes, and the
/// line (below the prompt's) and column (from 1) of the cursor.
pub struct RenderLayout {
    pub total_lines: u16,
    pub cursor_line_offset: usize,
    pub cursor_col: usize,
}

/// The layout of the prompt (`prompt_length` columns) and a buffer of
/// `buffer_len` columns on a terminal of `term_width` columns, with the
/// cursor `cursor_x` columns before the end of the buffer (at its start
/// when that is further back than the buffer is long).
pub fn render_layout(term_width: u16, prompt_length: u16, buffer_len: usize, cursor_x: u16) -> (r: RenderLayout)
    requires
        term_width >= 1,
        prompt_length + (buffer_len as u16) + term_width <= u16::MAX,
        prompt_length + buffer_len <= usize::MAX,
    ensures
        ({
            let total = prompt_length + (buffer_len as u16);
            r.total_lines == if total == 0 { 1 } else { (total + term_width - 1) / (term_width as int) }
        }),
        ({
            let in_buffer: int = if cursor_x > (buffer_len as u16) { 0 } else { buffer_len - cursor_x };
            &&& r.cursor_line_offset == (prompt_length + in_buffer) / (term_width as int)
            &&& r.cursor_col == (prompt_length + in_buffer) % (term_width as int) + 1
        }),
{
    let total_content_len = prompt_length + buffer_len as u16;
    let total_lines = if total_content_len == 0 {
        1
    } else {
        (total_content_len + term_width - 1) / term_width
    };
    let cursor_position_in_buffer: usize = if cursor_x > buffer_len as u16 {
        0
    } else {
        buffer_len - cursor_x as usize
    };
    let total_cursor_pos = prompt_length as usize + cursor_position_in_buffer;
    let cursor_line_offset = total_cursor_pos / term_width as usize;
    let cursor_col = (total_cursor_pos % term_width as usize) + 1;
    RenderLayout { total_lines, cursor_line_offset, cursor_col }
}

} // verus!
