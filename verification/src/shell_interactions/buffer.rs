use vstd::prelude::*;
use crate::shell_interactions::utils::CursorPosition;
use crate::strings::{chars_to_string, str_to_chars};

verus! {

/// The displayed width in columns of a text, as `unicode_width` measures it.
pub uninterp spec fn display_width(s: Seq<char>) -> usize;

/// Calls `UnicodeWidthStr::width` of the `unicode-width` crate. Claimed:
/// the result is `display_width` of the text's characters, a function of
/// the characters alone.
#[verifier::external_body]
fn str_width(s: &str) -> (w: usize)
    ensures
        w == display_width(s@),
{
    unicode_width::UnicodeWidthStr::width(s)
}

/// The line with `c` inserted `x` characters before its end.
pub open spec fn inserted(buf: Seq<char>, x: int, c: char) -> Seq<char> {
    let p = buf.len() - x;
    buf.subrange(0, p).push(c) + buf.subrange(p, buf.len() as int)
}

/// The line with the character before the cursor (`x` characters before
/// the end) taken out: the last one when `x` is 0, none when the cursor is
/// at the start.
pub open spec fn deleted(buf: Seq<char>, x: int) -> Seq<char> {
    if buf.len() == 0 {
        buf
    } else if x == 0 {
        buf.drop_last()
    } else {
        let p = buf.len() - x;
        if p > 0 { buf.remove(p - 1) } else { buf }
    }
}

/// Where the cursor goes on a move left: one place further back, unless
/// it is already as far back as the line is wide (`width` columns, taken
/// as a `u16`).
pub open spec fn left_move(x: u16, width: usize) -> u16 {
    if x < (width as u16) {
        (x + 1) as u16
    } else {
        x
    }
}

/// Where the cursor goes on a move right: one place towards the end,
/// unless it is at the end.
pub open spec fn right_move(x: u16) -> u16 {
    if x > 0 {
        (x - 1) as u16
    } else {
        x
    }
}

/// Inserts `c` where the cursor stands, `cursor.x` characters before the end.
pub fn insert_char(buffer: &mut String, cursor: &CursorPosition, c: char)
    requires
        cursor.x <= old(buffer)@.len(),
    ensures
        final(buffer)@ == inserted(old(buffer)@, cursor.x as int, c),
{
    let chars = str_to_chars(buffer.as_str());
    let p = chars.len() - cursor.x as usize;
    let mut out: Vec<char> = Vec::new();
    let mut i: usize = 0;
    while i < chars.len()
        invariant
            0 <= i <= chars@.len(),
            p <= chars@.len(),
            out@ == if i <= p {
                chars@.subrange(0, i as int)
            } else {
                chars@.subrange(0, p as int).push(c) + chars@.subrange(p as int, i as int)
            },
        decreases chars@.len() - i,
    {
        if i == p {
            out.push(c);
        }
        out.push(chars[i]);
        i = i + 1;
        assert(out@ =~= if i <= p {
            chars@.subrange(0, i as int)
        } else {
            chars@.subrange(0, p as int).push(c) + chars@.subrange(p as int, i as int)
        });
    }
    if p == chars.len() {
        out.push(c);
    }
    assert(out@ =~= chars@.subrange(0, p as int).push(c) + chars@.subrange(p as int, chars@.len() as int));
    *buffer = chars_to_string(out.as_slice());
}

/// Deletes the character before the cursor (the last one when the cursor
/// is at the end); says whether the line changed and must be redrawn.
pub fn delete_char(buffer: &mut String, cursor: &CursorPosition) -> (redraw: bool)
    requires
        old(buffer)@.len() > 0 && cursor.x != 0 ==> cursor.x <= old(buffer)@.len(),
    ensures
        redraw == (old(buffer)@.len() > 0),
        final(buffer)@ == deleted(old(buffer)@, cursor.x as int),
{
    let chars = str_to_chars(buffer.as_str());
    if chars.len() == 0 {
        return false;
    }
    let cut: usize = if cursor.x == 0 {
        chars.len()
    } else {
        chars.len() - cursor.x as usize
    };
    if cut == 0 {
        return true;
    }
    let mut out: Vec<char> = Vec::new();
    let mut i: usize = 0;
    while i < chars.len()
        invariant
            0 <= i <= chars@.len(),
            1 <= cut <= chars@.len(),
            out@ == if i < cut { chars@.subrange(0, i as int) } else { chars@.remove(cut - 1).subrange(0, i - 1) },
        decreases chars@.len() - i,
    {
        if i + 1 != cut {
            out.push(chars[i]);
        }
        i = i + 1;
        assert(out@ =~= if i < cut { chars@.subrange(0, i as int) } else { chars@.remove(cut - 1).subrange(0, i - 1) });
    }
    assert(out@ =~= chars@.remove(cut - 1));
    if cursor.x == 0 {
        assert(chars@.remove(cut - 1) =~= chars@.drop_last());
    }
    *buffer = chars_to_string(out.as_slice());
    true
}

/// Moves the cursor one place left, unless it is already as far back as
/// the line is wide; says whether it moved.
pub fn move_cursor_left(buffer: &str, cursor: &mut CursorPosition) -> (moved: bool)
    ensures
        moved == (old(cursor).x < (display_width(buffer@) as u16)),
        final(cursor).x == left_move(old(cursor).x, display_width(buffer@)),
        final(cursor).y == old(cursor).y,
{
    if cursor.x < str_width(buffer) as u16 {
        cursor.x = cursor.x + 1;
        true
    } else {
        false
    }
}

/// Moves the cursor one place right, towards the end; says whether it moved.
pub fn move_cursor_right(cursor: &mut CursorPosition) -> (moved: bool)
    ensures
        moved == (old(cursor).x > 0),
        final(cursor).x == right_move(old(cursor).x),
        final(cursor).y == old(cursor).y,
{
    if cursor.x > 0 {
        cursor.x = cursor.x - 1;
        true
    } else {
        false
    }
}

} // verus!

verus! {

/// Deleting right after inserting, with the cursor where it was, gives
/// back the line as it was.
pub proof fn law_delete_undoes_insert(buf: Seq<char>, x: int, c: char)
    requires
        0 <= x <= buf.len(),
    ensures
        deleted(inserted(buf, x, c), x) == buf,
{
    let p = buf.len() - x;
    let ins = inserted(buf, x, c);
    assert(ins.len() == buf.len() + 1);
    if x == 0 {
        assert(ins.drop_last() =~= buf);
    } else {
        assert(ins.len() - x == p + 1);
        assert(ins.remove(p) =~= buf);
    }
}

/// A move right takes back a move left that happened.
pub proof fn law_right_undoes_left(x: u16, width: usize)
    requires
        x < (width as u16),
    ensures
        right_move(left_move(x, width)) == x,
{
}

/// A move left takes back a move right that happened, on a line at least
/// as wide as the cursor is far back.
pub proof fn law_left_undoes_right(x: u16, width: usize)
    requires
        0 < x <= (width as u16),
    ensures
        left_move(right_move(x), width) == x,
{
}

} // verus!
