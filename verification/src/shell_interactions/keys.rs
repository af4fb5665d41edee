use vstd::prelude::*;
use crate::shell_interactions::buffer::{
    delete_char, deleted, display_width, insert_char, inserted, left_move, move_cursor_left, move_cursor_right, right_move,
};
use crate::shell_interactions::utils::CursorPosition;
use crate::strings::{char_is_whitespace, str_to_chars, unicode_whitespace};

verus! {

/// The keys the line editor tells apart.
pub enum EditKey {
    Enter,
    Tab,
    Char(char),
    Backspace,
    Left,
    Right,
    Up,
    Down,
    CtrlL,
    CtrlC,
    CtrlD,
    Other,
}

/// What the terminal side does after a key.
pub enum EditAction {
    /// Nothing changed on screen.
    Nothing,
    /// The line changed or the cursor moved: redraw the line.
    Redraw,
    /// Run this line, then show a new prompt.
    Run(String),
    /// The line was blank: show a new prompt.
    Prompt,
    /// Show the previous line of the history.
    HistoryPrev,
    /// Show the next line of the history.
    HistoryNext,
    /// Clear the screen and show a new prompt.
    ClearScreen,
    /// Leave the shell.
    Quit,
}

/// The line holds a character that is not white space.
pub open spec fn has_text(s: Seq<char>) -> bool {
    exists|i: int| 0 <= i < s.len() && !unicode_whitespace(#[trigger] s[i])
}

fn line_has_text(s: &String) -> (r: bool)
    ensures
        r == has_text(s@),
{
    let cs = str_to_chars(s.as_str());
    let mut i: usize = 0;
    while i < cs.len()
        invariant
            0 <= i <= cs@.len(),
            cs@ == s@,
            forall|j: int| 0 <= j < i ==> unicode_whitespace(#[trigger] cs@[j]),
        decreases cs@.len() - i,
    {
        if !char_is_whitespace(cs[i]) {
            return true;
        }
        i = i + 1;
    }
    false
}

/// The line being edited and the cursor after a key, and what the terminal
/// must do: Enter hands over the line (when it is not blank) and starts an
/// empty one; a character goes in at the cursor; Backspace takes out the
/// character before the cursor; Left and Right move the cursor; Up and
/// Down ask for a line of the history, the cursor back at the end; Ctrl-L
/// clears the screen and the line; Ctrl-D quits; other keys do nothing.
pub fn handle_key(buffer: &mut String, cursor: &mut CursorPosition, key: EditKey) -> (act: EditAction)
    requires
        key is Char ==> old(cursor).x <= old(buffer)@.len(),
        key is Backspace && old(buffer)@.len() > 0 && old(cursor).x != 0 ==> old(cursor).x <= old(buffer)@.len(),
    ensures
        match key {
            EditKey::Enter => {
                &&& final(buffer)@ == Seq::<char>::empty()
                &&& final(cursor).x == 0 && final(cursor).y == 0
                &&& if has_text(old(buffer)@) {
                    act matches EditAction::Run(line) && line@ == old(buffer)@
                } else {
                    act is Prompt
                }
            },
            EditKey::Char(c) => {
                &&& final(buffer)@ == inserted(old(buffer)@, old(cursor).x as int, c)
                &&& *final(cursor) == *old(cursor)
                &&& act is Redraw
            },
            EditKey::Backspace => {
                &&& final(buffer)@ == deleted(old(buffer)@, old(cursor).x as int)
                &&& *final(cursor) == *old(cursor)
                &&& if old(buffer)@.len() > 0 { act is Redraw } else { act is Nothing }
            },
            EditKey::Left => {
                let moved = old(cursor).x < (display_width(old(buffer)@) as u16);
                &&& final(buffer)@ == old(buffer)@
                &&& final(cursor).x == left_move(old(cursor).x, display_width(old(buffer)@))
                &&& final(cursor).y == old(cursor).y
                &&& if moved { act is Redraw } else { act is Nothing }
            },
            EditKey::Right => {
                let moved = old(cursor).x > 0;
                &&& final(buffer)@ == old(buffer)@
                &&& final(cursor).x == right_move(old(cursor).x)
                &&& final(cursor).y == old(cursor).y
                &&& if moved { act is Redraw } else { act is Nothing }
            },
            EditKey::Up => {
                &&& final(buffer)@ == old(buffer)@
                &&& final(cursor).x == 0 && final(cursor).y == 0
                &&& act is HistoryPrev
            },
            EditKey::Down => {
                &&& final(buffer)@ == old(buffer)@
                &&& final(cursor).x == 0 && final(cursor).y == 0
                &&& act is HistoryNext
            },
            EditKey::CtrlL => {
                &&& final(buffer)@ == Seq::<char>::empty()
                &&& final(cursor).x == 0 && final(cursor).y == 0
                &&& act is ClearScreen
            },
            EditKey::CtrlD => {
                &&& final(buffer)@ == old(buffer)@
                &&& *final(cursor) == *old(cursor)
                &&& act is Quit
            },
            _ => {
                &&& final(buffer)@ == old(buffer)@
                &&& *final(cursor) == *old(cursor)
                &&& act is Nothing
            },
        },
{
    match key {
        EditKey::Enter => {
            cursor.reset();
            let mut line = String::new();
            std::mem::swap(&mut line, buffer);
            if line_has_text(&line) {
                EditAction::Run(line)
            } else {
                EditAction::Prompt
            }
        },
        EditKey::Char(c) => {
            insert_char(buffer, cursor, c);
            EditAction::Redraw
        },
        EditKey::Backspace => {
            if delete_char(buffer, cursor) {
                EditAction::Redraw
            } else {
                EditAction::Nothing
            }
        },
        EditKey::Left => {
            if move_cursor_left(buffer.as_str(), cursor) {
                EditAction::Redraw
            } else {
                EditAction::Nothing
            }
        },
        EditKey::Right => {
            if move_cursor_right(cursor) {
                EditAction::Redraw
            } else {
                EditAction::Nothing
            }
        },
        EditKey::Up => {
            cursor.reset();
            EditAction::HistoryPrev
        },
        EditKey::Down => {
            cursor.reset();
            EditAction::HistoryNext
        },
        EditKey::CtrlL => {
            cursor.reset();
            *buffer = String::new();
            EditAction::ClearScreen
        },
        EditKey::CtrlD => EditAction::Quit,
        _ => EditAction::Nothing,
    }
}

} // verus!

verus! {

/// Where the history index goes on Up (`back`) or Down over a history of
/// `len` lines: one line back (not before the first), or one line on (up
/// to one past the last, the empty line); `None` when it cannot move.
pub fn history_step(len: usize, index: usize, back: bool) -> (r: Option<usize>)
    ensures
        r == if back {
            if index > 0 { Some((index - 1) as usize) } else { None }
        } else {
            if index < len { Some((index + 1) as usize) } else { None }
        },
{
    if back {
        if index > 0 {
            Some(index - 1)
        } else {
            None
        }
    } else {
        if index < len {
            Some(index + 1)
        } else {
            None
        }
    }
}

/// The line the history shows at `index`: that line, or an empty one past
/// the last.
pub fn history_line(history: &Vec<String>, index: usize) -> (r: String)
    ensures
        r@ == if index < history@.len() { history@[index as int]@ } else { Seq::<char>::empty() },
{
    if index < history.len() {
        history[index].clone()
    } else {
        String::new()
    }
}

} // verus!
