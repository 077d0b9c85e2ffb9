//! The viewport: the size of the display, the first line it shows, and the
//! text of the window that it shows.

use vstd::prelude::*;
use vstd::string::StringExecFns;
use crate::text::lines_of;

verus! {

/// The display: its size, and the index of the first buffer line that is
/// visible on it.
#[derive(Clone, Copy, Debug)]
pub struct Screen {
    /// Number of rows of the display.
    pub total_rows: u16,
    /// Number of columns of the display.
    pub total_cols: u16,
    /// Index of the buffer line shown on the first row.
    pub scroll_offset: usize,
}

/// The line break of the display: a line feed, then a carriage return.
pub open spec fn line_break() -> Seq<char> {
    seq!['\n', '\r']
}

/// The index one past the last buffer line that a window shows: the
/// window starts at `offset`, is `rows` lines high and ends with the buffer.
pub open spec fn window_end(len: int, offset: int, rows: int) -> int {
    if offset >= len || rows <= 0 {
        offset
    } else if offset + rows <= len {
        offset + rows
    } else {
        len
    }
}

/// Line `index` as the window shows it: the line, followed by a line break.
pub open spec fn row_text(lines: Seq<Seq<char>>, index: int) -> Seq<char> {
    lines[index] + line_break()
}

/// The text of the lines from `offset` up to, not including, `end`, each
/// followed by a line break.
pub open spec fn rows_text(lines: Seq<Seq<char>>, offset: int, end: int) -> Seq<char>
    decreases end - offset,
{
    if end <= offset {
        Seq::empty()
    } else {
        rows_text(lines, offset, end - 1) + row_text(lines, end - 1)
    }
}

/// The text of the window: the lines from `offset` to `offset + rows - 1`
/// as far as the buffer has them, in order, each followed by a line break;
/// nothing stands for a line that the buffer does not have.
pub open spec fn window_text(lines: Seq<Seq<char>>, offset: int, rows: int) -> Seq<char> {
    rows_text(lines, offset, window_end(lines.len() as int, offset, rows))
}

impl Screen {
    /// The display of the given size, columns first and rows second, showing
    /// the buffer from its first line.
    pub fn new(size: (u16, u16)) -> (screen: Screen)
        ensures
            screen.total_cols == size.0,
            screen.total_rows == size.1,
            screen.scroll_offset == 0,
    {
        Screen { total_rows: size.1, total_cols: size.0, scroll_offset: 0 }
    }

    /// Makes `new_offset` the first visible line. The window only ever
    /// moves forward, and the caller draws it again afterwards.
    pub fn scroll_to(&mut self, new_offset: usize)
        requires
            old(self).scroll_offset <= new_offset,
        ensures
            final(self).scroll_offset == new_offset,
            final(self).total_rows == old(self).total_rows,
            final(self).total_cols == old(self).total_cols,
    {
        self.scroll_offset = new_offset;
    }
}

/// The text of the window that is `screen_lines` rows high and starts at
/// buffer line `starting_row`: each of its lines, followed by a line break.
pub fn refresh_screen(buffer: &Vec<String>, screen_lines: u16, starting_row: usize) -> (text:
    String)
    ensures
        text@ == window_text(lines_of(buffer), starting_row as int, screen_lines as int),
{
    let ghost lines = lines_of(buffer);
    let mut text = String::new();
    let mut index: usize = starting_row;
    while index < buffer.len() && index - starting_row < screen_lines as usize
        invariant
            lines == lines_of(buffer),
            starting_row <= index,
            index - starting_row <= screen_lines,
            index <= buffer.len() || index == starting_row,
            text@ == rows_text(lines, starting_row as int, index as int),
        decreases buffer.len() - index,
    {
        let ghost before = text@;
        text.append(buffer[index].as_str());
        proof {
            reveal_strlit("\n\r");
        }
        text.append("\n\r");
        assert("\n\r"@ == line_break());
        assert(text@ == before + row_text(lines, index as int));
        index = index + 1;
    }
    text
}

} // verus!
