//! The cursor: where it stands in the buffer and on the display, how a typed
//! character is checked against the buffer, and where the cursor goes next.

use vstd::prelude::*;
use vstd::string::StrSliceExecFns;
use crate::screen::Screen;
use crate::text::{lemma_start_of, lines_of, start_of, typing_start};

verus! {

/// The cursor of a session: the character of the buffer that is to be
/// typed next, and the place on the display where it is shown. Rows and
/// columns of the display count from one.
#[derive(Clone, Copy, Debug)]
pub struct Game {
    /// Index of the buffer line that the cursor is on.
    pub buffer_line: usize,
    /// Index, within that line, of the character to type next.
    pub buffer_col: usize,
    /// Row of the display that the cursor is on.
    pub screen_row: usize,
    /// Column of the display that the cursor is on.
    pub screen_col: usize,
}

/// The first line at or after `from` that is not empty, or the number of
/// lines where none is left.
pub open spec fn next_line(lines: Seq<Seq<char>>, from: int) -> int
    decreases lines.len() - from,
{
    if from >= lines.len() {
        lines.len() as int
    } else if lines[from].len() > 0 {
        from
    } else {
        next_line(lines, from + 1)
    }
}

/// Where typing starts when the lines from `from` on are still to come:
/// on the first of them that is not empty, where typing starts on that
/// line. `None` where no such line is left.
pub open spec fn first_place(lines: Seq<Seq<char>>, from: int) -> Option<(int, int)> {
    let line = next_line(lines, from);
    if line < lines.len() {
        Some((line, start_of(lines[line])))
    } else {
        None
    }
}

/// The place that follows `(line, col)`: the next character of the line
/// or, behind its last character, the start of typing on the lines that
/// follow. `None` where the text ends there.
pub open spec fn place_after(lines: Seq<Seq<char>>, line: int, col: int) -> Option<(int, int)> {
    if col + 1 < lines[line].len() {
        Some((line, col + 1))
    } else {
        first_place(lines, line + 1)
    }
}

/// The number of lines that a window of `rows` rows can hold the cursor in:
/// a display without rows still has the row that the cursor is on.
pub open spec fn cursor_rows(rows: int) -> int {
    if rows < 1 {
        1
    } else {
        rows
    }
}

/// The scroll offset after the cursor went from `from_line` down to
/// `to_line`: where the new line lies beyond the last row of the window,
/// the window moves forward by as many lines as the cursor did.
pub open spec fn offset_after(offset: int, rows: int, from_line: int, to_line: int) -> int {
    if to_line > offset + rows - 1 {
        offset + (to_line - from_line)
    } else {
        offset
    }
}

/// Whether line `line` lies in the window that starts at the offset of
/// `screen`.
pub open spec fn in_window(line: int, screen: Screen) -> bool {
    screen.scroll_offset <= line < screen.scroll_offset + cursor_rows(screen.total_rows as int)
}

impl Game {
    /// Whether the cursor stands on character `col` of line `line`, shown
    /// where a window that starts at line `offset` shows that character.
    pub open spec fn stands_at(self, line: int, col: int, offset: int) -> bool {
        &&& self.buffer_line == line
        &&& self.buffer_col == col
        &&& self.screen_row == 1 + (line - offset)
        &&& self.screen_col == 1 + col
    }

    /// The cursor on the first character of the first line, in the upper
    /// left corner of the display.
    pub fn new() -> (game: Game)
        ensures
            game.stands_at(0, 0, 0),
    {
        Game { buffer_line: 0, buffer_col: 0, screen_row: 1, screen_col: 1 }
    }
}

/// Whether the cursor stands on a character of the buffer, inside the
/// window, and is shown where the window shows that character.
pub open spec fn well_placed(lines: Seq<Seq<char>>, game: Game, screen: Screen) -> bool {
    &&& game.buffer_line < lines.len()
    &&& game.buffer_col < lines[game.buffer_line as int].len()
    &&& in_window(game.buffer_line as int, screen)
    &&& game.stands_at(
        game.buffer_line as int,
        game.buffer_col as int,
        screen.scroll_offset as int,
    )
}

/// What a move of the cursor to `target` makes of cursor and viewport.
/// Without a target the text is finished and both stay as they were. With
/// one, the window scrolls if the target line lies beyond it, and the
/// cursor stands on the target, shown where the window now shows it.
pub open spec fn cursor_moved(
    game: Game,
    screen: Screen,
    target: Option<(int, int)>,
    new_game: Game,
    new_screen: Screen,
    finished: bool,
) -> bool {
    match target {
        None => finished && new_game == game && new_screen == screen,
        Some((line, col)) => {
            let offset = offset_after(
                screen.scroll_offset as int,
                screen.total_rows as int,
                game.buffer_line as int,
                line,
            );
            &&& !finished
            &&& new_screen.scroll_offset == offset
            &&& new_screen.total_rows == screen.total_rows
            &&& new_screen.total_cols == screen.total_cols
            &&& new_game.stands_at(line, col, offset)
        },
    }
}

/// Whether `input` is the character that the cursor stands on.
pub fn check_user_input(input: char, buffer: &Vec<String>, game: &Game) -> (correct: bool)
    requires
        game.buffer_line < buffer.len(),
        game.buffer_col < lines_of(buffer)[game.buffer_line as int].len(),
    ensures
        correct == (input == lines_of(buffer)[game.buffer_line as int][game.buffer_col as int]),
{
    input == buffer[game.buffer_line].as_str().get_char(game.buffer_col)
}

/// Moves the cursor to where typing starts on the lines from `from` on:
/// the first of them that is not empty, behind its indentation or, on a
/// line of whitespace alone, on its last character. Empty lines are passed
/// over. Returns `true`, and leaves cursor and viewport as they were, where
/// no line but empty ones is left.
pub fn enter_line(buffer: &Vec<String>, game: &mut Game, screen: &mut Screen, from: usize) -> (finished:
    bool)
    requires
        in_window(old(game).buffer_line as int, *old(screen)),
        old(game).buffer_line <= from,
    ensures
        cursor_moved(
            *old(game),
            *old(screen),
            first_place(lines_of(buffer), from as int),
            *final(game),
            *final(screen),
            finished,
        ),
        !finished ==> well_placed(lines_of(buffer), *final(game), *final(screen)),
{
    let ghost lines = lines_of(buffer);
    let mut target: usize = from;
    loop
        invariant
            lines == lines_of(buffer),
            *game == *old(game),
            *screen == *old(screen),
            in_window(game.buffer_line as int, *screen),
            game.buffer_line <= from <= target,
            next_line(lines, from as int) == next_line(lines, target as int),
        decreases buffer.len() - target,
    {
        if target >= buffer.len() {
            return true;
        }
        match typing_start(buffer[target].as_str()) {
            Some(col) => {
                proof {
                    lemma_start_of(lines[target as int]);
                }
                let lines_down: usize = target - game.buffer_line;
                if target - screen.scroll_offset >= screen.total_rows as usize {
                    let new_offset: usize = screen.scroll_offset + lines_down;
                    screen.scroll_to(new_offset);
                }
                game.buffer_line = target;
                game.buffer_col = col;
                game.screen_row = target - screen.scroll_offset + 1;
                game.screen_col = col + 1;
                return false;
            },
            None => {
                target = target + 1;
            },
        }
    }
}

/// Moves the cursor behind the character that was just typed: to the next
/// character of its line or, at the end of the line, to where typing starts
/// on the lines that follow, scrolling the window along if the cursor leaves
/// it. Returns `true`, and changes nothing, where the text ends there.
pub fn next_position(buffer: &Vec<String>, game: &mut Game, screen: &mut Screen) -> (finished: bool)
    requires
        well_placed(lines_of(buffer), *old(game), *old(screen)),
    ensures
        cursor_moved(
            *old(game),
            *old(screen),
            place_after(
                lines_of(buffer),
                old(game).buffer_line as int,
                old(game).buffer_col as int,
            ),
            *final(game),
            *final(screen),
            finished,
        ),
        !finished ==> well_placed(lines_of(buffer), *final(game), *final(screen)),
{
    let length: usize = buffer[game.buffer_line].as_str().unicode_len();
    if game.buffer_col + 1 < length {
        game.buffer_col = game.buffer_col + 1;
        game.screen_col = game.screen_col + 1;
        false
    } else {
        let line_count: usize = buffer.len();
        assert(game.buffer_line < line_count);
        let from: usize = game.buffer_line + 1;
        enter_line(buffer, game, screen, from)
    }
}

} // verus!
