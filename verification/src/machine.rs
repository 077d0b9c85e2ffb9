//! The typing state machine as a mathematical model: its states, the keys
//! it takes, what each key makes of it, and what it shows.

use vstd::prelude::*;
use crate::game::{cursor_rows, first_place, offset_after, place_after};
use crate::screen::window_text;
use crate::terminal::{clear_text, coordinate_of, goto_text};

verus! {

/// The control character that ends a session.
pub const QUIT_KEY: char = 'q';

/// The state of a session.
#[derive(Clone, Copy, Debug, PartialEq, Eq, Structural)]
pub enum State {
    /// Characters are still to be typed.
    Active,
    /// The last character of the text was typed.
    Finished,
    /// The session was ended by the quit key.
    Aborted,
}

/// A key as the session sees it.
#[derive(Clone, Copy, Debug, PartialEq, Eq, Structural)]
pub enum KeyEvent {
    /// The quit key.
    Quit,
    /// A character that can be typed.
    Printable(char),
    /// Any other key.
    Other,
}

/// What a key did to the session.
#[derive(Clone, Copy, Debug, PartialEq, Eq, Structural)]
pub enum Outcome {
    /// The quit key ended the session.
    Stopped,
    /// The key is none that the session reacts to, or the session had ended
    /// before it came.
    Ignored,
    /// The character is not the one that the cursor stands on.
    Mismatch,
    /// The character is the one that the cursor stood on, and the cursor is
    /// past it. `finished` tells whether it was the last one of the text.
    Advanced { finished: bool },
}

impl KeyEvent {
    /// The key that a control character stands for: the quit key where the
    /// character is `q`, a key of no meaning otherwise.
    pub open spec fn of_control(c: char) -> KeyEvent {
        if c == QUIT_KEY {
            KeyEvent::Quit
        } else {
            KeyEvent::Other
        }
    }

    /// The key that a control character stands for.
    pub fn control(c: char) -> (key: KeyEvent)
        ensures
            key == KeyEvent::of_control(c),
    {
        if c == QUIT_KEY {
            KeyEvent::Quit
        } else {
            KeyEvent::Other
        }
    }

    /// The key that types the character `c`.
    pub fn character(c: char) -> (key: KeyEvent)
        ensures
            key == KeyEvent::Printable(c),
    {
        KeyEvent::Printable(c)
    }
}

/// A session as a mathematical value: the lines of its buffer, the height
/// and width of its display, the first visible line, the place of the
/// cursor in the buffer, and its state.
pub struct Machine {
    /// The lines of the buffer.
    pub lines: Seq<Seq<char>>,
    /// Number of rows of the display.
    pub rows: int,
    /// Number of columns of the display.
    pub cols: int,
    /// Index of the first visible line.
    pub offset: int,
    /// Index of the line that the cursor is on.
    pub line: int,
    /// Index, within that line, of the character to type next.
    pub col: int,
    /// Whether the session goes on.
    pub state: State,
}

impl Machine {
    /// The session at its start, on buffer `lines` and a display of `rows`
    /// rows and `cols` columns. The cursor waits where typing starts: on
    /// the first line that is not empty, at the place where typing starts
    /// on that line, with the window moved there if that line lies beyond it. A buffer of empty
    /// lines alone, or of none, gives a session that is finished from the
    /// start.
    pub open spec fn start(lines: Seq<Seq<char>>, rows: int, cols: int) -> Machine {
        match first_place(lines, 0) {
            None => Machine { lines, rows, cols, offset: 0, line: 0, col: 0, state: State::Finished },
            Some((line, col)) => Machine {
                lines,
                rows,
                cols,
                offset: offset_after(0, rows, 0, line),
                line,
                col,
                state: State::Active,
            },
        }
    }

    /// The character that is to be typed next.
    pub open spec fn expected(self) -> char {
        self.lines[self.line][self.col]
    }

    /// Row of the display that the cursor is on, counted from one.
    pub open spec fn screen_row(self) -> int {
        1 + (self.line - self.offset)
    }

    /// Column of the display that the cursor is on, counted from one.
    pub open spec fn screen_col(self) -> int {
        1 + self.col
    }

    /// Whether the cursor stands on a character of the buffer.
    pub open spec fn on_character(self) -> bool {
        &&& 0 <= self.line < self.lines.len()
        &&& 0 <= self.col < self.lines[self.line].len()
    }

    /// What holds of every session: the cursor's line lies inside the
    /// window, and the cursor stands on a character of the buffer. The one
    /// exception is a session on a buffer without a line that is not empty:
    /// it is finished, and its cursor rests at the origin.
    pub open spec fn wf(self) -> bool {
        &&& 0 <= self.rows
        &&& 0 <= self.offset <= self.line < self.offset + cursor_rows(self.rows)
        &&& 0 <= self.col
        &&& self.on_character() || (self.state == State::Finished && self.line == 0 && self.col
            == 0)
    }

    /// Whether `key` types the character that the cursor stands on.
    pub open spec fn matches_key(self, key: KeyEvent) -> bool {
        self.state == State::Active && key == KeyEvent::Printable(self.expected())
    }

    /// The session after `key`. A session that has ended stays as it is. The
    /// quit key aborts an active session. A character other than the
    /// expected one, and a key of no meaning, change nothing. The expected
    /// character moves the cursor to the place that follows, scrolling the
    /// window along, or finishes the session where the text ends.
    pub open spec fn step(self, key: KeyEvent) -> Machine {
        if self.state != State::Active {
            self
        } else if key == KeyEvent::Quit {
            Machine { state: State::Aborted, ..self }
        } else if !self.matches_key(key) {
            self
        } else {
            match place_after(self.lines, self.line, self.col) {
                None => Machine { state: State::Finished, ..self },
                Some((line, col)) => Machine {
                    offset: offset_after(self.offset, self.rows, self.line, line),
                    line,
                    col,
                    ..self
                },
            }
        }
    }

    /// What `key` does to the session, as reported to the caller.
    pub open spec fn outcome(self, key: KeyEvent) -> Outcome {
        if self.state != State::Active {
            Outcome::Ignored
        } else {
            match key {
                KeyEvent::Quit => Outcome::Stopped,
                KeyEvent::Other => Outcome::Ignored,
                KeyEvent::Printable(c) => if c == self.expected() {
                    Outcome::Advanced { finished: self.step(key).state == State::Finished }
                } else {
                    Outcome::Mismatch
                },
            }
        }
    }

    /// The command that shows the cursor where it stands.
    pub open spec fn cursor_text(self) -> Seq<char> {
        goto_text(coordinate_of(self.screen_col()), coordinate_of(self.screen_row()))
    }

    /// The whole display: the screen cleared, the window drawn from the upper
    /// left corner, and the cursor shown where it stands.
    pub open spec fn frame_text(self) -> Seq<char> {
        clear_text() + goto_text(1, 1) + window_text(self.lines, self.offset, self.rows)
            + self.cursor_text()
    }

    /// What is written to the display after `key`: nothing unless the cursor
    /// moved; the whole display where the window scrolled; the cursor alone
    /// otherwise.
    pub open spec fn update_text(self, key: KeyEvent) -> Seq<char> {
        let next = self.step(key);
        if self.outcome(key) != (Outcome::Advanced { finished: false }) {
            Seq::empty()
        } else if next.offset != self.offset {
            next.frame_text()
        } else {
            next.cursor_text()
        }
    }

    /// The number of keys of `keys` that are read: keys are read one by one
    /// for as long as the session is active.
    pub open spec fn keys_read(self, keys: Seq<KeyEvent>) -> nat
        decreases keys.len(),
    {
        if self.state != State::Active || keys.len() == 0 {
            0
        } else {
            1 + self.step(keys[0]).keys_read(keys.drop_first())
        }
    }

    /// The session after the keys of `keys`, taken in order.
    pub open spec fn run(self, keys: Seq<KeyEvent>) -> Machine
        decreases keys.len(),
    {
        if keys.len() == 0 {
            self
        } else {
            self.step(keys[0]).run(keys.drop_first())
        }
    }

    /// What is written to the display while the keys of `keys` are taken in
    /// order.
    pub open spec fn run_text(self, keys: Seq<KeyEvent>) -> Seq<char>
        decreases keys.len(),
    {
        if keys.len() == 0 {
            Seq::empty()
        } else {
            self.update_text(keys[0]) + self.step(keys[0]).run_text(keys.drop_first())
        }
    }
}

} // verus!
