//! The session: the typing state machine with its buffer, cursor and
//! viewport, and the loop that feeds it keys.

use vstd::prelude::*;
use vstd::string::StringExecFns;
use crate::config::Config;
use crate::game::{check_user_input, enter_line, next_position, well_placed, Game};
use crate::laws::lemma_ended_session_ignores_keys;
use crate::machine::{KeyEvent, Machine, Outcome, State};
use crate::screen::{refresh_screen, Screen};
use crate::terminal::{clear_screen, move_to};
use crate::text::{buffer_of, lines_of, read_file_to_buffer};

verus! {

/// Cursor, viewport and state of a session: what a key may change.
#[derive(Clone, Copy)]
struct Progress {
    game: Game,
    screen: Screen,
    state: State,
}

/// A practice session: a buffer that stays as it is, and the progress of
/// the typist through it.
pub struct Session {
    buffer: Vec<String>,
    progress: Progress,
}

/// What a key did to a session, and what is to be written to the display
/// because of it.
pub struct Reaction {
    /// What the key did.
    pub outcome: Outcome,
    /// The text to write to the display; empty where nothing changed on it.
    pub display: String,
}

/// What a run of keys did to a session.
pub struct Transcript {
    /// How many of the keys were read before the session ended or the keys
    /// ran out.
    pub keys_read: usize,
    /// All that was to be written to the display, in order.
    pub display: String,
}

impl View for Session {
    type V = Machine;

    closed spec fn view(&self) -> Machine {
        Machine {
            lines: lines_of(&self.buffer),
            rows: self.progress.screen.total_rows as int,
            cols: self.progress.screen.total_cols as int,
            offset: self.progress.screen.scroll_offset as int,
            line: self.progress.game.buffer_line as int,
            col: self.progress.game.buffer_col as int,
            state: self.progress.state,
        }
    }
}

impl Session {
    /// The cursor stands on a character of the buffer, inside the window,
    /// and is shown where the window shows that character; or the buffer has
    /// no line that is not empty, and the cursor of the finished session
    /// rests in the upper left corner.
    #[verifier::type_invariant]
    spec fn well_formed(&self) -> bool {
        let game = self.progress.game;
        let screen = self.progress.screen;
        ||| well_placed(lines_of(&self.buffer), game, screen)
        ||| (self.progress.state == State::Finished && game.stands_at(0, 0, 0)
            && screen.scroll_offset == 0)
    }

    /// Starts a session on `buffer`, for a display of the given size,
    /// columns first and rows second.
    pub fn new(buffer: Vec<String>, size: (u16, u16)) -> (session: Session)
        ensures
            session@ == Machine::start(lines_of(&buffer), size.1 as int, size.0 as int),
            session@.wf(),
    {
        let mut game = Game::new();
        let mut screen = Screen::new(size);
        let finished = enter_line(&buffer, &mut game, &mut screen, 0);
        let state = if finished {
            State::Finished
        } else {
            State::Active
        };
        Session { buffer, progress: Progress { game, screen, state } }
    }

    /// The lines of the buffer.
    pub fn buffer(&self) -> (buffer: &Vec<String>)
        ensures
            lines_of(buffer) == self@.lines,
    {
        &self.buffer
    }

    /// The cursor.
    pub fn game(&self) -> (game: Game)
        ensures
            game.stands_at(self@.line, self@.col, self@.offset),
            self@.wf(),
    {
        proof {
            use_type_invariant(self);
        }
        self.progress.game
    }

    /// The viewport.
    pub fn screen(&self) -> (screen: Screen)
        ensures
            screen.total_rows == self@.rows,
            screen.total_cols == self@.cols,
            screen.scroll_offset == self@.offset,
            self@.wf(),
    {
        proof {
            use_type_invariant(self);
        }
        self.progress.screen
    }

    /// The state of the session.
    pub fn state(&self) -> (state: State)
        ensures
            state == self@.state,
            self@.wf(),
    {
        proof {
            use_type_invariant(self);
        }
        self.progress.state
    }

    /// Whether the session still takes keys.
    pub fn is_active(&self) -> (active: bool)
        ensures
            active == (self@.state == State::Active),
    {
        match self.progress.state {
            State::Active => true,
            _ => false,
        }
    }

    /// The text that draws the whole display: the screen cleared, the
    /// window of the buffer, and the cursor in its place.
    pub fn frame(&self) -> (text: String)
        ensures
            text@ == self@.frame_text(),
    {
        proof {
            use_type_invariant(self);
        }
        let screen = self.progress.screen;
        let game = self.progress.game;
        let mut text = clear_screen();
        let window = refresh_screen(&self.buffer, screen.total_rows, screen.scroll_offset);
        text.append(window.as_str());
        let cursor = move_to(game.screen_col, game.screen_row);
        text.append(cursor.as_str());
        text
    }

    /// Takes one key. The session changes as [`Machine::step`] says; the
    /// reaction tells what the key did and holds what is to be written to the
    /// display. A wrong character changes nothing at all.
    pub fn submit_keystroke(&mut self, key: KeyEvent) -> (reaction: Reaction)
        ensures
            final(self)@ == old(self)@.step(key),
            final(self)@.wf(),
            reaction.outcome == old(self)@.outcome(key),
            reaction.display@ == old(self)@.update_text(key),
            reaction.outcome == Outcome::Mismatch ==> *final(self) == *old(self),
    {
        proof {
            use_type_invariant(&*self);
        }
        let progress = self.progress;
        if !self.is_active() {
            return Reaction { outcome: Outcome::Ignored, display: String::new() };
        }
        match key {
            KeyEvent::Quit => {
                self.progress = Progress { state: State::Aborted, ..progress };
                Reaction { outcome: Outcome::Stopped, display: String::new() }
            },
            KeyEvent::Other => Reaction { outcome: Outcome::Ignored, display: String::new() },
            KeyEvent::Printable(c) => {
                if !check_user_input(c, &self.buffer, &progress.game) {
                    return Reaction { outcome: Outcome::Mismatch, display: String::new() };
                }
                let mut game = progress.game;
                let mut screen = progress.screen;
                let finished = next_position(&self.buffer, &mut game, &mut screen);
                if finished {
                    self.progress = Progress { state: State::Finished, ..progress };
                    return Reaction {
                        outcome: Outcome::Advanced { finished: true },
                        display: String::new(),
                    };
                }
                self.progress = Progress { game, screen, state: State::Active };
                let display = if screen.scroll_offset != progress.screen.scroll_offset {
                    self.frame()
                } else {
                    move_to(game.screen_col, game.screen_row)
                };
                Reaction { outcome: Outcome::Advanced { finished: false }, display }
            },
        }
    }
}

/// Feeds the session the keys of `keys`, in order, for as long as it is
/// active: a key that ends the session is the last one read. The transcript
/// tells how many keys were read and holds all that is to be written to the
/// display.
pub fn wait_input(keys: &Vec<KeyEvent>, session: &mut Session) -> (transcript: Transcript)
    ensures
        final(session)@ == old(session)@.run(keys@),
        final(session)@.wf(),
        transcript.keys_read == old(session)@.keys_read(keys@),
        transcript.display@ == old(session)@.run_text(keys@),
{
    let mut display = String::new();
    let mut index: usize = 0;
    proof {
        assert(keys@.skip(0) == keys@);
    }
    while index < keys.len() && session.is_active()
        invariant
            index <= keys.len(),
            old(session)@.run(keys@) == session@.run(keys@.skip(index as int)),
            old(session)@.run_text(keys@) == display@ + session@.run_text(
                keys@.skip(index as int),
            ),
            old(session)@.keys_read(keys@) == index + session@.keys_read(
                keys@.skip(index as int),
            ),
        decreases keys.len() - index,
    {
        let ghost rest = keys@.skip(index as int);
        let ghost before = display@;
        let ghost machine = session@;
        let reaction = session.submit_keystroke(keys[index]);
        display.append(reaction.display.as_str());
        proof {
            assert(rest[0] == keys@[index as int]);
            assert(rest.drop_first() == keys@.skip(index + 1));
            assert(before + (machine.update_text(rest[0]) + session@.run_text(rest.drop_first()))
                == display@ + session@.run_text(rest.drop_first()));
        }
        index = index + 1;
    }
    proof {
        let rest = keys@.skip(index as int);
        if session@.state != State::Active {
            lemma_ended_session_ignores_keys(session@, rest);
        }
        assert(display@ + Seq::<char>::empty() == display@);
        use_type_invariant(&*session);
    }
    Transcript { keys_read: index, display }
}

/// Plays a whole session: makes the buffer from the text of a file, starts
/// a session on it for a display of the given size, columns first and rows
/// second, draws the display and feeds the session the keys of `keys`.
/// Returns the session as the keys left it, and a transcript that begins
/// with the first drawing of the display.
pub fn run(file_content: &str, config: &Config, size: (u16, u16), keys: &Vec<KeyEvent>) -> (played: (
    Session,
    Transcript,
))
    ensures
        ({
            let start = Machine::start(
                buffer_of(file_content@, config.tab_width),
                size.1 as int,
                size.0 as int,
            );
            &&& played.0@ == start.run(keys@)
            &&& played.0@.wf()
            &&& played.1.keys_read == start.keys_read(keys@)
            &&& played.1.display@ == start.frame_text() + start.run_text(keys@)
        }),
{
    let buffer = read_file_to_buffer(file_content, config.tab_width);
    let mut session = Session::new(buffer, size);
    let mut display = session.frame();
    let transcript = wait_input(keys, &mut session);
    display.append(transcript.display.as_str());
    (session, Transcript { keys_read: transcript.keys_read, display })
}

} // verus!
