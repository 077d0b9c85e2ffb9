//! What holds of every session: the cursor only moves forward, stays inside
//! the window, is left alone by a wrong character, and reaches the end of
//! the text when the text is typed.

use vstd::prelude::*;
use crate::game::{first_place, next_line, place_after};
use crate::machine::{KeyEvent, Machine, Outcome, State};
use crate::text::{lemma_start_of, start_of};

verus! {

/// Whether place `(line_a, col_a)` comes before place `(line_b, col_b)` in
/// reading order.
pub open spec fn place_before(line_a: int, col_a: int, line_b: int, col_b: int) -> bool {
    line_a < line_b || (line_a == line_b && col_a < col_b)
}

/// The key that types the character `c`.
pub open spec fn key_for(c: char) -> KeyEvent {
    KeyEvent::Printable(c)
}

/// The keys that type the characters of `chars`, one key for each, in order.
pub open spec fn printable(chars: Seq<char>) -> Seq<KeyEvent> {
    Seq::new(chars.len(), |i: int| key_for(chars[i]))
}

/// The characters of `line` that are typed: those from where typing starts
/// on it, none on an empty line.
pub open spec fn typed_part(line: Seq<char>) -> Seq<char> {
    if line.len() == 0 {
        Seq::empty()
    } else {
        line.subrange(start_of(line), line.len() as int)
    }
}

/// The keys that type the lines from `from` on: for each line, in order,
/// its characters from where typing starts on it.
pub open spec fn text_keys(lines: Seq<Seq<char>>, from: int) -> Seq<KeyEvent>
    decreases lines.len() - from,
{
    if from >= lines.len() {
        Seq::empty()
    } else {
        printable(typed_part(lines[from])) + text_keys(lines, from + 1)
    }
}

/// The keys that type what is left of the text from the cursor on.
pub open spec fn keys_left(machine: Machine) -> Seq<KeyEvent> {
    printable(
        machine.lines[machine.line].subrange(
            machine.col,
            machine.lines[machine.line].len() as int,
        ),
    ) + text_keys(machine.lines, machine.line + 1)
}

/// Whether each key of `keys`, at its turn, types the character that the
/// cursor stands on.
pub open spec fn all_match(machine: Machine, keys: Seq<KeyEvent>) -> bool
    decreases keys.len(),
{
    keys.len() == 0 || (machine.matches_key(keys[0]) && all_match(
        machine.step(keys[0]),
        keys.drop_first(),
    ))
}

/// The first line at or after `from` that is not empty does not lie before
/// `from` nor behind the end of the buffer, is not empty if it is a line of
/// the buffer, and every line between `from` and it is empty.
pub proof fn lemma_next_line(lines: Seq<Seq<char>>, from: int)
    requires
        0 <= from <= lines.len(),
    ensures
        from <= next_line(lines, from) <= lines.len(),
        next_line(lines, from) < lines.len() ==> lines[next_line(lines, from)].len() > 0,
        forall|i: int| from <= i < next_line(lines, from) ==> (#[trigger] lines[i]).len() == 0,
    decreases lines.len() - from,
{
    if from < lines.len() && lines[from].len() == 0 {
        lemma_next_line(lines, from + 1);
    }
}

/// The text ends behind a character exactly where it is the last of its
/// line and every line that follows is empty.
pub proof fn lemma_text_ends_before_empty_lines(lines: Seq<Seq<char>>, line: int, col: int)
    requires
        0 <= line < lines.len(),
    ensures
        place_after(lines, line, col) is None <==> (col + 1 >= lines[line].len() && forall|j: int|
            line < j < lines.len() ==> (#[trigger] lines[j]).len() == 0),
{
    lemma_next_line(lines, line + 1);
}

/// Empty lines add no keys: the keys that type the lines from `from` on are
/// those that type the lines from the next line on that is not empty.
pub proof fn lemma_text_keys_pass_empty_lines(lines: Seq<Seq<char>>, from: int)
    requires
        0 <= from <= lines.len(),
    ensures
        text_keys(lines, from) == text_keys(lines, next_line(lines, from)),
    decreases lines.len() - from,
{
    if from < lines.len() && lines[from].len() == 0 {
        lemma_text_keys_pass_empty_lines(lines, from + 1);
        assert(printable(typed_part(lines[from])) =~= Seq::<KeyEvent>::empty());
        assert(text_keys(lines, from) =~= text_keys(lines, from + 1));
    }
}

/// A session at its start is well formed.
pub proof fn lemma_start_is_well_formed(lines: Seq<Seq<char>>, rows: int, cols: int)
    requires
        0 <= rows,
    ensures
        Machine::start(lines, rows, cols).wf(),
{
    lemma_next_line(lines, 0);
    let line = next_line(lines, 0);
    if line < lines.len() {
        lemma_start_of(lines[line]);
    }
}

/// No key makes a well-formed session ill-formed.
pub proof fn lemma_step_keeps_well_formed(machine: Machine, key: KeyEvent)
    requires
        machine.wf(),
    ensures
        machine.step(key).wf(),
{
    if machine.matches_key(key) && machine.col + 1 >= machine.lines[machine.line].len() {
        lemma_next_line(machine.lines, machine.line + 1);
        let line = next_line(machine.lines, machine.line + 1);
        if line < machine.lines.len() {
            lemma_start_of(machine.lines[line]);
        }
    }
}

/// No run of keys makes a well-formed session ill-formed.
pub proof fn lemma_run_keeps_well_formed(machine: Machine, keys: Seq<KeyEvent>)
    requires
        machine.wf(),
    ensures
        machine.run(keys).wf(),
    decreases keys.len(),
{
    if keys.len() > 0 {
        lemma_step_keeps_well_formed(machine, keys[0]);
        lemma_run_keeps_well_formed(machine.step(keys[0]), keys.drop_first());
    }
}

/// The window starts on a line of the buffer: the first visible line is
/// never behind the cursor's line, nor behind the last line of the buffer.
pub proof fn lemma_offset_within_buffer(machine: Machine)
    requires
        machine.wf(),
    ensures
        0 <= machine.offset <= machine.line,
        machine.lines.len() > 0 ==> machine.offset <= machine.lines.len() - 1,
        machine.lines.len() == 0 ==> machine.offset == 0,
{
}

/// Scrolling keeps the cursor in sight: on a display with at least one row,
/// whatever keys a session has taken since its start, the line of its cursor
/// is one of the lines that the window shows.
pub proof fn lemma_cursor_stays_in_window(
    lines: Seq<Seq<char>>,
    rows: int,
    cols: int,
    keys: Seq<KeyEvent>,
)
    requires
        1 <= rows,
    ensures
        ({
            let machine = Machine::start(lines, rows, cols).run(keys);
            machine.offset <= machine.line <= machine.offset + rows - 1
        }),
{
    lemma_start_is_well_formed(lines, rows, cols);
    lemma_run_keeps_well_formed(Machine::start(lines, rows, cols), keys);
    lemma_run_keeps_display(Machine::start(lines, rows, cols), keys);
}

/// No run of keys changes the buffer or the size of the display.
pub proof fn lemma_run_keeps_display(machine: Machine, keys: Seq<KeyEvent>)
    ensures
        machine.run(keys).lines == machine.lines,
        machine.run(keys).rows == machine.rows,
        machine.run(keys).cols == machine.cols,
    decreases keys.len(),
{
    if keys.len() > 0 {
        lemma_run_keeps_display(machine.step(keys[0]), keys.drop_first());
    }
}

/// A wrong character changes nothing: neither the cursor, nor the viewport,
/// nor the state of the session, and nothing is written to the display.
pub proof fn lemma_mismatch_changes_nothing(machine: Machine, c: char)
    requires
        machine.state == State::Active,
        c != machine.expected(),
    ensures
        machine.step(KeyEvent::Printable(c)) == machine,
        machine.update_text(KeyEvent::Printable(c)) == Seq::<char>::empty(),
{
}

/// A session that has ended reads no key, stays as it is and writes
/// nothing, whatever keys come.
pub proof fn lemma_ended_session_ignores_keys(machine: Machine, keys: Seq<KeyEvent>)
    requires
        machine.state != State::Active,
    ensures
        machine.run(keys) == machine,
        machine.run_text(keys) == Seq::<char>::empty(),
        machine.keys_read(keys) == 0,
    decreases keys.len(),
{
    if keys.len() > 0 {
        lemma_ended_session_ignores_keys(machine, keys.drop_first());
    }
}

/// The quit key ends an active session wherever it stands: the session is
/// aborted, cursor and viewport stay as they were, nothing is written to the
/// display, and no key that follows is read.
pub proof fn lemma_quit_aborts(machine: Machine, more: Seq<KeyEvent>)
    requires
        machine.state == State::Active,
    ensures
        ({
            let next = machine.step(KeyEvent::Quit);
            &&& next == Machine { state: State::Aborted, ..machine }
            &&& machine.outcome(KeyEvent::Quit) == Outcome::Stopped
            &&& machine.update_text(KeyEvent::Quit) == Seq::<char>::empty()
            &&& machine.keys_read(seq![KeyEvent::Quit] + more) == 1
            &&& machine.run(seq![KeyEvent::Quit] + more).state == State::Aborted
        }),
{
    let keys = seq![KeyEvent::Quit] + more;
    assert(keys[0] == KeyEvent::Quit);
    lemma_ended_session_ignores_keys(machine.step(KeyEvent::Quit), keys.drop_first());
}

/// A correct key moves the cursor forward or finishes the session: the
/// cursor of a session that goes on stands at a later place, and never on an
/// earlier line; a session that stops there is finished, with its cursor
/// where it was.
pub proof fn lemma_correct_key_moves_forward(machine: Machine, key: KeyEvent)
    requires
        machine.wf(),
        machine.matches_key(key),
    ensures
        ({
            let next = machine.step(key);
            &&& next.wf()
            &&& machine.line <= next.line
            &&& next.state == State::Active ==> place_before(
                machine.line,
                machine.col,
                next.line,
                next.col,
            )
            &&& next.state != State::Active ==> next.state == State::Finished && next.line
                == machine.line && next.col == machine.col
        }),
{
    lemma_step_keeps_well_formed(machine, key);
    if machine.col + 1 >= machine.lines[machine.line].len() {
        lemma_next_line(machine.lines, machine.line + 1);
    }
}

/// Correct keys only move the cursor forward: after one or more of them the
/// cursor is on no earlier line, and the cursor of a session that goes on
/// stands at a later place than before.
pub proof fn lemma_correct_keys_move_forward(machine: Machine, keys: Seq<KeyEvent>)
    requires
        machine.wf(),
        all_match(machine, keys),
        keys.len() > 0,
    ensures
        ({
            let last = machine.run(keys);
            &&& machine.line <= last.line
            &&& last.state == State::Active ==> place_before(
                machine.line,
                machine.col,
                last.line,
                last.col,
            )
        }),
    decreases keys.len(),
{
    let next = machine.step(keys[0]);
    let rest = keys.drop_first();
    lemma_correct_key_moves_forward(machine, keys[0]);
    if rest.len() > 0 {
        lemma_correct_keys_move_forward(next, rest);
    }
}

/// Running the keys of `first + more` is running those of `first` and then
/// those of `more`; and where each key of `first + more` is correct at its
/// turn, so is each key of `more` after `first`.
pub proof fn lemma_run_in_two_parts(machine: Machine, first: Seq<KeyEvent>, more: Seq<KeyEvent>)
    ensures
        machine.run(first + more) == machine.run(first).run(more),
        all_match(machine, first + more) ==> all_match(machine.run(first), more),
    decreases first.len(),
{
    if first.len() == 0 {
        assert(first + more =~= more);
    } else {
        assert((first + more)[0] == first[0]);
        assert((first + more).drop_first() =~= first.drop_first() + more);
        lemma_run_in_two_parts(machine.step(first[0]), first.drop_first(), more);
    }
}

/// No place is visited twice: along a run of correct keys, the cursor of an
/// active session stands at a later place than it stood at any time before,
/// and its line is never an earlier one.
pub proof fn lemma_no_place_twice(machine: Machine, first: Seq<KeyEvent>, more: Seq<KeyEvent>)
    requires
        machine.wf(),
        all_match(machine, first + more),
        more.len() > 0,
    ensures
        ({
            let earlier = machine.run(first);
            let later = machine.run(first + more);
            &&& earlier.line <= later.line
            &&& later.state == State::Active ==> place_before(
                earlier.line,
                earlier.col,
                later.line,
                later.col,
            )
        }),
{
    lemma_run_in_two_parts(machine, first, more);
    lemma_run_keeps_well_formed(machine, first);
    lemma_correct_keys_move_forward(machine.run(first), more);
}

/// The first of the keys that are left types the character under the
/// cursor; the keys that are left after it are the rest of them, and none is
/// left where it finishes the session.
pub proof fn lemma_keys_left(machine: Machine)
    requires
        machine.wf(),
        machine.state == State::Active,
    ensures
        keys_left(machine).len() > 0,
        machine.matches_key(keys_left(machine)[0]),
        machine.step(keys_left(machine)[0]).state == State::Active ==> keys_left(
            machine.step(keys_left(machine)[0]),
        ) == keys_left(machine).drop_first(),
        machine.step(keys_left(machine)[0]).state != State::Active ==> keys_left(machine).len()
            == 1,
{
    let lines = machine.lines;
    let line = lines[machine.line];
    let len = line.len() as int;
    let here = printable(line.subrange(machine.col, len));
    let below = text_keys(lines, machine.line + 1);
    let key = keys_left(machine)[0];
    assert(here[0] == KeyEvent::Printable(machine.expected()));
    assert(key == here[0]);
    let next = machine.step(key);
    assert(keys_left(machine).drop_first() =~= printable(line.subrange(machine.col + 1, len))
        + below);
    if machine.col + 1 < len {
        assert(place_after(lines, machine.line, machine.col) == Some(
            (machine.line, machine.col + 1),
        ));
    } else {
        assert(printable(line.subrange(machine.col + 1, len)) =~= Seq::<KeyEvent>::empty());
        assert(keys_left(machine).drop_first() =~= below);
        lemma_next_line(lines, machine.line + 1);
        lemma_text_keys_pass_empty_lines(lines, machine.line + 1);
        let target = next_line(lines, machine.line + 1);
        assert(place_after(lines, machine.line, machine.col) == first_place(
            lines,
            machine.line + 1,
        ));
        if target < lines.len() {
            assert(next.line == target);
            assert(next.col == start_of(lines[target]));
            assert(keys_left(next) =~= text_keys(lines, target));
        } else {
            assert(below =~= Seq::<KeyEvent>::empty());
        }
    }
}

/// Typing what is left of the text finishes the session with the last key,
/// and not before: each key is correct at its turn, every key is read, the
/// session is active before each of them and finished after the last.
pub proof fn lemma_typing_the_rest_finishes(machine: Machine)
    requires
        machine.wf(),
        machine.state == State::Active,
    ensures
        all_match(machine, keys_left(machine)),
        machine.run(keys_left(machine)).state == State::Finished,
        machine.keys_read(keys_left(machine)) == keys_left(machine).len(),
        forall|n: int|
            0 <= n < keys_left(machine).len() ==> (#[trigger] machine.run(
                keys_left(machine).take(n),
            )).state == State::Active,
    decreases keys_left(machine).len(),
{
    let keys = keys_left(machine);
    lemma_keys_left(machine);
    lemma_step_keeps_well_formed(machine, keys[0]);
    let next = machine.step(keys[0]);
    let rest = keys.drop_first();
    lemma_correct_key_moves_forward(machine, keys[0]);
    assert(machine.run(keys) == next.run(rest));
    assert(machine.keys_read(keys) == 1 + next.keys_read(rest));
    if next.state == State::Active {
        lemma_typing_the_rest_finishes(next);
    } else {
        assert(next.run(rest) == next);
        assert(all_match(next, rest));
    }
    assert forall|n: int| 0 <= n < keys.len() implies (#[trigger] machine.run(
        keys.take(n),
    )).state == State::Active by {
        if n > 0 {
            assert(keys.take(n)[0] == keys[0]);
            assert(keys.take(n).drop_first() =~= rest.take(n - 1));
            assert(machine.run(keys.take(n)) == next.run(rest.take(n - 1)));
        } else {
            assert(machine.run(keys.take(0)) == machine);
        }
    }
}

/// Completion: typing the text finishes the session. Fed the characters of
/// the buffer line by line, each line from where typing starts on it, a
/// fresh session finds every key correct, reads them all, is active before
/// each of them and finished after the last: the last character of the
/// last line that is not empty.
pub proof fn lemma_typing_the_text_finishes(lines: Seq<Seq<char>>, rows: int, cols: int)
    requires
        0 <= rows,
    ensures
        ({
            let machine = Machine::start(lines, rows, cols);
            let keys = text_keys(lines, 0);
            &&& all_match(machine, keys)
            &&& machine.run(keys).state == State::Finished
            &&& machine.keys_read(keys) == keys.len()
            &&& forall|n: int|
                0 <= n < keys.len() ==> (#[trigger] machine.run(keys.take(n))).state
                    == State::Active
        }),
{
    let machine = Machine::start(lines, rows, cols);
    lemma_start_is_well_formed(lines, rows, cols);
    lemma_next_line(lines, 0);
    lemma_text_keys_pass_empty_lines(lines, 0);
    let line = next_line(lines, 0);
    if line < lines.len() {
        lemma_start_of(lines[line]);
        assert(keys_left(machine) =~= text_keys(lines, line));
        lemma_typing_the_rest_finishes(machine);
    }
}

} // verus!
