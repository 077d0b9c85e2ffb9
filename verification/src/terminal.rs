//! The character sequences that drive the display: what the terminal
//! protocol crate writes to clear the screen and to place the cursor.

use vstd::prelude::*;

verus! {

/// The largest row or column that a cursor command can name.
pub const MAX_COORDINATE: u16 = 65535;

/// The decimal digit that stands for `d`, for `d` below ten.
pub open spec fn digit(d: nat) -> char {
    seq!['0', '1', '2', '3', '4', '5', '6', '7', '8', '9'][d as int]
}

/// `n` written in decimal digits, without leading zeros.
pub open spec fn decimal(n: nat) -> Seq<char>
    decreases n,
{
    if n < 10 {
        seq![digit(n)]
    } else {
        decimal(n / 10).push(digit(n % 10))
    }
}

/// The command that places the cursor: the escape character, an opening
/// bracket, the row, a semicolon, the column, and the letter `H`.
pub open spec fn goto_text(column: nat, row: nat) -> Seq<char> {
    seq!['\x1b', '['] + decimal(row) + seq![';'] + decimal(column) + seq!['H']
}

/// The command that clears the whole screen: the escape character, then `[2J`.
pub open spec fn clear_text() -> Seq<char> {
    seq!['\x1b', '[', '2', 'J']
}

/// A row or column as a cursor command can name it: the number itself, or
/// the largest coordinate where it lies beyond it.
pub open spec fn coordinate_of(n: int) -> nat {
    if n > MAX_COORDINATE {
        MAX_COORDINATE as nat
    } else if n < 0 {
        0
    } else {
        n as nat
    }
}

/// Formats `termion::cursor::Goto(column, row)`, whose `Display` writes the
/// escape character and `[`, the row, `;`, the column and `H`, both numbers
/// in decimal. The coordinates count from one.
#[verifier::external_body]
fn goto(column: u16, row: u16) -> (text: String)
    requires
        column >= 1,
        row >= 1,
    ensures
        text@ == goto_text(column as nat, row as nat),
{
    format!("{}", termion::cursor::Goto(column, row))
}

/// Formats `termion::clear::All`, whose `Display` writes the escape
/// character followed by `[2J`.
#[verifier::external_body]
fn clear_all() -> (text: String)
    ensures
        text@ == clear_text(),
{
    format!("{}", termion::clear::All)
}

/// Brings a row or column into the range that a cursor command can name.
fn coordinate(n: usize) -> (c: u16)
    ensures
        c == coordinate_of(n as int),
{
    if n > MAX_COORDINATE as usize {
        MAX_COORDINATE
    } else {
        n as u16
    }
}

/// The command that places the cursor at `column` and `row`, both counted
/// from one; a coordinate beyond the largest that a command can name is
/// replaced by that largest one.
pub fn move_to(column: usize, row: usize) -> (text: String)
    requires
        column >= 1,
        row >= 1,
    ensures
        text@ == goto_text(coordinate_of(column as int), coordinate_of(row as int)),
{
    goto(coordinate(column), coordinate(row))
}

/// The command that clears the screen, followed by the command that places
/// the cursor in the upper left corner.
pub fn clear_screen() -> (text: String)
    ensures
        text@ == clear_text() + goto_text(1, 1),
{
    let mut text = clear_all();
    let home = goto(1, 1);
    text.append(home.as_str());
    text
}

} // verus!
