use coderacer::screen::{refresh_screen, Screen};
use coderacer::terminal::{clear_screen, move_to};

fn lines(items: &[&str]) -> Vec<String> {
    items.iter().map(|item| item.to_string()).collect()
}

#[test]
fn screen_takes_columns_then_rows() {
    let screen = Screen::new((80, 24));
    assert_eq!(screen.total_cols, 80);
    assert_eq!(screen.total_rows, 24);
    assert_eq!(screen.scroll_offset, 0);
}

#[test]
fn scroll_to_sets_the_offset_only() {
    let mut screen = Screen::new((80, 24));
    screen.scroll_to(7);
    assert_eq!(screen.scroll_offset, 7);
    assert_eq!(screen.total_cols, 80);
    assert_eq!(screen.total_rows, 24);
    screen.scroll_to(7);
    assert_eq!(screen.scroll_offset, 7);
}

#[test]
fn window_shows_all_lines_of_a_short_buffer() {
    let buffer = lines(&["ab", "", "cd"]);
    assert_eq!(refresh_screen(&buffer, 10, 0), "ab\n\r\n\rcd\n\r");
}

#[test]
fn window_ends_every_line_with_a_break() {
    let buffer = lines(&["one", "two", "three", "four"]);
    assert_eq!(refresh_screen(&buffer, 3, 0), "one\n\rtwo\n\rthree\n\r");
    assert_eq!(refresh_screen(&buffer, 4, 0), "one\n\rtwo\n\rthree\n\rfour\n\r");
    assert_eq!(refresh_screen(&buffer, 1, 2), "three\n\r");
}

#[test]
fn window_of_two_rows_inside_a_buffer_of_three_lines() {
    let buffer = lines(&["a", "b", "c"]);
    assert_eq!(refresh_screen(&buffer, 2, 1), "b\n\rc\n\r");
    assert_eq!(refresh_screen(&buffer, 2, 0), "a\n\rb\n\r");
}

#[test]
fn window_starts_at_the_offset() {
    let buffer = lines(&["one", "two", "three", "four"]);
    assert_eq!(refresh_screen(&buffer, 2, 1), "two\n\rthree\n\r");
    assert_eq!(refresh_screen(&buffer, 2, 3), "four\n\r");
    assert_eq!(refresh_screen(&buffer, 5, 2), "three\n\rfour\n\r");
}

#[test]
fn window_behind_the_buffer_is_empty() {
    let buffer = lines(&["one", "two"]);
    assert_eq!(refresh_screen(&buffer, 5, 2), "");
    assert_eq!(refresh_screen(&buffer, 5, 100), "");
    assert_eq!(refresh_screen(&buffer, 5, usize::MAX), "");
    assert_eq!(refresh_screen(&Vec::new(), 5, 0), "");
}

#[test]
fn window_without_rows_is_empty() {
    let buffer = lines(&["one", "two"]);
    assert_eq!(refresh_screen(&buffer, 0, 0), "");
    assert_eq!(refresh_screen(&buffer, 0, 1), "");
}

#[test]
fn move_to_names_row_then_column() {
    assert_eq!(move_to(3, 12), "\x1b[12;3H");
    assert_eq!(move_to(1, 1), "\x1b[1;1H");
    assert_eq!(move_to(100, 7), "\x1b[7;100H");
    assert_eq!(move_to(65535, 10), "\x1b[10;65535H");
}

#[test]
fn move_to_agrees_with_the_terminal_crate() {
    for (column, row) in [(1u16, 1u16), (5, 3), (80, 24), (9, 10), (1000, 999), (65535, 65535)] {
        let expected = format!("{}", termion::cursor::Goto(column, row));
        assert_eq!(move_to(column as usize, row as usize), expected);
    }
}

#[test]
fn move_to_clamps_large_coordinates() {
    assert_eq!(move_to(65536, 1), "\x1b[1;65535H");
    assert_eq!(move_to(2, 70000), "\x1b[65535;2H");
    assert_eq!(move_to(usize::MAX, usize::MAX), "\x1b[65535;65535H");
}

#[test]
fn clear_screen_clears_and_goes_home() {
    assert_eq!(clear_screen(), "\x1b[2J\x1b[1;1H");
    let expected = format!("{}{}", termion::clear::All, termion::cursor::Goto(1, 1));
    assert_eq!(clear_screen(), expected);
}
