use coderacer::config::{Config, DEFAULT_TAB_WIDTH};
use coderacer::text::{
    expand_tabs, first_unflagged, read_file_to_buffer, skip_indentation, split_lines, typing_start,
    whitespace_in,
};

fn std_lines(text: &str) -> Vec<String> {
    text.lines().map(|line| line.to_string()).collect()
}

#[test]
fn default_config_has_tab_width_four() {
    let config = Config::new();
    assert_eq!(config.tab_width, 4);
    assert_eq!(DEFAULT_TAB_WIDTH, 4);
}

#[test]
fn config_with_tab_width_saturates() {
    assert_eq!(Config::with_tab_width(0).tab_width, 0);
    assert_eq!(Config::with_tab_width(8).tab_width, 8);
    assert_eq!(Config::with_tab_width(255).tab_width, 255);
    assert_eq!(Config::with_tab_width(256).tab_width, 255);
    assert_eq!(Config::with_tab_width(u32::MAX).tab_width, 255);
}

#[test]
fn tab_becomes_no_space_for_width_zero() {
    assert_eq!(expand_tabs("a\tb", 0), "ab");
}

#[test]
fn tab_becomes_one_space_for_width_one() {
    assert_eq!(expand_tabs("a\tb", 1), "a b");
}

#[test]
fn tab_becomes_four_spaces_for_width_four() {
    assert_eq!(expand_tabs("a\tb", 4), "a    b");
}

#[test]
fn tab_becomes_eight_spaces_for_width_eight() {
    assert_eq!(expand_tabs("a\tb", 8), "a        b");
}

#[test]
fn tab_becomes_eight_spaces_for_width_fifty() {
    assert_eq!(expand_tabs("a\tb", 50), "a        b");
    assert_eq!(expand_tabs("\t", 255), "        ");
}

#[test]
fn expansion_keeps_other_characters() {
    assert_eq!(expand_tabs("fn main() { é→ }", 4), "fn main() { é→ }");
    assert_eq!(expand_tabs("", 4), "");
    assert_eq!(expand_tabs("  x ", 50), "  x ");
}

#[test]
fn expansion_widens_each_tab() {
    assert_eq!(expand_tabs("\t\tx\t", 2), "    x  ");
    assert_eq!(expand_tabs("\tlet a = 1;\t// b", 4), "    let a = 1;    // b");
}

#[test]
fn split_lines_at_line_feeds() {
    assert_eq!(split_lines("ab\n\ncd"), vec!["ab", "", "cd"]);
    assert_eq!(split_lines("ab\ncd\n"), vec!["ab", "cd"]);
    assert_eq!(split_lines("ab\n\n"), vec!["ab", ""]);
}

#[test]
fn split_lines_of_empty_text_is_empty() {
    assert_eq!(split_lines(""), Vec::<String>::new());
    assert_eq!(split_lines("\n"), vec![""]);
}

#[test]
fn split_lines_drops_carriage_return_before_line_feed() {
    assert_eq!(split_lines("ab\r\ncd\r\n"), vec!["ab", "cd"]);
    assert_eq!(split_lines("\r\n"), vec![""]);
    assert_eq!(split_lines("a\r\r\nb"), vec!["a\r", "b"]);
}

#[test]
fn split_lines_keeps_lone_carriage_returns() {
    assert_eq!(split_lines("a\rb\nc"), vec!["a\rb", "c"]);
    assert_eq!(split_lines("baz\r"), vec!["baz\r"]);
    assert_eq!(split_lines("\r"), vec!["\r"]);
    assert_eq!(split_lines("foo\nbar\n\r\nbaz\r"), vec!["foo", "bar", "", "baz\r"]);
}

#[test]
fn split_lines_agrees_with_std_lines() {
    let samples = [
        "",
        "\n",
        "\r",
        "\r\n",
        "\n\r",
        "\r\r\n",
        "a",
        "a\n",
        "a\r\n",
        "a\n\n",
        "a\r\nb\rc\n\nd\r",
        "\n\n\n",
        "x\r\r\r\ny\r",
        "fn main() {\n\tprintln!(\"hi\");\n}\n",
        "é\nü\r\n→",
    ];
    for sample in samples {
        assert_eq!(split_lines(sample), std_lines(sample), "on {:?}", sample);
    }
}

#[test]
fn buffer_holds_one_entry_for_each_line() {
    let buffer = read_file_to_buffer("fn f() {\n\treturn;\n\n}\n", 4);
    assert_eq!(buffer, vec!["fn f() {", "    return;", "", "}"]);
}

#[test]
fn buffer_clamps_the_tab_width() {
    let buffer = read_file_to_buffer("\ta\r\n\t\tb", 50);
    assert_eq!(buffer, vec!["        a", "                b"]);
    let narrow = read_file_to_buffer("\ta\r\n\t\tb", 0);
    assert_eq!(narrow, vec!["a", "b"]);
}

#[test]
fn buffer_of_empty_text_is_empty() {
    assert_eq!(read_file_to_buffer("", 4), Vec::<String>::new());
}

#[test]
fn indentation_ends_at_first_character_that_is_no_whitespace() {
    assert_eq!(skip_indentation("abc"), 0);
    assert_eq!(skip_indentation("  abc"), 2);
    assert_eq!(skip_indentation("    x y"), 4);
    assert_eq!(skip_indentation("\t x"), 2);
}

#[test]
fn indentation_of_whitespace_alone_is_the_length() {
    assert_eq!(skip_indentation(""), 0);
    assert_eq!(skip_indentation("   "), 3);
    assert_eq!(skip_indentation(" \t "), 3);
}

#[test]
fn indentation_counts_characters_not_bytes() {
    assert_eq!(skip_indentation("\u{a0}\u{2003}x"), 2);
    assert_eq!(skip_indentation("\u{3000}"), 1);
    assert_eq!(skip_indentation("é "), 0);
}

#[test]
fn typing_starts_behind_the_indentation() {
    assert_eq!(typing_start("abc"), Some(0));
    assert_eq!(typing_start("  abc"), Some(2));
    assert_eq!(typing_start("\u{a0}x"), Some(1));
}

#[test]
fn typing_starts_on_the_last_character_of_a_line_of_whitespace() {
    assert_eq!(typing_start(" "), Some(0));
    assert_eq!(typing_start("    "), Some(3));
    assert_eq!(typing_start("\u{2003}\t"), Some(1));
}

#[test]
fn typing_starts_nowhere_on_an_empty_line() {
    assert_eq!(typing_start(""), None);
}

#[test]
fn first_unflagged_finds_the_first_flag_that_is_not_set() {
    assert_eq!(first_unflagged(&vec![]), 0);
    assert_eq!(first_unflagged(&vec![false]), 0);
    assert_eq!(first_unflagged(&vec![false, true]), 0);
    assert_eq!(first_unflagged(&vec![true, true, false, true, false]), 2);
    assert_eq!(first_unflagged(&vec![true, true, true]), 3);
}

#[test]
fn whitespace_in_flags_each_character() {
    assert_eq!(whitespace_in(""), Vec::<bool>::new());
    assert_eq!(whitespace_in("  a b"), vec![true, true, false, true, false]);
    assert_eq!(whitespace_in("\t\u{a0}é\u{3000}_"), vec![true, true, false, true, false]);
}
