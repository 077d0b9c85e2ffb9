//! Lines of text: how a text falls into display lines, how tabs widen into
//! spaces, and where the indentation of a line ends.

use vstd::prelude::*;
use vstd::std_specs::iter::IteratorSpec;
use vstd::string::StrSliceExecFns;

verus! {

broadcast use vstd::string::group_string_axioms;

/// The line feed that ends a line of the text.
pub const LINE_FEED: char = '\n';

/// The carriage return that may stand before a line feed.
pub const CARRIAGE_RETURN: char = '\r';

/// The tab character.
pub const TAB: char = '\t';

/// The space that tabs are widened into.
pub const SPACE: char = ' ';

/// The largest number of spaces that one tab is widened into.
pub const MAX_TAB_STOP: u8 = 8;

/// Whether `c` counts as whitespace: what `char::is_whitespace` answers for it.
pub uninterp spec fn is_whitespace(c: char) -> bool;

/// Calls `char::is_whitespace`. Its answer depends on the character alone
/// and is the meaning of [`is_whitespace`].
#[verifier::external_body]
fn char_is_whitespace(c: char) -> (answer: bool)
    ensures
        answer == is_whitespace(c),
{
    c.is_whitespace()
}

/// `String::push` appends one character to the end of the string.
pub assume_specification[ String::push ](text: &mut String, c: char)
    ensures
        final(text)@ == old(text)@.push(c),
;

/// The display lines that a buffer holds, each as a sequence of characters.
pub open spec fn lines_of(buffer: &Vec<String>) -> Seq<Seq<char>> {
    Seq::new(buffer@.len(), |i: int| buffer@[i]@)
}

/// The number of whitespace characters that `line` starts with: the index
/// of its first character that is not whitespace, or its length where it
/// has none.
pub open spec fn indent_of(line: Seq<char>) -> nat
    decreases line.len(),
{
    if line.len() == 0 || !is_whitespace(line[0]) {
        0
    } else {
        1 + indent_of(line.drop_first())
    }
}

/// Whether `line` holds a character that is not whitespace, so that something
/// is left to type once its indentation is passed.
pub open spec fn has_text(line: Seq<char>) -> bool {
    indent_of(line) < line.len()
}

/// Where typing starts on a line that is not empty: behind its
/// indentation. A line of whitespace alone has no character behind its
/// indentation; there typing starts on its last character, which is typed
/// like any other.
pub open spec fn start_of(line: Seq<char>) -> int {
    if has_text(line) {
        indent_of(line) as int
    } else {
        line.len() - 1
    }
}

/// For each character of `line`, in order, whether it is whitespace.
pub open spec fn whitespace_flags(line: Seq<char>) -> Seq<bool> {
    Seq::new(line.len(), |i: int| is_whitespace(line[i]))
}

/// The number of spaces that stand for one tab: the configured width, but
/// never more than eight.
pub open spec fn tab_stop(tab_width: u8) -> nat {
    if tab_width < MAX_TAB_STOP {
        tab_width as nat
    } else {
        MAX_TAB_STOP as nat
    }
}

/// What one character of the raw text becomes: a tab becomes `width`
/// spaces, every other character stays as it is.
pub open spec fn widened_char(c: char, width: nat) -> Seq<char> {
    if c == TAB {
        Seq::new(width, |i: int| SPACE)
    } else {
        seq![c]
    }
}

/// `line` with each of its characters widened, in order.
pub open spec fn widened(line: Seq<char>, width: nat) -> Seq<char>
    decreases line.len(),
{
    if line.len() == 0 {
        Seq::empty()
    } else {
        widened(line.drop_last(), width) + widened_char(line.last(), width)
    }
}

/// The length of the first line of `text`: the index of its first line
/// feed, or the length of `text` where it holds none.
pub open spec fn first_line_len(text: Seq<char>) -> nat
    decreases text.len(),
{
    if text.len() == 0 || text[0] == LINE_FEED {
        0
    } else {
        1 + first_line_len(text.drop_first())
    }
}

/// `line` without the carriage return that it ends with, if it ends with one.
pub open spec fn without_carriage_return(line: Seq<char>) -> Seq<char> {
    if line.len() > 0 && line.last() == CARRIAGE_RETURN {
        line.drop_last()
    } else {
        line
    }
}

/// The lines of `text`. A line ends at a line feed, or at a carriage return
/// directly followed by a line feed; neither belongs to the line. What
/// follows the last line feed is a line of its own unless it is empty, and
/// keeps a carriage return that it may end with.
pub open spec fn text_lines(text: Seq<char>) -> Seq<Seq<char>>
    decreases text.len(),
{
    if text.len() == 0 {
        Seq::empty()
    } else {
        let end = first_line_len(text) as int;
        if end < text.len() {
            seq![without_carriage_return(text.subrange(0, end))] + text_lines(
                text.subrange(end + 1, text.len() as int),
            )
        } else {
            seq![text]
        }
    }
}

/// The buffer that a raw text gives: its lines, in order, each with its
/// tabs widened.
pub open spec fn buffer_of(text: Seq<char>, tab_width: u8) -> Seq<Seq<char>> {
    let raw = text_lines(text);
    Seq::new(raw.len(), |i: int| widened(raw[i], tab_stop(tab_width)))
}

/// The indentation of `line` is no longer than `line`, only whitespace
/// stands before it, and the character at it, if any, is not whitespace.
pub proof fn lemma_indent_of(line: Seq<char>)
    ensures
        indent_of(line) <= line.len(),
        forall|i: int| 0 <= i < indent_of(line) ==> is_whitespace(#[trigger] line[i]),
        has_text(line) ==> !is_whitespace(line[indent_of(line) as int]),
    decreases line.len(),
{
    if line.len() > 0 && is_whitespace(line[0]) {
        let rest = line.drop_first();
        lemma_indent_of(rest);
        assert forall|i: int| 0 <= i < indent_of(line) implies is_whitespace(
            #[trigger] line[i],
        ) by {
            if i > 0 {
                assert(line[i] == rest[i - 1]);
            }
        }
        if has_text(line) {
            assert(line[indent_of(line) as int] == rest[indent_of(rest) as int]);
        }
    }
}

/// Typing starts on a character of the line, on every line that is not
/// empty.
pub proof fn lemma_start_of(line: Seq<char>)
    requires
        line.len() > 0,
    ensures
        0 <= start_of(line) < line.len(),
{
    lemma_indent_of(line);
}

/// Where the indentation ends is the one index before which every
/// character is whitespace and at which, if a character stands there, it
/// is not.
pub proof fn lemma_indent_is_first_unflagged(line: Seq<char>, index: int)
    requires
        0 <= index <= line.len(),
        forall|i: int| 0 <= i < index ==> whitespace_flags(line)[i],
        index < line.len() ==> !whitespace_flags(line)[index],
    ensures
        index == indent_of(line),
{
    lemma_indent_of(line);
    let indent = indent_of(line) as int;
    if index < indent {
        assert(is_whitespace(line[index]));
    } else if indent < index {
        assert(whitespace_flags(line)[indent]);
    }
}

/// The index of the first flag that is not set, or the number of flags
/// where all are set.
pub fn first_unflagged(flags: &Vec<bool>) -> (index: usize)
    ensures
        index <= flags@.len(),
        forall|i: int| 0 <= i < index ==> flags@[i],
        index < flags@.len() ==> !flags@[index as int],
{
    let mut index: usize = 0;
    while index < flags.len() && flags[index]
        invariant
            index <= flags@.len(),
            forall|i: int| 0 <= i < index ==> flags@[i],
        decreases flags@.len() - index,
    {
        index = index + 1;
    }
    index
}

/// For each character of `line`, in order, whether it is whitespace.
pub fn whitespace_in(line: &str) -> (flags: Vec<bool>)
    ensures
        flags@ == whitespace_flags(line@),
{
    let mut flags: Vec<bool> = Vec::new();
    let mut chars = line.chars();
    loop
        invariant
            chars.obeys_prophetic_iter_laws(),
            flags@.len() <= line@.len(),
            chars.remaining() == line@.subrange(flags@.len() as int, line@.len() as int),
            forall|i: int| 0 <= i < flags@.len() ==> flags@[i] == is_whitespace(line@[i]),
        decreases line@.len() - flags@.len(),
    {
        match chars.next() {
            Some(c) => {
                assert(c == line@[flags@.len() as int]);
                assert(chars.remaining() == line@.subrange(
                    flags@.len() as int + 1,
                    line@.len() as int,
                ));
                flags.push(char_is_whitespace(c));
            },
            None => {
                assert(flags@ =~= whitespace_flags(line@));
                return flags;
            },
        }
    }
}

/// The index of the first character of `line` that is not whitespace, or
/// the length of `line` where every character is whitespace.
pub fn skip_indentation(line: &str) -> (index: usize)
    ensures
        index == indent_of(line@),
{
    let flags = whitespace_in(line);
    let index = first_unflagged(&flags);
    proof {
        lemma_indent_is_first_unflagged(line@, index as int);
    }
    index
}

/// Where typing starts on `line`, if it is not empty: behind its
/// indentation or, on a line of whitespace alone, on its last character.
pub fn typing_start(line: &str) -> (start: Option<usize>)
    ensures
        line@.len() <= usize::MAX,
        match start {
            Some(index) => line@.len() > 0 && index == start_of(line@),
            None => line@.len() == 0,
        },
{
    let index = skip_indentation(line);
    let length = line.unicode_len();
    if length == 0 {
        None
    } else if index < length {
        Some(index)
    } else {
        Some(length - 1)
    }
}

/// Widens the tabs of `line`: each tab becomes `min(tab_width, 8)`
/// spaces, and every other character is kept as it is.
pub fn expand_tabs(line: &str, tab_width: u8) -> (expanded: String)
    ensures
        expanded@ == widened(line@, tab_stop(tab_width)),
{
    let mut expanded = String::new();
    let mut chars = line.chars();
    let ghost mut done: int = 0;
    loop
        invariant
            chars.obeys_prophetic_iter_laws(),
            0 <= done <= line@.len(),
            chars.remaining() == line@.subrange(done, line@.len() as int),
            expanded@ == widened(line@.subrange(0, done), tab_stop(tab_width)),
        decreases line@.len() - done,
    {
        let ghost before = expanded@;
        match chars.next() {
            Some(c) => {
                if c == TAB {
                    let mut spaces: u8 = 0;
                    while spaces < tab_width && spaces < MAX_TAB_STOP
                        invariant
                            spaces <= tab_stop(tab_width),
                            expanded@ == before + Seq::new(spaces as nat, |i: int| SPACE),
                        decreases tab_stop(tab_width) - spaces,
                    {
                        expanded.push(SPACE);
                        spaces = spaces + 1;
                    }
                } else {
                    expanded.push(c);
                }
                proof {
                    let next = line@.subrange(0, done + 1);
                    assert(next.drop_last() == line@.subrange(0, done));
                    assert(next.last() == c);
                    assert(expanded@ == before + widened_char(c, tab_stop(tab_width)));
                    assert(chars.remaining() == line@.subrange(done + 1, line@.len() as int));
                    done = done + 1;
                }
            },
            None => {
                assert(line@.subrange(0, done) == line@);
                return expanded;
            },
        }
    }
}

/// Where a text holds no line feed before index `n`, and ends or holds a
/// line feed at `n`, its first line is `n` characters long.
proof fn lemma_first_line_len(text: Seq<char>, n: int)
    requires
        0 <= n <= text.len(),
        forall|j: int| 0 <= j < n ==> text[j] != LINE_FEED,
        n == text.len() || text[n] == LINE_FEED,
    ensures
        first_line_len(text) == n,
    decreases n,
{
    if n > 0 {
        let rest = text.drop_first();
        assert forall|j: int| 0 <= j < n - 1 implies rest[j] != LINE_FEED by {
            assert(rest[j] == text[j + 1]);
        }
        lemma_first_line_len(rest, n - 1);
    }
}

/// Splits `text` into its lines, in order. A line ends at a line feed, or
/// at a carriage return directly followed by a line feed; a last line
/// without a line feed counts unless it is empty.
pub fn split_lines(text: &str) -> (lines: Vec<String>)
    ensures
        lines_of(&lines) == text_lines(text@),
{
    let mut lines: Vec<String> = Vec::new();
    let mut current = String::new();
    let mut pending_return = false;
    let mut chars = text.chars();
    let ghost len = text@.len() as int;
    let ghost mut start: int = 0;
    let ghost mut pos: int = 0;
    proof {
        assert(lines_of(&lines) =~= Seq::<Seq<char>>::empty());
        assert(text@.subrange(0, len) == text@);
        assert(current@ + Seq::<char>::empty() =~= text@.subrange(0, 0));
    }
    loop
        invariant
            chars.obeys_prophetic_iter_laws(),
            len == text@.len(),
            0 <= start <= pos <= len,
            chars.remaining() == text@.subrange(pos, len),
            forall|j: int| start <= j < pos ==> text@[j] != LINE_FEED,
            current@ + (if pending_return {
                seq![CARRIAGE_RETURN]
            } else {
                Seq::<char>::empty()
            }) == text@.subrange(start, pos),
            !pending_return ==> current@.len() == 0 || current@.last() != CARRIAGE_RETURN,
            text_lines(text@) == lines_of(&lines) + text_lines(
                text@.subrange(start, len),
            ),
        decreases len - pos,
    {
        let ghost tail = text@.subrange(start, len);
        let ghost seen = text@.subrange(start, pos);
        let ghost held = current@;
        let ghost before = lines_of(&lines);
        match chars.next() {
            Some(c) => {
                assert(c == text@[pos]);
                assert(chars.remaining() == text@.subrange(pos + 1, len));
                assert(text@.subrange(start, pos + 1) == seen.push(c));
                if c == LINE_FEED {
                    proof {
                        assert forall|j: int| 0 <= j < pos - start implies tail[j]
                            != LINE_FEED by {
                            assert(tail[j] == text@[start + j]);
                        }
                        lemma_first_line_len(tail, pos - start);
                        assert(tail.subrange(0, pos - start) == seen);
                        assert(tail.subrange(pos - start + 1, tail.len() as int)
                            == text@.subrange(pos + 1, len));
                        if pending_return {
                            assert(seen.drop_last() == held);
                        }
                        assert(without_carriage_return(seen) == held);
                    }
                    lines.push(current);
                    current = String::new();
                    pending_return = false;
                    proof {
                        assert(lines_of(&lines) == before.push(held));
                        assert(before + (seq![held] + text_lines(
                            text@.subrange(pos + 1, len),
                        )) == before.push(held) + text_lines(text@.subrange(pos + 1, len)));
                        start = pos + 1;
                        pos = pos + 1;
                        assert(current@ + Seq::<char>::empty() == text@.subrange(start, pos));
                    }
                } else if c == CARRIAGE_RETURN {
                    if pending_return {
                        current.push(CARRIAGE_RETURN);
                    }
                    pending_return = true;
                    proof {
                        pos = pos + 1;
                        assert(current@ + seq![CARRIAGE_RETURN] == text@.subrange(start, pos));
                    }
                } else {
                    if pending_return {
                        current.push(CARRIAGE_RETURN);
                        pending_return = false;
                    }
                    current.push(c);
                    proof {
                        pos = pos + 1;
                        assert(current@ + Seq::<char>::empty() == text@.subrange(start, pos));
                    }
                }
            },
            None => {
                if pending_return {
                    current.push(CARRIAGE_RETURN);
                }
                assert(current@ == tail);
                if !current.as_str().is_empty() {
                    proof {
                        lemma_first_line_len(tail, tail.len() as int);
                    }
                    lines.push(current);
                    assert(lines_of(&lines) == before.push(tail));
                    assert(before + seq![tail] == before.push(tail));
                } else {
                    assert(before + Seq::<Seq<char>>::empty() == before);
                }
                return lines;
            },
        }
    }
}

/// Turns the raw text of a file into the buffer of a session: one entry
/// for each line of the text, in order, with each tab widened into
/// `min(tab_width, 8)` spaces and every other character kept.
pub fn read_file_to_buffer(file_content: &str, tab_width: u8) -> (buffer: Vec<String>)
    ensures
        lines_of(&buffer) == buffer_of(file_content@, tab_width),
{
    let raw = split_lines(file_content);
    let mut buffer: Vec<String> = Vec::new();
    let mut i: usize = 0;
    while i < raw.len()
        invariant
            i <= raw.len(),
            buffer.len() == i,
            forall|j: int|
                0 <= j < i ==> (#[trigger] buffer@[j])@ == widened(raw@[j]@, tab_stop(tab_width)),
        decreases raw.len() - i,
    {
        let line = expand_tabs(raw[i].as_str(), tab_width);
        buffer.push(line);
        i = i + 1;
    }
    assert(lines_of(&buffer) =~= Seq::new(
        lines_of(&raw).len(),
        |i: int| widened(lines_of(&raw)[i], tab_stop(tab_width)),
    ));
    buffer
}

/// A line without tabs is left as it is, whatever the tab width.
pub proof fn lemma_widened_without_tabs(line: Seq<char>, width: nat)
    requires
        forall|i: int| 0 <= i < line.len() ==> line[i] != TAB,
    ensures
        widened(line, width) == line,
    decreases line.len(),
{
    if line.len() > 0 {
        lemma_widened_without_tabs(line.drop_last(), width);
        assert(line.drop_last().push(line.last()) == line);
    }
}

/// A tab alone becomes `min(tab_width, 8)` spaces, and nothing else.
pub proof fn lemma_widened_tab(tab_width: u8)
    ensures
        widened(seq![TAB], tab_stop(tab_width)).len() == tab_stop(tab_width),
        tab_stop(tab_width) <= 8,
        tab_stop(tab_width) <= tab_width,
        tab_stop(tab_width) == tab_width || tab_stop(tab_width) == 8,
        forall|i: int|
            0 <= i < tab_stop(tab_width) ==> #[trigger] widened(
                seq![TAB],
                tab_stop(tab_width),
            )[i] == SPACE,
{
    let line = seq![TAB];
    assert(line.drop_last() =~= Seq::<char>::empty());
    assert(widened(line.drop_last(), tab_stop(tab_width)) =~= Seq::<char>::empty());
    assert(widened(line, tab_stop(tab_width)) =~= widened_char(TAB, tab_stop(tab_width)));
}

} // verus!
