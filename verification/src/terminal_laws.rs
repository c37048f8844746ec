//! What keys do, and how what was written is shown.
use vstd::prelude::*;

use crate::ansi::{plain, sgr_style, span_of, style_sequence, styled_spans, unstyled, Color, Style};
use crate::input_box::{
    accent_color, before_cursor, box_line, columns, first_line_of, glyph_style, newer, older, panel_style,
    pending_style, pending_texts, pressed, InputMode, InputView, Key, KeyCode, OutcomeView,
};
use crate::input_text::{
    column_of, law_ends_of_a_line, law_place_on_a_line, lemma_line_start_bounds, line_feeds,
    line_of, line_start, lines_in,
};
use crate::input_watcher::{rubbed_out, watch_key};
use crate::markdown::{
    body_range, colored_markdown, finished, markdown_nodes, overlaid, rendered, with_block,
    with_blocks, with_code, MdNodeView,
};
use crate::mentions::{completions, mention_at, EntryView};
use crate::slash::commands_for;
use crate::text::{char_from, decimal, ends_with, join, lemma_char_from, lines, split};
use crate::transcript::{
    last_offset, placed, printed_lines, printed_parts, scroll_delta, scrolled, Scroll,
    TranscriptView,
};

verus! {

// ---------------------------------------------------------------------------
// The input box
// ---------------------------------------------------------------------------

/// A key without modifiers.
pub open spec fn bare(code: KeyCode) -> Key {
    Key { code, control: false, alt: false, shift: false }
}

/// A character is put in before the cursor, which stays behind it; so is a line
/// feed by Enter with a modifier.
pub proof fn law_character_is_put_in(
    s: InputView,
    c: char,
    mode: InputMode,
    now: u64,
    entries: Seq<EntryView>,
    alt: bool,
)
    requires
        s.well_formed(),
    ensures
        ({
            let (t, o) = pressed(s, bare(KeyCode::Char(c)), mode, now, entries);
            let k = s.cursor as int;
            &&& t.buffer == s.buffer.take(k) + seq![c] + s.buffer.skip(k)
            &&& t.cursor == s.cursor + 1
            &&& o is Handled
        }),
        ({
            let key = Key { code: KeyCode::Enter, control: false, alt, shift: !alt };
            let (t, o) = pressed(s, key, mode, now, entries);
            let k = s.cursor as int;
            &&& t.buffer == s.buffer.take(k) + seq!['\n'] + s.buffer.skip(k)
            &&& t.cursor == s.cursor + 1
            &&& o is Handled
        }),
{
    let k = s.cursor as int;
    assert(s.buffer.insert(k, c) =~= s.buffer.take(k) + seq![c] + s.buffer.skip(k));
    assert(s.buffer.insert(k, '\n') =~= s.buffer.take(k) + seq!['\n'] + s.buffer.skip(k));
}

/// Backspace takes the character before the cursor, Delete the one behind it;
/// where there is none, nothing changes.
pub proof fn law_character_is_taken(
    s: InputView,
    mode: InputMode,
    now: u64,
    entries: Seq<EntryView>,
)
    requires
        s.well_formed(),
    ensures
        ({
            let t = pressed(s, bare(KeyCode::Backspace), mode, now, entries).0;
            let d = pressed(s, bare(KeyCode::Delete), mode, now, entries).0;
            let k = s.cursor as int;
            &&& k > 0 ==> t.buffer == s.buffer.take(k - 1) + s.buffer.skip(k) && t.cursor == k - 1
            &&& k == 0 ==> t.buffer == s.buffer && t.cursor == 0
            &&& k < s.buffer.len() ==> d.buffer == s.buffer.take(k) + s.buffer.skip(k + 1)
            &&& k == s.buffer.len() ==> d.buffer == s.buffer
            &&& d.cursor == s.cursor
        }),
{
    let k = s.cursor as int;
    if k > 0 {
        assert(s.buffer.remove(k - 1) =~= s.buffer.take(k - 1) + s.buffer.skip(k));
    }
    if k < s.buffer.len() {
        assert(s.buffer.remove(k) =~= s.buffer.take(k) + s.buffer.skip(k + 1));
    }
}

/// Left and Right move by one character, and no further than the text goes; Home
/// and End go to the ends of the line. No text changes.
pub proof fn law_cursor_moves(
    s: InputView,
    mode: InputMode,
    now: u64,
    entries: Seq<EntryView>,
)
    requires
        s.well_formed(),
        s.buffer.len() <= usize::MAX,
    ensures
        ({
            let l = pressed(s, bare(KeyCode::Left), mode, now, entries).0;
            let r = pressed(s, bare(KeyCode::Right), mode, now, entries).0;
            let h = pressed(s, bare(KeyCode::Home), mode, now, entries).0;
            let e = pressed(s, bare(KeyCode::End), mode, now, entries).0;
            let n = s.buffer.len();
            &&& l.buffer == s.buffer && r.buffer == s.buffer && h.buffer == s.buffer && e.buffer
                == s.buffer
            &&& l.cursor == if s.cursor > 0 {
                s.cursor - 1
            } else {
                0
            }
            &&& r.cursor == if s.cursor < n {
                s.cursor + 1
            } else {
                n
            }
            &&& h.cursor <= s.cursor <= e.cursor <= n
            &&& h.cursor == 0 || s.buffer[h.cursor - 1] == '\n'
            &&& e.cursor == n || s.buffer[e.cursor as int] == '\n'
            &&& forall|j: int| h.cursor <= j < e.cursor ==> #[trigger] s.buffer[j] != '\n'
        }),
{
    law_ends_of_a_line(s.buffer, s.cursor, usize::MAX as nat);
}

/// In a text of several lines Up and Down go to the line above and below, to the
/// same column, or to the end of a shorter line.
pub proof fn law_cursor_moves_between_lines(
    s: InputView,
    mode: InputMode,
    now: u64,
    entries: Seq<EntryView>,
)
    requires
        s.well_formed(),
        line_feeds(s.buffer) > 0,
    ensures
        ({
            let u = pressed(s, bare(KeyCode::Up), mode, now, entries).0;
            let d = pressed(s, bare(KeyCode::Down), mode, now, entries).0;
            let line = line_of(s.buffer, s.cursor);
            let col = column_of(s.buffer, s.cursor);
            &&& u.buffer == s.buffer && d.buffer == s.buffer
            &&& line == 0 ==> u.cursor == s.cursor
            &&& line > 0 ==> line_of(s.buffer, u.cursor) == line - 1 && (column_of(
                s.buffer,
                u.cursor,
            ) == col || (column_of(s.buffer, u.cursor) < col && s.buffer[u.cursor as int] == '\n'))
            &&& line + 1 == lines_in(s.buffer) ==> d.cursor == s.cursor
            &&& line + 1 < lines_in(s.buffer) ==> line_of(s.buffer, d.cursor) == line + 1 && (
            column_of(s.buffer, d.cursor) == col || (column_of(s.buffer, d.cursor) < col && (
            d.cursor == s.buffer.len() || s.buffer[d.cursor as int] == '\n')))
        }),
{
    let line = line_of(s.buffer, s.cursor);
    let col = column_of(s.buffer, s.cursor);
    crate::input_text::lemma_line_feeds(s.buffer, s.cursor as int);
    if line > 0 {
        law_place_on_a_line(s.buffer, (line - 1) as nat, col);
        let p = crate::input_text::position_of(s.buffer, (line - 1) as nat, col);
        if p == s.buffer.len() {
            assert(s.buffer.take(p) =~= s.buffer);
        }
    }
    if line + 1 < lines_in(s.buffer) {
        law_place_on_a_line(s.buffer, line + 1, col);
    }
}

/// Enter hands over what was typed, empties the box and remembers the entry,
/// unless it is the same as the last one.
pub proof fn law_enter_hands_over(
    s: InputView,
    mode: InputMode,
    now: u64,
    entries: Seq<EntryView>,
)
    requires
        s.well_formed(),
    ensures
        ({
            let (t, o) = pressed(s, bare(KeyCode::Enter), mode, now, entries);
            &&& s.buffer.len() > 0 ==> o == OutcomeView::Submit(s.buffer) && t.buffer.len() == 0
                && t.cursor == 0 && t.history_index is None && t.draft.len() == 0
            &&& s.buffer.len() > 0 && s.history.len() > 0 && s.history.last() == s.buffer
                ==> t.history == s.history
            &&& s.buffer.len() > 0 && (s.history.len() == 0 || s.history.last() != s.buffer)
                ==> t.history == s.history.push(s.buffer)
            &&& s.buffer.len() == 0 ==> o is Handled && t.history == s.history && t.buffer
                == s.buffer
        }),
{
}

/// Escape clears the box at rest, and cancels the turn while one runs, without
/// touching the box. Ctrl-D leaves only at rest with an empty box.
pub proof fn law_escape_and_control_d(s: InputView, now: u64, entries: Seq<EntryView>)
    requires
        s.well_formed(),
    ensures
        ({
            let d = Key { code: KeyCode::Char('d'), control: true, alt: false, shift: false };
            let (t, o) = pressed(s, bare(KeyCode::Esc), InputMode::Idle, now, entries);
            let (u, p) = pressed(s, bare(KeyCode::Esc), InputMode::Running, now, entries);
            let (v, q) = pressed(s, d, InputMode::Idle, now, entries);
            let (w, r) = pressed(s, d, InputMode::Running, now, entries);
            &&& o is Handled && t.buffer.len() == 0 && t.cursor == 0 && t.history_index is None
            &&& p is CancelTurn && u.buffer == s.buffer && u.cursor == s.cursor
            &&& q is Quit <==> s.buffer.len() == 0
            &&& r is Handled
            &&& v.buffer == s.buffer && w.buffer == s.buffer
        }),
{
}

/// The history is walked from its last entry on, one entry at a time; the cursor
/// stands behind what is shown.
pub proof fn law_history_is_walked(s: InputView)
    requires
        s.well_formed(),
        s.history.len() > 0,
        s.history.len() <= usize::MAX,
    ensures
        s.history_index is None ==> older(s).buffer == s.history.last() && older(s).cursor
            == s.history.last().len() && older(s).draft == s.buffer && older(s).history_index
            == Some((s.history.len() - 1) as usize),
        s.history_index matches Some(i) ==> (i > 0 ==> older(s).buffer == s.history[i - 1] && older(
            s,
        ).history_index == Some((i - 1) as usize) && older(s).draft == s.draft),
        s.history_index == Some(0usize) ==> older(s) == s,
{
}

/// Of questions that wait the first lines are shown; where there are more than
/// fit, the last line says how many more.
pub proof fn law_waiting_questions_are_shown(pending: Seq<Seq<char>>, visible: nat)
    requires
        visible > 0,
    ensures
        pending.len() <= visible ==> pending_texts(pending, visible).len() == pending.len(),
        pending.len() > visible ==> pending_texts(pending, visible).len() == visible
            && pending_texts(pending, visible).last() == "… +"@ + decimal(
            (pending.len() - visible + 1) as nat,
        ) + " more waiting"@,
        forall|i: int|
            0 <= i < pending_texts(pending, visible).len() && (pending.len() <= visible || i
                < visible - 1) ==> #[trigger] pending_texts(pending, visible)[i] == "⏳ "@
                + first_line_of(pending[i]),
{
}

/// The first line of a text is what stands before its first line feed.
pub proof fn law_first_line(line: Seq<char>, rest: Seq<char>)
    requires
        forall|i: int| 0 <= i < line.len() ==> #[trigger] line[i] != '\n',
    ensures
        first_line_of(line + seq!['\n'] + rest) == line,
        first_line_of(line) == line,
{
    let s = line + seq!['\n'] + rest;
    let n = line.len() as int;
    lemma_char_from(s, '\n', 0);
    lemma_char_from(line, '\n', 0);
    let k = char_from(s, '\n', 0);
    assert(s[n] == '\n');
    if k < n {
        assert(s[k] == line[k]);
    }
    if k > n {
        assert(s[n] != '\n');
    }
    assert(s.take(n) =~= line);
    let j = char_from(line, '\n', 0);
    assert(j == n);
    assert(line.take(n) =~= line);
}

/// The columns of a text are those of its characters.
pub proof fn law_columns_add_up(a: Seq<char>, b: Seq<char>, c: char)
    ensures
        columns(a + b) == columns(a) + columns(b),
        columns(seq![c]) == match crate::input_box::char_columns(c) {
            Some(n) => n as nat,
            None => 0,
        },
    decreases b.len(),
{
    assert(seq![c].drop_last() =~= Seq::empty());
    reveal_with_fuel(columns, 2);
    if b.len() == 0 {
        assert(a + b =~= a);
    } else {
        law_columns_add_up(a, b.drop_last(), c);
        assert((a + b).drop_last() =~= a + b.drop_last());
    }
}

/// The box shows the lines of its text from the first that is shown on, each
/// behind two columns; in the first row a sign stands in them.
pub proof fn law_box_shows_its_lines(
    buffer: Seq<char>,
    offset: nat,
    i: nat,
    mode: InputMode,
    color: bool,
)
    ensures
        ({
            let row = box_line(buffer, offset, i, mode, color);
            &&& row.len() == 2
            &&& i > 0 ==> row[0].content == "  "@
            &&& i == 0 && mode == InputMode::Idle ==> row[0].content == "❯ "@
            &&& i == 0 && mode == InputMode::Running ==> row[0].content == "» "@
            &&& offset + i < split(buffer, '\n').len() ==> row[1].content == split(buffer, '\n')[(
            offset + i) as int]
            &&& offset + i >= split(buffer, '\n').len() ==> row[1].content.len() == 0
        }),
{
}

// ---------------------------------------------------------------------------
// Typing while a turn runs
// ---------------------------------------------------------------------------

/// What is typed while a turn runs is collected, shown, and handed over by Enter;
/// Escape and Ctrl-C throw it away and cancel the turn.
pub proof fn law_typing_while_a_turn_runs(buffer: Seq<char>, c: char)
    ensures
        watch_key(buffer, bare(KeyCode::Char(c))).0 == buffer.push(c),
        watch_key(buffer, bare(KeyCode::Char(c))).1.echo == if buffer.len() == 0 {
            "\r\n"@ + "» "@ + seq![c]
        } else {
            seq![c]
        },
        !watch_key(buffer, bare(KeyCode::Char(c))).1.cancel,
        watch_key(buffer, bare(KeyCode::Char(c))).1.steer is None,
        watch_key(buffer.push(c), bare(KeyCode::Backspace)).0 == buffer,
        watch_key(buffer.push(c), bare(KeyCode::Backspace)).1.echo == "\u{8} \u{8}"@,
        watch_key(buffer.push(c), bare(KeyCode::Enter)).0.len() == 0,
        watch_key(buffer.push(c), bare(KeyCode::Enter)).1.steer == Some(buffer.push(c)),
        watch_key(Seq::empty(), bare(KeyCode::Enter)).1.steer is None,
        watch_key(buffer, bare(KeyCode::Esc)).0.len() == 0,
        watch_key(buffer, bare(KeyCode::Esc)).1.cancel,
        watch_key(buffer, bare(KeyCode::Esc)).1.steer is None,
        watch_key(
            buffer,
            Key { code: KeyCode::Char('c'), control: true, alt: false, shift: false },
        ) == watch_key(buffer, bare(KeyCode::Esc)),
        buffer.len() == 0 ==> watch_key(buffer, bare(KeyCode::Esc)).1.echo.len() == 0,
        buffer.len() > 0 ==> watch_key(buffer, bare(KeyCode::Esc)).1.echo == rubbed_out(
            buffer.len(),
        ) + "\r\n"@,
        rubbed_out(0).len() == 0,
        rubbed_out(buffer.len() + 1) == rubbed_out(buffer.len()) + "\u{8} \u{8}"@,
{
    assert(buffer.push(c).drop_last() =~= buffer);
}

// ---------------------------------------------------------------------------
// The transcript
// ---------------------------------------------------------------------------

/// Scrolling moves by as many rows as are asked, within the text; who follows the
/// end starts from there, and whoever reaches it follows again.
pub proof fn law_scrolling_moves(t: TranscriptView, delta: i32, total: u16, height: u16)
    ensures
        ({
            let max: int = if total >= height {
                total - height
            } else {
                0
            };
            let from: int = if t.follow {
                max
            } else {
                t.scroll as int
            };
            let r = scrolled(t, delta, total, height);
            &&& last_offset(total, height) == max
            &&& 0 <= from + delta <= max ==> r.scroll == from + delta
            &&& from + delta < 0 ==> r.scroll == 0
            &&& from + delta > max ==> r.scroll == max
            &&& r.follow <==> r.scroll >= max
        }),
{
}

/// A page is the height of the view, and a turn of the wheel three rows.
pub proof fn law_pages_and_wheel(height: u16)
    ensures
        scroll_delta(Scroll::WheelUp, height) == -3,
        scroll_delta(Scroll::WheelDown, height) == 3,
        height > 0 ==> scroll_delta(Scroll::PageUp, height) == -(height as int),
        height > 0 ==> scroll_delta(Scroll::PageDown, height) == height,
        scroll_delta(Scroll::PageUp, 0) == -1,
        scroll_delta(Scroll::PageDown, 0) == 1,
{
}

/// A view that does not follow the end stays where it is, unless the text became
/// too short for that.
pub proof fn law_view_stays(t: TranscriptView, total: u16, height: u16)
    requires
        !t.follow,
    ensures
        t.scroll <= last_offset(total, height) ==> placed(t, total, height) == t,
        t.scroll > last_offset(total, height) ==> placed(t, total, height).scroll == last_offset(
            total,
            height,
        ),
        !placed(t, total, height).follow,
{
}

/// What is printed is shown line by line; a line feed at the end starts no line
/// of its own.
pub proof fn law_printed_text_is_shown_by_lines(text: Seq<char>)
    ensures
        text.len() == 0 ==> printed_parts(text).len() == 0,
        text.len() > 0 && text.last() != '\n' ==> join(printed_parts(text), seq!['\n']) == text,
        forall|i: int|
            0 <= i < printed_parts(text).len() ==> !(#[trigger] printed_parts(text)[i]).contains(
                '\n',
            ),
        text.len() > 0 ==> printed_parts(text) == split(text, '\n') || printed_parts(text) == split(
            text,
            '\n',
        ).drop_last(),
{
    crate::text_laws::law_joining_undoes_splitting(text, '\n');
    let parts = split(text, '\n');
    if text.len() > 0 && text.last() != '\n' && parts.last().len() == 0 {
        let front = parts.drop_last();
        if front.len() == 0 {
            crate::text_laws::law_join_of_one(parts[0], seq!['\n']);
            assert(parts =~= seq![parts[0]]);
            assert(false);
        } else {
            crate::text_laws::law_join_of_both(front, seq![parts.last()], seq!['\n']);
            crate::text_laws::law_join_of_one(parts.last(), seq!['\n']);
            assert(front + seq![parts.last()] =~= parts);
            assert(join(parts, seq!['\n']).last() == '\n');
        }
    }
}

// ---------------------------------------------------------------------------
// Styles
// ---------------------------------------------------------------------------

proof fn lemma_one_parameter(body: Seq<char>)
    requires
        forall|i: int| 0 <= i < body.len() ==> #[trigger] body[i] != ';',
    ensures
        split(body, ';') == seq![body],
{
    lemma_char_from(body, ';', 0);
}

proof fn lemma_number_parameter(n: u32)
    ensures
        split(decimal(n as nat), ';') == seq![decimal(n as nat)],
        crate::text::number(decimal(n as nat), u32::MAX as nat) == Some(n as nat),
{
    crate::text::lemma_decimal_digits(n as nat);
    crate::text_laws::law_written_number_is_read(n as nat, u32::MAX as nat, Seq::empty());
    assert forall|i: int| 0 <= i < decimal(n as nat).len() implies #[trigger] decimal(n as nat)[i]
        != ';' by {
        assert(crate::text::is_digit(decimal(n as nat)[i]));
    }
    lemma_one_parameter(decimal(n as nat));
}

/// A number changes the style as terminals do: zero resets it, the next ones set
/// the weight, and those from thirty on set the color; all others are passed over.
pub proof fn law_numbers_change_the_style(style: Style, n: u32)
    ensures
        sgr_style(style, decimal(n as nat)) == if n == 0 {
            Style {
                fg: None,
                bg: None,
                bold: false,
                dim: false,
                italic: false,
                underlined: false,
            }
        } else if n == 1 {
            Style { bold: true, ..style }
        } else if n == 2 {
            Style { dim: true, ..style }
        } else if n == 3 {
            Style { italic: true, ..style }
        } else if n == 4 {
            Style { underlined: true, ..style }
        } else if n == 31 {
            Style { fg: Some(Color::Red), ..style }
        } else if n == 32 {
            Style { fg: Some(Color::Green), ..style }
        } else if n == 33 {
            Style { fg: Some(Color::Yellow), ..style }
        } else if n == 34 {
            Style { fg: Some(Color::Blue), ..style }
        } else if n == 35 {
            Style { fg: Some(Color::Magenta), ..style }
        } else if n == 36 {
            Style { fg: Some(Color::Cyan), ..style }
        } else if n == 39 {
            Style { fg: Some(Color::Reset), ..style }
        } else if n == 49 {
            Style { bg: Some(Color::Reset), ..style }
        } else {
            style
        },
{
    lemma_number_parameter(n);
}

proof fn lemma_split_first(a: Seq<char>, b: Seq<char>)
    requires
        forall|i: int| 0 <= i < a.len() ==> #[trigger] a[i] != ';',
    ensures
        split(a + seq![';'] + b, ';') == seq![a] + split(b, ';'),
{
    let s = a + seq![';'] + b;
    let n = a.len() as int;
    lemma_char_from(s, ';', 0);
    let k = char_from(s, ';', 0);
    assert(s[n] == ';');
    if k < n {
        assert(s[k] == a[k]);
    }
    if k > n {
        assert(s[n] != ';');
    }
    assert(s.take(n) =~= a);
    assert(s.skip(n + 1) =~= b);
}

proof fn lemma_digits_are_no_semicolons(n: u32)
    ensures
        forall|i: int|
            0 <= i < decimal(n as nat).len() ==> #[trigger] decimal(n as nat)[i] != ';',
{
    crate::text::lemma_decimal_digits(n as nat);
    assert forall|i: int| 0 <= i < decimal(n as nat).len() implies #[trigger] decimal(n as nat)[i]
        != ';' by {
        assert(crate::text::is_digit(decimal(n as nat)[i]));
    }
}

/// A color can be one of a palette, by its number; for the text or behind it.
pub proof fn law_palette_color(style: Style, n: u8)
    ensures
        sgr_style(style, decimal(38) + seq![';'] + (decimal(5) + seq![';'] + decimal(n as nat)))
            == (Style { fg: Some(Color::Indexed(n)), ..style }),
        sgr_style(style, decimal(48) + seq![';'] + (decimal(5) + seq![';'] + decimal(n as nat)))
            == (Style { bg: Some(Color::Indexed(n)), ..style }),
{
    lemma_digits_are_no_semicolons(38);
    lemma_digits_are_no_semicolons(48);
    lemma_digits_are_no_semicolons(5);
    lemma_number_parameter(38);
    lemma_number_parameter(48);
    lemma_number_parameter(5);
    lemma_number_parameter(n as u32);
    let rest = decimal(5) + seq![';'] + decimal(n as nat);
    lemma_split_first(decimal(5), decimal(n as nat));
    lemma_split_first(decimal(38), rest);
    lemma_split_first(decimal(48), rest);
    let p = split(decimal(38) + seq![';'] + rest, ';');
    assert(p[0] == decimal(38) && p[1] == decimal(5) && p[2] == decimal(n as nat) && p.len() == 3);
    let q = split(decimal(48) + seq![';'] + rest, ';');
    assert(q[0] == decimal(48) && q[1] == decimal(5) && q[2] == decimal(n as nat) && q.len() == 3);
}

/// A sequence that changes the style is an escape, a bracket, what it says, and
/// an `m`; it is not shown, and what follows has the new style.
pub proof fn law_style_sequence_changes_what_follows(
    a: Seq<char>,
    body: Seq<char>,
    b: Seq<char>,
    style: Style,
)
    requires
        forall|i: int| 0 <= i < a.len() ==> #[trigger] a[i] != '\x1b',
        forall|i: int| 0 <= i < body.len() ==> #[trigger] body[i] != 'm',
    ensures
        styled_spans(a + (seq!['\x1b', '['] + body + seq!['m'] + b), style) == span_of(a, style)
            + styled_spans(b, sgr_style(style, body)),
        unstyled(a + (seq!['\x1b', '['] + body + seq!['m'] + b)) == a + unstyled(b),
{
    let seqn = seq!['\x1b', '['] + body + seq!['m'] + b;
    let s = a + seqn;
    let n = a.len() as int;
    lemma_char_from(s, '\x1b', 0);
    let k = char_from(s, '\x1b', 0);
    assert(s[n] == seqn[0]);
    assert(seqn[0] == '\x1b');
    if k < n {
        assert(s[k] == a[k]);
    }
    if k > n {
        assert(s[n] != '\x1b');
    }
    assert(s.take(n) =~= a);
    assert(s.skip(n) =~= seqn);
    let m = body.len() as int;
    lemma_char_from(seqn, 'm', 2);
    let e = char_from(seqn, 'm', 2);
    assert(seqn[2 + m] == 'm');
    if e < 2 + m {
        assert(seqn[e] == body[e - 2]);
    }
    if e > 2 + m {
        assert(seqn[2 + m] != 'm');
    }
    assert(seqn.subrange(2, e) =~= body);
    assert(seqn.skip(e + 1) =~= b);
    assert(style_sequence(seqn) == Some((body, b)));
}

// ---------------------------------------------------------------------------
// Code in answers
// ---------------------------------------------------------------------------

/// A text without color, or one that cannot be read, is shown as it is.
pub proof fn law_text_without_color_is_kept(text: Seq<char>)
    ensures
        rendered(text, false) == text,
        crate::markdown::markdown_nodes(text) is None ==> rendered(text, true) == text,
{
}

/// The code of a block is what stands between the lines of its fences.
pub proof fn law_code_stands_between_its_fences(n: nat, start: usize, end: usize)
    ensures
        1 <= start && start + 1 < end <= n + 1 ==> body_range(n, Some((start, end))) == Some(
            (start as int, end - 1),
        ),
        start + 1 >= end ==> body_range(n, Some((start, end))) is None,
        end > n + 1 ==> body_range(n, Some((start, end))) is None,
        body_range(n, None) is None,
{
}

/// A line in color ends its color, and its line feed is taken.
pub proof fn law_colored_line_ends_its_color(h: Seq<char>)
    ensures
        finished(h + seq!['\n']) == h + "\x1b[0m"@,
        h.len() == 0 || h.last() != '\n' ==> finished(h) == h + "\x1b[0m"@,
{
    assert((h + seq!['\n']).drop_last() =~= h);
    assert((h + seq!['\n']).last() == '\n');
}

/// Only fenced code in a known language gets color, and only its own lines.
pub proof fn law_only_fenced_code_is_colored(
    ls: Seq<Seq<char>>,
    lang: Option<Seq<char>>,
    position: Option<(usize, usize)>,
    from: int,
    to: int,
    h: Seq<Option<Seq<char>>>,
    i: int,
)
    ensures
        with_block(ls, MdNodeView::Other) == ls,
        with_block(ls, MdNodeView::Code { fence: false, lang, position }) == ls,
        with_block(ls, MdNodeView::Code { fence: true, lang: None, position }) == ls,
        overlaid(ls, from, to, h).len() == ls.len(),
        0 <= i < ls.len() && !(from <= i < to) ==> overlaid(ls, from, to, h)[i] == ls[i],
        0 <= i < ls.len() && from <= i < to && h[i - from] is Some ==> overlaid(ls, from, to, h)[i]
            == finished(h[i - from]->0),
        0 <= i < ls.len() && from <= i < to && h[i - from] is None ==> overlaid(ls, from, to, h)[i]
            == ls[i],
{
}

/// Tab puts the only command that fits in place of the line, with a blank behind
/// it; else it puts the first completion of a mention in place of its word, and
/// drops what stood behind it.
pub proof fn law_tab_completes(
    s: InputView,
    mode: InputMode,
    now: u64,
    entries: Seq<EntryView>,
    start: int,
    typed: Seq<char>,
)
    requires
        s.well_formed(),
    ensures
        ({
            let t = pressed(s, bare(KeyCode::Tab), mode, now, entries).0;
            let commands = commands_for(s.buffer);
            let one = s.cursor == s.buffer.len() && commands is Some && commands->Some_0.len()
                == 1;
            let cs = completions(typed, entries);
            &&& one ==> t.buffer == "/"@ + commands->Some_0[0] + " "@
            &&& !one && mention_at(s.buffer, s.cursor as int) == Some((start, typed)) && cs.len()
                > 0 ==> t.buffer == s.buffer.take(start) + cs[0].replacement
            &&& !one && mention_at(s.buffer, s.cursor as int) == Some((start, typed)) && cs.len()
                == 0 ==> t.buffer == s.buffer && t.cursor == s.cursor
            &&& !one && mention_at(s.buffer, s.cursor as int) is None ==> t.buffer == s.buffer
                && t.cursor == s.cursor
            &&& t.buffer != s.buffer ==> t.cursor == t.buffer.len()
        }),
{
}

/// Ctrl-C at rest clears the box; in an empty box it says that the next one
/// leaves, and leaves if that comes within two seconds.
pub proof fn law_control_c_at_rest(s: InputView, now: u64, entries: Seq<EntryView>)
    requires
        s.well_formed(),
    ensures
        ({
            let c = Key { code: KeyCode::Char('c'), control: true, alt: false, shift: false };
            let (t, o) = pressed(s, c, InputMode::Idle, now, entries);
            &&& s.buffer.len() > 0 ==> o is Handled && t.buffer.len() == 0 && t.last_idle_ctrl_c
                is None
            &&& s.buffer.len() == 0 ==> match s.last_idle_ctrl_c {
                Some(before) => if now - before < 2000 {
                    o is Quit
                } else {
                    o is CtrlCHint && t.last_idle_ctrl_c == Some(now)
                },
                None => o is CtrlCHint && t.last_idle_ctrl_c == Some(now),
            }
            &&& pressed(s, c, InputMode::Running, now, entries).1 is CancelTurn
        }),
{
}

/// The history is walked back to what was typed before it was entered.
pub proof fn law_history_is_walked_back(s: InputView)
    requires
        s.well_formed(),
        s.history.len() > 0,
    ensures
        s.history_index is None ==> newer(s) == s,
        s.history_index matches Some(i) ==> (i + 1 < s.history.len() && i < usize::MAX ==> newer(
            s,
        ).buffer == s.history[i + 1] && newer(s).history_index == Some((i + 1) as usize)),
        s.history_index matches Some(i) ==> (i + 1 == s.history.len() ==> newer(s).buffer == s.draft
            && newer(s).history_index is None && newer(s).cursor == s.draft.len()),
{
}

/// The colors of the panel, of what waits and of the sign.
pub proof fn law_colors_of_the_box()
    ensures
        panel_style(false) == plain(),
        panel_style(true).fg == Some(Color::Rgb(220, 220, 225)),
        panel_style(true).bg == Some(Color::Rgb(30, 32, 38)),
        pending_style(false) == plain(),
        pending_style(true).fg == Some(Color::DarkGray),
        pending_style(true).dim,
        accent_color(InputMode::Running) == Color::LightYellow,
        accent_color(InputMode::Idle) == Color::Yellow,
        glyph_style(InputMode::Idle, true).bold,
        glyph_style(InputMode::Idle, true).fg == Some(Color::Yellow),
        glyph_style(InputMode::Idle, true).bg == panel_style(true).bg,
        glyph_style(InputMode::Idle, false) == plain(),
{
}

/// Each line that is printed is shown in the styles that it names.
pub proof fn law_printed_lines_have_their_styles(text: Seq<char>, i: int)
    requires
        0 <= i < printed_parts(text).len(),
    ensures
        printed_lines(text).len() == printed_parts(text).len(),
        printed_lines(text)[i] == styled_spans(printed_parts(text)[i], plain()),
{
}

/// A color can be given by its red, green and blue.
pub proof fn law_mixed_color(style: Style, r: u8, g: u8, b: u8)
    ensures
        ({
            let mix = decimal(2) + seq![';'] + (decimal(r as nat) + seq![';'] + (decimal(g as nat)
                + seq![';'] + decimal(b as nat)));
            &&& sgr_style(style, decimal(38) + seq![';'] + mix) == (Style {
                fg: Some(Color::Rgb(r, g, b)),
                ..style
            })
            &&& sgr_style(style, decimal(48) + seq![';'] + mix) == (Style {
                bg: Some(Color::Rgb(r, g, b)),
                ..style
            })
        }),
{
    lemma_digits_are_no_semicolons(38);
    lemma_digits_are_no_semicolons(48);
    lemma_digits_are_no_semicolons(2);
    lemma_digits_are_no_semicolons(r as u32);
    lemma_digits_are_no_semicolons(g as u32);
    lemma_number_parameter(38);
    lemma_number_parameter(48);
    lemma_number_parameter(2);
    lemma_number_parameter(r as u32);
    lemma_number_parameter(g as u32);
    lemma_number_parameter(b as u32);
    let last = decimal(g as nat) + seq![';'] + decimal(b as nat);
    let three = decimal(r as nat) + seq![';'] + last;
    let mix = decimal(2) + seq![';'] + three;
    lemma_split_first(decimal(g as nat), decimal(b as nat));
    lemma_split_first(decimal(r as nat), last);
    lemma_split_first(decimal(2), three);
    lemma_split_first(decimal(38), mix);
    lemma_split_first(decimal(48), mix);
    let p = split(decimal(38) + seq![';'] + mix, ';');
    assert(p.len() == 5 && p[0] == decimal(38) && p[1] == decimal(2) && p[2] == decimal(r as nat)
        && p[3] == decimal(g as nat) && p[4] == decimal(b as nat));
    let q = split(decimal(48) + seq![';'] + mix, ';');
    assert(q.len() == 5 && q[0] == decimal(48) && q[1] == decimal(2) && q[2] == decimal(r as nat)
        && q[3] == decimal(g as nat) && q[4] == decimal(b as nat));
}

/// A sequence that says no number leaves the style alone.
pub proof fn law_sequence_without_a_number(style: Style, body: Seq<char>)
    requires
        forall|i: int| 0 <= i < body.len() ==> #[trigger] body[i] != ';',
        crate::text::number(body, u32::MAX as nat) is None,
    ensures
        sgr_style(style, body) == style,
{
    lemma_one_parameter(body);
}

/// What is shown in color is what the reader of the text makes of it, once its
/// code has its colors.
pub proof fn law_text_is_shown_in_color(text: Seq<char>, nodes: Seq<MdNodeView>, s: Seq<char>)
    ensures
        markdown_nodes(text) == Some(nodes) && colored_markdown(
            with_code(text, nodes),
            Seq::empty(),
            Seq::empty(),
        ) == Some(s) ==> rendered(text, true) == s,
        markdown_nodes(text) == Some(nodes) && colored_markdown(
            with_code(text, nodes),
            Seq::empty(),
            Seq::empty(),
        ) is None ==> rendered(text, true) == text,
        ends_with(text, "\n"@) ==> with_code(text, nodes) == join(
            with_blocks(lines(text), nodes),
            "\n"@,
        ).push('\n'),
        !ends_with(text, "\n"@) ==> with_code(text, nodes) == join(
            with_blocks(lines(text), nodes),
            "\n"@,
        ),
        with_blocks(lines(text), Seq::empty()) == lines(text),
{
}

proof fn lemma_line_start_is(s: Seq<char>, k: int, start: int)
    requires
        0 <= start <= k <= s.len(),
        start == 0 || s[start - 1] == '\n',
        forall|j: int| start <= j < k ==> #[trigger] s[j] != '\n',
    ensures
        line_start(s, k) == start,
{
    lemma_line_start_bounds(s, k);
    let ls = line_start(s, k);
    if ls < start {
        assert(s[start - 1] == '\n');
    }
    if ls > start {
        assert(s[ls - 1] == '\n');
    }
}

proof fn lemma_no_line_feeds(s: Seq<char>)
    requires
        forall|j: int| 0 <= j < s.len() ==> #[trigger] s[j] != '\n',
    ensures
        line_feeds(s) == 0,
    decreases s.len(),
{
    if s.len() > 0 {
        lemma_no_line_feeds(s.drop_last());
    }
}

/// What stands before the cursor on its line is the text from the start of that
/// line up to the cursor.
pub proof fn law_text_before_the_cursor(s: Seq<char>, k: nat)
    requires
        k <= s.len(),
    ensures
        before_cursor(s, k) == s.subrange(k - column_of(s, k), k as int),
    decreases s.len(),
{
    lemma_char_from(s, '\n', 0);
    let n = char_from(s, '\n', 0);
    lemma_line_start_bounds(s, k as int);
    if k <= n {
        assert(s.take(k as int).len() == k);
        lemma_no_line_feeds(s.take(k as int));
        lemma_line_start_is(s, k as int, 0);
        assert(split(s, '\n')[0] =~= s.take(n));
        assert(before_cursor(s, k) =~= s.subrange(0, k as int));
    } else {
        let rest = s.skip(n + 1);
        let j = (k - n - 1) as nat;
        law_text_before_the_cursor(rest, j);
        lemma_line_start_bounds(rest, j as int);
        let start = line_start(rest, j as int);
        assert forall|i: int| n + 1 + start <= i < k implies #[trigger] s[i] != '\n' by {
            assert(rest[i - n - 1] == s[i]);
        }
        if start > 0 {
            assert(rest[start - 1] == s[n + start]);
        }
        lemma_line_start_is(s, k as int, n + 1 + start);
        assert(s.take(k as int) =~= (s.take(n) + seq!['\n']) + rest.take(j as int));
        lemma_no_line_feeds(s.take(n));
        crate::input_text::law_line_feeds_are_counted(s.take(n), seq!['\n'], '\n');
        crate::input_text::law_line_feeds_are_counted(
            s.take(n) + seq!['\n'],
            rest.take(j as int),
            '\n',
        );
        assert(line_of(s, k) == 1 + line_of(rest, j));
        assert(column_of(s, k) == column_of(rest, j));
        let ls = split(s, '\n');
        assert(ls == seq![s.take(n)] + split(rest, '\n'));
        if line_of(rest, j) < split(rest, '\n').len() {
            assert(ls[line_of(s, k) as int] == split(rest, '\n')[line_of(rest, j) as int]);
        }
        assert(before_cursor(s, k) == before_cursor(rest, j));
        assert(rest.subrange(j - column_of(rest, j), j as int) =~= s.subrange(
            k - column_of(s, k),
            k as int,
        ));
    }
}

} // verus!
