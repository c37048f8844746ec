//! Styled text and the escape sequences that style it.
use vstd::prelude::*;

use crate::model::{group_views, views};
use crate::text::{
    char_from, chars_of, index_of_char, lemma_char_from, number, parse_number, split, split_at_char,
    text_range,
};

verus! {

broadcast use group_views;

/// A colour.
#[derive(Clone, Copy, Debug, PartialEq, Eq, Structural)]
pub enum Color {
    Reset,
    Red,
    Green,
    Yellow,
    Blue,
    Magenta,
    Cyan,
    LightYellow,
    DarkGray,
    Rgb(u8, u8, u8),
    Indexed(u8),
}

/// How a text looks.
#[derive(Clone, Copy, Debug, PartialEq, Eq, Structural)]
pub struct Style {
    pub fg: Option<Color>,
    pub bg: Option<Color>,
    pub bold: bool,
    pub dim: bool,
    pub italic: bool,
    pub underlined: bool,
}

/// The look of text without a style.
pub open spec fn plain() -> Style {
    Style { fg: None, bg: None, bold: false, dim: false, italic: false, underlined: false }
}

impl Default for Style {
    fn default() -> (r: Style)
        ensures
            r == plain(),
    {
        Style { fg: None, bg: None, bold: false, dim: false, italic: false, underlined: false }
    }
}

/// A text in one style.
pub struct Span {
    pub content: String,
    pub style: Style,
}

#[verifier::ext_equal]
pub struct SpanView {
    pub content: Seq<char>,
    pub style: Style,
}

impl View for Span {
    type V = SpanView;

    open spec fn view(&self) -> SpanView {
        SpanView { content: self.content@, style: self.style }
    }
}

/// A line of styled texts.
pub struct Line {
    pub spans: Vec<Span>,
}

impl View for Line {
    type V = Seq<SpanView>;

    open spec fn view(&self) -> Seq<SpanView> {
        views(self.spans@)
    }
}

impl Line {
    /// A line of one text in one style.
    pub fn styled(content: String, style: Style) -> (r: Line)
        ensures
            r@ == seq![SpanView { content: content@, style }],
    {
        let mut spans: Vec<Span> = Vec::new();
        spans.push(Span { content, style });
        assert(views(spans@) =~= seq![SpanView { content: content@, style }]);
        Line { spans }
    }
}

/// The character that starts an escape sequence.
pub open spec fn escape() -> char {
    '\x1b'
}

/// The body of a style sequence at the start of a text, and what follows it.
pub open spec fn style_sequence(s: Seq<char>) -> Option<(Seq<char>, Seq<char>)> {
    if s.len() >= 2 && s[0] == escape() && s[1] == '[' {
        let end = char_from(s, 'm', 2);
        if end < s.len() {
            Some((s.subrange(2, end), s.skip(end + 1)))
        } else {
            None
        }
    } else {
        None
    }
}

/// The end of the style sequence that starts at `i`: the position of its `m`.
fn sequence_end(v: &Vec<char>, i: usize) -> (r: Option<usize>)
    requires
        i < v@.len(),
    ensures
        match r {
            Some(end) => i + 2 <= end < v@.len() && style_sequence(v@.skip(i as int)) == Some(
                (v@.subrange(i + 2, end as int), v@.skip(end + 1)),
            ),
            None => style_sequence(v@.skip(i as int)) is None,
        },
{
    let n: usize = v.len();
    let ghost rest = v@.skip(i as int);
    if n - i >= 2 && v[i] == '\x1b' && v[i + 1] == '[' {
        assert(rest[0] == v@[i as int] && rest[1] == v@[i + 1]);
        let end: usize = index_of_char(v, 'm', i + 2);
        proof {
            lemma_char_from_in_suffix(v@, 'm', i as int, 2);
            lemma_char_from(v@, 'm', i + 2);
        }
        if end < n {
            assert(rest.subrange(2, end - i) == v@.subrange(i + 2, end as int));
            assert(rest.skip(end - i + 1) == v@.skip(end + 1));
            return Some(end);
        }
    } else {
        assert(rest.len() >= 2 ==> rest[0] == v@[i as int] && rest[1] == v@[i + 1]);
    }
    None
}

proof fn lemma_char_from_in_suffix(s: Seq<char>, c: char, i: int, k: int)
    requires
        0 <= i,
        0 <= k,
        i + k <= s.len(),
    ensures
        char_from(s.skip(i), c, k) == char_from(s, c, i + k) - i,
    decreases s.len() - i - k,
{
    if i + k < s.len() && s[i + k] != c {
        lemma_char_from_in_suffix(s, c, i, k + 1);
    }
}

/// Recognizes a style sequence at the start of `s` and returns its body and the
/// remainder.
pub fn split_sgr_code(s: &str) -> (r: Option<(String, String)>)
    ensures
        match r {
            Some((code, after)) => style_sequence(s@) == Some((code@, after@)),
            None => style_sequence(s@) is None,
        },
{
    let v = chars_of(s);
    if v.len() == 0 {
        return None;
    }
    assert(v@.skip(0) == v@);
    match sequence_end(&v, 0) {
        Some(end) => {
            let code = text_range(&v, 2, end);
            let after = text_range(&v, end + 1, v.len());
            assert(after@ == v@.skip(end + 1));
            Some((code, after))
        },
        None => None,
    }
}

/// The `i`-th parameter of a sequence, if it is there. One that is no number
/// counts as one that nothing knows.
pub open spec fn parameter(parts: Seq<Seq<char>>, i: int) -> Option<u32> {
    if 0 <= i < parts.len() {
        match number(parts[i], u32::MAX as nat) {
            Some(n) => Some(n as u32),
            None => Some(u32::MAX),
        }
    } else {
        None
    }
}

/// The colour that the parameters after the first name: by its parts or by its
/// number.
pub open spec fn extended_color(parts: Seq<Seq<char>>) -> Option<Color> {
    match (parameter(parts, 1), parameter(parts, 2), parameter(parts, 3), parameter(parts, 4)) {
        (Some(2), Some(r), Some(g), Some(b)) => if r <= 255 && g <= 255 && b <= 255 {
            Some(Color::Rgb(r as u8, g as u8, b as u8))
        } else {
            None
        },
        (Some(5), Some(n), _, _) => if n <= 255 {
            Some(Color::Indexed(n as u8))
        } else {
            None
        },
        _ => None,
    }
}

/// The style after a sequence with this body; one that is not known changes
/// nothing.
pub open spec fn sgr_style(style: Style, body: Seq<char>) -> Style {
    let parts = split(body, ';');
    match parameter(parts, 0) {
        Some(0) => plain(),
        Some(1) => Style { bold: true, ..style },
        Some(2) => Style { dim: true, ..style },
        Some(3) => Style { italic: true, ..style },
        Some(4) => Style { underlined: true, ..style },
        Some(31) => Style { fg: Some(Color::Red), ..style },
        Some(32) => Style { fg: Some(Color::Green), ..style },
        Some(33) => Style { fg: Some(Color::Yellow), ..style },
        Some(34) => Style { fg: Some(Color::Blue), ..style },
        Some(35) => Style { fg: Some(Color::Magenta), ..style },
        Some(36) => Style { fg: Some(Color::Cyan), ..style },
        Some(39) => Style { fg: Some(Color::Reset), ..style },
        Some(38) => match extended_color(parts) {
            Some(c) => Style { fg: Some(c), ..style },
            None => style,
        },
        Some(48) => match extended_color(parts) {
            Some(c) => Style { bg: Some(c), ..style },
            None => style,
        },
        Some(49) => Style { bg: Some(Color::Reset), ..style },
        _ => style,
    }
}

fn param(parts: &Vec<String>, i: usize) -> (r: Option<u32>)
    ensures
        r == parameter(views(parts@), i as int),
{
    if i < parts.len() {
        match parse_number(parts[i].as_str(), u32::MAX as u64) {
            Some(n) => Some(n as u32),
            None => Some(u32::MAX),
        }
    } else {
        None
    }
}

fn extended(parts: &Vec<String>) -> (r: Option<Color>)
    ensures
        r == extended_color(views(parts@)),
{
    match (param(parts, 1), param(parts, 2), param(parts, 3), param(parts, 4)) {
        (Some(2), Some(r), Some(g), Some(b)) => if r <= 255 && g <= 255 && b <= 255 {
            Some(Color::Rgb(r as u8, g as u8, b as u8))
        } else {
            None
        },
        (Some(5), Some(n), _, _) => if n <= 255 {
            Some(Color::Indexed(n as u8))
        } else {
            None
        },
        _ => None,
    }
}

/// Applies the parameters of one sequence to a style.
pub fn apply_sgr(style: Style, params: &str) -> (r: Style)
    ensures
        r == sgr_style(style, params@),
{
    let parts = split_at_char(params, ';');
    match param(&parts, 0) {
        Some(0) => Style::default(),
        Some(1) => Style { bold: true, ..style },
        Some(2) => Style { dim: true, ..style },
        Some(3) => Style { italic: true, ..style },
        Some(4) => Style { underlined: true, ..style },
        Some(31) => Style { fg: Some(Color::Red), ..style },
        Some(32) => Style { fg: Some(Color::Green), ..style },
        Some(33) => Style { fg: Some(Color::Yellow), ..style },
        Some(34) => Style { fg: Some(Color::Blue), ..style },
        Some(35) => Style { fg: Some(Color::Magenta), ..style },
        Some(36) => Style { fg: Some(Color::Cyan), ..style },
        Some(39) => Style { fg: Some(Color::Reset), ..style },
        Some(38) => match extended(&parts) {
            Some(c) => Style { fg: Some(c), ..style },
            None => style,
        },
        Some(48) => match extended(&parts) {
            Some(c) => Style { bg: Some(c), ..style },
            None => style,
        },
        Some(49) => Style { bg: Some(Color::Reset), ..style },
        _ => style,
    }
}

/// A text in a style, unless it is empty.
pub open spec fn span_of(content: Seq<char>, style: Style) -> Seq<SpanView> {
    if content.len() > 0 {
        seq![SpanView { content, style }]
    } else {
        Seq::empty()
    }
}

/// The styled texts of a line that starts in a style.
pub open spec fn styled_spans(s: Seq<char>, style: Style) -> Seq<SpanView>
    decreases s.len(),
{
    let k = char_from(s, escape(), 0);
    if k < 0 || k >= s.len() {
        span_of(s, style)
    } else {
        let head = span_of(s.take(k), style);
        match style_sequence(s.skip(k)) {
            Some((body, after)) => if after.len() < s.len() {
                head + styled_spans(after, sgr_style(style, body))
            } else {
                head
            },
            None => head + seq![SpanView { content: seq![escape()], style }] + styled_spans(
                s.skip(k + 1),
                style,
            ),
        }
    }
}

/// A line without its style sequences.
pub open spec fn unstyled(s: Seq<char>) -> Seq<char>
    decreases s.len(),
{
    let k = char_from(s, escape(), 0);
    if k < 0 || k >= s.len() {
        s
    } else {
        match style_sequence(s.skip(k)) {
            Some((body, after)) => if after.len() < s.len() {
                s.take(k) + unstyled(after)
            } else {
                s.take(k)
            },
            None => s.take(k) + seq![escape()] + unstyled(s.skip(k + 1)),
        }
    }
}

/// Parses embedded style sequences into a styled line.
pub fn ansi_to_line(line: &str) -> (r: Line)
    ensures
        r@ == styled_spans(line@, plain()),
{
    let v = chars_of(line);
    let n: usize = v.len();
    let mut spans: Vec<Span> = Vec::new();
    let mut style = Style::default();
    let mut i: usize = 0;
    assert(v@.skip(0) == v@);
    assert(views(spans@) + styled_spans(v@, plain()) =~= styled_spans(line@, plain()));
    loop
        invariant
            n == v@.len(),
            i <= n,
            views(spans@) + styled_spans(v@.skip(i as int), style) == styled_spans(
                line@,
                plain(),
            ),
        decreases n - i,
    {
        let ghost rest = v@.skip(i as int);
        let ghost before = views(spans@);
        let k: usize = index_of_char(&v, '\x1b', i);
        proof {
            lemma_char_from_in_suffix(v@, escape(), i as int, 0);
            lemma_char_from(v@, escape(), i as int);
        }
        if i < k {
            let content = text_range(&v, i, k);
            assert(content@ == rest.take(k - i));
            spans.push(Span { content, style });
        }
        assert(views(spans@) =~= before + span_of(rest.take(k - i), style));
        if k == n {
            assert(rest.take(k - i) == rest);
            return Line { spans };
        }
        assert(rest.skip(k - i) == v@.skip(k as int));
        let ghost head = views(spans@);
        match sequence_end(&v, k) {
            Some(end) => {
                let body = text_range(&v, k + 2, end);
                let next = apply_sgr(style, body.as_str());
                assert(before + (span_of(rest.take(k - i), style) + styled_spans(
                    v@.skip(end + 1),
                    next,
                )) =~= head + styled_spans(v@.skip(end + 1), next));
                style = next;
                i = end + 1;
            },
            None => {
                let content = text_range(&v, k, k + 1);
                assert(content@ =~= seq![escape()]);
                spans.push(Span { content, style });
                assert(rest.skip(k - i + 1) == v@.skip(k + 1));
                assert(before + (span_of(rest.take(k - i), style) + seq![
                    SpanView { content: seq![escape()], style },
                ] + styled_spans(v@.skip(k + 1), style)) =~= views(spans@) + styled_spans(
                    v@.skip(k + 1),
                    style,
                ));
                i = k + 1;
            },
        }
    }
}

/// Strips style sequences to plain text.
pub fn strip_ansi(s: &str) -> (r: String)
    ensures
        r@ == unstyled(s@),
{
    let v = chars_of(s);
    let n: usize = v.len();
    let mut out = String::new();
    let mut i: usize = 0;
    assert(v@.skip(0) == v@);
    assert(out@ + unstyled(v@) =~= unstyled(s@));
    loop
        invariant
            n == v@.len(),
            i <= n,
            out@ + unstyled(v@.skip(i as int)) == unstyled(s@),
        decreases n - i,
    {
        let ghost rest = v@.skip(i as int);
        let ghost before = out@;
        let k: usize = index_of_char(&v, '\x1b', i);
        proof {
            lemma_char_from_in_suffix(v@, escape(), i as int, 0);
            lemma_char_from(v@, escape(), i as int);
        }
        let content = text_range(&v, i, k);
        assert(content@ == rest.take(k - i));
        out.append(content.as_str());
        if k == n {
            assert(rest.take(k - i) == rest);
            return out;
        }
        assert(rest.skip(k - i) == v@.skip(k as int));
        match sequence_end(&v, k) {
            Some(end) => {
                assert(before + (rest.take(k - i) + unstyled(v@.skip(end + 1))) =~= out@
                    + unstyled(v@.skip(end + 1)));
                i = end + 1;
            },
            None => {
                let ghost mid = out@;
                out.push('\x1b');
                assert(rest.skip(k - i + 1) == v@.skip(k + 1));
                assert(before + (rest.take(k - i) + seq![escape()] + unstyled(v@.skip(k + 1)))
                    =~= out@ + unstyled(v@.skip(k + 1)));
                i = k + 1;
            },
        }
    }
}

/// The text of a line without its styles.
pub open spec fn line_text(spans: Seq<SpanView>) -> Seq<char>
    decreases spans.len(),
{
    if spans.len() == 0 {
        Seq::empty()
    } else {
        spans[0].content + line_text(spans.skip(1))
    }
}

proof fn lemma_line_text_add(a: Seq<SpanView>, b: Seq<SpanView>)
    ensures
        line_text(a + b) == line_text(a) + line_text(b),
    decreases a.len(),
{
    if a.len() == 0 {
        assert(a + b =~= b);
        assert(line_text(a) + line_text(b) =~= line_text(b));
    } else {
        assert((a + b).skip(1) =~= a.skip(1) + b);
        lemma_line_text_add(a.skip(1), b);
        assert(a[0].content + (line_text(a.skip(1)) + line_text(b)) =~= a[0].content + line_text(
            a.skip(1),
        ) + line_text(b));
    }
}

proof fn lemma_line_text_one(s: Seq<SpanView>)
    requires
        s.len() == 1,
    ensures
        line_text(s) == s[0].content,
{
    assert(s.skip(1).len() == 0);
    assert(line_text(s.skip(1)) =~= Seq::empty());
    assert(s[0].content + Seq::<char>::empty() =~= s[0].content);
}

proof fn lemma_span_text(content: Seq<char>, style: Style)
    ensures
        line_text(span_of(content, style)) == content,
{
    if content.len() > 0 {
        lemma_line_text_one(span_of(content, style));
    } else {
        assert(content =~= Seq::empty());
    }
}

/// No part of a style sequence leaks into the text of a line: it is what
/// stripping the sequences gives.
pub proof fn law_styled_text_is_stripped_text(s: Seq<char>, style: Style)
    ensures
        line_text(styled_spans(s, style)) == unstyled(s),
    decreases s.len(),
{
    let k = char_from(s, escape(), 0);
    lemma_char_from(s, escape(), 0);
    if k >= s.len() {
        lemma_span_text(s, style);
    } else {
        let head = span_of(s.take(k), style);
        lemma_span_text(s.take(k), style);
        match style_sequence(s.skip(k)) {
            Some((body, after)) => {
                lemma_char_from(s.skip(k), 'm', 2);
                law_styled_text_is_stripped_text(after, sgr_style(style, body));
                lemma_line_text_add(head, styled_spans(after, sgr_style(style, body)));
            },
            None => {
                let lone = seq![SpanView { content: seq![escape()], style }];
                law_styled_text_is_stripped_text(s.skip(k + 1), style);
                lemma_line_text_one(lone);
                lemma_line_text_add(head, lone);
                lemma_line_text_add(head + lone, styled_spans(s.skip(k + 1), style));
            },
        }
    }
}

/// A text without the escape character is one span in the style that it starts
/// in, and stripping leaves it as it is.
pub proof fn law_plain_text_is_kept(s: Seq<char>, style: Style)
    requires
        forall|i: int| 0 <= i < s.len() ==> s[i] != escape(),
    ensures
        styled_spans(s, style) == span_of(s, style),
        unstyled(s) == s,
{
    lemma_char_from(s, escape(), 0);
}

} // verus!
