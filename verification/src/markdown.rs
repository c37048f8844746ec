//! Markdown for the terminal.
use vstd::prelude::*;

use crate::model::{group_views, opt_view, views};
use crate::reporter::RESET;
use crate::text::{chars_of, ends_with, has_suffix, join, joined, lines, lines_of, text_range};

verus! {

broadcast use group_views;

/// A part of a markdown text, as far as it matters here.
pub enum MdNode {
    /// Code, with the lines at which it starts and ends, counted from one.
    Code { fence: bool, lang: Option<String>, position: Option<(usize, usize)> },
    Other,
}

#[verifier::ext_equal]
pub enum MdNodeView {
    Code { fence: bool, lang: Option<Seq<char>>, position: Option<(usize, usize)> },
    Other,
}

impl View for MdNode {
    type V = MdNodeView;

    open spec fn view(&self) -> MdNodeView {
        match self {
            MdNode::Code { fence, lang, position } => MdNodeView::Code {
                fence: *fence,
                lang: opt_view(*lang),
                position: *position,
            },
            MdNode::Other => MdNodeView::Other,
        }
    }
}

/// The views of some lines, of which some may be missing.
pub open spec fn line_views(v: Seq<Option<String>>) -> Seq<Option<Seq<char>>> {
    Seq::new(v.len(), |i: int| opt_view(v[i]))
}

/// The parts that `mq_markdown::Markdown` finds in a text, if it can read it.
pub uninterp spec fn markdown_nodes(text: Seq<char>) -> Option<Seq<MdNodeView>>;

/// The text that `mq_markdown::Markdown` gives of a text with the colors of its
/// `COLORED` theme, but with these two texts around code, if it can read it.
pub uninterp spec fn colored_markdown(
    text: Seq<char>,
    code_open: Seq<char>,
    code_close: Seq<char>,
) -> Option<Seq<char>>;

/// The lines of code in a language, with the colors that `syntect` gives them in
/// a theme: none for a language or a theme that it does not know, and none for a
/// line that it cannot handle.
pub uninterp spec fn highlighted_code(
    theme: Seq<char>,
    lang: Seq<char>,
    code: Seq<Seq<char>>,
) -> Option<Seq<Option<Seq<char>>>>;

/// The theme in which code is shown.
pub const CODE_THEME: &'static str = "Monokai Extended";

/// `mq_markdown::Markdown::from_markdown_str`: its nodes, each as what is
/// needed of it. The text alone decides them.
#[verifier::external_body]
fn parse_markdown(text: &str) -> (r: Option<Vec<MdNode>>)
    ensures
        match r {
            Some(nodes) => markdown_nodes(text@) == Some(views(nodes@)),
            None => markdown_nodes(text@) is None,
        },
{
    let md = mq_markdown::Markdown::from_markdown_str(text).ok()?;
    let node = |n| match n {
        mq_markdown::Node::Code(c) => MdNode::Code {
            fence: c.fence,
            lang: c.lang,
            position: c.position.map(|p| (p.start.line, p.end.line)),
        },
        _ => MdNode::Other,
    };
    Some(md.nodes.into_iter().map(node).collect())
}

/// `mq_markdown::Markdown::from_markdown_str` and
/// `to_colored_string_with_theme`. The arguments alone decide the text.
#[verifier::external_body]
fn color_markdown(text: &str, code_open: &str, code_close: &str) -> (r: Option<String>)
    ensures
        opt_view(r) == colored_markdown(text@, code_open@, code_close@),
{
    let md = mq_markdown::Markdown::from_markdown_str(text).ok()?;
    let mut theme = mq_markdown::ColorTheme::COLORED;
    theme.code = (code_open.to_owned().into(), code_close.to_owned().into());
    Some(md.to_colored_string_with_theme(&theme))
}

/// `find_syntax_by_token` in the syntaxes of `two_face::syntax::extra_newlines`,
/// and `HighlightLines::highlight_line` of `syntect` for one line after the
/// other, with the theme of that name in `two_face::theme::extra`, as 24-bit
/// colors. The arguments alone decide the result, which has an entry for each
/// line.
#[verifier::external_body]
fn highlight_code(theme: &str, lang: &str, code: &Vec<String>) -> (r: Option<Vec<Option<String>>>)
    ensures
        match r {
            Some(v) => highlighted_code(theme@, lang@, views(code@)) == Some(line_views(v@))
                && v@.len() == code@.len(),
            None => highlighted_code(theme@, lang@, views(code@)) is None,
        },
{
    let set = two_face::syntax::extra_newlines();
    let themes = two_face::theme::LazyThemeSet::from(two_face::theme::extra());
    let theme = themes.get(theme)?;
    let syntax = set.find_syntax_by_token(lang)?;
    let mut lines = two_face::re_exports::syntect::easy::HighlightLines::new(syntax, theme);
    let highlight = |line: &String| {
        let parts = lines.highlight_line(line, &set).ok()?;
        Some(two_face::re_exports::syntect::util::as_24_bit_terminal_escaped(&parts, false))
    };
    Some(code.iter().map(highlight).collect())
}

/// A line as it is handed to the highlighter.
pub open spec fn ended(line: Seq<char>) -> Seq<char> {
    line.push('\n')
}

/// Some lines as they are handed to the highlighter.
pub open spec fn all_ended(ls: Seq<Seq<char>>) -> Seq<Seq<char>> {
    Seq::new(ls.len(), |i: int| ended(ls[i]))
}

/// A highlighted line: without the line end that was added, and with its colors
/// ended.
pub open spec fn finished(h: Seq<char>) -> Seq<char> {
    (if h.len() > 0 && h.last() == '\n' {
        h.drop_last()
    } else {
        h
    }) + RESET@
}

/// The lines between the fences of a block, if there are any.
pub open spec fn body_range(n: nat, position: Option<(usize, usize)>) -> Option<(int, int)> {
    match position {
        None => None,
        Some((start, end)) => {
            let last = if end == 0 {
                0
            } else {
                end - 1
            };
            if start >= last || last > n {
                None
            } else {
                Some((start as int, last))
            }
        },
    }
}

/// The lines of a body with the highlighted ones in place.
pub open spec fn overlaid(
    ls: Seq<Seq<char>>,
    from: int,
    to: int,
    h: Seq<Option<Seq<char>>>,
) -> Seq<Seq<char>> {
    Seq::new(
        ls.len(),
        |i: int|
            if from <= i < to && h[i - from] is Some {
                finished(h[i - from].unwrap())
            } else {
                ls[i]
            },
    )
}

/// The lines with one block highlighted: one with fences, in a language that is
/// known.
pub open spec fn with_block(ls: Seq<Seq<char>>, node: MdNodeView) -> Seq<Seq<char>> {
    match node {
        MdNodeView::Code { fence: true, lang: Some(lang), position } => match body_range(
            ls.len(),
            position,
        ) {
            Some((from, to)) => match highlighted_code(
                CODE_THEME@,
                lang,
                all_ended(ls.subrange(from, to)),
            ) {
                Some(h) => overlaid(ls, from, to, h),
                None => ls,
            },
            None => ls,
        },
        _ => ls,
    }
}

/// The lines with all blocks highlighted.
pub open spec fn with_blocks(ls: Seq<Seq<char>>, nodes: Seq<MdNodeView>) -> Seq<Seq<char>>
    decreases nodes.len(),
{
    if nodes.len() == 0 {
        ls
    } else {
        with_block(with_blocks(ls, nodes.drop_last()), nodes.last())
    }
}

/// The text with all blocks highlighted.
pub open spec fn with_code(text: Seq<char>, nodes: Seq<MdNodeView>) -> Seq<char> {
    let out = join(with_blocks(lines(text), nodes), "\n"@);
    if ends_with(text, "\n"@) {
        out.push('\n')
    } else {
        out
    }
}

/// A text as it is shown.
pub open spec fn rendered(text: Seq<char>, color: bool) -> Seq<char> {
    if !color {
        text
    } else {
        match markdown_nodes(text) {
            None => text,
            Some(nodes) => match colored_markdown(
                with_code(text, nodes),
                Seq::empty(),
                Seq::empty(),
            ) {
                Some(s) => s,
                None => text,
            },
        }
    }
}

/// A highlighted line, finished.
pub fn finish_line(h: &str) -> (r: String)
    ensures
        r@ == finished(h@),
{
    let v = chars_of(h);
    let n: usize = v.len();
    let mut r = if n > 0 && v[n - 1] == '\n' {
        assert(v@.subrange(0, n - 1) == v@.drop_last());
        text_range(&v, 0, n - 1)
    } else {
        h.to_owned()
    };
    r.append(RESET);
    r
}

/// Puts highlighted lines in place.
pub fn overlay(ls: &mut Vec<String>, from: usize, h: &Vec<Option<String>>)
    requires
        from + h@.len() <= old(ls)@.len(),
    ensures
        views(final(ls)@) == overlaid(
            views(old(ls)@),
            from as int,
            from + h@.len(),
            line_views(h@),
        ),
{
    let ghost all = views(ls@);
    let ghost hv = line_views(h@);
    let n: usize = ls.len();
    assert(overlaid(all, from as int, from as int, hv) =~= all);
    for i in 0..h.len()
        invariant
            n == ls@.len() == all.len(),
            from + h@.len() <= n,
            hv == line_views(h@),
            views(ls@) == overlaid(all, from as int, from + i, hv),
    {
        let ghost before = overlaid(all, from as int, from + i, hv);
        let ghost after = overlaid(all, from as int, from + i + 1, hv);
        assert(hv[i as int] == opt_view(h@[i as int]));
        if let Some(line) = &h[i] {
            ls[from + i] = finish_line(line.as_str());
            assert(after =~= before.update(from + i, finished(line@)));
        } else {
            assert(after =~= before);
        }
    }
}

fn with_ends(ls: &Vec<String>, from: usize, to: usize) -> (r: Vec<String>)
    requires
        from <= to <= ls@.len(),
    ensures
        views(r@) == all_ended(views(ls@).subrange(from as int, to as int)),
{
    let ghost wanted = all_ended(views(ls@).subrange(from as int, to as int));
    let mut r: Vec<String> = Vec::new();
    assert(wanted.take(0) =~= views(r@));
    for i in from..to
        invariant
            from <= to <= ls@.len(),
            wanted == all_ended(views(ls@).subrange(from as int, to as int)),
            views(r@) == wanted.take(i - from),
    {
        let mut line = ls[i].clone();
        line.push('\n');
        r.push(line);
        assert(wanted.take(i - from + 1) =~= wanted.take(i - from).push(wanted[i - from]));
    }
    assert(wanted.take(wanted.len() as int) == wanted);
    r
}

fn highlight_block(ls: &mut Vec<String>, node: &MdNode)
    ensures
        views(final(ls)@) == with_block(views(old(ls)@), node@),
{
    let n: usize = ls.len();
    if let MdNode::Code { fence, lang, position } = node {
        if !*fence {
            return;
        }
        let lang = match lang {
            Some(l) => l,
            None => {
                return;
            },
        };
        let (start, end) = match position {
            Some((s, e)) => (*s, *e),
            None => {
                return;
            },
        };
        let last: usize = if end == 0 {
            0
        } else {
            end - 1
        };
        if start >= last || last > n {
            return;
        }
        let body = with_ends(ls, start, last);
        assert(views(body@).len() == last - start);
        if let Some(h) = highlight_code(CODE_THEME, lang.as_str(), &body) {
            overlay(ls, start, &h);
        }
    }
}

/// The text with the code between fences highlighted.
pub fn highlight_code_blocks(text: &str, nodes: &Vec<MdNode>) -> (r: String)
    ensures
        r@ == with_code(text@, views(nodes@)),
{
    let mut ls = lines_of(text);
    let ghost first = views(ls@);
    let ghost all = views(nodes@);
    for i in 0..nodes.len()
        invariant
            all == views(nodes@),
            views(ls@) == with_blocks(first, all.take(i as int)),
    {
        assert(all.take(i + 1).drop_last() == all.take(i as int));
        highlight_block(&mut ls, &nodes[i]);
    }
    assert(all.take(all.len() as int) == all);
    let mut out = joined(&ls, "\n");
    if has_suffix(text, "\n") {
        out.push('\n');
    }
    out
}

/// A text as it is shown. Without color, or where it cannot be read as
/// markdown, it stays as it is.
pub fn render(text: &str, color: bool) -> (r: String)
    ensures
        r@ == rendered(text@, color),
{
    if !color {
        return text.to_owned();
    }
    let nodes = match parse_markdown(text) {
        Some(nodes) => nodes,
        None => {
            return text.to_owned();
        },
    };
    let prepared = highlight_code_blocks(text, &nodes);
    proof {
        reveal_strlit("");
        assert(""@ =~= Seq::<char>::empty());
    }
    match color_markdown(prepared.as_str(), "", "") {
        Some(s) => s,
        None => text.to_owned(),
    }
}

/// Whether a line stands in the body of a block that can be highlighted.
pub open spec fn in_code(n: nat, nodes: Seq<MdNodeView>, i: int) -> bool {
    exists|k: int|
        0 <= k < nodes.len() && ((#[trigger] nodes[k]) matches MdNodeView::Code {
            fence: true,
            position,
            ..
        } && (body_range(n, position) matches Some((from, to)) && from <= i < to))
}

/// Highlighting keeps one line for each line, and leaves all lines outside the
/// bodies of code blocks as they are, the fences among them.
pub proof fn law_highlighting_keeps_other_lines(ls: Seq<Seq<char>>, nodes: Seq<MdNodeView>)
    ensures
        with_blocks(ls, nodes).len() == ls.len(),
        forall|i: int|
            0 <= i < ls.len() && !in_code(ls.len(), nodes, i) ==> #[trigger] with_blocks(
                ls,
                nodes,
            )[i] == ls[i],
    decreases nodes.len(),
{
    if nodes.len() > 0 {
        let front = nodes.drop_last();
        law_highlighting_keeps_other_lines(ls, front);
        let before = with_blocks(ls, front);
        assert forall|i: int|
            0 <= i < ls.len() && !in_code(ls.len(), nodes, i) implies #[trigger] with_blocks(
            ls,
            nodes,
        )[i] == ls[i] by {
            if in_code(ls.len(), front, i) {
                let k = choose|k: int|
                    0 <= k < front.len() && ((#[trigger] front[k]) matches MdNodeView::Code {
                        fence: true,
                        position,
                        ..
                    } && (body_range(ls.len(), position) matches Some((from, to)) && from <= i
                        < to));
                assert(nodes[k] == front[k]);
            }
            assert(nodes[nodes.len() - 1] == nodes.last());
            assert(before[i] == ls[i]);
        }
    }
}

} // verus!
