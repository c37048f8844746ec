//! Making a transcript smaller without losing what still matters.
use vstd::prelude::*;

use crate::json::text_member;
use crate::message::{
    BlockView, ContentBlock, Message, MessageView, ToolResult, ToolResultContent,
    ToolResultContentView, ToolResultView,
};
use crate::model::{group_views, views};
use crate::text::{among, has_prefix, is_among, same, starts_with};

verus! {

broadcast use group_views;

/// The start of a collapsed result.
pub open spec fn stale_marker() -> Seq<char> {
    "(superseded by a later read_file of "@
}

/// The tool that reads files.
pub open spec fn read_tool() -> Seq<char> {
    "read_file"@
}

/// The call id and path of a `read_file` call.
pub open spec fn read_of(b: BlockView) -> Option<(Seq<char>, Seq<char>)> {
    match b {
        BlockView::ToolUse(c) => if c.name == read_tool() {
            match text_member(c.arguments, "path"@) {
                Some(path) => Some((c.id, path)),
                None => None,
            }
        } else {
            None
        },
        _ => None,
    }
}

/// The reads that some blocks ask for, in order.
pub open spec fn block_reads(blocks: Seq<BlockView>) -> Seq<(Seq<char>, Seq<char>)>
    decreases blocks.len(),
{
    if blocks.len() == 0 {
        Seq::empty()
    } else {
        let rest = block_reads(blocks.drop_last());
        match read_of(blocks.last()) {
            Some(r) => rest.push(r),
            None => rest,
        }
    }
}

/// The reads that a transcript asks for, in order.
pub open spec fn reads(ms: Seq<MessageView>) -> Seq<(Seq<char>, Seq<char>)>
    decreases ms.len(),
{
    if ms.len() == 0 {
        Seq::empty()
    } else {
        reads(ms.drop_last()) + block_reads(ms.last().content)
    }
}

/// The path that the last read with this call id asks for.
pub open spec fn path_for(rs: Seq<(Seq<char>, Seq<char>)>, id: Seq<char>) -> Option<Seq<char>>
    decreases rs.len(),
{
    if rs.len() == 0 {
        None
    } else if rs.last().0 == id {
        Some(rs.last().1)
    } else {
        path_for(rs.drop_last(), id)
    }
}

/// The path whose content a successful result carries.
pub open spec fn result_path(rs: Seq<(Seq<char>, Seq<char>)>, b: BlockView) -> Option<Seq<char>> {
    match b {
        BlockView::ToolResult(r) => if r.is_error {
            None
        } else {
            path_for(rs, r.tool_call_id)
        },
        _ => None,
    }
}

/// Whether there is a block `bi` in message `mi`.
pub open spec fn position(ms: Seq<MessageView>, mi: int, bi: int) -> bool {
    0 <= mi < ms.len() && 0 <= bi < ms[mi].content.len()
}

/// Whether the second position comes after the first.
pub open spec fn later(mi: int, bi: int, mj: int, bj: int) -> bool {
    mi < mj || (mi == mj && bi < bj)
}

/// Whether the block at a position carries the content of `path`.
pub open spec fn carries(ms: Seq<MessageView>, mi: int, bi: int, path: Seq<char>) -> bool {
    position(ms, mi, bi) && result_path(reads(ms), ms[mi].content[bi]) == Some(path)
}

/// Whether a block after the position carries the content of `path`.
pub open spec fn superseded(ms: Seq<MessageView>, mi: int, bi: int, path: Seq<char>) -> bool {
    exists|mj: int, bj: int| #[trigger] carries(ms, mj, bj, path) && later(mi, bi, mj, bj)
}

/// A result in which a pointer stands for the content.
pub open spec fn collapse(b: BlockView, path: Seq<char>) -> BlockView {
    match b {
        BlockView::ToolResult(r) => match r.content {
            ToolResultContentView::Text(t) => if starts_with(t, stale_marker()) {
                b
            } else {
                BlockView::ToolResult(
                    ToolResultView {
                        content: ToolResultContentView::Text(stale_marker() + path + ")"@),
                        ..r
                    },
                )
            },
            _ => b,
        },
        _ => b,
    }
}

/// The block at a position after stale reads are collapsed.
pub open spec fn dedup_block(ms: Seq<MessageView>, mi: int, bi: int) -> BlockView {
    let b = ms[mi].content[bi];
    match result_path(reads(ms), b) {
        Some(path) => if superseded(ms, mi, bi, path) {
            collapse(b, path)
        } else {
            b
        },
        None => b,
    }
}

/// The transcript in which, of the successful reads of a path, all but the
/// last are collapsed.
pub open spec fn dedup(ms: Seq<MessageView>) -> Seq<MessageView> {
    Seq::new(
        ms.len(),
        |mi: int|
            MessageView {
                content: Seq::new(ms[mi].content.len(), |bi: int| dedup_block(ms, mi, bi)),
                ..ms[mi]
            },
    )
}

/// A read that the transcript asks for.
struct Read {
    id: String,
    path: String,
}

spec fn read_views(v: Seq<Read>) -> Seq<(Seq<char>, Seq<char>)> {
    Seq::new(v.len(), |i: int| (v[i].id@, v[i].path@))
}

fn collect_reads(messages: &Vec<Message>) -> (r: Vec<Read>)
    ensures
        read_views(r@) == reads(views(messages@)),
{
    let mut r: Vec<Read> = Vec::new();
    let ghost all = views(messages@);
    assert(read_views(r@) =~= reads(all.take(0)));
    for i in 0..messages.len()
        invariant
            all == views(messages@),
            read_views(r@) == reads(all.take(i as int)),
    {
        let content = &messages[i].content;
        let ghost blocks = views(content@);
        let ghost before = read_views(r@);
        assert(before + block_reads(blocks.take(0)) =~= before);
        for j in 0..content.len()
            invariant
                blocks == views(content@),
                read_views(r@) == before + block_reads(blocks.take(j as int)),
        {
            assert(blocks.take(j + 1).drop_last() == blocks.take(j as int));
            let ghost so_far = read_views(r@);
            if let ContentBlock::ToolUse(c) = &content[j] {
                if same(c.name.as_str(), "read_file") {
                    if let Some(path) = c.arguments.get_text("path") {
                        r.push(Read { id: c.id.clone(), path: path.clone() });
                        assert(read_views(r@) =~= so_far.push((c.id@, path@)));
                    }
                }
            }
            assert(read_views(r@) =~= before + block_reads(blocks.take(j + 1)));
        }
        assert(blocks.take(blocks.len() as int) == blocks);
        assert(all.take(i + 1).drop_last() == all.take(i as int));
        assert(all.take(i + 1).last().content == blocks);
    }
    assert(all.take(all.len() as int) == all);
    r
}

fn find_path<'a>(rs: &'a Vec<Read>, id: &str) -> (r: Option<&'a String>)
    ensures
        match r {
            Some(p) => path_for(read_views(rs@), id@) == Some(p@),
            None => path_for(read_views(rs@), id@) is None,
        },
{
    let mut i: usize = rs.len();
    let ghost all = read_views(rs@);
    assert(all.take(all.len() as int) == all);
    while i > 0
        invariant
            all == read_views(rs@),
            i <= rs@.len(),
            path_for(all, id@) == path_for(all.take(i as int), id@),
        decreases i,
    {
        assert(all.take(i as int).drop_last() == all.take(i - 1));
        if same(rs[i - 1].id.as_str(), id) {
            return Some(&rs[i - 1].path);
        }
        i -= 1;
    }
    None
}

fn set_block(messages: &mut Vec<Message>, mi: usize, bi: usize, block: ContentBlock)
    requires
        mi < old(messages)@.len(),
        bi < old(messages)@[mi as int].content@.len(),
    ensures
        views(final(messages)@) == views(old(messages)@).update(
            mi as int,
            MessageView {
                content: views(old(messages)@)[mi as int].content.update(bi as int, block@),
                ..views(old(messages)@)[mi as int]
            },
        ),
{
    messages[mi].content[bi] = block;
    assert(views(messages@) =~= views(old(messages)@).update(
        mi as int,
        MessageView {
            content: views(old(messages)@)[mi as int].content.update(bi as int, block@),
            ..views(old(messages)@)[mi as int]
        },
    ));
}

/// Whether a block at or after the position carries the content of `path`.
spec fn seen_from(ms: Seq<MessageView>, mi: int, bi: int, path: Seq<char>) -> bool {
    exists|mj: int, bj: int| #[trigger] carries(ms, mj, bj, path) && !later(mj, bj, mi, bi)
}

/// The transcript of which the blocks from a position on are treated.
spec fn half_done(orig: Seq<MessageView>, cur: Seq<MessageView>, mi: int, bi: int) -> bool {
    &&& cur.len() == orig.len()
    &&& forall|i: int|
        0 <= i < orig.len() ==> (#[trigger] cur[i]).role == orig[i].role && cur[i].metadata
            == orig[i].metadata && cur[i].content.len() == orig[i].content.len()
    &&& forall|i: int, j: int|
        #![trigger cur[i].content[j]]
        position(orig, i, j) ==> cur[i].content[j] == if later(i, j, mi, bi) {
            orig[i].content[j]
        } else {
            dedup_block(orig, i, j)
        }
}

/// What comes after a position is what comes from the next one on.
proof fn lemma_superseded_is_seen(ms: Seq<MessageView>, mi: int, bi: int, p: Seq<char>)
    ensures
        superseded(ms, mi, bi, p) == seen_from(ms, mi, bi + 1, p),
{
    if superseded(ms, mi, bi, p) {
        let (mj, bj) = choose|mj: int, bj: int| #[trigger]
            carries(ms, mj, bj, p) && later(mi, bi, mj, bj);
        assert(carries(ms, mj, bj, p) && !later(mj, bj, mi, bi + 1));
    }
    if seen_from(ms, mi, bi + 1, p) {
        let (mj, bj) = choose|mj: int, bj: int| #[trigger]
            carries(ms, mj, bj, p) && !later(mj, bj, mi, bi + 1);
        assert(carries(ms, mj, bj, p) && later(mi, bi, mj, bj));
    }
}

/// What is seen from a position on is what stands there or is seen after it.
proof fn lemma_seen_step(ms: Seq<MessageView>, mi: int, bi: int, p: Seq<char>)
    ensures
        seen_from(ms, mi, bi, p) == (carries(ms, mi, bi, p) || seen_from(ms, mi, bi + 1, p)),
{
    if seen_from(ms, mi, bi, p) {
        let (mj, bj) = choose|mj: int, bj: int| #[trigger]
            carries(ms, mj, bj, p) && !later(mj, bj, mi, bi);
        if !(mj == mi && bj == bi) {
            assert(carries(ms, mj, bj, p) && !later(mj, bj, mi, bi + 1));
        }
    }
    if seen_from(ms, mi, bi + 1, p) {
        let (mj, bj) = choose|mj: int, bj: int| #[trigger]
            carries(ms, mj, bj, p) && !later(mj, bj, mi, bi + 1);
        assert(carries(ms, mj, bj, p) && !later(mj, bj, mi, bi));
    }
    if carries(ms, mi, bi, p) {
        assert(!later(mi, bi, mi, bi));
    }
}

/// Membership in a list that grew by at most one entry.
proof fn lemma_among_push(before: Seq<Seq<char>>, after: Seq<Seq<char>>, p: Seq<char>)
    requires
        after == before || exists|x: Seq<char>| after == #[trigger] before.push(x),
    ensures
        after.len() == before.len() ==> among(p, after) == among(p, before),
        after.len() > before.len() ==> among(p, after) == (among(p, before) || after.last() == p),
{
    if after.len() > before.len() {
        if among(p, before) {
            let i = choose|i: int| 0 <= i < before.len() && #[trigger] before[i] == p;
            assert(after[i] == p);
        }
        if among(p, after) {
            let i = choose|i: int| 0 <= i < after.len() && #[trigger] after[i] == p;
            if i < before.len() {
                assert(before[i] == p);
            }
        }
        if after.last() == p {
            assert(after[after.len() - 1] == p);
        }
    }
}

/// Collapses every `read_file` result but the most recent one per path into a
/// short pointer.
pub fn dedup_stale_reads(messages: &mut Vec<Message>)
    ensures
        views(final(messages)@) == dedup(views(old(messages)@)),
{
    let ghost orig = views(messages@);
    let rs = collect_reads(messages);
    let mut seen: Vec<String> = Vec::new();
    let mut mi: usize = messages.len();
    assert forall|p: Seq<char>| #[trigger] among(p, views(seen@)) == seen_from(
        orig,
        mi as int,
        0,
        p,
    ) by {}
    while mi > 0
        invariant
            mi <= orig.len(),
            read_views(rs@) == reads(orig),
            half_done(orig, views(messages@), mi as int, 0),
            forall|p: Seq<char>| #[trigger]
                among(p, views(seen@)) == seen_from(orig, mi as int, 0, p),
        decreases mi,
    {
        mi -= 1;
        let mut bi: usize = messages[mi].content.len();
        assert(views(messages@)[mi as int].content.len() == orig[mi as int].content.len());
        assert forall|p: Seq<char>| #[trigger] among(p, views(seen@)) == seen_from(
            orig,
            mi as int,
            bi as int,
            p,
        ) by {
            if seen_from(orig, mi + 1, 0, p) {
                let (mj, bj) = choose|mj: int, bj: int| #[trigger]
                    carries(orig, mj, bj, p) && !later(mj, bj, mi + 1, 0);
                assert(carries(orig, mj, bj, p) && !later(mj, bj, mi as int, bi as int));
            }
            if seen_from(orig, mi as int, bi as int, p) {
                let (mj, bj) = choose|mj: int, bj: int| #[trigger]
                    carries(orig, mj, bj, p) && !later(mj, bj, mi as int, bi as int);
                assert(carries(orig, mj, bj, p) && !later(mj, bj, mi + 1, 0));
            }
        }
        while bi > 0
            invariant
                mi < orig.len(),
                bi <= orig[mi as int].content.len(),
                read_views(rs@) == reads(orig),
                half_done(orig, views(messages@), mi as int, bi as int),
                forall|p: Seq<char>| #[trigger]
                    among(p, views(seen@)) == seen_from(orig, mi as int, bi as int, p),
            decreases bi,
        {
            bi -= 1;
            let ghost cur = views(messages@);
            let ghost b = orig[mi as int].content[bi as int];
            assert(cur[mi as int].content[bi as int] == b);
            assert(messages@[mi as int].content@.len() == orig[mi as int].content.len());
            assert(messages@[mi as int].content@[bi as int]@ == b);
            let mut replaced: Option<ContentBlock> = None;
            let mut fresh: Option<String> = None;
            if let ContentBlock::ToolResult(result) = &messages[mi].content[bi] {
                if !result.is_error {
                    if let Some(path) = find_path(&rs, result.tool_call_id.as_str()) {
                        assert(carries(orig, mi as int, bi as int, path@));
                        let known = is_among(path.as_str(), &seen);
                        proof {
                            lemma_superseded_is_seen(orig, mi as int, bi as int, path@);
                        }
                        assert(known == superseded(orig, mi as int, bi as int, path@));
                        if known {
                            if let ToolResultContent::Text(text) = &result.content {
                                if !has_prefix(
                                    text.as_str(),
                                    "(superseded by a later read_file of ",
                                ) {
                                    let mut pointer =
                                        "(superseded by a later read_file of ".to_owned();
                                    pointer.append(path.as_str());
                                    pointer.append(")");
                                    replaced = Some(
                                        ContentBlock::ToolResult(
                                            ToolResult {
                                                tool_call_id: result.tool_call_id.clone(),
                                                content: ToolResultContent::Text(pointer),
                                                is_error: result.is_error,
                                            },
                                        ),
                                    );
                                }
                            }
                        } else {
                            fresh = Some(path.clone());
                        }
                    }
                }
            }
            assert(match replaced {
                Some(x) => x@ == dedup_block(orig, mi as int, bi as int),
                None => b == dedup_block(orig, mi as int, bi as int),
            });
            if let Some(block) = replaced {
                set_block(messages, mi, bi, block);
            }
            assert(half_done(orig, views(messages@), mi as int, bi as int));
            let ghost before = views(seen@);
            if let Some(path) = fresh {
                seen.push(path);
            }
            assert forall|p: Seq<char>| #[trigger] among(p, views(seen@)) == seen_from(
                orig,
                mi as int,
                bi as int,
                p,
            ) by {
                lemma_seen_step(orig, mi as int, bi as int, p);
                lemma_among_push(before, views(seen@), p);
            }
        }
    }
    assert(views(messages@) =~= dedup(orig)) by {
        let cur = views(messages@);
        assert forall|i: int| 0 <= i < orig.len() implies #[trigger] cur[i] == dedup(orig)[i] by {
            assert(cur[i].content =~= dedup(orig)[i].content);
        }
    }
}

// ---------------------------------------------------------------------------
// Laws
// ---------------------------------------------------------------------------

proof fn lemma_block_reads_agree(a: Seq<BlockView>, b: Seq<BlockView>)
    requires
        a.len() == b.len(),
        forall|j: int| 0 <= j < a.len() ==> read_of(#[trigger] a[j]) == read_of(b[j]),
    ensures
        block_reads(a) == block_reads(b),
    decreases a.len(),
{
    if a.len() > 0 {
        assert forall|j: int| 0 <= j < a.len() - 1 implies read_of(#[trigger] a.drop_last()[j])
            == read_of(b.drop_last()[j]) by {
            assert(read_of(a[j]) == read_of(b[j]));
        }
        lemma_block_reads_agree(a.drop_last(), b.drop_last());
        assert(read_of(a[a.len() - 1]) == read_of(b[b.len() - 1]));
    }
}

proof fn lemma_reads_agree(a: Seq<MessageView>, b: Seq<MessageView>)
    requires
        a.len() == b.len(),
        forall|i: int|
            0 <= i < a.len() ==> block_reads((#[trigger] a[i]).content) == block_reads(
                b[i].content,
            ),
    ensures
        reads(a) == reads(b),
    decreases a.len(),
{
    if a.len() > 0 {
        assert forall|i: int| 0 <= i < a.len() - 1 implies block_reads(
            (#[trigger] a.drop_last()[i]).content,
        ) == block_reads(b.drop_last()[i].content) by {
            assert(block_reads(a[i].content) == block_reads(b[i].content));
        }
        lemma_reads_agree(a.drop_last(), b.drop_last());
        assert(block_reads(a[a.len() - 1].content) == block_reads(b[b.len() - 1].content));
    }
}

/// Collapsing changes no read that the transcript asks for.
proof fn lemma_dedup_keeps_reads(ms: Seq<MessageView>)
    ensures
        reads(dedup(ms)) == reads(ms),
{
    assert forall|i: int| 0 <= i < ms.len() implies block_reads((#[trigger] dedup(ms)[i]).content)
        == block_reads(ms[i].content) by {
        assert forall|j: int| 0 <= j < ms[i].content.len() implies read_of(
            #[trigger] dedup(ms)[i].content[j],
        ) == read_of(ms[i].content[j]) by {}
        lemma_block_reads_agree(dedup(ms)[i].content, ms[i].content);
    }
    lemma_reads_agree(dedup(ms), ms);
}

/// Collapsing changes for no path where its content is carried.
proof fn lemma_dedup_keeps_carries(ms: Seq<MessageView>, mi: int, bi: int, path: Seq<char>)
    ensures
        carries(dedup(ms), mi, bi, path) == carries(ms, mi, bi, path),
{
    lemma_dedup_keeps_reads(ms);
    if position(ms, mi, bi) {
        assert(dedup(ms)[mi].content[bi] == dedup_block(ms, mi, bi));
    }
}

/// Collapsing twice is collapsing once.
pub proof fn law_dedup_is_idempotent(ms: Seq<MessageView>)
    ensures
        dedup(dedup(ms)) == dedup(ms),
{
    let ds = dedup(ms);
    lemma_dedup_keeps_reads(ms);
    assert forall|mi: int| 0 <= mi < ms.len() implies #[trigger] dedup(ds)[mi] == ds[mi] by {
        assert forall|bi: int| 0 <= bi < ms[mi].content.len() implies #[trigger] dedup_block(
            ds,
            mi,
            bi,
        ) == ds[mi].content[bi] by {
            let b = ms[mi].content[bi];
            assert(ds[mi].content[bi] == dedup_block(ms, mi, bi));
            if let Some(path) = result_path(reads(ms), b) {
                assert(result_path(reads(ds), ds[mi].content[bi]) == Some(path));
                assert(superseded(ds, mi, bi, path) == superseded(ms, mi, bi, path)) by {
                    if superseded(ms, mi, bi, path) {
                        let (mj, bj) = choose|mj: int, bj: int| #[trigger]
                            carries(ms, mj, bj, path) && later(mi, bi, mj, bj);
                        lemma_dedup_keeps_carries(ms, mj, bj, path);
                    }
                    if superseded(ds, mi, bi, path) {
                        let (mj, bj) = choose|mj: int, bj: int| #[trigger]
                            carries(ds, mj, bj, path) && later(mi, bi, mj, bj);
                        lemma_dedup_keeps_carries(ms, mj, bj, path);
                    }
                }
                let pointer = stale_marker() + path + ")"@;
                assert(pointer.take(stale_marker().len() as int) =~= stale_marker());
            }
        }
        assert(dedup(ds)[mi].content =~= ds[mi].content);
    }
    assert(dedup(ds) =~= ds);
}

/// The last successful read of a path keeps its content, and so does
/// everything that is no successful read.
pub proof fn law_latest_read_is_kept(ms: Seq<MessageView>, mi: int, bi: int)
    requires
        position(ms, mi, bi),
        match result_path(reads(ms), ms[mi].content[bi]) {
            Some(path) => !superseded(ms, mi, bi, path),
            None => true,
        },
    ensures
        dedup(ms)[mi].content[bi] == ms[mi].content[bi],
{
}

} // verus!
