//! Which reads of a file are replaced by a pointer to a later one.
use vstd::prelude::*;

use crate::compaction::{block_reads, carries, dedup, later, path_for, position, reads, superseded};
use crate::json::{member, JsonTree};
use crate::message::{BlockView, MessageView, ToolResultContentView};
use crate::text::starts_with;

verus! {

/// Whether a block is the call with this id, and asks to read this path.
pub open spec fn asks(b: BlockView, id: Seq<char>, path: Seq<char>) -> bool {
    b matches BlockView::ToolUse(c) && c.name == "read_file"@ && c.id == id && member(
        c.arguments,
        "path"@,
    ) == Some(JsonTree::Str(path))
}

/// Whether some call with this id asks to read this path.
pub open spec fn asked(ms: Seq<MessageView>, id: Seq<char>, path: Seq<char>) -> bool {
    exists|mi: int, bi: int|
        0 <= mi < ms.len() && 0 <= bi < ms[mi].content.len() && asks(
            #[trigger] ms[mi].content[bi],
            id,
            path,
        )
}

/// Whether the last read with this id asks for this path.
pub open spec fn asked_last(ms: Seq<MessageView>, id: Seq<char>, path: Seq<char>) -> bool {
    exists|mi: int, bi: int|
        position(ms, mi, bi) && asks(#[trigger] ms[mi].content[bi], id, path) && none_later(
            ms,
            mi,
            bi,
            id,
        )
}

/// Whether no block behind this one asks for a read with this id.
pub open spec fn none_later(ms: Seq<MessageView>, mi: int, bi: int, id: Seq<char>) -> bool {
    forall|mj: int, bj: int, q: Seq<char>|
        position(ms, mj, bj) && (mi < mj || (mi == mj && bi < bj)) ==> !#[trigger] asks(
            ms[mj].content[bj],
            id,
            q,
        )
}

/// Whether a block is a successful result of the call with this id.
pub open spec fn succeeded(b: BlockView, id: Seq<char>) -> bool {
    b matches BlockView::ToolResult(r) && !r.is_error && r.tool_call_id == id
}

proof fn lemma_block_reads(blocks: Seq<BlockView>, id: Seq<char>, path: Seq<char>)
    ensures
        block_reads(blocks).contains((id, path)) <==> exists|bi: int|
            0 <= bi < blocks.len() && asks(#[trigger] blocks[bi], id, path),
    decreases blocks.len(),
{
    if blocks.len() > 0 {
        let front = blocks.drop_last();
        let rest = block_reads(front);
        lemma_block_reads(front, id, path);
        if asks(blocks.last(), id, path) {
            assert(block_reads(blocks)[rest.len() as int] == (id, path));
            assert(asks(blocks[blocks.len() - 1], id, path));
        } else if rest.contains((id, path)) {
            let k = choose|k: int| 0 <= k < rest.len() && rest[k] == (id, path);
            assert(block_reads(blocks)[k] == (id, path));
            let bi = choose|bi: int|
                0 <= bi < front.len() && asks(#[trigger] front[bi], id, path);
            assert(asks(blocks[bi], id, path));
        } else {
            if block_reads(blocks).contains((id, path)) {
                let k = choose|k: int|
                    0 <= k < block_reads(blocks).len() && block_reads(blocks)[k] == (id, path);
                if k < rest.len() {
                    assert(rest[k] == (id, path));
                }
                assert(false);
            }
            assert forall|bi: int| 0 <= bi < blocks.len() implies !asks(
                #[trigger] blocks[bi],
                id,
                path,
            ) by {
                if bi < front.len() {
                    assert(blocks[bi] == front[bi]);
                }
            }
        }
    }
}

proof fn lemma_reads(ms: Seq<MessageView>, id: Seq<char>, path: Seq<char>)
    ensures
        reads(ms).contains((id, path)) <==> asked(ms, id, path),
    decreases ms.len(),
{
    if ms.len() > 0 {
        let front = ms.drop_last();
        let a = reads(front);
        let b = block_reads(ms.last().content);
        lemma_reads(front, id, path);
        lemma_block_reads(ms.last().content, id, path);
        if asked(ms, id, path) {
            let (mi, bi) = choose|mi: int, bi: int|
                0 <= mi < ms.len() && 0 <= bi < ms[mi].content.len() && asks(
                    #[trigger] ms[mi].content[bi],
                    id,
                    path,
                );
            if mi < front.len() {
                assert(asks(front[mi].content[bi], id, path));
                let k = choose|k: int| 0 <= k < a.len() && a[k] == (id, path);
                assert((a + b)[k] == (id, path));
            } else {
                assert(asks(ms.last().content[bi], id, path));
                let k = choose|k: int| 0 <= k < b.len() && b[k] == (id, path);
                assert((a + b)[a.len() + k] == (id, path));
            }
        }
        if (a + b).contains((id, path)) {
            let k = choose|k: int| 0 <= k < (a + b).len() && (a + b)[k] == (id, path);
            if k < a.len() {
                assert(a[k] == (id, path));
                let (mi, bi) = choose|mi: int, bi: int|
                    0 <= mi < front.len() && 0 <= bi < front[mi].content.len() && asks(
                        #[trigger] front[mi].content[bi],
                        id,
                        path,
                    );
                assert(asks(ms[mi].content[bi], id, path));
            } else {
                assert(b[k - a.len()] == (id, path));
                let bi = choose|bi: int|
                    0 <= bi < ms.last().content.len() && asks(
                        #[trigger] ms.last().content[bi],
                        id,
                        path,
                    );
                assert(asks(ms[ms.len() - 1].content[bi], id, path));
            }
        }
    }
}

proof fn lemma_path_for(rs: Seq<(Seq<char>, Seq<char>)>, id: Seq<char>)
    ensures
        match path_for(rs, id) {
            Some(p) => rs.contains((id, p)),
            None => forall|p: Seq<char>| !rs.contains((id, p)),
        },
    decreases rs.len(),
{
    if rs.len() > 0 {
        let front = rs.drop_last();
        lemma_path_for(front, id);
        if rs.last().0 == id {
            assert(rs[rs.len() - 1] == (id, rs.last().1));
        } else {
            match path_for(front, id) {
                Some(p) => {
                    let k = choose|k: int| 0 <= k < front.len() && front[k] == (id, p);
                    assert(rs[k] == (id, p));
                },
                None => {
                    assert forall|p: Seq<char>| !rs.contains((id, p)) by {
                        if rs.contains((id, p)) {
                            let k = choose|k: int| 0 <= k < rs.len() && rs[k] == (id, p);
                            assert(front[k] == (id, p));
                            assert(front.contains((id, p)));
                        }
                    }
                },
            }
        }
    }
}

proof fn lemma_path_of(ms: Seq<MessageView>, id: Seq<char>)
    ensures
        match path_for(reads(ms), id) {
            Some(p) => asked(ms, id, p),
            None => forall|p: Seq<char>| !#[trigger] asked(ms, id, p),
        },
{
    lemma_path_for(reads(ms), id);
    match path_for(reads(ms), id) {
        Some(p) => {
            lemma_reads(ms, id, p);
        },
        None => {
            assert forall|p: Seq<char>| !#[trigger] asked(ms, id, p) by {
                lemma_reads(ms, id, p);
            }
        },
    }
}

proof fn lemma_path_of_both(
    a: Seq<(Seq<char>, Seq<char>)>,
    b: Seq<(Seq<char>, Seq<char>)>,
    id: Seq<char>,
)
    ensures
        path_for(a + b, id) == match path_for(b, id) {
            Some(p) => Some(p),
            None => path_for(a, id),
        },
    decreases b.len(),
{
    if b.len() == 0 {
        assert(a + b =~= a);
    } else {
        lemma_path_of_both(a, b.drop_last(), id);
        assert((a + b).drop_last() =~= a + b.drop_last());
        assert((a + b).last() == b.last());
    }
}

proof fn lemma_block_path(blocks: Seq<BlockView>, bi: int, id: Seq<char>, path: Seq<char>)
    requires
        0 <= bi < blocks.len(),
        asks(blocks[bi], id, path),
        forall|bj: int, q: Seq<char>|
            bi < bj < blocks.len() ==> !#[trigger] asks(blocks[bj], id, q),
    ensures
        path_for(block_reads(blocks), id) == Some(path),
    decreases blocks.len(),
{
    let front = blocks.drop_last();
    let rest = block_reads(front);
    if bi == blocks.len() - 1 {
        assert(block_reads(blocks) == rest.push((id, path)));
    } else {
        assert forall|bj: int, q: Seq<char>| bi < bj < front.len() implies !#[trigger] asks(
            front[bj],
            id,
            q,
        ) by {
            assert(!asks(blocks[bj], id, q));
        }
        lemma_block_path(front, bi, id, path);
        if let Some(r) = crate::compaction::read_of(blocks.last()) {
            assert(!asks(blocks[blocks.len() - 1], id, r.1));
            assert(r.0 != id);
            assert(rest.push(r).drop_last() =~= rest);
        }
    }
}

proof fn lemma_last_path(ms: Seq<MessageView>, id: Seq<char>, path: Seq<char>)
    requires
        asked_last(ms, id, path),
    ensures
        path_for(reads(ms), id) == Some(path),
    decreases ms.len(),
{
    let (mi, bi) = choose|mi: int, bi: int|
        position(ms, mi, bi) && asks(#[trigger] ms[mi].content[bi], id, path) && none_later(
            ms,
            mi,
            bi,
            id,
        );
    let front = ms.drop_last();
    let blocks = ms.last().content;
    let n = ms.len() - 1;
    lemma_path_of_both(reads(front), block_reads(blocks), id);
    if mi == n {
        assert forall|bj: int, q: Seq<char>| bi < bj < blocks.len() implies !#[trigger] asks(
            blocks[bj],
            id,
            q,
        ) by {
            assert(position(ms, n, bj));
            assert(!asks(ms[n].content[bj], id, q));
        }
        lemma_block_path(blocks, bi, id, path);
    } else {
        lemma_path_for(block_reads(blocks), id);
        if let Some(q) = path_for(block_reads(blocks), id) {
            lemma_block_reads(blocks, id, q);
            let bj = choose|bj: int| 0 <= bj < blocks.len() && asks(#[trigger] blocks[bj], id, q);
            assert(position(ms, n, bj));
            assert(!asks(ms[n].content[bj], id, q));
        }
        assert(position(front, mi, bi));
        assert(asks(front[mi].content[bi], id, path));
        assert(none_later(front, mi, bi, id)) by {
            assert forall|mj: int, bj: int, q: Seq<char>|
                position(front, mj, bj) && (mi < mj || (mi == mj && bi < bj)) implies !#[trigger] asks(
                front[mj].content[bj],
                id,
                q,
            ) by {
                assert(position(ms, mj, bj));
                assert(!asks(ms[mj].content[bj], id, q));
            }
        }
        lemma_last_path(front, id, path);
    }
}

/// The content of a file that was read is replaced by a pointer where a later
/// read of the same file has come back: the pointer names the file, and the
/// result keeps its call.
pub proof fn law_read_gives_way_to_a_later_one(
    ms: Seq<MessageView>,
    mi: int,
    bi: int,
    id: Seq<char>,
    mj: int,
    bj: int,
    jd: Seq<char>,
    path: Seq<char>,
    text: Seq<char>,
)
    requires
        position(ms, mi, bi),
        position(ms, mj, bj),
        mi < mj || (mi == mj && bi < bj),
        succeeded(ms[mi].content[bi], id),
        ms[mi].content[bi]->ToolResult_0.content == ToolResultContentView::Text(text),
        !starts_with(text, "(superseded by a later read_file of "@),
        succeeded(ms[mj].content[bj], jd),
        asked_last(ms, id, path),
        asked_last(ms, jd, path),
    ensures
        dedup(ms)[mi].content[bi] matches BlockView::ToolResult(r) && r.tool_call_id == id
            && !r.is_error && r.content == ToolResultContentView::Text(
            "(superseded by a later read_file of "@ + path + ")"@,
        ),
{
    lemma_last_path(ms, id, path);
    lemma_last_path(ms, jd, path);
    assert(carries(ms, mj, bj, path));
    assert(later(mi, bi, mj, bj));
    assert(superseded(ms, mi, bi, path));
}

/// A read that no later one of the same file follows stays as it is. So does
/// what failed, what is no result, and what is a result of another tool.
pub proof fn law_all_else_is_kept(ms: Seq<MessageView>, mi: int, bi: int)
    requires
        position(ms, mi, bi),
        match ms[mi].content[bi] {
            BlockView::ToolResult(r) => {
                ||| r.is_error
                ||| forall|path: Seq<char>| !#[trigger] asked(ms, r.tool_call_id, path)
                ||| r.content is Blocks
                ||| forall|path: Seq<char>, mj: int, bj: int, jd: Seq<char>|
                    #[trigger] asked(ms, r.tool_call_id, path) && #[trigger] asked(ms, jd, path)
                        && position(ms, mj, bj) && (mi < mj || (mi == mj && bi < bj))
                        ==> !succeeded(#[trigger] ms[mj].content[bj], jd)
            },
            _ => true,
        },
    ensures
        dedup(ms)[mi].content[bi] == ms[mi].content[bi],
{
    if let BlockView::ToolResult(r) = ms[mi].content[bi] {
        lemma_path_of(ms, r.tool_call_id);
        if let Some(path) = path_for(reads(ms), r.tool_call_id) {
            if superseded(ms, mi, bi, path) && !r.is_error && !(r.content is Blocks) {
                let (mj, bj) = choose|mj: int, bj: int|
                    #[trigger] carries(ms, mj, bj, path) && later(mi, bi, mj, bj);
                let other = ms[mj].content[bj]->ToolResult_0;
                lemma_path_of(ms, other.tool_call_id);
                assert(asked(ms, other.tool_call_id, path));
                assert(succeeded(ms[mj].content[bj], other.tool_call_id));
            }
        }
    }
}

/// Only contents change: the messages are as many, each has its role and as many
/// blocks.
pub proof fn law_shape_is_kept(ms: Seq<MessageView>)
    ensures
        dedup(ms).len() == ms.len(),
        forall|i: int|
            0 <= i < ms.len() ==> (#[trigger] dedup(ms)[i]).role == ms[i].role
                && dedup(ms)[i].metadata == ms[i].metadata && dedup(ms)[i].content.len()
                == ms[i].content.len(),
{
}

} // verus!
