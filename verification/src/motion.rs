//! Why a move keeps a valid state valid.

use crate::body::{
    cells, contiguous, lemma_cells_concat, lemma_cells_single, lemma_cells_within, linked, within,
};
use crate::geometry::{Board, Cell, Point};
use crate::grid::{count, lemma_count_update};
use crate::model::{Model, STARTING_LENGTH};
use crate::segment::Segment;
use vstd::prelude::*;

verus! {

/// A chain with cells has a last segment, and the last cell of the chain is
/// the last cell of that segment.
pub proof fn lemma_last_cell(segments: Seq<Segment>, board: Board)
    requires
        segments.len() >= 1,
        within(segments, board),
    ensures
        cells(segments).len() >= segments.last().len,
        cells(segments).len() >= 1,
        cells(segments).last() == segments.last().cell(segments.last().len - 1),
        segments.len() == 1 ==> cells(segments).len() == segments.last().len,
{
    let tail = segments.last();
    assert(tail == segments[segments.len() - 1]);
    assert(tail.within(board));
    if segments.len() == 1 {
        assert(segments.drop_last() =~= Seq::<Segment>::empty());
        assert(cells(segments.drop_last()).len() == 0);
    }
}

/// Moving the head on puts its new cell in front of the cells of the body.
pub proof fn lemma_grown(m: Model)
    requires
        m.wf(),
        m.board.contains(m.next_head()),
    ensures
        cells(m.grown()) == seq![m.next_head()] + m.cells(),
        m.grown().len() >= 1,
        within(m.grown(), m.board),
        contiguous(m.grown()),
        m.grown()[0].start.pos() == m.next_head(),
        m.grown()[0].direction == m.heading(),
{
    let segs = m.segments;
    let nh = m.next_head();
    let start = nh.cell();
    let s0 = segs[0];
    let rest = segs.subrange(1, segs.len() as int);
    let g = m.grown();
    m.board.lemma_cell_of_point(nh);
    m.board.lemma_dims();
    assert(s0.within(m.board));
    assert(segs =~= seq![s0] + rest);
    lemma_cells_concat(seq![s0], rest);
    lemma_cells_single(s0);
    match m.pending {
        Some(d) => {
            let s = Segment { start, direction: d, len: 1 };
            lemma_cells_concat(seq![s], segs);
            lemma_cells_single(s);
            assert(s.cells() =~= seq![nh]);
            assert forall|i: int| 0 <= i < g.len() implies (#[trigger] g[i]).within(m.board) by {
                if i > 0 {
                    assert(g[i] == segs[i - 1]);
                }
            }
            assert forall|i: int, j: int|
                #![trigger g[i], g[j]]
                0 <= i && j == i + 1 && j < g.len() implies linked(g[i], g[j]) by {
                if i > 0 {
                    assert(g[i] == segs[i - 1]);
                    assert(g[j] == segs[j - 1]);
                } else {
                    assert(g[j] == s0);
                }
            }
        },
        None => {
            let s = Segment { start, direction: s0.direction, len: (s0.len + 1) as usize };
            assert(g =~= seq![s] + rest);
            lemma_cells_concat(seq![s], rest);
            lemma_cells_single(s);
            assert(s.cells() =~= seq![nh] + s0.cells());
            assert(cells(g) =~= seq![nh] + m.cells());
            assert forall|i: int| 0 <= i < g.len() implies (#[trigger] g[i]).within(m.board) by {
                if i > 0 {
                    assert(g[i] == segs[i]);
                }
            }
            assert forall|i: int, j: int|
                #![trigger g[i], g[j]]
                0 <= i && j == i + 1 && j < g.len() implies linked(g[i], g[j]) by {
                assert(g[j] == segs[j]);
                assert(linked(segs[i], segs[j]));
                if i > 0 {
                    assert(g[i] == segs[i]);
                }
            }
        },
    }
}

/// Drawing the tail in takes the last cell off the cells of the body.
pub proof fn lemma_retracted(segments: Seq<Segment>, board: Board)
    requires
        segments.len() >= 1,
        within(segments, board),
        contiguous(segments),
        cells(segments).len() >= 2,
    ensures
        cells(Model::retracted(segments)) == cells(segments).drop_last(),
        Model::retracted(segments).len() >= 1,
        within(Model::retracted(segments), board),
        contiguous(Model::retracted(segments)),
        Model::retracted(segments)[0].start == segments[0].start,
        Model::retracted(segments)[0].direction == segments[0].direction,
{
    let tail = segments.last();
    let front = segments.drop_last();
    let r = Model::retracted(segments);
    lemma_last_cell(segments, board);
    assert(tail == segments[segments.len() - 1]);
    assert(tail.within(board));
    assert forall|i: int| 0 <= i < front.len() implies (#[trigger] front[i]).within(board) by {
        assert(front[i] == segments[i]);
    }
    if tail.len <= 1 {
        assert(cells(r) =~= cells(segments).drop_last());
        assert forall|i: int, j: int|
            #![trigger r[i], r[j]]
            0 <= i && j == i + 1 && j < r.len() implies linked(r[i], r[j]) by {
            assert(r[i] == segments[i]);
            assert(r[j] == segments[j]);
        }
    } else {
        let t = Segment { start: tail.start, direction: tail.direction, len: (tail.len - 1) as usize };
        assert(r.drop_last() =~= front);
        assert(r.last() == t);
        assert(t.cells() =~= tail.cells().drop_last());
        assert(cells(r) =~= cells(segments).drop_last());
        tail.lemma_within(board, tail.len - 2);
        assert forall|i: int| 0 <= i < r.len() implies (#[trigger] r[i]).within(board) by {
            if i < front.len() {
                assert(r[i] == segments[i]);
            }
        }
        assert forall|i: int, j: int|
            #![trigger r[i], r[j]]
            0 <= i && j == i + 1 && j < r.len() implies linked(r[i], r[j]) by {
            assert(r[i] == segments[i]);
            assert(linked(segments[i], segments[j]));
            if j < front.len() {
                assert(r[j] == segments[j]);
            }
        }
    }
}

/// A move onto the board puts the new head in front of the cells that the
/// body keeps, and leaves a chain that is sound.
pub proof fn lemma_moved(m: Model)
    requires
        m.wf(),
        m.board.contains(m.next_head()),
    ensures
        cells(m.moved()) == seq![m.next_head()] + m.kept(),
        m.moved().len() >= 1,
        within(m.moved(), m.board),
        contiguous(m.moved()),
        m.moved()[0].start.pos() == m.next_head(),
        m.moved()[0].direction == m.heading(),
{
    lemma_grown(m);
    lemma_last_cell(m.segments, m.board);
    if !m.grace {
        lemma_retracted(m.grown(), m.board);
        assert((seq![m.next_head()] + m.cells()).drop_last() =~= seq![m.next_head()]
            + m.cells().drop_last());
    }
}

/// A move makes a valid state of a valid state.
pub proof fn lemma_advanced_wf(m: Model)
    requires
        m.wf(),
    ensures
        m.advanced().wf(),
{
    if !m.crashes() {
        let a = m.advanced();
        let nh = m.next_head();
        let kept = m.kept();
        lemma_moved(m);
        lemma_last_cell(m.segments, m.board);
        let after = seq![nh] + kept;
        assert(a.cells() == after);
        assert forall|i: int| 0 <= i < kept.len() implies kept[i] == m.cells()[i] by {}
        assert forall|i: int, j: int| 0 <= i < after.len() && 0 <= j < after.len() && i != j implies after[i]
            != after[j] by {
            if i == 0 {
                assert(kept[j - 1] == after[j]);
            } else if j == 0 {
                assert(kept[i - 1] == after[i]);
            } else {
                assert(after[i] == m.cells()[i - 1]);
                assert(after[j] == m.cells()[j - 1]);
            }
        }
        if a.food is Some {
            let f = a.food->0;
            if after.contains(f.pos()) {
                let i = choose|i: int| 0 <= i < after.len() && after[i] == f.pos();
                assert(i > 0);
                assert(m.cells()[i - 1] == f.pos());
            }
        }
    }
}

/// The flags of a grid say of each point of the board whether `cells` holds it.
pub open spec fn mirrors(flags: Seq<bool>, board: Board, cells: Seq<Point>) -> bool {
    forall|p: Point| board.contains(p) ==> (flags[board.index(p)] <==> #[trigger] cells.contains(p))
}

/// The flags of the grid after a move: the cell that the tail leaves is
/// cleared first, then the cell that the head enters is set.
pub open spec fn flags_after_move(m: Model, flags: Seq<bool>) -> Seq<bool> {
    let cleared = if m.grace {
        flags
    } else {
        flags.update(m.board.index(m.cells().last()), false)
    };
    cleared.update(m.board.index(m.next_head()), true)
}

/// Flags that mirror the body before a move that does not crash, and count
/// its cells, do so after it.
pub proof fn lemma_flags_after_move(m: Model, flags: Seq<bool>)
    requires
        m.wf(),
        !m.crashes(),
        flags.len() == m.board.cell_total(),
        mirrors(flags, m.board, m.cells()),
        count(flags) == m.cells().len(),
    ensures
        mirrors(flags_after_move(m, flags), m.board, m.advanced().cells()),
        count(flags_after_move(m, flags)) == m.advanced().cells().len(),
{
    let board = m.board;
    let nh = m.next_head();
    let body = m.cells();
    let kept = m.kept();
    let after = seq![nh] + kept;
    let tail = body.last();
    let result = flags_after_move(m, flags);
    lemma_moved(m);
    lemma_last_cell(m.segments, board);
    lemma_cells_within(m.segments, board);
    assert(body[body.len() - 1] == tail);
    assert(board.contains(tail));
    assert(body.contains(tail));
    board.lemma_index_in_range(tail);
    board.lemma_index_in_range(nh);
    let cleared = if m.grace {
        flags
    } else {
        flags.update(board.index(tail), false)
    };
    assert(flags[board.index(tail)]);
    if !m.grace {
        lemma_count_update(flags, board.index(tail), false);
    }
    // The cell that the head enters is free once the tail has moved.
    assert(!cleared[board.index(nh)]) by {
        if cleared[board.index(nh)] {
            assert(flags[board.index(nh)]);
            assert(body.contains(nh));
            let i = choose|i: int| 0 <= i < body.len() && body[i] == nh;
            if m.grace {
            } else {
                if i < body.len() - 1 {
                    assert(kept[i] == nh);
                } else {
                    assert(nh == tail);
                }
            }
        }
    }
    lemma_count_update(cleared, board.index(nh), true);
    assert forall|p: Point| board.contains(p) implies (result[board.index(p)] <==> #[trigger] after.contains(
        p,
    )) by {
        board.lemma_index_in_range(p);
        if p == nh {
            assert(after[0] == p);
        } else {
            if board.index(p) == board.index(nh) {
                board.lemma_index_injective(p, nh);
            }
            if board.index(p) == board.index(tail) {
                board.lemma_index_injective(p, tail);
            }
            assert(flags[board.index(p)] <==> body.contains(p));
            if after.contains(p) {
                let i = choose|i: int| 0 <= i < after.len() && after[i] == p;
                assert(kept[i - 1] == p);
                assert(body[i - 1] == p);
                assert(body.contains(p));
            }
            if result[board.index(p)] {
                assert(body.contains(p));
                let i = choose|i: int| 0 <= i < body.len() && body[i] == p;
                if !m.grace {
                    assert(p != tail);
                    assert(kept[i] == p);
                }
                assert(after[i + 1] == p);
            }
        }
    }
}

/// The starting state is valid wherever the food lies, if it lies free.
pub proof fn lemma_fresh_wf(board: Board, food: Option<Cell>)
    requires
        board.wf(),
        board.w() >= STARTING_LENGTH,
        food matches Some(f) ==> Model::fresh(board, None).free(f),
    ensures
        Model::fresh(board, food).wf(),
        Model::fresh(board, food).cells().len() == STARTING_LENGTH,
        forall|k: int|
            0 <= k < STARTING_LENGTH ==> #[trigger] Model::fresh(board, food).cells()[k] == (Point {
                x: STARTING_LENGTH - 1 - k,
                y: 0,
            }),
{
    let m = Model::fresh(board, food);
    let s = m.segments[0];
    lemma_cells_single(s);
    assert(m.segments =~= seq![s]);
    assert(Model::fresh(board, None).segments =~= seq![s]);
}

} // verus!
