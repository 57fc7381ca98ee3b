//! The snake's body as a chain of segments, and the cells it covers.

use crate::geometry::{Board, Point};
use crate::segment::Segment;
use vstd::prelude::*;

verus! {

/// The points that a chain of segments covers, from the head to the tail.
pub open spec fn cells(segments: Seq<Segment>) -> Seq<Point>
    decreases segments.len(),
{
    if segments.len() == 0 {
        Seq::empty()
    } else {
        cells(segments.drop_last()) + segments.last().cells()
    }
}

/// Every segment of the chain lies on the board.
pub open spec fn within(segments: Seq<Segment>, board: Board) -> bool {
    forall|i: int| 0 <= i < segments.len() ==> (#[trigger] segments[i]).within(board)
}

/// Segment `a` ends where `b` starts, and `b` turns off the line of `a`.
pub open spec fn linked(a: Segment, b: Segment) -> bool {
    &&& a.behind() == b.start.pos()
    &&& a.direction.orthogonal(b.direction)
}

/// Each segment of the chain is linked to the next.
pub open spec fn contiguous(segments: Seq<Segment>) -> bool {
    forall|i: int, j: int|
        #![trigger segments[i], segments[j]]
        0 <= i && j == i + 1 && j < segments.len() ==> linked(segments[i], segments[j])
}

/// The cells of a single segment are its own.
pub proof fn lemma_cells_single(s: Segment)
    ensures
        cells(seq![s]) == s.cells(),
{
    let one = seq![s];
    assert(one.drop_last() =~= Seq::<Segment>::empty());
    assert(cells(one.drop_last()) =~= Seq::<Point>::empty());
    assert(cells(one) =~= s.cells());
}

/// The cells of two chains laid end to end are the cells of the first
/// followed by those of the second.
pub proof fn lemma_cells_concat(a: Seq<Segment>, b: Seq<Segment>)
    ensures
        cells(a + b) == cells(a) + cells(b),
    decreases b.len(),
{
    if b.len() == 0 {
        assert(a + b =~= a);
        assert(cells(a) + cells(b) =~= cells(a));
    } else {
        lemma_cells_concat(a, b.drop_last());
        assert((a + b).drop_last() =~= a + b.drop_last());
        assert((a + b).last() == b.last());
        assert(cells(a + b) =~= cells(a) + cells(b));
    }
}

/// A chain on a board covers only points of the board.
pub proof fn lemma_cells_within(segments: Seq<Segment>, board: Board)
    requires
        within(segments, board),
    ensures
        forall|j: int| 0 <= j < cells(segments).len() ==> board.contains(#[trigger] cells(segments)[j]),
    decreases segments.len(),
{
    if segments.len() > 0 {
        let front = segments.drop_last();
        let last = segments.last();
        assert(within(front, board)) by {
            assert forall|i: int| 0 <= i < front.len() implies (#[trigger] front[i]).within(board) by {
                assert(front[i] == segments[i]);
            }
        }
        lemma_cells_within(front, board);
        assert(last == segments[segments.len() - 1]);
        assert forall|j: int| 0 <= j < cells(segments).len() implies board.contains(
            #[trigger] cells(segments)[j],
        ) by {
            if j >= cells(front).len() {
                let k = j - cells(front).len();
                last.lemma_within(board, k);
                assert(cells(segments)[j] == last.cell(k));
            } else {
                assert(cells(segments)[j] == cells(front)[j]);
            }
        }
    }
}

} // verus!
