//! Which cells of the board the snake covers.

use crate::geometry::{Board, Cell, Point};
use crate::random::choose_item;
use rand::rngs::ThreadRng;
use vstd::prelude::*;

verus! {

/// The number of `true` entries of a sequence.
pub open spec fn count(s: Seq<bool>) -> nat
    decreases s.len(),
{
    if s.len() == 0 {
        0
    } else {
        count(s.drop_last()) + if s.last() {
            1nat
        } else {
            0nat
        }
    }
}

/// `list` names each `false` entry of `flags` once, in rising order, and
/// nothing else.
pub open spec fn lists_free(list: Seq<usize>, flags: Seq<bool>) -> bool {
    &&& forall|k: int| 0 <= k < list.len() ==> (#[trigger] list[k]) < flags.len() && !flags[list[k] as int]
    &&& forall|a: int, b: int| 0 <= a < b < list.len() ==> list[a] < list[b]
    &&& forall|j: int| 0 <= j < flags.len() && !flags[j] ==> #[trigger] list.contains(j as usize)
}

/// No more entries are `true` than there are entries.
pub proof fn lemma_count_bound(s: Seq<bool>)
    ensures
        count(s) <= s.len(),
    decreases s.len(),
{
    if s.len() > 0 {
        lemma_count_bound(s.drop_last());
    }
}

/// Changing one entry changes the count by that entry alone.
pub proof fn lemma_count_update(s: Seq<bool>, i: int, v: bool)
    requires
        0 <= i < s.len(),
    ensures
        count(s.update(i, v)) + (if s[i] { 1int } else { 0int })
            == count(s) + (if v { 1int } else { 0int }),
    decreases s.len(),
{
    let t = s.update(i, v);
    if i == s.len() - 1 {
        assert(t.drop_last() =~= s.drop_last());
    } else {
        lemma_count_update(s.drop_last(), i, v);
        assert(t.drop_last() =~= s.drop_last().update(i, v));
    }
}

/// The count reaches the length exactly when every entry is `true`.
pub proof fn lemma_count_full(s: Seq<bool>)
    ensures
        count(s) == s.len() <==> (forall|i: int| 0 <= i < s.len() ==> s[i]),
    decreases s.len(),
{
    if s.len() > 0 {
        let front = s.drop_last();
        lemma_count_full(front);
        lemma_count_bound(front);
        if count(s) == s.len() {
            assert forall|i: int| 0 <= i < s.len() implies s[i] by {
                if i < front.len() {
                    assert(front[i] == s[i]);
                }
            }
        }
        if forall|i: int| 0 <= i < s.len() ==> s[i] {
            assert forall|i: int| 0 <= i < front.len() implies front[i] by {
                assert(front[i] == s[i]);
            }
            assert(s.last() == s[s.len() - 1]);
        }
    }
}

/// A sequence of `false` entries counts zero.
pub proof fn lemma_count_none(s: Seq<bool>)
    requires
        forall|i: int| 0 <= i < s.len() ==> !s[i],
    ensures
        count(s) == 0,
    decreases s.len(),
{
    if s.len() > 0 {
        let front = s.drop_last();
        assert forall|i: int| 0 <= i < front.len() implies !front[i] by {
            assert(front[i] == s[i]);
        }
        lemma_count_none(front);
        assert(s.last() == s[s.len() - 1]);
    }
}

/// One flag per cell of a board, in row-major order, and a scratch list used
/// to draw a free cell.
pub struct GridOccupancy {
    board: Board,
    occupied: Vec<bool>,
    free_cells: Vec<usize>,
}

impl View for GridOccupancy {
    type V = Seq<bool>;

    /// The flags, in row-major order.
    closed spec fn view(&self) -> Seq<bool> {
        self.occupied@
    }
}

impl GridOccupancy {
    /// The board that the grid was made for.
    pub closed spec fn extent(&self) -> Board {
        self.board
    }

    /// The grid has one flag for each cell of its board.
    pub open spec fn inv(&self) -> bool {
        &&& self.extent().wf()
        &&& self@.len() == self.extent().cell_total()
    }

    /// The flag of a point of the board.
    pub open spec fn occupied_at(&self, p: Point) -> bool {
        self@[self.extent().index(p)]
    }

    /// No cell is free.
    pub open spec fn full(&self) -> bool {
        forall|i: int| 0 <= i < self@.len() ==> self@[i]
    }

    /// A grid on which every cell is free.
    pub fn new(board: Board) -> (g: Self)
        requires
            board.wf(),
        ensures
            g.inv(),
            g.extent() == board,
            forall|i: int| 0 <= i < g@.len() ==> !g@[i],
    {
        let n = board.cell_count();
        let mut occupied: Vec<bool> = Vec::with_capacity(n);
        let mut i: usize = 0;
        while i < n
            invariant
                i <= n,
                occupied@.len() == i,
                forall|k: int| 0 <= k < i ==> !occupied@[k],
            decreases n - i,
        {
            occupied.push(false);
            i += 1;
        }
        GridOccupancy { board, occupied, free_cells: Vec::with_capacity(n) }
    }

    /// The board that the grid was made for.
    pub fn board(&self) -> (b: Board)
        ensures
            b == self.extent(),
    {
        self.board
    }

    /// Marks a cell of the board as covered or as free.
    pub fn set(&mut self, cell: Cell, occupied: bool)
        requires
            old(self).inv(),
            old(self).extent().contains(cell.pos()),
        ensures
            final(self).inv(),
            final(self).extent() == old(self).extent(),
            final(self)@ == old(self)@.update(old(self).extent().index(cell.pos()), occupied),
    {
        let index = self.board.to_index(cell);
        self.occupied[index] = occupied;
    }

    /// Tells whether a cell of the board is covered.
    pub fn is_occupied(&self, cell: Cell) -> (r: bool)
        requires
            self.inv(),
            self.extent().contains(cell.pos()),
        ensures
            r == self.occupied_at(cell.pos()),
    {
        let index = self.board.to_index(cell);
        self.occupied[index]
    }

    /// Fills the scratch list with the numbers of the free cells.
    fn list_free_cells(&mut self)
        requires
            old(self).inv(),
        ensures
            final(self).inv(),
            final(self).board == old(self).board,
            final(self).occupied == old(self).occupied,
            lists_free(final(self).free_cells@, final(self).occupied@),
    {
        self.free_cells.clear();
        let n = self.occupied.len();
        let mut i: usize = 0;
        while i < n
            invariant
                i <= n,
                n == self.occupied@.len(),
                self.board == old(self).board,
                self.occupied == old(self).occupied,
                forall|k: int|
                    0 <= k < self.free_cells@.len() ==> (#[trigger] self.free_cells@[k]) < i
                        && !self.occupied@[self.free_cells@[k] as int],
                forall|a: int, b: int|
                    0 <= a < b < self.free_cells@.len() ==> self.free_cells@[a] < self.free_cells@[b],
                forall|j: int|
                    0 <= j < i && !self.occupied@[j] ==> #[trigger] self.free_cells@.contains(
                        j as usize,
                    ),
            decreases n - i,
        {
            if !self.occupied[i] {
                let ghost before = self.free_cells@;
                self.free_cells.push(i);
                proof {
                    assert(self.free_cells@[before.len() as int] == i);
                    assert forall|j: int| 0 <= j <= i && !self.occupied@[j] implies
                        #[trigger] self.free_cells@.contains(j as usize) by {
                        if j < i {
                            assert(before.contains(j as usize));
                            let k = choose|k: int| 0 <= k < before.len() && before[k] == j as usize;
                            assert(self.free_cells@[k] == j as usize);
                        }
                    }
                }
            }
            i += 1;
        }
    }

    /// Draws one of the free cells at random. Returns `None` when the snake
    /// covers the whole board.
    pub fn pick_random_free_cell(&mut self, rng: &mut ThreadRng) -> (cell: Option<Cell>)
        requires
            old(self).inv(),
        ensures
            final(self).inv(),
            final(self).extent() == old(self).extent(),
            final(self)@ == old(self)@,
            cell is None <==> old(self).full(),
            cell matches Some(c) ==> old(self).extent().contains(c.pos()) && !old(self).occupied_at(
                c.pos(),
            ),
    {
        self.list_free_cells();
        let choice = choose_item(&self.free_cells, rng);
        match choice {
            Some(index) => {
                let cell = self.board.to_position(index);
                proof {
                    self.board.lemma_point_at(index as int);
                }
                Some(cell)
            },
            None => {
                proof {
                    assert forall|i: int| 0 <= i < self.occupied@.len() implies self.occupied@[i] by {
                        if !self.occupied@[i] {
                            assert(self.free_cells@.contains(i as usize));
                        }
                    }
                }
                None
            },
        }
    }
}

} // verus!
