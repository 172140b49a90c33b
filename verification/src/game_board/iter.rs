use super::{inner_index_of, is_interior_index, lemma_cursor, lemma_index_translation};
use super::{BoardView, GameBoard};
use crate::cell::Cell;
use vstd::prelude::*;
use vstd::std_specs::iter::IteratorSpecImpl;

verus! {

/// The same cells, each behind a shared reference.
pub open spec fn refs<'a, C>(cells: Seq<C>) -> Seq<&'a C> {
    cells.map_values(|c: C| &c)
}

/// Walks the interior cells of a board in row-major order, skipping the
/// border.
pub struct GameBoardIterator<'a, C: Cell> {
    board: &'a GameBoard<C>,
    offset: usize,
    end: usize,
}

impl<'a, C: Cell> GameBoardIterator<'a, C> {
    /// The walk stands on an interior cell of a consistent board or at its
    /// end, and knows where the end is.
    #[verifier::type_invariant]
    pub closed spec fn wf(&self) -> bool {
        &&& self.board.wf()
        &&& self.end == self.board@.end_index()
        &&& self.board@.is_cursor(self.offset as int)
    }

    /// The board that is walked.
    pub closed spec fn board(&self) -> BoardView<C> {
        self.board@
    }

    /// How many interior cells the walk has passed.
    pub closed spec fn passed(&self) -> int {
        self.board@.position_of(self.offset as int)
    }

    /// The interior cells still to come, in row-major order.
    pub open spec fn upcoming(&self) -> Seq<C> {
        self.board().interior.subrange(self.passed(), self.board().interior.len() as int)
    }

    /// A walk over `board` that starts at the cursor `offset` and stops at
    /// `end`, which has to be the board's end index.
    pub fn new(board: &'a GameBoard<C>, offset: usize, end: usize) -> (cells: Self)
        requires
            board@.is_cursor(offset as int),
            end == board@.end_index(),
        ensures
            cells.wf(),
            cells.board() == board@,
            cells.passed() == board@.position_of(offset as int),
    {
        proof {
            use_type_invariant(board);
        }
        GameBoardIterator { board, offset, end }
    }
}

impl<'a, C: Cell> Iterator for GameBoardIterator<'a, C> {
    type Item = &'a C;

    fn next(&mut self) -> (ret: Option<&'a C>)
        ensures
            final(self).wf(),
            final(self).board() == old(self).board(),
            match ret {
                Some(cell) => old(self).upcoming().len() > 0 && *cell == old(self).upcoming()[0]
                    && final(self).upcoming() == old(self).upcoming().drop_first()
                    && final(self).passed() == old(self).passed() + 1,
                None => old(self).upcoming().len() == 0 && *final(self) == *old(self),
            },
    {
        proof {
            use_type_invariant(&*self);
            lemma_cursor(self.board@, self.offset as int);
            self.board.lemma_view_wf();
        }
        if self.offset == self.end {
            return None;
        }
        proof {
            self.board.lemma_interior_cell(self.passed());
        }
        let result = &self.board.cells[self.offset];
        self.offset = self.board.next_cursor_inner(self.offset);
        proof {
            lemma_cursor(self.board@, self.offset as int);
            assert(self.upcoming() =~= old(self).upcoming().drop_first());
            assert(refs(self.upcoming()) =~= refs::<C>(old(self).upcoming()).drop_first());
        }
        Some(result)
    }
}

impl<'a, C: Cell> IteratorSpecImpl for GameBoardIterator<'a, C> {
    open spec fn obeys_prophetic_iter_laws(&self) -> bool {
        true
    }

    open spec fn remaining(&self) -> Seq<&'a C> {
        refs(self.upcoming())
    }

    open spec fn will_return_none(&self) -> bool {
        true
    }

    open spec fn decrease(&self) -> Option<nat> {
        Some((self.board().interior.len() - self.passed()) as nat)
    }

    open spec fn initial_value_relation(&self, init: &Self) -> bool {
        self == init
    }

    open spec fn peek(&self, index: int) -> Option<&'a C> {
        None
    }
}

/// Walks the interior cells of a board in row-major order and lends each one
/// out for writing.
///
/// The walk holds the board until it is dropped. What the caller leaves in a
/// lent cell is what the board holds there afterwards.
pub struct GameBoardMutIterator<'a, C: Cell> {
    pub board: &'a mut GameBoard<C>,
    pub offset: usize,
    pub end: usize,
}

impl<'a, C: Cell> GameBoardMutIterator<'a, C> {
    /// The walk stands on an interior cell of its board or at the end, and
    /// knows where the end is.
    pub open spec fn wf(&self) -> bool {
        &&& self.board.wf()
        &&& self.end == self.board@.end_index()
        &&& self.board@.is_cursor(self.offset as int)
    }

    /// How many interior cells the walk has passed.
    pub open spec fn passed(&self) -> int {
        self.board@.position_of(self.offset as int)
    }

    /// A walk over `board` that starts at the cursor `offset` and stops at
    /// `end`, which has to be the board's end index.
    pub fn new(board: &'a mut GameBoard<C>, offset: usize, end: usize) -> (cells: Self)
        requires
            old(board)@.is_cursor(offset as int),
            end == old(board)@.end_index(),
        ensures
            cells.wf(),
            *cells.board == *old(board),
            cells.offset == offset,
            cells.end == end,
            *final(board) == *final(cells.board),
    {
        proof {
            use_type_invariant(&*board);
        }
        GameBoardMutIterator { board, offset, end }
    }

    /// Lends out the next interior cell, or nothing once every interior cell
    /// has been lent.
    ///
    /// The lent cell holds what the board held there. Once the caller is done
    /// with it the board holds, at that position, what the caller left, and is
    /// otherwise unchanged.
    pub fn next(&mut self) -> (cell: Option<&mut C>)
        requires
            old(self).wf(),
        ensures
            final(self).wf(),
            *final(final(self).board) == *final(old(self).board),
            final(self).end == old(self).end,
            old(self).offset == old(self).end ==> cell.is_none() && final(self).offset == old(
                self,
            ).offset && final(self).board@ == old(self).board@,
            old(self).offset != old(self).end ==> cell.is_some() && *cell.unwrap() == old(
                self,
            ).board@.interior[old(self).passed()] && final(self).passed() == old(
                self,
            ).passed() + 1 && final(self).board@ == old(self).board@.with_interior(
                old(self).board@.interior.update(old(self).passed(), *final(cell.unwrap())),
            ),
    {
        proof {
            lemma_cursor(self.board@, self.offset as int);
            self.board.lemma_view_wf();
        }
        if self.offset == self.end {
            return None;
        }
        let offset = self.offset;
        proof {
            self.board.lemma_interior_cell(self.passed());
            self.board.lemma_stored_cell_update(offset as int);
        }
        self.offset = self.board.next_cursor_inner(offset);
        Some(&mut self.board.cells[offset])
    }
}

/// Walks the eight neighbours of one interior cell in the fixed order
/// north-west, north, north-east, west, east, south-west, south, south-east.
#[derive(Debug)]
pub struct NeighborhoodIterator<'a, C: Cell> {
    board: &'a GameBoard<C>,
    center: isize,  // Signed, so that the signed offsets can be added to it
    offset_index: usize,
}

impl<'a, C: Cell> NeighborhoodIterator<'a, C> {
    /// The centre is an interior cell of a consistent board, and at most
    /// eight neighbours have been handed out.
    #[verifier::type_invariant]
    pub closed spec fn wf(&self) -> bool {
        &&& self.board.wf()
        &&& is_interior_index(
            self.board@.width as int,
            self.board@.height as int,
            self.center as int,
        )
        &&& self.offset_index <= 8
    }

    /// The board the neighbours are read from.
    pub closed spec fn board(&self) -> BoardView<C> {
        self.board@
    }

    /// Stored index of the cell whose neighbours are walked.
    pub closed spec fn center(&self) -> int {
        self.center as int
    }

    /// How many neighbours have been handed out.
    pub closed spec fn consumed(&self) -> int {
        self.offset_index as int
    }

    /// The neighbours still to come, in order.
    pub open spec fn upcoming(&self) -> Seq<C> {
        self.board().neighbors_of_inner_index(self.center()).subrange(self.consumed(), 8)
    }

    /// The iterator that stands before the first neighbour of the cell
    /// stored at `center`.
    pub closed spec fn fresh(board: &'a GameBoard<C>, center: isize) -> Self {
        NeighborhoodIterator { board, center, offset_index: 0 }
    }

    /// A fresh iterator is consistent and has all eight neighbours ahead.
    pub proof fn lemma_fresh(board: &'a GameBoard<C>, center: isize)
        requires
            board.wf(),
            is_interior_index(board@.width as int, board@.height as int, center as int),
        ensures
            Self::fresh(board, center).wf(),
            Self::fresh(board, center).board() == board@,
            Self::fresh(board, center).center() == center,
            Self::fresh(board, center).consumed() == 0,
            Self::fresh(board, center).upcoming() == board@.neighbors_of_inner_index(center as int),
            Self::fresh(board, center).upcoming().len() == 8,
    {
        assert(board@.neighbors_of_inner_index(center as int).subrange(0, 8)
            =~= board@.neighbors_of_inner_index(center as int));
    }

    /// The iterator over the neighbours of the interior cell stored at index
    /// `center` of `board`.
    pub fn new(board: &'a GameBoard<C>, center: isize) -> (neighbors: Self)
        requires
            is_interior_index(board@.width as int, board@.height as int, center as int),
        ensures
            neighbors == Self::fresh(board, center),
            neighbors.upcoming() == board@.neighbors_of_inner_index(center as int),
            neighbors.upcoming().len() == 8,
    {
        proof {
            use_type_invariant(board);
            Self::lemma_fresh(board, center);
        }
        NeighborhoodIterator { board, center, offset_index: 0 }
    }
}

impl<'a, C: Cell> Iterator for NeighborhoodIterator<'a, C> {
    type Item = &'a C;

    fn next(&mut self) -> (ret: Option<&'a C>)
        ensures
            final(self).wf(),
            final(self).board() == old(self).board(),
            final(self).center() == old(self).center(),
            match ret {
                Some(cell) => old(self).upcoming().len() > 0 && *cell == old(self).upcoming()[0]
                    && final(self).upcoming() == old(self).upcoming().drop_first()
                    && final(self).consumed() == old(self).consumed() + 1,
                None => old(self).upcoming().len() == 0 && *final(self) == *old(self),
            },
    {
        proof {
            use_type_invariant(&*self);
        }
        if self.offset_index < 8 {
            proof {
                self.board.lemma_neighbor_cell(self.center as int, self.offset_index as int);
            }
            let i = self.center + self.board.neighbor_lookup[self.offset_index];
            self.offset_index = self.offset_index + 1;
            let cell = &self.board.cells[i as usize];
            proof {
                assert(self.upcoming() =~= old(self).upcoming().drop_first());
                assert(refs(self.upcoming()) =~= refs::<C>(old(self).upcoming()).drop_first());
            }
            Some(cell)
        } else {
            None
        }
    }
}

impl<'a, C: Cell> IteratorSpecImpl for NeighborhoodIterator<'a, C> {
    open spec fn obeys_prophetic_iter_laws(&self) -> bool {
        true
    }

    open spec fn remaining(&self) -> Seq<&'a C> {
        refs(self.upcoming())
    }

    open spec fn will_return_none(&self) -> bool {
        true
    }

    open spec fn decrease(&self) -> Option<nat> {
        Some((8 - self.consumed()) as nat)
    }

    open spec fn initial_value_relation(&self, init: &Self) -> bool {
        self == init
    }

    open spec fn peek(&self, index: int) -> Option<&'a C> {
        None
    }
}

/// Walks the interior cells of a board in row-major order and hands out each
/// one together with a fresh iterator over its eight neighbours.
pub struct LocalGroupIterator<'a, C: Cell> {
    board: &'a GameBoard<C>,
    center: usize,
}

impl<'a, C: Cell> LocalGroupIterator<'a, C> {
    /// The walk stands on an interior cell of a consistent board or at its
    /// end.
    #[verifier::type_invariant]
    pub closed spec fn wf(&self) -> bool {
        &&& self.board.wf()
        &&& self.board@.is_cursor(self.center as int)
    }

    /// The board that is walked.
    pub closed spec fn board(&self) -> BoardView<C> {
        self.board@
    }

    /// How many interior cells the walk has passed.
    pub closed spec fn passed(&self) -> int {
        self.board@.position_of(self.center as int)
    }

    /// The `i`-th interior cell with a fresh iterator over its neighbours.
    pub closed spec fn group(&self, i: int) -> (&'a C, NeighborhoodIterator<'a, C>) {
        (
            &self.board@.interior[i],
            NeighborhoodIterator::fresh(
                self.board,
                inner_index_of(self.board@.width as int, i) as isize,
            ),
        )
    }

    /// The groups still to come, in row-major order.
    pub open spec fn upcoming(&self) -> Seq<(&'a C, NeighborhoodIterator<'a, C>)> {
        Seq::new(
            (self.board().interior.len() - self.passed()) as nat,
            |j: int| self.group(self.passed() + j),
        )
    }

    /// The `i`-th group holds the `i`-th interior cell and has that cell's
    /// eight neighbours ahead, in the fixed order.
    pub proof fn lemma_group(&self, i: int)
        requires
            self.wf(),
            0 <= i < self.board().interior.len(),
        ensures
            *self.group(i).0 == self.board().interior[i],
            self.group(i).1.wf(),
            self.group(i).1.board() == self.board(),
            self.group(i).1.upcoming() == self.board().neighbors_of_index(i),
            self.group(i).1.upcoming().len() == 8,
    {
        let w = self.board@.width as int;
        let h = self.board@.height as int;
        self.board.lemma_view_wf();
        lemma_index_translation(w, h, i);
        NeighborhoodIterator::lemma_fresh(self.board, inner_index_of(w, i) as isize);
    }

    /// How far the walk has come lies between nothing and the whole
    /// interior.
    pub proof fn lemma_passed(&self)
        requires
            self.wf(),
        ensures
            self.board().wf(),
            0 <= self.passed() <= self.board().interior.len(),
    {
        self.board.lemma_view_wf();
        lemma_cursor(self.board@, self.center as int);
    }

    /// A walk over `board` that starts at the cursor `center`.
    pub fn new(board: &'a GameBoard<C>, center: usize) -> (groups: Self)
        requires
            board@.is_cursor(center as int),
        ensures
            groups.wf(),
            groups.board() == board@,
            groups.passed() == board@.position_of(center as int),
    {
        proof {
            use_type_invariant(board);
        }
        LocalGroupIterator { board, center }
    }
}

impl<'a, C: Cell> Iterator for LocalGroupIterator<'a, C> {
    type Item = (&'a C, NeighborhoodIterator<'a, C>);

    fn next(&mut self) -> (ret: Option<(&'a C, NeighborhoodIterator<'a, C>)>)
        ensures
            final(self).wf(),
            final(self).board() == old(self).board(),
            match ret {
                Some(group) => old(self).passed() < old(self).board().interior.len() && group
                    == old(self).group(old(self).passed()) && final(self).passed() == old(
                    self,
                ).passed() + 1,
                None => old(self).passed() == old(self).board().interior.len() && *final(self)
                    == *old(self),
            },
    {
        proof {
            use_type_invariant(&*self);
            lemma_cursor(self.board@, self.center as int);
            self.board.lemma_view_wf();
        }
        if self.center == self.board.end_cursor_inner() {
            return None;
        }
        proof {
            self.board.lemma_interior_cell(self.passed());
        }
        let result = (
            &self.board.cells[self.center],
            self.board.iter_neighbors_index_inner(self.center),
        );
        self.center = self.board.next_cursor_inner(self.center);
        proof {
            lemma_cursor(self.board@, self.center as int);
            assert(result == old(self).group(old(self).passed()));
            assert(self.upcoming() =~= old(self).upcoming().drop_first());
        }
        Some(result)
    }
}

impl<'a, C: Cell> IteratorSpecImpl for LocalGroupIterator<'a, C> {
    open spec fn obeys_prophetic_iter_laws(&self) -> bool {
        true
    }

    open spec fn remaining(&self) -> Seq<(&'a C, NeighborhoodIterator<'a, C>)> {
        self.upcoming()
    }

    open spec fn will_return_none(&self) -> bool {
        true
    }

    open spec fn decrease(&self) -> Option<nat> {
        Some((self.board().interior.len() - self.passed()) as nat)
    }

    open spec fn initial_value_relation(&self, init: &Self) -> bool {
        self == init
    }

    open spec fn peek(&self, index: int) -> Option<(&'a C, NeighborhoodIterator<'a, C>)> {
        None
    }
}

impl<'a, C: Cell> IntoIterator for &'a GameBoard<C> {
    type Item = &'a C;

    type IntoIter = GameBoardIterator<'a, C>;

    fn into_iter(self) -> (cells: GameBoardIterator<'a, C>)
        ensures
            cells.wf(),
            cells.board() == self@,
            cells.passed() == 0,
            cells.upcoming() == self@.interior,
    {
        self.iter()
    }
}

} // verus!
