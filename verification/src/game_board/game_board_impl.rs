use super::detail::{build_neighbor_lookup, check_border, filled, index_to_coord};
use super::iter::{GameBoardIterator, GameBoardMutIterator, LocalGroupIterator};
use super::iter::NeighborhoodIterator;
use super::{is_interior_index, lemma_coord_of_index, lemma_index_of_coord};
use super::{lemma_index_translation, BoardError, BoardView, GameBoard};
use crate::cell::{Cell, RandomCell};
use vstd::arithmetic::mul::lemma_mul_is_commutative;
use vstd::prelude::*;

verus! {

impl<C: Cell> GameBoard<C> {
    /// A board of `width` by `height` interior cells in which every cell,
    /// border and interior alike, is `border_cell`.
    ///
    /// The stored buffer of `(width + 2) * (height + 2)` cells has to be
    /// addressable with signed offsets.
    pub fn new(width: usize, height: usize, border_cell: C) -> (board: Self)
        requires
            (width + 2) * (height + 2) <= isize::MAX,
        ensures
            board.wf(),
            board@ == BoardView::uniform(width as nat, height as nat, border_cell),
    {
        assert(2 * (width + 2) <= (width + 2) * (height + 2) && 2 * (height + 2) <= (width + 2) * (
            height + 2)) by (nonlinear_arith);
        let inner_width = width + 2;
        let inner_height = height + 2;
        let num_nodes = inner_width * inner_height;
        let board = Self {
            inner_width,
            inner_height,
            width,
            height,
            cells: filled(border_cell, num_nodes),
            neighbor_lookup: build_neighbor_lookup(inner_width),
        };
        proof {
            assert(width * height >= 0) by (nonlinear_arith);
            assert forall|i: int| 0 <= i < width * height implies #[trigger] board@.interior[i]
                == border_cell by {
                lemma_index_translation(width as int, height as int, i);
            }
            assert(board@ =~= BoardView::uniform(width as nat, height as nat, border_cell));
        }
        board
    }

    /// A board of `width` by `height` interior cells with the border
    /// `border_cell` and the interior `cells`, given row by row.
    ///
    /// If `cells` does not hold exactly `width * height` cells no board is
    /// built and the error says so.
    pub fn from_slice(cells: &[C], width: usize, height: usize, border_cell: C) -> (board: Result<
        Self,
        BoardError,
    >)
        requires
            (width + 2) * (height + 2) <= isize::MAX,
        ensures
            cells@.len() != width * height ==> board == Err::<Self, BoardError>(
                BoardError::WrongElementCount,
            ),
            cells@.len() == width * height ==> board.is_ok() && board.unwrap().wf()
                && board.unwrap()@ == (BoardView {
                width: width as nat,
                height: height as nat,
                border: border_cell,
                interior: cells@,
            }),
    {
        assert(width * height <= (width + 2) * (height + 2)) by (nonlinear_arith);
        let num_elements = width * height;
        if cells.len() != num_elements {
            return Err(BoardError::WrongElementCount);
        }
        let mut board = Self::new(width, height, border_cell);
        let mut i: usize = 0;
        while i < num_elements
            invariant
                i <= num_elements,
                num_elements == width * height,
                cells@.len() == num_elements,
                board@.width == width,
                board@.height == height,
                board@.border == border_cell,
                board@.interior.len() == num_elements,
                forall|k: int| 0 <= k < i ==> #[trigger] board@.interior[k] == cells@[k],
            decreases num_elements - i,
        {
            proof {
                lemma_coord_of_index(width as int, height as int, i as int);
                lemma_mul_is_commutative(width as int, (i / width) as int);
            }
            let (x, y) = index_to_coord(i, width);
            board.set(x, y, cells[i]);
            i = i + 1;
        }
        proof {
            use_type_invariant(&board);
            assert(board@.interior =~= cells@);
        }
        Ok(board)
    }

    /// A walk over the interior cells in row-major order. It visits
    /// `width * height` cells and none of the border.
    pub fn iter(&self) -> (cells: GameBoardIterator<'_, C>)
        ensures
            cells.wf(),
            cells.board() == self@,
            cells.passed() == 0,
            cells.upcoming() == self@.interior,
    {
        let offset = self.first_cursor_inner();
        let end = self.end_cursor_inner();
        let cells = GameBoardIterator::new(self, offset, end);
        assert(cells.upcoming() =~= self@.interior);
        cells
    }

    /// A walk over the interior cells in row-major order that lends each
    /// cell out for writing. The board is held until the walk is dropped.
    pub fn iter_mut(&mut self) -> (cells: GameBoardMutIterator<'_, C>)
        ensures
            cells.wf(),
            *cells.board == *old(self),
            cells.passed() == 0,
            *final(self) == *final(cells.board),
    {
        let offset = self.first_cursor_inner();
        let end = self.end_cursor_inner();
        GameBoardMutIterator::new(self, offset, end)
    }

    /// The eight neighbours of the interior cell at `(x, y)`, in the fixed
    /// order north-west, north, north-east, west, east, south-west, south,
    /// south-east. A neighbour off the board is the border value.
    pub fn iter_neighbors(&self, x: usize, y: usize) -> (neighbors: NeighborhoodIterator<'_, C>)
        requires
            self@.in_bounds(x as int, y as int),
        ensures
            neighbors.wf(),
            neighbors.board() == self@,
            neighbors.upcoming() == self@.neighbors(x as int, y as int),
    {
        let (x, y) = self.coord_public_to_inner(x, y);
        self.iter_neighbors_inner(x, y)
    }

    /// The eight neighbours of the `i`-th interior cell in row-major order,
    /// in the fixed enumeration order.
    pub fn iter_neighbors_index(&self, i: usize) -> (neighbors: NeighborhoodIterator<'_, C>)
        requires
            i < self@.width * self@.height,
        ensures
            neighbors.wf(),
            neighbors.board() == self@,
            neighbors.upcoming() == self@.neighbors_of_index(i as int),
    {
        proof {
            use_type_invariant(self);
            lemma_index_translation(self@.width as int, self@.height as int, i as int);
        }
        let i = self.index_public_to_inner(i);
        self.iter_neighbors_index_inner(i)
    }

    /// A walk over the interior cells in row-major order that hands out each
    /// cell together with an iterator over its eight neighbours.
    pub fn iter_local_groups(&self) -> (groups: LocalGroupIterator<'_, C>)
        ensures
            groups.wf(),
            groups.board() == self@,
            groups.passed() == 0,
    {
        LocalGroupIterator::new(self, self.first_cursor_inner())
    }

    /// The interior cell at `(x, y)`, or nothing if the coordinate is off the
    /// board. Border cells cannot be reached this way.
    pub fn get(&self, x: usize, y: usize) -> (cell: Option<&C>)
        ensures
            cell == if self@.in_bounds(x as int, y as int) {
                Some(&self@.at(x as int, y as int))
            } else {
                None
            },
    {
        proof {
            use_type_invariant(self);
        }
        if x < self.width && y < self.height {
            proof {
                self.lemma_stored_cell(x as int, y as int);
            }
            let (x, y) = self.coord_public_to_inner(x, y);
            let index = self.coord_to_index_inner(x, y);
            Some(&self.cells[index])
        } else {
            None
        }
    }

    /// The interior cell at `(x, y)` borrowed for writing, or nothing if the
    /// coordinate is off the board. Whatever the caller leaves in the cell
    /// becomes the cell at `(x, y)`; nothing else on the board changes.
    pub fn get_mut(&mut self, x: usize, y: usize) -> (cell: Option<&mut C>)
        ensures
            old(self)@.in_bounds(x as int, y as int) ==> cell.is_some() && *cell.unwrap() == old(
                self,
            )@.at(x as int, y as int) && final(self)@ == old(self)@.with_cell(
                x as int,
                y as int,
                *final(cell.unwrap()),
            ),
            !old(self)@.in_bounds(x as int, y as int) ==> cell.is_none() && final(self)@ == old(
                self,
            )@,
    {
        proof {
            use_type_invariant(&*self);
        }
        if x < self.width && y < self.height {
            proof {
                self.lemma_stored_cell(x as int, y as int);
                self.lemma_cell_update(x as int, y as int);
            }
            let (x, y) = self.coord_public_to_inner(x, y);
            let index = self.coord_to_index_inner(x, y);
            Some(&mut self.cells[index])
        } else {
            None
        }
    }

    /// Overwrites the interior cell at `(x, y)` with `cell` and leaves every
    /// other cell, the border included, as it was.
    pub fn set(&mut self, x: usize, y: usize, cell: C)
        requires
            old(self)@.in_bounds(x as int, y as int),
        ensures
            final(self)@ == old(self)@.with_cell(x as int, y as int, cell),
    {
        proof {
            use_type_invariant(&*self);
            self.lemma_stored_cell(x as int, y as int);
            self.lemma_cell_update(x as int, y as int);
        }
        let (x, y) = self.coord_public_to_inner(x, y);
        let index = self.coord_to_index_inner(x, y);
        self.cells[index] = cell;
    }

    /// Exchanges the cells of two boards of the same size, border and
    /// interior alike, without copying any of them.
    pub fn swap(&mut self, other: &mut Self)
        requires
            old(self)@.width == old(other)@.width,
            old(self)@.height == old(other)@.height,
        ensures
            final(self)@ == old(other)@,
            final(other)@ == old(self)@,
    {
        proof {
            use_type_invariant(&*self);
            use_type_invariant(&*other);
        }
        std::mem::swap(&mut self.cells, &mut other.cells);
    }

    /// Exchanges the cells of two boards if they have the same size, and
    /// says whether it did. Boards of different size are both left as they
    /// were.
    pub fn try_swap(&mut self, other: &mut Self) -> (swapped: bool)
        ensures
            swapped == (old(self)@.width == old(other)@.width && old(self)@.height == old(
                other,
            )@.height),
            swapped ==> final(self)@ == old(other)@ && final(other)@ == old(self)@,
            !swapped ==> final(self)@ == old(self)@ && final(other)@ == old(other)@,
    {
        let (width, height) = self.dim();
        let (other_width, other_height) = other.dim();
        if width == other_width && height == other_height {
            self.swap(other);
            true
        } else {
            false
        }
    }

    /// The size of the interior as `(width, height)`.
    pub fn dim(&self) -> (dim: (usize, usize))
        ensures
            dim.0 == self@.width,
            dim.1 == self@.height,
    {
        (self.width, self.height)
    }
}

impl<C: RandomCell> GameBoard<C> {
    /// A board of `width` by `height` interior cells whose border is
    /// `border_cell` and whose interior cells are sampled one by one.
    ///
    /// Nothing is promised about the sampled cells.
    pub fn new_rand(width: usize, height: usize, border_cell: C) -> (board: Self)
        requires
            (width + 2) * (height + 2) <= isize::MAX,
        ensures
            board.wf(),
            board@.wf(),
            board@.width == width,
            board@.height == height,
            board@.border == border_cell,
    {
        assert(2 * (width + 2) <= (width + 2) * (height + 2) && 2 * (height + 2) <= (width + 2) * (
            height + 2)) by (nonlinear_arith);
        let inner_width = width + 2;
        let inner_height = height + 2;
        let num_nodes = inner_width * inner_height;
        let mut cells = Vec::new();

        cells.reserve(num_nodes);
        let mut i: usize = 0;
        while i < num_nodes
            invariant
                i <= num_nodes,
                inner_width == width + 2,
                inner_height == height + 2,
                cells@.len() == i,
                forall|k: int|
                    0 <= k < i && !is_interior_index(width as int, height as int, k)
                        ==> #[trigger] cells@[k] == border_cell,
            decreases num_nodes - i,
        {
            let (x, y) = index_to_coord(i, inner_width);
            let is_border = check_border(x, y, inner_width, inner_height);
            if is_border {
                cells.push(border_cell)
            } else {
                cells.push(C::new_rand());
            }
            i = i + 1;
        }
        proof {
            lemma_index_of_coord(inner_width as int, inner_height as int, 0, 0);
            assert(width * height >= 0) by (nonlinear_arith);
        }
        Self {
            inner_width,
            inner_height,
            width,
            height,
            cells,
            neighbor_lookup: build_neighbor_lookup(inner_width),
        }
    }
}

impl<C: Cell> Clone for GameBoard<C> {
    /// A second board with the same size, border and interior.
    fn clone(&self) -> (board: Self)
        ensures
            board.wf(),
            board@ == self@,
    {
        proof {
            use_type_invariant(self);
        }
        let mut cells: Vec<C> = Vec::new();
        cells.reserve(self.cells.len());
        let mut i: usize = 0;
        while i < self.cells.len()
            invariant
                i <= self.cells@.len(),
                cells@ == self.cells@.take(i as int),
            decreases self.cells@.len() - i,
        {
            cells.push(self.cells[i]);
            i = i + 1;
        }
        assert(cells@ == self.cells@);
        Self {
            inner_width: self.inner_width,
            inner_height: self.inner_height,
            width: self.width,
            height: self.height,
            cells,
            neighbor_lookup: self.neighbor_lookup,
        }
    }
}

} // verus!
