use super::iter::NeighborhoodIterator;
use super::{inner_coord_of, inner_index_of, public_coord_of, public_index_of};
use super::{is_interior_coord, is_interior_index, neighbor_offsets, GameBoard};
use super::{lemma_coord_of_index, lemma_index_of_coord, lemma_index_translation};
use super::{lemma_cursor, lemma_cursor_step, lemma_interior_index};
use crate::cell::Cell;
use vstd::prelude::*;

verus! {

/// The eight signed index offsets from a stored cell to its neighbours, for a
/// buffer whose rows are `inner_width` cells long: north-west, north,
/// north-east, west, east, south-west, south, south-east.
pub fn build_neighbor_lookup(inner_width: usize) -> (lookup: [isize; 8])
    requires
        inner_width < isize::MAX,
    ensures
        forall|k: int|
            0 <= k < 8 ==> #[trigger] lookup@[k] == neighbor_offsets(inner_width as int)[k],
{
    [
        -(inner_width as isize) - 1,
        -(inner_width as isize),
        -(inner_width as isize) + 1,
        -1,
        1,
        (inner_width as isize) - 1,
        (inner_width as isize),
        (inner_width as isize) + 1,
    ]
}

/// Splits a row-major index into `(x, y)` for rows of `width` cells.
pub fn index_to_coord(i: usize, width: usize) -> (coord: (usize, usize))
    requires
        width > 0,
    ensures
        coord.0 == i % width,
        coord.1 == i / width,
{
    let x = i % width;
    let y = i / width;
    (x, y)
}

/// The row-major index of `(x, y)` for rows of `width` cells.
pub fn coord_to_index(x: usize, y: usize, width: usize) -> (i: usize)
    requires
        y * width + x <= usize::MAX,
    ensures
        i == y * width + x,
{
    assert(y * width <= y * width + x);
    y * width + x
}

/// Whether `(x, y)` lies strictly inside a grid of `width` by `height` cells,
/// that is, off its outermost ring.
pub fn check_not_border(x: usize, y: usize, width: usize, height: usize) -> (inside: bool)
    requires
        width >= 2,
        height >= 2,
    ensures
        inside == is_interior_coord(width - 2, height - 2, x as int, y as int),
{
    x > 0 && x < (width - 1) && y > 0 && y < (height - 1)
}

/// Whether `(x, y)` lies on the outermost ring of a grid of `width` by
/// `height` cells, or outside the grid.
pub fn check_border(x: usize, y: usize, width: usize, height: usize) -> (outside: bool)
    requires
        width >= 2,
        height >= 2,
    ensures
        outside == !is_interior_coord(width - 2, height - 2, x as int, y as int),
{
    !check_not_border(x, y, width, height)
}

/// A buffer of `len` copies of `cell`.
pub(super) fn filled<C: Copy>(cell: C, len: usize) -> (cells: Vec<C>)
    ensures
        cells@ == Seq::new(len as nat, |i: int| cell),
{
    let mut cells: Vec<C> = Vec::new();
    cells.reserve(len);
    let mut i: usize = 0;
    while i < len
        invariant
            i <= len,
            cells@ == Seq::new(i as nat, |k: int| cell),
        decreases len - i,
    {
        cells.push(cell);
        i = i + 1;
    }
    cells
}

impl<C: Cell> GameBoard<C> {
    /// Stored index of the stored coordinate `(x, y)`.
    pub fn coord_to_index_inner(&self, x: usize, y: usize) -> (i: usize)
        requires
            x < self@.inner_width(),
            y < self@.inner_height(),
        ensures
            i == y * self@.inner_width() + x,
            i < self@.inner_width() * self@.inner_height(),
    {
        proof {
            use_type_invariant(self);
            lemma_index_of_coord(
                self.inner_width as int,
                self.inner_height as int,
                x as int,
                y as int,
            );
        }
        coord_to_index(x, y, self.inner_width)
    }

    /// Stored coordinate `(x, y)` of the stored index `i`.
    pub fn index_to_coord_inner(&self, i: usize) -> (coord: (usize, usize))
        ensures
            coord.0 == i as int % self@.inner_width(),
            coord.1 == i as int / self@.inner_width(),
    {
        proof {
            use_type_invariant(self);
        }
        index_to_coord(i, self.inner_width)
    }

    /// Whether the stored index `i` addresses an interior cell.
    pub fn check_index_inner(&self, i: usize) -> (interior: bool)
        ensures
            interior == is_interior_index(self@.width as int, self@.height as int, i as int),
    {
        let (wrapx, wrapy) = self.index_to_coord_inner(i);
        self.check_coord_inner(wrapx, wrapy)
    }

    /// Whether the stored coordinate `(x, y)` lies in the interior.
    pub fn check_coord_inner(&self, x: usize, y: usize) -> (interior: bool)
        ensures
            interior == is_interior_coord(
                self@.width as int,
                self@.height as int,
                x as int,
                y as int,
            ),
    {
        proof {
            use_type_invariant(self);
        }
        check_not_border(x, y, self.inner_width, self.inner_height)
    }

    /// The public coordinate of an interior cell given by its stored coordinate.
    pub fn coord_inner_to_public(&self, x: usize, y: usize) -> (coord: (usize, usize))
        requires
            is_interior_coord(self@.width as int, self@.height as int, x as int, y as int),
        ensures
            (coord.0 as int, coord.1 as int) == public_coord_of(x as int, y as int),
            self@.in_bounds(coord.0 as int, coord.1 as int),
    {
        (x - 1, y - 1)
    }

    /// The stored coordinate of the interior cell at the public coordinate
    /// `(x, y)`.
    pub fn coord_public_to_inner(&self, x: usize, y: usize) -> (coord: (usize, usize))
        requires
            self@.in_bounds(x as int, y as int),
        ensures
            (coord.0 as int, coord.1 as int) == inner_coord_of(x as int, y as int),
            is_interior_coord(
                self@.width as int,
                self@.height as int,
                coord.0 as int,
                coord.1 as int,
            ),
    {
        proof {
            use_type_invariant(self);
        }
        (x + 1, y + 1)
    }

    /// The row-major interior index of the interior cell stored at index `i`.
    pub fn index_inner_to_public(&self, i: usize) -> (public: usize)
        requires
            is_interior_index(self@.width as int, self@.height as int, i as int),
        ensures
            public == public_index_of(self@.width as int, i as int),
            public < self@.width * self@.height,
            inner_index_of(self@.width as int, public as int) == i,
    {
        proof {
            use_type_invariant(self);
            lemma_interior_index(self.width as int, self.height as int, i as int);
        }
        let i = i as isize;
        let i = i - self.inner_width as isize - (i / self.inner_width as isize) * 2 + 1;
        i as usize
    }

    /// The stored index of the `i`-th interior cell in row-major order.
    pub fn index_public_to_inner(&self, i: usize) -> (inner: usize)
        requires
            i < self@.width * self@.height,
        ensures
            inner == inner_index_of(self@.width as int, i as int),
            is_interior_index(self@.width as int, self@.height as int, inner as int),
            public_index_of(self@.width as int, inner as int) == i,
    {
        proof {
            use_type_invariant(self);
            lemma_index_translation(self.width as int, self.height as int, i as int);
            lemma_coord_of_index(self.width as int, self.height as int, i as int);
            assert(self.width * self.height <= self.inner_width * self.inner_height)
                by (nonlinear_arith)
                requires
                    self.inner_width == self.width + 2,
                    self.inner_height == self.height + 2,
            ;
            assert((i / self.width + 1) * (self.width + 2) + i % self.width + 1 == i
                + self.inner_width + (i / self.width) * 2 + 1) by (nonlinear_arith)
                requires
                    i == (i / self.width) * self.width + i % self.width,
                    self.inner_width == self.width + 2,
            ;
        }
        let i = i as isize;
        let i = i + self.inner_width as isize + (i / self.width as isize) * 2 + 1;
        i as usize
    }

    /// The stored index at which a walk over the interior stops.
    pub(super) fn end_cursor_inner(&self) -> (end: usize)
        ensures
            end == self@.end_index(),
            self@.is_cursor(end as int),
            self@.position_of(end as int) == self@.width * self@.height,
    {
        proof {
            use_type_invariant(self);
            lemma_cursor(self@, self@.end_index());
        }
        self.cells.len() - self.inner_width - 1
    }

    /// The stored index at which a walk over the interior starts: the first
    /// interior cell, or the end if the interior is empty.
    pub(super) fn first_cursor_inner(&self) -> (first: usize)
        ensures
            first == self@.cursor_of(0),
            self@.is_cursor(first as int),
            self@.position_of(first as int) == 0,
    {
        proof {
            use_type_invariant(self);
        }
        if self.width == 0 || self.height == 0 {
            assert(self.width * self.height == 0) by (nonlinear_arith)
                requires
                    self.width == 0 || self.height == 0,
            ;
            self.end_cursor_inner()
        } else {
            proof {
                assert(0 < self.width * self.height) by (nonlinear_arith)
                    requires
                        self.width > 0,
                        self.height > 0,
                ;
                let w = self.width as int;
                assert(0int / w == 0 && 0int % w == 0 && (0int + 1) * (w + 2) == w + 2)
                    by (nonlinear_arith)
                    requires
                        w > 0,
                ;
                lemma_index_translation(self.width as int, self.height as int, 0);
                lemma_cursor(self@, inner_index_of(self.width as int, 0));
            }
            self.inner_width + 1
        }
    }

    /// The cursor that follows the one on the interior cell stored at
    /// `offset`: the next interior cell in row-major order, or the end.
    pub(super) fn next_cursor_inner(&self, offset: usize) -> (next: usize)
        requires
            is_interior_index(self@.width as int, self@.height as int, offset as int),
        ensures
            next == self@.cursor_of(self@.position_of(offset as int) + 1),
            self@.is_cursor(next as int),
            self@.position_of(next as int) == self@.position_of(offset as int) + 1,
    {
        proof {
            use_type_invariant(self);
            lemma_cursor(self@, offset as int);
            lemma_cursor_step(self@, offset as int);
            lemma_cursor(self@, self@.cursor_of(self@.position_of(offset as int) + 1));
        }
        let end = self.end_cursor_inner();
        let next = offset + 1;
        if next != end && next % self.inner_width == self.inner_width - 1 {
            next + 2
        } else {
            next
        }
    }

    /// The eight neighbours of the interior cell at the stored coordinate
    /// `(x, y)`, in the fixed enumeration order.
    pub fn iter_neighbors_inner(&self, x: usize, y: usize) -> (neighbors: NeighborhoodIterator<'_, C>)
        requires
            is_interior_coord(self@.width as int, self@.height as int, x as int, y as int),
        ensures
            neighbors == NeighborhoodIterator::fresh(self, (y * self@.inner_width() + x) as isize),
            neighbors.wf(),
            neighbors.board() == self@,
            neighbors.upcoming() == self@.neighbors(x - 1, y - 1),
    {
        proof {
            use_type_invariant(self);
            lemma_index_of_coord(
                self.inner_width as int,
                self.inner_height as int,
                x as int,
                y as int,
            );
            NeighborhoodIterator::lemma_fresh(self, (y * self.inner_width + x) as isize);
        }
        NeighborhoodIterator::new(self, self.coord_to_index_inner(x, y) as isize)
    }

    /// The eight neighbours of the interior cell stored at index `i`, in the
    /// fixed enumeration order.
    pub fn iter_neighbors_index_inner(&self, i: usize) -> (neighbors: NeighborhoodIterator<'_, C>)
        requires
            is_interior_index(self@.width as int, self@.height as int, i as int),
        ensures
            neighbors == NeighborhoodIterator::fresh(self, i as isize),
            neighbors.wf(),
            neighbors.board() == self@,
            neighbors.upcoming() == self@.neighbors_of_inner_index(i as int),
    {
        proof {
            use_type_invariant(self);
            lemma_interior_index(self.width as int, self.height as int, i as int);
            NeighborhoodIterator::lemma_fresh(self, i as isize);
        }
        NeighborhoodIterator::new(self, i as isize)
    }

    /// The cell stored at index `i`, border cells included, or nothing if
    /// the buffer has no such index.
    pub fn get_index_inner(&self, i: usize) -> (cell: Option<&C>)
        ensures
            cell == if i < self@.inner_cells().len() {
                Some(&self@.inner_cells()[i as int])
            } else {
                None
            },
    {
        proof {
            use_type_invariant(self);
            self.lemma_stored_cells();
        }
        if i < self.cells.len() {
            Some(&self.cells[i])
        } else {
            None
        }
    }

    /// The cell at the stored coordinate `(x, y)`, border cells included, or
    /// `backup_cell` if the coordinate lies outside the buffer.
    pub fn get_or<'a>(&'a self, x: usize, y: usize, backup_cell: &'a C) -> (cell: &'a C)
        ensures
            *cell == if x < self@.inner_width() && y < self@.inner_height() {
                self@.at(x - 1, y - 1)
            } else {
                *backup_cell
            },
    {
        proof {
            use_type_invariant(self);
        }
        if x < self.inner_width && y < self.inner_height {
            proof {
                self.lemma_stored_cell(x - 1, y - 1);
            }
            let i = self.coord_to_index_inner(x, y);
            &self.cells[i]
        } else {
            backup_cell
        }
    }

    /// Gives up the board for its stored buffer.
    pub fn to_vec(self) -> (cells: Vec<C>)
        ensures
            cells@ == self@.inner_cells(),
    {
        proof {
            use_type_invariant(&self);
            self.lemma_stored_cells();
        }
        self.cells
    }
}

} // verus!
