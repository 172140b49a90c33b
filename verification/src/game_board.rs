pub mod board_view;
pub mod detail;
pub mod game_board_impl;
pub mod iter;
pub mod layout;

pub use self::board_view::{lemma_cleared, lemma_coord_round_trip, lemma_cursor};
pub use self::board_view::{lemma_cursor_step, lemma_inner_coord_round_trip};
pub use self::board_view::{lemma_inner_index_injective, lemma_neighbors};
pub use self::board_view::{lemma_neighbors_of_filled_board, BoardView};
pub use self::layout::{inner_coord_of, inner_index_of, is_interior_coord, is_interior_index};
pub use self::layout::{lemma_coord_of_index, lemma_index_of_coord, lemma_index_translation};
pub use self::layout::{lemma_interior_index, neighbor_offsets, neighbor_step};
pub use self::layout::{public_coord_of, public_index_of};
use crate::cell::Cell;
use vstd::arithmetic::div_mod::lemma_fundamental_div_mod;
use vstd::arithmetic::mul::lemma_mul_is_commutative;
use vstd::prelude::*;

verus! {

/// Why a board could not be built.
#[derive(Debug, Clone, Copy, PartialEq, Eq)]
pub enum BoardError {
    /// The number of cells handed in is not `width * height`.
    WrongElementCount,
}

impl BoardError {
    /// A sentence that says what went wrong.
    pub fn message(&self) -> (text: &'static str)
        ensures
            text@ == "Wrong number of elements!"@,
    {
        match self {
            BoardError::WrongElementCount => "Wrong number of elements!",
        }
    }
}

/// A bordered two-dimensional grid of cells.
///
/// The board keeps `(width + 2) * (height + 2)` cells in one buffer: the
/// interior, which callers address with `x < width` and `y < height`, and a
/// ring of border cells around it that no caller can reach or change. Every
/// border cell holds the same value, so a neighbour lookup at the edge reads
/// that value instead of running off the buffer.
///
/// Two kinds of coordinates and indices occur. The public ones count the
/// interior only and are what callers use. The inner ones count the stored
/// buffer, border included: the interior cell at the public coordinate
/// `(x, y)` has the inner coordinate `(x + 1, y + 1)` and is stored at the
/// inner index `(y + 1) * (width + 2) + (x + 1)`.
#[derive(Debug)]
pub struct GameBoard<C: Cell> {
    inner_width: usize,
    inner_height: usize,
    width: usize,
    height: usize,
    cells: Vec<C>,
    neighbor_lookup: [isize; 8],
}

impl<C: Cell> View for GameBoard<C> {
    type V = BoardView<C>;

    closed spec fn view(&self) -> BoardView<C> {
        BoardView {
            width: self.width as nat,
            height: self.height as nat,
            border: self.cells@[0],
            interior: Seq::new(
                (self.width * self.height) as nat,
                |i: int| self.cells@[inner_index_of(self.width as int, i)],
            ),
        }
    }
}

impl<C: Cell> GameBoard<C> {
    /// The representation is consistent: the stored sizes agree, the buffer
    /// has one cell per stored position and fits the signed index type, the
    /// offset table matches the row stride, and the border is uniform.
    #[verifier::type_invariant]
    pub closed spec fn wf(&self) -> bool {
        &&& self.inner_width == self.width + 2
        &&& self.inner_height == self.height + 2
        &&& self.cells@.len() == self.inner_width * self.inner_height
        &&& self.inner_width * self.inner_height <= isize::MAX
        &&& self.neighbor_lookup@.len() == 8
        &&& forall|k: int|
            0 <= k < 8 ==> #[trigger] self.neighbor_lookup@[k] == neighbor_offsets(
                self.inner_width as int,
            )[k]
        &&& forall|i: int|
            0 <= i < self.cells@.len() && !is_interior_index(
                self.width as int,
                self.height as int,
                i,
            ) ==> #[trigger] self.cells@[i] == self.cells@[0]
    }

    /// A consistent board has a well-formed view, and its buffer is small
    /// enough to be indexed with signed offsets.
    pub proof fn lemma_view_wf(&self)
        requires
            self.wf(),
        ensures
            self@.wf(),
            self@.inner_width() * self@.inner_height() <= isize::MAX,
    {
        assert(self.width * self.height >= 0) by (nonlinear_arith);
    }

    /// The stored cell at the position that stands for the public coordinate
    /// `(x, y)`, one step onto the border ring included, is the view's cell
    /// there.
    proof fn lemma_stored_cell(&self, x: int, y: int)
        requires
            self.wf(),
            -1 <= x <= self.width,
            -1 <= y <= self.height,
        ensures
            0 <= (y + 1) * (self.width + 2) + (x + 1) < self.cells@.len(),
            ((y + 1) * (self.width + 2) + (x + 1)) % (self.width + 2) == x + 1,
            ((y + 1) * (self.width + 2) + (x + 1)) / (self.width + 2) == y + 1,
            self.cells@[(y + 1) * (self.width + 2) + (x + 1)] == self@.at(x, y),
    {
        let w = self.width as int;
        let h = self.height as int;
        lemma_index_of_coord(w + 2, h + 2, x + 1, y + 1);
        if self@.in_bounds(x, y) {
            lemma_index_of_coord(w, h, x, y);
        }
    }

    /// Writing any value into the stored cell that stands for the interior
    /// coordinate `(x, y)` keeps the board consistent and changes its view at
    /// that one cell only.
    proof fn lemma_cell_update(&self, x: int, y: int)
        requires
            self.wf(),
            self@.in_bounds(x, y),
        ensures
            forall|other: Self|
                other.inner_width == self.inner_width && other.inner_height == self.inner_height
                    && other.width == self.width && other.height == self.height
                    && other.neighbor_lookup == self.neighbor_lookup && other.cells@.len()
                    == self.cells@.len() && (forall|i: int|
                    0 <= i < self.cells@.len() && i != (y + 1) * (self.width + 2) + (x + 1)
                        ==> other.cells@[i] == self.cells@[i]) ==> #[trigger] other.wf()
                    && other@ == self@.with_cell(
                    x,
                    y,
                    other.cells@[(y + 1) * (self.width + 2) + (x + 1)],
                ),
    {
        let w = self.width as int;
        let h = self.height as int;
        let target = (y + 1) * (w + 2) + (x + 1);
        self.lemma_stored_cell(x, y);
        lemma_index_of_coord(w + 2, h + 2, 0, 0);
        assert(w * h >= 0) by (nonlinear_arith)
            requires
                w >= 0,
                h >= 0,
        ;
        assert forall|other: Self|
            other.inner_width == self.inner_width && other.inner_height == self.inner_height
                && other.width == self.width && other.height == self.height
                && other.neighbor_lookup == self.neighbor_lookup && other.cells@.len()
                == self.cells@.len() && (forall|i: int|
                0 <= i < self.cells@.len() && i != target ==> other.cells@[i]
                    == self.cells@[i]) implies #[trigger] other.wf() && other@
            == self@.with_cell(x, y, other.cells@[target]) by {
            let expected = self@.with_cell(x, y, other.cells@[target]);
            assert forall|k: int| 0 <= k < w * h implies #[trigger] other@.interior[k]
                == expected.interior[k] by {
                lemma_index_translation(w, h, k);
                lemma_coord_of_index(w, h, k);
                lemma_index_of_coord(w, h, x, y);
            }
            lemma_index_of_coord(w, h, x, y);
            assert(other@.interior =~= expected.interior);
            assert(other@ =~= expected);
        }
    }

    /// Adding the `k`-th neighbour offset to the stored index of an interior
    /// cell lands inside the buffer, on the cell's `k`-th neighbour.
    proof fn lemma_neighbor_cell(&self, center: int, k: int)
        requires
            self.wf(),
            is_interior_index(self.width as int, self.height as int, center),
            0 <= k < 8,
        ensures
            0 <= center + self.neighbor_lookup@[k] < self.cells@.len(),
            self.cells@[center + self.neighbor_lookup@[k]] == self@.neighbors_of_inner_index(
                center,
            )[k],
            self@.neighbors_of_inner_index(center).len() == 8,
    {
        let w = self.width as int;
        let h = self.height as int;
        let px = center % (w + 2);
        let py = center / (w + 2);
        lemma_fundamental_div_mod(center, w + 2);
        lemma_mul_is_commutative(w + 2, py);
        assert(self.neighbor_lookup@[k] == neighbor_offsets(w + 2)[k]);
        let dx: int = if k == 0 || k == 3 || k == 5 {
            -1
        } else if k == 1 || k == 6 {
            0
        } else {
            1
        };
        let dy: int = if k < 3 {
            -1
        } else if k < 5 {
            0
        } else {
            1
        };
        self.lemma_stored_cell(px - 1 + dx, py - 1 + dy);
        assert((py + dy) * (w + 2) + (px + dx) == center + neighbor_offsets(w + 2)[k])
            by (nonlinear_arith)
            requires
                center == py * (w + 2) + px,
                -1 <= dy <= 1,
                neighbor_offsets(w + 2)[k] == dy * (w + 2) + dx,
        ;
    }

    /// The `i`-th interior cell of the view is kept at its stored index.
    proof fn lemma_interior_cell(&self, i: int)
        requires
            self.wf(),
            0 <= i < self.width * self.height,
        ensures
            0 <= inner_index_of(self.width as int, i) < self.cells@.len(),
            self@.interior.len() == self.width * self.height,
            self@.interior[i] == self.cells@[inner_index_of(self.width as int, i)],
    {
        lemma_index_translation(self.width as int, self.height as int, i);
    }

    /// `lemma_cell_update` for a cell given by its stored index.
    proof fn lemma_stored_cell_update(&self, target: int)
        requires
            self.wf(),
            is_interior_index(self.width as int, self.height as int, target),
        ensures
            forall|other: Self|
                other.inner_width == self.inner_width && other.inner_height == self.inner_height
                    && other.width == self.width && other.height == self.height
                    && other.neighbor_lookup == self.neighbor_lookup && other.cells@.len()
                    == self.cells@.len() && (forall|i: int|
                    0 <= i < self.cells@.len() && i != target ==> other.cells@[i]
                        == self.cells@[i]) ==> #[trigger] other.wf() && other@
                    == self@.with_interior(
                    self@.interior.update(
                        public_index_of(self.width as int, target),
                        other.cells@[target],
                    ),
                ),
    {
        let w = self.width as int;
        let h = self.height as int;
        lemma_interior_index(w, h, target);
        lemma_fundamental_div_mod(target, w + 2);
        lemma_mul_is_commutative(w + 2, target / (w + 2));
        self.lemma_cell_update(target % (w + 2) - 1, target / (w + 2) - 1);
        lemma_index_of_coord(w, h, target % (w + 2) - 1, target / (w + 2) - 1);
        assert(public_index_of(w, target) == (target / (w + 2) - 1) * w + (target % (w + 2) - 1));
    }

    /// The stored buffer is the view's buffer.
    proof fn lemma_stored_cells(&self)
        requires
            self.wf(),
        ensures
            self.cells@ == self@.inner_cells(),
    {
        let w = self.width as int;
        let h = self.height as int;
        assert forall|i: int| 0 <= i < self.cells@.len() implies self.cells@[i]
            == self@.inner_cells()[i] by {
            lemma_coord_of_index(w + 2, h + 2, i);
            self.lemma_stored_cell(i % (w + 2) - 1, i / (w + 2) - 1);
        }
        assert(self.cells@ =~= self@.inner_cells());
    }
}

} // verus!
