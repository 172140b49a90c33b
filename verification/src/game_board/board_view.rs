use super::layout::{inner_coord_of, inner_index_of, is_interior_coord, is_interior_index};
use super::layout::{lemma_index_of_coord, lemma_index_translation, lemma_interior_index};
use super::layout::{neighbor_step, public_coord_of, public_index_of};
use vstd::arithmetic::div_mod::lemma_fundamental_div_mod;
use vstd::arithmetic::mul::lemma_mul_is_commutative;
use vstd::prelude::*;

verus! {

/// What a board is, apart from how it is stored: its size, the one value that
/// lines its border, and its interior cells row by row.
///
/// Coordinates here are the public ones: `x` runs over `0..width` and `y` over
/// `0..height`. Every position outside that range reads as the border value,
/// which is what a neighbour lookup at the edge of the board sees.
#[verifier::ext_equal]
pub struct BoardView<C> {
    pub width: nat,
    pub height: nat,
    pub border: C,
    pub interior: Seq<C>,
}

impl<C> BoardView<C> {
    /// The interior holds exactly `width * height` cells.
    pub open spec fn wf(self) -> bool {
        self.interior.len() == self.width * self.height
    }

    /// A board of the given size on which every cell, border included, is `cell`.
    pub open spec fn uniform(width: nat, height: nat, cell: C) -> Self {
        BoardView { width, height, border: cell, interior: Seq::new(width * height, |i: int| cell) }
    }

    /// Whether `(x, y)` is the public coordinate of an interior cell.
    pub open spec fn in_bounds(self, x: int, y: int) -> bool {
        0 <= x < self.width && 0 <= y < self.height
    }

    /// Position of the cell at `(x, y)` in the row-major interior.
    pub open spec fn index_of(self, x: int, y: int) -> int {
        y * self.width + x
    }

    /// The cell at `(x, y)`; off the board, the border value.
    pub open spec fn at(self, x: int, y: int) -> C {
        if self.in_bounds(x, y) {
            self.interior[self.index_of(x, y)]
        } else {
            self.border
        }
    }

    /// The eight cells around `(x, y)` in the fixed order north-west, north,
    /// north-east, west, east, south-west, south, south-east.
    pub open spec fn neighbors(self, x: int, y: int) -> Seq<C> {
        seq![
            self.at(x - 1, y - 1),
            self.at(x, y - 1),
            self.at(x + 1, y - 1),
            self.at(x - 1, y),
            self.at(x + 1, y),
            self.at(x - 1, y + 1),
            self.at(x, y + 1),
            self.at(x + 1, y + 1),
        ]
    }

    /// The neighbours of the `i`-th interior cell in row-major order.
    pub open spec fn neighbors_of_index(self, i: int) -> Seq<C> {
        self.neighbors(i % (self.width as int), i / (self.width as int))
    }

    /// The neighbours of the interior cell stored at index `i`.
    pub open spec fn neighbors_of_inner_index(self, i: int) -> Seq<C> {
        self.neighbors(i % self.inner_width() - 1, i / self.inner_width() - 1)
    }

    /// The stored index at which a walk over the interior stops: the border
    /// cell that follows the last interior cell.
    pub open spec fn end_index(self) -> int {
        self.inner_width() * self.inner_height() - self.inner_width() - 1
    }

    /// Whether the stored index `offset` is a place where a walk over the
    /// interior can stand: on an interior cell, or at the end.
    pub open spec fn is_cursor(self, offset: int) -> bool {
        offset == self.end_index() || is_interior_index(
            self.width as int,
            self.height as int,
            offset,
        )
    }

    /// How many interior cells lie before the cursor `offset` in row-major
    /// order.
    pub open spec fn position_of(self, offset: int) -> int {
        if offset == self.end_index() {
            (self.width * self.height) as int
        } else {
            public_index_of(self.width as int, offset)
        }
    }

    /// The cursor that has `position` interior cells before it.
    pub open spec fn cursor_of(self, position: int) -> int {
        if position < self.width * self.height {
            inner_index_of(self.width as int, position)
        } else {
            self.end_index()
        }
    }

    /// This board with the cell at `(x, y)` replaced by `cell`.
    pub open spec fn with_cell(self, x: int, y: int, cell: C) -> Self {
        BoardView { interior: self.interior.update(self.index_of(x, y), cell), ..self }
    }

    /// This board with another interior.
    pub open spec fn with_interior(self, interior: Seq<C>) -> Self {
        BoardView { interior, ..self }
    }

    /// This board with every interior cell replaced by `cell`; the border stays.
    pub open spec fn cleared(self, cell: C) -> Self {
        self.with_interior(Seq::new(self.width * self.height, |i: int| cell))
    }

    /// Length of a stored row: the interior width and one border cell at
    /// either end.
    pub open spec fn inner_width(self) -> int {
        self.width as int + 2
    }

    /// Number of stored rows: the interior height and one border row above
    /// and below.
    pub open spec fn inner_height(self) -> int {
        self.height as int + 2
    }

    /// The stored buffer this board is kept in: `inner_width * inner_height`
    /// cells, row by row, the interior surrounded by a ring of border cells.
    pub open spec fn inner_cells(self) -> Seq<C> {
        Seq::new(
            (self.inner_width() * self.inner_height()) as nat,
            |i: int| self.at(i % self.inner_width() - 1, i / self.inner_width() - 1),
        )
    }
}

/// Translating a public coordinate of the board to its stored coordinate
/// and back returns the coordinate, and the stored coordinate in between is
/// an interior one whose stored index is in range and is the stored index of
/// the cell's row-major position.
pub proof fn lemma_coord_round_trip<C>(board: BoardView<C>, x: int, y: int)
    requires
        board.in_bounds(x, y),
    ensures
        is_interior_coord(
            board.width as int,
            board.height as int,
            inner_coord_of(x, y).0,
            inner_coord_of(x, y).1,
        ),
        public_coord_of(inner_coord_of(x, y).0, inner_coord_of(x, y).1) == (x, y),
        0 <= inner_coord_of(x, y).1 * board.inner_width() + inner_coord_of(x, y).0
            < board.inner_width() * board.inner_height(),
        inner_coord_of(x, y).1 * board.inner_width() + inner_coord_of(x, y).0 == inner_index_of(
            board.width as int,
            board.index_of(x, y),
        ),
        public_index_of(board.width as int, inner_index_of(board.width as int, board.index_of(x, y)))
            == board.index_of(x, y),
{
    let w = board.width as int;
    let h = board.height as int;
    lemma_index_of_coord(w, h, x, y);
    lemma_index_of_coord(w + 2, h + 2, x + 1, y + 1);
    lemma_index_translation(w, h, board.index_of(x, y));
}

/// Translating the stored coordinate of an interior cell to its public
/// coordinate and back returns the coordinate, and the public coordinate in
/// between is on the board.
pub proof fn lemma_inner_coord_round_trip<C>(board: BoardView<C>, x: int, y: int)
    requires
        is_interior_coord(board.width as int, board.height as int, x, y),
    ensures
        board.in_bounds(public_coord_of(x, y).0, public_coord_of(x, y).1),
        inner_coord_of(public_coord_of(x, y).0, public_coord_of(x, y).1) == (x, y),
{
}

/// Two different public coordinates of the board are kept at different
/// stored indices.
pub proof fn lemma_inner_index_injective<C>(board: BoardView<C>, x1: int, y1: int, x2: int, y2: int)
    requires
        board.in_bounds(x1, y1),
        board.in_bounds(x2, y2),
        inner_index_of(board.width as int, board.index_of(x1, y1)) == inner_index_of(
            board.width as int,
            board.index_of(x2, y2),
        ),
    ensures
        x1 == x2,
        y1 == y2,
{
    let w = board.width as int;
    let h = board.height as int;
    lemma_coord_round_trip(board, x1, y1);
    lemma_coord_round_trip(board, x2, y2);
    lemma_index_of_coord(w, h, x1, y1);
    lemma_index_of_coord(w, h, x2, y2);
}

/// Every neighbour of a cell on the board is the cell one step away in the
/// neighbour's direction: an interior cell if that position is on the board,
/// the border value if it is not.
pub proof fn lemma_neighbors<C>(board: BoardView<C>, x: int, y: int, k: int)
    requires
        0 <= k < 8,
    ensures
        board.neighbors(x, y).len() == 8,
        board.neighbors(x, y)[k] == board.at(x + neighbor_step(k).0, y + neighbor_step(k).1),
{
}

/// On a board whose interior cells all hold `cell`, a neighbour of an
/// interior cell is `cell` where it lies on the board and the border value
/// where it does not. So a cell away from the edge has eight neighbours equal
/// to `cell`, and a cell at the edge has as many as lie on the board.
pub proof fn lemma_neighbors_of_filled_board<C>(board: BoardView<C>, cell: C, x: int, y: int)
    requires
        board.wf(),
        board.in_bounds(x, y),
        forall|i: int| 0 <= i < board.interior.len() ==> board.interior[i] == cell,
    ensures
        forall|k: int|
            0 <= k < 8 ==> #[trigger] board.neighbors(x, y)[k] == if board.in_bounds(
                x + neighbor_step(k).0,
                y + neighbor_step(k).1,
            ) {
                cell
            } else {
                board.border
            },
        1 <= x < board.width - 1 && 1 <= y < board.height - 1 ==> board.neighbors(x, y)
            == Seq::new(8, |k: int| cell),
{
    assert forall|k: int| 0 <= k < 8 implies #[trigger] board.neighbors(x, y)[k]
        == if board.in_bounds(x + neighbor_step(k).0, y + neighbor_step(k).1) {
        cell
    } else {
        board.border
    } by {
        let nx = x + neighbor_step(k).0;
        let ny = y + neighbor_step(k).1;
        lemma_neighbors(board, x, y, k);
        if board.in_bounds(nx, ny) {
            lemma_index_of_coord(board.width as int, board.height as int, nx, ny);
        }
    }
    if 1 <= x < board.width - 1 && 1 <= y < board.height - 1 {
        assert(board.neighbors(x, y) =~= Seq::new(8, |k: int| cell));
    }
}

/// Clearing a board twice with the same cell is clearing it once, and a
/// cleared board holds the cell everywhere on its interior and keeps its
/// size and border.
pub proof fn lemma_cleared<C>(board: BoardView<C>, cell: C)
    ensures
        board.cleared(cell).cleared(cell) == board.cleared(cell),
        board.cleared(cell).wf(),
        board.cleared(cell).width == board.width,
        board.cleared(cell).height == board.height,
        board.cleared(cell).border == board.border,
        forall|i: int|
            0 <= i < board.width * board.height ==> #[trigger] board.cleared(cell).interior[i]
                == cell,
{
    assert(board.width * board.height >= 0) by (nonlinear_arith);
}

/// Cursors and positions correspond one to one, and the end is no interior
/// cell.
pub proof fn lemma_cursor<C>(board: BoardView<C>, offset: int)
    requires
        board.is_cursor(offset),
    ensures
        0 <= board.position_of(offset) <= board.width * board.height,
        board.cursor_of(board.position_of(offset)) == offset,
        0 <= offset <= board.end_index() < board.inner_width() * board.inner_height(),
        !is_interior_index(board.width as int, board.height as int, board.end_index()),
        offset != board.end_index() ==> board.position_of(offset) < board.width * board.height,
{
    let w = board.width as int;
    let h = board.height as int;
    lemma_index_of_coord(w + 2, h + 2, w + 1, h);
    assert((h + 2) * (w + 2) - (w + 2) - 1 == h * (w + 2) + (w + 1)) by (nonlinear_arith);
    lemma_mul_is_commutative(w + 2, h + 2);
    assert(w * h >= 0) by (nonlinear_arith)
        requires
            w >= 0,
            h >= 0,
    ;
    if offset != board.end_index() {
        lemma_interior_index(w, h, offset);
        lemma_index_of_coord(w + 2, h + 2, offset % (w + 2), offset / (w + 2));
        lemma_fundamental_div_mod(offset, w + 2);
        lemma_mul_is_commutative(w + 2, offset / (w + 2));
        assert(offset <= h * (w + 2) + (w + 1)) by (nonlinear_arith)
            requires
                offset == (offset / (w + 2)) * (w + 2) + offset % (w + 2),
                offset / (w + 2) <= h,
                offset % (w + 2) <= w,
                w >= 0,
        ;
    }
}

/// One step of a walk over the interior: from the cursor on an interior cell
/// to the cursor on the next one, skipping the two border cells at the end of
/// a row, or to the end.
pub proof fn lemma_cursor_step<C>(board: BoardView<C>, offset: int)
    requires
        is_interior_index(board.width as int, board.height as int, offset),
    ensures
        board.cursor_of(board.position_of(offset) + 1) == if (offset + 1) % board.inner_width()
            == board.inner_width() - 1 && offset + 1 != board.end_index() {
            offset + 3
        } else {
            offset + 1
        },
        board.position_of(offset) == public_index_of(board.width as int, offset),
        board.is_cursor(board.cursor_of(board.position_of(offset) + 1)),
        board.position_of(board.cursor_of(board.position_of(offset) + 1)) == board.position_of(
            offset,
        ) + 1,
{
    let w = board.width as int;
    let h = board.height as int;
    let px = offset % (w + 2);
    let py = offset / (w + 2);
    let position = public_index_of(w, offset);
    lemma_cursor(board, offset);
    lemma_interior_index(w, h, offset);
    lemma_fundamental_div_mod(offset, w + 2);
    lemma_mul_is_commutative(w + 2, py);
    assert((h + 2) * (w + 2) - (w + 2) - 1 == h * (w + 2) + (w + 1)) by (nonlinear_arith);
    lemma_mul_is_commutative(w + 2, h + 2);
    lemma_index_of_coord(w + 2, h + 2, w + 1, h);
    if px < w {
        lemma_index_of_coord(w + 2, h + 2, px + 1, py);
        lemma_index_of_coord(w, h, px, py - 1);
        lemma_index_translation(w, h, position + 1);
    } else if py < h {
        lemma_index_of_coord(w + 2, h + 2, w + 1, py);
        lemma_index_of_coord(w, h, 0, py);
        assert((py - 1) * w + w == py * w) by (nonlinear_arith);
        assert((py + 1) * (w + 2) + 1 == py * (w + 2) + w + 3) by (nonlinear_arith);
        lemma_index_translation(w, h, position + 1);
    } else {
        assert((h - 1) * w + w == w * h) by (nonlinear_arith);
    }
}

} // verus!
