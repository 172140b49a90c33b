use vstd::arithmetic::div_mod::{lemma_div_pos_is_pos, lemma_mod_bound};
use vstd::arithmetic::div_mod::{lemma_fundamental_div_mod, lemma_fundamental_div_mod_converse};
use vstd::arithmetic::mul::{lemma_mul_inequality, lemma_mul_is_commutative};
use vstd::prelude::*;

verus! {

/// Stored coordinate of the interior cell at the public coordinate `(x, y)`:
/// one step in from the border on either axis.
pub open spec fn inner_coord_of(x: int, y: int) -> (int, int) {
    (x + 1, y + 1)
}

/// Public coordinate of the interior cell at the stored coordinate `(x, y)`.
pub open spec fn public_coord_of(x: int, y: int) -> (int, int) {
    (x - 1, y - 1)
}

/// The step from a cell to its `k`-th neighbour as `(dx, dy)`, in the
/// enumeration order of `BoardView::neighbors`.
pub open spec fn neighbor_step(k: int) -> (int, int) {
    if k == 0 {
        (-1, -1)
    } else if k == 1 {
        (0, -1)
    } else if k == 2 {
        (1, -1)
    } else if k == 3 {
        (-1, 0)
    } else if k == 4 {
        (1, 0)
    } else if k == 5 {
        (-1, 1)
    } else if k == 6 {
        (0, 1)
    } else {
        (1, 1)
    }
}

/// Stored index of the `i`-th interior cell of a board `width` cells wide.
pub open spec fn inner_index_of(width: int, i: int) -> int {
    (i / width + 1) * (width + 2) + (i % width) + 1
}

/// Row-major interior index of the cell stored at index `i`.
pub open spec fn public_index_of(width: int, i: int) -> int {
    (i / (width + 2) - 1) * width + (i % (width + 2)) - 1
}

/// Whether the stored coordinate `(x, y)` lies in the interior, that is, off
/// the border ring.
pub open spec fn is_interior_coord(width: int, height: int, x: int, y: int) -> bool {
    1 <= x <= width && 1 <= y <= height
}

/// Whether the stored index `i` addresses an interior cell.
pub open spec fn is_interior_index(width: int, height: int, i: int) -> bool {
    0 <= i && is_interior_coord(width, height, i % (width + 2), i / (width + 2))
}

/// The eight index offsets from a stored cell to its neighbours, in the
/// enumeration order of `BoardView::neighbors`.
pub open spec fn neighbor_offsets(inner_width: int) -> Seq<int> {
    seq![
        -inner_width - 1,
        -inner_width,
        -inner_width + 1,
        -1,
        1,
        inner_width - 1,
        inner_width,
        inner_width + 1,
    ]
}

/// A row-major index built from in-range coordinates is in range and splits
/// back into those coordinates.
pub proof fn lemma_index_of_coord(m: int, n: int, x: int, y: int)
    requires
        0 <= x < m,
        0 <= y < n,
    ensures
        0 <= y * m + x < m * n,
        (y * m + x) / m == y,
        (y * m + x) % m == x,
{
    lemma_fundamental_div_mod_converse(y * m + x, m, y, x);
    assert(y * m + x < m * n) by {
        lemma_mul_inequality(y + 1, n, m);
        lemma_mul_is_commutative(m, n);
        assert((y + 1) * m == y * m + m) by (nonlinear_arith);
    }
    assert(0 <= y * m) by (nonlinear_arith)
        requires
            0 <= y,
            0 <= m,
    ;
}

/// An in-range row-major index splits into in-range coordinates.
pub proof fn lemma_coord_of_index(m: int, n: int, i: int)
    requires
        0 <= i < m * n,
        0 <= n,
        0 <= m,
    ensures
        0 < m,
        0 <= i % m < m,
        0 <= i / m < n,
        i == (i / m) * m + i % m,
{
    assert(m != 0) by (nonlinear_arith)
        requires
            0 <= i < m * n,
    ;
    lemma_fundamental_div_mod(i, m);
    lemma_mod_bound(i, m);
    lemma_div_pos_is_pos(i, m);
    lemma_mul_is_commutative(m, i / m);
    if i / m >= n {
        lemma_mul_inequality(n, i / m, m);
        lemma_mul_is_commutative(m, n);
    }
}

/// The two index translations undo each other on the interior.
pub proof fn lemma_index_translation(width: int, height: int, i: int)
    requires
        0 <= width,
        0 <= height,
        0 <= i < width * height,
    ensures
        is_interior_index(width, height, inner_index_of(width, i)),
        inner_index_of(width, i) < (width + 2) * (height + 2),
        inner_index_of(width, i) % (width + 2) == i % width + 1,
        inner_index_of(width, i) / (width + 2) == i / width + 1,
        public_index_of(width, inner_index_of(width, i)) == i,
{
    lemma_coord_of_index(width, height, i);
    lemma_index_of_coord(width + 2, height + 2, i % width + 1, i / width + 1);
}

/// An interior stored index is in range, and translating it to the public
/// index and back returns it.
pub proof fn lemma_interior_index(width: int, height: int, i: int)
    requires
        0 <= width,
        0 <= height,
        is_interior_index(width, height, i),
    ensures
        0 <= i < (width + 2) * (height + 2),
        0 <= public_index_of(width, i) < width * height,
        public_index_of(width, i) == i - (width + 2) - (i / (width + 2)) * 2 + 1,
        public_index_of(width, i) % width == i % (width + 2) - 1,
        public_index_of(width, i) / width == i / (width + 2) - 1,
        inner_index_of(width, public_index_of(width, i)) == i,
{
    let px = i % (width + 2);
    let py = i / (width + 2);
    lemma_fundamental_div_mod(i, width + 2);
    lemma_mul_is_commutative(width + 2, py);
    lemma_index_of_coord(width + 2, height + 2, px, py);
    lemma_index_of_coord(width, height, px - 1, py - 1);
    assert((py - 1) * width + px - 1 == py * (width + 2) + px - (width + 2) - py * 2 + 1)
        by (nonlinear_arith);
}

} // verus!
