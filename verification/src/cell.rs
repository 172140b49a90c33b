use crate::rgba::RGBA;
use rand::Rng;
use vstd::prelude::*;

verus! {

/// The state of one grid site.
///
/// A cell is a small copyable value. Its `successor` is the state that a
/// manual edit moves it to, whatever rule the simulation runs; its `color`
/// is how it is drawn. Both are functions of the cell alone.
pub trait Cell: Clone + Copy + PartialEq {
    /// The state that follows this one when the cell is edited by hand.
    spec fn successor(&self) -> Self;

    /// The colour this state is drawn in.
    spec fn color(&self) -> RGBA;

    /// The colour of this cell.
    fn to_rgba(&self) -> (rgba: RGBA)
        ensures
            rgba == self.color(),
    ;

    /// The successor of this cell.
    fn next(&self) -> (cell: Self)
        ensures
            cell == self.successor(),
    ;
}

/// A cell type that can be drawn at random.
pub trait RandomCell: Cell {
    /// A freshly sampled cell. Nothing is promised about which one.
    fn new_rand() -> Self;
}

/// Draws an integer from `low..=high` with the thread-local generator:
/// `rand::thread_rng().gen_range(low..=high)`.
///
/// Not verified: the contract is taken from `rand`. `gen_range` panics on an
/// empty range, which the precondition rules out. All that is claimed of the
/// result is that it lies within the range; two calls need not agree. The
/// generator seeds itself from the operating system and gives up if that has
/// no entropy to offer.
#[verifier::external_body]
pub(crate) fn gen_range_inclusive(low: i32, high: i32) -> (n: i32)
    requires
        low <= high,
    ensures
        low <= n <= high,
{
    rand::thread_rng().gen_range(low..=high)
}

/// A cell of Conway's Game of Life.
#[derive(Debug, Clone, Copy, PartialEq)]
pub enum CellConway {
    Dead,
    Alive,
}

impl CellConway {
    /// The cell that a sampled integer stands for: zero is dead, anything
    /// else is alive.
    pub open spec fn of_sample(n: int) -> CellConway {
        if n == 0 {
            CellConway::Dead
        } else {
            CellConway::Alive
        }
    }

    /// Turns a sampled integer into a cell.
    pub fn from_sample(n: i32) -> (cell: CellConway)
        ensures
            cell == Self::of_sample(n as int),
    {
        match n {
            0 => CellConway::Dead,
            _ => CellConway::Alive,
        }
    }
}

impl Cell for CellConway {
    open spec fn successor(&self) -> Self {
        match *self {
            CellConway::Dead => CellConway::Alive,
            CellConway::Alive => CellConway::Dead,
        }
    }

    open spec fn color(&self) -> RGBA {
        match *self {
            CellConway::Dead => RGBA([0x00, 0x00, 0x00, 0x00]),
            CellConway::Alive => RGBA([0xFF, 0xFF, 0xFF, 0xFF]),
        }
    }

    fn to_rgba(&self) -> RGBA {
        match *self {
            Self::Dead => RGBA::black(),
            Self::Alive => RGBA::white(),
        }
    }

    fn next(&self) -> Self {
        match *self {
            Self::Dead => Self::Alive,
            Self::Alive => Self::Dead,
        }
    }
}

impl RandomCell for CellConway {
    /// Samples `0..=1` and maps the outcome through `from_sample`, so either
    /// state can come out. Which one is left to chance: the cell is the one
    /// that some number of that range stands for, and no more is known of it.
    fn new_rand() -> (cell: Self)
        ensures
            exists|n: int| 0 <= n <= 1 && cell == #[trigger] CellConway::of_sample(n),
    {
        let sample = gen_range_inclusive(0, 1);
        CellConway::from_sample(sample)
    }
}

} // verus!
