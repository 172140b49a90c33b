use crate::cell::Cell;
use crate::game::CellGame;
use crate::game_board::iter::NeighborhoodIterator;
use crate::game_rules::GameRule;
use crate::rgba::RGBA;
use vstd::prelude::*;

verus! {

/// A cell of Wireworld: empty space, a conductor, or one of the two halves
/// of an electron travelling along a conductor.
#[derive(Debug, Clone, Copy, PartialEq)]
pub enum WireCell {
    Off,
    Wire,
    ElectronHead,
    ElectronTail,
}

impl Cell for WireCell {
    open spec fn successor(&self) -> Self {
        match *self {
            WireCell::Off => WireCell::Wire,
            WireCell::Wire => WireCell::ElectronHead,
            WireCell::ElectronHead => WireCell::ElectronTail,
            WireCell::ElectronTail => WireCell::Off,
        }
    }

    open spec fn color(&self) -> RGBA {
        match *self {
            WireCell::Off => RGBA([0x00, 0x00, 0x00, 0x00]),
            WireCell::Wire => RGBA([0xCB, 0xCB, 0x5C, 0xFF]),
            WireCell::ElectronHead => RGBA([0xC5, 0x29, 0x29, 0xFF]),
            WireCell::ElectronTail => RGBA([0x29, 0x29, 0xC5, 0xFF]),
        }
    }

    fn to_rgba(&self) -> RGBA {
        match *self {
            Self::Off => RGBA::black(),
            Self::Wire => RGBA([0xCB, 0xCB, 0x5C, 0xFF]),
            Self::ElectronHead => RGBA([0xC5, 0x29, 0x29, 0xff]),
            Self::ElectronTail => RGBA([0x29, 0x29, 0xC5, 0xff]),
        }
    }

    fn next(&self) -> Self {
        match *self {
            WireCell::Off => WireCell::Wire,
            WireCell::Wire => WireCell::ElectronHead,
            WireCell::ElectronHead => WireCell::ElectronTail,
            WireCell::ElectronTail => WireCell::Off,
        }
    }
}

/// How many of `cells` are electron heads.
pub open spec fn count_heads(cells: Seq<WireCell>) -> nat
    decreases cells.len(),
{
    if cells.len() == 0 {
        0
    } else {
        count_heads(cells.drop_last()) + if cells.last() == WireCell::ElectronHead {
            1nat
        } else {
            0nat
        }
    }
}

/// The rule of Wireworld: empty space stays empty, an electron head becomes
/// a tail, a tail becomes conductor again, and a conductor becomes a head
/// if one or two of its neighbours are heads.
#[derive(Default, Clone, Copy)]
pub struct WireworldRule {}

impl GameRule for WireworldRule {
    type Cell = WireCell;

    open spec fn transition(cell: WireCell, neighbors: Seq<WireCell>) -> WireCell {
        match cell {
            WireCell::Off => WireCell::Off,
            WireCell::Wire => if 1 <= count_heads(neighbors) <= 2 {
                WireCell::ElectronHead
            } else {
                WireCell::Wire
            },
            WireCell::ElectronHead => WireCell::ElectronTail,
            WireCell::ElectronTail => WireCell::Wire,
        }
    }

    fn apply(cell: &WireCell, neighbor_iter: NeighborhoodIterator<WireCell>) -> WireCell {
        match *cell {
            WireCell::Off => WireCell::Off,
            WireCell::Wire => {
                let ghost neighbors = neighbor_iter.upcoming();
                let mut neighbor_iter = neighbor_iter;
                let mut sum: usize = 0;
                loop
                    invariant
                        neighbor_iter.wf(),
                        neighbors.len() == 8,
                        0 <= neighbor_iter.upcoming().len() <= 8,
                        neighbor_iter.upcoming() == neighbors.skip(
                            8 - neighbor_iter.upcoming().len(),
                        ),
                        sum == count_heads(neighbors.take(8 - neighbor_iter.upcoming().len())),
                        sum <= 8 - neighbor_iter.upcoming().len(),
                    ensures
                        sum == count_heads(neighbors),
                    decreases neighbor_iter.upcoming().len(),
                {
                    let ghost seen = 8 - neighbor_iter.upcoming().len();
                    match neighbor_iter.next() {
                        Some(neighbor) => {
                            proof {
                                assert(neighbors.take(seen + 1).drop_last() == neighbors.take(
                                    seen,
                                ));
                                assert(neighbor_iter.upcoming() == neighbors.skip(seen + 1));
                            }
                            if matches!(*neighbor, WireCell::ElectronHead) {
                                sum = sum + 1;
                            }
                        },
                        None => {
                            assert(neighbors.take(8) == neighbors);
                            break ;
                        },
                    }
                }
                if sum >= 1 && sum <= 2 {
                    WireCell::ElectronHead
                } else {
                    WireCell::Wire
                }
            },
            WireCell::ElectronHead => WireCell::ElectronTail,
            WireCell::ElectronTail => WireCell::Wire,
        }
    }
}

/// Wireworld.
pub type WireGame = CellGame<WireCell, WireworldRule>;

} // verus!
