use crate::cell::{gen_range_inclusive, Cell, RandomCell};
use crate::game::CellGame;
use crate::game_board::iter::NeighborhoodIterator;
use crate::game_rules::GameRule;
use crate::rgba::RGBA;
use vstd::prelude::*;

verus! {

/// The ant, by the direction it faces.
#[derive(Debug, PartialEq, Clone, Copy)]
pub enum Ant {
    North,
    West,
    South,
    East,
}

impl Ant {
    /// The direction a quarter turn clockwise from this one.
    pub open spec fn turned(self) -> Ant {
        match self {
            Ant::North => Ant::East,
            Ant::East => Ant::South,
            Ant::South => Ant::West,
            Ant::West => Ant::North,
        }
    }

    /// The ant after a quarter turn clockwise.
    pub fn next(&self) -> (ant: Ant)
        ensures
            ant == self.turned(),
    {
        match *self {
            Self::North => Self::East,
            Self::East => Self::South,
            Self::South => Self::West,
            Self::West => Self::North,
        }
    }
}

/// A cell of Langton's Ant: a black or a white field, with the ant on it or
/// without.
#[derive(Debug, PartialEq, Clone, Copy)]
pub enum LangtonsCell {
    Black(Option<Ant>),
    White(Option<Ant>),
}

/// The colour halfway between two colours: each channel is the mean of the
/// two channels, rounded down.
pub open spec fn blended(rgba_1: RGBA, rgba_2: RGBA) -> RGBA {
    RGBA(
        [
            ((rgba_1.0[0] + rgba_2.0[0]) / 2) as u8,
            ((rgba_1.0[1] + rgba_2.0[1]) / 2) as u8,
            ((rgba_1.0[2] + rgba_2.0[2]) / 2) as u8,
            ((rgba_1.0[3] + rgba_2.0[3]) / 2) as u8,
        ],
    )
}

/// Mixes two colours in equal parts.
pub fn blend_rgba_even(rgba_1: RGBA, rgba_2: RGBA) -> (rgba: RGBA)
    ensures
        rgba == blended(rgba_1, rgba_2),
{
    let mut rgba: [u8; 4] = [0;4];
    let mut i: usize = 0;
    while i < 4
        invariant
            i <= 4,
            forall|k: int|
                0 <= k < i ==> #[trigger] rgba@[k] == ((rgba_1.0@[k] + rgba_2.0@[k]) / 2) as u8,
        decreases 4 - i,
    {
        let v1 = rgba_1.0[i];
        let v2 = rgba_2.0[i];
        rgba[i] = ((v1 as u16 + v2 as u16) / 2) as u8;
        i = i + 1;
    }
    assert(rgba =~= blended(rgba_1, rgba_2).0);
    RGBA(rgba)
}

impl LangtonsCell {
    /// The cell that a sampled integer stands for: zero is an empty black
    /// field, anything else an empty white one.
    pub open spec fn of_sample(n: int) -> LangtonsCell {
        if n == 0 {
            LangtonsCell::Black(None)
        } else {
            LangtonsCell::White(None)
        }
    }

    /// Turns a sampled integer into a cell.
    pub fn from_sample(n: i32) -> (cell: LangtonsCell)
        ensures
            cell == Self::of_sample(n as int),
    {
        match n {
            0 => LangtonsCell::Black(None),
            _ => LangtonsCell::White(None),
        }
    }
}

impl Cell for LangtonsCell {
    /// Editing by hand cycles through the ten states: the two empty fields,
    /// then a white field with the ant facing each direction in turn, then a
    /// black one.
    open spec fn successor(&self) -> Self {
        match *self {
            LangtonsCell::Black(None) => LangtonsCell::White(None),
            LangtonsCell::White(None) => LangtonsCell::White(Some(Ant::North)),
            LangtonsCell::White(Some(Ant::West)) => LangtonsCell::Black(Some(Ant::North)),
            LangtonsCell::White(Some(ant)) => LangtonsCell::White(Some(ant.turned())),
            LangtonsCell::Black(Some(Ant::West)) => LangtonsCell::Black(None),
            LangtonsCell::Black(Some(ant)) => LangtonsCell::Black(Some(ant.turned())),
        }
    }

    open spec fn color(&self) -> RGBA {
        match *self {
            LangtonsCell::White(None) => RGBA([0xFF, 0xFF, 0xFF, 0xFF]),
            LangtonsCell::White(Some(_)) => blended(
                RGBA([0xFF, 0xFF, 0xFF, 0xFF]),
                RGBA([0xFF, 0x00, 0x00, 0xFF]),
            ),
            LangtonsCell::Black(None) => RGBA([0x00, 0x00, 0x00, 0x00]),
            LangtonsCell::Black(Some(_)) => blended(
                RGBA([0x00, 0x00, 0x00, 0x00]),
                RGBA([0xFF, 0x00, 0x00, 0xFF]),
            ),
        }
    }

    fn next(&self) -> Self {
        match *self {
            LangtonsCell::Black(None) => LangtonsCell::White(None),
            LangtonsCell::White(None) => LangtonsCell::White(Some(Ant::North)),
            LangtonsCell::White(Some(Ant::West)) => LangtonsCell::Black(Some(Ant::North)),
            LangtonsCell::White(Some(ant)) => LangtonsCell::White(Some(ant.next())),
            LangtonsCell::Black(Some(Ant::West)) => LangtonsCell::Black(None),
            LangtonsCell::Black(Some(ant)) => LangtonsCell::Black(Some(ant.next())),
        }
    }

    fn to_rgba(&self) -> RGBA {
        match *self {
            LangtonsCell::White(None) => RGBA::white(),
            LangtonsCell::White(Some(_)) => blend_rgba_even(RGBA::white(), RGBA::red()),
            LangtonsCell::Black(None) => RGBA::black(),
            LangtonsCell::Black(Some(_)) => blend_rgba_even(RGBA::black(), RGBA::red()),
        }
    }
}

impl RandomCell for LangtonsCell {
    /// Samples `0..=1` and maps the outcome through `from_sample`: an empty
    /// field of either colour, never one with the ant.
    fn new_rand() -> (cell: Self)
        ensures
            cell == LangtonsCell::Black(None) || cell == LangtonsCell::White(None),
    {
        LangtonsCell::from_sample(gen_range_inclusive(0, 1))
    }
}

/// Whether a cell holds the ant facing `white` on a white field or facing
/// `black` on a black one.
pub open spec fn holds_ant(cell: LangtonsCell, white: Ant, black: Ant) -> bool {
    cell == LangtonsCell::White(Some(white)) || cell == LangtonsCell::Black(Some(black))
}

/// The ant that shows up on a field, if any does, by the direction it then
/// faces. It is read off the four direct neighbours by their position in the
/// enumeration order:
///
/// - the northern neighbour (1) with the ant facing east on white or west on
///   black sends it on facing south;
/// - the western neighbour (3) with the ant facing south on white or north on
///   black sends it on facing west;
/// - the eastern neighbour (4) with the ant facing north on white or south on
///   black sends it on facing east;
/// - the southern neighbour (6) with the ant facing west on white or east on
///   black sends it on facing north.
///
/// Where several neighbours qualify, the first in that order counts.
pub open spec fn arriving_ant(neighbors: Seq<LangtonsCell>) -> Option<Ant> {
    if neighbors.len() > 1 && holds_ant(neighbors[1], Ant::East, Ant::West) {
        Some(Ant::South)
    } else if neighbors.len() > 3 && holds_ant(neighbors[3], Ant::South, Ant::North) {
        Some(Ant::West)
    } else if neighbors.len() > 4 && holds_ant(neighbors[4], Ant::North, Ant::South) {
        Some(Ant::East)
    } else if neighbors.len() > 6 && holds_ant(neighbors[6], Ant::West, Ant::East) {
        Some(Ant::North)
    } else {
        None
    }
}

/// The rule of Langton's Ant: the field the ant stands on flips its colour
/// and loses the ant; every other field keeps its colour and holds the ant
/// that shows up on it, if one does.
#[derive(Default, Clone, Copy)]
pub struct LangtonsRule {}

impl GameRule for LangtonsRule {
    type Cell = LangtonsCell;

    open spec fn transition(cell: LangtonsCell, neighbors: Seq<LangtonsCell>) -> LangtonsCell {
        match cell {
            LangtonsCell::White(Some(_)) => LangtonsCell::Black(None),
            LangtonsCell::Black(Some(_)) => LangtonsCell::White(None),
            LangtonsCell::White(None) => LangtonsCell::White(arriving_ant(neighbors)),
            LangtonsCell::Black(None) => LangtonsCell::Black(arriving_ant(neighbors)),
        }
    }

    fn apply(cell: &LangtonsCell, neighbor_iter: NeighborhoodIterator<LangtonsCell>) -> LangtonsCell {
        match *cell {
            LangtonsCell::White(Some(_)) => return LangtonsCell::Black(None),
            LangtonsCell::Black(Some(_)) => return LangtonsCell::White(None),
            _ => (),
        }
        let ghost neighbors = neighbor_iter.upcoming();
        let mut neighbor_iter = neighbor_iter;
        let mut ant = None;
        let mut i: usize = 0;

        // The positions tested are those of the four direct neighbours in the
        // order in which the iterator hands the eight neighbours out
        loop
            invariant_except_break
                neighbor_iter.upcoming() == neighbors.skip(i as int),
                ant == None::<Ant>,
                i > 1 ==> !holds_ant(neighbors[1], Ant::East, Ant::West),
                i > 3 ==> !holds_ant(neighbors[3], Ant::South, Ant::North),
                i > 4 ==> !holds_ant(neighbors[4], Ant::North, Ant::South),
                i > 6 ==> !holds_ant(neighbors[6], Ant::West, Ant::East),
            invariant
                neighbor_iter.wf(),
                neighbors.len() == 8,
                i <= 8,
            ensures
                ant == arriving_ant(neighbors),
            decreases 8 - i,
        {
            match neighbor_iter.next() {
                Some(neighbor) => {
                    proof {
                        assert(neighbor_iter.upcoming() == neighbors.skip(i + 1));
                        assert(*neighbor == neighbors[i as int]);
                    }
                    match (i, *neighbor) {
                        (1, LangtonsCell::White(Some(Ant::East)))
                        | (1, LangtonsCell::Black(Some(Ant::West))) => {
                            ant = Some(Ant::South);
                            break ;
                        },
                        (3, LangtonsCell::White(Some(Ant::South)))
                        | (3, LangtonsCell::Black(Some(Ant::North))) => {
                            ant = Some(Ant::West);
                            break ;
                        },
                        (4, LangtonsCell::White(Some(Ant::North)))
                        | (4, LangtonsCell::Black(Some(Ant::South))) => {
                            ant = Some(Ant::East);
                            break ;
                        },
                        (6, LangtonsCell::White(Some(Ant::West)))
                        | (6, LangtonsCell::Black(Some(Ant::East))) => {
                            ant = Some(Ant::North);
                            break ;
                        },
                        _ => (),
                    }
                    i = i + 1;
                },
                None => {
                    break ;
                },
            }
        }
        match *cell {
            LangtonsCell::White(_) => LangtonsCell::White(ant),
            LangtonsCell::Black(_) => LangtonsCell::Black(ant),
        }
    }
}

/// Langton's Ant.
pub type LangtonsGame = CellGame<LangtonsCell, LangtonsRule>;

} // verus!
