use crate::cell::{Cell, CellConway};
use crate::game_board::iter::{LocalGroupIterator, NeighborhoodIterator};
use crate::game_board::{lemma_index_of_coord, BoardView, GameBoard};
use std::marker::PhantomData;
use vstd::prelude::*;
use vstd::std_specs::iter::IteratorSpecImpl;

verus! {

/// A rule that says what a cell becomes, given the cell and its eight
/// neighbours.
///
/// A rule carries no state: `transition` is a function of its two arguments
/// alone, and `apply` computes it. The neighbours come in the fixed order
/// north-west, north, north-east, west, east, south-west, south, south-east.
pub trait GameRule: Copy + Default {
    type Cell: Cell;

    /// What the rule makes of `cell` when its neighbours are `neighbors`.
    spec fn transition(cell: Self::Cell, neighbors: Seq<Self::Cell>) -> Self::Cell;

    /// Applies the rule to `cell`, reading its neighbours from
    /// `neighbor_iter`, which has all eight of them ahead.
    fn apply(cell: &Self::Cell, neighbor_iter: NeighborhoodIterator<Self::Cell>) -> (next:
        Self::Cell)
        requires
            neighbor_iter.wf(),
            neighbor_iter.upcoming().len() == 8,
        ensures
            next == Self::transition(*cell, neighbor_iter.upcoming()),
    ;

    /// The cells of the generation that follows `board`, in row-major order.
    /// Each is computed from `board` as it stands; nothing is written back.
    ///
    /// The walk that comes back stands at the start of `board`, so what it
    /// has ahead is the whole of `next_generation` (`lemma_whole_generation`).
    fn iter<'a>(&self, board: &'a GameBoard<Self::Cell>) -> (cells: GameRuleIter<'a, Self>)
        ensures
            cells.rule == *self,
            cells.local_iter.wf(),
            cells.local_iter.board() == board@,
            cells.local_iter.passed() == 0,
    {
        GameRuleIter { rule: *self, local_iter: board.iter_local_groups() }
    }
}

/// The interior of the generation that follows `board` under the rule `R`:
/// each cell is the rule's transition of the old cell and its old
/// neighbours.
pub open spec fn next_generation<R: GameRule>(board: BoardView<R::Cell>) -> Seq<R::Cell> {
    Seq::new(
        board.interior.len(),
        |i: int| R::transition(board.interior[i], board.neighbors_of_index(i)),
    )
}

/// The board that follows `board` under the rule `R`: the same size and
/// border around the next generation's interior.
pub open spec fn stepped<R: GameRule>(board: BoardView<R::Cell>) -> BoardView<R::Cell> {
    board.with_interior(next_generation::<R>(board))
}

/// The board that `steps` generations under the rule `R` make of `board`.
pub open spec fn after_steps<R: GameRule>(board: BoardView<R::Cell>, steps: nat) -> BoardView<
    R::Cell,
>
    decreases steps,
{
    if steps == 0 {
        board
    } else {
        stepped::<R>(after_steps::<R>(board, (steps - 1) as nat))
    }
}

/// Each cell of the next generation is the rule's transition of the cell
/// and its neighbours on the board as it was, whatever the other cells
/// become; size and border carry over.
pub proof fn lemma_stepped<R: GameRule>(board: BoardView<R::Cell>, x: int, y: int)
    requires
        board.wf(),
        board.in_bounds(x, y),
    ensures
        stepped::<R>(board).wf(),
        stepped::<R>(board).width == board.width,
        stepped::<R>(board).height == board.height,
        stepped::<R>(board).border == board.border,
        stepped::<R>(board).at(x, y) == R::transition(board.at(x, y), board.neighbors(x, y)),
{
    lemma_index_of_coord(board.width as int, board.height as int, x, y);
}

/// Walks the cells of the next generation of a board in row-major order.
///
/// It is a walk over the board's local groups that applies the rule to each
/// group as it is handed out.
pub struct GameRuleIter<'a, Rule: GameRule> {
    pub rule: Rule,
    pub local_iter: LocalGroupIterator<'a, Rule::Cell>,
}

impl<'a, Rule: GameRule> GameRuleIter<'a, Rule> {
    /// The walk over the board underneath is consistent.
    pub open spec fn wf(&self) -> bool {
        self.local_iter.wf()
    }

    /// The board whose next generation is computed.
    pub open spec fn board(&self) -> BoardView<Rule::Cell> {
        self.local_iter.board()
    }

    /// How many cells of the next generation have been handed out.
    pub open spec fn passed(&self) -> int {
        self.local_iter.passed()
    }

    /// The cells of the next generation still to come.
    pub open spec fn upcoming(&self) -> Seq<Rule::Cell> {
        next_generation::<Rule>(self.board()).subrange(
            self.passed(),
            self.board().interior.len() as int,
        )
    }
}

impl<'a, Rule: GameRule> Iterator for GameRuleIter<'a, Rule> {
    type Item = Rule::Cell;

    fn next(&mut self) -> (ret: Option<Rule::Cell>)
        ensures
            final(self).wf(),
            final(self).board() == old(self).board(),
            match ret {
                Some(cell) => old(self).upcoming().len() > 0 && cell == old(self).upcoming()[0]
                    && final(self).upcoming() == old(self).upcoming().drop_first()
                    && final(self).passed() == old(self).passed() + 1,
                None => old(self).upcoming().len() == 0 && *final(self) == *old(self),
            },
    {
        proof {
            use_type_invariant(&self.local_iter);
            self.local_iter.lemma_passed();
            if self.passed() < self.board().interior.len() {
                self.local_iter.lemma_group(self.passed());
            }
        }
        match self.local_iter.next() {
            Some((c, n)) => {
                let cell = Rule::apply(c, n);
                proof {
                    assert(self.upcoming() =~= old(self).upcoming().drop_first());
                }
                Some(cell)
            },
            None => None,
        }
    }
}

impl<'a, Rule: GameRule> IteratorSpecImpl for GameRuleIter<'a, Rule> {
    open spec fn obeys_prophetic_iter_laws(&self) -> bool {
        true
    }

    open spec fn remaining(&self) -> Seq<Rule::Cell> {
        self.upcoming()
    }

    open spec fn will_return_none(&self) -> bool {
        true
    }

    open spec fn decrease(&self) -> Option<nat> {
        Some((self.board().interior.len() - self.passed()) as nat)
    }

    open spec fn initial_value_relation(&self, init: &Self) -> bool {
        self == init
    }

    open spec fn peek(&self, index: int) -> Option<Rule::Cell> {
        None
    }
}

/// A walk that has handed out nothing yet has the whole next generation
/// ahead.
pub proof fn lemma_whole_generation<'a, R: GameRule>(cells: GameRuleIter<'a, R>)
    requires
        cells.passed() == 0,
    ensures
        cells.upcoming() == next_generation::<R>(cells.board()),
{
    assert(cells.upcoming() =~= next_generation::<R>(cells.board()));
}

/// The rule that changes nothing: every cell stays what it is, whatever its
/// neighbours are.
pub struct IdentityRule<C: Cell> {
    cell: PhantomData<C>,
}

impl<C: Cell> Clone for IdentityRule<C> {
    fn clone(&self) -> (rule: Self)
        ensures
            rule == *self,
    {
        IdentityRule { cell: PhantomData }
    }
}

impl<C: Cell> Copy for IdentityRule<C> {

}

impl<C: Cell> Default for IdentityRule<C> {
    fn default() -> Self {
        IdentityRule { cell: PhantomData }
    }
}

impl<C: Cell> GameRule for IdentityRule<C> {
    type Cell = C;

    open spec fn transition(cell: C, neighbors: Seq<C>) -> C {
        cell
    }

    fn apply(cell: &C, neighbor_iter: NeighborhoodIterator<C>) -> C {
        *cell
    }
}

/// Under a rule whose transition returns every cell unchanged, such as
/// `IdentityRule`, a board stays exactly as it is, for any number of
/// generations.
pub proof fn lemma_identity_rule_is_stable<R: GameRule>(board: BoardView<R::Cell>, steps: nat)
    requires
        forall|cell: R::Cell, neighbors: Seq<R::Cell>|
            #[trigger] R::transition(cell, neighbors) == cell,
    ensures
        next_generation::<R>(board) == board.interior,
        stepped::<R>(board) == board,
        after_steps::<R>(board, steps) == board,
    decreases steps,
{
    assert(next_generation::<R>(board) =~= board.interior);
    assert(stepped::<R>(board) =~= board);
    if steps > 0 {
        lemma_identity_rule_is_stable::<R>(board, (steps - 1) as nat);
    }
}

/// How many of `cells` are alive.
pub open spec fn count_alive(cells: Seq<CellConway>) -> nat
    decreases cells.len(),
{
    if cells.len() == 0 {
        0
    } else {
        count_alive(cells.drop_last()) + if cells.last() == CellConway::Alive {
            1nat
        } else {
            0nat
        }
    }
}

/// The rule of Conway's Game of Life: a cell with exactly three living
/// neighbours lives, a living cell with exactly two stays alive, and every
/// other cell is dead.
#[derive(Clone, Copy, Default)]
pub struct ConwayRule {}

impl GameRule for ConwayRule {
    type Cell = CellConway;

    open spec fn transition(cell: CellConway, neighbors: Seq<CellConway>) -> CellConway {
        let alive = count_alive(neighbors);
        if alive == 3 || (alive == 2 && cell == CellConway::Alive) {
            CellConway::Alive
        } else {
            CellConway::Dead
        }
    }

    fn apply(cell: &CellConway, neighbor_iter: NeighborhoodIterator<CellConway>) -> CellConway {
        let ghost neighbors = neighbor_iter.upcoming();
        let mut neighbor_iter = neighbor_iter;
        let mut sum_alive: usize = 0;
        loop
            invariant
                neighbor_iter.wf(),
                neighbors.len() == 8,
                0 <= neighbor_iter.upcoming().len() <= 8,
                neighbor_iter.upcoming() == neighbors.skip(8 - neighbor_iter.upcoming().len()),
                sum_alive == count_alive(neighbors.take(8 - neighbor_iter.upcoming().len())),
                sum_alive <= 8 - neighbor_iter.upcoming().len(),
            ensures
                sum_alive == count_alive(neighbors),
            decreases neighbor_iter.upcoming().len(),
        {
            let ghost seen = 8 - neighbor_iter.upcoming().len();
            match neighbor_iter.next() {
                Some(c) => {
                    proof {
                        assert(neighbors.take(seen + 1).drop_last() == neighbors.take(seen));
                        assert(neighbor_iter.upcoming() == neighbors.skip(seen + 1));
                    }
                    match c {
                        CellConway::Dead => {},
                        CellConway::Alive => {
                            sum_alive = sum_alive + 1;
                        },
                    }
                },
                None => {
                    assert(neighbors.take(8) == neighbors);
                    break ;
                },
            }
        }
        match (*cell, sum_alive) {
            (CellConway::Alive, 2) => CellConway::Alive,
            (_, 3) => CellConway::Alive,
            _ => CellConway::Dead,
        }
    }
}

} // verus!
