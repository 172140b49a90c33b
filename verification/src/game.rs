pub mod traits;

use self::traits::{CellGame as CellGameTrait, RandCellGame};
use crate::cell::{Cell, CellConway, RandomCell};
use crate::game_board::{lemma_cursor, BoardView, GameBoard};
use crate::game_rules::{lemma_whole_generation, next_generation};
use crate::game_rules::{ConwayRule, GameRule, GameRuleIter};
use vstd::prelude::*;

verus! {

/// A simulation with two boards of the same size and border: the active one
/// holds the generation committed last, the scratch one takes the generation
/// in the making. A step fills the scratch board from the active one and
/// then exchanges the two, so no cell is ever computed from a half-written
/// board.
#[verifier::reject_recursive_types(C)]
pub struct CellGame<C: Cell, R: GameRule<Cell = C>> {
    pub(crate) rule: R,
    pub(crate) board: GameBoard<C>,
    pub(crate) scratch_board: GameBoard<C>,
}

/// Overwrites the interior of `scratch` with `cells`, which has to hold one
/// cell for each interior position, and leaves its border as it was.
fn write_interior<C: Cell, R: GameRule<Cell = C>>(
    scratch: &mut GameBoard<C>,
    cells: GameRuleIter<'_, R>,
)
    requires
        cells.wf(),
        cells.passed() == 0,
        cells.board().interior.len() == old(scratch)@.interior.len(),
    ensures
        final(scratch)@ == old(scratch)@.with_interior(next_generation::<R>(cells.board())),
{
    let ghost generation = next_generation::<R>(cells.board());
    let ghost before = scratch@;
    proof {
        use_type_invariant(&*scratch);
        scratch.lemma_view_wf();
        lemma_whole_generation(cells);
    }
    let mut cells = cells;
    let mut targets = scratch.iter_mut();
    loop
        invariant
            targets.wf(),
            cells.wf(),
            generation.len() == before.interior.len(),
            0 <= targets.passed() <= generation.len(),
            cells.upcoming() == generation.skip(targets.passed()),
            targets.board@.width == before.width,
            targets.board@.height == before.height,
            targets.board@.border == before.border,
            targets.board@.interior.len() == before.interior.len(),
            forall|i: int|
                0 <= i < targets.passed() ==> #[trigger] targets.board@.interior[i]
                    == generation[i],
            after_borrow(*scratch) == *final(targets.board),
        ensures
            targets.board@ == before.with_interior(generation),
            after_borrow(*scratch) == *final(targets.board),
        decreases generation.len() - targets.passed(),
    {
        let ghost passed = targets.passed();
        proof {
            lemma_cursor(targets.board@, targets.offset as int);
            targets.board.lemma_view_wf();
        }
        match targets.next() {
            Some(scratch_cell) => {
                match cells.next() {
                    Some(cell) => {
                        *scratch_cell = cell;
                        proof {
                            assert(cells.upcoming() == generation.skip(passed + 1));
                        }
                    },
                    None => {
                        // Cannot happen: both walks have the same length
                        proof {
                            assert(false);
                        }
                    },
                }
            },
            None => {
                proof {
                    assert(targets.board@.interior =~= generation);
                    assert(targets.board@ =~= before.with_interior(generation));
                }
                break ;
            },
        }
    }
}

/// Overwrites every interior cell of `board` with `cell` and leaves its
/// border as it was.
fn fill_interior<C: Cell>(board: &mut GameBoard<C>, cell: C)
    ensures
        final(board)@ == old(board)@.cleared(cell),
{
    let ghost before = board@;
    proof {
        use_type_invariant(&*board);
        board.lemma_view_wf();
    }
    let mut targets = board.iter_mut();
    loop
        invariant
            targets.wf(),
            before.wf(),
            0 <= targets.passed() <= before.interior.len(),
            targets.board@.width == before.width,
            targets.board@.height == before.height,
            targets.board@.border == before.border,
            targets.board@.interior.len() == before.interior.len(),
            forall|i: int|
                0 <= i < targets.passed() ==> #[trigger] targets.board@.interior[i] == cell,
            after_borrow(*board) == *final(targets.board),
        ensures
            targets.board@ == before.cleared(cell),
            after_borrow(*board) == *final(targets.board),
        decreases before.interior.len() - targets.passed(),
    {
        proof {
            lemma_cursor(targets.board@, targets.offset as int);
            targets.board.lemma_view_wf();
        }
        match targets.next() {
            Some(target) => {
                *target = cell;
            },
            None => {
                proof {
                    assert(targets.board@.interior =~= before.cleared(cell).interior);
                    assert(targets.board@ =~= before.cleared(cell));
                }
                break ;
            },
        }
    }
}

impl<C: RandomCell, R: GameRule<Cell = C>> RandCellGame for CellGame<C, R> {
    fn new_rand(width: usize, height: usize, border_cell: C) -> (game: Self) {
        let board = GameBoard::new_rand(width, height, border_cell);
        Self { rule: R::default(), board: board.clone(), scratch_board: board }
    }
}

impl<C: Cell, R: GameRule<Cell = C>> CellGameTrait for CellGame<C, R> {
    type Cell = C;

    type GameRule = R;

    /// The two boards have the same size and the same border.
    closed spec fn wf(&self) -> bool {
        &&& self.board@.width == self.scratch_board@.width
        &&& self.board@.height == self.scratch_board@.height
        &&& self.board@.border == self.scratch_board@.border
    }

    closed spec fn board_view(&self) -> BoardView<C> {
        self.board@
    }

    fn get_board(&self) -> (board: &GameBoard<C>) {
        proof {
            use_type_invariant(&self.board);
        }
        &self.board
    }

    fn step(&mut self) {
        proof {
            use_type_invariant(&self.board);
            use_type_invariant(&self.scratch_board);
            self.board.lemma_view_wf();
            self.scratch_board.lemma_view_wf();
        }
        write_interior(&mut self.scratch_board, self.rule.iter(&self.board));
        self.board.swap(&mut self.scratch_board);
    }

    fn clear(&mut self, clear_cell: C) {
        fill_interior(&mut self.board, clear_cell);
    }

    fn dim(&self) -> (dim: (usize, usize)) {
        self.board.dim()
    }

    fn next_cell(&mut self, x: usize, y: usize) {
        match self.board.get(x, y) {
            Some(cur_cell) => {
                let next_cell = cur_cell.next();
                self.board.set(x, y, next_cell);
            },
            None => {},
        }
    }

    fn new(width: usize, height: usize, border_cell: C) -> (game: Self) {
        let board = GameBoard::<C>::new(width, height, border_cell);
        Self { rule: R::default(), board: board.clone(), scratch_board: board }
    }
}

/// Conway's Game of Life.
pub type ConwaysGame = CellGame<CellConway, ConwayRule>;

impl ConwaysGame {
    /// A Game of Life of `width` by `height` interior cells with a dead
    /// border and a randomly sampled interior.
    pub fn new_rand(width: usize, height: usize) -> (game: ConwaysGame)
        requires
            (width + 2) * (height + 2) <= isize::MAX,
        ensures
            game.wf(),
            game.board_view().wf(),
            game.board_view().width == width,
            game.board_view().height == height,
            game.board_view().border == CellConway::Dead,
    {
        let board = GameBoard::new_rand(width, height, CellConway::Dead);
        ConwaysGame { rule: ConwayRule {  }, board: board.clone(), scratch_board: board }
    }
}

} // verus!
