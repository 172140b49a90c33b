use crate::cell::Cell;
use crate::game_board::{BoardView, GameBoard};
use crate::game_rules::{stepped, GameRule};
use vstd::prelude::*;

verus! {

/// A running simulation: a board that a rule moves from one generation to
/// the next.
pub trait CellGame: Sized {
    type Cell: Cell;

    type GameRule: GameRule<Cell = Self::Cell>;

    /// The game is consistent: whatever it keeps besides the active board
    /// fits that board.
    spec fn wf(&self) -> bool;

    /// The board of the generation that was committed last.
    spec fn board_view(&self) -> BoardView<Self::Cell>;

    fn get_board(&self) -> (board: &GameBoard<Self::Cell>)
        requires
            self.wf(),
        ensures
            board.wf(),
            board@ == self.board_view(),
    ;

    /// Moves the whole board on by one generation. Every interior cell
    /// becomes what the rule makes of it and its neighbours as they were
    /// before the step; the border and the size stay.
    fn step(&mut self)
        requires
            old(self).wf(),
        ensures
            final(self).wf(),
            final(self).board_view() == stepped::<Self::GameRule>(old(self).board_view()),
    ;

    /// Overwrites every interior cell with `clear_cell`; the border stays.
    fn clear(&mut self, clear_cell: Self::Cell)
        requires
            old(self).wf(),
        ensures
            final(self).wf(),
            final(self).board_view() == old(self).board_view().cleared(clear_cell),
    ;

    /// The size of the interior as `(width, height)`.
    fn dim(&self) -> (dim: (usize, usize))
        requires
            self.wf(),
        ensures
            dim.0 == self.board_view().width,
            dim.1 == self.board_view().height,
    ;

    /// Replaces the cell at `(x, y)` by its successor, whatever the rule
    /// says, and leaves every other cell as it was.
    fn next_cell(&mut self, x: usize, y: usize)
        requires
            old(self).wf(),
            old(self).board_view().in_bounds(x as int, y as int),
        ensures
            final(self).wf(),
            final(self).board_view() == old(self).board_view().with_cell(
                x as int,
                y as int,
                old(self).board_view().at(x as int, y as int).successor(),
            ),
    ;

    /// A game on a board of `width` by `height` interior cells in which every
    /// cell, border and interior alike, is `border_cell`.
    fn new(width: usize, height: usize, border_cell: Self::Cell) -> (game: Self)
        requires
            (width + 2) * (height + 2) <= isize::MAX,
        ensures
            game.wf(),
            game.board_view() == BoardView::uniform(width as nat, height as nat, border_cell),
    ;
}

/// A simulation that can start from a randomly filled board.
pub trait RandCellGame: CellGame {
    /// A game on a board of `width` by `height` interior cells whose border
    /// is `border_cell` and whose interior is sampled cell by cell.
    fn new_rand(width: usize, height: usize, border_cell: Self::Cell) -> (game: Self)
        requires
            (width + 2) * (height + 2) <= isize::MAX,
        ensures
            game.wf(),
            game.board_view().wf(),
            game.board_view().width == width,
            game.board_view().height == height,
            game.board_view().border == border_cell,
    ;
}

} // verus!
