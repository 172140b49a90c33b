use cell_engine::cell::CellConway::{Alive, Dead};
use cell_engine::cell::{Cell, CellConway};
use cell_engine::game::traits::{CellGame as CellGameTrait, RandCellGame};
use cell_engine::game::{CellGame, ConwaysGame};
use cell_engine::game_board::GameBoard;
use cell_engine::game_rules::{ConwayRule, GameRule, IdentityRule};
use cell_engine::langtons_ant::{Ant, LangtonsCell, LangtonsGame};
use cell_engine::wireworld::{WireCell, WireGame};

fn interior<C: Cell>(board: &GameBoard<C>) -> Vec<C> {
    board.iter().map(|cell| *cell).collect()
}

fn stored<C: Cell>(board: &GameBoard<C>) -> Vec<C> {
    board.clone().to_vec()
}

fn conway_game(width: usize, height: usize, alive: &[(usize, usize)]) -> ConwaysGame {
    let mut game = <ConwaysGame as CellGameTrait>::new(width, height, Dead);
    for &(x, y) in alive {
        game.next_cell(x, y);
    }
    game
}

#[test]
fn conway_step_on_two_by_two_fills_the_board() {
    let mut game = conway_game(2, 2, &[(1, 0), (0, 1), (1, 1)]);
    assert_eq!(interior(game.get_board()), vec![Dead, Alive, Alive, Alive]);
    game.step();
    assert_eq!(interior(game.get_board()), vec![Alive; 4]);
    assert_eq!(game.dim(), (2, 2));
}

#[test]
fn conway_block_is_stable_and_keeps_its_dead_border() {
    let mut game = conway_game(2, 2, &[(0, 0), (1, 0), (0, 1), (1, 1)]);
    let before = stored(game.get_board());
    for _ in 0..4 {
        game.step();
        assert_eq!(stored(game.get_board()), before);
    }
    assert_eq!(before.iter().filter(|c| **c == Alive).count(), 4);
    assert_eq!(before.len(), 16);
}

#[test]
fn conway_blinker_oscillates() {
    let mut game = conway_game(5, 5, &[(1, 2), (2, 2), (3, 2)]);
    let horizontal = interior(game.get_board());
    game.step();
    let vertical = interior(game.get_board());
    let mut expected = vec![Dead; 25];
    expected[1 * 5 + 2] = Alive;
    expected[2 * 5 + 2] = Alive;
    expected[3 * 5 + 2] = Alive;
    assert_eq!(vertical, expected);
    game.step();
    assert_eq!(interior(game.get_board()), horizontal);
}

#[test]
fn conway_lonely_cells_die_and_crowded_cells_die() {
    let mut game = conway_game(3, 3, &[(1, 1)]);
    game.step();
    assert_eq!(interior(game.get_board()), vec![Dead; 9]);

    let all: Vec<(usize, usize)> = (0..9).map(|i| (i % 3, i / 3)).collect();
    let mut game = conway_game(3, 3, &all);
    game.step();
    let expected = vec![Alive, Dead, Alive, Dead, Dead, Dead, Alive, Dead, Alive];
    assert_eq!(interior(game.get_board()), expected);
}

#[test]
fn step_equals_the_rule_applied_to_the_board_before_it() {
    let mut game = <ConwaysGame>::new_rand(7, 5);
    for _ in 0..10 {
        let snapshot = game.get_board().clone();
        let rule = ConwayRule {};
        let expected: Vec<CellConway> = rule.iter(&snapshot).collect();
        let recomputed: Vec<CellConway> = (0..35)
            .map(|i| {
                let cell = snapshot.get(i % 7, i / 7).unwrap();
                ConwayRule::apply(cell, snapshot.iter_neighbors(i % 7, i / 7))
            })
            .collect();
        game.step();
        assert_eq!(interior(game.get_board()), expected);
        assert_eq!(interior(game.get_board()), recomputed);
        assert_eq!(game.dim(), (7, 5));
    }
}

#[test]
fn identity_rule_leaves_the_board_as_it_is() {
    let mut game =
        <CellGame<WireCell, IdentityRule<WireCell>> as CellGameTrait>::new(3, 2, WireCell::Wire);
    game.next_cell(0, 0);
    game.next_cell(1, 0);
    game.next_cell(1, 0);
    game.next_cell(2, 1);
    game.next_cell(2, 1);
    game.next_cell(2, 1);
    let before = stored(game.get_board());
    assert_eq!(
        interior(game.get_board()),
        vec![
            WireCell::ElectronHead,
            WireCell::ElectronTail,
            WireCell::Wire,
            WireCell::Wire,
            WireCell::Wire,
            WireCell::Off
        ]
    );
    for _ in 0..5 {
        game.step();
        assert_eq!(stored(game.get_board()), before);
    }
}

#[test]
fn clear_fills_the_interior_and_spares_the_border() {
    let mut game = <WireGame as CellGameTrait>::new(4, 3, WireCell::Off);
    game.next_cell(2, 1);
    game.clear(WireCell::ElectronTail);
    assert_eq!(interior(game.get_board()), vec![WireCell::ElectronTail; 12]);
    let cells = stored(game.get_board());
    assert_eq!(cells.len(), 30);
    for (i, cell) in cells.iter().enumerate() {
        let (x, y) = (i % 6, i / 6);
        let on_border = x == 0 || x == 5 || y == 0 || y == 4;
        let expected = if on_border { WireCell::Off } else { WireCell::ElectronTail };
        assert_eq!(*cell, expected);
    }
    game.clear(WireCell::ElectronTail);
    assert_eq!(stored(game.get_board()), cells);
    // The border still reads as it did: a wire next to it sees no head.
    game.clear(WireCell::Wire);
    game.step();
    assert_eq!(interior(game.get_board()), vec![WireCell::Wire; 12]);
}

#[test]
fn next_cell_moves_one_cell_to_its_successor() {
    let mut game = <WireGame as CellGameTrait>::new(3, 3, WireCell::Off);
    game.next_cell(2, 1);
    let mut expected = vec![WireCell::Off; 9];
    expected[1 * 3 + 2] = WireCell::Wire;
    assert_eq!(interior(game.get_board()), expected);
    game.next_cell(2, 1);
    game.next_cell(2, 1);
    expected[1 * 3 + 2] = WireCell::ElectronTail;
    assert_eq!(interior(game.get_board()), expected);
    game.next_cell(2, 1);
    assert_eq!(interior(game.get_board()), vec![WireCell::Off; 9]);
}

#[test]
fn new_game_is_filled_with_the_border_cell() {
    let game = <ConwaysGame as CellGameTrait>::new(3, 4, Alive);
    assert_eq!(game.dim(), (3, 4));
    assert_eq!(stored(game.get_board()), vec![Alive; 30]);
}

#[test]
fn step_on_an_empty_board_does_nothing() {
    for (width, height) in [(0, 0), (0, 3), (3, 0)] {
        let mut game = <ConwaysGame as CellGameTrait>::new(width, height, Alive);
        game.step();
        game.clear(Dead);
        assert_eq!(game.dim(), (width, height));
        assert_eq!(interior(game.get_board()), vec![]);
        assert_eq!(stored(game.get_board()), vec![Alive; (width + 2) * (height + 2)]);
    }
}

#[test]
fn random_games_have_the_asked_size_and_border() {
    let game = ConwaysGame::new_rand(6, 4);
    assert_eq!(game.dim(), (6, 4));
    let cells = stored(game.get_board());
    assert_eq!(cells.len(), 48);
    for (i, cell) in cells.iter().enumerate() {
        let (x, y) = (i % 8, i / 8);
        if x == 0 || x == 7 || y == 0 || y == 5 {
            assert_eq!(*cell, Dead);
        }
    }

    let game = <LangtonsGame as RandCellGame>::new_rand(5, 5, LangtonsCell::Black(Some(Ant::North)));
    assert_eq!(game.dim(), (5, 5));
    let cells = stored(game.get_board());
    for (i, cell) in cells.iter().enumerate() {
        let (x, y) = (i % 7, i / 7);
        if x == 0 || x == 6 || y == 0 || y == 6 {
            assert_eq!(*cell, LangtonsCell::Black(Some(Ant::North)));
        } else {
            assert!(*cell == LangtonsCell::Black(None) || *cell == LangtonsCell::White(None));
        }
    }
}

#[test]
fn random_cells_take_both_values() {
    let game = ConwaysGame::new_rand(20, 20);
    let cells = interior(game.get_board());
    assert_eq!(cells.len(), 400);
    assert!(cells.iter().any(|c| *c == Alive));
    assert!(cells.iter().any(|c| *c == Dead));
}
