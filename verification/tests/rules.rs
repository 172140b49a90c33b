use cell_engine::cell::CellConway::{Alive, Dead};
use cell_engine::cell::{Cell, CellConway, RandomCell};
use cell_engine::game::traits::CellGame as CellGameTrait;
use cell_engine::game::CellGame;
use cell_engine::game_board::GameBoard;
use cell_engine::game_rules::{ConwayRule, GameRule, IdentityRule};
use cell_engine::langtons_ant::{blend_rgba_even, Ant, LangtonsCell, LangtonsGame, LangtonsRule};
use cell_engine::rgba::RGBA;
use cell_engine::wireworld::{WireCell, WireGame, WireworldRule};

use LangtonsCell::{Black, White};

fn interior<C: Cell>(board: &GameBoard<C>) -> Vec<C> {
    board.iter().map(|cell| *cell).collect()
}

fn conway_board(cells: [CellConway; 9]) -> GameBoard<CellConway> {
    GameBoard::from_slice(&cells, 3, 3, Dead).unwrap()
}

fn apply_conway(cells: [CellConway; 9]) -> CellConway {
    let board = conway_board(cells);
    ConwayRule::apply(board.get(1, 1).unwrap(), board.iter_neighbors(1, 1))
}

#[test]
fn conway_rule_by_number_of_living_neighbours() {
    let d = Dead;
    let a = Alive;
    assert_eq!(apply_conway([d, d, d, d, d, d, d, d, d]), Dead);
    assert_eq!(apply_conway([d, d, d, d, a, d, d, d, d]), Dead);
    assert_eq!(apply_conway([a, d, d, d, a, d, d, d, d]), Dead);
    assert_eq!(apply_conway([a, a, d, d, d, d, d, d, d]), Dead);
    assert_eq!(apply_conway([a, a, d, d, a, d, d, d, d]), Alive);
    assert_eq!(apply_conway([a, a, d, d, d, d, d, d, a]), Alive);
    assert_eq!(apply_conway([a, a, d, d, a, d, d, d, a]), Alive);
    assert_eq!(apply_conway([a, a, d, a, a, d, d, d, a]), Dead);
    assert_eq!(apply_conway([a, a, d, a, d, d, d, d, a]), Dead);
    assert_eq!(apply_conway([a, a, a, a, a, a, a, a, a]), Dead);
    assert_eq!(apply_conway([a, a, a, a, d, a, a, a, a]), Dead);
}

#[test]
fn rule_iter_visits_every_interior_cell_once() {
    let board = GameBoard::new(4, 3, Dead);
    let rule = ConwayRule {};
    assert_eq!(rule.iter(&board).count(), 12);
    let mut cells = rule.iter(&board);
    for _ in 0..12 {
        assert_eq!(cells.next(), Some(Dead));
    }
    assert_eq!(cells.next(), None);
    assert_eq!(cells.next(), None);
}

#[test]
fn rule_iter_does_not_write_to_the_board() {
    let mut board = GameBoard::new(2, 2, Dead);
    board.set(1, 0, Alive);
    board.set(0, 1, Alive);
    board.set(1, 1, Alive);
    let before = board.clone().to_vec();
    let rule = ConwayRule {};
    let next: Vec<CellConway> = rule.iter(&board).collect();
    assert_eq!(next, vec![Alive; 4]);
    assert_eq!(board.clone().to_vec(), before);
    assert_eq!(interior(&board), vec![Dead, Alive, Alive, Alive]);
}

#[test]
fn identity_rule_returns_the_cell() {
    let board = GameBoard::from_slice(
        &[WireCell::Wire, WireCell::ElectronHead, WireCell::Off, WireCell::ElectronTail],
        2,
        2,
        WireCell::ElectronHead,
    )
    .unwrap();
    let rule = IdentityRule::<WireCell>::default();
    let cells: Vec<WireCell> = rule.iter(&board).collect();
    assert_eq!(cells, interior(&board));
}

#[test]
fn conway_cells_toggle_and_have_two_colours() {
    assert_eq!(Dead.next(), Alive);
    assert_eq!(Alive.next(), Dead);
    assert_eq!(Dead.to_rgba().get_raw(), [0, 0, 0, 0]);
    assert_eq!(Alive.to_rgba().get_raw(), [255, 255, 255, 255]);
    assert_eq!(CellConway::from_sample(0), Dead);
    assert_eq!(CellConway::from_sample(1), Alive);
    assert_eq!(CellConway::from_sample(-7), Alive);
    for _ in 0..50 {
        let cell = CellConway::new_rand();
        assert!(cell == Dead || cell == Alive);
    }
}

#[test]
fn random_conway_cells_take_both_values() {
    let cells: Vec<CellConway> = (0..300).map(|_| CellConway::new_rand()).collect();
    assert!(cells.iter().any(|c| *c == Alive));
    assert!(cells.iter().any(|c| *c == Dead));
}

#[test]
fn wire_cells_cycle_through_four_states() {
    assert_eq!(WireCell::Off.next(), WireCell::Wire);
    assert_eq!(WireCell::Wire.next(), WireCell::ElectronHead);
    assert_eq!(WireCell::ElectronHead.next(), WireCell::ElectronTail);
    assert_eq!(WireCell::ElectronTail.next(), WireCell::Off);
    assert_eq!(WireCell::Off.to_rgba().get_raw(), [0x00, 0x00, 0x00, 0x00]);
    assert_eq!(WireCell::Wire.to_rgba().get_raw(), [0xCB, 0xCB, 0x5C, 0xFF]);
    assert_eq!(WireCell::ElectronHead.to_rgba().get_raw(), [0xC5, 0x29, 0x29, 0xFF]);
    assert_eq!(WireCell::ElectronTail.to_rgba().get_raw(), [0x29, 0x29, 0xC5, 0xFF]);
}

fn apply_wire(cells: [WireCell; 9]) -> WireCell {
    let board = GameBoard::from_slice(&cells, 3, 3, WireCell::Off).unwrap();
    WireworldRule::apply(board.get(1, 1).unwrap(), board.iter_neighbors(1, 1))
}

#[test]
fn wireworld_rule_by_cell_and_number_of_heads() {
    let o = WireCell::Off;
    let w = WireCell::Wire;
    let h = WireCell::ElectronHead;
    let t = WireCell::ElectronTail;
    assert_eq!(apply_wire([h, h, h, h, o, h, h, h, h]), o);
    assert_eq!(apply_wire([o, o, o, o, h, o, o, o, o]), t);
    assert_eq!(apply_wire([h, h, o, o, t, o, o, o, o]), w);
    assert_eq!(apply_wire([w, t, o, w, w, o, o, o, o]), w);
    assert_eq!(apply_wire([h, t, o, w, w, o, o, o, o]), h);
    assert_eq!(apply_wire([h, t, o, w, w, o, o, o, h]), h);
    assert_eq!(apply_wire([h, t, o, w, w, o, h, o, h]), w);
    assert_eq!(apply_wire([h, h, h, h, w, h, h, h, h]), w);
}

#[test]
fn wireworld_electron_travels_along_a_wire() {
    let o = WireCell::Off;
    let w = WireCell::Wire;
    let h = WireCell::ElectronHead;
    let t = WireCell::ElectronTail;
    let mut game = <WireGame as CellGameTrait>::new(5, 1, o);
    // Off -> Wire -> ElectronHead -> ElectronTail takes one, two and three edits
    for (x, edits) in [(0, 3), (1, 2), (2, 1), (3, 1), (4, 1)] {
        for _ in 0..edits {
            game.next_cell(x, 0);
        }
    }
    assert_eq!(interior(game.get_board()), vec![t, h, w, w, w]);
    game.step();
    assert_eq!(interior(game.get_board()), vec![w, t, h, w, w]);
    game.step();
    assert_eq!(interior(game.get_board()), vec![w, w, t, h, w]);
    game.step();
    assert_eq!(interior(game.get_board()), vec![w, w, w, t, h]);
    game.step();
    assert_eq!(interior(game.get_board()), vec![w, w, w, w, t]);
    game.step();
    assert_eq!(interior(game.get_board()), vec![w, w, w, w, w]);
}

#[test]
fn ant_turns_clockwise() {
    assert_eq!(Ant::North.next(), Ant::East);
    assert_eq!(Ant::East.next(), Ant::South);
    assert_eq!(Ant::South.next(), Ant::West);
    assert_eq!(Ant::West.next(), Ant::North);
}

#[test]
fn langtons_cells_cycle_through_ten_states() {
    let cycle = [
        Black(None),
        White(None),
        White(Some(Ant::North)),
        White(Some(Ant::East)),
        White(Some(Ant::South)),
        White(Some(Ant::West)),
        Black(Some(Ant::North)),
        Black(Some(Ant::East)),
        Black(Some(Ant::South)),
        Black(Some(Ant::West)),
    ];
    for i in 0..10 {
        assert_eq!(cycle[i].next(), cycle[(i + 1) % 10]);
    }
}

#[test]
fn langtons_cells_have_four_colours() {
    assert_eq!(White(None).to_rgba().get_raw(), [255, 255, 255, 255]);
    assert_eq!(Black(None).to_rgba().get_raw(), [0, 0, 0, 0]);
    for ant in [Ant::North, Ant::East, Ant::South, Ant::West] {
        assert_eq!(White(Some(ant)).to_rgba().get_raw(), [255, 127, 127, 255]);
        assert_eq!(Black(Some(ant)).to_rgba().get_raw(), [127, 0, 0, 127]);
    }
}

#[test]
fn blend_takes_the_mean_of_each_channel() {
    let mixed = blend_rgba_even(RGBA([0, 1, 2, 255]), RGBA([0, 2, 255, 255]));
    assert_eq!(mixed.get_raw(), [0, 1, 128, 255]);
    let mixed = blend_rgba_even(RGBA::white(), RGBA::red());
    assert_eq!(mixed.get_raw(), [255, 127, 127, 255]);
    let mixed = blend_rgba_even(RGBA::green(), RGBA::blue());
    assert_eq!(mixed.get_raw(), [0, 127, 127, 255]);
}

#[test]
fn langtons_sampled_cells_are_empty_fields() {
    assert_eq!(LangtonsCell::from_sample(0), Black(None));
    assert_eq!(LangtonsCell::from_sample(1), White(None));
    let cells: Vec<LangtonsCell> = (0..300).map(|_| LangtonsCell::new_rand()).collect();
    assert!(cells.iter().all(|c| *c == Black(None) || *c == White(None)));
    assert!(cells.iter().any(|c| *c == Black(None)));
    assert!(cells.iter().any(|c| *c == White(None)));
}

fn apply_langton(cells: [LangtonsCell; 9]) -> LangtonsCell {
    let board = GameBoard::from_slice(&cells, 3, 3, Black(None)).unwrap();
    LangtonsRule::apply(board.get(1, 1).unwrap(), board.iter_neighbors(1, 1))
}

#[test]
fn langtons_rule_reads_the_four_direct_neighbours_by_position() {
    let b = Black(None);
    let w = White(None);
    let we = White(Some(Ant::East));
    let bw = Black(Some(Ant::West));
    let ws = White(Some(Ant::South));
    let bn = Black(Some(Ant::North));
    let wn = White(Some(Ant::North));
    let bs = Black(Some(Ant::South));
    let ww = White(Some(Ant::West));
    let be = Black(Some(Ant::East));

    // The field under the ant flips and loses the ant
    assert_eq!(apply_langton([b, we, b, b, wn, b, b, b, b]), b);
    assert_eq!(apply_langton([b, we, b, b, bs, b, b, b, b]), w);
    // No ant around
    assert_eq!(apply_langton([b, b, b, b, b, b, b, b, b]), b);
    assert_eq!(apply_langton([w, w, w, w, w, w, w, w, w]), w);
    // Read from the northern neighbour
    assert_eq!(apply_langton([b, we, b, b, b, b, b, b, b]), Black(Some(Ant::South)));
    assert_eq!(apply_langton([b, bw, b, b, w, b, b, b, b]), White(Some(Ant::South)));
    // Read from the western neighbour
    assert_eq!(apply_langton([b, b, b, ws, b, b, b, b, b]), Black(Some(Ant::West)));
    assert_eq!(apply_langton([b, b, b, bn, w, b, b, b, b]), White(Some(Ant::West)));
    // Read from the eastern neighbour
    assert_eq!(apply_langton([b, b, b, b, b, wn, b, b, b]), Black(Some(Ant::East)));
    assert_eq!(apply_langton([b, b, b, b, w, bs, b, b, b]), White(Some(Ant::East)));
    // Read from the southern neighbour
    assert_eq!(apply_langton([b, b, b, b, b, b, b, ww, b]), Black(Some(Ant::North)));
    assert_eq!(apply_langton([b, b, b, b, w, b, b, be, b]), White(Some(Ant::North)));
    // An ant that faces another way, or stands on a diagonal, does not arrive
    assert_eq!(apply_langton([b, wn, b, b, b, b, b, b, b]), b);
    assert_eq!(apply_langton([b, b, b, we, b, b, b, b, b]), b);
    assert_eq!(apply_langton([we, b, ws, b, b, b, wn, b, ww]), b);
    // The same state at another position is read differently
    assert_eq!(apply_langton([b, ws, b, b, b, b, b, b, b]), b);
    assert_eq!(apply_langton([b, b, b, b, b, ws, b, b, b]), b);
    // Of several arriving ants the first position in the order counts
    assert_eq!(apply_langton([b, we, b, ws, b, wn, b, ww, b]), Black(Some(Ant::South)));
    assert_eq!(apply_langton([b, b, b, ws, b, wn, b, ww, b]), Black(Some(Ant::West)));
    assert_eq!(apply_langton([b, b, b, b, b, wn, b, ww, b]), Black(Some(Ant::East)));
}

#[test]
fn langtons_ant_walks() {
    let mut game = <LangtonsGame as CellGameTrait>::new(3, 3, Black(None));
    // Black(None) -> White(None) -> White(North) takes two edits
    game.next_cell(1, 1);
    game.next_cell(1, 1);
    assert_eq!(*game.get_board().get(1, 1).unwrap(), White(Some(Ant::North)));
    game.step();
    let b = Black(None);
    // The white field turns black; the ant shows up on the field that has it
    // as its eastern neighbour, facing east
    assert_eq!(
        interior(game.get_board()),
        vec![b, b, b, Black(Some(Ant::East)), b, b, b, b, b]
    );
    game.step();
    // The black field turns white; the ant shows up on the field that has it
    // as its southern neighbour, facing north
    assert_eq!(
        interior(game.get_board()),
        vec![Black(Some(Ant::North)), b, b, White(None), b, b, b, b, b]
    );
}

#[test]
fn games_of_each_rule_share_the_engine() {
    let mut life = <CellGame<CellConway, ConwayRule> as CellGameTrait>::new(1, 1, Alive);
    life.step();
    // One cell with a living border has eight living neighbours
    assert_eq!(interior(life.get_board()), vec![Dead]);
    let mut wire = <WireGame as CellGameTrait>::new(1, 1, WireCell::ElectronHead);
    wire.step();
    assert_eq!(interior(wire.get_board()), vec![WireCell::ElectronTail]);
    wire.step();
    assert_eq!(interior(wire.get_board()), vec![WireCell::Wire]);
    wire.step();
    // Eight heads around a wire are too many
    assert_eq!(interior(wire.get_board()), vec![WireCell::Wire]);
}
