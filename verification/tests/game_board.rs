use cell_engine::cell::CellConway;
use cell_engine::cell::CellConway::{Alive, Dead};
use cell_engine::game_board::GameBoard;

#[test]
fn test_index_roundtrip() {
    let (width, height) = (5, 5);
    let board = GameBoard::new(width, height, CellConway::Dead);
    for i_inner in 0..width * height {
        let i_outer = board.index_public_to_inner(i_inner);
        assert!(i_inner == board.index_inner_to_public(i_outer));
    }
}

#[test]
fn test_coord_roundtrip() {
    let (width, height) = (5, 5);
    let board = GameBoard::new(width, height, CellConway::Dead);
    for x_inner in 0..width {
        for y_inner in 0..height {
            let (x_outer, y_outer) = board.coord_public_to_inner(x_inner, y_inner);
            let (x_back, y_back) = board.coord_inner_to_public(x_outer, y_outer);
            assert!(x_back == x_inner && y_back == y_inner);
        }
    }
}

#[test]
fn game_board_test_index_roundtrip() {
    let (width, height) = (5, 5);
    let board = GameBoard::new(width, height, CellConway::Dead);
    for i_inner in 0..width * height {
        let i_outer = board.index_public_to_inner(i_inner);
        assert!(i_inner == board.index_inner_to_public(i_outer));
    }
}

#[test]
fn game_board_test_coord_roundtrip() {
    let (width, height) = (5, 5);
    let board = GameBoard::new(width, height, CellConway::Dead);
    for x_inner in 0..width {
        for y_inner in 0..height {
            let (x_outer, y_outer) = board.coord_public_to_inner(x_inner, y_inner);
            let (x_back, y_back) = board.coord_inner_to_public(x_outer, y_outer);
            assert!(x_back == x_inner && y_back == y_inner);
        }
    }
}

#[test]
fn game_board_iterate_neighborhood() {
    let (width, height) = (5, 5);
    let mut board = GameBoard::new(width, height, Dead);
    board.set(0, 0, Alive);
    for (i, n) in board.iter_neighbors(0, 0).enumerate() {
        println!("Neighbor {}: {:?}", i, n);
    }
}

#[test]
fn game_board_neighbor_counter() {
    let (width, height) = (5, 5);
    let mut board = GameBoard::new(width, height, Dead);
    let mut cells = board.iter_mut();
    while let Some(c) = cells.next() {
        *c = Alive;
    }
    let sum: i32 = board
        .iter_neighbors(0, 0)
        .map(|c| match c {
            Dead => 0,
            Alive => 1,
        })
        .sum();
    assert_eq!(sum, 3);
}

#[test]
fn game_board_iterate_board() {
    let board = GameBoard::new(10, 10, Dead);
    for n in board.iter() {
        println!("{:?}", n);
    }
}

#[test]
fn game_board_iterate_board_and_set_alive() {
    let mut board = GameBoard::new(10, 10, Dead);
    let mut cells = board.iter_mut();
    while let Some(n) = cells.next() {
        *n = Alive;
    }
    for n in board.iter() {
        println!("{:?}", n);
    }
}
