//! A generic engine for cellular automata on a bordered two-dimensional
//! grid.
//!
//! A [`game_board::GameBoard`] stores the cells, a [`game_rules::GameRule`]
//! says what a cell becomes from the cell and its eight neighbours, and a
//! [`game::CellGame`] moves a board from one generation to the next with two
//! buffers, so that every cell of a generation is computed from the
//! generation before it. Conway's Game of Life, Wireworld and Langton's Ant
//! come as rules for it.

pub mod cell;
pub mod default_game_runner;
pub mod game;
pub mod game_board;
pub mod game_rules;
pub mod langtons_ant;
pub mod rgba;
pub mod util;
pub mod wireworld;
