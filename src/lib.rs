//! A falling-block puzzle engine: piece geometry, pieces, the board with its
//! occupancy mask, and the per-tick simulation.

mod geometry;
mod board;
mod piece;
mod engine;
mod laws;

pub use geometry::{Line, TetrominoCharacter, shape_layout, WIDTH};
pub use board::{Board, Backdrop, create_screen, check_complete_line, remake_gameborders, MAX_HEIGHT};
pub use piece::{lemma_fall_stays_on_grid, Tetromino, normalize_rotation, SPAWN_ROW};
pub use engine::{all_can_move, all_can_rotate, Game, Command, create_tetronimo, random_tetronimo, random_tetromino_position, MIN_SPAWN_COLUMN, MAX_SPAWN_COLUMN, move_to_built, move_tetrmonioes, update_tetrominoes, rotate_tetrominoes};
pub use laws::{lemma_lock_is_final, lemma_commit_nothing_locked, lemma_clear_single_row, lemma_square_ignores_rotation, lemma_four_quarter_turns};
