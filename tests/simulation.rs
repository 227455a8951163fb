use falling_blocks::{
    all_can_move, all_can_rotate,
    check_complete_line, create_screen, create_tetronimo, move_tetrmonioes, move_to_built,
    normalize_rotation, random_tetromino_position, random_tetronimo, remake_gameborders,
    rotate_tetrominoes, shape_layout, update_tetrominoes, Backdrop, Board, Command, Game, Line,
    Tetromino, TetrominoCharacter, MAX_SPAWN_COLUMN, MIN_SPAWN_COLUMN, WIDTH,
};
use rand::rngs::StdRng;
use rand::{Rng, SeedableRng};

fn cells_of(p: &Tetromino) -> Vec<(i64, i64)> {
    let mut v: Vec<(i64, i64)> = p.occupied_cells().iter().map(|c| (c.x, c.y)).collect();
    v.sort();
    v
}

fn fill(board: &mut Board, r: usize, c: usize) {
    board.cells[r * WIDTH + c] = true;
}

fn filled(board: &Board, r: usize) -> Vec<bool> {
    (0..WIDTH).map(|c| board.is_filled(r, c)).collect()
}

#[test]
fn end_to_end_kind_one_falls_to_floor() {
    let mut board = Board::new(20);
    let mut pieces: Vec<Tetromino> = Vec::new();
    create_tetronimo(&mut pieces, 1, 4);
    let mut ticks = 0;
    while !pieces[0].collides(&board) {
        update_tetrominoes(&mut pieces, &board);
        ticks += 1;
        assert!(ticks < 100);
    }
    assert_eq!(pieces[0].y, 19);
    assert!(!pieces[0].stationary);
    update_tetrominoes(&mut pieces, &board);
    assert!(pieces[0].stationary);
    assert_eq!(pieces[0].y, 19);
    move_to_built(&mut pieces, &mut board);
    assert!(pieces.is_empty());
    for c in 0..WIDTH {
        assert_eq!(board.is_filled(19, c), (4..8).contains(&c));
    }
    remake_gameborders(&mut board);
    for c in 0..WIDTH {
        assert_eq!(board.is_blocked(19, c), board.is_filled(19, c));
        assert!(board.is_blocked(20, c));
    }
}

#[test]
fn spawn_bounds_with_fixed_seed() {
    let mut rng = StdRng::seed_from_u64(42);
    for _ in 0..10_000 {
        let kind: u8 = rng.gen_range(1..=5);
        let column: i64 = rng.gen_range(MIN_SPAWN_COLUMN..=MAX_SPAWN_COLUMN);
        let mut pieces: Vec<Tetromino> = Vec::new();
        create_tetronimo(&mut pieces, kind, column);
        assert_eq!(pieces[0].rotation, 0);
        assert!(!pieces[0].stationary);
        for (x, y) in cells_of(&pieces[0]) {
            assert!(x >= 1 && x <= (WIDTH - 2) as i64);
            assert!(y >= 1 && y <= 2);
        }
        assert!(pieces[0].in_board(3));
    }
}

#[test]
fn random_draws_stay_in_range() {
    let mut kinds = [false; 6];
    for _ in 0..2_000 {
        let k = random_tetronimo();
        assert!((1..=5).contains(&k));
        kinds[k as usize] = true;
        let c = random_tetromino_position();
        assert!((MIN_SPAWN_COLUMN..=MAX_SPAWN_COLUMN).contains(&c));
    }
    assert!(kinds[1..].iter().all(|&b| b));
}

#[test]
fn mask_mirrors_board_after_rebuild() {
    let mut board = Board::new(6);
    fill(&mut board, 2, 3);
    fill(&mut board, 5, 10);
    assert!(!board.is_blocked(2, 3));
    remake_gameborders(&mut board);
    for r in 0..6 {
        for c in 0..WIDTH {
            assert_eq!(board.is_blocked(r, c), board.is_filled(r, c));
        }
    }
    for c in 0..WIDTH {
        assert!(board.is_blocked(6, c));
    }
}

#[test]
fn locked_piece_never_moves() {
    let board = Board::new(10);
    let mut p = Tetromino::new(2, 4);
    p.stationary = true;
    let before = p;
    p.move_tetromino(1, 0, &board);
    assert_eq!(p, before);
    p.move_tetromino(0, 1, &board);
    assert_eq!(p, before);
    p.rotate(90, &board);
    assert_eq!(p, before);
    p.translate(2, 3);
    assert_eq!(p, before);
    assert!(p.stationary);
    let mut q = Tetromino::new(2, 4);
    q.translate(2, 3);
    assert_eq!((q.x, q.y), (6, 4));
}

#[test]
fn commit_without_locked_pieces_changes_nothing() {
    let mut board = Board::new(8);
    fill(&mut board, 7, 2);
    let before = board.cells.clone();
    let mut pieces: Vec<Tetromino> = Vec::new();
    create_tetronimo(&mut pieces, 3, 5);
    move_to_built(&mut pieces, &mut board);
    assert_eq!(board.cells, before);
    assert_eq!(pieces.len(), 1);
    let mut empty: Vec<Tetromino> = Vec::new();
    move_to_built(&mut empty, &mut board);
    assert_eq!(board.cells, before);
}

#[test]
fn commit_writes_locked_and_keeps_active() {
    let mut board = Board::new(8);
    let mut a = Tetromino::new(4, 3);
    a.y = 6;
    a.stationary = true;
    let b = Tetromino::new(1, 2);
    let mut pieces = vec![a, b];
    move_to_built(&mut pieces, &mut board);
    assert_eq!(pieces, vec![b]);
    assert_eq!(filled(&board, 6), vec![false, false, false, true, true, false, false, false, false, false, false, false]);
    assert_eq!(filled(&board, 7), vec![false, false, false, false, true, true, false, false, false, false, false, false]);
}

#[test]
fn full_row_is_cleared_and_rows_above_shift() {
    let mut board = Board::new(6);
    for c in 1..WIDTH - 1 {
        fill(&mut board, 4, c);
    }
    fill(&mut board, 3, 2);
    fill(&mut board, 2, 7);
    fill(&mut board, 5, 1);
    fill(&mut board, 0, 9);
    let before: Vec<Vec<bool>> = (0..6).map(|r| filled(&board, r)).collect();
    let count = check_complete_line(&mut board);
    assert_eq!(count, 1);
    assert!(filled(&board, 0).iter().all(|&b| !b));
    for k in 1..=4 {
        assert_eq!(filled(&board, k), before[k - 1]);
    }
    assert_eq!(filled(&board, 5), before[5]);
}

#[test]
fn two_full_rows_cleared_in_one_sweep() {
    let mut board = Board::new(5);
    for c in 1..WIDTH - 1 {
        fill(&mut board, 3, c);
        fill(&mut board, 4, c);
    }
    fill(&mut board, 2, 5);
    assert_eq!(check_complete_line(&mut board), 2);
    for r in 0..4 {
        assert!(filled(&board, r).iter().all(|&b| !b));
    }
    assert_eq!(filled(&board, 4), {
        let mut v = vec![false; WIDTH];
        v[5] = true;
        v
    });
}

#[test]
fn row_with_gap_is_not_cleared() {
    let mut board = Board::new(4);
    for c in 1..WIDTH - 2 {
        fill(&mut board, 3, c);
    }
    assert_eq!(check_complete_line(&mut board), 0);
    assert!(board.is_filled(3, 1));
}

#[test]
fn square_ignores_rotation() {
    let board = Board::new(10);
    let mut p = Tetromino::new(3, 4);
    let before = cells_of(&p);
    for _ in 0..4 {
        p.rotate(90, &board);
        assert_eq!(cells_of(&p), before);
    }
    p.rotate(-270, &board);
    assert_eq!(cells_of(&p), before);
    assert_eq!(p.rotation, 0);
}

#[test]
fn four_quarter_turns_return_each_kind() {
    let board = Board::new(20);
    for kind in [1u8, 2, 4, 5] {
        let mut p = Tetromino::new(kind, 4);
        p.y = 5;
        let before = cells_of(&p);
        let mut seen = vec![p.rotation];
        for _ in 0..4 {
            p.rotate(90, &board);
            seen.push(p.rotation);
        }
        assert_eq!(seen, vec![0, 90, 180, 270, 0]);
        assert_eq!(cells_of(&p), before);
    }
}

#[test]
fn rotation_table_entries() {
    assert_eq!(shape_layout(1, 0), vec![Line::new(0, 0, 4)]);
    assert_eq!(shape_layout(2, 0), vec![Line::new(0, 0, 3), Line::new(2, 1, 1)]);
    assert_eq!(shape_layout(3, 180), vec![Line::new(0, 0, 2), Line::new(0, 1, 2)]);
    assert_eq!(shape_layout(4, 0), vec![Line::new(0, 0, 2), Line::new(1, 1, 2)]);
    assert_eq!(shape_layout(5, 0), vec![Line::new(0, 0, 3), Line::new(1, 1, 1)]);
    assert_eq!(
        shape_layout(1, 90),
        vec![Line::new(0, 0, 1), Line::new(0, 1, 1), Line::new(0, 2, 1), Line::new(0, 3, 1)]
    );
    assert_eq!(shape_layout(5, 270), vec![Line::new(1, 0, 1), Line::new(0, 1, 2), Line::new(1, 2, 1)]);
    let mut p = Tetromino::new(5, 4);
    p.rotate_shape(180);
    assert_eq!(cells_of(&p), vec![(4, 2), (5, 1), (5, 2), (6, 2)]);
}

#[test]
fn rotation_normalizes_angles() {
    assert_eq!(normalize_rotation(0, 90), 90);
    assert_eq!(normalize_rotation(270, 90), 0);
    assert_eq!(normalize_rotation(0, -90), 270);
    assert_eq!(normalize_rotation(90, -720), 90);
    assert_eq!(normalize_rotation(180, 1080), 180);
}

#[test]
fn rotation_rejected_when_it_would_leave_the_board() {
    let mut game = Game::new(20, 1, 4);
    game.pieces[0].y = 18;
    assert!(!game.pieces[0].can_rotate(90, &game.board));
    assert!(!all_can_rotate(&game.pieces, 90, &game.board));
    assert!(game.tick(Command::Rotate, 1, 4));
    assert_eq!(game.pieces[0].rotation, 0);
    assert_eq!(game.pieces[0].y, 18);
}

#[test]
fn rotation_into_the_border_column_is_taken() {
    let board = Board::new(20);
    let mut p = Tetromino::new(4, 1);
    p.rotate(90, &board);
    assert_eq!(p.rotation, 90);
    assert_eq!(cells_of(&p), vec![(0, 2), (0, 3), (1, 1), (1, 2)]);
}

#[test]
fn locked_piece_and_square_take_any_angle() {
    let board = Board::new(20);
    let mut locked = Tetromino::new(2, 4);
    locked.stationary = true;
    let before = locked;
    locked.rotate(45, &board);
    assert_eq!(locked, before);
    let mut square = Tetromino::new(3, 4);
    let before = square;
    square.rotate(-30, &board);
    assert_eq!(square, before);
}

#[test]
fn rotation_rejected_when_it_would_rest_on_blocks() {
    let mut board = Board::new(20);
    fill(&mut board, 5, 4);
    remake_gameborders(&mut board);
    let mut p = Tetromino::new(1, 4);
    p.y = 1;
    let mut pieces = vec![p];
    rotate_tetrominoes(&mut pieces, 90, &board);
    assert_eq!(pieces[0].rotation, 0);
    let mut board2 = Board::new(20);
    remake_gameborders(&mut board2);
    rotate_tetrominoes(&mut pieces, 90, &board2);
    assert_eq!(pieces[0].rotation, 90);
}

#[test]
fn sideways_move_may_overlap_blocks() {
    let mut board = Board::new(10);
    fill(&mut board, 1, 8);
    remake_gameborders(&mut board);
    let mut pieces = vec![Tetromino::new(1, 4)];
    move_tetrmonioes(&mut pieces, 1, &board);
    assert_eq!(pieces[0].x, 5);
    assert!(!pieces[0].stationary);
    assert!(cells_of(&pieces[0]).contains(&(8, 1)));
}

#[test]
fn sideways_move_stops_at_the_border() {
    let board = Board::new(10);
    let mut pieces = vec![Tetromino::new(1, 1)];
    move_tetrmonioes(&mut pieces, -1, &board);
    assert_eq!(pieces[0].x, 0);
    assert!(!pieces[0].stationary);
    assert_eq!(cells_of(&pieces[0]), vec![(0, 1), (1, 1), (2, 1), (3, 1)]);
    let mut right = vec![Tetromino::new(1, 7)];
    move_tetrmonioes(&mut right, 1, &board);
    assert_eq!(right[0].x, 8);
    assert!(cells_of(&right[0]).contains(&((WIDTH - 1) as i64, 1)));
    assert!(!all_can_move(&right, 1, 0, &board));
    assert!(all_can_move(&pieces, 1, 0, &board));
    assert!(!all_can_move(&pieces, -1, 0, &board));
}

#[test]
fn game_skips_a_move_off_the_grid() {
    let mut game = Game::new(10, 2, 2);
    game.pieces[0].x = 0;
    assert!(game.tick(Command::MoveLeft, 1, 4));
    assert_eq!(game.pieces[0].x, 0);
    assert!(game.tick(Command::MoveRight, 1, 4));
    assert_eq!(game.pieces[0].x, 1);
}

#[test]
fn piece_locks_on_a_block_below() {
    let mut board = Board::new(10);
    fill(&mut board, 3, 5);
    remake_gameborders(&mut board);
    let mut p = Tetromino::new(1, 4);
    p.move_tetromino(0, 1, &board);
    assert_eq!(p.y, 2);
    p.move_tetromino(0, 1, &board);
    assert!(p.stationary);
    assert_eq!(p.y, 2);
}

#[test]
fn only_the_lowest_cell_of_a_column_is_tested() {
    let mut board = Board::new(10);
    fill(&mut board, 2, 6);
    remake_gameborders(&mut board);
    let p = Tetromino::new(2, 4);
    assert!(!p.collides(&board));
    fill(&mut board, 3, 6);
    remake_gameborders(&mut board);
    assert!(p.collides(&board));
}

#[test]
fn keys_become_commands() {
    assert_eq!(Command::from_key(b'a'), Command::MoveLeft);
    assert_eq!(Command::from_key(b'd'), Command::MoveRight);
    assert_eq!(Command::from_key(b'r'), Command::Rotate);
    assert_eq!(Command::from_key(b'q'), Command::Quit);
    assert_eq!(Command::from_key(b'x'), Command::Idle);
}

#[test]
fn screen_has_borders() {
    let screen = create_screen(3);
    assert_eq!(screen.len(), 3);
    for row in &screen {
        assert_eq!(row.len(), WIDTH);
        assert_eq!(row[0], Backdrop::LeftBorder);
        assert_eq!(row[WIDTH - 1], Backdrop::RightBorder);
        assert!(row[1..WIDTH - 1].iter().all(|&g| g == Backdrop::Free));
    }
}

#[test]
fn characters_and_lines() {
    let mut ch = TetrominoCharacter::new(3, 4);
    ch.move_character(-1, 2);
    assert_eq!((ch.x, ch.y), (2, 6));
    assert_eq!(TetrominoCharacter::default(), TetrominoCharacter::new(0, 0));
    let run = Line::create_characters(2, 5, 3);
    assert_eq!(run, vec![TetrominoCharacter::new(2, 5), TetrominoCharacter::new(3, 5), TetrominoCharacter::new(4, 5)]);
    assert!(Line::create_characters(2, 5, 0).is_empty());
    assert!(Line::create_characters(2, 5, -3).is_empty());
    let mut line = Line::new(1, 1, 2);
    line.move_line(1, 3);
    assert_eq!(line, Line::new(2, 4, 2));
}

#[test]
fn game_runs_until_quit() {
    let mut game = Game::new(20, 1, 4);
    assert!(!game.tick(Command::Quit, 2, 3));
    assert_eq!(game.pieces.len(), 1);
    assert_eq!(game.pieces[0].y, 1);
    assert!(game.tick(Command::MoveLeft, 2, 3));
    assert_eq!(game.pieces[0].x, 3);
    assert_eq!(game.pieces[0].y, 1);
    assert!(game.tick(Command::Idle, 2, 3));
    assert_eq!(game.pieces[0].y, 2);
    let mut n = 0;
    while game.pieces[0].shape_type == 1 {
        assert!(game.tick(Command::Idle, 2, 3));
        n += 1;
        assert!(n < 100);
    }
    assert_eq!(game.pieces[0], Tetromino::new(2, 3));
    for c in 0..WIDTH {
        assert_eq!(game.board.is_filled(19, c), (3..7).contains(&c));
        assert_eq!(game.board.is_blocked(19, c), (3..7).contains(&c));
    }
}

#[test]
fn game_clears_a_completed_row() {
    let mut game = Game::new(6, 1, 2);
    for c in 1..WIDTH - 1 {
        if !(2..6).contains(&c) {
            fill(&mut game.board, 5, c);
        }
    }
    fill(&mut game.board, 4, 9);
    remake_gameborders(&mut game.board);
    let mut n = 0;
    let mut last_y = game.pieces[0].y;
    loop {
        assert!(game.tick_random(Command::Idle));
        if game.pieces[0].y < last_y {
            break;
        }
        last_y = game.pieces[0].y;
        n += 1;
        assert!(n < 50);
    }
    assert_eq!(game.pieces[0].y, 1);
    let mut expected = vec![false; WIDTH];
    expected[9] = true;
    assert_eq!(filled(&game.board, 5), expected);
    assert!(filled(&game.board, 4).iter().all(|&b| !b));
    assert!((1..=5).contains(&game.pieces[0].shape_type));
}
