use tetris::board::{Board, HEIGHT, WIDTH};
use tetris::game::{check_rotation, Game, FALL_INTERVAL, SOFT_DROP_INTERVAL};
use tetris::input::{armed, rotate_intent, shift_intent, Keys, ROTATE_DELAY, SHIFT_DELAY};
use tetris::piece::create_piece;

fn keys() -> Keys {
    Keys::default()
}

fn occupied_rows(b: &Board) -> usize {
    b.cells.iter().filter(|r| r.iter().any(|&c| c)).count()
}

/// Runs ticks with the given keys held until the piece locks; the number of
/// ticks it took.
fn ticks_until_lock(g: &mut Game, held: Keys) -> u32 {
    let mut n: u32 = 0;
    loop {
        g.read_keys(held);
        n += 1;
        if g.advance() || g.game_over {
            return n;
        }
        assert!(n < 10_000);
    }
}

#[test]
fn intents_prefer_left_and_clockwise() {
    assert_eq!(shift_intent(0, true, true), -1);
    assert_eq!(shift_intent(0, false, true), 1);
    assert_eq!(shift_intent(-1, false, true), -1);
    assert_eq!(shift_intent(0, false, false), 0);
    assert_eq!(rotate_intent(0, true, true, false), 1);
    assert_eq!(rotate_intent(0, false, true, false), -1);
    assert_eq!(rotate_intent(1, false, true, false), 1);
    assert_eq!(rotate_intent(0, true, true, true), 0);
}

#[test]
fn debounce_counter_arms_keeps_and_resets() {
    assert_eq!(armed(1, 0, ROTATE_DELAY), 20);
    assert_eq!(armed(-1, 0, SHIFT_DELAY), 10);
    assert_eq!(armed(1, 7, SHIFT_DELAY), 7);
    assert_eq!(armed(0, 7, SHIFT_DELAY), 0);
}

#[test]
fn start_rejects_bad_shapes_and_columns() {
    assert!(Game::start(5, 4).is_none());
    assert!(Game::start(0, 0).is_none());
    assert!(Game::start(0, 8).is_none());
    assert!(Game::start(4, 9).is_none());
    let g = Game::start(0, 7).unwrap();
    assert_eq!(g.position, [7, 0]);
    let g = Game::start(1, 1).unwrap();
    assert_eq!(g.position, [1, 1]);
    assert_eq!(g.board, Board::new());
}

#[test]
fn shift_fires_once_then_waits() {
    let mut g = Game::start(2, 4).unwrap();
    let right = Keys { right: true, ..keys() };
    g.read_keys(right);
    assert_eq!(g.shift_ticks, SHIFT_DELAY);
    g.resolve_shift();
    assert_eq!(g.position, [5, 0]);
    assert_eq!(g.shift_ticks, SHIFT_DELAY - 1);
    for _ in 0..9 {
        g.read_keys(right);
        g.resolve_shift();
        assert_eq!(g.position, [5, 0]);
    }
    assert_eq!(g.shift_ticks, 0);
    g.read_keys(right);
    g.resolve_shift();
    assert_eq!(g.position, [6, 0]);
}

#[test]
fn releasing_the_key_resets_the_counter() {
    let mut g = Game::start(2, 4).unwrap();
    g.read_keys(Keys { left: true, ..keys() });
    g.resolve_shift();
    assert_eq!(g.position, [3, 0]);
    g.read_keys(keys());
    assert_eq!(g.shift_ticks, 0);
    g.read_keys(Keys { left: true, ..keys() });
    g.resolve_shift();
    assert_eq!(g.position, [2, 0]);
}

#[test]
fn shift_into_the_wall_is_cancelled() {
    let mut g = Game::start(0, 1).unwrap();
    let before = g;
    g.read_keys(Keys { left: true, ..keys() });
    g.resolve_shift();
    assert_eq!(g.position, before.position);
    assert_eq!(g.piece, before.piece);
    assert_eq!(g.board, before.board);
    assert_eq!(g.ticks, before.ticks);
    assert_eq!(g.shift_ticks, 0);
    assert_eq!(g.shift, 0);
}

#[test]
fn shift_into_a_locked_cell_is_cancelled() {
    let mut g = Game::start(4, 4).unwrap();
    g.board.cells[1][6] = true;
    g.read_keys(Keys { right: true, ..keys() });
    g.resolve_shift();
    assert_eq!(g.position, [4, 0]);
    assert_eq!(g.shift_ticks, 0);
    for c in g.piece_cells() {
        assert!(c[0] >= 0 && (c[0] as usize) < WIDTH);
        assert_eq!(g.board.try_get(c[0], c[1]), Ok(false));
    }
}

#[test]
fn square_never_turns() {
    let mut g = Game::start(4, 4).unwrap();
    let before = g.piece;
    for _ in 0..30 {
        g.read_keys(Keys { rotate_cw: true, rotate_ccw: true, ..keys() });
        assert_eq!(g.rotate, 0);
        assert_eq!(g.rotate_ticks, 0);
        g.resolve_rotation();
        assert_eq!(g.piece, before);
    }
}

#[test]
fn rotation_fires_and_repeats_after_the_delay() {
    let mut g = Game::start(0, 4).unwrap();
    g.position = [4, 5];
    let cw = Keys { rotate_cw: true, ..keys() };
    g.read_keys(cw);
    g.resolve_rotation();
    assert_eq!(g.piece.rotation, 1);
    for _ in 0..19 {
        g.read_keys(cw);
        g.resolve_rotation();
        assert_eq!(g.piece.rotation, 1);
    }
    g.read_keys(cw);
    g.resolve_rotation();
    assert_eq!(g.piece.rotation, 2);
}

#[test]
fn blocked_rotation_leaves_the_piece() {
    let mut g = Game::start(0, 4).unwrap();
    g.position = [4, 5];
    // the clockwise turn puts a cell at (4, 6)
    g.board.cells[6][4] = true;
    let before = g.piece;
    g.read_keys(Keys { rotate_cw: true, ..keys() });
    g.resolve_rotation();
    assert_eq!(g.piece, before);
    assert_eq!(g.rotate, 0);
    assert_eq!(g.rotate_ticks, ROTATE_DELAY - 1);
}

#[test]
fn check_rotation_looks_at_turned_cells() {
    let p = create_piece(0).unwrap();
    let mut b = Board::new();
    assert!(check_rotation(&p, &[4, 5], &b, 1));
    assert!(check_rotation(&p, &[4, 5], &b, -1));
    b.cells[7][4] = true;
    assert!(!check_rotation(&p, &[4, 5], &b, 1));
    assert!(check_rotation(&p, &[4, 5], &b, -1));
    assert!(!check_rotation(&p, &[4, 1], &b, -1));
}

#[test]
fn soft_drop_square_locks_after_reduced_interval() {
    let mut g = Game::start(4, 4).unwrap();
    let n = ticks_until_lock(&mut g, Keys { soft_drop: true, ..keys() });
    // 18 falls every 6 ticks, then the lock delay of 12
    assert_eq!(n, 121);
    assert_eq!(SOFT_DROP_INTERVAL, 6);
    assert!(!g.game_over);
    for (x, y) in [(4, 18), (5, 18), (4, 19), (5, 19)] {
        assert_eq!(g.board.try_get(x, y), Ok(true));
    }
}

#[test]
fn square_without_soft_drop_locks_later() {
    let mut g = Game::start(4, 4).unwrap();
    let n = ticks_until_lock(&mut g, keys());
    assert_eq!(FALL_INTERVAL, 42);
    assert_eq!(n, 769);
}

#[test]
fn sessions_draw_their_own_pieces() {
    let mut rng = rand::thread_rng();
    let mut a = Game::new(&mut rng);
    let b = Game::new(&mut rng);
    for g in [a, b] {
        assert!(g.piece.id < 5);
        assert_eq!(g.position[1], g.piece.reach[1] as i32);
        assert_eq!(g.board, Board::new());
    }
    a.piece = create_piece(4).unwrap();
    a.position = [4, 0];
    let soft = Keys { soft_drop: true, ..keys() };
    let mut n = 0;
    while a.board == Board::new() {
        a.read_keys(soft);
        a.tick(&mut rng);
        n += 1;
        assert!(n < 1000);
    }
    assert_eq!(n, 121);
    assert!(a.piece.id < 5);
    assert_eq!(a.ticks, 0);
    let x = a.position[0];
    assert!(x >= a.piece.reach[0] as i32 && x <= (WIDTH - a.piece.reach[2]) as i32);
    assert_eq!(b.board, Board::new());
}

#[test]
fn completing_the_bottom_row_clears_it_and_spawns() {
    let mut g = Game::start(4, 0).unwrap();
    for x in 2..WIDTH {
        g.board.cells[HEIGHT - 1][x] = true;
    }
    assert_eq!(occupied_rows(&g.board), 1);
    let mut rng = rand::thread_rng();
    let soft = Keys { soft_drop: true, left: true, ..keys() };
    let mut n = 0;
    loop {
        g.read_keys(soft);
        g.tick(&mut rng);
        n += 1;
        assert!(n < 1000);
        if g.ticks == 0 {
            break;
        }
    }
    assert_eq!(n, 121);
    assert!(!g.game_over);
    let mut expected = [false; WIDTH];
    expected[0] = true;
    expected[1] = true;
    assert_eq!(g.board.cells[HEIGHT - 1], expected);
    assert_eq!(occupied_rows(&g.board), 1);
    assert_eq!(g.ticks, 0);
    assert_eq!(g.shift_ticks, 0);
    assert_eq!(g.rotate_ticks, 0);
    assert_eq!(g.shift, 0);
    assert_eq!(g.rotate, 0);
}

#[test]
fn game_over_when_locking_at_the_top() {
    let mut g = Game::start(4, 4).unwrap();
    for y in 2..HEIGHT {
        g.board.cells[y][4] = true;
    }
    let n = ticks_until_lock(&mut g, keys());
    assert!(g.game_over);
    assert_eq!(n, 13);
    let frozen = g;
    g.read_keys(keys());
    assert!(!g.advance());
    assert_eq!(g.board, frozen.board);
    assert_eq!(g.position, frozen.position);
}
