use tetris::board::{collapse, collapse_row, fresh_field, mark_lines, row_is_full, stamp};
use tetris::collision::does_piece_fit;
use tetris::game::{Game, SCORE_LIMIT};
use tetris::piece::{spawn, steer, KeyMap, Piece};
use tetris::rules::{lock_score, ramp};
use tetris::shapes::{rotate_piece, shape_filled, template_cell};

fn no_keys() -> KeyMap {
    KeyMap { rotate: false, left: false, right: false, down: false }
}

fn at(field: &[char], x: usize, y: usize) -> char {
    field[y * 12 + x]
}

fn fill_row(field: &mut Vec<char>, y: usize, from: usize, to: usize) {
    for x in from..=to {
        field[y * 12 + x] = '1';
    }
}

fn border_intact(field: &[char]) -> bool {
    (0..18).all(|y| at(field, 0, y) == '9' && at(field, 11, y) == '9')
        && (0..12).all(|x| at(field, x, 17) == '9')
}

#[test]
fn rotation_indices_follow_the_four_formulas() {
    assert_eq!(rotate_piece(1, 2, 0), 9);
    assert_eq!(rotate_piece(1, 2, 1), 10);
    assert_eq!(rotate_piece(1, 2, 2), 6);
    assert_eq!(rotate_piece(1, 2, 3), 5);
    assert_eq!(rotate_piece(0, 0, 1), 12);
    assert_eq!(rotate_piece(3, 3, 1), 3);
    assert_eq!(rotate_piece(0, 0, 2), 15);
    assert_eq!(rotate_piece(3, 3, 3), 12);
}

#[test]
fn rotation_repeats_after_four_turns() {
    for r in 0..8 {
        for px in 0..4 {
            for py in 0..4 {
                assert_eq!(rotate_piece(px, py, r), rotate_piece(px, py, r + 4));
            }
        }
    }
}

#[test]
fn templates_match_the_shape_table() {
    let expected = [
        ".X...X...X...X..",
        "..X..XX..X......",
        ".....XX..XX.....",
        "..X..XX..X......",
        ".X...XX...X.....",
        ".X...X...XX.....",
        "..X...X..XX.....",
    ];
    for (shape, row) in expected.iter().enumerate() {
        for (index, c) in row.chars().enumerate() {
            assert_eq!(shape_filled(shape, index), c == 'X', "shape {} index {}", shape, index);
        }
    }
    assert!(!shape_filled(7, 5));
}

#[test]
fn every_template_has_four_cells_in_every_rotation() {
    for shape in 0..7 {
        for rotation in 0..4 {
            let mut count = 0;
            for x in 0..4 {
                for y in 0..4 {
                    if template_cell(shape, x, y, rotation) {
                        count += 1;
                    }
                }
            }
            assert_eq!(count, 4);
        }
    }
}

#[test]
fn first_piece_fits_the_fresh_field() {
    let game = Game::new();
    assert!(does_piece_fit(0, 0, 4, 0, &game.field));
    assert!(!game.is_over);
    assert_eq!(game.piece, Piece { shape: 0, rotation: 0, x: 4, y: 0 });
    assert_eq!(game.speed, 10);
    assert_eq!(game.score, 0);
    assert_eq!(game.piece_count, 0);
    assert_eq!(game.speed_counter, 0);
    assert!(game.lines.is_empty());
}

#[test]
fn fresh_field_has_walls_and_floor_only() {
    let field = fresh_field();
    assert_eq!(field.len(), 216);
    for y in 0..18 {
        for x in 0..12 {
            let expected = if x == 0 || x == 11 || y == 17 { '9' } else { '0' };
            assert_eq!(at(&field, x, y), expected);
        }
    }
}

#[test]
fn filled_cell_on_a_wall_or_the_floor_does_not_fit() {
    let field = fresh_field();
    // The upright bar fills local column 1.
    assert!(does_piece_fit(0, 0, 0, 0, &field));
    assert!(does_piece_fit(0, 0, 9, 0, &field));
    assert!(!does_piece_fit(0, 0, 10, 0, &field));
    // Its lowest cell is local row 3.
    assert!(does_piece_fit(0, 0, 4, 13, &field));
    assert!(!does_piece_fit(0, 0, 4, 14, &field));
    // Turned twice it fills local column 2.
    assert!(does_piece_fit(0, 2, 0, 0, &field));
}

#[test]
fn filled_cell_outside_the_grid_does_not_fit() {
    let field = fresh_field();
    assert!(!does_piece_fit(0, 0, 11, 0, &field));
    assert!(!does_piece_fit(0, 0, 12, 0, &field));
    assert!(!does_piece_fit(0, 0, 4, 18, &field));
    assert!(!does_piece_fit(0, 0, usize::MAX, usize::MAX, &field));
    assert!(!does_piece_fit(2, 0, 4, 16, &field));
}

#[test]
fn fuller_field_never_fits_better() {
    let emptier = fresh_field();
    let mut fuller = fresh_field();
    fuller[2 * 12 + 5] = '4';
    for shape in 0..7 {
        for rotation in 0..4 {
            for x in 0..12 {
                for y in 0..18 {
                    if !does_piece_fit(shape, rotation, x, y, &emptier) {
                        assert!(!does_piece_fit(shape, rotation, x, y, &fuller));
                    }
                }
            }
        }
    }
    assert!(does_piece_fit(0, 0, 4, 0, &emptier));
    assert!(!does_piece_fit(0, 0, 4, 0, &fuller));
}

#[test]
fn left_wins_over_right_and_moves_need_room() {
    let field = fresh_field();
    let p = Piece { shape: 2, rotation: 0, x: 4, y: 3 };
    let both = KeyMap { rotate: false, left: true, right: true, down: false };
    assert_eq!(steer(p, both, &field), Piece { x: 3, ..p });
    let right = KeyMap { right: true, ..no_keys() };
    assert_eq!(steer(p, right, &field), Piece { x: 5, ..p });
    let down = KeyMap { down: true, ..no_keys() };
    assert_eq!(steer(p, down, &field), Piece { y: 4, ..p });
    let turn = KeyMap { rotate: true, ..no_keys() };
    assert_eq!(steer(Piece { rotation: 3, ..p }, turn, &field), Piece { rotation: 0, ..p });
    assert_eq!(steer(p, no_keys(), &field), p);
    // At the left wall the square cannot go further left.
    let edge = Piece { x: 0, ..p };
    let left = KeyMap { left: true, ..no_keys() };
    assert_eq!(steer(edge, left, &field), edge);
}

#[test]
fn rotation_is_refused_next_to_the_right_wall() {
    let mut game = Game::new();
    game.piece = Piece { shape: 0, rotation: 0, x: 8, y: 0 };
    let turn = KeyMap { rotate: true, ..no_keys() };
    game.step(turn, 0);
    assert_eq!(game.piece.rotation, 0);
    assert_eq!(game.piece.x, 8);
    game.piece = Piece { shape: 0, rotation: 0, x: 7, y: 0 };
    game.step(turn, 0);
    assert_eq!(game.piece.rotation, 1);
}

#[test]
fn gravity_counts_ten_ticks_then_pulls_one_row() {
    let mut game = Game::new();
    for tick in 0..10 {
        assert_eq!(game.speed_counter, tick);
        assert_eq!(game.piece.y, 0);
        game.step(no_keys(), 0);
    }
    assert_eq!(game.speed_counter, 10);
    assert_eq!(game.piece.y, 0);
    game.step(no_keys(), 0);
    assert_eq!(game.piece.y, 1);
    assert_eq!(game.speed_counter, 0);
    assert_eq!(game.piece_count, 0);
}

#[test]
fn lock_scores_follow_the_bonus_formula() {
    assert_eq!(lock_score(0), 25);
    assert_eq!(lock_score(1), 225);
    assert_eq!(lock_score(2), 425);
    assert_eq!(lock_score(3), 825);
    assert_eq!(lock_score(4), 1625);
}

#[test]
fn ramp_shortens_the_period_every_ten_locks_down_to_one() {
    let mut speed = 10;
    for count in 1..=120u64 {
        speed = ramp(speed, count);
        let expected = if count / 10 >= 9 { 1 } else { 10 - count / 10 };
        assert_eq!(speed, expected, "after {} locks", count);
    }
    assert_eq!(ramp(1, 10), 1);
    assert_eq!(ramp(5, 9), 5);
    assert_eq!(ramp(5, 20), 4);
}

#[test]
fn ten_locks_without_a_clear_shorten_the_period_by_one() {
    let mut game = Game::new();
    let mut locks = 0;
    for round in 0..2 {
        for y in [13usize, 9] {
            for x in 0..5usize {
                game.piece = Piece { shape: 0, rotation: 0, x, y };
                assert!(does_piece_fit(0, 0, x, y, &game.field));
                game.lock(2);
                locks += 1;
                assert!(game.lines.is_empty());
                assert!(!game.is_over);
                assert_eq!(game.score, 25 * locks);
                assert_eq!(game.piece_count, locks);
                assert_eq!(game.speed, 10 - locks / 10);
            }
        }
        assert_eq!(game.speed, 9 - round);
        game.field = fresh_field();
    }
    assert_eq!(game.speed, 8);
}

#[test]
fn square_completes_one_row() {
    let mut game = Game::new();
    fill_row(&mut game.field, 16, 1, 8);
    game.field[15 * 12 + 1] = '5';
    game.piece = Piece { shape: 2, rotation: 0, x: 8, y: 0 };
    let down = KeyMap { down: true, ..no_keys() };
    let mut ticks = 0;
    while game.piece_count == 0 {
        game.step(down, 4);
        ticks += 1;
        assert!(ticks < 400);
    }
    assert_eq!(game.lines, vec![16]);
    assert_eq!(game.score, 225);
    for x in 1..=10 {
        assert_eq!(at(&game.field, x, 16), '8');
    }
    assert_eq!(at(&game.field, 9, 15), '3');
    assert_eq!(at(&game.field, 10, 15), '3');
    assert_eq!(game.piece, Piece { shape: 4, rotation: 0, x: 4, y: 0 });
    assert!(!game.is_over);
    assert_eq!(game.speed_counter, 0);
    game.collapse();
    assert!(game.lines.is_empty());
    assert!(border_intact(&game.field));
    assert!(game.field.iter().all(|&c| c != '8'));
    // Row 15 has come down to row 16, and row 15 is empty now.
    assert_eq!(at(&game.field, 1, 16), '5');
    assert_eq!(at(&game.field, 9, 16), '3');
    assert_eq!(at(&game.field, 10, 16), '3');
    for x in 2..=8 {
        assert_eq!(at(&game.field, x, 16), '0');
    }
    for y in 0..16 {
        for x in 1..=10 {
            assert_eq!(at(&game.field, x, y), '0');
        }
    }
}

#[test]
fn bar_completes_four_rows_at_once() {
    let mut game = Game::new();
    for y in 13..=16 {
        fill_row(&mut game.field, y, 1, 9);
    }
    game.field[12 * 12 + 3] = '6';
    game.piece = Piece { shape: 0, rotation: 0, x: 9, y: 13 };
    game.speed_counter = game.speed;
    game.step(no_keys(), 1);
    assert_eq!(game.lines, vec![13, 14, 15, 16]);
    assert_eq!(game.score, 1625);
    assert_eq!(game.piece_count, 1);
    game.collapse();
    assert!(game.lines.is_empty());
    assert!(border_intact(&game.field));
    for y in 0..17 {
        for x in 1..=10 {
            let expected = if (x, y) == (3, 16) { '6' } else { '0' };
            assert_eq!(at(&game.field, x, y), expected, "cell ({}, {})", x, y);
        }
    }
}

#[test]
fn game_ends_when_the_new_piece_has_no_room() {
    let mut game = Game::new();
    for y in 0..4 {
        fill_row(&mut game.field, y, 4, 7);
    }
    game.piece = Piece { shape: 2, rotation: 0, x: 0, y: 14 };
    game.speed_counter = game.speed;
    game.step(no_keys(), 0);
    assert_eq!(game.piece_count, 1);
    assert!(!does_piece_fit(0, 0, 4, 0, &game.field));
    assert!(game.is_over);
    assert_eq!(game.score, 25);
}

#[test]
fn stamp_writes_the_shape_code_under_the_piece() {
    let mut field = fresh_field();
    stamp(&mut field, Piece { shape: 5, rotation: 0, x: 3, y: 10 });
    let mut stamped = Vec::new();
    for i in 0..216 {
        if field[i] == '6' {
            stamped.push((i % 12, i / 12));
        }
    }
    assert_eq!(stamped, vec![(4, 10), (4, 11), (4, 12), (5, 12)]);
    let untouched = fresh_field();
    for i in 0..216 {
        if field[i] != '6' {
            assert_eq!(field[i], untouched[i]);
        }
    }
}

#[test]
fn only_rows_under_the_piece_and_above_the_floor_are_marked() {
    let mut field = fresh_field();
    fill_row(&mut field, 10, 1, 10);
    fill_row(&mut field, 15, 1, 10);
    fill_row(&mut field, 16, 1, 10);
    fill_row(&mut field, 14, 1, 9);
    assert!(row_is_full(&field, 16));
    assert!(!row_is_full(&field, 14));
    assert!(row_is_full(&field, 17));
    let lines = mark_lines(&mut field, 14);
    assert_eq!(lines, vec![15, 16]);
    assert_eq!(at(&field, 5, 10), '1');
    assert_eq!(at(&field, 5, 14), '1');
    assert_eq!(at(&field, 5, 15), '8');
    assert_eq!(at(&field, 5, 16), '8');
    assert_eq!(at(&field, 5, 17), '9');
    assert!(border_intact(&field));
}

#[test]
fn collapse_row_shifts_the_rows_above_down() {
    let mut field = fresh_field();
    field[0 * 12 + 2] = '7';
    field[4 * 12 + 3] = '2';
    field[6 * 12 + 4] = '3';
    collapse_row(&mut field, 5);
    assert_eq!(at(&field, 2, 0), '0');
    assert_eq!(at(&field, 2, 1), '7');
    assert_eq!(at(&field, 3, 4), '0');
    assert_eq!(at(&field, 3, 5), '2');
    assert_eq!(at(&field, 4, 6), '3');
    assert!(border_intact(&field));
}

#[test]
fn collapse_removes_separate_rows_and_sinks_the_rest() {
    let mut field = fresh_field();
    field[12 * 12 + 2] = '2';
    fill_row(&mut field, 13, 1, 10);
    field[14 * 12 + 5] = '3';
    fill_row(&mut field, 15, 1, 10);
    field[16 * 12 + 7] = '4';
    let lines = mark_lines(&mut field, 13);
    assert_eq!(lines, vec![13, 15]);
    collapse(&mut field, &lines);
    assert!(field.iter().all(|&c| c != '8'));
    for y in 0..17 {
        for x in 1..=10 {
            let expected = match (x, y) {
                (2, 14) => '2',
                (5, 15) => '3',
                (7, 16) => '4',
                _ => '0',
            };
            assert_eq!(at(&field, x, y), expected, "cell ({}, {})", x, y);
        }
    }
    assert!(border_intact(&field));
}

#[test]
fn tick_draws_one_of_the_seven_shapes() {
    for _ in 0..40 {
        let mut game = Game::new();
        game.piece = Piece { shape: 2, rotation: 0, x: 0, y: 14 };
        game.speed_counter = game.speed;
        game.tick(no_keys());
        assert_eq!(game.piece_count, 1);
        assert!(game.piece.shape < 7);
        assert_eq!(game.piece, spawn(game.piece.shape));
        assert!(!game.is_over);
    }
}

#[test]
fn tick_without_a_lock_is_a_step() {
    let mut a = Game::new();
    let mut b = Game::new();
    let left = KeyMap { left: true, ..no_keys() };
    for _ in 0..30 {
        a.tick(left);
        b.step(left, 0);
        assert_eq!(a.piece, b.piece);
        assert_eq!(a.speed_counter, b.speed_counter);
        assert_eq!(a.field, b.field);
    }
    assert_eq!(a.piece.x, 0);
    assert_eq!(a.piece.y, 2);
}

#[test]
fn score_adds_up_over_locks() {
    let mut game = Game::new();
    // Two locks without a clear, then one that clears a row.
    game.piece = Piece { shape: 0, rotation: 0, x: 0, y: 9 };
    game.lock(0);
    game.piece = Piece { shape: 0, rotation: 0, x: 1, y: 9 };
    game.lock(0);
    fill_row(&mut game.field, 16, 1, 9);
    game.piece = Piece { shape: 0, rotation: 0, x: 9, y: 13 };
    game.lock(0);
    assert_eq!(game.lines, vec![16]);
    assert_eq!(game.score, 25 * 3 + 200);
    game.collapse();
    assert_eq!(game.score, 275);
    assert_eq!(game.piece_count, 3);
}

#[test]
fn score_limit_leaves_room_for_the_largest_lock() {
    assert_eq!(SCORE_LIMIT, u64::MAX - 1625);
    let mut game = Game::new();
    for y in 13..=16 {
        fill_row(&mut game.field, y, 1, 9);
    }
    game.piece = Piece { shape: 0, rotation: 0, x: 9, y: 13 };
    game.score = SCORE_LIMIT;
    game.lock(6);
    assert_eq!(game.lines.len(), 4);
    assert_eq!(game.score, u64::MAX);
    assert_eq!(game.piece, Piece { shape: 6, rotation: 0, x: 4, y: 0 });
}

#[test]
fn invariants_hold_through_a_long_game() {
    let mut seed: u64 = 0x2545_f491_4f6c_dd1d;
    let mut games = 0;
    let mut locks = 0;
    let mut cleared = 0;
    while games < 20 {
        let mut game = Game::new();
        let mut expected_score = 0;
        let mut ticks = 0;
        while !game.is_over && ticks < 20_000 {
            seed = seed.wrapping_mul(6364136223846793005).wrapping_add(1442695040888963407);
            let draw = (seed >> 33) % 8;
            let keys = KeyMap {
                rotate: draw == 0,
                left: draw == 1 || draw == 2,
                right: draw == 3 || draw == 4,
                down: draw >= 5,
            };
            let next_shape = ((seed >> 40) % 7) as usize;
            let free_before = does_piece_fit(
                game.piece.shape,
                game.piece.rotation,
                game.piece.x,
                game.piece.y,
                &game.field,
            );
            let count_before = game.piece_count;
            game.step(keys, next_shape);
            ticks += 1;
            let locked = game.piece_count == count_before + 1;
            if locked {
                locks += 1;
                expected_score += 25;
                if !game.lines.is_empty() {
                    expected_score += 100 * (1u64 << game.lines.len());
                    cleared += game.lines.len();
                }
                assert_eq!(game.piece, spawn(next_shape));
                assert_eq!(game.speed_counter, 0);
            } else {
                assert_eq!(game.piece_count, count_before);
                assert!(game.lines.is_empty());
            }
            assert_eq!(game.score, expected_score);
            assert!(border_intact(&game.field));
            assert!(game.speed >= 1);
            assert_eq!(game.speed, std::cmp::max(1, 10 - std::cmp::min(9, game.piece_count / 10)));
            assert!(game.speed_counter <= game.speed);
            let free = does_piece_fit(
                game.piece.shape,
                game.piece.rotation,
                game.piece.x,
                game.piece.y,
                &game.field,
            );
            if locked {
                assert_eq!(game.is_over, !free);
            } else if free_before {
                assert!(free);
            }
            for (i, c) in game.field.iter().enumerate() {
                let pending = game.lines.contains(&(i / 12)) && (1..=10).contains(&(i % 12));
                assert_eq!(*c == '8', pending);
            }
            if !game.lines.is_empty() {
                game.collapse();
                assert!(game.lines.is_empty());
                assert!(game.field.iter().all(|&c| c != '8'));
                assert!(border_intact(&game.field));
            }
        }
        games += 1;
    }
    assert!(locks > 100);
    assert!(cleared < locks * 4);
}
