use breakout::game::FrameInput;
use breakout::game::GameState;
use breakout::game::advance_frame;
use breakout::geom::Vec2;

fn fresh() -> GameState {
    GameState::new(Vec2::xy(80, 30))
}

#[test]
fn construction_example() {
    let s = fresh();
    assert_eq!(s.dimensions, Vec2::xy(105, 30));
    assert_eq!(s.paddle_position, Vec2::xy(5, 25));
    assert_eq!(s.paddle_size, Vec2::xy(12, 2));
    assert_eq!(s.ball_position, Vec2::xy(5, 20));
    assert_eq!(s.ball_speed, Vec2::xy(1, -1));
    assert_eq!(s.bricks.len(), 20);
    for k in 0..20usize {
        let b = &s.bricks[k];
        let col = (k as i32) % 5;
        let row = (k as i32) / 5;
        assert_eq!(b.position, Vec2::xy(5 + 20 * col, 5 + 2 * row));
        assert_eq!(b.size, Vec2::xy(15, 2));
        assert!(!b.broken);
    }
}

#[test]
fn bricks_occupy_disjoint_cells() {
    let s = fresh();
    for a in 0..20usize {
        for b in 0..20usize {
            if a != b {
                let (ba, bb) = (&s.bricks[a], &s.bricks[b]);
                // Half-open cell areas never overlap (the inclusive
                // collision rectangles of vertically adjacent bricks share
                // only their boundary row).
                let x_apart = ba.position.x + ba.size.x <= bb.position.x
                    || bb.position.x + bb.size.x <= ba.position.x;
                let y_apart = ba.position.y + ba.size.y <= bb.position.y
                    || bb.position.y + bb.size.y <= ba.position.y;
                assert!(x_apart || y_apart);
            }
        }
    }
}

#[test]
fn tick_moves_ball_by_velocity() {
    let mut s = fresh();
    s.update();
    assert_eq!(s.ball_position, Vec2::xy(6, 19));
    assert!(s.ball_speed.x == 1 || s.ball_speed.x == -1);
    assert!(s.ball_speed.y == 1 || s.ball_speed.y == -1);
    let before = s.ball_position;
    let speed = s.ball_speed;
    s.update();
    assert_eq!(s.ball_position, Vec2::xy(before.x + speed.x, before.y + speed.y));
}

#[test]
fn paddle_clamped_right() {
    let mut s = fresh();
    s.paddle_position.x = 500;
    s.update();
    assert_eq!(s.paddle_position.x, 92);
}

#[test]
fn paddle_clamped_left() {
    let mut s = fresh();
    s.paddle_position.x = -5;
    s.update();
    assert_eq!(s.paddle_position.x, 1);
}

#[test]
fn paddle_clamped_after_held_key() {
    let mut s = fresh();
    for _ in 0..100 {
        s.move_paddle(false, true);
    }
    assert_eq!(s.paddle_position.x, 105);
    s.update();
    assert!(1 <= s.paddle_position.x && s.paddle_position.x <= 92);
    assert_eq!(s.paddle_position.x, 92);
}

#[test]
fn right_wall_flips_horizontal_only() {
    let mut s = fresh();
    s.ball_position = Vec2::xy(104, 15);
    s.ball_speed = Vec2::xy(1, 1);
    s.update();
    assert_eq!(s.ball_position, Vec2::xy(105, 16));
    assert_eq!(s.ball_speed, Vec2::xy(-1, 1));
}

#[test]
fn left_wall_flips_horizontal_only() {
    let mut s = fresh();
    s.ball_position = Vec2::xy(2, 15);
    s.ball_speed = Vec2::xy(-1, 1);
    s.update();
    assert_eq!(s.ball_position, Vec2::xy(1, 16));
    assert_eq!(s.ball_speed, Vec2::xy(1, 1));
}

#[test]
fn top_wall_flips_vertical_only() {
    let mut s = fresh();
    s.ball_position = Vec2::xy(50, 2);
    s.ball_speed = Vec2::xy(1, -1);
    s.update();
    assert_eq!(s.ball_position, Vec2::xy(51, 1));
    assert_eq!(s.ball_speed, Vec2::xy(1, 1));
}

#[test]
fn single_brick_hit_breaks_and_flips_once() {
    let mut s = fresh();
    s.ball_position = Vec2::xy(9, 7);
    s.ball_speed = Vec2::xy(1, -1);
    s.update();
    // The ball lands at (10, 6), inside the first brick's rectangle only.
    assert_eq!(s.ball_position, Vec2::xy(10, 6));
    assert!(s.bricks[0].broken);
    assert_eq!(s.bricks.iter().filter(|b| b.broken).count(), 1);
    assert_eq!(s.ball_speed, Vec2::xy(1, 1));
    // The brick's rectangle itself never changes.
    assert_eq!(s.bricks[0].position, Vec2::xy(5, 5));
    assert_eq!(s.bricks[0].size, Vec2::xy(15, 2));
}

#[test]
fn shared_edge_double_hit_flips_twice() {
    let mut s = fresh();
    s.ball_position = Vec2::xy(9, 8);
    s.ball_speed = Vec2::xy(1, -1);
    s.update();
    // The ball lands at (10, 7), on the edge shared by the bricks of the
    // first two rows of the first column: both break, and the two flips of
    // the vertical velocity cancel out.
    assert_eq!(s.ball_position, Vec2::xy(10, 7));
    assert!(s.bricks[0].broken);
    assert!(s.bricks[5].broken);
    assert_eq!(s.bricks.iter().filter(|b| b.broken).count(), 2);
    assert_eq!(s.ball_speed, Vec2::xy(1, -1));
}

#[test]
fn broken_brick_stays_broken() {
    let mut s = fresh();
    s.ball_position = Vec2::xy(9, 7);
    s.ball_speed = Vec2::xy(1, -1);
    s.update();
    assert!(s.bricks[0].broken);
    s.ball_position = Vec2::xy(50, 20);
    s.ball_speed = Vec2::xy(1, 1);
    s.update();
    s.update();
    assert!(s.bricks[0].broken);
}

#[test]
fn paddle_contact_flips_vertical() {
    let mut s = fresh();
    s.ball_position = Vec2::xy(9, 24);
    s.ball_speed = Vec2::xy(1, 1);
    s.update();
    assert_eq!(s.ball_position, Vec2::xy(10, 25));
    assert_eq!(s.ball_speed, Vec2::xy(1, -1));
}

#[test]
fn ball_lost_boundary() {
    let mut s = fresh();
    s.ball_position = Vec2::xy(50, 30);
    assert!(s.ball_lost());
    s.ball_position = Vec2::xy(50, 29);
    assert!(!s.ball_lost());
}

#[test]
fn falling_past_bottom_stops_the_loop() {
    let mut s = fresh();
    s.ball_position = Vec2::xy(50, 29);
    s.ball_speed = Vec2::xy(1, 1);
    let input = FrameInput { quit: false, left: false, right: false };
    let stop = advance_frame(&mut s, &input, 0);
    assert_eq!(s.ball_position, Vec2::xy(51, 30));
    assert!(stop);
}

#[test]
fn ball_above_bottom_does_not_stop() {
    let mut s = fresh();
    let input = FrameInput { quit: false, left: false, right: false };
    let stop = advance_frame(&mut s, &input, 0);
    assert!(!stop);
}

#[test]
fn quit_sets_stop_regardless_of_state() {
    let mut s = fresh();
    let input = FrameInput { quit: true, left: false, right: false };
    assert!(advance_frame(&mut s, &input, 1));
    // Quit stops the loop even on a physics frame with nothing else special.
    let mut s2 = fresh();
    assert!(advance_frame(&mut s2, &input, 0));
}

#[test]
fn held_keys_move_paddle_one_cell() {
    let mut s = fresh();
    s.move_paddle(true, false);
    assert_eq!(s.paddle_position.x, 4);
    s.move_paddle(false, true);
    assert_eq!(s.paddle_position.x, 5);
    s.move_paddle(true, true);
    assert_eq!(s.paddle_position.x, 5);
    s.move_paddle(false, false);
    assert_eq!(s.paddle_position.x, 5);
    assert_eq!(s.paddle_position.y, 25);
}

#[test]
fn physics_runs_only_on_even_steps() {
    let mut s = fresh();
    let input = FrameInput { quit: false, left: false, right: true };
    advance_frame(&mut s, &input, 1);
    assert_eq!(s.ball_position, Vec2::xy(5, 20));
    assert_eq!(s.paddle_position.x, 6);
    advance_frame(&mut s, &input, 2);
    assert_eq!(s.ball_position, Vec2::xy(6, 19));
    assert_eq!(s.paddle_position.x, 7);
}

#[test]
fn is_wf_accepts_fresh_and_rejects_corrupt() {
    let mut s = fresh();
    assert!(s.is_wf());
    s.ball_speed.x = 2;
    assert!(!s.is_wf());
}
