use pong_core::ball::{
    ball_paddle_deflect, ball_wall_deflect, init_move_ball, move_ball, spawn_ball, Ball,
};
use pong_core::field::{ceil_sqrt, Playfield, DIR_SCALE, HALF_HEIGHT, PADDLE_Y_LIMIT};
use pong_core::game::{FrameInput, Game};
use pong_core::paddle::{
    handle_resize_for_paddle, player_1_input, spawn_players, Intent, Paddle, Side,
};
use pong_core::scoring::{check_scored, PlayerScored};
use pong_core::serve::Direction;

const FRAME: u32 = 16_667;

fn square_field() -> Playfield {
    Playfield::from_viewport(800, 800).unwrap()
}

fn quiet(dt_micros: u32) -> FrameInput {
    FrameInput {
        left: Intent::Stay,
        right: Intent::Stay,
        resize: None,
        serve: None,
        viewport_available: true,
        dt_micros,
    }
}

fn moving_ball(x: i64, y: i64, vx: i64, vy: i64) -> Ball {
    Ball { x, y, vx, vy }
}

#[test]
fn viewport_gives_half_width() {
    assert_eq!(square_field().half_width, 50_000);
    assert_eq!(Playfield::from_viewport(1600, 900).unwrap().half_width, 88_888);
    assert_eq!(Playfield::from_viewport(0, 900), None);
    assert_eq!(Playfield::from_viewport(1600, 0), None);
    assert_eq!(Playfield::from_viewport(1, 100_000), None);
    assert_eq!(Playfield::from_viewport(1, 50_000).unwrap().half_width, 1);
}

#[test]
fn ceil_sqrt_values() {
    assert_eq!(ceil_sqrt(0), 0);
    assert_eq!(ceil_sqrt(1), 1);
    assert_eq!(ceil_sqrt(2), 2);
    assert_eq!(ceil_sqrt(4), 2);
    assert_eq!(ceil_sqrt(5), 3);
    assert_eq!(ceil_sqrt(2_000_000), 1415);
    assert_eq!(ceil_sqrt(1_000_000_000_000_000_000), 1_000_000_000);
}

#[test]
fn paddle_moves_at_fixed_speed() {
    let mut p = Paddle { side: Side::Left, x: -46_500, y: 0, points: 0 };
    player_1_input(&mut p, Intent::Up, 100_000);
    assert_eq!(p.y, 18_000);
    player_1_input(&mut p, Intent::Down, 50_000);
    assert_eq!(p.y, 9_000);
    player_1_input(&mut p, Intent::Stay, 1_000_000);
    assert_eq!(p.y, 9_000);
    assert_eq!(p.x, -46_500);
}

#[test]
fn paddle_clamped_under_sustained_intent() {
    let mut p = Paddle { side: Side::Right, x: 46_500, y: 0, points: 0 };
    for i in 0..200u32 {
        player_1_input(&mut p, Intent::Up, 1_000 * (i % 7) + 3_000);
        assert!(p.y <= PADDLE_Y_LIMIT);
    }
    assert_eq!(p.y, PADDLE_Y_LIMIT);
    player_1_input(&mut p, Intent::Up, u32::MAX);
    assert_eq!(p.y, PADDLE_Y_LIMIT);
    player_1_input(&mut p, Intent::Down, u32::MAX);
    assert_eq!(p.y, -PADDLE_Y_LIMIT);
    assert_eq!(PADDLE_Y_LIMIT, HALF_HEIGHT - 10_000);
}

#[test]
fn resize_places_paddles() {
    let (mut left, mut right) = spawn_players(square_field());
    assert_eq!((left.x, left.y, left.points), (-46_500, 0, 0));
    assert_eq!((right.x, right.y, right.points), (46_500, 0, 0));
    let wide = Playfield::from_viewport(1600, 900).unwrap();
    left.y = 1234;
    handle_resize_for_paddle(&mut left, wide);
    handle_resize_for_paddle(&mut right, wide);
    assert_eq!((left.x, left.y), (-85_388, 1234));
    assert_eq!(right.x, 85_388);
}

#[test]
fn sample_normalisation() {
    let d = Direction::from_sample(600_000, 800_000).unwrap();
    assert_eq!((d.x, d.y), (600, 800));
    let d = Direction::from_sample(1, 1).unwrap();
    assert_eq!((d.x, d.y), (706, 706));
    let d = Direction::from_sample(-1_000_000, 0).unwrap();
    assert_eq!((d.x, d.y), (-DIR_SCALE, 0));
    assert!(d.is_valid());
}

#[test]
fn samples_near_vertical_rejected() {
    assert_eq!(Direction::from_sample(0, 0), None);
    assert_eq!(Direction::from_sample(0, 1000), None);
    assert_eq!(Direction::from_sample(0, -1000), None);
    // tan(pi/8) is about 0.4142: 0.41 is inside the dead zone, 0.42 outside.
    assert_eq!(Direction::from_sample(410_000, 1_000_000), None);
    assert!(Direction::from_sample(420_000, -1_000_000).is_some());
    assert!(!Direction { x: 0, y: 1000 }.is_valid());
    assert!(!Direction { x: 1000, y: 1000 }.is_valid());
    assert!(!Direction { x: 1, y: 0 }.is_valid());
    assert!(!Direction { x: 997, y: 0 }.is_valid());
    assert!(Direction { x: 998, y: 0 }.is_valid());
}

#[test]
fn first_accepted_sample_is_served() {
    let samples = vec![(0, 0), (0, 1000), (600_000, 800_000), (1_000_000, 0)];
    let d = Direction::first_accepted(&samples).unwrap();
    assert_eq!((d.x, d.y), (600, 800));
    let rejected = vec![(0, 0), (0, -1000), (100, 1_000_000)];
    assert_eq!(Direction::first_accepted(&rejected), None);
    assert_eq!(Direction::first_accepted(&Vec::new()), None);
}

#[test]
fn missing_viewport_skips_ball() {
    let mut g = Game::new(square_field());
    let d = Direction::from_sample(600_000, 800_000).unwrap();
    let frozen = FrameInput { viewport_available: false, ..quiet(FRAME) };
    g.step(FrameInput { serve: Some(d), left: Intent::Up, ..frozen });
    assert_eq!(g.ball, spawn_ball());
    assert_eq!(g.left.y, 3_000);
    g.ball = moving_ball(60_000, 0, 600, 800);
    assert_eq!(g.step(frozen), None);
    assert_eq!(g.ball, moving_ball(60_000, 0, 600, 800));
    assert_eq!((g.left.points, g.right.points), (0, 0));
    let ev = g.step(quiet(FRAME));
    assert_eq!(ev, Some(PlayerScored { scorer: Side::Left, current_score: 1 }));
}

#[test]
fn random_serves_avoid_vertical() {
    let limit = std::f64::consts::PI / 8.0;
    let mut distinct = std::collections::HashSet::new();
    let mut count = 0;
    while count < 10_000 {
        if let Some(d) = Direction::random() {
            assert!(d.is_valid());
            let (x, y) = (d.x as f64, d.y as f64);
            let len = (x * x + y * y).sqrt();
            let to_up = (y / len).clamp(-1.0, 1.0).acos();
            let to_down = (-y / len).clamp(-1.0, 1.0).acos();
            assert!(to_up > limit && to_down > limit, "{:?}", d);
            assert!((len - 1000.0).abs() < 3.0, "{:?}", d);
            distinct.insert((d.x, d.y));
            count += 1;
        }
    }
    assert!(distinct.len() > 100);
}

#[test]
fn ball_moves_along_direction() {
    let mut b = moving_ball(0, 0, 600, -800);
    move_ball(&mut b, 1_000_000);
    assert_eq!((b.x, b.y), (150_000, -200_000));
    let mut b = moving_ball(10, 20, 600, 800);
    move_ball(&mut b, FRAME);
    assert_eq!((b.x, b.y), (2_510, 3_353));
    let mut idle = spawn_ball();
    move_ball(&mut idle, FRAME);
    assert_eq!(idle, Ball { x: 0, y: 0, vx: 0, vy: 0 });
}

#[test]
fn wall_reflects_once() {
    let mut b = moving_ball(0, HALF_HEIGHT, 600, 800);
    ball_wall_deflect(&mut b);
    assert_eq!(b.vy, -800);
    ball_wall_deflect(&mut b);
    assert_eq!(b.vy, -800);
    let mut b = moving_ball(0, -HALF_HEIGHT - 5, 600, -800);
    ball_wall_deflect(&mut b);
    assert_eq!(b.vy, 800);
    let mut b = moving_ball(0, HALF_HEIGHT - 1, 600, 800);
    ball_wall_deflect(&mut b);
    assert_eq!(b.vy, 800);
}

#[test]
fn paddles_turn_the_ball() {
    let (left, right) = spawn_players(square_field());
    let mut b = moving_ball(-46_000, 5_000, -600, 800);
    ball_paddle_deflect(&mut b, &left, &right);
    assert_eq!((b.vx, b.vy), (600, 800));
    let mut b = moving_ball(48_250, -10_000, 600, -800);
    ball_paddle_deflect(&mut b, &left, &right);
    assert_eq!((b.vx, b.vy), (-600, -800));
    let mut b = moving_ball(46_500, 0, -600, 800);
    ball_paddle_deflect(&mut b, &left, &right);
    assert_eq!(b.vx, -600);
    // Centre just outside the box: no deflection even though the radius overlaps.
    let mut b = moving_ball(48_251, 0, 600, 800);
    ball_paddle_deflect(&mut b, &left, &right);
    assert_eq!(b.vx, 600);
}

#[test]
fn scoring_attribution() {
    let field = square_field();
    let (mut left, mut right) = spawn_players(field);
    let mut b = moving_ball(50_000, 100, 600, 800);
    let ev = check_scored(&mut b, &mut left, &mut right, field);
    assert_eq!(ev, Some(PlayerScored { scorer: Side::Left, current_score: 1 }));
    assert_eq!((left.points, right.points), (1, 0));
    assert_eq!(b, spawn_ball());
    let mut b = moving_ball(-50_001, 100, -600, 800);
    let ev = check_scored(&mut b, &mut left, &mut right, field);
    assert_eq!(ev, Some(PlayerScored { scorer: Side::Right, current_score: 1 }));
    assert_eq!((left.points, right.points), (1, 1));
    assert_eq!(b, spawn_ball());
    let mut b = moving_ball(49_999, 100, 600, 800);
    assert_eq!(check_scored(&mut b, &mut left, &mut right, field), None);
    assert_eq!(b, moving_ball(49_999, 100, 600, 800));
    assert_eq!((left.points, right.points), (1, 1));
}

#[test]
fn serve_ignored_while_in_play() {
    let d = Direction::from_sample(600_000, 800_000).unwrap();
    let mut b = moving_ball(0, 0, -706, 706);
    init_move_ball(&mut b, d);
    assert_eq!(b, moving_ball(0, 0, -706, 706));
    let mut b = spawn_ball();
    init_move_ball(&mut b, d);
    assert_eq!(b, moving_ball(0, 0, 600, 800));

    let mut g = Game::new(square_field());
    g.step(FrameInput { serve: Some(d), ..quiet(FRAME) });
    let mut with_serve = g;
    let mut without = g;
    let other = Direction::from_sample(-1_000_000, 100).unwrap();
    with_serve.step(FrameInput { serve: Some(other), ..quiet(FRAME) });
    without.step(quiet(FRAME));
    assert_eq!(with_serve.ball, without.ball);
    assert_eq!((with_serve.ball.vx, with_serve.ball.vy), (600, 800));
}

#[test]
fn speed_constant_while_in_play() {
    let mut g = Game::new(Playfield::from_viewport(3000, 800).unwrap());
    let d = Direction::from_sample(450_000, -900_000).unwrap();
    let len = d.x * d.x + d.y * d.y;
    g.step(FrameInput { serve: Some(d), ..quiet(FRAME) });
    let mut steps = 0;
    loop {
        assert_eq!(g.ball.vx * g.ball.vx + g.ball.vy * g.ball.vy, len);
        let intents = if steps % 3 == 0 { Intent::Up } else { Intent::Down };
        let ev = g.step(FrameInput { left: intents, right: intents, ..quiet(FRAME) });
        steps += 1;
        if ev.is_some() {
            break;
        }
        assert!(steps < 10_000);
    }
    assert_eq!(g.ball, spawn_ball());
}

#[test]
fn end_to_end_point() {
    let mut g = Game::new(square_field());
    assert_eq!(g.field.half_width, 50_000);
    assert_eq!(g.ball, spawn_ball());
    let d = Direction::from_sample(600_000, 800_000).unwrap();
    let mut events = Vec::new();
    let first = g.step(FrameInput { serve: Some(d), ..quiet(FRAME) });
    assert_eq!(first, None);
    assert_eq!(g.ball, moving_ball(2_500, 3_333, 600, 800));
    let mut steps = 1;
    while steps < 40 {
        if let Some(ev) = g.step(quiet(FRAME)) {
            events.push((steps + 1, ev));
        }
        steps += 1;
    }
    // The ball bounces off the top wall and leaves through the right edge:
    // the left paddle wins the point.
    assert_eq!(events, vec![(20, PlayerScored { scorer: Side::Left, current_score: 1 })]);
    assert_eq!((g.left.points, g.right.points), (1, 0));
    assert_eq!(g.ball, Ball { x: 0, y: 0, vx: 0, vy: 0 });
}
