use vstd::prelude::*;
use crate::field::{
    BALL_SPEED, DIR_SCALE, HALF_HEIGHT, MAX_HALF_WIDTH, MAX_TRAVEL, MICROS_PER_SEC,
    PADDLE_HALF_HEIGHT, PADDLE_HALF_WIDTH,
};
use crate::paddle::Paddle;
use crate::serve::{abs, lemma_square_abs, Direction};

verus! {

/// Bound on the ball's coordinates inside one step.
pub const POS_LIMIT: i64 = 1_000_000_000_000_000;

/// The ball: the position of its centre and its direction of travel, which is
/// zero while the ball waits for a serve.
#[derive(Clone, Copy, Debug, PartialEq, Eq, Structural)]
pub struct Ball {
    pub x: i64,
    pub y: i64,
    pub vx: i64,
    pub vy: i64,
}

/// The idle ball: at the centre, not moving.
pub open spec fn idle_ball() -> Ball {
    Ball { x: 0, y: 0, vx: 0, vy: 0 }
}

/// Squared length of the ball's direction of travel.
pub open spec fn speed_sq(b: Ball) -> int {
    b.vx * b.vx + b.vy * b.vy
}

/// Signed distance covered along one axis in `dt_micros` by a ball whose
/// direction component is `v`, rounded toward zero.
pub open spec fn travel(v: int, dt_micros: int) -> int {
    if v < 0 {
        -((-v) * BALL_SPEED * dt_micros / (DIR_SCALE * MICROS_PER_SEC))
    } else {
        v * BALL_SPEED * dt_micros / (DIR_SCALE * MICROS_PER_SEC)
    }
}

/// The ball after a serve in `d`: a serve starts only from the idle ball.
pub open spec fn served(b: Ball, d: Direction) -> Ball {
    if b == idle_ball() {
        Ball { vx: d.x, vy: d.y, ..b }
    } else {
        b
    }
}

/// The ball after travelling for `dt_micros`.
pub open spec fn moved(b: Ball, dt_micros: int) -> Ball {
    Ball { x: (b.x + travel(b.vx as int, dt_micros)) as i64, y: (b.y + travel(b.vy as int, dt_micros)) as i64, ..b }
}

/// The ball after the wall check: at or past the top wall it heads down, at
/// or past the bottom wall it heads up.
pub open spec fn wall_deflected(b: Ball) -> Ball {
    if b.y >= HALF_HEIGHT {
        Ball { vy: -abs(b.vy as int) as i64, ..b }
    } else if b.y <= -HALF_HEIGHT {
        Ball { vy: abs(b.vy as int) as i64, ..b }
    } else {
        b
    }
}

/// The ball's centre lies in the paddle's box, edges included.
pub open spec fn in_paddle_box(b: Ball, p: Paddle) -> bool {
    &&& p.x - PADDLE_HALF_WIDTH <= b.x <= p.x + PADDLE_HALF_WIDTH
    &&& p.y - PADDLE_HALF_HEIGHT <= b.y <= p.y + PADDLE_HALF_HEIGHT
}

/// The ball after meeting paddle `p`: inside the paddle's box its horizontal
/// direction takes the sign of minus the box's left edge.
pub open spec fn paddle_deflected_by(b: Ball, p: Paddle) -> Ball {
    if in_paddle_box(b, p) {
        if p.x - PADDLE_HALF_WIDTH < 0 {
            Ball { vx: abs(b.vx as int) as i64, ..b }
        } else {
            Ball { vx: -abs(b.vx as int) as i64, ..b }
        }
    } else {
        b
    }
}

/// The ball after meeting the left paddle and then the right one.
pub open spec fn paddle_deflected(b: Ball, left: Paddle, right: Paddle) -> Ball {
    paddle_deflected_by(paddle_deflected_by(b, left), right)
}

impl Ball {
    /// The direction of travel is zero or at most unit length and clear of
    /// the vertical.
    pub open spec fn heading_ok(self) -> bool {
        ||| (self.vx == 0 && self.vy == 0)
        ||| (Direction { x: self.vx, y: self.vy }).wf()
    }

    /// The state of the ball between steps: a zero direction only at the
    /// centre, the centre inside the widest playfield, and at or past a wall
    /// only when heading back in.
    pub open spec fn wf(self) -> bool {
        &&& self.heading_ok()
        &&& (self.vx == 0 && self.vy == 0) ==> self == idle_ball()
        &&& -MAX_HALF_WIDTH <= self.x <= MAX_HALF_WIDTH
        &&& -(HALF_HEIGHT + MAX_TRAVEL) <= self.y <= HALF_HEIGHT + MAX_TRAVEL
        &&& self.y >= HALF_HEIGHT ==> self.vy <= 0
        &&& self.y <= -HALF_HEIGHT ==> self.vy >= 0
    }

    /// Coordinates small enough for one step's arithmetic.
    pub open spec fn in_range(self) -> bool {
        &&& -POS_LIMIT <= self.x <= POS_LIMIT
        &&& -POS_LIMIT <= self.y <= POS_LIMIT
        &&& -DIR_SCALE <= self.vx <= DIR_SCALE
        &&& -DIR_SCALE <= self.vy <= DIR_SCALE
    }
}

/// Changing the signs of the direction's components keeps its length and
/// its clearance from the vertical.
pub proof fn lemma_sign_change_keeps_heading(b: Ball, c: Ball)
    requires
        b.heading_ok(),
        abs(c.vx as int) == abs(b.vx as int),
        abs(c.vy as int) == abs(b.vy as int),
    ensures
        c.heading_ok(),
        speed_sq(c) == speed_sq(b),
{
    lemma_square_abs(b.vx as int);
    lemma_square_abs(c.vx as int);
    lemma_square_abs(b.vy as int);
    lemma_square_abs(c.vy as int);
}

/// How far the ball travels along one axis in one step is bounded.
pub proof fn lemma_travel_bounded(v: int, dt_micros: int)
    requires
        -DIR_SCALE <= v <= DIR_SCALE,
        0 <= dt_micros <= u32::MAX,
    ensures
        -MAX_TRAVEL <= travel(v, dt_micros) <= MAX_TRAVEL,
        v >= 0 ==> travel(v, dt_micros) >= 0,
        v <= 0 ==> travel(v, dt_micros) <= 0,
{
    let a = abs(v);
    assert(0 <= a * 250_000 * dt_micros <= 1_073_741_823_750_000_000) by (nonlinear_arith)
        requires
            0 <= a <= 1000,
            0 <= dt_micros <= 4_294_967_295,
    ;
    assert(0 <= (a * 250_000 * dt_micros) / 1_000_000_000 <= 1_073_741_823) by (nonlinear_arith)
        requires
            0 <= a * 250_000 * dt_micros <= 1_073_741_823_750_000_000,
    ;
}

/// The wall check reflects a ball that is at or past a wall and heading
/// out exactly once: a second check in the same step, or a later one while
/// the ball is still past the wall but heading back in, changes nothing.
pub proof fn lemma_wall_reflection_once(b: Ball)
    requires
        -DIR_SCALE <= b.vy <= DIR_SCALE,
    ensures
        wall_deflected(wall_deflected(b)) == wall_deflected(b),
        b.y >= HALF_HEIGHT && b.vy > 0 ==> wall_deflected(b) == (Ball { vy: (-b.vy) as i64, ..b })
            && wall_deflected(b).vy < 0,
        b.y <= -HALF_HEIGHT && b.vy < 0 ==> wall_deflected(b) == (Ball { vy: (-b.vy) as i64, ..b })
            && wall_deflected(b).vy > 0,
        b.y >= HALF_HEIGHT && b.vy <= 0 ==> wall_deflected(b) == b,
        b.y <= -HALF_HEIGHT && b.vy >= 0 ==> wall_deflected(b) == b,
        -HALF_HEIGHT < b.y < HALF_HEIGHT ==> wall_deflected(b) == b,
{
}

/// The ball at the start of a session: idle at the centre.
pub fn spawn_ball() -> (r: Ball)
    ensures
        r == idle_ball(),
        r.wf(),
{
    Ball { x: 0, y: 0, vx: 0, vy: 0 }
}

/// Serves the ball in direction `d` if it is idle; otherwise leaves it as it
/// is.
pub fn init_move_ball(ball: &mut Ball, d: Direction)
    requires
        d.wf(),
    ensures
        *final(ball) == served(*old(ball), d),
        old(ball).wf() ==> final(ball).wf(),
{
    if ball.x == 0 && ball.y == 0 && ball.vx == 0 && ball.vy == 0 {
        ball.vx = d.x;
        ball.vy = d.y;
    }
}

/// Signed distance covered along one axis in `dt_micros`.
fn travel_exec(v: i64, dt_micros: u32) -> (r: i64)
    requires
        -DIR_SCALE <= v <= DIR_SCALE,
    ensures
        r == travel(v as int, dt_micros as int),
{
    proof {
        lemma_travel_bounded(v as int, dt_micros as int);
    }
    let a: u64 = if v < 0 { (-v) as u64 } else { v as u64 };
    let dt: u64 = dt_micros as u64;
    assert(a * 250_000 * dt <= 1_073_741_823_750_000_000) by (nonlinear_arith)
        requires
            a <= 1000,
            dt <= 4_294_967_295,
    ;
    assert(a * 250_000 <= 250_000_000) by (nonlinear_arith)
        requires
            a <= 1000,
    ;
    let d: u64 = a * (BALL_SPEED as u64) * dt / ((DIR_SCALE * MICROS_PER_SEC) as u64);
    if v < 0 {
        -(d as i64)
    } else {
        d as i64
    }
}

/// Moves the ball along its direction at `BALL_SPEED` for `dt_micros`.
pub fn move_ball(ball: &mut Ball, dt_micros: u32)
    requires
        old(ball).in_range(),
    ensures
        *final(ball) == moved(*old(ball), dt_micros as int),
        -POS_LIMIT - MAX_TRAVEL <= final(ball).x <= POS_LIMIT + MAX_TRAVEL,
        -POS_LIMIT - MAX_TRAVEL <= final(ball).y <= POS_LIMIT + MAX_TRAVEL,
{
    proof {
        lemma_travel_bounded(ball.vx as int, dt_micros as int);
        lemma_travel_bounded(ball.vy as int, dt_micros as int);
    }
    let dx = travel_exec(ball.vx, dt_micros);
    let dy = travel_exec(ball.vy, dt_micros);
    ball.x = ball.x + dx;
    ball.y = ball.y + dy;
}

/// Sends the ball back into the playfield when it is at or past the top or
/// bottom wall. Applying it twice is the same as applying it once.
pub fn ball_wall_deflect(ball: &mut Ball)
    requires
        -DIR_SCALE <= old(ball).vy <= DIR_SCALE,
    ensures
        *final(ball) == wall_deflected(*old(ball)),
{
    if ball.y >= HALF_HEIGHT {
        if ball.vy > 0 {
            ball.vy = -ball.vy;
        }
    } else if ball.y <= -HALF_HEIGHT {
        if ball.vy < 0 {
            ball.vy = -ball.vy;
        }
    }
}

fn deflect_off(ball: &mut Ball, p: &Paddle)
    requires
        -DIR_SCALE <= old(ball).vx <= DIR_SCALE,
        p.wf(),
    ensures
        *final(ball) == paddle_deflected_by(*old(ball), *p),
        -DIR_SCALE <= final(ball).vx <= DIR_SCALE,
{
    let min_x = p.x - PADDLE_HALF_WIDTH;
    let inside = min_x <= ball.x && ball.x <= p.x + PADDLE_HALF_WIDTH && p.y - PADDLE_HALF_HEIGHT
        <= ball.y && ball.y <= p.y + PADDLE_HALF_HEIGHT;
    if inside {
        let a: i64 = if ball.vx < 0 { -ball.vx } else { ball.vx };
        if min_x < 0 {
            ball.vx = a;
        } else {
            ball.vx = -a;
        }
    }
}

/// Turns the ball away from each paddle whose box holds the ball's centre,
/// the left paddle first.
pub fn ball_paddle_deflect(ball: &mut Ball, left: &Paddle, right: &Paddle)
    requires
        -DIR_SCALE <= old(ball).vx <= DIR_SCALE,
        left.wf(),
        right.wf(),
    ensures
        *final(ball) == paddle_deflected(*old(ball), *left, *right),
{
    deflect_off(ball, left);
    deflect_off(ball, right);
}

} // verus!
