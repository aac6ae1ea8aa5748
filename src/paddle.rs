use vstd::prelude::*;
use crate::field::{
    Playfield, MAX_HALF_WIDTH, MICROS_PER_SEC, PADDLE_INSET, PADDLE_SPEED, PADDLE_Y_LIMIT,
};

verus! {

/// The side of the playfield a paddle guards.
#[derive(Clone, Copy, Debug, PartialEq, Eq, Structural)]
pub enum Side {
    Left,
    Right,
}

/// A paddle's directional intent for one step.
#[derive(Clone, Copy, Debug, PartialEq, Eq, Structural)]
pub enum Intent {
    Up,
    Down,
    Stay,
}

/// A paddle: its side, the position of its centre and its score.
#[derive(Clone, Copy, Debug, PartialEq, Eq, Structural)]
pub struct Paddle {
    pub side: Side,
    pub x: i64,
    pub y: i64,
    pub points: u64,
}

/// The y a paddle heads for under `intent`: the highest or lowest position
/// at which it still lies wholly inside the playfield.
pub open spec fn intent_target(intent: Intent) -> int {
    match intent {
        Intent::Up => PADDLE_Y_LIMIT as int,
        Intent::Down => -PADDLE_Y_LIMIT,
        Intent::Stay => 0,
    }
}

/// How far a paddle may move in `dt_micros` microseconds.
pub open spec fn paddle_reach(dt_micros: int) -> int {
    PADDLE_SPEED * dt_micros / (MICROS_PER_SEC as int)
}

/// Moving from `from` toward `to` by at most `reach`, without overshooting.
pub open spec fn approach(from: int, to: int, reach: int) -> int {
    if to - reach <= from <= to + reach {
        to
    } else if from < to {
        from + reach
    } else {
        from - reach
    }
}

/// The y of a paddle at `y` after one step of `intent` lasting `dt_micros`.
pub open spec fn paddle_y_after(y: int, intent: Intent, dt_micros: int) -> int {
    match intent {
        Intent::Stay => y,
        _ => approach(y, intent_target(intent), paddle_reach(dt_micros)),
    }
}

/// The y of a paddle at `y` after a run of steps of one sustained intent.
pub open spec fn paddle_y_after_steps(y: int, intent: Intent, dts: Seq<u32>) -> int
    decreases dts.len(),
{
    if dts.len() == 0 {
        y
    } else {
        paddle_y_after_steps(
            paddle_y_after(y, intent, dts[0] as int),
            intent,
            dts.drop_first(),
        )
    }
}

/// The x of the centre of the paddle on `side` in a playfield of the given
/// half-width.
pub open spec fn paddle_x_for(side: Side, half_width: int) -> int {
    match side {
        Side::Left => -(half_width - PADDLE_INSET),
        Side::Right => half_width - PADDLE_INSET,
    }
}

impl Paddle {
    /// The paddle lies within the playfield vertically and its centre within
    /// the widest possible playfield horizontally.
    pub open spec fn wf(self) -> bool {
        &&& -PADDLE_Y_LIMIT <= self.y <= PADDLE_Y_LIMIT
        &&& -MAX_HALF_WIDTH <= self.x <= MAX_HALF_WIDTH
    }
}

/// A paddle within the vertical limits stays within them after one step of
/// any intent.
pub proof fn lemma_paddle_step_clamped(y: int, intent: Intent, dt_micros: int)
    requires
        -PADDLE_Y_LIMIT <= y <= PADDLE_Y_LIMIT,
        0 <= dt_micros,
    ensures
        -PADDLE_Y_LIMIT <= paddle_y_after(y, intent, dt_micros) <= PADDLE_Y_LIMIT,
{
    assert(paddle_reach(dt_micros) >= 0) by (nonlinear_arith)
        requires
            dt_micros >= 0,
    ;
}

/// However long an `Up` or `Down` intent is held, a paddle that starts
/// within the playfield stays within `PADDLE_Y_LIMIT` of the mid-line, so its
/// far edge never leaves the playfield.
pub proof fn lemma_paddle_stays_clamped(y: int, intent: Intent, dts: Seq<u32>)
    requires
        -PADDLE_Y_LIMIT <= y <= PADDLE_Y_LIMIT,
    ensures
        -PADDLE_Y_LIMIT <= paddle_y_after_steps(y, intent, dts) <= PADDLE_Y_LIMIT,
    decreases dts.len(),
{
    if dts.len() > 0 {
        lemma_paddle_step_clamped(y, intent, dts[0] as int);
        lemma_paddle_stays_clamped(
            paddle_y_after(y, intent, dts[0] as int),
            intent,
            dts.drop_first(),
        );
    }
}

/// Moves a paddle for one step of `intent` lasting `dt_micros`: no movement
/// for `Stay`, otherwise toward the top or bottom limit at `PADDLE_SPEED`,
/// stopping at the limit.
pub fn player_1_input(paddle: &mut Paddle, intent: Intent, dt_micros: u32)
    requires
        old(paddle).wf(),
    ensures
        final(paddle).wf(),
        final(paddle).y == paddle_y_after(old(paddle).y as int, intent, dt_micros as int),
        final(paddle).x == old(paddle).x,
        final(paddle).side == old(paddle).side,
        final(paddle).points == old(paddle).points,
{
    proof {
        lemma_paddle_step_clamped(paddle.y as int, intent, dt_micros as int);
    }
    let target: i64 = match intent {
        Intent::Up => PADDLE_Y_LIMIT,
        Intent::Down => -PADDLE_Y_LIMIT,
        Intent::Stay => {
            return;
        },
    };
    let dt: u64 = dt_micros as u64;
    assert(180_000 * dt <= 773_094_113_100_000) by (nonlinear_arith)
        requires
            dt <= 4_294_967_295,
    ;
    assert((180_000 * dt) as int / 1_000_000 <= 180_000 * dt) by (nonlinear_arith)
        requires
            180_000 * dt >= 0,
    ;
    let reach: i64 = ((PADDLE_SPEED as u64) * dt / (MICROS_PER_SEC as u64)) as i64;
    let y: i64 = paddle.y;
    if target - reach <= y && y <= target + reach {
        paddle.y = target;
    } else if y < target {
        paddle.y = y + reach;
    } else {
        paddle.y = y - reach;
    }
}

/// Places a paddle horizontally for a resized playfield: `PADDLE_INSET` in
/// from the edge of its own side.
pub fn handle_resize_for_paddle(paddle: &mut Paddle, field: Playfield)
    requires
        old(paddle).wf(),
        field.wf(),
    ensures
        final(paddle).wf(),
        final(paddle).x == paddle_x_for(old(paddle).side, field.half_width as int),
        final(paddle).y == old(paddle).y,
        final(paddle).side == old(paddle).side,
        final(paddle).points == old(paddle).points,
{
    paddle.x = match paddle.side {
        Side::Left => -(field.half_width - PADDLE_INSET),
        Side::Right => field.half_width - PADDLE_INSET,
    };
}

/// The two paddles at the start of a session: on their sides of `field`,
/// vertically centred, with no points.
pub fn spawn_players(field: Playfield) -> (r: (Paddle, Paddle))
    requires
        field.wf(),
    ensures
        r.0 == (Paddle {
            side: Side::Left,
            x: paddle_x_for(Side::Left, field.half_width as int) as i64,
            y: 0,
            points: 0,
        }),
        r.1 == (Paddle {
            side: Side::Right,
            x: paddle_x_for(Side::Right, field.half_width as int) as i64,
            y: 0,
            points: 0,
        }),
        r.0.wf(),
        r.1.wf(),
{
    let left = Paddle { side: Side::Left, x: -(field.half_width - PADDLE_INSET), y: 0, points: 0 };
    let right = Paddle { side: Side::Right, x: field.half_width - PADDLE_INSET, y: 0, points: 0 };
    (left, right)
}

} // verus!
