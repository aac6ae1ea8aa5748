use vstd::prelude::*;
use crate::ball::{idle_ball, Ball};
use crate::field::Playfield;
use crate::paddle::{Paddle, Side};

verus! {

/// Notification that `scorer` won a point and now has `current_score`.
#[derive(Clone, Copy, Debug, PartialEq, Eq, Structural)]
pub struct PlayerScored {
    pub scorer: Side,
    pub current_score: u64,
}

/// The ball's centre is at or past the left or right edge.
pub open spec fn crossed(b: Ball, half_width: int) -> bool {
    b.x >= half_width || b.x <= -half_width
}

/// Who wins the point when the ball crosses an edge: the side whose edge was
/// not breached.
pub open spec fn scorer_for(b: Ball) -> Side {
    if b.x < 0 {
        Side::Right
    } else {
        Side::Left
    }
}

/// The paddle with one more point.
pub open spec fn with_point(p: Paddle) -> Paddle {
    Paddle { points: (p.points + 1) as u64, ..p }
}

/// Ball, left paddle, right paddle and notification after the scoring check.
pub open spec fn score_outcome(b: Ball, left: Paddle, right: Paddle, half_width: int) -> (
    Ball,
    Paddle,
    Paddle,
    Option<PlayerScored>,
) {
    if !crossed(b, half_width) {
        (b, left, right, None)
    } else if scorer_for(b) == Side::Left {
        (
            idle_ball(),
            with_point(left),
            right,
            Some(PlayerScored { scorer: Side::Left, current_score: (left.points + 1) as u64 }),
        )
    } else {
        (
            idle_ball(),
            left,
            with_point(right),
            Some(PlayerScored { scorer: Side::Right, current_score: (right.points + 1) as u64 }),
        )
    }
}

/// When the ball is at or past the right edge the left paddle gains a point,
/// at or past the left edge the right paddle does; the ball then returns to
/// idle at the centre and the point is reported. Otherwise nothing changes.
pub fn check_scored(ball: &mut Ball, left: &mut Paddle, right: &mut Paddle, field: Playfield) -> (r:
    Option<PlayerScored>)
    requires
        old(left).points < u64::MAX,
        old(right).points < u64::MAX,
    ensures
        (*final(ball), *final(left), *final(right), r) == score_outcome(
            *old(ball),
            *old(left),
            *old(right),
            field.half_width as int,
        ),
{
    let hw = field.half_width;
    if ball.x >= hw || ball.x <= -hw {
        let scored = if ball.x < 0 {
            right.points = right.points + 1;
            PlayerScored { scorer: Side::Right, current_score: right.points }
        } else {
            left.points = left.points + 1;
            PlayerScored { scorer: Side::Left, current_score: left.points }
        };
        *ball = Ball { x: 0, y: 0, vx: 0, vy: 0 };
        Some(scored)
    } else {
        None
    }
}

/// Crossing the right edge wins the left paddle exactly one point, crossing
/// the left edge wins the right paddle one; either way the ball returns to
/// the centre with zero velocity.
pub proof fn lemma_scoring_attribution(b: Ball, left: Paddle, right: Paddle, half_width: int)
    requires
        half_width > 0,
        left.points < u64::MAX,
        right.points < u64::MAX,
    ensures
        b.x >= half_width ==> score_outcome(b, left, right, half_width) == (
            idle_ball(),
            Paddle { points: (left.points + 1) as u64, ..left },
            right,
            Some(PlayerScored { scorer: Side::Left, current_score: (left.points + 1) as u64 }),
        ),
        b.x <= -half_width ==> score_outcome(b, left, right, half_width) == (
            idle_ball(),
            left,
            Paddle { points: (right.points + 1) as u64, ..right },
            Some(PlayerScored { scorer: Side::Right, current_score: (right.points + 1) as u64 }),
        ),
        -half_width < b.x < half_width ==> score_outcome(b, left, right, half_width) == (
            b,
            left,
            right,
            None::<PlayerScored>,
        ),
{
}

} // verus!
