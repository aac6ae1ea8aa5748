use vstd::prelude::*;
use crate::ball::{
    ball_paddle_deflect, ball_wall_deflect, idle_ball, init_move_ball, lemma_sign_change_keeps_heading,
    lemma_travel_bounded, move_ball, moved, paddle_deflected, served, spawn_ball, speed_sq,
    wall_deflected, Ball,
};
use crate::field::{Playfield, DIR_SCALE, HALF_HEIGHT, MAX_TRAVEL};
use crate::paddle::{
    handle_resize_for_paddle, lemma_paddle_step_clamped, paddle_x_for, paddle_y_after,
    player_1_input, spawn_players, Intent, Paddle, Side,
};
use crate::scoring::{check_scored, score_outcome, PlayerScored};
use crate::serve::{Direction, MIN_DIR_LEN_SQ};

verus! {

/// Everything the simulation needs from outside for one step.
#[derive(Clone, Copy, Debug)]
pub struct FrameInput {
    /// Intent for the left paddle.
    pub left: Intent,
    /// Intent for the right paddle.
    pub right: Intent,
    /// The new playfield, when the viewport was resized since the last step.
    pub resize: Option<Playfield>,
    /// A serve direction, when a serve was requested this step.
    pub serve: Option<Direction>,
    /// Whether the viewport is available this step; without it the ball is
    /// left as it is: no serve, travel, collision or scoring.
    pub viewport_available: bool,
    /// Time elapsed since the last step.
    pub dt_micros: u32,
}

impl FrameInput {
    pub open spec fn wf(self) -> bool {
        &&& self.resize matches Some(f) ==> f.wf()
        &&& self.serve matches Some(d) ==> d.wf()
    }
}

/// The whole simulation state: playfield, both paddles and the ball.
#[derive(Clone, Copy, Debug)]
pub struct Game {
    pub field: Playfield,
    pub left: Paddle,
    pub right: Paddle,
    pub ball: Ball,
}

/// A paddle after one step of its intent.
pub open spec fn paddle_stepped(p: Paddle, intent: Intent, dt_micros: int) -> Paddle {
    Paddle { y: paddle_y_after(p.y as int, intent, dt_micros) as i64, ..p }
}

/// A paddle placed for the playfield `f`.
pub open spec fn paddle_resized(p: Paddle, f: Playfield) -> Paddle {
    Paddle { x: paddle_x_for(p.side, f.half_width as int) as i64, ..p }
}

/// The game and the notification, if any, after one step, in the order:
/// paddle intents, resize, serve, ball travel, walls, paddles, scoring. The
/// last five are skipped while the viewport is unavailable.
pub open spec fn stepped(g: Game, i: FrameInput) -> (Game, Option<PlayerScored>) {
    let l1 = paddle_stepped(g.left, i.left, i.dt_micros as int);
    let r1 = paddle_stepped(g.right, i.right, i.dt_micros as int);
    let (field, l2, r2) = match i.resize {
        Some(f) => (f, paddle_resized(l1, f), paddle_resized(r1, f)),
        None => (g.field, l1, r1),
    };
    if !i.viewport_available {
        (Game { field, left: l2, right: r2, ball: g.ball }, None)
    } else {
        let b1 = match i.serve {
            Some(d) => served(g.ball, d),
            None => g.ball,
        };
        let b4 = paddle_deflected(wall_deflected(moved(b1, i.dt_micros as int)), l2, r2);
        let (b5, l3, r3, ev) = score_outcome(b4, l2, r2, field.half_width as int);
        (Game { field, left: l3, right: r3, ball: b5 }, ev)
    }
}

impl Game {
    pub open spec fn wf(self) -> bool {
        &&& self.field.wf()
        &&& self.left.wf()
        &&& self.right.wf()
        &&& self.left.side == Side::Left
        &&& self.right.side == Side::Right
        &&& self.ball.wf()
    }

    /// Scores can still be counted: neither is at the largest `u64`.
    pub open spec fn can_score(self) -> bool {
        self.left.points < u64::MAX && self.right.points < u64::MAX
    }

    /// A new session on `field`: paddles on their sides, centred, with no
    /// points, and the ball idle at the centre.
    pub fn new(field: Playfield) -> (r: Game)
        requires
            field.wf(),
        ensures
            r.wf(),
            r.field == field,
            r.ball == idle_ball(),
            r.left == (Paddle {
                side: Side::Left,
                x: paddle_x_for(Side::Left, field.half_width as int) as i64,
                y: 0,
                points: 0,
            }),
            r.right == (Paddle {
                side: Side::Right,
                x: paddle_x_for(Side::Right, field.half_width as int) as i64,
                y: 0,
                points: 0,
            }),
    {
        let (left, right) = spawn_players(field);
        Game { field, left, right, ball: spawn_ball() }
    }

    /// Advances the simulation by one step and returns the point scored in
    /// it, if any.
    pub fn step(&mut self, input: FrameInput) -> (r: Option<PlayerScored>)
        requires
            old(self).wf(),
            old(self).can_score(),
            input.wf(),
        ensures
            final(self).wf(),
            (*final(self), r) == stepped(*old(self), input),
    {
        proof {
            lemma_step_keeps_wf(*self, input);
        }
        player_1_input(&mut self.left, input.left, input.dt_micros);
        player_1_input(&mut self.right, input.right, input.dt_micros);
        if let Some(f) = input.resize {
            self.field = f;
            handle_resize_for_paddle(&mut self.left, f);
            handle_resize_for_paddle(&mut self.right, f);
        }
        if !input.viewport_available {
            return None;
        }
        if let Some(d) = input.serve {
            init_move_ball(&mut self.ball, d);
        }
        move_ball(&mut self.ball, input.dt_micros);
        ball_wall_deflect(&mut self.ball);
        ball_paddle_deflect(&mut self.ball, &self.left, &self.right);
        check_scored(&mut self.ball, &mut self.left, &mut self.right, self.field)
    }
}

/// One step keeps the game well formed.
pub proof fn lemma_step_keeps_wf(g: Game, i: FrameInput)
    requires
        g.wf(),
        g.can_score(),
        i.wf(),
    ensures
        stepped(g, i).0.wf(),
{
    lemma_paddle_step_clamped(g.left.y as int, i.left, i.dt_micros as int);
    lemma_paddle_step_clamped(g.right.y as int, i.right, i.dt_micros as int);
    let b1 = match i.serve {
        Some(d) => served(g.ball, d),
        None => g.ball,
    };
    assert(b1.wf());
    lemma_travel_bounded(b1.vx as int, i.dt_micros as int);
    lemma_travel_bounded(b1.vy as int, i.dt_micros as int);
    let b2 = moved(b1, i.dt_micros as int);
    assert(-(HALF_HEIGHT + MAX_TRAVEL) <= b2.y <= HALF_HEIGHT + MAX_TRAVEL);
    let l1 = paddle_stepped(g.left, i.left, i.dt_micros as int);
    let r1 = paddle_stepped(g.right, i.right, i.dt_micros as int);
    let (field, l2, r2) = match i.resize {
        Some(f) => (f, paddle_resized(l1, f), paddle_resized(r1, f)),
        None => (g.field, l1, r1),
    };
    let b4 = paddle_deflected(wall_deflected(b2), l2, r2);
    lemma_sign_change_keeps_heading(b1, b4);
}

/// While the ball is in play and no point is scored, a step changes the
/// ball's direction but never the length of its velocity, which stays unit
/// length up to rounding, so the ball travels at `BALL_SPEED`.
pub proof fn lemma_speed_invariant(g: Game, i: FrameInput)
    requires
        g.wf(),
        g.can_score(),
        i.wf(),
        g.ball != idle_ball(),
        stepped(g, i).1 is None,
    ensures
        speed_sq(stepped(g, i).0.ball) == speed_sq(g.ball),
        MIN_DIR_LEN_SQ <= speed_sq(g.ball) <= DIR_SCALE * DIR_SCALE,
{
    let l1 = paddle_stepped(g.left, i.left, i.dt_micros as int);
    let r1 = paddle_stepped(g.right, i.right, i.dt_micros as int);
    let (field, l2, r2) = match i.resize {
        Some(f) => (f, paddle_resized(l1, f), paddle_resized(r1, f)),
        None => (g.field, l1, r1),
    };
    let b4 = paddle_deflected(wall_deflected(moved(g.ball, i.dt_micros as int)), l2, r2);
    lemma_sign_change_keeps_heading(g.ball, b4);
    crate::serve::lemma_direction_nonzero(Direction { x: g.ball.vx, y: g.ball.vy });
}

/// A serve request while the ball is moving changes nothing: the step goes
/// exactly as it would without the request.
pub proof fn lemma_serve_gated(g: Game, i: FrameInput, d: Direction)
    requires
        g.ball.vx != 0 || g.ball.vy != 0,
    ensures
        stepped(g, FrameInput { serve: Some(d), ..i }) == stepped(g, FrameInput { serve: None, ..i }),
        served(g.ball, d) == g.ball,
{
}

} // verus!
