use vstd::prelude::*;
use crate::field::{ceil_root, ceil_sqrt, DIR_SCALE};

verus! {

/// Bound on the magnitude of each sampled component; a sample stands for a
/// value in `[-1, 1)` scaled by this bound.
pub const SAMPLE_MAX: i64 = 1_000_000;

/// How many samples a random serve draws; the first accepted one is served.
pub const SERVE_ATTEMPTS: u32 = 64;

pub open spec fn abs(v: int) -> int {
    if v < 0 {
        -v
    } else {
        v
    }
}

/// The direction `(x, y)` makes an angle of more than π/8 with both
/// `(0, 1)` and `(0, -1)`. Since tan(π/8) = √2 − 1, that is
/// `|x| > (√2 − 1)·|y|`, which squares to the integer test below.
pub open spec fn clear_of_vertical(x: int, y: int) -> bool {
    (abs(x) + abs(y)) * (abs(x) + abs(y)) > 2 * (y * y)
}

/// Rounded-up length of the sample `(x, y)`, in units of `1 / DIR_SCALE`.
pub open spec fn sample_root(x: int, y: int) -> int {
    ceil_root((x * x + y * y) * (DIR_SCALE * DIR_SCALE))
}

/// Component `c` of a sample whose length is `m / DIR_SCALE`, rescaled to
/// length `DIR_SCALE` and rounded toward zero.
pub open spec fn scaled(c: int, m: int) -> int {
    if c < 0 {
        -((-c) * (DIR_SCALE * DIR_SCALE) / m)
    } else {
        c * (DIR_SCALE * DIR_SCALE) / m
    }
}

/// The direction made from the sample `(x, y)`.
pub open spec fn direction_of_sample(x: int, y: int) -> Direction {
    let m = sample_root(x, y);
    Direction { x: scaled(x, m) as i64, y: scaled(y, m) as i64 }
}

/// Every sample lies where `Direction::from_sample` accepts it.
pub open spec fn all_in_sample_range(s: Seq<(i64, i64)>) -> bool {
    forall|i: int|
        0 <= i < s.len() ==> -SAMPLE_MAX <= #[trigger] s[i].0 <= SAMPLE_MAX && -SAMPLE_MAX <= s[i].1
            <= SAMPLE_MAX
}

/// Every sample lies in the half-open range that random draws come from.
pub open spec fn drawn_in_range(s: Seq<(i64, i64)>) -> bool {
    forall|i: int|
        0 <= i < s.len() ==> -SAMPLE_MAX <= #[trigger] s[i].0 < SAMPLE_MAX && -SAMPLE_MAX <= s[i].1
            < SAMPLE_MAX
}

/// The serve direction of the first accepted sample of `s`.
pub open spec fn first_accepted_of(s: Seq<(i64, i64)>) -> Option<Direction>
    decreases s.len(),
{
    if s.len() == 0 {
        None
    } else if sample_accepted(s[0].0 as int, s[0].1 as int) {
        Some(direction_of_sample(s[0].0 as int, s[0].1 as int))
    } else {
        first_accepted_of(s.drop_first())
    }
}

/// The sample `(x, y)` yields a serve direction.
pub open spec fn sample_accepted(x: int, y: int) -> bool {
    let m = sample_root(x, y);
    m > 0 && clear_of_vertical(scaled(x, m), scaled(y, m))
}

/// Least squared length of a serve direction: rounding a sample down to
/// integer components loses less than half a percent of its length.
pub const MIN_DIR_LEN_SQ: i64 = 995_000;

/// A serve direction: of unit length up to rounding, and clear of the
/// vertical.
#[derive(Clone, Copy, Debug, PartialEq, Eq, Structural)]
pub struct Direction {
    pub x: i64,
    pub y: i64,
}

impl Direction {
    pub open spec fn wf(self) -> bool {
        &&& -DIR_SCALE <= self.x <= DIR_SCALE
        &&& -DIR_SCALE <= self.y <= DIR_SCALE
        &&& MIN_DIR_LEN_SQ <= self.x * self.x + self.y * self.y <= DIR_SCALE * DIR_SCALE
        &&& clear_of_vertical(self.x as int, self.y as int)
    }

    /// Whether this value is a valid serve direction.
    pub fn is_valid(&self) -> (r: bool)
        ensures
            r == self.wf(),
    {
        if self.x < -DIR_SCALE || self.x > DIR_SCALE || self.y < -DIR_SCALE || self.y > DIR_SCALE {
            return false;
        }
        let ax: i64 = if self.x < 0 { -self.x } else { self.x };
        let ay: i64 = if self.y < 0 { -self.y } else { self.y };
        proof {
            lemma_square_abs(self.x as int);
            lemma_square_abs(self.y as int);
        }
        assert(ax * ax <= 1_000_000 && ay * ay <= 1_000_000) by (nonlinear_arith)
            requires
                0 <= ax <= 1000,
                0 <= ay <= 1000,
        ;
        assert((ax + ay) * (ax + ay) <= 4_000_000) by (nonlinear_arith)
            requires
                0 <= ax <= 1000,
                0 <= ay <= 1000,
        ;
        let sx: i64 = ax * ax;
        let sy: i64 = ay * ay;
        let t: i64 = (ax + ay) * (ax + ay);
        MIN_DIR_LEN_SQ <= sx + sy && sx + sy <= DIR_SCALE * DIR_SCALE && t > 2 * sy
    }

    /// The serve direction for the sample `(x, y)`: the sample scaled to
    /// length `DIR_SCALE`, or `None` for the zero sample and for a direction
    /// within π/8 of the vertical.
    pub fn from_sample(x: i64, y: i64) -> (r: Option<Direction>)
        requires
            -SAMPLE_MAX <= x <= SAMPLE_MAX,
            -SAMPLE_MAX <= y <= SAMPLE_MAX,
        ensures
            r is Some <==> sample_accepted(x as int, y as int),
            r matches Some(d) ==> d.wf() && d == direction_of_sample(x as int, y as int),
    {
        let ax: u64 = if x < 0 { (-x) as u64 } else { x as u64 };
        let ay: u64 = if y < 0 { (-y) as u64 } else { y as u64 };
        proof {
            lemma_square_abs(x as int);
            lemma_square_abs(y as int);
            assert(ax * ax <= 1_000_000_000_000 && ay * ay <= 1_000_000_000_000)
                by (nonlinear_arith)
                requires
                    ax <= 1_000_000,
                    ay <= 1_000_000,
            ;
        }
        let s: u64 = ax * ax + ay * ay;
        let n: u64 = s * 1_000_000;
        assert(n as int == (x * x + y * y) * (DIR_SCALE * DIR_SCALE));
        let m: u64 = ceil_sqrt(n);
        if m == 0 {
            return None;
        }
        proof {
            assert(ax * 1_000_000 <= 1_000_000_000_000) by (nonlinear_arith)
                requires
                    ax <= 1_000_000,
            ;
            assert(ay * 1_000_000 <= 1_000_000_000_000) by (nonlinear_arith)
                requires
                    ay <= 1_000_000,
            ;
        }
        let qx: u64 = ax * 1_000_000 / m;
        let qy: u64 = ay * 1_000_000 / m;
        proof {
            lemma_scaled_within_unit(ax as int, ay as int, m as int, qx as int, qy as int);
            lemma_scaled_near_unit(ax as int, ay as int, m as int, qx as int, qy as int);
        }
        let dx: i64 = if x < 0 { -(qx as i64) } else { qx as i64 };
        let dy: i64 = if y < 0 { -(qy as i64) } else { qy as i64 };
        let d = Direction { x: dx, y: dy };
        proof {
            lemma_square_abs(dx as int);
            lemma_square_abs(dy as int);
        }
        if d.is_valid() {
            Some(d)
        } else {
            None
        }
    }

    /// The serve direction of the first accepted sample in `samples`, or
    /// `None` when every sample is rejected.
    pub fn first_accepted(samples: &Vec<(i64, i64)>) -> (r: Option<Direction>)
        requires
            all_in_sample_range(samples@),
        ensures
            r == first_accepted_of(samples@),
            r matches Some(d) ==> d.wf(),
    {
        let mut i: usize = 0;
        assert(samples@.subrange(0, samples@.len() as int) =~= samples@);
        while i < samples.len()
            invariant
                i <= samples@.len(),
                all_in_sample_range(samples@),
                first_accepted_of(samples@) == first_accepted_of(samples@.subrange(i as int, samples@.len() as int)),
            decreases samples.len() - i,
        {
            let (x, y) = samples[i];
            let ghost rest = samples@.subrange(i as int, samples@.len() as int);
            assert(rest.drop_first() =~= samples@.subrange(i + 1, samples@.len() as int));
            assert(rest[0] == samples@[i as int]);
            let r = Direction::from_sample(x, y);
            if r.is_some() {
                return r;
            }
            i = i + 1;
        }
        assert(samples@.subrange(i as int, samples@.len() as int).len() == 0);
        None
    }

    /// A random serve direction: `SERVE_ATTEMPTS` samples whose components
    /// are drawn independently and uniformly from `[-SAMPLE_MAX, SAMPLE_MAX)`,
    /// of which the first accepted one is served. `None` when every sample
    /// was rejected.
    pub fn random() -> (r: Option<Direction>)
        ensures
            exists|s: Seq<(i64, i64)>|
                s.len() == SERVE_ATTEMPTS && drawn_in_range(s) && r == first_accepted_of(s),
            r matches Some(d) ==> d.wf(),
    {
        let mut samples: Vec<(i64, i64)> = Vec::new();
        let mut attempt: u32 = 0;
        while attempt < SERVE_ATTEMPTS
            invariant
                attempt <= SERVE_ATTEMPTS,
                samples@.len() == attempt,
                drawn_in_range(samples@),
            decreases SERVE_ATTEMPTS - attempt,
        {
            let x = random_in(-SAMPLE_MAX, SAMPLE_MAX);
            let y = random_in(-SAMPLE_MAX, SAMPLE_MAX);
            samples.push((x, y));
            attempt = attempt + 1;
        }
        let r = Direction::first_accepted(&samples);
        assert(samples@.len() == SERVE_ATTEMPTS && drawn_in_range(samples@) && r == first_accepted_of(samples@));
        r
    }
}

/// A non-zero sample rescaled by its rounded-up length loses less than half
/// a percent of unit length.
proof fn lemma_scaled_near_unit(ax: int, ay: int, m: int, qx: int, qy: int)
    requires
        ax >= 0,
        ay >= 0,
        m > 0,
        m * m >= (ax * ax + ay * ay) * 1_000_000,
        (m - 1) * (m - 1) < (ax * ax + ay * ay) * 1_000_000,
        qx == ax * 1_000_000 / m,
        qy == ay * 1_000_000 / m,
    ensures
        qx * qx + qy * qy >= 995_000,
{
    let a = ax * 1_000_000;
    let b = ay * 1_000_000;
    let t = (ax * ax + ay * ay) * 1_000_000;
    assert(a * a + b * b == t * 1_000_000) by (nonlinear_arith)
        requires
            a == ax * 1_000_000,
            b == ay * 1_000_000,
            t == (ax * ax + ay * ay) * 1_000_000,
    ;
    assert(t >= 1_000_000) by (nonlinear_arith)
        requires
            t == (ax * ax + ay * ay) * 1_000_000,
            m > 0,
            (m - 1) * (m - 1) < t,
            ax >= 0,
            ay >= 0,
    ;
    assert(m >= 1000) by (nonlinear_arith)
        requires
            m * m >= t,
            t >= 1_000_000,
            m > 0,
    ;
    assert(qx * m > a - m && qx >= 0) by (nonlinear_arith)
        requires
            a >= 0,
            m > 0,
            qx == a / m,
    ;
    assert(qy * m > b - m && qy >= 0) by (nonlinear_arith)
        requires
            b >= 0,
            m > 0,
            qy == b / m,
    ;
    assert((qx * m) * (qx * m) >= a * a - 2 * a * m) by (nonlinear_arith)
        requires
            qx * m > a - m,
            qx >= 0,
            m > 0,
            a >= 0,
    ;
    assert((qy * m) * (qy * m) >= b * b - 2 * b * m) by (nonlinear_arith)
        requires
            qy * m > b - m,
            qy >= 0,
            m > 0,
            b >= 0,
    ;
    assert((a + b) * (a + b) <= 2 * (a * a + b * b)) by (nonlinear_arith);
    assert(a + b < 1500 * m) by (nonlinear_arith)
        requires
            (a + b) * (a + b) <= 2 * (a * a + b * b),
            a * a + b * b == t * 1_000_000,
            m * m >= t,
            m > 0,
            a >= 0,
            b >= 0,
    ;
    assert((qx * qx + qy * qy) * (m * m) == (qx * m) * (qx * m) + (qy * m) * (qy * m))
        by (nonlinear_arith);
    assert(2 * a * m + 2 * b * m < 3000 * (m * m)) by (nonlinear_arith)
        requires
            a + b < 1500 * m,
            m > 0,
    ;
    assert((qx * qx + qy * qy) * (m * m) > t * 1_000_000 - 3000 * (m * m));
    assert(t * 1_000_000 >= (m * m - 2 * m) * 1_000_000) by (nonlinear_arith)
        requires
            (m - 1) * (m - 1) < t,
    ;
    assert(2 * m * 1_000_000 <= 2000 * (m * m)) by (nonlinear_arith)
        requires
            m >= 1000,
    ;
    assert((qx * qx + qy * qy) * (m * m) > 995_000 * (m * m)) by (nonlinear_arith)
        requires
            (qx * qx + qy * qy) * (m * m) > t * 1_000_000 - 3000 * (m * m),
            t * 1_000_000 >= (m * m - 2 * m) * 1_000_000,
            2 * m * 1_000_000 <= 2000 * (m * m),
    ;
    assert(qx * qx + qy * qy > 995_000) by (nonlinear_arith)
        requires
            (qx * qx + qy * qy) * (m * m) > 995_000 * (m * m),
            m > 0,
    ;
}

/// A valid direction has a non-zero horizontal component and a positive
/// length, and it makes an angle of more than π/8 with straight up and
/// straight down.
pub proof fn lemma_direction_nonzero(d: Direction)
    requires
        d.wf(),
    ensures
        d.x != 0,
        d.x * d.x + d.y * d.y > 0,
        clear_of_vertical(d.x as int, d.y as int),
{
    if d.x == 0 {
        assert(abs(d.y as int) * abs(d.y as int) == d.y * d.y) by (nonlinear_arith);
    }
    assert(d.x * d.x > 0) by (nonlinear_arith)
        requires
            d.x != 0,
    ;
    assert(d.y * d.y >= 0) by (nonlinear_arith);
}

/// Relies on rand::random_range: a value drawn from the half-open range
/// `lo..hi`, which must not be empty.
#[verifier::external_body]
fn random_in(lo: i64, hi: i64) -> (r: i64)
    requires
        lo < hi,
    ensures
        lo <= r < hi,
{
    rand::random_range(lo..hi)
}

pub proof fn lemma_square_abs(v: int)
    ensures
        v * v == abs(v) * abs(v),
        abs(v) >= 0,
{
    if v < 0 {
        assert(v * v == (-v) * (-v)) by (nonlinear_arith);
    }
}

/// A sample rescaled by its rounded-up length stays within unit length.
proof fn lemma_scaled_within_unit(ax: int, ay: int, m: int, qx: int, qy: int)
    requires
        ax >= 0,
        ay >= 0,
        m > 0,
        m * m >= (ax * ax + ay * ay) * 1_000_000,
        qx == ax * 1_000_000 / m,
        qy == ay * 1_000_000 / m,
    ensures
        qx * qx + qy * qy <= 1_000_000,
        0 <= qx <= 1000,
        0 <= qy <= 1000,
{
    assert(0 <= qx && qx * m <= ax * 1_000_000) by (nonlinear_arith)
        requires
            ax >= 0,
            m > 0,
            qx == ax * 1_000_000 / m,
    ;
    assert(0 <= qy && qy * m <= ay * 1_000_000) by (nonlinear_arith)
        requires
            ay >= 0,
            m > 0,
            qy == ay * 1_000_000 / m,
    ;
    assert((qx * m) * (qx * m) <= (ax * 1_000_000) * (ax * 1_000_000)) by (nonlinear_arith)
        requires
            0 <= qx * m <= ax * 1_000_000,
    ;
    assert((qy * m) * (qy * m) <= (ay * 1_000_000) * (ay * 1_000_000)) by (nonlinear_arith)
        requires
            0 <= qy * m <= ay * 1_000_000,
    ;
    assert((qx * qx + qy * qy) * (m * m) <= (ax * ax + ay * ay) * 1_000_000 * 1_000_000)
        by (nonlinear_arith)
        requires
            (qx * m) * (qx * m) <= (ax * 1_000_000) * (ax * 1_000_000),
            (qy * m) * (qy * m) <= (ay * 1_000_000) * (ay * 1_000_000),
    ;
    assert((qx * qx + qy * qy) * (m * m) <= 1_000_000 * (m * m)) by (nonlinear_arith)
        requires
            (qx * qx + qy * qy) * (m * m) <= (ax * ax + ay * ay) * 1_000_000 * 1_000_000,
            m * m >= (ax * ax + ay * ay) * 1_000_000,
    ;
    assert(qx * qx + qy * qy <= 1_000_000) by (nonlinear_arith)
        requires
            (qx * qx + qy * qy) * (m * m) <= 1_000_000 * (m * m),
            m > 0,
    ;
    assert(qx <= 1000 && qy <= 1000) by (nonlinear_arith)
        requires
            qx * qx + qy * qy <= 1_000_000,
            qx >= 0,
            qy >= 0,
    ;
}

} // verus!
