use vstd::prelude::*;

verus! {

/// Number of length units in one world unit.
pub const UNIT: i64 = 1000;

/// Half of the fixed playfield height.
pub const HALF_HEIGHT: i64 = 50_000;

/// Half of the paddle height.
pub const PADDLE_HALF_HEIGHT: i64 = 10_000;

/// Half of the paddle width.
pub const PADDLE_HALF_WIDTH: i64 = 1_750;

/// Gap between a paddle and the side edge of the playfield.
pub const PADDLE_X_PADDING: i64 = 1_750;

/// Distance from the side edge of the playfield to a paddle's centre.
pub const PADDLE_INSET: i64 = 3_500;

/// Largest distance of a paddle's centre from the horizontal mid-line.
pub const PADDLE_Y_LIMIT: i64 = 40_000;

/// Paddle speed, in length units per second.
pub const PADDLE_SPEED: i64 = 180_000;

/// Ball speed, in length units per second.
pub const BALL_SPEED: i64 = 250_000;

/// Ball radius.
pub const BALL_RADIUS: i64 = 2_500;

/// Length of a unit direction vector.
pub const DIR_SCALE: i64 = 1000;

/// Microseconds per second.
pub const MICROS_PER_SEC: i64 = 1_000_000;

/// Largest half-width a viewport of `u32` dimensions can produce.
pub const MAX_HALF_WIDTH: i64 = 214_748_364_750_000;

/// Largest distance the ball can travel along one axis in one step.
pub const MAX_TRAVEL: i64 = 1_073_741_823;

/// The playfield: its half-height is `HALF_HEIGHT`, its half-width follows
/// the viewport's aspect ratio.
#[derive(Clone, Copy, Debug, PartialEq, Eq, Structural)]
pub struct Playfield {
    pub half_width: i64,
}

/// Half-width of the playfield for a viewport of the given size.
pub open spec fn half_width_of(width: int, height: int) -> int {
    HALF_HEIGHT * width / height
}

impl Playfield {
    pub open spec fn wf(self) -> bool {
        0 < self.half_width <= MAX_HALF_WIDTH
    }

    /// The playfield for a viewport of `width` by `height`; `None` when the
    /// viewport has no area or is so narrow that the half-width rounds to
    /// zero, so that the caller treats the viewport as unavailable.
    pub fn from_viewport(width: u32, height: u32) -> (r: Option<Playfield>)
        ensures
            r is None <==> (width == 0 || height == 0 || half_width_of(width as int, height as int)
                == 0),
            r matches Some(f) ==> f.wf() && f.half_width == half_width_of(
                width as int,
                height as int,
            ),
    {
        if width == 0 || height == 0 {
            return None;
        }
        let w: u64 = width as u64;
        let h: u64 = height as u64;
        proof {
            assert(50_000 * w <= 214_748_364_750_000) by (nonlinear_arith)
                requires
                    w <= 4_294_967_295,
            ;
            assert((50_000 * w) as int / (h as int) <= 50_000 * w) by (nonlinear_arith)
                requires
                    h >= 1,
                    50_000 * w >= 0,
            ;
        }
        let hw: u64 = (HALF_HEIGHT as u64) * w / h;
        if hw == 0 {
            return None;
        }
        Some(Playfield { half_width: hw as i64 })
    }
}

/// `r` is the least natural number whose square reaches `n`.
pub open spec fn is_ceil_root(r: int, n: int) -> bool {
    &&& 0 <= r
    &&& r * r >= n
    &&& (r == 0 || (r - 1) * (r - 1) < n)
}

/// The least natural number whose square reaches `n`.
pub open spec fn ceil_root(n: int) -> int {
    choose|r: int| is_ceil_root(r, n)
}

proof fn lemma_ceil_root_unique(a: int, b: int, n: int)
    requires
        is_ceil_root(a, n),
        is_ceil_root(b, n),
    ensures
        a == b,
{
    if a < b {
        assert((b - 1) * (b - 1) >= a * a) by (nonlinear_arith)
            requires
                0 <= a <= b - 1,
        ;
    } else if b < a {
        assert((a - 1) * (a - 1) >= b * b) by (nonlinear_arith)
            requires
                0 <= b <= a - 1,
        ;
    }
}

/// Rounded-up integer square root, by bisection.
pub fn ceil_sqrt(n: u64) -> (r: u64)
    requires
        n <= 0x4000_0000_0000_0000,
    ensures
        r as int == ceil_root(n as int),
        is_ceil_root(r as int, n as int),
        r <= 0x8000_0000,
{
    if n == 0 {
        assert(is_ceil_root(0, 0));
        proof {
            lemma_ceil_root_unique(0, ceil_root(0), 0);
        }
        return 0;
    }
    let mut lo: u64 = 0;
    let mut hi: u64 = 0x8000_0000;
    assert(hi * hi == 0x4000_0000_0000_0000);
    while hi - lo > 1
        invariant
            lo < hi <= 0x8000_0000,
            lo * lo < n,
            hi * hi >= n,
        decreases hi - lo,
    {
        let mid: u64 = lo + (hi - lo) / 2;
        assert(mid * mid <= 0x4000_0000_0000_0000) by (nonlinear_arith)
            requires
                mid <= 0x8000_0000,
        ;
        if mid * mid < n {
            lo = mid;
        } else {
            hi = mid;
        }
    }
    assert(is_ceil_root(hi as int, n as int));
    proof {
        lemma_ceil_root_unique(hi as int, ceil_root(n as int), n as int);
    }
    hi
}

} // verus!
