//! Shared units of the integer world: coordinates are whole pixels, frame
//! times are whole milliseconds, and rates are pixels per second.

use vstd::prelude::*;

verus! {

/// Horizontal scroll speed of pipes and coins, in pixels per second.
pub const SCROLL_SPEED: i64 = 300;

/// Largest frame time one update accepts, in milliseconds. A machine limit:
/// it keeps every rate-times-time product far from overflow.
pub const MAX_FRAME_MS: u64 = 1000000;

/// Largest magnitude a world coordinate or a velocity may have. A machine
/// limit: one update step then stays far from overflow.
pub const WORLD_LIMIT: i64 = 1000000000;

/// Whether a coordinate or velocity is within the machine limit.
pub open spec fn in_world(v: int) -> bool {
    -WORLD_LIMIT <= v <= WORLD_LIMIT
}

/// Distance scrolled in `dt_ms` milliseconds at `SCROLL_SPEED`, rounded
/// down to whole pixels.
pub open spec fn scroll_delta_spec(dt_ms: u64) -> int {
    (SCROLL_SPEED * dt_ms) / 1000
}

/// Computes the scroll distance for one frame.
pub fn scroll_delta(dt_ms: u64) -> (r: i64)
    requires
        dt_ms <= MAX_FRAME_MS,
    ensures
        r == scroll_delta_spec(dt_ms),
        0 <= r <= 300000,
{
    ((300u64 * dt_ms) / 1000) as i64
}

/// Distance a rate of `rate` pixels per second covers in `dt_ms`
/// milliseconds, rounded toward zero (as the sign-magnitude computation in
/// `rate_delta` does).
pub open spec fn rate_delta_spec(rate: int, dt_ms: u64) -> int {
    if rate >= 0 {
        (rate * dt_ms) / 1000
    } else {
        0 - (((0 - rate) * dt_ms) / 1000)
    }
}

/// Computes the signed distance covered in one frame at a signed rate. The
/// rate bound is a machine limit with headroom beyond `WORLD_LIMIT`, so one
/// frame's gravity gain on a velocity at the world limit still fits.
pub fn rate_delta(rate: i64, dt_ms: u64) -> (r: i64)
    requires
        dt_ms <= MAX_FRAME_MS,
        -2000000000 <= rate <= 2000000000,
    ensures
        r == rate_delta_spec(rate as int, dt_ms),
        -2000000000000000 <= r <= 2000000000000000,
{
    if rate >= 0 {
        let m: u64 = rate as u64;
        assert(m * dt_ms <= 2000000000000000) by (nonlinear_arith)
            requires
                m <= 2000000000,
                dt_ms <= 1000000,
        ;
        let mag: u64 = (m * dt_ms) / 1000;
        mag as i64
    } else {
        let m: u64 = (-rate) as u64;
        assert(m * dt_ms <= 2000000000000000) by (nonlinear_arith)
            requires
                m <= 2000000000,
                dt_ms <= 1000000,
        ;
        let mag: u64 = (m * dt_ms) / 1000;
        -(mag as i64)
    }
}

} // verus!
