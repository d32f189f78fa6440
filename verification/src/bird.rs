//! The player: vertical physics, jump input latching, and the crash checks
//! against the active obstacle and the screen bounds.

use vstd::prelude::*;

use crate::game::GameState;
use crate::motion::{in_world, rate_delta, rate_delta_spec, MAX_FRAME_MS};
use crate::pipes::PipePair;

verus! {

/// Downward acceleration, in pixels per second per second.
pub const GRAVITY: i64 = 2000;

/// Upward velocity set by a jump, in pixels per second.
pub const JUMP_STRENGTH: i64 = 700;

/// The bird's fixed horizontal position.
pub const BIRD_X: i64 = 200;

/// The crash check fires only while the active pair's `x` lies in
/// `[CRASH_BAND_MIN, CRASH_BAND_MAX]`: a narrow horizontal band standing in
/// for the bird's footprint, kept exactly as the game plays it rather than
/// generalized to a full box intersection.
pub const CRASH_BAND_MIN: i64 = 100;

/// See `CRASH_BAND_MIN`.
pub const CRASH_BAND_MAX: i64 = 230;

/// The bird clears the top pipe only while `y > top_height - TOP_CRASH_SLACK`.
pub const TOP_CRASH_SLACK: i64 = 5;

/// The bird clears the bottom pipe only while `y < bottom_y - BOTTOM_CRASH_SLACK`.
pub const BOTTOM_CRASH_SLACK: i64 = 15;

/// Leaving `[-OUT_MARGIN, screen_h + OUT_MARGIN]` vertically is a crash.
pub const OUT_MARGIN: i64 = 10;

/// Vertical change of velocity over one frame: `GRAVITY` pixels per second
/// gained per second, rounded down to whole pixels per second.
pub open spec fn gravity_delta_spec(dt_ms: u64) -> int {
    (GRAVITY * dt_ms) / 1000
}

/// Computes the frame's gravity gain in velocity.
pub fn gravity_delta(dt_ms: u64) -> (r: i64)
    requires
        dt_ms <= MAX_FRAME_MS,
    ensures
        r == gravity_delta_spec(dt_ms),
        0 <= r <= 2000000,
{
    ((2000u64 * dt_ms) / 1000) as i64
}

/// The player's state: fixed `x`, vertical position `y` (growing
/// downwards), signed vertical `velocity` in pixels per second, and the
/// jump latch that keeps a held key from re-triggering the jump each frame.
#[derive(Clone, Copy, Debug)]
pub struct Bird {
    pub x: i64,
    pub y: i64,
    pub velocity: i64,
    pub jump_latched: bool,
}

impl Bird {
    /// Whether the bird's position crashes into the pair: it is vertically
    /// inside a pipe (at or above the top pipe's reach less
    /// `TOP_CRASH_SLACK`, or at or below the bottom pipe's reach less
    /// `BOTTOM_CRASH_SLACK`) while the pair is horizontally inside the crash
    /// band.
    pub open spec fn hits_pipe(self, pair: PipePair) -> bool {
        &&& self.y <= pair.top_height - TOP_CRASH_SLACK
            || self.y >= pair.bottom_y - BOTTOM_CRASH_SLACK
        &&& CRASH_BAND_MIN <= pair.x <= CRASH_BAND_MAX
    }

    /// Whether the bird left the screen vertically, with `OUT_MARGIN` slack
    /// on both edges.
    pub open spec fn out_of_bounds(self, screen_h: i64) -> bool {
        self.y >= screen_h + OUT_MARGIN || self.y <= -OUT_MARGIN
    }

    /// The bird one frame of physics later, ignoring crashes' effect on the
    /// game state: the bounds check recenters a bird that left the screen
    /// and zeroes its velocity, a fresh jump press sets the upward jump
    /// velocity and latches, a release unlatches, and then gravity and
    /// position integrate over the frame.
    pub open spec fn updated(
        self,
        jump_down: bool,
        jump_released: bool,
        dt_ms: u64,
        screen_w: i64,
        screen_h: i64,
    ) -> Bird {
        let y1: int = if self.out_of_bounds(screen_h) {
            screen_w as int / 2
        } else {
            self.y as int
        };
        let v1: int = if self.out_of_bounds(screen_h) {
            0int
        } else {
            self.velocity as int
        };
        let jumps = jump_down && !self.jump_latched;
        let v2: int = if jumps {
            -JUMP_STRENGTH as int
        } else {
            v1
        };
        let l1 = jumps || self.jump_latched;
        let l2 = if jump_released && l1 {
            false
        } else {
            l1
        };
        let v3: int = v2 + gravity_delta_spec(dt_ms);
        Bird {
            x: self.x,
            y: (y1 + rate_delta_spec(v3, dt_ms)) as i64,
            velocity: v3 as i64,
            jump_latched: l2,
        }
    }

    /// A bird ready for a new run: at the fixed column, vertically centered,
    /// at rest, with the jump latch released.
    pub fn new(screen_h: i64) -> (b: Bird)
        requires
            screen_h >= 0,
        ensures
            b.x == BIRD_X,
            b.y == screen_h / 2,
            b.velocity == 0,
            !b.jump_latched,
    {
        Bird { x: BIRD_X, y: screen_h / 2, velocity: 0, jump_latched: false }
    }

    /// One frame of the bird, exactly in this order: crash check against the
    /// active pair, bounds check (which recenters the bird and zeroes its
    /// velocity), jump handling on the key's edges, then gravity and
    /// position integration. Either crash sets the game state to `GameOver`;
    /// otherwise the state is left alone. Both crash checks read the
    /// position the frame started with, before physics moves it.
    pub fn update(
        &mut self,
        pair: &PipePair,
        jump_down: bool,
        jump_released: bool,
        dt_ms: u64,
        screen_w: i64,
        screen_h: i64,
        state: &mut GameState,
    )
        requires
            dt_ms <= MAX_FRAME_MS,
            in_world(old(self).y as int),
            in_world(old(self).velocity as int),
            in_world(pair.top_height as int),
            in_world(pair.bottom_y as int),
            in_world(screen_h as int),
            screen_w >= 0,
        ensures
            *final(self) == old(self).updated(jump_down, jump_released, dt_ms, screen_w, screen_h),
            *final(state) == if old(self).hits_pipe(*pair) || old(self).out_of_bounds(screen_h) {
                GameState::GameOver
            } else {
                *old(state)
            },
    {
        if (self.y <= pair.top_height - TOP_CRASH_SLACK
            || self.y >= pair.bottom_y - BOTTOM_CRASH_SLACK)
            && pair.x <= CRASH_BAND_MAX && pair.x >= CRASH_BAND_MIN {
            *state = GameState::GameOver;
        }

        if self.y >= screen_h + OUT_MARGIN || self.y <= -OUT_MARGIN {
            self.velocity = 0;
            self.y = screen_w / 2;
            *state = GameState::GameOver;
        }

        if jump_down && !self.jump_latched {
            self.velocity = -JUMP_STRENGTH;
            self.jump_latched = true;
        }
        if jump_released && self.jump_latched {
            self.jump_latched = false;
        }

        self.velocity = self.velocity + gravity_delta(dt_ms);
        self.y = self.y + rate_delta(self.velocity, dt_ms);
    }
}

} // verus!
