//! Pipe obstacles: pairs of top and bottom pipes sharing a fixed vertical
//! gap, scrolled leftwards, spawned off-screen right and despawned once the
//! oldest pair leaves the screen.

use vstd::prelude::*;

use crate::events::{Event, EventQueue};
use crate::motion::{in_world, scroll_delta, scroll_delta_spec, MAX_FRAME_MS};
use crate::rng::random_in;

verus! {

/// Fixed vertical gap, in pixels, between a pair's top and bottom pipes:
/// the opening the bird must fit through.
pub const FREE_SPACE: i64 = 150;

/// Bounds of the uniform draw for a spawned pair's top pipe height: the
/// height lies in `[PIPE_MIN_TOP, PIPE_MAX_TOP)`.
pub const PIPE_MIN_TOP: i64 = 100;

/// See `PIPE_MIN_TOP`.
pub const PIPE_MAX_TOP: i64 = 300;

/// Once the oldest pair's `x` is at or below this, it is due for despawn.
pub const PIPE_DESPAWN_X: i64 = -150;

/// Once the oldest pair's `x` is at or below this and it is the only pair,
/// the next pair (and its coin, and a score update) is due.
pub const PIPE_SPAWN_X: i64 = 100;

/// One obstacle: a top pipe hanging from the screen top and a bottom pipe
/// rising from below, sharing the horizontal position `x`. `top_height` is
/// the top pipe's length, `bottom_y` the bottom pipe's upper edge, and
/// `bottom_height` its drawn length (the screen height at spawn time).
#[derive(Clone, Copy, Debug)]
pub struct PipePair {
    pub x: i64,
    pub top_height: i64,
    pub bottom_y: i64,
    pub bottom_height: i64,
}

impl PipePair {
    /// The pair's structural invariant: the bottom pipe starts exactly
    /// `FREE_SPACE` pixels below the top pipe's end.
    pub open spec fn wf(self) -> bool {
        self.bottom_y == self.top_height + FREE_SPACE
    }

    /// Builds a pair at `x` with the given top height; the bottom pipe's
    /// upper edge is placed exactly `FREE_SPACE` below it, so the gap
    /// invariant holds by construction.
    pub fn new(x: i64, top_height: i64, bottom_height: i64) -> (p: PipePair)
        requires
            top_height <= i64::MAX - FREE_SPACE,
        ensures
            p.x == x,
            p.top_height == top_height,
            p.bottom_y == top_height + FREE_SPACE,
            p.bottom_height == bottom_height,
            p.wf(),
    {
        PipePair { x, top_height, bottom_y: top_height + FREE_SPACE, bottom_height }
    }
}

/// What holds of every pair the track itself spawns: it starts at the
/// world-right edge, its top height is a uniform draw from
/// `[PIPE_MIN_TOP, PIPE_MAX_TOP)`, and the gap invariant holds.
pub open spec fn spawned(p: PipePair, screen_w: i64, screen_h: i64) -> bool {
    &&& p.x == screen_w
    &&& PIPE_MIN_TOP <= p.top_height < PIPE_MAX_TOP
    &&& p.bottom_y == p.top_height + FREE_SPACE
    &&& p.bottom_height == screen_h
}

/// The vertical gap of a spawned pair is exactly `FREE_SPACE`, and its top
/// height lies in `[PIPE_MIN_TOP, PIPE_MAX_TOP)`.
pub proof fn lemma_spawned_pair_shape(p: PipePair, screen_w: i64, screen_h: i64)
    requires
        spawned(p, screen_w, screen_h),
    ensures
        p.bottom_y - p.top_height == FREE_SPACE,
        PIPE_MIN_TOP <= p.top_height < PIPE_MAX_TOP,
{
}

/// The ordered sequence of live pipe pairs: index 0 is the oldest pair, the
/// one examined for collision, spawn and despawn decisions.
pub struct PipeTrack {
    pub pairs: Vec<PipePair>,
}

impl PipeTrack {
    /// Every pair in the track satisfies the gap invariant.
    pub open spec fn all_wf(self) -> bool {
        forall|i: int| 0 <= i < self.pairs@.len() ==> (#[trigger] self.pairs@[i]).wf()
    }

    /// Every pair's coordinate is within the machine limit.
    pub open spec fn coords_in_world(self) -> bool {
        forall|i: int| 0 <= i < self.pairs@.len()
            ==> in_world((#[trigger] self.pairs@[i]).x as int)
    }

    /// The events one lifecycle check of this track emits, in dispatch
    /// order: a despawn if the oldest pair has left the screen, then the
    /// spawn group (new pipe, new coin, score update) if the oldest pair has
    /// passed the spawn trigger and it is the only pair in flight.
    pub open spec fn lifecycle_events(self) -> Seq<Event> {
        let despawn = if self.pairs@[0].x <= PIPE_DESPAWN_X {
            seq![Event::DespawnPipe]
        } else {
            Seq::<Event>::empty()
        };
        let spawn = if self.pairs@[0].x <= PIPE_SPAWN_X && self.pairs@.len() == 1 {
            seq![Event::SpawnPipe, Event::SpawnCoin, Event::UpdateScore]
        } else {
            Seq::<Event>::empty()
        };
        despawn + spawn
    }

    /// A track holding one freshly spawned pair: the state at game start and
    /// after each run reset.
    pub fn new_single(screen_w: i64, screen_h: i64) -> (t: PipeTrack)
        ensures
            t.pairs@.len() == 1,
            spawned(t.pairs@[0], screen_w, screen_h),
            t.all_wf(),
    {
        let mut pairs: Vec<PipePair> = Vec::new();
        let top_height = random_in(PIPE_MIN_TOP, PIPE_MAX_TOP);
        pairs.push(PipePair::new(screen_w, top_height, screen_h));
        PipeTrack { pairs }
    }

    /// Scrolls every pair left by the frame's scroll distance; nothing else
    /// about any pair changes and no pair is added or removed.
    pub fn advance(&mut self, dt_ms: u64)
        requires
            dt_ms <= MAX_FRAME_MS,
            old(self).coords_in_world(),
        ensures
            final(self).pairs@.len() == old(self).pairs@.len(),
            forall|i: int| 0 <= i < old(self).pairs@.len() ==> {
                let p0 = old(self).pairs@[i];
                let p1 = #[trigger] final(self).pairs@[i];
                p1.x == p0.x - scroll_delta_spec(dt_ms)
                    && p1.top_height == p0.top_height
                    && p1.bottom_y == p0.bottom_y
                    && p1.bottom_height == p0.bottom_height
            },
    {
        let d = scroll_delta(dt_ms);
        let n = self.pairs.len();
        let mut i: usize = 0;
        while i < n
            invariant
                n == self.pairs@.len(),
                i <= n,
                dt_ms <= MAX_FRAME_MS,
                d == scroll_delta_spec(dt_ms),
                0 <= d <= 300000,
                forall|j: int| i <= j < n ==> #[trigger] self.pairs@[j] == old(self).pairs@[j],
                forall|j: int| i <= j < n ==> in_world((#[trigger] self.pairs@[j]).x as int),
                forall|j: int| 0 <= j < i ==> {
                    let p0 = old(self).pairs@[j];
                    let p1 = #[trigger] self.pairs@[j];
                    p1.x == p0.x - scroll_delta_spec(dt_ms)
                        && p1.top_height == p0.top_height
                        && p1.bottom_y == p0.bottom_y
                        && p1.bottom_height == p0.bottom_height
                },
            decreases n - i,
        {
            let p = self.pairs[i];
            let moved = PipePair {
                x: p.x - d,
                top_height: p.top_height,
                bottom_y: p.bottom_y,
                bottom_height: p.bottom_height,
            };
            self.pairs.set(i, moved);
            i = i + 1;
        }
    }

    /// Examines the oldest pair and queues exactly the due lifecycle events,
    /// in dispatch order, behind whatever is already queued.
    pub fn check_lifecycle(&self, queue: &mut EventQueue)
        requires
            self.pairs@.len() > 0,
        ensures
            final(queue)@ == old(queue)@ + self.lifecycle_events(),
    {
        let oldest_x = self.pairs[0].x;
        if oldest_x <= PIPE_DESPAWN_X {
            queue.push(Event::DespawnPipe);
        }
        if oldest_x <= PIPE_SPAWN_X && self.pairs.len() == 1 {
            queue.push(Event::SpawnPipe);
            queue.push(Event::SpawnCoin);
            queue.push(Event::UpdateScore);
        }
        assert(queue@ =~= old(queue)@ + self.lifecycle_events());
    }

    /// Appends one freshly spawned pair at the world-right edge; every pair
    /// already in the track is untouched.
    pub fn spawn(&mut self, screen_w: i64, screen_h: i64)
        ensures
            final(self).pairs@.len() == old(self).pairs@.len() + 1,
            final(self).pairs@ == old(self).pairs@.push(final(self).pairs@.last()),
            spawned(final(self).pairs@.last(), screen_w, screen_h),
    {
        let top_height = random_in(PIPE_MIN_TOP, PIPE_MAX_TOP);
        self.pairs.push(PipePair::new(screen_w, top_height, screen_h));
    }

    /// Removes the oldest pair; the rest shift up in order. Must never be
    /// called on an empty track.
    pub fn despawn(&mut self)
        requires
            old(self).pairs@.len() > 0,
        ensures
            final(self).pairs@ == old(self).pairs@.subrange(1, old(self).pairs@.len() as int),
    {
        self.pairs.remove(0);
        assert(self.pairs@ =~= old(self).pairs@.subrange(1, old(self).pairs@.len() as int));
    }
}

} // verus!
