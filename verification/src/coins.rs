//! Coins: collectibles spawned in the open lane between obstacles, scrolled
//! leftwards, collected by overlap with the bird or despawned once missed.

use vstd::prelude::*;

use crate::events::{Event, EventQueue};
use crate::motion::{in_world, scroll_delta, scroll_delta_spec, MAX_FRAME_MS};
use crate::rng::random_in;
use crate::stats::Stats;

verus! {

/// Once the oldest coin's `x` is below this, it was missed and is due for
/// despawn.
pub const COIN_MISS_X: i64 = -40;

/// The pickup box is drawn this far up and left of the coin's position.
pub const COIN_BOX_PAD: i64 = 10;

/// Side length of the square pickup box around a coin.
pub const COIN_BOX_SIZE: i64 = 60;

/// A spawned coin's vertical position keeps this distance from both screen
/// edges: it is drawn uniformly from `[COIN_Y_MARGIN, screen_h - COIN_Y_MARGIN)`.
pub const COIN_Y_MARGIN: i64 = 70;

/// One collectible coin at world position `(x, y)`.
#[derive(Clone, Copy, Debug)]
pub struct Coin {
    pub x: i64,
    pub y: i64,
}

/// Whether the square pickup box around coin `c` contains the point
/// `(px, py)`: the box's corner sits `COIN_BOX_PAD` up and left of the coin,
/// its side is `COIN_BOX_SIZE`, and all four edges count as inside.
pub open spec fn coin_box_contains(c: Coin, px: int, py: int) -> bool {
    &&& c.x - COIN_BOX_PAD <= px <= c.x - COIN_BOX_PAD + COIN_BOX_SIZE
    &&& c.y - COIN_BOX_PAD <= py <= c.y - COIN_BOX_PAD + COIN_BOX_SIZE
}

/// What holds of every coin the track itself spawns for a new obstacle.
/// `gap_distance` is the oldest pair's `x` minus the newest pair's `x` (at
/// most zero during play). Writing `d` for its negation, the coin lands at
/// `screen_w + d - r` for a draw `r` between `400` and `d - 200`, so it sits
/// inside the traversable lane between the two obstacles; its height is a
/// uniform draw that keeps `COIN_Y_MARGIN` pixels from both screen edges.
pub open spec fn spawned_coin(c: Coin, screen_w: i64, screen_h: i64, gap_distance: i64) -> bool {
    let d = -(gap_distance as int);
    let far = d - 200;
    let lo = if 400 <= far { 400int } else { far };
    let hi = if 400 <= far { far } else { 400int };
    &&& if lo < hi {
        screen_w + d - hi < c.x <= screen_w + d - lo
    } else {
        c.x == screen_w + d - lo
    }
    &&& COIN_Y_MARGIN <= c.y < screen_h - COIN_Y_MARGIN
}

/// The ordered sequence of live coins, oldest first, plus the `armed` flag:
/// only the oldest coin is live for collision, and only while `armed` holds.
/// Collecting it lowers the flag, so a coin is collected at most once.
pub struct CoinTrack {
    pub coins: Vec<Coin>,
    pub armed: bool,
}

impl CoinTrack {
    /// Every coin's coordinates are within the machine limit.
    pub open spec fn coords_in_world(self) -> bool {
        forall|i: int| 0 <= i < self.coins@.len() ==> {
            let c = #[trigger] self.coins@[i];
            in_world(c.x as int) && in_world(c.y as int)
        }
    }

    /// Whether a coin is live for collision: the track is nonempty and the
    /// oldest coin has not been collected.
    pub open spec fn active_coin(self) -> bool {
        self.coins@.len() > 0 && self.armed
    }

    /// Whether a collision check at bird position `(px, py)` collects the
    /// oldest coin: only a live coin that has not drifted past the miss line
    /// can be collected — a missed coin is despawned, never collected.
    pub open spec fn collision_hit(self, px: i64, py: i64) -> bool {
        &&& self.active_coin()
        &&& !(self.coins@[0].x < COIN_MISS_X)
        &&& coin_box_contains(self.coins@[0], px as int, py as int)
    }

    /// The events one collision check at `(px, py)` emits: a single despawn
    /// if the live coin was missed (drifted past `COIN_MISS_X`), else a
    /// single despawn if it is collected — both outcomes converge on one
    /// despawn event. Without a live coin nothing is emitted.
    pub open spec fn collision_events(self, px: i64, py: i64) -> Seq<Event> {
        if !self.active_coin() {
            Seq::<Event>::empty()
        } else if self.coins@[0].x < COIN_MISS_X {
            seq![Event::DespawnCoin]
        } else if coin_box_contains(self.coins@[0], px as int, py as int) {
            seq![Event::DespawnCoin]
        } else {
            Seq::<Event>::empty()
        }
    }

    /// A track holding one freshly spawned coin, as at game start; the
    /// starting draw uses a fixed gap distance of 200.
    pub fn new(screen_w: i64, screen_h: i64) -> (t: CoinTrack)
        requires
            in_world(screen_w as int),
            in_world(screen_h as int),
            screen_h >= 2 * COIN_Y_MARGIN + 1,
        ensures
            t.coins@.len() == 1,
            spawned_coin(t.coins@[0], screen_w, screen_h, 200),
            t.armed,
    {
        let mut t = CoinTrack { coins: Vec::new(), armed: true };
        t.spawn(screen_w, screen_h, 200);
        t
    }

    /// Scrolls every coin left by the frame's scroll distance; nothing else
    /// changes and no coin is added or removed.
    pub fn advance(&mut self, dt_ms: u64)
        requires
            dt_ms <= MAX_FRAME_MS,
            old(self).coords_in_world(),
        ensures
            final(self).armed == old(self).armed,
            final(self).coins@.len() == old(self).coins@.len(),
            forall|i: int| 0 <= i < old(self).coins@.len() ==> {
                let c0 = old(self).coins@[i];
                let c1 = #[trigger] final(self).coins@[i];
                c1.x == c0.x - scroll_delta_spec(dt_ms) && c1.y == c0.y
            },
    {
        let d = scroll_delta(dt_ms);
        let n = self.coins.len();
        let mut i: usize = 0;
        while i < n
            invariant
                n == self.coins@.len(),
                i <= n,
                d == scroll_delta_spec(dt_ms),
                0 <= d <= 300000,
                self.armed == old(self).armed,
                forall|j: int| i <= j < n ==> #[trigger] self.coins@[j] == old(self).coins@[j],
                forall|j: int| i <= j < n ==> in_world((#[trigger] self.coins@[j]).x as int),
                forall|j: int| 0 <= j < i ==> {
                    let c0 = old(self).coins@[j];
                    let c1 = #[trigger] self.coins@[j];
                    c1.x == c0.x - scroll_delta_spec(dt_ms) && c1.y == c0.y
                },
            decreases n - i,
        {
            let c = self.coins[i];
            self.coins.set(i, Coin { x: c.x - d, y: c.y });
            i = i + 1;
        }
    }

    /// Appends one freshly spawned coin for the lane described by
    /// `gap_distance` and re-arms the track; the coins already queued are
    /// untouched.
    pub fn spawn(&mut self, screen_w: i64, screen_h: i64, gap_distance: i64)
        requires
            in_world(screen_w as int),
            in_world(screen_h as int),
            in_world(gap_distance as int),
            screen_h >= 2 * COIN_Y_MARGIN + 1,
        ensures
            final(self).coins@.len() == old(self).coins@.len() + 1,
            final(self).coins@ == old(self).coins@.push(final(self).coins@.last()),
            spawned_coin(final(self).coins@.last(), screen_w, screen_h, gap_distance),
            final(self).armed,
    {
        let d = -gap_distance;
        let far = d - 200;
        let lo = if 400 <= far { 400 } else { far };
        let hi = if 400 <= far { far } else { 400 };
        let r = if lo < hi {
            random_in(lo, hi)
        } else {
            lo
        };
        let x = screen_w + d - r;
        let y = random_in(COIN_Y_MARGIN, screen_h - COIN_Y_MARGIN);
        self.coins.push(Coin { x, y });
        self.armed = true;
    }

    /// Checks the live coin, if any, against the bird at `(bird_x, bird_y)`:
    /// a missed coin queues its despawn and is never collected; otherwise a
    /// collected coin counts one coin on `stats`, disarms the track and
    /// queues its despawn — either outcome emits exactly one despawn. The
    /// coin sequence itself never changes here — removal happens at
    /// dispatch. With no live coin (empty track, or the armed flag already
    /// down) nothing at all changes, so repeated checks against a collected
    /// coin never count it again.
    pub fn check_collision(
        &mut self,
        bird_x: i64,
        bird_y: i64,
        queue: &mut EventQueue,
        stats: &mut Stats,
    )
        requires
            old(self).coords_in_world(),
            old(stats).coins_collected < u32::MAX,
        ensures
            final(self).coins@ == old(self).coins@,
            final(self).armed == (old(self).armed && !old(self).collision_hit(bird_x, bird_y)),
            final(queue)@ == old(queue)@ + old(self).collision_events(bird_x, bird_y),
            final(stats).coins_collected == old(stats).coins_collected
                + (if old(self).collision_hit(bird_x, bird_y) { 1int } else { 0int }),
            final(stats).score == old(stats).score,
            final(stats).high_score == old(stats).high_score,
    {
        if self.coins.len() < 1 {
            assert(queue@ =~= old(queue)@ + old(self).collision_events(bird_x, bird_y));
            return;
        }
        if !self.armed {
            assert(queue@ =~= old(queue)@ + old(self).collision_events(bird_x, bird_y));
            return;
        }
        let c = self.coins[0];
        if c.x < COIN_MISS_X {
            queue.push(Event::DespawnCoin);
        } else {
            let inside_x = c.x - COIN_BOX_PAD <= bird_x && bird_x <= c.x - COIN_BOX_PAD
                + COIN_BOX_SIZE;
            let inside_y = c.y - COIN_BOX_PAD <= bird_y && bird_y <= c.y - COIN_BOX_PAD
                + COIN_BOX_SIZE;
            if inside_x && inside_y {
                stats.collect_coin();
                self.armed = false;
                queue.push(Event::DespawnCoin);
            }
        }
        assert(queue@ =~= old(queue)@ + old(self).collision_events(bird_x, bird_y));
    }

    /// Removes the oldest coin; the rest shift up in order. Must never be
    /// called on an empty track.
    pub fn despawn(&mut self)
        requires
            old(self).coins@.len() > 0,
        ensures
            final(self).coins@ == old(self).coins@.subrange(1, old(self).coins@.len() as int),
            final(self).armed == old(self).armed,
    {
        self.coins.remove(0);
        assert(self.coins@ =~= old(self).coins@.subrange(1, old(self).coins@.len() as int));
    }
}

/// Collecting a coin is idempotent per coin instance: once the armed flag is
/// down, a collision check hits nothing and emits nothing, so the coin
/// counter cannot rise again for the same coin.
pub proof fn lemma_disarmed_check_inert(t: CoinTrack, px: i64, py: i64)
    requires
        !t.armed,
    ensures
        !t.collision_hit(px, py),
        t.collision_events(px, py) == Seq::<Event>::empty(),
{
}

} // verus!
