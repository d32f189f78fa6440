//! The top-level game state and the per-frame orchestrator that ties the
//! tracks, the bird, the counters and the event queue together.

use vstd::prelude::*;

use crate::bird::{Bird, BIRD_X};
use crate::coins::{coin_box_contains, CoinTrack, COIN_MISS_X, COIN_Y_MARGIN};
use crate::events::{Event, EventQueue};
use crate::motion::{in_world, scroll_delta_spec, MAX_FRAME_MS};
use crate::pipes::{spawned, PipeTrack, FREE_SPACE, PIPE_MAX_TOP, PIPE_MIN_TOP};
use crate::stats::Stats;

verus! {

/// The single authoritative top-level state. The menu states suspend the
/// simulation; a crash moves `Playing` to `GameOver`; the pause button
/// toggles between `Playing` and `Paused`.
#[derive(Clone, Copy, Debug, PartialEq, Eq, Structural)]
pub enum GameState {
    StartMenu,
    Playing,
    Paused,
    GameOver,
}

/// One frame's worth of player input, read outside the library and handed
/// in as plain flags: whether the pause button, the play button and the
/// play-again button were clicked, and the jump key's state.
#[derive(Clone, Copy, Debug)]
pub struct FrameInput {
    pub pause_clicked: bool,
    pub play_clicked: bool,
    pub play_again_clicked: bool,
    pub jump_down: bool,
    pub jump_released: bool,
}

/// Machine limit on screen dimensions and on live pipe coordinates while a
/// frame is stepped: generous headroom keeps all frame arithmetic exact.
pub const SCENE_LIMIT: i64 = 1000000;

/// Machine limit on live coin coordinates: wider than `SCENE_LIMIT` because
/// a coin spawns offset by up to two screen-widths past the right edge.
pub const COIN_LIMIT: i64 = 8000000;

/// How many times event `e` occurs in `q`.
pub open spec fn count_ev(q: Seq<Event>, e: Event) -> int
    decreases q.len(),
{
    if q.len() == 0 {
        0
    } else {
        (if q[0] == e {
            1int
        } else {
            0int
        }) + count_ev(q.subrange(1, q.len() as int), e)
    }
}

/// The score after dispatching `q` starting from `s`: one point per queued
/// score update.
pub open spec fn score_after(q: Seq<Event>, s: int) -> int {
    s + count_ev(q, Event::UpdateScore)
}

/// The high score after dispatching `q` starting from score `s` and high
/// score `h`: each score update raises the score by one and pulls the high
/// score up whenever the new score beats it.
pub open spec fn high_after(q: Seq<Event>, s: int, h: int) -> int
    decreases q.len(),
{
    if q.len() == 0 {
        h
    } else {
        let rest = q.subrange(1, q.len() as int);
        if q[0] == Event::UpdateScore {
            high_after(rest, s + 1, if s + 1 > h {
                s + 1
            } else {
                h
            })
        } else {
            high_after(rest, s, h)
        }
    }
}

/// The high-score values to persist while dispatching `q` from score `s`
/// and high score `h`, in order: one entry per score update that beats the
/// high score standing at that moment.
pub open spec fn persists_spec(q: Seq<Event>, s: int, h: int) -> Seq<u32>
    decreases q.len(),
{
    if q.len() == 0 {
        Seq::<u32>::empty()
    } else {
        let rest = q.subrange(1, q.len() as int);
        if q[0] == Event::UpdateScore {
            if s + 1 > h {
                seq![(s + 1) as u32] + persists_spec(rest, s + 1, s + 1)
            } else {
                persists_spec(rest, s + 1, h)
            }
        } else {
            persists_spec(rest, s, h)
        }
    }
}

/// Whether `q` can be dispatched safely against `p` pipe pairs, `c` coins
/// and score `s`: every pipe despawn and every coin spawn finds a pair,
/// every coin despawn finds a coin, and no score update overflows.
pub open spec fn dispatch_safe(q: Seq<Event>, p: int, c: int, s: int) -> bool
    decreases q.len(),
{
    if q.len() == 0 {
        true
    } else {
        let rest = q.subrange(1, q.len() as int);
        match q[0] {
            Event::SpawnPipe => dispatch_safe(rest, p + 1, c, s),
            Event::SpawnCoin => p >= 1 && dispatch_safe(rest, p, c + 1, s),
            Event::DespawnPipe => p >= 1 && dispatch_safe(rest, p - 1, c, s),
            Event::DespawnCoin => c >= 1 && dispatch_safe(rest, p, c - 1, s),
            Event::UpdateScore => s + 1 <= u32::MAX && dispatch_safe(rest, p, c, s + 1),
        }
    }
}

/// No event occurs more often than the queue is long.
pub proof fn lemma_count_le_len(q: Seq<Event>, e: Event)
    ensures
        0 <= count_ev(q, e) <= q.len(),
    decreases q.len(),
{
    if q.len() > 0 {
        lemma_count_le_len(q.subrange(1, q.len() as int), e);
    }
}

/// Dispatching a concatenation is dispatching the first part, then the
/// second against the counts the first part leaves behind; event counts
/// add up across the parts.
pub proof fn lemma_dispatch_concat(a: Seq<Event>, b: Seq<Event>, p: int, c: int, s: int)
    ensures
        forall|e: Event| #[trigger] count_ev(a + b, e) == count_ev(a, e) + count_ev(b, e),
        dispatch_safe(a + b, p, c, s) == (dispatch_safe(a, p, c, s) && dispatch_safe(
            b,
            p - count_ev(a, Event::DespawnPipe) + count_ev(a, Event::SpawnPipe),
            c - count_ev(a, Event::DespawnCoin) + count_ev(a, Event::SpawnCoin),
            s + count_ev(a, Event::UpdateScore),
        )),
    decreases a.len(),
{
    if a.len() == 0 {
        assert(a + b =~= b);
        assert forall|e: Event| #[trigger] count_ev(a + b, e) == count_ev(a, e) + count_ev(b, e)
        by {
            assert(count_ev(a, e) == 0);
        }
    } else {
        let rest = a.subrange(1, a.len() as int);
        assert((a + b).subrange(1, (a + b).len() as int) =~= rest + b);
        match a[0] {
            Event::SpawnPipe => lemma_dispatch_concat(rest, b, p + 1, c, s),
            Event::SpawnCoin => lemma_dispatch_concat(rest, b, p, c + 1, s),
            Event::DespawnPipe => lemma_dispatch_concat(rest, b, p - 1, c, s),
            Event::DespawnCoin => lemma_dispatch_concat(rest, b, p, c - 1, s),
            Event::UpdateScore => lemma_dispatch_concat(rest, b, p, c, s + 1),
        }
        assert forall|e: Event| #[trigger] count_ev(a + b, e) == count_ev(a, e) + count_ev(b, e)
        by {
            assert(count_ev(a + b, e) == (if (a + b)[0] == e {
                1int
            } else {
                0int
            }) + count_ev(rest + b, e));
            assert(count_ev(a, e) == (if a[0] == e {
                1int
            } else {
                0int
            }) + count_ev(rest, e));
        }
    }
}

/// An empty queue dispatches safely and holds no event.
pub proof fn lemma_dispatch_empty(p: int, c: int, s: int)
    ensures
        dispatch_safe(Seq::<Event>::empty(), p, c, s),
        forall|x: Event| #[trigger] count_ev(Seq::<Event>::empty(), x) == 0,
{
}

/// Unfolds the counts and the dispatch-safety condition of a one-event
/// queue.
pub proof fn lemma_dispatch_single(e: Event, p: int, c: int, s: int)
    ensures
        count_ev(seq![e], Event::SpawnPipe) == if e == Event::SpawnPipe { 1int } else { 0int },
        count_ev(seq![e], Event::SpawnCoin) == if e == Event::SpawnCoin { 1int } else { 0int },
        count_ev(seq![e], Event::DespawnPipe) == if e == Event::DespawnPipe { 1int } else { 0int },
        count_ev(seq![e], Event::DespawnCoin) == if e == Event::DespawnCoin { 1int } else { 0int },
        count_ev(seq![e], Event::UpdateScore) == if e == Event::UpdateScore { 1int } else { 0int },
        dispatch_safe(seq![e], p, c, s) == match e {
            Event::SpawnPipe => true,
            Event::SpawnCoin => p >= 1,
            Event::DespawnPipe => p >= 1,
            Event::DespawnCoin => c >= 1,
            Event::UpdateScore => s + 1 <= u32::MAX,
        },
{
    reveal_with_fuel(count_ev, 3);
    reveal_with_fuel(dispatch_safe, 3);
    assert(seq![e].subrange(1, 1) =~= Seq::<Event>::empty());
}

/// Unfolds the counts and the dispatch-safety condition of the spawn group
/// that a lifecycle check queues: a new pipe, its coin, and a score update.
pub proof fn lemma_dispatch_spawn_group(p: int, c: int, s: int)
    requires
        p >= 0,
    ensures
        count_ev(
            seq![Event::SpawnPipe, Event::SpawnCoin, Event::UpdateScore],
            Event::SpawnPipe,
        ) == 1,
        count_ev(
            seq![Event::SpawnPipe, Event::SpawnCoin, Event::UpdateScore],
            Event::SpawnCoin,
        ) == 1,
        count_ev(
            seq![Event::SpawnPipe, Event::SpawnCoin, Event::UpdateScore],
            Event::UpdateScore,
        ) == 1,
        count_ev(
            seq![Event::SpawnPipe, Event::SpawnCoin, Event::UpdateScore],
            Event::DespawnPipe,
        ) == 0,
        count_ev(
            seq![Event::SpawnPipe, Event::SpawnCoin, Event::UpdateScore],
            Event::DespawnCoin,
        ) == 0,
        dispatch_safe(
            seq![Event::SpawnPipe, Event::SpawnCoin, Event::UpdateScore],
            p,
            c,
            s,
        ) == (s + 1 <= u32::MAX),
{
    reveal_with_fuel(count_ev, 5);
    reveal_with_fuel(dispatch_safe, 5);
    let g = seq![Event::SpawnPipe, Event::SpawnCoin, Event::UpdateScore];
    assert(g.subrange(1, 3) =~= seq![Event::SpawnCoin, Event::UpdateScore]);
    assert(seq![Event::SpawnCoin, Event::UpdateScore].subrange(1, 2) =~= seq![
        Event::UpdateScore,
    ]);
    assert(seq![Event::UpdateScore].subrange(1, 1) =~= Seq::<Event>::empty());
}

/// Every pipe pair's coordinates are within the per-frame scene limit.
pub open spec fn pipes_in_scene(t: PipeTrack) -> bool {
    forall|i: int| 0 <= i < t.pairs@.len() ==> {
        let p = #[trigger] t.pairs@[i];
        &&& -SCENE_LIMIT <= p.x <= SCENE_LIMIT
        &&& -SCENE_LIMIT <= p.top_height <= SCENE_LIMIT
        &&& -SCENE_LIMIT <= p.bottom_y <= SCENE_LIMIT
    }
}

/// Every coin's coordinates are within the per-frame coin limit.
pub open spec fn coins_in_scene(t: CoinTrack) -> bool {
    forall|i: int| 0 <= i < t.coins@.len() ==> {
        let c = #[trigger] t.coins@[i];
        &&& -COIN_LIMIT <= c.x <= COIN_LIMIT
        &&& -COIN_LIMIT <= c.y <= COIN_LIMIT
    }
}

/// The pause button's effect on the top-level state: ignored on the start
/// menu; otherwise it moves `Paused` back to `Playing` and any other state
/// (even `GameOver`, exactly as the game plays it) to `Paused`.
pub open spec fn state_after_pause(s: GameState, clicked: bool) -> GameState {
    if clicked && s != GameState::StartMenu {
        if s == GameState::Paused {
            GameState::Playing
        } else {
            GameState::Paused
        }
    } else {
        s
    }
}

/// The whole simulation: the authoritative state, the player, both tracks,
/// the counters, and the queue of this frame's pending events.
pub struct World {
    pub state: GameState,
    pub bird: Bird,
    pub pipes: PipeTrack,
    pub coins: CoinTrack,
    pub stats: Stats,
    pub queue: EventQueue,
}

impl World {
    /// The world's invariant, held before and after every frame: every pair
    /// keeps the gap invariant; the track always holds at least one pair
    /// (in particular it is never empty while playing); the bird never
    /// leaves its column; and the queued events can be dispatched safely
    /// and leave at least one pair in the track.
    pub open spec fn wf(self) -> bool {
        &&& self.pipes.all_wf()
        &&& self.pipes.pairs@.len() >= 1
        &&& self.bird.x == BIRD_X
        &&& dispatch_safe(
            self.queue@,
            self.pipes.pairs@.len() as int,
            self.coins.coins@.len() as int,
            self.stats.score as int,
        )
        &&& count_ev(self.queue@, Event::DespawnPipe) <= self.pipes.pairs@.len()
        &&& count_ev(self.queue@, Event::DespawnCoin) <= self.coins.coins@.len()
        &&& self.pipes.pairs@.len() - count_ev(self.queue@, Event::DespawnPipe) + count_ev(
            self.queue@,
            Event::SpawnPipe,
        ) >= 1
    }

    /// The machine limits one frame's arithmetic needs, all checkable by
    /// the caller: a bounded frame time, screen dimensions and track
    /// coordinates within the scene limits, bird state within the world
    /// limit, and headroom on both counters.
    pub open spec fn step_fits(self, dt_ms: u64, screen_w: i64, screen_h: i64) -> bool {
        &&& dt_ms <= MAX_FRAME_MS
        &&& 0 <= screen_w <= SCENE_LIMIT
        &&& 2 * COIN_Y_MARGIN + 1 <= screen_h <= SCENE_LIMIT
        &&& pipes_in_scene(self.pipes)
        &&& coins_in_scene(self.coins)
        &&& in_world(self.bird.y as int)
        &&& in_world(self.bird.velocity as int)
        &&& self.stats.score + self.queue@.len() + 2 <= u32::MAX
        &&& self.stats.coins_collected < u32::MAX
    }

    /// A fresh session on the start menu: one spawned pair, one spawned
    /// coin, a centered bird, zeroed counters seeded with the stored high
    /// score, and an empty queue.
    pub fn new(screen_w: i64, screen_h: i64, high_score: u32) -> (w: World)
        requires
            0 <= screen_w <= SCENE_LIMIT,
            2 * COIN_Y_MARGIN + 1 <= screen_h <= SCENE_LIMIT,
        ensures
            w.wf(),
            w.state == GameState::StartMenu,
            w.bird.x == BIRD_X && w.bird.y == screen_h / 2 && w.bird.velocity == 0
                && !w.bird.jump_latched,
            w.pipes.pairs@.len() == 1 && spawned(w.pipes.pairs@[0], screen_w, screen_h),
            w.coins.coins@.len() == 1 && w.coins.armed,
            w.stats.score == 0 && w.stats.high_score == high_score
                && w.stats.coins_collected == 0,
            w.queue@ == Seq::<Event>::empty(),
            pipes_in_scene(w.pipes),
            coins_in_scene(w.coins),
    {
        World {
            state: GameState::StartMenu,
            bird: Bird::new(screen_h),
            pipes: PipeTrack::new_single(screen_w, screen_h),
            coins: CoinTrack::new(screen_w, screen_h),
            stats: Stats::new(high_score),
            queue: EventQueue::new(),
        }
    }

    /// Drains the queue and handles every event strictly in the order it
    /// was pushed: a pipe or coin spawn grows its track at the back, a
    /// despawn removes its track's oldest element, and each score update
    /// records one pass. Returns the high-score values to persist, in
    /// order. The drain leaves the queue empty, and handlers push nothing,
    /// so dispatch always terminates with this frame's events alone.
    pub fn dispatch_events(&mut self, screen_w: i64, screen_h: i64) -> (persists: Vec<u32>)
        requires
            0 <= screen_w <= SCENE_LIMIT,
            2 * COIN_Y_MARGIN + 1 <= screen_h <= SCENE_LIMIT,
            old(self).pipes.all_wf(),
            pipes_in_scene(old(self).pipes),
            coins_in_scene(old(self).coins),
            dispatch_safe(
                old(self).queue@,
                old(self).pipes.pairs@.len() as int,
                old(self).coins.coins@.len() as int,
                old(self).stats.score as int,
            ),
            count_ev(old(self).queue@, Event::DespawnPipe) <= old(self).pipes.pairs@.len(),
            count_ev(old(self).queue@, Event::DespawnCoin) <= old(self).coins.coins@.len(),
        ensures
            ({
                let q = old(self).queue@;
                let s0 = old(self).stats.score as int;
                let h0 = old(self).stats.high_score as int;
                let len0p = old(self).pipes.pairs@.len() as int;
                let len0c = old(self).coins.coins@.len() as int;
                let kdp = count_ev(q, Event::DespawnPipe);
                let kdc = count_ev(q, Event::DespawnCoin);
                &&& final(self).queue@ == Seq::<Event>::empty()
                &&& final(self).state == old(self).state
                &&& final(self).bird == old(self).bird
                &&& final(self).stats.score == score_after(q, s0)
                &&& final(self).stats.high_score == high_after(q, s0, h0)
                &&& final(self).stats.coins_collected == old(self).stats.coins_collected
                &&& persists@ == persists_spec(q, s0, h0)
                &&& final(self).pipes.pairs@.len() == len0p - kdp + count_ev(q, Event::SpawnPipe)
                &&& forall|j: int| 0 <= j < len0p - kdp
                    ==> #[trigger] final(self).pipes.pairs@[j] == old(self).pipes.pairs@[kdp + j]
                &&& forall|j: int| len0p - kdp <= j < final(self).pipes.pairs@.len()
                    ==> spawned(#[trigger] final(self).pipes.pairs@[j], screen_w, screen_h)
                &&& final(self).coins.coins@.len() == len0c - kdc + count_ev(q, Event::SpawnCoin)
                &&& forall|j: int| 0 <= j < len0c - kdc
                    ==> #[trigger] final(self).coins.coins@[j] == old(self).coins.coins@[kdc + j]
                &&& final(self).coins.armed == if count_ev(q, Event::SpawnCoin) >= 1 {
                    true
                } else {
                    old(self).coins.armed
                }
                &&& final(self).pipes.all_wf()
                &&& pipes_in_scene(final(self).pipes)
                &&& coins_in_scene(final(self).coins)
            }),
    {
        let ghost q = old(self).queue@;
        let ghost s0 = old(self).stats.score as int;
        let ghost h0 = old(self).stats.high_score as int;
        let ghost len0p = old(self).pipes.pairs@.len() as int;
        let ghost len0c = old(self).coins.coins@.len() as int;
        let evs = self.queue.drain();
        let mut persists: Vec<u32> = Vec::new();
        let ghost mut kp: int = 0;
        let ghost mut sp: int = 0;
        let ghost mut kc: int = 0;
        let ghost mut sc: int = 0;
        proof {
            assert(q.subrange(0, q.len() as int) =~= q);
            assert(persists@ + persists_spec(q, s0, h0) =~= persists_spec(q, s0, h0));
        }
        let mut i: usize = 0;
        while i < evs.len()
            invariant
                evs@ == q,
                i <= evs@.len(),
                0 <= screen_w <= SCENE_LIMIT,
                2 * COIN_Y_MARGIN + 1 <= screen_h <= SCENE_LIMIT,
                self.queue@ == Seq::<Event>::empty(),
                self.state == old(self).state,
                self.bird == old(self).bird,
                self.stats.coins_collected == old(self).stats.coins_collected,
                0 <= kp <= len0p,
                sp >= 0,
                0 <= kc <= len0c,
                sc >= 0,
                len0p == old(self).pipes.pairs@.len(),
                len0c == old(self).coins.coins@.len(),
                count_ev(q, Event::DespawnPipe) <= len0p,
                count_ev(q, Event::DespawnCoin) <= len0c,
                ({
                    let tail = q.subrange(i as int, q.len() as int);
                    &&& dispatch_safe(
                        tail,
                        self.pipes.pairs@.len() as int,
                        self.coins.coins@.len() as int,
                        self.stats.score as int,
                    )
                    &&& kp + count_ev(tail, Event::DespawnPipe) == count_ev(
                        q,
                        Event::DespawnPipe,
                    )
                    &&& sp + count_ev(tail, Event::SpawnPipe) == count_ev(q, Event::SpawnPipe)
                    &&& kc + count_ev(tail, Event::DespawnCoin) == count_ev(
                        q,
                        Event::DespawnCoin,
                    )
                    &&& sc + count_ev(tail, Event::SpawnCoin) == count_ev(q, Event::SpawnCoin)
                    &&& score_after(tail, self.stats.score as int) == score_after(q, s0)
                    &&& high_after(tail, self.stats.score as int, self.stats.high_score as int)
                        == high_after(q, s0, h0)
                    &&& persists@ + persists_spec(
                        tail,
                        self.stats.score as int,
                        self.stats.high_score as int,
                    ) == persists_spec(q, s0, h0)
                }),
                self.pipes.pairs@.len() == len0p - kp + sp,
                forall|j: int| 0 <= j < len0p - kp
                    ==> #[trigger] self.pipes.pairs@[j] == old(self).pipes.pairs@[kp + j],
                forall|j: int| len0p - kp <= j < self.pipes.pairs@.len()
                    ==> spawned(#[trigger] self.pipes.pairs@[j], screen_w, screen_h),
                self.coins.coins@.len() == len0c - kc + sc,
                forall|j: int| 0 <= j < len0c - kc
                    ==> #[trigger] self.coins.coins@[j] == old(self).coins.coins@[kc + j],
                self.coins.armed == if sc >= 1 {
                    true
                } else {
                    old(self).coins.armed
                },
                self.pipes.all_wf(),
                pipes_in_scene(self.pipes),
                coins_in_scene(self.coins),
            decreases evs@.len() - i,
        {
            let ghost tail = q.subrange(i as int, q.len() as int);
            let ghost tail2 = q.subrange(i as int + 1, q.len() as int);
            proof {
                assert(tail.len() > 0);
                assert(tail[0] == q[i as int]);
                assert(tail.subrange(1, tail.len() as int) =~= tail2);
                lemma_count_le_len(tail2, Event::DespawnPipe);
                lemma_count_le_len(tail2, Event::DespawnCoin);
                lemma_count_le_len(tail2, Event::SpawnPipe);
                lemma_count_le_len(tail2, Event::SpawnCoin);
            }
            let ev = evs[i];
            match ev {
                Event::SpawnPipe => {
                    self.pipes.spawn(screen_w, screen_h);
                    proof {
                        sp = sp + 1;
                    }
                },
                Event::SpawnCoin => {
                    let gap = self.pipes.pairs[0].x - self.pipes.pairs[self.pipes.pairs.len()
                        - 1].x;
                    self.coins.spawn(screen_w, screen_h, gap);
                    proof {
                        sc = sc + 1;
                    }
                },
                Event::DespawnPipe => {
                    self.pipes.despawn();
                    proof {
                        kp = kp + 1;
                    }
                },
                Event::DespawnCoin => {
                    self.coins.despawn();
                    proof {
                        kc = kc + 1;
                    }
                },
                Event::UpdateScore => {
                    let ghost sb = self.stats.score as int;
                    let ghost hb = self.stats.high_score as int;
                    match self.stats.record_pass() {
                        Some(v) => {
                            let ghost pb = persists@;
                            persists.push(v);
                            proof {
                                let r2 = persists_spec(tail2, sb + 1, sb + 1);
                                assert(persists_spec(tail, sb, hb) == seq![(sb + 1) as u32]
                                    + r2);
                                assert(pb.push(v) + r2 =~= pb + (seq![(sb + 1) as u32] + r2));
                            }
                        },
                        None => {
                            proof {
                                assert(persists_spec(tail, sb, hb) == persists_spec(
                                    tail2,
                                    sb + 1,
                                    hb,
                                ));
                            }
                        },
                    }
                },
            }
            i = i + 1;
        }
        proof {
            assert(q.subrange(q.len() as int, q.len() as int) =~= Seq::<Event>::empty());
            assert(persists@ + persists_spec(
                Seq::<Event>::empty(),
                self.stats.score as int,
                self.stats.high_score as int,
            ) =~= persists@);
        }
        persists
    }

    /// One full frame of the simulation, in the game's own order: the pause
    /// toggle first, then one full drain of the previous frame's events,
    /// then the branch for the current state. A play or play-again click
    /// starts a run with a fresh bird, a fresh single-pair track and a
    /// zeroed score; a playing frame scrolls both tracks, queues the due
    /// lifecycle events, steps the bird — a crash ends the run — and checks
    /// coin collection. Returns the high-score values to persist, in order.
    pub fn step(
        &mut self,
        input: FrameInput,
        dt_ms: u64,
        screen_w: i64,
        screen_h: i64,
    ) -> (persists: Vec<u32>)
        requires
            old(self).wf(),
            old(self).step_fits(dt_ms, screen_w, screen_h),
        ensures
            final(self).wf(),
            persists@ == persists_spec(
                old(self).queue@,
                old(self).stats.score as int,
                old(self).stats.high_score as int,
            ),
            final(self).stats.high_score == high_after(
                old(self).queue@,
                old(self).stats.score as int,
                old(self).stats.high_score as int,
            ),
            ({
                let s1 = state_after_pause(old(self).state, input.pause_clicked);
                let dispatched = score_after(old(self).queue@, old(self).stats.score as int);
                &&& s1 == GameState::StartMenu ==> {
                    &&& final(self).state == if input.play_clicked {
                        GameState::Playing
                    } else {
                        GameState::StartMenu
                    }
                    &&& final(self).stats.score == if input.play_clicked {
                        0int
                    } else {
                        dispatched
                    }
                    &&& final(self).stats.coins_collected == old(self).stats.coins_collected
                    &&& final(self).queue@ == Seq::<Event>::empty()
                    &&& input.play_clicked ==> {
                        &&& final(self).pipes.pairs@.len() == 1
                        &&& spawned(final(self).pipes.pairs@[0], screen_w, screen_h)
                        &&& final(self).bird.x == BIRD_X
                        &&& final(self).bird.y == screen_h / 2
                        &&& final(self).bird.velocity == 0
                        &&& !final(self).bird.jump_latched
                    }
                }
                &&& s1 == GameState::Paused ==> {
                    &&& final(self).state == GameState::Paused
                    &&& final(self).stats.score == dispatched
                    &&& final(self).stats.coins_collected == old(self).stats.coins_collected
                    &&& final(self).bird == old(self).bird
                    &&& final(self).queue@ == Seq::<Event>::empty()
                }
                &&& s1 == GameState::GameOver ==> {
                    &&& final(self).state == if input.play_again_clicked {
                        GameState::Playing
                    } else {
                        GameState::GameOver
                    }
                    &&& final(self).stats.score == if input.play_again_clicked {
                        0int
                    } else {
                        dispatched
                    }
                    &&& final(self).stats.coins_collected == old(self).stats.coins_collected
                    &&& final(self).queue@ == Seq::<Event>::empty()
                    &&& input.play_again_clicked ==> {
                        &&& final(self).pipes.pairs@.len() == 1
                        &&& spawned(final(self).pipes.pairs@[0], screen_w, screen_h)
                        &&& final(self).bird.x == BIRD_X
                        &&& final(self).bird.y == screen_h / 2
                        &&& final(self).bird.velocity == 0
                        &&& !final(self).bird.jump_latched
                        &&& final(self).coins.coins@.len() == ({
                            let dlen = old(self).coins.coins@.len() - count_ev(
                                old(self).queue@,
                                Event::DespawnCoin,
                            ) + count_ev(old(self).queue@, Event::SpawnCoin);
                            if dlen > 0 {
                                dlen - 1
                            } else {
                                0int
                            }
                        })
                    }
                }
                &&& s1 == GameState::Playing ==> {
                    let crashed = old(self).bird.hits_pipe(final(self).pipes.pairs@[0])
                        || old(self).bird.out_of_bounds(screen_h);
                    let armed_mid = count_ev(old(self).queue@, Event::SpawnCoin) >= 1
                        || old(self).coins.armed;
                    let hit = final(self).coins.coins@.len() > 0 && armed_mid
                        && !(final(self).coins.coins@[0].x < COIN_MISS_X)
                        && coin_box_contains(
                        final(self).coins.coins@[0],
                        BIRD_X as int,
                        final(self).bird.y as int,
                    );
                    &&& final(self).state == if crashed {
                        GameState::GameOver
                    } else {
                        GameState::Playing
                    }
                    &&& final(self).bird == old(self).bird.updated(
                        input.jump_down,
                        input.jump_released,
                        dt_ms,
                        screen_w,
                        screen_h,
                    )
                    &&& final(self).stats.score == dispatched
                    &&& final(self).stats.coins_collected == old(self).stats.coins_collected + (
                    if hit {
                        1int
                    } else {
                        0int
                    })
                    &&& final(self).coins.armed == (armed_mid && !hit)
                    &&& ({
                        let q = old(self).queue@;
                        let delta = scroll_delta_spec(dt_ms);
                        let kdp = count_ev(q, Event::DespawnPipe);
                        let ksp = count_ev(q, Event::SpawnPipe);
                        let kdc = count_ev(q, Event::DespawnCoin);
                        let ksc = count_ev(q, Event::SpawnCoin);
                        let len0p = old(self).pipes.pairs@.len() as int;
                        let len0c = old(self).coins.coins@.len() as int;
                        &&& final(self).pipes.pairs@.len() == len0p - kdp + ksp
                        &&& forall|j: int| 0 <= j < len0p - kdp ==> {
                            let p0 = old(self).pipes.pairs@[kdp + j];
                            let p1 = #[trigger] final(self).pipes.pairs@[j];
                            &&& p1.x == p0.x - delta
                            &&& p1.top_height == p0.top_height
                            &&& p1.bottom_y == p0.bottom_y
                            &&& p1.bottom_height == p0.bottom_height
                        }
                        &&& forall|j: int| len0p - kdp <= j < final(self).pipes.pairs@.len()
                            ==> {
                            let p1 = #[trigger] final(self).pipes.pairs@[j];
                            &&& p1.x == screen_w - delta
                            &&& PIPE_MIN_TOP <= p1.top_height < PIPE_MAX_TOP
                            &&& p1.bottom_y == p1.top_height + FREE_SPACE
                            &&& p1.bottom_height == screen_h
                        }
                        &&& final(self).coins.coins@.len() == len0c - kdc + ksc
                        &&& forall|j: int| 0 <= j < len0c - kdc ==> {
                            let c0 = old(self).coins.coins@[kdc + j];
                            let c1 = #[trigger] final(self).coins.coins@[j];
                            c1.x == c0.x - delta && c1.y == c0.y
                        }
                        &&& ({
                            let live = final(self).coins.coins@.len() > 0 && armed_mid;
                            let c0 = final(self).coins.coins@[0];
                            let cev: Seq<Event> = if !live {
                                Seq::<Event>::empty()
                            } else if c0.x < COIN_MISS_X {
                                seq![Event::DespawnCoin]
                            } else if coin_box_contains(
                                c0,
                                BIRD_X as int,
                                final(self).bird.y as int,
                            ) {
                                seq![Event::DespawnCoin]
                            } else {
                                Seq::<Event>::empty()
                            };
                            final(self).queue@ == final(self).pipes.lifecycle_events() + cev
                        })
                    })
                }
            }),
    {
        if input.pause_clicked && self.state != GameState::StartMenu {
            self.state = if self.state == GameState::Paused {
                GameState::Playing
            } else {
                GameState::Paused
            };
        }
        let ghost q0 = self.queue@;
        let persists = self.dispatch_events(screen_w, screen_h);
        proof {
            lemma_count_le_len(q0, Event::UpdateScore);
        }
        match self.state {
            GameState::StartMenu => {
                if input.play_clicked {
                    self.state = GameState::Playing;
                    self.bird = Bird::new(screen_h);
                    self.pipes = PipeTrack::new_single(screen_w, screen_h);
                    self.stats.reset();
                }
            },
            GameState::Playing => {
                let ghost pipes_disp = self.pipes;
                let ghost coins_disp = self.coins;
                proof {
                    assert forall|i: int| 0 <= i < self.pipes.pairs@.len() implies in_world(
                        (#[trigger] self.pipes.pairs@[i]).x as int,
                    ) by {}
                }
                self.pipes.advance(dt_ms);
                let ghost pipes_adv = self.pipes;
                self.pipes.check_lifecycle(&mut self.queue);
                let ghost le = pipes_adv.lifecycle_events();
                proof {
                    assert(self.queue@ =~= le);
                    assert forall|i: int| 0 <= i < self.coins.coins@.len() implies {
                        let c = #[trigger] self.coins.coins@[i];
                        in_world(c.x as int) && in_world(c.y as int)
                    } by {}
                }
                self.coins.advance(dt_ms);
                let first = self.pipes.pairs[0];
                self.bird.update(
                    &first,
                    input.jump_down,
                    input.jump_released,
                    dt_ms,
                    screen_w,
                    screen_h,
                    &mut self.state,
                );
                let ghost coins_mid = self.coins;
                self.coins.check_collision(
                    self.bird.x,
                    self.bird.y,
                    &mut self.queue,
                    &mut self.stats,
                );
                let ghost ce = coins_mid.collision_events(self.bird.x, self.bird.y);
                proof {
                    let p0 = pipes_adv.pairs@[0];
                    let plen = pipes_adv.pairs@.len() as int;
                    let clen = coins_mid.coins@.len() as int;
                    let sc2 = self.stats.score as int;
                    let dpart: Seq<Event> = if p0.x <= crate::pipes::PIPE_DESPAWN_X {
                        seq![Event::DespawnPipe]
                    } else {
                        Seq::<Event>::empty()
                    };
                    let spart: Seq<Event> = if p0.x <= crate::pipes::PIPE_SPAWN_X && plen == 1 {
                        seq![Event::SpawnPipe, Event::SpawnCoin, Event::UpdateScore]
                    } else {
                        Seq::<Event>::empty()
                    };
                    assert(le == dpart + spart);
                    lemma_dispatch_single(Event::DespawnPipe, plen, clen, sc2);
                    lemma_dispatch_empty(plen, clen, sc2);
                    lemma_dispatch_concat(dpart, spart, plen, clen, sc2);
                    let pd = plen - count_ev(dpart, Event::DespawnPipe) + count_ev(
                        dpart,
                        Event::SpawnPipe,
                    );
                    lemma_dispatch_spawn_group(pd, clen, sc2);
                    assert(dispatch_safe(le, plen, clen, sc2));
                    lemma_dispatch_concat(le, ce, plen, clen, sc2);
                    let ple = plen - count_ev(le, Event::DespawnPipe) + count_ev(
                        le,
                        Event::SpawnPipe,
                    );
                    let cle = clen - count_ev(le, Event::DespawnCoin) + count_ev(
                        le,
                        Event::SpawnCoin,
                    );
                    let sle = sc2 + count_ev(le, Event::UpdateScore);
                    lemma_dispatch_single(Event::DespawnCoin, ple, cle, sle);
                    lemma_dispatch_empty(ple, cle, sle);
                    assert(dispatch_safe(ce, ple, cle, sle));
                    assert(dispatch_safe(self.queue@, plen, clen, sc2));
                    assert(count_ev(self.queue@, Event::DespawnPipe) <= self.pipes.pairs@.len());
                    assert(count_ev(self.queue@, Event::DespawnCoin) <= self.coins.coins@.len());
                    assert(self.pipes.pairs@.len() - count_ev(self.queue@, Event::DespawnPipe)
                        + count_ev(self.queue@, Event::SpawnPipe) >= 1);

                    lemma_count_le_len(q0, Event::DespawnPipe);
                    lemma_count_le_len(q0, Event::DespawnCoin);
                    lemma_count_le_len(q0, Event::SpawnPipe);
                    lemma_count_le_len(q0, Event::SpawnCoin);
                    let kdp = count_ev(q0, Event::DespawnPipe);
                    let kdc = count_ev(q0, Event::DespawnCoin);
                    let len0p = old(self).pipes.pairs@.len() as int;
                    let len0c = old(self).coins.coins@.len() as int;
                    let delta = scroll_delta_spec(dt_ms);
                    assert forall|j: int| 0 <= j < len0p - kdp implies {
                        let pp0 = old(self).pipes.pairs@[kdp + j];
                        let pp1 = #[trigger] self.pipes.pairs@[j];
                        &&& pp1.x == pp0.x - delta
                        &&& pp1.top_height == pp0.top_height
                        &&& pp1.bottom_y == pp0.bottom_y
                        &&& pp1.bottom_height == pp0.bottom_height
                    } by {
                        assert(pipes_disp.pairs@[j] == old(self).pipes.pairs@[kdp + j]);
                    }
                    assert forall|j: int| len0p - kdp <= j < self.pipes.pairs@.len() implies {
                        let pp1 = #[trigger] self.pipes.pairs@[j];
                        &&& pp1.x == screen_w - delta
                        &&& PIPE_MIN_TOP <= pp1.top_height < PIPE_MAX_TOP
                        &&& pp1.bottom_y == pp1.top_height + FREE_SPACE
                        &&& pp1.bottom_height == screen_h
                    } by {
                        assert(spawned(pipes_disp.pairs@[j], screen_w, screen_h));
                    }
                    assert forall|j: int| 0 <= j < len0c - kdc implies {
                        let cc0 = old(self).coins.coins@[kdc + j];
                        let cc1 = #[trigger] self.coins.coins@[j];
                        cc1.x == cc0.x - delta && cc1.y == cc0.y
                    } by {
                        assert(coins_disp.coins@[j] == old(self).coins.coins@[kdc + j]);
                    }
                    let armed_mid = count_ev(q0, Event::SpawnCoin) >= 1 || old(
                        self,
                    ).coins.armed;
                    assert(coins_mid.armed == armed_mid);
                    assert(self.bird.x == BIRD_X);
                    let live = self.coins.coins@.len() > 0 && armed_mid;
                    let c0v = self.coins.coins@[0];
                    let cev: Seq<Event> = if !live {
                        Seq::<Event>::empty()
                    } else if c0v.x < COIN_MISS_X {
                        seq![Event::DespawnCoin]
                    } else if coin_box_contains(c0v, BIRD_X as int, self.bird.y as int) {
                        seq![Event::DespawnCoin]
                    } else {
                        Seq::<Event>::empty()
                    };
                    assert(ce =~= cev);
                    assert(self.queue@ =~= self.pipes.lifecycle_events() + cev);
                }
            },
            GameState::GameOver => {
                if input.play_again_clicked {
                    self.state = GameState::Playing;
                    self.bird = Bird::new(screen_h);
                    self.pipes = PipeTrack::new_single(screen_w, screen_h);
                    self.stats.reset();
                    if self.coins.coins.len() > 0 {
                        self.coins.despawn();
                    }
                }
            },
            GameState::Paused => {},
        }
        persists
    }

    /// Checks the per-frame machine limits, so an unverified caller can
    /// test them before stepping the frame.
    pub fn step_allowed(&self, dt_ms: u64, screen_w: i64, screen_h: i64) -> (r: bool)
        ensures
            r == self.step_fits(dt_ms, screen_w, screen_h),
    {
        if !(dt_ms <= MAX_FRAME_MS && 0 <= screen_w && screen_w <= SCENE_LIMIT
            && 2 * COIN_Y_MARGIN + 1 <= screen_h && screen_h <= SCENE_LIMIT) {
            return false;
        }
        if !(-1000000000 <= self.bird.y && self.bird.y <= 1000000000 && -1000000000
            <= self.bird.velocity && self.bird.velocity <= 1000000000) {
            return false;
        }
        let qlen = self.queue.len();
        if (qlen as u64) >= 0x100000000u64 {
            return false;
        }
        if !((self.stats.score as u64) + (qlen as u64) + 2 <= u32::MAX as u64) {
            return false;
        }
        if !(self.stats.coins_collected < u32::MAX) {
            return false;
        }
        let mut i: usize = 0;
        let np = self.pipes.pairs.len();
        while i < np
            invariant
                np == self.pipes.pairs@.len(),
                i <= np,
                forall|j: int| 0 <= j < i ==> {
                    let p = #[trigger] self.pipes.pairs@[j];
                    &&& -SCENE_LIMIT <= p.x <= SCENE_LIMIT
                    &&& -SCENE_LIMIT <= p.top_height <= SCENE_LIMIT
                    &&& -SCENE_LIMIT <= p.bottom_y <= SCENE_LIMIT
                },
            decreases np - i,
        {
            let p = self.pipes.pairs[i];
            if !(-SCENE_LIMIT <= p.x && p.x <= SCENE_LIMIT && -SCENE_LIMIT <= p.top_height
                && p.top_height <= SCENE_LIMIT && -SCENE_LIMIT <= p.bottom_y
                && p.bottom_y <= SCENE_LIMIT) {
                return false;
            }
            i = i + 1;
        }
        let mut k: usize = 0;
        let nc = self.coins.coins.len();
        while k < nc
            invariant
                nc == self.coins.coins@.len(),
                k <= nc,
                forall|j: int| 0 <= j < k ==> {
                    let c = #[trigger] self.coins.coins@[j];
                    &&& -COIN_LIMIT <= c.x <= COIN_LIMIT
                    &&& -COIN_LIMIT <= c.y <= COIN_LIMIT
                },
            decreases nc - k,
        {
            let c = self.coins.coins[k];
            if !(-COIN_LIMIT <= c.x && c.x <= COIN_LIMIT && -COIN_LIMIT <= c.y
                && c.y <= COIN_LIMIT) {
                return false;
            }
            k = k + 1;
        }
        true
    }
}

/// The pipe track never holds zero pairs while the game is in any state —
/// in particular never while it is `Playing`: the world invariant keeps at
/// least one pair in flight at every frame boundary.
pub proof fn lemma_playing_track_nonempty(w: World)
    requires
        w.wf(),
    ensures
        w.state == GameState::Playing ==> w.pipes.pairs@.len() >= 1,
{
}

} // verus!
