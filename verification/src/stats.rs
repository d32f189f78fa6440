//! Score, high-score and coin counters.

use vstd::prelude::*;

verus! {

/// The run counters. `score` counts obstacles cleared in the current run,
/// `high_score` is the best score ever seen (loaded from the store at
/// startup), and `coins_collected` counts coins picked up.
pub struct Stats {
    pub score: u32,
    pub high_score: u32,
    pub coins_collected: u32,
}

impl Stats {
    /// Fresh counters for a new session, seeded with the stored high score.
    pub fn new(high_score: u32) -> (s: Stats)
        ensures
            s.score == 0,
            s.high_score == high_score,
            s.coins_collected == 0,
    {
        Stats { score: 0, high_score, coins_collected: 0 }
    }

    /// Records one cleared obstacle: the score strictly increases by exactly
    /// one, and the high score never decreases. When the new score beats the
    /// high score, the high score follows it and the new value is returned
    /// so the caller can persist it at once; otherwise nothing is to be
    /// persisted.
    pub fn record_pass(&mut self) -> (persist: Option<u32>)
        requires
            old(self).score < u32::MAX,
        ensures
            final(self).score == old(self).score + 1,
            final(self).coins_collected == old(self).coins_collected,
            final(self).high_score >= old(self).high_score,
            final(self).high_score == if old(self).score + 1 > old(self).high_score {
                old(self).score + 1
            } else {
                old(self).high_score as int
            },
            persist == if old(self).score + 1 > old(self).high_score {
                Some(final(self).score)
            } else {
                None::<u32>
            },
    {
        self.score = self.score + 1;
        if self.score > self.high_score {
            self.high_score = self.score;
            Some(self.score)
        } else {
            None
        }
    }

    /// Records one collected coin.
    pub fn collect_coin(&mut self)
        requires
            old(self).coins_collected < u32::MAX,
        ensures
            final(self).coins_collected == old(self).coins_collected + 1,
            final(self).score == old(self).score,
            final(self).high_score == old(self).high_score,
    {
        self.coins_collected = self.coins_collected + 1;
    }

    /// Starts a new run: only the score returns to zero; the high score and
    /// the coin count are untouched.
    pub fn reset(&mut self)
        ensures
            final(self).score == 0,
            final(self).high_score == old(self).high_score,
            final(self).coins_collected == old(self).coins_collected,
    {
        self.score = 0;
    }
}

} // verus!
