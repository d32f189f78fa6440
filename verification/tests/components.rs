use fatty_bird::bird::Bird;
use fatty_bird::coins::{Coin, CoinTrack};
use fatty_bird::events::{Event, EventQueue};
use fatty_bird::game::GameState;
use fatty_bird::pipes::{PipePair, PipeTrack, FREE_SPACE};
use fatty_bird::stats::Stats;

#[test]
fn spawned_pair_keeps_gap_and_range() {
    let track = PipeTrack::new_single(1200, 600);
    assert_eq!(track.pairs.len(), 1);
    let p = track.pairs[0];
    assert_eq!(p.bottom_y - p.top_height, FREE_SPACE);
    assert!(p.top_height >= 100 && p.top_height < 300);
    assert_eq!(p.x, 1200);
    assert_eq!(p.bottom_height, 600);
}

#[test]
fn every_spawn_keeps_gap_and_range() {
    let mut track = PipeTrack::new_single(1200, 600);
    for _ in 0..50 {
        track.spawn(1200, 600);
        let p = track.pairs[track.pairs.len() - 1];
        assert_eq!(p.bottom_y - p.top_height, FREE_SPACE);
        assert!(p.top_height >= 100 && p.top_height < 300);
        assert_eq!(p.x, 1200);
    }
}

#[test]
fn queue_drains_fifo_and_empties() {
    let mut q = EventQueue::new();
    q.push(Event::SpawnPipe);
    q.push(Event::UpdateScore);
    q.push(Event::DespawnCoin);
    let drained = q.drain();
    assert_eq!(
        drained,
        vec![Event::SpawnPipe, Event::UpdateScore, Event::DespawnCoin]
    );
    assert!(q.is_empty());
    assert_eq!(q.pop(), None);
}

#[test]
fn queue_pops_in_push_order() {
    let mut q = EventQueue::new();
    q.push(Event::DespawnPipe);
    q.push(Event::SpawnCoin);
    assert_eq!(q.pop(), Some(Event::DespawnPipe));
    assert_eq!(q.pop(), Some(Event::SpawnCoin));
    assert_eq!(q.pop(), None);
}

#[test]
fn coin_collision_collects_and_despawns_once() {
    let mut track = CoinTrack {
        coins: vec![Coin { x: 5, y: 300 }],
        armed: true,
    };
    let mut q = EventQueue::new();
    let mut stats = Stats::new(0);
    track.check_collision(5, 300, &mut q, &mut stats);
    assert_eq!(stats.coins_collected, 1);
    assert!(!track.armed);
    assert_eq!(q.pop(), Some(Event::DespawnCoin));
    assert!(q.is_empty());
}

#[test]
fn collected_coin_is_never_counted_again() {
    let mut track = CoinTrack {
        coins: vec![Coin { x: 5, y: 300 }],
        armed: true,
    };
    let mut q = EventQueue::new();
    let mut stats = Stats::new(0);
    track.check_collision(5, 300, &mut q, &mut stats);
    assert_eq!(stats.coins_collected, 1);
    for _ in 0..10 {
        track.check_collision(5, 300, &mut q, &mut stats);
    }
    assert_eq!(stats.coins_collected, 1);
    assert!(!track.armed);
    assert_eq!(q.drain().len(), 1);
}

#[test]
fn missed_coin_only_queues_despawn() {
    let mut track = CoinTrack {
        coins: vec![Coin { x: -50, y: 300 }],
        armed: true,
    };
    let mut q = EventQueue::new();
    let mut stats = Stats::new(0);
    track.check_collision(200, 300, &mut q, &mut stats);
    assert_eq!(stats.coins_collected, 0);
    assert!(track.armed);
    assert_eq!(q.pop(), Some(Event::DespawnCoin));
    assert!(q.is_empty());
}

#[test]
fn missed_coin_is_never_collected_even_when_touching() {
    // the coin is past the miss line and its pickup box still contains the
    // bird: the miss wins — one despawn, no collection, the coin stays armed
    let mut track = CoinTrack {
        coins: vec![Coin { x: -50, y: 300 }],
        armed: true,
    };
    let mut q = EventQueue::new();
    let mut stats = Stats::new(0);
    track.check_collision(-45, 300, &mut q, &mut stats);
    assert_eq!(stats.coins_collected, 0);
    assert!(track.armed);
    assert_eq!(q.pop(), Some(Event::DespawnCoin));
    assert!(q.is_empty());
}

#[test]
fn record_pass_is_monotonic() {
    let mut stats = Stats::new(10);
    let mut last_score = stats.score;
    let mut last_high = stats.high_score;
    for _ in 0..25 {
        stats.record_pass();
        assert_eq!(stats.score, last_score + 1);
        assert!(stats.high_score >= last_high);
        last_score = stats.score;
        last_high = stats.high_score;
    }
}

#[test]
fn fifty_one_passes_beat_a_high_score_of_fifty() {
    let mut stats = Stats::new(50);
    assert_eq!(stats.score, 0);
    let mut persisted: Option<u32> = None;
    for _ in 0..51 {
        if let Some(v) = stats.record_pass() {
            persisted = Some(v);
        }
    }
    assert_eq!(stats.score, 51);
    assert_eq!(stats.high_score, 51);
    assert_eq!(persisted, Some(51));
    assert_eq!(fatty_bird::score_text::format_score(51), b"51".to_vec());
}

#[test]
fn reset_zeroes_only_the_score() {
    let mut stats = Stats::new(7);
    stats.record_pass();
    stats.collect_coin();
    stats.reset();
    assert_eq!(stats.score, 0);
    assert_eq!(stats.high_score, 7);
    assert_eq!(stats.coins_collected, 1);
}

#[test]
fn bird_crashes_against_pipe_in_band() {
    let mut bird = Bird {
        x: 200,
        y: 290,
        velocity: 0,
        jump_latched: false,
    };
    let pair = PipePair::new(150, 300, 600);
    let mut state = GameState::Playing;
    bird.update(&pair, false, false, 16, 1200, 600, &mut state);
    assert_eq!(state, GameState::GameOver);
}

#[test]
fn bird_survives_pipe_outside_band() {
    let mut bird = Bird {
        x: 200,
        y: 290,
        velocity: 0,
        jump_latched: false,
    };
    let pair = PipePair::new(400, 300, 600);
    let mut state = GameState::Playing;
    bird.update(&pair, false, false, 16, 1200, 600, &mut state);
    assert_eq!(state, GameState::Playing);
}

#[test]
fn bird_falls_under_gravity() {
    let mut bird = Bird::new(600);
    assert_eq!(bird.y, 300);
    let pair = PipePair::new(1200, 200, 600);
    let mut state = GameState::Playing;
    bird.update(&pair, false, false, 1000, 1200, 600, &mut state);
    assert_eq!(bird.velocity, 2000);
    assert_eq!(bird.y, 300 + 2000);
}

#[test]
fn jump_sets_velocity_and_latches() {
    let mut bird = Bird::new(600);
    let pair = PipePair::new(1200, 200, 600);
    let mut state = GameState::Playing;
    bird.update(&pair, true, false, 0, 1200, 600, &mut state);
    assert_eq!(bird.velocity, -700);
    assert!(bird.jump_latched);
    bird.update(&pair, true, false, 0, 1200, 600, &mut state);
    assert_eq!(bird.velocity, -700);
    bird.update(&pair, false, true, 0, 1200, 600, &mut state);
    assert!(!bird.jump_latched);
}

#[test]
fn lifecycle_at_spawn_trigger_emits_spawn_group() {
    let track = PipeTrack {
        pairs: vec![PipePair::new(95, 200, 600)],
    };
    let mut q = EventQueue::new();
    track.check_lifecycle(&mut q);
    assert_eq!(q.pop(), Some(Event::SpawnPipe));
    assert_eq!(q.pop(), Some(Event::SpawnCoin));
    assert_eq!(q.pop(), Some(Event::UpdateScore));
    assert!(q.is_empty());
}

#[test]
fn lifecycle_past_despawn_line_also_queues_despawn() {
    let track = PipeTrack {
        pairs: vec![PipePair::new(-151, 200, 600)],
    };
    let mut q = EventQueue::new();
    track.check_lifecycle(&mut q);
    assert_eq!(q.pop(), Some(Event::DespawnPipe));
    assert_eq!(q.pop(), Some(Event::SpawnPipe));
    assert_eq!(q.pop(), Some(Event::SpawnCoin));
    assert_eq!(q.pop(), Some(Event::UpdateScore));
    assert!(q.is_empty());
}

#[test]
fn lifecycle_with_two_pairs_spawns_nothing() {
    let track = PipeTrack {
        pairs: vec![PipePair::new(95, 200, 600), PipePair::new(1200, 250, 600)],
    };
    let mut q = EventQueue::new();
    track.check_lifecycle(&mut q);
    assert!(q.is_empty());
}

#[test]
fn advance_scrolls_everything_left() {
    let mut track = PipeTrack {
        pairs: vec![PipePair::new(1000, 200, 600)],
    };
    track.advance(1000);
    assert_eq!(track.pairs[0].x, 700);
    assert_eq!(track.pairs[0].top_height, 200);
    let mut coins = CoinTrack {
        coins: vec![Coin { x: 500, y: 300 }],
        armed: true,
    };
    coins.advance(100);
    assert_eq!(coins.coins[0].x, 470);
    assert_eq!(coins.coins[0].y, 300);
}

#[test]
fn despawn_removes_the_oldest() {
    let mut track = PipeTrack {
        pairs: vec![PipePair::new(-151, 200, 600), PipePair::new(900, 250, 600)],
    };
    track.despawn();
    assert_eq!(track.pairs.len(), 1);
    assert_eq!(track.pairs[0].x, 900);
    let mut coins = CoinTrack {
        coins: vec![Coin { x: -50, y: 10 }, Coin { x: 700, y: 20 }],
        armed: true,
    };
    coins.despawn();
    assert_eq!(coins.coins.len(), 1);
    assert_eq!(coins.coins[0].x, 700);
}
