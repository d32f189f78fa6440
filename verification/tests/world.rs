use fatty_bird::game::{FrameInput, GameState, World};
use fatty_bird::score_text::{format_score, parse_high_score};

const W: i64 = 1200;
const H: i64 = 600;

fn idle() -> FrameInput {
    FrameInput {
        pause_clicked: false,
        play_clicked: false,
        play_again_clicked: false,
        jump_down: false,
        jump_released: false,
    }
}

#[test]
fn new_world_sits_on_the_start_menu() {
    let w = World::new(W, H, 42);
    assert_eq!(w.state, GameState::StartMenu);
    assert_eq!(w.stats.score, 0);
    assert_eq!(w.stats.high_score, 42);
    assert_eq!(w.stats.coins_collected, 0);
    assert_eq!(w.pipes.pairs.len(), 1);
    assert_eq!(w.coins.coins.len(), 1);
    assert!(w.coins.armed);
    assert!(w.queue.is_empty());
}

#[test]
fn play_click_starts_a_run() {
    let mut w = World::new(W, H, 0);
    let mut input = idle();
    input.play_clicked = true;
    assert!(w.step_allowed(16, W, H));
    w.step(input, 16, W, H);
    assert_eq!(w.state, GameState::Playing);
    assert_eq!(w.stats.score, 0);
    assert_eq!(w.pipes.pairs.len(), 1);
    assert_eq!(w.pipes.pairs[0].x, W);
}

#[test]
fn track_never_empties_while_playing() {
    let mut w = World::new(W, H, 0);
    let mut input = idle();
    input.play_clicked = true;
    w.step(input, 16, W, H);
    let mut frame: u64 = 0;
    while w.state == GameState::Playing && frame < 2000 {
        let mut input = idle();
        // tap the jump key every few frames to keep the bird airborne
        if frame % 8 == 0 {
            input.jump_down = true;
        } else if frame % 8 == 1 {
            input.jump_released = true;
        }
        assert!(w.step_allowed(16, W, H));
        w.step(input, 16, W, H);
        assert!(w.pipes.pairs.len() >= 1);
        frame += 1;
    }
}

#[test]
fn playing_frame_scrolls_the_world() {
    let mut w = World::new(W, H, 0);
    let mut input = idle();
    input.play_clicked = true;
    w.step(input, 16, W, H);
    let x0 = w.pipes.pairs[0].x;
    let cx0 = w.coins.coins[0].x;
    let cy0 = w.coins.coins[0].y;
    w.step(idle(), 16, W, H);
    // 300 px/s over 16 ms scrolls 4 whole pixels
    assert_eq!(w.pipes.pairs[0].x, x0 - 4);
    assert_eq!(w.coins.coins[0].x, cx0 - 4);
    assert_eq!(w.coins.coins[0].y, cy0);
}

#[test]
fn pause_toggles_and_suspends() {
    let mut w = World::new(W, H, 0);
    let mut input = idle();
    input.play_clicked = true;
    w.step(input, 16, W, H);
    assert_eq!(w.state, GameState::Playing);

    let mut pause = idle();
    pause.pause_clicked = true;
    w.step(pause, 16, W, H);
    assert_eq!(w.state, GameState::Paused);

    let bird_before = w.bird.y;
    w.step(idle(), 16, W, H);
    assert_eq!(w.state, GameState::Paused);
    assert_eq!(w.bird.y, bird_before);

    w.step(pause, 16, W, H);
    assert_eq!(w.state, GameState::Playing);
}

#[test]
fn pause_is_ignored_on_the_start_menu() {
    let mut w = World::new(W, H, 0);
    let mut pause = idle();
    pause.pause_clicked = true;
    w.step(pause, 16, W, H);
    assert_eq!(w.state, GameState::StartMenu);
}

#[test]
fn crash_ends_the_run_and_play_again_restarts() {
    let mut w = World::new(W, H, 0);
    let mut input = idle();
    input.play_clicked = true;
    w.step(input, 16, W, H);
    // never jump: the bird falls past the lower screen edge and crashes
    let mut frame: u64 = 0;
    while w.state == GameState::Playing && frame < 2000 {
        w.step(idle(), 16, W, H);
        frame += 1;
    }
    assert_eq!(w.state, GameState::GameOver);

    let mut again = idle();
    again.play_again_clicked = true;
    w.step(again, 16, W, H);
    assert_eq!(w.state, GameState::Playing);
    assert_eq!(w.stats.score, 0);
    assert_eq!(w.pipes.pairs.len(), 1);
}

#[test]
fn a_long_run_scores_and_persists() {
    let mut w = World::new(W, H, 2);
    let mut input = idle();
    input.play_clicked = true;
    w.step(input, 16, W, H);
    let mut persisted: Vec<u32> = Vec::new();
    let mut frame: u64 = 0;
    // hold the bird near the vertical center so only pipes could end the
    // run; the gap band is wide enough that a centered bird survives
    while w.state == GameState::Playing && frame < 30000 {
        let mut input = idle();
        if w.bird.y > H / 2 && !w.bird.jump_latched {
            input.jump_down = true;
        } else if w.bird.y <= H / 2 && w.bird.jump_latched {
            input.jump_released = true;
        }
        assert!(w.step_allowed(16, W, H));
        let mut p = w.step(input, 16, W, H);
        persisted.append(&mut p);
        frame += 1;
    }
    if w.stats.score > 2 {
        assert_eq!(w.stats.high_score, w.stats.score);
        assert_eq!(persisted.last().copied(), Some(w.stats.high_score));
    } else {
        assert_eq!(w.stats.high_score, 2);
        assert!(persisted.is_empty());
    }
}

#[test]
fn parse_reads_plain_digits() {
    assert_eq!(parse_high_score(b"51"), 51);
    assert_eq!(parse_high_score(b"0"), 0);
    assert_eq!(parse_high_score(b"4294967295"), u32::MAX);
}

#[test]
fn parse_trims_whitespace() {
    assert_eq!(parse_high_score(b" 51\n"), 51);
    assert_eq!(parse_high_score(b"\t\r123 "), 123);
}

#[test]
fn parse_accepts_one_leading_plus() {
    assert_eq!(parse_high_score(b"+7"), 7);
    assert_eq!(parse_high_score(b"++7"), 0);
    assert_eq!(parse_high_score(b"+"), 0);
}

#[test]
fn parse_defaults_to_zero_on_junk() {
    assert_eq!(parse_high_score(b""), 0);
    assert_eq!(parse_high_score(b"   "), 0);
    assert_eq!(parse_high_score(b"abc"), 0);
    assert_eq!(parse_high_score(b"12x"), 0);
    assert_eq!(parse_high_score(b"-5"), 0);
    assert_eq!(parse_high_score(b"4294967296"), 0);
    assert_eq!(parse_high_score(b"99999999999999999999"), 0);
}

#[test]
fn format_writes_decimal_digits() {
    assert_eq!(format_score(0), b"0".to_vec());
    assert_eq!(format_score(51), b"51".to_vec());
    assert_eq!(format_score(4294967295), b"4294967295".to_vec());
}

#[test]
fn format_and_parse_round_trip() {
    for v in [0u32, 1, 9, 10, 51, 99, 100, 12345, u32::MAX] {
        assert_eq!(parse_high_score(&format_score(v)), v);
    }
}
