use bracket_lib::prelude::RandomNumberGenerator;
use flappy::{
    GameMode, Generator, HighScore, Key, Obstacle, Player, PlayerError, Signal, State, FLAP_VELOCITY,
    MAX_GAP_SIZE, MAX_GAP_Y, MIN_GAP_SIZE, MIN_GAP_Y,
};

fn playing(player: Player, obstacles: Vec<Obstacle>, next_x: i32) -> State {
    State {
        player,
        frame_time: 0,
        mode: GameMode::Playing,
        obstacles,
        score: 0,
        feed: Generator::new(next_x),
        high_score: HighScore::new(),
        rng: RandomNumberGenerator::seeded(3),
    }
}

fn wall(x: i32) -> Obstacle {
    Obstacle { x, gap_y: 25, size: 10 }
}

fn xs(s: &State) -> Vec<i32> {
    s.obstacles.iter().map(|o| o.x).collect()
}

#[test]
fn new_session_opens_at_menu() {
    let s = State::new();
    assert_eq!(s.mode, GameMode::Menu);
    assert_eq!(s.player, Player::new(5, 25));
    assert_eq!(s.score, 0);
    assert_eq!(s.high_score.score, 0);
    assert_eq!(s.frame_time, 0);
}

#[test]
fn opening_obstacles_and_feed_continue_the_spacing() {
    let mut s = State::new();
    assert_eq!(xs(&s), vec![80, 120, 160]);
    assert_eq!(s.feed.next_x, 200);
    for o in &s.obstacles {
        assert!((MIN_GAP_Y..MAX_GAP_Y).contains(&o.gap_y));
        assert!((MIN_GAP_SIZE..MAX_GAP_SIZE).contains(&o.size));
    }
    assert_eq!(s.tick(0, Some(Key::Start), &vec![]), Signal::Restarted);
    s.tick(0, None, &vec![(30, 12)]);
    assert_eq!(xs(&s), vec![80, 120, 160, 200]);
    assert_eq!(s.obstacles[3], Obstacle { x: 200, gap_y: 30, size: 12 });
    assert_eq!(s.feed.next_x, 240);
}

#[test]
fn arrivals_keep_their_order() {
    let mut s = playing(Player::new(5, 25), vec![wall(80)], 120);
    s.play(0, None, &vec![(11, 10), (22, 13), (33, 19)]);
    assert_eq!(xs(&s), vec![80, 120, 160, 200]);
    let gaps: Vec<(i32, i32)> = s.obstacles.iter().map(|o| (o.gap_y, o.size)).collect();
    assert_eq!(gaps, vec![(25, 10), (11, 10), (22, 13), (33, 19)]);
}

#[test]
fn scoring_once_per_obstacle() {
    let mut s = playing(Player::new(100, 25), vec![wall(90), wall(130)], 170);
    s.play(0, None, &vec![]);
    assert_eq!(s.score, 1);
    assert_eq!(xs(&s), vec![130]);
    s.play(0, None, &vec![]);
    assert_eq!(s.score, 1);
    assert_eq!(xs(&s), vec![130]);
    assert_eq!(s.mode, GameMode::Playing);
}

#[test]
fn no_score_before_passing() {
    let mut s = playing(Player::new(100, 25), vec![wall(100), wall(140)], 180);
    s.play(0, None, &vec![]);
    assert_eq!(s.score, 0);
    assert_eq!(xs(&s), vec![100, 140]);
}

#[test]
fn culling_more_than_twenty_behind() {
    let mut s = playing(Player::new(100, 25), vec![wall(75), wall(120)], 160);
    s.play(0, None, &vec![]);
    assert_eq!(xs(&s), vec![120]);
    assert_eq!(s.score, 0);

    let mut s = playing(Player::new(100, 25), vec![wall(79), wall(120)], 160);
    s.play(0, None, &vec![]);
    assert_eq!(xs(&s), vec![120]);
    assert_eq!(s.score, 0);

}

#[test]
fn obstacle_exactly_twenty_behind_is_retained_then_scored() {
    let mut s = playing(Player::new(100, 25), vec![wall(80), wall(120)], 160);
    s.play(0, None, &vec![]);
    assert_eq!(xs(&s), vec![120]);
    assert_eq!(s.score, 1);

    let mut s = playing(Player::new(100, 25), vec![wall(80)], 120);
    s.play(0, None, &vec![]);
    assert!(s.obstacles.is_empty());
    assert_eq!(s.score, 1);
}

#[test]
fn obstacle_nineteen_behind_is_retained_then_scored() {
    let mut s = playing(Player::new(100, 25), vec![wall(81), wall(121)], 161);
    s.play(0, None, &vec![]);
    assert_eq!(s.score, 1);
    assert_eq!(xs(&s), vec![121]);
}

#[test]
fn physics_waits_for_the_frame_duration() {
    let mut s = playing(Player::new(5, 25), vec![], 80);
    s.play(50_000, None, &vec![]);
    assert_eq!(s.frame_time, 50_000);
    assert_eq!(s.player.x, 5);
    s.play(25_000, None, &vec![]);
    assert_eq!(s.frame_time, 75_000);
    assert_eq!(s.player.x, 5);
    s.play(1, None, &vec![]);
    assert_eq!(s.frame_time, 0);
    assert_eq!(s.player.x, 6);
    assert_eq!(s.player.velocity, 2);
}

#[test]
fn flap_applies_without_waiting() {
    let mut s = playing(Player::new(5, 25), vec![], 80);
    assert_eq!(s.tick(10, Some(Key::Flap), &vec![]), Signal::Continue);
    assert_eq!(s.player.velocity, FLAP_VELOCITY);
    assert_eq!(s.player.x, 5);
}

#[test]
fn refused_flap_is_reported() {
    let mut s = playing(Player { x: 5, y: 25, velocity: 60, alive: true }, vec![], 80);
    assert_eq!(s.tick(0, Some(Key::Flap), &vec![]), Signal::Refused(PlayerError::FallingTooFast));
    assert_eq!(s.player.velocity, 60);
}

#[test]
fn hitting_the_top_ends_the_game() {
    let mut s = playing(Player { x: 5, y: 0, velocity: -20, alive: true }, vec![], 80);
    s.play(80_000, None, &vec![]);
    assert_eq!(s.mode, GameMode::End);
    assert!(!s.player.is_alive());
    assert_eq!(s.player.y, 0);
}

#[test]
fn falling_below_the_screen_ends_the_game() {
    let mut s = playing(Player { x: 5, y: 50, velocity: 20, alive: true }, vec![], 80);
    s.play(80_000, None, &vec![]);
    assert_eq!(s.player.y, 52);
    assert_eq!(s.mode, GameMode::End);
    assert!(!s.player.is_alive());
}

#[test]
fn collision_ends_the_game() {
    let mut s = playing(Player::new(99, 5), vec![wall(100)], 140);
    s.play(80_000, None, &vec![]);
    assert_eq!(s.player.position(), (100, 5));
    assert_eq!(s.mode, GameMode::End);
}

#[test]
fn passing_through_the_gap_continues() {
    let mut s = playing(Player::new(99, 25), vec![wall(100)], 140);
    s.play(80_000, None, &vec![]);
    assert_eq!(s.player.position(), (100, 25));
    assert_eq!(s.mode, GameMode::Playing);
}

#[test]
fn restart_keeps_best_score() {
    let mut s = playing(Player { x: 5, y: 0, velocity: -20, alive: true }, vec![], 80);
    s.score = 7;
    s.high_score.score = 3;
    assert_eq!(s.tick(80_000, None, &vec![]), Signal::Continue);
    assert_eq!(s.mode, GameMode::End);
    assert_eq!(s.high_score.score, 7);
    assert_eq!(s.tick(0, Some(Key::Start), &vec![]), Signal::Restarted);
    assert_eq!(s.mode, GameMode::Playing);
    assert_eq!(s.score, 0);
    assert_eq!(s.high_score.score, 7);
    assert_eq!(s.player, Player::new(5, 25));
    assert_eq!(s.frame_time, 0);
    assert_eq!(xs(&s), vec![80, 120, 160]);
}

#[test]
fn best_score_never_decreases() {
    let mut s = playing(Player { x: 5, y: 0, velocity: -20, alive: true }, vec![], 80);
    s.score = 3;
    s.high_score.score = 10;
    s.play(80_000, None, &vec![]);
    assert_eq!(s.mode, GameMode::End);
    assert_eq!(s.high_score.score, 10);
}

#[test]
fn high_score_record() {
    let mut h = HighScore::new();
    h.record(4);
    assert_eq!(h.score, 4);
    h.record(2);
    assert_eq!(h.score, 4);
}

#[test]
fn menu_quit_and_idle() {
    let mut s = State::new();
    assert_eq!(s.tick(100, None, &vec![]), Signal::Continue);
    assert_eq!(s.tick(100, Some(Key::Flap), &vec![(20, 12)]), Signal::Continue);
    assert_eq!(s.mode, GameMode::Menu);
    assert_eq!(xs(&s), vec![80, 120, 160]);
    assert_eq!(s.tick(100, Some(Key::Quit), &vec![]), Signal::Quit);
    assert_eq!(s.mode, GameMode::Menu);
}

#[test]
fn end_screen_restarts_on_start() {
    let mut s = playing(Player::new(5, 25), vec![], 80);
    s.mode = GameMode::End;
    assert_eq!(s.menu_input(Some(Key::Quit)), Signal::Quit);
    assert_eq!(s.mode, GameMode::End);
    assert_eq!(s.menu_input(Some(Key::Start)), Signal::Restarted);
    assert_eq!(s.mode, GameMode::Playing);
}

#[test]
fn below_the_screen_ends_and_records_best() {
    let mut s = playing(Player::new(5, 51), vec![], 80);
    s.score = 7;
    s.high_score.score = 3;
    s.play(0, None, &vec![]);
    assert_eq!(s.mode, GameMode::End);
    assert_eq!(s.score, 7);
    assert_eq!(s.high_score.score, 7);
}

#[test]
fn frame_limits_are_checked() {
    let s = playing(Player::new(5, 25), vec![], 80);
    assert!(s.fits_play(3));
    assert!(!s.fits_play(usize::MAX));
    let s = playing(Player::new(i32::MAX, 25), vec![], 80);
    assert!(!s.fits_play(0));
    let s = playing(Player { x: 5, y: i32::MAX - 1, velocity: 20, alive: true }, vec![], 80);
    assert!(!s.fits_play(0));
    assert!(Player { x: i32::MAX, y: 0, velocity: 0, alive: false }.fits_advance());
}
