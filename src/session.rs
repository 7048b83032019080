use vstd::prelude::*;

use bracket_lib::prelude::RandomNumberGenerator;

use crate::obstacle::{placed, Generator, Obstacle, OBSTACLE_SPACING, SCREEN_HEIGHT, SCREEN_WIDTH};
use crate::player::{Player, PlayerError};
use crate::random::{roll_gap, MAX_GAP_SIZE, MAX_GAP_Y, MIN_GAP_SIZE, MIN_GAP_Y};

verus! {

/// Real time, in microseconds, that must pass before the next physics tick.
pub const FRAME_DURATION: u64 = 75000;

/// Obstacles more than this many columns behind the player are dropped.
pub const CULL_MARGIN: i32 = 20;

/// Where the player starts each game.
pub const START_X: i32 = 5;

pub const START_Y: i32 = 25;

/// How many obstacles are placed when a game starts.
pub const OPENING_OBSTACLES: usize = 3;

#[derive(Debug, Clone, Copy, PartialEq, Eq, Structural)]
pub enum GameMode {
    Menu,
    Playing,
    End,
}

/// One discrete input event of a frame.
#[derive(Debug, Clone, Copy, PartialEq, Eq, Structural)]
pub enum Key {
    Flap,
    Start,
    Quit,
}

/// What a frame asks of its driver.
#[derive(Debug, Clone, Copy, PartialEq, Eq, Structural)]
pub enum Signal {
    /// Nothing beyond drawing the new state.
    Continue,
    /// An impulse was refused, for the given reason.
    Refused(PlayerError),
    /// A new game began: obstacles from the earlier feed must be discarded.
    Restarted,
    /// The player asked to quit.
    Quit,
}

/// The best score of the process; it never decreases.
#[derive(Debug, Clone, Copy, PartialEq, Eq, Structural)]
pub struct HighScore {
    pub score: i32,
}

impl HighScore {
    pub fn new() -> (r: HighScore)
        ensures
            r.score == 0,
    {
        HighScore { score: 0 }
    }

    /// Keeps `score` if it beats the best so far.
    pub fn record(&mut self, score: i32)
        ensures
            final(self).score == if score > old(self).score { score } else { old(self).score },
            final(self).score >= old(self).score,
    {
        if score > self.score {
            self.score = score;
        }
    }
}

/// An obstacle that has not yet scrolled out behind a player at column `px`.
pub open spec fn survives(o: Obstacle, px: int) -> bool {
    o.x - px >= -CULL_MARGIN
}

/// The obstacles left after culling for a player at column `px`.
pub open spec fn kept(obs: Seq<Obstacle>, px: int) -> Seq<Obstacle> {
    obs.filter(|o: Obstacle| survives(o, px))
}

/// Score and obstacles after the front obstacle, if the player at column
/// `px` has passed it, is counted and removed.
pub open spec fn scored(score: int, obs: Seq<Obstacle>, px: int) -> (int, Seq<Obstacle>) {
    if obs.len() > 0 && px > obs[0].x {
        (score + 1, obs.drop_first())
    } else {
        (score, obs)
    }
}

/// Obstacles in world order, at least `OBSTACLE_SPACING` apart, all before
/// `next_x`, each with a gap.
pub open spec fn ordered(obs: Seq<Obstacle>, next_x: int) -> bool {
    &&& forall|i: int, j: int| 0 <= i < j < obs.len() ==> obs[i].x + OBSTACLE_SPACING <= obs[j].x
    &&& forall|i: int| 0 <= i < obs.len() ==> obs[i].x + OBSTACLE_SPACING <= next_x
    &&& forall|i: int| 0 <= i < obs.len() ==> obs[i].wf()
}

/// The obstacles a game opens with: one per spacing from the right edge of
/// the screen, each with a gap rolled in range.
pub open spec fn opening(obs: Seq<Obstacle>) -> bool {
    &&& obs.len() == OPENING_OBSTACLES
    &&& forall|i: int|
        0 <= i < obs.len() ==> {
            &&& #[trigger] obs[i].x == SCREEN_WIDTH + OBSTACLE_SPACING * i
            &&& MIN_GAP_Y <= obs[i].gap_y < MAX_GAP_Y
            &&& MIN_GAP_SIZE <= obs[i].size < MAX_GAP_SIZE
        }
}

/// Rolled gaps, as (centre row, size), that each have a size.
pub open spec fn rolls_wf(rolls: Seq<(i32, i32)>) -> bool {
    forall|i: int| 0 <= i < rolls.len() ==> rolls[i].1 > 0
}

/// Culling a sorted sequence drops exactly the prefix that does not survive.
proof fn lemma_kept_suffix(s: Seq<Obstacle>, px: int, k: int)
    requires
        0 <= k <= s.len(),
        forall|i: int| 0 <= i < k ==> !survives(s[i], px),
        forall|i: int| k <= i < s.len() ==> survives(s[i], px),
    ensures
        kept(s, px) == s.skip(k),
    decreases s.len(),
{
    if s.len() == 0 {
        assert(s.skip(k) =~= s);
    } else {
        let d = s.drop_last();
        assert forall|i: int| 0 <= i < d.len() implies d[i] == s[i] by {}
        let last = s.last();
        reveal(Seq::filter);
        assert(kept(s, px) == if survives(last, px) {
            kept(d, px).push(last)
        } else {
            kept(d, px)
        });
        if k == s.len() {
            assert(!survives(s[s.len() - 1], px));
            lemma_kept_suffix(d, px, k - 1);
            assert(s.skip(k) =~= d.skip(k - 1));
        } else {
            assert(survives(s[s.len() - 1], px));
            lemma_kept_suffix(d, px, k);
            assert(s.skip(k) =~= d.skip(k).push(last));
        }
    }
}

/// Where culling cuts an ordered sequence: before it nothing survives, from
/// it on everything does.
proof fn lemma_cull_point(obs: Seq<Obstacle>, next_x: int, px: int) -> (c: int)
    requires
        ordered(obs, next_x),
    ensures
        0 <= c <= obs.len(),
        forall|i: int| 0 <= i < c ==> !survives(obs[i], px),
        forall|i: int| c <= i < obs.len() ==> survives(obs[i], px),
        kept(obs, px) == obs.skip(c),
    decreases obs.len(),
{
    if obs.len() == 0 {
        lemma_kept_suffix(obs, px, 0);
        0
    } else {
        let d = obs.drop_last();
        assert(ordered(d, next_x));
        let c0 = lemma_cull_point(d, next_x, px);
        let c = if c0 == d.len() && !survives(obs.last(), px) {
            obs.len() as int
        } else {
            c0
        };
        assert forall|i: int| 0 <= i < d.len() implies d[i] == obs[i] by {}
        if c0 < d.len() {
            assert(obs[c0].x <= obs[obs.len() - 1].x);
        }
        assert forall|i: int| 0 <= i < c implies !survives(obs[i], px) by {
            if i < d.len() {
                assert(d[i] == obs[i]);
            }
        }
        assert forall|i: int| c <= i < obs.len() implies survives(obs[i], px) by {
            if i < d.len() {
                assert(d[i] == obs[i]);
            }
        }
        lemma_kept_suffix(obs, px, c);
        c
    }
}

/// Culled and then scored for the same player column, the obstacles lose at
/// most their front one: doing both again counts and removes nothing more.
pub proof fn lemma_scores_once(obs: Seq<Obstacle>, next_x: int, score: int, px: int)
    requires
        ordered(obs, next_x),
    ensures
        ({
            let once = scored(score, kept(obs, px), px);
            scored(once.0, kept(once.1, px), px) == once
        }),
{
    let c = lemma_cull_point(obs, next_x, px);
    let k = obs.skip(c);
    let once = scored(score, k, px);
    if k.len() > 0 && px > k[0].x {
        let rest = k.drop_first();
        lemma_kept_suffix(rest, px, 0);
        assert(rest.skip(0) =~= rest);
        if rest.len() > 0 {
            assert(rest[0] == obs[c + 1]);
            assert(obs[c].x + OBSTACLE_SPACING <= obs[c + 1].x);
        }
    } else {
        lemma_kept_suffix(k, px, 0);
        assert(k.skip(0) =~= k);
    }
}

/// After a restart the feed continues the opening obstacles' spacing: the
/// `k`-th rolled gap to arrive is placed at column
/// `SCREEN_WIDTH + OBSTACLE_SPACING * (OPENING_OBSTACLES + k)`.
pub proof fn lemma_feed_continues(s: State, next: State, rolls: Seq<(i32, i32)>)
    requires
        s.restarted(next),
        next.feed.next_x + OBSTACLE_SPACING * rolls.len() <= i32::MAX,
    ensures
        forall|k: int|
            0 <= k < rolls.len() ==> #[trigger] placed(next.feed.next_x as int, rolls)[k].x
                == SCREEN_WIDTH + OBSTACLE_SPACING * (OPENING_OBSTACLES + k),
{
}

/// Drops the obstacles that have scrolled more than `CULL_MARGIN` columns
/// behind the player at column `px`.
fn cull(obstacles: &mut Vec<Obstacle>, px: i32, Ghost(next_x): Ghost<int>)
    requires
        ordered(old(obstacles)@, next_x),
    ensures
        final(obstacles)@ == kept(old(obstacles)@, px as int),
        ordered(final(obstacles)@, next_x),
{
    let n = obstacles.len();
    let mut k: usize = 0;
    while k < n && (obstacles[k].x as i64) - (px as i64) < -(CULL_MARGIN as i64)
        invariant
            k <= n == obstacles.len(),
            forall|i: int| 0 <= i < k ==> !survives(obstacles@[i], px as int),
        decreases n - k,
    {
        k = k + 1;
    }
    let mut rest: Vec<Obstacle> = Vec::new();
    let mut i: usize = k;
    while i < n
        invariant
            k <= i <= n == obstacles.len(),
            rest@ == obstacles@.subrange(k as int, i as int),
        decreases n - i,
    {
        rest.push(obstacles[i]);
        i = i + 1;
    }
    proof {
        assert forall|j: int| k <= j < n implies survives(obstacles@[j], px as int) by {
            assert(obstacles@[k as int].x <= obstacles@[j].x);
        }
        lemma_kept_suffix(obstacles@, px as int, k as int);
    }
    *obstacles = rest;
}

/// Counts and removes the front obstacle once the player at `px` has passed it.
fn score_front(obstacles: &mut Vec<Obstacle>, score: &mut i32, px: i32)
    requires
        *old(score) < i32::MAX,
    ensures
        (*final(score) as int, final(obstacles)@) == scored(*old(score) as int, old(obstacles)@, px as int),
{
    if obstacles.len() > 0 && px > obstacles[0].x {
        *score = *score + 1;
        obstacles.remove(0);
        assert(obstacles@ =~= old(obstacles)@.drop_first());
    }
}

/// Places each rolled gap at the feed's next column, in order.
fn take_arrivals(obstacles: &mut Vec<Obstacle>, feed: &mut Generator, arrivals: &Vec<(i32, i32)>)
    requires
        old(feed).next_x + OBSTACLE_SPACING * arrivals.len() <= i32::MAX,
        rolls_wf(arrivals@),
        ordered(old(obstacles)@, old(feed).next_x as int),
    ensures
        final(obstacles)@ == old(obstacles)@ + placed(old(feed).next_x as int, arrivals@),
        final(feed).next_x == old(feed).next_x + OBSTACLE_SPACING * arrivals.len(),
        ordered(final(obstacles)@, final(feed).next_x as int),
{
    let ghost start = feed.next_x as int;
    let ghost before = obstacles@;
    let mut i: usize = 0;
    while i < arrivals.len()
        invariant
            i <= arrivals.len(),
            feed.next_x == start + OBSTACLE_SPACING * i,
            start + OBSTACLE_SPACING * arrivals.len() <= i32::MAX,
            rolls_wf(arrivals@),
            obstacles@ == before + placed(start, arrivals@).take(i as int),
            ordered(obstacles@, feed.next_x as int),
        decreases arrivals.len() - i,
    {
        let (gap_y, size) = arrivals[i];
        let o = feed.place(gap_y, size);
        obstacles.push(o);
        i = i + 1;
        assert(obstacles@ =~= before + placed(start, arrivals@).take(i as int));
    }
    assert(placed(start, arrivals@).take(i as int) =~= placed(start, arrivals@));
}

/// Whether any of the obstacles hits the player.
fn any_hit(obstacles: &Vec<Obstacle>, player: &Player) -> (r: bool)
    requires
        forall|i: int| 0 <= i < obstacles.len() ==> obstacles@[i].wf(),
    ensures
        r == exists|i: int| 0 <= i < obstacles.len() && obstacles@[i].hits(*player),
{
    let mut i: usize = 0;
    while i < obstacles.len()
        invariant
            i <= obstacles.len(),
            forall|j: int| 0 <= j < obstacles.len() ==> obstacles@[j].wf(),
            forall|j: int| 0 <= j < i ==> !obstacles@[j].hits(*player),
        decreases obstacles.len() - i,
    {
        if obstacles[i].hit_obstacle(player) {
            return true;
        }
        i = i + 1;
    }
    false
}

/// The opening obstacles, placed by a fresh feed from the right edge of the
/// screen, and that feed.
fn opening_obstacles(rng: &mut RandomNumberGenerator) -> (r: (Vec<Obstacle>, Generator))
    ensures
        opening(r.0@),
        r.1.next_x == SCREEN_WIDTH + OBSTACLE_SPACING * OPENING_OBSTACLES,
        ordered(r.0@, r.1.next_x as int),
{
    let mut feed = Generator::new(SCREEN_WIDTH);
    let mut obstacles: Vec<Obstacle> = Vec::new();
    let mut i: usize = 0;
    while i < OPENING_OBSTACLES
        invariant
            i <= OPENING_OBSTACLES,
            obstacles.len() == i,
            feed.next_x == SCREEN_WIDTH + OBSTACLE_SPACING * i,
            forall|j: int|
                0 <= j < i ==> {
                    &&& #[trigger] obstacles@[j].x == SCREEN_WIDTH + OBSTACLE_SPACING * j
                    &&& MIN_GAP_Y <= obstacles@[j].gap_y < MAX_GAP_Y
                    &&& MIN_GAP_SIZE <= obstacles@[j].size < MAX_GAP_SIZE
                },
            ordered(obstacles@, feed.next_x as int),
        decreases OPENING_OBSTACLES - i,
    {
        let (gap_y, size) = roll_gap(rng);
        let o = feed.place(gap_y, size);
        obstacles.push(o);
        i = i + 1;
    }
    (obstacles, feed)
}

/// A play session: the game mode, the player, the obstacles ahead, the score
/// and the feed that places the obstacles still to come.
///
/// `frame_time` accumulates real time in microseconds until the next physics
/// tick; `rng` rolls the gaps of the opening obstacles.
pub struct State {
    pub player: Player,
    pub frame_time: u64,
    pub mode: GameMode,
    pub obstacles: Vec<Obstacle>,
    pub score: i32,
    pub feed: Generator,
    pub high_score: HighScore,
    pub rng: RandomNumberGenerator,
}

impl State {
    pub open spec fn wf(self) -> bool {
        &&& self.frame_time <= FRAME_DURATION
        &&& ordered(self.obstacles@, self.feed.next_x as int)
        &&& self.mode == GameMode::Playing ==> {
            &&& self.player.alive
            &&& 0 <= self.player.y
        }
    }

    /// A frame of play stays within the range of `i32` with `n` arrivals.
    pub open spec fn can_play(self, n: int) -> bool {
        &&& self.player.can_advance()
        &&& self.score < i32::MAX
        &&& self.feed.next_x + OBSTACLE_SPACING * n <= i32::MAX
    }

    /// Whether `elapsed` more microseconds bring a physics tick.
    pub open spec fn ticks(self, elapsed: u32) -> bool {
        self.frame_time + elapsed > FRAME_DURATION
    }

    /// The player after the physics tick of this frame, if there is one, and
    /// whether its move went through.
    pub open spec fn moved(self, elapsed: u32) -> (Player, bool) {
        if self.ticks(elapsed) {
            self.player.advanced()
        } else {
            (self.player, true)
        }
    }

    /// The player after the physics tick and the frame's impulse, if any.
    pub open spec fn steered(self, elapsed: u32, key: Option<Key>) -> Player {
        let p = self.moved(elapsed).0;
        if key == Some(Key::Flap) {
            match p.flapped() {
                Ok(q) => q,
                Err(_) => p,
            }
        } else {
            p
        }
    }

    /// Whether a frame of play with `n` arrivals stays within `i32`.
    pub fn fits_play(&self, n: usize) -> (r: bool)
        ensures
            r == self.can_play(n as int),
    {
        let next_fits = if n > i32::MAX as usize {
            false
        } else {
            (self.feed.next_x as i64) + (OBSTACLE_SPACING as i64) * (n as i64) <= i32::MAX as i64
        };
        self.player.fits_advance() && self.score < i32::MAX && next_fits
    }

    /// Why the impulse of this frame is refused, if there is one and it is.
    pub open spec fn refusal(self, elapsed: u32, key: Option<Key>) -> Option<PlayerError> {
        if key == Some(Key::Flap) {
            match self.moved(elapsed).0.flapped() {
                Ok(_) => None,
                Err(e) => Some(e),
            }
        } else {
            None
        }
    }

    /// `next` is `self` after one frame of play with `elapsed` microseconds,
    /// input `key` and the gaps `arrivals` rolled since the last frame.
    ///
    /// The frame runs the physics tick when the accumulated time exceeds
    /// `FRAME_DURATION`, applies an impulse, culls, scores the front obstacle,
    /// places the arrivals, and ends the game when the move was blocked, the
    /// player fell below the screen or an obstacle hits it.
    pub open spec fn played(self, next: State, elapsed: u32, key: Option<Key>, arrivals: Seq<(i32, i32)>) -> bool {
        let p = self.steered(elapsed, key);
        let sc = scored(self.score as int, kept(self.obstacles@, p.x as int), p.x as int);
        let obs = sc.1 + placed(self.feed.next_x as int, arrivals);
        let ended = !self.moved(elapsed).1 || p.y > SCREEN_HEIGHT || exists|i: int|
            0 <= i < obs.len() && obs[i].hits(p);
        &&& next.frame_time == if self.ticks(elapsed) { 0 } else { self.frame_time + elapsed }
        &&& next.score == sc.0
        &&& next.obstacles@ == obs
        &&& next.feed.next_x == self.feed.next_x + OBSTACLE_SPACING * arrivals.len()
        &&& next.mode == if ended { GameMode::End } else { GameMode::Playing }
        &&& next.player == if ended { Player { alive: false, ..p } } else { p }
        &&& next.high_score.score == if ended && sc.0 > self.high_score.score {
            sc.0
        } else {
            self.high_score.score as int
        }
    }

    /// `next` is a fresh game: the player at the start, nothing accumulated,
    /// score 0, the opening obstacles, and the best score of `self`.
    pub open spec fn restarted(self, next: State) -> bool {
        &&& next.player == (Player { x: START_X, y: START_Y, velocity: 0, alive: true })
        &&& next.frame_time == 0
        &&& next.mode == GameMode::Playing
        &&& next.score == 0
        &&& opening(next.obstacles@)
        &&& next.feed.next_x == SCREEN_WIDTH + OBSTACLE_SPACING * OPENING_OBSTACLES
        &&& next.high_score == self.high_score
    }

    /// A session at the menu, its opening obstacles placed, best score 0.
    pub fn new() -> (r: State)
        ensures
            r.wf(),
            r.mode == GameMode::Menu,
            r.player == (Player { x: START_X, y: START_Y, velocity: 0, alive: true }),
            r.frame_time == 0,
            r.score == 0,
            opening(r.obstacles@),
            r.feed.next_x == SCREEN_WIDTH + OBSTACLE_SPACING * OPENING_OBSTACLES,
            r.high_score.score == 0,
    {
        let mut rng = RandomNumberGenerator::new();
        let (obstacles, feed) = opening_obstacles(&mut rng);
        State {
            player: Player::new(START_X, START_Y),
            frame_time: 0,
            mode: GameMode::Menu,
            obstacles,
            score: 0,
            feed,
            high_score: HighScore::new(),
            rng,
        }
    }

    /// Starts a new game, keeping only the best score.
    pub fn restart(&mut self)
        ensures
            old(self).restarted(*final(self)),
            final(self).wf(),
    {
        self.player = Player::new(START_X, START_Y);
        self.frame_time = 0;
        self.mode = GameMode::Playing;
        self.score = 0;
        let (obstacles, feed) = opening_obstacles(&mut self.rng);
        self.obstacles = obstacles;
        self.feed = feed;
    }

    /// One frame of play; returns the reason an impulse of this frame was
    /// refused, if it was.
    pub fn play(&mut self, elapsed: u32, key: Option<Key>, arrivals: &Vec<(i32, i32)>) -> (r: Option<PlayerError>)
        requires
            old(self).wf(),
            old(self).mode == GameMode::Playing,
            old(self).can_play(arrivals.len() as int),
            rolls_wf(arrivals@),
        ensures
            old(self).played(*final(self), elapsed, key, arrivals@),
            r == old(self).refusal(elapsed, key),
            final(self).wf(),
    {
        let mut blocked = false;
        self.frame_time = self.frame_time + elapsed as u64;
        if self.frame_time > FRAME_DURATION {
            self.frame_time = 0;
            if self.player.try_move().is_none() {
                blocked = true;
            }
        }
        let mut refused = None;
        match key {
            Some(Key::Flap) => {
                match self.player.flap() {
                    Ok(()) => {},
                    Err(e) => {
                        refused = Some(e);
                    },
                }
            },
            _ => {},
        }
        let px = self.player.x;
        cull(&mut self.obstacles, px, Ghost(self.feed.next_x as int));
        score_front(&mut self.obstacles, &mut self.score, px);
        take_arrivals(&mut self.obstacles, &mut self.feed, arrivals);
        let crashed = self.player.y > SCREEN_HEIGHT || any_hit(&self.obstacles, &self.player);
        assert(self.player == old(self).steered(elapsed, key));
        assert(blocked == !old(self).moved(elapsed).1);
        let ghost p = self.player;
        let ghost sc = scored(old(self).score as int, kept(old(self).obstacles@, p.x as int), p.x as int);
        assert(self.obstacles@ == sc.1 + placed(old(self).feed.next_x as int, arrivals@));
        assert(self.score == sc.0);
        if blocked || crashed {
            self.mode = GameMode::End;
            self.player.kill();
            self.high_score.record(self.score);
        }
        assert(self.mode == GameMode::End <==> (blocked || crashed));
        refused
    }

    /// Input on the menu or the end screen: start a new game, or quit.
    pub fn menu_input(&mut self, key: Option<Key>) -> (r: Signal)
        ensures
            key == Some(Key::Start) ==> r == Signal::Restarted && old(self).restarted(*final(self)),
            key == Some(Key::Quit) ==> r == Signal::Quit && *final(self) == *old(self),
            key != Some(Key::Start) && key != Some(Key::Quit) ==> r == Signal::Continue
                && *final(self) == *old(self),
            old(self).wf() ==> final(self).wf(),
    {
        match key {
            Some(Key::Start) => {
                self.restart();
                Signal::Restarted
            },
            Some(Key::Quit) => Signal::Quit,
            _ => Signal::Continue,
        }
    }

    /// One frame of the session in its current mode.
    ///
    /// On the menu and the end screen only `Key::Start` and `Key::Quit` count;
    /// while playing, the frame is `play`, whose refused impulse is reported
    /// as `Signal::Refused`. The best score never decreases.
    pub fn tick(&mut self, elapsed: u32, key: Option<Key>, arrivals: &Vec<(i32, i32)>) -> (r: Signal)
        requires
            old(self).wf(),
            old(self).mode == GameMode::Playing ==> old(self).can_play(arrivals.len() as int),
            rolls_wf(arrivals@),
        ensures
            final(self).wf(),
            final(self).high_score.score >= old(self).high_score.score,
            old(self).mode == GameMode::Playing ==> {
                &&& old(self).played(*final(self), elapsed, key, arrivals@)
                &&& r == match old(self).refusal(elapsed, key) {
                    Some(e) => Signal::Refused(e),
                    None => Signal::Continue,
                }
            },
            old(self).mode != GameMode::Playing ==> {
                &&& key == Some(Key::Start) ==> r == Signal::Restarted && old(self).restarted(*final(self))
                &&& key == Some(Key::Quit) ==> r == Signal::Quit && *final(self) == *old(self)
                &&& key != Some(Key::Start) && key != Some(Key::Quit) ==> r == Signal::Continue
                    && *final(self) == *old(self)
            },
    {
        match self.mode {
            GameMode::Menu => self.menu_input(key),
            GameMode::Playing => {
                match self.play(elapsed, key, arrivals) {
                    Some(e) => Signal::Refused(e),
                    None => Signal::Continue,
                }
            },
            GameMode::End => self.menu_input(key),
        }
    }
}

} // verus!
