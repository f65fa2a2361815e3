use vstd::prelude::*;

use crate::obstacle::{Obstacle, SpawnRoll, MIN_GAP};
use crate::player::Player;

verus! {

/// Width of the play field in cells.
pub const SCREEN_WIDTH: i32 = 80;

/// Height of the play field in cells; falling below it ends the game.
pub const SCREEN_HEIGHT: i32 = 50;

/// Time between physics steps, in microseconds.
pub const FRAME_DURATION_US: u64 = 100_000;

/// Spawn interval at the start of a game, in microseconds.
pub const START_INTERVAL_US: u64 = 200_000;

/// Shortest spawn interval, in microseconds.
pub const MIN_INTERVAL_US: u64 = 150_000;

/// How much each spawn event shortens the spawn interval, in microseconds.
pub const INTERVAL_STEP_US: u64 = 1_000;

/// Where the player starts.
pub const START_X: i32 = 5;
pub const START_Y: i32 = 25;

/// Bound on positions for which a frame is guaranteed to stay within `i32`.
pub const POSITION_LIMIT: i32 = 1_000_000_000;

/// Bound on the score for which a frame is guaranteed to stay within `i32`.
pub const SCORE_LIMIT: i32 = 1_000_000;

/// Bound on obstacle velocities for which a frame stays within `i32`.
pub const VELOCITY_LIMIT: i64 = 1_000_000_000;

/// Which per-frame routine runs.
#[derive(Clone, Copy, Debug, PartialEq, Eq, Structural)]
pub enum GameMode {
    Menu,
    Playing,
    End,
}

/// The key pressed during a frame, if any.
#[derive(Clone, Copy, Debug, PartialEq, Eq, Structural)]
pub enum Key {
    /// Flap while playing.
    Space,
    /// Start or restart a game from the menu or the end screen.
    P,
    /// Quit from the menu or the end screen.
    Q,
    /// Any other key; ignored.
    Other,
}

/// The whole game.
pub struct State {
    pub player: Player,
    /// Time accumulated toward the next physics step (microseconds).
    pub frame_time: u64,
    /// Obstacles in order of creation.
    pub obstacles: Vec<Obstacle>,
    pub score: i32,
    pub mode: GameMode,
    /// Time accumulated toward the next spawn event (microseconds).
    pub obstacle_timer: u64,
    /// Time that must pass between spawn events (microseconds).
    pub obstacle_interval: u64,
}

/// The game as a mathematical value.
pub struct GameModel {
    pub player: Player,
    pub frame_time: int,
    pub obstacles: Seq<Obstacle>,
    pub score: int,
    pub mode: GameMode,
    pub obstacle_timer: int,
    pub obstacle_interval: int,
}

impl View for State {
    type V = GameModel;

    open spec fn view(&self) -> GameModel {
        GameModel {
            player: self.player,
            frame_time: self.frame_time as int,
            obstacles: self.obstacles@,
            score: self.score as int,
            mode: self.mode,
            obstacle_timer: self.obstacle_timer as int,
            obstacle_interval: self.obstacle_interval as int,
        }
    }
}

/// The obstacles of `s` lying strictly right of `min_x`, in order.
pub open spec fn retained(s: Seq<Obstacle>, min_x: int) -> Seq<Obstacle>
    decreases s.len(),
{
    if s.len() == 0 {
        Seq::empty()
    } else {
        let rest = retained(s.drop_last(), min_x);
        if s.last().x > min_x { rest.push(s.last()) } else { rest }
    }
}

/// Every property that holds of each obstacle of `s` holds of each one that
/// `retained` keeps.
pub proof fn lemma_retained_keeps(s: Seq<Obstacle>, min_x: int, p: spec_fn(Obstacle) -> bool)
    requires
        forall|i: int| 0 <= i < s.len() ==> #[trigger] p(s[i]),
    ensures
        forall|i: int| 0 <= i < retained(s, min_x).len() ==> #[trigger] p(retained(s, min_x)[i]),
        forall|i: int| 0 <= i < retained(s, min_x).len() ==> retained(s, min_x)[i].x > min_x,
    decreases s.len(),
{
    if s.len() > 0 {
        let d = s.drop_last();
        assert forall|i: int| 0 <= i < d.len() implies #[trigger] p(d[i]) by {
            assert(d[i] == s[i]);
        }
        lemma_retained_keeps(d, min_x, p);
        let r = retained(d, min_x);
        if s.last().x > min_x {
            assert(p(s[s.len() - 1]));
            assert forall|i: int| 0 <= i < r.len() + 1 implies #[trigger] p(r.push(s.last())[i])
                && r.push(s.last())[i].x > min_x by {
                if i < r.len() {
                    assert(r.push(s.last())[i] == r[i]);
                }
            }
        }
    }
}

/// Whether some obstacle of `s` collides with `p`.
pub open spec fn crash(s: Seq<Obstacle>, p: Player) -> bool {
    exists|i: int| 0 <= i < s.len() && #[trigger] s[i].hits(p)
}

/// Whether `p` has fallen below the field.
pub open spec fn fallen(p: Player) -> bool {
    p.y > SCREEN_HEIGHT
}

impl GameModel {
    /// What holds in every reachable state.
    pub open spec fn wf(self) -> bool {
        &&& self.player.y >= 0
        &&& self.score >= 0
        &&& 0 <= self.frame_time <= FRAME_DURATION_US
        &&& MIN_INTERVAL_US <= self.obstacle_interval <= START_INTERVAL_US
        &&& 0 <= self.obstacle_timer <= self.obstacle_interval
        &&& forall|i: int| 0 <= i < self.obstacles.len() ==> #[trigger] self.obstacles[i].size >= MIN_GAP
    }

    /// Positions, velocities and score small enough that a frame cannot leave
    /// the range of the machine integers.
    pub open spec fn within_limits(self) -> bool {
        &&& 0 <= self.player.x <= POSITION_LIMIT
        &&& self.player.y <= POSITION_LIMIT
        &&& self.score <= SCORE_LIMIT
        &&& forall|i: int| 0 <= i < self.obstacles.len() ==> {
            &&& -POSITION_LIMIT <= #[trigger] self.obstacles[i].x <= POSITION_LIMIT
            &&& -VELOCITY_LIMIT <= self.obstacles[i].x_velocity <= VELOCITY_LIMIT
        }
    }

    /// The state a new game starts in: the menu, with nothing spawned yet.
    pub open spec fn initial() -> GameModel {
        GameModel {
            player: Player { x: START_X, y: START_Y, velocity: 0 },
            frame_time: 0,
            obstacles: Seq::empty(),
            score: 0,
            mode: GameMode::Menu,
            obstacle_timer: 0,
            obstacle_interval: START_INTERVAL_US as int,
        }
    }

    /// A fresh game in play; the spawn timer starts full so that the first
    /// frame may spawn at once.
    pub open spec fn restarted(self) -> GameModel {
        GameModel {
            player: Player { x: START_X, y: START_Y, velocity: 0 },
            frame_time: 0,
            obstacles: Seq::empty(),
            score: 0,
            mode: GameMode::Playing,
            obstacle_timer: START_INTERVAL_US as int,
            obstacle_interval: START_INTERVAL_US as int,
        }
    }

    /// Timers advanced by `elapsed`; a physics step once the frame timer
    /// passes `FRAME_DURATION_US`.
    pub open spec fn clocked(self, elapsed: int) -> GameModel {
        let ft = self.frame_time + elapsed;
        let ot = self.obstacle_timer + elapsed;
        if ft > FRAME_DURATION_US {
            GameModel { frame_time: 0, obstacle_timer: ot, player: self.player.stepped(), ..self }
        } else {
            GameModel { frame_time: ft, obstacle_timer: ot, ..self }
        }
    }

    pub open spec fn with_flap(self, flap: bool) -> GameModel {
        if flap {
            GameModel { player: self.player.flapped(), ..self }
        } else {
            self
        }
    }

    /// Where the next obstacle goes relative to: the last obstacle, or the
    /// player when there is none.
    pub open spec fn spawn_ref_x(self) -> int {
        if self.obstacles.len() > 0 {
            self.obstacles.last().x as int
        } else {
            self.player.x as int
        }
    }

    /// The spawn event, once the spawn timer passes the spawn interval: an
    /// obstacle a screen ahead of the player if the reference lies less than
    /// half a screen ahead, then in any case one a screen past the reference.
    pub open spec fn spawned(self, fresh: SpawnRoll, follow: SpawnRoll) -> GameModel {
        if self.obstacle_timer > self.obstacle_interval {
            let r = self.spawn_ref_x();
            let ahead = if r < self.player.x + SCREEN_WIDTH / 2 {
                seq![Obstacle::spawned(self.player.x + SCREEN_WIDTH, self.score, fresh)]
            } else {
                Seq::empty()
            };
            let next = Obstacle::spawned(r + SCREEN_WIDTH, self.score, follow);
            let interval = self.obstacle_interval - INTERVAL_STEP_US;
            GameModel {
                obstacles: self.obstacles + ahead + seq![next],
                obstacle_timer: 0,
                obstacle_interval: if interval < MIN_INTERVAL_US { MIN_INTERVAL_US as int } else { interval },
                ..self
            }
        } else {
            self
        }
    }

    /// Obstacles a full screen or more behind the player are dropped.
    pub open spec fn culled(self) -> GameModel {
        GameModel { obstacles: retained(self.obstacles, self.player.x - SCREEN_WIDTH), ..self }
    }

    /// Every obstacle scrolls; a collision with one of them, or a fall below
    /// the field, ends the game.
    pub open spec fn scrolled(self) -> GameModel {
        let moved = self.obstacles.map_values(|o: Obstacle| o.moved());
        GameModel {
            obstacles: moved,
            mode: if crash(moved, self.player) || fallen(self.player) { GameMode::End } else { self.mode },
            ..self
        }
    }

    /// Passing the first obstacle's center scores a point and drops it.
    pub open spec fn credited(self) -> GameModel {
        if self.obstacles.len() > 0 && self.player.x > self.obstacles[0].x + self.obstacles[0].half_gap() {
            GameModel { score: self.score + 1, obstacles: self.obstacles.drop_first(), ..self }
        } else {
            self
        }
    }

    /// One frame of play.
    pub open spec fn played(self, elapsed: int, flap: bool, fresh: SpawnRoll, follow: SpawnRoll) -> GameModel {
        self.clocked(elapsed).with_flap(flap).spawned(fresh, follow).culled().scrolled().credited()
    }

    /// Whether `key` asks to leave the program in this state.
    pub open spec fn quits(self, key: Option<Key>) -> bool {
        self.mode != GameMode::Playing && key == Some(Key::Q)
    }

    /// One frame in whatever mode the game is in.
    pub open spec fn ticked(self, elapsed: int, key: Option<Key>, fresh: SpawnRoll, follow: SpawnRoll) -> GameModel {
        if self.mode == GameMode::Playing {
            self.played(elapsed, key == Some(Key::Space), fresh, follow)
        } else if key == Some(Key::P) {
            self.restarted()
        } else {
            self
        }
    }
}

/// The spawn interval after `k` spawn events since a restart: one
/// `INTERVAL_STEP_US` shorter per event, never below `MIN_INTERVAL_US`.
pub open spec fn interval_after(k: nat) -> int {
    let i = START_INTERVAL_US - k * INTERVAL_STEP_US;
    if i < MIN_INTERVAL_US { MIN_INTERVAL_US as int } else { i }
}

/// A restart sets the spawn interval to its value after no spawn event.
pub proof fn restart_interval(m: GameModel)
    ensures
        m.restarted().obstacle_interval == interval_after(0),
{
}

/// Over a frame of play the spawn interval moves from its value after `k`
/// spawn events to its value after `k + 1` when the spawn timer passes it,
/// and otherwise stays, with no obstacle added and the timer grown by the
/// elapsed time. By induction over frames, after `k` spawn events since a
/// restart the interval is `interval_after(k)`.
pub proof fn spawn_interval_step(
    m: GameModel,
    k: nat,
    elapsed: int,
    flap: bool,
    fresh: SpawnRoll,
    follow: SpawnRoll,
)
    requires
        m.obstacle_interval == interval_after(k),
    ensures
        m.obstacle_timer + elapsed > m.obstacle_interval ==> {
            &&& m.played(elapsed, flap, fresh, follow).obstacle_interval == interval_after(k + 1)
            &&& m.clocked(elapsed).with_flap(flap).spawned(fresh, follow).obstacle_timer == 0
        },
        m.obstacle_timer + elapsed <= m.obstacle_interval ==> {
            &&& m.played(elapsed, flap, fresh, follow).obstacle_interval == interval_after(k)
            &&& m.played(elapsed, flap, fresh, follow).obstacle_timer == m.obstacle_timer + elapsed
            &&& m.clocked(elapsed).with_flap(flap).spawned(fresh, follow).obstacles == m.obstacles
        },
{
}

/// Whether `o` lies in `[-POSITION_LIMIT, hi]`, has a velocity within
/// `VELOCITY_LIMIT` and a gap of at least `MIN_GAP`.
pub open spec fn obstacle_bounded(o: Obstacle, hi: int) -> bool {
    &&& -POSITION_LIMIT <= o.x <= hi
    &&& -VELOCITY_LIMIT <= o.x_velocity <= VELOCITY_LIMIT
    &&& o.size >= MIN_GAP
}

/// The obstacles lying strictly right of `min_x`, in order.
fn retain_ahead(obstacles: &Vec<Obstacle>, min_x: i64) -> (r: Vec<Obstacle>)
    ensures
        r@ == retained(obstacles@, min_x as int),
{
    let mut kept: Vec<Obstacle> = Vec::new();
    let mut i: usize = 0;
    while i < obstacles.len()
        invariant
            i <= obstacles.len(),
            kept@ == retained(obstacles@.subrange(0, i as int), min_x as int),
        decreases obstacles.len() - i,
    {
        let o = obstacles[i];
        proof {
            let next = obstacles@.subrange(0, i + 1);
            assert(next.drop_last() =~= obstacles@.subrange(0, i as int));
            assert(next.last() == o);
        }
        if o.x as i64 > min_x {
            kept.push(o);
        }
        i += 1;
    }
    proof {
        assert(obstacles@.subrange(0, obstacles@.len() as int) =~= obstacles@);
    }
    kept
}

/// Every obstacle scrolled by one frame, and whether any of them then
/// collides with `player`.
fn scroll_all(obstacles: &Vec<Obstacle>, player: &Player) -> (r: (Vec<Obstacle>, bool))
    requires
        forall|i: int| 0 <= i < obstacles@.len() ==> (#[trigger] obstacles@[i]).move_fits()
            && obstacles@[i].size >= 0,
    ensures
        r.0@ == obstacles@.map_values(|o: Obstacle| o.moved()),
        r.1 == crash(r.0@, *player),
{
    let mut moved: Vec<Obstacle> = Vec::new();
    let mut hit = false;
    let mut i: usize = 0;
    while i < obstacles.len()
        invariant
            i <= obstacles.len(),
            forall|j: int| 0 <= j < obstacles@.len() ==> (#[trigger] obstacles@[j]).move_fits()
                && obstacles@[j].size >= 0,
            moved@.len() == i,
            forall|j: int| 0 <= j < i ==> moved@[j] == (#[trigger] obstacles@[j]).moved(),
            hit == crash(moved@, *player),
        decreases obstacles.len() - i,
    {
        let mut o = obstacles[i];
        o.update();
        let h = o.hit_obstacle(player);
        let ghost before = moved@;
        moved.push(o);
        proof {
            assert(moved@[i as int] == o);
            assert forall|j: int| 0 <= j < i implies moved@[j] == before[j] by {}
            if crash(before, *player) {
                let j = choose|j: int| 0 <= j < before.len() && #[trigger] before[j].hits(*player);
                assert(moved@[j] == before[j]);
            }
            if h {
                assert(moved@[i as int].hits(*player));
            }
            if crash(moved@, *player) && !h {
                let j = choose|j: int| 0 <= j < moved@.len() && #[trigger] moved@[j].hits(*player);
                assert(j < i);
                assert(before[j] == moved@[j]);
            }
        }
        hit = hit || h;
        i += 1;
    }
    proof {
        assert(moved@ =~= obstacles@.map_values(|o: Obstacle| o.moved()));
    }
    (moved, hit)
}

impl State {
    /// A game showing its menu.
    pub fn new() -> (s: State)
        ensures
            s@ == GameModel::initial(),
            s@.wf(),
            s@.within_limits(),
    {
        State {
            player: Player::new(START_X, START_Y),
            frame_time: 0,
            obstacles: Vec::new(),
            score: 0,
            mode: GameMode::Menu,
            obstacle_interval: START_INTERVAL_US,
            obstacle_timer: 0,
        }
    }

    /// Starts a fresh game: player back at the start at rest, no obstacles,
    /// score zero, spawn interval back to its start value.
    pub fn restart(&mut self)
        ensures
            final(self)@ == old(self)@.restarted(),
            final(self)@.wf(),
            final(self)@.within_limits(),
            final(self).score == 0,
            final(self).obstacles@.len() == 0,
            final(self).player == (Player { x: START_X, y: START_Y, velocity: 0 }),
    {
        self.player = Player::new(START_X, START_Y);
        self.frame_time = 0;
        self.obstacles.clear();
        self.mode = GameMode::Playing;
        self.score = 0;
        self.obstacle_interval = START_INTERVAL_US;
        self.obstacle_timer = START_INTERVAL_US;
    }

    /// One frame of play, with the draws for any obstacles spawned given:
    /// `fresh` for the one a screen ahead of the player, `follow` for the one
    /// a screen past the last obstacle.
    pub fn play_with(&mut self, elapsed_us: u32, flap: bool, fresh: SpawnRoll, follow: SpawnRoll)
        requires
            old(self)@.wf(),
            old(self)@.within_limits(),
            fresh.valid(),
            follow.valid(),
        ensures
            final(self)@ == old(self)@.played(elapsed_us as int, flap, fresh, follow),
            final(self)@.wf(),
    {
        let ghost m0 = self@;
        self.advance_clock(elapsed_us);
        if flap {
            self.player.flap();
        }
        let ghost m2 = self@;
        proof {
            assert(m2.obstacles == m0.obstacles);
            if m2.obstacles.len() > 0 {
                assert(obstacle_bounded(m2.obstacles[m2.obstacles.len() - 1], POSITION_LIMIT as int)) by {
                    assert(m0.obstacles[m0.obstacles.len() - 1] == m2.obstacles[m2.obstacles.len() - 1]);
                }
            }
        }
        self.spawn_obstacles(fresh, follow);
        let ghost m3 = self@;
        let ghost hi: int = POSITION_LIMIT + 2 * SCREEN_WIDTH;
        proof {
            assert forall|i: int| 0 <= i < m3.obstacles.len() implies #[trigger] obstacle_bounded(m3.obstacles[i], hi) by {
                if i < m2.obstacles.len() {
                    assert(m3.obstacles[i] == m2.obstacles[i]);
                    assert(m0.obstacles[i] == m2.obstacles[i]);
                }
            }
        }
        self.cull_obstacles();
        let ghost m4 = self@;
        proof {
            let keep = |o: Obstacle| obstacle_bounded(o, hi);
            assert forall|i: int| 0 <= i < m3.obstacles.len() implies #[trigger] keep(m3.obstacles[i]) by {
                assert(obstacle_bounded(m3.obstacles[i], hi));
            }
            lemma_retained_keeps(m3.obstacles, m3.player.x - SCREEN_WIDTH, keep);
            assert(m4.obstacles == retained(m3.obstacles, m3.player.x - SCREEN_WIDTH));
            assert forall|i: int| 0 <= i < m4.obstacles.len() implies #[trigger] obstacle_bounded(m4.obstacles[i], hi) by {
                assert(keep(m4.obstacles[i]));
            }
            assert forall|i: int| 0 <= i < m4.obstacles.len() implies (#[trigger] m4.obstacles[i]).move_fits()
                && m4.obstacles[i].size >= 0 by {
                assert(obstacle_bounded(m4.obstacles[i], hi));
            }
        }
        self.scroll_obstacles();
        let ghost m5 = self@;
        proof {
            if m5.obstacles.len() > 0 {
                assert(obstacle_bounded(m4.obstacles[0], hi));
            }
        }
        self.credit_first();
        proof {
            let m6 = self@;
            assert forall|i: int| 0 <= i < m6.obstacles.len() implies #[trigger] m6.obstacles[i].size >= MIN_GAP by {
                let j = if m6.score == m5.score { i } else { i + 1 };
                assert(m6.obstacles[i] == m5.obstacles[j]);
                assert(m5.obstacles[j] == m4.obstacles[j].moved());
                assert(obstacle_bounded(m4.obstacles[j], hi));
            }
        }
    }

    /// One frame of play, with random draws for any obstacles spawned.
    pub fn play(&mut self, elapsed_us: u32, flap: bool)
        requires
            old(self)@.wf(),
            old(self)@.within_limits(),
        ensures
            exists|fresh: SpawnRoll, follow: SpawnRoll|
                fresh.valid() && follow.valid()
                && final(self)@ == #[trigger] old(self)@.played(elapsed_us as int, flap, fresh, follow),
            final(self)@.wf(),
    {
        let fresh = SpawnRoll::draw();
        let follow = SpawnRoll::draw();
        self.play_with(elapsed_us, flap, fresh, follow);
    }

    /// The menu's frame: `P` starts a game, `Q` asks to quit (the result).
    pub fn main_menu(&mut self, key: Option<Key>) -> (quit: bool)
        ensures
            final(self)@ == (if key == Some(Key::P) { old(self)@.restarted() } else { old(self)@ }),
            quit == (key == Some(Key::Q)),
    {
        match key {
            Some(Key::P) => {
                self.restart();
                false
            },
            Some(Key::Q) => true,
            _ => false,
        }
    }

    /// The end screen's frame: `P` starts a new game, `Q` asks to quit (the
    /// result).
    pub fn dead(&mut self, key: Option<Key>) -> (quit: bool)
        ensures
            final(self)@ == (if key == Some(Key::P) { old(self)@.restarted() } else { old(self)@ }),
            quit == (key == Some(Key::Q)),
    {
        match key {
            Some(Key::P) => {
                self.restart();
                false
            },
            Some(Key::Q) => true,
            _ => false,
        }
    }

    /// One frame in the current mode, with the draws for any obstacles
    /// spawned given. Returns whether the key asks to quit.
    pub fn tick_with(
        &mut self,
        elapsed_us: u32,
        key: Option<Key>,
        fresh: SpawnRoll,
        follow: SpawnRoll,
    ) -> (quit: bool)
        requires
            old(self)@.wf(),
            old(self).mode == GameMode::Playing ==> old(self)@.within_limits(),
            fresh.valid(),
            follow.valid(),
        ensures
            final(self)@ == old(self)@.ticked(elapsed_us as int, key, fresh, follow),
            quit == old(self)@.quits(key),
            final(self)@.wf(),
    {
        match self.mode {
            GameMode::Menu => self.main_menu(key),
            GameMode::End => self.dead(key),
            GameMode::Playing => {
                self.play_with(elapsed_us, key == Some(Key::Space), fresh, follow);
                false
            },
        }
    }

    /// One frame in the current mode, with random draws for any obstacles
    /// spawned. Returns whether the key asks to quit.
    pub fn tick(&mut self, elapsed_us: u32, key: Option<Key>) -> (quit: bool)
        requires
            old(self)@.wf(),
            old(self).mode == GameMode::Playing ==> old(self)@.within_limits(),
        ensures
            exists|fresh: SpawnRoll, follow: SpawnRoll|
                fresh.valid() && follow.valid()
                && final(self)@ == #[trigger] old(self)@.ticked(elapsed_us as int, key, fresh, follow),
            quit == old(self)@.quits(key),
            final(self)@.wf(),
    {
        let fresh = SpawnRoll::draw();
        let follow = SpawnRoll::draw();
        self.tick_with(elapsed_us, key, fresh, follow)
    }

    /// Whether positions, velocities and score are small enough for a frame
    /// of play to stay within the machine integers.
    pub fn within_limits(&self) -> (r: bool)
        ensures
            r == self@.within_limits(),
    {
        if self.player.x < 0 || self.player.x > POSITION_LIMIT || self.player.y > POSITION_LIMIT
            || self.score > SCORE_LIMIT {
            return false;
        }
        let mut i: usize = 0;
        while i < self.obstacles.len()
            invariant
                i <= self.obstacles@.len(),
                forall|j: int| 0 <= j < i ==> {
                    &&& -POSITION_LIMIT <= #[trigger] self.obstacles@[j].x <= POSITION_LIMIT
                    &&& -VELOCITY_LIMIT <= self.obstacles@[j].x_velocity <= VELOCITY_LIMIT
                },
            decreases self.obstacles@.len() - i,
        {
            let o = self.obstacles[i];
            if o.x < -POSITION_LIMIT || o.x > POSITION_LIMIT || o.x_velocity < -VELOCITY_LIMIT
                || o.x_velocity > VELOCITY_LIMIT {
                proof {
                    let m = self@;
                    assert(m.obstacles[i as int] == o);
                    assert(!(-POSITION_LIMIT <= m.obstacles[i as int].x <= POSITION_LIMIT
                        && -VELOCITY_LIMIT <= m.obstacles[i as int].x_velocity <= VELOCITY_LIMIT));
                }
                return false;
            }
            i += 1;
        }
        true
    }

    fn advance_clock(&mut self, elapsed_us: u32)
        requires
            old(self).frame_time <= FRAME_DURATION_US,
            old(self).obstacle_timer <= START_INTERVAL_US,
            old(self).frame_time + elapsed_us > FRAME_DURATION_US ==> old(self).player.step_fits(),
        ensures
            final(self)@ == old(self)@.clocked(elapsed_us as int),
    {
        self.frame_time = self.frame_time + elapsed_us as u64;
        self.obstacle_timer = self.obstacle_timer + elapsed_us as u64;
        if self.frame_time > FRAME_DURATION_US {
            self.frame_time = 0;
            self.player.gravity_and_move();
        }
    }

    fn spawn_obstacles(&mut self, fresh: SpawnRoll, follow: SpawnRoll)
        requires
            old(self).score >= 0,
            old(self).obstacle_interval >= MIN_INTERVAL_US,
            fresh.valid(),
            follow.valid(),
            old(self).player.x + SCREEN_WIDTH <= i32::MAX,
            old(self)@.spawn_ref_x() + SCREEN_WIDTH <= i32::MAX,
        ensures
            final(self)@ == old(self)@.spawned(fresh, follow),
    {
        if self.obstacle_timer > self.obstacle_interval {
            let ghost start = self.obstacles@;
            let n = self.obstacles.len();
            let r: i32 = if n > 0 { self.obstacles[n - 1].x } else { self.player.x };
            if (r as i64) < self.player.x as i64 + (SCREEN_WIDTH / 2) as i64 {
                let o = Obstacle::from_roll(self.player.x + SCREEN_WIDTH, self.score, fresh);
                self.obstacles.push(o);
                proof {
                    assert(self.obstacles@ =~= start + seq![o]);
                }
            } else {
                proof {
                    assert(self.obstacles@ =~= start + Seq::<Obstacle>::empty());
                }
            }
            let ghost mid = self.obstacles@;
            let o = Obstacle::from_roll(r + SCREEN_WIDTH, self.score, follow);
            self.obstacles.push(o);
            proof {
                assert(self.obstacles@ =~= mid + seq![o]);
            }
            self.obstacle_timer = 0;
            let interval = self.obstacle_interval - INTERVAL_STEP_US;
            self.obstacle_interval = if interval < MIN_INTERVAL_US { MIN_INTERVAL_US } else { interval };
        }
    }

    fn cull_obstacles(&mut self)
        ensures
            final(self)@ == old(self)@.culled(),
    {
        let min_x: i64 = self.player.x as i64 - SCREEN_WIDTH as i64;
        self.obstacles = retain_ahead(&self.obstacles, min_x);
    }

    fn scroll_obstacles(&mut self)
        requires
            forall|i: int| 0 <= i < old(self).obstacles@.len() ==> (#[trigger] old(self).obstacles@[i]).move_fits()
                && old(self).obstacles@[i].size >= 0,
        ensures
            final(self)@ == old(self)@.scrolled(),
    {
        let (moved, hit) = scroll_all(&self.obstacles, &self.player);
        self.obstacles = moved;
        if hit || self.player.y > SCREEN_HEIGHT {
            self.mode = GameMode::End;
        }
    }

    fn credit_first(&mut self)
        requires
            old(self).score < i32::MAX,
            old(self).obstacles@.len() > 0 ==> old(self).obstacles@[0].size >= 0,
        ensures
            final(self)@ == old(self)@.credited(),
    {
        if self.obstacles.len() > 0 {
            let first = self.obstacles[0];
            if self.player.x as i64 > first.x as i64 + (first.size / 2) as i64 {
                self.score = self.score + 1;
                let ghost start = self.obstacles@;
                self.obstacles.remove(0);
                proof {
                    assert(self.obstacles@ =~= start.drop_first());
                }
            }
        }
    }
}

} // verus!
