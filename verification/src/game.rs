//! The game as a whole: its state, its view and its invariant.

use vstd::prelude::*;
use crate::constants::{
    LOCK_RADIUS, MAX_TARGETS, PLAYER_HEALTH, PLAYER_START_X, PLAYER_START_Y,
};
use crate::entities::{BonusDisplay, Enemy, LockOnLaser, NormalLaser, Player};
use crate::geometry::Point;
use crate::input::InputState;
use crate::lock_on::{locks_consistent, LockOnSystem, LockOnView};

verus! {

/// Which screen the game is on.
#[derive(Clone, Copy, PartialEq, Eq, Structural, Debug)]
pub enum GameState {
    /// Waiting for the first click.
    Title,
    /// The world is running.
    Playing,
    /// The world is frozen until the next click.
    GameOver,
}

/// What the host hands over for one frame.
#[derive(Clone, Copy, PartialEq, Eq, Debug)]
pub struct FrameInput {
    /// Where the pointer is.
    pub pointer: Point,
    /// Whether the primary button is down.
    pub button_down: bool,
    /// Time since the frame before, in microseconds.
    pub delta_time: u32,
    /// The clock, in microseconds.
    pub now: u64,
}

/// The whole state of a run.
#[derive(Clone, Debug)]
pub struct Game {
    pub state: GameState,
    pub player: Player,
    pub enemies: Vec<Enemy>,
    pub normal_lasers: Vec<NormalLaser>,
    pub lock_on_lasers: Vec<LockOnLaser>,
    pub lock_system: LockOnSystem,
    pub score: u32,
    pub input: InputState,
    /// Time since the last spawn tick.
    pub enemy_spawn_timer: u64,
    pub bonus_displays: Vec<BonusDisplay>,
    /// When the current run began.
    pub game_start_time: u64,
}

/// The game as a mathematical value.
pub struct GameView {
    pub state: GameState,
    pub player: Player,
    pub enemies: Seq<Enemy>,
    pub normal_lasers: Seq<NormalLaser>,
    pub lock_on_lasers: Seq<LockOnLaser>,
    pub lock_system: LockOnView,
    pub score: u32,
    pub input: InputState,
    pub enemy_spawn_timer: u64,
    pub bonus_displays: Seq<BonusDisplay>,
    pub game_start_time: u64,
}

impl View for Game {
    type V = GameView;

    open spec fn view(&self) -> GameView {
        GameView {
            state: self.state,
            player: self.player,
            enemies: self.enemies@,
            normal_lasers: self.normal_lasers@,
            lock_on_lasers: self.lock_on_lasers@,
            lock_system: self.lock_system@,
            score: self.score,
            input: self.input,
            enemy_spawn_timer: self.enemy_spawn_timer,
            bonus_displays: self.bonus_displays@,
            game_start_time: self.game_start_time,
        }
    }
}

/// Whether every homing laser that refers to an enemy refers to one of the
/// `n` enemies there are.
pub open spec fn targets_valid(lasers: Seq<LockOnLaser>, n: nat) -> bool {
    forall|k: int|
        0 <= k < lasers.len() ==> ((#[trigger] lasers[k]).target_enemy_id matches Some(id) ==> id
            < n)
}

impl GameView {
    /// The invariant of the game: the lock flags agree with the lock list,
    /// the list holds no position twice, and no reference to an enemy, from
    /// the list or from a homing laser, leads outside the enemy collection.
    pub open spec fn wf(self) -> bool {
        &&& self.enemies.len() <= usize::MAX
        &&& locks_consistent(self.enemies, self.lock_system)
        &&& targets_valid(self.lock_on_lasers, self.enemies.len())
    }
}

/// The game before the first frame: on the title screen, with an empty
/// world.
pub open spec fn initial(now: u64) -> GameView {
    GameView {
        state: GameState::Title,
        player: Player {
            position: Point { x: PLAYER_START_X, y: PLAYER_START_Y },
            health: PLAYER_HEALTH,
        },
        enemies: Seq::empty(),
        normal_lasers: Seq::empty(),
        lock_on_lasers: Seq::empty(),
        lock_system: LockOnView {
            active: false,
            center: Point { x: 0, y: 0 },
            radius: LOCK_RADIUS,
            locked: Seq::empty(),
            max_targets: MAX_TARGETS,
        },
        score: 0,
        input: InputState {
            mouse_pos: Point { x: 0, y: 0 },
            left_button_pressed: false,
            left_button_just_pressed: false,
            left_button_just_released: false,
            left_button_hold_time: 0,
            prev_left_button_pressed: false,
        },
        enemy_spawn_timer: 0,
        bonus_displays: Seq::empty(),
        game_start_time: now,
    }
}

/// The game at the start of a run: playing, score and timers at zero, the
/// player at the start position, the world empty and nothing locked. The
/// input and the shape of the lock-on circle stay as they are.
pub open spec fn started(g: GameView, now: u64) -> GameView {
    GameView {
        state: GameState::Playing,
        player: Player { position: Point { x: PLAYER_START_X, y: PLAYER_START_Y }, ..g.player },
        enemies: Seq::empty(),
        normal_lasers: Seq::empty(),
        lock_on_lasers: Seq::empty(),
        lock_system: LockOnView { active: false, locked: Seq::empty(), ..g.lock_system },
        score: 0,
        enemy_spawn_timer: 0,
        bonus_displays: Seq::empty(),
        game_start_time: now,
        ..g
    }
}

impl Game {
    /// The invariant of the game.
    pub open spec fn wf(&self) -> bool {
        self@.wf()
    }

    /// A game on its title screen at time `now`.
    pub fn new(now: u64) -> (game: Game)
        ensures
            game@ == initial(now),
            game.wf(),
    {
        Game {
            state: GameState::Title,
            player: Player::new(),
            enemies: Vec::new(),
            normal_lasers: Vec::new(),
            lock_on_lasers: Vec::new(),
            lock_system: LockOnSystem::new(),
            score: 0,
            input: InputState::new(),
            enemy_spawn_timer: 0,
            bonus_displays: Vec::new(),
            game_start_time: now,
        }
    }

    /// Leaves the title screen and begins a run at time `now`.
    pub fn start_game(&mut self, now: u64)
        ensures
            final(self)@ == started(old(self)@, now),
            final(self).wf(),
    {
        self.state = GameState::Playing;
        self.score = 0;
        self.enemy_spawn_timer = 0;
        self.game_start_time = now;
        self.player.position = Point { x: PLAYER_START_X, y: PLAYER_START_Y };
        self.enemies.clear();
        self.normal_lasers.clear();
        self.lock_on_lasers.clear();
        self.bonus_displays.clear();
        self.lock_system.active = false;
        self.lock_system.locked_enemies.clear();
    }

    /// Leaves the game-over screen and begins a new run at time `now`.
    pub fn restart_game(&mut self, now: u64)
        ensures
            final(self)@ == started(old(self)@, now),
            final(self).wf(),
    {
        self.start_game(now);
    }
}

} // verus!
