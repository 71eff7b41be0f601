//! Game orchestration: state machine, scoring, collision outcomes, level
//! progression.
//!
//! The discrete half of the game lives here. Timers, positions and distances
//! are real numbers and are kept by the caller, which tells the game what
//! they decided (a timer ran out, Pac-Man touches a ghost, Clyde is far from
//! Pac-Man) and reads back what to do with them: every timer that a rule
//! starts is returned in milliseconds.

use vstd::prelude::*;

use crate::entities::{
    at_door_column, lemma_choice_is_legal, must_choose, random_u32, GhostEntity, GhostState, Pacman,
};
use crate::maze::{layout_dots, Maze};
use crate::types::{opposite_of, Direction};

verus! {

#[derive(Clone, Copy, PartialEq, Eq, Debug, Structural)]
pub enum GameState {
    Ready,
    Playing,
    Paused,
    Dying,
    LevelComplete,
    GameOver,
}

/// Pac-Man's spawn tile (he starts at its centre).
pub const PACMAN_SPAWN: (i32, i32) = (13, 23);

/// Length of a scatter phase, in milliseconds.
pub const SCATTER_MS: u32 = 7000;

/// Length of a chase phase, in milliseconds.
pub const CHASE_MS: u32 = 20000;

/// Length of the death animation, in milliseconds.
pub const DEATH_MS: u32 = 1600;

/// Pause after a cleared level, in milliseconds.
pub const LEVEL_COMPLETE_MS: u32 = 2000;

/// Milliseconds each ghost waits in the house after the positions are reset.
pub const RELEASE_MS: [u32; 4] = [0, 1000, 3000, 5000];

/// Lives at the start of a game.
pub const START_LIVES: u8 = 3;

/// What the caller does after [`Game::update`].
#[derive(Clone, Copy, PartialEq, Eq, Debug, Structural)]
pub enum Tick {
    /// Nothing moves this frame.
    Idle,
    /// The game is running: advance the simulation by one step.
    Step,
    /// The positions were reset: put every body back on its start tile and
    /// restart the timers.
    Reposition,
}

/// Where a ghost aims in chase or scatter mode.
#[derive(Clone, Copy, PartialEq, Eq, Debug, Structural)]
pub enum Aim {
    /// Its scatter corner.
    Corner,
    /// Pac-Man himself.
    Pacman,
    /// The given number of tiles ahead of Pac-Man.
    Ahead(i32),
    /// Blinky reflected across the point the given number of tiles ahead of
    /// Pac-Man.
    Flank(i32),
}

/// The state after a start request: a ready or paused game runs, any other
/// state is kept.
pub open spec fn started(s: GameState) -> GameState {
    if s == GameState::Ready || s == GameState::Paused {
        GameState::Playing
    } else {
        s
    }
}

/// The state after a pause toggle: running and paused swap, any other state
/// is kept.
pub open spec fn toggled(s: GameState) -> GameState {
    if s == GameState::Playing {
        GameState::Paused
    } else if s == GameState::Paused {
        GameState::Playing
    } else {
        s
    }
}

/// Home tile of ghost `i` inside the ghost house.
pub open spec fn home_of(i: int) -> (i32, i32) {
    if i == 0 {
        (13i32, 13i32)
    } else if i == 1 {
        (13i32, 14i32)
    } else if i == 2 {
        (14i32, 13i32)
    } else {
        (14i32, 15i32)
    }
}

/// Scatter corner tile of ghost `i`.
pub open spec fn corner_of(i: int) -> (i32, i32) {
    if i == 0 {
        (25i32, 1i32)
    } else if i == 1 {
        (1i32, 1i32)
    } else if i == 2 {
        (25i32, 28i32)
    } else {
        (1i32, 28i32)
    }
}

/// Start tile of ghost `i` when the positions are reset.
pub open spec fn start_tile_of(i: int) -> (i32, i32) {
    if i == 0 {
        (13i32, 11i32)
    } else if i == 1 {
        (13i32, 14i32)
    } else if i == 2 {
        (14i32, 13i32)
    } else {
        (14i32, 15i32)
    }
}

/// Start state of ghost `i` when the positions are reset: Blinky roams, the
/// others wait in the house.
pub open spec fn start_state_of(i: int) -> GhostState {
    if i == 0 {
        GhostState::Normal
    } else {
        GhostState::House
    }
}

/// Ghost `i` as the game creates it: in the house at home, heading up.
pub open spec fn fresh_ghost(i: int) -> GhostEntity {
    GhostEntity {
        id: i as usize,
        dir: Direction::Up,
        state: GhostState::House,
        home: home_of(i),
        scatter: corner_of(i),
        cur_tile: home_of(i),
    }
}

/// Ghost `g` put back on its start tile.
pub open spec fn placed_ghost(g: GhostEntity, i: int) -> GhostEntity {
    GhostEntity {
        state: start_state_of(i),
        dir: if start_state_of(i) == GhostState::House {
            Direction::Up
        } else {
            Direction::Left
        },
        cur_tile: start_tile_of(i),
        ..g
    }
}

/// 1 for a frightened ghost, 0 otherwise.
pub open spec fn is_frightened(g: GhostEntity) -> int {
    if g.state == GhostState::Frightened {
        1
    } else {
        0
    }
}

/// Number of frightened ghosts among the four.
pub open spec fn frightened_count(gs: Seq<GhostEntity>) -> int {
    is_frightened(gs[0]) + is_frightened(gs[1]) + is_frightened(gs[2]) + is_frightened(gs[3])
}

/// Which target ghost `i` aims at (see [`Game::ghost_aim`]).
pub open spec fn aim_of(scatter: bool, i: int, far: bool) -> Aim {
    if scatter {
        Aim::Corner
    } else if i == 0 {
        Aim::Pacman
    } else if i == 1 {
        Aim::Ahead(4)
    } else if i == 2 {
        Aim::Flank(2)
    } else if far {
        Aim::Pacman
    } else {
        Aim::Corner
    }
}

/// Is (`c`, `r`) a tile of the maze?
pub open spec fn tile_in_bounds_i32(c: i32, r: i32) -> bool {
    crate::maze::tile_in_bounds(c as int, r as int)
}

/// Points for eating a dot (1) or a power pellet (2).
pub open spec fn dot_points(d: u8) -> nat {
    if d == 1 {
        10
    } else if d == 2 {
        50
    } else {
        0
    }
}

/// Points for the ghost eaten after `combo` others in one frightened spell:
/// 200, 400, 800, then 1600 for every further one.
pub open spec fn ghost_points(combo: nat) -> nat {
    if combo == 0 {
        200
    } else if combo == 1 {
        400
    } else if combo == 2 {
        800
    } else {
        1600
    }
}

/// Points for eating `n` ghosts in a row after `combo` others.
pub open spec fn ghost_points_total(combo: nat, n: nat) -> nat
    decreases n,
{
    if n == 0 {
        0
    } else {
        ghost_points_total(combo, (n - 1) as nat) + ghost_points((combo + n - 1) as nat)
    }
}

/// The score after adding `points`, taken modulo 2^32: the score is a `u32`
/// that wraps around instead of overflowing.
pub open spec fn add_score(score: u32, points: nat) -> u32 {
    ((score + points) % 0x1_0000_0000) as u32
}

/// The next level number: the level is a `u8` that wraps from 255 to 0
/// instead of overflowing.
pub open spec fn add_level(level: u8) -> u8 {
    if level == 255 {
        0
    } else {
        (level + 1) as u8
    }
}

/// Length of a frightened spell on level `level`, in milliseconds: seven
/// seconds minus the level, but at least two.
pub open spec fn fright_ms_for(level: u8) -> u32 {
    if level >= 5 {
        2000
    } else {
        ((7 - level) * 1000) as u32
    }
}

/// Does Pac-Man touch a ghost that kills him? Those are the roaming ones that
/// are not frightened, and the ones leaving the house.
pub open spec fn deadly(g: GhostEntity) -> bool {
    g.state == GhostState::Normal || g.state == GhostState::Leaving
}

/// Number of ghosts among the first `k` that are touched while frightened.
pub open spec fn eaten_count(gs: Seq<GhostEntity>, touching: Seq<bool>, k: nat) -> nat
    decreases k,
{
    if k == 0 {
        0
    } else {
        eaten_count(gs, touching, (k - 1) as nat) + (if touching[k - 1] && gs[k - 1].state
            == GhostState::Frightened {
            1nat
        } else {
            0nat
        })
    }
}

/// Ghost `g` after a collision check: eaten if it was touched while frightened.
pub open spec fn after_bite(g: GhostEntity, touched: bool) -> GhostEntity {
    if touched && g.state == GhostState::Frightened {
        GhostEntity { state: GhostState::Eaten, ..g }
    } else {
        g
    }
}

/// Ghost `g` when a frightened spell starts: roaming ghosts turn blue and
/// reverse.
pub open spec fn frightened_ghost(g: GhostEntity) -> GhostEntity {
    if g.state == GhostState::Normal {
        GhostEntity { state: GhostState::Frightened, dir: opposite_of(g.dir), ..g }
    } else {
        g
    }
}

/// Ghost `g` when a frightened spell ends.
pub open spec fn calmed_ghost(g: GhostEntity) -> GhostEntity {
    if g.state == GhostState::Frightened {
        GhostEntity { state: GhostState::Normal, ..g }
    } else {
        g
    }
}

/// Ghost `g` when scatter and chase alternate: roaming ghosts reverse.
pub open spec fn turned_ghost(g: GhostEntity) -> GhostEntity {
    if g.state == GhostState::Normal {
        GhostEntity { dir: opposite_of(g.dir), ..g }
    } else {
        g
    }
}

/// The shifted bonus of the game equals [`ghost_points`].
proof fn lemma_ghost_points_shift(shift: u32)
    requires
        shift <= 3,
    ensures
        (200u32 << shift) as nat == ghost_points(shift as nat),
{
    assert(200u32 << 0u32 == 200u32) by (bit_vector);
    assert(200u32 << 1u32 == 400u32) by (bit_vector);
    assert(200u32 << 2u32 == 800u32) by (bit_vector);
    assert(200u32 << 3u32 == 1600u32) by (bit_vector);
}

/// Adding points in two goes wraps the same as adding them at once.
proof fn lemma_add_score_assoc(score: u32, a: nat, b: nat)
    ensures
        add_score(add_score(score, a), b) == add_score(score, a + b),
        b <= u32::MAX ==> add_score(add_score(score, a), b) == add_score(score, a).wrapping_add(b as u32),
{
    vstd::arithmetic::div_mod::lemma_add_mod_noop(score + a, b as int, 0x1_0000_0000);
    vstd::arithmetic::div_mod::lemma_mod_twice(b as int, 0x1_0000_0000);
    if b <= u32::MAX {
        vstd::arithmetic::div_mod::lemma_small_mod(b, 0x1_0000_0000);
    }
}

/// Pausing twice gives the state back, and a start request after a pause
/// resumes the game.
pub proof fn lemma_pause_round_trip(s: GameState)
    ensures
        toggled(toggled(s)) == s,
        s == GameState::Playing ==> started(toggled(s)) == GameState::Playing,
{
}

/// A level is cleared exactly when no dot or pellet is left on the board.
pub proof fn lemma_cleared_iff_board_empty(g: Game)
    requires
        g.wf(),
    ensures
        g.dots_remaining == 0 <==> forall|i: int| 0 <= i < g.maze.dots@.len() ==> #[trigger] g.maze.dots@[i] == 0,
{
    crate::maze::lemma_count_dots_zero(g.maze.dots@);
}

/// The pellets left never outnumber those the level started with.
pub proof fn lemma_remaining_at_most_total(g: Game)
    requires
        g.wf(),
    ensures
        g.dots_remaining <= g.maze.total_dots,
{
    crate::maze::lemma_count_dots_valid(g.maze.dots@, 868);
    assert(g.maze.dots@.take(868) =~= g.maze.dots@);
    assert(layout_dots().take(868) =~= layout_dots());
}

/// The ghosts of one frightened spell are worth 200, 400, 800 and 1600
/// points, 3000 for all four.
pub proof fn lemma_spell_points()
    ensures
        ghost_points_total(0, 1) == 200,
        ghost_points_total(0, 2) == 600,
        ghost_points_total(0, 3) == 1400,
        ghost_points_total(0, 4) == 3000,
        forall|k: nat| k >= 3 ==> #[trigger] ghost_points(k) == 1600,
{
    reveal_with_fuel(ghost_points_total, 5);
}

pub struct Game {
    pub maze: Maze,
    pub pacman: Pacman,
    pub ghosts: Vec<GhostEntity>,
    pub score: u32,
    pub lives: u8,
    pub level: u8,
    pub state: GameState,
    pub scatter: bool,
    pub frightened: bool,
    pub dots_remaining: u32,
    pub ghost_combo: u32,
    // one-shot sound/effect events for the frontend, cleared each update
    pub event_dot: bool,
    pub event_pellet: bool,
    pub event_ghost_eaten: bool,
    pub event_death: bool,
    pub event_level: bool,
    pub event_fright: bool,
}

impl Game {
    /// The invariant of a game: a well-formed maze whose remaining pellets are
    /// counted by `dots_remaining`, four ghosts with their own ids, homes and
    /// corners, a heading for every body, at most three lives, at most four ghosts eaten or blue in one
    /// frightened spell, and, while the game is ready, running or paused, no
    /// blue ghost outside a frightened spell.
    pub open spec fn wf(&self) -> bool {
        &&& self.maze.wf()
        &&& self.dots_remaining == self.maze.remaining()
        &&& self.ghosts@.len() == 4
        &&& forall|i: int|
            0 <= i < 4 ==> {
                &&& (#[trigger] self.ghosts@[i]).id == i
                &&& self.ghosts@[i].home == home_of(i)
                &&& self.ghosts@[i].scatter == corner_of(i)
            }
        &&& self.pacman.dir != Direction::Stop
        &&& forall|i: int| 0 <= i < 4 ==> (#[trigger] self.ghosts@[i]).dir != Direction::Stop
        &&& self.lives <= START_LIVES
        &&& self.ghost_combo + frightened_count(self.ghosts@) <= 4
        &&& (self.state == GameState::Ready || self.state == GameState::Playing || self.state
            == GameState::Paused) && !self.frightened ==> frightened_count(self.ghosts@) == 0
    }

    /// No one-shot event is raised.
    pub open spec fn no_events(&self) -> bool {
        &&& !self.event_dot
        &&& !self.event_pellet
        &&& !self.event_ghost_eaten
        &&& !self.event_death
        &&& !self.event_level
        &&& !self.event_fright
    }

    /// The game with every one-shot event cleared.
    pub open spec fn without_events(&self) -> Game {
        Game {
            event_dot: false,
            event_pellet: false,
            event_ghost_eaten: false,
            event_death: false,
            event_level: false,
            event_fright: false,
            ..*self
        }
    }

    pub fn new() -> (g: Game)
        ensures
            g.wf(),
            g.maze.dots@ == layout_dots(),
            g.dots_remaining == g.maze.total_dots,
            g.pacman == crate::entities::pacman_at_spawn(),
            forall|i: int| 0 <= i < 4 ==> #[trigger] g.ghosts@[i] == fresh_ghost(i),
            g.score == 0,
            g.lives == START_LIVES,
            g.level == 1,
            g.state == GameState::Ready,
            g.scatter,
            !g.frightened,
            g.ghost_combo == 0,
            g.no_events(),
    {
        let maze = Maze::new();
        let pacman = Pacman::new();
        let dots_remaining = maze.total_dots;
        let g = Game {
            maze,
            pacman,
            ghosts: Self::make_ghosts(),
            score: 0,
            lives: 3,
            level: 1,
            state: GameState::Ready,
            scatter: true,
            frightened: false,
            dots_remaining,
            ghost_combo: 0,
            event_dot: false,
            event_pellet: false,
            event_ghost_eaten: false,
            event_death: false,
            event_level: false,
            event_fright: false,
        };
        g
    }

    fn make_ghosts() -> (gs: Vec<GhostEntity>)
        ensures
            gs@.len() == 4,
            forall|i: int| 0 <= i < 4 ==> #[trigger] gs@[i] == fresh_ghost(i),
    {
        let gs = vec![
            // Blinky (red) — starts in the house; reset positions put him outside
            GhostEntity::new(0, (13, 13), (25, 1)),
            // Pinky (pink)
            GhostEntity::new(1, (13, 14), (1, 1)),
            // Inky (cyan)
            GhostEntity::new(2, (14, 13), (25, 28)),
            // Clyde (orange)
            GhostEntity::new(3, (14, 15), (1, 28)),
        ];
        assert(gs@[0] == fresh_ghost(0));
        assert(gs@[1] == fresh_ghost(1));
        assert(gs@[2] == fresh_ghost(2));
        assert(gs@[3] == fresh_ghost(3));
        gs
    }

    /// Full reset: score, lives, level, dots, and positions.
    #[verifier::rlimit(40)]
    pub fn reset_full(&mut self)
        requires
            old(self).wf(),
        ensures
            final(self).wf(),
            final(self).score == 0,
            final(self).lives == START_LIVES,
            final(self).level == 1,
            final(self).maze.dots@ == layout_dots(),
            final(self).dots_remaining == final(self).maze.total_dots,
            final(self).state == GameState::Ready,
            final(self).positions_reset(old(self)),
            final(self).no_events() == old(self).no_events(),
    {
        self.score = 0;
        self.lives = 3;
        self.level = 1;
        self.maze.reset_dots();
        self.dots_remaining = self.maze.total_dots;
        self.reset_positions();
        self.state = GameState::Ready;
    }

    /// Are Pac-Man and the ghosts back on their start tiles, in scatter mode
    /// with no frightened spell, with the events of `old` kept?
    pub open spec fn positions_reset(&self, old: &Game) -> bool {
        &&& self.pacman == crate::entities::pacman_at_spawn()
        &&& forall|i: int| 0 <= i < 4 ==> #[trigger] self.ghosts@[i] == placed_ghost(old.ghosts@[i], i)
        &&& self.scatter
        &&& !self.frightened
        &&& self.ghost_combo == 0
        &&& self.event_dot == old.event_dot
        &&& self.event_pellet == old.event_pellet
        &&& self.event_ghost_eaten == old.event_ghost_eaten
        &&& self.event_death == old.event_death
        &&& self.event_level == old.event_level
        &&& self.event_fright == old.event_fright
    }

    /// Reset entity positions (after a death or on level start). The caller
    /// moves every body to the centre of its tile and starts the house
    /// countdowns of [`RELEASE_MS`] and a scatter phase of [`SCATTER_MS`].
    #[verifier::rlimit(40)]
    pub fn reset_positions(&mut self)
        requires
            old(self).wf(),
        ensures
            final(self).wf(),
            final(self).positions_reset(old(self)),
            final(self).maze == old(self).maze,
            final(self).score == old(self).score,
            final(self).lives == old(self).lives,
            final(self).level == old(self).level,
            final(self).state == old(self).state,
            final(self).dots_remaining == old(self).dots_remaining,
    {
        self.pacman.reset();
        let mut g = self.ghosts[0];
        g.place((13, 11), GhostState::Normal);  // Blinky
        self.ghosts.set(0, g);
        let mut g = self.ghosts[1];
        g.place((13, 14), GhostState::House);  // Pinky
        self.ghosts.set(1, g);
        let mut g = self.ghosts[2];
        g.place((14, 13), GhostState::House);  // Inky
        self.ghosts.set(2, g);
        let mut g = self.ghosts[3];
        g.place((14, 15), GhostState::House);  // Clyde
        self.ghosts.set(3, g);
        self.scatter = true;
        self.frightened = false;
        self.ghost_combo = 0;
        assert(forall|i: int| 0 <= i < 4 ==> #[trigger] self.ghosts@[i] == placed_ghost(old(self).ghosts@[i], i));
    }

    pub fn start(&mut self)
        ensures
            *final(self) == (Game { state: started(old(self).state), ..*old(self) }),
            old(self).wf() ==> final(self).wf(),
    {
        if self.state == GameState::Ready || self.state == GameState::Paused {
            self.state = GameState::Playing;
        }
    }

    pub fn toggle_pause(&mut self)
        ensures
            *final(self) == (Game { state: toggled(old(self).state), ..*old(self) }),
            old(self).wf() ==> final(self).wf(),
    {
        match self.state {
            GameState::Playing => self.state = GameState::Paused,
            GameState::Paused => self.state = GameState::Playing,
            _ => {},
        }
    }

    pub fn set_dir(&mut self, d: Direction)
        ensures
            old(self).wf() ==> final(self).wf(),
            *final(self) == (Game { pacman: Pacman { next_dir: Some(d), ..old(self).pacman }, ..*old(self) }),
    {
        self.pacman.set_dir(d);
    }

    fn clear_events(&mut self)
        ensures
            *final(self) == old(self).without_events(),
    {
        self.event_dot = false;
        self.event_pellet = false;
        self.event_ghost_eaten = false;
        self.event_death = false;
        self.event_level = false;
        self.event_fright = false;
    }

    /// Start of a frame: clear the one-shot events and advance the state
    /// machine. `timer_expired` tells whether the death or level-complete
    /// countdown, lowered by the frame time, ran out. After a death the game
    /// is over with no lives left and otherwise repositions and gets ready;
    /// after a cleared level the next level starts with a full board.
    #[verifier::rlimit(40)]
    pub fn update(&mut self, timer_expired: bool) -> (tick: Tick)
        requires
            old(self).wf(),
        ensures
            final(self).wf(),
            final(self).no_events(),
            ({
                let g0 = old(self).without_events();
                if g0.state == GameState::Playing {
                    tick == Tick::Step && *final(self) == g0
                } else if g0.state == GameState::Dying && timer_expired && g0.lives == 0 {
                    tick == Tick::Idle && *final(self) == (Game { state: GameState::GameOver, ..g0 })
                } else if g0.state == GameState::Dying && timer_expired {
                    &&& tick == Tick::Reposition
                    &&& final(self).state == GameState::Ready
                    &&& final(self).positions_reset(&g0)
                    &&& final(self).maze == g0.maze
                    &&& final(self).score == g0.score
                    &&& final(self).lives == g0.lives
                    &&& final(self).level == g0.level
                    &&& final(self).dots_remaining == g0.dots_remaining
                } else if g0.state == GameState::LevelComplete && timer_expired {
                    &&& tick == Tick::Reposition
                    &&& final(self).state == GameState::Ready
                    &&& final(self).positions_reset(&g0)
                    &&& final(self).maze.dots@ == layout_dots()
                    &&& final(self).dots_remaining == final(self).maze.total_dots
                    &&& final(self).score == g0.score
                    &&& final(self).lives == g0.lives
                    &&& final(self).level == add_level(g0.level)
                } else {
                    tick == Tick::Idle && *final(self) == g0
                }
            }),
    {
        // Clear one-shot events; they are re-set during the step as needed.
        self.clear_events();
        match self.state {
            GameState::Playing => Tick::Step,
            GameState::Dying => {
                if timer_expired {
                    if self.lives == 0 {
                        self.state = GameState::GameOver;
                        Tick::Idle
                    } else {
                        self.reset_positions();
                        self.state = GameState::Ready;
                        Tick::Reposition
                    }
                } else {
                    Tick::Idle
                }
            },
            GameState::LevelComplete => {
                if timer_expired {
                    self.level = self.level.wrapping_add(1);
                    self.maze.reset_dots();
                    self.dots_remaining = self.maze.total_dots;
                    self.reset_positions();
                    self.state = GameState::Ready;
                    Tick::Reposition
                } else {
                    Tick::Idle
                }
            },
            _ => Tick::Idle,
        }
    }

    /// Scatter and chase alternate: the mode flips, and unless a frightened
    /// spell is on every roaming ghost reverses. Returns the length of the new
    /// phase in milliseconds.
    #[verifier::rlimit(40)]
    pub fn switch_mode(&mut self) -> (ms: u32)
        requires
            old(self).wf(),
        ensures
            final(self).wf(),
            final(self).scatter == !old(self).scatter,
            ms == (if final(self).scatter { SCATTER_MS } else { CHASE_MS }),
            forall|i: int|
                0 <= i < 4 ==> #[trigger] final(self).ghosts@[i] == (if old(self).frightened {
                    old(self).ghosts@[i]
                } else {
                    turned_ghost(old(self).ghosts@[i])
                }),
            *final(self) == (Game { scatter: final(self).scatter, ghosts: final(self).ghosts, ..*old(self) }),
    {
        self.scatter = !self.scatter;
        if !self.frightened {
            for i in 0..4usize
                invariant
                    self.ghosts@.len() == 4,
                    *self == (Game { ghosts: self.ghosts, ..*self }),
                    *self == (Game { scatter: !old(self).scatter, ghosts: self.ghosts, ..*old(self) }),
                    forall|j: int| 0 <= j < i ==> #[trigger] self.ghosts@[j] == turned_ghost(old(self).ghosts@[j]),
                    forall|j: int| i <= j < 4 ==> #[trigger] self.ghosts@[j] == old(self).ghosts@[j],
            {
                let mut g = self.ghosts[i];
                if g.state == GhostState::Normal {
                    g.reverse();
                }
                self.ghosts.set(i, g);
            }
        }
        if self.scatter {
            SCATTER_MS
        } else {
            CHASE_MS
        }
    }

    /// The frightened spell ran out: blue ghosts roam normally again.
    #[verifier::rlimit(40)]
    pub fn end_frightened(&mut self)
        requires
            old(self).wf(),
        ensures
            final(self).wf(),
            !final(self).frightened,
            forall|i: int| 0 <= i < 4 ==> #[trigger] final(self).ghosts@[i] == calmed_ghost(old(self).ghosts@[i]),
            *final(self) == (Game { frightened: false, ghosts: final(self).ghosts, ..*old(self) }),
    {
        self.frightened = false;
        for i in 0..4usize
            invariant
                self.ghosts@.len() == 4,
                *self == (Game { frightened: false, ghosts: self.ghosts, ..*old(self) }),
                forall|j: int| 0 <= j < i ==> #[trigger] self.ghosts@[j] == calmed_ghost(old(self).ghosts@[j]),
                forall|j: int| i <= j < 4 ==> #[trigger] self.ghosts@[j] == old(self).ghosts@[j],
        {
            let mut g = self.ghosts[i];
            if g.state == GhostState::Frightened {
                g.state = GhostState::Normal;
            }
            self.ghosts.set(i, g);
        }
    }

    /// Pac-Man on tile (`col`, `row`) eats what lies there: a dot scores 10,
    /// a power pellet 50 and starts a frightened spell, whose length in
    /// milliseconds is returned.
    #[verifier::rlimit(40)]
    pub fn eat_dots(&mut self, col: i32, row: i32) -> (fright_ms: Option<u32>)
        requires
            old(self).wf(),
        ensures
            final(self).wf(),
            ({
                let d = old(self).maze.dot_at(col as int, row as int);
                &&& final(self).score == add_score(old(self).score, dot_points(d))
                &&& final(self).dots_remaining == (if d != 0 {
                    old(self).dots_remaining - 1
                } else {
                    old(self).dots_remaining as int
                })
                &&& final(self).event_dot == (old(self).event_dot || d == 1)
                &&& final(self).event_pellet == (old(self).event_pellet || d == 2)
                &&& d == 2 ==> fright_ms == Some(fright_ms_for(old(self).level))
                    && final(self).frightened && final(self).event_fright && final(self).ghost_combo
                    == 0 && forall|i: int|
                    0 <= i < 4 ==> #[trigger] final(self).ghosts@[i] == frightened_ghost(
                        old(self).ghosts@[i],
                    )
                &&& d != 2 ==> fright_ms == None::<u32> && final(self).frightened
                    == old(self).frightened && final(self).event_fright == old(self).event_fright
                    && final(self).ghost_combo == old(self).ghost_combo && final(self).ghosts
                    == old(self).ghosts
            }),
            tile_in_bounds_i32(col, row) ==> final(self).maze.dots@ == old(self).maze.dots@.update(
                crate::maze::tile_index(col as int, row as int),
                0,
            ),
            !tile_in_bounds_i32(col, row) ==> final(self).maze.dots@ == old(self).maze.dots@,
            final(self).pacman == old(self).pacman,
            final(self).lives == old(self).lives,
            final(self).level == old(self).level,
            final(self).state == old(self).state,
            final(self).scatter == old(self).scatter,
            final(self).event_ghost_eaten == old(self).event_ghost_eaten,
            final(self).event_death == old(self).event_death,
            final(self).event_level == old(self).event_level,
    {
        match self.maze.eat_dot(col, row) {
            1 => {
                self.score = self.score.wrapping_add(10);
                self.dots_remaining -= 1;
                self.event_dot = true;
                None
            },
            2 => {
                self.score = self.score.wrapping_add(50);
                self.dots_remaining -= 1;
                self.event_pellet = true;
                Some(self.start_frightened())
            },
            _ => None,
        }
    }

    /// A frightened spell starts: roaming ghosts turn blue and reverse, the
    /// combo restarts. Returns its length in milliseconds.
    #[verifier::rlimit(40)]
    fn start_frightened(&mut self) -> (ms: u32)
        requires
            old(self).wf(),
        ensures
            final(self).wf(),
            ms == fright_ms_for(old(self).level),
            forall|i: int| 0 <= i < 4 ==> #[trigger] final(self).ghosts@[i] == frightened_ghost(old(self).ghosts@[i]),
            *final(self) == (Game {
                frightened: true,
                ghost_combo: 0,
                event_fright: true,
                ghosts: final(self).ghosts,
                ..*old(self)
            }),
    {
        self.frightened = true;
        self.ghost_combo = 0;
        self.event_fright = true;
        for i in 0..4usize
            invariant
                self.ghosts@.len() == 4,
                *self == (Game {
                    frightened: true,
                    ghost_combo: 0,
                    event_fright: true,
                    ghosts: self.ghosts,
                    ..*old(self)
                }),
                forall|j: int| 0 <= j < i ==> #[trigger] self.ghosts@[j] == frightened_ghost(old(self).ghosts@[j]),
                forall|j: int| i <= j < 4 ==> #[trigger] self.ghosts@[j] == old(self).ghosts@[j],
        {
            let mut g = self.ghosts[i];
            if g.state == GhostState::Normal {
                g.state = GhostState::Frightened;
                g.reverse();
            }
            self.ghosts.set(i, g);
        }
        if self.level >= 5 {
            2000
        } else {
            (7 - self.level as u32) * 1000
        }
    }

    /// Resolve Pac-Man's contacts: `touching[i]` tells whether he touches
    /// ghost `i`. Touching a roaming or leaving ghost kills him; otherwise
    /// every blue ghost he touches is eaten, in order, for 200, 400, 800 and
    /// then 1600 points. Returns the length of the death animation in
    /// milliseconds when he dies.
    #[verifier::rlimit(40)]
    pub fn check_collisions(&mut self, touching: [bool; 4]) -> (death_ms: Option<u32>)
        requires
            old(self).wf(),
        ensures
            final(self).wf(),
            collisions_resolved(*old(self), *final(self), touching@, death_ms),
    {
        let mut death = false;
        for i in 0..4usize
            invariant
                self.wf(),
                death == exists|j: int| 0 <= j < i && touching@[j] && #[trigger] deadly(self.ghosts@[j]),
        {
            let st = self.ghosts[i].state;
            if touching[i] && (st == GhostState::Normal || st == GhostState::Leaving) {
                death = true;
                assert(touching@[i as int] && deadly(self.ghosts@[i as int]));
            } else {
                assert forall|j: int| 0 <= j < i + 1 && touching@[j] && #[trigger] deadly(self.ghosts@[j]) implies j < i by {}
            }
        }
        if death {
            self.pacman_dies();
            return Some(DEATH_MS);
        }
        for i in 0..4usize
            invariant
                old(self).wf(),
                self.wf(),
                !(exists|j: int| 0 <= j < 4 && touching@[j] && #[trigger] deadly(old(self).ghosts@[j])),
                self.score == add_score(
                    old(self).score,
                    ghost_points_total(old(self).ghost_combo as nat, eaten_count(old(self).ghosts@, touching@, i as nat)),
                ),
                self.ghost_combo == old(self).ghost_combo + eaten_count(old(self).ghosts@, touching@, i as nat),
                self.event_ghost_eaten == (old(self).event_ghost_eaten || eaten_count(old(self).ghosts@, touching@, i as nat) > 0),
                forall|j: int| 0 <= j < i ==> #[trigger] self.ghosts@[j] == after_bite(old(self).ghosts@[j], touching@[j]),
                forall|j: int| i <= j < 4 ==> #[trigger] self.ghosts@[j] == old(self).ghosts@[j],
                *self == (Game {
                    score: self.score,
                    ghost_combo: self.ghost_combo,
                    event_ghost_eaten: self.event_ghost_eaten,
                    ghosts: self.ghosts,
                    ..*old(self)
                }),
        {
            let ghost before = *self;
            proof {
                lemma_add_score_assoc(
                    old(self).score,
                    ghost_points_total(old(self).ghost_combo as nat, eaten_count(old(self).ghosts@, touching@, i as nat)),
                    ghost_points((old(self).ghost_combo + eaten_count(old(self).ghosts@, touching@, i as nat)) as nat),
                );
            }
            self.bite_ghost(i, touching[i]);
            assert(self.ghosts@ =~= before.ghosts@.update(i as int, after_bite(old(self).ghosts@[i as int], touching@[i as int])));
        }
        None
    }

    /// Pac-Man touches ghost `i` (`touched`), which cannot kill him: a blue
    /// ghost is eaten for the points of the current combo.
    #[verifier::rlimit(40)]
    fn bite_ghost(&mut self, i: usize, touched: bool)
        requires
            old(self).wf(),
            i < 4,
            !(touched && deadly(old(self).ghosts@[i as int])),
        ensures
            final(self).wf(),
            ({
                let eaten = touched && old(self).ghosts@[i as int].state == GhostState::Frightened;
                &&& final(self).score == (if eaten {
                    add_score(old(self).score, ghost_points(old(self).ghost_combo as nat))
                } else {
                    old(self).score
                })
                &&& final(self).ghost_combo == old(self).ghost_combo + (if eaten { 1int } else { 0int })
                &&& final(self).event_ghost_eaten == (old(self).event_ghost_eaten || eaten)
            }),
            final(self).ghosts@ == old(self).ghosts@.update(i as int, after_bite(old(self).ghosts@[i as int], touched)),
            *final(self) == (Game {
                score: final(self).score,
                ghost_combo: final(self).ghost_combo,
                event_ghost_eaten: final(self).event_ghost_eaten,
                ghosts: final(self).ghosts,
                ..*old(self)
            }),
    {
        let mut g = self.ghosts[i];
        if touched && g.state == GhostState::Frightened {
            let shift: u32 = if self.ghost_combo < 3 {
                self.ghost_combo
            } else {
                3
            };
            let points: u32 = 200u32 << shift;
            proof {
                lemma_ghost_points_shift(shift);
                lemma_add_score_assoc(old(self).score, 0, points as nat);
                assert(ghost_points(self.ghost_combo as nat) == ghost_points(shift as nat));
            }
            self.score = self.score.wrapping_add(points);
            self.ghost_combo += 1;
            g.state = GhostState::Eaten;
            self.ghosts.set(i, g);
            self.event_ghost_eaten = true;
        } else {
            assert(self.ghosts@ =~= old(self).ghosts@.update(i as int, after_bite(old(self).ghosts@[i as int], touched)));
        }
    }

    fn pacman_dies(&mut self)
        ensures
            *final(self) == (Game {
                lives: if old(self).lives > 0 { (old(self).lives - 1) as u8 } else { 0u8 },
                state: GameState::Dying,
                pacman: Pacman { dying: true, ..old(self).pacman },
                frightened: false,
                event_death: true,
                ..*old(self)
            }),
    {
        if self.lives > 0 {
            self.lives -= 1;
        }
        self.state = GameState::Dying;
        self.pacman.dying = true;
        self.frightened = false;
        self.event_death = true;
    }

    /// End of a step: with every pellet eaten the level is complete. Returns
    /// the length of the pause that follows, in milliseconds.
    pub fn check_level_complete(&mut self) -> (pause_ms: Option<u32>)
        requires
            old(self).wf(),
        ensures
            final(self).wf(),
            old(self).dots_remaining == 0 ==> pause_ms == Some(LEVEL_COMPLETE_MS) && *final(self) == (Game {
                state: GameState::LevelComplete,
                event_level: true,
                ..*old(self)
            }),
            old(self).dots_remaining != 0 ==> pause_ms == None::<u32> && *final(self) == *old(self),
    {
        if self.dots_remaining == 0 {
            self.state = GameState::LevelComplete;
            self.event_level = true;
            Some(LEVEL_COMPLETE_MS)
        } else {
            None
        }
    }

    /// Which target ghost `i` aims at: its corner in scatter mode; in chase
    /// mode Blinky aims at Pac-Man, Pinky four tiles ahead of him, Inky flanks
    /// with Blinky two tiles ahead of him, and Clyde chases only while `far`
    /// (more than eight tiles away from Pac-Man) and otherwise heads for his
    /// corner.
    pub fn ghost_aim(&self, i: usize, far: bool) -> (aim: Aim)
        requires
            self.wf(),
            i < 4,
        ensures
            aim == aim_of(self.scatter, i as int, far),
    {
        if self.scatter {
            return Aim::Corner;
        }
        match self.ghosts[i].id {
            0 => Aim::Pacman,  // Blinky: straight at Pac-Man
            1 => Aim::Ahead(4),  // Pinky: 4 tiles ahead
            2 => Aim::Flank(2),  // Inky: reflect Blinky across a point 2 tiles ahead
            _ => {
                // Clyde: chase when far, scatter when close
                if far {
                    Aim::Pacman
                } else {
                    Aim::Corner
                }
            },
        }
    }

    /// One tick of ghost `i` while it waits in the house (see
    /// [`GhostEntity::update_house`]).
    pub fn update_ghost_house(&mut self, i: usize, released: bool, bob_down: bool)
        requires
            old(self).wf(),
            i < 4,
            old(self).ghosts@[i as int].state == GhostState::House,
        ensures
            final(self).wf(),
            final(self).ghosts@ == old(self).ghosts@.update(
                i as int,
                if released {
                    GhostEntity {
                        state: GhostState::Leaving,
                        dir: Direction::Up,
                        cur_tile: old(self).ghosts@[i as int].home,
                        ..old(self).ghosts@[i as int]
                    }
                } else {
                    GhostEntity {
                        dir: if bob_down { Direction::Down } else { Direction::Up },
                        ..old(self).ghosts@[i as int]
                    }
                },
            ),
            *final(self) == (Game { ghosts: final(self).ghosts, ..*old(self) }),
    {
        let mut g = self.ghosts[i];
        g.update_house(released, bob_down);
        self.ghosts.set(i, g);
    }

    /// Ghost `i`, leaving the house, has moved; `outside` tells whether it
    /// rose above the door and `tile` is the tile under it (see
    /// [`GhostEntity::update_leaving`]).
    pub fn update_ghost_leaving(&mut self, i: usize, outside: bool, tile: (i32, i32))
        requires
            old(self).wf(),
            i < 4,
            old(self).ghosts@[i as int].state == GhostState::Leaving,
        ensures
            final(self).wf(),
            final(self).ghosts@ == old(self).ghosts@.update(
                i as int,
                if outside {
                    GhostEntity {
                        state: GhostState::Normal,
                        dir: Direction::Left,
                        cur_tile: tile,
                        ..old(self).ghosts@[i as int]
                    }
                } else {
                    old(self).ghosts@[i as int]
                },
            ),
            *final(self) == (Game { ghosts: final(self).ghosts, ..*old(self) }),
    {
        let mut g = self.ghosts[i];
        g.update_leaving(outside, tile);
        self.ghosts.set(i, g);
    }

    /// One tick of roaming ghost `i` on tile (`col`, `row`), before it moves
    /// (see [`GhostEntity::update`]): a random number is drawn for the
    /// frightened choice and the tick is [`Game::update_ghost_with_draw`] with
    /// it. Returns whether the ghost respawned in the house; the caller then
    /// puts it at home with a countdown of
    /// [`crate::entities::RESPAWN_RELEASE_MS`], and otherwise moves it.
    pub fn update_ghost(
        &mut self,
        i: usize,
        col: i32,
        row: i32,
        target_keys: [u32; 4],
        door_keys: [u32; 4],
    ) -> (respawned: bool)
        requires
            old(self).wf(),
            i < 4,
            crate::entities::coord_ok(col),
            crate::entities::coord_ok(row),
            old(self).ghosts@[i as int].state == GhostState::Normal || old(self).ghosts@[i as int].state
                == GhostState::Frightened || old(self).ghosts@[i as int].state == GhostState::Eaten,
        ensures
            final(self).wf(),
            exists|draw: u32| #[trigger]
                final(self).ghost_ticked(old(self), i as int, col as int, row as int, target_keys@, door_keys@, draw, respawned),
    {
        let draw = random_u32();
        let respawned = self.update_ghost_with_draw(i, col, row, target_keys, door_keys, draw);
        assert(self.ghost_ticked(old(self), i as int, col as int, row as int, target_keys@, door_keys@, draw, respawned));
        respawned
    }

    /// Is this game `old` after roaming ghost `i` took its tick on tile
    /// (`col`, `row`) with the random number `draw`, `respawned` telling
    /// whether it went back into the house? Only ghost `i` changed.
    pub open spec fn ghost_ticked(
        &self,
        old: &Game,
        i: int,
        col: int,
        row: int,
        target_keys: Seq<u32>,
        door_keys: Seq<u32>,
        draw: u32,
        respawned: bool,
    ) -> bool {
        &&& self.ghosts@.len() == 4
        &&& forall|j: int| 0 <= j < 4 && j != i ==> #[trigger] self.ghosts@[j] == old.ghosts@[j]
        &&& crate::entities::ghost_stepped(
            old.ghosts@[i],
            self.ghosts@[i],
            col,
            row,
            target_keys,
            door_keys,
            draw,
            respawned,
        )
        &&& *self == (Game { ghosts: self.ghosts, ..*old })
    }

    /// One tick of roaming ghost `i` on tile (`col`, `row`) with the random
    /// number `draw` for a frightened choice (see [`GhostEntity::update`]).
    /// Returns whether it respawned in the house.
    #[verifier::rlimit(40)]
    pub fn update_ghost_with_draw(
        &mut self,
        i: usize,
        col: i32,
        row: i32,
        target_keys: [u32; 4],
        door_keys: [u32; 4],
        draw: u32,
    ) -> (respawned: bool)
        requires
            old(self).wf(),
            i < 4,
            crate::entities::coord_ok(col),
            crate::entities::coord_ok(row),
            old(self).ghosts@[i as int].state == GhostState::Normal || old(self).ghosts@[i as int].state
                == GhostState::Frightened || old(self).ghosts@[i as int].state == GhostState::Eaten,
        ensures
            final(self).wf(),
            final(self).ghost_ticked(old(self), i as int, col as int, row as int, target_keys@, door_keys@, draw, respawned),
    {
        let mut g = self.ghosts[i];
        let ghost before = g;
        let respawned = g.update(&self.maze, col, row, target_keys, door_keys, draw);
        proof {
            if !respawned && must_choose(before, col as int, row as int) && !(before.state == GhostState::Eaten
                && row == 12 && at_door_column(col as int)) {
                lemma_choice_is_legal(
                    col as int,
                    row as int,
                    before.dir,
                    before.state != GhostState::Normal,
                    before.state == GhostState::Frightened,
                    if before.state == GhostState::Eaten {
                        door_keys@
                    } else {
                        target_keys@
                    },
                    draw,
                    g.dir,
                );
            }
        }
        self.ghosts.set(i, g);
        respawned
    }
}

/// What resolving Pac-Man's contacts `touching` does to game `old`, giving
/// `new` and `death_ms` (see [`Game::check_collisions`]).
pub open spec fn collisions_resolved(old: Game, new: Game, touching: Seq<bool>, death_ms: Option<u32>) -> bool {
    let death = exists|i: int| 0 <= i < 4 && touching[i] && #[trigger] deadly(old.ghosts@[i]);
    if death {
        &&& death_ms == Some(DEATH_MS)
        &&& new == (Game {
            lives: if old.lives > 0 { (old.lives - 1) as u8 } else { 0u8 },
            state: GameState::Dying,
            pacman: Pacman { dying: true, ..old.pacman },
            frightened: false,
            event_death: true,
            ..old
        })
    } else {
        let n = eaten_count(old.ghosts@, touching, 4);
        &&& death_ms == None::<u32>
        &&& new.score == add_score(
            old.score,
            ghost_points_total(old.ghost_combo as nat, n),
        )
        &&& new.ghost_combo == old.ghost_combo + n
        &&& new.event_ghost_eaten == (old.event_ghost_eaten || n > 0)
        &&& forall|i: int|
            0 <= i < 4 ==> #[trigger] new.ghosts@[i] == after_bite(
                old.ghosts@[i],
                touching[i],
            )
        &&& new == (Game {
            score: new.score,
            ghost_combo: new.ghost_combo,
            event_ghost_eaten: new.event_ghost_eaten,
            ghosts: new.ghosts,
            ..old
        })
    }
}

/// Touching a ghost that roams normally or is leaving the house kills
/// Pac-Man: the death animation starts, the game is dying, a life is lost,
/// and nothing is scored.
pub proof fn lemma_touching_a_live_ghost_kills(
    old: Game,
    new: Game,
    touching: Seq<bool>,
    death_ms: Option<u32>,
    i: int,
)
    requires
        collisions_resolved(old, new, touching, death_ms),
        0 <= i < 4,
        touching[i],
        old.ghosts@[i].state == GhostState::Normal || old.ghosts@[i].state == GhostState::Leaving,
    ensures
        death_ms == Some(DEATH_MS),
        new.state == GameState::Dying,
        new.lives == (if old.lives > 0 { old.lives - 1 } else { 0 }),
        new.event_death,
        new.pacman.dying,
        new.score == old.score,
        new.ghosts == old.ghosts,
{
    assert(deadly(old.ghosts@[i]));
}

/// Touching only ghosts that cannot kill him, Pac-Man lives on: each blue
/// ghost he touches is eaten, every other ghost keeps its state, and the game
/// keeps its state and lives.
pub proof fn lemma_touching_harmless_ghosts(old: Game, new: Game, touching: Seq<bool>, death_ms: Option<u32>)
    requires
        collisions_resolved(old, new, touching, death_ms),
        forall|j: int|
            0 <= j < 4 && #[trigger] touching[j] ==> old.ghosts@[j].state != GhostState::Normal
                && old.ghosts@[j].state != GhostState::Leaving,
    ensures
        death_ms is None,
        new.state == old.state,
        new.lives == old.lives,
        forall|j: int|
            0 <= j < 4 ==> (#[trigger] new.ghosts@[j]).state == (if touching[j] && old.ghosts@[j].state
                == GhostState::Frightened {
                GhostState::Eaten
            } else {
                old.ghosts@[j].state
            }),
{
    assert(!exists|j: int| 0 <= j < 4 && touching[j] && #[trigger] deadly(old.ghosts@[j]));
}

/// Ending a frightened spell changes only blue ghosts, which roam normally
/// again; every other ghost (an eaten one heading home among them) keeps its
/// state, and no ghost turns or moves.
pub proof fn lemma_spell_end_calms_only_blue_ghosts(old: Seq<GhostEntity>, new: Seq<GhostEntity>)
    requires
        old.len() == 4,
        new.len() == 4,
        forall|i: int| 0 <= i < 4 ==> #[trigger] new[i] == calmed_ghost(old[i]),
    ensures
        forall|i: int|
            0 <= i < 4 ==> {
                &&& (#[trigger] new[i]).state == (if old[i].state == GhostState::Frightened {
                    GhostState::Normal
                } else {
                    old[i].state
                })
                &&& new[i].dir == old[i].dir
                &&& new[i].cur_tile == old[i].cur_tile
                &&& new[i].id == old[i].id
            },
{
}

/// Starting a frightened spell turns exactly the normally roaming ghosts
/// blue and reverses them; ghosts in the house, leaving it or eaten are left
/// as they are.
pub proof fn lemma_spell_start_frightens_roaming_ghosts(old: Seq<GhostEntity>, new: Seq<GhostEntity>)
    requires
        old.len() == 4,
        new.len() == 4,
        forall|i: int| 0 <= i < 4 ==> #[trigger] new[i] == frightened_ghost(old[i]),
    ensures
        forall|i: int|
            0 <= i < 4 ==> {
                &&& (#[trigger] new[i]).state == (if old[i].state == GhostState::Normal {
                    GhostState::Frightened
                } else {
                    old[i].state
                })
                &&& new[i].dir == (if old[i].state == GhostState::Normal {
                    opposite_of(old[i].dir)
                } else {
                    old[i].dir
                })
                &&& new[i].cur_tile == old[i].cur_tile
            },
{
}

/// When scatter and chase alternate, exactly the normally roaming ghosts
/// reverse; no ghost changes state.
pub proof fn lemma_mode_switch_reverses_roaming_ghosts(old: Seq<GhostEntity>, new: Seq<GhostEntity>)
    requires
        old.len() == 4,
        new.len() == 4,
        forall|i: int| 0 <= i < 4 ==> #[trigger] new[i] == turned_ghost(old[i]),
    ensures
        forall|i: int|
            0 <= i < 4 ==> {
                &&& (#[trigger] new[i]).state == old[i].state
                &&& new[i].dir == (if old[i].state == GhostState::Normal {
                    opposite_of(old[i].dir)
                } else {
                    old[i].dir
                })
            },
{
}

/// In scatter mode every ghost heads for its corner, whatever its
/// personality and its distance to Pac-Man; in chase mode Blinky aims at
/// Pac-Man, Pinky four tiles ahead of him, Inky flanks two tiles ahead, and
/// Clyde chases only from afar.
pub proof fn lemma_ghost_aims(scatter: bool, i: int, far: bool, aim: Aim)
    requires
        0 <= i < 4,
        aim == aim_of(scatter, i, far),
    ensures
        scatter ==> aim == Aim::Corner,
        !scatter && i == 0 ==> aim == Aim::Pacman,
        !scatter && i == 1 ==> aim == Aim::Ahead(4),
        !scatter && i == 2 ==> aim == Aim::Flank(2),
        !scatter && i == 3 ==> aim == (if far { Aim::Pacman } else { Aim::Corner }),
{
}

/// A frightened spell lasts seven seconds minus the level, and never less
/// than two seconds.
pub proof fn lemma_fright_length(level: u8)
    ensures
        fright_ms_for(level) as int == 1000 * (if 7 - level >= 2 { 7 - level } else { 2 }),
{
}

/// The level counter counts up by one, modulo 256.
pub proof fn lemma_next_level(level: u8)
    ensures
        add_level(level) as int == (level as int + 1) % 256,
{
}

impl Default for Game {
    fn default() -> (g: Game)
        ensures
            g.wf(),
            g.maze.dots@ == layout_dots(),
            g.dots_remaining == g.maze.total_dots,
            g.score == 0,
            g.lives == START_LIVES,
            g.level == 1,
            g.state == GameState::Ready,
            g.no_events(),
    {
        Self::new()
    }
}

} // verus!
