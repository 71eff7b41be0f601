use pacman::entities::{GhostState, RESPAWN_RELEASE_MS};
use pacman::game::{
    Aim, Game, GameState, Tick, CHASE_MS, DEATH_MS, LEVEL_COMPLETE_MS, PACMAN_SPAWN, RELEASE_MS,
    SCATTER_MS, START_LIVES,
};
use pacman::types::Direction;

fn eat_everything(g: &mut Game) {
    for r in 0..31 {
        for c in 0..28 {
            g.eat_dots(c, r);
        }
    }
}

#[test]
fn new_game_is_ready_with_three_lives() {
    let g = Game::new();
    assert_eq!(g.state, GameState::Ready);
    assert_eq!(g.score, 0);
    assert_eq!(g.lives, 3);
    assert_eq!(START_LIVES, 3);
    assert_eq!(g.level, 1);
    assert_eq!(g.dots_remaining, 270);
    assert!(g.scatter);
    assert!(!g.frightened);
    assert_eq!(g.ghosts.len(), 4);
    for (i, gh) in g.ghosts.iter().enumerate() {
        assert_eq!(gh.id, i);
        assert_eq!(gh.state, GhostState::House);
        assert_eq!(gh.dir, Direction::Up);
    }
    assert_eq!(g.ghosts[0].home, (13, 13));
    assert_eq!(g.ghosts[3].scatter, (1, 28));
    assert_eq!(g.pacman.dir, Direction::Left);
    assert_eq!(PACMAN_SPAWN, (13, 23));
    let d = Game::default();
    assert_eq!(d.dots_remaining, 270);
}

#[test]
fn start_and_pause_drive_the_state_machine() {
    let mut g = Game::new();
    g.toggle_pause();
    assert_eq!(g.state, GameState::Ready);
    g.start();
    assert_eq!(g.state, GameState::Playing);
    g.toggle_pause();
    assert_eq!(g.state, GameState::Paused);
    g.toggle_pause();
    assert_eq!(g.state, GameState::Playing);
    g.toggle_pause();
    g.start();
    assert_eq!(g.state, GameState::Playing);
    g.start();
    assert_eq!(g.state, GameState::Playing);
}

#[test]
fn update_steps_only_while_playing() {
    let mut g = Game::new();
    assert_eq!(g.update(true), Tick::Idle);
    g.start();
    g.event_dot = true;
    assert_eq!(g.update(false), Tick::Step);
    assert!(!g.event_dot);
    g.toggle_pause();
    assert_eq!(g.update(true), Tick::Idle);
}

#[test]
fn dots_and_pellets_score() {
    let mut g = Game::new();
    g.start();
    assert_eq!(g.eat_dots(1, 1), None);
    assert_eq!(g.score, 10);
    assert_eq!(g.dots_remaining, 269);
    assert!(g.event_dot);
    // The same tile gives nothing the second time.
    assert_eq!(g.eat_dots(1, 1), None);
    assert_eq!(g.score, 10);
    assert_eq!(g.dots_remaining, 269);
    // An empty tile and a wall give nothing either.
    assert_eq!(g.eat_dots(0, 0), None);
    assert_eq!(g.eat_dots(-3, 14), None);
    assert_eq!(g.score, 10);
}

#[test]
fn power_pellet_frightens_roaming_ghosts() {
    let mut g = Game::new();
    g.reset_positions();
    g.start();
    assert_eq!(g.ghosts[0].state, GhostState::Normal);
    assert_eq!(g.ghosts[0].dir, Direction::Left);
    assert_eq!(g.eat_dots(1, 3), Some(6000));
    assert_eq!(g.score, 50);
    assert!(g.frightened);
    assert!(g.event_pellet);
    assert!(g.event_fright);
    assert_eq!(g.ghost_combo, 0);
    assert_eq!(g.ghosts[0].state, GhostState::Frightened);
    assert_eq!(g.ghosts[0].dir, Direction::Right);
    assert_eq!(g.ghosts[1].state, GhostState::House);
    g.end_frightened();
    assert!(!g.frightened);
    assert_eq!(g.ghosts[0].state, GhostState::Normal);
}

#[test]
fn fright_gets_shorter_with_the_level() {
    let mut g = Game::new();
    g.level = 3;
    assert_eq!(g.eat_dots(1, 3), Some(4000));
    g.level = 5;
    assert_eq!(g.eat_dots(26, 3), Some(2000));
    g.level = 9;
    assert_eq!(g.eat_dots(1, 23), Some(2000));
}

#[test]
fn eating_ghosts_doubles_the_bonus() {
    let mut g = Game::new();
    g.reset_positions();
    g.start();
    for i in 0..4 {
        g.ghosts[i].place((6, 5), GhostState::Normal);
    }
    g.eat_dots(1, 3);
    let base = g.score;
    assert_eq!(g.check_collisions([true, false, false, false]), None);
    assert_eq!(g.score, base + 200);
    assert_eq!(g.ghosts[0].state, GhostState::Eaten);
    assert!(g.event_ghost_eaten);
    assert_eq!(g.check_collisions([true, true, true, true]), None);
    assert_eq!(g.score, base + 200 + 400 + 800 + 1600);
    assert_eq!(g.ghost_combo, 4);
    assert!(g.ghosts.iter().all(|gh| gh.state == GhostState::Eaten));
    assert_eq!(g.lives, 3);
}

#[test]
fn touching_a_roaming_ghost_costs_a_life() {
    let mut g = Game::new();
    g.reset_positions();
    g.start();
    assert_eq!(g.check_collisions([false, true, false, false]), None);
    assert_eq!(g.lives, 3);
    assert_eq!(g.check_collisions([true, false, false, false]), Some(DEATH_MS));
    assert_eq!(g.lives, 2);
    assert_eq!(g.state, GameState::Dying);
    assert!(g.pacman.dying);
    assert!(g.event_death);
    assert_eq!(g.update(false), Tick::Idle);
    assert_eq!(g.state, GameState::Dying);
    assert_eq!(g.update(true), Tick::Reposition);
    assert_eq!(g.state, GameState::Ready);
    assert!(!g.pacman.dying);
    assert_eq!(g.ghosts[0].cur_tile, (13, 11));
    assert_eq!(g.ghosts[2].cur_tile, (14, 13));
    assert_eq!(g.ghosts[2].state, GhostState::House);
}

#[test]
fn three_deaths_end_the_game() {
    let mut g = Game::new();
    for lives_left in [2u8, 1, 0] {
        g.reset_positions();
        g.start();
        assert_eq!(g.check_collisions([true, false, false, false]), Some(DEATH_MS));
        assert_eq!(g.lives, lives_left);
        g.update(true);
    }
    assert_eq!(g.state, GameState::GameOver);
    g.start();
    assert_eq!(g.state, GameState::GameOver);
    g.reset_full();
    assert_eq!(g.state, GameState::Ready);
    assert_eq!(g.lives, 3);
    assert_eq!(g.score, 0);
}

#[test]
fn clearing_the_board_advances_the_level() {
    let mut g = Game::new();
    g.start();
    assert_eq!(g.check_level_complete(), None);
    eat_everything(&mut g);
    assert_eq!(g.dots_remaining, 0);
    assert_eq!(g.score, 266 * 10 + 4 * 50);
    assert_eq!(g.check_level_complete(), Some(LEVEL_COMPLETE_MS));
    assert_eq!(g.state, GameState::LevelComplete);
    assert!(g.event_level);
    assert_eq!(g.update(false), Tick::Idle);
    assert_eq!(g.update(true), Tick::Reposition);
    assert_eq!(g.level, 2);
    assert_eq!(g.state, GameState::Ready);
    assert_eq!(g.dots_remaining, 270);
    assert_eq!(g.score, 2860);
}

#[test]
fn modes_alternate_and_roaming_ghosts_reverse() {
    let mut g = Game::new();
    g.reset_positions();
    assert!(g.scatter);
    assert_eq!(g.switch_mode(), CHASE_MS);
    assert!(!g.scatter);
    assert_eq!(g.ghosts[0].dir, Direction::Right);
    assert_eq!(g.ghosts[1].dir, Direction::Up);
    assert_eq!(g.switch_mode(), SCATTER_MS);
    assert_eq!(g.ghosts[0].dir, Direction::Left);
    // No reversal during a frightened spell.
    g.eat_dots(1, 3);
    let before = g.ghosts[0].dir;
    g.switch_mode();
    assert_eq!(g.ghosts[0].dir, before);
}

#[test]
fn each_ghost_aims_its_own_way() {
    let mut g = Game::new();
    assert_eq!(g.ghost_aim(0, true), Aim::Corner);
    g.switch_mode();
    assert_eq!(g.ghost_aim(0, false), Aim::Pacman);
    assert_eq!(g.ghost_aim(1, false), Aim::Ahead(4));
    assert_eq!(g.ghost_aim(2, false), Aim::Flank(2));
    assert_eq!(g.ghost_aim(3, true), Aim::Pacman);
    assert_eq!(g.ghost_aim(3, false), Aim::Corner);
}

#[test]
fn ghost_ticks_through_the_game() {
    let mut g = Game::new();
    g.update_ghost_house(1, false, true);
    assert_eq!(g.ghosts[1].dir, Direction::Down);
    g.update_ghost_house(1, true, true);
    assert_eq!(g.ghosts[1].state, GhostState::Leaving);
    g.update_ghost_leaving(1, true, (13, 11));
    assert_eq!(g.ghosts[1].state, GhostState::Normal);
    assert!(!g.update_ghost(1, 13, 11, [0, 1, 2, 3], [0; 4]));
    assert!(!g.update_ghost_with_draw(1, 13, 11, [0, 1, 2, 3], [0; 4], 9));
    assert_eq!(g.ghosts[0].state, GhostState::House);
    assert_eq!(RELEASE_MS, [0, 1000, 3000, 5000]);
    assert_eq!(RESPAWN_RELEASE_MS, 800);
}

#[test]
fn set_dir_buffers_a_turn() {
    let mut g = Game::new();
    g.set_dir(Direction::Up);
    assert_eq!(g.pacman.next_dir, Some(Direction::Up));
}

#[test]
fn frightened_ghost_in_the_game_follows_the_draw() {
    let mut g = Game::new();
    g.reset_positions();
    g.start();
    g.eat_dots(1, 3);
    assert_eq!(g.ghosts[0].state, GhostState::Frightened);
    // Blinky left (13, 11) heading right after the pellet reversed him. On
    // the tile (12, 11) the open ways are up, left and right (down is wall),
    // and a frightened ghost may reverse: the draw picks among the three.
    let expected = [Direction::Up, Direction::Left, Direction::Right];
    for draw in [0u32, 1, 2, 4] {
        let mut h = Game::new();
        h.reset_positions();
        h.start();
        h.eat_dots(1, 3);
        assert!(!h.update_ghost_with_draw(0, 12, 11, [0; 4], [0; 4], draw));
        assert_eq!(h.ghosts[0].dir, expected[(draw % 3) as usize]);
        assert_eq!(h.ghosts[0].cur_tile, (12, 11));
        assert_eq!(h.ghosts[0].state, GhostState::Frightened);
    }
}
