use pacman::entities::{pick_option, GhostEntity, GhostState, Pacman, F32_MAX_BITS};
use pacman::maze::Maze;
use pacman::types::Direction;

fn keys_toward(col: i32, row: i32, target: (f32, f32)) -> [u32; 4] {
    let mut keys = [0u32; 4];
    for (k, d) in [Direction::Up, Direction::Left, Direction::Down, Direction::Right].iter().enumerate() {
        let (dx, dy) = d.delta();
        let nx = col as f32 + 0.5 + dx as f32;
        let ny = row as f32 + 0.5 + dy as f32;
        keys[k] = ((nx - target.0).powi(2) + (ny - target.1).powi(2)).to_bits();
    }
    keys
}

#[test]
fn pacman_starts_heading_left() {
    let p = Pacman::new();
    assert_eq!(p.dir, Direction::Left);
    assert_eq!(p.next_dir, None);
    assert!(!p.dying);
}

#[test]
fn pacman_reverses_at_once() {
    let m = Maze::new();
    let mut p = Pacman::new();
    p.set_dir(Direction::Right);
    assert_eq!(p.next_dir, Some(Direction::Right));
    let snap = p.update(&m, 13, 23, false);
    assert!(snap);
    assert_eq!(p.dir, Direction::Right);
    assert_eq!(p.next_dir, None);
}

#[test]
fn pacman_turns_only_at_a_centre_into_an_open_tile() {
    let m = Maze::new();
    // Tile (6, 5) is a crossing: up and down are open.
    let mut p = Pacman::new();
    p.set_dir(Direction::Up);
    assert!(!p.update(&m, 6, 5, false));
    assert_eq!(p.dir, Direction::Left);
    assert_eq!(p.next_dir, Some(Direction::Up));
    assert!(p.update(&m, 6, 5, true));
    assert_eq!(p.dir, Direction::Up);
    assert_eq!(p.next_dir, None);
    // Tile (2, 5): the tile above is a wall, so the turn stays buffered.
    let mut q = Pacman::new();
    q.set_dir(Direction::Up);
    assert!(!q.update(&m, 2, 5, true));
    assert_eq!(q.dir, Direction::Left);
    assert_eq!(q.next_dir, Some(Direction::Up));
}

#[test]
fn pacman_drops_stop_and_same_heading_requests() {
    let m = Maze::new();
    let mut p = Pacman::new();
    p.set_dir(Direction::Stop);
    assert!(!p.update(&m, 13, 23, true));
    assert_eq!(p.dir, Direction::Left);
    assert_eq!(p.next_dir, None);
    p.set_dir(Direction::Left);
    assert!(!p.update(&m, 13, 23, true));
    assert_eq!(p.next_dir, None);
    p.dying = true;
    p.reset();
    assert!(!p.dying);
}

#[test]
fn ghost_choice_is_greedy_and_never_reverses() {
    let m = Maze::new();
    // At the crossing (6, 5), heading right: up, down and right are open,
    // left would be a reversal.
    let mut g = GhostEntity::new(0, (13, 13), (25, 1));
    g.dir = Direction::Right;
    g.choose_dir(&m, 6, 5, keys_toward(6, 5, (6.5, 0.5)), false, false, 0);
    assert_eq!(g.dir, Direction::Up);
    g.dir = Direction::Right;
    g.choose_dir(&m, 6, 5, keys_toward(6, 5, (6.5, 20.5)), false, false, 0);
    assert_eq!(g.dir, Direction::Down);
    // The target lies behind it, but reversing is not allowed.
    g.dir = Direction::Right;
    g.choose_dir(&m, 6, 5, keys_toward(6, 5, (0.5, 5.5)), false, false, 0);
    assert_ne!(g.dir, Direction::Left);
    // With reversal allowed the nearest way is taken.
    g.dir = Direction::Right;
    g.choose_dir(&m, 6, 5, keys_toward(6, 5, (0.5, 5.5)), true, false, 0);
    assert_eq!(g.dir, Direction::Left);
}

#[test]
fn ghost_keeps_first_option_when_no_distance_is_finite() {
    let m = Maze::new();
    let mut g = GhostEntity::new(0, (13, 13), (25, 1));
    g.dir = Direction::Right;
    g.choose_dir(&m, 6, 5, [f32::NAN.to_bits(); 4], false, false, 0);
    assert_eq!(g.dir, Direction::Up);
    g.dir = Direction::Right;
    g.choose_dir(&m, 6, 5, [f32::INFINITY.to_bits(), 0, F32_MAX_BITS, F32_MAX_BITS], false, false, 0);
    assert_eq!(g.dir, Direction::Up);
    // Ties go to the first option in the order up, left, down, right.
    g.dir = Direction::Right;
    g.choose_dir(&m, 6, 5, [7, 0, 7, 7], false, false, 0);
    assert_eq!(g.dir, Direction::Up);
}

#[test]
fn ghost_reverses_in_a_dead_end() {
    let m = Maze::new();
    // Tile (1, 1) is a corner: only right and down are open.
    let mut g = GhostEntity::new(1, (13, 14), (1, 1));
    g.dir = Direction::Left;
    // Heading left into the corner with reversal forbidden: down is the only way.
    g.choose_dir(&m, 1, 1, [0; 4], false, false, 0);
    assert_eq!(g.dir, Direction::Down);
    // At (1, 29) heading down, the way down and left is walled and up would
    // be a reversal: right is the only way.
    let mut h = GhostEntity::new(1, (13, 14), (1, 1));
    h.dir = Direction::Down;
    h.choose_dir(&m, 1, 29, [0; 4], false, false, 0);
    assert_eq!(h.dir, Direction::Right);
}

#[test]
fn frightened_choice_is_the_drawn_open_direction() {
    let m = Maze::new();
    // At (6, 5) with reversal allowed, the options are up, left, down, right.
    let expected = [Direction::Up, Direction::Left, Direction::Down, Direction::Right];
    for draw in [0u32, 1, 2, 3, 4, 7, 13, u32::MAX] {
        let mut g = GhostEntity::new(2, (14, 13), (25, 28));
        g.dir = Direction::Right;
        g.choose_dir(&m, 6, 5, [0; 4], true, true, draw);
        assert_eq!(g.dir, expected[(draw % 4) as usize]);
    }
    // In the corner (1, 1) only right and down are open.
    for draw in [0u32, 1, 2, 5] {
        let mut g = GhostEntity::new(2, (14, 13), (25, 28));
        g.dir = Direction::Left;
        g.choose_dir(&m, 1, 1, [0; 4], true, true, draw);
        let want = if draw % 2 == 0 { Direction::Down } else { Direction::Right };
        assert_eq!(g.dir, want);
    }
}

#[test]
fn pick_option_takes_the_draw_modulo_the_count() {
    let opts = vec![Direction::Up, Direction::Down, Direction::Right];
    assert_eq!(pick_option(&opts, 0), Direction::Up);
    assert_eq!(pick_option(&opts, 1), Direction::Down);
    assert_eq!(pick_option(&opts, 5), Direction::Right);
    assert_eq!(pick_option(&opts, 6), Direction::Up);
    assert_eq!(pick_option(&vec![Direction::Left], 12345), Direction::Left);
}

#[test]
fn frightened_ghost_uses_the_draw_not_the_target() {
    let m = Maze::new();
    let mut g = GhostEntity::new(0, (13, 13), (25, 1));
    g.place((5, 5), GhostState::Frightened);
    g.dir = Direction::Right;
    // A new tile: frightened ghosts may reverse; the draw picks among the
    // four options however near the target is.
    let keys = keys_toward(6, 5, (6.5, 0.5));
    assert!(!g.update(&m, 6, 5, keys, [0; 4], 2));
    assert_eq!(g.dir, Direction::Down);
    g.cur_tile = (5, 5);
    g.dir = Direction::Right;
    assert!(!g.update(&m, 6, 5, keys, [0; 4], 1));
    assert_eq!(g.dir, Direction::Left);
}

#[test]
fn ghost_house_and_leaving_transitions() {
    let mut g = GhostEntity::new(1, (13, 14), (1, 1));
    assert_eq!(g.state, GhostState::House);
    g.update_house(false, true);
    assert_eq!(g.dir, Direction::Down);
    g.update_house(false, false);
    assert_eq!(g.dir, Direction::Up);
    g.update_house(true, true);
    assert_eq!(g.state, GhostState::Leaving);
    assert_eq!(g.dir, Direction::Up);
    assert_eq!(g.cur_tile, (13, 14));
    g.update_leaving(false, (13, 12));
    assert_eq!(g.state, GhostState::Leaving);
    g.update_leaving(true, (13, 11));
    assert_eq!(g.state, GhostState::Normal);
    assert_eq!(g.dir, Direction::Left);
    assert_eq!(g.cur_tile, (13, 11));
}

#[test]
fn place_and_reverse() {
    let mut g = GhostEntity::new(0, (13, 13), (25, 1));
    g.place((13, 11), GhostState::Normal);
    assert_eq!(g.dir, Direction::Left);
    assert_eq!(g.cur_tile, (13, 11));
    g.reverse();
    assert_eq!(g.dir, Direction::Right);
    g.place((14, 13), GhostState::House);
    assert_eq!(g.dir, Direction::Up);
    assert_eq!(g.state, GhostState::House);
}

#[test]
fn eaten_ghost_goes_down_the_door_and_respawns() {
    let m = Maze::new();
    let mut g = GhostEntity::new(3, (14, 15), (1, 28));
    g.place((13, 11), GhostState::Eaten);
    g.cur_tile = (13, 12);
    g.dir = Direction::Down;
    let door = keys_toward(13, 12, (13.5, 12.5));
    assert!(!g.update(&m, 13, 12, door, door, 0));
    assert_eq!(g.dir, Direction::Down);
    assert_eq!(g.state, GhostState::Eaten);
    assert!(g.update(&m, 14, 13, door, door, 0));
    assert_eq!(g.state, GhostState::House);
    assert_eq!(g.dir, Direction::Up);
    assert_eq!(g.cur_tile, (14, 15));
}

#[test]
fn roaming_ghost_rechooses_only_on_a_new_tile() {
    let m = Maze::new();
    let mut g = GhostEntity::new(0, (13, 13), (25, 1));
    g.place((6, 5), GhostState::Normal);
    g.dir = Direction::Right;
    // Same tile, way ahead open: keeps heading.
    assert!(!g.update(&m, 6, 5, keys_toward(6, 5, (6.5, 0.5)), [0; 4], 0));
    assert_eq!(g.dir, Direction::Right);
    // New tile: chooses toward the target.
    g.cur_tile = (5, 5);
    assert!(!g.update(&m, 6, 5, keys_toward(6, 5, (6.5, 0.5)), [0; 4], 0));
    assert_eq!(g.dir, Direction::Up);
    assert_eq!(g.cur_tile, (6, 5));
}
