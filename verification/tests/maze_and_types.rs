use pacman::entities::{is_blocked, TUNNEL_ROW};
use pacman::maze::{Cell, Maze, MAZE};
use pacman::types::Direction;

#[test]
fn opposite_reverses_each_direction() {
    assert_eq!(Direction::Up.opposite(), Direction::Down);
    assert_eq!(Direction::Down.opposite(), Direction::Up);
    assert_eq!(Direction::Left.opposite(), Direction::Right);
    assert_eq!(Direction::Right.opposite(), Direction::Left);
    assert_eq!(Direction::Stop.opposite(), Direction::Stop);
    for d in [Direction::Up, Direction::Left, Direction::Down, Direction::Right, Direction::Stop] {
        assert_eq!(d.opposite().opposite(), d);
        let (dx, dy) = d.delta();
        let (ox, oy) = d.opposite().delta();
        assert_eq!((ox, oy), (-dx, -dy));
    }
}

#[test]
fn delta_is_a_unit_step_in_col_row_space() {
    assert_eq!(Direction::Up.delta(), (0, -1));
    assert_eq!(Direction::Down.delta(), (0, 1));
    assert_eq!(Direction::Left.delta(), (-1, 0));
    assert_eq!(Direction::Right.delta(), (1, 0));
    assert_eq!(Direction::Stop.delta(), (0, 0));
}

#[test]
fn direction_codes_round_trip() {
    assert_eq!(Direction::from_u8(0), Direction::Up);
    assert_eq!(Direction::from_u8(1), Direction::Left);
    assert_eq!(Direction::from_u8(2), Direction::Down);
    assert_eq!(Direction::from_u8(3), Direction::Right);
    assert_eq!(Direction::from_u8(4), Direction::Stop);
    assert_eq!(Direction::from_u8(200), Direction::Stop);
    for v in 0u8..=255 {
        let expected = if v <= 3 { v } else { 4 };
        assert_eq!(Direction::from_u8(v).as_u8(), expected);
    }
    for d in [Direction::Up, Direction::Left, Direction::Down, Direction::Right, Direction::Stop] {
        assert_eq!(Direction::from_u8(d.as_u8()), d);
    }
}

#[test]
fn maze_has_the_classic_size_and_dot_count() {
    let m = Maze::new();
    assert_eq!(m.width, 28);
    assert_eq!(m.height, 31);
    assert_eq!(m.total_dots, 270);
    assert_eq!(m.dots.len(), 28 * 31);
    assert_eq!(m.dots.iter().filter(|&&d| d == 2).count(), 4);
    assert_eq!(m.door_row, 12);
    assert_eq!(m.door_cols, (13, 14));
    let rows = m.rows();
    assert_eq!(rows.len(), 31);
    assert!(rows.iter().all(|r| r.len() == 28));
    assert_eq!(rows[0], MAZE[0]);
    assert_eq!(rows[12], "######.######==######.######");
}

#[test]
fn cells_follow_the_layout() {
    let m = Maze::default();
    assert_eq!(m.cell(0, 0), Cell::Wall);
    assert_eq!(m.cell(1, 1), Cell::Empty);
    assert_eq!(m.cell(13, 12), Cell::Door);
    assert_eq!(m.cell(14, 12), Cell::Door);
    assert_eq!(m.cell(0, 14), Cell::Empty);
    // Everything off the board reads as wall.
    assert_eq!(m.cell(-1, 14), Cell::Wall);
    assert_eq!(m.cell(28, 5), Cell::Wall);
    assert_eq!(m.cell(3, 31), Cell::Wall);
    assert!(m.in_bounds(0, 0));
    assert!(m.in_bounds(27, 30));
    assert!(!m.in_bounds(28, 0));
    assert!(!m.in_bounds(0, -1));
    assert_eq!(m.idx(5, 2), 2 * 28 + 5);
}

#[test]
fn door_blocks_pacman_but_not_ghosts() {
    let m = Maze::new();
    assert!(m.blocked_pacman(13, 12));
    assert!(!m.blocked_ghost(13, 12));
    assert!(m.blocked_pacman(0, 0));
    assert!(m.blocked_ghost(0, 0));
    assert!(!m.blocked_pacman(1, 1));
    assert!(!m.blocked_ghost(1, 1));
}

#[test]
fn tunnel_row_is_open_off_the_board() {
    let m = Maze::new();
    assert_eq!(TUNNEL_ROW, 14);
    assert!(!is_blocked(&m, false, -1, 14));
    assert!(!is_blocked(&m, true, 28, 14));
    assert!(is_blocked(&m, false, -1, 13));
    assert!(is_blocked(&m, true, 5, -1));
    assert!(is_blocked(&m, false, 13, 12));
    assert!(!is_blocked(&m, true, 13, 12));
    assert!(!is_blocked(&m, false, 1, 1));
}

#[test]
fn eating_a_tile_empties_it() {
    let mut m = Maze::new();
    assert_eq!(m.eat_dot(1, 1), 1);
    assert_eq!(m.eat_dot(1, 1), 0);
    assert_eq!(m.eat_dot(1, 3), 2);
    assert_eq!(m.eat_dot(1, 3), 0);
    assert_eq!(m.eat_dot(0, 0), 0);
    assert_eq!(m.eat_dot(-1, 14), 0);
    assert_eq!(m.eat_dot(40, 40), 0);
    assert_eq!(m.dots.iter().filter(|&&d| d != 0).count(), 268);
    assert_eq!(m.total_dots, 270);
}

#[test]
fn reset_dots_restores_the_board() {
    let fresh = Maze::new();
    let mut m = Maze::new();
    for r in 0..31 {
        for c in 0..28 {
            m.eat_dot(c, r);
        }
    }
    assert!(m.dots.iter().all(|&d| d == 0));
    m.reset_dots();
    assert_eq!(m.dots, fresh.dots);
}

#[test]
fn grid_string_encodes_every_tile() {
    let mut m = Maze::new();
    let grid = m.grid_string();
    assert_eq!(grid.len(), 868);
    assert_eq!(&grid[0..28], "0000000000000000000000000000");
    assert_eq!(&grid[28..56], "0111111111111001111111111110");
    assert_eq!(grid.chars().filter(|&c| c == '2').count(), 4);
    m.eat_dot(1, 1);
    assert_eq!(&m.grid_string()[28..30], "00");
}

#[test]
fn maze_json_lists_the_rows() {
    let m = Maze::new();
    let json = m.maze_json();
    let expected = format!(
        "[{}]",
        MAZE.iter().map(|r| format!("\"{}\"", r)).collect::<Vec<_>>().join(",")
    );
    assert_eq!(json, expected);
    assert!(json.starts_with("[\"############################\",\"#............##............#\""));
}
