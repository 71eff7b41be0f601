//! Pac-Man and ghost entities: the discrete half of their movement and the
//! ghost AI.
//!
//! Positions, speeds and animation phases are real numbers and are kept by the
//! caller; what is decided here is which tiles are open, which way a body
//! turns, and which state a ghost is in. Every tile coordinate handed in is
//! the tile under the body (its position rounded down).

use vstd::prelude::*;

use crate::maze::{cell_at, tile_in_bounds, Cell, Maze};
use crate::types::{delta_of, opposite_of, Direction};

verus! {

/// The row at which the tunnel wraps left/right across the screen edge.
pub const TUNNEL_ROW: i32 = 14;

/// Milliseconds an eaten ghost waits in the house before it leaves again.
pub const RESPAWN_RELEASE_MS: u32 = 800;

/// The largest `u32` whose bits are a finite `f32` (the bits of `f32::MAX`).
///
/// The ghost AI takes distances as keys: the bits of a non-negative `f32`
/// distance. By the IEEE-754 encoding (a fact of the format, not proved
/// here) the unsigned order of such bits is the numeric order of the
/// distances, with infinity and NaN above this value; the contracts below
/// speak of the keys only.
pub const F32_MAX_BITS: u32 = 0x7f7f_ffff;

/// Is tile (`c`, `r`) blocked for a moving body? Off the board only the tunnel
/// row is open; ghosts pass the door, Pac-Man does not.
pub open spec fn blocked_at(ghost: bool, c: int, r: int) -> bool {
    if !tile_in_bounds(c, r) {
        r != TUNNEL_ROW
    } else if ghost {
        cell_at(c, r) == Cell::Wall
    } else {
        cell_at(c, r) != Cell::Empty
    }
}

/// A tile coordinate to which one step can be added in either direction.
pub open spec fn coord_ok(v: i32) -> bool {
    i32::MIN < v < i32::MAX
}

/// The tile one step from (`c`, `r`) in direction `d`.
pub open spec fn step_from(c: int, r: int, d: Direction) -> (int, int) {
    (c + delta_of(d).0, r + delta_of(d).1)
}

/// Is a tile blocked for a moving body? Out-of-bounds is treated as open only
/// on the tunnel row (so entities can exit and wrap).
pub fn is_blocked(maze: &Maze, ghost: bool, c: i32, r: i32) -> (b: bool)
    requires
        maze.wf(),
    ensures
        b == blocked_at(ghost, c as int, r as int),
{
    if !maze.in_bounds(c, r) {
        return r != TUNNEL_ROW;
    }
    if ghost {
        maze.blocked_ghost(c, r)
    } else {
        maze.blocked_pacman(c, r)
    }
}

// ---------------------------------------------------------------------------
// Pac-Man
// ---------------------------------------------------------------------------

/// Pac-Man's heading, buffered turn and death flag.
#[derive(Clone, Copy, PartialEq, Eq, Debug, Structural)]
pub struct Pacman {
    pub dir: Direction,
    pub next_dir: Option<Direction>,
    pub dying: bool,
}

/// Pac-Man at spawn: heading left, nothing buffered, alive.
pub open spec fn pacman_at_spawn() -> Pacman {
    Pacman { dir: Direction::Left, next_dir: None, dying: false }
}

/// The turn rule: what a buffered direction does to Pac-Man on tile
/// (`col`, `row`), and whether his position must snap to the tile centre.
/// A reversal is always taken; a perpendicular turn only at a tile centre and
/// only into an open tile, and otherwise stays buffered; a stop request or a
/// request for the current heading is dropped.
pub open spec fn steered(p: Pacman, col: int, row: int, at_center: bool) -> (Pacman, bool) {
    match p.next_dir {
        None => (p, false),
        Some(nd) => {
            if nd == Direction::Stop {
                (Pacman { next_dir: None, ..p }, false)
            } else if nd == opposite_of(p.dir) {
                (Pacman { dir: nd, next_dir: None, ..p }, true)
            } else if nd != p.dir {
                let ahead = step_from(col, row, nd);
                if at_center && !blocked_at(false, ahead.0, ahead.1) {
                    (Pacman { dir: nd, next_dir: None, ..p }, true)
                } else {
                    (p, false)
                }
            } else {
                (Pacman { next_dir: None, ..p }, false)
            }
        },
    }
}

/// Steering never leaves Pac-Man without a heading, and a reversal is never
/// refused.
pub proof fn lemma_steered_keeps_heading(p: Pacman, col: int, row: int, at_center: bool)
    ensures
        p.dir != Direction::Stop ==> steered(p, col, row, at_center).0.dir != Direction::Stop,
        p.next_dir == Some(opposite_of(p.dir)) && p.dir != Direction::Stop ==> steered(
            p,
            col,
            row,
            at_center,
        ).0.dir == opposite_of(p.dir),
{
}

impl Pacman {
    pub fn new() -> (p: Pacman)
        ensures
            p == pacman_at_spawn(),
    {
        Pacman { dir: Direction::Left, next_dir: None, dying: false }
    }

    pub fn reset(&mut self)
        ensures
            *final(self) == pacman_at_spawn(),
    {
        self.dir = Direction::Left;
        self.next_dir = None;
        self.dying = false;
    }

    /// Buffer the player's desired direction. Applied at the next tile center,
    /// or immediately if it is a reversal.
    pub fn set_dir(&mut self, d: Direction)
        ensures
            *final(self) == (Pacman { next_dir: Some(d), ..*old(self) }),
    {
        self.next_dir = Some(d);
    }

    /// Apply the buffered direction on tile (`col`, `row`); `at_center` tells
    /// whether Pac-Man is within turning distance of the tile centre along his
    /// heading. Returns whether his position must snap to the tile centre.
    /// Moving forward is left to the caller.
    pub fn update(&mut self, maze: &Maze, col: i32, row: i32, at_center: bool) -> (snap: bool)
        requires
            maze.wf(),
            coord_ok(col),
            coord_ok(row),
        ensures
            (*final(self), snap) == steered(*old(self), col as int, row as int, at_center),
    {
        if let Some(nd) = self.next_dir {
            if nd == Direction::Stop {
                self.next_dir = None;
                false
            } else if nd == self.dir.opposite() {
                // Always allow reversing.
                self.dir = nd;
                self.next_dir = None;
                true
            } else if nd != self.dir {
                // Perpendicular turns only at a tile center.
                if at_center {
                    let (dx, dy) = nd.delta();
                    if !is_blocked(maze, false, col + dx, row + dy) {
                        self.dir = nd;
                        self.next_dir = None;
                        return true;
                    }
                }
                false
            } else {
                self.next_dir = None;
                false
            }
        } else {
            false
        }
    }
}

// ---------------------------------------------------------------------------
// Ghosts
// ---------------------------------------------------------------------------

#[derive(Clone, Copy, PartialEq, Eq, Debug, Structural)]
pub enum GhostState {
    House,
    Leaving,
    Normal,
    Frightened,
    Eaten,
}

/// A ghost's discrete state; its position, speed, release countdown and
/// bobbing phase are kept by the caller.
#[derive(Clone, Copy, Debug)]
pub struct GhostEntity {
    pub id: usize,
    pub dir: Direction,
    pub state: GhostState,
    /// Respawn tile inside the ghost house.
    pub home: (i32, i32),
    /// Scatter-mode target corner tile.
    pub scatter: (i32, i32),
    /// Tile the ghost last chose a direction for.
    pub cur_tile: (i32, i32),
}

/// The four headings in the order in which a ghost considers them.
pub open spec fn dir_order(k: int) -> Direction {
    if k == 0 {
        Direction::Up
    } else if k == 1 {
        Direction::Left
    } else if k == 2 {
        Direction::Down
    } else {
        Direction::Right
    }
}

/// May a ghost heading `cur` on tile (`col`, `row`) take direction `d`? The
/// tile ahead must be open, and the reverse is excluded unless allowed.
pub open spec fn may_take(col: int, row: int, cur: Direction, allow_reverse: bool, d: Direction) -> bool {
    let ahead = step_from(col, row, d);
    &&& !blocked_at(true, ahead.0, ahead.1)
    &&& (allow_reverse || d != opposite_of(cur))
}

/// The directions, among the first `k` of [`dir_order`], that may be taken.
pub open spec fn options_upto(col: int, row: int, cur: Direction, allow_reverse: bool, k: nat) -> Seq<Direction>
    decreases k,
{
    if k == 0 {
        Seq::empty()
    } else {
        let prev = options_upto(col, row, cur, allow_reverse, (k - 1) as nat);
        let d = dir_order(k - 1);
        if may_take(col, row, cur, allow_reverse, d) {
            prev.push(d)
        } else {
            prev
        }
    }
}

/// The directions that may be taken, in the order up, left, down, right.
pub open spec fn options(col: int, row: int, cur: Direction, allow_reverse: bool) -> Seq<Direction> {
    options_upto(col, row, cur, allow_reverse, 4)
}

/// The distance key of direction `d`: `keys` holds one key per direction in
/// the order up, left, down, right.
pub open spec fn key_of(keys: Seq<u32>, d: Direction) -> u32 {
    if d == Direction::Up {
        keys[0]
    } else if d == Direction::Left {
        keys[1]
    } else if d == Direction::Down {
        keys[2]
    } else {
        keys[3]
    }
}

/// Scan `opts` in order, keeping the first option whose key is strictly below
/// every key seen before (starting from [`F32_MAX_BITS`]); returns the kept
/// option and its key (`Stop` with `F32_MAX_BITS` when none is below it).
pub open spec fn scan(opts: Seq<Direction>, keys: Seq<u32>) -> (Direction, u32)
    decreases opts.len(),
{
    if opts.len() == 0 {
        (Direction::Stop, F32_MAX_BITS)
    } else {
        let prev = scan(opts.drop_last(), keys);
        let d = opts.last();
        if key_of(keys, d) < prev.1 {
            (d, key_of(keys, d))
        } else {
            prev
        }
    }
}

/// The greedy choice: the first option nearest to the target, or the first
/// option when no distance is finite.
pub open spec fn nearest(opts: Seq<Direction>, keys: Seq<u32>) -> Direction {
    if scan(opts, keys).1 < F32_MAX_BITS {
        scan(opts, keys).0
    } else {
        opts[0]
    }
}

/// The option that a random draw `draw` selects: the draw modulo the
/// number of options.
pub open spec fn drawn_option(opts: Seq<Direction>, draw: u32) -> Direction {
    opts[(draw as int) % (opts.len() as int)]
}

/// Does `new_dir` follow the direction rule for a ghost heading `cur` on tile
/// (`col`, `row`)? With no option left it reverses; a random choice is the
/// option that the random number `draw` selects; otherwise it is the greedy
/// choice under `keys`.
pub open spec fn chosen_ok(
    col: int,
    row: int,
    cur: Direction,
    allow_reverse: bool,
    randomize: bool,
    keys: Seq<u32>,
    draw: u32,
    new_dir: Direction,
) -> bool {
    let opts = options(col, row, cur, allow_reverse);
    if opts.len() == 0 {
        new_dir == opposite_of(cur)
    } else if randomize {
        new_dir == drawn_option(opts, draw)
    } else {
        new_dir == nearest(opts, keys)
    }
}

/// Does a roaming ghost (normal, frightened or eaten) on tile (`col`, `row`)
/// pick a new direction? On entering a new tile, or when the way ahead is
/// blocked.
pub open spec fn must_choose(g: GhostEntity, col: int, row: int) -> bool {
    let ahead = step_from(col, row, g.dir);
    (col, row) != (g.cur_tile.0 as int, g.cur_tile.1 as int) || blocked_at(true, ahead.0, ahead.1)
}

/// Is column `col` one of the two door columns?
pub open spec fn at_door_column(col: int) -> bool {
    col == 13 || col == 14
}

/// The roaming rule (see [`GhostEntity::update`]): `g` becomes `h` on tile
/// (`col`, `row`) with the random number `draw`, and `respawned` tells
/// whether it went back into the house.
pub open spec fn ghost_stepped(
    g: GhostEntity,
    h: GhostEntity,
    col: int,
    row: int,
    target_keys: Seq<u32>,
    door_keys: Seq<u32>,
    draw: u32,
    respawned: bool,
) -> bool {
    let steer_down = g.state == GhostState::Eaten && row == 12 && at_door_column(col);
    &&& h.id == g.id
    &&& h.home == g.home
    &&& h.scatter == g.scatter
    &&& respawned == (g.state == GhostState::Eaten && row > 12 && at_door_column(col))
    &&& respawned ==> h.state == GhostState::House && h.dir == Direction::Up && h.cur_tile == g.home
    &&& !respawned ==> h.state == g.state
    &&& !respawned ==> (h.cur_tile.0 as int, h.cur_tile.1 as int) == (if must_choose(g, col, row) {
        (col, row)
    } else {
        (g.cur_tile.0 as int, g.cur_tile.1 as int)
    })
    &&& !respawned && steer_down ==> h.dir == Direction::Down
    &&& !respawned && !steer_down ==> if must_choose(g, col, row) {
        chosen_ok(
            col,
            row,
            g.dir,
            g.state != GhostState::Normal,
            g.state == GhostState::Frightened,
            if g.state == GhostState::Eaten {
                door_keys
            } else {
                target_keys
            },
            draw,
            h.dir,
        )
    } else {
        h.dir == g.dir
    }
}

/// At most one option per direction, and never `Stop`.
pub proof fn lemma_options_shape(col: int, row: int, cur: Direction, allow_reverse: bool, k: nat)
    requires
        k <= 4,
    ensures
        options_upto(col, row, cur, allow_reverse, k).len() <= k,
        forall|i: int|
            0 <= i < options_upto(col, row, cur, allow_reverse, k).len() ==> #[trigger] options_upto(
                col,
                row,
                cur,
                allow_reverse,
                k,
            )[i] != Direction::Stop,
    decreases k,
{
    if k > 0 {
        lemma_options_shape(col, row, cur, allow_reverse, (k - 1) as nat);
    }
}

/// Every option may be taken.
pub proof fn lemma_options_may_take(col: int, row: int, cur: Direction, allow_reverse: bool, k: nat)
    requires
        k <= 4,
    ensures
        forall|i: int|
            0 <= i < options_upto(col, row, cur, allow_reverse, k).len() ==> may_take(
                col,
                row,
                cur,
                allow_reverse,
                #[trigger] options_upto(col, row, cur, allow_reverse, k)[i],
            ),
    decreases k,
{
    if k > 0 {
        let prev = options_upto(col, row, cur, allow_reverse, (k - 1) as nat);
        let cur_opts = options_upto(col, row, cur, allow_reverse, k);
        lemma_options_may_take(col, row, cur, allow_reverse, (k - 1) as nat);
        assert forall|i: int| 0 <= i < cur_opts.len() implies may_take(
            col,
            row,
            cur,
            allow_reverse,
            #[trigger] cur_opts[i],
        ) by {
            if i < prev.len() {
                assert(cur_opts[i] == prev[i]);
            }
        }
    }
}

/// The scan keeps the smallest key seen (never above [`F32_MAX_BITS`]), and
/// when that key is below [`F32_MAX_BITS`] it belongs to the kept option.
proof fn lemma_scan(opts: Seq<Direction>, keys: Seq<u32>)
    ensures
        scan(opts, keys).1 <= F32_MAX_BITS,
        scan(opts, keys).1 < F32_MAX_BITS ==> opts.contains(scan(opts, keys).0) && key_of(
            keys,
            scan(opts, keys).0,
        ) == scan(opts, keys).1,
        forall|j: int| 0 <= j < opts.len() ==> scan(opts, keys).1 <= key_of(keys, #[trigger] opts[j]),
    decreases opts.len(),
{
    if opts.len() > 0 {
        let prev = opts.drop_last();
        lemma_scan(prev, keys);
        assert forall|j: int| 0 <= j < opts.len() implies scan(opts, keys).1 <= key_of(keys, #[trigger] opts[j]) by {
            if j < opts.len() - 1 {
                assert(opts[j] == prev[j]);
            }
        }
        if scan(opts, keys).1 < F32_MAX_BITS && scan(opts, keys) == scan(prev, keys) {
            let k = choose|k: int| 0 <= k < prev.len() && prev[k] == scan(prev, keys).0;
            assert(opts[k] == prev[k]);
        }
    }
}

/// The greedy choice of a ghost is one of the directions it may take, and
/// no other option is nearer to the target; so it never reverses unless
/// reversal is allowed.
pub proof fn lemma_greedy_choice(col: int, row: int, cur: Direction, allow_reverse: bool, keys: Seq<u32>)
    requires
        options(col, row, cur, allow_reverse).len() > 0,
    ensures
        ({
            let opts = options(col, row, cur, allow_reverse);
            let d = nearest(opts, keys);
            &&& opts.contains(d)
            &&& may_take(col, row, cur, allow_reverse, d)
            &&& (!allow_reverse ==> d != opposite_of(cur))
            &&& forall|j: int|
                0 <= j < opts.len() && key_of(keys, #[trigger] opts[j]) < F32_MAX_BITS ==> key_of(
                    keys,
                    d,
                ) <= key_of(keys, opts[j])
        }),
{
    let opts = options(col, row, cur, allow_reverse);
    lemma_scan(opts, keys);
    lemma_options_may_take(col, row, cur, allow_reverse, 4);
    let d = nearest(opts, keys);
    if scan(opts, keys).1 < F32_MAX_BITS {
        let k = choose|k: int| 0 <= k < opts.len() && opts[k] == d;
        assert(may_take(col, row, cur, allow_reverse, opts[k]));
    } else {
        assert(opts.contains(opts[0]));
        assert forall|j: int|
            0 <= j < opts.len() && key_of(keys, #[trigger] opts[j]) < F32_MAX_BITS implies key_of(keys, d)
            <= key_of(keys, opts[j]) by {
            assert(scan(opts, keys).1 <= key_of(keys, opts[j]));
        }
        assert(may_take(col, row, cur, allow_reverse, opts[0]));
    }
}

/// Whatever a ghost picks by the direction rule is open ahead (or, at a dead
/// end, the reverse), and it reverses only at a dead end or when reversal is
/// allowed.
pub proof fn lemma_choice_is_legal(
    col: int,
    row: int,
    cur: Direction,
    allow_reverse: bool,
    randomize: bool,
    keys: Seq<u32>,
    draw: u32,
    new_dir: Direction,
)
    requires
        chosen_ok(col, row, cur, allow_reverse, randomize, keys, draw, new_dir),
    ensures
        options(col, row, cur, allow_reverse).len() == 0 ==> new_dir == opposite_of(cur),
        options(col, row, cur, allow_reverse).len() > 0 ==> may_take(
            col,
            row,
            cur,
            allow_reverse,
            new_dir,
        ),
        new_dir == opposite_of(cur) && cur != Direction::Stop ==> allow_reverse || options(
            col,
            row,
            cur,
            allow_reverse,
        ).len() == 0,
        cur != Direction::Stop ==> new_dir != Direction::Stop,
{
    let opts = options(col, row, cur, allow_reverse);
    lemma_options_may_take(col, row, cur, allow_reverse, 4);
    lemma_options_shape(col, row, cur, allow_reverse, 4);
    if opts.len() > 0 {
        if randomize {
            let k = (draw as int) % (opts.len() as int);
            assert(may_take(col, row, cur, allow_reverse, opts[k]));
            assert(opts[k] != Direction::Stop);
        } else {
            lemma_greedy_choice(col, row, cur, allow_reverse, keys);
            let k = choose|k: int| 0 <= k < opts.len() && opts[k] == new_dir;
            assert(opts[k] != Direction::Stop);
        }
    }
}

/// The option that the random number `draw` selects among `options`: the
/// draw modulo their number.
pub fn pick_option(options: &Vec<Direction>, draw: u32) -> (d: Direction)
    requires
        options@.len() > 0,
    ensures
        d == drawn_option(options@, draw),
{
    let n = options.len();
    let i: usize = if n as u64 > u32::MAX as u64 {
        draw as usize
    } else {
        (draw % (n as u32)) as usize
    };
    proof {
        if n as u64 <= u32::MAX as u64 {
            assert((draw % (n as u32)) as int == (draw as int) % (n as int));
        } else {
            vstd::arithmetic::div_mod::lemma_small_mod(draw as nat, n as nat);
        }
    }
    options[i]
}

/// Can Pac-Man enter tile (`c`, `r`)? On the board, a tile whose layout
/// character is neither a wall `#` nor the door `=`; off the board, only on
/// the tunnel row.
pub open spec fn pacman_can_enter(c: int, r: int) -> bool {
    if 0 <= c < 28 && 0 <= r < 31 {
        crate::maze::layout_char(c, r) != '#' && crate::maze::layout_char(c, r) != '='
    } else {
        r == 14
    }
}

/// Can a ghost enter tile (`c`, `r`)? On the board, a tile whose layout
/// character is not a wall `#`; off the board, only on the tunnel row.
pub open spec fn ghost_can_enter(c: int, r: int) -> bool {
    if 0 <= c < 28 && 0 <= r < 31 {
        crate::maze::layout_char(c, r) != '#'
    } else {
        r == 14
    }
}

/// Pac-Man turns sideways only at a tile centre and only into a tile he can
/// enter: never into a wall or the ghost-house door.
pub proof fn lemma_turns_only_into_open_lanes(p: Pacman, col: int, row: int, at_center: bool, q: Pacman, snap: bool)
    requires
        (q, snap) == steered(p, col, row, at_center),
    ensures
        q.dir != p.dir && q.dir != opposite_of(p.dir) ==> at_center && pacman_can_enter(
            col + delta_of(q.dir).0,
            row + delta_of(q.dir).1,
        ),
        q.dir != p.dir ==> snap && q.next_dir is None,
{
}

/// A buffered reversal is taken at once, wherever Pac-Man is.
pub proof fn lemma_reversal_is_immediate(p: Pacman, col: int, row: int, at_center: bool, q: Pacman, snap: bool)
    requires
        (q, snap) == steered(p, col, row, at_center),
        p.dir != Direction::Stop,
        p.next_dir == Some(opposite_of(p.dir)),
    ensures
        q.dir == opposite_of(p.dir),
        q.next_dir is None,
        snap,
{
}

/// Every direction among the first `k` that may be taken is an option.
proof fn lemma_options_complete(col: int, row: int, cur: Direction, allow_reverse: bool, k: nat)
    requires
        k <= 4,
    ensures
        forall|j: int|
            0 <= j < k && may_take(col, row, cur, allow_reverse, dir_order(j)) ==> #[trigger] options_upto(
                col,
                row,
                cur,
                allow_reverse,
                k,
            ).contains(dir_order(j)),
    decreases k,
{
    if k > 0 {
        lemma_options_complete(col, row, cur, allow_reverse, (k - 1) as nat);
        let prev = options_upto(col, row, cur, allow_reverse, (k - 1) as nat);
        let now = options_upto(col, row, cur, allow_reverse, k);
        assert forall|j: int|
            0 <= j < k && may_take(col, row, cur, allow_reverse, dir_order(j)) implies #[trigger] now.contains(
            dir_order(j),
        ) by {
            if j < k - 1 {
                assert(prev.contains(dir_order(j)));
                let m = choose|m: int| 0 <= m < prev.len() && prev[m] == dir_order(j);
                assert(now[m] == prev[m]);
            } else {
                assert(now[now.len() - 1] == dir_order(j));
            }
        }
    }
}

/// A direction other than `Stop` is one of the four in [`dir_order`], at the
/// place of its code.
proof fn lemma_dir_in_order(d: Direction)
    requires
        d != Direction::Stop,
    ensures
        dir_order(crate::types::code_of(d) as int) == d,
        0 <= crate::types::code_of(d) < 4,
{
}

/// An eaten ghost that picks a direction on a new tile may turn back: when
/// the way back is open and nearer to the door than every other open way, it
/// heads back.
pub proof fn lemma_eaten_ghost_may_turn_back(
    g: GhostEntity,
    h: GhostEntity,
    col: int,
    row: int,
    target_keys: Seq<u32>,
    door_keys: Seq<u32>,
    draw: u32,
    respawned: bool,
)
    requires
        ghost_stepped(g, h, col, row, target_keys, door_keys, draw, respawned),
        door_keys.len() == 4,
        g.state == GhostState::Eaten,
        g.dir != Direction::Stop,
        (col, row) != (g.cur_tile.0 as int, g.cur_tile.1 as int),
        !((col == 13 || col == 14) && row >= 12),
        ghost_can_enter(col + delta_of(opposite_of(g.dir)).0, row + delta_of(opposite_of(g.dir)).1),
        door_keys[crate::types::code_of(opposite_of(g.dir)) as int] < F32_MAX_BITS,
        forall|d: Direction|
            d != Direction::Stop && d != opposite_of(g.dir) && ghost_can_enter(
                col + delta_of(d).0,
                row + delta_of(d).1,
            ) ==> door_keys[crate::types::code_of(opposite_of(g.dir)) as int] < #[trigger] door_keys[crate::types::code_of(d) as int],
    ensures
        !respawned,
        h.state == GhostState::Eaten,
        h.dir == opposite_of(g.dir),
{
    let back = opposite_of(g.dir);
    let opts = options(col, row, g.dir, true);
    lemma_dir_in_order(back);
    lemma_options_complete(col, row, g.dir, true, 4);
    assert(may_take(col, row, g.dir, true, back));
    assert(opts.contains(back));
    lemma_scan(opts, door_keys);
    lemma_options_may_take(col, row, g.dir, true, 4);
    lemma_options_shape(col, row, g.dir, true, 4);
    let kb = choose|kb: int| 0 <= kb < opts.len() && opts[kb] == back;
    assert(scan(opts, door_keys).1 <= key_of(door_keys, opts[kb]));
    let best = scan(opts, door_keys).0;
    let kk = choose|kk: int| 0 <= kk < opts.len() && opts[kk] == best;
    assert(may_take(col, row, g.dir, true, opts[kk]));
    assert(opts[kk] != Direction::Stop);
    if best != back {
        assert(door_keys[crate::types::code_of(back) as int] < door_keys[crate::types::code_of(best) as int]);
    }
}

/// A roaming ghost in normal mode that picks a direction never turns back
/// while another way is open: it takes an open way other than the reverse.
pub proof fn lemma_normal_ghost_never_turns_back(
    g: GhostEntity,
    h: GhostEntity,
    col: int,
    row: int,
    target_keys: Seq<u32>,
    door_keys: Seq<u32>,
    draw: u32,
    respawned: bool,
    d: Direction,
)
    requires
        ghost_stepped(g, h, col, row, target_keys, door_keys, draw, respawned),
        g.state == GhostState::Normal,
        g.dir != Direction::Stop,
        (col, row) != (g.cur_tile.0 as int, g.cur_tile.1 as int),
        d != Direction::Stop,
        d != opposite_of(g.dir),
        ghost_can_enter(col + delta_of(d).0, row + delta_of(d).1),
    ensures
        !respawned,
        h.state == GhostState::Normal,
        h.dir != opposite_of(g.dir),
        h.dir != Direction::Stop,
        ghost_can_enter(col + delta_of(h.dir).0, row + delta_of(h.dir).1),
{
    lemma_dir_in_order(d);
    lemma_options_complete(col, row, g.dir, false, 4);
    assert(may_take(col, row, g.dir, false, d));
    assert(options(col, row, g.dir, false).contains(d));
    lemma_choice_is_legal(col, row, g.dir, false, false, target_keys, draw, h.dir);
}

/// A frightened ghost that picks a direction takes an open way, the reverse
/// included: the one its random number selects.
pub proof fn lemma_frightened_ghost_takes_an_open_way(
    g: GhostEntity,
    h: GhostEntity,
    col: int,
    row: int,
    target_keys: Seq<u32>,
    door_keys: Seq<u32>,
    draw: u32,
    respawned: bool,
    d: Direction,
)
    requires
        ghost_stepped(g, h, col, row, target_keys, door_keys, draw, respawned),
        g.state == GhostState::Frightened,
        g.dir != Direction::Stop,
        (col, row) != (g.cur_tile.0 as int, g.cur_tile.1 as int),
        d != Direction::Stop,
        ghost_can_enter(col + delta_of(d).0, row + delta_of(d).1),
    ensures
        !respawned,
        h.state == GhostState::Frightened,
        h.dir != Direction::Stop,
        ghost_can_enter(col + delta_of(h.dir).0, row + delta_of(h.dir).1),
{
    lemma_dir_in_order(d);
    lemma_options_complete(col, row, g.dir, true, 4);
    assert(may_take(col, row, g.dir, true, d));
    assert(options(col, row, g.dir, true).contains(d));
    lemma_choice_is_legal(col, row, g.dir, true, true, target_keys, draw, h.dir);
}

/// `rand::random::<u32>()`: draws a `u32` from the thread-local generator of
/// the `rand` crate (`thread_rng().gen()`). Nothing is claimed of the value.
/// The call panics only when the operating system's random source fails
/// while seeding or reseeding that generator, which no precondition can rule
/// out.
#[verifier::external_body]
pub(crate) fn random_u32() -> u32 {
    rand::random::<u32>()
}

impl GhostEntity {
    pub fn new(id: usize, home: (i32, i32), scatter: (i32, i32)) -> (g: GhostEntity)
        ensures
            g == (GhostEntity { id, dir: Direction::Up, state: GhostState::House, home, scatter, cur_tile: home }),
    {
        GhostEntity { id, dir: Direction::Up, state: GhostState::House, home, scatter, cur_tile: home }
    }

    /// Put the ghost on tile `tile` in state `state`, heading up in the house
    /// and left elsewhere.
    pub fn place(&mut self, tile: (i32, i32), state: GhostState)
        ensures
            *final(self) == (GhostEntity {
                state,
                dir: if state == GhostState::House { Direction::Up } else { Direction::Left },
                cur_tile: tile,
                ..*old(self)
            }),
    {
        self.state = state;
        self.dir = if state == GhostState::House {
            Direction::Up
        } else {
            Direction::Left
        };
        self.cur_tile = tile;
    }

    pub fn reverse(&mut self)
        ensures
            *final(self) == (GhostEntity { dir: opposite_of(old(self).dir), ..*old(self) }),
    {
        self.dir = self.dir.opposite();
    }

    /// One tick in the house: once `released` (the release countdown ran
    /// out) the ghost starts leaving from its home tile heading up; before
    /// that it faces down while bobbing downwards (`bob_down`) and up
    /// otherwise.
    pub fn update_house(&mut self, released: bool, bob_down: bool)
        ensures
            released ==> *final(self) == (GhostEntity {
                state: GhostState::Leaving,
                dir: Direction::Up,
                cur_tile: old(self).home,
                ..*old(self)
            }),
            !released ==> *final(self) == (GhostEntity {
                dir: if bob_down { Direction::Down } else { Direction::Up },
                ..*old(self)
            }),
    {
        if released {
            self.state = GhostState::Leaving;
            self.dir = Direction::Up;
            self.cur_tile = self.home;
        } else {
            self.dir = if bob_down {
                Direction::Down
            } else {
                Direction::Up
            };
        }
    }

    /// After a leaving ghost moved: once `outside` (it rose above the door)
    /// it roams normally, heading left from its tile `tile`.
    pub fn update_leaving(&mut self, outside: bool, tile: (i32, i32))
        ensures
            outside ==> *final(self) == (GhostEntity {
                state: GhostState::Normal,
                dir: Direction::Left,
                cur_tile: tile,
                ..*old(self)
            }),
            !outside ==> *final(self) == *old(self),
    {
        if outside {
            self.state = GhostState::Normal;
            self.dir = Direction::Left;
            self.cur_tile = tile;
        }
    }

    /// Back into the house: the caller moves the ghost to its home and waits
    /// [`RESPAWN_RELEASE_MS`] before releasing it.
    pub fn respawn(&mut self)
        ensures
            *final(self) == (GhostEntity {
                state: GhostState::House,
                dir: Direction::Up,
                cur_tile: old(self).home,
                ..*old(self)
            }),
    {
        self.state = GhostState::House;
        self.dir = Direction::Up;
        self.cur_tile = self.home;
    }

    /// Greedy "move toward target" direction choice on tile (`col`, `row`),
    /// excluding the reverse direction unless allowed. `keys` holds the
    /// distance from the centre of each neighbouring tile (up, left, down,
    /// right) to the target, as the bits of a non-negative `f32`.
    /// `randomize` picks an open direction at random (frightened mode): the
    /// one that the random number `draw` selects (see [`pick_option`]).
    pub fn choose_dir(
        &mut self,
        maze: &Maze,
        col: i32,
        row: i32,
        keys: [u32; 4],
        allow_reverse: bool,
        randomize: bool,
        draw: u32,
    )
        requires
            maze.wf(),
            coord_ok(col),
            coord_ok(row),
        ensures
            *final(self) == (GhostEntity { dir: final(self).dir, ..*old(self) }),
            chosen_ok(
                col as int,
                row as int,
                old(self).dir,
                allow_reverse,
                randomize,
                keys@,
                draw,
                final(self).dir,
            ),
    {
        let order: [Direction; 4] = [Direction::Up, Direction::Left, Direction::Down, Direction::Right];
        let mut options: Vec<Direction> = Vec::new();
        let back = self.dir.opposite();
        for k in 0..4usize
            invariant
                order@ == seq![Direction::Up, Direction::Left, Direction::Down, Direction::Right],
                options@ == options_upto(col as int, row as int, self.dir, allow_reverse, k as nat),
                back == opposite_of(self.dir),
                maze.wf(),
                coord_ok(col),
                coord_ok(row),
        {
            let d = order[k];
            assert(d == dir_order(k as int));
            let (dx, dy) = d.delta();
            let open = !is_blocked(maze, true, col + dx, row + dy);
            if open && (d != back || allow_reverse) {
                options.push(d);
            }
        }
        let n = options.len();
        proof {
            lemma_options_shape(col as int, row as int, self.dir, allow_reverse, 4);
        }
        if n == 0 {
            // No legal forward move: dead end, must reverse.
            self.dir = back;
            return;
        }
        if randomize {
            self.dir = pick_option(&options, draw);
            return;
        }
        let mut best = options[0];
        let mut best_d: u32 = F32_MAX_BITS;
        for i in 0..n
            invariant
                n == options@.len(),
                n > 0,
                best_d < F32_MAX_BITS ==> (best, best_d) == scan(options@.take(i as int), keys@),
                best_d == F32_MAX_BITS ==> scan(options@.take(i as int), keys@).1 == F32_MAX_BITS && best == options@[0],
                best_d <= F32_MAX_BITS,
                forall|j: int| 0 <= j < options@.len() ==> #[trigger] options@[j] != Direction::Stop,
        {
            let d = options[i];
            let dd = keys[d.as_u8() as usize];
            assert(options@.take(i + 1).drop_last() =~= options@.take(i as int));
            assert(dd == key_of(keys@, d));
            if dd < best_d {
                best_d = dd;
                best = d;
            }
        }
        assert(options@.take(n as int) =~= options@);
        self.dir = best;
    }

    /// One tick of a roaming ghost (normal, frightened or eaten) on tile
    /// (`col`, `row`), before it moves. On entering a new tile, or when the way
    /// ahead is blocked, it picks a direction: frightened ghosts at random with
    /// reversal allowed, eaten ghosts greedily toward the door (`door_keys`)
    /// with reversal allowed, others greedily toward their target
    /// (`target_keys`) without reversing; `draw` is the random number of the
    /// frightened choice. An eaten ghost is then steered down through the door
    /// and respawns once below it; the result tells whether it respawned (it
    /// does not move this tick then).
    pub fn update(
        &mut self,
        maze: &Maze,
        col: i32,
        row: i32,
        target_keys: [u32; 4],
        door_keys: [u32; 4],
        draw: u32,
    ) -> (respawned: bool)
        requires
            maze.wf(),
            coord_ok(col),
            coord_ok(row),
            old(self).state == GhostState::Normal || old(self).state == GhostState::Frightened
                || old(self).state == GhostState::Eaten,
        ensures
            ghost_stepped(
                *old(self),
                *final(self),
                col as int,
                row as int,
                target_keys@,
                door_keys@,
                draw,
                respawned,
            ),
    {
        let (dx, dy) = self.dir.delta();
        let blocked = is_blocked(maze, true, col + dx, row + dy);

        // Decide a direction when entering a new tile, or when stuck (a dead
        // end forces a reversal).
        if col != self.cur_tile.0 || row != self.cur_tile.1 || blocked {
            self.cur_tile = (col, row);
            match self.state {
                GhostState::Frightened => self.choose_dir(maze, col, row, target_keys, true, true, draw),
                GhostState::Eaten => self.choose_dir(maze, col, row, door_keys, true, false, draw),
                _ => self.choose_dir(maze, col, row, target_keys, false, false, draw),
            }
        }
        // Eaten ghosts are steered down through the door, then respawn inside.
        if self.state == GhostState::Eaten {
            let at_door_x = col == maze.door_cols.0 || col == maze.door_cols.1;
            if row == maze.door_row && at_door_x {
                self.dir = Direction::Down;
            } else if row > maze.door_row && at_door_x {
                self.respawn();
                return true;
            }
        }
        false
    }
}

} // verus!
