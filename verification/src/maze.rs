//! The fixed Pac-Man maze.
//!
//! The maze is 28 columns x 31 rows and mirrors the classic arcade layout. Tile
//! characters are:
//!   `#` wall, `.` dot, `o` power pellet, `_` empty, `=` ghost-house door.

use vstd::prelude::*;
use vstd::string::StringExecFns;

verus! {

/// The layout, one string per row, top row first.
pub const MAZE: [&'static str; 31] = [
    "############################",
    "#............##............#",
    "#.####.#####.##.#####.####.#",
    "#o####.#####.##.#####.####o#",
    "#.####.#####.##.#####.####.#",
    "#..........................#",
    "#.####.##.########.##.####.#",
    "#.####.##.########.##.####.#",
    "#......##....##....##......#",
    "######.#####.##.#####.######",
    "######.#####.##.#####.######",
    "######.##..........##.######",
    "######.######==######.######",
    "######.###________###.######",
    "_________#________#_________",
    "######.###________###.######",
    "######.##############.######",
    "######.##..........##.######",
    "######.##.########.##.######",
    "######.##.########.##.######",
    "#............##............#",
    "#.####.#####.##.#####.####.#",
    "#.####.#####.##.#####.####.#",
    "#o..##.......__.......##..o#",
    "###.##.##.########.##.##.###",
    "###.##.##.########.##.##.###",
    "#......##....##....##......#",
    "#.##########.##.##########.#",
    "#.##########.##.##########.#",
    "#..........................#",
    "############################",
];

/// Structural (static) tile kinds.
#[derive(Clone, Copy, PartialEq, Eq, Debug, Structural)]
pub enum Cell {
    Wall,
    Empty,
    Door,
}

/// The layout character at column `c` of row `r`.
pub open spec fn layout_char(c: int, r: int) -> char {
    MAZE@[r]@[c]
}

/// The structural kind that a layout character describes.
pub open spec fn cell_of_char(ch: char) -> Cell {
    if ch == '#' {
        Cell::Wall
    } else if ch == '=' {
        Cell::Door
    } else {
        Cell::Empty
    }
}

/// The pellet that a layout character holds at the start of a level:
/// 1 for a dot, 2 for a power pellet, 0 for none.
pub open spec fn dot_of_char(ch: char) -> u8 {
    if ch == '.' {
        1
    } else if ch == 'o' {
        2
    } else {
        0
    }
}

/// Index of tile (`c`, `r`) in row-major order.
pub open spec fn tile_index(c: int, r: int) -> int {
    r * 28 + c
}

/// Is (`c`, `r`) a tile of the maze?
pub open spec fn tile_in_bounds(c: int, r: int) -> bool {
    0 <= c < 28 && 0 <= r < 31
}

/// The structural kind of tile (`c`, `r`); everything outside the maze is wall.
pub open spec fn cell_at(c: int, r: int) -> Cell {
    if tile_in_bounds(c, r) {
        cell_of_char(layout_char(c, r))
    } else {
        Cell::Wall
    }
}

/// The structural kind of the tile with row-major index `i`.
pub open spec fn layout_cell(i: int) -> Cell {
    cell_of_char(layout_char(i % 28, i / 28))
}

/// The pellet of the tile with row-major index `i` at the start of a level.
pub open spec fn layout_dot(i: int) -> u8 {
    dot_of_char(layout_char(i % 28, i / 28))
}

/// The pellet grid at the start of a level, in row-major order.
pub open spec fn layout_dots() -> Seq<u8> {
    Seq::new(868, |i: int| layout_dot(i))
}

/// Number of tiles of a pellet grid that still hold a dot or a pellet.
pub open spec fn count_dots(s: Seq<u8>) -> nat
    decreases s.len(),
{
    if s.len() == 0 {
        0
    } else {
        count_dots(s.drop_last()) + (if s.last() != 0 { 1nat } else { 0nat })
    }
}

/// The character that stands for a pellet state in the grid text.
pub open spec fn grid_char(d: u8) -> char {
    if d == 1 {
        '1'
    } else if d == 2 {
        '2'
    } else {
        '0'
    }
}

/// A pellet grid as text, one character per tile.
pub open spec fn grid_text(s: Seq<u8>) -> Seq<char>
    decreases s.len(),
{
    if s.len() == 0 {
        Seq::empty()
    } else {
        grid_text(s.drop_last()).push(grid_char(s.last()))
    }
}

/// The JSON text that `serde_json::to_string` writes for a list of strings.
pub uninterp spec fn rows_json(rows: Seq<Seq<char>>) -> Seq<char>;

/// `serde_json::to_string` on a slice of strings: the result is named
/// [`rows_json`] of the strings' texts. By serde_json's documentation
/// serialising fails only for a failing `Serialize` impl or a map with
/// non-string keys, neither of which a slice of strings has, so the error arm
/// (mapped to an empty text) is never taken.
#[verifier::external_body]
fn rows_to_json(rows: &[&str]) -> (json: String)
    ensures
        json@ == rows_json(rows@.map_values(|row: &str| row@)),
{
    serde_json::to_string(rows).unwrap_or_default()
}

/// A pellet grid that can occur during a level: every tile holds either
/// nothing or the pellet that the layout put there.
pub open spec fn dots_valid(s: Seq<u8>) -> bool {
    &&& s.len() == 868
    &&& forall|i: int| 0 <= i < 868 ==> #[trigger] s[i] == 0 || s[i] == layout_dot(i)
}

pub struct Maze {
    pub width: usize,
    pub height: usize,
    /// Structural kind of every tile, row-major.
    pub cells: Vec<Cell>,
    /// Per-tile pellet state: 0 = none/eaten, 1 = dot, 2 = power pellet.
    pub dots: Vec<u8>,
    /// Total dots (dots + pellets) for one level.
    pub total_dots: u32,
    /// Row of the ghost-house door, and its two columns.
    pub door_row: i32,
    pub door_cols: (i32, i32),
}

impl Maze {
    /// The maze is the fixed layout: its size, its walls and door, its door
    /// position, its pellet count, and a pellet grid that only lost pellets.
    pub open spec fn wf(&self) -> bool {
        &&& self.width == 28
        &&& self.height == 31
        &&& self.cells@.len() == 868
        &&& forall|i: int| 0 <= i < 868 ==> #[trigger] self.cells@[i] == layout_cell(i)
        &&& dots_valid(self.dots@)
        &&& self.total_dots == count_dots(layout_dots())
        &&& self.door_row == 12
        &&& self.door_cols == (13i32, 14i32)
    }

    /// Number of dots and pellets still on the board.
    pub open spec fn remaining(&self) -> nat {
        count_dots(self.dots@)
    }

    /// The pellet currently at tile (`c`, `r`), 0 off the board.
    pub open spec fn dot_at(&self, c: int, r: int) -> u8 {
        if tile_in_bounds(c, r) {
            self.dots@[tile_index(c, r)]
        } else {
            0
        }
    }
}

impl Maze {
    pub fn new() -> (m: Maze)
        ensures
            m.wf(),
            m.dots@ == layout_dots(),
            m.total_dots == 270,
    {
        let mut cells: Vec<Cell> = Vec::with_capacity(28 * 31);
        let mut dots: Vec<u8> = Vec::with_capacity(28 * 31);
        let mut total_dots: u32 = 0;
        proof {
            lemma_layout_rows();
        }
        for r in 0..31usize
            invariant
                forall|k: int| 0 <= k < 31 ==> #[trigger] MAZE@[k]@.len() == 28,
                cells@.len() == r * 28,
                dots@.len() == r * 28,
                forall|i: int| 0 <= i < cells@.len() ==> #[trigger] cells@[i] == layout_cell(i),
                forall|i: int| 0 <= i < dots@.len() ==> #[trigger] dots@[i] == layout_dot(i),
                total_dots == count_dots(dots@),
        {
            let row: &str = MAZE[r];
            assert(row@ == MAZE@[r as int]@);
            for ch in it: row.chars()
                invariant
                    row@.len() == 28,
                    row@ == MAZE@[r as int]@,
                    it.seq() == row@,
                    cells@.len() == r * 28 + it.index(),
                    dots@.len() == r * 28 + it.index(),
                    forall|i: int| 0 <= i < cells@.len() ==> #[trigger] cells@[i] == layout_cell(i),
                    forall|i: int| 0 <= i < dots@.len() ==> #[trigger] dots@[i] == layout_dot(i),
                    total_dots == count_dots(dots@),
                    r < 31,
            {
                let ghost c = it.index();
                assert(ch == layout_char(c, r as int));
                proof {
                    lemma_tile_index(c, r as int);
                    lemma_count_dots_bound(dots@);
                }
                let ghost old_dots = dots@;
                match ch {
                    '#' => {
                        cells.push(Cell::Wall);
                        dots.push(0);
                    },
                    '.' => {
                        cells.push(Cell::Empty);
                        dots.push(1);
                        total_dots += 1;
                    },
                    'o' => {
                        cells.push(Cell::Empty);
                        dots.push(2);
                        total_dots += 1;
                    },
                    '=' => {
                        cells.push(Cell::Door);
                        dots.push(0);
                    },
                    _ => {
                        cells.push(Cell::Empty);
                        dots.push(0);
                    },
                }
                proof {
                    lemma_count_dots_push(old_dots, dots@.last());
                }
            }
        }
        assert(dots@ =~= layout_dots());
        proof {
            lemma_count_dots_bound(dots@);
            lemma_layout_pellets();
        }
        Maze {
            width: 28,
            height: 31,
            cells,
            dots,
            total_dots,
            door_row: 12,
            door_cols: (13, 14),
        }
    }

    /// Row-major index of tile (`c`, `r`); the casts wrap as in Rust.
    pub fn idx(&self, c: i32, r: i32) -> (i: usize)
        requires
            (r as usize) * self.width + (c as usize) <= usize::MAX,
        ensures
            i == (r as usize) * self.width + (c as usize),
    {
        (r as usize) * self.width + (c as usize)
    }

    pub fn in_bounds(&self, c: i32, r: i32) -> (b: bool)
        ensures
            b == (c >= 0 && r >= 0 && (c as usize) < self.width && (r as usize) < self.height),
            self.wf() ==> (b == tile_in_bounds(c as int, r as int)),
    {
        c >= 0 && r >= 0 && (c as usize) < self.width && (r as usize) < self.height
    }

    pub fn cell(&self, c: i32, r: i32) -> (k: Cell)
        requires
            self.wf(),
        ensures
            k == cell_at(c as int, r as int),
    {
        if self.in_bounds(c, r) {
            proof {
                lemma_tile_index(c as int, r as int);
            }
            self.cells[self.idx(c, r)]
        } else {
            Cell::Wall
        }
    }

    /// Pac-Man cannot pass walls or the ghost-house door.
    pub fn blocked_pacman(&self, c: i32, r: i32) -> (b: bool)
        requires
            self.wf(),
        ensures
            b == (cell_at(c as int, r as int) != Cell::Empty),
    {
        let k = self.cell(c, r);
        k == Cell::Wall || k == Cell::Door
    }

    /// Ghosts pass the door but not walls.
    pub fn blocked_ghost(&self, c: i32, r: i32) -> (b: bool)
        requires
            self.wf(),
        ensures
            b == (cell_at(c as int, r as int) == Cell::Wall),
    {
        self.cell(c, r) == Cell::Wall
    }

    /// Eat the dot/pellet at a tile. Returns what was eaten (0/1/2).
    pub fn eat_dot(&mut self, c: i32, r: i32) -> (d: u8)
        requires
            old(self).wf(),
        ensures
            final(self).wf(),
            d == old(self).dot_at(c as int, r as int),
            tile_in_bounds(c as int, r as int) ==> final(self).dots@ == old(self).dots@.update(
                tile_index(c as int, r as int),
                0,
            ),
            !tile_in_bounds(c as int, r as int) ==> final(self).dots@ == old(self).dots@,
            final(self).remaining() + (if d != 0 { 1nat } else { 0nat }) == old(self).remaining(),
            final(self).width == old(self).width,
            final(self).height == old(self).height,
            final(self).cells@ == old(self).cells@,
            final(self).total_dots == old(self).total_dots,
            final(self).door_row == old(self).door_row,
            final(self).door_cols == old(self).door_cols,
    {
        if self.in_bounds(c, r) {
            let i = self.idx(c, r);
            let d = self.dots[i];
            proof {
                lemma_count_dots_clear(self.dots@, i as int);
                if d == 0 {
                    assert(self.dots@.update(i as int, 0) =~= self.dots@);
                }
            }
            if d != 0 {
                self.dots.set(i, 0);
            }
            assert(self.dots@ =~= old(self).dots@.update(i as int, 0));
            d
        } else {
            0
        }
    }

    /// Restore every dot/pellet (used when a new level begins).
    pub fn reset_dots(&mut self)
        requires
            old(self).wf(),
        ensures
            final(self).wf(),
            final(self).dots@ == layout_dots(),
            final(self).remaining() == final(self).total_dots,
            final(self).width == old(self).width,
            final(self).height == old(self).height,
            final(self).cells@ == old(self).cells@,
            final(self).total_dots == old(self).total_dots,
            final(self).door_row == old(self).door_row,
            final(self).door_cols == old(self).door_cols,
    {
        proof {
            lemma_layout_rows();
        }
        for r in 0..31usize
            invariant
                forall|k: int| 0 <= k < 31 ==> #[trigger] MAZE@[k]@.len() == 28,
                self.wf(),
                self.cells@ == old(self).cells@,
                self.total_dots == old(self).total_dots,
                forall|i: int| 0 <= i < r * 28 ==> #[trigger] self.dots@[i] == layout_dot(i),
        {
            let row: &str = MAZE[r];
            let mut c: usize = 0;
            for ch in it: row.chars()
                invariant
                    row@.len() == 28,
                    row@ == MAZE@[r as int]@,
                    it.seq() == row@,
                    c == it.index(),
                    r < 31,
                    self.wf(),
                    self.cells@ == old(self).cells@,
                    self.total_dots == old(self).total_dots,
                    forall|i: int| 0 <= i < r * 28 + it.index() ==> #[trigger] self.dots@[i] == layout_dot(i),
            {
                proof {
                    lemma_tile_index(c as int, r as int);
                }
                let i = r * self.width + c;
                let v: u8 = match ch {
                    '.' => 1,
                    'o' => 2,
                    _ => 0,
                };
                self.dots.set(i, v);
                c += 1;
            }
        }
        assert(self.dots@ =~= layout_dots());
    }

    /// The pellet grid as text, one character per tile in row-major order:
    /// `1` dot, `2` power pellet, `0` nothing.
    pub fn grid_string(&self) -> (grid: String)
        ensures
            grid@ == grid_text(self.dots@),
    {
        let mut grid = String::new();
        for i in 0..self.dots.len()
            invariant
                grid@ == grid_text(self.dots@.take(i as int)),
        {
            assert(self.dots@.take(i + 1).drop_last() =~= self.dots@.take(i as int));
            let ghost before = grid@;
            let d = self.dots[i];
            proof {
                reveal_strlit("0");
                reveal_strlit("1");
                reveal_strlit("2");
            }
            match d {
                1 => grid.append("1"),
                2 => grid.append("2"),
                _ => grid.append("0"),
            }
            assert(grid@ =~= before.push(grid_char(d)));
        }
        assert(self.dots@.take(self.dots@.len() as int) =~= self.dots@);
        grid
    }

    /// Static maze layout as JSON: the text that `serde_json` writes for the
    /// 31 layout rows (an array of strings).
    pub fn maze_json(&self) -> (json: String)
        ensures
            json@ == rows_json(MAZE@.map_values(|row: &str| row@)),
    {
        rows_to_json(&MAZE)
    }

    /// Raw maze rows, exported to JS once so the frontend can draw walls.
    pub fn rows(&self) -> (rows: &'static [&'static str])
        ensures
            rows@ == MAZE@,
    {
        &MAZE
    }
}

impl Default for Maze {
    fn default() -> (m: Maze)
        ensures
            m.wf(),
            m.dots@ == layout_dots(),
    {
        Maze::new()
    }
}

/// A grid counts no pellet exactly when every tile is empty.
pub proof fn lemma_count_dots_zero(s: Seq<u8>)
    ensures
        count_dots(s) == 0 <==> forall|i: int| 0 <= i < s.len() ==> #[trigger] s[i] == 0,
    decreases s.len(),
{
    if s.len() > 0 {
        lemma_count_dots_zero(s.drop_last());
        if count_dots(s) == 0 {
            assert forall|i: int| 0 <= i < s.len() implies #[trigger] s[i] == 0 by {
                if i < s.len() - 1 {
                    assert(s[i] == s.drop_last()[i]);
                }
            }
        }
        if forall|i: int| 0 <= i < s.len() ==> #[trigger] s[i] == 0 {
            assert forall|i: int| 0 <= i < s.drop_last().len() implies #[trigger] s.drop_last()[i] == 0 by {
                assert(s.drop_last()[i] == s[i]);
            }
        }
    }
}

/// On the first `k` tiles, a grid that only lost pellets counts no more than
/// the layout does.
pub proof fn lemma_count_dots_valid(s: Seq<u8>, k: nat)
    requires
        dots_valid(s),
        k <= 868,
    ensures
        count_dots(s.take(k as int)) <= count_dots(layout_dots().take(k as int)),
    decreases k,
{
    if k > 0 {
        lemma_count_dots_valid(s, (k - 1) as nat);
        assert(s.take(k as int).drop_last() =~= s.take(k - 1));
        assert(layout_dots().take(k as int).drop_last() =~= layout_dots().take(k - 1));
        assert(s[k - 1] == 0 || s[k - 1] == layout_dot(k - 1));
    }
}

/// A tile that was eaten holds nothing: eating it again gives 0 and leaves
/// the board as it is.
pub proof fn lemma_eat_twice(before: Maze, after: Maze, c: int, r: int)
    requires
        before.wf(),
        tile_in_bounds(c, r),
        after.dots@ == before.dots@.update(tile_index(c, r), 0),
    ensures
        after.dot_at(c, r) == 0,
        after.dots@.update(tile_index(c, r), 0) == after.dots@,
{
    assert(after.dots@.update(tile_index(c, r), 0) =~= after.dots@);
}

/// Number of pellets among the first `k` characters of a layout row.
pub open spec fn pellets_in(s: Seq<char>, k: nat) -> nat
    decreases k,
{
    if k == 0 {
        0
    } else {
        pellets_in(s, (k - 1) as nat) + (if dot_of_char(s[k - 1]) != 0 {
            1nat
        } else {
            0nat
        })
    }
}

/// Number of pellets among the first `k` tiles of row `r` of the layout.
pub open spec fn row_count(r: int, k: nat) -> nat {
    pellets_in(MAZE@[r]@, k)
}

/// Number of pellets in the first `r` rows of the layout.
pub open spec fn rows_total(r: nat) -> nat
    decreases r,
{
    if r == 0 {
        0
    } else {
        rows_total((r - 1) as nat) + row_count(r - 1, 28)
    }
}

/// The pellets of the first `k` tiles are those of the full rows before
/// them and of the start of their row.
proof fn lemma_prefix_count(k: nat)
    requires
        k <= 868,
    ensures
        count_dots(layout_dots().take(k as int)) == rows_total(k / 28) + row_count(k as int / 28, k % 28),
    decreases k,
{
    if k == 0 {
        assert(layout_dots().take(0) =~= Seq::<u8>::empty());
    } else {
        let j = (k - 1) as nat;
        lemma_prefix_count(j);
        let r = j / 28;
        let c = j % 28;
        lemma_tile_index(c as int, r as int);
        assert(j == r * 28 + c);
        assert(layout_dots().take(k as int).drop_last() =~= layout_dots().take(j as int));
        assert(layout_dots().take(k as int).last() == layout_dot(j as int));
        if c < 27 {
            lemma_tile_index((c + 1) as int, r as int);
        } else {
            lemma_tile_index(0, (r + 1) as int);
        }
        assert(row_count(r as int, c + 1) == row_count(r as int, c) + (if layout_dot(j as int) != 0 {
            1nat
        } else {
            0nat
        }));
    }
}

/// Pellets in the layout row `############################`.
proof fn lemma_row_pellets_0()
    ensures
        pellets_in("############################"@, 28) == 0,
{
    reveal_strlit("############################");
    reveal_with_fuel(pellets_in, 29);
}

/// Pellets in the layout row `#............##............#`.
proof fn lemma_row_pellets_1()
    ensures
        pellets_in("#............##............#"@, 28) == 24,
{
    reveal_strlit("#............##............#");
    reveal_with_fuel(pellets_in, 29);
}

/// Pellets in the layout row `#.####.#####.##.#####.####.#`.
proof fn lemma_row_pellets_2()
    ensures
        pellets_in("#.####.#####.##.#####.####.#"@, 28) == 6,
{
    reveal_strlit("#.####.#####.##.#####.####.#");
    reveal_with_fuel(pellets_in, 29);
}

/// Pellets in the layout row `#o####.#####.##.#####.####o#`.
proof fn lemma_row_pellets_3()
    ensures
        pellets_in("#o####.#####.##.#####.####o#"@, 28) == 6,
{
    reveal_strlit("#o####.#####.##.#####.####o#");
    reveal_with_fuel(pellets_in, 29);
}

/// Pellets in the layout row `#..........................#`.
proof fn lemma_row_pellets_4()
    ensures
        pellets_in("#..........................#"@, 28) == 26,
{
    reveal_strlit("#..........................#");
    reveal_with_fuel(pellets_in, 29);
}

/// Pellets in the layout row `#.####.##.########.##.####.#`.
proof fn lemma_row_pellets_5()
    ensures
        pellets_in("#.####.##.########.##.####.#"@, 28) == 6,
{
    reveal_strlit("#.####.##.########.##.####.#");
    reveal_with_fuel(pellets_in, 29);
}

/// Pellets in the layout row `#......##....##....##......#`.
proof fn lemma_row_pellets_6()
    ensures
        pellets_in("#......##....##....##......#"@, 28) == 20,
{
    reveal_strlit("#......##....##....##......#");
    reveal_with_fuel(pellets_in, 29);
}

/// Pellets in the layout row `######.#####.##.#####.######`.
proof fn lemma_row_pellets_7()
    ensures
        pellets_in("######.#####.##.#####.######"@, 28) == 4,
{
    reveal_strlit("######.#####.##.#####.######");
    reveal_with_fuel(pellets_in, 29);
}

/// Pellets in the layout row `######.##..........##.######`.
proof fn lemma_row_pellets_8()
    ensures
        pellets_in("######.##..........##.######"@, 28) == 12,
{
    reveal_strlit("######.##..........##.######");
    reveal_with_fuel(pellets_in, 29);
}

/// Pellets in the layout row `######.######==######.######`.
proof fn lemma_row_pellets_9()
    ensures
        pellets_in("######.######==######.######"@, 28) == 2,
{
    reveal_strlit("######.######==######.######");
    reveal_with_fuel(pellets_in, 29);
}

/// Pellets in the layout row `######.###________###.######`.
proof fn lemma_row_pellets_10()
    ensures
        pellets_in("######.###________###.######"@, 28) == 2,
{
    reveal_strlit("######.###________###.######");
    reveal_with_fuel(pellets_in, 29);
}

/// Pellets in the layout row `_________#________#_________`.
proof fn lemma_row_pellets_11()
    ensures
        pellets_in("_________#________#_________"@, 28) == 0,
{
    reveal_strlit("_________#________#_________");
    reveal_with_fuel(pellets_in, 29);
}

/// Pellets in the layout row `######.##############.######`.
proof fn lemma_row_pellets_12()
    ensures
        pellets_in("######.##############.######"@, 28) == 2,
{
    reveal_strlit("######.##############.######");
    reveal_with_fuel(pellets_in, 29);
}

/// Pellets in the layout row `######.##.########.##.######`.
proof fn lemma_row_pellets_13()
    ensures
        pellets_in("######.##.########.##.######"@, 28) == 4,
{
    reveal_strlit("######.##.########.##.######");
    reveal_with_fuel(pellets_in, 29);
}

/// Pellets in the layout row `#o..##.......__.......##..o#`.
proof fn lemma_row_pellets_14()
    ensures
        pellets_in("#o..##.......__.......##..o#"@, 28) == 20,
{
    reveal_strlit("#o..##.......__.......##..o#");
    reveal_with_fuel(pellets_in, 29);
}

/// Pellets in the layout row `###.##.##.########.##.##.###`.
proof fn lemma_row_pellets_15()
    ensures
        pellets_in("###.##.##.########.##.##.###"@, 28) == 6,
{
    reveal_strlit("###.##.##.########.##.##.###");
    reveal_with_fuel(pellets_in, 29);
}

/// Pellets in the layout row `#.##########.##.##########.#`.
proof fn lemma_row_pellets_16()
    ensures
        pellets_in("#.##########.##.##########.#"@, 28) == 4,
{
    reveal_strlit("#.##########.##.##########.#");
    reveal_with_fuel(pellets_in, 29);
}

/// The layout holds 270 pellets: 266 dots and 4 power pellets.
pub proof fn lemma_layout_pellets()
    ensures
        count_dots(layout_dots()) == 270,
{
    lemma_row_pellets_0();
    lemma_row_pellets_1();
    lemma_row_pellets_2();
    lemma_row_pellets_3();
    lemma_row_pellets_4();
    lemma_row_pellets_5();
    lemma_row_pellets_6();
    lemma_row_pellets_7();
    lemma_row_pellets_8();
    lemma_row_pellets_9();
    lemma_row_pellets_10();
    lemma_row_pellets_11();
    lemma_row_pellets_12();
    lemma_row_pellets_13();
    lemma_row_pellets_14();
    lemma_row_pellets_15();
    lemma_row_pellets_16();
    reveal_with_fuel(rows_total, 32);
    lemma_prefix_count(868);
    assert(layout_dots().take(868) =~= layout_dots());
}

/// Every row of the layout is 28 characters long.
pub proof fn lemma_layout_rows()
    ensures
        forall|r: int| 0 <= r < 31 ==> #[trigger] MAZE@[r]@.len() == 28,
{
    reveal_strlit("############################");
    reveal_strlit("######.##############.######");
    reveal_strlit("######.######==######.######");
    reveal_strlit("######.#####.##.#####.######");
    reveal_strlit("######.###________###.######");
    reveal_strlit("######.##.########.##.######");
    reveal_strlit("######.##..........##.######");
    reveal_strlit("###.##.##.########.##.##.###");
    reveal_strlit("#.##########.##.##########.#");
    reveal_strlit("#.####.#####.##.#####.####.#");
    reveal_strlit("#.####.##.########.##.####.#");
    reveal_strlit("#......##....##....##......#");
    reveal_strlit("#............##............#");
    reveal_strlit("#..........................#");
    reveal_strlit("#o####.#####.##.#####.####o#");
    reveal_strlit("#o..##.......__.......##..o#");
    reveal_strlit("_________#________#_________");
}

/// Row-major index arithmetic: the index of (`c`, `r`) divides back into them.
pub proof fn lemma_tile_index(c: int, r: int)
    requires
        0 <= c < 28,
    ensures
        tile_index(c, r) / 28 == r,
        tile_index(c, r) % 28 == c,
{
    vstd::arithmetic::div_mod::lemma_fundamental_div_mod_converse(tile_index(c, r), 28, r, c);
}

/// A grid never holds more pellets than it has tiles.
pub proof fn lemma_count_dots_bound(s: Seq<u8>)
    ensures
        count_dots(s) <= s.len(),
    decreases s.len(),
{
    if s.len() > 0 {
        lemma_count_dots_bound(s.drop_last());
    }
}

/// Appending a tile adds one to the count exactly when it holds a pellet.
pub proof fn lemma_count_dots_push(s: Seq<u8>, x: u8)
    ensures
        count_dots(s.push(x)) == count_dots(s) + (if x != 0 { 1nat } else { 0nat }),
{
    assert(s.push(x).drop_last() =~= s);
}

/// Emptying one tile lowers the count by one exactly when it held a pellet.
pub proof fn lemma_count_dots_clear(s: Seq<u8>, i: int)
    requires
        0 <= i < s.len(),
    ensures
        count_dots(s.update(i, 0)) + (if s[i] != 0 { 1nat } else { 0nat }) == count_dots(s),
    decreases s.len(),
{
    if i == s.len() - 1 {
        assert(s.update(i, 0).drop_last() =~= s.drop_last());
    } else {
        lemma_count_dots_clear(s.drop_last(), i);
        assert(s.update(i, 0).drop_last() =~= s.drop_last().update(i, 0));
    }
}

} // verus!
