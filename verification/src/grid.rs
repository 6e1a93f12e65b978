//! The tile grid of a level, rooms, and the carving of rooms and corridors.

use vstd::prelude::*;
use crate::config::{MAP_HEIGHT, MAP_WIDTH};

verus! {

/// One cell of the grid.
#[derive(Clone, Copy, Debug, PartialEq, Eq, Structural)]
pub struct Tile {
    pub blocked: bool,
    pub block_sight: bool,
    pub explored: bool,
}

impl Tile {
    /// Open floor: passable and transparent.
    pub open spec fn floor() -> Tile {
        Tile { blocked: false, block_sight: false, explored: false }
    }

    /// Solid rock: impassable and opaque.
    pub open spec fn rock() -> Tile {
        Tile { blocked: true, block_sight: true, explored: false }
    }

    /// Open floor.
    pub fn empty() -> (tile: Self)
        ensures
            tile == Tile::floor(),
    {
        Tile { blocked: false, block_sight: false, explored: false }
    }

    /// Solid rock.
    pub fn wall() -> (tile: Self)
        ensures
            tile == Tile::rock(),
    {
        Tile { blocked: true, block_sight: true, explored: false }
    }
}

/// The grid of a level, indexed by column and then by row.
pub type Grid = Vec<Vec<Tile>>;

/// The tiles of a grid, by column and row.
pub open spec fn grid_view(map: &Grid) -> Seq<Seq<Tile>> {
    Seq::new(map.len() as nat, |x: int| map[x]@)
}

/// `(x, y)` names a tile of a level.
pub open spec fn in_bounds(x: int, y: int) -> bool {
    0 <= x < MAP_WIDTH && 0 <= y < MAP_HEIGHT
}

/// `(x, y)` names a tile that is not on the outer ring of a level.
pub open spec fn inside(x: int, y: int) -> bool {
    0 < x < MAP_WIDTH - 1 && 0 < y < MAP_HEIGHT - 1
}

/// The grid has the dimensions of a level.
pub open spec fn grid_wf(tiles: Seq<Seq<Tile>>) -> bool {
    &&& tiles.len() == MAP_WIDTH
    &&& forall|x: int| 0 <= x < MAP_WIDTH ==> (#[trigger] tiles[x]).len() == MAP_HEIGHT
}

/// Every tile on the outer ring of the grid is blocked.
pub open spec fn walled(tiles: Seq<Seq<Tile>>) -> bool {
    forall|x: int, y: int| in_bounds(x, y) && !inside(x, y) ==> (#[trigger] tiles[x][y]).blocked
}

/// Half of `n`, rounded toward zero.
pub open spec fn half(n: int) -> int {
    if n >= 0 {
        n / 2
    } else {
        -((-n) / 2)
    }
}

/// A room: the rectangle with corners `(x1, y1)` and `(x2, y2)`. Its walls
/// lie on the boundary, its floor strictly inside.
#[derive(Clone, Copy, Debug, PartialEq, Eq, Structural)]
pub struct Rect {
    pub x1: i32,
    pub y1: i32,
    pub x2: i32,
    pub y2: i32,
}

impl Rect {
    /// `(x, y)` is a floor tile of the room.
    pub open spec fn holds(self, x: int, y: int) -> bool {
        self.x1 < x < self.x2 && self.y1 < y < self.y2
    }

    /// The two rectangles share a point, boundaries included.
    pub open spec fn overlaps(self, other: Rect) -> bool {
        self.x1 <= other.x2 && self.x2 >= other.x1 && self.y1 <= other.y2 && self.y2 >= other.y1
    }

    /// The middle of the room.
    pub open spec fn middle(self) -> (int, int) {
        (half(self.x1 + self.x2), half(self.y1 + self.y2))
    }

    /// Every floor tile of the room is a tile of a level.
    pub open spec fn fits(self) -> bool {
        self.x1 + 1 < self.x2 && self.y1 + 1 < self.y2 ==> -1 <= self.x1 && self.x2 <= MAP_WIDTH
            && -1 <= self.y1 && self.y2 <= MAP_HEIGHT
    }

    /// The room with corner `(x, y)`, `w` wide and `h` high.
    pub fn new(x: i32, y: i32, w: i32, h: i32) -> (rect: Self)
        requires
            i32::MIN <= x + w <= i32::MAX,
            i32::MIN <= y + h <= i32::MAX,
        ensures
            rect == (Rect { x1: x, y1: y, x2: (x + w) as i32, y2: (y + h) as i32 }),
    {
        Rect { x1: x, x2: x + w, y1: y, y2: y + h }
    }

    /// The middle of the room, each coordinate rounded toward zero.
    pub fn center(&self) -> (center: (i32, i32))
        ensures
            center.0 == self.middle().0,
            center.1 == self.middle().1,
    {
        let sum_x: i64 = self.x1 as i64 + self.x2 as i64;
        let sum_y: i64 = self.y1 as i64 + self.y2 as i64;
        let center_x: i64 = sum_x / 2;
        let center_y: i64 = sum_y / 2;
        (center_x as i32, center_y as i32)
    }

    /// Whether the two rooms share a point, boundaries included.
    pub fn intersects_with(&self, other: &Rect) -> (hit: bool)
        ensures
            hit == self.overlaps(*other),
    {
        (self.x1 <= other.x2) && (self.x2 >= other.x1) && (self.y1 <= other.y2) && (self.y2
            >= other.y1)
    }
}

/// The grid after the floor of `room` is opened.
pub open spec fn with_room(tiles: Seq<Seq<Tile>>, room: Rect) -> Seq<Seq<Tile>> {
    Seq::new(
        tiles.len(),
        |x: int|
            Seq::new(
                tiles[x].len(),
                |y: int|
                    if room.holds(x, y) {
                        Tile::floor()
                    } else {
                        tiles[x][y]
                    },
            ),
    )
}

/// The smaller of two coordinates.
pub open spec fn lower(a: int, b: int) -> int {
    if a <= b {
        a
    } else {
        b
    }
}

/// The larger of two coordinates.
pub open spec fn upper(a: int, b: int) -> int {
    if a <= b {
        b
    } else {
        a
    }
}

/// The grid after a corridor is opened along row `y` between columns `x1` and
/// `x2`, both included.
pub open spec fn with_h_tunnel(tiles: Seq<Seq<Tile>>, x1: int, x2: int, y: int) -> Seq<Seq<Tile>> {
    Seq::new(
        tiles.len(),
        |x: int|
            Seq::new(
                tiles[x].len(),
                |row: int|
                    if row == y && lower(x1, x2) <= x <= upper(x1, x2) {
                        Tile::floor()
                    } else {
                        tiles[x][row]
                    },
            ),
    )
}

/// The grid after a corridor is opened along column `x` between rows `y1` and
/// `y2`, both included.
pub open spec fn with_v_tunnel(tiles: Seq<Seq<Tile>>, y1: int, y2: int, x: int) -> Seq<Seq<Tile>> {
    Seq::new(
        tiles.len(),
        |column: int|
            Seq::new(
                tiles[column].len(),
                |y: int|
                    if column == x && lower(y1, y2) <= y <= upper(y1, y2) {
                        Tile::floor()
                    } else {
                        tiles[column][y]
                    },
            ),
    )
}

/// Replaces the tile at column `x` and row `y`.
pub fn set_tile(map: &mut Grid, x: usize, y: usize, tile: Tile)
    requires
        x < grid_view(old(map)).len(),
        y < grid_view(old(map))[x as int].len(),
    ensures
        grid_view(final(map)) == grid_view(old(map)).update(
            x as int,
            grid_view(old(map))[x as int].update(y as int, tile),
        ),
{
    assert(grid_view(map)[x as int] == map[x as int]@);
    map[x][y] = tile;
    assert(grid_view(map) =~~= grid_view(old(map)).update(
        x as int,
        grid_view(old(map))[x as int].update(y as int, tile),
    ));
}

/// Opens the floor of `room`: every tile strictly inside its boundary.
pub fn create_room(room: Rect, map: &mut Grid)
    requires
        grid_wf(grid_view(old(map))),
        room.fits(),
    ensures
        grid_view(final(map)) == with_room(grid_view(old(map)), room),
        grid_wf(grid_view(final(map))),
{
    if room.x1 >= room.x2 || room.y1 >= room.y2 {
        assert(grid_view(map) =~~= with_room(grid_view(old(map)), room));
        return ;
    }
    let ghost before = grid_view(map);
    let mut x: i32 = room.x1 + 1;
    while x < room.x2
        invariant
            room.x1 < x,
            room.x1 < room.x2,
            room.y1 < room.y2,
            room.fits(),
            grid_wf(before),
            grid_wf(grid_view(map)),
            forall|i: int, j: int|
                in_bounds(i, j) ==> #[trigger] grid_view(map)[i][j] == (if room.holds(i, j) && i
                    < x {
                    Tile::floor()
                } else {
                    before[i][j]
                }),
        decreases room.x2 - x,
    {
        let mut y: i32 = room.y1 + 1;
        while y < room.y2
            invariant
                room.x1 < x < room.x2,
                room.y1 < y,
                room.y1 < room.y2,
                room.fits(),
                grid_wf(before),
                grid_wf(grid_view(map)),
                forall|i: int, j: int|
                    in_bounds(i, j) ==> #[trigger] grid_view(map)[i][j] == (if room.holds(i, j)
                        && (i < x || (i == x && j < y)) {
                        Tile::floor()
                    } else {
                        before[i][j]
                    }),
            decreases room.y2 - y,
        {
            let ghost prior = grid_view(map);
            assert(prior[x as int].len() == MAP_HEIGHT);
            set_tile(map, x as usize, y as usize, Tile::empty());
            assert forall|i: int, j: int| in_bounds(i, j) implies #[trigger] grid_view(map)[i][j]
                == (if room.holds(i, j) && (i < x || (i == x && j < y + 1)) {
                Tile::floor()
            } else {
                before[i][j]
            }) by {
                assert(grid_view(map)[i][j] == if i == x && j == y {
                    Tile::floor()
                } else {
                    prior[i][j]
                });
            }
            y = y + 1;
        }
        x = x + 1;
    }
    assert(grid_view(map) =~~= with_room(before, room));
}

/// Opens a horizontal corridor along row `y` between columns `x1` and `x2`.
pub fn create_h_tunnel(x1: i32, x2: i32, y: i32, map: &mut Grid)
    requires
        grid_wf(grid_view(old(map))),
        in_bounds(x1 as int, y as int),
        in_bounds(x2 as int, y as int),
    ensures
        grid_view(final(map)) == with_h_tunnel(grid_view(old(map)), x1 as int, x2 as int, y as int),
        grid_wf(grid_view(final(map))),
{
    let ghost before = grid_view(map);
    let first: i32 = if x1 <= x2 { x1 } else { x2 };
    let last: i32 = if x1 <= x2 { x2 } else { x1 };
    let mut x: i32 = first;
    while x < last + 1
        invariant
            first <= x <= last + 1,
            first == lower(x1 as int, x2 as int),
            last == upper(x1 as int, x2 as int),
            0 <= first,
            last < MAP_WIDTH,
            0 <= y < MAP_HEIGHT,
            grid_wf(before),
            grid_wf(grid_view(map)),
            forall|i: int, j: int|
                in_bounds(i, j) ==> #[trigger] grid_view(map)[i][j] == (if j == y && first <= i
                    < x {
                    Tile::floor()
                } else {
                    before[i][j]
                }),
        decreases last + 1 - x,
    {
        let ghost prior = grid_view(map);
        assert(prior[x as int].len() == MAP_HEIGHT);
            set_tile(map, x as usize, y as usize, Tile::empty());
        assert forall|i: int, j: int| in_bounds(i, j) implies #[trigger] grid_view(map)[i][j] == (
        if j == y && first <= i < x + 1 {
            Tile::floor()
        } else {
            before[i][j]
        }) by {
            assert(grid_view(map)[i][j] == if i == x && j == y {
                Tile::floor()
            } else {
                prior[i][j]
            });
        }
        x = x + 1;
    }
    assert(grid_view(map) =~~= with_h_tunnel(before, x1 as int, x2 as int, y as int));
}

/// Opens a vertical corridor along column `x` between rows `y1` and `y2`.
pub fn create_v_tunnel(y1: i32, y2: i32, x: i32, map: &mut Grid)
    requires
        grid_wf(grid_view(old(map))),
        in_bounds(x as int, y1 as int),
        in_bounds(x as int, y2 as int),
    ensures
        grid_view(final(map)) == with_v_tunnel(grid_view(old(map)), y1 as int, y2 as int, x as int),
        grid_wf(grid_view(final(map))),
{
    let ghost before = grid_view(map);
    let first: i32 = if y1 <= y2 { y1 } else { y2 };
    let last: i32 = if y1 <= y2 { y2 } else { y1 };
    let mut y: i32 = first;
    while y < last + 1
        invariant
            first <= y <= last + 1,
            first == lower(y1 as int, y2 as int),
            last == upper(y1 as int, y2 as int),
            0 <= first,
            last < MAP_HEIGHT,
            0 <= x < MAP_WIDTH,
            grid_wf(before),
            grid_wf(grid_view(map)),
            forall|i: int, j: int|
                in_bounds(i, j) ==> #[trigger] grid_view(map)[i][j] == (if i == x && first <= j
                    < y {
                    Tile::floor()
                } else {
                    before[i][j]
                }),
        decreases last + 1 - y,
    {
        let ghost prior = grid_view(map);
        assert(prior[x as int].len() == MAP_HEIGHT);
            set_tile(map, x as usize, y as usize, Tile::empty());
        assert forall|i: int, j: int| in_bounds(i, j) implies #[trigger] grid_view(map)[i][j] == (
        if i == x && first <= j < y + 1 {
            Tile::floor()
        } else {
            before[i][j]
        }) by {
            assert(grid_view(map)[i][j] == if i == x && j == y {
                Tile::floor()
            } else {
                prior[i][j]
            });
        }
        y = y + 1;
    }
    assert(grid_view(map) =~~= with_v_tunnel(before, y1 as int, y2 as int, x as int));
}

/// Whether the grid has the dimensions of a level.
pub fn has_level_size(map: &Grid) -> (yes: bool)
    ensures
        yes == grid_wf(grid_view(map)),
{
    if map.len() != MAP_WIDTH as usize {
        return false;
    }
    let mut x: usize = 0;
    while x < MAP_WIDTH as usize
        invariant
            x <= MAP_WIDTH,
            map.len() == MAP_WIDTH,
            forall|i: int| 0 <= i < x ==> (#[trigger] grid_view(map)[i]).len() == MAP_HEIGHT,
        decreases MAP_WIDTH - x,
    {
        assert(grid_view(map)[x as int] == map[x as int]@);
        if map[x].len() != MAP_HEIGHT as usize {
            return false;
        }
        x = x + 1;
    }
    true
}

/// Whether every tile on the outer ring of a level is blocked.
pub fn is_walled(map: &Grid) -> (yes: bool)
    requires
        grid_wf(grid_view(map)),
    ensures
        yes == walled(grid_view(map)),
{
    let mut x: i32 = 0;
    while x < MAP_WIDTH
        invariant
            0 <= x <= MAP_WIDTH,
            grid_wf(grid_view(map)),
            forall|i: int, j: int|
                0 <= i < x && in_bounds(i, j) && !inside(i, j) ==> (#[trigger] grid_view(
                    map,
                )[i][j]).blocked,
        decreases MAP_WIDTH - x,
    {
        let mut y: i32 = 0;
        while y < MAP_HEIGHT
            invariant
                0 <= x < MAP_WIDTH,
                0 <= y <= MAP_HEIGHT,
                grid_wf(grid_view(map)),
                forall|i: int, j: int|
                    0 <= i < x && in_bounds(i, j) && !inside(i, j) ==> (#[trigger] grid_view(
                        map,
                    )[i][j]).blocked,
                forall|j: int|
                    0 <= j < y && !inside(x as int, j) ==> (#[trigger] grid_view(
                        map,
                    )[x as int][j]).blocked,
            decreases MAP_HEIGHT - y,
        {
            assert(grid_view(map)[x as int] == map[x as int]@);
            assert(grid_view(map)[x as int].len() == MAP_HEIGHT);
            let ring = x == 0 || x == MAP_WIDTH - 1 || y == 0 || y == MAP_HEIGHT - 1;
            if ring && !map[x as usize][y as usize].blocked {
                assert(in_bounds(x as int, y as int) && !inside(x as int, y as int));
                assert(!grid_view(map)[x as int][y as int].blocked);
                return false;
            }
            y = y + 1;
        }
        x = x + 1;
    }
    true
}

} // verus!
