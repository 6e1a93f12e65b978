//! What there is to show: explored tiles, the objects in sight in drawing
//! order, and the texts of menus and tooltips.

use vstd::prelude::*;
use vstd::string::StringExecFns;
use crate::config::{MAP_HEIGHT, MAP_WIDTH};
use crate::entity::{views, Object, ObjectView};
use crate::fov::{fov_wf, Visibility};
use crate::grid::{grid_view, grid_wf, in_bounds, set_tile, Grid, Tile};

verus! {

/// The grid after every tile in view is marked as explored.
pub open spec fn explored(tiles: Seq<Seq<Tile>>, fov: Seq<Seq<bool>>) -> Seq<Seq<Tile>> {
    Seq::new(
        tiles.len(),
        |x: int|
            Seq::new(
                tiles[x].len(),
                |y: int| Tile { explored: tiles[x][y].explored || fov[x][y], ..tiles[x][y] },
            ),
    )
}

/// Marks every tile in view as explored.
pub fn mark_explored(map: &mut Grid, fov: &Visibility)
    requires
        grid_wf(grid_view(old(map))),
        fov_wf(fov@),
    ensures
        grid_view(final(map)) == explored(grid_view(old(map)), fov@),
        grid_wf(grid_view(final(map))),
{
    let ghost before = grid_view(map);
    let mut x: i32 = 0;
    while x < MAP_WIDTH
        invariant
            0 <= x <= MAP_WIDTH,
            grid_wf(before),
            grid_wf(grid_view(map)),
            fov_wf(fov@),
            forall|i: int, j: int|
                in_bounds(i, j) ==> #[trigger] grid_view(map)[i][j] == (if i < x {
                    explored(before, fov@)[i][j]
                } else {
                    before[i][j]
                }),
        decreases MAP_WIDTH - x,
    {
        let mut y: i32 = 0;
        while y < MAP_HEIGHT
            invariant
                0 <= x < MAP_WIDTH,
                0 <= y <= MAP_HEIGHT,
                grid_wf(before),
                grid_wf(grid_view(map)),
                fov_wf(fov@),
                forall|i: int, j: int|
                    in_bounds(i, j) ==> #[trigger] grid_view(map)[i][j] == (if i < x || (i == x
                        && j < y) {
                        explored(before, fov@)[i][j]
                    } else {
                        before[i][j]
                    }),
            decreases MAP_HEIGHT - y,
        {
            let ghost prior = grid_view(map);
            assert(prior[x as int] == map[x as int]@);
            assert(prior[x as int].len() == MAP_HEIGHT);
            if fov.is_in_fov(x, y) {
                let mut tile = map[x as usize][y as usize];
                tile.explored = true;
                set_tile(map, x as usize, y as usize, tile);
            }
            assert forall|i: int, j: int| in_bounds(i, j) implies #[trigger] grid_view(map)[i][j]
                == (if i < x || (i == x && j < y + 1) {
                explored(before, fov@)[i][j]
            } else {
                before[i][j]
            }) by {
                assert(prior[i][j] == (if i < x || (i == x && j < y) {
                    explored(before, fov@)[i][j]
                } else {
                    before[i][j]
                }));
            }
            y = y + 1;
        }
        x = x + 1;
    }
    assert(grid_view(map) =~~= explored(before, fov@));
}

/// The object is to be drawn: it is in view, or it stays on show and its
/// tile has been explored.
pub open spec fn on_show(object: ObjectView, tiles: Seq<Seq<Tile>>, fov: Seq<Seq<bool>>) -> bool {
    fov[object.x as int][object.y as int] || (object.always_visible
        && tiles[object.x as int][object.y as int].explored)
}

/// The places of the first `upto` objects that are to be drawn and block or
/// do not block as `blocks` says, in their order.
pub open spec fn drawn(
    objects: Seq<ObjectView>,
    tiles: Seq<Seq<Tile>>,
    fov: Seq<Seq<bool>>,
    blocks: bool,
    upto: int,
) -> Seq<usize>
    decreases upto,
{
    if upto <= 0 {
        Seq::empty()
    } else {
        let before = drawn(objects, tiles, fov, blocks, upto - 1);
        if on_show(objects[upto - 1], tiles, fov) && objects[upto - 1].blocks == blocks {
            before.push((upto - 1) as usize)
        } else {
            before
        }
    }
}

/// The objects to draw, in drawing order: what does not block first, so that
/// what blocks is drawn over it.
pub fn to_draw(objects: &Vec<Object>, map: &Grid, fov: &Visibility) -> (order: Vec<usize>)
    requires
        grid_wf(grid_view(map)),
        fov_wf(fov@),
        forall|j: int| 0 <= j < objects.len() ==> (#[trigger] objects[j])@.on_map(),
    ensures
        order@ == drawn(views(objects@), grid_view(map), fov@, false, objects.len() as int)
            + drawn(views(objects@), grid_view(map), fov@, true, objects.len() as int),
{
    let mut under: Vec<usize> = Vec::new();
    let mut over: Vec<usize> = Vec::new();
    let mut id: usize = 0;
    while id < objects.len()
        invariant
            id <= objects.len(),
            grid_wf(grid_view(map)),
            fov_wf(fov@),
            forall|j: int| 0 <= j < objects.len() ==> (#[trigger] objects[j])@.on_map(),
            under@ == drawn(views(objects@), grid_view(map), fov@, false, id as int),
            over@ == drawn(views(objects@), grid_view(map), fov@, true, id as int),
        decreases objects.len() - id,
    {
        assert(views(objects@)[id as int] == objects[id as int]@);
        assert(objects[id as int]@.on_map());
        let o = &objects[id];
        assert(grid_view(map)[o.x as int] == map[o.x as int]@);
        assert(grid_view(map)[o.x as int].len() == MAP_HEIGHT);
        if fov.is_in_fov(o.x, o.y) || (o.always_visible && map[o.x as usize][o.y as usize].explored) {
            if o.blocks {
                over.push(id);
            } else {
                under.push(id);
            }
        }
        id = id + 1;
    }
    let mut order = under;
    let mut k: usize = 0;
    let ghost first = order@;
    while k < over.len()
        invariant
            k <= over.len(),
            order@ == first + over@.take(k as int),
        decreases over.len() - k,
    {
        order.push(over[k]);
        assert(first + over@.take(k + 1) =~= (first + over@.take(k as int)).push(over@[k as int]));
        k = k + 1;
    }
    assert(over@.take(k as int) =~= over@);
    order
}

/// The text a menu shows for an object of the inventory: its name, and where
/// it is worn if it is.
pub open spec fn label(object: ObjectView) -> Seq<char> {
    match object.equipment {
        Some(e) => if e.equipped {
            object.name + " (on "@ + e.slot.label() + ")"@
        } else {
            object.name
        },
        None => object.name,
    }
}

/// The single line of the menu of an empty inventory.
pub open spec fn text_empty_inventory() -> Seq<char> {
    "Inventory is empty"@
}

/// The lines of the inventory menu: one per object, or a single line saying
/// that there is none.
pub fn inventory_labels(inventory: &Vec<Object>) -> (labels: Vec<String>)
    ensures
        inventory.len() == 0 ==> labels.len() == 1 && labels[0]@ == text_empty_inventory(),
        inventory.len() > 0 ==> labels.len() == inventory.len() && forall|i: int|
            0 <= i < labels.len() ==> (#[trigger] labels[i])@ == label(views(inventory@)[i]),
{
    let mut labels: Vec<String> = Vec::new();
    if inventory.len() == 0 {
        labels.push(String::from_str("Inventory is empty"));
        return labels;
    }
    let mut i: usize = 0;
    while i < inventory.len()
        invariant
            i <= inventory.len(),
            labels.len() == i,
            forall|k: int| 0 <= k < i ==> (#[trigger] labels[k])@ == label(views(inventory@)[k]),
        decreases inventory.len() - i,
    {
        assert(views(inventory@)[i as int] == inventory[i as int]@);
        let item = &inventory[i];
        let mut text = item.name.clone();
        match item.equipment {
            Some(e) => {
                if e.equipped {
                    text.append(" (on ");
                    text.append(e.slot.name());
                    text.append(")");
                }
            },
            None => {},
        }
        labels.push(text);
        i = i + 1;
    }
    labels
}

/// The names of the first `upto` objects that stand at `(x, y)`, separated by
/// commas.
pub open spec fn names_of(objects: Seq<ObjectView>, x: int, y: int, upto: int) -> Seq<char>
    decreases upto,
{
    if upto <= 0 {
        Seq::empty()
    } else {
        let before = names_of(objects, x, y, upto - 1);
        let o = objects[upto - 1];
        if o.x == x && o.y == y {
            if stands_before(objects, x, y, upto - 1) {
                before + ", "@ + o.name
            } else {
                o.name
            }
        } else {
            before
        }
    }
}

/// One of the first `upto` objects stands at `(x, y)`.
pub open spec fn stands_before(objects: Seq<ObjectView>, x: int, y: int, upto: int) -> bool {
    exists|k: int| 0 <= k < upto && (#[trigger] objects[k]).x == x && objects[k].y == y
}

/// The names of the objects at `(x, y)`, separated by commas, if the tile is
/// in view; nothing otherwise.
pub fn names_at(x: i32, y: i32, objects: &Vec<Object>, fov: &Visibility) -> (names: String)
    requires
        fov_wf(fov@),
    ensures
        names@ == (if in_bounds(x as int, y as int) && fov@[x as int][y as int] {
            names_of(views(objects@), x as int, y as int, objects.len() as int)
        } else {
            Seq::empty()
        }),
{
    let mut names = String::new();
    if x < 0 || x >= MAP_WIDTH || y < 0 || y >= MAP_HEIGHT {
        return names;
    }
    if !fov.is_in_fov(x, y) {
        return names;
    }
    let mut found = false;
    let mut id: usize = 0;
    while id < objects.len()
        invariant
            id <= objects.len(),
            found == stands_before(views(objects@), x as int, y as int, id as int),
            !found ==> names@ == Seq::<char>::empty(),
            names@ == names_of(views(objects@), x as int, y as int, id as int),
        decreases objects.len() - id,
    {
        assert(views(objects@)[id as int] == objects[id as int]@);
        let o = &objects[id];
        if o.x == x && o.y == y {
            if found {
                names.append(", ");
                names.append(o.name.as_str());
            } else {
                names.append(o.name.as_str());
                assert(names@ =~= o.name@);
            }
            found = true;
        }
        id = id + 1;
    }
    names
}

} // verus!
