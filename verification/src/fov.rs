//! What the player sees: one flag per tile, filled in by whoever computes the
//! field of view.

use vstd::prelude::*;
use crate::config::{MAP_HEIGHT, MAP_WIDTH};
use crate::grid::in_bounds;

verus! {

/// The tiles in the player's field of view, by column and row.
#[derive(Debug)]
pub struct Visibility {
    pub cells: Vec<Vec<bool>>,
}

impl View for Visibility {
    type V = Seq<Seq<bool>>;

    open spec fn view(&self) -> Seq<Seq<bool>> {
        Seq::new(self.cells.len() as nat, |x: int| self.cells[x]@)
    }
}

/// The flags cover a level.
pub open spec fn fov_wf(cells: Seq<Seq<bool>>) -> bool {
    &&& cells.len() == MAP_WIDTH
    &&& forall|x: int| 0 <= x < MAP_WIDTH ==> (#[trigger] cells[x]).len() == MAP_HEIGHT
}

impl Visibility {
    /// Nothing in view.
    pub fn new() -> (fov: Self)
        ensures
            fov_wf(fov@),
            forall|x: int, y: int| in_bounds(x, y) ==> !(#[trigger] fov@[x][y]),
    {
        let mut cells: Vec<Vec<bool>> = Vec::new();
        let mut x: i32 = 0;
        while x < MAP_WIDTH
            invariant
                0 <= x <= MAP_WIDTH,
                cells.len() == x,
                forall|i: int|
                    0 <= i < x ==> (#[trigger] cells[i]).len() == MAP_HEIGHT && forall|j: int|
                        0 <= j < MAP_HEIGHT ==> !(#[trigger] cells[i][j]),
            decreases MAP_WIDTH - x,
        {
            let mut column: Vec<bool> = Vec::new();
            let mut y: i32 = 0;
            while y < MAP_HEIGHT
                invariant
                    0 <= y <= MAP_HEIGHT,
                    column.len() == y,
                    forall|j: int| 0 <= j < y ==> !(#[trigger] column[j]),
                decreases MAP_HEIGHT - y,
            {
                column.push(false);
                y = y + 1;
            }
            cells.push(column);
            x = x + 1;
        }
        let fov = Visibility { cells };
        assert forall|x: int, y: int| in_bounds(x, y) implies !(#[trigger] fov@[x][y]) by {
            assert(fov@[x] == fov.cells[x]@);
            assert(!fov.cells[x][y]);
        }
        assert forall|x: int| 0 <= x < MAP_WIDTH implies (#[trigger] fov@[x]).len()
            == MAP_HEIGHT by {
            assert(fov.cells[x].len() == MAP_HEIGHT);
        }
        fov
    }

    /// Marks the tile at `(x, y)` as in view or out of view.
    pub fn set(&mut self, x: i32, y: i32, visible: bool)
        requires
            fov_wf(old(self)@),
            in_bounds(x as int, y as int),
        ensures
            final(self)@ == old(self)@.update(x as int, old(self)@[x as int].update(y as int, visible)),
            fov_wf(final(self)@),
    {
        assert(self@[x as int] == self.cells[x as int]@);
        self.cells[x as usize][y as usize] = visible;
        assert(self@ =~~= old(self)@.update(
            x as int,
            old(self)@[x as int].update(y as int, visible),
        ));
    }

    /// Whether the tile at `(x, y)` is in view.
    pub fn is_in_fov(&self, x: i32, y: i32) -> (visible: bool)
        requires
            fov_wf(self@),
            in_bounds(x as int, y as int),
        ensures
            visible == self@[x as int][y as int],
    {
        assert(self@[x as int] == self.cells[x as int]@);
        self.cells[x as usize][y as usize]
    }
}

impl Visibility {
    /// Whether the flags cover a level.
    pub fn covers_level(&self) -> (ok: bool)
        ensures
            ok == fov_wf(self@),
    {
        if self.cells.len() != MAP_WIDTH as usize {
            return false;
        }
        let mut x: usize = 0;
        while x < MAP_WIDTH as usize
            invariant
                x <= MAP_WIDTH,
                self.cells.len() == MAP_WIDTH,
                forall|i: int| 0 <= i < x ==> (#[trigger] self@[i]).len() == MAP_HEIGHT,
            decreases MAP_WIDTH - x,
        {
            assert(self@[x as int] == self.cells[x as int]@);
            if self.cells[x].len() != MAP_HEIGHT as usize {
                return false;
            }
            x = x + 1;
        }
        true
    }
}

} // verus!
