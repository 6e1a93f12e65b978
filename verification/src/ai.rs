//! Monster behaviour: one step per monster per turn.

use vstd::prelude::*;
use crate::color::red;
use crate::combat::{attack_ready, attacked};
use crate::config::PLAYER;
use crate::dice::roll_range;
use crate::entity::{lemma_views_update, views, Ai, Game, GameView, Object, ObjectView};
use crate::fov::{fov_wf, Visibility};
use crate::grid::{grid_view, grid_wf, in_bounds, inside, Grid, Tile};
use crate::movement::{moved, mut_two};
use crate::text::join3;

verus! {

/// The square of the distance between an object and a point.
pub open spec fn gap(object: ObjectView, x: int, y: int) -> int {
    (object.x - x) * (object.x - x) + (object.y - y) * (object.y - y)
}

/// A squared distance `gap` is a distance of at least `range`.
pub open spec fn at_least(gap: int, range: int) -> bool {
    range <= 0 || gap >= range * range
}

/// A squared distance `gap` is a distance of at most `range`.
pub open spec fn within(gap: int, range: int) -> bool {
    range >= 0 && gap <= range * range
}

/// One step along an axis toward a goal that lies `d` away along it and
/// `other` away along the other axis: the step is taken when the direction
/// to the goal leans toward this axis by a half or more.
pub open spec fn toward(d: int, other: int) -> int {
    if d != 0 && 3 * (d * d) >= other * other {
        if d > 0 {
            1
        } else {
            -1
        }
    } else {
        0
    }
}

fn square(d: i64) -> (product: i128)
    requires
        -0x1_0000_0000 <= d <= 0x1_0000_0000,
    ensures
        product == d * d,
        0 <= product <= 0x1_0000_0000 * 0x1_0000_0000,
{
    assert(0 <= d * d <= 0x1_0000_0000 * 0x1_0000_0000) by (nonlinear_arith)
        requires
            -0x1_0000_0000 <= d <= 0x1_0000_0000,
    ;
    (d as i128) * (d as i128)
}

fn step_toward(d: i64, other: i64) -> (step: i32)
    requires
        -0x1_0000_0000 <= d <= 0x1_0000_0000,
        -0x1_0000_0000 <= other <= 0x1_0000_0000,
    ensures
        step == toward(d as int, other as int),
{
    if d != 0 && 3 * square(d) >= square(other) {
        if d > 0 {
            1
        } else {
            -1
        }
    } else {
        0
    }
}

impl Object {
    /// The square of the distance to `other`.
    pub fn distance_squared_to(&self, other: &Object) -> (squared: i128)
        ensures
            squared == gap(self@, other.x as int, other.y as int),
    {
        self.distance_squared_to_point((other.x, other.y))
    }

    /// The square of the distance to a point.
    pub fn distance_squared_to_point(&self, point: (i32, i32)) -> (squared: i128)
        ensures
            squared == gap(self@, point.0 as int, point.1 as int),
    {
        let dx: i64 = self.x as i64 - point.0 as i64;
        let dy: i64 = self.y as i64 - point.1 as i64;
        square(dx) + square(dy)
    }

    /// Whether the distance to a point is at least `range`.
    pub fn is_at_least(&self, point: (i32, i32), range: i32) -> (far: bool)
        ensures
            far == at_least(gap(self@, point.0 as int, point.1 as int), range as int),
    {
        range <= 0 || self.distance_squared_to_point(point) >= square(range as i64)
    }

    /// Whether the distance to a point is at most `range`.
    pub fn is_within(&self, point: (i32, i32), range: i32) -> (near: bool)
        ensures
            near == within(gap(self@, point.0 as int, point.1 as int), range as int),
    {
        range >= 0 && self.distance_squared_to_point(point) <= square(range as i64)
    }
}

/// The objects after the one at `id` takes a step toward `(x, y)`.
pub open spec fn stepped_toward(
    tiles: Seq<Seq<Tile>>,
    objects: Seq<ObjectView>,
    id: int,
    x: int,
    y: int,
) -> Seq<ObjectView> {
    let dx = x - objects[id].x;
    let dy = y - objects[id].y;
    moved(tiles, objects, id, toward(dx, dy), toward(dy, dx))
}

/// Moves the object at `id` one step toward `(target_x, target_y)`.
pub fn move_towards(
    id: usize,
    target_x: i32,
    target_y: i32,
    map: &Grid,
    objects: &mut Vec<Object>,
)
    requires
        id < old(objects).len(),
        grid_wf(grid_view(map)),
        in_bounds(
            old(objects)[id as int].x + toward(
                target_x - old(objects)[id as int].x,
                target_y - old(objects)[id as int].y,
            ),
            old(objects)[id as int].y + toward(
                target_y - old(objects)[id as int].y,
                target_x - old(objects)[id as int].x,
            ),
        ),
    ensures
        views(final(objects)@) == stepped_toward(
            grid_view(map),
            views(old(objects)@),
            id as int,
            target_x as int,
            target_y as int,
        ),
{
    let dx: i64 = target_x as i64 - objects[id].x as i64;
    let dy: i64 = target_y as i64 - objects[id].y as i64;
    assert(views(objects@)[id as int] == objects[id as int]@);
    let step_x: i32 = step_toward(dx, dy);
    let step_y: i32 = step_toward(dy, dx);
    Object::move_by(id, step_x, step_y, map, objects);
}

/// What a monster is about: how it behaves after one more step.
pub open spec fn next_ai(ai: Ai) -> Ai {
    match ai {
        Ai::Confused { previous_ai, num_turns } => if num_turns <= 1 {
            *previous_ai
        } else {
            Ai::Confused { previous_ai, num_turns: (num_turns - 1) as i32 }
        },
        _ => ai,
    }
}

/// The step ends a monster's confusion.
pub open spec fn recovers(ai: Ai) -> bool {
    ai matches Ai::Confused { num_turns, .. } && num_turns <= 1
}

/// What is logged when a monster's confusion ends.
pub open spec fn text_recovered(name: Seq<char>) -> Seq<char> {
    "the "@ + name + " is no longer confused"@
}

/// The player can still be fought.
pub open spec fn standing(player: ObjectView) -> bool {
    player.fighter matches Some(f) && f.hp > 0
}

/// The step of a monster that hunts the player: the game and the objects
/// afterwards.
///
/// Out of view it does nothing. At a distance of `range` or more it steps
/// toward the player. Nearer, it attacks the player with a roll of `damage`
/// while the player stands.
pub open spec fn pursued(
    visible: bool,
    id: int,
    range: int,
    game: GameView,
    objects: Seq<ObjectView>,
    damage: int,
) -> (GameView, Seq<ObjectView>) {
    let monster = objects[id];
    let player = objects[PLAYER as int];
    if !visible {
        (game, objects)
    } else if at_least(gap(monster, player.x as int, player.y as int), range) {
        (game, stepped_toward(game.map, objects, id, player.x as int, player.y as int))
    } else if standing(player) {
        let (after, hit, told) = attacked(monster, player, game, None, damage);
        (told, objects.update(id, after).update(PLAYER as int, hit))
    } else {
        (game, objects)
    }
}

/// What the step of a hunting monster needs: a place on the level to be
/// looked up; if it steps, a tile of the level to step to; and if it attacks,
/// that it is not the player itself and that the attack is ready.
pub open spec fn pursuit_ready(
    visible: bool,
    id: int,
    range: int,
    game: GameView,
    objects: Seq<ObjectView>,
    damage: int,
) -> bool {
    let monster = objects[id];
    let player = objects[PLAYER as int];
    &&& 0 <= id < objects.len()
    &&& monster.on_map()
    &&& visible ==> if at_least(gap(monster, player.x as int, player.y as int), range) {
        &&& grid_wf(game.map)
        &&& in_bounds(
            monster.x + toward(player.x - monster.x, player.y - monster.y),
            monster.y + toward(player.y - monster.y, player.x - monster.x),
        )
    } else {
        standing(player) ==> id != PLAYER && attack_ready(monster, player, game, None, damage)
    }
}

/// The step of a confused monster that stumbles by `(dx, dy)` with
/// `num_turns` turns of confusion left: the game and the objects afterwards.
pub open spec fn stumbled(
    id: int,
    dx: int,
    dy: int,
    game: GameView,
    objects: Seq<ObjectView>,
    num_turns: int,
) -> (GameView, Seq<ObjectView>) {
    (
        if num_turns <= 1 {
            game.told(text_recovered(objects[id].name), red())
        } else {
            game
        },
        moved(game.map, objects, id, dx, dy),
    )
}

/// One step of the monster at `id`: the game and the objects afterwards.
/// `visible` says whether the monster is in view, `damage` is the roll of its
/// attack, and `(dx, dy)` is where it stumbles if confused.
pub open spec fn turn_taken(
    visible: bool,
    id: int,
    game: GameView,
    objects: Seq<ObjectView>,
    damage: int,
    dx: int,
    dy: int,
) -> (GameView, Seq<ObjectView>) {
    match objects[id].ai {
        None => (game, objects),
        Some(ai) => {
            let idle = objects.update(id, ObjectView { ai: None, ..objects[id] });
            let (after, acted) = match ai {
                Ai::Basic => pursued(visible, id, 2, game, idle, damage),
                Ai::Archer { range } => pursued(visible, id, range as int, game, idle, damage),
                Ai::Confused { num_turns, .. } => stumbled(id, dx, dy, game, idle, num_turns as int),
            };
            (after, acted.update(id, ObjectView { ai: Some(next_ai(ai)), ..acted[id] }))
        },
    }
}

/// What one step of the monster at `id` needs.
pub open spec fn turn_ready(
    visible: bool,
    id: int,
    game: GameView,
    objects: Seq<ObjectView>,
    damage: int,
) -> bool {
    &&& 0 <= id < objects.len()
    &&& match objects[id].ai {
        None => true,
        Some(Ai::Basic) => pursuit_ready(visible, id, 2, game, objects, damage),
        Some(Ai::Archer { range }) => pursuit_ready(visible, id, range as int, game, objects, damage),
        Some(Ai::Confused { .. }) => grid_wf(game.map) && inside(
            objects[id].x as int,
            objects[id].y as int,
        ),
    }
}

/// The step of a hunting monster.
fn pursue(
    monster_id: usize,
    range: i32,
    fov: &Visibility,
    game: &mut Game,
    objects: &mut Vec<Object>,
    damage: i32,
)
    requires
        fov_wf(fov@),
        pursuit_ready(
            fov@[old(objects)[monster_id as int].x as int][old(objects)[monster_id as int].y as int],
            monster_id as int,
            range as int,
            old(game)@,
            views(old(objects)@),
            damage as int,
        ),
    ensures
        final(game)@ == pursued(
            fov@[old(objects)[monster_id as int].x as int][old(objects)[monster_id as int].y as int],
            monster_id as int,
            range as int,
            old(game)@,
            views(old(objects)@),
            damage as int,
        ).0,
        views(final(objects)@) == pursued(
            fov@[old(objects)[monster_id as int].x as int][old(objects)[monster_id as int].y as int],
            monster_id as int,
            range as int,
            old(game)@,
            views(old(objects)@),
            damage as int,
        ).1,
{
    assert(views(objects@)[monster_id as int] == objects[monster_id as int]@);
    assert(views(objects@)[PLAYER as int] == objects[PLAYER as int]@);
    let (monster_x, monster_y) = objects[monster_id].pos();
    if fov.is_in_fov(monster_x, monster_y) {
        let player_pos = objects[PLAYER].pos();
        if objects[monster_id].is_at_least(player_pos, range) {
            move_towards(monster_id, player_pos.0, player_pos.1, &game.map, objects);
        } else {
            let standing = match objects[PLAYER].fighter {
                Some(f) => f.hp > 0,
                None => false,
            };
            if standing {
                let ghost before = objects@;
                let (monster, player) = mut_two(monster_id, PLAYER, objects.as_mut_slice());
                monster.attack(player, game, None, damage);
                proof {
                    let after = objects@[monster_id as int];
                    lemma_views_update(before, monster_id as int, after);
                    lemma_views_update(
                        before.update(monster_id as int, after),
                        PLAYER as int,
                        objects@[PLAYER as int],
                    );
                }
            }
        }
    }
}

/// The step of a monster that hunts the player hand to hand.
pub fn ai_basic(
    monster_id: usize,
    fov: &Visibility,
    game: &mut Game,
    objects: &mut Vec<Object>,
    damage: i32,
) -> (ai: Ai)
    requires
        fov_wf(fov@),
        pursuit_ready(
            fov@[old(objects)[monster_id as int].x as int][old(objects)[monster_id as int].y as int],
            monster_id as int,
            2,
            old(game)@,
            views(old(objects)@),
            damage as int,
        ),
    ensures
        ai == Ai::Basic,
        final(game)@ == pursued(
            fov@[old(objects)[monster_id as int].x as int][old(objects)[monster_id as int].y as int],
            monster_id as int,
            2,
            old(game)@,
            views(old(objects)@),
            damage as int,
        ).0,
        views(final(objects)@) == pursued(
            fov@[old(objects)[monster_id as int].x as int][old(objects)[monster_id as int].y as int],
            monster_id as int,
            2,
            old(game)@,
            views(old(objects)@),
            damage as int,
        ).1,
{
    pursue(monster_id, 2, fov, game, objects, damage);
    Ai::Basic
}

/// The step of a monster that hunts the player from `range` away.
pub fn ai_archer(
    monster_id: usize,
    fov: &Visibility,
    game: &mut Game,
    objects: &mut Vec<Object>,
    range: i32,
    damage: i32,
) -> (ai: Ai)
    requires
        fov_wf(fov@),
        pursuit_ready(
            fov@[old(objects)[monster_id as int].x as int][old(objects)[monster_id as int].y as int],
            monster_id as int,
            range as int,
            old(game)@,
            views(old(objects)@),
            damage as int,
        ),
    ensures
        ai == (Ai::Archer { range }),
        final(game)@ == pursued(
            fov@[old(objects)[monster_id as int].x as int][old(objects)[monster_id as int].y as int],
            monster_id as int,
            range as int,
            old(game)@,
            views(old(objects)@),
            damage as int,
        ).0,
        views(final(objects)@) == pursued(
            fov@[old(objects)[monster_id as int].x as int][old(objects)[monster_id as int].y as int],
            monster_id as int,
            range as int,
            old(game)@,
            views(old(objects)@),
            damage as int,
        ).1,
{
    pursue(monster_id, range, fov, game, objects, damage);
    Ai::Archer { range }
}

/// The step of a confused monster that stumbles by `(dx, dy)`.
pub fn stumble(
    monster_id: usize,
    dx: i32,
    dy: i32,
    game: &mut Game,
    objects: &mut Vec<Object>,
    previous_ai: Box<Ai>,
    num_turns: i32,
) -> (ai: Ai)
    requires
        monster_id < old(objects).len(),
        grid_wf(old(game)@.map),
        in_bounds(
            old(objects)[monster_id as int].x + dx,
            old(objects)[monster_id as int].y + dy,
        ),
    ensures
        ai == next_ai(Ai::Confused { previous_ai, num_turns }),
        final(game)@ == stumbled(
            monster_id as int,
            dx as int,
            dy as int,
            old(game)@,
            views(old(objects)@),
            num_turns as int,
        ).0,
        views(final(objects)@) == stumbled(
            monster_id as int,
            dx as int,
            dy as int,
            old(game)@,
            views(old(objects)@),
            num_turns as int,
        ).1,
{
    assert(views(objects@)[monster_id as int] == objects[monster_id as int]@);
    Object::move_by(monster_id, dx, dy, &game.map, objects);
    assert(views(objects@).len() == objects.len());
    assert(views(objects@)[monster_id as int] == objects[monster_id as int]@);
    if num_turns <= 1 {
        let text = join3("the ", objects[monster_id].name.as_str(), " is no longer confused");
        game.messages.add(text.as_str(), red());
        *previous_ai
    } else {
        Ai::Confused { previous_ai, num_turns: num_turns - 1 }
    }
}

/// The step of a confused monster: it stumbles to a tile next to it, or
/// stays, and its confusion wears off by one turn.
pub fn ai_confused(
    monster_id: usize,
    game: &mut Game,
    objects: &mut Vec<Object>,
    previous_ai: Box<Ai>,
    num_turns: i32,
) -> (ai: Ai)
    requires
        monster_id < old(objects).len(),
        grid_wf(old(game)@.map),
        inside(old(objects)[monster_id as int].x as int, old(objects)[monster_id as int].y as int),
    ensures
        ai == next_ai(Ai::Confused { previous_ai, num_turns }),
        exists|dx: int, dy: int|
            -1 <= dx <= 1 && -1 <= dy <= 1 && (final(game)@, views(final(objects)@))
                == #[trigger] stumbled(
                monster_id as int,
                dx,
                dy,
                old(game)@,
                views(old(objects)@),
                num_turns as int,
            ),
{
    let dx: i32 = roll_range(-1, 2);
    let dy: i32 = roll_range(-1, 2);
    let ai = stumble(monster_id, dx, dy, game, objects, previous_ai, num_turns);
    assert((game@, views(objects@)) == stumbled(
        monster_id as int,
        dx as int,
        dy as int,
        old(game)@,
        views(old(objects)@),
        num_turns as int,
    ));
    ai
}

/// One step of the monster at `monster_id`. `damage` is the roll of its
/// attack, used if it attacks.
pub fn ai_take_turn(
    monster_id: usize,
    fov: &Visibility,
    game: &mut Game,
    objects: &mut Vec<Object>,
    damage: i32,
)
    requires
        fov_wf(fov@),
        monster_id < old(objects).len(),
        turn_ready(
            fov@[old(objects)[monster_id as int].x as int][old(objects)[monster_id as int].y as int],
            monster_id as int,
            old(game)@,
            views(old(objects)@),
            damage as int,
        ),
    ensures
        exists|dx: int, dy: int|
            -1 <= dx <= 1 && -1 <= dy <= 1 && (final(game)@, views(final(objects)@))
                == #[trigger] turn_taken(
                fov@[old(objects)[monster_id as int].x as int][old(objects)[monster_id as int].y as int],
                monster_id as int,
                old(game)@,
                views(old(objects)@),
                damage as int,
                dx,
                dy,
            ),
        final(objects).len() == old(objects).len(),
        views(final(objects)@)[monster_id as int].ai == (match views(
            old(objects)@,
        )[monster_id as int].ai {
            Some(ai) => Some(next_ai(ai)),
            None => None,
        }),
        views(old(objects)@)[monster_id as int].ai is None ==> final(game)@ == old(game)@ && views(
            final(objects)@,
        ) == views(old(objects)@),
{
    let ghost visible =
        fov@[objects[monster_id as int].x as int][objects[monster_id as int].y as int];
    let ghost before = objects@;
    assert(views(before)[monster_id as int] == before[monster_id as int]@);
    let taken = objects[monster_id].ai.take();
    proof {
        lemma_views_update(before, monster_id as int, objects@[monster_id as int]);
    }
    let ghost idle = views(objects@);
    match taken {
        Some(ai) => {
            assert(idle =~= views(before).update(
                monster_id as int,
                ObjectView { ai: None, ..views(before)[monster_id as int] },
            ));
            let ghost mut dx: int = 0;
            let ghost mut dy: int = 0;
            let new_ai = match ai {
                Ai::Basic => ai_basic(monster_id, fov, game, objects, damage),
                Ai::Archer { range } => ai_archer(monster_id, fov, game, objects, range, damage),
                Ai::Confused { previous_ai, num_turns } => {
                    let next = ai_confused(monster_id, game, objects, previous_ai, num_turns);
                    proof {
                        let (a, b) = choose|a: int, b: int|
                            -1 <= a <= 1 && -1 <= b <= 1 && (game@, views(objects@))
                                == #[trigger] stumbled(
                                monster_id as int,
                                a,
                                b,
                                old(game)@,
                                idle,
                                num_turns as int,
                            );
                        dx = a;
                        dy = b;
                    }
                    next
                },
            };
            let ghost acted = objects@;
            assert(views(acted).len() == acted.len());
            assert(views(acted)[monster_id as int] == acted[monster_id as int]@);
            objects[monster_id].ai = Some(new_ai);
            proof {
                lemma_views_update(acted, monster_id as int, objects@[monster_id as int]);
                assert((game@, views(objects@)) == turn_taken(
                    visible,
                    monster_id as int,
                    old(game)@,
                    views(old(objects)@),
                    damage as int,
                    dx,
                    dy,
                ));
            }
        },
        None => {
            assert(views(objects@) =~= views(before));
            assert((game@, views(objects@)) == turn_taken(
                visible,
                monster_id as int,
                old(game)@,
                views(old(objects)@),
                damage as int,
                0,
                0,
            ));
        },
    }
}

/// How a monster behaves after `steps` steps.
pub open spec fn ai_after(ai: Ai, steps: nat) -> Ai
    decreases steps,
{
    if steps == 0 {
        ai
    } else {
        next_ai(ai_after(ai, (steps - 1) as nat))
    }
}

/// How many of a monster's first `steps` steps end a confusion, and so log
/// that it is no longer confused.
pub open spec fn recoveries(ai: Ai, steps: nat) -> nat
    decreases steps,
{
    if steps == 0 {
        0
    } else {
        recoveries(ai, (steps - 1) as nat) + if recovers(ai_after(ai, (steps - 1) as nat)) {
            1nat
        } else {
            0nat
        }
    }
}

/// A monster confused for `turns` turns, at least one, is still confused
/// after every step before the last of them and has logged no recovery; with
/// the last of them it is back to what it was, and from then on it has logged
/// its recovery exactly once.
pub proof fn lemma_confusion_wears_off(previous: Ai, turns: i32, steps: nat)
    requires
        turns >= 1,
        !(previous is Confused),
    ensures
        steps < turns ==> ai_after(
            Ai::Confused { previous_ai: Box::new(previous), num_turns: turns },
            steps,
        ) == (Ai::Confused { previous_ai: Box::new(previous), num_turns: (turns - steps) as i32 })
            && recoveries(
            Ai::Confused { previous_ai: Box::new(previous), num_turns: turns },
            steps,
        ) == 0,
        steps >= turns ==> ai_after(
            Ai::Confused { previous_ai: Box::new(previous), num_turns: turns },
            steps,
        ) == previous && recoveries(
            Ai::Confused { previous_ai: Box::new(previous), num_turns: turns },
            steps,
        ) == 1,
    decreases steps,
{
    if steps > 0 {
        lemma_confusion_wears_off(previous, turns, (steps - 1) as nat);
    }
}

/// A step keeps a monster's behaviour well formed: what a confused monster
/// remembers is never confusion.
pub proof fn lemma_next_ai_wf(ai: Ai)
    requires
        ai.wf(),
    ensures
        next_ai(ai).wf(),
{
}

/// The turn of a confused monster logs that it is no longer confused exactly
/// when the turn ends its confusion, logs nothing else, and leaves the
/// monster with the behaviour that follows.
pub proof fn lemma_confused_turn(
    visible: bool,
    id: int,
    game: GameView,
    objects: Seq<ObjectView>,
    damage: int,
    dx: int,
    dy: int,
)
    requires
        0 <= id < objects.len(),
        objects[id].ai matches Some(Ai::Confused { .. }),
    ensures
        turn_taken(visible, id, game, objects, damage, dx, dy).0.messages == (if recovers(
            objects[id].ai->0,
        ) {
            game.messages.push((text_recovered(objects[id].name), red()))
        } else {
            game.messages
        }),
        turn_taken(visible, id, game, objects, damage, dx, dy).1.len() == objects.len(),
        turn_taken(visible, id, game, objects, damage, dx, dy).1[id].ai == Some(
            next_ai(objects[id].ai->0),
        ),
{
}

/// The turn of an object that is not confused leaves its behaviour as it
/// is; without a behaviour it changes nothing at all. Whatever such a turn
/// logs, it keeps what was logged before and adds no line in the colour that
/// the end of a confusion is logged in.
pub proof fn lemma_unconfused_turn(
    visible: bool,
    id: int,
    game: GameView,
    objects: Seq<ObjectView>,
    damage: int,
    dx: int,
    dy: int,
)
    requires
        0 <= id < objects.len(),
        !(objects[id].ai matches Some(Ai::Confused { .. })),
    ensures
        objects[id].ai is None ==> turn_taken(visible, id, game, objects, damage, dx, dy) == (
            game,
            objects,
        ),
        turn_taken(visible, id, game, objects, damage, dx, dy).1.len() == objects.len(),
        turn_taken(visible, id, game, objects, damage, dx, dy).1[id].ai == objects[id].ai,
        game.messages.len() <= turn_taken(visible, id, game, objects, damage, dx, dy).0.messages.len(),
        forall|k: int|
            0 <= k < turn_taken(visible, id, game, objects, damage, dx, dy).0.messages.len() ==> (
            #[trigger] turn_taken(visible, id, game, objects, damage, dx, dy).0.messages[k]) == (
            if k < game.messages.len() {
                game.messages[k]
            } else {
                turn_taken(visible, id, game, objects, damage, dx, dy).0.messages[k]
            }) && (k >= game.messages.len() ==> turn_taken(
                visible,
                id,
                game,
                objects,
                damage,
                dx,
                dy,
            ).0.messages[k].1 != red()),
{
}

} // verus!
