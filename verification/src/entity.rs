//! Everything that stands on a level or lies in the inventory, and the state
//! of a game.

use vstd::prelude::*;
use vstd::string::StringExecFns;
use crate::color::Color;
use crate::grid::{grid_view, in_bounds, Grid, Tile};
use crate::messages::{Line, Messages};

verus! {

/// Where a piece of equipment is worn.
#[derive(Clone, Copy, Debug, PartialEq, Eq, Structural)]
pub enum Slot {
    LeftHand,
    RightHand,
    Head,
    Body,
}

impl Slot {
    /// The name of the slot as shown to the player.
    pub open spec fn label(self) -> Seq<char> {
        match self {
            Slot::LeftHand => "left hand"@,
            Slot::RightHand => "right hand"@,
            Slot::Head => "head"@,
            Slot::Body => "body"@,
        }
    }

    /// The name of the slot as shown to the player.
    pub fn name(&self) -> (text: &'static str)
        ensures
            text@ == self.label(),
    {
        match self {
            Slot::LeftHand => "left hand",
            Slot::RightHand => "right hand",
            Slot::Head => "head",
            Slot::Body => "body",
        }
    }
}

/// What an object grants while it is worn.
#[derive(Clone, Copy, Debug, PartialEq, Eq, Structural)]
pub struct Equipment {
    pub slot: Slot,
    pub equipped: bool,
    pub power_bonus: i32,
    pub defense_bonus: i32,
    pub max_hp_bonus: i32,
    pub max_mana_bonus: i32,
    pub spellcast_bonus: i32,
    pub mana_usage: i32,
}

/// What an object does when it is used.
#[derive(Clone, Copy, Debug, PartialEq, Eq, Structural)]
pub enum Item {
    Heal { amount: i32 },
    Lightning { damage: i32 },
    Fireball { charges: i32, damage: i32 },
    Confuse,
    Sword,
    Shield,
    Helmet,
    BodyArmor,
    ManaPotion,
    FireballStaff { range: i32 },
}

/// What happens to a fighter when it dies.
#[derive(Clone, Copy, Debug, PartialEq, Eq, Structural)]
pub enum DeathCallback {
    Player,
    Monster,
    MonsterArcher,
}

/// The combat statistics of an object that can fight.
#[derive(Clone, Copy, Debug, PartialEq, Eq, Structural)]
pub struct Fighter {
    pub base_max_hp: i32,
    pub hp: i32,
    pub base_defense: i32,
    pub base_power: i32,
    pub mana: i32,
    pub base_max_mana: i32,
    pub base_spellcast_modifier: i32,
    pub xp: i32,
    pub on_death: DeathCallback,
}

/// How a monster behaves on its turn. A confused monster remembers the
/// behaviour it returns to.
#[derive(Debug, PartialEq)]
pub enum Ai {
    Basic,
    Confused { previous_ai: Box<Ai>, num_turns: i32 },
    Archer { range: i32 },
}

impl Ai {
    /// A confused monster's remembered behaviour is not itself confusion.
    pub open spec fn wf(self) -> bool {
        self matches Ai::Confused { previous_ai, .. } ==> !(*previous_ai is Confused)
    }
}

/// Anything on a level or in the inventory: the player, a monster, an item,
/// the stairs.
///
/// Each component is optional. Among the objects of a level one rule holds,
/// stated as [`ObjectView::sound`]: what has a behaviour can fight. Monsters
/// are made with both components and lose both when they die.
#[derive(Debug, PartialEq)]
pub struct Object {
    pub x: i32,
    pub y: i32,
    pub char: char,
    pub color: Color,
    pub name: String,
    pub blocks: bool,
    pub alive: bool,
    pub always_visible: bool,
    pub level: i32,
    pub fighter: Option<Fighter>,
    pub ai: Option<Ai>,
    pub item: Option<Item>,
    pub equipment: Option<Equipment>,
}

/// An object as contracts see it: its name is the text it holds.
pub struct ObjectView {
    pub x: i32,
    pub y: i32,
    pub char: char,
    pub color: Color,
    pub name: Seq<char>,
    pub blocks: bool,
    pub alive: bool,
    pub always_visible: bool,
    pub level: i32,
    pub fighter: Option<Fighter>,
    pub ai: Option<Ai>,
    pub item: Option<Item>,
    pub equipment: Option<Equipment>,
}

impl View for Object {
    type V = ObjectView;

    open spec fn view(&self) -> ObjectView {
        ObjectView {
            x: self.x,
            y: self.y,
            char: self.char,
            color: self.color,
            name: self.name@,
            blocks: self.blocks,
            alive: self.alive,
            always_visible: self.always_visible,
            level: self.level,
            fighter: self.fighter,
            ai: self.ai,
            item: self.item,
            equipment: self.equipment,
        }
    }
}

impl ObjectView {
    /// An inert object: not alive, with no components.
    pub open spec fn plain(
        x: i32,
        y: i32,
        char: char,
        name: Seq<char>,
        color: Color,
        blocks: bool,
    ) -> ObjectView {
        ObjectView {
            x,
            y,
            char,
            color,
            name,
            blocks,
            alive: false,
            always_visible: false,
            level: 0,
            fighter: None,
            ai: None,
            item: None,
            equipment: None,
        }
    }

    /// What has a behaviour can fight.
    pub open spec fn sound(self) -> bool {
        self.ai is Some ==> self.fighter is Some
    }

    /// The object stands on a tile of the level.
    pub open spec fn on_map(self) -> bool {
        in_bounds(self.x as int, self.y as int)
    }

    /// The object is the player.
    pub open spec fn is_player(self) -> bool {
        self.name == "player"@
    }

    /// The object at another position.
    pub open spec fn moved_to(self, x: i32, y: i32) -> ObjectView {
        ObjectView { x, y, ..self }
    }
}

/// The views of a list of objects.
pub open spec fn views(objects: Seq<Object>) -> Seq<ObjectView> {
    Seq::new(objects.len(), |i: int| objects[i]@)
}

/// Pushing an object pushes its view.
pub proof fn lemma_views_push(objects: Seq<Object>, newcomer: Object)
    ensures
        views(objects.push(newcomer)) == views(objects).push(newcomer@),
{
    assert(views(objects.push(newcomer)) =~= views(objects).push(newcomer@));
}

/// Replacing one object replaces its view.
pub proof fn lemma_views_update(objects: Seq<Object>, id: int, object: Object)
    requires
        0 <= id < objects.len(),
    ensures
        views(objects.update(id, object)) == views(objects).update(id, object@),
{
    assert(views(objects.update(id, object)) =~= views(objects).update(id, object@));
}

impl Object {
    /// An inert object: not alive, with no components.
    pub fn new(x: i32, y: i32, char: char, name: &str, color: Color, blocks: bool) -> (object: Self)
        ensures
            object@ == ObjectView::plain(x, y, char, name@, color, blocks),
    {
        Object {
            x,
            y,
            char,
            color,
            name: String::from_str(name),
            blocks,
            level: 0,
            always_visible: false,
            alive: false,
            fighter: None,
            ai: None,
            item: None,
            equipment: None,
        }
    }

    /// Puts the object at `(x, y)`.
    pub fn set_pos(&mut self, x: i32, y: i32)
        ensures
            final(self)@ == old(self)@.moved_to(x, y),
    {
        self.x = x;
        self.y = y;
    }

    /// Where the object stands.
    pub fn pos(&self) -> (pos: (i32, i32))
        ensures
            pos == (self.x, self.y),
    {
        (self.x, self.y)
    }

    /// Whether this object is the player.
    pub fn is_player(&self) -> (yes: bool)
        ensures
            yes == self@.is_player(),
    {
        self.name == String::from_str("player")
    }
}

/// The state of a game besides the objects on the level.
#[derive(Debug)]
pub struct Game {
    pub map: Grid,
    pub messages: Messages,
    pub inventory: Vec<Object>,
    pub dungeon_level: u32,
}

/// A game as contracts see it.
pub struct GameView {
    pub map: Seq<Seq<Tile>>,
    pub messages: Seq<Line>,
    pub inventory: Seq<ObjectView>,
    pub dungeon_level: u32,
}

impl View for Game {
    type V = GameView;

    open spec fn view(&self) -> GameView {
        GameView {
            map: grid_view(&self.map),
            messages: self.messages@,
            inventory: views(self.inventory@),
            dungeon_level: self.dungeon_level,
        }
    }
}

impl GameView {
    /// The game with one more entry in its log.
    pub open spec fn told(self, text: Seq<char>, color: Color) -> GameView {
        GameView { messages: self.messages.push((text, color)), ..self }
    }
}

} // verus!
