//! What a room holds: level-scaled tables, the monsters and items they
//! select, and the seeding of a room.

use vstd::prelude::*;
use crate::color::{
    darker_green, darker_orange, darker_red, desaturated_green, green, light_yellow, orange, sky,
    violet, yellow,
};
use crate::config::{FIREBALL_CHARGES, FIREBALL_DAMAGE, HEAL_AMOUNT, LIGHTNING_DAMAGE};
use crate::dice::{roll_range, total_weight, weighted_index};
use crate::entity::{
    lemma_views_push, views, Ai, DeathCallback, Equipment, Fighter, Item, Object, ObjectView, Slot,
};
use crate::grid::{grid_view, grid_wf, in_bounds, Grid, Rect, Tile};

verus! {

/// One step of a level-scaled table: from `level` on, the table gives `value`.
#[derive(Clone, Copy, Debug, PartialEq, Eq, Structural)]
pub struct Transition {
    pub level: u32,
    pub value: u32,
}

/// The value a table gives at `level`: that of its last step reached, or zero
/// where none is reached.
pub open spec fn table_value(table: Seq<Transition>, level: u32) -> u32
    decreases table.len(),
{
    if table.len() == 0 {
        0
    } else if level >= table.last().level {
        table.last().value
    } else {
        table_value(table.drop_last(), level)
    }
}

/// A table never gives more than its largest step.
pub proof fn lemma_table_value_bounded(table: Seq<Transition>, level: u32, bound: u32)
    requires
        forall|i: int| 0 <= i < table.len() ==> (#[trigger] table[i]).value <= bound,
    ensures
        table_value(table, level) <= bound,
    decreases table.len(),
{
    if table.len() > 0 && level < table.last().level {
        lemma_table_value_bounded(table.drop_last(), level, bound);
    }
}

/// The value a table gives at `level`.
pub fn from_dungeon_level(table: &[Transition], level: u32) -> (value: u32)
    ensures
        value == table_value(table@, level),
{
    let mut i: usize = table.len();
    assert(table@.take(i as int) =~= table@);
    while i > 0
        invariant
            i <= table.len(),
            table_value(table@, level) == table_value(table@.take(i as int), level),
        decreases i,
    {
        i = i - 1;
        assert(table@.take(i + 1).drop_last() =~= table@.take(i as int));
        if level >= table[i].level {
            return table[i].value;
        }
    }
    assert(table@.take(0).len() == 0);
    0
}

/// The kinds of monster.
#[derive(Clone, Copy, Debug, PartialEq, Eq, Structural)]
pub enum MonsterKind {
    Troll,
    Archer,
    Orc,
}

/// The kinds of item.
#[derive(Clone, Copy, Debug, PartialEq, Eq, Structural)]
pub enum ItemKind {
    Sword,
    Helmet,
    FireballStaff,
    ManaPotion,
    BodyArmor,
    Shield,
    Heal,
    Lightning,
    Fireball,
    Confuse,
}

/// One step of a table.
pub open spec fn step(level: u32, value: u32) -> Transition {
    Transition { level, value }
}

/// The most monsters a room can hold, by level.
pub open spec fn max_monsters_table() -> Seq<Transition> {
    seq![step(0, 2), step(4, 3), step(6, 5), step(9, 8), step(14, 13)]
}

/// The most items a room can hold, by level.
pub open spec fn max_items_table() -> Seq<Transition> {
    seq![step(0, 1), step(3, 2), step(7, 4), step(9, 5)]
}

/// The weight of each kind of monster, by level.
pub open spec fn monster_table(kind: MonsterKind) -> Seq<Transition> {
    match kind {
        MonsterKind::Troll => seq![step(3, 15), step(5, 30), step(7, 60), step(12, 100)],
        MonsterKind::Archer => seq![step(4, 30), step(6, 80), step(8, 90)],
        MonsterKind::Orc => seq![step(0, 80)],
    }
}

/// The weight of each kind of item, by level.
pub open spec fn item_table(kind: ItemKind) -> Seq<Transition> {
    match kind {
        ItemKind::Sword => seq![step(4, 5)],
        ItemKind::Helmet => seq![step(6, 5)],
        ItemKind::FireballStaff => seq![step(5, 15)],
        ItemKind::ManaPotion => seq![step(3, 35), step(6, 40)],
        ItemKind::BodyArmor => seq![step(12, 10)],
        ItemKind::Shield => seq![step(8, 15)],
        ItemKind::Heal => seq![step(0, 35)],
        ItemKind::Lightning => seq![step(4, 25)],
        ItemKind::Fireball => seq![step(6, 25)],
        ItemKind::Confuse => seq![step(2, 10)],
    }
}

/// The spellcasting bonus of a fireball staff, by level.
pub open spec fn staff_spellcast_table() -> Seq<Transition> {
    seq![step(0, 8), step(6, 13)]
}

/// The mana bonus of a fireball staff, by level.
pub open spec fn staff_mana_table() -> Seq<Transition> {
    seq![step(0, 10), step(10, 20)]
}

/// The weight of a kind of monster at `level`.
pub open spec fn monster_weight(kind: MonsterKind, level: u32) -> u32 {
    table_value(monster_table(kind), level)
}

/// The weight of a kind of item at `level`.
pub open spec fn item_weight(kind: ItemKind, level: u32) -> u32 {
    table_value(item_table(kind), level)
}

/// The weights of the kinds of monster at `level`, in the order of the kinds.
pub open spec fn monster_weights(level: u32) -> Seq<u32> {
    seq![
        monster_weight(MonsterKind::Troll, level),
        monster_weight(MonsterKind::Archer, level),
        monster_weight(MonsterKind::Orc, level),
    ]
}

/// The weights of the kinds of item at `level`, in the order of the kinds.
pub open spec fn item_weights(level: u32) -> Seq<u32> {
    seq![
        item_weight(ItemKind::Sword, level),
        item_weight(ItemKind::Helmet, level),
        item_weight(ItemKind::FireballStaff, level),
        item_weight(ItemKind::ManaPotion, level),
        item_weight(ItemKind::BodyArmor, level),
        item_weight(ItemKind::Shield, level),
        item_weight(ItemKind::Heal, level),
        item_weight(ItemKind::Lightning, level),
        item_weight(ItemKind::Fireball, level),
        item_weight(ItemKind::Confuse, level),
    ]
}

impl MonsterKind {
    /// The place of the kind in the list of weights.
    pub open spec fn index(self) -> int {
        match self {
            MonsterKind::Troll => 0,
            MonsterKind::Archer => 1,
            MonsterKind::Orc => 2,
        }
    }

    /// The kind at a place in the list of weights.
    pub fn from_index(index: usize) -> (kind: Option<MonsterKind>)
        ensures
            index < 3 ==> kind is Some && kind->0.index() == index,
            index >= 3 ==> kind is None,
    {
        if index == 0 {
            Some(MonsterKind::Troll)
        } else if index == 1 {
            Some(MonsterKind::Archer)
        } else if index == 2 {
            Some(MonsterKind::Orc)
        } else {
            None
        }
    }

    /// The table of weights of the kind.
    pub fn table(self) -> (table: Vec<Transition>)
        ensures
            table@ == monster_table(self),
    {
        let table = match self {
            MonsterKind::Troll => vec![
                Transition { level: 3, value: 15 },
                Transition { level: 5, value: 30 },
                Transition { level: 7, value: 60 },
                Transition { level: 12, value: 100 },
            ],
            MonsterKind::Archer => vec![
                Transition { level: 4, value: 30 },
                Transition { level: 6, value: 80 },
                Transition { level: 8, value: 90 },
            ],
            MonsterKind::Orc => vec![Transition { level: 0, value: 80 }],
        };
        assert(table@ =~= monster_table(self));
        table
    }

    /// The weight of the kind at `level`.
    pub fn weight(self, level: u32) -> (weight: u32)
        ensures
            weight == monster_weight(self, level),
            weight <= 100,
    {
        let table = self.table();
        proof {
            lemma_table_value_bounded(table@, level, 100);
        }
        from_dungeon_level(table.as_slice(), level)
    }
}

impl ItemKind {
    /// The place of the kind in the list of weights.
    pub open spec fn index(self) -> int {
        match self {
            ItemKind::Sword => 0,
            ItemKind::Helmet => 1,
            ItemKind::FireballStaff => 2,
            ItemKind::ManaPotion => 3,
            ItemKind::BodyArmor => 4,
            ItemKind::Shield => 5,
            ItemKind::Heal => 6,
            ItemKind::Lightning => 7,
            ItemKind::Fireball => 8,
            ItemKind::Confuse => 9,
        }
    }

    /// The kind at a place in the list of weights.
    pub fn from_index(index: usize) -> (kind: Option<ItemKind>)
        ensures
            index < 10 ==> kind is Some && kind->0.index() == index,
            index >= 10 ==> kind is None,
    {
        if index == 0 {
            Some(ItemKind::Sword)
        } else if index == 1 {
            Some(ItemKind::Helmet)
        } else if index == 2 {
            Some(ItemKind::FireballStaff)
        } else if index == 3 {
            Some(ItemKind::ManaPotion)
        } else if index == 4 {
            Some(ItemKind::BodyArmor)
        } else if index == 5 {
            Some(ItemKind::Shield)
        } else if index == 6 {
            Some(ItemKind::Heal)
        } else if index == 7 {
            Some(ItemKind::Lightning)
        } else if index == 8 {
            Some(ItemKind::Fireball)
        } else if index == 9 {
            Some(ItemKind::Confuse)
        } else {
            None
        }
    }

    /// The table of weights of the kind.
    pub fn table(self) -> (table: Vec<Transition>)
        ensures
            table@ == item_table(self),
    {
        let table = match self {
            ItemKind::Sword => vec![Transition { level: 4, value: 5 }],
            ItemKind::Helmet => vec![Transition { level: 6, value: 5 }],
            ItemKind::FireballStaff => vec![Transition { level: 5, value: 15 }],
            ItemKind::ManaPotion => vec![
                Transition { level: 3, value: 35 },
                Transition { level: 6, value: 40 },
            ],
            ItemKind::BodyArmor => vec![Transition { level: 12, value: 10 }],
            ItemKind::Shield => vec![Transition { level: 8, value: 15 }],
            ItemKind::Heal => vec![Transition { level: 0, value: 35 }],
            ItemKind::Lightning => vec![Transition { level: 4, value: 25 }],
            ItemKind::Fireball => vec![Transition { level: 6, value: 25 }],
            ItemKind::Confuse => vec![Transition { level: 2, value: 10 }],
        };
        assert(table@ =~= item_table(self));
        table
    }

    /// The weight of the kind at `level`.
    pub fn weight(self, level: u32) -> (weight: u32)
        ensures
            weight == item_weight(self, level),
            weight <= 40,
    {
        let table = self.table();
        proof {
            lemma_table_value_bounded(table@, level, 40);
        }
        from_dungeon_level(table.as_slice(), level)
    }
}

/// The most monsters a room can hold at `level`.
pub fn max_monsters(level: u32) -> (most: u32)
    ensures
        most == table_value(max_monsters_table(), level),
        most <= 13,
{
    let table = vec![
        Transition { level: 0, value: 2 },
        Transition { level: 4, value: 3 },
        Transition { level: 6, value: 5 },
        Transition { level: 9, value: 8 },
        Transition { level: 14, value: 13 },
    ];
    assert(table@ =~= max_monsters_table());
    proof {
        lemma_table_value_bounded(table@, level, 13);
    }
    from_dungeon_level(table.as_slice(), level)
}

/// The most items a room can hold at `level`.
pub fn max_items(level: u32) -> (most: u32)
    ensures
        most == table_value(max_items_table(), level),
        most <= 5,
{
    let table = vec![
        Transition { level: 0, value: 1 },
        Transition { level: 3, value: 2 },
        Transition { level: 7, value: 4 },
        Transition { level: 9, value: 5 },
    ];
    assert(table@ =~= max_items_table());
    proof {
        lemma_table_value_bounded(table@, level, 5);
    }
    from_dungeon_level(table.as_slice(), level)
}

/// The weights of the kinds of monster at `level`.
pub fn monster_chances(level: u32) -> (weights: Vec<u32>)
    ensures
        weights@ == monster_weights(level),
        0 < total_weight(weights@) <= 300,
{
    let weights = vec![
        MonsterKind::Troll.weight(level),
        MonsterKind::Archer.weight(level),
        MonsterKind::Orc.weight(level),
    ];
    assert(weights@ =~= monster_weights(level));
    proof {
        reveal_with_fuel(total_weight, 4);
        reveal_with_fuel(table_value, 2);
        assert(monster_table(MonsterKind::Orc).last() == step(0, 80));
        assert(weights@.drop_last().drop_last().drop_last() =~= Seq::<u32>::empty());
    }
    weights
}

/// The weights of the kinds of item at `level`.
pub fn item_chances(level: u32) -> (weights: Vec<u32>)
    ensures
        weights@ == item_weights(level),
        0 < total_weight(weights@) <= 400,
{
    let weights = vec![
        ItemKind::Sword.weight(level),
        ItemKind::Helmet.weight(level),
        ItemKind::FireballStaff.weight(level),
        ItemKind::ManaPotion.weight(level),
        ItemKind::BodyArmor.weight(level),
        ItemKind::Shield.weight(level),
        ItemKind::Heal.weight(level),
        ItemKind::Lightning.weight(level),
        ItemKind::Fireball.weight(level),
        ItemKind::Confuse.weight(level),
    ];
    assert(weights@ =~= item_weights(level));
    proof {
        reveal_with_fuel(table_value, 2);
        assert(item_table(ItemKind::Heal).last() == step(0, 35));
        assert(weights@[6] == 35);
        lemma_total_weight_bounds(weights@, 40);
        lemma_total_weight_positive(weights@, 6);
    }
    weights
}

/// The total of weights that are each at most `bound` is at most `bound` per
/// weight.
pub proof fn lemma_total_weight_bounds(weights: Seq<u32>, bound: u32)
    requires
        forall|i: int| 0 <= i < weights.len() ==> #[trigger] weights[i] <= bound,
    ensures
        0 <= total_weight(weights) <= weights.len() * bound,
    decreases weights.len(),
{
    if weights.len() > 0 {
        lemma_total_weight_bounds(weights.drop_last(), bound);
        assert((weights.len() - 1) * bound + bound == weights.len() * bound) by (nonlinear_arith);
    }
}

/// A list with a positive weight has a positive total.
pub proof fn lemma_total_weight_positive(weights: Seq<u32>, at: int)
    requires
        0 <= at < weights.len(),
        weights[at] > 0,
    ensures
        total_weight(weights) > 0,
    decreases weights.len(),
{
    lemma_total_weight_bounds(weights.drop_last(), u32::MAX);
    if at < weights.len() - 1 {
        lemma_total_weight_positive(weights.drop_last(), at);
    }
}

/// The statistics of a monster of each kind.
pub open spec fn monster_fighter(kind: MonsterKind) -> Fighter {
    match kind {
        MonsterKind::Orc => Fighter {
            base_max_hp: 20,
            hp: 20,
            base_defense: 0,
            base_power: 4,
            mana: 0,
            base_max_mana: 0,
            base_spellcast_modifier: 0,
            xp: 35,
            on_death: DeathCallback::Monster,
        },
        MonsterKind::Troll => Fighter {
            base_max_hp: 30,
            hp: 30,
            base_defense: 2,
            base_power: 8,
            mana: 0,
            base_max_mana: 0,
            base_spellcast_modifier: 0,
            xp: 100,
            on_death: DeathCallback::Monster,
        },
        MonsterKind::Archer => Fighter {
            base_max_hp: 15,
            hp: 15,
            base_defense: 1,
            base_power: 6,
            mana: 0,
            base_max_mana: 0,
            base_spellcast_modifier: 0,
            xp: 50,
            on_death: DeathCallback::MonsterArcher,
        },
    }
}

/// A freshly spawned monster of `kind` at `(x, y)`.
pub open spec fn monster_template(kind: MonsterKind, x: i32, y: i32) -> ObjectView {
    let body = match kind {
        MonsterKind::Orc => ObjectView::plain(x, y, 'o', "orc"@, desaturated_green(), true),
        MonsterKind::Troll => ObjectView::plain(x, y, 'T', "troll"@, darker_green(), true),
        MonsterKind::Archer => ObjectView::plain(x, y, 'a', "archer"@, darker_green(), true),
    };
    ObjectView {
        alive: true,
        fighter: Some(monster_fighter(kind)),
        ai: Some(
            match kind {
                MonsterKind::Archer => Ai::Archer { range: 8 },
                _ => Ai::Basic,
            },
        ),
        ..body
    }
}

/// Equipment that grants nothing, for `slot`, not worn.
pub open spec fn bare(slot: Slot) -> Equipment {
    Equipment {
        slot,
        equipped: false,
        power_bonus: 0,
        defense_bonus: 0,
        max_hp_bonus: 0,
        max_mana_bonus: 0,
        spellcast_bonus: 0,
        mana_usage: 0,
    }
}

/// A freshly spawned item of `kind` at `(x, y)` on dungeon level `level`.
pub open spec fn item_template(kind: ItemKind, x: i32, y: i32, level: u32) -> ObjectView {
    match kind {
        ItemKind::Lightning => ObjectView {
            item: Some(Item::Lightning { damage: LIGHTNING_DAMAGE }),
            ..ObjectView::plain(x, y, '#', "scroll of lightning"@, light_yellow(), false)
        },
        ItemKind::FireballStaff => ObjectView {
            item: Some(Item::FireballStaff { range: 8 }),
            equipment: Some(
                Equipment {
                    mana_usage: 5,
                    spellcast_bonus: table_value(staff_spellcast_table(), level) as i32,
                    max_mana_bonus: table_value(staff_mana_table(), level) as i32,
                    ..bare(Slot::RightHand)
                },
            ),
            ..ObjectView::plain(x, y, '|', "fireball staff"@, orange(), false)
        },
        ItemKind::Fireball => ObjectView {
            item: Some(Item::Fireball { charges: FIREBALL_CHARGES, damage: FIREBALL_DAMAGE }),
            ..ObjectView::plain(x, y, '#', "scroll of fireball"@, light_yellow(), false)
        },
        ItemKind::Confuse => ObjectView {
            item: Some(Item::Confuse),
            ..ObjectView::plain(x, y, '#', "scroll of confusion"@, light_yellow(), false)
        },
        ItemKind::Heal => ObjectView {
            item: Some(Item::Heal { amount: HEAL_AMOUNT }),
            ..ObjectView::plain(x, y, '!', "healing potion"@, darker_red(), false)
        },
        ItemKind::ManaPotion => ObjectView {
            item: Some(Item::ManaPotion),
            ..ObjectView::plain(x, y, '!', "mana potion"@, violet(), false)
        },
        ItemKind::Sword => ObjectView {
            item: Some(Item::Sword),
            equipment: Some(Equipment { power_bonus: 3, ..bare(Slot::RightHand) }),
            ..ObjectView::plain(x, y, '/', "sword"@, sky(), false)
        },
        ItemKind::Shield => ObjectView {
            item: Some(Item::Shield),
            equipment: Some(Equipment { defense_bonus: 1, ..bare(Slot::LeftHand) }),
            ..ObjectView::plain(x, y, '[', "shield"@, darker_orange(), false)
        },
        ItemKind::Helmet => ObjectView {
            item: Some(Item::Helmet),
            equipment: Some(Equipment { defense_bonus: 2, ..bare(Slot::Head) }),
            ..ObjectView::plain(x, y, '^', "helmet"@, yellow(), false)
        },
        ItemKind::BodyArmor => ObjectView {
            item: Some(Item::BodyArmor),
            equipment: Some(Equipment { defense_bonus: 4, ..bare(Slot::Body) }),
            ..ObjectView::plain(x, y, '=', "body armor"@, green(), false)
        },
    }
}

/// Makes a monster of `kind` at `(x, y)`.
pub fn make_monster(kind: MonsterKind, x: i32, y: i32) -> (monster: Object)
    ensures
        monster@ == monster_template(kind, x, y),
{
    let mut monster = match kind {
        MonsterKind::Orc => {
            let mut orc = Object::new(x, y, 'o', "orc", desaturated_green(), true);
            orc.fighter = Some(
                Fighter {
                    base_max_hp: 20,
                    hp: 20,
                    base_defense: 0,
                    base_power: 4,
                    base_max_mana: 0,
                    base_spellcast_modifier: 0,
                    mana: 0,
                    xp: 35,
                    on_death: DeathCallback::Monster,
                },
            );
            orc.ai = Some(Ai::Basic);
            orc
        },
        MonsterKind::Troll => {
            let mut troll = Object::new(x, y, 'T', "troll", darker_green(), true);
            troll.fighter = Some(
                Fighter {
                    base_max_hp: 30,
                    hp: 30,
                    base_defense: 2,
                    base_power: 8,
                    base_max_mana: 0,
                    base_spellcast_modifier: 0,
                    mana: 0,
                    xp: 100,
                    on_death: DeathCallback::Monster,
                },
            );
            troll.ai = Some(Ai::Basic);
            troll
        },
        MonsterKind::Archer => {
            let mut archer = Object::new(x, y, 'a', "archer", darker_green(), true);
            archer.fighter = Some(
                Fighter {
                    base_max_hp: 15,
                    hp: 15,
                    base_defense: 1,
                    base_power: 6,
                    base_max_mana: 0,
                    base_spellcast_modifier: 0,
                    mana: 0,
                    xp: 50,
                    on_death: DeathCallback::MonsterArcher,
                },
            );
            archer.ai = Some(Ai::Archer { range: 8 });
            archer
        },
    };
    monster.alive = true;
    monster
}

/// Equipment that grants nothing, for `slot`, not worn.
fn bare_equipment(slot: Slot) -> (equipment: Equipment)
    ensures
        equipment == bare(slot),
{
    Equipment {
        mana_usage: 0,
        equipped: false,
        slot,
        power_bonus: 0,
        defense_bonus: 0,
        max_hp_bonus: 0,
        max_mana_bonus: 0,
        spellcast_bonus: 0,
    }
}

/// Makes an item of `kind` at `(x, y)` for dungeon level `level`.
pub fn make_item(kind: ItemKind, x: i32, y: i32, level: u32) -> (item: Object)
    ensures
        item@ == item_template(kind, x, y, level),
{
    match kind {
        ItemKind::Lightning => {
            let mut object = Object::new(x, y, '#', "scroll of lightning", light_yellow(), false);
            object.item = Some(Item::Lightning { damage: LIGHTNING_DAMAGE });
            object
        },
        ItemKind::FireballStaff => {
            let mut object = Object::new(x, y, '|', "fireball staff", orange(), false);
            object.item = Some(Item::FireballStaff { range: 8 });
            let spellcast_table = vec![
                Transition { level: 0, value: 8 },
                Transition { level: 6, value: 13 },
            ];
            let mana_table = vec![
                Transition { level: 0, value: 10 },
                Transition { level: 10, value: 20 },
            ];
            assert(spellcast_table@ =~= staff_spellcast_table());
            assert(mana_table@ =~= staff_mana_table());
            proof {
                lemma_table_value_bounded(spellcast_table@, level, 13);
                lemma_table_value_bounded(mana_table@, level, 20);
            }
            let mut equipment = bare_equipment(Slot::RightHand);
            equipment.mana_usage = 5;
            equipment.spellcast_bonus = from_dungeon_level(spellcast_table.as_slice(), level) as i32;
            equipment.max_mana_bonus = from_dungeon_level(mana_table.as_slice(), level) as i32;
            object.equipment = Some(equipment);
            object
        },
        ItemKind::Fireball => {
            let mut object = Object::new(x, y, '#', "scroll of fireball", light_yellow(), false);
            object.item = Some(
                Item::Fireball { charges: FIREBALL_CHARGES, damage: FIREBALL_DAMAGE },
            );
            object
        },
        ItemKind::Confuse => {
            let mut object = Object::new(x, y, '#', "scroll of confusion", light_yellow(), false);
            object.item = Some(Item::Confuse);
            object
        },
        ItemKind::Heal => {
            let mut object = Object::new(x, y, '!', "healing potion", darker_red(), false);
            object.item = Some(Item::Heal { amount: HEAL_AMOUNT });
            object
        },
        ItemKind::ManaPotion => {
            let mut object = Object::new(x, y, '!', "mana potion", violet(), false);
            object.item = Some(Item::ManaPotion);
            object
        },
        ItemKind::Sword => {
            let mut object = Object::new(x, y, '/', "sword", sky(), false);
            object.item = Some(Item::Sword);
            let mut equipment = bare_equipment(Slot::RightHand);
            equipment.power_bonus = 3;
            object.equipment = Some(equipment);
            object
        },
        ItemKind::Shield => {
            let mut object = Object::new(x, y, '[', "shield", darker_orange(), false);
            object.item = Some(Item::Shield);
            let mut equipment = bare_equipment(Slot::LeftHand);
            equipment.defense_bonus = 1;
            object.equipment = Some(equipment);
            object
        },
        ItemKind::Helmet => {
            let mut object = Object::new(x, y, '^', "helmet", yellow(), false);
            object.item = Some(Item::Helmet);
            let mut equipment = bare_equipment(Slot::Head);
            equipment.defense_bonus = 2;
            object.equipment = Some(equipment);
            object
        },
        ItemKind::BodyArmor => {
            let mut object = Object::new(x, y, '=', "body armor", green(), false);
            object.item = Some(Item::BodyArmor);
            let mut equipment = bare_equipment(Slot::Body);
            equipment.defense_bonus = 4;
            object.equipment = Some(equipment);
            object
        },
    }
}

/// The tile at `(x, y)` is blocked, or a blocking object stands on it.
pub open spec fn blocked_at(tiles: Seq<Seq<Tile>>, objects: Seq<ObjectView>, x: int, y: int) -> bool {
    tiles[x][y].blocked || exists|i: int|
        0 <= i < objects.len() && (#[trigger] objects[i]).blocks && objects[i].x == x
            && objects[i].y == y
}

/// Whether the tile at `(x, y)` is blocked, by the grid or by a blocking object.
pub fn is_blocked(x: i32, y: i32, map: &Grid, objects: &Vec<Object>) -> (blocked: bool)
    requires
        grid_wf(grid_view(map)),
        in_bounds(x as int, y as int),
    ensures
        blocked == blocked_at(grid_view(map), views(objects@), x as int, y as int),
{
    assert(grid_view(map)[x as int].len() == crate::config::MAP_HEIGHT);
    if map[x as usize][y as usize].blocked {
        return true;
    }
    let mut i: usize = 0;
    while i < objects.len()
        invariant
            i <= objects.len(),
            forall|k: int|
                0 <= k < i ==> !((#[trigger] views(objects@)[k]).blocks && views(objects@)[k].x == x
                    && views(objects@)[k].y == y),
        decreases objects.len() - i,
    {
        if objects[i].blocks && objects[i].x == x && objects[i].y == y {
            assert(views(objects@)[i as int].blocks);
            return true;
        }
        i = i + 1;
    }
    false
}

/// The object at place `at` was spawned in `room` as a monster: it is a fresh
/// monster of a kind found at `level`, on a floor tile of the room that was
/// free when it arrived.
pub open spec fn spawned_monster(
    tiles: Seq<Seq<Tile>>,
    objects: Seq<ObjectView>,
    at: int,
    room: Rect,
    level: u32,
) -> bool {
    let o = objects[at];
    &&& room.holds(o.x as int, o.y as int)
    &&& !blocked_at(tiles, objects.take(at), o.x as int, o.y as int)
    &&& exists|kind: MonsterKind|
        monster_weight(kind, level) > 0 && o == #[trigger] monster_template(kind, o.x, o.y)
}

/// The object at place `at` was spawned in `room` as an item: it is a fresh
/// item of a kind found at `level`, on a floor tile of the room that was free
/// when it arrived.
pub open spec fn spawned_item(
    tiles: Seq<Seq<Tile>>,
    objects: Seq<ObjectView>,
    at: int,
    room: Rect,
    level: u32,
) -> bool {
    let o = objects[at];
    &&& room.holds(o.x as int, o.y as int)
    &&& !blocked_at(tiles, objects.take(at), o.x as int, o.y as int)
    &&& exists|kind: ItemKind|
        item_weight(kind, level) > 0 && o == #[trigger] item_template(kind, o.x, o.y, level)
}

/// `after` is `before` with the population of `room` appended: first its
/// monsters, up to place `items_from`, then its items; of each no more than
/// the level allows.
pub open spec fn seeded(
    tiles: Seq<Seq<Tile>>,
    before: Seq<ObjectView>,
    after: Seq<ObjectView>,
    room: Rect,
    level: u32,
    items_from: int,
) -> bool {
    &&& before.len() <= items_from <= after.len()
    &&& after.take(before.len() as int) == before
    &&& items_from - before.len() <= table_value(max_monsters_table(), level)
    &&& after.len() - items_from <= table_value(max_items_table(), level)
    &&& forall|k: int|
        before.len() <= k < items_from ==> #[trigger] spawned_monster(tiles, after, k, room, level)
    &&& forall|k: int|
        items_from <= k < after.len() ==> #[trigger] spawned_item(tiles, after, k, room, level)
}

proof fn lemma_spawned_monster_stays(
    tiles: Seq<Seq<Tile>>,
    objects: Seq<ObjectView>,
    newcomer: ObjectView,
    at: int,
    room: Rect,
    level: u32,
)
    requires
        0 <= at < objects.len(),
        spawned_monster(tiles, objects, at, room, level),
    ensures
        spawned_monster(tiles, objects.push(newcomer), at, room, level),
{
    assert(objects.push(newcomer).take(at) =~= objects.take(at));
}

proof fn lemma_spawned_item_stays(
    tiles: Seq<Seq<Tile>>,
    objects: Seq<ObjectView>,
    newcomer: ObjectView,
    at: int,
    room: Rect,
    level: u32,
)
    requires
        0 <= at < objects.len(),
        spawned_item(tiles, objects, at, room, level),
    ensures
        spawned_item(tiles, objects.push(newcomer), at, room, level),
{
    assert(objects.push(newcomer).take(at) =~= objects.take(at));
}

/// One attempt to spawn: the tile that was drawn, and the place in the list
/// of weights of the kind that was drawn.
#[derive(Clone, Copy, Debug, PartialEq, Eq, Structural)]
pub struct Attempt {
    pub x: i32,
    pub y: i32,
    pub index: usize,
}

/// The kind of monster at a place in the list of weights.
pub open spec fn monster_kind_at(index: usize) -> MonsterKind {
    if index == 0 {
        MonsterKind::Troll
    } else if index == 1 {
        MonsterKind::Archer
    } else {
        MonsterKind::Orc
    }
}

/// The kind of item at a place in the list of weights.
pub open spec fn item_kind_at(index: usize) -> ItemKind {
    if index == 0 {
        ItemKind::Sword
    } else if index == 1 {
        ItemKind::Helmet
    } else if index == 2 {
        ItemKind::FireballStaff
    } else if index == 3 {
        ItemKind::ManaPotion
    } else if index == 4 {
        ItemKind::BodyArmor
    } else if index == 5 {
        ItemKind::Shield
    } else if index == 6 {
        ItemKind::Heal
    } else if index == 7 {
        ItemKind::Lightning
    } else if index == 8 {
        ItemKind::Fireball
    } else {
        ItemKind::Confuse
    }
}

/// The objects after one attempt to spawn a monster: where the tile is free,
/// a fresh monster of the kind drawn joins them; where it is not, the attempt
/// is given up.
pub open spec fn monster_attempted(
    tiles: Seq<Seq<Tile>>,
    objects: Seq<ObjectView>,
    attempt: Attempt,
) -> Seq<ObjectView> {
    if blocked_at(tiles, objects, attempt.x as int, attempt.y as int) {
        objects
    } else {
        objects.push(monster_template(monster_kind_at(attempt.index), attempt.x, attempt.y))
    }
}

/// The objects after one attempt to spawn an item on dungeon level `level`:
/// where the tile is free, a fresh item of the kind drawn joins them; where
/// it is not, the attempt is given up.
pub open spec fn item_attempted(
    tiles: Seq<Seq<Tile>>,
    objects: Seq<ObjectView>,
    attempt: Attempt,
    level: u32,
) -> Seq<ObjectView> {
    if blocked_at(tiles, objects, attempt.x as int, attempt.y as int) {
        objects
    } else {
        objects.push(item_template(item_kind_at(attempt.index), attempt.x, attempt.y, level))
    }
}

/// The objects after a row of attempts to spawn monsters, one after another.
pub open spec fn monsters_attempted(
    tiles: Seq<Seq<Tile>>,
    objects: Seq<ObjectView>,
    attempts: Seq<Attempt>,
) -> Seq<ObjectView>
    decreases attempts.len(),
{
    if attempts.len() == 0 {
        objects
    } else {
        monster_attempted(
            tiles,
            monsters_attempted(tiles, objects, attempts.drop_last()),
            attempts.last(),
        )
    }
}

/// The objects after a row of attempts to spawn items, one after another.
pub open spec fn items_attempted(
    tiles: Seq<Seq<Tile>>,
    objects: Seq<ObjectView>,
    attempts: Seq<Attempt>,
    level: u32,
) -> Seq<ObjectView>
    decreases attempts.len(),
{
    if attempts.len() == 0 {
        objects
    } else {
        item_attempted(
            tiles,
            items_attempted(tiles, objects, attempts.drop_last(), level),
            attempts.last(),
            level,
        )
    }
}

/// The attempt is one that the dice can give in `room`: its tile is a floor
/// tile of the room, and its kind has a weight above zero in `weights`.
pub open spec fn fair(attempt: Attempt, room: Rect, weights: Seq<u32>) -> bool {
    &&& room.holds(attempt.x as int, attempt.y as int)
    &&& attempt.index < weights.len()
    &&& weights[attempt.index as int] > 0
}

/// `after` is what the attempts `monsters` and then the attempts `items`
/// make of `before`: no more attempts of either sort than the level allows,
/// and each of them one that the dice can give in `room`.
pub open spec fn placed(
    tiles: Seq<Seq<Tile>>,
    before: Seq<ObjectView>,
    after: Seq<ObjectView>,
    room: Rect,
    level: u32,
    monsters: Seq<Attempt>,
    items: Seq<Attempt>,
) -> bool {
    &&& monsters.len() <= table_value(max_monsters_table(), level)
    &&& items.len() <= table_value(max_items_table(), level)
    &&& forall|k: int|
        0 <= k < monsters.len() ==> fair(#[trigger] monsters[k], room, monster_weights(level))
    &&& forall|k: int| 0 <= k < items.len() ==> fair(#[trigger] items[k], room, item_weights(level))
    &&& after == items_attempted(tiles, monsters_attempted(tiles, before, monsters), items, level)
}

/// Makes one attempt to spawn a monster: on a free tile a fresh monster of
/// the kind drawn joins the objects. Returns whether it did.
pub fn attempt_monster(attempt: Attempt, map: &Grid, objects: &mut Vec<Object>) -> (spawned: bool)
    requires
        grid_wf(grid_view(map)),
        in_bounds(attempt.x as int, attempt.y as int),
        attempt.index < 3,
    ensures
        spawned == !blocked_at(
            grid_view(map),
            views(old(objects)@),
            attempt.x as int,
            attempt.y as int,
        ),
        views(final(objects)@) == monster_attempted(grid_view(map), views(old(objects)@), attempt),
{
    if is_blocked(attempt.x, attempt.y, map, objects) {
        return false;
    }
    let kind = MonsterKind::from_index(attempt.index).unwrap();
    assert(kind == monster_kind_at(attempt.index));
    let monster = make_monster(kind, attempt.x, attempt.y);
    proof {
        lemma_views_push(objects@, monster);
    }
    objects.push(monster);
    true
}

/// Makes one attempt to spawn an item for dungeon level `level`: on a free
/// tile a fresh item of the kind drawn joins the objects. Returns whether it
/// did.
pub fn attempt_item(attempt: Attempt, map: &Grid, objects: &mut Vec<Object>, level: u32) -> (spawned:
    bool)
    requires
        grid_wf(grid_view(map)),
        in_bounds(attempt.x as int, attempt.y as int),
        attempt.index < 10,
    ensures
        spawned == !blocked_at(
            grid_view(map),
            views(old(objects)@),
            attempt.x as int,
            attempt.y as int,
        ),
        views(final(objects)@) == item_attempted(
            grid_view(map),
            views(old(objects)@),
            attempt,
            level,
        ),
{
    if is_blocked(attempt.x, attempt.y, map, objects) {
        return false;
    }
    let kind = ItemKind::from_index(attempt.index).unwrap();
    assert(kind == item_kind_at(attempt.index));
    let item = make_item(kind, attempt.x, attempt.y, level);
    proof {
        lemma_views_push(objects@, item);
    }
    objects.push(item);
    true
}

/// Seeds `room` with monsters and items for dungeon level `level`.
///
/// Draws how many monsters to try, at most the level's limit; for each, draws
/// a floor tile of the room and a kind by the level's weights, and makes the
/// attempt. Then does the same for items. An attempt on a taken tile is given
/// up.
pub fn place_objects(room: Rect, map: &Grid, objects: &mut Vec<Object>, level: u32)
    requires
        grid_wf(grid_view(map)),
        room.x1 + 1 < room.x2,
        room.y1 + 1 < room.y2,
        room.fits(),
    ensures
        exists|monsters: Seq<Attempt>, items: Seq<Attempt>| #[trigger]
            placed(
                grid_view(map),
                views(old(objects)@),
                views(final(objects)@),
                room,
                level,
                monsters,
                items,
            ),
        exists|items_from: int| #[trigger]
            seeded(
                grid_view(map),
                views(old(objects)@),
                views(final(objects)@),
                room,
                level,
                items_from,
            ),
{
    let ghost tiles = grid_view(map);
    let ghost before = views(objects@);
    let ghost start = objects.len() as int;
    let ghost mut monsters: Seq<Attempt> = Seq::empty();
    let most_monsters: u32 = max_monsters(level);
    let num_monsters: i32 = roll_range(0, most_monsters as i32 + 1);
    let chances = monster_chances(level);
    let mut tried: i32 = 0;
    assert(views(objects@).take(start) =~= before);
    while tried < num_monsters
        invariant
            tiles == grid_view(map),
            grid_wf(tiles),
            room.x1 + 1 < room.x2,
            room.y1 + 1 < room.y2,
            room.fits(),
            0 <= tried <= num_monsters,
            chances@ == monster_weights(level),
            0 < total_weight(chances@) <= 300,
            monsters.len() == tried,
            forall|k: int|
                0 <= k < monsters.len() ==> fair(#[trigger] monsters[k], room, monster_weights(level)),
            views(objects@) == monsters_attempted(tiles, before, monsters),
            start == before.len(),
            start <= objects.len() <= start + tried,
            views(objects@).take(start) == before,
            forall|k: int|
                start <= k < objects.len() ==> #[trigger] spawned_monster(
                    tiles,
                    views(objects@),
                    k,
                    room,
                    level,
                ),
        decreases num_monsters - tried,
    {
        let x: i32 = roll_range(room.x1 + 1, room.x2);
        let y: i32 = roll_range(room.y1 + 1, room.y2);
        let index = weighted_index(&chances);
        let attempt = Attempt { x, y, index };
        let ghost prior = views(objects@);
        let ghost count = objects.len() as int;
        assert(prior.len() == count);
        let spawned = attempt_monster(attempt, map, objects);
        proof {
            assert(monsters.push(attempt).drop_last() =~= monsters);
            monsters = monsters.push(attempt);
            assert(views(objects@).len() == objects.len());
            if spawned {
                let kind = monster_kind_at(index);
                let monster = monster_template(kind, x, y);
                assert(monster_weight(kind, level) == chances@[index as int]);
                assert(prior.push(monster).take(count) =~= prior);
                assert(prior.push(monster).take(start) =~= prior.take(start));
                assert forall|k: int| start <= k < count + 1 implies #[trigger] spawned_monster(
                    tiles,
                    prior.push(monster),
                    k,
                    room,
                    level,
                ) by {
                    if k < count {
                        lemma_spawned_monster_stays(tiles, prior, monster, k, room, level);
                    } else {
                        assert(monster == monster_template(kind, x, y));
                    }
                }
            }
        }
        tried = tried + 1;
    }
    let ghost items_from = objects.len() as int;
    let ghost between = views(objects@);
    let ghost mut items: Seq<Attempt> = Seq::empty();
    let most_items: u32 = max_items(level);
    let num_items: i32 = roll_range(0, most_items as i32 + 1);
    let chances = item_chances(level);
    let mut tried: i32 = 0;
    while tried < num_items
        invariant
            tiles == grid_view(map),
            grid_wf(tiles),
            room.x1 + 1 < room.x2,
            room.y1 + 1 < room.y2,
            room.fits(),
            0 <= tried <= num_items,
            chances@ == item_weights(level),
            0 < total_weight(chances@) <= 400,
            items.len() == tried,
            forall|k: int| 0 <= k < items.len() ==> fair(#[trigger] items[k], room, item_weights(level)),
            views(objects@) == items_attempted(tiles, between, items, level),
            start == before.len(),
            start <= items_from <= objects.len() <= items_from + tried,
            views(objects@).take(start) == before,
            forall|k: int|
                start <= k < items_from ==> #[trigger] spawned_monster(
                    tiles,
                    views(objects@),
                    k,
                    room,
                    level,
                ),
            forall|k: int|
                items_from <= k < objects.len() ==> #[trigger] spawned_item(
                    tiles,
                    views(objects@),
                    k,
                    room,
                    level,
                ),
        decreases num_items - tried,
    {
        let x: i32 = roll_range(room.x1 + 1, room.x2);
        let y: i32 = roll_range(room.y1 + 1, room.y2);
        let index = weighted_index(&chances);
        let attempt = Attempt { x, y, index };
        let ghost prior = views(objects@);
        let ghost count = objects.len() as int;
        assert(prior.len() == count);
        let spawned = attempt_item(attempt, map, objects, level);
        proof {
            assert(items.push(attempt).drop_last() =~= items);
            items = items.push(attempt);
            assert(views(objects@).len() == objects.len());
            if spawned {
                let kind = item_kind_at(index);
                let item = item_template(kind, x, y, level);
                assert(item_weight(kind, level) == chances@[index as int]);
                assert(prior.push(item).take(count) =~= prior);
                assert(prior.push(item).take(start) =~= prior.take(start));
                assert forall|k: int| start <= k < items_from implies #[trigger] spawned_monster(
                    tiles,
                    prior.push(item),
                    k,
                    room,
                    level,
                ) by {
                    lemma_spawned_monster_stays(tiles, prior, item, k, room, level);
                }
                assert forall|k: int| items_from <= k < count + 1 implies #[trigger] spawned_item(
                    tiles,
                    prior.push(item),
                    k,
                    room,
                    level,
                ) by {
                    if k < count {
                        lemma_spawned_item_stays(tiles, prior, item, k, room, level);
                    } else {
                        assert(item == item_template(kind, x, y, level));
                    }
                }
            }
        }
        tried = tried + 1;
    }
    assert(placed(tiles, before, views(objects@), room, level, monsters, items));
    assert(seeded(tiles, before, views(objects@), room, level, items_from));
}

} // verus!
