//! Aggregated statistics: what a fighter has of its own plus what its worn
//! equipment grants.

use vstd::prelude::*;
use crate::entity::{views, Equipment, Fighter, Game, Object, ObjectView};

verus! {

/// The statistics that equipment adds to.
#[derive(Clone, Copy, Debug, PartialEq, Eq, Structural)]
pub enum Stat {
    MaxHp,
    MaxMana,
    Power,
    Defense,
}

/// What a piece of equipment adds to a statistic.
pub open spec fn bonus(equipment: Equipment, stat: Stat) -> int {
    match stat {
        Stat::MaxHp => equipment.max_hp_bonus as int,
        Stat::MaxMana => equipment.max_mana_bonus as int,
        Stat::Power => equipment.power_bonus as int,
        Stat::Defense => equipment.defense_bonus as int,
    }
}

/// What a fighter has of a statistic before equipment; zero without a
/// fighter.
pub open spec fn base(fighter: Option<Fighter>, stat: Stat) -> int {
    match fighter {
        Some(f) => match stat {
            Stat::MaxHp => f.base_max_hp as int,
            Stat::MaxMana => f.base_max_mana as int,
            Stat::Power => f.base_power as int,
            Stat::Defense => f.base_defense as int,
        },
        None => 0,
    }
}

/// The equipment worn among the objects of an inventory, in their order.
pub open spec fn worn(inventory: Seq<ObjectView>) -> Seq<Equipment>
    decreases inventory.len(),
{
    if inventory.len() == 0 {
        Seq::empty()
    } else {
        let rest = worn(inventory.drop_last());
        match inventory.last().equipment {
            Some(e) => if e.equipped {
                rest.push(e)
            } else {
                rest
            },
            None => rest,
        }
    }
}

/// What `owner` wears: the player wears what is worn in the inventory, and
/// nobody else wears anything.
pub open spec fn worn_by(owner: ObjectView, inventory: Seq<ObjectView>) -> Seq<Equipment> {
    if owner.is_player() {
        worn(inventory)
    } else {
        Seq::empty()
    }
}

/// The sum of what a list of equipment adds to a statistic.
pub open spec fn total_bonus(worn: Seq<Equipment>, stat: Stat) -> int
    decreases worn.len(),
{
    if worn.len() == 0 {
        0
    } else {
        total_bonus(worn.drop_last(), stat) + bonus(worn.last(), stat)
    }
}

/// A statistic of `owner`: its own plus that of everything it wears.
pub open spec fn stat_of(owner: ObjectView, inventory: Seq<ObjectView>, stat: Stat) -> int {
    base(owner.fighter, stat) + total_bonus(worn_by(owner, inventory), stat)
}

/// Mana left and spellcasting bonus gained after drawing on each piece of
/// `worn` in turn: a piece whose cost the remaining mana covers takes its
/// cost and adds its bonus; any other is passed over.
pub open spec fn channel(worn: Seq<Equipment>, mana: int) -> (int, int)
    decreases worn.len(),
{
    if worn.len() == 0 {
        (mana, 0)
    } else {
        let (left, gained) = channel(worn.drop_last(), mana);
        let e = worn.last();
        if e.mana_usage <= left {
            (left - e.mana_usage, gained + e.spellcast_bonus)
        } else {
            (left, gained)
        }
    }
}

/// The mana of a fighter; zero without one.
pub open spec fn mana_of(fighter: Option<Fighter>) -> int {
    match fighter {
        Some(f) => f.mana as int,
        None => 0,
    }
}

/// The spellcasting of a fighter before equipment; zero without one.
pub open spec fn base_spellcast(fighter: Option<Fighter>) -> int {
    match fighter {
        Some(f) => f.base_spellcast_modifier as int,
        None => 0,
    }
}

/// The spellcasting value of `owner`: its own plus the bonus of every worn
/// piece that its mana can pay for.
pub open spec fn spellcast_of(owner: ObjectView, inventory: Seq<ObjectView>) -> int {
    base_spellcast(owner.fighter) + channel(worn_by(owner, inventory), mana_of(owner.fighter)).1
}

/// The mana `owner` has left after casting.
pub open spec fn mana_after_cast(owner: ObjectView, inventory: Seq<ObjectView>) -> int {
    channel(worn_by(owner, inventory), mana_of(owner.fighter)).0
}

/// `n` is a value of `i32`.
pub open spec fn fits_i32(n: int) -> bool {
    i32::MIN <= n <= i32::MAX
}

/// `amount` added to `current`, capped at `most`.
pub open spec fn topped_up(current: int, amount: int, most: int) -> int {
    if current + amount > most {
        most
    } else {
        current + amount
    }
}

/// The object after its hit points are raised by `amount`, up to `max_hp`.
pub open spec fn healed(object: ObjectView, amount: int, max_hp: int) -> ObjectView {
    match object.fighter {
        Some(f) => ObjectView {
            fighter: Some(Fighter { hp: topped_up(f.hp as int, amount, max_hp) as i32, ..f }),
            ..object
        },
        None => object,
    }
}

/// The object after its mana is raised by `amount`, up to `max_mana`.
pub open spec fn recharged(object: ObjectView, amount: int, max_mana: int) -> ObjectView {
    match object.fighter {
        Some(f) => ObjectView {
            fighter: Some(Fighter { mana: topped_up(f.mana as int, amount, max_mana) as i32, ..f }),
            ..object
        },
        None => object,
    }
}

fn bonus_of(equipment: &Equipment, stat: Stat) -> (value: i32)
    ensures
        value == bonus(*equipment, stat),
{
    match stat {
        Stat::MaxHp => equipment.max_hp_bonus,
        Stat::MaxMana => equipment.max_mana_bonus,
        Stat::Power => equipment.power_bonus,
        Stat::Defense => equipment.defense_bonus,
    }
}

fn base_of(fighter: &Option<Fighter>, stat: Stat) -> (value: i32)
    ensures
        value == base(*fighter, stat),
{
    match fighter {
        Some(f) => match stat {
            Stat::MaxHp => f.base_max_hp,
            Stat::MaxMana => f.base_max_mana,
            Stat::Power => f.base_power,
            Stat::Defense => f.base_defense,
        },
        None => 0,
    }
}

fn sum_bonus(worn: &Vec<Equipment>, stat: Stat) -> (total: i128)
    ensures
        total == total_bonus(worn@, stat),
        -0x8000_0000 * worn.len() <= total <= 0x8000_0000 * worn.len(),
{
    let mut total: i128 = 0;
    let mut i: usize = 0;
    while i < worn.len()
        invariant
            i <= worn.len(),
            total == total_bonus(worn@.take(i as int), stat),
            -0x8000_0000 * i <= total <= 0x8000_0000 * i,
        decreases worn.len() - i,
    {
        assert(worn@.take(i + 1).drop_last() =~= worn@.take(i as int));
        total = total + bonus_of(&worn[i], stat) as i128;
        i = i + 1;
    }
    assert(worn@.take(i as int) =~= worn@);
    total
}

/// Draws on each piece in turn, starting with `mana`.
fn draw(worn: &Vec<Equipment>, mana: i32) -> (result: (i128, i128))
    ensures
        result.0 == channel(worn@, mana as int).0,
        result.1 == channel(worn@, mana as int).1,
        -0x8000_0000 * worn.len() <= result.1 <= 0x8000_0000 * worn.len(),
{
    let mut left: i128 = mana as i128;
    let mut gained: i128 = 0;
    let mut i: usize = 0;
    while i < worn.len()
        invariant
            i <= worn.len(),
            left == channel(worn@.take(i as int), mana as int).0,
            gained == channel(worn@.take(i as int), mana as int).1,
            mana - 0x8000_0000 * i <= left <= mana + 0x8000_0000 * i,
            -0x8000_0000 * i <= gained <= 0x8000_0000 * i,
        decreases worn.len() - i,
    {
        assert(worn@.take(i + 1).drop_last() =~= worn@.take(i as int));
        let e = &worn[i];
        if e.mana_usage as i128 <= left {
            left = left - e.mana_usage as i128;
            gained = gained + e.spellcast_bonus as i128;
        }
        i = i + 1;
    }
    assert(worn@.take(i as int) =~= worn@);
    (left, gained)
}

impl Object {
    /// Everything this object wears.
    pub fn get_all_equipped(&self, game: &Game) -> (worn_now: Vec<Equipment>)
        ensures
            worn_now@ == worn_by(self@, game@.inventory),
    {
        let mut worn_now: Vec<Equipment> = Vec::new();
        if self.is_player() {
            let ghost inventory = views(game.inventory@);
            let mut i: usize = 0;
            while i < game.inventory.len()
                invariant
                    i <= game.inventory.len(),
                    inventory == views(game.inventory@),
                    worn_now@ == worn(inventory.take(i as int)),
                decreases game.inventory.len() - i,
            {
                assert(inventory.take(i + 1).drop_last() =~= inventory.take(i as int));
                assert(inventory.take(i + 1).last() == game.inventory[i as int]@);
                match game.inventory[i].equipment {
                    Some(e) => {
                        if e.equipped {
                            worn_now.push(e);
                        }
                    },
                    None => {},
                }
                i = i + 1;
            }
            assert(inventory.take(i as int) =~= inventory);
        }
        worn_now
    }

    /// One aggregated statistic of this object.
    pub fn stat(&self, game: &Game, stat: Stat) -> (value: i32)
        requires
            fits_i32(stat_of(self@, game@.inventory, stat)),
        ensures
            value == stat_of(self@, game@.inventory, stat),
    {
        let worn_now = self.get_all_equipped(game);
        let total: i128 = base_of(&self.fighter, stat) as i128 + sum_bonus(&worn_now, stat);
        total as i32
    }

    /// The most hit points this object can have.
    pub fn max_hp(&self, game: &Game) -> (value: i32)
        requires
            fits_i32(stat_of(self@, game@.inventory, Stat::MaxHp)),
        ensures
            value == stat_of(self@, game@.inventory, Stat::MaxHp),
    {
        self.stat(game, Stat::MaxHp)
    }

    /// The most mana this object can have.
    pub fn max_mana(&self, game: &Game) -> (value: i32)
        requires
            fits_i32(stat_of(self@, game@.inventory, Stat::MaxMana)),
        ensures
            value == stat_of(self@, game@.inventory, Stat::MaxMana),
    {
        self.stat(game, Stat::MaxMana)
    }

    /// The power this object attacks with.
    pub fn power(&self, game: &Game) -> (value: i32)
        requires
            fits_i32(stat_of(self@, game@.inventory, Stat::Power)),
        ensures
            value == stat_of(self@, game@.inventory, Stat::Power),
    {
        self.stat(game, Stat::Power)
    }

    /// The defense of this object.
    pub fn defense(&self, game: &Game) -> (value: i32)
        requires
            fits_i32(stat_of(self@, game@.inventory, Stat::Defense)),
        ensures
            value == stat_of(self@, game@.inventory, Stat::Defense),
    {
        self.stat(game, Stat::Defense)
    }

    /// The spellcasting value this object would cast with, spending nothing.
    pub fn spellcast_only(&self, game: &Game) -> (value: i32)
        requires
            fits_i32(spellcast_of(self@, game@.inventory)),
        ensures
            value == spellcast_of(self@, game@.inventory),
    {
        let mana: i32 = match self.fighter {
            Some(f) => f.mana,
            None => 0,
        };
        let own: i32 = match self.fighter {
            Some(f) => f.base_spellcast_modifier,
            None => 0,
        };
        let worn_now = self.get_all_equipped(game);
        let (_left, gained) = draw(&worn_now, mana);
        let total: i128 = own as i128 + gained;
        total as i32
    }

    /// Casts: returns the spellcasting value and spends the mana of every
    /// worn piece that contributed.
    pub fn spellcast(&mut self, game: &Game) -> (value: i32)
        requires
            fits_i32(spellcast_of(old(self)@, game@.inventory)),
            old(self).fighter is Some ==> fits_i32(mana_after_cast(old(self)@, game@.inventory)),
        ensures
            value == spellcast_of(old(self)@, game@.inventory),
            final(self)@ == spent(old(self)@, game@.inventory),
    {
        let mana: i32 = match self.fighter {
            Some(f) => f.mana,
            None => 0,
        };
        let own: i32 = match self.fighter {
            Some(f) => f.base_spellcast_modifier,
            None => 0,
        };
        let worn_now = self.get_all_equipped(game);
        let (left, gained) = draw(&worn_now, mana);
        match self.fighter {
            Some(f) => {
                let mut after = f;
                after.mana = left as i32;
                self.fighter = Some(after);
            },
            None => {},
        }
        let total: i128 = own as i128 + gained;
        total as i32
    }

    /// Restores up to `amount` hit points, never beyond the maximum.
    pub fn heal(&mut self, amount: i32, game: &Game)
        requires
            fits_i32(stat_of(old(self)@, game@.inventory, Stat::MaxHp)),
            old(self).fighter is Some ==> old(self).fighter->0.hp + amount >= i32::MIN,
        ensures
            final(self)@ == healed(
                old(self)@,
                amount as int,
                stat_of(old(self)@, game@.inventory, Stat::MaxHp),
            ),
    {
        let max_hp: i32 = self.max_hp(game);
        match self.fighter {
            Some(f) => {
                let mut after = f;
                let raised: i64 = f.hp as i64 + amount as i64;
                after.hp = if raised > max_hp as i64 {
                    max_hp
                } else {
                    raised as i32
                };
                self.fighter = Some(after);
            },
            None => {},
        }
    }

    /// Restores up to `amount` mana, never beyond the maximum.
    pub fn regenerate_mana(&mut self, amount: i32, game: &Game)
        requires
            fits_i32(stat_of(old(self)@, game@.inventory, Stat::MaxMana)),
            old(self).fighter is Some ==> old(self).fighter->0.mana + amount >= i32::MIN,
        ensures
            final(self)@ == recharged(
                old(self)@,
                amount as int,
                stat_of(old(self)@, game@.inventory, Stat::MaxMana),
            ),
    {
        let max_mana: i32 = self.max_mana(game);
        match self.fighter {
            Some(f) => {
                let mut after = f;
                let raised: i64 = f.mana as i64 + amount as i64;
                after.mana = if raised > max_mana as i64 {
                    max_mana
                } else {
                    raised as i32
                };
                self.fighter = Some(after);
            },
            None => {},
        }
    }
}

/// The object after casting: its mana is what casting leaves.
pub open spec fn spent(owner: ObjectView, inventory: Seq<ObjectView>) -> ObjectView {
    match owner.fighter {
        Some(f) => ObjectView {
            fighter: Some(Fighter { mana: mana_after_cast(owner, inventory) as i32, ..f }),
            ..owner
        },
        None => owner,
    }
}

impl Object {
    /// Whether an aggregated statistic of this object is a value of `i32`, so
    /// that it can be asked for.
    pub fn stat_fits(&self, game: &Game, stat: Stat) -> (ok: bool)
        ensures
            ok == fits_i32(stat_of(self@, game@.inventory, stat)),
    {
        let worn_now = self.get_all_equipped(game);
        let total: i128 = base_of(&self.fighter, stat) as i128 + sum_bonus(&worn_now, stat);
        -0x8000_0000 <= total && total <= 0x7fff_ffff
    }

    /// Whether the spellcasting value of this object is a value of `i32`, so
    /// that it can be asked for.
    pub fn spellcast_fits(&self, game: &Game) -> (ok: bool)
        ensures
            ok == fits_i32(spellcast_of(self@, game@.inventory)),
    {
        let mana: i32 = match self.fighter {
            Some(f) => f.mana,
            None => 0,
        };
        let own: i32 = match self.fighter {
            Some(f) => f.base_spellcast_modifier,
            None => 0,
        };
        let worn_now = self.get_all_equipped(game);
        let (_left, gained) = draw(&worn_now, mana);
        let total: i128 = own as i128 + gained;
        -0x8000_0000 <= total && total <= 0x7fff_ffff
    }

    /// Whether this object can cast: its spellcasting value and the mana that
    /// casting leaves are values of `i32`.
    pub fn cast_fits(&self, game: &Game) -> (ok: bool)
        ensures
            ok == (fits_i32(spellcast_of(self@, game@.inventory)) && fits_i32(
                mana_after_cast(self@, game@.inventory),
            )),
    {
        let mana: i32 = match self.fighter {
            Some(f) => f.mana,
            None => 0,
        };
        let own: i32 = match self.fighter {
            Some(f) => f.base_spellcast_modifier,
            None => 0,
        };
        let worn_now = self.get_all_equipped(game);
        proof {
            lemma_channel_bounds(worn_now@, mana as int);
        }
        let (left, gained) = draw(&worn_now, mana);
        let total: i128 = own as i128 + gained;
        -0x8000_0000 <= total && total <= 0x7fff_ffff && -0x8000_0000 <= left && left
            <= 0x7fff_ffff
    }
}

proof fn lemma_channel_bounds(worn: Seq<Equipment>, mana: int)
    ensures
        mana - 0x8000_0000 * worn.len() <= channel(worn, mana).0 <= mana + 0x8000_0000
            * worn.len(),
    decreases worn.len(),
{
    if worn.len() > 0 {
        lemma_channel_bounds(worn.drop_last(), mana);
    }
}

} // verus!
