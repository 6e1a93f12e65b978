//! Combat: wounds, death, and the resolution of one attack.
//!
//! The damage of an attack is rolled by the caller from
//! [`Object::attack_base`] and the target's defense; everything that follows
//! from the roll is decided here.

use vstd::prelude::*;
use vstd::string::StringExecFns;
use crate::color::{dark_green, dark_red, light_green, light_red};
use crate::entity::{DeathCallback, Fighter, Game, GameView, Item, Object, ObjectView};
use crate::stats::{fits_i32, mana_after_cast, spellcast_of, spent, stat_of, Stat};
use crate::text::{append_decimal, decimal_text, join2};

verus! {

/// The hit points a roll of `damage` takes: none unless it is positive.
pub open spec fn hp_loss(damage: int) -> int {
    if damage > 0 {
        damage
    } else {
        0
    }
}

/// The object after losing the hit points that `damage` takes.
pub open spec fn hurt(object: ObjectView, damage: int) -> ObjectView {
    match object.fighter {
        Some(f) => ObjectView {
            fighter: Some(Fighter { hp: (f.hp - hp_loss(damage)) as i32, ..f }),
            ..object
        },
        None => object,
    }
}

/// `damage` takes the last hit points of the object: it had some before the
/// blow and has none after it. What has no hit points left cannot be slain
/// again.
pub open spec fn slain(object: ObjectView, damage: int) -> bool {
    object.fighter matches Some(f) && f.hp > 0 && f.hp - hp_loss(damage) <= 0
}

/// What is logged when the player dies.
pub open spec fn text_died() -> Seq<char> {
    "You died!"@
}

/// What is logged when a monster dies.
pub open spec fn text_slain(name: Seq<char>, xp: int) -> Seq<char> {
    name + " is dead! You gain "@ + decimal_text(xp) + " experience points"@
}

/// The name of what is left of a monster.
pub open spec fn text_remains(name: Seq<char>) -> Seq<char> {
    "remains of "@ + name
}

/// The remains of a monster: they fight no more, block nothing, and carry
/// the monster's name.
pub open spec fn remains(object: ObjectView) -> ObjectView {
    ObjectView {
        char: '%',
        color: dark_red(),
        blocks: false,
        fighter: None,
        ai: None,
        name: text_remains(object.name),
        ..object
    }
}

/// The death of an object by `behaviour`: the object and the game afterwards.
pub open spec fn perished(behaviour: DeathCallback, object: ObjectView, game: GameView) -> (
    ObjectView,
    GameView,
) {
    match behaviour {
        DeathCallback::Player => (
            ObjectView { char: '%', color: dark_red(), ..object },
            game.told(text_died(), dark_red()),
        ),
        _ => (
            remains(object),
            game.told(text_slain(object.name, object.fighter->0.xp as int), dark_green()),
        ),
    }
}

/// Taking `damage`: the object and the game afterwards, and the experience
/// the object yields if it died. It dies exactly when the blow takes its last
/// hit points; on every other blow it is wounded at most, nothing is logged
/// and no experience is yielded.
pub open spec fn struck(object: ObjectView, game: GameView, damage: int) -> (
    ObjectView,
    GameView,
    Option<i32>,
) {
    let wounded = hurt(object, damage);
    if slain(object, damage) {
        let fighter = wounded.fighter->0;
        let (dead, after) = perished(
            fighter.on_death,
            ObjectView { alive: false, ..wounded },
            game,
        );
        (dead, after, Some(fighter.xp))
    } else {
        (wounded, game, None)
    }
}

/// The object with `xp` more experience.
pub open spec fn gained(object: ObjectView, xp: int) -> ObjectView {
    match object.fighter {
        Some(f) => ObjectView { fighter: Some(Fighter { xp: (f.xp + xp) as i32, ..f }), ..object },
        None => object,
    }
}

/// The attack is made with a fireball staff of the inventory.
pub open spec fn casts(game: GameView, object: Option<usize>) -> bool {
    object matches Some(id) && (game.inventory[id as int].item matches Some(
        Item::FireballStaff { .. },
    ))
}

/// How the log names the weapon of an attack.
pub open spec fn weapon_text(game: GameView, object: Option<usize>) -> Seq<char> {
    match object {
        Some(id) => match game.inventory[id as int].item {
            Some(Item::Lightning { .. }) => "with lightning"@,
            Some(Item::Fireball { .. }) => "with fireball"@,
            Some(Item::FireballStaff { .. }) => "with fireball staff"@,
            Some(_) => "since "@ + game.inventory[id as int].name + " is not a weapon"@,
            None => Seq::empty(),
        },
        None => Seq::empty(),
    }
}

/// The strength of an attack before the target's defense: the attacker's
/// power bare-handed, the damage a scroll carries, the attacker's
/// spellcasting with a staff, and nothing with anything else.
pub open spec fn attack_base_of(attacker: ObjectView, game: GameView, object: Option<usize>) -> int {
    match object {
        Some(id) => match game.inventory[id as int].item {
            Some(Item::Lightning { damage }) => damage as int,
            Some(Item::Fireball { damage, .. }) => damage as int,
            Some(Item::FireballStaff { .. }) => spellcast_of(attacker, game.inventory),
            _ => 0,
        },
        None => stat_of(attacker, game.inventory, Stat::Power),
    }
}

/// What is logged when an attack takes hit points.
pub open spec fn text_hit(
    attacker: Seq<char>,
    target: Seq<char>,
    damage: int,
    weapon: Seq<char>,
) -> Seq<char> {
    attacker + " attacks "@ + target + " for "@ + decimal_text(damage) + " hp "@ + weapon
}

/// What is logged when an attack takes none.
pub open spec fn text_miss(attacker: Seq<char>, target: Seq<char>, weapon: Seq<char>) -> Seq<char> {
    attacker + " attacks "@ + target + " but it has no effect "@ + weapon
}

/// One attack with a roll of `damage`: the attacker, the target and the game
/// afterwards.
///
/// Casting with a staff spends the attacker's mana whatever the roll. A
/// positive roll is logged and taken by the target, whose experience goes to
/// the attacker if it dies. Any other roll is logged as having no effect.
pub open spec fn attacked(
    attacker: ObjectView,
    target: ObjectView,
    game: GameView,
    object: Option<usize>,
    damage: int,
) -> (ObjectView, ObjectView, GameView) {
    let armed = if casts(game, object) {
        spent(attacker, game.inventory)
    } else {
        attacker
    };
    let weapon = weapon_text(game, object);
    if damage > 0 {
        let told = game.told(text_hit(armed.name, target.name, damage, weapon), light_red());
        let (hit, after, xp) = struck(target, told, damage);
        match xp {
            Some(xp) => (gained(armed, xp as int), hit, after),
            None => (armed, hit, after),
        }
    } else {
        (armed, target, game.told(text_miss(armed.name, target.name, weapon), light_green()))
    }
}

/// What an attack needs so that no number leaves the range of `i32` and no
/// component is missed.
pub open spec fn attack_ready(
    attacker: ObjectView,
    target: ObjectView,
    game: GameView,
    object: Option<usize>,
    damage: int,
) -> bool {
    &&& object matches Some(id) ==> id < game.inventory.len()
    &&& casts(game, object) ==> fits_i32(spellcast_of(attacker, game.inventory)) && fits_i32(
        mana_after_cast(attacker, game.inventory),
    )
    &&& target.fighter matches Some(f) ==> f.hp - hp_loss(damage) >= i32::MIN
    &&& damage > 0 && slain(target, damage) ==> (attacker.fighter matches Some(f) && fits_i32(
        f.xp + target.fighter->0.xp,
    ))
}

/// No attack heals: whatever the roll, an attack takes from its target the
/// hit points of the roll, never fewer than none, so that a target that can
/// still fight afterwards has no more hit points than before; and it leaves
/// the hit points of the attacker as they are. This needs no more than that
/// the target's hit points stay in range.
pub proof fn lemma_attack_never_heals(
    attacker: ObjectView,
    target: ObjectView,
    game: GameView,
    object: Option<usize>,
    damage: int,
)
    requires
        target.fighter matches Some(f) ==> f.hp - hp_loss(damage) >= i32::MIN,
    ensures
        hp_loss(damage) >= 0,
        attacked(attacker, target, game, object, damage).1.fighter matches Some(after) ==> (
        target.fighter matches Some(before) && after.hp == before.hp - hp_loss(damage) && after.hp
            <= before.hp),
        damage <= 0 ==> attacked(attacker, target, game, object, damage).1 == target,
        attacked(attacker, target, game, object, damage).0.fighter is Some
            == attacker.fighter is Some,
        attacker.fighter matches Some(before) ==> attacked(
            attacker,
            target,
            game,
            object,
            damage,
        ).0.fighter->0.hp == before.hp,
{
}

/// Death comes once: a blow on what has no hit points left wounds at most,
/// logs nothing and yields no experience.
pub proof fn lemma_death_comes_once(object: ObjectView, game: GameView, damage: int)
    requires
        object.fighter matches Some(f) ==> f.hp <= 0,
    ensures
        struck(object, game, damage) == (hurt(object, damage), game, None::<i32>),
{
}

/// The death of the player: it is reported, and the player turns into a corpse
/// that keeps its place and its components.
pub fn player_death(player: &mut Object, game: &mut Game)
    ensures
        final(player)@ == perished(DeathCallback::Player, old(player)@, old(game)@).0,
        final(game)@ == perished(DeathCallback::Player, old(player)@, old(game)@).1,
{
    game.messages.add("You died!", dark_red());
    player.char = '%';
    player.color = dark_red();
}

/// The death of a monster: it is reported with the experience it yields, and
/// the monster turns into remains.
pub fn monster_death(monster: &mut Object, game: &mut Game)
    requires
        old(monster).fighter is Some,
    ensures
        final(monster)@ == perished(DeathCallback::Monster, old(monster)@, old(game)@).0,
        final(game)@ == perished(DeathCallback::Monster, old(monster)@, old(game)@).1,
{
    let mut text = join2(monster.name.as_str(), " is dead! You gain ");
    append_decimal(&mut text, monster.fighter.unwrap().xp);
    text.append(" experience points");
    game.messages.add(text.as_str(), dark_green());
    monster.char = '%';
    monster.color = dark_red();
    monster.blocks = false;
    monster.fighter = None;
    monster.ai = None;
    monster.name = join2("remains of ", monster.name.as_str());
}

/// The death of an archer: as that of any monster.
pub fn archer_death(archer: &mut Object, game: &mut Game)
    requires
        old(archer).fighter is Some,
    ensures
        final(archer)@ == perished(DeathCallback::MonsterArcher, old(archer)@, old(game)@).0,
        final(game)@ == perished(DeathCallback::MonsterArcher, old(archer)@, old(game)@).1,
{
    monster_death(archer, game);
}

impl DeathCallback {
    /// Carries out the death of `object`.
    pub fn callback(self, object: &mut Object, game: &mut Game)
        requires
            old(object).fighter is Some,
        ensures
            final(object)@ == perished(self, old(object)@, old(game)@).0,
            final(game)@ == perished(self, old(object)@, old(game)@).1,
    {
        match self {
            DeathCallback::Player => player_death(object, game),
            DeathCallback::Monster => monster_death(object, game),
            DeathCallback::MonsterArcher => archer_death(object, game),
        }
    }
}

impl Object {
    /// Takes `damage` if it is positive, and dies when the blow takes its
    /// last hit points. Returns the experience the object yields if it died.
    pub fn take_damage(&mut self, damage: i32, game: &mut Game) -> (xp: Option<i32>)
        requires
            old(self).fighter matches Some(f) ==> f.hp - hp_loss(damage as int) >= i32::MIN,
        ensures
            final(self)@ == struck(old(self)@, old(game)@, damage as int).0,
            final(game)@ == struck(old(self)@, old(game)@, damage as int).1,
            xp == struck(old(self)@, old(game)@, damage as int).2,
    {
        match self.fighter {
            Some(before) => {
                let mut fighter = before;
                if damage > 0 {
                    fighter.hp = before.hp - damage;
                    self.fighter = Some(fighter);
                }
                if before.hp > 0 && fighter.hp <= 0 {
                    self.alive = false;
                    fighter.on_death.callback(self, game);
                    return Some(fighter.xp);
                }
            },
            None => {},
        }
        None
    }

    /// Banks `xp` experience.
    pub fn get_xp(&mut self, xp: i32)
        requires
            old(self).fighter matches Some(f) && fits_i32(f.xp + xp),
        ensures
            final(self)@ == gained(old(self)@, xp as int),
    {
        let mut fighter = self.fighter.unwrap();
        fighter.xp = fighter.xp + xp;
        self.fighter = Some(fighter);
    }

    /// The strength this object attacks with, before the target's defense.
    /// `object` names the item of the inventory the attack is made with, if
    /// any.
    pub fn attack_base(&self, game: &Game, object: Option<usize>) -> (base: i32)
        requires
            object matches Some(id) ==> id < game.inventory.len(),
            fits_i32(attack_base_of(self@, game@, object)),
        ensures
            base == attack_base_of(self@, game@, object),
    {
        match object {
            Some(id) => {
                assert(game@.inventory[id as int] == game.inventory[id as int]@);
                match game.inventory[id].item {
                    Some(Item::Lightning { damage }) => damage,
                    Some(Item::Fireball { damage, .. }) => damage,
                    Some(Item::FireballStaff { .. }) => self.spellcast_only(game),
                    _ => 0,
                }
            },
            None => self.power(game),
        }
    }

    /// Resolves one attack on `target` with a roll of `damage`. `object`
    /// names the item of the inventory the attack is made with, if any.
    pub fn attack(
        &mut self,
        target: &mut Object,
        game: &mut Game,
        object: Option<usize>,
        damage: i32,
    )
        requires
            attack_ready(old(self)@, old(target)@, old(game)@, object, damage as int),
        ensures
            final(self)@ == attacked(old(self)@, old(target)@, old(game)@, object, damage as int).0,
            final(target)@ == attacked(
                old(self)@,
                old(target)@,
                old(game)@,
                object,
                damage as int,
            ).1,
            final(game)@ == attacked(old(self)@, old(target)@, old(game)@, object, damage as int).2,
            final(target)@.fighter matches Some(f) ==> (old(target)@.fighter matches Some(g)
                && f.hp == g.hp - hp_loss(damage as int) && f.hp <= g.hp),
            final(self)@.fighter matches Some(f) ==> (old(self)@.fighter matches Some(g) && f.hp
                == g.hp),
    {
        let mut weapon = String::new();
        match object {
            Some(id) => {
                assert(game@.inventory[id as int] == game.inventory[id as int]@);
                match game.inventory[id].item {
                    Some(Item::Lightning { .. }) => {
                        weapon = String::from_str("with lightning");
                    },
                    Some(Item::Fireball { .. }) => {
                        weapon = String::from_str("with fireball");
                    },
                    Some(Item::FireballStaff { .. }) => {
                        weapon = String::from_str("with fireball staff");
                        let _ = self.spellcast(game);
                    },
                    Some(_) => {
                        weapon = join2("since ", game.inventory[id].name.as_str());
                        weapon.append(" is not a weapon");
                    },
                    None => {},
                }
            },
            None => {},
        }
        assert(weapon@ =~= weapon_text(old(game)@, object));
        let mut text = join2(self.name.as_str(), " attacks ");
        text.append(target.name.as_str());
        if damage > 0 {
            text.append(" for ");
            append_decimal(&mut text, damage);
            text.append(" hp ");
            text.append(weapon.as_str());
            game.messages.add(text.as_str(), light_red());
            match target.take_damage(damage, game) {
                Some(xp) => {
                    self.get_xp(xp);
                },
                None => {},
            }
        } else {
            text.append(" but it has no effect ");
            text.append(weapon.as_str());
            game.messages.add(text.as_str(), light_green());
        }
    }
}

/// Whether the strength of an attack can be asked for: the item exists, and
/// the strength is a value of `i32`.
pub fn can_attack_base(attacker: &Object, game: &Game, object: Option<usize>) -> (ok: bool)
    ensures
        ok == ((object matches Some(id) ==> id < game.inventory.len()) && fits_i32(
            attack_base_of(attacker@, game@, object),
        )),
{
    match object {
        Some(id) => {
            if id >= game.inventory.len() {
                return false;
            }
            assert(game@.inventory[id as int] == game.inventory[id as int]@);
            match game.inventory[id].item {
                Some(Item::FireballStaff { .. }) => attacker.spellcast_fits(game),
                _ => true,
            }
        },
        None => attacker.stat_fits(game, Stat::Power),
    }
}

/// Whether an attack is ready.
pub fn is_attack_ready(
    attacker: &Object,
    target: &Object,
    game: &Game,
    object: Option<usize>,
    damage: i32,
) -> (ok: bool)
    ensures
        ok == attack_ready(attacker@, target@, game@, object, damage as int),
{
    match object {
        Some(id) => {
            if id >= game.inventory.len() {
                return false;
            }
            assert(game@.inventory[id as int] == game.inventory[id as int]@);
            match game.inventory[id].item {
                Some(Item::FireballStaff { .. }) => {
                    if !attacker.cast_fits(game) {
                        return false;
                    }
                },
                _ => {},
            }
        },
        None => {},
    }
    match target.fighter {
        Some(f) => {
            let loss: i64 = if damage > 0 {
                damage as i64
            } else {
                0
            };
            let left: i64 = f.hp as i64 - loss;
            if left < -0x8000_0000 {
                return false;
            }
            if damage > 0 && f.hp > 0 && left <= 0 {
                match attacker.fighter {
                    Some(a) => {
                        let sum: i64 = a.xp as i64 + f.xp as i64;
                        -0x8000_0000 <= sum && sum <= 0x7fff_ffff
                    },
                    None => false,
                }
            } else {
                true
            }
        },
        None => true,
    }
}

} // verus!
