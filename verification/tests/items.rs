use roguelike::color::{light_red, white, yellow};
use roguelike::encounter::{make_item, make_monster, ItemKind, MonsterKind};
use roguelike::entity::{Ai, DeathCallback, Fighter, Game, Item, Object};
use roguelike::fov::Visibility;
use roguelike::grid::{create_room, Rect, Tile};
use roguelike::inventory::UseResult;
use roguelike::items::{
    cast_confuse, cast_fireball, cast_fireballstaff, cast_heal, cast_lightning, cast_mana_potion,
    closest_target, staff_range, targets_in_range, use_item, PlayerAction,
};
use roguelike::messages::Messages;

fn player(x: i32, y: i32) -> Object {
    let mut player = Object::new(x, y, '@', "player", white(), true);
    player.alive = true;
    player.fighter = Some(Fighter {
        base_max_hp: 100,
        hp: 60,
        base_defense: 1,
        base_power: 2,
        mana: 12,
        base_max_mana: 20,
        base_spellcast_modifier: 3,
        xp: 0,
        on_death: DeathCallback::Player,
    });
    player
}

fn game(inventory: Vec<Object>) -> Game {
    let mut map = vec![vec![Tile::wall(); 43]; 80];
    create_room(Rect::new(0, 0, 40, 40), &mut map);
    Game { map, messages: Messages::new(), inventory, dungeon_level: 0 }
}

fn all_seen() -> Visibility {
    let mut fov = Visibility::new();
    for x in 0..80 {
        for y in 0..43 {
            fov.set(x, y, true);
        }
    }
    fov
}

fn texts(game: &Game) -> Vec<String> {
    game.messages.iter().map(|l| l.0.clone()).collect()
}

fn crowd() -> Vec<Object> {
    let mut corpse = make_monster(MonsterKind::Orc, 10, 11);
    corpse.fighter = None;
    corpse.ai = None;
    vec![
        player(10, 10),
        make_item(ItemKind::Heal, 10, 10, 0),
        make_monster(MonsterKind::Troll, 14, 13),
        corpse,
        make_monster(MonsterKind::Orc, 13, 14),
        make_monster(MonsterKind::Archer, 10, 16),
        make_monster(MonsterKind::Orc, 12, 10),
    ]
}

#[test]
fn the_closest_monster_in_view_is_the_target() {
    let fov = all_seen();
    let mut objects = crowd();
    assert_eq!(closest_target(&fov, &objects, 5), Some(6));
    objects[6].x = 30;
    assert_eq!(closest_target(&fov, &objects, 5), Some(2));
    objects[2].ai = None;
    assert_eq!(closest_target(&fov, &objects, 5), Some(4));
    objects[4].fighter = None;
    assert_eq!(closest_target(&fov, &objects, 5), None);
    assert_eq!(closest_target(&fov, &objects, 6), Some(5));
    assert_eq!(closest_target(&fov, &objects, 19), Some(5));
    assert_eq!(closest_target(&fov, &objects, -1), None);
    assert_eq!(closest_target(&fov, &objects, i32::MAX), Some(5));
}

#[test]
fn the_target_is_less_than_one_beyond_the_range_away() {
    let fov = all_seen();
    let mut objects = vec![player(10, 10), make_monster(MonsterKind::Orc, 15, 13)];
    assert_eq!(closest_target(&fov, &objects, 5), Some(1));
    objects[1].y = 14;
    assert_eq!(closest_target(&fov, &objects, 5), None);
    objects[1] = make_monster(MonsterKind::Orc, 16, 10);
    assert_eq!(closest_target(&fov, &objects, 5), None);
    assert_eq!(closest_target(&fov, &objects, 6), Some(1));
}

#[test]
fn a_monster_out_of_view_is_no_target() {
    let mut fov = all_seen();
    fov.set(12, 10, false);
    let objects = crowd();
    assert_eq!(closest_target(&fov, &objects, 5), Some(2));
    assert_eq!(targets_in_range(&fov, &objects, 8), vec![2, 4, 5]);
    assert_eq!(closest_target(&Visibility::new(), &objects, 5), None);
}

#[test]
fn targets_are_what_behaves_in_view_and_in_range() {
    let fov = all_seen();
    let objects = crowd();
    assert_eq!(targets_in_range(&fov, &objects, 8), vec![2, 4, 5, 6]);
    assert_eq!(targets_in_range(&fov, &objects, 5), vec![2, 4, 6]);
    assert_eq!(targets_in_range(&fov, &objects, 2), vec![6]);
    assert_eq!(targets_in_range(&fov, &objects, 1), Vec::<usize>::new());
    assert_eq!(targets_in_range(&fov, &objects, -3), Vec::<usize>::new());
}

#[test]
fn lightning_strikes_the_closest_monster() {
    let fov = all_seen();
    let mut game = game(vec![make_item(ItemKind::Lightning, 0, 0, 0)]);
    let mut objects = crowd();
    assert_eq!(cast_lightning(0, &fov, &mut game, &mut objects, 15), UseResult::UsedUp);
    assert_eq!(objects[6].fighter.unwrap().hp, 5);
    assert_eq!(objects[2].fighter.unwrap().hp, 30);
    assert_eq!(texts(&game), vec!["player attacks orc for 15 hp with lightning"]);
    assert_eq!(game.inventory.len(), 1);
}

#[test]
fn lightning_without_a_monster_near_is_cancelled() {
    let fov = all_seen();
    let mut game = game(vec![make_item(ItemKind::Lightning, 0, 0, 0)]);
    let mut objects = vec![player(10, 10), make_monster(MonsterKind::Orc, 30, 30)];
    assert_eq!(cast_lightning(0, &fov, &mut game, &mut objects, 15), UseResult::Cancelled);
    assert_eq!(objects[1], make_monster(MonsterKind::Orc, 30, 30));
    assert_eq!(
        game.messages.entries().clone(),
        vec![("You need to choose a target".to_string(), white())]
    );
}

#[test]
fn a_fireball_scroll_is_used_up_with_its_last_charge() {
    let mut game = game(vec![make_item(ItemKind::Heal, 0, 0, 0), make_item(ItemKind::Fireball, 0, 0, 0)]);
    let mut objects = crowd();
    assert_eq!(cast_fireball(1, Some(2), &mut game, &mut objects, 9), UseResult::Used);
    assert_eq!(game.inventory[1].item, Some(Item::Fireball { charges: 2, damage: 25 }));
    assert_eq!(cast_fireball(1, None, &mut game, &mut objects, 9), UseResult::Cancelled);
    assert_eq!(game.inventory[1].item, Some(Item::Fireball { charges: 2, damage: 25 }));
    assert_eq!(cast_fireball(1, Some(2), &mut game, &mut objects, 0), UseResult::Used);
    assert_eq!(cast_fireball(1, Some(2), &mut game, &mut objects, 9), UseResult::UsedUp);
    assert_eq!(game.inventory[1].item, Some(Item::Fireball { charges: 0, damage: 25 }));
    assert_eq!(objects[2].fighter.unwrap().hp, 12);
    assert_eq!(
        texts(&game),
        vec![
            "player attacks troll for 9 hp with fireball",
            "You need to choose a target",
            "player attacks troll but it has no effect with fireball",
            "player attacks troll for 9 hp with fireball",
        ]
    );
    assert_eq!(cast_fireball(0, Some(2), &mut game, &mut objects, 1), UseResult::Cancelled);
    assert_eq!(objects[2].fighter.unwrap().hp, 11);
}

#[test]
fn the_staff_spends_mana_and_is_kept() {
    let mut staff = make_item(ItemKind::FireballStaff, 0, 0, 0);
    staff.equipment.as_mut().unwrap().equipped = true;
    let mut game = game(vec![staff]);
    let mut objects = crowd();
    assert_eq!(staff_range(&game, 0), 8);
    assert_eq!(objects[0].attack_base(&game, Some(0)), 11);
    assert_eq!(cast_fireballstaff(0, Some(4), &mut game, &mut objects, 11), UseResult::Used);
    assert_eq!(objects[0].fighter.unwrap().mana, 7);
    assert_eq!(objects[4].fighter.unwrap().hp, 9);
    assert_eq!(cast_fireballstaff(0, Some(4), &mut game, &mut objects, 11), UseResult::Used);
    assert_eq!(objects[0].fighter.unwrap().mana, 2);
    assert_eq!(objects[0].fighter.unwrap().xp, 35);
    assert_eq!(objects[4].name, "remains of orc");
    assert_eq!(objects[0].attack_base(&game, Some(0)), 3);
    assert_eq!(cast_fireballstaff(0, None, &mut game, &mut objects, 11), UseResult::Cancelled);
    assert_eq!(objects[0].fighter.unwrap().mana, 2);
    assert_eq!(game.inventory.len(), 1);
    assert_eq!(texts(&game)[0], "player attacks orc for 11 hp with fireball staff");
    assert_eq!(game.messages.entries()[0].1, light_red());
}

#[test]
fn the_range_of_what_is_no_staff_is_zero() {
    let game = game(vec![make_item(ItemKind::Heal, 0, 0, 0), Object::new(0, 0, '*', "rock", white(), false)]);
    assert_eq!(staff_range(&game, 0), 0);
    assert_eq!(staff_range(&game, 1), 0);
}

#[test]
fn confusion_remembers_what_the_monster_was_about() {
    let mut game = game(vec![]);
    let mut objects = crowd();
    assert_eq!(cast_confuse(Some(5), &mut game, &mut objects), UseResult::UsedUp);
    assert_eq!(
        objects[5].ai,
        Some(Ai::Confused { previous_ai: Box::new(Ai::Archer { range: 8 }), num_turns: 10 })
    );
    assert_eq!(cast_confuse(Some(1), &mut game, &mut objects), UseResult::UsedUp);
    assert_eq!(
        objects[1].ai,
        Some(Ai::Confused { previous_ai: Box::new(Ai::Basic), num_turns: 10 })
    );
    assert_eq!(cast_confuse(None, &mut game, &mut objects), UseResult::Cancelled);
    assert_eq!(
        game.messages.entries().clone(),
        vec![
            (
                "The eyes of archer look vacant, as it starts to stumble around!".to_string(),
                yellow()
            ),
            (
                "The eyes of healing potion look vacant, as it starts to stumble around!"
                    .to_string(),
                yellow()
            ),
            ("You need to choose a target".to_string(), white()),
        ]
    );
}

#[test]
fn confusing_the_confused_starts_the_count_again() {
    let mut game = game(vec![]);
    let mut objects = crowd();
    objects[5].ai =
        Some(Ai::Confused { previous_ai: Box::new(Ai::Archer { range: 8 }), num_turns: 3 });
    cast_confuse(Some(5), &mut game, &mut objects);
    assert_eq!(
        objects[5].ai,
        Some(Ai::Confused { previous_ai: Box::new(Ai::Archer { range: 8 }), num_turns: 10 })
    );
}

#[test]
fn a_healing_potion_heals_unless_health_is_full() {
    let mut game = game(vec![make_item(ItemKind::Heal, 0, 0, 0), make_item(ItemKind::ManaPotion, 0, 0, 0)]);
    let mut objects = crowd();
    assert_eq!(cast_heal(0, &mut game, &mut objects), UseResult::UsedUp);
    assert_eq!(objects[0].fighter.unwrap().hp, 100);
    assert_eq!(cast_heal(0, &mut game, &mut objects), UseResult::Cancelled);
    objects[0].fighter.as_mut().unwrap().hp = 99;
    assert_eq!(cast_heal(1, &mut game, &mut objects), UseResult::Cancelled);
    assert_eq!(objects[0].fighter.unwrap().hp, 99);
    assert_eq!(
        game.messages.entries().clone(),
        vec![
            ("your wounds start to feel better".to_string(), yellow()),
            ("You are already at full heal".to_string(), yellow()),
        ]
    );
    objects[0].fighter = None;
    assert_eq!(cast_heal(0, &mut game, &mut objects), UseResult::Cancelled);
    assert_eq!(game.messages.len(), 2);
}

#[test]
fn a_mana_potion_restores_mana_unless_it_is_full() {
    let mut game = game(vec![make_item(ItemKind::Heal, 0, 0, 0), make_item(ItemKind::ManaPotion, 0, 0, 0)]);
    let mut objects = crowd();
    assert_eq!(cast_mana_potion(0, &mut game, &mut objects), UseResult::Cancelled);
    assert_eq!(objects[0].fighter.unwrap().mana, 12);
    assert_eq!(cast_mana_potion(1, &mut game, &mut objects), UseResult::UsedUp);
    assert_eq!(objects[0].fighter.unwrap().mana, 20);
    assert_eq!(cast_mana_potion(1, &mut game, &mut objects), UseResult::Cancelled);
    assert_eq!(
        game.messages.entries().clone(),
        vec![
            ("your arcane energy is bubbling".to_string(), yellow()),
            ("You are already at full mana".to_string(), yellow()),
        ]
    );
}

#[test]
fn using_an_item_takes_a_turn_unless_cancelled() {
    let fov = all_seen();
    let mut sword = make_item(ItemKind::Sword, 0, 0, 0);
    sword.name = "sword".to_string();
    let mut game = game(vec![
        make_item(ItemKind::Heal, 0, 0, 0),
        sword,
        make_item(ItemKind::Lightning, 0, 0, 0),
        Object::new(0, 0, '*', "rock", white(), false),
        make_item(ItemKind::Confuse, 0, 0, 0),
        make_item(ItemKind::Helmet, 0, 0, 0),
    ]);
    let mut objects = crowd();
    assert_eq!(use_item(3, &fov, None, &mut game, &mut objects, 0), PlayerAction::DidntTakeTurn);
    assert_eq!(use_item(1, &fov, None, &mut game, &mut objects, 0), PlayerAction::TookTurn);
    assert!(game.inventory[1].equipment.unwrap().equipped);
    assert_eq!(use_item(5, &fov, None, &mut game, &mut objects, 0), PlayerAction::TookTurn);
    assert!(game.inventory[5].equipment.unwrap().equipped);
    assert_eq!(use_item(4, &fov, None, &mut game, &mut objects, 0), PlayerAction::DidntTakeTurn);
    assert_eq!(game.inventory.len(), 6);
    assert_eq!(use_item(4, &fov, Some(2), &mut game, &mut objects, 0), PlayerAction::TookTurn);
    assert_eq!(game.inventory.len(), 5);
    assert_eq!(use_item(2, &fov, None, &mut game, &mut objects, 20), PlayerAction::TookTurn);
    assert_eq!(objects[6].name, "remains of orc");
    assert_eq!(use_item(0, &fov, None, &mut game, &mut objects, 0), PlayerAction::TookTurn);
    assert_eq!(objects[0].fighter.unwrap().hp, 100);
    let left: Vec<&str> = game.inventory.iter().map(|o| o.name.as_str()).collect();
    assert_eq!(left, vec!["sword", "rock", "helmet"]);
    assert_eq!(
        texts(&game),
        vec![
            "the rock cannot be used",
            "Equipped sword on right hand",
            "Equipped helmet on head",
            "You need to choose a target",
            "Cancelled",
            "The eyes of troll look vacant, as it starts to stumble around!",
            "scroll of confusion is used up",
            "player attacks orc for 20 hp with lightning",
            "orc is dead! You gain 35 experience points",
            "scroll of lightning is used up",
            "your wounds start to feel better",
            "healing potion is used up",
        ]
    );
}
