use roguelike::color::white;
use roguelike::combat::{can_attack_base, is_attack_ready};
use roguelike::command::{is_command_ready, Command};
use roguelike::dungeon::add_room;
use roguelike::encounter::{
    attempt_item, attempt_monster, make_item, make_monster, Attempt, ItemKind, MonsterKind,
};
use roguelike::entity::{DeathCallback, Fighter, Game, Item, Object};
use roguelike::fov::Visibility;
use roguelike::grid::{create_room, Grid, Rect, Tile};
use roguelike::items::{
    all_on_map, are_monsters_on_map, is_fire_ready, is_potion_ready, is_use_ready,
};
use roguelike::messages::Messages;
use roguelike::progression::{is_descent_ready, is_level_up_ready, threshold_fits, Upgrade};
use roguelike::stats::Stat;

fn player(x: i32, y: i32) -> Object {
    let mut player = Object::new(x, y, '@', "player", white(), true);
    player.alive = true;
    player.fighter = Some(Fighter {
        base_max_hp: 100,
        hp: 60,
        base_defense: 1,
        base_power: 2,
        mana: 12,
        base_max_mana: 20,
        base_spellcast_modifier: 3,
        xp: 0,
        on_death: DeathCallback::Player,
    });
    player
}

fn solid() -> Grid {
    vec![vec![Tile::wall(); 43]; 80]
}

fn game(inventory: Vec<Object>) -> Game {
    let mut map = solid();
    create_room(Rect::new(0, 0, 40, 40), &mut map);
    Game { map, messages: Messages::new(), inventory, dungeon_level: 0 }
}

fn all_seen() -> Visibility {
    let mut fov = Visibility::new();
    for x in 0..80 {
        for y in 0..43 {
            fov.set(x, y, true);
        }
    }
    fov
}

#[test]
fn an_attempt_on_a_free_tile_spawns_the_kind_drawn() {
    let game = game(vec![]);
    let mut objects = vec![player(5, 5)];
    assert!(attempt_monster(Attempt { x: 6, y: 5, index: 0 }, &game.map, &mut objects));
    assert_eq!(objects[1], make_monster(MonsterKind::Troll, 6, 5));
    assert!(attempt_monster(Attempt { x: 7, y: 5, index: 1 }, &game.map, &mut objects));
    assert_eq!(objects[2], make_monster(MonsterKind::Archer, 7, 5));
    assert!(attempt_monster(Attempt { x: 8, y: 5, index: 2 }, &game.map, &mut objects));
    assert_eq!(objects[3], make_monster(MonsterKind::Orc, 8, 5));
    assert!(attempt_item(Attempt { x: 9, y: 5, index: 1 }, &game.map, &mut objects, 6));
    assert_eq!(objects[4], make_item(ItemKind::Helmet, 9, 5, 6));
    assert!(attempt_item(Attempt { x: 9, y: 5, index: 2 }, &game.map, &mut objects, 6));
    assert_eq!(objects[5], make_item(ItemKind::FireballStaff, 9, 5, 6));
    assert_eq!(objects.len(), 6);
}

#[test]
fn an_attempt_on_a_taken_tile_is_given_up() {
    let game = game(vec![]);
    let mut objects = vec![player(5, 5), make_monster(MonsterKind::Orc, 6, 5)];
    assert!(!attempt_monster(Attempt { x: 5, y: 5, index: 2 }, &game.map, &mut objects));
    assert!(!attempt_monster(Attempt { x: 6, y: 5, index: 0 }, &game.map, &mut objects));
    assert!(!attempt_monster(Attempt { x: 0, y: 0, index: 0 }, &game.map, &mut objects));
    assert!(!attempt_item(Attempt { x: 6, y: 5, index: 6 }, &game.map, &mut objects, 0));
    assert!(!attempt_item(Attempt { x: 40, y: 40, index: 6 }, &game.map, &mut objects, 0));
    assert_eq!(objects, vec![player(5, 5), make_monster(MonsterKind::Orc, 6, 5)]);
    for index in 0..10 {
        assert!(attempt_item(Attempt { x: 7, y: 7, index }, &game.map, &mut objects, 0));
    }
    assert_eq!(objects.len(), 12);
    assert_eq!(objects[2].item, Some(Item::Sword));
    assert_eq!(objects[11].item, Some(Item::Confuse));
}

#[test]
fn the_first_room_receives_the_player() {
    let mut map = solid();
    let mut rooms = vec![];
    let mut objects = vec![player(0, 0), make_monster(MonsterKind::Orc, 3, 3)];
    let room = Rect::new(10, 10, 8, 6);
    assert!(add_room(room, true, &mut rooms, &mut map, &mut objects));
    assert_eq!(rooms, vec![room]);
    assert_eq!(objects[0].pos(), (14, 13));
    assert_eq!(objects[1], make_monster(MonsterKind::Orc, 3, 3));
    let mut expected = solid();
    create_room(room, &mut expected);
    assert_eq!(map, expected);
}

#[test]
fn a_room_that_touches_another_is_given_up() {
    let mut map = solid();
    let mut rooms = vec![];
    let mut objects = vec![player(0, 0)];
    add_room(Rect::new(10, 10, 8, 6), true, &mut rooms, &mut map, &mut objects);
    let before = map.clone();
    for room in [Rect::new(18, 10, 6, 6), Rect::new(4, 16, 6, 6), Rect::new(12, 12, 6, 6)] {
        assert!(!add_room(room, false, &mut rooms, &mut map, &mut objects));
    }
    assert_eq!(rooms.len(), 1);
    assert_eq!(map, before);
    assert_eq!(objects[0].pos(), (14, 13));
    assert!(add_room(Rect::new(19, 10, 6, 6), false, &mut rooms, &mut map, &mut objects));
    assert_eq!(rooms.len(), 2);
}

#[test]
fn a_later_room_is_joined_by_a_corridor_as_the_coin_says() {
    for horizontal_first in [true, false] {
        let mut map = solid();
        let mut rooms = vec![];
        let mut objects = vec![player(0, 0)];
        let first = Rect::new(10, 10, 8, 6);
        let second = Rect::new(40, 30, 6, 8);
        add_room(first, true, &mut rooms, &mut map, &mut objects);
        assert!(add_room(second, horizontal_first, &mut rooms, &mut map, &mut objects));
        assert_eq!(objects[0].pos(), (14, 13));
        let (a, b) = (first.center(), second.center());
        assert_eq!((a, b), ((14, 13), (43, 34)));
        for x in 0..80_i32 {
            for y in 0..43_i32 {
                let in_room = |r: &Rect| r.x1 < x && x < r.x2 && r.y1 < y && y < r.y2;
                let on_corridor = if horizontal_first {
                    (y == a.1 && (a.0..=b.0).contains(&x)) || (x == b.0 && (a.1..=b.1).contains(&y))
                } else {
                    (y == b.1 && (a.0..=b.0).contains(&x)) || (x == a.0 && (a.1..=b.1).contains(&y))
                };
                let open = in_room(&first) || in_room(&second) || on_corridor;
                assert_eq!(map[x as usize][y as usize].blocked, !open);
            }
        }
    }
}

#[test]
fn statistics_are_tested_for_their_range() {
    let mut big = make_item(ItemKind::Sword, 0, 0, 0);
    big.equipment.as_mut().unwrap().equipped = true;
    big.equipment.as_mut().unwrap().power_bonus = i32::MAX;
    big.equipment.as_mut().unwrap().mana_usage = -i32::MAX;
    big.equipment.as_mut().unwrap().spellcast_bonus = i32::MAX;
    let game = game(vec![big]);
    let player = player(5, 5);
    assert!(!player.stat_fits(&game, Stat::Power));
    assert!(player.stat_fits(&game, Stat::Defense));
    assert!(!player.spellcast_fits(&game));
    assert!(!player.cast_fits(&game));
    let orc = make_monster(MonsterKind::Orc, 1, 1);
    assert!(orc.stat_fits(&game, Stat::Power) && orc.spellcast_fits(&game) && orc.cast_fits(&game));
    assert!(!can_attack_base(&player, &game, None));
    assert!(can_attack_base(&player, &game, Some(0)));
    assert!(!can_attack_base(&player, &game, Some(1)));
    assert!(can_attack_base(&orc, &game, None));
}

#[test]
fn casting_is_tested_for_the_mana_it_leaves() {
    let mut odd = make_item(ItemKind::FireballStaff, 0, 0, 0);
    odd.equipment.as_mut().unwrap().equipped = true;
    odd.equipment.as_mut().unwrap().mana_usage = i32::MIN;
    let game = game(vec![odd]);
    let player = player(5, 5);
    assert!(player.spellcast_fits(&game));
    assert!(!player.cast_fits(&game));
    assert!(can_attack_base(&player, &game, Some(0)));
    let orc = make_monster(MonsterKind::Orc, 1, 1);
    assert!(!is_attack_ready(&player, &orc, &game, Some(0), 1));
    assert!(is_attack_ready(&player, &orc, &game, None, 1));
}

#[test]
fn an_attack_is_tested_for_what_it_needs() {
    let game = game(vec![make_item(ItemKind::Lightning, 0, 0, 0)]);
    let mut player = player(5, 5);
    let mut orc = make_monster(MonsterKind::Orc, 1, 1);
    assert!(is_attack_ready(&player, &orc, &game, None, 5));
    assert!(is_attack_ready(&player, &orc, &game, Some(0), i32::MAX));
    assert!(!is_attack_ready(&player, &orc, &game, Some(1), 5));
    player.fighter.as_mut().unwrap().xp = i32::MAX;
    assert!(is_attack_ready(&player, &orc, &game, None, 19));
    assert!(!is_attack_ready(&player, &orc, &game, None, 20));
    player.fighter = None;
    assert!(is_attack_ready(&player, &orc, &game, None, 19));
    assert!(!is_attack_ready(&player, &orc, &game, None, 20));
    orc.fighter.as_mut().unwrap().hp = i32::MIN + 5;
    assert!(is_attack_ready(&player, &orc, &game, None, 5));
    assert!(!is_attack_ready(&player, &orc, &game, None, 6));
    assert!(is_attack_ready(&player, &orc, &game, None, -6));
    orc.fighter = None;
    assert!(is_attack_ready(&player, &orc, &game, None, i32::MAX));
}

#[test]
fn the_use_of_an_item_is_tested_for_what_it_needs() {
    let fov = all_seen();
    let mut poison = make_item(ItemKind::Heal, 0, 0, 0);
    poison.item = Some(Item::Heal { amount: i32::MIN });
    let mut spent = make_item(ItemKind::Fireball, 0, 0, 0);
    spent.item = Some(Item::Fireball { charges: i32::MIN, damage: 1 });
    let game = game(vec![
        make_item(ItemKind::Heal, 0, 0, 0),
        poison,
        make_item(ItemKind::Lightning, 0, 0, 0),
        make_item(ItemKind::Confuse, 0, 0, 0),
        spent,
        make_item(ItemKind::Sword, 0, 0, 0),
        make_item(ItemKind::ManaPotion, 0, 0, 0),
    ]);
    let mut objects = vec![player(5, 5), make_monster(MonsterKind::Orc, 6, 5)];
    assert!(is_use_ready(&fov, &game, &objects, 0, None, 0));
    assert!(is_potion_ready(&game, &objects, 0, false) && is_potion_ready(&game, &objects, 6, true));
    assert!(is_use_ready(&fov, &game, &objects, 1, None, 0));
    objects[0].fighter.as_mut().unwrap().hp = -1;
    assert!(!is_use_ready(&fov, &game, &objects, 1, None, 0));
    assert!(!is_potion_ready(&game, &objects, 1, false));
    assert!(is_use_ready(&fov, &game, &objects, 2, None, 5));
    assert!(is_use_ready(&fov, &game, &objects, 3, Some(1), 0));
    assert!(!is_use_ready(&fov, &game, &objects, 3, Some(2), 0));
    assert!(!is_use_ready(&fov, &game, &objects, 4, Some(1), 0));
    assert!(is_use_ready(&fov, &game, &objects, 5, None, 0));
    assert!(is_use_ready(&fov, &game, &objects, 6, None, 0));
    assert!(!is_use_ready(&fov, &game, &objects, 7, None, 0));
    assert!(is_fire_ready(&game, &objects, Some(1), 2, 5));
    assert!(is_fire_ready(&game, &objects, None, 2, 5));
    assert!(!is_fire_ready(&game, &objects, Some(0), 2, 5));
    assert!(!is_fire_ready(&game, &objects, Some(2), 2, 5));
    assert!(!is_fire_ready(&game, &objects, Some(1), 9, 5));
    assert!(!is_fire_ready(&game, &vec![], None, 2, 5));
    objects[1].x = -1;
    assert!(!is_use_ready(&fov, &game, &objects, 2, None, 5));
    assert!(!are_monsters_on_map(&objects) && !all_on_map(&objects));
    objects[1].ai = None;
    assert!(are_monsters_on_map(&objects) && !all_on_map(&objects));
    assert!(is_use_ready(&fov, &game, &objects, 2, None, 5));
    let mut narrow = Visibility::new();
    narrow.cells.pop();
    assert!(!narrow.covers_level() && fov.covers_level());
    assert!(!is_use_ready(&narrow, &game, &objects, 2, None, 5));
}

#[test]
fn progression_is_tested_for_its_range() {
    assert!(threshold_fits(0) && threshold_fits(-1) && threshold_fits(14_316_555));
    assert!(!threshold_fits(14_316_556) && !threshold_fits(i32::MIN) && !threshold_fits(i32::MAX));
    let mut player = player(5, 5);
    assert!(is_level_up_ready(&player, Upgrade::Constitution));
    player.fighter.as_mut().unwrap().xp = 350;
    player.fighter.as_mut().unwrap().base_power = i32::MAX;
    assert!(is_level_up_ready(&player, Upgrade::Constitution));
    assert!(!is_level_up_ready(&player, Upgrade::Strength));
    player.fighter.as_mut().unwrap().hp = i32::MAX - 19;
    assert!(!is_level_up_ready(&player, Upgrade::Constitution));
    assert!(is_level_up_ready(&player, Upgrade::ArcanePower));
    player.fighter.as_mut().unwrap().xp = 349;
    assert!(is_level_up_ready(&player, Upgrade::Strength));
    player.level = i32::MAX;
    assert!(!is_level_up_ready(&player, Upgrade::Agility));
    player.fighter = None;
    player.level = 0;
    assert!(!is_level_up_ready(&player, Upgrade::Agility));
}

#[test]
fn a_descent_is_tested_for_its_range() {
    let mut game = game(vec![]);
    let mut objects = vec![player(5, 5)];
    assert!(is_descent_ready(&game, &objects));
    game.dungeon_level = u32::MAX;
    assert!(!is_descent_ready(&game, &objects));
    game.dungeon_level = 7;
    objects[0].fighter.as_mut().unwrap().base_max_hp = -100;
    objects[0].fighter.as_mut().unwrap().hp = i32::MIN + 49;
    assert!(!is_descent_ready(&game, &objects));
    objects[0].fighter.as_mut().unwrap().hp = i32::MIN + 50;
    assert!(is_descent_ready(&game, &objects));
}

#[test]
fn a_command_is_tested_for_what_it_needs() {
    let fov = all_seen();
    let mut game = game(vec![make_item(ItemKind::Heal, 0, 0, 0)]);
    let mut objects = vec![
        player(1, 1),
        make_monster(MonsterKind::Orc, 2, 1),
        Object::new(1, 1, '<', "stairs", white(), false),
    ];
    let ready = |c: Command, game: &Game, objects: &Vec<Object>, damage: i32| {
        is_command_ready(c, &fov, game, objects, damage)
    };
    assert!(ready(Command::Move { dx: 1, dy: 0 }, &game, &objects, 5));
    assert!(ready(Command::Move { dx: -1, dy: 0 }, &game, &objects, 5));
    assert!(!ready(Command::Move { dx: -2, dy: 0 }, &game, &objects, 5));
    assert!(!ready(Command::Move { dx: 0, dy: 0 }, &game, &objects, 5));
    assert!(!ready(Command::Move { dx: i32::MAX, dy: 0 }, &game, &objects, 5));
    assert!(ready(Command::Drop { inventory_id: Some(0) }, &game, &objects, 0));
    assert!(!ready(Command::Drop { inventory_id: Some(1) }, &game, &objects, 0));
    assert!(ready(Command::Drop { inventory_id: None }, &game, &objects, 0));
    assert!(ready(Command::Use { inventory_id: Some(0), target: None }, &game, &objects, 0));
    assert!(!ready(Command::Use { inventory_id: Some(3), target: None }, &game, &objects, 0));
    assert!(ready(Command::Fire { target: Some(9) }, &game, &objects, 0));
    assert!(ready(Command::Descend, &game, &objects, 0));
    game.dungeon_level = u32::MAX;
    assert!(!ready(Command::Descend, &game, &objects, 0));
    objects[0].x = 2;
    assert!(ready(Command::Descend, &game, &objects, 0));
    objects[0].fighter.as_mut().unwrap().xp = i32::MAX;
    objects[0].x = 1;
    assert!(ready(Command::Move { dx: 1, dy: 0 }, &game, &objects, 19));
    assert!(!ready(Command::Move { dx: 1, dy: 0 }, &game, &objects, 20));
    for c in [Command::PickUp, Command::Wait, Command::Quit, Command::Idle] {
        assert!(ready(c, &game, &objects, 0));
    }
    objects[0].alive = false;
    assert!(ready(Command::Move { dx: -2, dy: 0 }, &game, &objects, 5));
    assert!(!ready(Command::Quit, &game, &vec![], 0));
    game.map.pop();
    objects[0].alive = true;
    assert!(!ready(Command::Move { dx: 1, dy: 0 }, &game, &objects, 5));
}
