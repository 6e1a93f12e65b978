use roguelike::color::white;
use roguelike::command::{after_action, perform, Command};
use roguelike::items::PlayerAction;
use roguelike::display::{inventory_labels, mark_explored, names_at, to_draw};
use roguelike::encounter::{make_item, make_monster, ItemKind, MonsterKind};
use roguelike::entity::{Ai, DeathCallback, Fighter, Game, Object};
use roguelike::fov::Visibility;
use roguelike::grid::{create_room, has_level_size, is_walled, Rect, Tile};
use roguelike::messages::Messages;
use roguelike::progression::new_game;
use roguelike::turn::{ai_turns, can_take_turns, held_in_right_hand, item_underfoot, on_stairs};

fn player(x: i32, y: i32) -> Object {
    let mut player = Object::new(x, y, '@', "player", white(), true);
    player.alive = true;
    player.fighter = Some(Fighter {
        base_max_hp: 100,
        hp: 30,
        base_defense: 1,
        base_power: 2,
        mana: 12,
        base_max_mana: 20,
        base_spellcast_modifier: 3,
        xp: 0,
        on_death: DeathCallback::Player,
    });
    player
}

fn game(inventory: Vec<Object>) -> Game {
    let mut map = vec![vec![Tile::wall(); 43]; 80];
    create_room(Rect::new(0, 0, 40, 40), &mut map);
    Game { map, messages: Messages::new(), inventory, dungeon_level: 0 }
}

fn all_seen() -> Visibility {
    let mut fov = Visibility::new();
    for x in 0..80 {
        for y in 0..43 {
            fov.set(x, y, true);
        }
    }
    fov
}

#[test]
fn the_first_item_underfoot_is_picked() {
    let mut objects = vec![
        player(5, 5),
        make_monster(MonsterKind::Orc, 5, 5),
        make_item(ItemKind::Heal, 5, 6, 0),
        make_item(ItemKind::Sword, 5, 5, 0),
        make_item(ItemKind::Heal, 5, 5, 0),
    ];
    assert_eq!(item_underfoot(&objects), Some(3));
    objects[0].y = 6;
    assert_eq!(item_underfoot(&objects), Some(2));
    objects[0].y = 7;
    assert_eq!(item_underfoot(&objects), None);
}

#[test]
fn stairs_are_found_underfoot() {
    let mut objects = vec![player(5, 5), Object::new(5, 6, '<', "stairs", white(), false)];
    assert!(!on_stairs(&objects));
    objects[0].y = 6;
    assert!(on_stairs(&objects));
    objects[1].name = "stair".to_string();
    assert!(!on_stairs(&objects));
}

#[test]
fn what_is_held_in_the_right_hand_is_listed() {
    let mut staff = make_item(ItemKind::FireballStaff, 0, 0, 0);
    staff.equipment.as_mut().unwrap().equipped = true;
    let mut shield = make_item(ItemKind::Shield, 0, 0, 0);
    shield.equipment.as_mut().unwrap().equipped = true;
    let mut ghost = make_item(ItemKind::Sword, 0, 0, 0);
    ghost.equipment.as_mut().unwrap().equipped = true;
    ghost.item = None;
    let mut inventory = vec![make_item(ItemKind::Sword, 0, 0, 0), shield, ghost, staff];
    assert_eq!(held_in_right_hand(&inventory), vec![3]);
    inventory.pop();
    assert_eq!(held_in_right_hand(&inventory), Vec::<usize>::new());
}

#[test]
fn every_monster_takes_one_step_in_the_order_of_the_list() {
    let mut game = game(vec![]);
    let fov = all_seen();
    let mut confused = make_monster(MonsterKind::Troll, 20, 20);
    confused.ai = Some(Ai::Confused { previous_ai: Box::new(Ai::Basic), num_turns: 1 });
    let mut objects = vec![
        player(5, 5),
        make_monster(MonsterKind::Orc, 6, 5),
        make_item(ItemKind::Heal, 5, 5, 0),
        make_monster(MonsterKind::Orc, 5, 6),
        confused,
        make_monster(MonsterKind::Archer, 5, 20),
        make_monster(MonsterKind::Orc, 4, 5),
    ];
    assert!(can_take_turns(&game, &objects));
    ai_turns(&fov, &mut game, &mut objects, &vec![0, 10, 0, 25, 7, 7, 7]);
    assert!(can_take_turns(&game, &objects));
    let texts: Vec<String> = game.messages.iter().map(|l| l.0.clone()).collect();
    assert_eq!(
        texts,
        vec![
            "orc attacks player for 10 hp ",
            "orc attacks player for 25 hp ",
            "You died!",
            "the troll is no longer confused",
        ]
    );
    assert!(!objects[0].alive);
    assert_eq!(objects[0].fighter.unwrap().hp, -5);
    assert_eq!(objects[4].ai, Some(Ai::Basic));
    assert_eq!(objects[5].pos(), (5, 19));
    assert_eq!(objects[6].fighter.unwrap().xp, 35);
    assert_eq!(objects[3].fighter.unwrap().xp, 35);
    assert_eq!(objects[2], make_item(ItemKind::Heal, 5, 5, 0));
}

#[test]
fn a_new_game_is_fit_for_the_monsters_turn() {
    for _ in 0..10 {
        let (mut game, mut objects) = new_game();
        assert!(has_level_size(&game.map) && is_walled(&game.map));
        assert!(can_take_turns(&game, &objects));
        let rolls = vec![1; objects.len()];
        for _ in 0..20 {
            ai_turns(&all_seen(), &mut game, &mut objects, &rolls);
            assert!(can_take_turns(&game, &objects));
        }
    }
}

#[test]
fn a_level_that_is_not_fit_is_told_apart() {
    let game = game(vec![]);
    assert!(!can_take_turns(&game, &vec![]));
    let mut objects = vec![player(5, 5), make_monster(MonsterKind::Orc, 6, 5)];
    assert!(can_take_turns(&game, &objects));
    objects[1].x = 0;
    assert!(!can_take_turns(&game, &objects));
    objects[1].ai = None;
    assert!(can_take_turns(&game, &objects));
    objects[1] = make_monster(MonsterKind::Orc, 6, 5);
    objects[1].fighter = None;
    assert!(!can_take_turns(&game, &objects));
    objects[1] = make_monster(MonsterKind::Orc, 6, 5);
    objects[0].fighter.as_mut().unwrap().xp = i32::MAX;
    assert!(!can_take_turns(&game, &objects));
    objects[0].fighter.as_mut().unwrap().hp = 0;
    assert!(can_take_turns(&game, &objects));
    objects[0].ai = Some(Ai::Basic);
    assert!(!can_take_turns(&game, &objects));
    objects[0].ai = None;
    objects[0].x = 80;
    assert!(!can_take_turns(&game, &objects));
    objects[0].x = 5;
    let mut open = self::game(vec![]);
    open.map[0][7] = Tile::empty();
    assert!(!is_walled(&open.map));
    assert!(!can_take_turns(&open, &objects));
    open.map[0][7] = Tile::wall();
    open.map[79].pop();
    assert!(!has_level_size(&open.map));
    assert!(!can_take_turns(&open, &objects));
}

#[test]
fn tiles_in_view_become_explored() {
    let mut game = game(vec![]);
    let mut fov = Visibility::new();
    fov.set(3, 4, true);
    fov.set(0, 0, true);
    mark_explored(&mut game.map, &fov);
    assert_eq!(game.map[3][4], Tile { blocked: false, block_sight: false, explored: true });
    assert_eq!(game.map[0][0], Tile { blocked: true, block_sight: true, explored: true });
    fov.set(3, 4, false);
    fov.set(5, 5, true);
    mark_explored(&mut game.map, &fov);
    let explored = game.map.iter().flatten().filter(|t| t.explored).count();
    assert_eq!(explored, 3);
    assert!(game.map[3][4].explored && game.map[5][5].explored);
}

#[test]
fn what_blocks_is_drawn_over_what_does_not() {
    let mut game = game(vec![]);
    let mut fov = Visibility::new();
    fov.set(5, 5, true);
    fov.set(6, 6, true);
    let mut stairs = Object::new(9, 9, '<', "stairs", white(), false);
    stairs.always_visible = true;
    let hidden = make_monster(MonsterKind::Troll, 9, 9);
    let objects = vec![
        player(5, 5),
        make_item(ItemKind::Heal, 5, 5, 0),
        make_monster(MonsterKind::Orc, 6, 6),
        stairs,
        hidden,
        make_item(ItemKind::Sword, 6, 6, 0),
    ];
    assert_eq!(to_draw(&objects, &game.map, &fov), vec![1, 5, 0, 2]);
    game.map[9][9].explored = true;
    assert_eq!(to_draw(&objects, &game.map, &fov), vec![1, 3, 5, 0, 2]);
    assert_eq!(to_draw(&objects, &game.map, &Visibility::new()), vec![3]);
}

#[test]
fn the_menu_shows_where_things_are_worn() {
    assert_eq!(inventory_labels(&vec![]), vec!["Inventory is empty"]);
    let mut shield = make_item(ItemKind::Shield, 0, 0, 0);
    shield.equipment.as_mut().unwrap().equipped = true;
    let inventory = vec![make_item(ItemKind::Sword, 0, 0, 0), shield, make_item(ItemKind::Heal, 0, 0, 0)];
    assert_eq!(inventory_labels(&inventory), vec!["sword", "shield (on left hand)", "healing potion"]);
}

#[test]
fn names_on_a_tile_in_view_are_joined() {
    let mut fov = Visibility::new();
    fov.set(5, 5, true);
    let objects = vec![
        player(5, 5),
        make_monster(MonsterKind::Orc, 6, 6),
        make_item(ItemKind::Heal, 5, 5, 0),
        make_item(ItemKind::Sword, 5, 5, 0),
    ];
    assert_eq!(names_at(5, 5, &objects, &fov), "player, healing potion, sword");
    assert_eq!(names_at(6, 6, &objects, &fov), "");
    assert_eq!(names_at(5, 6, &objects, &fov), "");
    assert_eq!(names_at(-1, 5, &objects, &fov), "");
    assert_eq!(names_at(5, 43, &objects, &fov), "");
    fov.set(6, 6, true);
    assert_eq!(names_at(6, 6, &objects, &fov), "orc");
}

#[test]
fn commands_are_carried_out() {
    let fov = all_seen();
    let mut staff = make_item(ItemKind::FireballStaff, 0, 0, 0);
    staff.equipment.as_mut().unwrap().equipped = true;
    let mut game = game(vec![make_item(ItemKind::Heal, 0, 0, 0)]);
    let mut objects = vec![
        player(5, 5),
        make_monster(MonsterKind::Orc, 6, 5),
        make_item(ItemKind::Sword, 5, 6, 0),
        Object::new(5, 7, '<', "stairs", white(), false),
    ];
    let act = |c: Command, game: &mut Game, objects: &mut Vec<Object>, damage: i32| {
        perform(c, &fov, game, objects, damage)
    };
    assert_eq!(act(Command::Idle, &mut game, &mut objects, 0), PlayerAction::DidntTakeTurn);
    assert_eq!(act(Command::Fire { target: Some(1) }, &mut game, &mut objects, 5), PlayerAction::DidntTakeTurn);
    assert_eq!(act(Command::Move { dx: 1, dy: 0 }, &mut game, &mut objects, 4), PlayerAction::TookTurn);
    assert_eq!(objects[1].fighter.unwrap().hp, 16);
    assert_eq!(act(Command::Move { dx: 0, dy: 1 }, &mut game, &mut objects, 4), PlayerAction::TookTurn);
    assert_eq!(objects[0].pos(), (5, 6));
    assert_eq!(act(Command::Descend, &mut game, &mut objects, 0), PlayerAction::DidntTakeTurn);
    assert_eq!(game.dungeon_level, 0);
    assert_eq!(act(Command::PickUp, &mut game, &mut objects, 0), PlayerAction::DidntTakeTurn);
    assert_eq!(game.inventory.len(), 2);
    assert!(game.inventory[1].equipment.unwrap().equipped);
    assert_eq!(act(Command::PickUp, &mut game, &mut objects, 0), PlayerAction::DidntTakeTurn);
    assert_eq!(act(Command::Fire { target: None }, &mut game, &mut objects, 0), PlayerAction::TookTurn);
    assert!(!game.inventory[1].equipment.unwrap().equipped);
    game.inventory.push(staff);
    assert_eq!(act(Command::Fire { target: Some(1) }, &mut game, &mut objects, 6), PlayerAction::TookTurn);
    assert_eq!(objects[1].fighter.unwrap().hp, 10);
    assert_eq!(act(Command::Fire { target: None }, &mut game, &mut objects, 6), PlayerAction::TookTurn);
    game.inventory[1].equipment.as_mut().unwrap().equipped = true;
    assert_eq!(act(Command::Fire { target: Some(1) }, &mut game, &mut objects, 6), PlayerAction::DidntTakeTurn);
    assert_eq!(objects[1].fighter.unwrap().hp, 10);
    assert_eq!(
        act(Command::Use { inventory_id: Some(0), target: None }, &mut game, &mut objects, 0),
        PlayerAction::TookTurn
    );
    assert_eq!(
        act(Command::Use { inventory_id: None, target: None }, &mut game, &mut objects, 0),
        PlayerAction::DidntTakeTurn
    );
    assert_eq!(act(Command::Drop { inventory_id: None }, &mut game, &mut objects, 0), PlayerAction::DidntTakeTurn);
    assert_eq!(act(Command::Drop { inventory_id: Some(0) }, &mut game, &mut objects, 0), PlayerAction::DidntTakeTurn);
    assert_eq!(objects.last().unwrap().name, "sword");
    assert_eq!(act(Command::Wait, &mut game, &mut objects, 0), PlayerAction::TookTurn);
    let texts: Vec<String> = game.messages.iter().map(|l| l.0.clone()).collect();
    assert_eq!(
        texts,
        vec![
            "You do not hold anything in your right hand.",
            "player attacks orc for 4 hp ",
            "You picked up sword",
            "Equipped sword on right hand",
            "Dequipped sword from slot right hand",
            "player attacks orc for 6 hp with fireball staff",
            "You need to choose a target",
            "Cancelled",
            "your wounds start to feel better",
            "healing potion is used up",
            "You dropped a sword",
            "Dequipped sword from slot right hand",
            "You chose to sleep thos round",
        ]
    );
    assert_eq!(act(Command::Move { dx: 0, dy: 1 }, &mut game, &mut objects, 0), PlayerAction::TookTurn);
    assert_eq!(act(Command::Descend, &mut game, &mut objects, 0), PlayerAction::DidntTakeTurn);
    assert_eq!(game.dungeon_level, 1);
    assert_eq!(objects[0].fighter.unwrap().hp, 100);
    objects[0].alive = false;
    let before = objects[0].pos();
    assert_eq!(act(Command::Wait, &mut game, &mut objects, 0), PlayerAction::DidntTakeTurn);
    assert_eq!(act(Command::Move { dx: 1, dy: 0 }, &mut game, &mut objects, 0), PlayerAction::DidntTakeTurn);
    assert_eq!(objects[0].pos(), before);
    assert_eq!(act(Command::Quit, &mut game, &mut objects, 0), PlayerAction::Exit);
    let rolls = vec![0; objects.len()];
    assert!(!after_action(PlayerAction::TookTurn, &fov, &mut game, &mut objects, &rolls));
    objects[0].alive = true;
    assert!(!after_action(PlayerAction::DidntTakeTurn, &fov, &mut game, &mut objects, &rolls));
    assert!(!after_action(PlayerAction::Exit, &fov, &mut game, &mut objects, &rolls));
    assert!(after_action(PlayerAction::TookTurn, &fov, &mut game, &mut objects, &rolls));
}
