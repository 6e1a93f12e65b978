use roguelike::color::{sky, white, yellow};
use roguelike::entity::{Equipment, Game, Item, Object, Slot};
use roguelike::equipment::get_equipped_in_slot;
use roguelike::grid::Tile;
use roguelike::inventory::{drop_item, pick_item_up, toggle_equipment, UseResult};
use roguelike::messages::Messages;

fn gear(name: &str, slot: Slot, equipped: bool) -> Object {
    let mut object = Object::new(0, 0, '/', name, sky(), false);
    object.item = Some(Item::Sword);
    object.equipment = Some(Equipment {
        slot,
        equipped,
        power_bonus: 1,
        defense_bonus: 0,
        max_hp_bonus: 0,
        max_mana_bonus: 0,
        spellcast_bonus: 0,
        mana_usage: 0,
    });
    object
}

fn potion() -> Object {
    let mut object = Object::new(7, 8, '!', "healing potion", white(), false);
    object.item = Some(Item::Heal { amount: 40 });
    object
}

fn game(inventory: Vec<Object>) -> Game {
    Game {
        map: vec![vec![Tile::wall(); 43]; 80],
        messages: Messages::new(),
        inventory,
        dungeon_level: 0,
    }
}

fn log(game: &Game) -> Vec<(String, roguelike::color::Color)> {
    game.messages.entries().clone()
}

fn worn_per_slot(inventory: &[Object]) -> Vec<usize> {
    [Slot::LeftHand, Slot::RightHand, Slot::Head, Slot::Body]
        .iter()
        .map(|slot| {
            inventory
                .iter()
                .filter(|o| o.equipment.map_or(false, |e| e.equipped && e.slot == *slot))
                .count()
        })
        .collect()
}

#[test]
fn slots_have_names() {
    assert_eq!(Slot::LeftHand.name(), "left hand");
    assert_eq!(Slot::RightHand.name(), "right hand");
    assert_eq!(Slot::Head.name(), "head");
    assert_eq!(Slot::Body.name(), "body");
}

#[test]
fn the_first_wearer_of_a_slot_is_found() {
    let inventory = vec![
        potion(),
        gear("a", Slot::Head, false),
        gear("b", Slot::Head, true),
        gear("c", Slot::Head, true),
        gear("d", Slot::Body, true),
    ];
    assert_eq!(get_equipped_in_slot(Slot::Head, &inventory), Some(2));
    assert_eq!(get_equipped_in_slot(Slot::Body, &inventory), Some(4));
    assert_eq!(get_equipped_in_slot(Slot::LeftHand, &inventory), None);
    assert_eq!(get_equipped_in_slot(Slot::Head, &[]), None);
}

#[test]
fn equipping_marks_and_reports() {
    let mut messages = Messages::new();
    let mut sword = gear("sword", Slot::RightHand, false);
    sword.equip(&mut messages);
    assert!(sword.equipment.unwrap().equipped);
    assert_eq!(messages.entries().clone(), vec![("Equipped sword on right hand".to_string(), yellow())]);
    sword.equip(&mut messages);
    assert!(sword.equipment.unwrap().equipped);
    assert_eq!(messages.len(), 1);
    sword.dequip(&mut messages);
    assert!(!sword.equipment.unwrap().equipped);
    assert_eq!(
        messages.entries()[1],
        ("Dequipped sword from slot right hand".to_string(), yellow())
    );
    sword.dequip(&mut messages);
    assert_eq!(messages.len(), 2);
    assert_eq!(sword.equipment.unwrap().power_bonus, 1);
}

#[test]
fn what_is_no_item_cannot_be_equipped() {
    let mut messages = Messages::new();
    let mut thing = gear("thing", Slot::Head, false);
    thing.item = None;
    let described = format!("{:?}", thing);
    assert!(described.starts_with("Object { x: 0, y: 0, char: '/', color: Color { r: 0, g: 191, b: 255 }, name: \"thing\""));
    thing.equip(&mut messages);
    assert!(!thing.equipment.unwrap().equipped);
    thing.equipment.as_mut().unwrap().equipped = true;
    let worn = format!("{:?}", thing);
    thing.dequip(&mut messages);
    assert!(thing.equipment.unwrap().equipped);
    assert_eq!(
        messages.entries().clone(),
        vec![
            (format!("Can't equip {} because it is not an Item", described), white()),
            (format!("Can't dequip {} because it is not an Item", worn), white()),
        ]
    );
}

#[test]
fn what_is_no_equipment_cannot_be_equipped() {
    let mut messages = Messages::new();
    let mut potion = potion();
    let described = format!("{:?}", potion);
    potion.equip(&mut messages);
    potion.dequip(&mut messages);
    assert_eq!(potion.equipment, None);
    assert_eq!(
        messages.entries().clone(),
        vec![
            (format!("Cant equip {} because it is not an Equipment", described), white()),
            (format!("Cant deequip {} because it is not an Equipment", described), white()),
        ]
    );
}

#[test]
fn toggling_takes_off_what_is_worn() {
    let mut game = game(vec![gear("sword", Slot::RightHand, true)]);
    assert_eq!(toggle_equipment(0, &mut game), UseResult::Used);
    assert!(!game.inventory[0].equipment.unwrap().equipped);
    assert_eq!(log(&game), vec![("Dequipped sword from slot right hand".to_string(), yellow())]);
}

#[test]
fn toggling_first_takes_off_the_occupant_of_the_slot() {
    let mut game = game(vec![
        gear("sword", Slot::RightHand, true),
        gear("shield", Slot::LeftHand, true),
        gear("axe", Slot::RightHand, false),
    ]);
    assert_eq!(toggle_equipment(2, &mut game), UseResult::Used);
    assert!(!game.inventory[0].equipment.unwrap().equipped);
    assert!(game.inventory[1].equipment.unwrap().equipped);
    assert!(game.inventory[2].equipment.unwrap().equipped);
    assert_eq!(
        log(&game),
        vec![
            ("Dequipped sword from slot right hand".to_string(), yellow()),
            ("Equipped axe on right hand".to_string(), yellow()),
        ]
    );
    assert_eq!(worn_per_slot(&game.inventory), vec![1, 1, 0, 0]);
}

#[test]
fn toggling_what_is_no_equipment_is_cancelled() {
    let mut game = game(vec![potion()]);
    assert_eq!(toggle_equipment(0, &mut game), UseResult::Cancelled);
    assert!(log(&game).is_empty());
    assert_eq!(game.inventory, vec![potion()]);
}

#[test]
fn no_sequence_of_toggles_fills_a_slot_twice() {
    let mut game = game(vec![
        gear("a", Slot::RightHand, false),
        gear("b", Slot::RightHand, true),
        gear("c", Slot::LeftHand, false),
        gear("d", Slot::LeftHand, false),
        potion(),
        gear("e", Slot::Head, false),
        gear("f", Slot::RightHand, false),
    ]);
    let mut pick: usize = 3;
    for round in 0..500 {
        pick = (pick * 31 + round * 7 + 1) % game.inventory.len();
        toggle_equipment(pick, &mut game);
        assert!(worn_per_slot(&game.inventory).iter().all(|n| *n <= 1));
    }
}

#[test]
fn picking_up_moves_the_item_to_the_inventory() {
    let mut game = game(vec![]);
    let mut objects = vec![
        Object::new(7, 8, '@', "player", white(), true),
        potion(),
        gear("sword", Slot::RightHand, false),
        gear("axe", Slot::RightHand, false),
    ];
    pick_item_up(1, &mut game, &mut objects);
    assert_eq!(game.inventory, vec![potion()]);
    let on_level: Vec<&str> = objects.iter().map(|o| o.name.as_str()).collect();
    assert_eq!(on_level, vec!["player", "axe", "sword"]);
    assert_eq!(log(&game), vec![("You picked up healing potion".to_string(), yellow())]);
}

#[test]
fn picked_up_equipment_is_put_on_an_empty_slot_only() {
    let mut game = game(vec![]);
    let mut objects = vec![
        Object::new(7, 8, '@', "player", white(), true),
        gear("sword", Slot::RightHand, false),
        gear("axe", Slot::RightHand, false),
    ];
    pick_item_up(1, &mut game, &mut objects);
    pick_item_up(1, &mut game, &mut objects);
    assert_eq!(objects.len(), 1);
    assert!(game.inventory[0].equipment.unwrap().equipped);
    assert!(!game.inventory[1].equipment.unwrap().equipped);
    assert_eq!(
        log(&game),
        vec![
            ("You picked up sword".to_string(), yellow()),
            ("Equipped sword on right hand".to_string(), yellow()),
            ("You picked up axe".to_string(), yellow()),
        ]
    );
}

#[test]
fn a_full_inventory_takes_no_more() {
    let mut game = game((0..26).map(|_| potion()).collect());
    let mut objects =
        vec![Object::new(7, 8, '@', "player", white(), true), gear("sword", Slot::Head, false)];
    pick_item_up(1, &mut game, &mut objects);
    assert_eq!(game.inventory.len(), 26);
    assert!(game.inventory.iter().all(|o| *o == potion()));
    assert_eq!(objects.len(), 2);
    assert_eq!(objects[1], gear("sword", Slot::Head, false));
    assert_eq!(
        log(&game),
        vec![("Cannot pick up sword since inventory is full".to_string(), yellow())]
    );
}

#[test]
fn the_last_free_place_can_be_filled() {
    let mut game = game((0..25).map(|_| potion()).collect());
    let mut objects = vec![Object::new(7, 8, '@', "player", white(), true), potion(), potion()];
    pick_item_up(1, &mut game, &mut objects);
    assert_eq!((game.inventory.len(), objects.len()), (26, 2));
    pick_item_up(1, &mut game, &mut objects);
    assert_eq!((game.inventory.len(), objects.len()), (26, 2));
}

#[test]
fn dropping_puts_the_item_at_the_players_feet_taken_off() {
    let mut game = game(vec![potion(), gear("sword", Slot::RightHand, true), potion()]);
    let mut objects = vec![Object::new(12, 34, '@', "player", white(), true)];
    drop_item(1, &mut game, &mut objects);
    assert_eq!(game.inventory, vec![potion(), potion()]);
    assert_eq!(objects.len(), 2);
    assert_eq!((objects[1].x, objects[1].y, objects[1].name.as_str()), (12, 34, "sword"));
    assert!(!objects[1].equipment.unwrap().equipped);
    assert_eq!(
        log(&game),
        vec![
            ("You dropped a sword".to_string(), yellow()),
            ("Dequipped sword from slot right hand".to_string(), yellow()),
        ]
    );
    drop_item(0, &mut game, &mut objects);
    assert_eq!(objects[2].item, Some(Item::Heal { amount: 40 }));
    assert_eq!((objects[2].x, objects[2].y), (12, 34));
    assert_eq!(log(&game).len(), 3);
    assert_eq!(log(&game)[2], ("You dropped a healing potion".to_string(), yellow()));
}
