use roguelike::color::{sky, violet, white, yellow};
use roguelike::entity::{DeathCallback, Equipment, Fighter, Item, Object, Slot};
use roguelike::progression::{level_up_xp, new_game, next_level, Upgrade};

fn fighter(xp: i32) -> Fighter {
    Fighter {
        base_max_hp: 100,
        hp: 70,
        base_defense: 1,
        base_power: 2,
        mana: 5,
        base_max_mana: 20,
        base_spellcast_modifier: 3,
        xp,
        on_death: DeathCallback::Player,
    }
}

fn party(xp: i32, level: i32) -> Vec<Object> {
    let mut player = Object::new(5, 5, '@', "player", white(), true);
    player.alive = true;
    player.level = level;
    player.fighter = Some(fighter(xp));
    vec![player, Object::new(1, 1, '<', "stairs", white(), false)]
}

#[test]
fn the_threshold_grows_with_the_level() {
    assert_eq!(level_up_xp(0), 350);
    assert_eq!(level_up_xp(1), 500);
    assert_eq!(level_up_xp(2), 650);
    assert_eq!(level_up_xp(10), 1850);
    assert_eq!(level_up_xp(-1), 200);
}

#[test]
fn the_menu_lists_five_upgrades() {
    assert_eq!(Upgrade::from_index(0), Some(Upgrade::Constitution));
    assert_eq!(Upgrade::from_index(1), Some(Upgrade::Strength));
    assert_eq!(Upgrade::from_index(2), Some(Upgrade::Agility));
    assert_eq!(Upgrade::from_index(3), Some(Upgrade::ArcaneKnowledge));
    assert_eq!(Upgrade::from_index(4), Some(Upgrade::ArcanePower));
    assert_eq!(Upgrade::from_index(5), None);
}

#[test]
fn the_gate_opens_at_350_and_next_at_500() {
    let mut objects = party(349, 0);
    assert!(!Object::can_level_up(&objects));
    objects[0].get_xp(1);
    assert!(Object::can_level_up(&objects));
    Object::level_up(&mut objects, Upgrade::Strength);
    assert_eq!(objects[0].level, 1);
    assert_eq!(objects[0].fighter.unwrap().xp, 0);
    assert!(!Object::can_level_up(&objects));
    objects[0].get_xp(499);
    assert!(!Object::can_level_up(&objects));
    objects[0].get_xp(1);
    assert!(Object::can_level_up(&objects));
    Object::level_up(&mut objects, Upgrade::Strength);
    assert_eq!((objects[0].level, objects[0].fighter.unwrap().xp), (2, 0));
    assert_eq!(objects[0].fighter.unwrap().base_power, 4);
}

#[test]
fn experience_beyond_the_threshold_is_carried_over() {
    let mut objects = party(900, 0);
    Object::level_up(&mut objects, Upgrade::Agility);
    assert_eq!((objects[0].level, objects[0].fighter.unwrap().xp), (1, 550));
    assert!(Object::can_level_up(&objects));
    Object::level_up(&mut objects, Upgrade::Agility);
    assert_eq!((objects[0].level, objects[0].fighter.unwrap().xp), (2, 50));
    assert!(!Object::can_level_up(&objects));
    assert_eq!(objects[0].fighter.unwrap().base_defense, 3);
}

#[test]
fn no_level_up_before_it_is_due() {
    let mut objects = party(349, 0);
    Object::level_up(&mut objects, Upgrade::Constitution);
    assert_eq!(objects, party(349, 0));
}

#[test]
fn each_upgrade_raises_its_statistic() {
    let raised = |upgrade: Upgrade| {
        let mut objects = party(350, 0);
        Object::level_up(&mut objects, upgrade);
        assert_eq!(objects[1], party(350, 0)[1]);
        assert_eq!(objects[0].level, 1);
        objects[0].fighter.unwrap()
    };
    assert_eq!(raised(Upgrade::Constitution), Fighter { base_max_hp: 120, hp: 90, ..fighter(0) });
    assert_eq!(raised(Upgrade::Strength), Fighter { base_power: 3, ..fighter(0) });
    assert_eq!(raised(Upgrade::Agility), Fighter { base_defense: 2, ..fighter(0) });
    assert_eq!(
        raised(Upgrade::ArcaneKnowledge),
        Fighter { base_spellcast_modifier: 4, ..fighter(0) }
    );
    assert_eq!(raised(Upgrade::ArcanePower), Fighter { base_max_mana: 40, mana: 25, ..fighter(0) });
}

#[test]
fn a_new_game_starts_on_the_first_level_with_a_dagger() {
    let (game, objects) = new_game();
    assert_eq!(game.dungeon_level, 0);
    assert_eq!(
        game.messages.entries().clone(),
        vec![("player has spawned in a dungeon".to_string(), yellow())]
    );
    let mut dagger = Object::new(0, 0, '-', "dagger", sky(), false);
    dagger.item = Some(Item::Sword);
    dagger.equipment = Some(Equipment {
        slot: Slot::LeftHand,
        equipped: true,
        power_bonus: 2,
        defense_bonus: 0,
        max_hp_bonus: 0,
        max_mana_bonus: 0,
        spellcast_bonus: 0,
        mana_usage: 0,
    });
    assert_eq!(game.inventory, vec![dagger]);
    let player = &objects[0];
    assert_eq!((player.char, player.name.as_str(), player.color), ('@', "player", white()));
    assert!(player.alive && player.blocks);
    assert_eq!(
        player.fighter,
        Some(Fighter {
            base_max_hp: 100,
            hp: 100,
            base_defense: 1,
            base_power: 2,
            mana: 20,
            base_max_mana: 20,
            base_spellcast_modifier: 3,
            xp: 0,
            on_death: DeathCallback::Player,
        })
    );
    assert!(!game.map[player.x as usize][player.y as usize].blocked);
    assert_eq!(player.power(&game), 4);
    assert_eq!(objects.last().unwrap().name, "stairs");
}

#[test]
fn descending_rests_the_player_and_makes_a_new_level() {
    let (mut game, mut objects) = new_game();
    objects[0].fighter.as_mut().unwrap().hp = 30;
    next_level(&mut game, &mut objects);
    assert_eq!(game.dungeon_level, 1);
    assert_eq!(objects[0].fighter.unwrap().hp, 80);
    assert_eq!(game.inventory.len(), 1);
    assert_eq!(
        game.messages.entries()[1..].to_vec(),
        vec![
            ("You take a moment to rest, and recover your strength.".to_string(), violet()),
            (
                "After a rare moment of peace, you decent deeper into the heart of the dungeon..."
                    .to_string(),
                yellow()
            ),
        ]
    );
    next_level(&mut game, &mut objects);
    assert_eq!(game.dungeon_level, 2);
    assert_eq!(objects[0].fighter.unwrap().hp, 100);
    assert_eq!(objects.last().unwrap().name, "stairs");
    assert!(!game.map[objects[0].x as usize][objects[0].y as usize].blocked);
}
