use roguelike::color::white;
use roguelike::dungeon::{build_level, make_map, solid_grid};
use roguelike::encounter::{make_monster, MonsterKind};
use roguelike::entity::Object;
use roguelike::grid::{Rect, Tile};

fn player() -> Object {
    let mut player = Object::new(0, 0, '@', "player", white(), true);
    player.alive = true;
    player
}

#[test]
fn a_solid_grid_is_all_wall() {
    let map = solid_grid();
    assert_eq!(map.len(), 80);
    assert!(map.iter().all(|column| column.len() == 43));
    assert!(map.iter().flatten().all(|tile| *tile == Tile::wall()));
}

#[test]
fn accepted_rooms_never_touch() {
    let mut counts = std::collections::BTreeSet::new();
    for level in 0..40 {
        let mut objects = vec![player()];
        let (_, rooms) = build_level(&mut objects, level);
        assert!(!rooms.is_empty() && rooms.len() <= 30);
        counts.insert(rooms.len());
        for (i, a) in rooms.iter().enumerate() {
            assert!(a.x1 >= 0 && a.y1 >= 0 && a.x2 < 80 && a.y2 < 43);
            assert!((6..=10).contains(&(a.x2 - a.x1)) && (6..=10).contains(&(a.y2 - a.y1)));
            for (j, b) in rooms.iter().enumerate() {
                if i != j {
                    assert!(!a.intersects_with(b), "rooms {:?} and {:?} touch", a, b);
                }
            }
        }
    }
    assert!(counts.len() > 1);
}

fn on_corridor(a: (i32, i32), b: (i32, i32), horizontal_first: bool, x: i32, y: i32) -> bool {
    let xs = a.0.min(b.0)..=a.0.max(b.0);
    let ys = a.1.min(b.1)..=a.1.max(b.1);
    if horizontal_first {
        (y == a.1 && xs.contains(&x)) || (x == b.0 && ys.contains(&y))
    } else {
        (y == b.1 && xs.contains(&x)) || (x == a.0 && ys.contains(&y))
    }
}

fn corridor_is_open(map: &Vec<Vec<Tile>>, a: (i32, i32), b: (i32, i32), first: bool) -> bool {
    (0..80).all(|x| {
        (0..43).all(|y| !on_corridor(a, b, first, x, y) || !map[x as usize][y as usize].blocked)
    })
}

fn inside(room: &Rect, x: i32, y: i32) -> bool {
    room.x1 < x && x < room.x2 && room.y1 < y && y < room.y2
}

#[test]
fn the_grid_is_what_rooms_and_corridors_carve() {
    for level in 0..20 {
        let mut objects = vec![player()];
        let (map, rooms) = build_level(&mut objects, level);
        assert_eq!(map.len(), 80);
        let mut turns = vec![false];
        for pair in rooms.windows(2) {
            let (a, b) = (pair[0].center(), pair[1].center());
            let horizontal = corridor_is_open(&map, a, b, true);
            assert!(horizontal || corridor_is_open(&map, a, b, false));
            turns.push(horizontal);
        }
        for x in 0..80_i32 {
            assert_eq!(map[x as usize].len(), 43);
            for y in 0..43_i32 {
                let tile = map[x as usize][y as usize];
                assert!(tile == Tile::wall() || tile == Tile::empty());
                let in_room = rooms.iter().any(|r| inside(r, x, y));
                let on_some = (1..rooms.len()).any(|i| {
                    let (a, b) = (rooms[i - 1].center(), rooms[i].center());
                    on_corridor(a, b, true, x, y) || on_corridor(a, b, false, x, y)
                });
                if in_room {
                    assert_eq!(tile, Tile::empty());
                }
                if tile == Tile::empty() {
                    assert!(in_room || on_some);
                    assert!(x > 0 && x < 79 && y > 0 && y < 42);
                }
            }
        }
    }
}

#[test]
fn the_player_starts_in_the_first_room_and_the_stairs_end_the_list() {
    for level in 0..20 {
        let mut objects = vec![
            player(),
            make_monster(MonsterKind::Orc, 3, 3),
            make_monster(MonsterKind::Troll, 4, 4),
        ];
        let (map, rooms) = build_level(&mut objects, level);
        assert!(objects.len() >= 2);
        assert_eq!(objects[0].name, "player");
        assert_eq!((objects[0].x, objects[0].y), rooms[0].center());
        assert!(objects[0].alive && objects[0].blocks);
        let stairs = objects.last().unwrap();
        let mut expected = Object::new(0, 0, '<', "stairs", white(), false);
        expected.always_visible = true;
        (expected.x, expected.y) = rooms.last().unwrap().center();
        assert_eq!(*stairs, expected);
        for (k, o) in objects.iter().enumerate().take(objects.len() - 1).skip(1) {
            assert!(rooms[1..].iter().any(|r| inside(r, o.x, o.y)));
            assert!(!inside(&rooms[0], o.x, o.y));
            assert!(!map[o.x as usize][o.y as usize].blocked);
            assert!(o.fighter.is_some() != o.item.is_some());
            assert!(!objects[..k].iter().any(|p| p.blocks && p.x == o.x && p.y == o.y));
        }
    }
}

#[test]
fn make_map_keeps_the_player_and_replaces_the_rest() {
    let mut objects = vec![player(), make_monster(MonsterKind::Orc, 3, 3)];
    objects[0].level = 4;
    let map = make_map(&mut objects, 3);
    assert_eq!(map.len(), 80);
    assert_eq!(objects[0].level, 4);
    assert!(!map[objects[0].x as usize][objects[0].y as usize].blocked);
    assert_eq!(objects.last().unwrap().name, "stairs");
    assert!(!objects[1..].iter().any(|o| (o.x, o.y) == (3, 3) && o.name == "orc" && o.fighter.unwrap().hp != 20));
}

#[test]
fn corridors_leave_a_room_either_way() {
    let mut horizontal = 0;
    let mut vertical = 0;
    for _ in 0..200 {
        let mut objects = vec![player()];
        let (map, rooms) = build_level(&mut objects, 0);
        let (a, b) = (rooms[0].center(), rooms[1 % rooms.len()].center());
        if rooms.len() > 1 && a.0 != b.0 && a.1 != b.1 {
            let corner_h = (b.0, a.1);
            let corner_v = (a.0, b.1);
            let in_room = |p: (i32, i32)| rooms.iter().any(|r| inside(r, p.0, p.1));
            let later = |p: (i32, i32)| {
                (2..rooms.len()).any(|i| {
                    let (c, d) = (rooms[i - 1].center(), rooms[i].center());
                    on_corridor(c, d, true, p.0, p.1) || on_corridor(c, d, false, p.0, p.1)
                })
            };
            if in_room(corner_h) || in_room(corner_v) || later(corner_h) || later(corner_v) {
                continue;
            }
            let h = !map[corner_h.0 as usize][corner_h.1 as usize].blocked;
            let v = !map[corner_v.0 as usize][corner_v.1 as usize].blocked;
            assert!(h != v);
            if h {
                horizontal += 1;
            } else {
                vertical += 1;
            }
        }
    }
    assert!(horizontal > 0 && vertical > 0);
}

#[test]
fn levels_differ_from_one_another() {
    let mut seen = std::collections::BTreeSet::new();
    for _ in 0..10 {
        let mut objects = vec![player()];
        let (_, rooms) = build_level(&mut objects, 0);
        seen.insert(rooms.iter().map(|r| (r.x1, r.y1, r.x2, r.y2)).collect::<Vec<_>>());
    }
    assert!(seen.len() > 1);
}
