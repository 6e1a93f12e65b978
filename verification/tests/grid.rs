use roguelike::grid::{create_h_tunnel, create_room, create_v_tunnel, set_tile, Grid, Rect, Tile};

fn solid() -> Grid {
    vec![vec![Tile::wall(); 43]; 80]
}

#[test]
fn tiles_are_wall_or_floor() {
    let floor = Tile::empty();
    assert!(!floor.blocked && !floor.block_sight && !floor.explored);
    let wall = Tile::wall();
    assert!(wall.blocked && wall.block_sight && !wall.explored);
}

#[test]
fn rect_new_adds_the_size_to_the_corner() {
    assert_eq!(Rect::new(3, 4, 6, 7), Rect { x1: 3, y1: 4, x2: 9, y2: 11 });
}

#[test]
fn center_rounds_toward_zero() {
    assert_eq!(Rect::new(3, 4, 6, 7).center(), (6, 7));
    assert_eq!(Rect::new(0, 0, 7, 9).center(), (3, 4));
    assert_eq!(Rect { x1: -3, y1: -8, x2: 0, y2: 1 }.center(), (-1, -3));
    assert_eq!(
        Rect { x1: i32::MAX, y1: i32::MIN, x2: i32::MAX, y2: i32::MIN }.center(),
        (i32::MAX, i32::MIN)
    );
}

#[test]
fn rooms_that_share_a_boundary_intersect() {
    let a = Rect::new(0, 0, 5, 5);
    assert!(a.intersects_with(&Rect::new(5, 0, 5, 5)));
    assert!(a.intersects_with(&Rect::new(5, 5, 5, 5)));
    assert!(a.intersects_with(&Rect::new(2, 2, 1, 1)));
    assert!(a.intersects_with(&a));
    assert!(!a.intersects_with(&Rect::new(6, 0, 5, 5)));
    assert!(!a.intersects_with(&Rect::new(0, 6, 5, 5)));
    assert!(!Rect::new(6, 0, 5, 5).intersects_with(&a));
}

#[test]
fn create_room_opens_the_inside_only() {
    let mut map = solid();
    let room = Rect::new(10, 20, 6, 7);
    create_room(room, &mut map);
    for x in 0..80 {
        for y in 0..43 {
            let inside = x > 10 && x < 16 && y > 20 && y < 27;
            assert_eq!(map[x][y], if inside { Tile::empty() } else { Tile::wall() });
        }
    }
}

#[test]
fn create_room_with_no_inside_changes_nothing() {
    let mut map = solid();
    create_room(Rect { x1: 5, y1: 5, x2: 6, y2: 30 }, &mut map);
    create_room(Rect { x1: 9, y1: 9, x2: 3, y2: 3 }, &mut map);
    create_room(Rect { x1: i32::MAX, y1: 0, x2: i32::MAX, y2: 5 }, &mut map);
    assert_eq!(map, solid());
}

#[test]
fn tunnels_open_both_ends_in_either_direction() {
    let mut map = solid();
    create_h_tunnel(7, 3, 5, &mut map);
    create_v_tunnel(10, 12, 4, &mut map);
    for x in 0..80 {
        for y in 0..43 {
            let open = (y == 5 && (3..=7).contains(&x)) || (x == 4 && (10..=12).contains(&y));
            assert_eq!(map[x][y].blocked, !open);
        }
    }
    let mut other = solid();
    create_h_tunnel(3, 7, 5, &mut other);
    create_v_tunnel(12, 10, 4, &mut other);
    assert_eq!(map, other);
}

#[test]
fn set_tile_replaces_one_tile() {
    let mut map = solid();
    set_tile(&mut map, 79, 42, Tile::empty());
    assert_eq!(map[79][42], Tile::empty());
    assert_eq!(map[79][41], Tile::wall());
    assert_eq!(map[78][42], Tile::wall());
}
