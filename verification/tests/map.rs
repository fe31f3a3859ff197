use ascii_tilemap::geometry::UVec2;
use ascii_tilemap::map::{DungeonMap, MapBuilder, TileType};

#[test]
fn build() {
    let rng = fastrand::Rng::new();
    rng.seed(42);
    assert!(MapBuilder::new(20, 11, 11, 1..2, rng).build().is_ok());
}

#[test]
fn build_rejects_a_map_not_larger_than_the_rooms() {
    let rng = fastrand::Rng::new();
    rng.seed(42);
    let err = MapBuilder::new(5, 6, 50, 2..6, rng).build().unwrap_err();
    assert_eq!(err.max_room_size, 6);

    let rng = fastrand::Rng::new();
    rng.seed(42);
    let err = MapBuilder::new(5, 50, 6, 2..6, rng).build().unwrap_err();
    assert_eq!(err.max_room_size, 6);
}

#[test]
fn build_places_disjoint_rooms_and_a_walkable_start() {
    let rng = fastrand::Rng::new();
    rng.seed(42);
    let (map, player_start, rooms) = MapBuilder::new(20, 80, 50, 2..10, rng).build().unwrap();

    assert_eq!(map.width, 80);
    assert_eq!(map.height, 50);
    assert!(!rooms.is_empty() && rooms.len() <= 20);
    // with a real generator behind it, several attempts succeed
    assert!(rooms.len() > 1);
    for (i, a) in rooms.iter().enumerate() {
        for b in rooms.iter().skip(i + 1) {
            assert!(!a.intersect(b));
        }
    }
    // the player starts on the grid, on a floor tile
    assert!(map.in_bounds(player_start));
    assert!(map.can_enter_tile(player_start));
    // the generator carved rooms out of a walled grid: both tile kinds exist
    let mut floors = 0;
    let mut walls = 0;
    for y in 0..50 {
        for x in 0..80 {
            match map.get_tile(UVec2::new(x, y)).unwrap() {
                TileType::Floor => floors += 1,
                TileType::Wall => walls += 1,
            }
        }
    }
    assert!(floors > 0 && walls > 0);
}

#[test]
fn map_tiles_and_bounds() {
    let mut map = DungeonMap::new(4, 3);
    assert!(map.in_bounds(UVec2::new(3, 2)));
    assert!(!map.in_bounds(UVec2::new(4, 2)));
    assert!(!map.in_bounds(UVec2::new(3, 3)));

    // a fresh map is all floor
    assert_eq!(map.get_tile(UVec2::new(0, 0)), Some(TileType::Floor));
    assert!(map.can_enter_tile(UVec2::new(3, 2)));

    map.set_tile(UVec2::new(1, 2), TileType::Wall);
    assert_eq!(map.get_tile(UVec2::new(1, 2)), Some(TileType::Wall));
    assert!(!map.can_enter_tile(UVec2::new(1, 2)));

    // off-grid access: writes are ignored, reads yield nothing
    map.set_tile(UVec2::new(9, 9), TileType::Wall);
    assert_eq!(map.get_tile(UVec2::new(9, 9)), None);
    assert!(!map.can_enter_tile(UVec2::new(9, 9)));
}

#[test]
fn default_map_has_the_default_size() {
    let map = DungeonMap::default();
    assert_eq!(map.width, 80);
    assert_eq!(map.height, 50);
}
