use roguelike_core::map::{
    apply_horizontal_tunnel, apply_room_to_map, apply_vertical_tunnel, draw_map,
    new_map_rooms_and_coridoors, new_map_test, xy_idx, TileType,
};
use roguelike_core::components::Rgb;
use roguelike_core::rect::Rect;

#[test]
fn xy_idx_formula() {
    assert_eq!(xy_idx(0, 0), 0);
    assert_eq!(xy_idx(79, 0), 79);
    assert_eq!(xy_idx(0, 1), 80);
    assert_eq!(xy_idx(1, 1), 81);
    assert_eq!(xy_idx(40, 25), 2040);
    assert_eq!(xy_idx(79, 49), 3999);
}

#[test]
fn xy_idx_distinct_pairs_distinct_indices() {
    let pairs = vec![(0, 0), (1, 0), (0, 1), (79, 0), (0, 49), (79, 49), (40, 25), (25, 40)];
    for (i, a) in pairs.iter().enumerate() {
        for (j, b) in pairs.iter().enumerate() {
            if i != j {
                assert_ne!(xy_idx(a.0, a.1), xy_idx(b.0, b.1));
            }
        }
    }
}

#[test]
fn splatter_map_has_4000_tiles() {
    let map = new_map_test();
    assert_eq!(map.len(), 4000);
}

#[test]
fn splatter_map_border_is_wall() {
    let map = new_map_test();
    for x in 0..80 {
        assert_eq!(map[xy_idx(x, 0)], TileType::Wall);
        assert_eq!(map[xy_idx(x, 49)], TileType::Wall);
    }
    for y in 0..50 {
        assert_eq!(map[xy_idx(0, y)], TileType::Wall);
        assert_eq!(map[xy_idx(79, y)], TileType::Wall);
    }
}

#[test]
fn splatter_map_spawn_tile_is_floor() {
    for _ in 0..20 {
        let map = new_map_test();
        assert_eq!(map[xy_idx(40, 25)], TileType::Floor);
    }
}

#[test]
fn splatter_map_splats_some_interior_wall() {
    // 400 rolls land in the interior and only the protected spawn pick is
    // skipped, so a freshly splattered map has at least one interior wall.
    let map = new_map_test();
    let mut interior_walls = 0;
    for y in 1..49 {
        for x in 1..79 {
            if map[xy_idx(x, y)] == TileType::Wall {
                interior_walls += 1;
            }
        }
    }
    assert!(interior_walls > 0);
    // 400 picks can wall off at most 400 of the 78x48 interior tiles
    assert!(interior_walls <= 400);
    assert!(78 * 48 - interior_walls >= 3344);
}

#[test]
fn rooms_map_matches_fixed_layout() {
    let map = new_map_rooms_and_coridoors();
    assert_eq!(map.len(), 4000);
    // room interiors are floor
    assert_eq!(map[xy_idx(21, 16)], TileType::Floor);
    assert_eq!(map[xy_idx(30, 30)], TileType::Floor);
    assert_eq!(map[xy_idx(36, 16)], TileType::Floor);
    assert_eq!(map[xy_idx(45, 30)], TileType::Floor);
    // the uncarved frame of each room stays wall
    assert_eq!(map[xy_idx(20, 16)], TileType::Wall);
    assert_eq!(map[xy_idx(35, 16)], TileType::Wall);
    assert_eq!(map[xy_idx(21, 15)], TileType::Wall);
    // rock between the rooms, off the tunnel row
    assert_eq!(map[xy_idx(32, 20)], TileType::Wall);
    // the border is solid rock in this layout
    assert_eq!(map[xy_idx(0, 0)], TileType::Wall);
    assert_eq!(map[xy_idx(79, 49)], TileType::Wall);
}

#[test]
fn rooms_map_tunnel_row_connects_centers() {
    let map = new_map_rooms_and_coridoors();
    let room1 = Rect { x1: 20, y1: 15, x2: 30, y2: 30 };
    let room2 = Rect { x1: 35, y1: 15, x2: 45, y2: 30 };
    let (cx1, _) = room1.center();
    let (cx2, _) = room2.center();
    assert_eq!(cx1, 25);
    assert_eq!(cx2, 40);
    for x in cx1..=cx2 {
        assert_eq!(map[xy_idx(x, 23)], TileType::Floor);
    }
}

#[test]
fn room_carves_interior_only() {
    let mut map = vec![TileType::Wall; 4000];
    let room = Rect::new(5, 5, 5, 5);
    apply_room_to_map(&room, &mut map);
    for y in 6..=10 {
        for x in 6..=10 {
            assert_eq!(map[xy_idx(x, y)], TileType::Floor);
        }
    }
    assert_eq!(map[xy_idx(5, 6)], TileType::Wall);
    assert_eq!(map[xy_idx(6, 5)], TileType::Wall);
    assert_eq!(map[xy_idx(11, 6)], TileType::Wall);
}

#[test]
fn horizontal_tunnel_carves_between_columns() {
    let mut map = vec![TileType::Wall; 4000];
    apply_horizontal_tunnel(&mut map, 18, 10, 5);
    for x in 10..=18 {
        assert_eq!(map[xy_idx(x, 5)], TileType::Floor);
    }
    assert_eq!(map[xy_idx(9, 5)], TileType::Wall);
    assert_eq!(map[xy_idx(19, 5)], TileType::Wall);
}

#[test]
fn horizontal_tunnel_skips_out_of_range_indices() {
    let mut map = vec![TileType::Wall; 4000];
    // the whole candidate row lies below index zero: nothing changes
    apply_horizontal_tunnel(&mut map, 0, 79, -1);
    assert!(map.iter().all(|t| *t == TileType::Wall));
    // the flat index is checked, not the column: a run past the row edge
    // keeps carving into the next flat indices
    apply_horizontal_tunnel(&mut map, 75, 85, 0);
    for i in 75..=85 {
        assert_eq!(map[i], TileType::Floor);
    }
    assert_eq!(map[74], TileType::Wall);
    assert_eq!(map[86], TileType::Wall);
}

#[test]
fn vertical_tunnel_carves_between_rows() {
    let mut map = vec![TileType::Wall; 4000];
    apply_vertical_tunnel(&mut map, 7, 3, 12);
    for y in 3..=7 {
        assert_eq!(map[xy_idx(12, y)], TileType::Floor);
    }
    assert_eq!(map[xy_idx(12, 2)], TileType::Wall);
    assert_eq!(map[xy_idx(12, 8)], TileType::Wall);
    assert_eq!(map[xy_idx(11, 5)], TileType::Wall);
}

#[test]
fn draw_map_emits_one_command_per_cell() {
    let mut map = vec![TileType::Floor; 4000];
    map[0] = TileType::Wall;
    let out = draw_map(&map);
    assert_eq!(out.len(), 4000);
    let wall = out[0];
    assert_eq!(wall.x, 0);
    assert_eq!(wall.y, 0);
    assert_eq!(wall.glyph, 35);
    assert_eq!(wall.fg, Rgb { r: 0, g: 255, b: 0 });
    assert_eq!(wall.bg, Rgb { r: 0, g: 0, b: 0 });
    let floor = out[2040];
    assert_eq!(floor.x, 40);
    assert_eq!(floor.y, 25);
    assert_eq!(floor.glyph, 46);
    assert_eq!(floor.fg, Rgb { r: 128, g: 128, b: 128 });
    assert_eq!(floor.bg, Rgb { r: 0, g: 0, b: 0 });
}
