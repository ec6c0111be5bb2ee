use std::rc::Rc;

use rust_story::collisions::Rectangle;
use rust_story::map::{CollisionTile, Layer, Tile, TileMap, TileType};

/// The scenario grid: 15 rows x 20 cols, row 14 entirely wall ("floor"),
/// columns 0 and 19 entirely wall ("safety walls"), everything else air.
fn scenario_grid() -> TileMap {
    let air = Rc::new(Tile::new());
    let wall = Rc::new(Tile::from_sprite(1, TileType::Wall));
    let mut m = TileMap::build(15, 20, air);
    for c in 0..20 {
        m.set(Layer::Tiles, 14, c, wall.clone());
    }
    for r in 0..15 {
        m.set(Layer::Tiles, r, 0, wall.clone());
        m.set(Layer::Tiles, r, 19, wall.clone());
    }
    m
}

#[test]
fn one_full_tile_at_origin() {
    let m = scenario_grid();
    let rect = Rectangle::new(0, 0, 31, 31);
    let tiles = m.get_colliding_tiles(&rect);
    assert_eq!(tiles, vec![CollisionTile::new(0, 0, TileType::Wall)]);
}

#[test]
fn four_tiles_above_the_floor() {
    let m = scenario_grid();
    let rect = Rectangle::new(0, 13 * 32, 63, 14 * 32 + 31);
    let tiles = m.get_colliding_tiles(&rect);
    assert_eq!(
        tiles,
        vec![
            CollisionTile::new(13, 0, TileType::Wall),
            CollisionTile::new(13, 1, TileType::Air),
            CollisionTile::new(14, 0, TileType::Wall),
            CollisionTile::new(14, 1, TileType::Wall),
        ]
    );
}

#[test]
fn repeated_queries_are_identical() {
    let m = scenario_grid();
    let rect = Rectangle::new(10, 5, 100, 200);
    let first = m.get_colliding_tiles(&rect);
    let second = m.get_colliding_tiles(&rect);
    assert_eq!(first, second);
}

#[test]
fn zero_width_rectangle_on_a_boundary_includes_the_boundary_column() {
    let m = scenario_grid();
    let k: i64 = 2;
    let rect = Rectangle::new(k * 32, 0, k * 32, 0);
    let tiles = m.get_colliding_tiles(&rect);
    assert_eq!(tiles, vec![CollisionTile::new(0, 2, TileType::Air)]);
}

#[test]
fn tile_boundary_is_inclusive_on_both_axes() {
    let m = scenario_grid();
    // right and bottom sit exactly on the boundary of the next tile,
    // so rows 0-1 and columns 0-1 are all included
    let rect = Rectangle::new(0, 0, 32, 32);
    let tiles = m.get_colliding_tiles(&rect);
    assert_eq!(
        tiles,
        vec![
            CollisionTile::new(0, 0, TileType::Wall),
            CollisionTile::new(0, 1, TileType::Air),
            CollisionTile::new(1, 0, TileType::Wall),
            CollisionTile::new(1, 1, TileType::Air),
        ]
    );
}

#[test]
fn rectangle_accessors_return_the_sides() {
    let rect = Rectangle::new(1, 2, 3, 4);
    assert_eq!(rect.left(), 1);
    assert_eq!(rect.top(), 2);
    assert_eq!(rect.right(), 3);
    assert_eq!(rect.bottom(), 4);
}
