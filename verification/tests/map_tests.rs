use std::rc::Rc;

use rust_story::map::{pixel_position, Layer, SpriteCell, Tile, TileMap, TileType, TILE_SIZE};

#[test]
fn build_fills_every_cell_with_the_default() {
    let air = Tile::new();
    let m = TileMap::build(3, 4, Rc::new(air));
    assert_eq!(m.rows(), 3);
    assert_eq!(m.cols(), 4);
    for r in 0..3 {
        for c in 0..4 {
            assert_eq!(m.tile_at(Layer::Tiles, r, c), air);
            assert_eq!(m.tile_at(Layer::Sprites, r, c), air);
        }
    }
}

#[test]
fn set_updates_only_the_target_cell() {
    let air = Tile::new();
    let wall = Tile::from_sprite(9, TileType::Wall);
    let mut m = TileMap::build(3, 4, Rc::new(air));
    m.set(Layer::Tiles, 1, 2, Rc::new(wall));
    for r in 0..3 {
        for c in 0..4 {
            if r == 1 && c == 2 {
                assert_eq!(m.tile_at(Layer::Tiles, r, c), wall);
            } else {
                assert_eq!(m.tile_at(Layer::Tiles, r, c), air);
            }
            assert_eq!(m.tile_at(Layer::Sprites, r, c), air);
        }
    }
}

#[test]
fn layers_are_independent() {
    let air = Tile::new();
    let wall = Tile::from_sprite(3, TileType::Wall);
    let mut m = TileMap::build(2, 2, Rc::new(air));
    m.set(Layer::Sprites, 0, 1, Rc::new(wall));
    assert_eq!(m.tile_at(Layer::Sprites, 0, 1), wall);
    assert_eq!(m.tile_at(Layer::Tiles, 0, 1), air);
}

#[test]
fn test_map_layout() {
    let m = TileMap::create_test_map(7);
    assert_eq!(m.rows(), 15);
    assert_eq!(m.cols(), 20);
    let wall = Tile::from_sprite(7, TileType::Wall);
    let air = Tile::new();
    // the floor
    for c in 0..20 {
        assert_eq!(m.tile_at(Layer::Tiles, 14, c), wall);
    }
    // the safety walls
    for r in 0..15 {
        assert_eq!(m.tile_at(Layer::Tiles, r, 0), wall);
        assert_eq!(m.tile_at(Layer::Tiles, r, 19), wall);
    }
    // the free-standing blocks
    assert_eq!(m.tile_at(Layer::Tiles, 13, 3), wall);
    assert_eq!(m.tile_at(Layer::Tiles, 13, 5), wall);
    assert_eq!(m.tile_at(Layer::Tiles, 12, 4), wall);
    assert_eq!(m.tile_at(Layer::Tiles, 11, 3), wall);
    // a sample of open air
    assert_eq!(m.tile_at(Layer::Tiles, 5, 5), air);
    assert_eq!(m.tile_at(Layer::Tiles, 13, 4), air);
    // the decorative column
    for r in 0..15 {
        assert_eq!(m.tile_at(Layer::Sprites, r, 7), wall);
        assert_eq!(m.tile_at(Layer::Sprites, r, 6), air);
    }
}

#[test]
fn sprite_cells_come_in_row_major_order() {
    let air = Tile::new();
    let mut m = TileMap::build(2, 3, Rc::new(air));
    m.set(Layer::Tiles, 1, 2, Rc::new(Tile::from_sprite(5, TileType::Wall)));
    m.set(Layer::Tiles, 0, 1, Rc::new(Tile::from_sprite(4, TileType::Wall)));
    let cells = m.sprite_cells(Layer::Tiles);
    assert_eq!(
        cells,
        vec![
            SpriteCell { row: 0, col: 1, sprite: 4 },
            SpriteCell { row: 1, col: 2, sprite: 5 },
        ]
    );
    assert_eq!(m.sprite_cells(Layer::Sprites), vec![]);
}

#[test]
fn pixel_position_scales_by_tile_size() {
    assert_eq!(TILE_SIZE, 32);
    assert_eq!(pixel_position(0, 0), (0, 0));
    // x comes from the column, y from the row
    assert_eq!(pixel_position(2, 3), (96, 64));
}
