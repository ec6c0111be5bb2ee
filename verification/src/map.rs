//! The tile grid: two index-aligned layers of shared tile descriptors, plus
//! the spatial query that maps a rectangle to the grid cells it overlaps.

use std::rc::Rc;

use vstd::arithmetic::div_mod::{
    lemma_div_multiples_vanish, lemma_div_nonincreasing, lemma_fundamental_div_mod,
    lemma_fundamental_div_mod_converse, lemma_mod_division_less_than_divisor,
    lemma_multiply_divide_lt,
};
use vstd::pervasive::VecAdditionalExecFns;
use vstd::prelude::*;

use crate::collisions::Rectangle;

verus! {

/// Edge length of one square tile, in pixels.
pub const TILE_SIZE: usize = 32;

/// The closed set of tile kinds the collision layer distinguishes.
#[derive(Clone, Copy, Debug, PartialEq, Eq, Structural)]
pub enum TileType {
    Air,
    Wall,
}

/// An immutable tile descriptor: its kind, plus an optional handle naming a
/// drawable visual (absent for plain air tiles and for walls without
/// distinct artwork). The handle is an opaque key under which the renderer
/// keeps the artwork; the grid itself never inspects it. One descriptor may
/// be shared by many grid cells.
#[derive(Clone, Copy, Debug)]
pub struct Tile {
    pub tile_type: TileType,
    pub sprite: Option<u64>,
}

impl Tile {
    /// Creates an air tile with no sprite.
    pub fn new() -> (t: Tile)
        ensures
            t == (Tile { tile_type: TileType::Air, sprite: None }),
    {
        Tile { tile_type: TileType::Air, sprite: None }
    }

    /// Creates a tile of `tile_type` whose visual is kept under `sprite`.
    pub fn from_sprite(sprite: u64, tile_type: TileType) -> (t: Tile)
        ensures
            t == (Tile { tile_type: tile_type, sprite: Some(sprite) }),
    {
        Tile { tile_type: tile_type, sprite: Some(sprite) }
    }
}

impl PartialEq for Tile {
    fn eq(&self, other: &Tile) -> bool {
        let sprites_match = match (self.sprite, other.sprite) {
            (Option::None, Option::None) => true,
            (Option::Some(a), Option::Some(b)) => a == b,
            _ => false,
        };
        self.tile_type == other.tile_type && sprites_match
    }
}

impl vstd::std_specs::cmp::PartialEqSpecImpl for Tile {
    open spec fn obeys_eq_spec() -> bool {
        true
    }

    open spec fn eq_spec(&self, other: &Tile) -> bool {
        *self == *other
    }
}

/// Which of the two parallel grids a cell address refers to: the collidable
/// layer consulted by overlap queries, or the purely decorative overlay.
#[derive(Clone, Copy, Debug, PartialEq, Eq, Structural)]
pub enum Layer {
    Tiles,
    Sprites,
}

/// One grid cell that a collision query found overlapping the query
/// rectangle: its grid coordinates and the kind of tile there. Created
/// fresh per query and owned by the caller.
#[derive(Clone, Copy, Debug, PartialEq, Eq, Structural)]
pub struct CollisionTile {
    pub tile_type: TileType,
    pub row: i64,
    pub col: i64,
}

impl CollisionTile {
    pub fn new(row: i64, col: i64, tile_type: TileType) -> (t: CollisionTile)
        ensures
            t == (CollisionTile { tile_type: tile_type, row: row, col: col }),
    {
        CollisionTile { tile_type: tile_type, row: row, col: col }
    }
}

/// A dense rectangular map: two index-aligned layers of reference-counted
/// tile descriptors, one collidable ("tiles") and one decorative
/// ("sprites"). Cells are stored row-major; row index is the vertical (y)
/// position in tile units, column index the horizontal (x) position.
pub struct TileMap {
    rows: usize,
    cols: usize,
    tiles: Vec<Rc<Tile>>,
    sprites: Vec<Rc<Tile>>,
}

/// Row-major index of an in-range cell is in range.
proof fn lemma_flat_index_bounds(r: int, c: int, rows: int, cols: int)
    requires
        0 <= r < rows,
        0 <= c < cols,
    ensures
        0 <= r * cols + c < rows * cols,
{
    assert(r * cols + c < rows * cols) by (nonlinear_arith)
        requires
            0 <= r < rows,
            0 <= c < cols,
    ;
    assert(0 <= r * cols + c) by (nonlinear_arith)
        requires
            0 <= r,
            0 <= c,
            0 <= cols,
    ;
}

/// Distinct in-range cells have distinct row-major indices.
proof fn lemma_flat_index_injective(r1: int, c1: int, r2: int, c2: int, cols: int)
    requires
        0 <= r1,
        0 <= r2,
        0 <= c1 < cols,
        0 <= c2 < cols,
        r1 * cols + c1 == r2 * cols + c2,
    ensures
        r1 == r2,
        c1 == c2,
{
    lemma_fundamental_div_mod_converse(r1 * cols + c1, cols, r1, c1);
    lemma_fundamental_div_mod_converse(r2 * cols + c2, cols, r2, c2);
}

impl TileMap {
    /// Number of rows (vertical extent in tile units).
    pub closed spec fn spec_rows(self) -> int {
        self.rows as int
    }

    /// Number of columns (horizontal extent in tile units).
    pub closed spec fn spec_cols(self) -> int {
        self.cols as int
    }

    /// Well-formed: both layers hold exactly rows × cols cells.
    pub closed spec fn wf(self) -> bool {
        &&& self.rows > 0
        &&& self.cols > 0
        &&& self.tiles@.len() == self.rows * self.cols
        &&& self.sprites@.len() == self.rows * self.cols
    }

    /// The tile descriptor a cell of a layer points to.
    pub closed spec fn spec_tile_at(self, layer: Layer, row: int, col: int) -> Tile {
        match layer {
            Layer::Tiles => *self.tiles@[row * self.spec_cols() + col],
            Layer::Sprites => *self.sprites@[row * self.spec_cols() + col],
        }
    }

    pub fn rows(&self) -> (n: usize)
        ensures
            n == self.spec_rows(),
    {
        self.rows
    }

    pub fn cols(&self) -> (n: usize)
        ensures
            n == self.spec_cols(),
    {
        self.cols
    }

    /// Allocates a rows × cols map whose cells, in both layers, all share
    /// `default_tile`.
    pub fn build(rows: usize, cols: usize, default_tile: Rc<Tile>) -> (m: TileMap)
        requires
            rows > 0,
            cols > 0,
            rows * cols <= usize::MAX,
        ensures
            m.wf(),
            m.spec_rows() == rows,
            m.spec_cols() == cols,
            forall|layer: Layer, r: int, c: int|
                0 <= r < rows && 0 <= c < cols ==> #[trigger] m.spec_tile_at(layer, r, c)
                    == *default_tile,
    {
        let n: usize = rows * cols;
        let mut tiles: Vec<Rc<Tile>> = Vec::new();
        let mut sprites: Vec<Rc<Tile>> = Vec::new();
        let mut k: usize = 0;
        while k < n
            invariant
                k <= n,
                tiles@.len() == k,
                sprites@.len() == k,
                forall|i: int| 0 <= i < k ==> tiles@[i] == default_tile,
                forall|i: int| 0 <= i < k ==> sprites@[i] == default_tile,
            decreases n - k,
        {
            tiles.push(default_tile.clone());
            sprites.push(default_tile.clone());
            k = k + 1;
        }
        let m = TileMap { rows: rows, cols: cols, tiles: tiles, sprites: sprites };
        proof {
            assert forall|layer: Layer, r: int, c: int|
                0 <= r < rows && 0 <= c < cols implies #[trigger] m.spec_tile_at(layer, r, c)
                == *default_tile by {
                lemma_flat_index_bounds(r, c, rows as int, cols as int);
            }
        }
        m
    }

    /// Read-only lookup of the descriptor at (row, col) of a layer.
    pub fn tile_at(&self, layer: Layer, row: usize, col: usize) -> (t: Tile)
        requires
            self.wf(),
            row < self.spec_rows(),
            col < self.spec_cols(),
        ensures
            t == self.spec_tile_at(layer, row as int, col as int),
    {
        proof {
            lemma_flat_index_bounds(row as int, col as int, self.spec_rows(), self.spec_cols());
        }
        let total: usize = self.tiles.len();
        let idx: usize = row * self.cols + col;
        let cell: Rc<Tile> = match layer {
            Layer::Tiles => self.tiles[idx].clone(),
            Layer::Sprites => self.sprites[idx].clone(),
        };
        *cell
    }

    /// Replaces the shared tile reference at (row, col) of a layer; every
    /// other cell of both layers keeps the tile it had.
    pub fn set(&mut self, layer: Layer, row: usize, col: usize, tile: Rc<Tile>)
        requires
            old(self).wf(),
            row < old(self).spec_rows(),
            col < old(self).spec_cols(),
        ensures
            final(self).wf(),
            final(self).spec_rows() == old(self).spec_rows(),
            final(self).spec_cols() == old(self).spec_cols(),
            final(self).spec_tile_at(layer, row as int, col as int) == *tile,
            forall|l: Layer, r: int, c: int|
                0 <= r < old(self).spec_rows() && 0 <= c < old(self).spec_cols()
                    && !(l == layer && r == row && c == col)
                    ==> #[trigger] final(self).spec_tile_at(l, r, c)
                        == old(self).spec_tile_at(l, r, c),
    {
        proof {
            lemma_flat_index_bounds(row as int, col as int, self.spec_rows(), self.spec_cols());
        }
        let total: usize = self.tiles.len();
        let idx: usize = row * self.cols + col;
        match layer {
            Layer::Tiles => self.tiles.set(idx, tile),
            Layer::Sprites => self.sprites.set(idx, tile),
        }
        proof {
            assert forall|l: Layer, r: int, c: int|
                0 <= r < old(self).spec_rows() && 0 <= c < old(self).spec_cols()
                    && !(l == layer && r == row && c == col)
                    implies #[trigger] self.spec_tile_at(l, r, c)
                    == old(self).spec_tile_at(l, r, c) by {
                lemma_flat_index_bounds(r, c, self.spec_rows(), self.spec_cols());
                if l == layer && r * self.spec_cols() + c == idx {
                    lemma_flat_index_injective(r, c, row as int, col as int, self.spec_cols());
                }
            }
        }
    }

    /// The exact sequence a collision query returns: every cell of the
    /// collidable layer whose tile-aligned box the rectangle overlaps under
    /// closed-interval semantics on both ends, in row-major scan order
    /// (ascending row, then ascending column).
    pub open spec fn colliding_tiles_spec(self, rect: Rectangle) -> Seq<CollisionTile> {
        let first_row = tile_index(rect.top as int);
        let last_row = tile_index(rect.bottom as int);
        let first_col = tile_index(rect.left as int);
        let last_col = tile_index(rect.right as int);
        let ncols = last_col - first_col + 1;
        Seq::new(
            ((last_row - first_row + 1) * ncols) as nat,
            |k: int|
                CollisionTile {
                    tile_type: self.spec_tile_at(
                        Layer::Tiles,
                        first_row + k / ncols,
                        first_col + k % ncols,
                    ).tile_type,
                    row: (first_row + k / ncols) as i64,
                    col: (first_col + k % ncols) as i64,
                },
        )
    }

    /// Reports every cell of the collidable layer that `rectangle` overlaps,
    /// in row-major scan order, boundary tiles included: a rectangle whose
    /// edge lies exactly on a tile boundary still includes the boundary
    /// tile. Coordinates must be non-negative (negative rectangles are
    /// rejected rather than mapped through truncating division) and the
    /// rectangle must lie within the grid's index range.
    pub fn get_colliding_tiles(&self, rectangle: &Rectangle) -> (result: Vec<CollisionTile>)
        requires
            self.wf(),
            0 <= rectangle.top <= rectangle.bottom,
            0 <= rectangle.left <= rectangle.right,
            tile_index(rectangle.bottom as int) < self.spec_rows(),
            tile_index(rectangle.right as int) < self.spec_cols(),
        ensures
            result@ == self.colliding_tiles_spec(*rectangle),
    {
        proof {
            lemma_div_nonincreasing(rectangle.bottom as int, TILE_SIZE as int);
            lemma_div_nonincreasing(rectangle.right as int, TILE_SIZE as int);
        }
        let first_row: u64 = (rectangle.top() as u64) / (TILE_SIZE as u64);
        let last_row: u64 = (rectangle.bottom() as u64) / (TILE_SIZE as u64);
        let first_col: u64 = (rectangle.left() as u64) / (TILE_SIZE as u64);
        let last_col: u64 = (rectangle.right() as u64) / (TILE_SIZE as u64);
        let ghost fr = tile_index(rectangle.top as int);
        let ghost lr = tile_index(rectangle.bottom as int);
        let ghost fc = tile_index(rectangle.left as int);
        let ghost lc = tile_index(rectangle.right as int);
        let ghost nc = lc - fc + 1;
        let ghost target = self.colliding_tiles_spec(*rectangle);
        let mut result: Vec<CollisionTile> = Vec::new();
        let mut row: u64 = first_row;
        while row <= last_row
            invariant
                self.wf(),
                0 <= rectangle.top <= rectangle.bottom,
                0 <= rectangle.left <= rectangle.right,
                fr == tile_index(rectangle.top as int),
                lr == tile_index(rectangle.bottom as int),
                fc == tile_index(rectangle.left as int),
                lc == tile_index(rectangle.right as int),
                nc == lc - fc + 1,
                target == self.colliding_tiles_spec(*rectangle),
                first_row == fr,
                last_row == lr,
                first_col == fc,
                last_col == lc,
                lr < self.spec_rows(),
                lc < self.spec_cols(),
                lr <= rectangle.bottom,
                lc <= rectangle.right,
                fr <= row <= lr + 1,
                result@ == target.take((row - fr) * nc),
            decreases lr + 1 - row,
        {
            let mut col: u64 = first_col;
            while col <= last_col
                invariant
                    self.wf(),
                    0 <= rectangle.top <= rectangle.bottom,
                    0 <= rectangle.left <= rectangle.right,
                    fr == tile_index(rectangle.top as int),
                    lr == tile_index(rectangle.bottom as int),
                    fc == tile_index(rectangle.left as int),
                    lc == tile_index(rectangle.right as int),
                    nc == lc - fc + 1,
                    target == self.colliding_tiles_spec(*rectangle),
                    first_col == fc,
                    last_col == lc,
                    lr < self.spec_rows(),
                    lc < self.spec_cols(),
                    lr <= rectangle.bottom,
                    lc <= rectangle.right,
                    fr <= row <= lr,
                    fc <= col <= lc + 1,
                    result@ == target.take((row - fr) * nc + (col - fc)),
                decreases lc + 1 - col,
            {
                let t = self.tile_at(Layer::Tiles, row as usize, col as usize);
                let ct = CollisionTile::new(row as i64, col as i64, t.tile_type);
                proof {
                    let k = (row - fr) * nc + (col - fc);
                    lemma_flat_index_bounds(row - fr, col - fc, lr - fr + 1, nc);
                    lemma_fundamental_div_mod_converse(k, nc, row - fr, col - fc);
                    assert(target[k] == ct);
                    assert(result@.push(ct) =~= target.take(k + 1));
                }
                result.push(ct);
                col = col + 1;
            }
            proof {
                assert((row - fr) * nc + (lc + 1 - fc) == (row + 1 - fr) * nc) by (nonlinear_arith)
                    requires
                        nc == lc - fc + 1,
                ;
            }
            row = row + 1;
        }
        proof {
            assert((lr + 1 - fr) * nc == target.len());
            assert(result@ =~= target);
        }
        result
    }
}

/// One cell of a layer that carries a visual: where the cell sits and the
/// handle under which the renderer keeps the artwork.
#[derive(Clone, Copy, Debug, PartialEq, Eq, Structural)]
pub struct SpriteCell {
    pub row: usize,
    pub col: usize,
    pub sprite: u64,
}

impl TileMap {
    /// The cells of `layer` that carry a visual, starting at row-major cell
    /// index `k`, in scan order.
    pub open spec fn sprite_cells_from(self, layer: Layer, k: int) -> Seq<SpriteCell>
        decreases self.spec_rows() * self.spec_cols() - k,
    {
        let total = self.spec_rows() * self.spec_cols();
        if k < 0 || k >= total {
            Seq::empty()
        } else {
            let r = k / self.spec_cols();
            let c = k % self.spec_cols();
            let rest = self.sprite_cells_from(layer, k + 1);
            match self.spec_tile_at(layer, r, c).sprite {
                Some(h) => seq![SpriteCell { row: r as usize, col: c as usize, sprite: h }]
                    + rest,
                None => rest,
            }
        }
    }

    /// All cells of `layer` that carry a visual, in row-major order.
    pub open spec fn sprite_cells_spec(self, layer: Layer) -> Seq<SpriteCell> {
        self.sprite_cells_from(layer, 0)
    }

    /// Lists the cells of `layer` whose tiles carry a visual, in row-major
    /// order; the per-frame draw and update passes walk this list.
    pub fn sprite_cells(&self, layer: Layer) -> (cells: Vec<SpriteCell>)
        requires
            self.wf(),
        ensures
            cells@ == self.sprite_cells_spec(layer),
    {
        let total: usize = self.tiles.len();
        let mut cells: Vec<SpriteCell> = Vec::new();
        let mut k: usize = 0;
        while k < total
            invariant
                self.wf(),
                total == self.spec_rows() * self.spec_cols(),
                k <= total,
                cells@ + self.sprite_cells_from(layer, k as int)
                    == self.sprite_cells_spec(layer),
            decreases total - k,
        {
            proof {
                assert(self.spec_cols() * self.spec_rows() == self.spec_rows()
                    * self.spec_cols()) by (nonlinear_arith);
                lemma_multiply_divide_lt(k as int, self.spec_cols(), self.spec_rows());
                lemma_mod_division_less_than_divisor(k as int, self.spec_cols());
                lemma_fundamental_div_mod(k as int, self.spec_cols());
            }
            let r: usize = k / self.cols;
            let c: usize = k % self.cols;
            let t = self.tile_at(layer, r, c);
            let ghost rest = self.sprite_cells_from(layer, k as int + 1);
            match t.sprite {
                Option::Some(h) => {
                    proof {
                        assert(self.sprite_cells_from(layer, k as int)
                            =~= seq![SpriteCell { row: r, col: c, sprite: h }] + rest);
                        assert(cells@.push(SpriteCell { row: r, col: c, sprite: h }) + rest
                            =~= cells@ + (seq![SpriteCell { row: r, col: c, sprite: h }]
                                + rest));
                    }
                    cells.push(SpriteCell { row: r, col: c, sprite: h });
                },
                Option::None => {
                    proof {
                        assert(self.sprite_cells_from(layer, k as int) =~= rest);
                    }
                },
            }
            k = k + 1;
        }
        proof {
            assert(cells@ =~= self.sprite_cells_spec(layer));
        }
        cells
    }
}

/// Pixel-space draw position of a grid cell: `x = col * TILE_SIZE`,
/// `y = row * TILE_SIZE`. Purely presentational; collision math stays in
/// tile-index space.
pub fn pixel_position(row: usize, col: usize) -> (p: (i32, i32))
    requires
        row * TILE_SIZE <= i32::MAX,
        col * TILE_SIZE <= i32::MAX,
    ensures
        p.0 == col * TILE_SIZE,
        p.1 == row * TILE_SIZE,
{
    ((col * TILE_SIZE) as i32, (row * TILE_SIZE) as i32)
}

/// Tile-space index of a continuous coordinate: the tile row or column the
/// coordinate falls in (floor division by the tile edge; meaningful for
/// non-negative coordinates).
pub open spec fn tile_index(coord: int) -> int {
    coord / (TILE_SIZE as int)
}

/// Rows of the hard-coded demonstration map (480 pixels tall).
pub const TEST_MAP_ROWS: usize = 15;

/// Columns of the hard-coded demonstration map (640 pixels wide).
pub const TEST_MAP_COLS: usize = 20;

/// The demonstration layout: is the cell at (r, c) of the collidable layer
/// a wall? The bottom row is the floor, the two outer columns are safety
/// walls, and four free-standing blocks float above the floor.
pub open spec fn test_map_is_wall(r: int, c: int) -> bool {
    ||| r == 14
    ||| c == 0
    ||| c == 19
    ||| (r == 13 && (c == 3 || c == 5))
    ||| (r == 12 && c == 4)
    ||| (r == 11 && c == 3)
}

/// A wall tile drawn with the artwork kept under `sprite`.
pub open spec fn wall_tile_spec(sprite: u64) -> Tile {
    Tile { tile_type: TileType::Wall, sprite: Some(sprite) }
}

/// A plain air tile with no artwork.
pub open spec fn air_tile_spec() -> Tile {
    Tile { tile_type: TileType::Air, sprite: None }
}

impl TileMap {
    /// Builds the fixed demonstration level: a 15 x 20 grid whose collidable
    /// layer follows `test_map_is_wall`, with a decorative column of wall
    /// sprites down column 7. `wall_sprite` is the renderer's handle for the
    /// cave-wall artwork; every wall cell shares one tile descriptor.
    pub fn create_test_map(wall_sprite: u64) -> (m: TileMap)
        ensures
            m.wf(),
            m.spec_rows() == TEST_MAP_ROWS,
            m.spec_cols() == TEST_MAP_COLS,
            forall|r: int, c: int|
                0 <= r < TEST_MAP_ROWS && 0 <= c < TEST_MAP_COLS
                    ==> #[trigger] m.spec_tile_at(Layer::Tiles, r, c) == (if test_map_is_wall(
                    r,
                    c,
                ) {
                    wall_tile_spec(wall_sprite)
                } else {
                    air_tile_spec()
                }),
            forall|r: int, c: int|
                0 <= r < TEST_MAP_ROWS && 0 <= c < TEST_MAP_COLS
                    ==> #[trigger] m.spec_tile_at(Layer::Sprites, r, c) == (if c == 7 {
                    wall_tile_spec(wall_sprite)
                } else {
                    air_tile_spec()
                }),
    {
        let blank_tile = Rc::new(Tile::new());
        let wall_tile = Rc::new(Tile::from_sprite(wall_sprite, TileType::Wall));
        let mut map = TileMap::build(TEST_MAP_ROWS, TEST_MAP_COLS, blank_tile);

        // the floor along the bottom row
        let mut i: usize = 0;
        while i < TEST_MAP_COLS
            invariant
                map.wf(),
                map.spec_rows() == TEST_MAP_ROWS,
                map.spec_cols() == TEST_MAP_COLS,
                *wall_tile == wall_tile_spec(wall_sprite),
                i <= TEST_MAP_COLS,
                forall|r: int, c: int|
                    0 <= r < TEST_MAP_ROWS && 0 <= c < TEST_MAP_COLS
                        ==> #[trigger] map.spec_tile_at(Layer::Tiles, r, c) == (if r == 14 && c
                        < i {
                        wall_tile_spec(wall_sprite)
                    } else {
                        air_tile_spec()
                    }),
                forall|r: int, c: int|
                    0 <= r < TEST_MAP_ROWS && 0 <= c < TEST_MAP_COLS
                        ==> #[trigger] map.spec_tile_at(Layer::Sprites, r, c)
                        == air_tile_spec(),
            decreases TEST_MAP_COLS - i,
        {
            map.set(Layer::Tiles, TEST_MAP_ROWS - 1, i, wall_tile.clone());
            i = i + 1;
        }

        // the safety walls down both outer columns
        i = 0;
        while i < TEST_MAP_ROWS
            invariant
                map.wf(),
                map.spec_rows() == TEST_MAP_ROWS,
                map.spec_cols() == TEST_MAP_COLS,
                *wall_tile == wall_tile_spec(wall_sprite),
                i <= TEST_MAP_ROWS,
                forall|r: int, c: int|
                    0 <= r < TEST_MAP_ROWS && 0 <= c < TEST_MAP_COLS
                        ==> #[trigger] map.spec_tile_at(Layer::Tiles, r, c) == (if r == 14 || (
                    c == 0 && r < i) || (c == 19 && r < i) {
                        wall_tile_spec(wall_sprite)
                    } else {
                        air_tile_spec()
                    }),
                forall|r: int, c: int|
                    0 <= r < TEST_MAP_ROWS && 0 <= c < TEST_MAP_COLS
                        ==> #[trigger] map.spec_tile_at(Layer::Sprites, r, c)
                        == air_tile_spec(),
            decreases TEST_MAP_ROWS - i,
        {
            map.set(Layer::Tiles, i, 0, wall_tile.clone());
            map.set(Layer::Tiles, i, TEST_MAP_COLS - 1, wall_tile.clone());
            i = i + 1;
        }

        // free-standing blocks above the floor
        map.set(Layer::Tiles, TEST_MAP_ROWS - 2, 3, wall_tile.clone());
        map.set(Layer::Tiles, TEST_MAP_ROWS - 2, 5, wall_tile.clone());
        map.set(Layer::Tiles, TEST_MAP_ROWS - 3, 4, wall_tile.clone());
        map.set(Layer::Tiles, TEST_MAP_ROWS - 4, 3, wall_tile.clone());

        // the decorative column of wall sprites
        i = 0;
        while i < TEST_MAP_ROWS
            invariant
                map.wf(),
                map.spec_rows() == TEST_MAP_ROWS,
                map.spec_cols() == TEST_MAP_COLS,
                *wall_tile == wall_tile_spec(wall_sprite),
                i <= TEST_MAP_ROWS,
                forall|r: int, c: int|
                    0 <= r < TEST_MAP_ROWS && 0 <= c < TEST_MAP_COLS
                        ==> #[trigger] map.spec_tile_at(Layer::Tiles, r, c)
                        == (if test_map_is_wall(r, c) {
                        wall_tile_spec(wall_sprite)
                    } else {
                        air_tile_spec()
                    }),
                forall|r: int, c: int|
                    0 <= r < TEST_MAP_ROWS && 0 <= c < TEST_MAP_COLS
                        ==> #[trigger] map.spec_tile_at(Layer::Sprites, r, c) == (if c == 7 && r
                        < i {
                        wall_tile_spec(wall_sprite)
                    } else {
                        air_tile_spec()
                    }),
            decreases TEST_MAP_ROWS - i,
        {
            map.set(Layer::Sprites, i, 7, wall_tile.clone());
            i = i + 1;
        }

        map
    }
}

/// Law: the collision query is deterministic. Its result is a function of
/// the grid and the rectangle alone, so any two result sequences obtained
/// from the same grid and the same rectangle are identical.
pub proof fn lemma_collision_query_deterministic(
    m: TileMap,
    rect: Rectangle,
    r1: Seq<CollisionTile>,
    r2: Seq<CollisionTile>,
)
    requires
        r1 == m.colliding_tiles_spec(rect),
        r2 == m.colliding_tiles_spec(rect),
    ensures
        r1 == r2,
{
}

/// Law: inclusive-end boundary policy. A zero-width rectangle whose left
/// and right edges both lie exactly on the tile boundary `k * TILE_SIZE`
/// still includes column `k`: every cell the query reports for it is in
/// column `k`.
pub proof fn lemma_boundary_column_included(m: TileMap, rect: Rectangle, k: int)
    requires
        0 <= rect.left,
        rect.left == k * (TILE_SIZE as int),
        rect.right == k * (TILE_SIZE as int),
    ensures
        tile_index(rect.left as int) == k,
        tile_index(rect.right as int) == k,
        forall|i: int|
            0 <= i < m.colliding_tiles_spec(rect).len()
                ==> #[trigger] m.colliding_tiles_spec(rect)[i].col == k,
{
    lemma_div_multiples_vanish(k, TILE_SIZE as int);
    assert((TILE_SIZE as int) * k == k * (TILE_SIZE as int)) by (nonlinear_arith);
    assert(tile_index(rect.left as int) == k);
    assert forall|i: int| 0 <= i < m.colliding_tiles_spec(rect).len()
        implies #[trigger] m.colliding_tiles_spec(rect)[i].col == k by {
        assert(i % 1 == 0);
    }
}

} // verus!
