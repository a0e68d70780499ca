use vstd::prelude::*;
use crate::fixed::{lemma_grid_index, MAX_MAP_SIDE, SCALE};

verus! {

/// Glyph of a wall cell.
pub const WALL: u8 = 35;

/// A fixed grid of cells stored row by row; a cell holding `WALL` blocks
/// movement and rays, every other cell is open floor.
pub struct TileMap {
    pub width: usize,
    pub height: usize,
    pub cells: Vec<u8>,
}

impl TileMap {
    pub open spec fn wf(&self) -> bool {
        &&& 1 <= self.width <= MAX_MAP_SIDE
        &&& 1 <= self.height <= MAX_MAP_SIDE
        &&& self.cells@.len() == self.width * self.height
    }

    /// The cell in column `col` and row `row` is a wall.
    pub open spec fn wall_cell(&self, col: int, row: int) -> bool {
        self.cells@[row * self.width + col] == WALL
    }

    /// The fixed-point point `(x, y)` lies on the map.
    pub open spec fn contains(&self, x: int, y: int) -> bool {
        0 <= x < self.width * SCALE && 0 <= y < self.height * SCALE
    }

    /// The fixed-point point `(x, y)` lies on the map in an open cell.
    pub open spec fn open_at(&self, x: int, y: int) -> bool {
        self.contains(x, y) && !self.wall_cell(x as int / SCALE as int, y as int / SCALE as int)
    }

    /// Builds a map of `width` by `height` cells; `None` unless both sides are
    /// between 1 and the largest side and `cells` holds exactly one byte per cell.
    pub fn new(width: usize, height: usize, cells: Vec<u8>) -> (r: Option<TileMap>)
        ensures
            r.is_some() <==> (1 <= width <= MAX_MAP_SIDE && 1 <= height <= MAX_MAP_SIDE
                && cells@.len() == width * height),
            r matches Some(m) ==> m.wf() && m.width == width && m.height == height && m.cells@
                == cells@,
    {
        if width < 1 || width > MAX_MAP_SIDE || height < 1 || height > MAX_MAP_SIDE {
            return None;
        }
        proof {
            lemma_grid_index(0, 0, width as int, height as int);
        }
        if cells.len() != width * height {
            return None;
        }
        Some(TileMap { width, height, cells })
    }

    /// Whether the cell in column `col` and row `row` is a wall.
    pub fn cell_is_wall(&self, col: usize, row: usize) -> (r: bool)
        requires
            self.wf(),
            col < self.width,
            row < self.height,
        ensures
            r == self.wall_cell(col as int, row as int),
    {
        proof {
            lemma_grid_index(col as int, row as int, self.width as int, self.height as int);
        }
        self.cells[row * self.width + col] == WALL
    }

    /// Whether the cell holding the fixed-point point `(x, y)` is a wall; the
    /// coordinates are truncated to cell indices.
    pub fn is_wall(&self, x: i64, y: i64) -> (r: bool)
        requires
            self.wf(),
            self.contains(x as int, y as int),
        ensures
            r == self.wall_cell(x as int / SCALE as int, y as int / SCALE as int),
    {
        let col = (x / SCALE) as usize;
        let row = (y / SCALE) as usize;
        self.cell_is_wall(col, row)
    }
}

} // verus!
