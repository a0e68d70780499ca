use vstd::prelude::*;
use crate::fixed::{lemma_grid_index, lemma_grid_index_injective, MAX_SCREEN_SIDE, RAY_STEP, SCALE};
use crate::map::TileMap;
use crate::player::Player;
use crate::ray::{cast_ray, ray_result, Ray, RayHit, MAX_DEPTH_LIMIT};

verus! {

/// Empty cell: sky, far walls, wall edges.
pub const BLANK: u16 = 32;

/// Wall within a quarter of the view depth.
pub const SHADE_FULL: u16 = 0x2588;

/// Wall within a third of the view depth.
pub const SHADE_DARK: u16 = 0x2593;

/// Wall within half of the view depth.
pub const SHADE_MEDIUM: u16 = 0x2592;

/// Wall nearer than the view depth.
pub const SHADE_LIGHT: u16 = 0x2591;

/// Floor nearest to the viewer.
pub const FLOOR_NEAR: u16 = 35;

/// Floor a little farther off.
pub const FLOOR_MID: u16 = 120;

/// Floor farther off still.
pub const FLOOR_FAR: u16 = 46;

/// Floor farthest off before the blank horizon.
pub const FLOOR_FARTHEST: u16 = 45;

/// Marks the player on the minimap.
pub const PLAYER_MARK: u16 = 64;

/// Widest field of view, in milliradians.
pub const MAX_FOV: i64 = 100000;

/// Largest angle magnitude that a column angle is computed for, in milliradians.
pub const MAX_ANGLE: i64 = 1000000000000000;

/// How far rays reach and how wide the view is.
#[derive(Clone, Copy, Debug, PartialEq, Eq, Structural)]
pub struct Camera {
    /// Depth in fixed-point units; a multiple of `RAY_STEP`.
    pub max_depth: i64,
    /// Field of view in milliradians.
    pub fov: i64,
}

impl Camera {
    pub open spec fn wf(&self) -> bool {
        &&& RAY_STEP <= self.max_depth <= MAX_DEPTH_LIMIT
        &&& self.max_depth % RAY_STEP == 0
        &&& 0 <= self.fov <= MAX_FOV
    }

    /// `None` unless the depth is a positive multiple of `RAY_STEP` within the
    /// depth limit and the field of view lies between zero and `MAX_FOV`.
    pub fn new(max_depth: i64, fov: i64) -> (r: Option<Camera>)
        ensures
            r.is_some() <==> (RAY_STEP <= max_depth <= MAX_DEPTH_LIMIT && max_depth % RAY_STEP
                == 0 && 0 <= fov <= MAX_FOV),
            r matches Some(v) ==> v == (Camera { max_depth, fov }) && v.wf(),
    {
        if max_depth < RAY_STEP || max_depth > MAX_DEPTH_LIMIT || max_depth % RAY_STEP != 0 {
            return None;
        }
        if fov < 0 || fov > MAX_FOV {
            return None;
        }
        Some(Camera { max_depth, fov })
    }
}

/// A character frame of `width` by `height` cells stored row by row.
pub struct Screen {
    pub width: usize,
    pub height: usize,
    pub cells: Vec<u16>,
}

/// The glyph of a wall strip at `distance`: blank at a wall edge, else the
/// shade of the distance band, blank from `max_depth` on.
pub open spec fn wall_glyph(max_depth: int, distance: int, boundary: bool) -> u16 {
    if boundary {
        BLANK
    } else if 4 * distance <= max_depth {
        SHADE_FULL
    } else if 3 * distance <= max_depth {
        SHADE_DARK
    } else if 2 * distance <= max_depth {
        SHADE_MEDIUM
    } else if distance < max_depth {
        SHADE_LIGHT
    } else {
        BLANK
    }
}

/// The floor glyph of `row`, by `b = 2 * (height - row) / height`, the row's
/// distance from the bottom in half-screens: under 1/4, 1/2, 3/4 and 9/10
/// give ever sparser glyphs, the rest is blank.
pub open spec fn floor_glyph(height: int, row: int) -> u16 {
    let gap = height - row;
    if 8 * gap < height {
        FLOOR_NEAR
    } else if 4 * gap < height {
        FLOOR_MID
    } else if 8 * gap < 3 * height {
        FLOOR_FAR
    } else if 20 * gap < 9 * height {
        FLOOR_FARTHEST
    } else {
        BLANK
    }
}

/// The last sky row of a column whose wall is `distance` away: half the
/// height less the height divided by the distance in cells.
pub open spec fn ceiling_row(height: int, distance: int) -> int {
    height / 2 - (height * SCALE) / distance
}

/// The last wall row of such a column; the strip is centred on the screen.
pub open spec fn floor_row(height: int, distance: int) -> int {
    height - ceiling_row(height, distance)
}

/// The glyph at `row` of a column whose ray reported `hit`.
pub open spec fn column_glyph(camera: Camera, height: int, hit: RayHit, row: int) -> u16 {
    let ceiling = ceiling_row(height, hit.distance as int);
    if row < ceiling {
        BLANK
    } else if ceiling < row && row <= floor_row(height, hit.distance as int) {
        wall_glyph(camera.max_depth as int, hit.distance as int, hit.boundary)
    } else {
        floor_glyph(height, row)
    }
}

/// The row on which text asked for at `line` is written: the last row when
/// `line` lies below the screen.
pub open spec fn text_row(height: int, line: int) -> int {
    if line < height {
        line
    } else {
        height - 1
    }
}

/// The angle of the ray for column `col`: the view sweeps from half the field
/// of view left of `angle` in equal parts across the columns.
pub open spec fn column_angle_of(camera: Camera, width: int, angle: int, col: int) -> int {
    angle - camera.fov / 2 + (col * camera.fov) / width
}

/// The ray of column `col` when the columns look along `dirs`.
pub open spec fn column_ray(player: Player, dirs: Seq<(i64, i64)>, col: int) -> Ray {
    Ray { x: player.x, y: player.y, dx: dirs[col].0, dy: dirs[col].1 }
}

/// The map cell `(col, row)` as a screen glyph.
pub open spec fn map_glyph(map: &TileMap, col: int, row: int) -> u16 {
    map.cells@[row * map.width + col] as u16
}

/// The shade of a wall strip at `distance`.
pub fn wall_shade(max_depth: i64, distance: i64, boundary: bool) -> (r: u16)
    requires
        0 <= max_depth <= MAX_DEPTH_LIMIT,
        0 <= distance <= MAX_DEPTH_LIMIT,
    ensures
        r == wall_glyph(max_depth as int, distance as int, boundary),
{
    if boundary {
        BLANK
    } else if 4 * distance <= max_depth {
        SHADE_FULL
    } else if 3 * distance <= max_depth {
        SHADE_DARK
    } else if 2 * distance <= max_depth {
        SHADE_MEDIUM
    } else if distance < max_depth {
        SHADE_LIGHT
    } else {
        BLANK
    }
}

/// The floor glyph of `row` on a screen `height` rows high.
pub fn floor_shade(height: usize, row: usize) -> (r: u16)
    requires
        height <= MAX_SCREEN_SIDE,
        row <= height,
    ensures
        r == floor_glyph(height as int, row as int),
{
    let gap = height - row;
    if 8 * gap < height {
        FLOOR_NEAR
    } else if 4 * gap < height {
        FLOOR_MID
    } else if 8 * gap < 3 * height {
        FLOOR_FAR
    } else if 20 * gap < 9 * height {
        FLOOR_FARTHEST
    } else {
        BLANK
    }
}

/// The last sky row and the last wall row of a column whose wall is
/// `distance` away.
pub fn column_extent(height: usize, distance: i64) -> (r: (i64, i64))
    requires
        height <= MAX_SCREEN_SIDE,
        0 < distance,
    ensures
        r.0 == ceiling_row(height as int, distance as int),
        r.1 == floor_row(height as int, distance as int),
        r.0 + r.1 == height,
{
    let h = height as i64;
    let ceiling = h / 2 - (h * SCALE) / distance;
    (ceiling, h - ceiling)
}

/// The angle of the ray cast for column `col`.
pub fn column_angle(camera: Camera, width: usize, angle: i64, col: usize) -> (r: i64)
    requires
        camera.wf(),
        col < width <= MAX_SCREEN_SIDE,
        -MAX_ANGLE <= angle <= MAX_ANGLE,
    ensures
        r == column_angle_of(camera, width as int, angle as int, col as int),
{
    assert((col as int) * camera.fov <= MAX_SCREEN_SIDE * MAX_FOV) by (nonlinear_arith)
        requires
            col <= MAX_SCREEN_SIDE,
            0 <= camera.fov <= MAX_FOV,
    ;
    let sweep = (col as i64) * camera.fov;
    angle - camera.fov / 2 + sweep / (width as i64)
}

impl Screen {
    pub open spec fn wf(&self) -> bool {
        &&& 1 <= self.width <= MAX_SCREEN_SIDE
        &&& 1 <= self.height <= MAX_SCREEN_SIDE
        &&& self.cells@.len() == self.width * self.height
    }

    /// The glyph in column `col` and row `row`.
    pub open spec fn glyph(&self, col: int, row: int) -> u16 {
        self.cells@[row * self.width + col]
    }

    /// A blank screen; `None` unless both sides lie between 1 and `MAX_SCREEN_SIDE`.
    pub fn new(width: usize, height: usize) -> (r: Option<Screen>)
        ensures
            r.is_some() <==> (1 <= width <= MAX_SCREEN_SIDE && 1 <= height <= MAX_SCREEN_SIDE),
            r matches Some(s) ==> s.wf() && s.width == width && s.height == height && forall|
                i: int,
            |
                0 <= i < s.cells@.len() ==> s.cells@[i] == BLANK,
    {
        if width < 1 || width > MAX_SCREEN_SIDE || height < 1 || height > MAX_SCREEN_SIDE {
            return None;
        }
        proof {
            lemma_grid_index(0, 0, width as int, height as int);
        }
        let cells = vec![BLANK; width * height];
        Some(Screen { width, height, cells })
    }

    /// Fills column `col` for a ray that reported `hit`: sky above the
    /// ceiling, the wall shade down to the floor row, the floor gradient below.
    pub fn draw_column(&mut self, camera: Camera, col: usize, hit: RayHit)
        requires
            old(self).wf(),
            camera.wf(),
            col < old(self).width,
            0 < hit.distance <= camera.max_depth,
        ensures
            final(self).wf(),
            final(self).width == old(self).width,
            final(self).height == old(self).height,
            forall|r: int|
                0 <= r < final(self).height ==> #[trigger] final(self).glyph(col as int, r)
                    == column_glyph(camera, final(self).height as int, hit, r),
            forall|c: int, r: int|
                0 <= c < final(self).width && 0 <= r < final(self).height && c != col
                    ==> #[trigger] final(self).glyph(c, r) == old(self).glyph(c, r),
    {
        let (ceiling, floor) = column_extent(self.height, hit.distance);
        let shade = wall_shade(camera.max_depth, hit.distance, hit.boundary);
        let mut row: usize = 0;
        while row < self.height
            invariant
                self.wf(),
                self.width == old(self).width,
                self.height == old(self).height,
                col < self.width,
                0 <= row <= self.height,
                ceiling == ceiling_row(self.height as int, hit.distance as int),
                floor == floor_row(self.height as int, hit.distance as int),
                shade == wall_glyph(camera.max_depth as int, hit.distance as int, hit.boundary),
                forall|r: int|
                    0 <= r < row ==> #[trigger] self.glyph(col as int, r) == column_glyph(
                        camera,
                        self.height as int,
                        hit,
                        r,
                    ),
                forall|c: int, r: int|
                    0 <= c < self.width && 0 <= r < self.height && (c != col || r >= row)
                        ==> #[trigger] self.glyph(c, r) == old(self).glyph(c, r),
            decreases self.height - row,
        {
            let r = row as i64;
            let glyph = if r < ceiling {
                BLANK
            } else if ceiling < r && r <= floor {
                shade
            } else {
                floor_shade(self.height, row)
            };
            proof {
                lemma_grid_index(col as int, row as int, self.width as int, self.height as int);
            }
            let index = row * self.width + col;
            let ghost before = *self;
            self.cells.set(index, glyph);
            proof {
                assert forall|c: int, r: int|
                    0 <= c < self.width && 0 <= r < self.height && (c != col || r != row)
                        implies #[trigger] self.glyph(c, r) == before.glyph(c, r) by {
                    lemma_grid_index(c, r, self.width as int, self.height as int);
                    if r * self.width + c == index {
                        lemma_grid_index_injective(
                            c,
                            r,
                            col as int,
                            row as int,
                            self.width as int,
                        );
                    }
                }
                assert(self.glyph(col as int, row as int) == glyph);
            }
            row = row + 1;
        }
    }

    /// Casts one ray per column from the player, column `c` along
    /// `dirs[c]`, and draws each column from what its ray reports.
    pub fn render_view(&mut self, map: &TileMap, camera: Camera, player: Player, dirs: &Vec<(i64, i64)>)
        requires
            old(self).wf(),
            map.wf(),
            camera.wf(),
            player.wf(map),
            dirs@.len() == old(self).width,
            forall|c: int|
                0 <= c < dirs@.len() ==> -SCALE <= (#[trigger] dirs@[c]).0 <= SCALE && -SCALE
                    <= dirs@[c].1 <= SCALE,
        ensures
            final(self).wf(),
            final(self).width == old(self).width,
            final(self).height == old(self).height,
            forall|c: int, r: int|
                0 <= c < final(self).width && 0 <= r < final(self).height
                    ==> #[trigger] final(self).glyph(c, r) == column_glyph(
                    camera,
                    final(self).height as int,
                    ray_result(map, camera.max_depth as int, column_ray(player, dirs@, c)),
                    r,
                ),
    {
        let mut col: usize = 0;
        while col < self.width
            invariant
                self.wf(),
                map.wf(),
                camera.wf(),
                player.wf(map),
                self.width == old(self).width,
                self.height == old(self).height,
                dirs@.len() == self.width,
                forall|c: int|
                    0 <= c < dirs@.len() ==> -SCALE <= (#[trigger] dirs@[c]).0 <= SCALE && -SCALE
                        <= dirs@[c].1 <= SCALE,
                0 <= col <= self.width,
                forall|c: int, r: int|
                    0 <= c < col && 0 <= r < self.height ==> #[trigger] self.glyph(c, r)
                        == column_glyph(
                        camera,
                        self.height as int,
                        ray_result(map, camera.max_depth as int, column_ray(player, dirs@, c)),
                        r,
                    ),
            decreases self.width - col,
        {
            let (dx, dy) = dirs[col];
            let ray = Ray { x: player.x, y: player.y, dx, dy };
            assert(ray == column_ray(player, dirs@, col as int));
            let hit = cast_ray(map, camera.max_depth, ray);
            self.draw_column(camera, col, hit);
            col = col + 1;
        }
    }

    /// Draws one frame: the view from `player`, column `c` along `dirs[c]`,
    /// then the minimap over its top right corner, so that the minimap and
    /// the player's mark are never drawn over.
    pub fn compose(&mut self, map: &TileMap, camera: Camera, player: Player, dirs: &Vec<(i64, i64)>)
        requires
            old(self).wf(),
            map.wf(),
            camera.wf(),
            player.wf(map),
            map.width <= old(self).width,
            map.height <= old(self).height,
            dirs@.len() == old(self).width,
            forall|c: int|
                0 <= c < dirs@.len() ==> -SCALE <= (#[trigger] dirs@[c]).0 <= SCALE && -SCALE
                    <= dirs@[c].1 <= SCALE,
        ensures
            final(self).wf(),
            final(self).width == old(self).width,
            final(self).height == old(self).height,
            final(self).glyph(
                final(self).width - map.width + player.cell_col(),
                player.cell_row(),
            ) == PLAYER_MARK,
            forall|c: int, r: int|
                final(self).width - map.width <= c < final(self).width && 0 <= r < map.height && (
                c != final(self).width - map.width + player.cell_col() || r != player.cell_row())
                    ==> #[trigger] final(self).glyph(c, r) == map_glyph(
                    map,
                    c - (final(self).width - map.width),
                    r,
                ),
            forall|c: int, r: int|
                0 <= c < final(self).width && 0 <= r < final(self).height && (c < final(self).width
                    - map.width || r >= map.height) ==> #[trigger] final(self).glyph(c, r)
                    == column_glyph(
                    camera,
                    final(self).height as int,
                    ray_result(map, camera.max_depth as int, column_ray(player, dirs@, c)),
                    r,
                ),
    {
        self.render_view(map, camera, player, dirs);
        self.draw_minimap(map, player);
    }

    /// Copies `map` into the top right corner, one glyph per cell, then marks
    /// the player's cell on it.
    pub fn draw_minimap(&mut self, map: &TileMap, player: Player)
        requires
            old(self).wf(),
            map.wf(),
            player.wf(map),
            map.width <= old(self).width,
            map.height <= old(self).height,
        ensures
            final(self).wf(),
            final(self).width == old(self).width,
            final(self).height == old(self).height,
            final(self).glyph(
                final(self).width - map.width + player.cell_col(),
                player.cell_row(),
            ) == PLAYER_MARK,
            forall|c: int, r: int|
                final(self).width - map.width <= c < final(self).width && 0 <= r < map.height && (
                c != final(self).width - map.width + player.cell_col() || r != player.cell_row()) ==> #[trigger] final(self).glyph(c, r) == map_glyph(
                    map,
                    c - (final(self).width - map.width),
                    r,
                ),
            forall|c: int, r: int|
                0 <= c < final(self).width && 0 <= r < final(self).height && (c < final(self).width - map.width || r >= map.height) ==> #[trigger] final(self).glyph(c, r)
                    == old(self).glyph(c, r),
    {
        let left = self.width - map.width;
        let mut row: usize = 0;
        while row < map.height
            invariant
                self.wf(),
                map.wf(),
                self.width == old(self).width,
                self.height == old(self).height,
                map.width <= self.width,
                map.height <= self.height,
                left == self.width - map.width,
                0 <= row <= map.height,
                forall|c: int, r: int|
                    left <= c < self.width && 0 <= r < row ==> #[trigger] self.glyph(c, r)
                        == map_glyph(map, c - left, r),
                forall|c: int, r: int|
                    0 <= c < self.width && 0 <= r < self.height && (c < left || r >= row)
                        ==> #[trigger] self.glyph(c, r) == old(self).glyph(c, r),
            decreases map.height - row,
        {
            let mut col: usize = 0;
            while col < map.width
                invariant
                    self.wf(),
                    map.wf(),
                    self.width == old(self).width,
                    self.height == old(self).height,
                    map.width <= self.width,
                    map.height <= self.height,
                    left == self.width - map.width,
                    0 <= row < map.height,
                    0 <= col <= map.width,
                    forall|c: int, r: int|
                        left <= c < self.width && 0 <= r < row ==> #[trigger] self.glyph(c, r)
                            == map_glyph(map, c - left, r),
                    forall|c: int|
                        left <= c < left + col ==> #[trigger] self.glyph(c, row as int)
                            == map_glyph(map, c - left, row as int),
                    forall|c: int, r: int|
                        0 <= c < self.width && 0 <= r < self.height && (c < left || r > row || (r
                            == row && c >= left + col)) ==> #[trigger] self.glyph(c, r) == old(self).glyph(c, r),
                decreases map.width - col,
            {
                proof {
                    lemma_grid_index(col as int, row as int, map.width as int, map.height as int);
                    lemma_grid_index(
                        (left + col) as int,
                        row as int,
                        self.width as int,
                        self.height as int,
                    );
                }
                let glyph = map.cells[row * map.width + col] as u16;
                let index = row * self.width + left + col;
                self.set_cell(index, glyph, left + col, row);
                col = col + 1;
            }
            row = row + 1;
        }
        let pc = (player.x / SCALE) as usize;
        let pr = (player.y / SCALE) as usize;
        proof {
            lemma_grid_index((left + pc) as int, pr as int, self.width as int, self.height as int);
        }
        self.set_cell(pr * self.width + left + pc, PLAYER_MARK, left + pc, pr);
    }

    /// Writes `text` into one row from its first column on: row `line`, or the
    /// last row when `line` lies below the screen. Text longer than the row is
    /// cut at the row's end.
    pub fn write_text(&mut self, text: &Vec<u16>, line: usize)
        requires
            old(self).wf(),
        ensures
            final(self).wf(),
            final(self).width == old(self).width,
            final(self).height == old(self).height,
            forall|c: int|
                0 <= c < final(self).width ==> #[trigger] final(self).glyph(
                    c,
                    text_row(final(self).height as int, line as int),
                ) == if c < text@.len() {
                    text@[c]
                } else {
                    old(self).glyph(c, text_row(final(self).height as int, line as int))
                },
            forall|c: int, r: int|
                0 <= c < final(self).width && 0 <= r < final(self).height && r != text_row(
                    final(self).height as int,
                    line as int,
                ) ==> #[trigger] final(self).glyph(c, r) == old(self).glyph(c, r),
    {
        let row = if line < self.height {
            line
        } else {
            self.height - 1
        };
        let mut col: usize = 0;
        while col < self.width && col < text.len()
            invariant
                self.wf(),
                self.width == old(self).width,
                self.height == old(self).height,
                row == text_row(self.height as int, line as int),
                0 <= col <= self.width,
                col <= text@.len(),
                forall|c: int| 0 <= c < col ==> #[trigger] self.glyph(c, row as int) == text@[c],
                forall|c: int, r: int|
                    0 <= c < self.width && 0 <= r < self.height && (r != row || c >= col)
                        ==> #[trigger] self.glyph(c, r) == old(self).glyph(c, r),
            decreases self.width - col,
        {
            proof {
                lemma_grid_index(col as int, row as int, self.width as int, self.height as int);
            }
            self.set_cell(row * self.width + col, text[col], col, row);
            col = col + 1;
        }
    }

    /// Sets the glyph at `(col, row)`, whose index is `index`.
    fn set_cell(&mut self, index: usize, glyph: u16, col: usize, row: usize)
        requires
            old(self).wf(),
            col < old(self).width,
            row < old(self).height,
            index == row * old(self).width + col,
        ensures
            final(self).wf(),
            final(self).width == old(self).width,
            final(self).height == old(self).height,
            final(self).glyph(col as int, row as int) == glyph,
            forall|c: int, r: int|
                0 <= c < final(self).width && 0 <= r < final(self).height && (c != col || r != row)
                    ==> #[trigger] final(self).glyph(c, r) == old(self).glyph(c, r),
    {
        proof {
            lemma_grid_index(col as int, row as int, self.width as int, self.height as int);
        }
        self.cells.set(index, glyph);
        proof {
            assert forall|c: int, r: int|
                0 <= c < self.width && 0 <= r < self.height && (c != col || r != row) implies #[trigger] self.glyph(c, r) == old(self).glyph(c, r) by {
                lemma_grid_index(c, r, self.width as int, self.height as int);
                if r * self.width + c == index {
                    lemma_grid_index_injective(c, r, col as int, row as int, self.width as int);
                }
            }
        }
    }
}

} // verus!
