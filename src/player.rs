use vstd::prelude::*;
use crate::fixed::SCALE;
use crate::map::TileMap;

verus! {

/// Largest displacement per axis that one move may ask for, in fixed-point units.
pub const MAX_MOVE: i64 = 1000000000;

/// The viewer: a fixed-point position and a facing angle in milliradians.
#[derive(Clone, Copy, Debug, PartialEq, Eq, Structural)]
pub struct Player {
    pub x: i64,
    pub y: i64,
    pub angle: i64,
}

/// Where a player `p` ends up after trying to move by `(dx, dy)`: there, if
/// that point is open floor on the map, else where it was.
pub open spec fn step_result(map: &TileMap, p: Player, dx: int, dy: int) -> Player {
    if map.open_at(p.x + dx, p.y + dy) {
        Player { x: (p.x + dx) as i64, y: (p.y + dy) as i64, angle: p.angle }
    } else {
        p
    }
}

impl Player {
    /// The player stands on `map` in an open cell.
    pub open spec fn wf(&self, map: &TileMap) -> bool {
        map.open_at(self.x as int, self.y as int)
    }

    /// Column of the cell the player stands in.
    pub open spec fn cell_col(&self) -> int {
        self.x as int / SCALE as int
    }

    /// Row of the cell the player stands in.
    pub open spec fn cell_row(&self) -> int {
        self.y as int / SCALE as int
    }

    /// Places a player at `(x, y)` facing `angle`; `None` unless that point is
    /// on the map in an open cell.
    pub fn new(map: &TileMap, x: i64, y: i64, angle: i64) -> (r: Option<Player>)
        requires
            map.wf(),
        ensures
            r.is_some() <==> map.open_at(x as int, y as int),
            r matches Some(p) ==> p == (Player { x, y, angle }),
    {
        if x < 0 || y < 0 || x >= (map.width as i64) * SCALE || y >= (map.height as i64) * SCALE {
            return None;
        }
        if map.is_wall(x, y) {
            return None;
        }
        Some(Player { x, y, angle })
    }

    /// Turns left by `amount` when `left` is held and right by `amount` when
    /// `right` is held; both together cancel out.
    pub fn turn(&mut self, left: bool, right: bool, amount: i64)
        requires
            0 <= amount,
            i64::MIN + amount <= old(self).angle <= i64::MAX - amount,
        ensures
            final(self).x == old(self).x,
            final(self).y == old(self).y,
            final(self).angle == old(self).angle - (if left { amount as int } else { 0 }) + (
            if right { amount as int } else { 0 }),
    {
        if left {
            self.angle = self.angle - amount;
        }
        if right {
            self.angle = self.angle + amount;
        }
    }

    /// Moves by `(dx, dy)`, then steps back if the new point is in a wall cell
    /// or off the map, so that the player only ever stands on open floor.
    pub fn try_move(&mut self, map: &TileMap, dx: i64, dy: i64)
        requires
            map.wf(),
            old(self).wf(map),
            -MAX_MOVE <= dx <= MAX_MOVE,
            -MAX_MOVE <= dy <= MAX_MOVE,
        ensures
            final(self).wf(map),
            *final(self) == step_result(map, *old(self), dx as int, dy as int),
            !map.open_at(old(self).x + dx, old(self).y + dy) ==> *final(self) == *old(self),
    {
        self.x = self.x + dx;
        self.y = self.y + dy;
        let blocked = self.x < 0 || self.y < 0 || self.x >= (map.width as i64) * SCALE || self.y
            >= (map.height as i64) * SCALE || map.is_wall(self.x, self.y);
        if blocked {
            self.x = self.x - dx;
            self.y = self.y - dy;
        }
    }
}

impl Player {
    /// One frame of walking: forward along `(dx, dy)` when `forward` is held,
    /// then back along it when `backward` is held, each step refused if it
    /// would end in a wall or off the map.
    pub fn walk(&mut self, map: &TileMap, forward: bool, backward: bool, dx: i64, dy: i64)
        requires
            map.wf(),
            old(self).wf(map),
            -MAX_MOVE <= dx <= MAX_MOVE,
            -MAX_MOVE <= dy <= MAX_MOVE,
        ensures
            final(self).wf(map),
            *final(self) == ({
                let ahead = if forward {
                    step_result(map, *old(self), dx as int, dy as int)
                } else {
                    *old(self)
                };
                if backward {
                    step_result(map, ahead, -dx, -dy)
                } else {
                    ahead
                }
            }),
    {
        if forward {
            self.try_move(map, dx, dy);
        }
        if backward {
            self.try_move(map, -dx, -dy);
        }
    }
}

/// A well-placed player's own cell is never a wall, whatever way it faces.
pub proof fn lemma_player_cell_open(map: &TileMap, p: Player)
    requires
        map.wf(),
        p.wf(map),
    ensures
        map.contains(p.x as int, p.y as int),
        !map.wall_cell(p.cell_col(), p.cell_row()),
{
}

} // verus!
