use vstd::prelude::*;
use crate::fixed::{MAX_MAP_SIDE, RAY_STEP, SCALE};
use crate::map::TileMap;

verus! {

/// Largest depth a ray may be cast to, in fixed-point units (a thousand cells).
pub const MAX_DEPTH_LIMIT: i64 = 1000000;

/// A ray counts as grazing a corner when the cosine of the angle between them
/// exceeds about cos(0.01 rad): its square is compared against this ratio.
pub const ALIGN_NUM: i128 = 9999;

/// Denominator of the squared-cosine tolerance `ALIGN_NUM / ALIGN_DEN`.
pub const ALIGN_DEN: i128 = 10000;

/// A ray from a fixed-point origin `(x, y)` along the direction `(dx, dy)`,
/// a unit vector scaled by `SCALE` (so `(sin a, cos a)` for angle `a`).
#[derive(Clone, Copy, Debug)]
pub struct Ray {
    pub x: i64,
    pub y: i64,
    pub dx: i64,
    pub dy: i64,
}

/// What one cast reports: the distance travelled (fixed-point), whether a wall
/// stopped it, and whether it struck close to one of that wall cell's corners.
#[derive(Clone, Copy, Debug, PartialEq, Eq, Structural)]
pub struct RayHit {
    pub distance: i64,
    pub hit: bool,
    pub boundary: bool,
}

impl Ray {
    /// The origin lies on `map` and each direction component is at most one unit.
    pub open spec fn wf(&self, map: &TileMap) -> bool {
        &&& map.contains(self.x as int, self.y as int)
        &&& -SCALE <= self.dx <= SCALE
        &&& -SCALE <= self.dy <= SCALE
    }
}

/// Fixed-point units per cell in the squared scale used by probes.
pub open spec fn cell_span() -> int {
    SCALE * SCALE
}

/// Horizontal position of the `k`-th probe, in the squared scale.
pub open spec fn probe_x(ray: Ray, k: int) -> int {
    ray.x * SCALE + ray.dx * (k * RAY_STEP)
}

/// Vertical position of the `k`-th probe, in the squared scale.
pub open spec fn probe_y(ray: Ray, k: int) -> int {
    ray.y * SCALE + ray.dy * (k * RAY_STEP)
}

/// Column of the cell under the `k`-th probe.
pub open spec fn probe_col(ray: Ray, k: int) -> int {
    probe_x(ray, k) / cell_span()
}

/// Row of the cell under the `k`-th probe.
pub open spec fn probe_row(ray: Ray, k: int) -> int {
    probe_y(ray, k) / cell_span()
}

/// The `k`-th probe lies on the map.
pub open spec fn probe_inside(map: &TileMap, ray: Ray, k: int) -> bool {
    &&& 0 <= probe_x(ray, k) < map.width * cell_span()
    &&& 0 <= probe_y(ray, k) < map.height * cell_span()
}

/// The `k`-th probe lies on the map, in a wall cell.
pub open spec fn probe_wall(map: &TileMap, ray: Ray, k: int) -> bool {
    probe_inside(map, ray, k) && map.wall_cell(probe_col(ray, k), probe_row(ray, k))
}

/// The `k`-th probe lies on the map, in an open cell.
pub open spec fn probe_clear(map: &TileMap, ray: Ray, k: int) -> bool {
    probe_inside(map, ray, k) && !map.wall_cell(probe_col(ray, k), probe_row(ray, k))
}

/// Probe `k` is within `max_depth` and is the first one that leaves open floor,
/// and it does so by landing on a wall.
pub open spec fn first_wall(map: &TileMap, max_depth: int, ray: Ray, k: int) -> bool {
    &&& 1 <= k
    &&& k * RAY_STEP <= max_depth
    &&& probe_wall(map, ray, k)
    &&& forall|j: int| 1 <= j < k ==> #[trigger] probe_clear(map, ray, j)
}

/// Horizontal offset from the ray origin to corner `i` of a cell in column
/// `col`; corners are numbered column-major: (0,0), (0,1), (1,0), (1,1).
pub open spec fn corner_vx(ray: Ray, col: int, i: int) -> int {
    (col + i / 2) * SCALE - ray.x
}

/// Vertical offset from the ray origin to corner `i` of a cell in row `row`.
pub open spec fn corner_vy(ray: Ray, row: int, i: int) -> int {
    (row + i % 2) * SCALE - ray.y
}

/// Squared distance from the ray origin to corner `i`.
pub open spec fn corner_dist2(ray: Ray, col: int, row: int, i: int) -> int {
    corner_vx(ray, col, i) * corner_vx(ray, col, i) + corner_vy(ray, row, i) * corner_vy(
        ray,
        row,
        i,
    )
}

/// The vector `(vx, vy)` points within the corner tolerance of `(dx, dy)`.
pub open spec fn aligned(dx: int, dy: int, vx: int, vy: int) -> bool {
    let dot = dx * vx + dy * vy;
    &&& dot > 0
    &&& ALIGN_DEN * (dot * dot) > ALIGN_NUM * ((dx * dx + dy * dy) * (vx * vx + vy * vy))
}

/// Corner `j` ranks after corner `i` when sorted by distance, ties kept in
/// corner order.
pub open spec fn ranks_after(ray: Ray, col: int, row: int, j: int, i: int) -> bool {
    j != i && (corner_dist2(ray, col, row, j) > corner_dist2(ray, col, row, i) || (
    corner_dist2(ray, col, row, j) == corner_dist2(ray, col, row, i) && j > i))
}

/// Corner `i` is among the three nearest: some other corner ranks after it.
pub open spec fn among_nearest(ray: Ray, col: int, row: int, i: int) -> bool {
    ranks_after(ray, col, row, 0, i) || ranks_after(ray, col, row, 1, i) || ranks_after(
        ray,
        col,
        row,
        2,
        i,
    ) || ranks_after(ray, col, row, 3, i)
}

/// Corner `i` is among the three nearest and the ray passes close to it.
pub open spec fn grazes(ray: Ray, col: int, row: int, i: int) -> bool {
    among_nearest(ray, col, row, i) && aligned(
        ray.dx as int,
        ray.dy as int,
        corner_vx(ray, col, i),
        corner_vy(ray, row, i),
    )
}

/// The ray passes close to one of the three nearest corners of cell `(col, row)`.
pub open spec fn near_corner(ray: Ray, col: int, row: int) -> bool {
    grazes(ray, col, row, 0) || grazes(ray, col, row, 1) || grazes(ray, col, row, 2) || grazes(
        ray,
        col,
        row,
        3,
    )
}

/// The outcome of casting `ray` on `map` up to `max_depth`: the first wall it
/// meets, or `max_depth` with no hit when it leaves the map or runs out of depth.
pub open spec fn ray_result(map: &TileMap, max_depth: int, ray: Ray) -> RayHit {
    if exists|k: int| first_wall(map, max_depth, ray, k) {
        let k = choose|k: int| first_wall(map, max_depth, ray, k);
        RayHit {
            distance: (k * RAY_STEP) as i64,
            hit: true,
            boundary: near_corner(ray, probe_col(ray, k), probe_row(ray, k)),
        }
    } else {
        RayHit { distance: max_depth as i64, hit: false, boundary: false }
    }
}

proof fn lemma_mul_bound(a: int, b: int, x: int, y: int)
    requires
        -x <= a <= x,
        -y <= b <= y,
    ensures
        -(x * y) <= a * b <= x * y,
{
    assert(-(x * y) <= a * b <= x * y) by (nonlinear_arith)
        requires
            -x <= a <= x,
            -y <= b <= y,
    ;
}

/// At most one probe is the first wall.
proof fn lemma_first_wall_unique(map: &TileMap, max_depth: int, ray: Ray, k: int, m: int)
    requires
        first_wall(map, max_depth, ray, k),
        first_wall(map, max_depth, ray, m),
    ensures
        k == m,
{
    if k < m {
        assert(probe_clear(map, ray, k));
    } else if m < k {
        assert(probe_clear(map, ray, m));
    }
}

/// Squared distance to corner `i` of cell `(col, row)`, and whether the ray
/// grazes it.
fn corner_metrics(ray: Ray, col: i64, row: i64, i: i64) -> (r: (i128, bool))
    requires
        0 <= col <= MAX_MAP_SIDE,
        0 <= row <= MAX_MAP_SIDE,
        0 <= i < 4,
        0 <= ray.x <= MAX_MAP_SIDE * SCALE,
        0 <= ray.y <= MAX_MAP_SIDE * SCALE,
        -SCALE <= ray.dx <= SCALE,
        -SCALE <= ray.dy <= SCALE,
    ensures
        r.0 == corner_dist2(ray, col as int, row as int, i as int),
        r.1 == aligned(
            ray.dx as int,
            ray.dy as int,
            corner_vx(ray, col as int, i as int),
            corner_vy(ray, row as int, i as int),
        ),
{
    let vx = ((col + i / 2) * SCALE - ray.x) as i128;
    let vy = ((row + i % 2) * SCALE - ray.y) as i128;
    let dx = ray.dx as i128;
    let dy = ray.dy as i128;
    proof {
        lemma_mul_bound(vx as int, vx as int, 1100000, 1100000);
        lemma_mul_bound(vy as int, vy as int, 1100000, 1100000);
        lemma_mul_bound(dx as int, vx as int, 1000, 1100000);
        lemma_mul_bound(dy as int, vy as int, 1000, 1100000);
        lemma_mul_bound(dx as int, dx as int, SCALE as int, SCALE as int);
        lemma_mul_bound(dy as int, dy as int, SCALE as int, SCALE as int);
    }
    let len2 = vx * vx + vy * vy;
    let dot = dx * vx + dy * vy;
    let dir2 = dx * dx + dy * dy;
    proof {
        lemma_mul_bound(dot as int, dot as int, 2200000000, 2200000000);
        lemma_mul_bound(dir2 as int, len2 as int, 2000000, 2420000000000);
    }
    let aligned = dot > 0 && ALIGN_DEN * (dot * dot) > ALIGN_NUM * (dir2 * len2);
    (len2, aligned)
}

/// Whether the ray grazes one of the three nearest corners of cell `(col, row)`.
fn grazes_near_corner(ray: Ray, col: i64, row: i64) -> (r: bool)
    requires
        0 <= col < MAX_MAP_SIDE,
        0 <= row < MAX_MAP_SIDE,
        0 <= ray.x <= MAX_MAP_SIDE * SCALE,
        0 <= ray.y <= MAX_MAP_SIDE * SCALE,
        -SCALE <= ray.dx <= SCALE,
        -SCALE <= ray.dy <= SCALE,
    ensures
        r == near_corner(ray, col as int, row as int),
{
    let (d0, a0) = corner_metrics(ray, col, row, 0);
    let (d1, a1) = corner_metrics(ray, col, row, 1);
    let (d2, a2) = corner_metrics(ray, col, row, 2);
    let (d3, a3) = corner_metrics(ray, col, row, 3);
    // the farthest corner, the last one among equals, is left out
    let mut far: i64 = 0;
    let mut far_d2 = d0;
    if d1 >= far_d2 {
        far = 1;
        far_d2 = d1;
    }
    if d2 >= far_d2 {
        far = 2;
        far_d2 = d2;
    }
    if d3 >= far_d2 {
        far = 3;
    }
    (far != 0 && a0) || (far != 1 && a1) || (far != 2 && a2) || (far != 3 && a3)
}

/// Marches `ray` across `map` in steps of `RAY_STEP` until a probe lands on a
/// wall, leaves the map, or the depth reaches `max_depth`.
pub fn cast_ray(map: &TileMap, max_depth: i64, ray: Ray) -> (r: RayHit)
    requires
        map.wf(),
        ray.wf(map),
        RAY_STEP <= max_depth <= MAX_DEPTH_LIMIT,
        max_depth % RAY_STEP == 0,
    ensures
        r == ray_result(map, max_depth as int, ray),
        0 < r.distance <= max_depth,
{
    let steps = max_depth / RAY_STEP;
    let span = SCALE * SCALE;
    let mut k: i64 = 0;
    while k < steps
        invariant
            map.wf(),
            ray.wf(map),
            RAY_STEP <= max_depth <= MAX_DEPTH_LIMIT,
            steps * RAY_STEP == max_depth,
            span == cell_span(),
            0 <= k <= steps,
            forall|j: int| 1 <= j <= k ==> #[trigger] probe_clear(map, ray, j),
        decreases steps - k,
    {
        k = k + 1;
        let depth = k * RAY_STEP;
        proof {
            lemma_mul_bound(ray.dx as int, depth as int, SCALE as int, MAX_DEPTH_LIMIT as int);
            lemma_mul_bound(ray.dy as int, depth as int, SCALE as int, MAX_DEPTH_LIMIT as int);
        }
        let px = ray.x * SCALE + ray.dx * depth;
        let py = ray.y * SCALE + ray.dy * depth;
        assert(px == probe_x(ray, k as int) && py == probe_y(ray, k as int));
        if px < 0 || py < 0 || px >= (map.width as i64) * span || py >= (map.height as i64) * span {
            proof {
                assert(!probe_inside(map, ray, k as int));
                assert forall|m: int| !first_wall(map, max_depth as int, ray, m) by {
                    if first_wall(map, max_depth as int, ray, m) {
                        if m < k {
                            assert(probe_clear(map, ray, m));
                        } else if m > k {
                            assert(probe_clear(map, ray, k as int));
                        }
                    }
                }
            }
            return RayHit { distance: max_depth, hit: false, boundary: false };
        }
        let col = px / span;
        let row = py / span;
        assert(col == probe_col(ray, k as int) && row == probe_row(ray, k as int));
        if map.cell_is_wall(col as usize, row as usize) {
            proof {
                assert(first_wall(map, max_depth as int, ray, k as int));
                let m = choose|m: int| first_wall(map, max_depth as int, ray, m);
                lemma_first_wall_unique(map, max_depth as int, ray, k as int, m);
            }
            let boundary = grazes_near_corner(ray, col, row);
            return RayHit { distance: depth, hit: true, boundary };
        }
    }
    proof {
        assert forall|m: int| !first_wall(map, max_depth as int, ray, m) by {
            if first_wall(map, max_depth as int, ray, m) {
                assert(m <= steps) by (nonlinear_arith)
                    requires
                        m * RAY_STEP <= max_depth,
                        steps * RAY_STEP == max_depth,
                ;
                assert(probe_clear(map, ray, m));
            }
        }
    }
    RayHit { distance: max_depth, hit: false, boundary: false }
}

/// The first probe, up to probe `n`, that does not land on open floor.
proof fn lemma_first_block(map: &TileMap, ray: Ray, n: int) -> (j: int)
    requires
        1 <= n,
        !probe_clear(map, ray, n),
    ensures
        1 <= j <= n,
        !probe_clear(map, ray, j),
        forall|i: int| 1 <= i < j ==> #[trigger] probe_clear(map, ray, i),
    decreases n,
{
    if forall|i: int| 1 <= i < n ==> #[trigger] probe_clear(map, ray, i) {
        n
    } else {
        let i = choose|i: int| 1 <= i < n && !#[trigger] probe_clear(map, ray, i);
        lemma_first_block(map, ray, i)
    }
}

/// A probe between the origin and probe `n` lies between them.
proof fn lemma_probe_between(ray: Ray, j: int, n: int)
    requires
        0 <= j <= n,
    ensures
        ray.dx >= 0 ==> probe_x(ray, 0) <= probe_x(ray, j) <= probe_x(ray, n),
        ray.dx < 0 ==> probe_x(ray, n) <= probe_x(ray, j) <= probe_x(ray, 0),
        ray.dy >= 0 ==> probe_y(ray, 0) <= probe_y(ray, j) <= probe_y(ray, n),
        ray.dy < 0 ==> probe_y(ray, n) <= probe_y(ray, j) <= probe_y(ray, 0),
        probe_x(ray, 0) == ray.x * SCALE,
        probe_y(ray, 0) == ray.y * SCALE,
{
    let (dx, dy) = (ray.dx as int, ray.dy as int);
    assert(dx * (0 * RAY_STEP) == 0 && dy * (0 * RAY_STEP) == 0) by (nonlinear_arith);
    assert(dx >= 0 ==> 0 <= dx * (j * RAY_STEP) <= dx * (n * RAY_STEP)) by (nonlinear_arith)
        requires
            0 <= j <= n,
    ;
    assert(dx < 0 ==> dx * (n * RAY_STEP) <= dx * (j * RAY_STEP) <= 0) by (nonlinear_arith)
        requires
            0 <= j <= n,
    ;
    assert(dy >= 0 ==> 0 <= dy * (j * RAY_STEP) <= dy * (n * RAY_STEP)) by (nonlinear_arith)
        requires
            0 <= j <= n,
    ;
    assert(dy < 0 ==> dy * (n * RAY_STEP) <= dy * (j * RAY_STEP) <= 0) by (nonlinear_arith)
        requires
            0 <= j <= n,
    ;
}

/// A ray fired at a wall one cell away hits it: it reports a hit no farther
/// than one cell, well within one cell plus one step.
pub proof fn lemma_wall_one_cell_ahead(map: &TileMap, max_depth: int, ray: Ray)
    requires
        map.wf(),
        ray.wf(map),
        SCALE <= max_depth,
        probe_wall(map, ray, SCALE as int / RAY_STEP as int),
    ensures
        ray_result(map, max_depth, ray).hit,
        ray_result(map, max_depth, ray).distance <= SCALE,
{
    let n = SCALE as int / RAY_STEP as int;
    let j = lemma_first_block(map, ray, n);
    lemma_probe_between(ray, j, n);
    assert(cell_span() == 1000000);
    assert(ray.x * 1000 < map.width * 1000000 && ray.y * 1000 < map.height * 1000000) by (
    nonlinear_arith)
        requires
            ray.x < map.width * 1000,
            ray.y < map.height * 1000,
    ;
    assert(probe_inside(map, ray, j));
    assert(first_wall(map, max_depth, ray, j));
    let k = choose|k: int| first_wall(map, max_depth, ray, k);
    lemma_first_wall_unique(map, max_depth, ray, j, k);
}

/// A ray with no wall on its path within `max_depth` goes the full depth: it
/// reports `max_depth`, no hit and no wall edge.
pub proof fn lemma_open_path_reaches_depth(map: &TileMap, max_depth: int, ray: Ray)
    requires
        forall|k: int|
            1 <= k && k * RAY_STEP <= max_depth ==> !#[trigger] probe_wall(map, ray, k),
    ensures
        ray_result(map, max_depth, ray) == (RayHit {
            distance: max_depth as i64,
            hit: false,
            boundary: false,
        }),
{
    assert forall|k: int| !first_wall(map, max_depth, ray, k) by {
        if first_wall(map, max_depth, ray, k) {
            assert(!probe_wall(map, ray, k));
        }
    }
}

} // verus!
