use raycaster::map::{TileMap, WALL};
use raycaster::player::Player;
use raycaster::ray::{cast_ray, Ray, RayHit};
use raycaster::screen::{
    column_angle, column_extent, floor_shade, wall_shade, Camera, Screen, BLANK, FLOOR_FAR,
    FLOOR_FARTHEST, FLOOR_MID, FLOOR_NEAR, PLAYER_MARK, SHADE_DARK, SHADE_FULL, SHADE_LIGHT,
    SHADE_MEDIUM,
};
use raycaster::{RAY_STEP, SCALE};

/// A square room of `side` cells whose outer ring is wall.
fn room(side: usize) -> TileMap {
    let mut cells = Vec::new();
    for row in 0..side {
        for col in 0..side {
            let edge = row == 0 || col == 0 || row == side - 1 || col == side - 1;
            cells.push(if edge { WALL } else { b'.' });
        }
    }
    TileMap::new(side, side, cells).unwrap()
}

/// A map of open floor only.
fn open_field(side: usize) -> TileMap {
    TileMap::new(side, side, vec![b'.'; side * side]).unwrap()
}

fn glyph(screen: &Screen, col: usize, row: usize) -> u16 {
    screen.cells[row * screen.width + col]
}

/// Directions of every column's ray, as `SCALE`-scaled unit vectors.
fn directions(camera: Camera, width: usize, angle: i64) -> Vec<(i64, i64)> {
    (0..width)
        .map(|col| {
            let a = column_angle(camera, width, angle, col) as f64 / 1000.0;
            ((a.sin() * 1000.0).round() as i64, (a.cos() * 1000.0).round() as i64)
        })
        .collect()
}

#[test]
fn map_rejects_inconsistent_sizes() {
    assert!(TileMap::new(4, 4, vec![b'.'; 15]).is_none());
    assert!(TileMap::new(0, 4, vec![]).is_none());
    assert!(TileMap::new(4, 4, vec![b'.'; 16]).is_some());
}

#[test]
fn is_wall_truncates_to_cells() {
    let map = room(16);
    assert!(map.is_wall(0, 8000));
    assert!(map.is_wall(999, 8000));
    assert!(!map.is_wall(1000, 8000));
    assert!(map.is_wall(15999, 15999));
    assert!(!map.is_wall(8500, 8500));
    assert!(map.cell_is_wall(15, 3));
}

#[test]
fn player_on_open_floor_is_not_in_a_wall() {
    let map = room(16);
    for &(x, y) in &[(1001, 1001), (8000, 8000), (14999, 14999), (1500, 14500)] {
        for angle in [-3141, 0, 1570, 6283] {
            let p = Player::new(&map, x, y, angle).unwrap();
            assert!(!map.is_wall(p.x, p.y));
        }
    }
    assert!(Player::new(&map, 500, 8000, 0).is_none());
    assert!(Player::new(&map, -1, 8000, 0).is_none());
    assert!(Player::new(&map, 16000, 8000, 0).is_none());
}

#[test]
fn move_into_wall_leaves_position_unchanged() {
    let map = room(16);
    let mut p = Player::new(&map, 1200, 8000, 0).unwrap();
    p.try_move(&map, -300, 0);
    assert_eq!(p, Player { x: 1200, y: 8000, angle: 0 });
    p.try_move(&map, -200, 50);
    assert_eq!(p, Player { x: 1000, y: 8050, angle: 0 });
}

#[test]
fn move_off_the_map_is_refused() {
    let map = open_field(4);
    let mut p = Player::new(&map, 200, 2000, 0).unwrap();
    p.try_move(&map, -300, 0);
    assert_eq!(p, Player { x: 200, y: 2000, angle: 0 });
}

#[test]
fn walk_forward_and_back() {
    let map = room(16);
    let mut p = Player::new(&map, 8000, 8000, 0).unwrap();
    p.walk(&map, true, false, 0, 250);
    assert_eq!((p.x, p.y), (8000, 8250));
    p.walk(&map, false, true, 0, 250);
    assert_eq!((p.x, p.y), (8000, 8000));
    p.walk(&map, true, true, 0, 250);
    assert_eq!((p.x, p.y), (8000, 8000));
    let mut q = Player::new(&map, 14900, 8000, 0).unwrap();
    q.walk(&map, true, false, 300, 0);
    assert_eq!((q.x, q.y), (14900, 8000));
}

#[test]
fn turn_left_and_right() {
    let mut p = Player { x: 8000, y: 8000, angle: 100 };
    p.turn(true, false, 30);
    assert_eq!(p.angle, 70);
    p.turn(false, true, 50);
    assert_eq!(p.angle, 120);
    p.turn(true, true, 50);
    assert_eq!(p.angle, 120);
}

#[test]
fn ray_at_wall_one_cell_away() {
    let map = room(16);
    let hit = cast_ray(&map, 16000, Ray { x: 14000, y: 8500, dx: 1000, dy: 0 });
    assert!(hit.hit);
    assert!(hit.distance <= SCALE + RAY_STEP);
    assert_eq!(hit, RayHit { distance: 1000, hit: true, boundary: false });
}

#[test]
fn ray_off_the_map_reaches_max_depth() {
    let map = open_field(16);
    let hit = cast_ray(&map, 16000, Ray { x: 8000, y: 8000, dx: 0, dy: 1000 });
    assert_eq!(hit, RayHit { distance: 16000, hit: false, boundary: false });
    let hit = cast_ray(&map, 16000, Ray { x: 8000, y: 8000, dx: -707, dy: -707 });
    assert_eq!(hit, RayHit { distance: 16000, hit: false, boundary: false });
}

#[test]
fn ray_short_of_wall_reaches_max_depth() {
    let map = room(16);
    let hit = cast_ray(&map, 3000, Ray { x: 8000, y: 8500, dx: 1000, dy: 0 });
    assert_eq!(hit, RayHit { distance: 3000, hit: false, boundary: false });
    let hit = cast_ray(&map, 7000, Ray { x: 8000, y: 8500, dx: 1000, dy: 0 });
    assert_eq!(hit, RayHit { distance: 7000, hit: true, boundary: false });
}

#[test]
fn ray_toward_corner_is_boundary() {
    let map = room(16);
    let hit = cast_ray(&map, 16000, Ray { x: 8000, y: 8000, dx: 707, dy: 707 });
    assert!(hit.hit);
    assert!(hit.boundary);
    assert_eq!(hit.distance, 10000);
    let hit = cast_ray(&map, 16000, Ray { x: 8000, y: 8000, dx: 0, dy: 1000 });
    assert_eq!(hit, RayHit { distance: 7000, hit: true, boundary: true });
}

#[test]
fn wall_shade_bands() {
    assert_eq!(wall_shade(16000, 100, false), SHADE_FULL);
    assert_eq!(wall_shade(16000, 4000, false), SHADE_FULL);
    assert_eq!(wall_shade(16000, 4001, false), SHADE_DARK);
    assert_eq!(wall_shade(16000, 5333, false), SHADE_DARK);
    assert_eq!(wall_shade(16000, 5334, false), SHADE_MEDIUM);
    assert_eq!(wall_shade(16000, 8000, false), SHADE_MEDIUM);
    assert_eq!(wall_shade(16000, 8001, false), SHADE_LIGHT);
    assert_eq!(wall_shade(16000, 15999, false), SHADE_LIGHT);
    assert_eq!(wall_shade(16000, 16000, false), BLANK);
    assert_eq!(wall_shade(16000, 1000, true), BLANK);
}

#[test]
fn floor_shade_bands() {
    assert_eq!(floor_shade(40, 39), FLOOR_NEAR);
    assert_eq!(floor_shade(40, 36), FLOOR_NEAR);
    assert_eq!(floor_shade(40, 35), FLOOR_MID);
    assert_eq!(floor_shade(40, 31), FLOOR_MID);
    assert_eq!(floor_shade(40, 30), FLOOR_FAR);
    assert_eq!(floor_shade(40, 26), FLOOR_FAR);
    assert_eq!(floor_shade(40, 25), FLOOR_FARTHEST);
    assert_eq!(floor_shade(40, 23), FLOOR_FARTHEST);
    assert_eq!(floor_shade(40, 22), BLANK);
    assert_eq!(floor_shade(40, 15), BLANK);
}

#[test]
fn column_extent_from_distance() {
    assert_eq!(column_extent(40, 7000), (15, 25));
    assert_eq!(column_extent(40, 16000), (18, 22));
    assert_eq!(column_extent(40, 100), (-380, 420));
}

#[test]
fn column_angles_sweep_the_view() {
    let camera = Camera::new(16000, 785).unwrap();
    assert_eq!(column_angle(camera, 120, 0, 0), -392);
    assert_eq!(column_angle(camera, 120, 0, 60), 0);
    assert_eq!(column_angle(camera, 120, 1000, 119), 1000 - 392 + 778);
}

#[test]
fn camera_rejects_bad_settings() {
    assert!(Camera::new(150, 785).is_none());
    assert!(Camera::new(0, 785).is_none());
    assert!(Camera::new(16000, -1).is_none());
    assert_eq!(Camera::new(16000, 785), Some(Camera { max_depth: 16000, fov: 785 }));
}

#[test]
fn screen_rejects_empty_sides() {
    assert!(Screen::new(0, 40).is_none());
    let s = Screen::new(120, 40).unwrap();
    assert_eq!(s.cells.len(), 4800);
    assert!(s.cells.iter().all(|&c| c == BLANK));
}

#[test]
fn text_beyond_last_row_goes_to_last_row() {
    let mut s = Screen::new(10, 4).unwrap();
    let text: Vec<u16> = "FPS: 60".encode_utf16().collect();
    s.write_text(&text, 100);
    assert_eq!(glyph(&s, 0, 3), 'F' as u16);
    assert_eq!(glyph(&s, 6, 3), '0' as u16);
    assert_eq!(glyph(&s, 7, 3), BLANK);
    assert!((0..30).all(|i| s.cells[i] == BLANK));
}

#[test]
fn text_longer_than_row_is_cut() {
    let mut s = Screen::new(5, 3).unwrap();
    let text: Vec<u16> = "abcdefgh".encode_utf16().collect();
    s.write_text(&text, 1);
    let row: Vec<u16> = s.cells[5..10].to_vec();
    assert_eq!(row, "abcde".encode_utf16().collect::<Vec<u16>>());
    assert!(s.cells[10..15].iter().all(|&c| c == BLANK));
    assert!(s.cells[0..5].iter().all(|&c| c == BLANK));
}

#[test]
fn minimap_marks_player_over_map() {
    let map = room(16);
    let mut s = Screen::new(120, 40).unwrap();
    let p = Player::new(&map, 8700, 3200, 0).unwrap();
    s.draw_minimap(&map, p);
    assert_eq!(glyph(&s, 104 + 8, 3), PLAYER_MARK);
    assert_eq!(glyph(&s, 104, 0), WALL as u16);
    assert_eq!(glyph(&s, 105, 1), b'.' as u16);
    assert_eq!(glyph(&s, 119, 15), WALL as u16);
    assert_eq!(glyph(&s, 103, 0), BLANK);
    assert_eq!(glyph(&s, 110, 16), BLANK);
}

#[test]
fn minimap_marker_replaces_wall_glyph() {
    let mut cells = vec![b'.'; 9];
    cells[4] = WALL;
    let map = TileMap::new(3, 3, cells).unwrap();
    let p = Player::new(&map, 2500, 2500, 0).unwrap();
    let mut s = Screen::new(3, 3).unwrap();
    s.draw_minimap(&map, p);
    assert_eq!(s.cells[8], PLAYER_MARK);
    assert_eq!(s.cells[4], WALL as u16);
}

#[test]
fn render_room_from_centre() {
    let map = room(16);
    let camera = Camera::new(16000, 785).unwrap();
    let player = Player::new(&map, 8000, 8000, 0).unwrap();
    let dirs = directions(camera, 120, player.angle);
    assert_eq!(dirs[60], (0, 1000));
    let mut s = Screen::new(120, 40).unwrap();
    s.render_view(&map, camera, player, &dirs);

    let centre = cast_ray(&map, 16000, Ray { x: 8000, y: 8000, dx: 0, dy: 1000 });
    assert_eq!(centre.distance, 7000);
    let (ceiling, floor) = column_extent(40, centre.distance);
    assert_eq!((ceiling, floor), (15, 25));
    assert_eq!(ceiling + floor, 40);
    for row in 0..15 {
        assert_eq!(glyph(&s, 60, row), BLANK);
    }
    // the centre ray runs along the grid line x = 8, so it grazes a corner
    for row in 16..=25 {
        assert_eq!(glyph(&s, 60, row), BLANK);
    }
    assert_eq!(glyph(&s, 60, 26), FLOOR_FAR);
    assert_eq!(glyph(&s, 60, 39), FLOOR_NEAR);

    for col in [59usize, 61] {
        let (dx, dy) = dirs[col];
        let side = cast_ray(&map, 16000, Ray { x: 8000, y: 8000, dx, dy });
        assert!(side.hit);
        assert!(side.distance >= centre.distance);
        assert!(side.distance <= centre.distance + 500);
    }
    let edge = cast_ray(&map, 16000, Ray { x: 8000, y: 8000, dx: dirs[0].0, dy: dirs[0].1 });
    assert!(edge.distance > centre.distance);
}

#[test]
fn render_shades_wall_band() {
    let map = room(16);
    let camera = Camera::new(16000, 785).unwrap();
    let player = Player::new(&map, 8500, 8000, 0).unwrap();
    let dirs = directions(camera, 120, player.angle);
    let mut s = Screen::new(120, 40).unwrap();
    s.render_view(&map, camera, player, &dirs);
    for row in 0..15 {
        assert_eq!(glyph(&s, 60, row), BLANK);
    }
    assert_eq!(glyph(&s, 60, 15), BLANK);
    for row in 16..=25 {
        assert_eq!(glyph(&s, 60, row), SHADE_MEDIUM);
    }
    s.draw_minimap(&map, player);
    assert_eq!(glyph(&s, 104 + 8, 8), PLAYER_MARK);
}

#[test]
fn compose_draws_minimap_over_view() {
    let map = room(16);
    let camera = Camera::new(16000, 785).unwrap();
    let player = Player::new(&map, 14500, 1500, 0).unwrap();
    let dirs = directions(camera, 120, player.angle);
    let mut s = Screen::new(120, 40).unwrap();
    s.compose(&map, camera, player, &dirs);
    assert_eq!(glyph(&s, 104 + 14, 1), PLAYER_MARK);
    assert_eq!(glyph(&s, 104 + 15, 1), WALL as u16);
    assert_eq!(glyph(&s, 104 + 13, 1), b'.' as u16);
    let mut view = Screen::new(120, 40).unwrap();
    view.render_view(&map, camera, player, &dirs);
    for row in 0..40 {
        for col in 0..104 {
            assert_eq!(glyph(&s, col, row), glyph(&view, col, row));
        }
    }
    for row in 16..40 {
        for col in 104..120 {
            assert_eq!(glyph(&s, col, row), glyph(&view, col, row));
        }
    }
}
