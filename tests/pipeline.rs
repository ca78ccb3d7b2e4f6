use life_pipeline::cursor::{draw_cursor, map_cursor, CursorState, Viewport, WorldPoint, DEFAULT_BRUSH_SIZE};
use life_pipeline::display::{composite_pixel, sample_cell};
use life_pipeline::frame::{frame_tint, pack_frame, tint_of, FrameState, Tint, COLOR_CYCLE};
use life_pipeline::life::{next_alive, CellGrid};
use life_pipeline::material::{draw_life, update_viewport_size, LifeMaterial, HEIGHT, WIDTH};
use life_pipeline::sim::LifeSim;

fn no_brush(frame: u32) -> FrameState {
    FrameState { x: 0, y: 0, frame_bits: frame, radius: 0 }
}

fn grid_from(width: usize, height: usize, live: &[(usize, usize)]) -> CellGrid {
    let mut g = CellGrid::new(width, height);
    for &(x, y) in live {
        g.set(x, y, true);
    }
    g
}

fn live_cells(g: &CellGrid) -> Vec<(usize, usize)> {
    let mut out = Vec::new();
    for y in 0..g.height() {
        for x in 0..g.width() {
            if g.get(x, y) {
                out.push((x, y));
            }
        }
    }
    out
}

/// A naive stepper over nested vectors: cells outside the grid are dead.
fn naive_step(cells: &Vec<Vec<bool>>, brush: Option<(i64, i64, i64)>) -> Vec<Vec<bool>> {
    let h = cells.len() as i64;
    let w = cells[0].len() as i64;
    let mut next = vec![vec![false; w as usize]; h as usize];
    for y in 0..h {
        for x in 0..w {
            let mut n = 0;
            for dy in -1..=1i64 {
                for dx in -1..=1i64 {
                    if dx == 0 && dy == 0 {
                        continue;
                    }
                    let (nx, ny) = (x + dx, y + dy);
                    if nx >= 0 && ny >= 0 && nx < w && ny < h && cells[ny as usize][nx as usize] {
                        n += 1;
                    }
                }
            }
            let alive = cells[y as usize][x as usize];
            let mut v = if alive { n == 2 || n == 3 } else { n == 3 };
            if let Some((bx, by, r)) = brush {
                if (x - bx) * (x - bx) + (y - by) * (y - by) < r * r {
                    v = true;
                }
            }
            next[y as usize][x as usize] = v;
        }
    }
    next
}

#[test]
fn life_rule_cases() {
    assert!(next_alive(true, 2));
    assert!(next_alive(true, 3));
    assert!(!next_alive(true, 4));
    assert!(!next_alive(true, 1));
    assert!(next_alive(false, 3));
    assert!(!next_alive(false, 2));
    assert!(!next_alive(false, 4));
    assert_eq!(next_alive(true, 2), next_alive(true, 2));
}

#[test]
fn neighbor_count_treats_outside_as_dead() {
    let g = grid_from(3, 3, &[(0, 0), (1, 0), (2, 0), (0, 1), (2, 1), (0, 2), (1, 2), (2, 2)]);
    assert_eq!(g.count_neighbors(1, 1), 8);
    assert_eq!(g.count_neighbors(0, 0), 2);
    assert_eq!(g.count_neighbors(2, 2), 2);
    assert_eq!(g.count_neighbors(1, 0), 4);
}

#[test]
fn dead_grid_stays_dead() {
    let mut sim = LifeSim::new(CellGrid::new(16, 12));
    for frame in 0..20 {
        sim.step(&no_brush(frame));
        assert!(live_cells(sim.current()).is_empty());
    }
}

#[test]
fn block_is_still_life() {
    let block = vec![(4, 4), (5, 4), (4, 5), (5, 5)];
    let mut sim = LifeSim::new(grid_from(10, 10, &block));
    for frame in 0..10 {
        sim.step(&no_brush(frame));
        assert_eq!(live_cells(sim.current()), block);
    }
}

#[test]
fn block_in_corner_is_still_life() {
    let block = vec![(0, 0), (1, 0), (0, 1), (1, 1)];
    let mut sim = LifeSim::new(grid_from(5, 5, &block));
    for frame in 0..5 {
        sim.step(&no_brush(frame));
        assert_eq!(live_cells(sim.current()), block);
    }
}

#[test]
fn blinker_oscillates() {
    let horizontal = vec![(1, 2), (2, 2), (3, 2)];
    let vertical = vec![(2, 1), (2, 2), (2, 3)];
    let mut sim = LifeSim::new(grid_from(5, 5, &horizontal));
    sim.step(&no_brush(0));
    assert_eq!(live_cells(sim.current()), vertical);
    sim.step(&no_brush(1));
    assert_eq!(live_cells(sim.current()), horizontal);
}

#[test]
fn step_into_writes_next_generation() {
    let prev = grid_from(5, 5, &[(1, 2), (2, 2), (3, 2)]);
    let mut next = grid_from(5, 5, &[(0, 0), (4, 4)]);
    prev.step_into(&no_brush(0), &mut next);
    assert_eq!(live_cells(&next), vec![(2, 1), (2, 2), (2, 3)]);
}

#[test]
fn brush_forces_cells_alive() {
    let f = FrameState { x: 5, y: 5, frame_bits: 0, radius: 2 };
    assert!(f.covers(5, 5));
    assert!(f.covers(6, 6));
    assert!(!f.covers(7, 5));
    assert!(!f.covers(0, 0));
    let none = FrameState { x: 5, y: 5, frame_bits: 0, radius: 0 };
    assert!(!none.covers(5, 5));
    let mut sim = LifeSim::new(CellGrid::new(11, 11));
    sim.step(&f);
    assert_eq!(live_cells(sim.current()).len(), 9);
    assert!(sim.current().get(5, 5));
    assert!(!sim.current().get(7, 5));
}

#[test]
fn cursor_center_maps_to_origin() {
    let v = Viewport { width: 1600, height: 900 };
    assert_eq!(map_cursor(Some((800, 450)), v), Some(WorldPoint { x: 0, y: 0 }));
    assert_eq!(map_cursor(Some((0, 0)), v), Some(WorldPoint { x: -800, y: 450 }));
    assert_eq!(map_cursor(Some((1599, 899)), v), Some(WorldPoint { x: 799, y: -449 }));
}

#[test]
fn cursor_outside_gives_no_update() {
    let v = Viewport { width: 1600, height: 900 };
    assert_eq!(map_cursor(None, v), None);
    assert_eq!(map_cursor(Some((1600, 10)), v), None);
    assert_eq!(map_cursor(Some((10, 900)), v), None);
    assert_eq!(map_cursor(Some((-1, 10)), v), None);
    assert_eq!(map_cursor(Some((10, -1)), v), None);
}

#[test]
fn draw_cursor_moves_or_keeps() {
    let v = Viewport { width: 100, height: 80 };
    let mut c = CursorState::new();
    assert_eq!(c.size, DEFAULT_BRUSH_SIZE);
    assert_eq!(c.size, 10);
    assert_eq!(draw_cursor(&mut c, Some((60, 30)), v), Some(WorldPoint { x: 10, y: 10 }));
    assert_eq!(c.pos, WorldPoint { x: 10, y: 10 });
    assert_eq!(draw_cursor(&mut c, Some((200, 30)), v), None);
    assert_eq!(c.pos, WorldPoint { x: 10, y: 10 });
    assert_eq!(draw_cursor(&mut c, None, v), None);
    assert_eq!(c.pos, WorldPoint { x: 10, y: 10 });
}

#[test]
fn pack_frame_shifts_and_flips() {
    let c = CursorState { pos: WorldPoint { x: 0, y: 0 }, size: 10 };
    let f = pack_frame(&c, WIDTH, HEIGHT, 7, true);
    assert_eq!(f, FrameState { x: 800, y: 450, frame_bits: 7, radius: 10 });
    let c = CursorState { pos: WorldPoint { x: -100, y: 50 }, size: 4 };
    let f = pack_frame(&c, WIDTH, HEIGHT, 9, false);
    assert_eq!(f, FrameState { x: 700, y: 400, frame_bits: 9, radius: 0 });
}

#[test]
fn frame_bits_are_exact() {
    let c = CursorState::new();
    let a = pack_frame(&c, WIDTH, HEIGHT, 0, false);
    let b = pack_frame(&c, WIDTH, HEIGHT, 1, false);
    assert_ne!(a.frame_bits, b.frame_bits);
    assert_ne!(f32::from_bits(a.frame_bits).to_bits(), f32::from_bits(b.frame_bits).to_bits());
    let big = pack_frame(&c, WIDTH, HEIGHT, 0x4049_0fdb, false);
    assert_eq!(big.frame_bits, 0x4049_0fdb);
    assert_eq!(f32::from_bits(big.frame_bits).to_bits(), 0x4049_0fdb);
}

#[test]
fn frame_tint_follows_rainbow() {
    for frame in [0u32, 1, 250, 999, 1000, 1250, 123_456] {
        let c = colorous::RAINBOW.eval_rational((frame % 1000) as usize, 1000);
        assert_eq!(frame_tint(frame), Tint { r: c.r, g: c.g, b: c.b, a: 0 });
    }
    assert_eq!(COLOR_CYCLE, 1000);
    assert_eq!(frame_tint(0), frame_tint(1000));
    assert_ne!(frame_tint(0), frame_tint(250));
    assert_eq!(tint_of((1, 2, 3)), Tint { r: 1, g: 2, b: 3, a: 0 });
}

#[test]
fn draw_life_fills_uniforms() {
    let mut mat = LifeMaterial::new();
    mat.viewport = Viewport { width: 640, height: 480 };
    let c = CursorState { pos: WorldPoint { x: 10, y: -20 }, size: 10 };
    draw_life(&mut mat, &c, 5, true);
    assert_eq!(mat.info, FrameState { x: 810, y: 470, frame_bits: 5, radius: 10 });
    assert_eq!(mat.draw_color, frame_tint(5));
    assert_eq!(mat.viewport, Viewport { width: 640, height: 480 });
    draw_life(&mut mat, &c, 6, false);
    assert_eq!(mat.info.radius, 0);
    assert_eq!(mat.info.frame_bits, 6);
}

#[test]
fn resize_keeps_last_event() {
    let mut mat = LifeMaterial::new();
    let events = vec![
        Viewport { width: 800, height: 600 },
        Viewport { width: 1024, height: 768 },
        Viewport { width: 1280, height: 720 },
    ];
    update_viewport_size(&mut mat, &events);
    assert_eq!(mat.viewport, Viewport { width: 1280, height: 720 });
    update_viewport_size(&mut mat, &Vec::new());
    assert_eq!(mat.viewport, Viewport { width: 1280, height: 720 });
    assert_eq!(mat.info, FrameState { x: 0, y: 0, frame_bits: 0, radius: 0 });
}

#[test]
fn composite_samples_nearest_cell() {
    let g = grid_from(4, 2, &[(1, 1), (3, 0)]);
    let v = Viewport { width: 8, height: 4 };
    assert!(sample_cell(&g, v, 2, 2));
    assert!(sample_cell(&g, v, 3, 3));
    assert!(!sample_cell(&g, v, 4, 2));
    assert!(sample_cell(&g, v, 7, 0));
    let tint = Tint { r: 10, g: 20, b: 30, a: 0 };
    assert_eq!(composite_pixel(&g, v, tint, 2, 2), Tint { r: 10, g: 20, b: 30, a: 255 });
    assert_eq!(composite_pixel(&g, v, tint, 0, 0), Tint { r: 0, g: 0, b: 0, a: 255 });
}

#[test]
fn brush_click_then_evolve_matches_naive_stepper() {
    let (w, h) = (48usize, 40usize);
    let mut sim = LifeSim::new(CellGrid::new(w, h));
    let mut cursor = CursorState::new();
    let v = Viewport { width: 96, height: 80 };
    // the pointer at the centre of the view: world origin
    assert_eq!(draw_cursor(&mut cursor, Some((48, 40)), v), Some(WorldPoint { x: 0, y: 0 }));
    let click = pack_frame(&cursor, w as u32, h as u32, 0, true);
    assert_eq!((click.x, click.y, click.radius), (24, 20, 10));
    sim.step(&click);

    let mut expected = vec![vec![false; w]; h];
    expected = naive_step(&expected, Some((24, 20, 10)));
    let disc: usize = expected.iter().map(|row| row.iter().filter(|c| **c).count()).sum();
    assert_eq!(live_cells(sim.current()).len(), disc);

    for frame in 1..30u32 {
        let f = pack_frame(&cursor, w as u32, h as u32, frame, false);
        sim.step(&f);
        expected = naive_step(&expected, None);
        for y in 0..h {
            for x in 0..w {
                assert_eq!(sim.current().get(x, y), expected[y][x], "cell ({x}, {y}) after frame {frame}");
            }
        }
    }
}
