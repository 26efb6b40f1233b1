use sim_core::materials::Material;
use sim_core::{Cell, SimAPI, Simulation};

const EMPTY: u8 = 0;
const WALL: u8 = 1;
const SAND: u8 = 2;
const WATER: u8 = 3;
const STONE: u8 = 4;

fn snapshot(sim: &mut Simulation) -> Vec<Cell> {
    let (w, h) = (sim.width() as i32, sim.height() as i32);
    let mut out = Vec::new();
    for y in 0..h {
        for x in 0..w {
            out.push(SimAPI { x, y, sim: &mut *sim }.get(0, 0));
        }
    }
    out
}

fn layout(sim: &mut Simulation) -> Vec<String> {
    let w = sim.width() as usize;
    let glyphs: Vec<char> = snapshot(sim)
        .iter()
        .map(|c| match c.material {
            Material::Empty => '.',
            Material::Wall => '#',
            Material::Sand => 's',
            Material::Water => 'w',
            Material::Stone => '%',
        })
        .collect();
    glyphs.chunks(w).map(|row| row.iter().collect()).collect()
}

fn census(sim: &Simulation) -> [usize; 5] {
    [
        sim.count_mat(EMPTY),
        sim.count_mat(WALL),
        sim.count_mat(SAND),
        sim.count_mat(WATER),
        sim.count_mat(STONE),
    ]
}

/// A grid crowded with every material, laid out by a fixed recipe.
fn crowd(width: u32, height: u32) -> Simulation {
    let mut sim = Simulation::new(width, height);
    let mut k: u32 = 12345;
    for y in 0..height {
        for x in 0..width {
            k = k.wrapping_mul(1103515245).wrapping_add(12345);
            let id = match (k >> 16) % 8 {
                0 | 1 => SAND,
                2 | 3 => WATER,
                4 => WALL,
                5 => STONE,
                _ => EMPTY,
            };
            sim.set_cell(x, y, id);
        }
    }
    sim
}

#[test]
fn mass_is_conserved_tick_by_tick() {
    let mut sim = crowd(17, 13);
    let before = census(&sim);
    assert!(before.iter().all(|&n| n > 0));
    for _ in 0..200 {
        sim.step(1);
        assert_eq!(census(&sim), before);
    }
}

#[test]
fn mass_is_conserved_over_batches() {
    for (w, h, ticks) in [(1u32, 1u32, 50u32), (1, 9, 77), (9, 1, 77), (5, 5, 1000), (32, 8, 300)] {
        let mut sim = crowd(w, h);
        let before = census(&sim);
        sim.step(ticks);
        assert_eq!(census(&sim), before);
    }
}

#[test]
fn mass_is_conserved_when_sand_sinks_through_water() {
    let mut sim = Simulation::new(6, 10);
    sim.paint_circle(3, 7, 3, WATER);
    sim.paint_circle(3, 1, 1, SAND);
    let before = census(&sim);
    assert_eq!(before, [28, 0, 5, 27, 0]);
    for _ in 0..120 {
        sim.step(1);
        assert_eq!(census(&sim), before);
    }
}

#[test]
fn inert_materials_never_move() {
    let mut sim = crowd(12, 12);
    let fixed = |cells: &[Cell]| -> Vec<bool> {
        cells.iter().map(|c| c.material == Material::Wall || c.material == Material::Stone).collect()
    };
    let before = snapshot(&mut sim);
    sim.step(150);
    let after = snapshot(&mut sim);
    assert_eq!(fixed(&before), fixed(&after));
    for (b, a) in before.iter().zip(after.iter()) {
        if b.material == Material::Wall || b.material == Material::Stone {
            assert_eq!(a, b);
        }
    }
}

#[test]
fn sand_in_the_left_column_does_not_escape_through_the_edge() {
    // Solid ground below and below-right: the only way on would be x = -1.
    let mut sim = Simulation::new(2, 2);
    sim.set_cell(0, 1, WALL);
    sim.set_cell(1, 1, WALL);
    sim.set_cell(0, 0, SAND);
    for _ in 0..500 {
        sim.step(1);
        assert_eq!(layout(&mut sim), vec!["s.", "##"]);
    }
    assert_eq!(sim.count_mat(SAND), 1);
}

#[test]
fn sand_in_the_right_column_does_not_escape_through_the_edge() {
    let mut sim = Simulation::new(2, 2);
    sim.set_cell(0, 1, STONE);
    sim.set_cell(1, 1, STONE);
    sim.set_cell(1, 0, SAND);
    sim.step(500);
    assert_eq!(layout(&mut sim), vec![".s", "%%"]);
}

#[test]
fn sand_falling_along_the_edge_lands_on_the_bottom_row() {
    let mut sim = Simulation::new(3, 4);
    sim.set_cell(0, 0, SAND);
    sim.step(6);
    assert_eq!(layout(&mut sim), vec!["...", "...", "...", "s.."]);
    sim.step(100);
    assert_eq!(layout(&mut sim), vec!["...", "...", "...", "s.."]);
}

#[test]
fn water_on_the_bottom_row_stays_on_the_grid() {
    let mut sim = Simulation::new(4, 1);
    sim.set_cell(0, 0, WATER);
    sim.set_cell(3, 0, WATER);
    for _ in 0..300 {
        sim.step(1);
        assert_eq!(sim.count_mat(WATER), 2);
        assert_eq!(sim.count_mat(EMPTY), 2);
    }
}

/// The same calls on two new simulations; the pixels are compared after
/// every call.
#[test]
fn equal_calls_give_equal_pixels_at_every_point() {
    let mut a = Simulation::new(16, 12);
    let mut b = Simulation::new(16, 12);
    assert_eq!(a.pixels(), b.pixels());
    for round in 0..30u32 {
        a.set_cell(round % 16, 0, SAND);
        b.set_cell(round % 16, 0, SAND);
        assert_eq!(a.pixels(), b.pixels());

        a.paint_circle((round * 7) % 16, (round * 5) % 12, round % 4, (round % 6) as u8);
        b.paint_circle((round * 7) % 16, (round * 5) % 12, round % 4, (round % 6) as u8);
        assert_eq!(a.pixels(), b.pixels());

        a.step(round % 5);
        b.step(round % 5);
        assert_eq!(a.pixels(), b.pixels());
    }
    assert_eq!(snapshot(&mut a), snapshot(&mut b));
    assert_eq!(
        SimAPI { x: 0, y: 0, sim: &mut a }.rand_u32(),
        SimAPI { x: 0, y: 0, sim: &mut b }.rand_u32()
    );
}

#[test]
fn pixels_show_the_cells_after_every_call() {
    let mut sim = Simulation::new(9, 7);
    let shown = |sim: &mut Simulation| -> Vec<u8> {
        snapshot(sim)
            .iter()
            .flat_map(|c| sim_core::materials::color_of(c.material, c.ra))
            .collect()
    };
    assert_eq!(sim.pixels().to_vec(), shown(&mut sim));
    for round in 0..25u32 {
        sim.set_cell(round % 9, round % 3, (1 + round % 4) as u8);
        assert_eq!(sim.pixels().to_vec(), shown(&mut sim));
        sim.paint_circle(round % 9, 6 - round % 7, round % 3, (round % 5) as u8);
        assert_eq!(sim.pixels().to_vec(), shown(&mut sim));
        sim.step(round % 4);
        assert_eq!(sim.pixels().to_vec(), shown(&mut sim));
    }
    sim.clear();
    assert_eq!(sim.pixels().to_vec(), shown(&mut sim));
}

#[test]
fn dropped_sand_settles_on_a_flat_floor() {
    let mut sim = Simulation::new(3, 4);
    for x in 0..3 {
        sim.set_cell(x, 3, WALL);
    }
    sim.set_cell(1, 0, SAND);
    // Within as many ticks as the grid is high.
    sim.step(4);
    let resting = vec!["...", "...", ".s.", "###"];
    assert_eq!(layout(&mut sim), resting);
    let cells = snapshot(&mut sim);
    sim.step(1);
    assert_eq!(snapshot(&mut sim), cells);
    sim.step(100);
    assert_eq!(snapshot(&mut sim), cells);
}

#[test]
fn dropped_sand_needs_two_ticks_for_every_row() {
    // From the top of a grid ten high, the floor row included, a grain falls
    // eight rows: it is still under way after ten ticks and rests after
    // sixteen.
    let mut sim = Simulation::new(3, 10);
    for x in 0..3 {
        sim.set_cell(x, 9, WALL);
    }
    sim.set_cell(1, 0, SAND);
    sim.step(10);
    assert_eq!(layout(&mut sim)[5], ".s.");
    sim.step(5);
    assert_eq!(layout(&mut sim)[7], ".s.");
    sim.step(1);
    assert_eq!(layout(&mut sim)[8], ".s.");
    let cells = snapshot(&mut sim);
    sim.step(50);
    assert_eq!(snapshot(&mut sim), cells);
}

#[test]
fn sand_above_water_trades_places_with_it() {
    let mut sim = Simulation::new(1, 2);
    sim.set_cell(0, 0, SAND);
    sim.set_cell(0, 1, WATER);
    sim.step(1);
    assert_eq!(layout(&mut sim), vec!["s", "w"]);
    sim.step(1);
    assert_eq!(layout(&mut sim), vec!["w", "s"]);
    assert_eq!(sim.count_mat(SAND), 1);
    assert_eq!(sim.count_mat(WATER), 1);
    let cells = snapshot(&mut sim);
    assert_eq!(cells[0].clock, 3);
    assert_eq!(cells[1].clock, 3);
    sim.step(60);
    assert_eq!(layout(&mut sim), vec!["w", "s"]);
}

#[test]
fn sand_takes_an_empty_diagonal_rather_than_sink() {
    let mut sim = Simulation::new(3, 3);
    for x in 0..3 {
        sim.set_cell(x, 2, WALL);
    }
    sim.set_cell(1, 0, SAND);
    sim.set_cell(1, 1, WATER);
    sim.step(2);
    assert_eq!(layout(&mut sim), vec!["...", "sw.", "###"]);
}

#[test]
fn enclosed_water_never_moves() {
    let mut sim = Simulation::new(3, 2);
    for x in 0..3 {
        sim.set_cell(x, 1, WALL);
    }
    sim.set_cell(0, 0, WALL);
    sim.set_cell(2, 0, WALL);
    sim.set_cell(1, 0, WATER);
    let cells = snapshot(&mut sim);
    for _ in 0..300 {
        sim.step(1);
        assert_eq!(snapshot(&mut sim), cells);
    }
}

#[test]
fn a_full_pool_is_still() {
    let mut sim = Simulation::new(5, 3);
    for x in 0..5 {
        sim.set_cell(x, 2, WALL);
    }
    sim.set_cell(0, 1, WALL);
    sim.set_cell(4, 1, WALL);
    for x in 1..4 {
        sim.set_cell(x, 1, WATER);
    }
    let cells = snapshot(&mut sim);
    for _ in 0..200 {
        sim.step(1);
        assert_eq!(snapshot(&mut sim), cells);
    }
    assert_eq!(layout(&mut sim), vec![".....", "#www#", "#####"]);
}

#[test]
fn a_heap_at_rest_stays_at_rest() {
    // Every grain has sand or wall straight below and on both diagonals.
    let mut sim = Simulation::new(5, 3);
    for x in 0..5 {
        sim.set_cell(x, 2, WALL);
    }
    for x in 1..4 {
        sim.set_cell(x, 1, SAND);
    }
    sim.set_cell(2, 0, SAND);
    let cells = snapshot(&mut sim);
    let pixels = sim.pixels().to_vec();
    for _ in 0..100 {
        sim.step(1);
        assert_eq!(snapshot(&mut sim), cells);
        assert_eq!(sim.pixels(), &pixels[..]);
    }
    sim.step(1000);
    assert_eq!(snapshot(&mut sim), cells);
    assert_eq!(layout(&mut sim), vec!["..s..", ".sss.", "#####"]);
}

#[test]
fn a_tick_stamps_exactly_the_slots_it_changes() {
    let mut sim = crowd(10, 10);
    for _ in 0..60 {
        let before = snapshot(&mut sim);
        sim.step(1);
        let generation = SimAPI { x: 0, y: 0, sim: &mut sim }.generation();
        let after = snapshot(&mut sim);
        for (b, a) in before.iter().zip(after.iter()) {
            if a != b {
                assert_eq!(a.clock, generation.wrapping_add(1));
            }
        }
    }
}

#[test]
fn a_cell_written_in_one_tick_waits_out_the_next() {
    // A lone grain falls in a tick and then holds its slot for one tick.
    let mut sim = Simulation::new(3, 12);
    sim.set_cell(1, 0, SAND);
    sim.step(1);
    let mut last_row = 0;
    let mut moved_last_tick = false;
    for _ in 0..20 {
        sim.step(1);
        let row = layout(&mut sim).iter().position(|r| r == ".s.").unwrap();
        assert!(row - last_row <= 1);
        if moved_last_tick {
            assert_eq!(row, last_row);
        }
        moved_last_tick = row != last_row;
        last_row = row;
    }
    assert_eq!(last_row, 10);
}

#[test]
fn falling_sand_moves_at_most_one_row_per_tick() {
    let mut sim = Simulation::new(5, 20);
    sim.paint_circle(2, 2, 2, SAND);
    let rows_of = |sim: &mut Simulation| -> Vec<usize> {
        layout(sim).iter().map(|r| r.matches('s').count()).collect()
    };
    let mut before = rows_of(&mut sim);
    for _ in 0..60 {
        sim.step(1);
        let after = rows_of(&mut sim);
        // Sand only goes down, one row at a time: what is at or below a row
        // after a tick was at or below the row above it before.
        for y in 1..20 {
            let below_after: usize = after[y..].iter().sum();
            let below_before: usize = before[y - 1..].iter().sum();
            assert!(below_after <= below_before);
        }
        // And nothing rises.
        for y in 0..20 {
            let above_after: usize = after[..=y].iter().sum();
            let above_before: usize = before[..=y].iter().sum();
            assert!(above_after <= above_before);
        }
        before = after;
    }
    assert_eq!(sim.count_mat(SAND), 13);
}
