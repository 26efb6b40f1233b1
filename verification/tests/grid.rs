use sim_core::materials::Material;
use sim_core::{SimAPI, Simulation};

const EMPTY: u8 = 0;
const WALL: u8 = 1;
const SAND: u8 = 2;
const WATER: u8 = 3;
const STONE: u8 = 4;

fn glyph(m: Material) -> char {
    match m {
        Material::Empty => '.',
        Material::Wall => '#',
        Material::Sand => 's',
        Material::Water => 'w',
        Material::Stone => '%',
    }
}

/// The materials of the grid, one string per row, top row first.
fn rows(sim: &mut Simulation) -> Vec<String> {
    let (w, h) = (sim.width() as i32, sim.height() as i32);
    let mut out = Vec::new();
    for y in 0..h {
        let mut row = String::new();
        for x in 0..w {
            row.push(glyph(SimAPI { x, y, sim: &mut *sim }.get(0, 0).material));
        }
        out.push(row);
    }
    out
}

fn clock_at(sim: &mut Simulation, x: i32, y: i32) -> u8 {
    SimAPI { x, y, sim }.get(0, 0).clock
}

fn generation(sim: &mut Simulation) -> u8 {
    SimAPI { x: 0, y: 0, sim }.generation()
}

#[test]
fn new_grid_has_the_given_dimensions() {
    let sim = Simulation::new(7, 3);
    assert_eq!(sim.width(), 7);
    assert_eq!(sim.height(), 3);
}

#[test]
fn new_grid_is_all_empty() {
    let mut sim = Simulation::new(3, 2);
    assert_eq!(rows(&mut sim), vec!["...", "..."]);
    assert_eq!(sim.count_mat(EMPTY), 6);
    for id in 1..=255u8 {
        assert_eq!(sim.count_mat(id), 0);
    }
}

#[test]
fn new_grid_is_unstamped_at_generation_zero() {
    let mut sim = Simulation::new(2, 2);
    assert_eq!(generation(&mut sim), 0);
    for y in 0..2 {
        for x in 0..2 {
            let cell = SimAPI { x, y, sim: &mut sim }.get(0, 0);
            assert_eq!((cell.ra, cell.rb, cell.clock), (0, 0, 0));
        }
    }
}

#[test]
fn new_grid_is_opaque_black() {
    let sim = Simulation::new(3, 2);
    assert_eq!(sim.pixels().len(), 3 * 2 * 4);
    assert_eq!(sim.pixels(), &[0u8, 0, 0, 255].repeat(6)[..]);
}

#[test]
fn new_grid_starts_from_the_fixed_seed() {
    let mut sim = Simulation::new(1, 1);
    assert_eq!(SimAPI { x: 0, y: 0, sim: &mut sim }.rand_u32(), 835348982);
}

#[test]
fn degenerate_grids_can_be_made_and_stepped() {
    for (w, h) in [(0u32, 0u32), (0, 5), (5, 0)] {
        let mut sim = Simulation::new(w, h);
        assert_eq!((sim.width(), sim.height()), (w, h));
        assert!(sim.pixels().is_empty());
        sim.set_cell(0, 0, SAND);
        sim.paint_circle(0, 0, 3, WATER);
        sim.step(10);
        sim.clear();
        assert_eq!(sim.count_mat(EMPTY), 0);
        assert_eq!(sim.count_mat(SAND), 0);
        assert!(sim.pixels().is_empty());
    }
}

#[test]
fn can_hold_accepts_ordinary_dimensions() {
    assert!(Simulation::can_hold(0, 0));
    assert!(Simulation::can_hold(1, 1));
    assert!(Simulation::can_hold(640, 480));
    assert!(Simulation::can_hold(i32::MAX as u32, 0));
    assert!(Simulation::can_hold(0, i32::MAX as u32));
}

#[test]
fn can_hold_refuses_dimensions_that_are_no_coordinates() {
    assert!(!Simulation::can_hold(i32::MAX as u32 + 1, 0));
    assert!(!Simulation::can_hold(0, i32::MAX as u32 + 1));
    assert!(!Simulation::can_hold(u32::MAX, 1));
    assert!(!Simulation::can_hold(1, u32::MAX));
}

#[test]
fn can_hold_refuses_a_pixel_buffer_beyond_the_machine() {
    let side = i32::MAX as u32;
    let area = side as u128 * side as u128;
    assert_eq!(Simulation::can_hold(side, side), 4 * area <= usize::MAX as u128);
    assert_eq!(Simulation::can_hold(side, 2), 8 * side as u128 <= usize::MAX as u128);
    assert_eq!(Simulation::can_hold(65536, 16384), usize::BITS > 32);
    assert!(Simulation::can_hold(65536, 16383));
}

#[test]
fn try_new_gives_a_grid_exactly_when_it_can_be_held() {
    let mut sim = Simulation::try_new(4, 3).expect("a small grid can be held");
    assert_eq!((sim.width(), sim.height()), (4, 3));
    assert_eq!(rows(&mut sim), vec!["....", "....", "...."]);
    assert_eq!(sim.pixels(), &[0u8, 0, 0, 255].repeat(12)[..]);
    assert!(Simulation::try_new(0, 0).is_some());
    assert!(Simulation::try_new(u32::MAX, 1).is_none());
    assert!(Simulation::try_new(1, u32::MAX).is_none());
    assert!(Simulation::try_new(u32::MAX, u32::MAX).is_none());
}

#[test]
fn set_cell_writes_the_material() {
    let mut sim = Simulation::new(3, 2);
    sim.set_cell(1, 0, SAND);
    sim.set_cell(2, 1, WATER);
    sim.set_cell(0, 1, WALL);
    sim.set_cell(0, 0, STONE);
    assert_eq!(rows(&mut sim), vec!["%s.", "#.w"]);
}

#[test]
fn set_cell_stamps_with_the_next_generation() {
    let mut sim = Simulation::new(2, 1);
    sim.set_cell(0, 0, SAND);
    assert_eq!(clock_at(&mut sim, 0, 0), 1);
    assert_eq!(clock_at(&mut sim, 1, 0), 0);
    sim.step(5);
    sim.set_cell(1, 0, WALL);
    assert_eq!(generation(&mut sim), 5);
    assert_eq!(clock_at(&mut sim, 1, 0), 6);
}

#[test]
fn set_cell_stamp_wraps_after_255() {
    let mut sim = Simulation::new(2, 2);
    sim.step(255);
    assert_eq!(generation(&mut sim), 255);
    sim.set_cell(0, 0, SAND);
    assert_eq!(clock_at(&mut sim, 0, 0), 0);
}

#[test]
fn set_cell_clears_the_auxiliary_bytes() {
    let mut sim = Simulation::new(1, 1);
    let mut seeded = SimAPI { x: 0, y: 0, sim: &mut sim }.get(0, 0);
    seeded.material = Material::Sand;
    seeded.ra = 200;
    seeded.rb = 17;
    SimAPI { x: 0, y: 0, sim: &mut sim }.set(0, 0, seeded);
    sim.set_cell(0, 0, WATER);
    let cell = SimAPI { x: 0, y: 0, sim: &mut sim }.get(0, 0);
    assert_eq!((cell.material, cell.ra, cell.rb), (Material::Water, 0, 0));
}

#[test]
fn set_cell_repaints_only_its_own_pixel() {
    let mut sim = Simulation::new(2, 2);
    sim.set_cell(1, 0, SAND);
    let mut expected = [0u8, 0, 0, 255].repeat(4);
    expected[4..8].copy_from_slice(&[184, 148, 58, 255]);
    assert_eq!(sim.pixels(), &expected[..]);
    sim.set_cell(0, 1, WATER);
    expected[8..12].copy_from_slice(&[32, 88, 188, 255]);
    assert_eq!(sim.pixels(), &expected[..]);
    sim.set_cell(1, 0, EMPTY);
    expected[4..8].copy_from_slice(&[0, 0, 0, 255]);
    assert_eq!(sim.pixels(), &expected[..]);
}

#[test]
fn set_cell_shows_every_material_in_its_colour() {
    let mut sim = Simulation::new(2, 2);
    sim.set_cell(0, 0, SAND);
    sim.set_cell(1, 0, WATER);
    sim.set_cell(0, 1, WALL);
    sim.set_cell(1, 1, STONE);
    assert_eq!(
        sim.pixels(),
        &[184u8, 148, 58, 255, 32, 88, 188, 255, 88, 88, 88, 255, 58, 58, 58, 255][..]
    );
}

#[test]
fn set_cell_ignores_coordinates_outside_the_grid() {
    let mut sim = Simulation::new(3, 2);
    sim.set_cell(1, 1, WALL);
    let before = (rows(&mut sim), sim.pixels().to_vec());
    sim.set_cell(3, 0, SAND);
    sim.set_cell(0, 2, SAND);
    sim.set_cell(3, 2, SAND);
    sim.set_cell(u32::MAX, 0, SAND);
    sim.set_cell(0, u32::MAX, SAND);
    sim.set_cell(u32::MAX, u32::MAX, SAND);
    assert_eq!((rows(&mut sim), sim.pixels().to_vec()), before);
    assert_eq!(sim.count_mat(SAND), 0);
}

#[test]
fn set_cell_decodes_unknown_ids_to_empty() {
    let mut sim = Simulation::new(2, 1);
    sim.set_cell(0, 0, SAND);
    sim.set_cell(0, 0, 5);
    sim.set_cell(1, 0, 255);
    assert_eq!(rows(&mut sim), vec![".."]);
    assert_eq!(clock_at(&mut sim, 0, 0), 1);
    assert_eq!(clock_at(&mut sim, 1, 0), 1);
    assert_eq!(sim.pixels(), &[0u8, 0, 0, 255].repeat(2)[..]);
}

#[test]
fn paint_circle_of_radius_one_is_a_plus() {
    let mut sim = Simulation::new(5, 5);
    sim.paint_circle(2, 2, 1, SAND);
    assert_eq!(rows(&mut sim), vec![".....", "..s..", ".sss.", "..s..", "....."]);
}

#[test]
fn paint_circle_includes_the_rim() {
    let mut sim = Simulation::new(5, 5);
    sim.paint_circle(2, 2, 2, WATER);
    assert_eq!(rows(&mut sim), vec!["..w..", ".www.", "wwwww", ".www.", "..w.."]);
}

#[test]
fn paint_circle_of_radius_zero_is_one_cell() {
    let mut sim = Simulation::new(5, 5);
    sim.paint_circle(2, 2, 0, SAND);
    assert_eq!(rows(&mut sim), vec![".....", ".....", "..s..", ".....", "....."]);
}

#[test]
fn paint_circle_is_clipped_to_the_grid() {
    let mut sim = Simulation::new(5, 5);
    sim.paint_circle(0, 0, 2, WALL);
    assert_eq!(rows(&mut sim), vec!["###..", "##...", "#....", ".....", "....."]);
}

#[test]
fn paint_circle_reaches_in_from_a_centre_outside() {
    let mut sim = Simulation::new(5, 5);
    sim.paint_circle(7, 2, 3, STONE);
    assert_eq!(rows(&mut sim), vec![".....", ".....", "....%", ".....", "....."]);
}

#[test]
fn paint_circle_takes_the_largest_arguments() {
    let mut sim = Simulation::new(4, 3);
    sim.paint_circle(u32::MAX, 0, u32::MAX, SAND);
    assert_eq!(rows(&mut sim), vec!["ssss", ".sss", ".sss"]);

    let mut sim = Simulation::new(4, 3);
    sim.paint_circle(u32::MAX, 0, u32::MAX - 2, SAND);
    assert_eq!(rows(&mut sim), vec!["..ss", "...s", "...s"]);

    let mut sim = Simulation::new(4, 3);
    sim.paint_circle(u32::MAX, u32::MAX, u32::MAX, SAND);
    assert_eq!(rows(&mut sim), vec!["....", "....", "...."]);

    let mut sim = Simulation::new(4, 3);
    sim.paint_circle(0, 0, u32::MAX, WATER);
    assert_eq!(rows(&mut sim), vec!["wwww", "wwww", "wwww"]);
}

#[test]
fn paint_circle_overwrites_and_erases() {
    let mut sim = Simulation::new(6, 6);
    sim.paint_circle(3, 3, 3, SAND);
    sim.paint_circle(3, 3, 1, 9);
    assert_eq!(
        rows(&mut sim),
        vec!["...s..", ".sssss", ".ss.ss", "ss...s", ".ss.ss", ".sssss"]
    );
}

#[test]
fn paint_circle_stamps_what_it_paints() {
    let mut sim = Simulation::new(3, 3);
    sim.step(4);
    sim.paint_circle(1, 1, 1, SAND);
    assert_eq!(clock_at(&mut sim, 1, 1), 5);
    assert_eq!(clock_at(&mut sim, 0, 1), 5);
    assert_eq!(clock_at(&mut sim, 0, 0), 0);
    assert_eq!(clock_at(&mut sim, 2, 2), 0);
}

#[test]
fn paint_circle_renders_the_whole_grid() {
    let mut sim = Simulation::new(3, 1);
    // Put a cell in place behind the renderer's back.
    let wall = sim_core::Cell { material: Material::Wall, ra: 128, rb: 0, clock: 0 };
    SimAPI { x: 0, y: 0, sim: &mut sim }.set(0, 0, wall);
    assert_eq!(&sim.pixels()[0..4], &[0u8, 0, 0, 255][..]);
    sim.paint_circle(2, 0, 0, SAND);
    assert_eq!(
        sim.pixels(),
        &[120u8, 120, 120, 255, 0, 0, 0, 255, 184, 148, 58, 255][..]
    );
}

#[test]
fn clear_empties_every_cell() {
    let mut sim = Simulation::new(4, 4);
    sim.paint_circle(1, 1, 2, SAND);
    sim.set_cell(3, 3, WALL);
    sim.clear();
    assert_eq!(rows(&mut sim), vec!["....", "....", "....", "...."]);
    assert_eq!(sim.count_mat(EMPTY), 16);
    assert_eq!(sim.pixels(), &[0u8, 0, 0, 255].repeat(16)[..]);
}

#[test]
fn clear_stamps_every_cell() {
    let mut sim = Simulation::new(2, 2);
    sim.step(9);
    sim.clear();
    for y in 0..2 {
        for x in 0..2 {
            let cell = SimAPI { x, y, sim: &mut sim }.get(0, 0);
            assert_eq!(cell, sim_core::Cell { material: Material::Empty, ra: 0, rb: 0, clock: 10 });
        }
    }
    assert_eq!(generation(&mut sim), 9);
}

#[test]
fn clear_keeps_the_random_state() {
    let mut a = Simulation::new(2, 2);
    let mut b = Simulation::new(2, 2);
    a.paint_circle(0, 0, 5, WATER);
    a.clear();
    assert_eq!(
        SimAPI { x: 0, y: 0, sim: &mut a }.rand_u32(),
        SimAPI { x: 0, y: 0, sim: &mut b }.rand_u32()
    );
}

#[test]
fn count_mat_counts_each_material() {
    let mut sim = Simulation::new(4, 3);
    sim.set_cell(0, 0, SAND);
    sim.set_cell(1, 0, SAND);
    sim.set_cell(2, 0, WATER);
    sim.set_cell(0, 2, WALL);
    sim.set_cell(1, 2, WALL);
    sim.set_cell(2, 2, WALL);
    sim.set_cell(3, 2, STONE);
    assert_eq!(sim.count_mat(SAND), 2);
    assert_eq!(sim.count_mat(WATER), 1);
    assert_eq!(sim.count_mat(WALL), 3);
    assert_eq!(sim.count_mat(STONE), 1);
    assert_eq!(sim.count_mat(EMPTY), 5);
}

#[test]
fn count_mat_of_an_unknown_id_is_zero() {
    let mut sim = Simulation::new(4, 3);
    sim.paint_circle(1, 1, 1, SAND);
    for id in 5..=255u8 {
        assert_eq!(sim.count_mat(id), 0);
    }
}

#[test]
fn counts_add_up_to_the_number_of_cells() {
    let mut sim = Simulation::new(8, 8);
    sim.paint_circle(3, 1, 1, SAND);
    sim.paint_circle(5, 4, 1, WATER);
    sim.set_cell(4, 5, STONE);
    sim.step(7);
    let total: usize = (0..=4u8).map(|id| sim.count_mat(id)).sum();
    assert_eq!(total, 64);
}

#[test]
fn pixels_are_row_major_top_row_first() {
    let mut sim = Simulation::new(2, 2);
    sim.set_cell(1, 0, WALL);
    sim.set_cell(0, 1, STONE);
    let pixels = sim.pixels();
    assert_eq!(&pixels[0..4], &[0u8, 0, 0, 255][..]);
    assert_eq!(&pixels[4..8], &[88u8, 88, 88, 255][..]);
    assert_eq!(&pixels[8..12], &[58u8, 58, 58, 255][..]);
    assert_eq!(&pixels[12..16], &[0u8, 0, 0, 255][..]);
}
