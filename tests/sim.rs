use heightfield::cells::MaterialId;
use heightfield::sim::{update_granular, SimConfig, Simulator};
use heightfield::world::Grid;

fn config(cap: u16) -> SimConfig {
    SimConfig {
        max_total_moveable_height: cap,
        max_transfer_per_pass: 4,
        alternate_scan_direction: true,
        max_fire_height: 8,
        slope_threshold: 1,
    }
}

fn row(heights: &[usize]) -> Grid {
    let mut g = Grid::new(heights.len(), 1);
    for (x, h) in heights.iter().enumerate() {
        g.get_cell_mut(x, 0).unwrap().add_layer(MaterialId::Sand, *h);
    }
    g
}

fn heights(g: &Grid) -> Vec<usize> {
    g.get_cells().iter().map(|c| c.column_thickness()).collect()
}

fn total(g: &Grid, m: MaterialId) -> usize {
    g.get_cells().iter().map(|c| c.get_amount(m)).sum()
}

#[test]
fn default_config() {
    let c = SimConfig::default();
    assert_eq!(c.max_total_moveable_height, 64);
    assert_eq!(c.max_transfer_per_pass, 4);
    assert!(c.alternate_scan_direction);
    assert_eq!(c.max_fire_height, 8);
    assert_eq!(c.slope_threshold, 1);
    assert_eq!(Simulator::default().config, c);
    assert_eq!(Simulator::new(config(5)).config, config(5));
}

#[test]
fn sand_slides_to_its_only_lower_neighbour() {
    let mut sim = Simulator::new(config(64));
    let mut world = row(&[10, 0, 0]);
    let next = sim.advance_tick(&mut world);
    assert_eq!(heights(&next), vec![6, 4, 0]);
    assert_eq!(next.get_step(), 1);
    assert_eq!(heights(&world), vec![10, 0, 0]);
    assert_eq!(world.get_step(), 0);

    let src = row(&[10, 0, 0]);
    let mut dst = src.clone();
    let ts = update_granular(&src, &mut dst, &config(64));
    assert_eq!(ts.len(), 1);
    assert_eq!((ts[0].from, ts[0].to, ts[0].removed, ts[0].applied), (0, 1, 4, 4));
    assert_eq!(ts[0].material, MaterialId::Sand);
}

#[test]
fn transfer_is_clipped_at_the_cap() {
    let mut world = row(&[10, 0, 0]);
    world.get_cell_mut(1, 0).unwrap().add_layer(MaterialId::Rock, 2);
    let mut dst = world.clone();
    let ts = update_granular(&world, &mut dst, &config(2));
    assert_eq!(heights(&dst), vec![6, 2, 0]);
    assert_eq!(ts.len(), 1);
    assert_eq!((ts[0].removed, ts[0].applied), (4, 0));
    assert_eq!(total(&world, MaterialId::Sand) - total(&dst, MaterialId::Sand), 4);
}

#[test]
fn transfer_is_clipped_to_the_headroom() {
    let mut sim = Simulator::new(config(2));
    let mut world = row(&[10, 0, 0]);
    let next = sim.advance_tick(&mut world);
    assert_eq!(heights(&next), vec![6, 2, 0]);
    let mut dst = world.clone();
    let ts = update_granular(&world, &mut dst, &config(2));
    assert_eq!((ts[0].removed, ts[0].applied), (4, 2));
    assert_eq!(total(&world, MaterialId::Sand) - total(&dst, MaterialId::Sand), 2);
}

#[test]
fn mass_is_conserved_up_to_clipping() {
    let mut world = Grid::new(3, 3);
    let hs = [9usize, 0, 7, 1, 12, 0, 5, 3, 8];
    for (i, h) in hs.iter().enumerate() {
        world.get_cells_mut()[i].add_layer(MaterialId::Sand, *h);
    }
    world.get_cells_mut()[4].add_layer(MaterialId::Rock, 1);
    world.get_cells_mut()[4].add_layer(MaterialId::Sand, 2);
    for cap in [64u16, 6, 3] {
        let mut dst = world.clone();
        let ts = update_granular(&world, &mut dst, &config(cap));
        assert!(!ts.is_empty());
        let clipped: usize = ts.iter().map(|t| t.removed - t.applied).sum();
        assert_eq!(
            total(&dst, MaterialId::Sand),
            total(&world, MaterialId::Sand) - clipped
        );
        assert_eq!(total(&dst, MaterialId::Rock), total(&world, MaterialId::Rock));
        for t in &ts {
            assert!(t.applied <= t.removed);
            assert!(t.removed <= 4);
        }
    }
}

#[test]
fn settled_grid_is_a_fixed_point() {
    let mut sim = Simulator::new(config(64));
    let mut world = Grid::new(3, 2);
    let hs = [3usize, 4, 3, 4, 3, 4];
    for (i, h) in hs.iter().enumerate() {
        world.get_cells_mut()[i].add_layer(MaterialId::Sand, *h);
    }
    let next = sim.advance_tick(&mut world);
    assert_eq!(heights(&next), hs.to_vec());
    let again = sim.advance_tick(&mut next.clone());
    assert_eq!(heights(&again), hs.to_vec());
    for c in again.get_cells() {
        assert_eq!(c.moveable_ground.len(), 1);
        assert!(!c.was_generated_this_tick());
    }
}

#[test]
fn single_column_never_moves() {
    let mut sim = Simulator::new(config(64));
    let mut world = row(&[50]);
    world.set_step(255);
    let next = sim.advance_tick(&mut world);
    assert_eq!(heights(&next), vec![50]);
    assert_eq!(next.get_step(), 0);
    let next = sim.advance_tick(&mut next.clone());
    assert_eq!(heights(&next), vec![50]);
    assert_eq!(next.get_step(), 1);
}

#[test]
fn scan_direction_alternates() {
    let mut sim = Simulator::new(config(64));
    let mut world = row(&[10, 5, 0]);
    assert_eq!(heights(&sim.advance_tick(&mut world)), vec![8, 7, 0]);
    world.set_step(1);
    assert_eq!(heights(&sim.advance_tick(&mut world)), vec![8, 5, 2]);
    let mut fixed = Simulator::new(SimConfig { alternate_scan_direction: false, ..config(64) });
    assert_eq!(heights(&fixed.advance_tick(&mut world)), vec![8, 7, 0]);
}

#[test]
fn only_granular_tops_move() {
    let mut sim = Simulator::new(config(64));
    let mut world = Grid::new(2, 1);
    world.get_cells_mut()[0].add_layer(MaterialId::Rock, 10);
    assert_eq!(heights(&sim.advance_tick(&mut world)), vec![10, 0]);
    world.get_cells_mut()[0].add_layer(MaterialId::Sand, 1);
    assert_eq!(heights(&sim.advance_tick(&mut world)), vec![10, 1]);
}

#[test]
fn lowest_neighbour_is_chosen() {
    let mut sim = Simulator::new(config(64));
    let mut world = Grid::new(3, 3);
    let hs = [9usize, 2, 9, 9, 9, 7, 9, 9, 9];
    for (i, h) in hs.iter().enumerate() {
        world.get_cells_mut()[i].immoveable_ground_level = *h;
    }
    world.get_cells_mut()[4].add_layer(MaterialId::Sand, 3);
    let mut dst = world.clone();
    let ts = update_granular(&world, &mut dst, &config(64));
    assert_eq!(ts.len(), 1);
    assert_eq!((ts[0].from, ts[0].to, ts[0].removed), (4, 1, 3));
    let next = sim.advance_tick(&mut world);
    assert_eq!(next.get_cells()[1].column_thickness(), 5);
    assert_eq!(next.get_cells()[4].column_thickness(), 9);
}
