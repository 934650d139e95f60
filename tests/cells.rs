use heightfield::cells::{Cell, Layer, MaterialId};

fn layer(material_id: MaterialId, thickness: usize) -> Layer {
    Layer { material_id, thickness }
}

#[test]
fn empty_layer_is_tagged_empty() {
    let l = Layer::empty();
    assert_eq!(l.material_id, MaterialId::Empty);
    assert_eq!(l.thickness, 0);
    assert!(l.is_empty());
    assert_eq!(Layer::default(), l);
}

#[test]
fn layer_emptiness() {
    assert!(layer(MaterialId::Sand, 0).is_empty());
    assert!(layer(MaterialId::Empty, 3).is_empty());
    assert!(!layer(MaterialId::Sand, 3).is_empty());
}

#[test]
fn registry_flags() {
    assert!(MaterialId::Sand.is_granular());
    assert!(!MaterialId::Rock.is_granular());
    assert!(MaterialId::Water.is_liquid());
    assert!(MaterialId::Oil.is_liquid());
    assert!(!MaterialId::Sand.is_liquid());
    assert!(MaterialId::Oil.is_flammable());
    assert!(MaterialId::Fire.is_flammable());
    assert!(!MaterialId::Water.is_flammable());
    assert!(!MaterialId::Empty.is_granular());
    assert!(!MaterialId::Empty.is_liquid());
    assert!(!MaterialId::Empty.is_flammable());
}

#[test]
fn new_cell_is_bare() {
    let c = Cell::new(0, 1, 2);
    assert_eq!(c.immoveable_ground_level, 0);
    assert!(c.moveable_ground.is_empty());
    assert_eq!(c.moveable_liquid, Layer::empty());
    assert!(!c.was_generated_this_tick());
    assert_eq!(c.column_thickness(), 0);
    assert_eq!(c.surface_material_id(), MaterialId::Empty);
}

#[test]
fn add_layer_coalesces_same_material() {
    let mut c = Cell::new(0, 0, 0);
    c.add_layer(MaterialId::Sand, 3);
    assert_eq!(c.moveable_ground.len(), 1);
    c.add_layer(MaterialId::Sand, 2);
    assert_eq!(c.moveable_ground.len(), 1);
    assert_eq!(c.moveable_ground[0], layer(MaterialId::Sand, 5));
}

#[test]
fn add_layer_pushes_other_material() {
    let mut c = Cell::new(0, 0, 0);
    c.add_layer(MaterialId::Sand, 3);
    c.add_layer(MaterialId::Rock, 2);
    assert_eq!(c.moveable_ground.len(), 2);
    assert_eq!(c.moveable_ground[1], layer(MaterialId::Rock, 2));
    c.add_layer(MaterialId::Sand, 1);
    assert_eq!(c.moveable_ground.len(), 3);
}

#[test]
fn add_layer_of_nothing_is_a_no_op() {
    let mut c = Cell::new(0, 0, 0);
    c.add_layer(MaterialId::Sand, 3);
    c.add_layer(MaterialId::Rock, 0);
    assert_eq!(c.moveable_ground, vec![layer(MaterialId::Sand, 3)]);
}

#[test]
fn add_then_remove_round_trips() {
    let mut c = Cell::new(0, 0, 0);
    c.add_layer(MaterialId::Rock, 4);
    c.add_layer(MaterialId::Sand, 2);
    let before = c.moveable_ground.clone();
    c.add_layer(MaterialId::Sand, 7);
    assert_eq!(c.remove_layer(7), 7);
    assert_eq!(c.moveable_ground, before);
    c.add_layer(MaterialId::Water, 5);
    assert_eq!(c.remove_layer(5), 5);
    assert_eq!(c.moveable_ground, before);
}

#[test]
fn remove_layer_crosses_layers() {
    let mut c = Cell::new(0, 0, 0);
    c.add_layer(MaterialId::Rock, 4);
    c.add_layer(MaterialId::Sand, 2);
    assert_eq!(c.remove_layer(3), 3);
    assert_eq!(c.moveable_ground, vec![layer(MaterialId::Rock, 3)]);
}

#[test]
fn remove_layer_short_removal() {
    let mut c = Cell::new(0, 0, 0);
    c.add_layer(MaterialId::Rock, 4);
    c.add_layer(MaterialId::Sand, 2);
    assert_eq!(c.remove_layer(10), 6);
    assert!(c.moveable_ground.is_empty());
    assert_eq!(c.remove_layer(1), 0);
}

#[test]
fn remove_layer_of_nothing() {
    let mut c = Cell::new(0, 0, 0);
    c.add_layer(MaterialId::Sand, 2);
    assert_eq!(c.remove_layer(0), 0);
    assert_eq!(c.moveable_ground, vec![layer(MaterialId::Sand, 2)]);
}

#[test]
fn heights_sum_every_layer() {
    let mut c = Cell::new(0, 0, 0);
    c.immoveable_ground_level = 10;
    c.add_layer(MaterialId::Rock, 4);
    c.add_layer(MaterialId::Sand, 2);
    c.moveable_liquid = layer(MaterialId::Water, 3);
    assert_eq!(c.total_moveable_thickness(), 9);
    assert_eq!(c.column_thickness(), 19);
}

#[test]
fn get_amount_counts_ground_and_liquid() {
    let mut c = Cell::new(0, 0, 0);
    c.add_layer(MaterialId::Sand, 4);
    c.add_layer(MaterialId::Rock, 1);
    c.add_layer(MaterialId::Sand, 2);
    c.moveable_liquid = layer(MaterialId::Water, 3);
    assert_eq!(c.get_amount(MaterialId::Sand), 6);
    assert_eq!(c.get_amount(MaterialId::Rock), 1);
    assert_eq!(c.get_amount(MaterialId::Water), 3);
    assert_eq!(c.get_amount(MaterialId::Oil), 0);
}

#[test]
fn surface_prefers_liquid() {
    let mut c = Cell::new(0, 0, 0);
    c.add_layer(MaterialId::Sand, 4);
    c.moveable_liquid = layer(MaterialId::Oil, 1);
    assert_eq!(c.surface_material_id(), MaterialId::Oil);
}

#[test]
fn surface_is_topmost_non_empty_layer() {
    let mut c = Cell::new(0, 0, 0);
    c.add_layer(MaterialId::Sand, 4);
    c.moveable_ground.push(layer(MaterialId::Rock, 0));
    assert_eq!(c.surface_material_id(), MaterialId::Sand);
    c.moveable_liquid = layer(MaterialId::Water, 0);
    assert_eq!(c.surface_material_id(), MaterialId::Sand);
}

#[test]
fn surface_falls_back_to_terrain() {
    let mut c = Cell::new(0, 0, 0);
    c.immoveable_ground_level = 2;
    assert_eq!(c.surface_material_id(), MaterialId::Rock);
    c.immoveable_ground_level = 0;
    assert_eq!(c.surface_material_id(), MaterialId::Empty);
}

#[test]
fn generated_flag_accessors() {
    let mut c = Cell::new(0, 0, 0);
    c.set_generated_this_tick(true);
    assert!(c.was_generated_this_tick());
    c.set_generated_this_tick(false);
    assert!(!c.was_generated_this_tick());
}
