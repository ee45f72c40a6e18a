use hexworld::improvements::resource::{Resource, ResourceCounter};
use hexworld::rendering::text::format_to_exact_length;

#[test]
fn resource_new() {
    let r = Resource::new(3, "iron");
    assert_eq!(r.id, 3);
    assert_eq!(r.name, "iron");
}

#[test]
fn counter_turn_caps_at_capacity() {
    let mut c = ResourceCounter::new(Resource::new(0, "food"), 7, 10, 20);
    assert_eq!(c.get_player_id(), 7);
    assert_eq!((c.get_production_rate(), c.get_consumption_rate()), (0, 0));
    c.change_production_rate(8);
    c.change_consumption_rate(3);
    c.update();
    assert_eq!(c.get_quantity(), 15);
    c.update();
    assert_eq!(c.get_quantity(), 20);
    c.update();
    assert_eq!(c.get_quantity(), 20);
}

#[test]
fn counter_turn_can_go_negative() {
    let mut c = ResourceCounter::new(Resource::new(0, "food"), 0, 1, 20);
    c.update_consumption_rate(4);
    c.update();
    assert_eq!(c.get_quantity(), -3);
}

#[test]
fn counter_turn_lowers_quantity_above_capacity() {
    let mut c = ResourceCounter::new(Resource::new(0, "gold"), 0, 50, 20);
    c.update();
    assert_eq!(c.get_quantity(), 20);
}

#[test]
fn counter_updates_add_and_changes_set() {
    let mut c = ResourceCounter::new(Resource::new(1, "wood"), 2, 5, 10);
    c.update_quantity(4);
    assert_eq!(c.get_quantity(), 9);
    c.update_quantity(-4);
    assert_eq!(c.get_quantity(), 5);
    c.update_capacity(5);
    assert_eq!(c.get_capacity(), 15);
    c.change_capacity(3);
    assert_eq!(c.get_capacity(), 3);
    c.update_production_rate(2);
    c.update_production_rate(2);
    assert_eq!(c.get_production_rate(), 4);
    c.update_consumption_rate(1);
    assert_eq!(c.get_consumption_rate(), 1);
    c.change_quantity(-1);
    assert_eq!(c.get_quantity(), -1);
    assert_eq!(c.resource_type.name, "wood");
}

#[test]
fn format_pads_with_zeros() {
    assert_eq!(format_to_exact_length(42, 5), "00042");
    assert_eq!(format_to_exact_length(0, 3), "000");
}

#[test]
fn format_keeps_exact_length() {
    assert_eq!(format_to_exact_length(12345, 5), "12345");
}

#[test]
fn format_truncates_long_numbers() {
    assert_eq!(format_to_exact_length(1234567, 5), "12345");
    assert_eq!(format_to_exact_length(4294967295, 3), "429");
    assert_eq!(format_to_exact_length(99, 0), "");
}

#[test]
fn format_fps_counter() {
    let text = format_to_exact_length(144, 5) + "fps";
    assert_eq!(text, "00144fps");
    assert_eq!(text.len(), 8);
}

#[test]
fn counter_update_then_undo_restores_quantity() {
    let mut c = ResourceCounter::new(Resource::new(2, "stone"), 0, -7, 3);
    c.update_quantity(1000);
    c.update_quantity(-1000);
    assert_eq!(c.get_quantity(), -7);
}
