use gear_editor::templates::{
    build_equip_template_index, equip_set_id, equip_slot, force_disc_fourth_digit,
    resolve_equip_item_id,
};
use gear_editor::zon::{zon_parse_entries, zon_try_parse_entries};

#[test]
fn zon_records_and_fields() {
    let data = ".{\n  .{ .id = 1001, .name = \"Anby\", },\n  .{ .id = 1002,\n .name = \"Nicole\" },\n}";
    let entries = zon_parse_entries(data);
    assert_eq!(entries.len(), 2);
    assert_eq!(entries[0].get("id").as_deref(), Some("1001"));
    assert_eq!(entries[1].get("id").as_deref(), Some("1002"));
    assert_eq!(entries[0].get("missing"), None);
    assert!(zon_try_parse_entries("").unwrap().is_empty());
}

#[test]
fn equip_templates() {
    let data = ".{ .{ .item_id = 31011, .suit_type = 31000, .equipment_type = 1, }, .{ .item_id = 31012, .suit_type = 31000, .equipment_type = 1, }, .{ .item_id = 31021, .suit_type = 31000, .equipment_type = 2, }, }";
    let idx = build_equip_template_index(data).unwrap();
    assert_eq!(equip_set_id(31021, &idx), 31000);
    assert_eq!(equip_slot(31021, &idx), 2);
    // unknown items fall back to the digits of the id
    assert_eq!(equip_set_id(32045, &idx), 32000);
    assert_eq!(equip_slot(32045, &idx), 5);
    // the first item listed for a set and slot wins
    assert_eq!(resolve_equip_item_id(31000, 1, &idx), Some(31011));
    assert_eq!(resolve_equip_item_id(31000, 3, &idx), None);
    assert_eq!(force_disc_fourth_digit(31011), 31041);
    assert_eq!(force_disc_fourth_digit(123), 123);
}
