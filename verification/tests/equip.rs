use gear_editor::discs::{STAT_ATK, STAT_CRIT_DMG, STAT_CRIT_RATE, STAT_DEF, STAT_HP, STAT_HP_PCT};
use gear_editor::equip::{
    add_disc, add_would_overflow, clear_discs, delete_discs, generation_would_overflow, disc_filter_params, disc_page, disc_properties,
    equip_main_property, equip_sub_properties, generate_discs, generate_random_disc,
    main_key_for, next_equip_uid, parse_selected_equip_uids, showing_range, update_disc,
    DiscCard, DiscError,
};
use gear_editor::save::{EquipItemSave, EquipProperty, PlayerSave};
use gear_editor::templates::{EquipTemplateIndex, EquipTemplateInfo};

fn prop(key: u32, base: u32, add: u32) -> EquipProperty {
    EquipProperty { key, base_value: base, add_value: add }
}

fn disc(uid: u32, id: u32) -> EquipItemSave {
    EquipItemSave { uid, id, level: 15, star: 1, properties: vec![prop(STAT_HP, 550, 0)] }
}

fn save_with(discs: Vec<EquipItemSave>) -> PlayerSave {
    PlayerSave {
        basic: None,
        avatar: Vec::new(),
        weapon: Vec::new(),
        equip: discs,
        buddy: Vec::new(),
        hall: None,
    }
}

fn index() -> EquipTemplateIndex {
    let mut idx = EquipTemplateIndex::new();
    for slot in 1..=6u32 {
        idx.add(31000 + slot * 10 + 1, EquipTemplateInfo { suit_type: 31000, slot });
    }
    idx.add(32011, EquipTemplateInfo { suit_type: 32000, slot: 1 });
    idx
}

#[test]
fn main_and_sub_lines() {
    let mut d = disc(1, 31011);
    d.properties = vec![
        prop(STAT_HP, 550, 0),
        prop(STAT_ATK, 19, 2),
        prop(STAT_DEF, 15, 1),
        prop(STAT_CRIT_RATE, 240, 3),
        prop(STAT_CRIT_DMG, 480, 1),
        prop(STAT_HP_PCT, 300, 1),
    ];
    assert_eq!(equip_main_property(&d), (STAT_HP, 550, 0));
    assert_eq!(equip_sub_properties(&d).len(), 4);
    assert_eq!(equip_sub_properties(&d)[0], (STAT_ATK, 19, 2));
    let empty = EquipItemSave { uid: 1, id: 1, level: 0, star: 0, properties: Vec::new() };
    assert_eq!(equip_main_property(&empty), (0, 0, 0));
    assert!(equip_sub_properties(&empty).is_empty());
}

#[test]
fn next_uid_is_one_past_the_highest() {
    assert_eq!(next_equip_uid(&save_with(vec![])), 1);
    assert_eq!(next_equip_uid(&save_with(vec![disc(4, 1), disc(9, 1), disc(2, 1)])), 10);
}

#[test]
fn form_properties() {
    assert_eq!(main_key_for(1, STAT_ATK), STAT_HP);
    assert_eq!(main_key_for(2, STAT_ATK), STAT_ATK);
    assert_eq!(main_key_for(9, STAT_ATK), 0);
    let p = disc_properties(1, STAT_ATK, &[STAT_ATK, STAT_DEF, 0, 0], &[2, 3, 0, 0]);
    assert_eq!(p.len(), 3);
    assert_eq!((p[0].key, p[0].base_value, p[0].add_value), (STAT_HP, 550, 0));
    assert_eq!((p[1].key, p[1].base_value, p[1].add_value), (STAT_ATK, 19, 2));
    assert_eq!((p[2].key, p[2].base_value, p[2].add_value), (STAT_DEF, 15, 3));
}

#[test]
fn editing_a_disc() {
    let idx = index();
    let mut save = save_with(vec![disc(3, 31021), disc(5, 31011)]);
    assert!(update_disc(&mut save, 5, 12, 2, STAT_HP, &[STAT_ATK, 0, 0, 0], &[1, 0, 0, 0], &idx));
    assert_eq!(save.equip[1].level, 12);
    assert_eq!(save.equip[1].star, 2);
    assert_eq!(save.equip[1].properties.len(), 2);
    assert_eq!(save.equip[0].level, 15);
    assert!(!update_disc(&mut save, 77, 1, 1, STAT_HP, &[0; 4], &[0; 4], &idx));
}

#[test]
fn adding_a_disc() {
    let idx = index();
    let mut save = save_with(vec![disc(3, 31021)]);
    let uid = add_disc(&mut save, 31000, 2, STAT_ATK, &[STAT_HP, 0, 0, 0], &[1, 0, 0, 0], &idx).unwrap();
    assert_eq!(uid, 4);
    assert_eq!(save.equip.len(), 2);
    assert_eq!(save.equip[1].id, 31041);
    assert_eq!(save.equip[1].level, 15);
    assert_eq!(save.equip[1].star, 1);
    assert_eq!(
        add_disc(&mut save, 31000, 7, STAT_ATK, &[0; 4], &[0; 4], &idx),
        Err(DiscError::InvalidSetSlot)
    );
    assert_eq!(save.equip.len(), 2);
}

#[test]
fn random_discs_follow_the_rules() {
    let idx = index();
    for _ in 0..50 {
        let d = generate_random_disc(31000, 0, &idx, 77).unwrap();
        assert_eq!(d.uid, 77);
        assert_eq!(d.properties.len(), 5);
        let rolls: u32 = d.properties[1..].iter().map(|p| p.add_value).sum();
        assert!(rolls == 8 || rolls == 9);
        for p in &d.properties[1..] {
            assert!(p.add_value >= 1 && p.add_value <= 6);
            assert_ne!(p.key, d.properties[0].key);
        }
        let mut keys: Vec<u32> = d.properties[1..].iter().map(|p| p.key).collect();
        keys.sort();
        keys.dedup();
        assert_eq!(keys.len(), 4);
    }
    let d = generate_random_disc(32000, 1, &idx, 1).unwrap();
    assert_eq!(d.id, 32041);
    assert_eq!(d.properties[0].key, STAT_HP);
    assert_eq!(generate_random_disc(99000, 0, &idx, 1).err(), Some(DiscError::InvalidSet));
    assert_eq!(generate_random_disc(32000, 2, &idx, 1).err(), Some(DiscError::SlotNotAvailable));
    assert_eq!(generate_random_disc(31000, 8, &idx, 1).err(), Some(DiscError::SlotRange));
}

#[test]
fn generating_many_discs() {
    let idx = index();
    let mut save = save_with(vec![disc(10, 31011)]);
    assert_eq!(generate_discs(&mut save, 31000, Some(" 3 "), 5, &idx), Ok(5));
    assert_eq!(save.equip.len(), 6);
    let uids: Vec<u32> = save.equip.iter().map(|e| e.uid).collect();
    assert_eq!(uids, vec![10, 11, 12, 13, 14, 15]);
    assert_eq!(generate_discs(&mut save, 31000, None, 0, &idx), Err(DiscError::CountRange));
    assert_eq!(generate_discs(&mut save, 31000, None, 201, &idx), Err(DiscError::CountRange));
    assert_eq!(generate_discs(&mut save, 31000, Some("9"), 1, &idx), Err(DiscError::SlotRange));
    assert_eq!(generate_discs(&mut save, 99000, None, 3, &idx), Err(DiscError::InvalidSet));
    assert_eq!(save.equip.len(), 6);
}

#[test]
fn selected_uids_from_the_delete_form() {
    assert_eq!(
        parse_selected_equip_uids("equip_uids=5&equip_uids%5B%5D=3&other=9&equip_uids[]=5&equip_uids=x"),
        vec![3, 5]
    );
    assert_eq!(parse_selected_equip_uids(""), Vec::<u32>::new());
    assert_eq!(parse_selected_equip_uids("equip_uids"), Vec::<u32>::new());
}

#[test]
fn deleting_discs() {
    let mut save = save_with(vec![disc(1, 1), disc(2, 1), disc(3, 1)]);
    assert_eq!(delete_discs(&mut save, &vec![2, 9]), 1);
    let uids: Vec<u32> = save.equip.iter().map(|e| e.uid).collect();
    assert_eq!(uids, vec![1, 3]);
    assert_eq!(clear_discs(&mut save), 2);
    assert!(save.equip.is_empty());
}

#[test]
fn disc_list_paging() {
    let mut cards = Vec::new();
    for i in 0..120u32 {
        cards.push(DiscCard { item_id: 31000 + (i % 3), uid: 500 - i, set_id: 31000, slot: i % 6 + 1, main_key: 0 });
    }
    let p = disc_page(&cards, None, None, None, 0);
    assert_eq!((p.total, p.total_pages, p.page), (120, 3, 1));
    assert_eq!(p.cards.len(), 50);
    // ordered by item id, then uid
    assert_eq!(p.cards[0], 117);
    let last = disc_page(&cards, None, None, None, 99);
    assert_eq!(last.page, 3);
    assert_eq!(last.cards.len(), 20);
    let slot1 = disc_page(&cards, None, Some(1), None, 1);
    assert_eq!(slot1.total, 20);
    let none = disc_page(&cards, Some(1), None, None, 5);
    assert_eq!((none.total, none.total_pages, none.page, none.cards.len()), (0, 1, 1, 0));
    assert_eq!(showing_range(2, 120), (51, 100));
    assert_eq!(showing_range(3, 120), (101, 120));
}

#[test]
fn filter_query_string() {
    assert_eq!(disc_filter_params(false, None, None, None, None), "tab=discs");
    assert_eq!(
        disc_filter_params(true, Some(31000), Some(2), Some(11103), Some("x")),
        "tab=discs&delete=1&set_id=31000&slot=2&main_stat=11103&status=x"
    );
    assert_eq!(disc_filter_params(false, None, None, None, Some("")), "tab=discs");
}

#[test]
fn disc_wire_pads_to_five_lines() {
    let disc = EquipItemSave {
        uid: 7,
        id: 31041,
        level: 15,
        star: 1,
        properties: vec![prop(11103, 550, 0), prop(12103, 19, 2)],
    };
    let (id, level, star, props) = gear_editor::equip::disc_wire(&disc).unwrap();
    assert_eq!((id, level, star), (31041, 15, 1));
    assert_eq!(props, [(11103, 550, 0), (12103, 19, 2), (0, 0, 0), (0, 0, 0), (0, 0, 0)]);
    let big = EquipItemSave { id: 70000, ..disc.clone() };
    assert!(gear_editor::equip::disc_wire(&big).is_none());
    let many = EquipItemSave { properties: vec![prop(1, 1, 1); 6], ..disc };
    assert!(gear_editor::equip::disc_wire(&many).is_none());
}

#[test]
fn uid_overflow_checks() {
    let idx = index();
    assert!(!add_would_overflow(&save_with(vec![disc(10, 31011)])));
    assert!(add_would_overflow(&save_with(vec![disc(u32::MAX, 31011)])));
    let near = save_with(vec![disc(u32::MAX - 3, 31011)]);
    // The uid after the last made disc must still be a u32.
    assert!(!generation_would_overflow(&near, 31000, None, 2, &idx));
    assert!(generation_would_overflow(&near, 31000, None, 3, &idx));
    // A set without discs fails before any uid is taken.
    assert!(!generation_would_overflow(&near, 99000, None, 4, &idx));
    // Out-of-range counts are refused before any uid is taken.
    assert!(!generation_would_overflow(&near, 31000, None, 0, &idx));
    assert!(generation_would_overflow(&save_with(vec![disc(u32::MAX, 31011)]), 99000, Some("2"), 1, &idx));
}

#[test]
fn sets_the_index_knows() {
    let idx = index();
    assert!(idx.knows_set(31000));
    assert!(idx.knows_set(32000));
    assert!(!idx.knows_set(33000));
    assert!(!EquipTemplateIndex::new().knows_set(31000));
}
