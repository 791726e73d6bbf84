use gear_editor::avatar::{
    avatar_element_name, avatar_position, avatar_update_ops, avatar_values_valid,
    check_avatar_add, AvatarAddError, AvatarUpdateForm,
};
use gear_editor::bangboo::{add_all_bangboos, update_bangboo, BangbooUpdateForm};
use gear_editor::save::{AvatarItemSave, BuddyItemSave, PlayerSave, WeaponItemSave};
use gear_editor::weapon::{
    rarity_letter, validate_weapon_add, validate_weapon_update, weapon_belongs,
    weapon_passes_filter, WeaponFormError,
};
use gear_editor::zon::zon_parse_entries;

fn empty_save() -> PlayerSave {
    PlayerSave {
        basic: None,
        avatar: Vec::new(),
        weapon: Vec::new(),
        equip: Vec::new(),
        buddy: Vec::new(),
        hall: None,
    }
}

fn avatar(id: u32, level: u32, talents: u32, skills: Vec<u32>) -> AvatarItemSave {
    AvatarItemSave {
        id,
        level,
        exp: 0,
        rank: 0,
        talents,
        talent_switch: 0,
        favorite: false,
        skill_levels: skills,
        skin_id: 0,
        awake_available: false,
        awake_enabled: false,
        awake_id: 0,
        weapon_uid: 0,
        equipment_uids: Vec::new(),
        awake_material_count: 0,
    }
}

fn form() -> AvatarUpdateForm {
    AvatarUpdateForm {
        level: 60,
        core_ability: 7,
        unlocked_talent_num: 6,
        skill_common_attack: 12,
        skill_special_attack: 12,
        skill_evade: 12,
        skill_cooperate_skill: 12,
        skill_assist_skill: 12,
    }
}

#[test]
fn avatar_form_ranges() {
    assert!(avatar_values_valid(&form()));
    assert!(!avatar_values_valid(&AvatarUpdateForm { level: 61, ..form() }));
    assert!(!avatar_values_valid(&AvatarUpdateForm { core_ability: 8, ..form() }));
    assert!(!avatar_values_valid(&AvatarUpdateForm { unlocked_talent_num: 7, ..form() }));
    assert!(!avatar_values_valid(&AvatarUpdateForm { skill_evade: 0, ..form() }));
}

#[test]
fn avatar_changes_sent() {
    let current = avatar(1011, 50, 6, vec![12, 12, 10, 12, 1, 7, 12]);
    let ops = avatar_update_ops(&current, &form());
    assert_eq!(ops, vec![(0, 60), (5, 2 | (12u64 << 32))]);
    let unchanged = avatar(1011, 60, 6, vec![12, 12, 12, 12, 1, 7, 12]);
    assert!(avatar_update_ops(&unchanged, &form()).is_empty());
    // a short skill list counts as level 1
    let short = avatar(1011, 60, 3, vec![12]);
    let ops = avatar_update_ops(&short, &form());
    assert_eq!(ops[0], (3, 6));
    assert_eq!(ops.len(), 1 + 5);
}

#[test]
fn avatar_ownership() {
    let mut save = empty_save();
    save.avatar.push(avatar(1011, 1, 0, vec![]));
    save.avatar.push(avatar(1021, 1, 0, vec![]));
    assert_eq!(avatar_position(&save, 1021), Some(1));
    assert_eq!(avatar_position(&save, 9), None);
    assert_eq!(check_avatar_add(Some(&save), 1011), Err(AvatarAddError::AlreadyOwned));
    assert_eq!(check_avatar_add(Some(&save), 1031), Ok(1031));
    assert_eq!(check_avatar_add(None, 70000), Err(AvatarAddError::InvalidId));
    assert_eq!(avatar_element_name(203), "electric");
    assert_eq!(avatar_element_name(1), "");
}

#[test]
fn weapon_forms() {
    assert_eq!(validate_weapon_update(60, 5), Ok((60, 5)));
    assert_eq!(validate_weapon_update(0, 5), Err(WeaponFormError::LevelOutOfRange));
    assert_eq!(validate_weapon_update(300, 5), Err(WeaponFormError::LevelOutOfRange));
    assert_eq!(validate_weapon_update(10, 6), Err(WeaponFormError::RefineOutOfRange));
    assert_eq!(validate_weapon_add(14102, 1), Ok((14102, 1)));
    assert_eq!(validate_weapon_add(70000, 1), Err(WeaponFormError::IdOutOfRange));
    assert_eq!(validate_weapon_add(14102, 0), Err(WeaponFormError::RefineOutOfRange));
    let mut save = empty_save();
    save.weapon.push(WeaponItemSave { uid: 4, id: 14102, level: 60, star: 5, refine: 1 });
    assert!(weapon_belongs(Some(&save), 4));
    assert!(!weapon_belongs(Some(&save), 5));
    assert!(!weapon_belongs(None, 4));
}

#[test]
fn weapon_filters() {
    assert_eq!(rarity_letter(4), "s");
    assert_eq!(rarity_letter(3), "a");
    assert_eq!(rarity_letter(0), "b");
    assert!(weapon_passes_filter("Attack", 4, "", ""));
    assert!(weapon_passes_filter("Attack", 4, "Attack", "s"));
    assert!(!weapon_passes_filter("Attack", 3, "Attack", "s"));
    assert!(!weapon_passes_filter("Stun", 4, "Attack", ""));
}

fn buddy(id: u32) -> BuddyItemSave {
    BuddyItemSave { id, level: 1, exp: 5, rank: 1, star: 1, favorite: true, skill_levels: vec![1, 1, 1, 1] }
}

#[test]
fn bangboo_edit() {
    let mut save = empty_save();
    save.buddy.push(buddy(53001));
    let f = BangbooUpdateForm { level: 60, rank: 6, star: 3, skill_manual: 12, skill_passive: 5, skill_qte: 11, skill_aid: 10 };
    assert!(update_bangboo(&mut save, 53001, &f));
    let b = &save.buddy[0];
    assert_eq!((b.level, b.rank, b.star, b.exp, b.favorite), (60, 6, 3, 5, true));
    assert_eq!(b.skill_levels, vec![12, 5, 11, 10]);
    assert!(!update_bangboo(&mut save, 1, &f));
}

#[test]
fn bangboo_add_all() {
    let mut save = empty_save();
    save.buddy.push(buddy(53001));
    let entries = zon_parse_entries(".{ .{ .id = 53001, }, .{ .id = 53002, }, .{ .id = 55001, }, .{ .name = \"x\", }, }");
    add_all_bangboos(&mut save, &entries);
    let ids: Vec<u32> = save.buddy.iter().map(|b| b.id).collect();
    assert_eq!(ids, vec![53001, 53002]);
    assert_eq!(save.buddy[1].level, 60);
    assert_eq!(save.buddy[1].rank, 6);
    assert_eq!(save.buddy[1].skill_levels, vec![12, 5, 12, 12]);
}
