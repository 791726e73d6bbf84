use gear_editor::discs::{
    all_main_stat_keys, build_stat_names, stat_label, StatLabel, StatNames, WeaponDetail,
    WeaponTemplate, disk_main_base_value, disk_main_stat_options, disk_stat_label_key,
    disk_sub_base_value, disk_sub_stat_options, normalize_disk_main_stat, validate_sub_stats,
    STAT_ATK, STAT_ATK_PCT, STAT_HP_PCT, STAT_CRIT_DMG, STAT_CRIT_RATE, STAT_DEF, STAT_HP, STAT_PEN,
    STAT_PHYSICAL_DMG,
};

#[test]
fn main_stat_options_per_slot() {
    assert_eq!(disk_main_stat_options(1), vec![STAT_HP]);
    assert_eq!(disk_main_stat_options(2), vec![STAT_ATK]);
    assert_eq!(disk_main_stat_options(4).len(), 6);
    assert_eq!(disk_main_stat_options(5).len(), 9);
    assert!(disk_main_stat_options(7).is_empty());
    assert_eq!(normalize_disk_main_stat(5, STAT_PHYSICAL_DMG), Some(STAT_PHYSICAL_DMG));
    assert_eq!(normalize_disk_main_stat(1, STAT_ATK), None);
    assert_eq!(all_main_stat_keys().len(), 18);
}

#[test]
fn base_values() {
    assert_eq!(disk_main_base_value(STAT_HP), Some(550));
    assert_eq!(disk_main_base_value(STAT_CRIT_DMG), Some(1200));
    assert_eq!(disk_main_base_value(1), None);
    assert_eq!(disk_sub_base_value(STAT_CRIT_RATE), Some(240));
    assert_eq!(disk_sub_base_value(STAT_PEN), Some(9));
    assert_eq!(disk_sub_base_value(STAT_PHYSICAL_DMG), None);
    assert_eq!(disk_stat_label_key(STAT_ATK_PCT), Some("stat.atk_pct"));
    assert_eq!(disk_stat_label_key(5), None);
}

#[test]
fn sub_options_never_hold_the_main_stat() {
    let opts = disk_sub_stat_options(STAT_HP);
    assert_eq!(opts.len(), 9);
    assert!(!opts.contains(&STAT_HP));
    let all = disk_sub_stat_options(STAT_PHYSICAL_DMG);
    assert_eq!(all.len(), 10);
    assert!(all.contains(&STAT_PEN));
}

#[test]
fn sub_stats_are_clamped_deduplicated_and_capped() {
    // the main stat, a duplicate and an unknown key are dropped; rolls are clamped to 1..=6
    let (keys, base, add) = validate_sub_stats(
        STAT_HP,
        &[STAT_HP, STAT_CRIT_RATE, STAT_CRIT_RATE, STAT_DEF],
        &[3, 0, 2, 9],
    );
    assert_eq!(keys, vec![STAT_CRIT_RATE, STAT_DEF]);
    assert_eq!(base, vec![240, 15]);
    assert_eq!(add, vec![1, 6]);
}

#[test]
fn sub_stat_rolls_are_reduced_from_the_back_to_nine() {
    let (keys, _base, add) = validate_sub_stats(
        STAT_HP,
        &[STAT_ATK, STAT_DEF, STAT_CRIT_RATE, STAT_CRIT_DMG],
        &[6, 6, 6, 6],
    );
    assert_eq!(keys.len(), 4);
    assert_eq!(add, vec![6, 1, 1, 1]);
    let (_k, _b, add2) = validate_sub_stats(
        STAT_HP,
        &[STAT_ATK, STAT_DEF, STAT_CRIT_RATE, STAT_CRIT_DMG],
        &[2, 2, 2, 4],
    );
    assert_eq!(add2, vec![2, 2, 2, 3]);
    assert_eq!(add2.iter().sum::<u32>(), 9);
}

#[test]
fn stat_names_first_name_wins() {
    let templates = vec![
        WeaponTemplate { item_id: 12001, base_property: Some(12101), rand_property: Some(21103) },
        WeaponTemplate { item_id: 12002, base_property: Some(12101), rand_property: None },
    ];
    let details = vec![
        WeaponDetail {
            key: "12001".to_string(),
            base_name: Some("Base ATK".to_string()),
            rand_name: Some("Impact".to_string()),
        },
        WeaponDetail {
            key: "12002".to_string(),
            base_name: Some("Other ATK".to_string()),
            rand_name: Some("Ignored".to_string()),
        },
        WeaponDetail { key: "nope".to_string(), base_name: Some("X".to_string()), rand_name: None },
        WeaponDetail { key: "99999".to_string(), base_name: Some("Y".to_string()), rand_name: None },
    ];
    let bangboo = vec![(21103u64, "Bangboo name".to_string()), (40001u64, "Extra".to_string())];
    let names = build_stat_names(&templates, &details, &bangboo);
    assert_eq!(names.get(12101), Some("Base ATK".to_string()));
    assert_eq!(names.get(21103), Some("Impact".to_string()));
    assert_eq!(names.get(40001), Some("Extra".to_string()));
    assert_eq!(names.get(0), None);
    assert_eq!(names.get(99999), None);
}

#[test]
fn stat_label_prefers_translation() {
    let mut names = StatNames::new();
    names.name_if_absent(STAT_HP, "Dump HP".to_string());
    names.name_if_absent(40001, "Extra".to_string());
    names.name_if_absent(40001, "Later".to_string());
    assert!(matches!(stat_label(&names, STAT_HP), StatLabel::Translated(_)));
    match stat_label(&names, 40001) {
        StatLabel::Named(n) => assert_eq!(n, "Extra"),
        _ => panic!("expected a dump name"),
    }
    assert!(matches!(stat_label(&names, 40002), StatLabel::Unknown(40002)));
}

#[test]
fn validating_twice_changes_nothing() {
    let pad = |v: &Vec<u32>| {
        let mut a = [0u32; 4];
        for (i, x) in v.iter().enumerate() {
            a[i] = *x;
        }
        a
    };
    let cases = [
        ([STAT_CRIT_RATE, STAT_CRIT_RATE, 0, STAT_ATK], [7, 3, 2, 0]),
        ([STAT_HP, STAT_ATK, STAT_DEF, STAT_CRIT_DMG], [6, 6, 6, 6]),
        ([0, 0, 0, 0], [1, 1, 1, 1]),
    ];
    for (keys, procs) in cases {
        let first = validate_sub_stats(STAT_HP_PCT, &keys, &procs);
        let again = validate_sub_stats(STAT_HP_PCT, &pad(&first.0), &pad(&first.2));
        assert_eq!(again, first);
    }
}
