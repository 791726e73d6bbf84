use gear_editor::app_state::Locale;
use gear_editor::challenges::{
    boss_image_base_name, clean_rich_text, da_mode_label_key, da_mode_label_raw,
    da_rotation_from_id, element_badges, element_icon_path, element_label,
    extract_entrance_zone, format_with_commas, render_rich_text, shiyu_max_stage,
    shiyu_stage_zones, ShiyuZone, lookup_zone_name, render_monster_card, ChallengeKind,
    ChallengeRecord, MonsterCardLabels, MonsterStats, ZoneRecord, da_is_hardcore,
    render_da_cards, render_floor_tabs, render_shiyu_buffs_card, render_shiyu_fight_card,
    render_shiyu_fight_cards, selected_floor, BuffRecord, DaLabels, DaMonster, DaZone,
    ShiyuFightZone, ShiyuMonster,
};

#[test]
fn thousands_separators() {
    assert_eq!(format_with_commas(0), "0");
    assert_eq!(format_with_commas(999), "999");
    assert_eq!(format_with_commas(1234567), "1,234,567");
    assert_eq!(format_with_commas(-1234), "-1,234");
    // the sign counts as a char of the leading group
    assert_eq!(format_with_commas(-123), "-,123");
    assert_eq!(format_with_commas(i64::MIN), "-9,223,372,036,854,775,808");
}

#[test]
fn deadly_assault_ids() {
    assert_eq!(da_rotation_from_id(6904201), 42);
    assert_eq!(da_rotation_from_id(1234), 0);
    assert_eq!(da_mode_label_raw(6904221), "hardcore");
    assert_eq!(da_mode_label_raw(6904211), "normal");
    assert_eq!(da_mode_label_raw(6903021), "normal");
    assert_eq!(da_mode_label_raw(12345), "normal");
    assert_eq!(da_mode_label_key(6904221), "da.mode_hardcore");
    assert_eq!(da_mode_label_key(6903021), "da.mode_normal");
}

#[test]
fn boss_image_names() {
    assert_eq!(boss_image_base_name("UI/Monster/Boss_01.webp"), "Boss_01");
    assert_eq!(boss_image_base_name("Boss.webp.webp"), "Boss");
    assert_eq!(boss_image_base_name("a/b/"), "");
    assert_eq!(boss_image_base_name("plain"), "plain");
}

#[test]
fn elements() {
    assert_eq!(
        element_icon_path("Fire"),
        "/assets/zzz_dump/assets/static.nanoka.cc/zzz/UI/Sprite/Element_Fire.webp"
    );
    assert_eq!(element_icon_path("Frost"), "");
    assert_eq!(element_label(Locale::Ru, "Physical"), "Физический");
    assert_eq!(element_label(Locale::En, "Physical"), "Physical");
    assert_eq!(element_label(Locale::En, "Frost"), "Frost");
    let badges = element_badges(&vec!["Ice".to_string(), "Frost".to_string()], Locale::En);
    assert_eq!(badges.matches("<span").count(), 1);
    assert!(badges.contains("Element_Ice.webp"));
    assert!(badges.contains("title=\"Ice\""));
}

#[test]
fn entrance_zones_from_config() {
    let cfg = ".hadal_zone_scheduled = .{ .zone = 61012, },\n.boss_challenge_normal = .{ .zone = 6904201 },";
    assert_eq!(extract_entrance_zone(cfg, "hadal_zone_scheduled"), 61012);
    assert_eq!(extract_entrance_zone(cfg, "boss_challenge_normal"), 6904201);
    assert_eq!(extract_entrance_zone(cfg, "boss_challenge_hard"), 0);
    assert_eq!(extract_entrance_zone(".x .zone = 99999999999", "x"), 0);
}

#[test]
fn rich_text_cleaning() {
    assert_eq!(clean_rich_text(" ..<color=#FFAF2C>Fire</color> DMG "), "Fire DMG");
    assert_eq!(clean_rich_text("<color=#123456>x</color>"), "<color=#123456>x");
}

#[test]
fn rich_text_rendering() {
    assert_eq!(
        render_rich_text("<color=#FFAF2C>Fire</color> & ice"),
        "<span style=\"color: #FFAF2C;\">Fire</span> &amp; ice"
    );
    assert_eq!(render_rich_text("a\nb"), "a<br>b");
    assert_eq!(render_rich_text("<IconMap:Icon_A>text"), "text");
    assert_eq!(render_rich_text("<color=#12>x"), "&lt;color=#12&gt;x");
    assert_eq!(render_rich_text("</color>x"), "x");
    assert_eq!(render_rich_text("<color=#abcdef>open"), "<span style=\"color: #abcdef;\">open</span>");
    assert_eq!(render_rich_text(". <b>"), "&lt;b&gt;");
}

#[test]
fn shiyu_floors() {
    let zones = vec![
        ShiyuZone { zone_key: "61012".to_string(), stage_num: Some(2) },
        ShiyuZone { zone_key: "61003".to_string(), stage_num: Some(2) },
        ShiyuZone { zone_key: "61001".to_string(), stage_num: Some(1) },
        ShiyuZone { zone_key: "bad".to_string(), stage_num: Some(2) },
        ShiyuZone { zone_key: "61020".to_string(), stage_num: None },
    ];
    assert_eq!(shiyu_max_stage(Some(&zones)), 2);
    assert_eq!(shiyu_max_stage(None), 1);
    assert_eq!(shiyu_max_stage(Some(&Vec::new())), 1);
    assert_eq!(shiyu_stage_zones(Some(&zones), 2), vec![(61003, 1), (61012, 0)]);
    assert_eq!(shiyu_stage_zones(Some(&zones), 3), vec![]);
    assert_eq!(shiyu_stage_zones(None, 1), vec![]);
}

fn monster_labels() -> MonsterCardLabels {
    MonsterCardLabels {
        hp: "HP".to_string(),
        atk: "ATK".to_string(),
        def: "DEF".to_string(),
        stun: "Daze".to_string(),
        weakness: "Weakness".to_string(),
        resistance: "Resistance".to_string(),
    }
}

#[test]
fn monster_card_layout() {
    let stats = MonsterStats {
        hp: "1,000".to_string(),
        atk: "200".to_string(),
        def: "N/A".to_string(),
        stun: "50".to_string(),
    };
    let html = render_monster_card(
        &monster_labels(),
        "Boss",
        "UI/Monster/Boss01.webp",
        &stats,
        &vec!["Fire".to_string(), "Quantum".to_string()],
        &vec![],
        Locale::En,
    );
    let badge = "<span style=\"display:inline-flex; align-items:center; gap:6px; margin-right:10px; vertical-align:middle;\"><img src=\"/assets/zzz_dump/assets/static.nanoka.cc/zzz/UI/Sprite/Element_Fire.webp\" alt=\"Fire\" title=\"Fire\" style=\"width: 18px; height: 18px; display:block;\" />Fire</span>";
    let weakness_html = format!(
        "<div style=\"display:flex; align-items:center; gap:8px; margin-top:8px; margin-bottom:6px;\"><strong>{weakness_label}:</strong> <span style=\"display:inline-flex; align-items:center; flex-wrap:wrap; gap:6px;\">{}</span></div>",
        badge, weakness_label = "Weakness",
    );
    let image_html = "<img class=\"boss-inline-thumb\" src=\"/assets/zzz_dump/assets/static.nanoka.cc/zzz/UI/Boss01.webp\" alt=\"Boss\" style=\"width: 180px; height: 100%; object-fit: cover; background: #10141d; border-radius: 8px; flex-shrink: 0;\" />";
    let expected = format!(
        r#"<div class="card" style="background: #1b1f2a; padding: 12px; border-radius: 12px; border: 1px solid #232a38; display: flex; gap: 14px; align-items: stretch; justify-content: space-between; flex-wrap: nowrap; min-height: 170px;">
            <div style="flex: 1 1 260px; min-width: 220px;">
                <h4 style="margin: 0 0 10px 0; font-size: 16px;">{boss_name}</h4>
                <div style="font-size: 13px; color: #c7d1e0; line-height: 1.45;">
                    <div style="margin-bottom: 5px;"><strong>{hp_label}:</strong> {hp}</div>
                    <div style="margin-bottom: 5px;"><strong>{atk_label}:</strong> {atk}</div>
                    <div style="margin-bottom: 5px;"><strong>{def_label}:</strong> {def}</div>
                    <div style="margin-bottom: 5px;"><strong>{stun_label}:</strong> {stun}</div>
                    {weakness_html}
                    {resistance_html}
                </div>
            </div>
            {image_html}
        </div>"#,
        boss_name = "Boss",
        hp = "1,000",
        atk = "200",
        def = "N/A",
        stun = "50",
        hp_label = "HP",
        atk_label = "ATK",
        def_label = "DEF",
        stun_label = "Daze",
        weakness_html = weakness_html,
        resistance_html = "",
        image_html = image_html,
    );
    assert_eq!(html, expected);
    let plain = render_monster_card(&monster_labels(), "B", "", &stats, &vec![], &vec!["Ice".to_string()], Locale::En);
    assert!(plain.contains("margin-top:8px;\"><strong>Resistance:</strong>"));
    assert!(!plain.contains("boss-inline-thumb"));
    assert!(!plain.contains("Weakness"));
}

#[test]
fn zone_names_from_the_dumps() {
    let zone = |name: Option<&str>, monsters: Vec<Option<&str>>| ZoneRecord {
        name: name.map(|s| s.to_string()),
        monster_names: monsters.into_iter().map(|m| m.map(|s| s.to_string())).collect(),
    };
    let named = ChallengeRecord { name: Some("Notorious Hunt".to_string()), zones: vec![] };
    assert_eq!(lookup_zone_name(Some(&named), ChallengeKind::DeadlyAssault, "Unknown"), "Notorious Hunt");
    let by_monster = ChallengeRecord {
        name: Some(String::new()),
        zones: vec![zone(None, vec![Some("  "), None, Some("Dullahan")]), zone(Some("Later"), vec![])],
    };
    assert_eq!(lookup_zone_name(Some(&by_monster), ChallengeKind::DeadlyAssault, "Unknown"), "Dullahan");
    assert_eq!(lookup_zone_name(Some(&by_monster), ChallengeKind::Shiyu, "Unknown"), "Later");
    let nothing = ChallengeRecord { name: None, zones: vec![zone(Some(""), vec![Some(" ")])] };
    assert_eq!(lookup_zone_name(Some(&nothing), ChallengeKind::DeadlyAssault, "Unknown"), "Unknown");
    assert_eq!(lookup_zone_name(None, ChallengeKind::Shiyu, "Unknown"), "Unknown");
    assert!(da_is_hardcore(1004221));
    assert!(!da_is_hardcore(1004111));
}

fn buff(title: Option<&str>, desc: Option<&str>) -> BuffRecord {
    BuffRecord { title: title.map(|s| s.to_string()), desc: desc.map(|s| s.to_string()) }
}

#[test]
fn shiyu_buffs_and_tabs() {
    let buffs = vec![
        buff(Some("  "), Some("<color=#FFFFFF></color>")),
        buff(None, Some("Hits <color=#FFAF2C>hard</color>")),
    ];
    let card = render_shiyu_buffs_card("Buffs", &buffs, "Buff", "No description");
    assert!(card.starts_with("<div class=\"card\" style=\"background: #1b1f2a; padding: 14px; border-radius: 12px; border: 1px solid #232a38;\">\n                            <h3>Buffs</h3>\n                            <div style=\"margin-bottom: 12px;"));
    assert!(card.contains("<h4 style=\"margin: 0 0 6px 0; color: #4c7dff;\">Buff</h4>"));
    assert!(card.contains("Hits <span style=\"color: #FFAF2C;\">hard</span>"));
    assert_eq!(card.matches("<h4").count(), 1);
    assert_eq!(render_shiyu_buffs_card("Buffs", &vec![buff(Some(""), Some(""))], "Buff", "x"), "");

    let tabs = render_floor_tabs(62001, 5, 2, "Waves", "Floor");
    assert_eq!(tabs.matches("<a href=").count(), 5);
    assert!(tabs.contains("<a href=\"/shiyu/62001?floor=2\" class=\"active\" style=\"margin-right: 0; padding: 8px 12px; border-radius: 8px; text-decoration: none; font-weight: 600; background: #4c7dff; color: #fff;\">Waves 2</a>"));
    assert!(tabs.contains("class=\"\" style=\"margin-right: 0; padding: 8px 12px; border-radius: 8px; text-decoration: none; font-weight: 600; background: #2a3140; color: #c7d1e0;\">Waves 1</a>"));
    assert!(render_floor_tabs(1, 7, 7, "Waves", "Floor").contains(">Floor 7</a>"));
    assert_eq!(selected_floor(None, 7), 7);
    assert_eq!(selected_floor(Some(0), 7), 1);
    assert_eq!(selected_floor(Some(9), 7), 7);
    assert_eq!(selected_floor(Some(3), 7), 3);
    assert_eq!(render_shiyu_fight_card("Fight", 3, ""), "");
    assert!(render_shiyu_fight_card("Fight", 3, "X").contains("<h3>Fight 3</h3>"));
}

#[test]
fn shiyu_fight_cards_in_order() {
    let stats = MonsterStats { hp: "1".to_string(), atk: "2".to_string(), def: "3".to_string(), stun: "4".to_string() };
    let zones = vec![ShiyuFightZone {
        weakness: vec!["Ice".to_string()],
        monsters: vec![
            ShiyuMonster { name: None, image: String::new(), stats: MonsterStats { ..stats }, resistance: vec![] },
        ],
    }];
    let cards = render_shiyu_fight_cards(&monster_labels(), "Unknown", &zones, Locale::En);
    assert!(cards.contains("<h4 style=\"margin: 0 0 10px 0; font-size: 16px;\">Unknown</h4>"));
    assert!(cards.contains("Element_Ice.webp"));
}

fn da_labels() -> DaLabels {
    DaLabels {
        unknown: "Unknown".to_string(),
        hp: "HP".to_string(),
        base_hp: "Base HP".to_string(),
        atk: "ATK".to_string(),
        def: "DEF".to_string(),
        stun: "Daze".to_string(),
        weakness: "Weakness".to_string(),
        resistance: "Resistance".to_string(),
        layer_buffs: "Layer buffs".to_string(),
        selectable_buffs: "Selectable buffs".to_string(),
        buff: "Buff".to_string(),
        no_description: "No description".to_string(),
    }
}

#[test]
fn deadly_assault_cards() {
    let monster = |name: &str| DaMonster {
        name: Some(name.to_string()),
        image: "UI/Monster/X.webp".to_string(),
        hp: "1,000".to_string(),
        base_hp: "8,740".to_string(),
        atk: "10".to_string(),
        def: "20".to_string(),
        stun: "30".to_string(),
        resistance: vec!["Fire".to_string()],
    };
    let zones = vec![
        DaZone {
            selectable_buffs: vec![buff(Some("A"), Some("a")), buff(Some("B"), Some("b")), buff(Some("C"), Some("c")), buff(Some("D"), Some("d"))],
            layer_buffs: vec![String::new(), "Layer one".to_string()],
            weakness: vec!["Ether".to_string()],
            monsters: vec![monster("Boss A")],
        },
        DaZone {
            selectable_buffs: vec![buff(Some("E"), Some("e"))],
            layer_buffs: vec![],
            weakness: vec![],
            monsters: vec![monster("Boss B")],
        },
    ];
    let (buffs, bosses) = render_da_cards(&da_labels(), &zones, Locale::En);
    assert!(buffs.contains("<h3>Selectable buffs</h3>"));
    assert!(buffs.contains(">A</h4>") && buffs.contains(">C</h4>"));
    assert!(!buffs.contains(">D</h4>"));
    assert!(!buffs.contains(">E</h4>"));
    let a = bosses.find("Boss A").unwrap();
    let b = bosses.find("Boss B").unwrap();
    assert!(a < b);
    assert!(bosses.contains("<strong>Base HP:</strong> 8,740</div>"));
    assert_eq!(bosses.matches("Layer one").count(), 1);
    assert!(bosses.contains("<div style=\"font-size: 12px; font-weight: 700; color: #8fb0ff; margin-bottom: 2px;\">Layer buffs</div>"));
    assert!(bosses.contains("style=\"width: 220px; height: 100%;"));
    assert!(bosses.contains("Element_Ether.webp"));
    assert_eq!(bosses.matches("Element_Fire.webp").count(), 2);
}
