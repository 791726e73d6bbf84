use gear_editor::updates::{
    render_client_updates_panel, render_empty_update_card, render_update_file_card,
    render_update_group, render_update_items, render_upload_form, UpdateCardFile,
    UpdateCardLabels, UpdateItem, UploadFormLabels,
};
use gear_editor::order::sort_entries_by_name;
use gear_editor::pages::{
    render_add_avatar_panel, render_avatar_card, render_avatar_select_options, render_bangboo_card,
    render_card_list, render_disc_card, render_disc_filter_panel, render_disc_list,
    render_disc_select_options, render_weapon_card, render_weapon_select_options, sub_stats_text,
    AvatarChoice, BangbooCardLabels, DeleteModeLabels, DiscCardLabels, DiscCardText,
    DiscFilterLabels, WeaponChoice,
    render_add_bangboo_panel, render_add_equip_panel, render_add_weapon_panel,
    render_avatar_filter_panel, render_bangboo_skill_inputs, render_error_page,
    render_generate_slot_options, render_login_form, render_pagination, render_register_form,
    render_skill_inputs, render_slot_options, render_stat_select_options, render_status_card,
    render_sub_stat_rows, render_weapon_filter_class_opts, render_weapon_filter_panel,
    render_weapon_filter_rarity_opts, stat_option_keys, AuthFormLabels, DiscListFilters,
    FilterLabels, PagerLabels, StatusCardLabels,
};

fn strings(v: &[&str]) -> Vec<String> {
    v.iter().map(|s| s.to_string()).collect()
}

#[test]
fn slot_options_mark_the_selected_slot() {
    let html = render_slot_options("Slot", 3);
    let mut expected = String::new();
    for slot in 1..=6u32 {
        expected.push_str(&format!(
            "<option value=\"{}\"{}>{} {}</option>",
            slot,
            if slot == 3 { " selected" } else { "" },
            "Slot",
            slot
        ));
    }
    assert_eq!(html, expected);
    assert!(!render_slot_options("Slot", 0).contains("selected"));
}

#[test]
fn generate_slot_options_start_with_not_selected() {
    let none = render_generate_slot_options("Any", "Slot", None);
    assert!(none.starts_with("<option value=\"\" selected>Any</option><option value=\"1\">Slot 1</option>"));
    let two = render_generate_slot_options("Any", "Slot", Some(2));
    assert!(two.starts_with("<option value=\"\">Any</option>"));
    assert!(two.contains("<option value=\"2\" selected>Slot 2</option>"));
    assert_eq!(two.matches("selected").count(), 1);
}

#[test]
fn stat_option_keys_sorted_unique_with_selected() {
    assert_eq!(stat_option_keys(&vec![12203, 0, 11103, 12203], 11102), vec![11102, 11103, 12203]);
    assert_eq!(stat_option_keys(&vec![5, 3], 0), vec![3, 5]);
    assert_eq!(stat_option_keys(&vec![5, 3], 5), vec![3, 5]);
    assert!(stat_option_keys(&vec![0, 0], 0).is_empty());
}

#[test]
fn stat_select_options_use_the_label_table() {
    let labels = vec![(11103u32, "HP".to_string()), (12203u32, "ATK".to_string())];
    let html = render_stat_select_options(&vec![12203, 11103], 12203, &labels);
    assert_eq!(
        html,
        "<option value=\"11103\">HP</option><option value=\"12203\" selected>ATK</option>"
    );
    let fallback = render_stat_select_options(&vec![7], 0, &labels);
    assert_eq!(fallback, "<option value=\"7\">7</option>");
}

#[test]
fn sub_stat_rows_default_to_first_option() {
    let labels = vec![(1u32, "A".to_string()), (2u32, "B".to_string())];
    let rows = render_sub_stat_rows("Key", "Procs", &vec![(2, 0, 3)], &vec![1, 2], &labels);
    let first = "<div><label>Key</label><select name=\"sub_key_1\"><option value=\"1\">A</option><option value=\"2\" selected>B</option></select></div><div><label>Procs</label><input name=\"sub_proc_1\" type=\"number\" min=\"0\" max=\"6\" value=\"3\" /></div>";
    assert!(rows.starts_with(first));
    let second = "<div><label>Key</label><select name=\"sub_key_2\"><option value=\"1\" selected>A</option><option value=\"2\">B</option></select></div><div><label>Procs</label><input name=\"sub_proc_2\" type=\"number\" min=\"0\" max=\"6\" value=\"0\" /></div>";
    assert!(rows.contains(second));
    assert!(rows.contains("name=\"sub_key_4\""));
    assert!(!rows.contains("sub_key_5"));
}

fn pager_labels() -> PagerLabels {
    PagerLabels {
        showing: "Showing".to_string(),
        page: "Page".to_string(),
        prev: "Prev".to_string(),
        next: "Next".to_string(),
    }
}

#[test]
fn pagination_links_and_range() {
    let filters = DiscListFilters {
        set_id: Some(31000),
        slot: None,
        main_stat: None,
        status: Some(String::new()),
        delete_mode: true,
    };
    let html = render_pagination(&pager_labels(), 2, 3, &filters, 120);
    let params = "tab=discs&delete=1&set_id=31000";
    let link = |page: u32, label: &str| {
        format!(
            "<a href=\"/dashboard?{}&page={}\" style=\"padding:6px 12px; border-radius:8px; background:#2a3140; color:#c7d1e0; text-decoration:none; font-size:12px; font-weight:600;\">{}</a>",
            params, page, label,
        )
    };
    let expected = format!(
        "<div style=\"display:flex; align-items:center; justify-content:space-between; gap:12px; margin-top:16px; flex-wrap:wrap;\">
            <span class=\"meta\">{showing} {start}&ndash;{end} / {total}</span>
            <div style=\"display:flex; gap:6px; align-items:center;\">
                {prev_link}
                <span style=\"font-size:12px; color:#9aa4b2;\">{page_label} {page}/{total_pages}</span>
                {next_link}
            </div>
        </div>",
        showing = "Showing",
        start = 51,
        end = 100,
        total = 120,
        prev_link = link(1, "Prev"),
        page_label = "Page",
        page = 2,
        total_pages = 3,
        next_link = link(3, "Next"),
    );
    assert_eq!(html, expected);

    let plain = DiscListFilters { set_id: None, slot: None, main_stat: None, status: None, delete_mode: false };
    let only = render_pagination(&pager_labels(), 1, 1, &plain, 7);
    assert!(only.contains("1&ndash;7 / 7"));
    assert!(!only.contains("<a href"));
    assert!(only.contains("<span style=\"padding:6px 12px; border-radius:8px; background:#1b2230; color:#5a6474; font-size:12px; font-weight:600;\">Prev</span>"));
}

#[test]
fn weapon_filter_options_mark_the_filter() {
    let labels = strings(&["All", "Attack", "Stun", "Anomaly", "Defense", "Rupture", "Support"]);
    let html = render_weapon_filter_class_opts(&labels, "Stun");
    assert_eq!(
        html,
        "<option value=\"\">All</option><option value=\"Attack\">Attack</option><option value=\"Stun\" selected>Stun</option><option value=\"Anomaly\">Anomaly</option><option value=\"Defense\">Defense</option><option value=\"Rupture\">Rupture</option><option value=\"Support\">Support</option>"
    );
    let rarity = render_weapon_filter_rarity_opts(&strings(&["All", "S", "A", "B"]), "");
    assert_eq!(
        rarity,
        "<option value=\"\" selected>All</option><option value=\"s\">S</option><option value=\"a\">A</option><option value=\"b\">B</option>"
    );
}

#[test]
fn filter_panels_embed_both_selects() {
    let weapon = FilterLabels {
        first: "Class".to_string(),
        first_options: strings(&["All", "Attack", "Stun", "Anomaly", "Defense", "Rupture", "Support"]),
        second: "Rarity".to_string(),
        second_options: strings(&["All", "S", "A", "B"]),
    };
    let html = render_weapon_filter_panel(&weapon, "", "a");
    assert!(html.starts_with("<form method=\"get\" action=\"/dashboard\" style=\"margin-bottom:12px;\">\n            <input type=\"hidden\" name=\"tab\" value=\"weapons\" />"));
    assert!(html.contains("<select name=\"weapon_class\" onchange=\"this.form.submit()\""));
    assert!(html.contains("<option value=\"a\" selected>A</option>"));
    assert!(html.ends_with("</select>\n                </div>\n            </div>\n        </form>"));

    let avatar = FilterLabels {
        first: "Element".to_string(),
        first_options: strings(&["All", "Physical", "Fire", "Ice", "Electric", "Wind", "Ether"]),
        second: "Rank".to_string(),
        second_options: strings(&["All", "S", "A"]),
    };
    let html = render_avatar_filter_panel(&avatar, "ice", "4");
    assert!(html.starts_with("<form method=\"get\" action=\"/avatar/new\""));
    assert!(html.contains("<option value=\"ice\" selected>Ice</option>"));
    assert!(html.contains("<option value=\"4\" selected>S</option>"));
}

fn auth_labels() -> AuthFormLabels {
    AuthFormLabels {
        lang: "en".to_string(),
        title: "Sign in".to_string(),
        username: "User".to_string(),
        password: "Password".to_string(),
        submit: "Go".to_string(),
        switch_link: "Register".to_string(),
    }
}

#[test]
fn login_form_escapes_next_and_error() {
    let html = render_login_form(&auth_labels(), "/x?a=\"1\"&b=<2>", Some("bad <b>"));
    assert!(html.starts_with("<!doctype html>\n<html lang=\"en\">"));
    assert!(html.contains("<input type=\"hidden\" name=\"next\" value=\"/x?a=&quot;1&quot;&amp;b=&lt;2&gt;\" />"));
    assert!(html.contains("<a href=\"/register?next=/x?a=&quot;1&quot;&amp;b=&lt;2&gt;\""));
    assert!(html.contains(">bad &lt;b&gt;</div>"));
    assert!(html.contains("<form method=\"post\" action=\"/login\">"));
    assert!(html.contains("<button type=\"submit\">Go</button>"));
    assert!(!html.contains("bad <b>"));

    let reg = render_register_form(&auth_labels(), "/dashboard", None);
    assert!(reg.contains("<form method=\"post\" action=\"/register\">"));
    assert!(reg.contains("<a href=\"/?next=/dashboard\""));
    assert!(reg.contains("autocomplete=\"new-password\""));
    assert!(!reg.contains("#3d1420"));
}

#[test]
fn error_page_has_message_and_back_link() {
    let html = render_error_page("en", "Error", "No slot", "Back");
    assert!(html.starts_with("<!doctype html>\n<html lang=\"en\">\n<head>"));
    assert!(html.contains("<title>Error</title>"));
    assert!(html.contains(gear_editor::utils::SHARED_PAGE_CSS));
    assert!(html.contains("font-size:14px;\">No slot</div>"));
    assert!(html.ends_with("<a href=\"/dashboard?tab=discs\" class=\"back\" style=\"margin-top:16px;\">Back</a>\n    </div>\n</body>\n</html>"));
}

fn card_labels() -> StatusCardLabels {
    StatusCardLabels {
        not_available: "N/A".to_string(),
        id: "ID".to_string(),
        mode: "Mode".to_string(),
        mode_normal: "Normal".to_string(),
        mode_hardcore: "Hardcore".to_string(),
    }
}

#[test]
fn status_cards() {
    let off = render_status_card(&card_labels(), 0, "/da/", "Deadly Assault", "x", true);
    assert_eq!(
        off,
        "<a class=\"card\" style=\"text-decoration:none;color:inherit;opacity:0.5;\">\n                <h3>Deadly Assault</h3>\n                <div class=\"meta\">N/A</div>\n            </a>"
    );
    let shiyu = render_status_card(&card_labels(), 61001, "/shiyu/", "Shiyu", "Zone", false);
    assert_eq!(
        shiyu,
        "<a href=\"/shiyu/61001\" class=\"card\" style=\"text-decoration:none;color:inherit;\">\n            <h3>Shiyu</h3>\n            \n            <div class=\"meta\">ID: 61001<br>Zone</div>\n        </a>"
    );
    let hard = render_status_card(&card_labels(), 1004221, "/da/", "DA", "Boss", true);
    assert!(hard.contains("color:#ef4444; margin:6px 0;\">Mode: Hardcore</div>"));
    let normal = render_status_card(&card_labels(), 1004111, "/da/", "DA", "Boss", true);
    assert!(normal.contains("color:#c7d1e0; margin:6px 0;\">Mode: Normal</div>"));
}

#[test]
fn skill_inputs_default_to_level_one() {
    let labels = strings(&["Basic", "Special", "Dodge", "Ultimate", "Assist", "Core"]);
    let html = render_skill_inputs(&labels, &vec![5, 6, 7, 8, 9, 3, 10], true);
    assert!(html.starts_with("<div><label>Basic</label><input name=\"skill_common_attack\" type=\"number\" min=\"1\" max=\"12\" value=\"5\"  /></div>"));
    assert!(html.contains("name=\"skill_assist_skill\" type=\"number\" min=\"1\" max=\"12\" value=\"10\""));
    assert!(html.ends_with("<div><label>Core</label><input name=\"core_ability\" type=\"number\" min=\"1\" max=\"7\" value=\"3\"  /></div>"));
    let offline = render_skill_inputs(&labels, &vec![], false);
    assert_eq!(offline.matches("value=\"1\" disabled /></div>").count(), 6);

    let bangboo = render_bangboo_skill_inputs(&strings(&["M", "P", "Q", "A"]), &vec![2, 3]);
    assert_eq!(
        bangboo,
        "<div><label>M</label><input name=\"skill_manual\" type=\"number\" min=\"1\" value=\"2\" /></div><div><label>P</label><input name=\"skill_passive\" type=\"number\" min=\"1\" value=\"3\" /></div><div><label>Q</label><input name=\"skill_qte\" type=\"number\" min=\"1\" value=\"1\" /></div><div><label>A</label><input name=\"skill_aid\" type=\"number\" min=\"1\" value=\"1\" /></div>"
    );
}

#[test]
fn action_panels() {
    assert_eq!(
        render_add_equip_panel("Discs", "New", "Generate", "Delete", false),
        "<div class=\"panel\"><h3>Discs</h3><div style=\"display:flex; gap:8px;\"><a href=\"/equip/new\">New</a><a href=\"/equip/generate\">Generate</a><a href=\"/dashboard?tab=discs&delete=1\">Delete</a></div></div>"
    );
    assert!(render_add_equip_panel("Discs", "New", "Generate", "Exit", true)
        .contains("<a href=\"/dashboard?tab=discs\">Exit</a>"));
    assert_eq!(
        render_add_weapon_panel("W-Engines", "New"),
        "<div class=\"panel\"><h3>W-Engines</h3><div style=\"display:flex; gap:8px;\"><a href=\"/weapon/new\">New</a></div></div>"
    );
    assert!(render_add_bangboo_panel("Bangboo", "Add all")
        .contains("action=\"/bangboo/add-all\" style=\"margin:0;\"><button type=\"submit\">Add all</button>"));
}

#[test]
fn names_sort_stably_by_code_point() {
    let items = vec![
        (3u32, "Zeta".to_string()),
        (1u32, "alpha".to_string()),
        (2u32, "Beta".to_string()),
        (9u32, "Beta".to_string()),
        (5u32, "Ärger".to_string()),
        (4u32, "Be".to_string()),
    ];
    let mut expected = items.clone();
    expected.sort_by(|a, b| a.1.cmp(&b.1));
    assert_eq!(sort_entries_by_name(items), expected);
}

#[test]
fn disc_select_options_by_name() {
    let html = render_disc_select_options("Pick", vec![(32000, "Woodpecker".to_string()), (31000, "Fanged".to_string())], 32000);
    assert_eq!(
        html,
        "<option value=\"\" disabled selected>Pick</option><option value=\"31000\">Fanged</option><option value=\"32000\" selected>Woodpecker</option>"
    );
}

#[test]
fn weapon_select_options_filter_and_sort() {
    let weapons = vec![
        WeaponChoice { id: 14001, name: "Steel".to_string(), class: "Attack".to_string(), rarity: 4 },
        WeaponChoice { id: 13001, name: "Bronze".to_string(), class: "Attack".to_string(), rarity: 3 },
        WeaponChoice { id: 12001, name: "Amber".to_string(), class: "Stun".to_string(), rarity: 4 },
        WeaponChoice { id: 11001, name: "Nameless".to_string(), class: String::new(), rarity: 0 },
    ];
    let html = render_weapon_select_options("Pick", &weapons, 13001, "Attack", "");
    assert_eq!(
        html,
        "<option value=\"\" disabled selected>Pick</option><option value=\"13001\" selected>Bronze</option><option value=\"14001\">Steel</option>"
    );
    let b_only = render_weapon_select_options("Pick", &weapons, 0, "", "b");
    assert!(b_only.contains("Nameless"));
    assert!(!b_only.contains("Steel"));
}

#[test]
fn avatar_select_options_skip_owned() {
    let avatars = vec![
        AvatarChoice { id: 1011, name: "Anby".to_string(), owned: true, element: 203, rarity: 3 },
        AvatarChoice { id: 1021, name: "Nekomata".to_string(), owned: false, element: 200, rarity: 4 },
        AvatarChoice { id: 1031, name: "Nicole".to_string(), owned: false, element: 205, rarity: 3 },
        AvatarChoice { id: 1041, name: "Ellen".to_string(), owned: false, element: 202, rarity: 4 },
    ];
    let (html, count) = render_avatar_select_options("Pick", &avatars, "", "4");
    assert_eq!(count, 2);
    assert_eq!(
        html,
        "<option value=\"\" disabled selected>Pick</option><option value=\"1041\">Ellen</option><option value=\"1021\">Nekomata</option>"
    );
    let (_, physical) = render_avatar_select_options("Pick", &avatars, "physical", "");
    assert_eq!(physical, 1);
}

fn disc_filter_labels() -> DiscFilterLabels {
    DiscFilterLabels {
        all: "All".to_string(),
        set: "Set".to_string(),
        slot: "Slot".to_string(),
        main_stat: "Main".to_string(),
        slot_word: "Slot".to_string(),
        status: "Status".to_string(),
        status_locked: "Locked".to_string(),
        status_unlocked: "Unlocked".to_string(),
    }
}

#[test]
fn disc_filter_panel_modes() {
    let sets = vec![(31000u32, "Fanged".to_string())];
    let table = vec![(11103u32, "HP".to_string())];
    let plain = render_disc_filter_panel(&disc_filter_labels(), sets.clone(), &table, Some(31000), None, None, None, false);
    assert!(plain.starts_with("<form method=\"get\" action=\"/dashboard\" style=\"margin-bottom:12px;\">\n            <input type=\"hidden\" name=\"tab\" value=\"discs\" />"));
    assert!(plain.contains("<select name=\"set_id\" onchange=\"this.form.submit()\""));
    assert!(plain.contains("<option value=\"\">All</option><option value=\"31000\" selected>Fanged</option>"));
    assert!(plain.contains("<option value=\"11103\">HP</option>"));
    assert!(plain.contains("<option value=\"12103\">12103</option>"));
    // The fourth select: lock status, all by default.
    assert!(plain.contains("<select name=\"status\" onchange=\"this.form.submit()\""));
    assert!(plain.contains("<option value=\"\" selected>All</option><option value=\"locked\">Locked</option><option value=\"unlocked\">Unlocked</option></select>"));
    assert_eq!(plain.matches("<select").count(), 4);
    let delete = render_disc_filter_panel(&disc_filter_labels(), sets.clone(), &table, None, Some(4), Some(11103), Some("locked"), true);
    assert!(delete.starts_with("<div style=\"margin-bottom:12px;\">"));
    assert!(delete.contains("window.location='/dashboard?tab=discs&delete=1&set_id='+this.value+'&slot=4&main_stat=11103&status=locked'"));
    assert!(delete.contains("window.location='/dashboard?tab=discs&delete=1&set_id=&slot='+this.value+'&main_stat=11103&status=locked'"));
    assert!(delete.contains("window.location='/dashboard?tab=discs&delete=1&set_id=&slot=4&main_stat='+this.value+'&status=locked'"));
    assert!(delete.contains("window.location='/dashboard?tab=discs&delete=1&set_id=&slot=4&main_stat=11103&status='+this.value"));
    assert!(delete.contains("<option value=\"\">All</option><option value=\"locked\" selected>Locked</option>"));
    assert_eq!(delete.matches("<select").count(), 4);
    // An unknown status value selects all, and is not carried into the links.
    let odd = render_disc_filter_panel(&disc_filter_labels(), sets, &table, None, None, None, Some("x'"), true);
    assert!(odd.contains("<option value=\"\" selected>All</option>"));
    assert!(!odd.contains("x'"));
    assert!(delete.contains("<option value=\"4\" selected>Slot 4</option>"));
    assert!(delete.contains("<option value=\"11103\" selected>HP</option>"));
}

fn delete_labels() -> DeleteModeLabels {
    DeleteModeLabels {
        title: "Delete".to_string(),
        delete_selected: "Delete selected".to_string(),
        delete_all_unlocked: "Delete unlocked".to_string(),
        cancel: "Cancel".to_string(),
    }
}

#[test]
fn disc_list_layout() {
    let empty = render_disc_list("A", "F", "", "", 0, "No discs", &delete_labels(), false);
    assert_eq!(empty, "AF<div class=\"cards\"><p class=\"meta\">No discs</p></div>");
    let del = render_disc_list("A", "F", "C", "P", 3, "No discs", &delete_labels(), true);
    assert_eq!(
        del,
        "A<form class=\"delete-form\" method=\"post\" action=\"/equip/delete\" onsubmit=\"return confirm('Delete selected');\"><div class=\"panel\"><h3>Delete</h3><div style=\"display:flex; gap:8px; flex-wrap:wrap;\"><button class=\"danger\" type=\"submit\">Delete selected</button><button class=\"danger\" type=\"submit\" formaction=\"/equip/delete-all-unlocked\" onclick=\"return confirm('Delete unlocked');\">Delete unlocked</button><a href=\"/dashboard?tab=discs\">Cancel</a></div></div>F<div class=\"cards\">C</div></form>P"
    );
}

#[test]
fn item_cards_escape_names() {
    let avatar = render_avatar_card("ID", "Lv.", 1011, 60, "A\"b", "/img.png");
    assert_eq!(
        avatar,
        "<a class=\"card\" href=\"/avatar/1011\"><img class=\"thumb\" src=\"/img.png\" alt=\"A&quot;b\" /><span class=\"pill\">ID 1011</span><h3>A&quot;b</h3><div class=\"meta\">Lv. 60</div></a>"
    );
    let weapon = render_weapon_card("UID", "Lv.", 7, 50, "W", "x");
    assert!(weapon.starts_with("<a class=\"card\" href=\"/weapon/7\"><img class=\"thumb\" style=\"object-fit: contain;\" src=\"x\""));
    let labels = BangbooCardLabels { uid: "UID".to_string(), level: "Lv.".to_string(), rank: "Rank".to_string() };
    let bangboo = render_bangboo_card(&labels, 54001, 10, 5, "B", "y");
    assert!(bangboo.ends_with("<div class=\"meta\">Lv. 10</div><div class=\"meta\">Rank 5</div></a>"));
    assert_eq!(render_card_list("P", "", "None"), "P<div class=\"cards\"><p class=\"meta\">None</p></div>");
    assert_eq!(render_card_list("P", "X", "None"), "P<div class=\"cards\">X</div>");
    assert_eq!(
        render_add_avatar_panel("Agents", "New"),
        "<div class=\"panel\"><h3>Agents</h3><div style=\"display:flex; gap:8px;\"><a href=\"/avatar/new\">New</a></div></div>"
    );
}

#[test]
fn disc_cards() {
    let labels = DiscCardLabels {
        uid: "UID".to_string(),
        set: "Set".to_string(),
        slot: "Slot".to_string(),
        level: "Level".to_string(),
        main_stat: "Main".to_string(),
        sub_stats: "Subs".to_string(),
    };
    let text = DiscCardText {
        uid: 12,
        name: "Fang<".to_string(),
        img: "/a.png".to_string(),
        slot: 4,
        level: 15,
        main_label: "CRIT".to_string(),
        sub_stats: sub_stats_text(&vec![("ATK".to_string(), 2), ("HP".to_string(), 0)], "None"),
    };
    let body = "<img class=\"thumb\" src=\"/a.png\" alt=\"Fang&lt;\" /><span class=\"pill\">UID 12</span><h3>Fang&lt;</h3><div class=\"meta\">Set: Fang&lt;</div><div class=\"meta\">Slot: 4</div><div class=\"meta\">Level: 15</div><div class=\"meta\">Main: CRIT</div><div class=\"meta\">Subs: ATK x2, HP x0</div>";
    assert_eq!(render_disc_card(&labels, &text, false), format!("<a class=\"card\" href=\"/equip/12\">{body}</a>"));
    assert_eq!(
        render_disc_card(&labels, &text, true),
        format!("<label class=\"card select-card\"><input type=\"checkbox\" name=\"equip_uids[]\" value=\"12\" /><span class=\"selection-outline\"></span>{body}</label>")
    );
    assert_eq!(sub_stats_text(&vec![], "None"), "None");
}

#[test]
fn update_cards() {
    let labels = UpdateCardLabels {
        download: "Download".to_string(),
        delete: "Delete".to_string(),
        aria2c_desc: "Use aria2c".to_string(),
        updated: "Updated".to_string(),
    };
    let f = UpdateCardFile {
        file_name: "a\"b.zip".to_string(),
        relative_path: "client_updates/Beta/Update/a\"b.zip".to_string(),
        size: "1.00 GB".to_string(),
        updated: "2024-01-01 00:00 UTC".to_string(),
    };
    let html = render_update_file_card(&labels, "Update", &f, "example.org:8080", true, true);
    assert!(html.contains("<input type=\"hidden\" name=\"filename\" value=\"a&quot;b.zip\" />"));
    assert!(html.contains("onclick=\"return confirm('Delete a&quot;b.zip?')\">Delete</button>"));
    assert!(html.contains("aria2c -x 16 -s 16 -k 1M -c \"http://example.org:8080/assets/client_updates/Beta/Update/a\"b.zip\""));
    assert!(html.contains("\n                                Download a\"b.zip 1.00 GB\n                            </a>"));
    assert!(html.ends_with("<div class=\"meta\">Updated: 2024-01-01 00:00 UTC</div></div>"));
    let patch = render_update_file_card(&labels, "Patch", &f, "h", false, false);
    assert!(!patch.contains("aria2c"));
    assert!(!patch.contains("delete-update"));
    assert!(patch.contains("</a></div><div class=\"meta\">Updated"));
    assert_eq!(
        render_empty_update_card("Patch", "No file"),
        "<div style=\"padding: 12px; border-radius: 10px; background: #121620; border: 1px solid #232a38; min-width: 0;\">\n                    <div style=\"font-size: 13px; font-weight: 700; color: #e6e6e6; margin-bottom: 6px;\">Patch</div>\n                    <div class=\"meta\">No file</div>\n                </div>"
    );
    assert_eq!(
        render_update_group("C", "N"),
        "<div style=\"display:grid; gap:12px; min-width:0;\">C</div><div class=\"meta\" style=\"margin-top: 8px;\">N</div>"
    );
    let form = render_upload_form(&UploadFormLabels {
        upload_label: "Upload beta update".to_string(),
        upload: "Upload".to_string(),
        uploading: "Uploading".to_string(),
    });
    assert!(form.contains("<button type=\"submit\" class=\"apply\" id=\"upload-btn\">Upload</button>"));
    assert!(form.contains("btn.textContent = \"Uploading...\";"));
    assert!(form.contains("(function() {"));
    assert_eq!(form.matches("btn.textContent = \"Upload\";").count(), 3);
    let panel = render_client_updates_panel("U", "B", "P");
    assert!(panel.contains("<h3 style=\"margin-top: 0;\">Beta</h3>\n                U\n                <div style=\"display:grid; gap:12px; min-width:0;\">B</div>"));
    assert!(panel.contains("<h3 style=\"margin-top: 0;\">Prod</h3>\n                <div style=\"display:grid; gap:12px; min-width:0;\">P</div>"));
}

#[test]
fn lang_selector_marks_current_language() {
    let html = gear_editor::pages::render_lang_selector(
        &vec!["ru", "en"],
        &strings(&["Русский", "English"]),
        "en",
    );
    assert_eq!(
        html,
        "<select onchange=\"location.href='/set-lang?lang='+this.value+'&next=%2Fdashboard'\" style=\"padding:5px 8px; border-radius:8px; border:1px solid #2a3140; background:#121620; color:#e6e6e6; font-size:12px; font-weight:700; cursor:pointer;\"><option value=\"ru\">Русский</option><option value=\"en\" selected>English</option></select>"
    );
}

#[test]
fn update_groups_list_each_kind() {
    let labels = || UpdateCardLabels {
        download: "Download".to_string(),
        delete: "Delete".to_string(),
        aria2c_desc: "Fetch with aria2c".to_string(),
        updated: "Updated".to_string(),
    };
    let file = |name: &str| UpdateCardFile {
        file_name: name.to_string(),
        relative_path: format!("client_updates/Beta/Update/{name}"),
        size: "1.00 MB".to_string(),
        updated: "2024-01-01 00:00 UTC".to_string(),
    };
    let l = labels();
    let items = vec![
        UpdateItem { label: "Patch".to_string(), files: Vec::new() },
        UpdateItem { label: "Update".to_string(), files: vec![file("a.zip"), file("b.zip")] },
    ];
    let html = render_update_items(&l, &items, "No file", "Update", true, true, "h");
    let expected = render_empty_update_card("Patch", "No file")
        + &render_update_file_card(&l, "Update", &file("a.zip"), "h", true, true)
        + &render_update_file_card(&l, "Update", &file("b.zip"), "h", true, true);
    assert_eq!(html, expected);
    // Outside the Beta group, or for someone else than an administrator, no delete button.
    let prod = render_update_items(&l, &items, "No file", "Update", false, true, "h");
    assert!(!prod.contains("delete-update"));
    let user = render_update_items(&l, &items, "No file", "Update", true, false, "h");
    assert!(!user.contains("delete-update"));
    assert!(user.contains("aria2c"));
}
