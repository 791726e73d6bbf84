use gear_editor::forms::{render_disc_edit_page, render_disc_new_page, render_avatar_edit_page, render_avatar_new_page, render_weapon_edit_page, render_weapon_new_page, render_bangboo_edit_page, render_disc_generate_page, render_dashboard_page, DiscEditPage, DiscNewPage, AvatarEditPage, AvatarNewPage, WeaponEditPage, WeaponNewPage, BangbooEditPage, DiscGeneratePage, DashboardPage};
use gear_editor::dashboard::DashboardTab;
use gear_editor::challenges::{render_da_page, render_shiyu_page, render_status_panel, DaPage, ShiyuPage, StatusPanel};

#[test]
fn disc_edit_page_matches_template() {
    let page = DiscEditPage {
        lang: "<lang>".to_string(),
        title: "<title>".to_string(),
        img: "img\"&<x>".to_string(),
        name: "name\"&<x>".to_string(),
        uid_label: "<uid_label>".to_string(),
        uid: 105,
        item_label: "<item_label>".to_string(),
        item_id: 107,
        slot_label: "<slot_label>".to_string(),
        slot: 109,
        level_label: "<level_label>".to_string(),
        level: 111,
        star_label: "<star_label>".to_string(),
        star: 113,
        main_stat_heading: "<main_stat_heading>".to_string(),
        stat_label: "<stat_label>".to_string(),
        main_options: "<main_options>".to_string(),
        sub_stats_heading: "<sub_stats_heading>".to_string(),
        sub_stat_rows: "<sub_stat_rows>".to_string(),
        script: "<script>".to_string(),
        back_label: "<back_label>".to_string(),
        save_label: "<save_label>".to_string(),
    };
    let expected = "<!doctype html>\n<html lang=\"<lang>\">\n<head>\n  <meta charset=\"utf-8\" />\n  <meta name=\"viewport\" content=\"width=device-width, initial-scale=1\" />\n    <title><title></title>\n  <style>body{font-family:system-ui,sans-serif;margin:0;background:#0f1115;color:#e6e6e6}.container{padding:24px;max-width:900px;margin:0 auto}input,select{width:100%;box-sizing:border-box;padding:8px;border-radius:8px;border:1px solid #2a3140;background:#121620;color:#e6e6e6}label{display:block;margin:12px 0 6px;font-size:12px;color:#9aa4b2}button{margin-top:16px;padding:10px 14px;border:0;border-radius:8px;background:#4c7dff;color:#fff;font-weight:600;cursor:pointer}.row{display:grid;grid-template-columns:repeat(2,minmax(0,1fr));gap:12px}.row>*{min-width:0}.hero{display:flex;gap:16px;align-items:center;margin-bottom:16px}.hero img{width:120px;height:120px;border-radius:12px;object-fit:cover;object-position:top;border:1px solid #2a3140;background:#0f1115}.hero h1{margin:0}.meta{color:#9aa4b2;font-size:12px}.back{display:inline-flex;align-items:center;justify-content:center;padding:10px 14px;border-radius:8px;background:#2a3140;color:#e6e6e6;text-decoration:none;font-weight:600}.form-actions{display:flex;justify-content:space-between;gap:12px;margin-top:16px}.form-actions button{margin-top:0}.preview-img{display:none;width:33.33%;aspect-ratio:1/1;object-fit:contain;border-radius:8px;border:1px solid #2a3140;background:#0f1115;margin:0 0 8px}@media(max-width:768px){.container{padding:14px}.row{grid-template-columns:1fr}button{width:100%}.hero{flex-direction:column;align-items:flex-start}.hero img{width:100%;max-width:240px;height:auto;aspect-ratio:1/1}.preview-img{width:100%}}</style>\n</head>\n<body>\n  <div class=\"container\">\n        <div class=\"hero\">\n            <img src=\"img&quot;&amp;&lt;x&gt;\" alt=\"name&quot;&amp;&lt;x&gt;\" />\n            <div>\n                <h1><title> name&quot;&amp;&lt;x&gt;</h1>\n                <div class=\"meta\"><uid_label> 105 · <item_label> 107 · <slot_label> 109</div>\n            </div>\n        </div>\n    <form method=\"post\">\n      <label><level_label></label>\n      <input name=\"level\" type=\"number\" min=\"0\" value=\"111\" />\n      <label><star_label></label>\n      <input name=\"star\" type=\"number\" min=\"0\" max=\"5\" value=\"113\" />\n\n            <h3><main_stat_heading></h3>\n            <div class=\"row\">\n                <div>\n                    <label><stat_label></label>\n                    <select name=\"main_key\" id=\"main_key\">\n                        <main_options>\n                    </select>\n                </div>\n            </div>\n\n            <h3><sub_stats_heading></h3>\n            <div class=\"row\">\n                <sub_stat_rows>\n            </div>\n        <script>\n\n      <div class=\"form-actions\">\n        <a href=\"/dashboard?tab=discs\" class=\"back\"><back_label></a>\n        <button type=\"submit\"><save_label></button>\n      </div>\n    </form>\n  </div>\n</body>\n</html>";
    assert_eq!(render_disc_edit_page(&page), expected);
}

#[test]
fn disc_new_page_matches_template() {
    let page = DiscNewPage {
        lang: "<lang>".to_string(),
        title: "<title>".to_string(),
        set_label: "<set_label>".to_string(),
        set_options: "<set_options>".to_string(),
        slot_label: "<slot_label>".to_string(),
        slot_options: "<slot_options>".to_string(),
        main_stat_heading: "<main_stat_heading>".to_string(),
        stat_label: "<stat_label>".to_string(),
        main_options: "<main_options>".to_string(),
        sub_stats_heading: "<sub_stats_heading>".to_string(),
        sub_stat_rows: "<sub_stat_rows>".to_string(),
        script: "<script>".to_string(),
        create_label: "<create_label>".to_string(),
        images_json: "<images_json>".to_string(),
    };
    let expected = "<!doctype html>\n<html lang=\"<lang>\">\n<head>\n    <meta charset=\"utf-8\" />\n    <meta name=\"viewport\" content=\"width=device-width, initial-scale=1\" />\n    <title><title></title>\n    <style>body{font-family:system-ui,sans-serif;margin:0;background:#0f1115;color:#e6e6e6}.container{padding:24px;max-width:900px;margin:0 auto}input,select{width:100%;box-sizing:border-box;padding:8px;border-radius:8px;border:1px solid #2a3140;background:#121620;color:#e6e6e6}label{display:block;margin:12px 0 6px;font-size:12px;color:#9aa4b2}button{margin-top:16px;padding:10px 14px;border:0;border-radius:8px;background:#4c7dff;color:#fff;font-weight:600;cursor:pointer}.row{display:grid;grid-template-columns:repeat(2,minmax(0,1fr));gap:12px}.row>*{min-width:0}.hero{display:flex;gap:16px;align-items:center;margin-bottom:16px}.hero img{width:120px;height:120px;border-radius:12px;object-fit:cover;object-position:top;border:1px solid #2a3140;background:#0f1115}.hero h1{margin:0}.meta{color:#9aa4b2;font-size:12px}.back{display:inline-flex;align-items:center;justify-content:center;padding:10px 14px;border-radius:8px;background:#2a3140;color:#e6e6e6;text-decoration:none;font-weight:600}.form-actions{display:flex;justify-content:space-between;gap:12px;margin-top:16px}.form-actions button{margin-top:0}.preview-img{display:none;width:33.33%;aspect-ratio:1/1;object-fit:contain;border-radius:8px;border:1px solid #2a3140;background:#0f1115;margin:0 0 8px}@media(max-width:768px){.container{padding:14px}.row{grid-template-columns:1fr}button{width:100%}.hero{flex-direction:column;align-items:flex-start}.hero img{width:100%;max-width:240px;height:auto;aspect-ratio:1/1}.preview-img{width:100%}}</style>\n</head>\n<body>\n    <div class=\"container\">\n        <h1><title></h1>\n        <form method=\"post\">\n            <div>\n                <img id=\"disc_preview\" class=\"preview-img\" />\n                <label><set_label></label>\n                <select name=\"equip_set_id\" id=\"equip_set_id\" required>\n                    <set_options>\n                </select>\n            </div>\n            <div class=\"row\">\n                <div>\n                    <label><slot_label></label>\n                    <select name=\"equip_slot\" id=\"equip_slot\">\n                        <slot_options>\n                    </select>\n                </div>\n            </div>\n\n            <h3><main_stat_heading></h3>\n            <div class=\"row\">\n                <div>\n                    <label><stat_label></label>\n                    <select name=\"main_key\" id=\"main_key\">\n                        <main_options>\n                    </select>\n                </div>\n            </div>\n\n            <h3><sub_stats_heading></h3>\n            <div class=\"row\">\n                <sub_stat_rows>\n            </div>\n            <script>\n            <button><create_label></button>\n        </form>\n    </div>\n    <script>\n    var d = <images_json>;\n    var p = document.getElementById(\"disc_preview\");\n    var s = document.getElementById(\"equip_set_id\");\n    s.addEventListener(\"change\", function() {\n        var u = d[s.value];\n        if (u) { p.src = u; p.style.display = \"block\"; }\n        else { p.style.display = \"none\"; }\n    });\n    </script>\n</body>\n</html>";
    assert_eq!(render_disc_new_page(&page), expected);
}

#[test]
fn avatar_edit_page_offline() {
    let page = AvatarEditPage {
        img: "img\"&<x>".to_string(),
        name: "name\"&<x>".to_string(),
        title: "<title>".to_string(),
        id_label: "<id_label>".to_string(),
        id: 104,
        csrf: "<csrf>".to_string(),
        level_label: "<level_label>".to_string(),
        level: 107,
        mindscapes_label: "<mindscapes_label>".to_string(),
        talents: 109,
        skill_levels_label: "<skill_levels_label>".to_string(),
        skills: "<skills>".to_string(),
        back_label: "<back_label>".to_string(),
        online: false,
        save_label: "Save".to_string(),
    };
    let expected = "        <div class=\"hero\">\n            <img src=\"img&quot;&amp;&lt;x&gt;\" alt=\"name&quot;&amp;&lt;x&gt;\" />\n            <div>\n                <h1><title> name&quot;&amp;&lt;x&gt;</h1>\n                <div class=\"meta\"><id_label> 104</div>\n            </div>\n        </div>\n    <form method=\"post\">\n      <csrf>\n      <div class=\"row\">\n        <div>\n          <label><level_label></label>\n          <input name=\"level\" type=\"number\" min=\"1\" max=\"60\" value=\"107\" disabled />\n        </div>\n        <div>\n                    <label><mindscapes_label></label>\n                    <input name=\"unlocked_talent_num\" type=\"number\" min=\"0\" max=\"6\" value=\"109\" disabled />\n        </div>\n      </div>\n\n      <h3><skill_levels_label></h3>\n      <div class=\"row\">\n        <skills>\n      </div>\n\n      <div class=\"form-actions\">\n        <a href=\"/dashboard?tab=avatars\" class=\"back\"><back_label></a>\n        \n      </div>\n    </form>";
    assert_eq!(render_avatar_edit_page(&page), expected);
}

#[test]
fn avatar_new_page_all_owned() {
    let page = AvatarNewPage {
        title: "<title>".to_string(),
        filter_panel: "<filter_panel>".to_string(),
        csrf: "<csrf>".to_string(),
        select_label: "<select_label>".to_string(),
        options: "<options>".to_string(),
        back_label: "<back_label>".to_string(),
        create_label: "<create_label>".to_string(),
        images_json: "<images_json>".to_string(),
        any_unowned: false,
        available: 0,
        no_matches: "No matches".to_string(),
        all_owned: "All owned".to_string(),
    };
    let expected = "        <h1><title></h1>\n        <filter_panel>\n        <p class=\"meta\">All owned</p>\n        <div class=\"panel\" style=\"display:block;\">\n        <form method=\"post\">\n            <csrf>\n            <div>\n                <img id=\"avatar_preview\" class=\"preview-img\" />\n                <label><select_label></label>\n                <select name=\"avatar_id\" id=\"avatar_id\" required>\n                    <options>\n                </select>\n            </div>\n            <div class=\"form-actions\">\n                <a href=\"/dashboard?tab=avatars\" class=\"back\"><back_label></a>\n                <button type=\"submit\"><create_label></button>\n            </div>\n        </form>\n        </div>\n    <script>\n    var a = <images_json>;\n    var p = document.getElementById(\"avatar_preview\");\n    var s = document.getElementById(\"avatar_id\");\n    s.addEventListener(\"change\", function() {\n        var u = a[s.value];\n        if (u) { p.src = u; p.style.display = \"block\"; }\n        else { p.style.display = \"none\"; }\n    });\n    </script>";
    assert_eq!(render_avatar_new_page(&page), expected);
}

#[test]
fn weapon_edit_page_online() {
    let page = WeaponEditPage {
        img: "img\"&<x>".to_string(),
        name: "name\"&<x>".to_string(),
        title: "<title>".to_string(),
        uid_label: "<uid_label>".to_string(),
        uid: 104,
        id_label: "<id_label>".to_string(),
        id: 106,
        csrf: "<csrf>".to_string(),
        level_label: "<level_label>".to_string(),
        level: 109,
        overclock_label: "<overclock_label>".to_string(),
        refine_level: 111,
        back_label: "<back_label>".to_string(),
        online: true,
        save_label: "Save".to_string(),
    };
    let expected = "        <div class=\"hero\">\n            <img src=\"img&quot;&amp;&lt;x&gt;\" alt=\"name&quot;&amp;&lt;x&gt;\" />\n            <div>\n                <h1><title> name&quot;&amp;&lt;x&gt;</h1>\n                <div class=\"meta\"><uid_label> 104 · <id_label> 106</div>\n            </div>\n        </div>\n    <form method=\"post\">\n      <csrf>\n      <label><level_label></label>\n      <input name=\"level\" type=\"number\" min=\"1\" value=\"109\"  />\n      <label><overclock_label></label>\n      <input name=\"refine_level\" type=\"number\" min=\"1\" value=\"111\"  />\n      <div class=\"form-actions\">\n        <a href=\"/dashboard?tab=weapons\" class=\"back\"><back_label></a>\n        <button type=\"submit\">Save</button>\n      </div>\n    </form>";
    assert_eq!(render_weapon_edit_page(&page), expected);
}

#[test]
fn weapon_new_page_matches_template() {
    let page = WeaponNewPage {
        title: "<title>".to_string(),
        class_label: "<class_label>".to_string(),
        class_options: "<class_options>".to_string(),
        rarity_label: "<rarity_label>".to_string(),
        rarity_options: "<rarity_options>".to_string(),
        csrf: "<csrf>".to_string(),
        select_label: "<select_label>".to_string(),
        options: "<options>".to_string(),
        refine_label: "<refine_label>".to_string(),
        create_label: "<create_label>".to_string(),
        images_json: "<images_json>".to_string(),
    };
    let expected = "        <h1><title></h1>\n        <form method=\"get\" style=\"margin-bottom:12px;\">\n            <div style=\"display:flex; gap:8px; flex-wrap:wrap; align-items:end;\">\n                <div style=\"display:flex; flex-direction:column; gap:4px;\">\n                    <span style=\"font-size:11px; color:#9aa4b2;\"><class_label></span>\n                    <select name=\"class\" onchange=\"this.form.submit()\" style=\"width:auto; padding:5px 8px; border-radius:8px; border:1px solid #2a3140; background:#121620; color:#e6e6e6; font-size:12px;\"><class_options></select>\n                </div>\n                <div style=\"display:flex; flex-direction:column; gap:4px;\">\n                    <span style=\"font-size:11px; color:#9aa4b2;\"><rarity_label></span>\n                    <select name=\"rarity\" onchange=\"this.form.submit()\" style=\"width:auto; padding:5px 8px; border-radius:8px; border:1px solid #2a3140; background:#121620; color:#e6e6e6; font-size:12px;\"><rarity_options></select>\n                </div>\n            </div>\n        </form>\n        <form method=\"post\">\n            <csrf>\n            <div>\n                <img id=\"weapon_preview\" class=\"preview-img\" />\n                <label><select_label></label>\n                <select name=\"weapon_id\" id=\"weapon_id\" required>\n                    <options>\n                </select>\n            </div>\n            <div class=\"row\">\n                <div>\n                    <label><refine_label></label>\n                    <input name=\"refine_level\" type=\"number\" min=\"1\" value=\"1\" />\n                </div>\n            </div>\n            <button type=\"submit\"><create_label></button>\n        </form>\n    <script>\n    var w = <images_json>;\n    var p = document.getElementById(\"weapon_preview\");\n    var s = document.getElementById(\"weapon_id\");\n    s.addEventListener(\"change\", function() {\n        var u = w[s.value];\n        if (u) { p.src = u; p.style.display = \"block\"; }\n        else { p.style.display = \"none\"; }\n    });\n    </script>";
    assert_eq!(render_weapon_new_page(&page), expected);
}

#[test]
fn bangboo_edit_page_matches_template() {
    let page = BangbooEditPage {
        lang: "<lang>".to_string(),
        title: "<title>".to_string(),
        img: "img\"&<x>".to_string(),
        name: "name\"&<x>".to_string(),
        uid_label: "<uid_label>".to_string(),
        id: 105,
        level_label: "<level_label>".to_string(),
        level: 107,
        rank_label: "<rank_label>".to_string(),
        rank: 109,
        star_label: "<star_label>".to_string(),
        star: 111,
        skill_label: "<skill_label>".to_string(),
        skills: "<skills>".to_string(),
        back_label: "<back_label>".to_string(),
        save_label: "<save_label>".to_string(),
    };
    let expected = "<!doctype html>\n<html lang=\"<lang>\">\n<head>\n    <meta charset=\"utf-8\" />\n    <meta name=\"viewport\" content=\"width=device-width, initial-scale=1\" />\n    <title><title></title>\n    <style>body{font-family:system-ui,sans-serif;margin:0;background:#0f1115;color:#e6e6e6}.container{padding:24px;max-width:900px;margin:0 auto}input,select{width:100%;box-sizing:border-box;padding:8px;border-radius:8px;border:1px solid #2a3140;background:#121620;color:#e6e6e6}label{display:block;margin:12px 0 6px;font-size:12px;color:#9aa4b2}button{margin-top:16px;padding:10px 14px;border:0;border-radius:8px;background:#4c7dff;color:#fff;font-weight:600;cursor:pointer}.row{display:grid;grid-template-columns:repeat(2,minmax(0,1fr));gap:12px}.row>*{min-width:0}.hero{display:flex;gap:16px;align-items:center;margin-bottom:16px}.hero img{width:120px;height:120px;border-radius:12px;object-fit:cover;object-position:top;border:1px solid #2a3140;background:#0f1115}.hero h1{margin:0}.meta{color:#9aa4b2;font-size:12px}.back{display:inline-flex;align-items:center;justify-content:center;padding:10px 14px;border-radius:8px;background:#2a3140;color:#e6e6e6;text-decoration:none;font-weight:600}.form-actions{display:flex;justify-content:space-between;gap:12px;margin-top:16px}.form-actions button{margin-top:0}.preview-img{display:none;width:33.33%;aspect-ratio:1/1;object-fit:contain;border-radius:8px;border:1px solid #2a3140;background:#0f1115;margin:0 0 8px}@media(max-width:768px){.container{padding:14px}.row{grid-template-columns:1fr}button{width:100%}.hero{flex-direction:column;align-items:flex-start}.hero img{width:100%;max-width:240px;height:auto;aspect-ratio:1/1}.preview-img{width:100%}}</style>\n</head>\n<body>\n    <div class=\"container\">\n        <div class=\"hero\">\n            <img src=\"img&quot;&amp;&lt;x&gt;\" alt=\"name&quot;&amp;&lt;x&gt;\" />\n            <div>\n                <h1><title> name&quot;&amp;&lt;x&gt;</h1>\n                <div class=\"meta\"><uid_label> 105</div>\n            </div>\n        </div>\n        <form method=\"post\">\n            <div class=\"row\">\n                <div>\n                    <label><level_label></label>\n                    <input name=\"level\" type=\"number\" min=\"1\" value=\"107\" />\n                </div>\n                <div>\n                    <label><rank_label></label>\n                    <input name=\"rank\" type=\"number\" min=\"0\" value=\"109\" />\n                </div>\n                <div>\n                    <label><star_label></label>\n                    <input name=\"star\" type=\"number\" min=\"0\" max=\"5\" value=\"111\" />\n                </div>\n            </div>\n\n            <h3><skill_label></h3>\n            <div class=\"row\">\n                <skills>\n            </div>\n\n            <div class=\"form-actions\">\n                <a href=\"/dashboard?tab=bangboos\" class=\"back\"><back_label></a>\n                <button type=\"submit\"><save_label></button>\n            </div>\n        </form>\n    </div>\n</body>\n</html>";
    assert_eq!(render_bangboo_edit_page(&page), expected);
}

#[test]
fn disc_generate_page_matches_template() {
    let page = DiscGeneratePage {
        lang: "<lang>".to_string(),
        title: "<title>".to_string(),
        description: "<description>".to_string(),
        set_label: "<set_label>".to_string(),
        set_options: "<set_options>".to_string(),
        slot_label: "<slot_label>".to_string(),
        slot_options: "<slot_options>".to_string(),
        count_label: "<count_label>".to_string(),
        generate_label: "<generate_label>".to_string(),
        images_json: "<images_json>".to_string(),
    };
    let expected = "<!doctype html>\n<html lang=\"<lang>\">\n<head>\n    <meta charset=\"utf-8\" />\n    <meta name=\"viewport\" content=\"width=device-width, initial-scale=1\" />\n    <title><title></title>\n    <style>body{font-family:system-ui,sans-serif;margin:0;background:#0f1115;color:#e6e6e6}.container{padding:24px;max-width:900px;margin:0 auto}input,select{width:100%;box-sizing:border-box;padding:8px;border-radius:8px;border:1px solid #2a3140;background:#121620;color:#e6e6e6}label{display:block;margin:12px 0 6px;font-size:12px;color:#9aa4b2}button{margin-top:16px;padding:10px 14px;border:0;border-radius:8px;background:#4c7dff;color:#fff;font-weight:600;cursor:pointer}.row{display:grid;grid-template-columns:repeat(2,minmax(0,1fr));gap:12px}.row>*{min-width:0}.hero{display:flex;gap:16px;align-items:center;margin-bottom:16px}.hero img{width:120px;height:120px;border-radius:12px;object-fit:cover;object-position:top;border:1px solid #2a3140;background:#0f1115}.hero h1{margin:0}.meta{color:#9aa4b2;font-size:12px}.back{display:inline-flex;align-items:center;justify-content:center;padding:10px 14px;border-radius:8px;background:#2a3140;color:#e6e6e6;text-decoration:none;font-weight:600}.form-actions{display:flex;justify-content:space-between;gap:12px;margin-top:16px}.form-actions button{margin-top:0}.preview-img{display:none;width:33.33%;aspect-ratio:1/1;object-fit:contain;border-radius:8px;border:1px solid #2a3140;background:#0f1115;margin:0 0 8px}@media(max-width:768px){.container{padding:14px}.row{grid-template-columns:1fr}button{width:100%}.hero{flex-direction:column;align-items:flex-start}.hero img{width:100%;max-width:240px;height:auto;aspect-ratio:1/1}.preview-img{width:100%}}</style>\n</head>\n<body>\n    <div class=\"container\">\n        <h1><title></h1>\n        <div class=\"meta\"><description></div>\n        <form method=\"post\">\n            <div>\n                <img id=\"disc_preview\" class=\"preview-img\" />\n                <label><set_label></label>\n                <select name=\"equip_set_id\" id=\"equip_set_id\" required>\n                    <set_options>\n                </select>\n            </div>\n            <div class=\"row\">\n                <div>\n                    <label><slot_label></label>\n                    <select name=\"slot\">\n                        <slot_options>\n                    </select>\n                </div>\n                <div>\n                    <label><count_label></label>\n                    <input name=\"count\" type=\"number\" min=\"1\" max=\"200\" value=\"10\" required />\n                </div>\n            </div>\n            <button><generate_label></button>\n        </form>\n    </div>\n    <script>\n    var d = <images_json>;\n    var p = document.getElementById(\"disc_preview\");\n    var s = document.getElementById(\"equip_set_id\");\n    s.addEventListener(\"change\", function() {\n        var u = d[s.value];\n        if (u) { p.src = u; p.style.display = \"block\"; }\n        else { p.style.display = \"none\"; }\n    });\n    </script>\n</body>\n</html>";
    assert_eq!(render_disc_generate_page(&page), expected);
}

#[test]
fn dashboard_page_marks_open_tab() {
    let page = DashboardPage {
        lang: "<lang>".to_string(),
        nav_characters: "<nav_characters>".to_string(),
        nav_weapons: "<nav_weapons>".to_string(),
        nav_discs: "<nav_discs>".to_string(),
        nav_bangboos: "<nav_bangboos>".to_string(),
        nav_client_updates: "<nav_client_updates>".to_string(),
        nav_status: "<nav_status>".to_string(),
        signed_in_as: "<signed_in_as>".to_string(),
        username: "<username>".to_string(),
        lang_selector: "<lang_selector>".to_string(),
        logout_label: "<logout_label>".to_string(),
        session_id: "<session_id>".to_string(),
        apply_changes: "<apply_changes>".to_string(),
        content: "<content>".to_string(),
        tab: DashboardTab::Discs,
        version: "1.2".to_string(),
        pending_count: 3,
    };
    let expected = "<!doctype html>\n<html lang=\"<lang>\">\n<head>\n  <meta charset=\"utf-8\" />\n  <meta name=\"viewport\" content=\"width=device-width, initial-scale=1\" />\n  <title>Gear Editor — Remielle 1.2</title>\n  <style>\n      body { font-family: system-ui, sans-serif; margin: 0; background: #0f1115; color: #e6e6e6; overflow-x: hidden; }\n      header { padding: 16px 24px; display: flex; justify-content: space-between; align-items: center; gap: 12px; background: #151a24; position: sticky; top: 0; z-index: 20; }\n        .menu-button { display: none; width: 44px; height: 44px; padding: 0; border: 0; border-radius: 10px; background: #2a3140; color: #fff; align-items: center; justify-content: center; cursor: pointer; }\n        .menu-button span { display: block; width: 18px; height: 2px; background: #fff; position: relative; }\n        .menu-button span::before, .menu-button span::after { content: \"\"; position: absolute; left: 0; width: 18px; height: 2px; background: #fff; }\n        .menu-button span::before { top: -6px; }\n        .menu-button span::after { top: 6px; }\n        .tabs { display: flex; flex-wrap: wrap; gap: 8px; min-width: 0; }\n        .tabs a { margin-right: 0; padding: 8px 12px; border-radius: 8px; text-decoration: none; color: #c7d1e0; background: #1b2230; white-space: nowrap; }\n    .tabs a.active { background: #4c7dff; color: #fff; }\n    .tabs a.mode { background: #2a3140; color: #c7d1e0; }\n        .container { padding: 20px 24px 40px; }\n    .cards { display: grid; grid-template-columns: repeat(auto-fill, minmax(220px, 1fr)); gap: 14px; }\n    .card { background: #1b1f2a; padding: 14px; border-radius: 12px; text-decoration: none; color: #e6e6e6; border: 1px solid #232a38; }\n    .card h3 { margin: 6px 0 8px; font-size: 16px; }\n    .thumb { display: block; width: 100%; height: 160px; object-fit: cover; object-position: top; border-radius: 8px; background: #0f1115; border: 1px solid #2a3140; }\n    .cards .card .thumb + .pill { margin-top: 8px; }\n\n    .meta { color: #9aa4b2; font-size: 12px; }\n        .panel { background: #1b1f2a; padding: 14px; border-radius: 12px; border: 1px solid #232a38; margin-bottom: 16px; display: flex; align-items: center; justify-content: space-between; gap: 12px; }\n        .panel h3 { margin: 0; font-size: 14px; }\n        .panel a { display: inline-flex; align-items: center; justify-content: center; margin-top: 16px; padding: 10px 14px; border-radius: 8px; background: #4c7dff; color: #fff; font-weight: 600; text-decoration: none; box-sizing: border-box; }\n        .panel form { width: 100%; }\n        .panel label { display: block; margin: 12px 0 6px; font-size: 12px; color: #9aa4b2; }\n        .panel input, .panel select { width: 100%; box-sizing: border-box; padding: 8px; border-radius: 8px; border: 1px solid #2a3140; background: #121620; color: #e6e6e6; }\n        .panel button { margin-top: 16px; padding: 10px 14px; border: 0; border-radius: 8px; background: #4c7dff; color: #fff; font-weight: 600; cursor: pointer; font-family: inherit; font-size: inherit; }\n        .panel div button, .panel div form button, .panel div a { margin-top: 0; }\n        .row { display: grid; grid-template-columns: repeat(2, minmax(0, 1fr)); gap: 12px; }\n        .row > * { min-width: 0; }\n    .apply { background: #22c55e; color: #0b1220; border: 0; padding: 8px 14px; border-radius: 8px; font-weight: 600; cursor: pointer; }\n    .pill { display: inline-block; padding: 4px 8px; background: #2a3140; border-radius: 999px; font-size: 12px; color: #9aa4b2; }\n        .danger { background: #ef4444; color: #fff; border: 0; padding: 8px 14px; border-radius: 8px; font-weight: 600; cursor: pointer; }\n        .select-card { cursor: pointer; position: relative; }\n        .select-card input[type=\"checkbox\"] { position: absolute; opacity: 0; pointer-events: none; }\n        .select-card.locked { opacity: 0.5; cursor: not-allowed; }\n        .select-card .selection-outline { display: none; position: absolute; inset: -1px; border-radius: inherit; pointer-events: none; }\n        .delete-form .select-card .selection-outline { border: 2px solid #ef4444; box-shadow: inset 0 0 0 1px rgba(239, 68, 68, 0.18); }\n        .lock-form .select-card .selection-outline { border: 2px solid #22c55e; box-shadow: inset 0 0 0 1px rgba(34, 197, 94, 0.18); }\n        .delete-form .select-card input:checked ~ .selection-outline { display: block; }\n        .lock-form .select-card input:checked ~ .selection-outline { display: block; }\n        .delete-form .select-card:has(input:checked) { border-color: #ef4444; }\n        .lock-form .select-card:has(input:checked) { border-color: #22c55e; }\n        .mobile-overlay { display: none; }\n        .mobile-drawer { display: none; }\n    @media (max-width: 768px) {\n        header { padding: 12px 14px; }\n        .lang-select { display: none; }\n        .menu-button { display: inline-flex; flex: 0 0 auto; }\n        .desktop-tabs { display: none; }\n        .desktop-logout { display: none; }\n        .container { padding: 14px; }\n        .cards { grid-template-columns: 1fr; }\n        .row { grid-template-columns: 1fr; }\n        .panel { flex-direction: column; align-items: stretch; }\n        .panel a, .panel button { width: 100%; max-width: 100%; box-sizing: border-box; }\n        .card { padding: 12px; min-width: 0; }\n        .meta { word-break: break-word; }\n        .mobile-overlay { display: none; position: fixed; inset: 0; z-index: 30; background: rgba(0, 0, 0, 0.45); }\n        .mobile-overlay.open { display: block; }\n        .mobile-drawer { display: block; position: fixed; top: 0; left: 0; bottom: 0; width: min(82vw, 320px); background: #151a24; border-right: 1px solid #232a38; padding: 16px; box-sizing: border-box; overflow-y: auto; transform: translateX(-100%); transition: transform 0.2s ease; z-index: 31; }\n        .mobile-drawer.open { transform: translateX(0); }\n        .mobile-drawer.tabs { display: flex; flex-direction: column; align-items: stretch; justify-content: flex-start; gap: 8px; }\n        .mobile-drawer.tabs a { display: block; width: 100%; box-sizing: border-box; white-space: normal; line-height: 1.25; }\n        .mobile-drawer select { width: 100%; }\n    }\n  </style>\n</head>\n<body>\n<header>\n    <button class=\"menu-button\" type=\"button\" aria-label=\"Open navigation\" onclick=\"document.querySelector('.mobile-overlay').classList.add('open'); document.querySelector('.mobile-drawer').classList.add('open');\">\n        <span></span>\n    </button>\n    <div class=\"desktop-tabs tabs\">\n        <a class=\"\" href=\"/dashboard?tab=avatars\"><nav_characters></a>\n        <a class=\"\" href=\"/dashboard?tab=weapons\"><nav_weapons></a>\n        <a class=\"active\" href=\"/dashboard?tab=discs\"><nav_discs></a>\n        <a class=\"\" href=\"/dashboard?tab=bangboos\"><nav_bangboos></a>\n        <a class=\"\" href=\"/dashboard?tab=updates\"><nav_client_updates></a>\n        <a class=\"\" href=\"/dashboard?tab=status\"><nav_status></a>\n    </div>\n    <div class=\"desktop-actions\" style=\"display:flex; align-items:center; gap:10px;\">\n        <div class=\"meta\"><signed_in_as> <username></div>\n        <div class=\"lang-select\"><lang_selector></div>\n        <a href=\"/logout\" class=\"desktop-logout\" style=\"padding:6px 10px; border-radius:8px; background:#2a3140; color:#c7d1e0; text-decoration:none; font-size:12px; font-weight:600;\"><logout_label></a>\n        <form method=\"post\" action=\"/apply\" style=\"margin:0;\">\n            <input type=\"hidden\" name=\"session\" value=\"<session_id>\" />\n            <button class=\"apply\" type=\"submit\"><apply_changes> (3)</button>\n        </form>\n    </div>\n</header>\n<div class=\"mobile-overlay\" onclick=\"this.classList.remove('open'); document.querySelector('.mobile-drawer').classList.remove('open');\"></div>\n<aside class=\"mobile-drawer tabs\" aria-hidden=\"true\">\n    <a class=\"\" href=\"/dashboard?tab=avatars\"><nav_characters></a>\n    <a class=\"\" href=\"/dashboard?tab=weapons\"><nav_weapons></a>\n    <a class=\"active\" href=\"/dashboard?tab=discs\"><nav_discs></a>\n    <a class=\"\" href=\"/dashboard?tab=bangboos\"><nav_bangboos></a>\n    <a class=\"\" href=\"/dashboard?tab=updates\"><nav_client_updates></a>\n    <a class=\"\" href=\"/dashboard?tab=status\"><nav_status></a>\n    <div style=\"margin-top:16px; padding-top:12px; border-top:1px solid #2a3140; display:flex; flex-direction:column; gap:10px; width:100%; box-sizing:border-box;\">\n        <div class=\"meta\"><signed_in_as> <username></div>\n        <lang_selector>\n        <a href=\"/logout\" style=\"text-align:center; padding:6px 10px; border-radius:8px; background:#2a3140; color:#c7d1e0; text-decoration:none; font-size:12px; font-weight:600;\"><logout_label></a>\n    </div>\n</aside>\n<main class=\"content\">\n<div class=\"container\">\n  <content>\n</div>\n</main>\n</body>\n</html>";
    assert_eq!(render_dashboard_page(&page), expected);
}

#[test]
fn da_page_matches_template() {
    let page = DaPage {
        lang: "<lang>".to_string(),
        name: "<name>".to_string(),
        back_label: "<back_label>".to_string(),
        id_label: "<id_label>".to_string(),
        id: 104,
        buff_cards: "<buff_cards>".to_string(),
        boss_cards: "<boss_cards>".to_string(),
    };
    let expected = "<!doctype html>\n<html lang=\"<lang>\">\n<head>\n  <meta charset=\"utf-8\" />\n  <meta name=\"viewport\" content=\"width=device-width, initial-scale=1\" />\n  <title><name> - Gear Editor</title>\n  <style>\n    body { font-family: system-ui, sans-serif; margin: 0; background: #0f1115; color: #e6e6e6; }\n        header { padding: 16px 24px; display: flex; justify-content: space-between; align-items: center; gap: 12px; background: #151a24; }\n    .back { padding: 8px 12px; border-radius: 8px; background: #4c7dff; color: #fff; text-decoration: none; font-weight: 600; }\n    .container { padding: 20px 24px 40px; }\n    h1 { margin: 0 0 20px 0; font-size: 28px; }\n    .cards { display: grid; grid-template-columns: 1fr; gap: 16px; }\n    .card { background: #1b1f2a; padding: 16px; border-radius: 12px; border: 1px solid #232a38; }\n    .card h3 { margin: 0 0 12px 0; font-size: 18px; }\n    .meta { color: #9aa4b2; font-size: 12px; }\n        .cards .card img { display: block; }\n        .cards .card img { max-width: 100%; height: auto; }\n        .cards .card > div:first-child { min-width: 0; }\n        @media (max-width: 768px) {\n            header { padding: 12px 14px; flex-direction: column; align-items: stretch; }\n            header > a, header > form { width: 100%; box-sizing: border-box; }\n            header > a { align-self: stretch; text-align: center; }\n            header > form button { width: 100%; box-sizing: border-box; }\n            .container { padding: 14px; }\n            h1 { font-size: 22px; }\n            .card { padding: 12px; }\n            .cards .card { flex-direction: column; align-items: stretch; }\n            .cards .card img { width: min(100%, 320px); max-width: 100%; height: auto; margin: 0 auto; }\n            .cards .card img.boss-inline-thumb { width: min(100%, 320px) !important; max-width: 100% !important; height: auto !important; margin: 0 auto; }\n        }\n  </style>\n</head>\n<body>\n<header>\n  <a href=\"/dashboard?tab=status\" class=\"back\"><back_label></a>\n</header>\n<div class=\"container\">\n  <h1><name> <id_label> 104</h1>\n  <div class=\"cards\">\n    <buff_cards>\n    <boss_cards>\n  </div>\n</div>\n</body>\n</html>";
    assert_eq!(render_da_page(&page), expected);
}

#[test]
fn shiyu_page_matches_template() {
    let page = ShiyuPage {
        lang: "<lang>".to_string(),
        name: "<name>".to_string(),
        back_label: "<back_label>".to_string(),
        id: 103,
        boss_names: "<boss_names>".to_string(),
        floor_tabs: "<floor_tabs>".to_string(),
        buff_card: "<buff_card>".to_string(),
        fight_card: "<fight_card>".to_string(),
    };
    let expected = "<!doctype html>\n<html lang=\"<lang>\">\n<head>\n  <meta charset=\"utf-8\" />\n  <meta name=\"viewport\" content=\"width=device-width, initial-scale=1\" />\n  <title><name> - Gear Editor</title>\n  <style>\n    body { font-family: system-ui, sans-serif; margin: 0; background: #0f1115; color: #e6e6e6; }\n        header { padding: 16px 24px; display: flex; justify-content: space-between; align-items: center; gap: 12px; background: #151a24; }\n    .back { padding: 8px 12px; border-radius: 8px; background: #4c7dff; color: #fff; text-decoration: none; font-weight: 600; }\n    .container { padding: 20px 24px 40px; }\n    h1 { margin: 0 0 8px 0; font-size: 28px; }\n    .tabs { display: flex; flex-wrap: wrap; gap: 8px; margin-bottom: 20px; }\n    .tabs a { padding: 8px 12px; border-radius: 8px; text-decoration: none; color: #c7d1e0; }\n        .meta { color: #9aa4b2; font-size: 12px; }\n    .card { background: #1b1f2a; padding: 16px; border-radius: 12px; border: 1px solid #232a38; }\n        .card h3 { margin: 0 0 12px 0; font-size: 18px; }\n        .cards .card img { max-width: 100%; height: auto; }\n        .cards .card > div:first-child { min-width: 0; }\n        @media (max-width: 768px) {\n            header { padding: 12px 14px; flex-direction: column; align-items: stretch; }\n            header > a, header > form { width: 100%; box-sizing: border-box; }\n            .container { padding: 14px; }\n            h1 { font-size: 22px; }\n            .tabs { flex-direction: column; }\n            .card { padding: 12px; }\n            .cards .card { flex-direction: column; align-items: stretch; }\n            .cards .card img { width: min(100%, 320px); max-width: 100%; height: auto; margin: 0 auto; }\n            .cards .card img.boss-inline-thumb { width: min(100%, 320px) !important; max-width: 100% !important; height: auto !important; margin: 0 auto; }\n        }\n  </style>\n</head>\n<body>\n<header>\n  <a href=\"/dashboard?tab=status\" class=\"back\"><back_label></a>\n</header>\n<div class=\"container\">\n  <h1><name></h1>\n  <div class=\"meta\">103 <boss_names></div>\n  <div class=\"tabs\">\n    <floor_tabs>\n  </div>\n  <buff_card>\n  <fight_card>\n</div>\n</body>\n</html>";
    assert_eq!(render_shiyu_page(&page), expected);
}

#[test]
fn status_panel_matches_template() {
    let page = StatusPanel {
        server_label: "<server_label>".to_string(),
        server: 101,
        shiyu_card: "<shiyu_card>".to_string(),
        da_card: "<da_card>".to_string(),
        da_hard_card: "<da_hard_card>".to_string(),
    };
    let expected = "<div class=\"panel\" style=\"display:block;\">\n            <h3 style=\"text-align:center; font-size:16px; margin-bottom:16px;\"><server_label> 101</h3>\n            <div class=\"cards\"><shiyu_card><da_card><da_hard_card></div>\n        </div>";
    assert_eq!(render_status_panel(&page), expected);
}
