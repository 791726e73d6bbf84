use gear_editor::admin::{admin_access, delete_allowed, enough_space, exists_message, update_path, upload_field_action, AdminAccess, UploadFieldAction};
use gear_editor::config::resolve_db_path;
use gear_editor::dashboard::{
    dashboard_tab, lang_cookie, mode_on, number_filter, page_filter, server_cookie, tab_class,
    title_suffix, DashboardTab,
};
use gear_editor::hakushin::{finish_image_plan, image_reference_plan, to_asset_url, ImagePlan};
use gear_editor::player_state::{
    parse_slot_value, render_equip_substat_script, resolve_player_uid, uid_from_file_name,
    uid_from_general_data,
};
use gear_editor::sdk::{encrypt_field, encode_block, public_key, registration_outcome, SdkError};
use gear_editor::updates::{
    asset_relative_path,
    aria2c_command, download_url, find_update_file, format_update_time, list_update_files,
    UpdateFile,
};
use gear_editor::utils::{audit_line, page_shell, shared_page_css, svg_data_uri};
use base64::Engine;

#[test]
fn rsa_encrypts_to_128_bytes() {
    let key = public_key().unwrap();
    let ciphertext = encrypt_field(&key, "XaPoHbomj").unwrap();
    let decoded = base64::engine::general_purpose::STANDARD.decode(&ciphertext).unwrap();
    assert_eq!(decoded.len(), 128);
}

#[test]
fn sdk_field_lengths() {
    let key = public_key().unwrap();
    // 117 bytes fit a 128-byte block with its 11 bytes of padding; 118 do not.
    let fits = "a".repeat(117);
    assert_eq!(encrypt_field(&key, &fits).unwrap().len(), 172);
    assert_eq!(encrypt_field(&key, &"a".repeat(118)), Err(SdkError::EncryptFailed));
    // Two encryptions of one value differ: the padding is random.
    assert_ne!(encrypt_field(&key, "x").unwrap(), encrypt_field(&key, "x").unwrap());
}

#[test]
fn sdk_blocks_and_answers() {
    assert_eq!(encode_block(&vec![0u8; 3]), Err(SdkError::BlockSize(3)));
    let text = encode_block(&vec![0u8; 128]).unwrap();
    assert_eq!(text.len(), 172);
    assert!(text.starts_with("AAAA"));
    assert_eq!(registration_outcome(true, Some(0)), Ok(true));
    assert_eq!(registration_outcome(true, Some(-101)), Ok(false));
    assert_eq!(registration_outcome(true, None), Ok(false));
    assert_eq!(registration_outcome(false, Some(0)), Err(SdkError::HttpStatus));
}

#[test]
fn slot_values() {
    assert_eq!(parse_slot_value(" 4 "), 4);
    assert_eq!(parse_slot_value(""), 0);
    assert_eq!(parse_slot_value("x"), 0);
}

#[test]
fn player_uid_resolution() {
    let mut map = Vec::new();
    map.extend_from_slice(&5u64.to_le_bytes());
    map.extend_from_slice(&9u64.to_le_bytes());
    assert_eq!(uid_from_general_data(&map, 9, 666), Some(667));
    assert_eq!(uid_from_general_data(&map, 5, 666), Some(666));
    assert_eq!(uid_from_general_data(&map, 7, 666), None);
    assert_eq!(uid_from_general_data(&map[..12], 5, 666), None);
    assert_eq!(uid_from_general_data(&(-1i64).to_le_bytes(), -1, 666), Some(666));
    assert_eq!(uid_from_file_name("USD_1234.bin"), Some(1234));
    assert_eq!(uid_from_file_name("USD_0.bin"), None);
    assert_eq!(uid_from_file_name("USD_.bin"), None);
    assert_eq!(uid_from_file_name("GENERAL_DATA.bin"), None);
    let names = vec!["GENERAL_DATA.bin".to_string(), "USD_777.bin".to_string()];
    assert_eq!(resolve_player_uid(Some(&map), &names, 9, 666), 667);
    assert_eq!(resolve_player_uid(Some(&map), &names, 8, 666), 777);
    assert_eq!(resolve_player_uid(None, &Vec::new(), 12, 400), 666);
    assert_eq!(resolve_player_uid(None, &Vec::new(), 1000, 400), 1000);
    // The uid map counts from the server's base_player_uid.
    assert_eq!(uid_from_general_data(&map, 9, 400), Some(401));
    assert_eq!(resolve_player_uid(Some(&map), &names, 5, 1), 1);
    assert_eq!(resolve_player_uid(Some(&map), &names, 9, 400), 401);
}

#[test]
fn substat_script_embeds_the_options() {
    let s = render_equip_substat_script("{\"1\":[11103]}", "{}", "{\"11103\":\"HP\"}");
    assert!(s.starts_with("<script>\nconst mainOptionsBySlot = {\"1\":[11103]};\nconst subOptionsByMain = {};\nconst statLabels = {\"11103\":\"HP\"};\n"));
    assert!(s.ends_with("updateMainOptions();\n</script>"));
}

#[test]
fn asset_urls() {
    assert_eq!(
        to_asset_url("https://cdn.example/UI/Icon_Anby.png?v=2"),
        "/assets/zzz_dump/assets/static.nanoka.cc/zzz/UI/Icon_Anby.webp"
    );
    assert_eq!(to_asset_url("IconRole01"), "/assets/zzz_dump/assets/static.nanoka.cc/zzz/UI/IconRole01.webp");
    assert_eq!(to_asset_url("/zzz_dump/a.png"), "/assets/zzz_dump/a.png");
    assert_eq!(to_asset_url("a.png"), "/assets/a.png");
}

#[test]
fn image_reference_plans() {
    assert!(matches!(image_reference_plan("   "), ImagePlan::Nothing));
    match image_reference_plan(" /assets/x/y.png ") {
        ImagePlan::Use(s) => assert_eq!(s, "assets/x/y.png"),
        _ => panic!("use plan expected"),
    }
    match image_reference_plan("http://h/a/IconX.png") {
        ImagePlan::Check(s) => assert_eq!(s, "zzz_dump/assets/static.nanoka.cc/zzz/UI/IconX.webp"),
        _ => panic!("check plan expected"),
    }
    match image_reference_plan("dump/Icon_B.png") {
        ImagePlan::CheckThenFallback(p, f) => {
            assert_eq!(p, "dump/Icon_B.png");
            assert_eq!(f.as_deref(), Some("zzz_dump/assets/static.nanoka.cc/zzz/UI/Icon_B.webp"));
        }
        _ => panic!("fallback plan expected"),
    }
    let plan = image_reference_plan("dump/Icon_B.png");
    assert_eq!(finish_image_plan(plan, false, true).as_deref(), Some("zzz_dump/assets/static.nanoka.cc/zzz/UI/Icon_B.webp"));
    let plan = image_reference_plan("dump/Icon_B.png");
    assert_eq!(finish_image_plan(plan, true, true).as_deref(), Some("dump/Icon_B.png"));
    let plan = image_reference_plan("http://h/a/IconX.png");
    assert_eq!(finish_image_plan(plan, false, true), None);
}

#[test]
fn placeholder_images() {
    let uri = svg_data_uri("A #1 <b>");
    assert!(uri.starts_with("data:image/svg+xml;utf8,<svg"));
    assert!(uri.contains(">A%20%231%20%3Cb%3E</text></svg>"));
    let long = svg_data_uri("abcdefghijklmnopqrstuvwxyz0123456789");
    assert!(long.contains(">abcdefghijklmnopqrstuvwxyz012345</text>"));
    assert!(shared_page_css().starts_with("body{font-family:system-ui"));
}

#[test]
fn audit_lines() {
    assert_eq!(
        audit_line("2024-01-01T00:00:00Z", "bob", -3, "login", "said \"hi\" \\o/"),
        "{\"ts\":\"2024-01-01T00:00:00Z\",\"user\":\"bob\",\"uid\":-3,\"action\":\"login\",\"detail\":\"said \\\"hi\\\" \\\\o/\"}\n"
    );
}

#[test]
fn database_path() {
    assert_eq!(resolve_db_path("/srv/hoyo-sdk/sdk.toml", "/var/db.sqlite"), "/var/db.sqlite");
    assert_eq!(resolve_db_path("/srv/hoyo-sdk/sdk.toml", "db.sqlite"), "/srv/hoyo-sdk/db.sqlite");
    assert_eq!(resolve_db_path("sdk.toml", "db.sqlite"), "db.sqlite");
    assert_eq!(resolve_db_path("/", "db.sqlite"), "./db.sqlite");
}

fn update(path: &str, name: Option<&str>, ok: bool, t: Option<u128>) -> UpdateFile {
    UpdateFile {
        path: path.to_string(),
        file_name: name.map(|s| s.to_string()),
        metadata_ok: ok,
        modified_ns: t,
    }
}

#[test]
fn client_update_files() {
    let files = vec![
        update("/u/vortex_patch_beta_1.zip", Some("vortex_patch_beta_1.zip"), true, Some(10)),
        update("/u/notes.txt", Some("notes.txt"), true, Some(99)),
        update("/u/vortex_patch_beta_2.zip", Some("vortex_patch_beta_2.zip"), true, Some(20)),
        update("/u/vortex_patch_beta_3.zip", Some("vortex_patch_beta_3.zip"), true, None),
        update("/u/other.zip", Some("other.zip"), true, Some(50)),
    ];
    assert_eq!(find_update_file(&files, "vortex_patch_beta_"), Some(2));
    assert_eq!(find_update_file(&files, "vortex_patch_prod_"), None);
    let listed = list_update_files(&files, &vec![true, true, true, true, false]);
    assert_eq!(listed, vec![2, 0, 3]);
    assert_eq!(download_url("client_updates/a.zip"), "/assets/client_updates/a.zip");
    assert_eq!(
        aria2c_command("host:3001", "/assets/a.zip"),
        "aria2c -x 16 -s 16 -k 1M -c \"http://host:3001/assets/a.zip\""
    );
    assert_eq!(format_update_time(0), "1970-01-01 00:00 UTC");
    assert_eq!(format_update_time(1_700_000_000), "2023-11-14 22:13 UTC");
}

#[test]
fn dashboard_query() {
    assert_eq!(dashboard_tab(None), DashboardTab::Avatars);
    assert_eq!(dashboard_tab(Some("discs")), DashboardTab::Discs);
    assert_eq!(dashboard_tab(Some("nope")), DashboardTab::Avatars);
    assert_eq!(tab_class(DashboardTab::Discs, DashboardTab::Discs), "active");
    assert_eq!(tab_class(DashboardTab::Discs, DashboardTab::Status), "");
    assert_eq!(number_filter(Some("31000")), Some(31000));
    assert_eq!(number_filter(Some("x")), None);
    assert_eq!(page_filter(None), 1);
    assert_eq!(page_filter(Some("3")), 3);
    assert!(mode_on(Some(1)));
    assert!(!mode_on(Some(2)));
    assert_eq!(title_suffix(""), " — Remielle");
    assert_eq!(title_suffix("2.1"), " — Remielle 2.1");
    assert_eq!(lang_cookie("ru"), "gear_lang=ru; Path=/; SameSite=Lax");
    assert_eq!(server_cookie("beta:1"), "gear_server=beta:1; Path=/; SameSite=Lax");
}

#[test]
fn admin_upload_and_delete_decisions() {
    assert_eq!(admin_access(false, true), AdminAccess::SignIn);
    assert_eq!(admin_access(true, false), AdminAccess::Forbidden);
    assert_eq!(admin_access(true, true), AdminAccess::Granted);
    assert!(!enough_space(1024 * 1024 * 1024 - 1));
    assert!(enough_space(1024 * 1024 * 1024));
    assert_eq!(upload_field_action(None, false), UploadFieldAction::Skip);
    assert_eq!(upload_field_action(Some("a.rar"), false), UploadFieldAction::Skip);
    assert_eq!(upload_field_action(Some("a.zip"), true), UploadFieldAction::Exists);
    assert_eq!(upload_field_action(Some("a.zip"), false), UploadFieldAction::Save);
    assert_eq!(exists_message("File", "a.zip", "exists"), "File 'a.zip' exists");
    assert_eq!(update_path("/srv/panel", "a.zip"), "/srv/panel/client_updates/Beta/Update/a.zip");
    assert!(delete_allowed("/srv/panel", "a.zip", true));
    assert!(!delete_allowed("/srv/panel", "a.zip", false));
    assert!(!delete_allowed("/srv/panel", "/etc/passwd", true));
}

#[test]
fn sdk_config_and_item_paths() {
    assert_eq!(
        gear_editor::config::resolve_sdk_config_path(Some("/etc/sdk.toml"), "/srv/panel/..", true),
        "/etc/sdk.toml"
    );
    assert_eq!(
        gear_editor::config::resolve_sdk_config_path(None, "/srv/panel/..", true),
        "/srv/panel/../hoyo-sdk/sdk_server.toml"
    );
    assert_eq!(
        gear_editor::config::resolve_sdk_config_path(None, "/srv/panel/..", false),
        "/srv/panel/../hoyo-sdk/sdk.default.toml"
    );
    assert_eq!(
        gear_editor::player_state::resolve_item_path("/state", 666, "avatar", 1011, true, true),
        "/state/player/666/avatar/1011"
    );
    assert_eq!(
        gear_editor::player_state::resolve_item_path("/state", 666, "avatar", 1011, false, true),
        "/state/player/666/avatar/1011.zon"
    );
    assert_eq!(
        gear_editor::player_state::resolve_item_path("/state/", 666, "avatar", 1011, false, false),
        "/state/player/666/avatar/1011"
    );
}

#[test]
fn page_shell_wraps_inner() {
    let page = page_shell("Edit", "en", "<p>x</p>");
    assert!(page.starts_with("<!doctype html>\n<html lang=\"en\">"));
    assert!(page.contains("<title>Edit</title>"));
    assert!(page.contains(&format!("<style>{}</style>", shared_page_css())));
    assert!(page.ends_with("<div class=\"container\">\n<p>x</p>\n  </div>\n</body>\n</html>"));
}

#[test]
fn asset_paths_below_the_root() {
    assert_eq!(
        asset_relative_path("/srv/gear/client_updates/Beta/Update/a.zip", "/srv/gear"),
        Some("client_updates/Beta/Update/a.zip".to_string())
    );
    assert_eq!(asset_relative_path("/srv/gear/dir\\x.zip", "/srv/gear"), Some("dir/x.zip".to_string()));
    assert_eq!(asset_relative_path("/srv/other/a.zip", "/srv/gear"), None);
    assert_eq!(asset_relative_path("/srv/gearbox/a.zip", "/srv/gear"), None);
}
