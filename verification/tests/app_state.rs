use gear_editor::app_state::{
    active_ctl_addr, active_server_selection, base_uid_from_config, cookie_value,
    parse_server_selection, state_for_selected_server, version_from_file_name, AppState, Locale,
    ServerSelection,
};
use std::path::PathBuf;

fn test_state() -> AppState {
    AppState {
        state_dir: "/tmp/zzz/bin_remielle".to_string(),
        prod_state_dir: "/tmp/zzz/bin_remielle_prod".to_string(),
        asset_dir: "/tmp/zzz/remielle/assets/filecfg".to_string(),
        prod_asset_dir: "/tmp/zzz/remielle_prod/assets/filecfg".to_string(),
        dump_dir: "/tmp/zzz/zzz_dump/latest".to_string(),
        live_dump_dir: "/tmp/zzz/zzz_dump/live".to_string(),
        root_dir: "/tmp/zzz".to_string(),
        ctl_addr: "127.0.0.1:15811".to_string(),
        prod_ctl_addr: "127.0.0.1:15911".to_string(),
        passwd_path: "/tmp/zzz/remielle/Persistent/SDK/passwd".to_string(),
        base_player_uid: 1,
    }
}

#[test]
fn server_state_dir_resolves_per_server() {
    let s = test_state();
    assert_eq!(
        PathBuf::from(s.server_state_dir(false, 2)),
        PathBuf::from("/tmp/zzz/bin_remielle/server2/Persistent/LocalStorage")
    );
    assert_eq!(
        PathBuf::from(s.server_state_dir(true, 3)),
        PathBuf::from("/tmp/zzz/bin_remielle_prod/server3/Persistent/LocalStorage")
    );
}

#[test]
fn server_ctl_addr_resolves_ports() {
    let s = test_state();
    assert_eq!(s.server_ctl_addr(false, 1), "127.0.0.1:15811");
    assert_eq!(s.server_ctl_addr(false, 2), "127.0.0.1:15812");
    assert_eq!(s.server_ctl_addr(true, 1), "127.0.0.1:15911");
    assert_eq!(s.server_ctl_addr(true, 3), "127.0.0.1:15913");
}

#[test]
fn active_ctl_addr_not_double_incremented() {
    let base = test_state();
    let s = state_for_selected_server(&base, ServerSelection { is_prod: true, server_num: 3 }, 1, true, true);
    assert_eq!(active_ctl_addr(&s), "127.0.0.1:15913");
    let s = state_for_selected_server(&base, ServerSelection { is_prod: false, server_num: 2 }, 1, true, true);
    assert_eq!(active_ctl_addr(&s), "127.0.0.1:15812");
}

#[test]
fn parses_base_player_uid_line() {
    assert_eq!(AppState::parse_base_player_uid("    .base_player_uid = 400,"), 400);
    assert_eq!(AppState::parse_base_player_uid(".base_player_uid = 100,"), 100);
    assert_eq!(AppState::parse_base_player_uid(".base_player_uid=55,"), 55);
    assert_eq!(AppState::parse_base_player_uid(".game_bind_address = ..."), 1);
}

#[test]
fn parse_server_selection_handles_new_format() {
    let s = parse_server_selection("beta:2");
    assert!(!s.is_prod);
    assert_eq!(s.server_num, 1);
    let s = parse_server_selection("prod:3");
    assert!(s.is_prod);
    assert_eq!(s.server_num, 3);
    let s = parse_server_selection("prod");
    assert!(s.is_prod);
    assert_eq!(s.server_num, 1);
    let s = parse_server_selection("prod:9");
    assert_eq!(s.server_num, 3);
    let s = parse_server_selection("beta:9");
    assert!(!s.is_prod);
    assert_eq!(s.server_num, 1);
}

#[test]
fn dump_dir_resolves_per_env() {
    let s = test_state();
    let beta = state_for_selected_server(&s, ServerSelection { is_prod: false, server_num: 1 }, 1, true, true);
    assert_eq!(PathBuf::from(beta.dump_dir), PathBuf::from("/tmp/zzz/zzz_dump/latest"));
    let prod = state_for_selected_server(&s, ServerSelection { is_prod: true, server_num: 2 }, 1, true, true);
    assert_eq!(PathBuf::from(prod.dump_dir), PathBuf::from("/tmp/zzz/zzz_dump/live"));
}

#[test]
fn selection_label_and_cookie() {
    let s = ServerSelection { is_prod: false, server_num: 3 };
    assert_eq!(s.label(), "Beta 3");
    assert_eq!(s.cookie_value(), "beta:3");
    let s = ServerSelection { is_prod: true, server_num: 1 };
    assert_eq!(s.label(), "Prod 1");
    assert_eq!(s.cookie_value(), "prod:1");
}

#[test]
fn selection_cookie_round_trips() {
    for sel in [
        ServerSelection { is_prod: false, server_num: 1 },
        ServerSelection { is_prod: true, server_num: 1 },
        ServerSelection { is_prod: true, server_num: 2 },
        ServerSelection { is_prod: true, server_num: 3 },
    ] {
        assert_eq!(parse_server_selection(&sel.cookie_value()), sel);
    }
}

#[test]
fn server_selection_is_case_insensitive_and_defaults() {
    let s = parse_server_selection("PROD:2");
    assert!(s.is_prod);
    assert_eq!(s.server_num, 2);
    let s = parse_server_selection("prod:0");
    assert_eq!(s.server_num, 1);
    let s = parse_server_selection("prod:x");
    assert_eq!(s.server_num, 1);
    let s = parse_server_selection("anything");
    assert!(!s.is_prod);
}

#[test]
fn cookie_header_lookup() {
    let h = "a=1; gear_server=prod:2 ; ge_session=abc=def";
    assert_eq!(cookie_value(h, "gear_server").as_deref(), Some("prod:2"));
    assert_eq!(cookie_value(h, "ge_session").as_deref(), Some("abc=def"));
    assert_eq!(cookie_value(h, "missing"), None);
    let sel = active_server_selection(Some(h));
    assert!(sel.is_prod);
    assert_eq!(sel.server_num, 2);
    let sel = active_server_selection(None);
    assert!(!sel.is_prod);
    assert_eq!(sel.server_num, 1);
}

#[test]
fn base_uid_read_from_config_text() {
    let cfg = ".{\n    .game_bind_address = \"0.0.0.0\",\n    .base_player_uid = 400,\n}\n";
    assert_eq!(base_uid_from_config(cfg), 400);
    assert_eq!(base_uid_from_config(".{\n}\n"), 1);
}

#[test]
fn version_marker_names() {
    assert_eq!(version_from_file_name("OSPRODWin2.5.1.zip"), "2.5.1");
    assert_eq!(version_from_file_name("v12"), "12");
    assert_eq!(version_from_file_name("none"), "");
}

#[test]
fn dump_lang_dir_and_locale_codes() {
    let s = test_state();
    assert_eq!(s.dump_lang_dir(Locale::Ru), "/tmp/zzz/zzz_dump/latest/ru");
    assert_eq!(Locale::Ja.code(), "ja");
}

#[test]
fn beta_state_keeps_beta_dirs() {
    let s = test_state();
    let beta = state_for_selected_server(&s, ServerSelection { is_prod: false, server_num: 1 }, 400, true, true);
    assert_eq!(beta.base_player_uid, 400);
    assert_eq!(beta.asset_dir, "/tmp/zzz/remielle/assets/filecfg");
    let prod = state_for_selected_server(&s, ServerSelection { is_prod: true, server_num: 1 }, 1, false, false);
    assert_eq!(prod.asset_dir, "/tmp/zzz/remielle/assets/filecfg");
    assert_eq!(prod.dump_dir, "/tmp/zzz/zzz_dump/latest");
}
