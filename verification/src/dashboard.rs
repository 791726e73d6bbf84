use vstd::prelude::*;
use crate::text::{chars_of, extend_str, parse_u32_chars, spec_parse_u32, string_of};

verus! {

/// The tabs of the dashboard.
#[derive(PartialEq, Eq, Structural, Debug, Clone, Copy)]
pub enum DashboardTab {
    Avatars,
    Weapons,
    Discs,
    Bangboos,
    Updates,
    Status,
}

/// The tab a `tab` query value opens: the named one, the characters for any
/// other value or none.
pub open spec fn spec_dashboard_tab(tab: Option<Seq<char>>) -> DashboardTab {
    match tab {
        Some(t) => if t == "weapons"@ {
            DashboardTab::Weapons
        } else if t == "discs"@ {
            DashboardTab::Discs
        } else if t == "bangboos"@ {
            DashboardTab::Bangboos
        } else if t == "updates"@ {
            DashboardTab::Updates
        } else if t == "status"@ {
            DashboardTab::Status
        } else {
            DashboardTab::Avatars
        },
        None => DashboardTab::Avatars,
    }
}

pub fn dashboard_tab(tab: Option<&str>) -> (r: DashboardTab)
    ensures
        r == spec_dashboard_tab(
            match tab {
                Some(t) => Some(t@),
                None => None,
            },
        ),
{
    match tab {
        None => DashboardTab::Avatars,
        Some(t) => {
            if crate::text::str_eq(t, "weapons") {
                DashboardTab::Weapons
            } else if crate::text::str_eq(t, "discs") {
                DashboardTab::Discs
            } else if crate::text::str_eq(t, "bangboos") {
                DashboardTab::Bangboos
            } else if crate::text::str_eq(t, "updates") {
                DashboardTab::Updates
            } else if crate::text::str_eq(t, "status") {
                DashboardTab::Status
            } else {
                DashboardTab::Avatars
            }
        },
    }
}

/// The class of a tab's link: `active` for the open tab.
pub fn tab_class(open: DashboardTab, tab: DashboardTab) -> (r: &'static str)
    ensures
        r@ == if open == tab {
            "active"@
        } else {
            ""@
        },
{
    if open == tab {
        "active"
    } else {
        ""
    }
}

/// A number filter of the dashboard query: the value read as a u32, none
/// where it is absent or not one.
pub open spec fn spec_number_filter(v: Option<Seq<char>>) -> Option<u32> {
    match v {
        Some(s) => spec_parse_u32(s),
        None => None,
    }
}

pub fn number_filter(v: Option<&str>) -> (r: Option<u32>)
    ensures
        r == spec_number_filter(
            match v {
                Some(s) => Some(s@),
                None => None,
            },
        ),
{
    match v {
        Some(s) => {
            let c = chars_of(s);
            parse_u32_chars(&c)
        },
        None => None,
    }
}

/// The page a `page` query value asks for: the number, 1 where there is none.
pub fn page_filter(v: Option<&str>) -> (r: u32)
    ensures
        r == match spec_number_filter(
            match v {
                Some(s) => Some(s@),
                None => None,
            },
        ) {
            Some(p) => p,
            None => 1,
        },
{
    match number_filter(v) {
        Some(p) => p,
        None => 1,
    }
}

/// Whether a mode switch of the query (`delete`, `lock`) is on: it is on for 1.
pub fn mode_on(v: Option<u8>) -> (r: bool)
    ensures
        r == (v == Some(1u8)),
{
    match v {
        Some(x) => x == 1,
        None => false,
    }
}

/// The end of the page title: the server's name, and its version where known.
pub open spec fn spec_title_suffix(version: Seq<char>) -> Seq<char> {
    if version.len() == 0 {
        " — Remielle"@
    } else {
        " — Remielle "@ + version
    }
}

pub fn title_suffix(version: &str) -> (r: String)
    ensures
        r@ == spec_title_suffix(version@),
{
    if version.is_empty() {
        " — Remielle".to_string()
    } else {
        let mut out = chars_of(" — Remielle ");
        extend_str(&mut out, version);
        string_of(&out)
    }
}

/// The `Set-Cookie` value that keeps a chosen language.
pub open spec fn spec_lang_cookie(code: Seq<char>) -> Seq<char> {
    "gear_lang="@ + code + "; Path=/; SameSite=Lax"@
}

pub fn lang_cookie(code: &str) -> (r: String)
    ensures
        r@ == spec_lang_cookie(code@),
{
    let mut out = chars_of("gear_lang=");
    extend_str(&mut out, code);
    extend_str(&mut out, "; Path=/; SameSite=Lax");
    string_of(&out)
}

/// The `Set-Cookie` value that keeps a chosen server.
pub open spec fn spec_server_cookie(selection: Seq<char>) -> Seq<char> {
    "gear_server="@ + selection + "; Path=/; SameSite=Lax"@
}

pub fn server_cookie(selection: &str) -> (r: String)
    ensures
        r@ == spec_server_cookie(selection@),
{
    let mut out = chars_of("gear_server=");
    extend_str(&mut out, selection);
    extend_str(&mut out, "; Path=/; SameSite=Lax");
    string_of(&out)
}

} // verus!
