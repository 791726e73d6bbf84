//! The edit and create pages of the panel. The translated words, the
//! values of the item and the fragments built elsewhere come in as fields;
//! names and picture paths go in escaped as attribute values.
use vstd::prelude::*;
use crate::text::{decimal, extend_str, push_decimal, string_of};

verus! {

pub const DISC_EDIT_PAGE_0: &'static str = "<!doctype html>\n<html lang=\"";

pub const DISC_EDIT_PAGE_1: &'static str = "\">\n<head>\n  <meta charset=\"utf-8\" />\n  <meta name=\"viewport\" content=\"width=device-width, initial-scale=1\" />\n    <title>";

pub const DISC_EDIT_PAGE_2: &'static str = "</title>\n  <style>";

pub const DISC_EDIT_PAGE_3: &'static str = "</style>\n</head>\n<body>\n  <div class=\"container\">\n        <div class=\"hero\">\n            <img src=\"";

pub const DISC_EDIT_PAGE_4: &'static str = "\" alt=\"";

pub const DISC_EDIT_PAGE_5: &'static str = "\" />\n            <div>\n                <h1>";

pub const DISC_EDIT_PAGE_6: &'static str = " ";

pub const DISC_EDIT_PAGE_7: &'static str = "</h1>\n                <div class=\"meta\">";

pub const DISC_EDIT_PAGE_8: &'static str = " ";

pub const DISC_EDIT_PAGE_9: &'static str = " · ";

pub const DISC_EDIT_PAGE_10: &'static str = " ";

pub const DISC_EDIT_PAGE_11: &'static str = " · ";

pub const DISC_EDIT_PAGE_12: &'static str = " ";

pub const DISC_EDIT_PAGE_13: &'static str = "</div>\n            </div>\n        </div>\n    <form method=\"post\">\n      <label>";

pub const DISC_EDIT_PAGE_14: &'static str = "</label>\n      <input name=\"level\" type=\"number\" min=\"0\" value=\"";

pub const DISC_EDIT_PAGE_15: &'static str = "\" />\n      <label>";

pub const DISC_EDIT_PAGE_16: &'static str = "</label>\n      <input name=\"star\" type=\"number\" min=\"0\" max=\"5\" value=\"";

pub const DISC_EDIT_PAGE_17: &'static str = "\" />\n\n            <h3>";

pub const DISC_EDIT_PAGE_18: &'static str = "</h3>\n            <div class=\"row\">\n                <div>\n                    <label>";

pub const DISC_EDIT_PAGE_19: &'static str = "</label>\n                    <select name=\"main_key\" id=\"main_key\">\n                        ";

pub const DISC_EDIT_PAGE_20: &'static str = "\n                    </select>\n                </div>\n            </div>\n\n            <h3>";

pub const DISC_EDIT_PAGE_21: &'static str = "</h3>\n            <div class=\"row\">\n                ";

pub const DISC_EDIT_PAGE_22: &'static str = "\n            </div>\n        ";

pub const DISC_EDIT_PAGE_23: &'static str = "\n\n      <div class=\"form-actions\">\n        <a href=\"/dashboard?tab=discs\" class=\"back\">";

pub const DISC_EDIT_PAGE_24: &'static str = "</a>\n        <button type=\"submit\">";

pub const DISC_EDIT_PAGE_25: &'static str = "</button>\n      </div>\n    </form>\n  </div>\n</body>\n</html>";

/// What the disc edit page shows.
pub struct DiscEditPage {
    pub lang: String,
    pub title: String,
    pub img: String,
    pub name: String,
    pub uid_label: String,
    pub uid: u32,
    pub item_label: String,
    pub item_id: u32,
    pub slot_label: String,
    pub slot: u32,
    pub level_label: String,
    pub level: u32,
    pub star_label: String,
    pub star: u32,
    pub main_stat_heading: String,
    pub stat_label: String,
    /// The options of the main stat select.
    pub main_options: String,
    pub sub_stats_heading: String,
    /// The sub-stat rows.
    pub sub_stat_rows: String,
    /// The script that refills the sub-stat selects.
    pub script: String,
    pub back_label: String,
    pub save_label: String,
}

pub open spec fn disc_edit_page_part_0(p: DiscEditPage) -> Seq<char> {
    DISC_EDIT_PAGE_0@ + p.lang@ + DISC_EDIT_PAGE_1@ + p.title@ + DISC_EDIT_PAGE_2@ + crate::utils::SHARED_PAGE_CSS@
}

fn push_disc_edit_page_part_0(out: &mut Vec<char>, p: &DiscEditPage)
    ensures
        final(out)@ == old(out)@ + disc_edit_page_part_0(*p),
{
    extend_str(out, DISC_EDIT_PAGE_0);
    extend_str(out, p.lang.as_str());
    extend_str(out, DISC_EDIT_PAGE_1);
    extend_str(out, p.title.as_str());
    extend_str(out, DISC_EDIT_PAGE_2);
    extend_str(out, crate::utils::SHARED_PAGE_CSS);
    assert(final(out)@ =~= old(out)@ + disc_edit_page_part_0(*p));
}

pub open spec fn disc_edit_page_part_1(p: DiscEditPage) -> Seq<char> {
    DISC_EDIT_PAGE_3@ + crate::auth::spec_html_escape_attr(p.img@) + DISC_EDIT_PAGE_4@ + crate::auth::spec_html_escape_attr(p.name@) + DISC_EDIT_PAGE_5@ + p.title@
}

fn push_disc_edit_page_part_1(out: &mut Vec<char>, p: &DiscEditPage)
    ensures
        final(out)@ == old(out)@ + disc_edit_page_part_1(*p),
{
    extend_str(out, DISC_EDIT_PAGE_3);
    {
        let e = crate::auth::html_escape_attr(p.img.as_str());
        extend_str(out, e.as_str());
    }
    extend_str(out, DISC_EDIT_PAGE_4);
    {
        let e = crate::auth::html_escape_attr(p.name.as_str());
        extend_str(out, e.as_str());
    }
    extend_str(out, DISC_EDIT_PAGE_5);
    extend_str(out, p.title.as_str());
    assert(final(out)@ =~= old(out)@ + disc_edit_page_part_1(*p));
}

pub open spec fn disc_edit_page_part_2(p: DiscEditPage) -> Seq<char> {
    DISC_EDIT_PAGE_6@ + crate::auth::spec_html_escape_attr(p.name@) + DISC_EDIT_PAGE_7@ + p.uid_label@ + DISC_EDIT_PAGE_8@ + decimal(p.uid as nat)
}

fn push_disc_edit_page_part_2(out: &mut Vec<char>, p: &DiscEditPage)
    ensures
        final(out)@ == old(out)@ + disc_edit_page_part_2(*p),
{
    extend_str(out, DISC_EDIT_PAGE_6);
    {
        let e = crate::auth::html_escape_attr(p.name.as_str());
        extend_str(out, e.as_str());
    }
    extend_str(out, DISC_EDIT_PAGE_7);
    extend_str(out, p.uid_label.as_str());
    extend_str(out, DISC_EDIT_PAGE_8);
    push_decimal(out, p.uid as u64);
    assert(final(out)@ =~= old(out)@ + disc_edit_page_part_2(*p));
}

pub open spec fn disc_edit_page_part_3(p: DiscEditPage) -> Seq<char> {
    DISC_EDIT_PAGE_9@ + p.item_label@ + DISC_EDIT_PAGE_10@ + decimal(p.item_id as nat) + DISC_EDIT_PAGE_11@ + p.slot_label@
}

fn push_disc_edit_page_part_3(out: &mut Vec<char>, p: &DiscEditPage)
    ensures
        final(out)@ == old(out)@ + disc_edit_page_part_3(*p),
{
    extend_str(out, DISC_EDIT_PAGE_9);
    extend_str(out, p.item_label.as_str());
    extend_str(out, DISC_EDIT_PAGE_10);
    push_decimal(out, p.item_id as u64);
    extend_str(out, DISC_EDIT_PAGE_11);
    extend_str(out, p.slot_label.as_str());
    assert(final(out)@ =~= old(out)@ + disc_edit_page_part_3(*p));
}

pub open spec fn disc_edit_page_part_4(p: DiscEditPage) -> Seq<char> {
    DISC_EDIT_PAGE_12@ + decimal(p.slot as nat) + DISC_EDIT_PAGE_13@ + p.level_label@ + DISC_EDIT_PAGE_14@ + decimal(p.level as nat)
}

fn push_disc_edit_page_part_4(out: &mut Vec<char>, p: &DiscEditPage)
    ensures
        final(out)@ == old(out)@ + disc_edit_page_part_4(*p),
{
    extend_str(out, DISC_EDIT_PAGE_12);
    push_decimal(out, p.slot as u64);
    extend_str(out, DISC_EDIT_PAGE_13);
    extend_str(out, p.level_label.as_str());
    extend_str(out, DISC_EDIT_PAGE_14);
    push_decimal(out, p.level as u64);
    assert(final(out)@ =~= old(out)@ + disc_edit_page_part_4(*p));
}

pub open spec fn disc_edit_page_part_5(p: DiscEditPage) -> Seq<char> {
    DISC_EDIT_PAGE_15@ + p.star_label@ + DISC_EDIT_PAGE_16@ + decimal(p.star as nat) + DISC_EDIT_PAGE_17@ + p.main_stat_heading@
}

fn push_disc_edit_page_part_5(out: &mut Vec<char>, p: &DiscEditPage)
    ensures
        final(out)@ == old(out)@ + disc_edit_page_part_5(*p),
{
    extend_str(out, DISC_EDIT_PAGE_15);
    extend_str(out, p.star_label.as_str());
    extend_str(out, DISC_EDIT_PAGE_16);
    push_decimal(out, p.star as u64);
    extend_str(out, DISC_EDIT_PAGE_17);
    extend_str(out, p.main_stat_heading.as_str());
    assert(final(out)@ =~= old(out)@ + disc_edit_page_part_5(*p));
}

pub open spec fn disc_edit_page_part_6(p: DiscEditPage) -> Seq<char> {
    DISC_EDIT_PAGE_18@ + p.stat_label@ + DISC_EDIT_PAGE_19@ + p.main_options@ + DISC_EDIT_PAGE_20@ + p.sub_stats_heading@
}

fn push_disc_edit_page_part_6(out: &mut Vec<char>, p: &DiscEditPage)
    ensures
        final(out)@ == old(out)@ + disc_edit_page_part_6(*p),
{
    extend_str(out, DISC_EDIT_PAGE_18);
    extend_str(out, p.stat_label.as_str());
    extend_str(out, DISC_EDIT_PAGE_19);
    extend_str(out, p.main_options.as_str());
    extend_str(out, DISC_EDIT_PAGE_20);
    extend_str(out, p.sub_stats_heading.as_str());
    assert(final(out)@ =~= old(out)@ + disc_edit_page_part_6(*p));
}

pub open spec fn disc_edit_page_part_7(p: DiscEditPage) -> Seq<char> {
    DISC_EDIT_PAGE_21@ + p.sub_stat_rows@ + DISC_EDIT_PAGE_22@ + p.script@ + DISC_EDIT_PAGE_23@ + p.back_label@
}

fn push_disc_edit_page_part_7(out: &mut Vec<char>, p: &DiscEditPage)
    ensures
        final(out)@ == old(out)@ + disc_edit_page_part_7(*p),
{
    extend_str(out, DISC_EDIT_PAGE_21);
    extend_str(out, p.sub_stat_rows.as_str());
    extend_str(out, DISC_EDIT_PAGE_22);
    extend_str(out, p.script.as_str());
    extend_str(out, DISC_EDIT_PAGE_23);
    extend_str(out, p.back_label.as_str());
    assert(final(out)@ =~= old(out)@ + disc_edit_page_part_7(*p));
}

pub open spec fn disc_edit_page_part_8(p: DiscEditPage) -> Seq<char> {
    DISC_EDIT_PAGE_24@ + p.save_label@ + DISC_EDIT_PAGE_25@
}

fn push_disc_edit_page_part_8(out: &mut Vec<char>, p: &DiscEditPage)
    ensures
        final(out)@ == old(out)@ + disc_edit_page_part_8(*p),
{
    extend_str(out, DISC_EDIT_PAGE_24);
    extend_str(out, p.save_label.as_str());
    extend_str(out, DISC_EDIT_PAGE_25);
    assert(final(out)@ =~= old(out)@ + disc_edit_page_part_8(*p));
}

/// The disc edit page: the disc's picture, name, uid, item and slot, its level and stars, and its main and sub-stat selects.
pub open spec fn spec_disc_edit_page(p: DiscEditPage) -> Seq<char> {
    disc_edit_page_part_0(p) + disc_edit_page_part_1(p) + disc_edit_page_part_2(p) + disc_edit_page_part_3(p) + disc_edit_page_part_4(p) + disc_edit_page_part_5(p) + disc_edit_page_part_6(p) + disc_edit_page_part_7(p) + disc_edit_page_part_8(p)
}

pub fn render_disc_edit_page(p: &DiscEditPage) -> (r: String)
    ensures
        r@ == spec_disc_edit_page(*p),
{
    let mut out: Vec<char> = Vec::new();
    push_disc_edit_page_part_0(&mut out, p);
    push_disc_edit_page_part_1(&mut out, p);
    push_disc_edit_page_part_2(&mut out, p);
    push_disc_edit_page_part_3(&mut out, p);
    push_disc_edit_page_part_4(&mut out, p);
    push_disc_edit_page_part_5(&mut out, p);
    push_disc_edit_page_part_6(&mut out, p);
    push_disc_edit_page_part_7(&mut out, p);
    push_disc_edit_page_part_8(&mut out, p);
    assert(out@ =~= spec_disc_edit_page(*p));
    string_of(&out)
}

pub const DISC_NEW_PAGE_0: &'static str = "<!doctype html>\n<html lang=\"";

pub const DISC_NEW_PAGE_1: &'static str = "\">\n<head>\n    <meta charset=\"utf-8\" />\n    <meta name=\"viewport\" content=\"width=device-width, initial-scale=1\" />\n    <title>";

pub const DISC_NEW_PAGE_2: &'static str = "</title>\n    <style>";

pub const DISC_NEW_PAGE_3: &'static str = "</style>\n</head>\n<body>\n    <div class=\"container\">\n        <h1>";

pub const DISC_NEW_PAGE_4: &'static str = "</h1>\n        <form method=\"post\">\n            <div>\n                <img id=\"disc_preview\" class=\"preview-img\" />\n                <label>";

pub const DISC_NEW_PAGE_5: &'static str = "</label>\n                <select name=\"equip_set_id\" id=\"equip_set_id\" required>\n                    ";

pub const DISC_NEW_PAGE_6: &'static str = "\n                </select>\n            </div>\n            <div class=\"row\">\n                <div>\n                    <label>";

pub const DISC_NEW_PAGE_7: &'static str = "</label>\n                    <select name=\"equip_slot\" id=\"equip_slot\">\n                        ";

pub const DISC_NEW_PAGE_8: &'static str = "\n                    </select>\n                </div>\n            </div>\n\n            <h3>";

pub const DISC_NEW_PAGE_9: &'static str = "</h3>\n            <div class=\"row\">\n                <div>\n                    <label>";

pub const DISC_NEW_PAGE_10: &'static str = "</label>\n                    <select name=\"main_key\" id=\"main_key\">\n                        ";

pub const DISC_NEW_PAGE_11: &'static str = "\n                    </select>\n                </div>\n            </div>\n\n            <h3>";

pub const DISC_NEW_PAGE_12: &'static str = "</h3>\n            <div class=\"row\">\n                ";

pub const DISC_NEW_PAGE_13: &'static str = "\n            </div>\n            ";

pub const DISC_NEW_PAGE_14: &'static str = "\n            <button>";

pub const DISC_NEW_PAGE_15: &'static str = "</button>\n        </form>\n    </div>\n    <script>\n    var d = ";

pub const DISC_NEW_PAGE_16: &'static str = ";\n    var p = document.getElementById(\"disc_preview\");\n    var s = document.getElementById(\"equip_set_id\");\n    s.addEventListener(\"change\", function() {\n        var u = d[s.value];\n        if (u) { p.src = u; p.style.display = \"block\"; }\n        else { p.style.display = \"none\"; }\n    });\n    </script>\n</body>\n</html>";

/// What the new-disc page shows.
pub struct DiscNewPage {
    pub lang: String,
    pub title: String,
    pub set_label: String,
    pub set_options: String,
    pub slot_label: String,
    pub slot_options: String,
    pub main_stat_heading: String,
    pub stat_label: String,
    pub main_options: String,
    pub sub_stats_heading: String,
    pub sub_stat_rows: String,
    pub script: String,
    pub create_label: String,
    /// The JSON object of the sets' pictures, by set id.
    pub images_json: String,
}

pub open spec fn disc_new_page_part_0(p: DiscNewPage) -> Seq<char> {
    DISC_NEW_PAGE_0@ + p.lang@ + DISC_NEW_PAGE_1@ + p.title@ + DISC_NEW_PAGE_2@ + crate::utils::SHARED_PAGE_CSS@
}

fn push_disc_new_page_part_0(out: &mut Vec<char>, p: &DiscNewPage)
    ensures
        final(out)@ == old(out)@ + disc_new_page_part_0(*p),
{
    extend_str(out, DISC_NEW_PAGE_0);
    extend_str(out, p.lang.as_str());
    extend_str(out, DISC_NEW_PAGE_1);
    extend_str(out, p.title.as_str());
    extend_str(out, DISC_NEW_PAGE_2);
    extend_str(out, crate::utils::SHARED_PAGE_CSS);
    assert(final(out)@ =~= old(out)@ + disc_new_page_part_0(*p));
}

pub open spec fn disc_new_page_part_1(p: DiscNewPage) -> Seq<char> {
    DISC_NEW_PAGE_3@ + p.title@ + DISC_NEW_PAGE_4@ + p.set_label@ + DISC_NEW_PAGE_5@ + p.set_options@
}

fn push_disc_new_page_part_1(out: &mut Vec<char>, p: &DiscNewPage)
    ensures
        final(out)@ == old(out)@ + disc_new_page_part_1(*p),
{
    extend_str(out, DISC_NEW_PAGE_3);
    extend_str(out, p.title.as_str());
    extend_str(out, DISC_NEW_PAGE_4);
    extend_str(out, p.set_label.as_str());
    extend_str(out, DISC_NEW_PAGE_5);
    extend_str(out, p.set_options.as_str());
    assert(final(out)@ =~= old(out)@ + disc_new_page_part_1(*p));
}

pub open spec fn disc_new_page_part_2(p: DiscNewPage) -> Seq<char> {
    DISC_NEW_PAGE_6@ + p.slot_label@ + DISC_NEW_PAGE_7@ + p.slot_options@ + DISC_NEW_PAGE_8@ + p.main_stat_heading@
}

fn push_disc_new_page_part_2(out: &mut Vec<char>, p: &DiscNewPage)
    ensures
        final(out)@ == old(out)@ + disc_new_page_part_2(*p),
{
    extend_str(out, DISC_NEW_PAGE_6);
    extend_str(out, p.slot_label.as_str());
    extend_str(out, DISC_NEW_PAGE_7);
    extend_str(out, p.slot_options.as_str());
    extend_str(out, DISC_NEW_PAGE_8);
    extend_str(out, p.main_stat_heading.as_str());
    assert(final(out)@ =~= old(out)@ + disc_new_page_part_2(*p));
}

pub open spec fn disc_new_page_part_3(p: DiscNewPage) -> Seq<char> {
    DISC_NEW_PAGE_9@ + p.stat_label@ + DISC_NEW_PAGE_10@ + p.main_options@ + DISC_NEW_PAGE_11@ + p.sub_stats_heading@
}

fn push_disc_new_page_part_3(out: &mut Vec<char>, p: &DiscNewPage)
    ensures
        final(out)@ == old(out)@ + disc_new_page_part_3(*p),
{
    extend_str(out, DISC_NEW_PAGE_9);
    extend_str(out, p.stat_label.as_str());
    extend_str(out, DISC_NEW_PAGE_10);
    extend_str(out, p.main_options.as_str());
    extend_str(out, DISC_NEW_PAGE_11);
    extend_str(out, p.sub_stats_heading.as_str());
    assert(final(out)@ =~= old(out)@ + disc_new_page_part_3(*p));
}

pub open spec fn disc_new_page_part_4(p: DiscNewPage) -> Seq<char> {
    DISC_NEW_PAGE_12@ + p.sub_stat_rows@ + DISC_NEW_PAGE_13@ + p.script@ + DISC_NEW_PAGE_14@ + p.create_label@
}

fn push_disc_new_page_part_4(out: &mut Vec<char>, p: &DiscNewPage)
    ensures
        final(out)@ == old(out)@ + disc_new_page_part_4(*p),
{
    extend_str(out, DISC_NEW_PAGE_12);
    extend_str(out, p.sub_stat_rows.as_str());
    extend_str(out, DISC_NEW_PAGE_13);
    extend_str(out, p.script.as_str());
    extend_str(out, DISC_NEW_PAGE_14);
    extend_str(out, p.create_label.as_str());
    assert(final(out)@ =~= old(out)@ + disc_new_page_part_4(*p));
}

pub open spec fn disc_new_page_part_5(p: DiscNewPage) -> Seq<char> {
    DISC_NEW_PAGE_15@ + p.images_json@ + DISC_NEW_PAGE_16@
}

fn push_disc_new_page_part_5(out: &mut Vec<char>, p: &DiscNewPage)
    ensures
        final(out)@ == old(out)@ + disc_new_page_part_5(*p),
{
    extend_str(out, DISC_NEW_PAGE_15);
    extend_str(out, p.images_json.as_str());
    extend_str(out, DISC_NEW_PAGE_16);
    assert(final(out)@ =~= old(out)@ + disc_new_page_part_5(*p));
}

/// The new-disc page: the set pick list with a preview of the set's picture, the slot, and the main and sub-stat selects.
pub open spec fn spec_disc_new_page(p: DiscNewPage) -> Seq<char> {
    disc_new_page_part_0(p) + disc_new_page_part_1(p) + disc_new_page_part_2(p) + disc_new_page_part_3(p) + disc_new_page_part_4(p) + disc_new_page_part_5(p)
}

pub fn render_disc_new_page(p: &DiscNewPage) -> (r: String)
    ensures
        r@ == spec_disc_new_page(*p),
{
    let mut out: Vec<char> = Vec::new();
    push_disc_new_page_part_0(&mut out, p);
    push_disc_new_page_part_1(&mut out, p);
    push_disc_new_page_part_2(&mut out, p);
    push_disc_new_page_part_3(&mut out, p);
    push_disc_new_page_part_4(&mut out, p);
    push_disc_new_page_part_5(&mut out, p);
    assert(out@ =~= spec_disc_new_page(*p));
    string_of(&out)
}

pub const AVATAR_EDIT_PAGE_0: &'static str = "        <div class=\"hero\">\n            <img src=\"";

pub const AVATAR_EDIT_PAGE_1: &'static str = "\" alt=\"";

pub const AVATAR_EDIT_PAGE_2: &'static str = "\" />\n            <div>\n                <h1>";

pub const AVATAR_EDIT_PAGE_3: &'static str = " ";

pub const AVATAR_EDIT_PAGE_4: &'static str = "</h1>\n                <div class=\"meta\">";

pub const AVATAR_EDIT_PAGE_5: &'static str = " ";

pub const AVATAR_EDIT_PAGE_6: &'static str = "</div>\n            </div>\n        </div>\n    <form method=\"post\">\n      ";

pub const AVATAR_EDIT_PAGE_7: &'static str = "\n      <div class=\"row\">\n        <div>\n          <label>";

pub const AVATAR_EDIT_PAGE_8: &'static str = "</label>\n          <input name=\"level\" type=\"number\" min=\"1\" max=\"60\" value=\"";

pub const AVATAR_EDIT_PAGE_9: &'static str = "\" ";

pub const AVATAR_EDIT_PAGE_10: &'static str = " />\n        </div>\n        <div>\n                    <label>";

pub const AVATAR_EDIT_PAGE_11: &'static str = "</label>\n                    <input name=\"unlocked_talent_num\" type=\"number\" min=\"0\" max=\"6\" value=\"";

pub const AVATAR_EDIT_PAGE_12: &'static str = "\" ";

pub const AVATAR_EDIT_PAGE_13: &'static str = " />\n        </div>\n      </div>\n\n      <h3>";

pub const AVATAR_EDIT_PAGE_14: &'static str = "</h3>\n      <div class=\"row\">\n        ";

pub const AVATAR_EDIT_PAGE_15: &'static str = "\n      </div>\n\n      <div class=\"form-actions\">\n        <a href=\"/dashboard?tab=avatars\" class=\"back\">";

pub const AVATAR_EDIT_PAGE_16: &'static str = "</a>\n        ";

pub const AVATAR_EDIT_PAGE_17: &'static str = "\n      </div>\n    </form>";

/// What the Agent edit page shows.
pub struct AvatarEditPage {
    pub img: String,
    pub name: String,
    pub title: String,
    pub id_label: String,
    pub id: u32,
    /// The hidden field with the form token.
    pub csrf: String,
    pub level_label: String,
    pub level: u32,
    /// Whether the player is online.
    pub online: bool,
    pub mindscapes_label: String,
    pub talents: u32,
    pub skill_levels_label: String,
    /// The skill inputs.
    pub skills: String,
    pub back_label: String,
    pub save_label: String,
}

pub open spec fn avatar_edit_page_part_0(p: AvatarEditPage) -> Seq<char> {
    AVATAR_EDIT_PAGE_0@ + crate::auth::spec_html_escape_attr(p.img@) + AVATAR_EDIT_PAGE_1@ + crate::auth::spec_html_escape_attr(p.name@) + AVATAR_EDIT_PAGE_2@ + p.title@
}

fn push_avatar_edit_page_part_0(out: &mut Vec<char>, p: &AvatarEditPage)
    ensures
        final(out)@ == old(out)@ + avatar_edit_page_part_0(*p),
{
    extend_str(out, AVATAR_EDIT_PAGE_0);
    {
        let e = crate::auth::html_escape_attr(p.img.as_str());
        extend_str(out, e.as_str());
    }
    extend_str(out, AVATAR_EDIT_PAGE_1);
    {
        let e = crate::auth::html_escape_attr(p.name.as_str());
        extend_str(out, e.as_str());
    }
    extend_str(out, AVATAR_EDIT_PAGE_2);
    extend_str(out, p.title.as_str());
    assert(final(out)@ =~= old(out)@ + avatar_edit_page_part_0(*p));
}

pub open spec fn avatar_edit_page_part_1(p: AvatarEditPage) -> Seq<char> {
    AVATAR_EDIT_PAGE_3@ + crate::auth::spec_html_escape_attr(p.name@) + AVATAR_EDIT_PAGE_4@ + p.id_label@ + AVATAR_EDIT_PAGE_5@ + decimal(p.id as nat)
}

fn push_avatar_edit_page_part_1(out: &mut Vec<char>, p: &AvatarEditPage)
    ensures
        final(out)@ == old(out)@ + avatar_edit_page_part_1(*p),
{
    extend_str(out, AVATAR_EDIT_PAGE_3);
    {
        let e = crate::auth::html_escape_attr(p.name.as_str());
        extend_str(out, e.as_str());
    }
    extend_str(out, AVATAR_EDIT_PAGE_4);
    extend_str(out, p.id_label.as_str());
    extend_str(out, AVATAR_EDIT_PAGE_5);
    push_decimal(out, p.id as u64);
    assert(final(out)@ =~= old(out)@ + avatar_edit_page_part_1(*p));
}

pub open spec fn avatar_edit_page_part_2(p: AvatarEditPage) -> Seq<char> {
    AVATAR_EDIT_PAGE_6@ + p.csrf@ + AVATAR_EDIT_PAGE_7@ + p.level_label@ + AVATAR_EDIT_PAGE_8@ + decimal(p.level as nat)
}

fn push_avatar_edit_page_part_2(out: &mut Vec<char>, p: &AvatarEditPage)
    ensures
        final(out)@ == old(out)@ + avatar_edit_page_part_2(*p),
{
    extend_str(out, AVATAR_EDIT_PAGE_6);
    extend_str(out, p.csrf.as_str());
    extend_str(out, AVATAR_EDIT_PAGE_7);
    extend_str(out, p.level_label.as_str());
    extend_str(out, AVATAR_EDIT_PAGE_8);
    push_decimal(out, p.level as u64);
    assert(final(out)@ =~= old(out)@ + avatar_edit_page_part_2(*p));
}

pub open spec fn avatar_edit_page_part_3(p: AvatarEditPage) -> Seq<char> {
    AVATAR_EDIT_PAGE_9@ + (crate::pages::disabled_attr(p.online)) + AVATAR_EDIT_PAGE_10@ + p.mindscapes_label@ + AVATAR_EDIT_PAGE_11@ + decimal(p.talents as nat)
}

fn push_avatar_edit_page_part_3(out: &mut Vec<char>, p: &AvatarEditPage)
    ensures
        final(out)@ == old(out)@ + avatar_edit_page_part_3(*p),
{
    extend_str(out, AVATAR_EDIT_PAGE_9);
    {
        if !p.online {
            extend_str(out, "disabled");
        }
    }
    extend_str(out, AVATAR_EDIT_PAGE_10);
    extend_str(out, p.mindscapes_label.as_str());
    extend_str(out, AVATAR_EDIT_PAGE_11);
    push_decimal(out, p.talents as u64);
    assert(final(out)@ =~= old(out)@ + avatar_edit_page_part_3(*p));
}

pub open spec fn avatar_edit_page_part_4(p: AvatarEditPage) -> Seq<char> {
    AVATAR_EDIT_PAGE_12@ + (crate::pages::disabled_attr(p.online)) + AVATAR_EDIT_PAGE_13@ + p.skill_levels_label@ + AVATAR_EDIT_PAGE_14@ + p.skills@
}

fn push_avatar_edit_page_part_4(out: &mut Vec<char>, p: &AvatarEditPage)
    ensures
        final(out)@ == old(out)@ + avatar_edit_page_part_4(*p),
{
    extend_str(out, AVATAR_EDIT_PAGE_12);
    {
        if !p.online {
            extend_str(out, "disabled");
        }
    }
    extend_str(out, AVATAR_EDIT_PAGE_13);
    extend_str(out, p.skill_levels_label.as_str());
    extend_str(out, AVATAR_EDIT_PAGE_14);
    extend_str(out, p.skills.as_str());
    assert(final(out)@ =~= old(out)@ + avatar_edit_page_part_4(*p));
}

pub open spec fn avatar_edit_page_part_5(p: AvatarEditPage) -> Seq<char> {
    AVATAR_EDIT_PAGE_15@ + p.back_label@ + AVATAR_EDIT_PAGE_16@ + (if p.online { "<button type=\"submit\">"@ + p.save_label@ + "</button>"@ } else { Seq::empty() }) + AVATAR_EDIT_PAGE_17@
}

fn push_avatar_edit_page_part_5(out: &mut Vec<char>, p: &AvatarEditPage)
    ensures
        final(out)@ == old(out)@ + avatar_edit_page_part_5(*p),
{
    extend_str(out, AVATAR_EDIT_PAGE_15);
    extend_str(out, p.back_label.as_str());
    extend_str(out, AVATAR_EDIT_PAGE_16);
    {
        if p.online {
            extend_str(out, "<button type=\"submit\">");
            extend_str(out, p.save_label.as_str());
            extend_str(out, "</button>");
        }
    }
    extend_str(out, AVATAR_EDIT_PAGE_17);
    assert(final(out)@ =~= old(out)@ + avatar_edit_page_part_5(*p));
}

/// The body of the Agent edit page: the Agent's picture, name and id, its level, Mindscapes and skills; while the player is offline the inputs are disabled and there is no save button.
pub open spec fn spec_avatar_edit_page(p: AvatarEditPage) -> Seq<char> {
    avatar_edit_page_part_0(p) + avatar_edit_page_part_1(p) + avatar_edit_page_part_2(p) + avatar_edit_page_part_3(p) + avatar_edit_page_part_4(p) + avatar_edit_page_part_5(p)
}

pub fn render_avatar_edit_page(p: &AvatarEditPage) -> (r: String)
    ensures
        r@ == spec_avatar_edit_page(*p),
{
    let mut out: Vec<char> = Vec::new();
    push_avatar_edit_page_part_0(&mut out, p);
    push_avatar_edit_page_part_1(&mut out, p);
    push_avatar_edit_page_part_2(&mut out, p);
    push_avatar_edit_page_part_3(&mut out, p);
    push_avatar_edit_page_part_4(&mut out, p);
    push_avatar_edit_page_part_5(&mut out, p);
    assert(out@ =~= spec_avatar_edit_page(*p));
    string_of(&out)
}

/// The note above the new-Agent form: no Agent passes the filters, or the
/// player owns every Agent already.
pub open spec fn avatar_unavailable_note(any_unowned: bool, available: usize, no_matches: Seq<char>, all_owned: Seq<char>) -> Seq<char> {
    if any_unowned && available == 0 {
        "<p class=\"meta\">"@ + no_matches + "</p>"@
    } else if !any_unowned {
        "<p class=\"meta\">"@ + all_owned + "</p>"@
    } else {
        Seq::empty()
    }
}

pub const AVATAR_NEW_PAGE_0: &'static str = "        <h1>";

pub const AVATAR_NEW_PAGE_1: &'static str = "</h1>\n        ";

pub const AVATAR_NEW_PAGE_2: &'static str = "\n        ";

pub const AVATAR_NEW_PAGE_3: &'static str = "\n        <div class=\"panel\" style=\"display:block;\">\n        <form method=\"post\">\n            ";

pub const AVATAR_NEW_PAGE_4: &'static str = "\n            <div>\n                <img id=\"avatar_preview\" class=\"preview-img\" />\n                <label>";

pub const AVATAR_NEW_PAGE_5: &'static str = "</label>\n                <select name=\"avatar_id\" id=\"avatar_id\" required>\n                    ";

pub const AVATAR_NEW_PAGE_6: &'static str = "\n                </select>\n            </div>\n            <div class=\"form-actions\">\n                <a href=\"/dashboard?tab=avatars\" class=\"back\">";

pub const AVATAR_NEW_PAGE_7: &'static str = "</a>\n                <button type=\"submit\">";

pub const AVATAR_NEW_PAGE_8: &'static str = "</button>\n            </div>\n        </form>\n        </div>\n    <script>\n    var a = ";

pub const AVATAR_NEW_PAGE_9: &'static str = ";\n    var p = document.getElementById(\"avatar_preview\");\n    var s = document.getElementById(\"avatar_id\");\n    s.addEventListener(\"change\", function() {\n        var u = a[s.value];\n        if (u) { p.src = u; p.style.display = \"block\"; }\n        else { p.style.display = \"none\"; }\n    });\n    </script>";

/// What the new-Agent page shows.
pub struct AvatarNewPage {
    pub title: String,
    pub filter_panel: String,
    /// Whether some Agent is not owned yet.
    pub any_unowned: bool,
    /// How many Agents the pick list offers.
    pub available: usize,
    pub no_matches: String,
    pub all_owned: String,
    pub csrf: String,
    pub select_label: String,
    pub options: String,
    pub back_label: String,
    pub create_label: String,
    /// The JSON object of the Agents' pictures, by id.
    pub images_json: String,
}

pub open spec fn avatar_new_page_part_0(p: AvatarNewPage) -> Seq<char> {
    AVATAR_NEW_PAGE_0@ + p.title@ + AVATAR_NEW_PAGE_1@ + p.filter_panel@ + AVATAR_NEW_PAGE_2@ + (avatar_unavailable_note(p.any_unowned, p.available, p.no_matches@, p.all_owned@))
}

fn push_avatar_new_page_part_0(out: &mut Vec<char>, p: &AvatarNewPage)
    ensures
        final(out)@ == old(out)@ + avatar_new_page_part_0(*p),
{
    extend_str(out, AVATAR_NEW_PAGE_0);
    extend_str(out, p.title.as_str());
    extend_str(out, AVATAR_NEW_PAGE_1);
    extend_str(out, p.filter_panel.as_str());
    extend_str(out, AVATAR_NEW_PAGE_2);
    {
        if p.any_unowned && p.available == 0 {
            extend_str(out, "<p class=\"meta\">");
            extend_str(out, p.no_matches.as_str());
            extend_str(out, "</p>");
        } else if !p.any_unowned {
            extend_str(out, "<p class=\"meta\">");
            extend_str(out, p.all_owned.as_str());
            extend_str(out, "</p>");
        }
    }
    assert(final(out)@ =~= old(out)@ + avatar_new_page_part_0(*p));
}

pub open spec fn avatar_new_page_part_1(p: AvatarNewPage) -> Seq<char> {
    AVATAR_NEW_PAGE_3@ + p.csrf@ + AVATAR_NEW_PAGE_4@ + p.select_label@ + AVATAR_NEW_PAGE_5@ + p.options@
}

fn push_avatar_new_page_part_1(out: &mut Vec<char>, p: &AvatarNewPage)
    ensures
        final(out)@ == old(out)@ + avatar_new_page_part_1(*p),
{
    extend_str(out, AVATAR_NEW_PAGE_3);
    extend_str(out, p.csrf.as_str());
    extend_str(out, AVATAR_NEW_PAGE_4);
    extend_str(out, p.select_label.as_str());
    extend_str(out, AVATAR_NEW_PAGE_5);
    extend_str(out, p.options.as_str());
    assert(final(out)@ =~= old(out)@ + avatar_new_page_part_1(*p));
}

pub open spec fn avatar_new_page_part_2(p: AvatarNewPage) -> Seq<char> {
    AVATAR_NEW_PAGE_6@ + p.back_label@ + AVATAR_NEW_PAGE_7@ + p.create_label@ + AVATAR_NEW_PAGE_8@ + p.images_json@
}

fn push_avatar_new_page_part_2(out: &mut Vec<char>, p: &AvatarNewPage)
    ensures
        final(out)@ == old(out)@ + avatar_new_page_part_2(*p),
{
    extend_str(out, AVATAR_NEW_PAGE_6);
    extend_str(out, p.back_label.as_str());
    extend_str(out, AVATAR_NEW_PAGE_7);
    extend_str(out, p.create_label.as_str());
    extend_str(out, AVATAR_NEW_PAGE_8);
    extend_str(out, p.images_json.as_str());
    assert(final(out)@ =~= old(out)@ + avatar_new_page_part_2(*p));
}

pub open spec fn avatar_new_page_part_3(p: AvatarNewPage) -> Seq<char> {
    AVATAR_NEW_PAGE_9@
}

fn push_avatar_new_page_part_3(out: &mut Vec<char>, p: &AvatarNewPage)
    ensures
        final(out)@ == old(out)@ + avatar_new_page_part_3(*p),
{
    extend_str(out, AVATAR_NEW_PAGE_9);
    assert(final(out)@ =~= old(out)@ + avatar_new_page_part_3(*p));
}

/// The body of the new-Agent page: the filter, a note where nothing is offered, and the pick list with a preview of the Agent's picture.
pub open spec fn spec_avatar_new_page(p: AvatarNewPage) -> Seq<char> {
    avatar_new_page_part_0(p) + avatar_new_page_part_1(p) + avatar_new_page_part_2(p) + avatar_new_page_part_3(p)
}

pub fn render_avatar_new_page(p: &AvatarNewPage) -> (r: String)
    ensures
        r@ == spec_avatar_new_page(*p),
{
    let mut out: Vec<char> = Vec::new();
    push_avatar_new_page_part_0(&mut out, p);
    push_avatar_new_page_part_1(&mut out, p);
    push_avatar_new_page_part_2(&mut out, p);
    push_avatar_new_page_part_3(&mut out, p);
    assert(out@ =~= spec_avatar_new_page(*p));
    string_of(&out)
}

pub const WEAPON_EDIT_PAGE_0: &'static str = "        <div class=\"hero\">\n            <img src=\"";

pub const WEAPON_EDIT_PAGE_1: &'static str = "\" alt=\"";

pub const WEAPON_EDIT_PAGE_2: &'static str = "\" />\n            <div>\n                <h1>";

pub const WEAPON_EDIT_PAGE_3: &'static str = " ";

pub const WEAPON_EDIT_PAGE_4: &'static str = "</h1>\n                <div class=\"meta\">";

pub const WEAPON_EDIT_PAGE_5: &'static str = " ";

pub const WEAPON_EDIT_PAGE_6: &'static str = " · ";

pub const WEAPON_EDIT_PAGE_7: &'static str = " ";

pub const WEAPON_EDIT_PAGE_8: &'static str = "</div>\n            </div>\n        </div>\n    <form method=\"post\">\n      ";

pub const WEAPON_EDIT_PAGE_9: &'static str = "\n      <label>";

pub const WEAPON_EDIT_PAGE_10: &'static str = "</label>\n      <input name=\"level\" type=\"number\" min=\"1\" value=\"";

pub const WEAPON_EDIT_PAGE_11: &'static str = "\" ";

pub const WEAPON_EDIT_PAGE_12: &'static str = " />\n      <label>";

pub const WEAPON_EDIT_PAGE_13: &'static str = "</label>\n      <input name=\"refine_level\" type=\"number\" min=\"1\" value=\"";

pub const WEAPON_EDIT_PAGE_14: &'static str = "\" ";

pub const WEAPON_EDIT_PAGE_15: &'static str = " />\n      <div class=\"form-actions\">\n        <a href=\"/dashboard?tab=weapons\" class=\"back\">";

pub const WEAPON_EDIT_PAGE_16: &'static str = "</a>\n        ";

pub const WEAPON_EDIT_PAGE_17: &'static str = "\n      </div>\n    </form>";

/// What the W-Engine edit page shows.
pub struct WeaponEditPage {
    pub img: String,
    pub name: String,
    pub title: String,
    pub uid_label: String,
    pub uid: u32,
    pub id_label: String,
    pub id: u32,
    pub csrf: String,
    pub level_label: String,
    pub level: u32,
    pub online: bool,
    pub overclock_label: String,
    pub refine_level: u32,
    pub back_label: String,
    pub save_label: String,
}

pub open spec fn weapon_edit_page_part_0(p: WeaponEditPage) -> Seq<char> {
    WEAPON_EDIT_PAGE_0@ + crate::auth::spec_html_escape_attr(p.img@) + WEAPON_EDIT_PAGE_1@ + crate::auth::spec_html_escape_attr(p.name@) + WEAPON_EDIT_PAGE_2@ + p.title@
}

fn push_weapon_edit_page_part_0(out: &mut Vec<char>, p: &WeaponEditPage)
    ensures
        final(out)@ == old(out)@ + weapon_edit_page_part_0(*p),
{
    extend_str(out, WEAPON_EDIT_PAGE_0);
    {
        let e = crate::auth::html_escape_attr(p.img.as_str());
        extend_str(out, e.as_str());
    }
    extend_str(out, WEAPON_EDIT_PAGE_1);
    {
        let e = crate::auth::html_escape_attr(p.name.as_str());
        extend_str(out, e.as_str());
    }
    extend_str(out, WEAPON_EDIT_PAGE_2);
    extend_str(out, p.title.as_str());
    assert(final(out)@ =~= old(out)@ + weapon_edit_page_part_0(*p));
}

pub open spec fn weapon_edit_page_part_1(p: WeaponEditPage) -> Seq<char> {
    WEAPON_EDIT_PAGE_3@ + crate::auth::spec_html_escape_attr(p.name@) + WEAPON_EDIT_PAGE_4@ + p.uid_label@ + WEAPON_EDIT_PAGE_5@ + decimal(p.uid as nat)
}

fn push_weapon_edit_page_part_1(out: &mut Vec<char>, p: &WeaponEditPage)
    ensures
        final(out)@ == old(out)@ + weapon_edit_page_part_1(*p),
{
    extend_str(out, WEAPON_EDIT_PAGE_3);
    {
        let e = crate::auth::html_escape_attr(p.name.as_str());
        extend_str(out, e.as_str());
    }
    extend_str(out, WEAPON_EDIT_PAGE_4);
    extend_str(out, p.uid_label.as_str());
    extend_str(out, WEAPON_EDIT_PAGE_5);
    push_decimal(out, p.uid as u64);
    assert(final(out)@ =~= old(out)@ + weapon_edit_page_part_1(*p));
}

pub open spec fn weapon_edit_page_part_2(p: WeaponEditPage) -> Seq<char> {
    WEAPON_EDIT_PAGE_6@ + p.id_label@ + WEAPON_EDIT_PAGE_7@ + decimal(p.id as nat) + WEAPON_EDIT_PAGE_8@ + p.csrf@
}

fn push_weapon_edit_page_part_2(out: &mut Vec<char>, p: &WeaponEditPage)
    ensures
        final(out)@ == old(out)@ + weapon_edit_page_part_2(*p),
{
    extend_str(out, WEAPON_EDIT_PAGE_6);
    extend_str(out, p.id_label.as_str());
    extend_str(out, WEAPON_EDIT_PAGE_7);
    push_decimal(out, p.id as u64);
    extend_str(out, WEAPON_EDIT_PAGE_8);
    extend_str(out, p.csrf.as_str());
    assert(final(out)@ =~= old(out)@ + weapon_edit_page_part_2(*p));
}

pub open spec fn weapon_edit_page_part_3(p: WeaponEditPage) -> Seq<char> {
    WEAPON_EDIT_PAGE_9@ + p.level_label@ + WEAPON_EDIT_PAGE_10@ + decimal(p.level as nat) + WEAPON_EDIT_PAGE_11@ + (crate::pages::disabled_attr(p.online))
}

fn push_weapon_edit_page_part_3(out: &mut Vec<char>, p: &WeaponEditPage)
    ensures
        final(out)@ == old(out)@ + weapon_edit_page_part_3(*p),
{
    extend_str(out, WEAPON_EDIT_PAGE_9);
    extend_str(out, p.level_label.as_str());
    extend_str(out, WEAPON_EDIT_PAGE_10);
    push_decimal(out, p.level as u64);
    extend_str(out, WEAPON_EDIT_PAGE_11);
    {
        if !p.online {
            extend_str(out, "disabled");
        }
    }
    assert(final(out)@ =~= old(out)@ + weapon_edit_page_part_3(*p));
}

pub open spec fn weapon_edit_page_part_4(p: WeaponEditPage) -> Seq<char> {
    WEAPON_EDIT_PAGE_12@ + p.overclock_label@ + WEAPON_EDIT_PAGE_13@ + decimal(p.refine_level as nat) + WEAPON_EDIT_PAGE_14@ + (crate::pages::disabled_attr(p.online))
}

fn push_weapon_edit_page_part_4(out: &mut Vec<char>, p: &WeaponEditPage)
    ensures
        final(out)@ == old(out)@ + weapon_edit_page_part_4(*p),
{
    extend_str(out, WEAPON_EDIT_PAGE_12);
    extend_str(out, p.overclock_label.as_str());
    extend_str(out, WEAPON_EDIT_PAGE_13);
    push_decimal(out, p.refine_level as u64);
    extend_str(out, WEAPON_EDIT_PAGE_14);
    {
        if !p.online {
            extend_str(out, "disabled");
        }
    }
    assert(final(out)@ =~= old(out)@ + weapon_edit_page_part_4(*p));
}

pub open spec fn weapon_edit_page_part_5(p: WeaponEditPage) -> Seq<char> {
    WEAPON_EDIT_PAGE_15@ + p.back_label@ + WEAPON_EDIT_PAGE_16@ + (if p.online { "<button type=\"submit\">"@ + p.save_label@ + "</button>"@ } else { Seq::empty() }) + WEAPON_EDIT_PAGE_17@
}

fn push_weapon_edit_page_part_5(out: &mut Vec<char>, p: &WeaponEditPage)
    ensures
        final(out)@ == old(out)@ + weapon_edit_page_part_5(*p),
{
    extend_str(out, WEAPON_EDIT_PAGE_15);
    extend_str(out, p.back_label.as_str());
    extend_str(out, WEAPON_EDIT_PAGE_16);
    {
        if p.online {
            extend_str(out, "<button type=\"submit\">");
            extend_str(out, p.save_label.as_str());
            extend_str(out, "</button>");
        }
    }
    extend_str(out, WEAPON_EDIT_PAGE_17);
    assert(final(out)@ =~= old(out)@ + weapon_edit_page_part_5(*p));
}

/// The body of the W-Engine edit page: its picture, name, uid and id, its level and refinement; while the player is offline the inputs are disabled and there is no save button.
pub open spec fn spec_weapon_edit_page(p: WeaponEditPage) -> Seq<char> {
    weapon_edit_page_part_0(p) + weapon_edit_page_part_1(p) + weapon_edit_page_part_2(p) + weapon_edit_page_part_3(p) + weapon_edit_page_part_4(p) + weapon_edit_page_part_5(p)
}

pub fn render_weapon_edit_page(p: &WeaponEditPage) -> (r: String)
    ensures
        r@ == spec_weapon_edit_page(*p),
{
    let mut out: Vec<char> = Vec::new();
    push_weapon_edit_page_part_0(&mut out, p);
    push_weapon_edit_page_part_1(&mut out, p);
    push_weapon_edit_page_part_2(&mut out, p);
    push_weapon_edit_page_part_3(&mut out, p);
    push_weapon_edit_page_part_4(&mut out, p);
    push_weapon_edit_page_part_5(&mut out, p);
    assert(out@ =~= spec_weapon_edit_page(*p));
    string_of(&out)
}

pub const WEAPON_NEW_PAGE_0: &'static str = "        <h1>";

pub const WEAPON_NEW_PAGE_1: &'static str = "</h1>\n        <form method=\"get\" style=\"margin-bottom:12px;\">\n            <div style=\"display:flex; gap:8px; flex-wrap:wrap; align-items:end;\">\n                <div style=\"display:flex; flex-direction:column; gap:4px;\">\n                    <span style=\"font-size:11px; color:#9aa4b2;\">";

pub const WEAPON_NEW_PAGE_2: &'static str = "</span>\n                    <select name=\"class\" onchange=\"this.form.submit()\" style=\"width:auto; padding:5px 8px; border-radius:8px; border:1px solid #2a3140; background:#121620; color:#e6e6e6; font-size:12px;\">";

pub const WEAPON_NEW_PAGE_3: &'static str = "</select>\n                </div>\n                <div style=\"display:flex; flex-direction:column; gap:4px;\">\n                    <span style=\"font-size:11px; color:#9aa4b2;\">";

pub const WEAPON_NEW_PAGE_4: &'static str = "</span>\n                    <select name=\"rarity\" onchange=\"this.form.submit()\" style=\"width:auto; padding:5px 8px; border-radius:8px; border:1px solid #2a3140; background:#121620; color:#e6e6e6; font-size:12px;\">";

pub const WEAPON_NEW_PAGE_5: &'static str = "</select>\n                </div>\n            </div>\n        </form>\n        <form method=\"post\">\n            ";

pub const WEAPON_NEW_PAGE_6: &'static str = "\n            <div>\n                <img id=\"weapon_preview\" class=\"preview-img\" />\n                <label>";

pub const WEAPON_NEW_PAGE_7: &'static str = "</label>\n                <select name=\"weapon_id\" id=\"weapon_id\" required>\n                    ";

pub const WEAPON_NEW_PAGE_8: &'static str = "\n                </select>\n            </div>\n            <div class=\"row\">\n                <div>\n                    <label>";

pub const WEAPON_NEW_PAGE_9: &'static str = "</label>\n                    <input name=\"refine_level\" type=\"number\" min=\"1\" value=\"1\" />\n                </div>\n            </div>\n            <button type=\"submit\">";

pub const WEAPON_NEW_PAGE_10: &'static str = "</button>\n        </form>\n    <script>\n    var w = ";

pub const WEAPON_NEW_PAGE_11: &'static str = ";\n    var p = document.getElementById(\"weapon_preview\");\n    var s = document.getElementById(\"weapon_id\");\n    s.addEventListener(\"change\", function() {\n        var u = w[s.value];\n        if (u) { p.src = u; p.style.display = \"block\"; }\n        else { p.style.display = \"none\"; }\n    });\n    </script>";

/// What the new-W-Engine page shows.
pub struct WeaponNewPage {
    pub title: String,
    pub class_label: String,
    pub class_options: String,
    pub rarity_label: String,
    pub rarity_options: String,
    pub csrf: String,
    pub select_label: String,
    pub options: String,
    pub refine_label: String,
    pub create_label: String,
    pub images_json: String,
}

pub open spec fn weapon_new_page_part_0(p: WeaponNewPage) -> Seq<char> {
    WEAPON_NEW_PAGE_0@ + p.title@ + WEAPON_NEW_PAGE_1@ + p.class_label@ + WEAPON_NEW_PAGE_2@ + p.class_options@
}

fn push_weapon_new_page_part_0(out: &mut Vec<char>, p: &WeaponNewPage)
    ensures
        final(out)@ == old(out)@ + weapon_new_page_part_0(*p),
{
    extend_str(out, WEAPON_NEW_PAGE_0);
    extend_str(out, p.title.as_str());
    extend_str(out, WEAPON_NEW_PAGE_1);
    extend_str(out, p.class_label.as_str());
    extend_str(out, WEAPON_NEW_PAGE_2);
    extend_str(out, p.class_options.as_str());
    assert(final(out)@ =~= old(out)@ + weapon_new_page_part_0(*p));
}

pub open spec fn weapon_new_page_part_1(p: WeaponNewPage) -> Seq<char> {
    WEAPON_NEW_PAGE_3@ + p.rarity_label@ + WEAPON_NEW_PAGE_4@ + p.rarity_options@ + WEAPON_NEW_PAGE_5@ + p.csrf@
}

fn push_weapon_new_page_part_1(out: &mut Vec<char>, p: &WeaponNewPage)
    ensures
        final(out)@ == old(out)@ + weapon_new_page_part_1(*p),
{
    extend_str(out, WEAPON_NEW_PAGE_3);
    extend_str(out, p.rarity_label.as_str());
    extend_str(out, WEAPON_NEW_PAGE_4);
    extend_str(out, p.rarity_options.as_str());
    extend_str(out, WEAPON_NEW_PAGE_5);
    extend_str(out, p.csrf.as_str());
    assert(final(out)@ =~= old(out)@ + weapon_new_page_part_1(*p));
}

pub open spec fn weapon_new_page_part_2(p: WeaponNewPage) -> Seq<char> {
    WEAPON_NEW_PAGE_6@ + p.select_label@ + WEAPON_NEW_PAGE_7@ + p.options@ + WEAPON_NEW_PAGE_8@ + p.refine_label@
}

fn push_weapon_new_page_part_2(out: &mut Vec<char>, p: &WeaponNewPage)
    ensures
        final(out)@ == old(out)@ + weapon_new_page_part_2(*p),
{
    extend_str(out, WEAPON_NEW_PAGE_6);
    extend_str(out, p.select_label.as_str());
    extend_str(out, WEAPON_NEW_PAGE_7);
    extend_str(out, p.options.as_str());
    extend_str(out, WEAPON_NEW_PAGE_8);
    extend_str(out, p.refine_label.as_str());
    assert(final(out)@ =~= old(out)@ + weapon_new_page_part_2(*p));
}

pub open spec fn weapon_new_page_part_3(p: WeaponNewPage) -> Seq<char> {
    WEAPON_NEW_PAGE_9@ + p.create_label@ + WEAPON_NEW_PAGE_10@ + p.images_json@ + WEAPON_NEW_PAGE_11@
}

fn push_weapon_new_page_part_3(out: &mut Vec<char>, p: &WeaponNewPage)
    ensures
        final(out)@ == old(out)@ + weapon_new_page_part_3(*p),
{
    extend_str(out, WEAPON_NEW_PAGE_9);
    extend_str(out, p.create_label.as_str());
    extend_str(out, WEAPON_NEW_PAGE_10);
    extend_str(out, p.images_json.as_str());
    extend_str(out, WEAPON_NEW_PAGE_11);
    assert(final(out)@ =~= old(out)@ + weapon_new_page_part_3(*p));
}

/// The body of the new-W-Engine page: the class and rarity filter, and the pick list with a preview of the W-Engine's picture.
pub open spec fn spec_weapon_new_page(p: WeaponNewPage) -> Seq<char> {
    weapon_new_page_part_0(p) + weapon_new_page_part_1(p) + weapon_new_page_part_2(p) + weapon_new_page_part_3(p)
}

pub fn render_weapon_new_page(p: &WeaponNewPage) -> (r: String)
    ensures
        r@ == spec_weapon_new_page(*p),
{
    let mut out: Vec<char> = Vec::new();
    push_weapon_new_page_part_0(&mut out, p);
    push_weapon_new_page_part_1(&mut out, p);
    push_weapon_new_page_part_2(&mut out, p);
    push_weapon_new_page_part_3(&mut out, p);
    assert(out@ =~= spec_weapon_new_page(*p));
    string_of(&out)
}

pub const BANGBOO_EDIT_PAGE_0: &'static str = "<!doctype html>\n<html lang=\"";

pub const BANGBOO_EDIT_PAGE_1: &'static str = "\">\n<head>\n    <meta charset=\"utf-8\" />\n    <meta name=\"viewport\" content=\"width=device-width, initial-scale=1\" />\n    <title>";

pub const BANGBOO_EDIT_PAGE_2: &'static str = "</title>\n    <style>";

pub const BANGBOO_EDIT_PAGE_3: &'static str = "</style>\n</head>\n<body>\n    <div class=\"container\">\n        <div class=\"hero\">\n            <img src=\"";

pub const BANGBOO_EDIT_PAGE_4: &'static str = "\" alt=\"";

pub const BANGBOO_EDIT_PAGE_5: &'static str = "\" />\n            <div>\n                <h1>";

pub const BANGBOO_EDIT_PAGE_6: &'static str = " ";

pub const BANGBOO_EDIT_PAGE_7: &'static str = "</h1>\n                <div class=\"meta\">";

pub const BANGBOO_EDIT_PAGE_8: &'static str = " ";

pub const BANGBOO_EDIT_PAGE_9: &'static str = "</div>\n            </div>\n        </div>\n        <form method=\"post\">\n            <div class=\"row\">\n                <div>\n                    <label>";

pub const BANGBOO_EDIT_PAGE_10: &'static str = "</label>\n                    <input name=\"level\" type=\"number\" min=\"1\" value=\"";

pub const BANGBOO_EDIT_PAGE_11: &'static str = "\" />\n                </div>\n                <div>\n                    <label>";

pub const BANGBOO_EDIT_PAGE_12: &'static str = "</label>\n                    <input name=\"rank\" type=\"number\" min=\"0\" value=\"";

pub const BANGBOO_EDIT_PAGE_13: &'static str = "\" />\n                </div>\n                <div>\n                    <label>";

pub const BANGBOO_EDIT_PAGE_14: &'static str = "</label>\n                    <input name=\"star\" type=\"number\" min=\"0\" max=\"5\" value=\"";

pub const BANGBOO_EDIT_PAGE_15: &'static str = "\" />\n                </div>\n            </div>\n\n            <h3>";

pub const BANGBOO_EDIT_PAGE_16: &'static str = "</h3>\n            <div class=\"row\">\n                ";

pub const BANGBOO_EDIT_PAGE_17: &'static str = "\n            </div>\n\n            <div class=\"form-actions\">\n                <a href=\"/dashboard?tab=bangboos\" class=\"back\">";

pub const BANGBOO_EDIT_PAGE_18: &'static str = "</a>\n                <button type=\"submit\">";

pub const BANGBOO_EDIT_PAGE_19: &'static str = "</button>\n            </div>\n        </form>\n    </div>\n</body>\n</html>";

/// What the Bangboo edit page shows.
pub struct BangbooEditPage {
    pub lang: String,
    pub title: String,
    pub img: String,
    pub name: String,
    pub uid_label: String,
    pub id: u32,
    pub level_label: String,
    pub level: u32,
    pub rank_label: String,
    pub rank: u32,
    pub star_label: String,
    pub star: u32,
    pub skill_label: String,
    pub skills: String,
    pub back_label: String,
    pub save_label: String,
}

pub open spec fn bangboo_edit_page_part_0(p: BangbooEditPage) -> Seq<char> {
    BANGBOO_EDIT_PAGE_0@ + p.lang@ + BANGBOO_EDIT_PAGE_1@ + p.title@ + BANGBOO_EDIT_PAGE_2@ + crate::utils::SHARED_PAGE_CSS@
}

fn push_bangboo_edit_page_part_0(out: &mut Vec<char>, p: &BangbooEditPage)
    ensures
        final(out)@ == old(out)@ + bangboo_edit_page_part_0(*p),
{
    extend_str(out, BANGBOO_EDIT_PAGE_0);
    extend_str(out, p.lang.as_str());
    extend_str(out, BANGBOO_EDIT_PAGE_1);
    extend_str(out, p.title.as_str());
    extend_str(out, BANGBOO_EDIT_PAGE_2);
    extend_str(out, crate::utils::SHARED_PAGE_CSS);
    assert(final(out)@ =~= old(out)@ + bangboo_edit_page_part_0(*p));
}

pub open spec fn bangboo_edit_page_part_1(p: BangbooEditPage) -> Seq<char> {
    BANGBOO_EDIT_PAGE_3@ + crate::auth::spec_html_escape_attr(p.img@) + BANGBOO_EDIT_PAGE_4@ + crate::auth::spec_html_escape_attr(p.name@) + BANGBOO_EDIT_PAGE_5@ + p.title@
}

fn push_bangboo_edit_page_part_1(out: &mut Vec<char>, p: &BangbooEditPage)
    ensures
        final(out)@ == old(out)@ + bangboo_edit_page_part_1(*p),
{
    extend_str(out, BANGBOO_EDIT_PAGE_3);
    {
        let e = crate::auth::html_escape_attr(p.img.as_str());
        extend_str(out, e.as_str());
    }
    extend_str(out, BANGBOO_EDIT_PAGE_4);
    {
        let e = crate::auth::html_escape_attr(p.name.as_str());
        extend_str(out, e.as_str());
    }
    extend_str(out, BANGBOO_EDIT_PAGE_5);
    extend_str(out, p.title.as_str());
    assert(final(out)@ =~= old(out)@ + bangboo_edit_page_part_1(*p));
}

pub open spec fn bangboo_edit_page_part_2(p: BangbooEditPage) -> Seq<char> {
    BANGBOO_EDIT_PAGE_6@ + crate::auth::spec_html_escape_attr(p.name@) + BANGBOO_EDIT_PAGE_7@ + p.uid_label@ + BANGBOO_EDIT_PAGE_8@ + decimal(p.id as nat)
}

fn push_bangboo_edit_page_part_2(out: &mut Vec<char>, p: &BangbooEditPage)
    ensures
        final(out)@ == old(out)@ + bangboo_edit_page_part_2(*p),
{
    extend_str(out, BANGBOO_EDIT_PAGE_6);
    {
        let e = crate::auth::html_escape_attr(p.name.as_str());
        extend_str(out, e.as_str());
    }
    extend_str(out, BANGBOO_EDIT_PAGE_7);
    extend_str(out, p.uid_label.as_str());
    extend_str(out, BANGBOO_EDIT_PAGE_8);
    push_decimal(out, p.id as u64);
    assert(final(out)@ =~= old(out)@ + bangboo_edit_page_part_2(*p));
}

pub open spec fn bangboo_edit_page_part_3(p: BangbooEditPage) -> Seq<char> {
    BANGBOO_EDIT_PAGE_9@ + p.level_label@ + BANGBOO_EDIT_PAGE_10@ + decimal(p.level as nat) + BANGBOO_EDIT_PAGE_11@ + p.rank_label@
}

fn push_bangboo_edit_page_part_3(out: &mut Vec<char>, p: &BangbooEditPage)
    ensures
        final(out)@ == old(out)@ + bangboo_edit_page_part_3(*p),
{
    extend_str(out, BANGBOO_EDIT_PAGE_9);
    extend_str(out, p.level_label.as_str());
    extend_str(out, BANGBOO_EDIT_PAGE_10);
    push_decimal(out, p.level as u64);
    extend_str(out, BANGBOO_EDIT_PAGE_11);
    extend_str(out, p.rank_label.as_str());
    assert(final(out)@ =~= old(out)@ + bangboo_edit_page_part_3(*p));
}

pub open spec fn bangboo_edit_page_part_4(p: BangbooEditPage) -> Seq<char> {
    BANGBOO_EDIT_PAGE_12@ + decimal(p.rank as nat) + BANGBOO_EDIT_PAGE_13@ + p.star_label@ + BANGBOO_EDIT_PAGE_14@ + decimal(p.star as nat)
}

fn push_bangboo_edit_page_part_4(out: &mut Vec<char>, p: &BangbooEditPage)
    ensures
        final(out)@ == old(out)@ + bangboo_edit_page_part_4(*p),
{
    extend_str(out, BANGBOO_EDIT_PAGE_12);
    push_decimal(out, p.rank as u64);
    extend_str(out, BANGBOO_EDIT_PAGE_13);
    extend_str(out, p.star_label.as_str());
    extend_str(out, BANGBOO_EDIT_PAGE_14);
    push_decimal(out, p.star as u64);
    assert(final(out)@ =~= old(out)@ + bangboo_edit_page_part_4(*p));
}

pub open spec fn bangboo_edit_page_part_5(p: BangbooEditPage) -> Seq<char> {
    BANGBOO_EDIT_PAGE_15@ + p.skill_label@ + BANGBOO_EDIT_PAGE_16@ + p.skills@ + BANGBOO_EDIT_PAGE_17@ + p.back_label@
}

fn push_bangboo_edit_page_part_5(out: &mut Vec<char>, p: &BangbooEditPage)
    ensures
        final(out)@ == old(out)@ + bangboo_edit_page_part_5(*p),
{
    extend_str(out, BANGBOO_EDIT_PAGE_15);
    extend_str(out, p.skill_label.as_str());
    extend_str(out, BANGBOO_EDIT_PAGE_16);
    extend_str(out, p.skills.as_str());
    extend_str(out, BANGBOO_EDIT_PAGE_17);
    extend_str(out, p.back_label.as_str());
    assert(final(out)@ =~= old(out)@ + bangboo_edit_page_part_5(*p));
}

pub open spec fn bangboo_edit_page_part_6(p: BangbooEditPage) -> Seq<char> {
    BANGBOO_EDIT_PAGE_18@ + p.save_label@ + BANGBOO_EDIT_PAGE_19@
}

fn push_bangboo_edit_page_part_6(out: &mut Vec<char>, p: &BangbooEditPage)
    ensures
        final(out)@ == old(out)@ + bangboo_edit_page_part_6(*p),
{
    extend_str(out, BANGBOO_EDIT_PAGE_18);
    extend_str(out, p.save_label.as_str());
    extend_str(out, BANGBOO_EDIT_PAGE_19);
    assert(final(out)@ =~= old(out)@ + bangboo_edit_page_part_6(*p));
}

/// The Bangboo edit page: its picture, name and id, its level, rank, stars and skills.
pub open spec fn spec_bangboo_edit_page(p: BangbooEditPage) -> Seq<char> {
    bangboo_edit_page_part_0(p) + bangboo_edit_page_part_1(p) + bangboo_edit_page_part_2(p) + bangboo_edit_page_part_3(p) + bangboo_edit_page_part_4(p) + bangboo_edit_page_part_5(p) + bangboo_edit_page_part_6(p)
}

pub fn render_bangboo_edit_page(p: &BangbooEditPage) -> (r: String)
    ensures
        r@ == spec_bangboo_edit_page(*p),
{
    let mut out: Vec<char> = Vec::new();
    push_bangboo_edit_page_part_0(&mut out, p);
    push_bangboo_edit_page_part_1(&mut out, p);
    push_bangboo_edit_page_part_2(&mut out, p);
    push_bangboo_edit_page_part_3(&mut out, p);
    push_bangboo_edit_page_part_4(&mut out, p);
    push_bangboo_edit_page_part_5(&mut out, p);
    push_bangboo_edit_page_part_6(&mut out, p);
    assert(out@ =~= spec_bangboo_edit_page(*p));
    string_of(&out)
}

pub const DISC_GENERATE_PAGE_0: &'static str = "<!doctype html>\n<html lang=\"";

pub const DISC_GENERATE_PAGE_1: &'static str = "\">\n<head>\n    <meta charset=\"utf-8\" />\n    <meta name=\"viewport\" content=\"width=device-width, initial-scale=1\" />\n    <title>";

pub const DISC_GENERATE_PAGE_2: &'static str = "</title>\n    <style>";

pub const DISC_GENERATE_PAGE_3: &'static str = "</style>\n</head>\n<body>\n    <div class=\"container\">\n        <h1>";

pub const DISC_GENERATE_PAGE_4: &'static str = "</h1>\n        <div class=\"meta\">";

pub const DISC_GENERATE_PAGE_5: &'static str = "</div>\n        <form method=\"post\">\n            <div>\n                <img id=\"disc_preview\" class=\"preview-img\" />\n                <label>";

pub const DISC_GENERATE_PAGE_6: &'static str = "</label>\n                <select name=\"equip_set_id\" id=\"equip_set_id\" required>\n                    ";

pub const DISC_GENERATE_PAGE_7: &'static str = "\n                </select>\n            </div>\n            <div class=\"row\">\n                <div>\n                    <label>";

pub const DISC_GENERATE_PAGE_8: &'static str = "</label>\n                    <select name=\"slot\">\n                        ";

pub const DISC_GENERATE_PAGE_9: &'static str = "\n                    </select>\n                </div>\n                <div>\n                    <label>";

pub const DISC_GENERATE_PAGE_10: &'static str = "</label>\n                    <input name=\"count\" type=\"number\" min=\"1\" max=\"200\" value=\"10\" required />\n                </div>\n            </div>\n            <button>";

pub const DISC_GENERATE_PAGE_11: &'static str = "</button>\n        </form>\n    </div>\n    <script>\n    var d = ";

pub const DISC_GENERATE_PAGE_12: &'static str = ";\n    var p = document.getElementById(\"disc_preview\");\n    var s = document.getElementById(\"equip_set_id\");\n    s.addEventListener(\"change\", function() {\n        var u = d[s.value];\n        if (u) { p.src = u; p.style.display = \"block\"; }\n        else { p.style.display = \"none\"; }\n    });\n    </script>\n</body>\n</html>";

/// What the disc generator page shows.
pub struct DiscGeneratePage {
    pub lang: String,
    pub title: String,
    pub description: String,
    pub set_label: String,
    pub set_options: String,
    pub slot_label: String,
    pub slot_options: String,
    pub count_label: String,
    pub generate_label: String,
    pub images_json: String,
}

pub open spec fn disc_generate_page_part_0(p: DiscGeneratePage) -> Seq<char> {
    DISC_GENERATE_PAGE_0@ + p.lang@ + DISC_GENERATE_PAGE_1@ + p.title@ + DISC_GENERATE_PAGE_2@ + crate::utils::SHARED_PAGE_CSS@
}

fn push_disc_generate_page_part_0(out: &mut Vec<char>, p: &DiscGeneratePage)
    ensures
        final(out)@ == old(out)@ + disc_generate_page_part_0(*p),
{
    extend_str(out, DISC_GENERATE_PAGE_0);
    extend_str(out, p.lang.as_str());
    extend_str(out, DISC_GENERATE_PAGE_1);
    extend_str(out, p.title.as_str());
    extend_str(out, DISC_GENERATE_PAGE_2);
    extend_str(out, crate::utils::SHARED_PAGE_CSS);
    assert(final(out)@ =~= old(out)@ + disc_generate_page_part_0(*p));
}

pub open spec fn disc_generate_page_part_1(p: DiscGeneratePage) -> Seq<char> {
    DISC_GENERATE_PAGE_3@ + p.title@ + DISC_GENERATE_PAGE_4@ + p.description@ + DISC_GENERATE_PAGE_5@ + p.set_label@
}

fn push_disc_generate_page_part_1(out: &mut Vec<char>, p: &DiscGeneratePage)
    ensures
        final(out)@ == old(out)@ + disc_generate_page_part_1(*p),
{
    extend_str(out, DISC_GENERATE_PAGE_3);
    extend_str(out, p.title.as_str());
    extend_str(out, DISC_GENERATE_PAGE_4);
    extend_str(out, p.description.as_str());
    extend_str(out, DISC_GENERATE_PAGE_5);
    extend_str(out, p.set_label.as_str());
    assert(final(out)@ =~= old(out)@ + disc_generate_page_part_1(*p));
}

pub open spec fn disc_generate_page_part_2(p: DiscGeneratePage) -> Seq<char> {
    DISC_GENERATE_PAGE_6@ + p.set_options@ + DISC_GENERATE_PAGE_7@ + p.slot_label@ + DISC_GENERATE_PAGE_8@ + p.slot_options@
}

fn push_disc_generate_page_part_2(out: &mut Vec<char>, p: &DiscGeneratePage)
    ensures
        final(out)@ == old(out)@ + disc_generate_page_part_2(*p),
{
    extend_str(out, DISC_GENERATE_PAGE_6);
    extend_str(out, p.set_options.as_str());
    extend_str(out, DISC_GENERATE_PAGE_7);
    extend_str(out, p.slot_label.as_str());
    extend_str(out, DISC_GENERATE_PAGE_8);
    extend_str(out, p.slot_options.as_str());
    assert(final(out)@ =~= old(out)@ + disc_generate_page_part_2(*p));
}

pub open spec fn disc_generate_page_part_3(p: DiscGeneratePage) -> Seq<char> {
    DISC_GENERATE_PAGE_9@ + p.count_label@ + DISC_GENERATE_PAGE_10@ + p.generate_label@ + DISC_GENERATE_PAGE_11@ + p.images_json@
}

fn push_disc_generate_page_part_3(out: &mut Vec<char>, p: &DiscGeneratePage)
    ensures
        final(out)@ == old(out)@ + disc_generate_page_part_3(*p),
{
    extend_str(out, DISC_GENERATE_PAGE_9);
    extend_str(out, p.count_label.as_str());
    extend_str(out, DISC_GENERATE_PAGE_10);
    extend_str(out, p.generate_label.as_str());
    extend_str(out, DISC_GENERATE_PAGE_11);
    extend_str(out, p.images_json.as_str());
    assert(final(out)@ =~= old(out)@ + disc_generate_page_part_3(*p));
}

pub open spec fn disc_generate_page_part_4(p: DiscGeneratePage) -> Seq<char> {
    DISC_GENERATE_PAGE_12@
}

fn push_disc_generate_page_part_4(out: &mut Vec<char>, p: &DiscGeneratePage)
    ensures
        final(out)@ == old(out)@ + disc_generate_page_part_4(*p),
{
    extend_str(out, DISC_GENERATE_PAGE_12);
    assert(final(out)@ =~= old(out)@ + disc_generate_page_part_4(*p));
}

/// The disc generator page: the set pick list with a preview of the set's picture, the slot (any where none is chosen) and how many discs to make.
pub open spec fn spec_disc_generate_page(p: DiscGeneratePage) -> Seq<char> {
    disc_generate_page_part_0(p) + disc_generate_page_part_1(p) + disc_generate_page_part_2(p) + disc_generate_page_part_3(p) + disc_generate_page_part_4(p)
}

pub fn render_disc_generate_page(p: &DiscGeneratePage) -> (r: String)
    ensures
        r@ == spec_disc_generate_page(*p),
{
    let mut out: Vec<char> = Vec::new();
    push_disc_generate_page_part_0(&mut out, p);
    push_disc_generate_page_part_1(&mut out, p);
    push_disc_generate_page_part_2(&mut out, p);
    push_disc_generate_page_part_3(&mut out, p);
    push_disc_generate_page_part_4(&mut out, p);
    assert(out@ =~= spec_disc_generate_page(*p));
    string_of(&out)
}

pub const DASHBOARD_PAGE_0: &'static str = "<!doctype html>\n<html lang=\"";

pub const DASHBOARD_PAGE_1: &'static str = "\">\n<head>\n  <meta charset=\"utf-8\" />\n  <meta name=\"viewport\" content=\"width=device-width, initial-scale=1\" />\n  <title>Gear Editor";

pub const DASHBOARD_PAGE_2: &'static str = "</title>\n  <style>\n      body { font-family: system-ui, sans-serif; margin: 0; background: #0f1115; color: #e6e6e6; overflow-x: hidden; }\n      header { padding: 16px 24px; display: flex; justify-content: space-between; align-items: center; gap: 12px; background: #151a24; position: sticky; top: 0; z-index: 20; }\n        .menu-button { display: none; width: 44px; height: 44px; padding: 0; border: 0; border-radius: 10px; background: #2a3140; color: #fff; align-items: center; justify-content: center; cursor: pointer; }\n        .menu-button span { display: block; width: 18px; height: 2px; background: #fff; position: relative; }\n        .menu-button span::before, .menu-button span::after { content: \"\"; position: absolute; left: 0; width: 18px; height: 2px; background: #fff; }\n        .menu-button span::before { top: -6px; }\n        .menu-button span::after { top: 6px; }\n        .tabs { display: flex; flex-wrap: wrap; gap: 8px; min-width: 0; }\n        .tabs a { margin-right: 0; padding: 8px 12px; border-radius: 8px; text-decoration: none; color: #c7d1e0; background: #1b2230; white-space: nowrap; }\n    .tabs a.active { background: #4c7dff; color: #fff; }\n    .tabs a.mode { background: #2a3140; color: #c7d1e0; }\n        .container { padding: 20px 24px 40px; }\n    .cards { display: grid; grid-template-columns: repeat(auto-fill, minmax(220px, 1fr)); gap: 14px; }\n    .card { background: #1b1f2a; padding: 14px; border-radius: 12px; text-decoration: none; color: #e6e6e6; border: 1px solid #232a38; }\n    .card h3 { margin: 6px 0 8px; font-size: 16px; }\n    .thumb { display: block; width: 100%; height: 160px; object-fit: cover; object-position: top; border-radius: 8px; background: #0f1115; border: 1px solid #2a3140; }\n    .cards .card .thumb + .pill { margin-top: 8px; }\n\n    .meta { color: #9aa4b2; font-size: 12px; }\n        .panel { background: #1b1f2a; padding: 14px; border-radius: 12px; border: 1px solid #232a38; margin-bottom: 16px; display: flex; align-items: center; justify-content: space-between; gap: 12px; }\n        .panel h3 { margin: 0; font-size: 14px; }\n        .panel a { display: inline-flex; align-items: center; justify-content: center; margin-top: 16px; padding: 10px 14px; border-radius: 8px; background: #4c7dff; color: #fff; font-weight: 600; text-decoration: none; box-sizing: border-box; }\n        .panel form { width: 100%; }\n        .panel label { display: block; margin: 12px 0 6px; font-size: 12px; color: #9aa4b2; }\n        .panel input, .panel select { width: 100%; box-sizing: border-box; padding: 8px; border-radius: 8px; border: 1px solid #2a3140; background: #121620; color: #e6e6e6; }\n        .panel button { margin-top: 16px; padding: 10px 14px; border: 0; border-radius: 8px; background: #4c7dff; color: #fff; font-weight: 600; cursor: pointer; font-family: inherit; font-size: inherit; }\n        .panel div button, .panel div form button, .panel div a { margin-top: 0; }\n        .row { display: grid; grid-template-columns: repeat(2, minmax(0, 1fr)); gap: 12px; }\n        .row > * { min-width: 0; }\n    .apply { background: #22c55e; color: #0b1220; border: 0; padding: 8px 14px; border-radius: 8px; font-weight: 600; cursor: pointer; }\n    .pill { display: inline-block; padding: 4px 8px; background: #2a3140; border-radius: 999px; font-size: 12px; color: #9aa4b2; }\n        .danger { background: #ef4444; color: #fff; border: 0; padding: 8px 14px; border-radius: 8px; font-weight: 600; cursor: pointer; }\n        .select-card { cursor: pointer; position: relative; }\n        .select-card input[type=\"checkbox\"] { position: absolute; opacity: 0; pointer-events: none; }\n        .select-card.locked { opacity: 0.5; cursor: not-allowed; }\n        .select-card .selection-outline { display: none; position: absolute; inset: -1px; border-radius: inherit; pointer-events: none; }\n        .delete-form .select-card .selection-outline { border: 2px solid #ef4444; box-shadow: inset 0 0 0 1px rgba(239, 68, 68, 0.18); }\n        .lock-form .select-card .selection-outline { border: 2px solid #22c55e; box-shadow: inset 0 0 0 1px rgba(34, 197, 94, 0.18); }\n        .delete-form .select-card input:checked ~ .selection-outline { display: block; }\n        .lock-form .select-card input:checked ~ .selection-outline { display: block; }\n        .delete-form .select-card:has(input:checked) { border-color: #ef4444; }\n        .lock-form .select-card:has(input:checked) { border-color: #22c55e; }\n        .mobile-overlay { display: none; }\n        .mobile-drawer { display: none; }\n    @media (max-width: 768px) {\n        header { padding: 12px 14px; }\n        .lang-select { display: none; }\n        .menu-button { display: inline-flex; flex: 0 0 auto; }\n        .desktop-tabs { display: none; }\n        .desktop-logout { display: none; }\n        .container { padding: 14px; }\n        .cards { grid-template-columns: 1fr; }\n        .row { grid-template-columns: 1fr; }\n        .panel { flex-direction: column; align-items: stretch; }\n        .panel a, .panel button { width: 100%; max-width: 100%; box-sizing: border-box; }\n        .card { padding: 12px; min-width: 0; }\n        .meta { word-break: break-word; }\n        .mobile-overlay { display: none; position: fixed; inset: 0; z-index: 30; background: rgba(0, 0, 0, 0.45); }\n        .mobile-overlay.open { display: block; }\n        .mobile-drawer { display: block; position: fixed; top: 0; left: 0; bottom: 0; width: min(82vw, 320px); background: #151a24; border-right: 1px solid #232a38; padding: 16px; box-sizing: border-box; overflow-y: auto; transform: translateX(-100%); transition: transform 0.2s ease; z-index: 31; }\n        .mobile-drawer.open { transform: translateX(0); }\n        .mobile-drawer.tabs { display: flex; flex-direction: column; align-items: stretch; justify-content: flex-start; gap: 8px; }\n        .mobile-drawer.tabs a { display: block; width: 100%; box-sizing: border-box; white-space: normal; line-height: 1.25; }\n        .mobile-drawer select { width: 100%; }\n    }\n  </style>\n</head>\n<body>\n<header>\n    <button class=\"menu-button\" type=\"button\" aria-label=\"Open navigation\" onclick=\"document.querySelector('.mobile-overlay').classList.add('open'); document.querySelector('.mobile-drawer').classList.add('open');\">\n        <span></span>\n    </button>\n    <div class=\"desktop-tabs tabs\">\n        <a class=\"";

pub const DASHBOARD_PAGE_3: &'static str = "\" href=\"/dashboard?tab=avatars\">";

pub const DASHBOARD_PAGE_4: &'static str = "</a>\n        <a class=\"";

pub const DASHBOARD_PAGE_5: &'static str = "\" href=\"/dashboard?tab=weapons\">";

pub const DASHBOARD_PAGE_6: &'static str = "</a>\n        <a class=\"";

pub const DASHBOARD_PAGE_7: &'static str = "\" href=\"/dashboard?tab=discs\">";

pub const DASHBOARD_PAGE_8: &'static str = "</a>\n        <a class=\"";

pub const DASHBOARD_PAGE_9: &'static str = "\" href=\"/dashboard?tab=bangboos\">";

pub const DASHBOARD_PAGE_10: &'static str = "</a>\n        <a class=\"";

pub const DASHBOARD_PAGE_11: &'static str = "\" href=\"/dashboard?tab=updates\">";

pub const DASHBOARD_PAGE_12: &'static str = "</a>\n        <a class=\"";

pub const DASHBOARD_PAGE_13: &'static str = "\" href=\"/dashboard?tab=status\">";

pub const DASHBOARD_PAGE_14: &'static str = "</a>\n    </div>\n    <div class=\"desktop-actions\" style=\"display:flex; align-items:center; gap:10px;\">\n        <div class=\"meta\">";

pub const DASHBOARD_PAGE_15: &'static str = " ";

pub const DASHBOARD_PAGE_16: &'static str = "</div>\n        <div class=\"lang-select\">";

pub const DASHBOARD_PAGE_17: &'static str = "</div>\n        <a href=\"/logout\" class=\"desktop-logout\" style=\"padding:6px 10px; border-radius:8px; background:#2a3140; color:#c7d1e0; text-decoration:none; font-size:12px; font-weight:600;\">";

pub const DASHBOARD_PAGE_18: &'static str = "</a>\n        <form method=\"post\" action=\"/apply\" style=\"margin:0;\">\n            <input type=\"hidden\" name=\"session\" value=\"";

pub const DASHBOARD_PAGE_19: &'static str = "\" />\n            <button class=\"apply\" type=\"submit\">";

pub const DASHBOARD_PAGE_20: &'static str = " (";

pub const DASHBOARD_PAGE_21: &'static str = ")</button>\n        </form>\n    </div>\n</header>\n<div class=\"mobile-overlay\" onclick=\"this.classList.remove('open'); document.querySelector('.mobile-drawer').classList.remove('open');\"></div>\n<aside class=\"mobile-drawer tabs\" aria-hidden=\"true\">\n    <a class=\"";

pub const DASHBOARD_PAGE_22: &'static str = "\" href=\"/dashboard?tab=avatars\">";

pub const DASHBOARD_PAGE_23: &'static str = "</a>\n    <a class=\"";

pub const DASHBOARD_PAGE_24: &'static str = "\" href=\"/dashboard?tab=weapons\">";

pub const DASHBOARD_PAGE_25: &'static str = "</a>\n    <a class=\"";

pub const DASHBOARD_PAGE_26: &'static str = "\" href=\"/dashboard?tab=discs\">";

pub const DASHBOARD_PAGE_27: &'static str = "</a>\n    <a class=\"";

pub const DASHBOARD_PAGE_28: &'static str = "\" href=\"/dashboard?tab=bangboos\">";

pub const DASHBOARD_PAGE_29: &'static str = "</a>\n    <a class=\"";

pub const DASHBOARD_PAGE_30: &'static str = "\" href=\"/dashboard?tab=updates\">";

pub const DASHBOARD_PAGE_31: &'static str = "</a>\n    <a class=\"";

pub const DASHBOARD_PAGE_32: &'static str = "\" href=\"/dashboard?tab=status\">";

pub const DASHBOARD_PAGE_33: &'static str = "</a>\n    <div style=\"margin-top:16px; padding-top:12px; border-top:1px solid #2a3140; display:flex; flex-direction:column; gap:10px; width:100%; box-sizing:border-box;\">\n        <div class=\"meta\">";

pub const DASHBOARD_PAGE_34: &'static str = " ";

pub const DASHBOARD_PAGE_35: &'static str = "</div>\n        ";

pub const DASHBOARD_PAGE_36: &'static str = "\n        <a href=\"/logout\" style=\"text-align:center; padding:6px 10px; border-radius:8px; background:#2a3140; color:#c7d1e0; text-decoration:none; font-size:12px; font-weight:600;\">";

pub const DASHBOARD_PAGE_37: &'static str = "</a>\n    </div>\n</aside>\n<main class=\"content\">\n<div class=\"container\">\n  ";

pub const DASHBOARD_PAGE_38: &'static str = "\n</div>\n</main>\n</body>\n</html>";

/// What the dashboard shows.
pub struct DashboardPage {
    pub lang: String,
    /// The server version, empty where unknown.
    pub version: String,
    pub tab: crate::dashboard::DashboardTab,
    pub nav_characters: String,
    pub nav_weapons: String,
    pub nav_discs: String,
    pub nav_bangboos: String,
    pub nav_client_updates: String,
    pub nav_status: String,
    pub signed_in_as: String,
    pub username: String,
    pub lang_selector: String,
    pub logout_label: String,
    /// The session id the apply form sends.
    pub session_id: String,
    pub apply_changes: String,
    pub pending_count: usize,
    /// The open tab's content.
    pub content: String,
}

pub open spec fn dashboard_page_part_0(p: DashboardPage) -> Seq<char> {
    DASHBOARD_PAGE_0@ + p.lang@ + DASHBOARD_PAGE_1@ + (crate::dashboard::spec_title_suffix(p.version@)) + DASHBOARD_PAGE_2@ + (if p.tab == crate::dashboard::DashboardTab::Avatars { "active"@ } else { ""@ }) + DASHBOARD_PAGE_3@ + p.nav_characters@
}

fn push_dashboard_page_part_0(out: &mut Vec<char>, p: &DashboardPage)
    ensures
        final(out)@ == old(out)@ + dashboard_page_part_0(*p),
{
    extend_str(out, DASHBOARD_PAGE_0);
    extend_str(out, p.lang.as_str());
    extend_str(out, DASHBOARD_PAGE_1);
    {
        let t = crate::dashboard::title_suffix(p.version.as_str());
        extend_str(out, t.as_str());
    }
    extend_str(out, DASHBOARD_PAGE_2);
    {
        if p.tab == crate::dashboard::DashboardTab::Avatars {
            extend_str(out, "active");
        } else {
            extend_str(out, "");
        }
    }
    extend_str(out, DASHBOARD_PAGE_3);
    extend_str(out, p.nav_characters.as_str());
    assert(final(out)@ =~= old(out)@ + dashboard_page_part_0(*p));
}

pub open spec fn dashboard_page_part_1(p: DashboardPage) -> Seq<char> {
    DASHBOARD_PAGE_4@ + (if p.tab == crate::dashboard::DashboardTab::Weapons { "active"@ } else { ""@ }) + DASHBOARD_PAGE_5@ + p.nav_weapons@ + DASHBOARD_PAGE_6@ + (if p.tab == crate::dashboard::DashboardTab::Discs { "active"@ } else { ""@ }) + DASHBOARD_PAGE_7@ + p.nav_discs@
}

fn push_dashboard_page_part_1(out: &mut Vec<char>, p: &DashboardPage)
    ensures
        final(out)@ == old(out)@ + dashboard_page_part_1(*p),
{
    extend_str(out, DASHBOARD_PAGE_4);
    {
        if p.tab == crate::dashboard::DashboardTab::Weapons {
            extend_str(out, "active");
        } else {
            extend_str(out, "");
        }
    }
    extend_str(out, DASHBOARD_PAGE_5);
    extend_str(out, p.nav_weapons.as_str());
    extend_str(out, DASHBOARD_PAGE_6);
    {
        if p.tab == crate::dashboard::DashboardTab::Discs {
            extend_str(out, "active");
        } else {
            extend_str(out, "");
        }
    }
    extend_str(out, DASHBOARD_PAGE_7);
    extend_str(out, p.nav_discs.as_str());
    assert(final(out)@ =~= old(out)@ + dashboard_page_part_1(*p));
}

pub open spec fn dashboard_page_part_2(p: DashboardPage) -> Seq<char> {
    DASHBOARD_PAGE_8@ + (if p.tab == crate::dashboard::DashboardTab::Bangboos { "active"@ } else { ""@ }) + DASHBOARD_PAGE_9@ + p.nav_bangboos@ + DASHBOARD_PAGE_10@ + (if p.tab == crate::dashboard::DashboardTab::Updates { "active"@ } else { ""@ }) + DASHBOARD_PAGE_11@ + p.nav_client_updates@
}

fn push_dashboard_page_part_2(out: &mut Vec<char>, p: &DashboardPage)
    ensures
        final(out)@ == old(out)@ + dashboard_page_part_2(*p),
{
    extend_str(out, DASHBOARD_PAGE_8);
    {
        if p.tab == crate::dashboard::DashboardTab::Bangboos {
            extend_str(out, "active");
        } else {
            extend_str(out, "");
        }
    }
    extend_str(out, DASHBOARD_PAGE_9);
    extend_str(out, p.nav_bangboos.as_str());
    extend_str(out, DASHBOARD_PAGE_10);
    {
        if p.tab == crate::dashboard::DashboardTab::Updates {
            extend_str(out, "active");
        } else {
            extend_str(out, "");
        }
    }
    extend_str(out, DASHBOARD_PAGE_11);
    extend_str(out, p.nav_client_updates.as_str());
    assert(final(out)@ =~= old(out)@ + dashboard_page_part_2(*p));
}

pub open spec fn dashboard_page_part_3(p: DashboardPage) -> Seq<char> {
    DASHBOARD_PAGE_12@ + (if p.tab == crate::dashboard::DashboardTab::Status { "active"@ } else { ""@ }) + DASHBOARD_PAGE_13@ + p.nav_status@ + DASHBOARD_PAGE_14@ + p.signed_in_as@ + DASHBOARD_PAGE_15@ + p.username@
}

fn push_dashboard_page_part_3(out: &mut Vec<char>, p: &DashboardPage)
    ensures
        final(out)@ == old(out)@ + dashboard_page_part_3(*p),
{
    extend_str(out, DASHBOARD_PAGE_12);
    {
        if p.tab == crate::dashboard::DashboardTab::Status {
            extend_str(out, "active");
        } else {
            extend_str(out, "");
        }
    }
    extend_str(out, DASHBOARD_PAGE_13);
    extend_str(out, p.nav_status.as_str());
    extend_str(out, DASHBOARD_PAGE_14);
    extend_str(out, p.signed_in_as.as_str());
    extend_str(out, DASHBOARD_PAGE_15);
    extend_str(out, p.username.as_str());
    assert(final(out)@ =~= old(out)@ + dashboard_page_part_3(*p));
}

pub open spec fn dashboard_page_part_4(p: DashboardPage) -> Seq<char> {
    DASHBOARD_PAGE_16@ + p.lang_selector@ + DASHBOARD_PAGE_17@ + p.logout_label@ + DASHBOARD_PAGE_18@ + p.session_id@ + DASHBOARD_PAGE_19@ + p.apply_changes@
}

fn push_dashboard_page_part_4(out: &mut Vec<char>, p: &DashboardPage)
    ensures
        final(out)@ == old(out)@ + dashboard_page_part_4(*p),
{
    extend_str(out, DASHBOARD_PAGE_16);
    extend_str(out, p.lang_selector.as_str());
    extend_str(out, DASHBOARD_PAGE_17);
    extend_str(out, p.logout_label.as_str());
    extend_str(out, DASHBOARD_PAGE_18);
    extend_str(out, p.session_id.as_str());
    extend_str(out, DASHBOARD_PAGE_19);
    extend_str(out, p.apply_changes.as_str());
    assert(final(out)@ =~= old(out)@ + dashboard_page_part_4(*p));
}

pub open spec fn dashboard_page_part_5(p: DashboardPage) -> Seq<char> {
    DASHBOARD_PAGE_20@ + (decimal(p.pending_count as nat)) + DASHBOARD_PAGE_21@ + (if p.tab == crate::dashboard::DashboardTab::Avatars { "active"@ } else { ""@ }) + DASHBOARD_PAGE_22@ + p.nav_characters@ + DASHBOARD_PAGE_23@ + (if p.tab == crate::dashboard::DashboardTab::Weapons { "active"@ } else { ""@ })
}

fn push_dashboard_page_part_5(out: &mut Vec<char>, p: &DashboardPage)
    ensures
        final(out)@ == old(out)@ + dashboard_page_part_5(*p),
{
    extend_str(out, DASHBOARD_PAGE_20);
    {
        push_decimal(out, p.pending_count as u64);
    }
    extend_str(out, DASHBOARD_PAGE_21);
    {
        if p.tab == crate::dashboard::DashboardTab::Avatars {
            extend_str(out, "active");
        } else {
            extend_str(out, "");
        }
    }
    extend_str(out, DASHBOARD_PAGE_22);
    extend_str(out, p.nav_characters.as_str());
    extend_str(out, DASHBOARD_PAGE_23);
    {
        if p.tab == crate::dashboard::DashboardTab::Weapons {
            extend_str(out, "active");
        } else {
            extend_str(out, "");
        }
    }
    assert(final(out)@ =~= old(out)@ + dashboard_page_part_5(*p));
}

pub open spec fn dashboard_page_part_6(p: DashboardPage) -> Seq<char> {
    DASHBOARD_PAGE_24@ + p.nav_weapons@ + DASHBOARD_PAGE_25@ + (if p.tab == crate::dashboard::DashboardTab::Discs { "active"@ } else { ""@ }) + DASHBOARD_PAGE_26@ + p.nav_discs@ + DASHBOARD_PAGE_27@ + (if p.tab == crate::dashboard::DashboardTab::Bangboos { "active"@ } else { ""@ })
}

fn push_dashboard_page_part_6(out: &mut Vec<char>, p: &DashboardPage)
    ensures
        final(out)@ == old(out)@ + dashboard_page_part_6(*p),
{
    extend_str(out, DASHBOARD_PAGE_24);
    extend_str(out, p.nav_weapons.as_str());
    extend_str(out, DASHBOARD_PAGE_25);
    {
        if p.tab == crate::dashboard::DashboardTab::Discs {
            extend_str(out, "active");
        } else {
            extend_str(out, "");
        }
    }
    extend_str(out, DASHBOARD_PAGE_26);
    extend_str(out, p.nav_discs.as_str());
    extend_str(out, DASHBOARD_PAGE_27);
    {
        if p.tab == crate::dashboard::DashboardTab::Bangboos {
            extend_str(out, "active");
        } else {
            extend_str(out, "");
        }
    }
    assert(final(out)@ =~= old(out)@ + dashboard_page_part_6(*p));
}

pub open spec fn dashboard_page_part_7(p: DashboardPage) -> Seq<char> {
    DASHBOARD_PAGE_28@ + p.nav_bangboos@ + DASHBOARD_PAGE_29@ + (if p.tab == crate::dashboard::DashboardTab::Updates { "active"@ } else { ""@ }) + DASHBOARD_PAGE_30@ + p.nav_client_updates@ + DASHBOARD_PAGE_31@ + (if p.tab == crate::dashboard::DashboardTab::Status { "active"@ } else { ""@ })
}

fn push_dashboard_page_part_7(out: &mut Vec<char>, p: &DashboardPage)
    ensures
        final(out)@ == old(out)@ + dashboard_page_part_7(*p),
{
    extend_str(out, DASHBOARD_PAGE_28);
    extend_str(out, p.nav_bangboos.as_str());
    extend_str(out, DASHBOARD_PAGE_29);
    {
        if p.tab == crate::dashboard::DashboardTab::Updates {
            extend_str(out, "active");
        } else {
            extend_str(out, "");
        }
    }
    extend_str(out, DASHBOARD_PAGE_30);
    extend_str(out, p.nav_client_updates.as_str());
    extend_str(out, DASHBOARD_PAGE_31);
    {
        if p.tab == crate::dashboard::DashboardTab::Status {
            extend_str(out, "active");
        } else {
            extend_str(out, "");
        }
    }
    assert(final(out)@ =~= old(out)@ + dashboard_page_part_7(*p));
}

pub open spec fn dashboard_page_part_8(p: DashboardPage) -> Seq<char> {
    DASHBOARD_PAGE_32@ + p.nav_status@ + DASHBOARD_PAGE_33@ + p.signed_in_as@ + DASHBOARD_PAGE_34@ + p.username@ + DASHBOARD_PAGE_35@ + p.lang_selector@
}

fn push_dashboard_page_part_8(out: &mut Vec<char>, p: &DashboardPage)
    ensures
        final(out)@ == old(out)@ + dashboard_page_part_8(*p),
{
    extend_str(out, DASHBOARD_PAGE_32);
    extend_str(out, p.nav_status.as_str());
    extend_str(out, DASHBOARD_PAGE_33);
    extend_str(out, p.signed_in_as.as_str());
    extend_str(out, DASHBOARD_PAGE_34);
    extend_str(out, p.username.as_str());
    extend_str(out, DASHBOARD_PAGE_35);
    extend_str(out, p.lang_selector.as_str());
    assert(final(out)@ =~= old(out)@ + dashboard_page_part_8(*p));
}

pub open spec fn dashboard_page_part_9(p: DashboardPage) -> Seq<char> {
    DASHBOARD_PAGE_36@ + p.logout_label@ + DASHBOARD_PAGE_37@ + p.content@ + DASHBOARD_PAGE_38@
}

fn push_dashboard_page_part_9(out: &mut Vec<char>, p: &DashboardPage)
    ensures
        final(out)@ == old(out)@ + dashboard_page_part_9(*p),
{
    extend_str(out, DASHBOARD_PAGE_36);
    extend_str(out, p.logout_label.as_str());
    extend_str(out, DASHBOARD_PAGE_37);
    extend_str(out, p.content.as_str());
    extend_str(out, DASHBOARD_PAGE_38);
    assert(final(out)@ =~= old(out)@ + dashboard_page_part_9(*p));
}

/// The dashboard: the tabs (the open one marked active), who is signed in, the language select, the apply button with the count of pending writes, and the open tab's content.
pub open spec fn spec_dashboard_page(p: DashboardPage) -> Seq<char> {
    dashboard_page_part_0(p) + dashboard_page_part_1(p) + dashboard_page_part_2(p) + dashboard_page_part_3(p) + dashboard_page_part_4(p) + dashboard_page_part_5(p) + dashboard_page_part_6(p) + dashboard_page_part_7(p) + dashboard_page_part_8(p) + dashboard_page_part_9(p)
}

pub fn render_dashboard_page(p: &DashboardPage) -> (r: String)
    ensures
        r@ == spec_dashboard_page(*p),
{
    let mut out: Vec<char> = Vec::new();
    push_dashboard_page_part_0(&mut out, p);
    push_dashboard_page_part_1(&mut out, p);
    push_dashboard_page_part_2(&mut out, p);
    push_dashboard_page_part_3(&mut out, p);
    push_dashboard_page_part_4(&mut out, p);
    push_dashboard_page_part_5(&mut out, p);
    push_dashboard_page_part_6(&mut out, p);
    push_dashboard_page_part_7(&mut out, p);
    push_dashboard_page_part_8(&mut out, p);
    push_dashboard_page_part_9(&mut out, p);
    assert(out@ =~= spec_dashboard_page(*p));
    string_of(&out)
}

} // verus!
