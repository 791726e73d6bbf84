use vstd::prelude::*;
use crate::ctl::{le_bytes, lemma_le_bytes_len, splice, write_u64_le};
use crate::text::{
    chars_of, decimal, extend_str, has_prefix, string_of, matches_at, parse_u32_chars, spec_parse_u32, starts_with, sub_chars,
    trim, trim_chars,
};

verus! {

/// A slot number from a form field: the trimmed value read as a u32, 0
/// where it is not one.
pub open spec fn spec_parse_slot_value(value: Seq<char>) -> u32 {
    match spec_parse_u32(trim(value)) {
        Some(v) => v,
        None => 0,
    }
}

pub fn parse_slot_value(value: &str) -> (r: u32)
    ensures
        r == spec_parse_slot_value(value@),
{
    let v = chars_of(value);
    let t = trim_chars(&v);
    match parse_u32_chars(&t) {
        Some(n) => n,
        None => 0,
    }
}

/// The least player uid an account without a mapped uid or a save file gets.
pub const MIN_FALLBACK_UID: u32 = 666;

/// The index of the first of the 8-byte entries of `data` that holds `target`
/// little-endian, among the first `n`.
pub open spec fn first_entry_of(data: Seq<u8>, target: u64, n: nat) -> Option<nat>
    decreases n,
{
    if n == 0 {
        None
    } else {
        match first_entry_of(data, target, (n - 1) as nat) {
            Some(i) => Some(i),
            None => if data.subrange((n - 1) * 8, (n * 8) as int) == le_bytes(target as nat, 8) {
                Some((n - 1) as nat)
            } else {
                None
            },
        }
    }
}

/// The player uid the uid map gives an account: where the map is a whole
/// number of 8-byte entries (at least one), the server's `base_player_uid`
/// plus the index of the first entry holding the account id (read as a u64).
pub open spec fn spec_uid_from_general_data(data: Seq<u8>, account_uid: i32, base_player_uid: u32) -> Option<u32> {
    if data.len() >= 8 && data.len() % 8 == 0 {
        match first_entry_of(data, account_uid as u64, data.len() / 8) {
            Some(i) => Some((base_player_uid + i) as u32),
            None => None,
        }
    } else {
        None
    }
}

/// Looks the account up in the uid map `data` (the bytes of GENERAL_DATA.bin).
pub fn uid_from_general_data(data: &[u8], account_uid: i32, base_player_uid: u32) -> (r: Option<u32>)
    requires
        data@.len() / 8 + base_player_uid <= u32::MAX,
    ensures
        r == spec_uid_from_general_data(data@, account_uid, base_player_uid),
{
    let n = data.len();
    if !(n >= 8 && n % 8 == 0) {
        return None;
    }
    let target: u64 = #[verifier::truncate] (account_uid as u64);
    let mut t: Vec<u8> = vec![0u8, 0u8, 0u8, 0u8, 0u8, 0u8, 0u8, 0u8];
    let mut p: usize = 0;
    write_u64_le(&mut t, &mut p, target);
    proof {
        lemma_le_bytes_len(target as nat, 8);
        assert(t@ =~= le_bytes(target as nat, 8));
    }
    let count = n / 8;
    let mut i: usize = 0;
    while i < count
        invariant
            i <= count,
            n == data@.len(),
            n >= 8 && n % 8 == 0,
            count == data@.len() / 8,
            count * 8 <= n,
            count + base_player_uid <= u32::MAX,
            target == account_uid as u64,
            t@ == le_bytes(target as nat, 8),
            t@.len() == 8,
            first_entry_of(data@, target, i as nat) is None,
        decreases count - i,
    {
        let start = i * 8;
        let mut same = true;
        let mut k: usize = 0;
        while k < 8
            invariant
                k <= 8,
                start == i * 8,
                i < count,
                count * 8 <= data@.len(),
                t@.len() == 8,
                same == (forall|j: int| 0 <= j < k ==> data@[start + j] == t@[j]),
            decreases 8 - k,
        {
            if data[start + k] != t[k] {
                same = false;
            }
            k = k + 1;
        }
        proof {
            let e = data@.subrange(start as int, start + 8);
            if same {
                assert(e =~= t@);
            } else {
                assert(e != t@) by {
                    let j = choose|j: int| 0 <= j < 8 && data@[start + j] != t@[j];
                    assert(e[j] == data@[start + j]);
                }
            }
            assert((i + 1) * 8 == start + 8);
        }
        if same {
            proof {
                assert(first_entry_of(data@, target, (i + 1) as nat) == Some(i as nat));
                lemma_first_entry_stable(data@, target, (i + 1) as nat, count as nat);
            }
            return Some(base_player_uid + i as u32);
        }
        i = i + 1;
    }
    None
}

proof fn lemma_first_entry_stable(data: Seq<u8>, target: u64, m: nat, n: nat)
    requires
        m <= n,
        first_entry_of(data, target, m) is Some,
    ensures
        first_entry_of(data, target, n) == first_entry_of(data, target, m),
    decreases n - m,
{
    if m < n {
        lemma_first_entry_stable(data, target, m, (n - 1) as nat);
    }
}

/// The player uid a save file name gives: `USD_{uid}.bin` with a u32 uid
/// above 0.
pub open spec fn spec_uid_from_file_name(name: Seq<char>) -> Option<u32> {
    if has_prefix(name, "USD_"@) && name.len() >= 8 && name.subrange(name.len() - 4, name.len() as int)
        == ".bin"@ {
        match spec_parse_u32(name.subrange(4, name.len() - 4)) {
            Some(v) => if v > 0 {
                Some(v)
            } else {
                None
            },
            None => None,
        }
    } else {
        None
    }
}

pub fn uid_from_file_name(name: &str) -> (r: Option<u32>)
    ensures
        r == spec_uid_from_file_name(name@),
{
    let v = chars_of(name);
    let pre = chars_of("USD_");
    let suf = chars_of(".bin");
    proof {
        reveal_strlit("USD_");
        reveal_strlit(".bin");
    }
    if !starts_with(&v, &pre) || v.len() < 8 {
        proof {
            if has_prefix(v@, "USD_"@) && v@.len() >= 8 {
                assert(false);
            }
        }
        return None;
    }
    if !matches_at(&v, &suf, v.len() - 4) {
        return None;
    }
    let middle = sub_chars(&v, 4, v.len() - 4);
    match parse_u32_chars(&middle) {
        Some(u) => if u > 0 {
            Some(u)
        } else {
            None
        },
        None => None,
    }
}

/// The player uid an account plays as: the uid map's (counted from the
/// server's `base_player_uid`), else the first save file name (in the order
/// the directory lists them) that names a uid, else the account id itself,
/// at least 666.
pub open spec fn spec_resolve_player_uid(general_data: Option<Seq<u8>>, file_names: Seq<Seq<char>>, account_uid: i32, base_player_uid: u32) -> u32 {
    match (match general_data {
        Some(d) => spec_uid_from_general_data(d, account_uid, base_player_uid),
        None => None,
    }) {
        Some(u) => u,
        None => match first_named_uid(file_names, 0) {
            Some(u) => u,
            None => (if account_uid > 666 { account_uid } else { 666 }) as u32,
        },
    }
}

/// The uid of the first of `names[from..]` that names one.
pub open spec fn first_named_uid(names: Seq<Seq<char>>, from: int) -> Option<u32>
    decreases names.len() - from,
{
    if from < 0 || from >= names.len() {
        None
    } else {
        match spec_uid_from_file_name(names[from]) {
            Some(u) => Some(u),
            None => first_named_uid(names, from + 1),
        }
    }
}

pub open spec fn names_view(v: Seq<String>) -> Seq<Seq<char>> {
    v.map_values(|s: String| s@)
}

/// Resolves the player uid of an account from the uid map (its bytes, where
/// it could be read) and the names of the files of the state directory.
pub fn resolve_player_uid(general_data: Option<&[u8]>, file_names: &Vec<String>, account_uid: i32, base_player_uid: u32) -> (r: u32)
    requires
        general_data matches Some(d) ==> d@.len() / 8 + base_player_uid <= u32::MAX,
    ensures
        r == spec_resolve_player_uid(
            match general_data {
                Some(d) => Some(d@),
                None => None,
            },
            names_view(file_names@),
            account_uid,
            base_player_uid,
        ),
{
    let mapped = match general_data {
        Some(d) => uid_from_general_data(d, account_uid, base_player_uid),
        None => None,
    };
    match mapped {
        Some(u) => u,
        None => {
            let mut i: usize = 0;
            while i < file_names.len()
                invariant
                    i <= file_names@.len(),
                    (match general_data {
                        Some(d) => spec_uid_from_general_data(d@, account_uid, base_player_uid),
                        None => None,
                    }) is None,
                    first_named_uid(names_view(file_names@), i as int) == first_named_uid(
                        names_view(file_names@),
                        0,
                    ),
                decreases file_names.len() - i,
            {
                assert(names_view(file_names@)[i as int] == file_names@[i as int]@);
                match uid_from_file_name(file_names[i].as_str()) {
                    Some(u) => {
                        return u;
                    },
                    None => {},
                }
                i = i + 1;
            }
            if account_uid > MIN_FALLBACK_UID as i32 {
                account_uid as u32
            } else {
                MIN_FALLBACK_UID
            }
        },
    }
}


/// The script of the disc forms: it keeps the main and sub stat choices
/// consistent with the slot and with each other, given the options (JSON
/// texts) it is built with.
pub open spec fn spec_equip_substat_script(main_options_by_slot_json: Seq<char>, sub_options_by_main_json: Seq<char>, label_map_json: Seq<char>) -> Seq<char> {
    "<script>\nconst mainOptionsBySlot = "@ + main_options_by_slot_json + ";\nconst subOptionsByMain = "@ + sub_options_by_main_json + ";\nconst statLabels = "@ + label_map_json
        + ";\nconst slotSelect = document.getElementById(\"equip_slot\");\nconst mainSelect = document.getElementById(\"main_key\");\nconst subSelects = Array.from(document.querySelectorAll(\"select[name^='sub_key_']\"));\n\nconst renderOptions = (select, keys, selected) => {\n  select.innerHTML = \"\";\n  for (const key of keys) {\n    const option = document.createElement(\"option\");\n    option.value = key;\n    option.textContent = statLabels[key] ?? `Stat ${key}`;\n    if (String(key) === String(selected)) {\n      option.selected = true;\n    }\n    select.appendChild(option);\n  }\n};\n\nconst updateSubOptions = () => {\n  const mainKey = Number(mainSelect?.value ?? 0);\n  const subKeys = subOptionsByMain[mainKey] ?? [];\n  const nextValues = [];\n  for (const select of subSelects) {\n    const current = Number(select.value);\n    let chosen = current;\n    if (!subKeys.includes(chosen) || nextValues.includes(chosen)) {\n      chosen = subKeys.find((key) => !nextValues.includes(key));\n      if (chosen === undefined) {\n        chosen = subKeys[0] ?? 0;\n      }\n    }\n    nextValues.push(chosen);\n  }\n  subSelects.forEach((select, idx) => {\n    renderOptions(select, subKeys, nextValues[idx]);\n  });\n};\n\nconst updateMainOptions = () => {\n  if (!mainSelect) {\n    return;\n  }\n  if (slotSelect) {\n    const slot = Number(slotSelect.value);\n    const keys = mainOptionsBySlot[slot] ?? [];\n    const current = Number(mainSelect.value);\n    const selected = keys.includes(current) ? current : (keys[0] ?? 0);\n    renderOptions(mainSelect, keys, selected);\n  }\n  updateSubOptions();\n};\n\nif (slotSelect) {\n  slotSelect.addEventListener(\"change\", updateMainOptions);\n}\nif (mainSelect) {\n  mainSelect.addEventListener(\"change\", updateSubOptions);\n}\nfor (const select of subSelects) {\n  select.addEventListener(\"change\", updateSubOptions);\n}\nupdateMainOptions();\n</script>"@
}

pub fn render_equip_substat_script(main_options_by_slot_json: &str, sub_options_by_main_json: &str, label_map_json: &str) -> (r: String)
    ensures
        r@ == spec_equip_substat_script(
            main_options_by_slot_json@,
            sub_options_by_main_json@,
            label_map_json@,
        ),
{
    let mut out = chars_of("<script>\nconst mainOptionsBySlot = ");
    extend_str(&mut out, main_options_by_slot_json);
    extend_str(&mut out, ";\nconst subOptionsByMain = ");
    extend_str(&mut out, sub_options_by_main_json);
    extend_str(&mut out, ";\nconst statLabels = ");
    extend_str(&mut out, label_map_json);
    extend_str(&mut out, ";\nconst slotSelect = document.getElementById(\"equip_slot\");\nconst mainSelect = document.getElementById(\"main_key\");\nconst subSelects = Array.from(document.querySelectorAll(\"select[name^='sub_key_']\"));\n\nconst renderOptions = (select, keys, selected) => {\n  select.innerHTML = \"\";\n  for (const key of keys) {\n    const option = document.createElement(\"option\");\n    option.value = key;\n    option.textContent = statLabels[key] ?? `Stat ${key}`;\n    if (String(key) === String(selected)) {\n      option.selected = true;\n    }\n    select.appendChild(option);\n  }\n};\n\nconst updateSubOptions = () => {\n  const mainKey = Number(mainSelect?.value ?? 0);\n  const subKeys = subOptionsByMain[mainKey] ?? [];\n  const nextValues = [];\n  for (const select of subSelects) {\n    const current = Number(select.value);\n    let chosen = current;\n    if (!subKeys.includes(chosen) || nextValues.includes(chosen)) {\n      chosen = subKeys.find((key) => !nextValues.includes(key));\n      if (chosen === undefined) {\n        chosen = subKeys[0] ?? 0;\n      }\n    }\n    nextValues.push(chosen);\n  }\n  subSelects.forEach((select, idx) => {\n    renderOptions(select, subKeys, nextValues[idx]);\n  });\n};\n\nconst updateMainOptions = () => {\n  if (!mainSelect) {\n    return;\n  }\n  if (slotSelect) {\n    const slot = Number(slotSelect.value);\n    const keys = mainOptionsBySlot[slot] ?? [];\n    const current = Number(mainSelect.value);\n    const selected = keys.includes(current) ? current : (keys[0] ?? 0);\n    renderOptions(mainSelect, keys, selected);\n  }\n  updateSubOptions();\n};\n\nif (slotSelect) {\n  slotSelect.addEventListener(\"change\", updateMainOptions);\n}\nif (mainSelect) {\n  mainSelect.addEventListener(\"change\", updateSubOptions);\n}\nfor (const select of subSelects) {\n  select.addEventListener(\"change\", updateSubOptions);\n}\nupdateMainOptions();\n</script>");
    string_of(&out)
}

/// Where the state of a player's item of kind `kind` is kept: below the
/// state directory, `player/<uid>/<kind>/<item id>`, with or without the
/// `.zon` extension.
pub open spec fn spec_item_path(state_dir: Seq<char>, uid: u32, kind: Seq<char>, item_id: u32, zon: bool) -> Seq<char> {
    crate::app_state::path_join(
        state_dir,
        "player/"@ + decimal(uid as nat) + "/"@ + kind + "/"@ + decimal(item_id as nat) + (if zon {
            ".zon"@
        } else {
            Seq::empty()
        }),
    )
}

pub fn item_path(state_dir: &str, uid: u32, kind: &str, item_id: u32, zon: bool) -> (r: String)
    ensures
        r@ == spec_item_path(state_dir@, uid, kind@, item_id, zon),
{
    let mut rel = chars_of("player/");
    crate::text::push_decimal(&mut rel, uid as u64);
    extend_str(&mut rel, "/");
    extend_str(&mut rel, kind);
    extend_str(&mut rel, "/");
    crate::text::push_decimal(&mut rel, item_id as u64);
    if zon {
        extend_str(&mut rel, ".zon");
    }
    assert(rel@ =~= "player/"@ + decimal(uid as nat) + "/"@ + kind@ + "/"@ + decimal(item_id as nat) + (if zon {
        ".zon"@
    } else {
        Seq::empty()
    }));
    string_of(&crate::app_state::join_path(&chars_of(state_dir), &rel))
}

/// The item's path: the one without extension where it exists, else the
/// `.zon` one where that exists, else the one without extension.
/// `plain_exists` and `zon_exists` tell whether the two `item_path`s exist.
pub fn resolve_item_path(state_dir: &str, uid: u32, kind: &str, item_id: u32, plain_exists: bool, zon_exists: bool) -> (r: String)
    ensures
        r@ == spec_item_path(state_dir@, uid, kind@, item_id, !plain_exists && zon_exists),
{
    if !plain_exists && zon_exists {
        item_path(state_dir, uid, kind, item_id, true)
    } else {
        item_path(state_dir, uid, kind, item_id, false)
    }
}

} // verus!
