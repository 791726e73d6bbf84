use vstd::prelude::*;
use crate::text::{chars_of, parse_u32_chars};

verus! {

pub const STAT_HP: u32 = 11103;
pub const STAT_ATK: u32 = 12103;
pub const STAT_DEF: u32 = 13103;
pub const STAT_HP_PCT: u32 = 11102;
pub const STAT_ATK_PCT: u32 = 12102;
pub const STAT_DEF_PCT: u32 = 13102;
pub const STAT_CRIT_RATE: u32 = 20103;
pub const STAT_CRIT_DMG: u32 = 21103;
pub const STAT_ANOMALY_PROF: u32 = 31203;
pub const STAT_PEN: u32 = 23203;
pub const STAT_PEN_RATIO: u32 = 23202;
pub const STAT_ANOMALY_MASTERY: u32 = 31402;
pub const STAT_IMPACT: u32 = 12202;
pub const STAT_ENERGY_REGEN: u32 = 30502;
pub const STAT_PHYSICAL_DMG: u32 = 31503;
pub const STAT_FIRE_DMG: u32 = 31603;
pub const STAT_ICE_DMG: u32 = 31703;
pub const STAT_ELECTRIC_DMG: u32 = 31803;
pub const STAT_ETHER_DMG: u32 = 31903;

/// The translation key naming a disc stat, for the stats the panel knows.
pub open spec fn spec_disk_stat_label_key(key: u32) -> Option<Seq<char>> {
    if key == STAT_HP {
        Some("stat.hp"@)
    } else if key == STAT_ATK {
        Some("stat.atk"@)
    } else if key == STAT_DEF {
        Some("stat.def"@)
    } else if key == STAT_HP_PCT {
        Some("stat.hp_pct"@)
    } else if key == STAT_ATK_PCT {
        Some("stat.atk_pct"@)
    } else if key == STAT_DEF_PCT {
        Some("stat.def_pct"@)
    } else if key == STAT_CRIT_RATE {
        Some("stat.crit_rate"@)
    } else if key == STAT_CRIT_DMG {
        Some("stat.crit_dmg"@)
    } else if key == STAT_ANOMALY_PROF {
        Some("stat.anomaly_prof"@)
    } else if key == STAT_PEN {
        Some("stat.pen"@)
    } else if key == STAT_PEN_RATIO {
        Some("stat.pen_ratio"@)
    } else if key == STAT_ANOMALY_MASTERY {
        Some("stat.anomaly_mastery"@)
    } else if key == STAT_IMPACT {
        Some("stat.impact"@)
    } else if key == STAT_ENERGY_REGEN {
        Some("stat.energy_regen"@)
    } else if key == STAT_PHYSICAL_DMG {
        Some("stat.physical_dmg"@)
    } else if key == STAT_FIRE_DMG {
        Some("stat.fire_dmg"@)
    } else if key == STAT_ICE_DMG {
        Some("stat.ice_dmg"@)
    } else if key == STAT_ELECTRIC_DMG {
        Some("stat.electric_dmg"@)
    } else if key == STAT_ETHER_DMG {
        Some("stat.ether_dmg"@)
    } else {
        None
    }
}

/// The translation key of a disc stat's label; `None` for other stats, whose
/// labels come from the data dumps.
pub fn disk_stat_label_key(key: u32) -> (r: Option<&'static str>)
    ensures
        match r {
            Some(s) => spec_disk_stat_label_key(key) == Some(s@),
            None => spec_disk_stat_label_key(key) is None,
        },
{
    if key == STAT_HP {
        Some("stat.hp")
    } else if key == STAT_ATK {
        Some("stat.atk")
    } else if key == STAT_DEF {
        Some("stat.def")
    } else if key == STAT_HP_PCT {
        Some("stat.hp_pct")
    } else if key == STAT_ATK_PCT {
        Some("stat.atk_pct")
    } else if key == STAT_DEF_PCT {
        Some("stat.def_pct")
    } else if key == STAT_CRIT_RATE {
        Some("stat.crit_rate")
    } else if key == STAT_CRIT_DMG {
        Some("stat.crit_dmg")
    } else if key == STAT_ANOMALY_PROF {
        Some("stat.anomaly_prof")
    } else if key == STAT_PEN {
        Some("stat.pen")
    } else if key == STAT_PEN_RATIO {
        Some("stat.pen_ratio")
    } else if key == STAT_ANOMALY_MASTERY {
        Some("stat.anomaly_mastery")
    } else if key == STAT_IMPACT {
        Some("stat.impact")
    } else if key == STAT_ENERGY_REGEN {
        Some("stat.energy_regen")
    } else if key == STAT_PHYSICAL_DMG {
        Some("stat.physical_dmg")
    } else if key == STAT_FIRE_DMG {
        Some("stat.fire_dmg")
    } else if key == STAT_ICE_DMG {
        Some("stat.ice_dmg")
    } else if key == STAT_ELECTRIC_DMG {
        Some("stat.electric_dmg")
    } else if key == STAT_ETHER_DMG {
        Some("stat.ether_dmg")
    } else {
        None
    }
}

/// The main stats a disc in `slot` may carry.
pub open spec fn spec_main_stat_options(slot: u32) -> Seq<u32> {
    if slot == 1 {
        seq![STAT_HP]
    } else if slot == 2 {
        seq![STAT_ATK]
    } else if slot == 3 {
        seq![STAT_DEF]
    } else if slot == 4 {
        seq![STAT_ATK_PCT, STAT_HP_PCT, STAT_DEF_PCT, STAT_CRIT_RATE, STAT_CRIT_DMG, STAT_ANOMALY_PROF]
    } else if slot == 5 {
        seq![
            STAT_ATK_PCT,
            STAT_HP_PCT,
            STAT_DEF_PCT,
            STAT_PHYSICAL_DMG,
            STAT_ICE_DMG,
            STAT_FIRE_DMG,
            STAT_ELECTRIC_DMG,
            STAT_ETHER_DMG,
            STAT_PEN_RATIO,
        ]
    } else if slot == 6 {
        seq![STAT_ATK_PCT, STAT_HP_PCT, STAT_DEF_PCT, STAT_ANOMALY_MASTERY, STAT_IMPACT, STAT_ENERGY_REGEN]
    } else {
        Seq::empty()
    }
}

pub fn disk_main_stat_options(slot: u32) -> (v: Vec<u32>)
    ensures
        v@ == spec_main_stat_options(slot),
{
    let v = if slot == 1 {
        vec![STAT_HP]
    } else if slot == 2 {
        vec![STAT_ATK]
    } else if slot == 3 {
        vec![STAT_DEF]
    } else if slot == 4 {
        vec![STAT_ATK_PCT, STAT_HP_PCT, STAT_DEF_PCT, STAT_CRIT_RATE, STAT_CRIT_DMG, STAT_ANOMALY_PROF]
    } else if slot == 5 {
        vec![
            STAT_ATK_PCT,
            STAT_HP_PCT,
            STAT_DEF_PCT,
            STAT_PHYSICAL_DMG,
            STAT_ICE_DMG,
            STAT_FIRE_DMG,
            STAT_ELECTRIC_DMG,
            STAT_ETHER_DMG,
            STAT_PEN_RATIO,
        ]
    } else if slot == 6 {
        vec![STAT_ATK_PCT, STAT_HP_PCT, STAT_DEF_PCT, STAT_ANOMALY_MASTERY, STAT_IMPACT, STAT_ENERGY_REGEN]
    } else {
        Vec::new()
    };
    assert(v@ =~= spec_main_stat_options(slot));
    v
}

/// Whether `v` holds `x`.
pub fn contains_u32(v: &Vec<u32>, x: u32) -> (r: bool)
    ensures
        r == v@.contains(x),
{
    let mut i: usize = 0;
    while i < v.len()
        invariant
            i <= v.len(),
            forall|j: int| 0 <= j < i ==> v@[j] != x,
        decreases v.len() - i,
    {
        if v[i] == x {
            return true;
        }
        i = i + 1;
    }
    false
}

/// `key` if it is a valid main stat for `slot`.
pub fn normalize_disk_main_stat(slot: u32, key: u32) -> (r: Option<u32>)
    ensures
        r == (if spec_main_stat_options(slot).contains(key) {
            Some(key)
        } else {
            None
        }),
{
    let options = disk_main_stat_options(slot);
    if contains_u32(&options, key) {
        Some(key)
    } else {
        None
    }
}

/// The main stat the edit form starts on: the disc's own where the slot
/// allows it, else the slot's first main stat, else 0.
pub open spec fn spec_edit_main_key(slot: u32, key: u32) -> u32 {
    if spec_main_stat_options(slot).contains(key) {
        key
    } else if spec_main_stat_options(slot).len() > 0 {
        spec_main_stat_options(slot)[0]
    } else {
        0
    }
}

pub fn edit_main_key(slot: u32, key: u32) -> (r: u32)
    ensures
        r == spec_edit_main_key(slot, key),
{
    match normalize_disk_main_stat(slot, key) {
        Some(k) => k,
        None => {
            let options = disk_main_stat_options(slot);
            if options.len() > 0 {
                options[0]
            } else {
                0
            }
        },
    }
}

/// The base value of a main stat.
pub open spec fn spec_main_base_value(key: u32) -> Option<u32> {
    if key == STAT_HP {
        Some(550)
    } else if key == STAT_ATK {
        Some(79)
    } else if key == STAT_DEF {
        Some(46)
    } else if key == STAT_ATK_PCT {
        Some(750)
    } else if key == STAT_HP_PCT {
        Some(750)
    } else if key == STAT_DEF_PCT {
        Some(1200)
    } else if key == STAT_CRIT_RATE {
        Some(600)
    } else if key == STAT_CRIT_DMG {
        Some(1200)
    } else if key == STAT_ANOMALY_PROF {
        Some(23)
    } else if key == STAT_PHYSICAL_DMG || key == STAT_ICE_DMG || key == STAT_FIRE_DMG || key
        == STAT_ELECTRIC_DMG || key == STAT_ETHER_DMG {
        Some(750)
    } else if key == STAT_PEN_RATIO {
        Some(600)
    } else if key == STAT_ANOMALY_MASTERY {
        Some(750)
    } else if key == STAT_IMPACT {
        Some(450)
    } else if key == STAT_ENERGY_REGEN {
        Some(1500)
    } else {
        None
    }
}

pub fn disk_main_base_value(key: u32) -> (r: Option<u32>)
    ensures
        r == spec_main_base_value(key),
{
    if key == STAT_HP {
        Some(550)
    } else if key == STAT_ATK {
        Some(79)
    } else if key == STAT_DEF {
        Some(46)
    } else if key == STAT_ATK_PCT {
        Some(750)
    } else if key == STAT_HP_PCT {
        Some(750)
    } else if key == STAT_DEF_PCT {
        Some(1200)
    } else if key == STAT_CRIT_RATE {
        Some(600)
    } else if key == STAT_CRIT_DMG {
        Some(1200)
    } else if key == STAT_ANOMALY_PROF {
        Some(23)
    } else if key == STAT_PHYSICAL_DMG || key == STAT_ICE_DMG || key == STAT_FIRE_DMG || key
        == STAT_ELECTRIC_DMG || key == STAT_ETHER_DMG {
        Some(750)
    } else if key == STAT_PEN_RATIO {
        Some(600)
    } else if key == STAT_ANOMALY_MASTERY {
        Some(750)
    } else if key == STAT_IMPACT {
        Some(450)
    } else if key == STAT_ENERGY_REGEN {
        Some(1500)
    } else {
        None
    }
}

/// The base value of one roll of a sub stat.
pub open spec fn spec_sub_base_value(key: u32) -> Option<u32> {
    if key == STAT_HP {
        Some(112)
    } else if key == STAT_ATK {
        Some(19)
    } else if key == STAT_DEF {
        Some(15)
    } else if key == STAT_HP_PCT {
        Some(300)
    } else if key == STAT_ATK_PCT {
        Some(300)
    } else if key == STAT_DEF_PCT {
        Some(480)
    } else if key == STAT_CRIT_DMG {
        Some(480)
    } else if key == STAT_CRIT_RATE {
        Some(240)
    } else if key == STAT_ANOMALY_PROF {
        Some(9)
    } else if key == STAT_PEN {
        Some(9)
    } else {
        None
    }
}

pub fn disk_sub_base_value(key: u32) -> (r: Option<u32>)
    ensures
        r == spec_sub_base_value(key),
{
    if key == STAT_HP {
        Some(112)
    } else if key == STAT_ATK {
        Some(19)
    } else if key == STAT_DEF {
        Some(15)
    } else if key == STAT_HP_PCT {
        Some(300)
    } else if key == STAT_ATK_PCT {
        Some(300)
    } else if key == STAT_DEF_PCT {
        Some(480)
    } else if key == STAT_CRIT_DMG {
        Some(480)
    } else if key == STAT_CRIT_RATE {
        Some(240)
    } else if key == STAT_ANOMALY_PROF {
        Some(9)
    } else if key == STAT_PEN {
        Some(9)
    } else {
        None
    }
}

/// Every sub stat, in the panel's order.
pub open spec fn all_sub_stats() -> Seq<u32> {
    seq![
        STAT_HP,
        STAT_ATK,
        STAT_DEF,
        STAT_HP_PCT,
        STAT_ATK_PCT,
        STAT_DEF_PCT,
        STAT_CRIT_DMG,
        STAT_CRIT_RATE,
        STAT_ANOMALY_PROF,
        STAT_PEN,
    ]
}

/// Main stats that exclude the same stat as a sub stat.
pub open spec fn excludes_same_sub(main_key: u32) -> bool {
    main_key == STAT_HP || main_key == STAT_ATK || main_key == STAT_DEF || main_key == STAT_HP_PCT
        || main_key == STAT_ATK_PCT || main_key == STAT_DEF_PCT || main_key == STAT_CRIT_RATE
        || main_key == STAT_CRIT_DMG || main_key == STAT_ANOMALY_PROF
}

pub open spec fn other_than(key: u32) -> spec_fn(u32) -> bool {
    |k: u32| k != key
}

/// The sub stats a disc with main stat `main_key` may roll: all of them, but
/// never the main stat itself.
pub open spec fn spec_sub_stat_options(main_key: u32) -> Seq<u32> {
    if excludes_same_sub(main_key) {
        all_sub_stats().filter(other_than(main_key))
    } else {
        all_sub_stats()
    }
}

pub fn disk_sub_stat_options(main_key: u32) -> (v: Vec<u32>)
    ensures
        v@ == spec_sub_stat_options(main_key),
{
    let all = vec![
        STAT_HP,
        STAT_ATK,
        STAT_DEF,
        STAT_HP_PCT,
        STAT_ATK_PCT,
        STAT_DEF_PCT,
        STAT_CRIT_DMG,
        STAT_CRIT_RATE,
        STAT_ANOMALY_PROF,
        STAT_PEN,
    ];
    assert(all@ =~= all_sub_stats());
    proof {
        reveal(Seq::filter);
        assert(all@.subrange(0, 0) =~= Seq::<u32>::empty());
    }
    let excl = main_key == STAT_HP || main_key == STAT_ATK || main_key == STAT_DEF || main_key
        == STAT_HP_PCT || main_key == STAT_ATK_PCT || main_key == STAT_DEF_PCT || main_key
        == STAT_CRIT_RATE || main_key == STAT_CRIT_DMG || main_key == STAT_ANOMALY_PROF;
    if !excl {
        return all;
    }
    let mut out: Vec<u32> = Vec::new();
    let mut i: usize = 0;
    while i < all.len()
        invariant
            i <= all@.len(),
            all@ == all_sub_stats(),
            out@ == all@.subrange(0, i as int).filter(other_than(main_key)),
        decreases all.len() - i,
    {
        proof {
            let pre = all@.subrange(0, i as int);
            assert(all@.subrange(0, i + 1).drop_last() =~= pre);
            reveal(Seq::filter);
            assert(all@.subrange(0, i + 1) =~= pre.push(all@[i as int]));
            assert(pre.push(all@[i as int]).drop_last() =~= pre);
        }
        if all[i] != main_key {
            out.push(all[i]);
        }
        i = i + 1;
    }
    assert(all@.subrange(0, all@.len() as int) =~= all@);
    out
}

proof fn lemma_filter_keeps_distinct(s: Seq<u32>, f: spec_fn(u32) -> bool)
    requires
        s.no_duplicates(),
    ensures
        s.filter(f).no_duplicates(),
        forall|x: u32| #[trigger] s.filter(f).contains(x) ==> s.contains(x) && f(x),
    decreases s.len(),
{
    reveal(Seq::filter);
    if s.len() > 0 {
        let d = s.drop_last();
        assert(d.no_duplicates()) by {
            assert forall|i: int, j: int| 0 <= i < d.len() && 0 <= j < d.len() && i != j implies d[i]
                != d[j] by {
                assert(d[i] == s[i] && d[j] == s[j]);
            }
        }
        lemma_filter_keeps_distinct(d, f);
        let sub = d.filter(f);
        if f(s.last()) {
            let out = sub.push(s.last());
            assert(!sub.contains(s.last())) by {
                if sub.contains(s.last()) {
                    let k = choose|k: int| 0 <= k < d.len() && d[k] == s.last();
                    assert(s[k] == s[s.len() - 1]);
                }
            }
            assert forall|i: int, j: int| 0 <= i < out.len() && 0 <= j < out.len() && i != j implies out[i]
                != out[j] by {
                if i == out.len() - 1 {
                    assert(sub.contains(out[j]) || j == out.len() - 1);
                } else if j == out.len() - 1 {
                    assert(sub.contains(out[i]));
                }
            }
            assert forall|x: u32| #[trigger] out.contains(x) implies s.contains(x) && f(x) by {
                if x != s.last() {
                    let k = choose|k: int| 0 <= k < out.len() && out[k] == x;
                    assert(sub.contains(x)) by {
                        assert(sub[k] == x);
                    }
                    let m = choose|m: int| 0 <= m < d.len() && d[m] == x;
                    assert(s[m] == x);
                } else {
                    assert(s[s.len() - 1] == x);
                }
            }
        } else {
            assert forall|x: u32| #[trigger] sub.contains(x) implies s.contains(x) && f(x) by {
                let m = choose|m: int| 0 <= m < d.len() && d[m] == x;
                assert(s[m] == x);
            }
        }
    }
}

/// The sub stats a disc may roll are flat HP, ATK and DEF, percentage HP, ATK
/// and DEF, crit damage, crit rate, anomaly proficiency and flat PEN, except
/// the disc's main stat (flat PEN is no main stat).
pub proof fn law_sub_stat_membership(main_key: u32, x: u32)
    requires
        main_key != 23203,
    ensures
        spec_sub_stat_options(main_key).contains(x) <==> {
            &&& (x == 11103 || x == 12103 || x == 13103 || x == 11102 || x == 12102 || x == 13102 || x == 21103
                || x == 20103 || x == 31203 || x == 23203)
            &&& x != main_key
        },
{
    let all = all_sub_stats();
    let k: int = if x == 11103 {
        0
    } else if x == 12103 {
        1
    } else if x == 13103 {
        2
    } else if x == 11102 {
        3
    } else if x == 12102 {
        4
    } else if x == 13102 {
        5
    } else if x == 21103 {
        6
    } else if x == 20103 {
        7
    } else if x == 31203 {
        8
    } else {
        9
    };
    let listed = x == 11103 || x == 12103 || x == 13103 || x == 11102 || x == 12102 || x == 13102 || x == 21103
        || x == 20103 || x == 31203 || x == 23203;
    if listed {
        assert(all[k] == x);
    }
    if all.contains(x) {
        let i = choose|i: int| 0 <= i < all.len() && all[i] == x;
        assert(all[i] == x);
    }
    if excludes_same_sub(main_key) {
        let f = other_than(main_key);
        lemma_filter_keeps_distinct(all, f);
        if listed && x != main_key {
            assert(f(all[k]));
            all.lemma_filter_contains(f, k);
        }
    }
}

/// The sub stats a disc may roll are distinct sub stats, and never the main
/// stat where the main stat is itself one of them.
pub proof fn law_sub_stat_options(main_key: u32)
    ensures
        spec_sub_stat_options(main_key).no_duplicates(),
        forall|x: u32| #[trigger]
            spec_sub_stat_options(main_key).contains(x) ==> all_sub_stats().contains(x),
        excludes_same_sub(main_key) ==> !spec_sub_stat_options(main_key).contains(main_key),
        spec_sub_stat_options(main_key).len() >= 9,
{
    let all = all_sub_stats();
    assert(all.no_duplicates());
    if excludes_same_sub(main_key) {
        lemma_filter_keeps_distinct(all, other_than(main_key));
        let k: int = if main_key == STAT_HP {
            0
        } else if main_key == STAT_ATK {
            1
        } else if main_key == STAT_DEF {
            2
        } else if main_key == STAT_HP_PCT {
            3
        } else if main_key == STAT_ATK_PCT {
            4
        } else if main_key == STAT_DEF_PCT {
            5
        } else if main_key == STAT_CRIT_DMG {
            6
        } else if main_key == STAT_CRIT_RATE {
            7
        } else {
            8
        };
        assert(all[k] == main_key);
        lemma_filter_len_without(all, main_key, k);
    }
}

proof fn lemma_filter_len_without(s: Seq<u32>, x: u32, k: int)
    requires
        s.no_duplicates(),
        0 <= k < s.len(),
        s[k] == x,
    ensures
        s.filter(other_than(x)).len() == s.len() - 1,
    decreases s.len(),
{
    reveal(Seq::filter);
    let d = s.drop_last();
    assert(d.no_duplicates()) by {
        assert forall|i: int, j: int| 0 <= i < d.len() && 0 <= j < d.len() && i != j implies d[i]
            != d[j] by {
            assert(d[i] == s[i] && d[j] == s[j]);
        }
    }
    if k == s.len() - 1 {
        lemma_filter_all_kept(d, x);
    } else {
        assert(d[k] == x);
        lemma_filter_len_without(d, x, k);
        assert(s.last() != x);
    }
}

proof fn lemma_filter_all_kept(s: Seq<u32>, x: u32)
    requires
        !s.contains(x),
    ensures
        s.filter(other_than(x)).len() == s.len(),
    decreases s.len(),
{
    reveal(Seq::filter);
    if s.len() > 0 {
        let d = s.drop_last();
        assert(!d.contains(x)) by {
            if d.contains(x) {
                let m = choose|m: int| 0 <= m < d.len() && d[m] == x;
                assert(s[m] == x);
            }
        }
        lemma_filter_all_kept(d, x);
        assert(s[s.len() - 1] != x);
    }
}

/// Every main stat, in the filter panel's order.
pub open spec fn spec_all_main_stat_keys() -> Seq<u32> {
    seq![
        STAT_HP,
        STAT_ATK,
        STAT_DEF,
        STAT_HP_PCT,
        STAT_ATK_PCT,
        STAT_DEF_PCT,
        STAT_CRIT_RATE,
        STAT_CRIT_DMG,
        STAT_ANOMALY_PROF,
        STAT_PEN_RATIO,
        STAT_ANOMALY_MASTERY,
        STAT_IMPACT,
        STAT_ENERGY_REGEN,
        STAT_PHYSICAL_DMG,
        STAT_FIRE_DMG,
        STAT_ICE_DMG,
        STAT_ELECTRIC_DMG,
        STAT_ETHER_DMG,
    ]
}

pub fn all_main_stat_keys() -> (v: Vec<u32>)
    ensures
        v@ == spec_all_main_stat_keys(),
{
    let v = vec![
        STAT_HP,
        STAT_ATK,
        STAT_DEF,
        STAT_HP_PCT,
        STAT_ATK_PCT,
        STAT_DEF_PCT,
        STAT_CRIT_RATE,
        STAT_CRIT_DMG,
        STAT_ANOMALY_PROF,
        STAT_PEN_RATIO,
        STAT_ANOMALY_MASTERY,
        STAT_IMPACT,
        STAT_ENERGY_REGEN,
        STAT_PHYSICAL_DMG,
        STAT_FIRE_DMG,
        STAT_ICE_DMG,
        STAT_ELECTRIC_DMG,
        STAT_ETHER_DMG,
    ];
    assert(v@ =~= spec_all_main_stat_keys());
    v
}

/// Which slots take which main stat: flat HP only on slot 1, flat ATK only
/// on slot 2, flat DEF only on slot 3; the percentage ATK, HP and DEF on
/// slots 4, 5 and 6; crit rate, crit damage and anomaly proficiency only on
/// slot 4; the five damage bonuses and PEN ratio only on slot 5; anomaly
/// mastery, impact and energy regen only on slot 6. No slot lists a stat
/// twice, and a slot outside 1..=6 takes none.
pub proof fn law_main_stat_slots(slot: u32, k: u32)
    ensures
        spec_main_stat_options(slot).contains(k) <==> {
            ||| (k == 11103 && slot == 1)
            ||| (k == 12103 && slot == 2)
            ||| (k == 13103 && slot == 3)
            ||| ((k == 12102 || k == 11102 || k == 13102) && 4 <= slot <= 6)
            ||| ((k == 20103 || k == 21103 || k == 31203) && slot == 4)
            ||| ((k == 31503 || k == 31603 || k == 31703 || k == 31803 || k == 31903 || k == 23202) && slot == 5)
            ||| ((k == 31402 || k == 12202 || k == 30502) && slot == 6)
        },
        spec_main_stat_options(slot).no_duplicates(),
        !(1 <= slot <= 6) ==> spec_main_stat_options(slot).len() == 0,
{
    let s = spec_main_stat_options(slot);
    if s.contains(k) {
        let i = choose|i: int| 0 <= i < s.len() && s[i] == k;
        assert(s[i] == k);
    }
    if slot == 1 {
        if k == 11103 {
            assert(s[0] == k);
        }
    } else if slot == 2 {
        if k == 12103 {
            assert(s[0] == k);
        }
    } else if slot == 3 {
        if k == 13103 {
            assert(s[0] == k);
        }
    } else if slot == 4 {
        if k == 12102 {
            assert(s[0] == k);
        } else if k == 11102 {
            assert(s[1] == k);
        } else if k == 13102 {
            assert(s[2] == k);
        } else if k == 20103 {
            assert(s[3] == k);
        } else if k == 21103 {
            assert(s[4] == k);
        } else if k == 31203 {
            assert(s[5] == k);
        }
    } else if slot == 5 {
        if k == 12102 {
            assert(s[0] == k);
        } else if k == 11102 {
            assert(s[1] == k);
        } else if k == 13102 {
            assert(s[2] == k);
        } else if k == 31503 {
            assert(s[3] == k);
        } else if k == 31703 {
            assert(s[4] == k);
        } else if k == 31603 {
            assert(s[5] == k);
        } else if k == 31803 {
            assert(s[6] == k);
        } else if k == 31903 {
            assert(s[7] == k);
        } else if k == 23202 {
            assert(s[8] == k);
        }
    } else if slot == 6 {
        if k == 12102 {
            assert(s[0] == k);
        } else if k == 11102 {
            assert(s[1] == k);
        } else if k == 13102 {
            assert(s[2] == k);
        } else if k == 31402 {
            assert(s[3] == k);
        } else if k == 12202 {
            assert(s[4] == k);
        } else if k == 30502 {
            assert(s[5] == k);
        }
    }
}

/// Every main stat the editor knows is a main stat option of some slot, and
/// every slot's options are main stats it knows.
pub proof fn law_main_stats_are_slot_options(k: u32)
    ensures
        spec_all_main_stat_keys().contains(k) <==> exists|slot: u32|
            1 <= slot <= 6 && #[trigger] spec_main_stat_options(slot).contains(k),
{
    let all = spec_all_main_stat_keys();
    if all.contains(k) {
        let i = choose|i: int| 0 <= i < all.len() && all[i] == k;
        let slot: u32 = if k == 11103 {
            1
        } else if k == 12103 {
            2
        } else if k == 13103 {
            3
        } else if k == 20103 || k == 21103 || k == 31203 || k == 12102 || k == 11102 || k == 13102 {
            4
        } else if k == 31503 || k == 31603 || k == 31703 || k == 31803 || k == 31903 || k == 23202 {
            5
        } else {
            6
        };
        law_main_stat_slots(slot, k);
        assert(spec_main_stat_options(slot).contains(k));
    }
    if exists|slot: u32| 1 <= slot <= 6 && #[trigger] spec_main_stat_options(slot).contains(k) {
        let slot = choose|slot: u32| 1 <= slot <= 6 && #[trigger] spec_main_stat_options(slot).contains(k);
        law_main_stat_slots(slot, k);
        if k == 11103 {
            assert(all[0] == k);
        } else if k == 12103 {
            assert(all[1] == k);
        } else if k == 13103 {
            assert(all[2] == k);
        } else if k == 11102 {
            assert(all[3] == k);
        } else if k == 12102 {
            assert(all[4] == k);
        } else if k == 13102 {
            assert(all[5] == k);
        } else if k == 20103 {
            assert(all[6] == k);
        } else if k == 21103 {
            assert(all[7] == k);
        } else if k == 31203 {
            assert(all[8] == k);
        } else if k == 23202 {
            assert(all[9] == k);
        } else if k == 31402 {
            assert(all[10] == k);
        } else if k == 12202 {
            assert(all[11] == k);
        } else if k == 30502 {
            assert(all[12] == k);
        } else if k == 31503 {
            assert(all[13] == k);
        } else if k == 31603 {
            assert(all[14] == k);
        } else if k == 31703 {
            assert(all[15] == k);
        } else if k == 31803 {
            assert(all[16] == k);
        } else {
            assert(all[17] == k);
        }
    }
}

/// The sum of a sequence of roll counts.
pub open spec fn seq_sum(s: Seq<u32>) -> int
    decreases s.len(),
{
    if s.len() == 0 {
        0
    } else {
        seq_sum(s.drop_last()) + s.last()
    }
}

/// A roll count as the editor keeps it: at least one, at most six.
pub open spec fn clamp_procs(p: u32) -> u32 {
    if p == 0 {
        1
    } else if p > 6 {
        6
    } else {
        p
    }
}

/// The sub stats kept from the first `n` slots of the form: a slot is kept when
/// its stat may be rolled beside `main_key`, was not kept before, and has a base
/// value. Gives the kept stats, their base values and their clamped roll counts.
pub open spec fn sub_pick(main_key: u32, keys: Seq<u32>, procs: Seq<u32>, n: nat) -> (
    Seq<u32>,
    Seq<u32>,
    Seq<u32>,
)
    decreases n,
{
    if n == 0 {
        (Seq::empty(), Seq::empty(), Seq::empty())
    } else {
        let prev = sub_pick(main_key, keys, procs, (n - 1) as nat);
        let key = keys[n - 1];
        if key == 0 || !spec_sub_stat_options(main_key).contains(key) || prev.0.contains(key)
            || spec_sub_base_value(key) is None {
            prev
        } else {
            (
                prev.0.push(key),
                prev.1.push(spec_sub_base_value(key).unwrap()),
                prev.2.push(clamp_procs(procs[n - 1])),
            )
        }
    }
}

/// Takes rolls away from the last `i` entries, the last entry first, each down
/// to one roll at least, until at most nine rolls remain in all.
pub open spec fn reduce_from_back(add: Seq<u32>, i: int, total: int) -> Seq<u32>
    decreases i,
{
    if i <= 0 || total <= 9 {
        add
    } else {
        let p = add[i - 1];
        let reducible: int = if p >= 1 { p - 1 } else { 0 };
        let excess: int = total - 9;
        let reduce: int = if excess < reducible { excess } else { reducible };
        reduce_from_back(add.update(i - 1, (p - reduce) as u32), i - 1, total - reduce)
    }
}

/// What the editor keeps of the four sub stat slots of a disc.
pub open spec fn spec_validate_sub_stats(main_key: u32, keys: Seq<u32>, procs: Seq<u32>) -> (
    Seq<u32>,
    Seq<u32>,
    Seq<u32>,
) {
    let p = sub_pick(main_key, keys, procs, 4);
    (p.0, p.1, reduce_from_back(p.2, p.2.len() as int, seq_sum(p.2)))
}

/// A form whose four sub stats are distinct stats that may be rolled beside
/// the main stat, each with one to six rolls and nine rolls in all, is kept
/// as it is: the same stats in the same order, their base values, and the
/// same roll counts.
pub proof fn law_valid_sub_stats_kept(main_key: u32, keys: Seq<u32>, procs: Seq<u32>)
    requires
        keys.len() == 4,
        procs.len() == 4,
        forall|i: int|
            0 <= i < 4 ==> #[trigger] keys[i] != 0 && spec_sub_stat_options(main_key).contains(keys[i])
                && spec_sub_base_value(keys[i]) is Some,
        forall|i: int, j: int| 0 <= i < j < 4 ==> keys[i] != keys[j],
        forall|i: int| 0 <= i < 4 ==> 1 <= #[trigger] procs[i] <= 6,
        procs[0] + procs[1] + procs[2] + procs[3] <= 9,
    ensures
        spec_validate_sub_stats(main_key, keys, procs).0 == keys,
        spec_validate_sub_stats(main_key, keys, procs).2 == procs,
        forall|i: int|
            0 <= i < 4 ==> spec_sub_base_value(keys[i]) == Some(
                #[trigger] spec_validate_sub_stats(main_key, keys, procs).1[i],
            ),
{
    let p1 = sub_pick(main_key, keys, procs, 1);
    let p2 = sub_pick(main_key, keys, procs, 2);
    let p3 = sub_pick(main_key, keys, procs, 3);
    let p4 = sub_pick(main_key, keys, procs, 4);
    assert(keys[0] != 0 && spec_sub_base_value(keys[0]) is Some);
    assert(keys[1] != 0 && spec_sub_base_value(keys[1]) is Some);
    assert(keys[2] != 0 && spec_sub_base_value(keys[2]) is Some);
    assert(keys[3] != 0 && spec_sub_base_value(keys[3]) is Some);
    assert(1 <= procs[0] <= 6 && 1 <= procs[1] <= 6 && 1 <= procs[2] <= 6 && 1 <= procs[3] <= 6);
    assert(sub_pick(main_key, keys, procs, 0).0 =~= Seq::<u32>::empty());
    assert(p1.0 =~= seq![keys[0]]);
    assert(!p1.0.contains(keys[1])) by {
        assert(keys[0] != keys[1]);
    }
    assert(p2.0 =~= seq![keys[0], keys[1]]);
    assert(!p2.0.contains(keys[2])) by {
        assert(keys[0] != keys[2] && keys[1] != keys[2]);
        if p2.0.contains(keys[2]) {
            let m = choose|m: int| 0 <= m < p2.0.len() && p2.0[m] == keys[2];
        }
    }
    assert(p3.0 =~= seq![keys[0], keys[1], keys[2]]);
    assert(!p3.0.contains(keys[3])) by {
        assert(keys[0] != keys[3] && keys[1] != keys[3] && keys[2] != keys[3]);
        if p3.0.contains(keys[3]) {
            let m = choose|m: int| 0 <= m < p3.0.len() && p3.0[m] == keys[3];
        }
    }
    assert(p4.0 =~= keys);
    assert(p4.2 =~= procs);
    reveal_with_fuel(seq_sum, 5);
    assert(seq_sum(p4.2) <= 9);
}

pub proof fn lemma_seq_sum_update(s: Seq<u32>, k: int, v: u32)
    requires
        0 <= k < s.len(),
    ensures
        seq_sum(s.update(k, v)) == seq_sum(s) - s[k] + v,
    decreases s.len(),
{
    let u = s.update(k, v);
    if k == s.len() - 1 {
        assert(u.drop_last() =~= s.drop_last());
    } else {
        lemma_seq_sum_update(s.drop_last(), k, v);
        assert(u.drop_last() =~= s.drop_last().update(k, v));
    }
}

pub proof fn lemma_seq_sum_bounds(s: Seq<u32>, lo: int, hi: int)
    requires
        forall|j: int| 0 <= j < s.len() ==> lo <= #[trigger] s[j] <= hi,
    ensures
        s.len() * lo <= seq_sum(s) <= s.len() * hi,
    decreases s.len(),
{
    if s.len() > 0 {
        lemma_seq_sum_bounds(s.drop_last(), lo, hi);
        assert(s.len() * lo == (s.len() - 1) * lo + lo) by (nonlinear_arith);
        assert(s.len() * hi == (s.len() - 1) * hi + hi) by (nonlinear_arith);
    }
}

proof fn lemma_sub_pick_shape(main_key: u32, keys: Seq<u32>, procs: Seq<u32>, n: nat)
    ensures
        ({
            let p = sub_pick(main_key, keys, procs, n);
            &&& p.0.len() == p.1.len() == p.2.len() <= n
            &&& forall|i: int, j: int| 0 <= i < j < p.0.len() ==> p.0[i] != p.0[j]
            &&& forall|i: int|
                0 <= i < p.0.len() ==> #[trigger] spec_sub_stat_options(main_key).contains(p.0[i])
            &&& forall|i: int|
                0 <= i < p.0.len() ==> spec_sub_base_value(p.0[i]) == Some(#[trigger] p.1[i])
            &&& forall|i: int| 0 <= i < p.2.len() ==> 1 <= #[trigger] p.2[i] <= 6
        }),
    decreases n,
{
    if n > 0 {
        lemma_sub_pick_shape(main_key, keys, procs, (n - 1) as nat);
        let prev = sub_pick(main_key, keys, procs, (n - 1) as nat);
        let key = keys[n - 1];
        if !(key == 0 || !spec_sub_stat_options(main_key).contains(key) || prev.0.contains(key)
            || spec_sub_base_value(key) is None) {
            let p = sub_pick(main_key, keys, procs, n);
            assert forall|i: int, j: int| 0 <= i < j < p.0.len() implies p.0[i] != p.0[j] by {
                if j == p.0.len() - 1 {
                    assert(prev.0[i] == p.0[i]);
                }
            }
        }
    }
}

/// Checks the four sub stat slots of a disc with main stat `main_key`.
///
/// A slot is kept when its stat may be rolled beside the main stat, was not
/// kept from an earlier slot and has a base value; its roll count is clamped
/// to one through six. Where more than nine rolls remain in all, rolls are
/// taken from the last kept stat first, each keeping one at least.
/// Gives the kept stats, their base values and their roll counts.
pub fn validate_sub_stats(main_key: u32, sub_keys: &[u32; 4], sub_procs: &[u32; 4]) -> (r: (
    Vec<u32>,
    Vec<u32>,
    Vec<u32>,
))
    ensures
        (r.0@, r.1@, r.2@) == spec_validate_sub_stats(main_key, sub_keys@, sub_procs@),
        r.0@.len() == r.1@.len() == r.2@.len() <= 4,
        forall|i: int, j: int| 0 <= i < j < r.0@.len() ==> r.0@[i] != r.0@[j],
        forall|i: int|
            0 <= i < r.0@.len() ==> #[trigger] spec_sub_stat_options(main_key).contains(r.0@[i]),
        forall|i: int| 0 <= i < r.0@.len() ==> spec_sub_base_value(r.0@[i]) == Some(#[trigger] r.1@[i]),
        forall|i: int| 0 <= i < r.2@.len() ==> 1 <= #[trigger] r.2@[i] <= 6,
        seq_sum(r.2@) <= 9,
{
    let allowed_subs = disk_sub_stat_options(main_key);
    let mut keys: Vec<u32> = Vec::new();
    let mut base: Vec<u32> = Vec::new();
    let mut add: Vec<u32> = Vec::new();
    let mut idx: usize = 0;
    proof {
        assert(sub_keys@.len() == 4) by {
            vstd::array::array_len_matches_n(sub_keys);
        }
        assert(sub_procs@.len() == 4) by {
            vstd::array::array_len_matches_n(sub_procs);
        }
    }
    while idx < 4
        invariant
            idx <= 4,
            sub_keys@.len() == 4,
            sub_procs@.len() == 4,
            allowed_subs@ == spec_sub_stat_options(main_key),
            (keys@, base@, add@) == sub_pick(main_key, sub_keys@, sub_procs@, idx as nat),
        decreases 4 - idx,
    {
        let key = sub_keys[idx];
        let procs_in = sub_procs[idx];
        proof {
            lemma_sub_pick_shape(main_key, sub_keys@, sub_procs@, idx as nat);
        }
        if key != 0 && contains_u32(&allowed_subs, key) && !contains_u32(&keys, key) {
            match disk_sub_base_value(key) {
                Some(stat_base) => {
                    let mut procs = procs_in;
                    if procs == 0 {
                        procs = 1;
                    }
                    if procs > 6 {
                        procs = 6;
                    }
                    keys.push(key);
                    base.push(stat_base);
                    add.push(procs);
                },
                None => {},
            }
        }
        idx = idx + 1;
    }
    proof {
        lemma_sub_pick_shape(main_key, sub_keys@, sub_procs@, 4);
    }
    let ghost picked = add@;
    let n = add.len();
    let mut total: u32 = 0;
    let mut k: usize = 0;
    while k < n
        invariant
            k <= n == add@.len() <= 4,
            add@ == picked,
            forall|j: int| 0 <= j < add@.len() ==> 1 <= #[trigger] add@[j] <= 6,
            total == seq_sum(add@.subrange(0, k as int)),
            total <= 6 * k,
        decreases n - k,
    {
        proof {
            assert(add@.subrange(0, k + 1).drop_last() =~= add@.subrange(0, k as int));
        }
        total = total + add[k];
        k = k + 1;
    }
    assert(add@.subrange(0, n as int) =~= add@);
    let mut i: usize = n;
    while i > 0 && total > 9
        invariant
            i <= n == add@.len() <= 4,
            forall|j: int| 0 <= j < add@.len() ==> 1 <= #[trigger] add@[j] <= 6,
            total == seq_sum(add@),
            reduce_from_back(add@, i as int, total as int) == reduce_from_back(
                picked,
                picked.len() as int,
                seq_sum(picked),
            ),
            forall|j: int| i <= j < n ==> add@[j] == 1 || total <= 9,
        decreases i,
    {
        let p = add[i - 1];
        let excess = total - 9;
        let reducible = p - 1;
        let reduce = if excess < reducible {
            excess
        } else {
            reducible
        };
        proof {
            lemma_seq_sum_update(add@, i - 1, (p - reduce) as u32);
        }
        add.set(i - 1, p - reduce);
        total = total - reduce;
        i = i - 1;
    }
    proof {
        if total > 9 {
            lemma_seq_sum_bounds(add@, 1, 1);
        }
    }
    (keys, base, add)
}

/// Four form slots holding `s` and then empty (0) slots.
pub open spec fn pad4(s: Seq<u32>) -> Seq<u32> {
    Seq::new(4, |i: int| if i < s.len() { s[i] } else { 0u32 })
}

proof fn lemma_reduce_from_back_shape(add: Seq<u32>, i: int, total: int)
    requires
        0 <= i <= add.len() <= 4,
        total == seq_sum(add),
        forall|j: int| 0 <= j < add.len() ==> 1 <= #[trigger] add[j] <= 6,
        forall|j: int| i <= j < add.len() ==> add[j] == 1 || total <= 9,
    ensures
        reduce_from_back(add, i, total).len() == add.len(),
        forall|j: int|
            0 <= j < add.len() ==> 1 <= #[trigger] reduce_from_back(add, i, total)[j] <= 6,
        seq_sum(reduce_from_back(add, i, total)) <= 9,
    decreases i,
{
    if i <= 0 || total <= 9 {
        if total > 9 {
            lemma_seq_sum_bounds(add, 1, 1);
        }
    } else {
        let p = add[i - 1];
        let reducible: int = if p >= 1 { p - 1 } else { 0 };
        let excess: int = total - 9;
        let reduce: int = if excess < reducible { excess } else { reducible };
        let next = add.update(i - 1, (p - reduce) as u32);
        lemma_seq_sum_update(add, i - 1, (p - reduce) as u32);
        lemma_reduce_from_back_shape(next, i - 1, total - reduce);
    }
}

proof fn lemma_reduce_from_back_cut(add: Seq<u32>, i: int, total: int)
    requires
        0 <= i <= add.len() <= 4,
        total == seq_sum(add),
        forall|j: int| 0 <= j < add.len() ==> 1 <= #[trigger] add[j] <= 6,
    ensures
        ({
            let r = reduce_from_back(add, i, total);
            &&& r.len() == add.len()
            &&& forall|j: int| i <= j < add.len() ==> #[trigger] r[j] == add[j]
            &&& forall|j: int| 0 <= j < i ==> 1 <= #[trigger] r[j] <= add[j]
            &&& forall|a: int, b: int| 0 <= a < b < i && #[trigger] r[a] != add[a] ==> #[trigger] r[b] == 1
            &&& total <= 9 ==> r == add
            &&& total > 9 ==> seq_sum(r) >= 9
            &&& seq_sum(r) <= 9 || (forall|j: int| 0 <= j < i ==> #[trigger] r[j] == 1)
        }),
    decreases i,
{
    let r = reduce_from_back(add, i, total);
    if i <= 0 || total <= 9 {
        assert(forall|j: int| 0 <= j < i ==> r[j] == add[j]);
    } else {
        let p = add[i - 1];
        let reducible: int = if p >= 1 { p - 1 } else { 0 };
        let excess: int = total - 9;
        let reduce: int = if excess < reducible { excess } else { reducible };
        let next = add.update(i - 1, (p - reduce) as u32);
        lemma_seq_sum_update(add, i - 1, (p - reduce) as u32);
        lemma_reduce_from_back_cut(next, i - 1, total - reduce);
        assert(r == reduce_from_back(next, i - 1, total - reduce));
        if reduce == reducible {
            assert(r[i - 1] == 1);
        } else {
            assert(total - reduce == 9);
            assert(r == next);
        }
        assert forall|a: int, b: int| 0 <= a < b < i && #[trigger] r[a] != add[a] implies #[trigger] r[b] == 1 by {
            if b < i - 1 {
                assert(next[a] == add[a]);
            }
        }
    }
}

/// The rolls of the kept sub stats are trimmed from the back: a form with
/// nine rolls or fewer keeps its rolls; one with more ends with exactly nine.
/// No stat gains rolls or falls below one, and once a stat has lost rolls,
/// every stat after it is down to one roll.
pub proof fn law_sub_rolls_trimmed_from_back(main_key: u32, keys: Seq<u32>, procs: Seq<u32>)
    requires
        keys.len() == 4,
        procs.len() == 4,
    ensures
        ({
            let c = sub_pick(main_key, keys, procs, 4).2;
            let r = spec_validate_sub_stats(main_key, keys, procs).2;
            &&& r.len() == c.len()
            &&& seq_sum(c) <= 9 ==> r == c
            &&& seq_sum(c) > 9 ==> seq_sum(r) == 9
            &&& forall|j: int| 0 <= j < c.len() ==> 1 <= #[trigger] r[j] <= c[j]
            &&& forall|a: int, b: int| 0 <= a < b < c.len() && #[trigger] r[a] != c[a] ==> #[trigger] r[b] == 1
        }),
{
    let c = sub_pick(main_key, keys, procs, 4).2;
    lemma_sub_pick_shape(main_key, keys, procs, 4);
    lemma_reduce_from_back_cut(c, c.len() as int, seq_sum(c));
    let r = spec_validate_sub_stats(main_key, keys, procs).2;
    if seq_sum(c) > 9 && !(seq_sum(r) <= 9) {
        lemma_seq_sum_bounds(r, 1, 1);
    }
}

proof fn lemma_pick_of_padded(main_key: u32, k: Seq<u32>, b: Seq<u32>, a: Seq<u32>, n: nat)
    requires
        k.len() == b.len() == a.len() <= 4,
        n <= 4,
        forall|i: int, j: int| 0 <= i < j < k.len() ==> k[i] != k[j],
        forall|i: int| 0 <= i < k.len() ==> #[trigger] spec_sub_stat_options(main_key).contains(k[i]),
        forall|i: int| 0 <= i < k.len() ==> spec_sub_base_value(k[i]) == Some(#[trigger] b[i]),
        forall|i: int| 0 <= i < a.len() ==> 1 <= #[trigger] a[i] <= 6,
    ensures
        ({
            let m: int = if n <= k.len() { n as int } else { k.len() as int };
            sub_pick(main_key, pad4(k), pad4(a), n) == (k.take(m), b.take(m), a.take(m))
        }),
    decreases n,
{
    if n == 0 {
        assert(k.take(0) =~= Seq::<u32>::empty());
        assert(b.take(0) =~= Seq::<u32>::empty());
        assert(a.take(0) =~= Seq::<u32>::empty());
    } else {
        lemma_pick_of_padded(main_key, k, b, a, (n - 1) as nat);
        let prev = sub_pick(main_key, pad4(k), pad4(a), (n - 1) as nat);
        let key = pad4(k)[n - 1];
        if n - 1 < k.len() {
            let i = n - 1;
            assert(key == k[i]);
            assert(spec_sub_base_value(k[i]) == Some(b[i]));
            assert(key != 0);
            assert(!prev.0.contains(key)) by {
                if prev.0.contains(key) {
                    let j = choose|j: int| 0 <= j < prev.0.len() && prev.0[j] == key;
                    assert(prev.0[j] == k[j]);
                }
            }
            assert(pad4(a)[i] == a[i]);
            assert(clamp_procs(a[i]) == a[i]);
            assert(k.take(i).push(k[i]) =~= k.take(n as int));
            assert(b.take(i).push(b[i]) =~= b.take(n as int));
            assert(a.take(i).push(a[i]) =~= a.take(n as int));
        } else {
            assert(key == 0);
        }
    }
}

/// Validating the sub stats the editor kept gives them back unchanged: the
/// kept stats and roll counts, written into the four slots (empty slots
/// after them), validate to the same stats, base values and roll counts.
pub proof fn law_validate_sub_stats_idempotent(main_key: u32, keys: Seq<u32>, procs: Seq<u32>)
    requires
        keys.len() == 4,
        procs.len() == 4,
    ensures
        ({
            let r = spec_validate_sub_stats(main_key, keys, procs);
            spec_validate_sub_stats(main_key, pad4(r.0), pad4(r.2)) == r
        }),
{
    let p = sub_pick(main_key, keys, procs, 4);
    lemma_sub_pick_shape(main_key, keys, procs, 4);
    lemma_reduce_from_back_shape(p.2, p.2.len() as int, seq_sum(p.2));
    let r = spec_validate_sub_stats(main_key, keys, procs);
    lemma_pick_of_padded(main_key, r.0, r.1, r.2, 4);
    assert(r.0.take(r.0.len() as int) =~= r.0);
    assert(r.1.take(r.1.len() as int) =~= r.1);
    assert(r.2.take(r.2.len() as int) =~= r.2);
}

// ---------------------------------------------------------------------------
// Names of the other stats
// ---------------------------------------------------------------------------

/// A W-Engine template record: its item id and the keys of its base and
/// random stats, where the record gives them.
pub struct WeaponTemplate {
    pub item_id: u64,
    pub base_property: Option<u64>,
    pub rand_property: Option<u64>,
}

/// A record of the W-Engine details dump: its key and the names of its base
/// and random stats, where given.
pub struct WeaponDetail {
    pub key: String,
    pub base_name: Option<String>,
    pub rand_name: Option<String>,
}

pub struct WeaponDetailView {
    pub key: Seq<char>,
    pub base_name: Option<Seq<char>>,
    pub rand_name: Option<Seq<char>>,
}

pub open spec fn opt_view(o: Option<String>) -> Option<Seq<char>> {
    match o {
        Some(s) => Some(s@),
        None => None,
    }
}

impl View for WeaponDetail {
    type V = WeaponDetailView;

    open spec fn view(&self) -> WeaponDetailView {
        WeaponDetailView { key: self.key@, base_name: opt_view(self.base_name), rand_name: opt_view(self.rand_name) }
    }
}

/// `m` with `k` named `v`, unless `m` names `k` already.
pub open spec fn or_insert(m: Map<u32, Seq<char>>, k: u32, v: Seq<char>) -> Map<u32, Seq<char>> {
    if m.contains_key(k) {
        m
    } else {
        m.insert(k, v)
    }
}

/// The names a list of (key, name) pairs gives: the first pair for a key wins.
pub open spec fn names_map(s: Seq<(u32, Seq<char>)>) -> Map<u32, Seq<char>>
    decreases s.len(),
{
    if s.len() == 0 {
        Map::empty()
    } else {
        or_insert(names_map(s.drop_last()), s.last().0, s.last().1)
    }
}

/// The stats of the first `n` W-Engine templates, by item id (a later record
/// of an item replaces an earlier one); absent stats count as 0.
pub open spec fn weapon_props_map(ts: Seq<WeaponTemplate>, n: nat) -> Map<u32, (u32, u32)>
    decreases n,
{
    if n == 0 {
        Map::empty()
    } else {
        let t = ts[n - 1];
        weapon_props_map(ts, (n - 1) as nat).insert(
            t.item_id as u32,
            (
                (match t.base_property {
                    Some(b) => b,
                    None => 0,
                }) as u32,
                (match t.rand_property {
                    Some(r) => r,
                    None => 0,
                }) as u32,
            ),
        )
    }
}

/// The names the first `n` W-Engine detail records add: for a record whose key
/// is a known item, the name of its base stat and of its random stat, where
/// the stat key is not 0.
pub open spec fn detail_names(m: Map<u32, Seq<char>>, props: Map<u32, (u32, u32)>, ds: Seq<WeaponDetailView>, n: nat) -> Map<u32, Seq<char>>
    decreases n,
{
    if n == 0 {
        m
    } else {
        let prev = detail_names(m, props, ds, (n - 1) as nat);
        let d = ds[n - 1];
        match crate::text::spec_parse_u32(d.key) {
            Some(item) => if props.contains_key(item) {
                let (base, rand) = props[item];
                let a = match d.base_name {
                    Some(name) => if base > 0 {
                        or_insert(prev, base, name)
                    } else {
                        prev
                    },
                    None => prev,
                };
                match d.rand_name {
                    Some(name) => if rand > 0 {
                        or_insert(a, rand, name)
                    } else {
                        a
                    },
                    None => a,
                }
            } else {
                prev
            },
            None => prev,
        }
    }
}

/// The names the first `n` Bangboo extra stats add.
pub open spec fn bangboo_names(m: Map<u32, Seq<char>>, bs: Seq<(u64, Seq<char>)>, n: nat) -> Map<u32, Seq<char>>
    decreases n,
{
    if n == 0 {
        m
    } else {
        or_insert(bangboo_names(m, bs, (n - 1) as nat), bs[n - 1].0 as u32, bs[n - 1].1)
    }
}

pub open spec fn details_view(v: Seq<WeaponDetail>) -> Seq<WeaponDetailView> {
    v.map_values(|d: WeaponDetail| d@)
}

pub open spec fn named_view(v: Seq<(u64, String)>) -> Seq<(u64, Seq<char>)> {
    v.map_values(|p: (u64, String)| (p.0, p.1@))
}

/// The names of stats the dumps give: W-Engine stats first, then Bangboo
/// stats; the first name found for a stat wins.
pub open spec fn spec_stat_names(templates: Seq<WeaponTemplate>, details: Seq<WeaponDetailView>, bangboo: Seq<(u64, Seq<char>)>) -> Map<u32, Seq<char>> {
    bangboo_names(
        detail_names(Map::empty(), weapon_props_map(templates, templates.len()), details, details.len()),
        bangboo,
        bangboo.len(),
    )
}

/// Names of stats, by stat key.
pub struct StatNames {
    entries: Vec<(u32, String)>,
}

pub open spec fn entries_names(v: Seq<(u32, String)>) -> Seq<(u32, Seq<char>)> {
    v.map_values(|p: (u32, String)| (p.0, p.1@))
}

impl View for StatNames {
    type V = Map<u32, Seq<char>>;

    closed spec fn view(&self) -> Map<u32, Seq<char>> {
        names_map(entries_names(self.entries@))
    }
}

proof fn lemma_names_map_has(s: Seq<(u32, Seq<char>)>, k: u32)
    ensures
        names_map(s).contains_key(k) <==> exists|i: int| 0 <= i < s.len() && #[trigger] s[i].0 == k,
    decreases s.len(),
{
    if s.len() > 0 {
        let d = s.drop_last();
        lemma_names_map_has(d, k);
        if names_map(d).contains_key(k) {
            let i = choose|i: int| 0 <= i < d.len() && #[trigger] d[i].0 == k;
            assert(s[i].0 == k);
        }
        if exists|i: int| 0 <= i < s.len() && #[trigger] s[i].0 == k {
            let i = choose|i: int| 0 <= i < s.len() && #[trigger] s[i].0 == k;
            if i < s.len() - 1 {
                assert(d[i].0 == k);
            }
        }
    }
}

proof fn lemma_names_map_first(s: Seq<(u32, Seq<char>)>, k: u32, i: int)
    requires
        0 <= i < s.len(),
        s[i].0 == k,
        forall|j: int| 0 <= j < i ==> #[trigger] s[j].0 != k,
    ensures
        names_map(s).contains_key(k),
        names_map(s)[k] == s[i].1,
    decreases s.len(),
{
    let d = s.drop_last();
    if i < s.len() - 1 {
        assert forall|j: int| 0 <= j < i implies #[trigger] d[j].0 != k by {
            assert(d[j] == s[j]);
        }
        lemma_names_map_first(d, k, i);
    } else {
        lemma_names_map_has(d, k);
        if names_map(d).contains_key(k) {
            let m = choose|m: int| 0 <= m < d.len() && #[trigger] d[m].0 == k;
            assert(s[m].0 == k);
        }
    }
}

impl StatNames {
    /// No names.
    pub fn new() -> (r: Self)
        ensures
            r@ == Map::<u32, Seq<char>>::empty(),
    {
        let r = StatNames { entries: Vec::new() };
        assert(entries_names(r.entries@) =~= Seq::empty());
        r
    }

    /// Names `key` `name`, unless it has a name already.
    pub fn name_if_absent(&mut self, key: u32, name: String)
        ensures
            final(self)@ == or_insert(old(self)@, key, name@),
    {
        let ghost before = self.entries@;
        self.entries.push((key, name));
        assert(entries_names(self.entries@).drop_last() =~= entries_names(before));
    }

    /// The name of `key`, if it has one.
    pub fn get(&self, key: u32) -> (r: Option<String>)
        ensures
            match r {
                Some(s) => self@.contains_key(key) && self@[key] == s@,
                None => !self@.contains_key(key),
            },
    {
        let ghost es = entries_names(self.entries@);
        let mut i: usize = 0;
        while i < self.entries.len()
            invariant
                i <= self.entries@.len(),
                es == entries_names(self.entries@),
                forall|j: int| 0 <= j < i ==> #[trigger] es[j].0 != key,
            decreases self.entries.len() - i,
        {
            assert(es[i as int] == (self.entries@[i as int].0, self.entries@[i as int].1@));
            if self.entries[i].0 == key {
                proof {
                    lemma_names_map_first(es, key, i as int);
                }
                return Some(self.entries[i].1.clone());
            }
            i = i + 1;
        }
        proof {
            lemma_names_map_has(es, key);
        }
        None
    }
}

/// The stats of the W-Engine templates, by item id.
fn weapon_props(templates: &Vec<WeaponTemplate>) -> (r: Vec<(u32, (u32, u32))>)
    ensures
        forall|item: u32|
            #![trigger weapon_props_map(templates@, templates@.len()).contains_key(item)]
            lookup_last(r@, item) == if weapon_props_map(templates@, templates@.len()).contains_key(item) {
                Some(weapon_props_map(templates@, templates@.len())[item])
            } else {
                None
            },
{
    let mut r: Vec<(u32, (u32, u32))> = Vec::new();
    let mut i: usize = 0;
    while i < templates.len()
        invariant
            i <= templates@.len(),
            forall|item: u32|
                #![trigger weapon_props_map(templates@, i as nat).contains_key(item)]
                lookup_last(r@, item) == if weapon_props_map(templates@, i as nat).contains_key(item) {
                    Some(weapon_props_map(templates@, i as nat)[item])
                } else {
                    None
                },
        decreases templates.len() - i,
    {
        let t = &templates[i];
        let base: u32 = #[verifier::truncate] (match t.base_property {
            Some(b) => b,
            None => 0,
        } as u32);
        let rand: u32 = #[verifier::truncate] (match t.rand_property {
            Some(x) => x,
            None => 0,
        } as u32);
        let id: u32 = #[verifier::truncate] (t.item_id as u32);
        let ghost before = r@;
        let ghost prev = weapon_props_map(templates@, i as nat);
        r.push((id, (base, rand)));
        i = i + 1;
        proof {
            let cur = weapon_props_map(templates@, i as nat);
            assert(templates@[i - 1] == *t);
            assert(cur == prev.insert(id, (base, rand)));
            assert(r@.drop_last() =~= before);
            assert(r@.last() == (id, (base, rand)));
            assert forall|item: u32|
                #![trigger weapon_props_map(templates@, i as nat).contains_key(item)]
                lookup_last(r@, item) == if weapon_props_map(templates@, i as nat).contains_key(item) {
                    Some(weapon_props_map(templates@, i as nat)[item])
                } else {
                    None
                } by {
                if item != id {
                    assert(prev.contains_key(item) ==> true);
                    assert(lookup_last(r@, item) == lookup_last(before, item));
                }
            }
        }
    }
    r
}

/// The value of the last pair for `k`.
pub open spec fn lookup_last(s: Seq<(u32, (u32, u32))>, k: u32) -> Option<(u32, u32)>
    decreases s.len(),
{
    if s.len() == 0 {
        None
    } else if s.last().0 == k {
        Some(s.last().1)
    } else {
        lookup_last(s.drop_last(), k)
    }
}

fn find_props(props: &Vec<(u32, (u32, u32))>, item: u32) -> (r: Option<(u32, u32)>)
    ensures
        r == lookup_last(props@, item),
{
    let mut j = props.len();
    assert(props@.subrange(0, j as int) =~= props@);
    while j > 0
        invariant
            j <= props@.len(),
            lookup_last(props@.subrange(0, j as int), item) == lookup_last(props@, item),
        decreases j,
    {
        assert(props@.subrange(0, j as int).drop_last() =~= props@.subrange(0, j - 1));
        if props[j - 1].0 == item {
            return Some(props[j - 1].1);
        }
        j = j - 1;
    }
    None
}

/// Gathers the names of stats from the dumps: the W-Engine templates, the
/// W-Engine details (in the order of the dump) and the Bangboo extra stats
/// (id and name, in the order of the dump).
pub fn build_stat_names(templates: &Vec<WeaponTemplate>, details: &Vec<WeaponDetail>, bangboo: &Vec<(u64, String)>) -> (r: StatNames)
    ensures
        r@ == spec_stat_names(templates@, details_view(details@), named_view(bangboo@)),
{
    let props = weapon_props(templates);
    let ghost pm = weapon_props_map(templates@, templates@.len());
    let ghost dv = details_view(details@);
    let mut names = StatNames::new();
    let mut i: usize = 0;
    while i < details.len()
        invariant
            i <= details@.len(),
            dv == details_view(details@),
            pm == weapon_props_map(templates@, templates@.len()),
            forall|item: u32|
                #![trigger pm.contains_key(item)]
                lookup_last(props@, item) == if pm.contains_key(item) {
                    Some(pm[item])
                } else {
                    None
                },
            names@ == detail_names(Map::empty(), pm, dv, i as nat),
        decreases details.len() - i,
    {
        let d = &details[i];
        assert(dv[i as int] == d@);
        let key = chars_of(d.key.as_str());
        match parse_u32_chars(&key) {
            Some(item) => {
                assert(pm.contains_key(item) ==> true);
                match find_props(&props, item) {
                    Some((base, rand)) => {
                        match &d.base_name {
                            Some(n) => {
                                if base > 0 {
                                    names.name_if_absent(base, n.clone());
                                }
                            },
                            None => {},
                        }
                        match &d.rand_name {
                            Some(n) => {
                                if rand > 0 {
                                    names.name_if_absent(rand, n.clone());
                                }
                            },
                            None => {},
                        }
                    },
                    None => {},
                }
            },
            None => {},
        }
        i = i + 1;
    }
    let ghost bv = named_view(bangboo@);
    let mut k: usize = 0;
    while k < bangboo.len()
        invariant
            k <= bangboo@.len(),
            bv == named_view(bangboo@),
            names@ == bangboo_names(
                detail_names(Map::empty(), pm, dv, dv.len()),
                bv,
                k as nat,
            ),
        decreases bangboo.len() - k,
    {
        let (id, name) = &bangboo[k];
        assert(bv[k as int] == (*id, name@));
        let key: u32 = #[verifier::truncate] (*id as u32);
        names.name_if_absent(key, name.clone());
        k = k + 1;
    }
    names
}

/// Where the label of a stat comes from.
pub enum StatLabel {
    /// The translation of this key.
    Translated(&'static str),
    /// This name from the dumps.
    Named(String),
    /// Neither knows the stat: "unknown" and its key.
    Unknown(u32),
}

/// The label of a stat: its translation where the panel has one, else its
/// name from the dumps, else "unknown" with its key.
pub fn stat_label(names: &StatNames, key: u32) -> (r: StatLabel)
    ensures
        match r {
            StatLabel::Translated(k) => spec_disk_stat_label_key(key) == Some(k@),
            StatLabel::Named(n) => spec_disk_stat_label_key(key) is None && names@.contains_key(key)
                && names@[key] == n@,
            StatLabel::Unknown(k) => spec_disk_stat_label_key(key) is None && !names@.contains_key(key)
                && k == key,
        },
{
    match disk_stat_label_key(key) {
        Some(k) => StatLabel::Translated(k),
        None => match names.get(key) {
            Some(n) => StatLabel::Named(n),
            None => StatLabel::Unknown(key),
        },
    }
}

} // verus!
