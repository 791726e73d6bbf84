use vstd::prelude::*;
use crate::discs::{
    disk_main_base_value, disk_main_stat_options, disk_sub_base_value, disk_sub_stat_options,
    law_sub_stat_options, lemma_seq_sum_bounds, lemma_seq_sum_update, normalize_disk_main_stat,
    seq_sum, spec_main_base_value, spec_main_stat_options, spec_sub_base_value,
    spec_sub_stat_options, spec_validate_sub_stats, validate_sub_stats,
};
use crate::text::{chars_eq, chars_of, find_char, parse_u32_chars, spec_find_char, sub_chars};
use crate::save::{equip_views, EquipItemSave, EquipModel, EquipProperty, PlayerSave};
use crate::templates::{
    force_disc_fourth_digit, resolve_equip_item_id, spec_equip_slot,
    spec_force_disc_fourth_digit, equip_slot, EquipTemplateIndex, IndexModel,
};

verus! {

/// The most discs a save may hold.
pub const MAX_DISCS: usize = 3000;

// ---------------------------------------------------------------------------
// Reading discs
// ---------------------------------------------------------------------------

/// The main stat line of a disc as (key, base value, rolls); zeros where it
/// has none.
pub open spec fn spec_main_property(e: EquipModel) -> (u32, u32, u32) {
    if e.properties.len() > 0 {
        (e.properties[0].key, e.properties[0].base_value, e.properties[0].add_value)
    } else {
        (0, 0, 0)
    }
}

pub fn equip_main_property(equip: &EquipItemSave) -> (r: (u32, u32, u32))
    ensures
        r == spec_main_property(equip@),
{
    if equip.properties.len() > 0 {
        let p = equip.properties[0];
        (p.key, p.base_value, p.add_value)
    } else {
        (0, 0, 0)
    }
}

pub open spec fn property_triple(p: EquipProperty) -> (u32, u32, u32) {
    (p.key, p.base_value, p.add_value)
}

/// The sub stat lines of a disc: the (at most four) lines after the main one.
pub open spec fn spec_sub_properties(e: EquipModel) -> Seq<(u32, u32, u32)> {
    let n = e.properties.len();
    if n <= 1 {
        Seq::empty()
    } else {
        e.properties.subrange(1, if n > 5 { 5 } else { n as int }).map_values(
            |p: EquipProperty| property_triple(p),
        )
    }
}

pub fn equip_sub_properties(equip: &EquipItemSave) -> (r: Vec<(u32, u32, u32)>)
    ensures
        r@ == spec_sub_properties(equip@),
{
    let n = equip.properties.len();
    let end = if n > 5 {
        5
    } else {
        n
    };
    let mut r: Vec<(u32, u32, u32)> = Vec::new();
    let mut i: usize = 1;
    while i < end
        invariant
            1 <= i,
            end <= 5,
            end == (if n > 5 { 5 } else { n }),
            n == equip.properties@.len(),
            i <= end || (end == 0 && i == 1),
            r@.len() == i - 1,
            forall|k: int| 0 <= k < r@.len() ==> r@[k] == property_triple(equip.properties@[k + 1]),
        decreases end - i,
    {
        let p = equip.properties[i];
        r.push((p.key, p.base_value, p.add_value));
        i = i + 1;
    }
    proof {
        let e = equip@;
        if n > 1 {
            let sub = e.properties.subrange(1, end as int);
            let spec_r = sub.map_values(|p: EquipProperty| property_triple(p));
            assert(i == end);
            assert forall|k: int| 0 <= k < r@.len() implies r@[k] == spec_r[k] by {
                assert(sub[k] == e.properties[k + 1]);
            }
            assert(r@ =~= spec_r);
        } else {
            assert(r@ =~= Seq::<(u32, u32, u32)>::empty());
        }
    }
    r
}

/// The highest disc uid of a save, 0 where it has no disc.
pub open spec fn max_equip_uid(s: Seq<EquipModel>) -> u32
    decreases s.len(),
{
    if s.len() == 0 {
        0
    } else {
        let m = max_equip_uid(s.drop_last());
        if s.last().uid > m {
            s.last().uid
        } else {
            m
        }
    }
}

proof fn lemma_max_equip_uid(s: Seq<EquipModel>)
    ensures
        forall|i: int| 0 <= i < s.len() ==> #[trigger] s[i].uid <= max_equip_uid(s),
        s.len() > 0 ==> exists|i: int| 0 <= i < s.len() && #[trigger] s[i].uid == max_equip_uid(s),
    decreases s.len(),
{
    if s.len() > 0 {
        lemma_max_equip_uid(s.drop_last());
        assert forall|i: int| 0 <= i < s.len() implies #[trigger] s[i].uid <= max_equip_uid(s) by {
            if i < s.len() - 1 {
                assert(s[i] == s.drop_last()[i]);
            }
        }
        if s.last().uid > max_equip_uid(s.drop_last()) {
            assert(s[s.len() - 1].uid == max_equip_uid(s));
        } else if s.len() > 1 {
            let i = choose|i: int|
                0 <= i < s.drop_last().len() && #[trigger] s.drop_last()[i].uid == max_equip_uid(
                    s.drop_last(),
                );
            assert(s[i].uid == max_equip_uid(s));
        } else {
            assert(s[0].uid == max_equip_uid(s)) by {
                assert(s.drop_last().len() == 0);
            }
        }
    }
}

/// The uid a new disc gets: one more than the highest.
pub fn next_equip_uid(save: &PlayerSave) -> (r: u32)
    requires
        max_equip_uid(save@.equip) < u32::MAX,
    ensures
        r == max_equip_uid(save@.equip) + 1,
{
    let mut m: u32 = 0;
    let mut i: usize = 0;
    while i < save.equip.len()
        invariant
            i <= save.equip@.len(),
            m == max_equip_uid(save@.equip.take(i as int)),
        decreases save.equip.len() - i,
    {
        proof {
            let v = save@.equip;
            assert(v.take(i + 1).drop_last() =~= v.take(i as int));
            assert(v.take(i + 1).last() == save.equip@[i as int]@);
        }
        if save.equip[i].uid > m {
            m = save.equip[i].uid;
        }
        i = i + 1;
    }
    assert(save@.equip.take(save.equip@.len() as int) =~= save@.equip);
    m + 1
}

// ---------------------------------------------------------------------------
// Writing discs
// ---------------------------------------------------------------------------

/// The main stat a disc in `slot` gets when `requested` is asked for: the
/// request if the slot allows it, else the slot's first main stat (0 for a
/// slot with none).
pub open spec fn spec_main_key_for(slot: u32, requested: u32) -> u32 {
    let options = spec_main_stat_options(slot);
    if options.contains(requested) {
        requested
    } else if options.len() > 0 {
        options[0]
    } else {
        0
    }
}

/// The stat lines stored for a disc: the main stat with its base value and no
/// rolls, then the sub stats the editor keeps.
pub open spec fn spec_disc_properties(slot: u32, requested_main: u32, sub_keys: Seq<u32>, sub_procs: Seq<u32>) -> Seq<EquipProperty> {
    let m = spec_main_key_for(slot, requested_main);
    let subs = spec_validate_sub_stats(m, sub_keys, sub_procs);
    seq![EquipProperty { key: m, base_value: match spec_main_base_value(m) {
        Some(b) => b,
        None => 0,
    }, add_value: 0 }] + Seq::new(
        subs.0.len(),
        |i: int| EquipProperty { key: subs.0[i], base_value: subs.1[i], add_value: subs.2[i] },
    )
}

pub fn main_key_for(slot: u32, requested: u32) -> (r: u32)
    ensures
        r == spec_main_key_for(slot, requested),
{
    match normalize_disk_main_stat(slot, requested) {
        Some(k) => k,
        None => {
            let options = disk_main_stat_options(slot);
            if options.len() > 0 {
                options[0]
            } else {
                0
            }
        },
    }
}

/// The stat lines of a disc in `slot` from the edit form.
pub fn disc_properties(slot: u32, main_key: u32, sub_keys: &[u32; 4], sub_procs: &[u32; 4]) -> (r: Vec<EquipProperty>)
    ensures
        r@ == spec_disc_properties(slot, main_key, sub_keys@, sub_procs@),
{
    let m = main_key_for(slot, main_key);
    let main_base = match disk_main_base_value(m) {
        Some(b) => b,
        None => 0,
    };
    let (keys, base, add) = validate_sub_stats(m, sub_keys, sub_procs);
    let mut props: Vec<EquipProperty> = Vec::new();
    props.push(EquipProperty { key: m, base_value: main_base, add_value: 0 });
    let mut i: usize = 0;
    while i < keys.len()
        invariant
            i <= keys@.len(),
            keys@.len() == base@.len() == add@.len(),
            props@.len() == i + 1,
            props@[0] == (EquipProperty { key: m, base_value: main_base, add_value: 0 }),
            forall|k: int|
                0 <= k < i ==> props@[k + 1] == (EquipProperty {
                    key: keys@[k],
                    base_value: base@[k],
                    add_value: add@[k],
                }),
        decreases keys.len() - i,
    {
        props.push(EquipProperty { key: keys[i], base_value: base[i], add_value: add[i] });
        i = i + 1;
    }
    assert(props@ =~= spec_disc_properties(slot, main_key, sub_keys@, sub_procs@));
    props
}

/// The index of the first disc with uid `uid`.
pub open spec fn find_equip(s: Seq<EquipModel>, uid: u32) -> Option<int>
    decreases s.len(),
{
    if s.len() == 0 {
        None
    } else {
        match find_equip(s.drop_last(), uid) {
            Some(i) => Some(i),
            None => if s.last().uid == uid {
                Some(s.len() - 1)
            } else {
                None
            },
        }
    }
}

proof fn lemma_find_equip(s: Seq<EquipModel>, uid: u32, i: int)
    requires
        0 <= i < s.len(),
        s[i].uid == uid,
        forall|j: int| 0 <= j < i ==> #[trigger] s[j].uid != uid,
    ensures
        find_equip(s, uid) == Some(i),
    decreases s.len(),
{
    if i < s.len() - 1 {
        lemma_find_equip(s.drop_last(), uid, i);
    } else {
        lemma_find_none(s.drop_last(), uid);
    }
}

proof fn lemma_find_none(s: Seq<EquipModel>, uid: u32)
    requires
        forall|j: int| 0 <= j < s.len() ==> #[trigger] s[j].uid != uid,
    ensures
        find_equip(s, uid) is None,
    decreases s.len(),
{
    if s.len() > 0 {
        lemma_find_none(s.drop_last(), uid);
    }
}

fn position_of_equip(save: &PlayerSave, uid: u32) -> (r: Option<usize>)
    ensures
        match r {
            Some(i) => find_equip(save@.equip, uid) == Some(i as int) && i < save.equip@.len(),
            None => find_equip(save@.equip, uid) is None,
        },
{
    let mut i: usize = 0;
    while i < save.equip.len()
        invariant
            i <= save.equip@.len(),
            forall|j: int| 0 <= j < i ==> #[trigger] save@.equip[j].uid != uid,
        decreases save.equip.len() - i,
    {
        if save.equip[i].uid == uid {
            proof {
                lemma_find_equip(save@.equip, uid, i as int);
            }
            return Some(i);
        }
        i = i + 1;
    }
    proof {
        lemma_find_none(save@.equip, uid);
    }
    None
}

/// The disc `e` after the edit form: new level and star, and stat lines
/// rebuilt for its slot.
pub open spec fn edited_disc(e: EquipModel, level: u32, star: u32, main_key: u32, sub_keys: Seq<u32>, sub_procs: Seq<u32>, idx: IndexModel) -> EquipModel {
    EquipModel {
        uid: e.uid,
        id: e.id,
        level,
        star,
        properties: spec_disc_properties(spec_equip_slot(e.id, idx), main_key, sub_keys, sub_procs),
    }
}

/// Applies the edit form to the disc `equip_uid`; `false` (and no change)
/// where the save has no such disc.
pub fn update_disc(
    save: &mut PlayerSave,
    equip_uid: u32,
    level: u32,
    star: u32,
    main_key: u32,
    sub_keys: &[u32; 4],
    sub_procs: &[u32; 4],
    index: &EquipTemplateIndex,
) -> (found: bool)
    ensures
        found == find_equip(old(save)@.equip, equip_uid) is Some,
        match find_equip(old(save)@.equip, equip_uid) {
            Some(i) => final(save)@ == (crate::save::PlayerModel {
                equip: old(save)@.equip.update(
                    i,
                    edited_disc(
                        old(save)@.equip[i],
                        level,
                        star,
                        main_key,
                        sub_keys@,
                        sub_procs@,
                        index.view(),
                    ),
                ),
                ..old(save)@
            }),
            None => final(save)@ == old(save)@,
        },
{
    match position_of_equip(save, equip_uid) {
        None => false,
        Some(i) => {
            let item_id = save.equip[i].id;
            let slot = equip_slot(item_id, index);
            let properties = disc_properties(slot, main_key, sub_keys, sub_procs);
            let edited = EquipItemSave {
                uid: save.equip[i].uid,
                id: item_id,
                level,
                star,
                properties,
            };
            let ghost before = save.equip@;
            save.equip.set(i, edited);
            assert(equip_views(save.equip@) =~= equip_views(before).update(i as int, edited@));
            true
        },
    }
}

/// Why a disc could not be made.
#[derive(PartialEq, Eq, Structural, Debug, Clone, Copy)]
pub enum DiscError {
    /// The save already holds the most discs it may.
    LimitReached,
    /// The set has no disc for the slot.
    InvalidSetSlot,
    /// The set has no disc in any slot.
    InvalidSet,
    NoSlots,
    /// The slot is not one of 1 through 6.
    SlotRange,
    /// The set has no disc for the chosen slot.
    SlotNotAvailable,
    NoValidMain,
    NotEnoughSubstats,
    ChooseFailed,
    /// The number of discs to make is not one of 1 through 200.
    CountRange,
}

impl DiscError {
    /// The translation key of the error's message.
    pub open spec fn spec_message_key(self) -> Seq<char> {
        match self {
            DiscError::LimitReached => "disc.limit_reached"@,
            DiscError::InvalidSetSlot => "disc.invalid_set_slot"@,
            DiscError::InvalidSet => "disc.invalid_set"@,
            DiscError::NoSlots => "disc.no_slots"@,
            DiscError::SlotRange => "disc.slot_range"@,
            DiscError::SlotNotAvailable => "disc.slot_not_available"@,
            DiscError::NoValidMain => "disc.no_valid_main"@,
            DiscError::NotEnoughSubstats => "disc.not_enough_substats"@,
            DiscError::ChooseFailed => "disc.choose_failed"@,
            DiscError::CountRange => "disc.count_range"@,
        }
    }

    /// The translation key of the error's message.
    pub fn message_key(&self) -> (k: &'static str)
        ensures
            k@ == self.spec_message_key(),
    {
        match self {
            DiscError::LimitReached => "disc.limit_reached",
            DiscError::InvalidSetSlot => "disc.invalid_set_slot",
            DiscError::InvalidSet => "disc.invalid_set",
            DiscError::NoSlots => "disc.no_slots",
            DiscError::SlotRange => "disc.slot_range",
            DiscError::SlotNotAvailable => "disc.slot_not_available",
            DiscError::NoValidMain => "disc.no_valid_main",
            DiscError::NotEnoughSubstats => "disc.not_enough_substats",
            DiscError::ChooseFailed => "disc.choose_failed",
            DiscError::CountRange => "disc.count_range",
        }
    }
}

/// Whether adding a disc to a save with these discs overflows the uid.
pub open spec fn add_disc_overflows(s: Seq<EquipModel>) -> bool {
    s.len() < MAX_DISCS && max_equip_uid(s) == u32::MAX
}

/// The disc the add form makes: the set's item for the slot (fourth digit
/// forced to 4), level 15, one star, with the stat lines of the form.
pub open spec fn added_disc(uid: u32, item_id: u32, slot: u32, main_key: u32, sub_keys: Seq<u32>, sub_procs: Seq<u32>) -> EquipModel {
    EquipModel {
        uid,
        id: spec_force_disc_fourth_digit(item_id),
        level: 15,
        star: 1,
        properties: spec_disc_properties(slot, main_key, sub_keys, sub_procs),
    }
}

/// Adds the disc of the add form; gives its uid.
pub fn add_disc(
    save: &mut PlayerSave,
    set_id: u32,
    slot: u32,
    main_key: u32,
    sub_keys: &[u32; 4],
    sub_procs: &[u32; 4],
    index: &EquipTemplateIndex,
) -> (r: Result<u32, DiscError>)
    requires
        !add_disc_overflows(old(save)@.equip),
    ensures
        old(save)@.equip.len() >= MAX_DISCS ==> r == Err::<u32, DiscError>(DiscError::LimitReached),
        old(save)@.equip.len() < MAX_DISCS && !index.view().by_suit_slot.contains_key((set_id, slot))
            ==> r == Err::<u32, DiscError>(DiscError::InvalidSetSlot),
        r is Err ==> final(save)@ == old(save)@,
        old(save)@.equip.len() < MAX_DISCS && index.view().by_suit_slot.contains_key((set_id, slot))
            ==> r == Ok::<u32, DiscError>((max_equip_uid(old(save)@.equip) + 1) as u32)
            && final(save)@ == (crate::save::PlayerModel {
                equip: old(save)@.equip.push(
                    added_disc(
                        (max_equip_uid(old(save)@.equip) + 1) as u32,
                        index.view().by_suit_slot[(set_id, slot)],
                        slot,
                        main_key,
                        sub_keys@,
                        sub_procs@,
                    ),
                ),
                ..old(save)@
            }),
{
    if save.equip.len() >= MAX_DISCS {
        return Err(DiscError::LimitReached);
    }
    let next = next_equip_uid(save);
    let new_uid = if next < 1 {
        1
    } else {
        next
    };
    let item_id = match resolve_equip_item_id(set_id, slot, index) {
        Some(id) => id,
        None => {
            return Err(DiscError::InvalidSetSlot);
        },
    };
    let item_id = force_disc_fourth_digit(item_id);
    let properties = disc_properties(slot, main_key, sub_keys, sub_procs);
    let disc = EquipItemSave { uid: new_uid, id: item_id, level: 15, star: 1, properties };
    let ghost before = save.equip@;
    save.equip.push(disc);
    assert(equip_views(save.equip@) =~= equip_views(before).push(disc@));
    Ok(new_uid)
}

// ---------------------------------------------------------------------------
// Random discs
// ---------------------------------------------------------------------------

/// `rand::seq::SliceRandom::choose` with the thread generator: one element of
/// `items`, which one is chance; `None` exactly when `items` is empty.
#[verifier::external_body]
fn choose_one<T: Copy>(items: &Vec<T>) -> (r: Option<T>)
    ensures
        r is None <==> items@.len() == 0,
        r matches Some(x) ==> items@.contains(x),
{
    rand::seq::SliceRandom::choose(items.as_slice(), &mut rand::thread_rng()).copied()
}

/// `rand::seq::SliceRandom::shuffle` with the thread generator: the same
/// elements, in an order left to chance.
#[verifier::external_body]
fn shuffle_keys(v: &mut Vec<u32>)
    ensures
        final(v)@.to_multiset() == old(v)@.to_multiset(),
{
    rand::seq::SliceRandom::shuffle(v.as_mut_slice(), &mut rand::thread_rng());
}

/// `rand::Rng::gen_range` over `lo..=hi` with the thread generator: a number
/// between the bounds, which one is chance.
#[verifier::external_body]
fn random_between(lo: u32, hi: u32) -> (r: u32)
    requires
        lo <= hi,
    ensures
        lo <= r <= hi,
{
    rand::Rng::gen_range(&mut rand::thread_rng(), lo..=hi)
}

/// The slots among 1..=n for which a set has a disc, in order.
pub open spec fn slots_upto(set_id: u32, idx: IndexModel, n: nat) -> Seq<u32>
    decreases n,
{
    if n == 0 {
        Seq::empty()
    } else {
        slots_upto(set_id, idx, (n - 1) as nat) + if idx.by_suit_slot.contains_key(
            (set_id, n as u32),
        ) {
            seq![n as u32]
        } else {
            Seq::empty()
        }
    }
}

/// The slots for which a set has a disc.
pub open spec fn available_slots(set_id: u32, idx: IndexModel) -> Seq<u32> {
    slots_upto(set_id, idx, 6)
}

/// Why a random disc of `set_id` for `selected_slot` (0: any slot) cannot be
/// made, if it cannot.
pub open spec fn spec_generate_error(set_id: u32, selected_slot: u32, idx: IndexModel) -> Option<DiscError> {
    let slots = available_slots(set_id, idx);
    if slots.len() == 0 {
        Some(DiscError::InvalidSet)
    } else if selected_slot == 0 {
        None
    } else if !(1 <= selected_slot <= 6) {
        Some(DiscError::SlotRange)
    } else if !slots.contains(selected_slot) {
        Some(DiscError::SlotNotAvailable)
    } else {
        None
    }
}

/// The rolls of the four sub stat lines.
pub open spec fn sub_rolls(p: Seq<EquipProperty>) -> Seq<u32> {
    p.subrange(1, 5).map_values(|q: EquipProperty| q.add_value)
}

/// The stat lines of a random disc in `slot`: a main stat the slot allows,
/// with its base value; four distinct sub stats that may roll beside it, with
/// their base values, one to six rolls each and eight or nine in all.
pub open spec fn random_disc_stats(slot: u32, p: Seq<EquipProperty>) -> bool {
    let m = p[0].key;
    &&& p.len() == 5
    &&& spec_main_stat_options(slot).contains(m)
    &&& p[0].base_value == (match spec_main_base_value(m) {
        Some(b) => b,
        None => 0,
    })
    &&& p[0].add_value == 0
    &&& forall|i: int|
        1 <= i < 5 ==> #[trigger] spec_sub_stat_options(m).contains(p[i].key) && p[i].base_value == (
        match spec_sub_base_value(p[i].key) {
            Some(b) => b,
            None => 0,
        }) && 1 <= p[i].add_value <= 6
    &&& forall|i: int, j: int| 1 <= i < j < 5 ==> p[i].key != p[j].key
    &&& (seq_sum(sub_rolls(p)) == 8 || seq_sum(sub_rolls(p)) == 9)
}

/// A random disc of `set_id` in `slot` with uid `uid`.
pub open spec fn random_disc_in_slot(d: EquipModel, set_id: u32, slot: u32, idx: IndexModel, uid: u32) -> bool {
    &&& available_slots(set_id, idx).contains(slot)
    &&& d.uid == uid && d.level == 15 && d.star == 1
    &&& d.id == spec_force_disc_fourth_digit(idx.by_suit_slot[(set_id, slot)])
    &&& random_disc_stats(slot, d.properties)
}

/// What every disc the generator makes satisfies: it is a disc of `set_id` in
/// the selected slot (any available one for 0).
pub open spec fn generated_disc_ok(d: EquipModel, set_id: u32, selected_slot: u32, idx: IndexModel, uid: u32) -> bool {
    exists|slot: u32|
        #![trigger available_slots(set_id, idx).contains(slot)]
        random_disc_in_slot(d, set_id, slot, idx, uid) && (selected_slot == 0 || slot
            == selected_slot)
}

proof fn lemma_slots_upto(set_id: u32, idx: IndexModel, n: nat)
    requires
        n <= 6,
    ensures
        forall|x: u32|
            #[trigger] slots_upto(set_id, idx, n).contains(x) <==> (1 <= x <= n
                && idx.by_suit_slot.contains_key((set_id, x))),
    decreases n,
{
    if n > 0 {
        lemma_slots_upto(set_id, idx, (n - 1) as nat);
        let prev = slots_upto(set_id, idx, (n - 1) as nat);
        let cur = slots_upto(set_id, idx, n);
        assert forall|x: u32| #[trigger] cur.contains(x) <==> (1 <= x <= n
            && idx.by_suit_slot.contains_key((set_id, x))) by {
            if cur.contains(x) {
                let k = choose|k: int| 0 <= k < cur.len() && cur[k] == x;
                if k < prev.len() {
                    assert(prev[k] == x);
                    assert(prev.contains(x));
                }
            }
            if 1 <= x <= n && idx.by_suit_slot.contains_key((set_id, x)) {
                if x < n {
                    assert(prev.contains(x));
                    let k = choose|k: int| 0 <= k < prev.len() && prev[k] == x;
                    assert(cur[k] == x);
                } else {
                    assert(cur[cur.len() - 1] == x);
                }
            }
        }
    }
}

fn slots_of_set(set_id: u32, index: &EquipTemplateIndex) -> (r: Vec<u32>)
    ensures
        r@ == available_slots(set_id, index.view()),
{
    let mut slots: Vec<u32> = Vec::new();
    let mut slot: u32 = 1;
    while slot <= 6
        invariant
            1 <= slot <= 7,
            slots@ == slots_upto(set_id, index.view(), (slot - 1) as nat),
        decreases 7 - slot,
    {
        let ghost before = slots@;
        if resolve_equip_item_id(set_id, slot, index).is_some() {
            slots.push(slot);
        }
        assert(slots@ =~= slots_upto(set_id, index.view(), slot as nat));
        slot = slot + 1;
    }
    slots
}

proof fn lemma_permutation_keeps_distinct(a: Seq<u32>, b: Seq<u32>)
    requires
        a.no_duplicates(),
        a.to_multiset() == b.to_multiset(),
    ensures
        b.no_duplicates(),
        forall|x: u32| #[trigger] b.contains(x) ==> a.contains(x),
        b.len() == a.len(),
{
    broadcast use vstd::seq_lib::group_to_multiset_ensures;

    a.lemma_multiset_has_no_duplicates();
    assert(a.to_multiset().len() == a.len());
    assert(b.to_multiset().len() == b.len());
    b.lemma_multiset_has_no_duplicates_conv();
    assert forall|x: u32| #[trigger] b.contains(x) implies a.contains(x) by {
        assert(b.to_multiset().count(x) > 0);
    }
}

/// Makes a random disc of `set_id` with uid `uid`, in `selected_slot` or, for
/// 0, in a slot chosen at random among those the set has.
pub fn generate_random_disc(set_id: u32, selected_slot: u32, index: &EquipTemplateIndex, uid: u32) -> (r: Result<EquipItemSave, DiscError>)
    ensures
        match r {
            Err(e) => spec_generate_error(set_id, selected_slot, index.view()) == Some(e),
            Ok(d) => spec_generate_error(set_id, selected_slot, index.view()) is None
                && generated_disc_ok(d@, set_id, selected_slot, index.view(), uid),
        },
{
    let slots = slots_of_set(set_id, index);
    proof {
        lemma_slots_upto(set_id, index.view(), 6);
    }
    if slots.len() == 0 {
        return Err(DiscError::InvalidSet);
    }
    let slot = if selected_slot == 0 {
        match choose_one(&slots) {
            Some(s) => s,
            None => {
                return Err(DiscError::NoSlots);
            },
        }
    } else {
        if !(1 <= selected_slot && selected_slot <= 6) {
            return Err(DiscError::SlotRange);
        }
        if !crate::discs::contains_u32(&slots, selected_slot) {
            return Err(DiscError::SlotNotAvailable);
        }
        selected_slot
    };
    assert(available_slots(set_id, index.view()).contains(slot));
    let item_id = match resolve_equip_item_id(set_id, slot, index) {
        Some(id) => force_disc_fourth_digit(id),
        None => {
            return Err(DiscError::InvalidSetSlot);
        },
    };
    let main_options = disk_main_stat_options(slot);
    let main_key = match choose_one(&main_options) {
        Some(k) => k,
        None => {
            return Err(DiscError::NoValidMain);
        },
    };
    let main_base = match disk_main_base_value(main_key) {
        Some(b) => b,
        None => 0,
    };
    let mut allowed_subs = disk_sub_stat_options(main_key);
    proof {
        law_sub_stat_options(main_key);
    }
    if allowed_subs.len() < 4 {
        return Err(DiscError::NotEnoughSubstats);
    }
    let ghost before_shuffle = allowed_subs@;
    shuffle_keys(&mut allowed_subs);
    proof {
        lemma_permutation_keeps_distinct(before_shuffle, allowed_subs@);
    }
    let mut keys: Vec<u32> = Vec::new();
    let mut base: Vec<u32> = Vec::new();
    let mut k: usize = 0;
    while k < 4
        invariant
            k <= 4,
            allowed_subs@.len() >= 4,
            keys@.len() == k,
            base@.len() == k,
            forall|j: int| 0 <= j < k ==> keys@[j] == allowed_subs@[j],
            forall|j: int|
                0 <= j < k ==> base@[j] == (match spec_sub_base_value(#[trigger] keys@[j]) {
                    Some(b) => b,
                    None => 0,
                }),
        decreases 4 - k,
    {
        let key = allowed_subs[k];
        keys.push(key);
        base.push(
            match disk_sub_base_value(key) {
                Some(b) => b,
                None => 0,
            },
        );
        k = k + 1;
    }
    let mut add: Vec<u32> = vec![1u32, 1u32, 1u32, 1u32];
    let target = random_between(8, 9);
    let mut total: u32 = 4;
    assert(seq_sum(add@) == 4) by {
        reveal_with_fuel(seq_sum, 5);
    }
    while total < target
        invariant
            add@.len() == 4,
            forall|j: int| 0 <= j < 4 ==> 1 <= #[trigger] add@[j] <= 6,
            total == seq_sum(add@),
            total <= target,
            8 <= target <= 9,
        decreases target - total,
    {
        let mut candidates: Vec<usize> = Vec::new();
        let mut j: usize = 0;
        while j < 4
            invariant
                j <= 4,
                add@.len() == 4,
                forall|c: usize| #[trigger] candidates@.contains(c) ==> c < 4 && add@[c as int] < 6,
                forall|c: int| 0 <= c < j && add@[c] < 6 ==> candidates@.contains(c as usize),
            decreases 4 - j,
        {
            if add[j] < 6 {
                let ghost before = candidates@;
                candidates.push(j);
                proof {
                    assert forall|c: usize| #[trigger] candidates@.contains(c) implies c < 4 && add@[c as int] < 6 by {
                        if c != j {
                            let m = choose|m: int| 0 <= m < candidates@.len() && candidates@[m] == c;
                            assert(before[m] == c);
                            assert(before.contains(c));
                        }
                    }
                    assert forall|c: int| 0 <= c < j + 1 && add@[c] < 6 implies candidates@.contains(c as usize) by {
                        if c < j {
                            assert(before.contains(c as usize));
                            let m = choose|m: int| 0 <= m < before.len() && before[m] == c as usize;
                            assert(candidates@[m] == c as usize);
                        } else {
                            assert(candidates@[candidates@.len() - 1] == c as usize);
                        }
                    }
                }
            }
            j = j + 1;
        }
        proof {
            if candidates@.len() == 0 {
                assert forall|c: int| 0 <= c < add@.len() implies 6 <= #[trigger] add@[c] <= 6 by {
                    if add@[c] < 6 {
                        assert(candidates@.contains(c as usize));
                    }
                }
                lemma_seq_sum_bounds(add@, 6, 6);
            }
        }
        let idx = match choose_one(&candidates) {
            Some(i) => i,
            None => {
                return Err(DiscError::ChooseFailed);
            },
        };
        let bumped = add[idx] + 1;
        proof {
            lemma_seq_sum_update(add@, idx as int, bumped);
        }
        add.set(idx, bumped);
        total = total + 1;
    }
    let mut properties: Vec<EquipProperty> = Vec::new();
    properties.push(EquipProperty { key: main_key, base_value: main_base, add_value: 0 });
    let mut i: usize = 0;
    while i < 4
        invariant
            i <= 4,
            keys@.len() == 4 && base@.len() == 4 && add@.len() == 4,
            properties@.len() == i + 1,
            properties@[0] == (EquipProperty { key: main_key, base_value: main_base, add_value: 0 }),
            forall|k: int|
                0 <= k < i ==> properties@[k + 1] == (EquipProperty {
                    key: keys@[k],
                    base_value: base@[k],
                    add_value: add@[k],
                }),
        decreases 4 - i,
    {
        properties.push(EquipProperty { key: keys[i], base_value: base[i], add_value: add[i] });
        i = i + 1;
    }
    let disc = EquipItemSave { uid, id: item_id, level: 15, star: 1, properties };
    proof {
        let p = disc@.properties;
        assert(sub_rolls(p) =~= add@);
        assert forall|a: int| 1 <= a < 5 implies #[trigger] spec_sub_stat_options(main_key).contains(p[a].key)
            && p[a].base_value == (match spec_sub_base_value(p[a].key) {
            Some(b) => b,
            None => 0,
        }) && 1 <= p[a].add_value <= 6 by {
            assert(p[a].key == allowed_subs@[a - 1]);
            assert(allowed_subs@.contains(allowed_subs@[a - 1]));
        }
        assert forall|a: int, b: int| 1 <= a < b < 5 implies p[a].key != p[b].key by {
            assert(p[a].key == allowed_subs@[a - 1]);
            assert(p[b].key == allowed_subs@[b - 1]);
        }
        assert(available_slots(set_id, index.view()).contains(slot));
        assert(disc@.id == spec_force_disc_fourth_digit(index.view().by_suit_slot[(set_id, slot)]));
        assert(p.len() == 5);
        assert(spec_main_stat_options(slot).contains(p[0].key));
        assert(seq_sum(sub_rolls(p)) == 8 || seq_sum(sub_rolls(p)) == 9);
        assert(random_disc_stats(slot, p));
        assert(random_disc_in_slot(disc@, set_id, slot, index.view(), uid));
    }
    Ok(disc)
}

/// The slot the generator form selects: the field read as a slot number, 0
/// (any slot) where it is absent.
pub open spec fn selected_slot_of(slot_field: Option<Seq<char>>) -> u32 {
    match slot_field {
        Some(v) => crate::player_state::spec_parse_slot_value(v),
        None => 0,
    }
}

/// How many discs the generator makes for a request of `count` on a save
/// holding `len` discs.
pub open spec fn discs_to_make(count: u32, len: nat) -> nat {
    if count as int <= MAX_DISCS - len {
        count as nat
    } else {
        (MAX_DISCS - len) as nat
    }
}

/// Why the generator form fails, if it fails.
pub open spec fn spec_generate_discs_error(s: Seq<EquipModel>, set_id: u32, selected: u32, count: u32, idx: IndexModel) -> Option<DiscError> {
    if count == 0 || count > 200 {
        Some(DiscError::CountRange)
    } else if selected > 6 {
        Some(DiscError::SlotRange)
    } else if s.len() >= MAX_DISCS {
        Some(DiscError::LimitReached)
    } else {
        spec_generate_error(set_id, selected, idx)
    }
}

/// Whether generating would run the disc uids past u32::MAX.
pub open spec fn generation_overflows(s: Seq<EquipModel>, set_id: u32, selected: u32, count: u32, idx: IndexModel) -> bool {
    &&& 1 <= count <= 200 && selected <= 6 && s.len() < MAX_DISCS
    &&& (max_equip_uid(s) == u32::MAX || (spec_generate_error(set_id, selected, idx) is None
        && max_equip_uid(s) + 1 + discs_to_make(count, s.len()) > u32::MAX))
}

/// The highest disc uid of the save (0 for none).
fn max_uid_of(save: &PlayerSave) -> (r: u32)
    ensures
        r == max_equip_uid(save@.equip),
{
    let mut m: u32 = 0;
    let mut i: usize = 0;
    while i < save.equip.len()
        invariant
            i <= save.equip@.len(),
            m == max_equip_uid(save@.equip.take(i as int)),
        decreases save.equip.len() - i,
    {
        proof {
            let v = save@.equip;
            assert(v.take(i + 1).drop_last() =~= v.take(i as int));
            assert(v.take(i + 1).last() == save.equip@[i as int]@);
        }
        if save.equip[i].uid > m {
            m = save.equip[i].uid;
        }
        i = i + 1;
    }
    assert(save@.equip.take(save.equip@.len() as int) =~= save@.equip);
    m
}

/// Whether adding a disc to this save would run the uids past u32::MAX (the
/// case `add_disc` leaves out).
pub fn add_would_overflow(save: &PlayerSave) -> (r: bool)
    ensures
        r == add_disc_overflows(save@.equip),
{
    save.equip.len() < MAX_DISCS && max_uid_of(save) == u32::MAX
}

/// Why a random disc of `set_id` for `selected_slot` cannot be made, if it
/// cannot.
fn generate_error_of(set_id: u32, selected_slot: u32, index: &EquipTemplateIndex) -> (r: Option<DiscError>)
    ensures
        r == spec_generate_error(set_id, selected_slot, index.view()),
{
    let slots = slots_of_set(set_id, index);
    proof {
        lemma_slots_upto(set_id, index.view(), 6);
    }
    if slots.len() == 0 {
        Some(DiscError::InvalidSet)
    } else if selected_slot == 0 {
        None
    } else if !(1 <= selected_slot && selected_slot <= 6) {
        Some(DiscError::SlotRange)
    } else if !crate::discs::contains_u32(&slots, selected_slot) {
        Some(DiscError::SlotNotAvailable)
    } else {
        None
    }
}

/// Whether the generator form would run the disc uids past u32::MAX (the
/// case `generate_discs` leaves out).
pub fn generation_would_overflow(
    save: &PlayerSave,
    set_id: u32,
    slot_field: Option<&str>,
    count: u32,
    index: &EquipTemplateIndex,
) -> (r: bool)
    ensures
        r == generation_overflows(
            save@.equip,
            set_id,
            selected_slot_of(
                match slot_field {
                    Some(v) => Some(v@),
                    None => None,
                },
            ),
            count,
            index.view(),
        ),
{
    let selected = match slot_field {
        Some(v) => crate::player_state::parse_slot_value(v),
        None => 0,
    };
    let len = save.equip.len();
    if !(1 <= count && count <= 200 && selected <= 6 && len < MAX_DISCS) {
        return false;
    }
    let m = max_uid_of(save);
    if m == u32::MAX {
        return true;
    }
    let n: u64 = if (count as usize) <= MAX_DISCS - len {
        count as u64
    } else {
        (MAX_DISCS - len) as u64
    };
    generate_error_of(set_id, selected, index).is_none() && m as u64 + 1 + n > u32::MAX as u64
}

/// Makes `count` random discs of `set_id` (fewer where the save would pass
/// its limit) and adds them to the save with consecutive new uids; gives how
/// many were made. On an error the save is unchanged.
pub fn generate_discs(
    save: &mut PlayerSave,
    set_id: u32,
    slot_field: Option<&str>,
    count: u32,
    index: &EquipTemplateIndex,
) -> (r: Result<usize, DiscError>)
    requires
        !generation_overflows(
            old(save)@.equip,
            set_id,
            selected_slot_of(
                match slot_field {
                    Some(v) => Some(v@),
                    None => None,
                },
            ),
            count,
            index.view(),
        ),
    ensures
        ({
            let selected = selected_slot_of(
                match slot_field {
                    Some(v) => Some(v@),
                    None => None,
                },
            );
            let old_equip = old(save)@.equip;
            match spec_generate_discs_error(old_equip, set_id, selected, count, index.view()) {
                Some(e) => r == Err::<usize, DiscError>(e) && final(save)@ == old(save)@,
                None => {
                    let n = discs_to_make(count, old_equip.len());
                    &&& r == Ok::<usize, DiscError>(n as usize)
                    &&& final(save)@ == (crate::save::PlayerModel {
                        equip: final(save)@.equip,
                        ..old(save)@
                    })
                    &&& final(save)@.equip.len() == old_equip.len() + n
                    &&& final(save)@.equip.take(old_equip.len() as int) == old_equip
                    &&& forall|k: int|
                        0 <= k < n ==> generated_disc_ok(
                            #[trigger] final(save)@.equip[old_equip.len() + k],
                            set_id,
                            selected,
                            index.view(),
                            (max_equip_uid(old_equip) + 1 + k) as u32,
                        )
                }
            }
        }),
{
    if count == 0 || count > 200 {
        return Err(DiscError::CountRange);
    }
    let selected = match slot_field {
        Some(v) => crate::player_state::parse_slot_value(v),
        None => 0,
    };
    if selected > 6 {
        return Err(DiscError::SlotRange);
    }
    let current = save.equip.len();
    if current >= MAX_DISCS {
        return Err(DiscError::LimitReached);
    }
    let n: usize = if (count as usize) < MAX_DISCS - current {
        count as usize
    } else {
        MAX_DISCS - current
    };
    let start = next_equip_uid(save);
    let mut next_uid = if start < 1 {
        1
    } else {
        start
    };
    let mut made: Vec<EquipItemSave> = Vec::new();
    let mut k: usize = 0;
    while k < n
        invariant
            k <= n,
            1 <= count <= 200,
            selected <= 6,
            save@.equip.len() < MAX_DISCS,
            save@ == old(save)@,
            selected == selected_slot_of(
                match slot_field {
                    Some(v) => Some(v@),
                    None => None,
                },
            ),
            n == discs_to_make(count, save@.equip.len()),
            next_uid == start + k,
            start == max_equip_uid(save@.equip) + 1,
            spec_generate_error(set_id, selected, index.view()) is None || k == 0,
            k > 0 ==> spec_generate_error(set_id, selected, index.view()) is None,
            start + n <= u32::MAX || spec_generate_error(set_id, selected, index.view()) is Some,
            made@.len() == k,
            forall|j: int|
                0 <= j < k ==> generated_disc_ok(
                    #[trigger] made@[j]@,
                    set_id,
                    selected,
                    index.view(),
                    (start + j) as u32,
                ),
        decreases n - k,
    {
        let d = match generate_random_disc(set_id, selected, index, next_uid) {
            Ok(d) => d,
            Err(e) => {
                return Err(e);
            },
        };
        made.push(d);
        next_uid = next_uid + 1;
        k = k + 1;
    }
    proof {
        if n > 0 {
            assert(spec_generate_error(set_id, selected, index.view()) is None);
        }
    }
    let ghost old_equip = save.equip@;
    let ghost made_all = made@;
    save.equip.append(&mut made);
    proof {
        let fe = equip_views(save.equip@);
        let oe = equip_views(old_equip);
        assert(fe.take(oe.len() as int) =~= oe);
        assert forall|t: int| 0 <= t < n implies generated_disc_ok(
            #[trigger] fe[oe.len() + t],
            set_id,
            selected,
            index.view(),
            (max_equip_uid(oe) + 1 + t) as u32,
        ) by {
            assert(fe[oe.len() + t] == made_all[t]@);
        }
    }
    Ok(n)
}

// ---------------------------------------------------------------------------
// Deleting discs
// ---------------------------------------------------------------------------

/// The `&`-separated pieces of a form body, empty ones included.
pub open spec fn amp_pieces(s: Seq<char>) -> Seq<Seq<char>>
    decreases s.len(),
{
    match spec_find_char(s, '&', 0) {
        Some(i) => {
            proof {
                crate::text::lemma_find_char_bounds(s, '&', 0);
            }
            if 0 <= i < s.len() {
                seq![s.subrange(0, i)] + amp_pieces(s.subrange(i + 1, s.len() as int))
            } else {
                seq![s]
            }
        },
        None => seq![s],
    }
}

/// The name of a `name=value` pair (all of it where it has no `=`).
pub open spec fn pair_name(p: Seq<char>) -> Seq<char> {
    match spec_find_char(p, '=', 0) {
        Some(i) => p.subrange(0, i),
        None => p,
    }
}

/// The value of a `name=value` pair (empty where it has no `=`).
pub open spec fn pair_value(p: Seq<char>) -> Seq<char> {
    match spec_find_char(p, '=', 0) {
        Some(i) => p.subrange(i + 1, p.len() as int),
        None => Seq::empty(),
    }
}

/// Whether a form field names the disc checkboxes.
pub open spec fn is_uid_field(name: Seq<char>) -> bool {
    name == "equip_uids"@ || name == "equip_uids[]"@ || name == "equip_uids%5B%5D"@
}

/// The uids the checkbox fields of the pairs `pieces` carry, in order.
pub open spec fn checked_uids(pieces: Seq<Seq<char>>) -> Seq<u32>
    decreases pieces.len(),
{
    if pieces.len() == 0 {
        Seq::empty()
    } else {
        let p = pieces[0];
        let rest = checked_uids(pieces.subrange(1, pieces.len() as int));
        if is_uid_field(pair_name(p)) {
            match crate::text::spec_parse_u32(pair_value(p)) {
                Some(v) => seq![v] + rest,
                None => rest,
            }
        } else {
            rest
        }
    }
}

/// Whether `s` is strictly increasing.
pub open spec fn strictly_increasing(s: Seq<u32>) -> bool {
    forall|i: int, j: int| 0 <= i < j < s.len() ==> s[i] < s[j]
}

/// Adds `x` to the strictly increasing `v`, unless it holds it already.
fn insert_unique(v: &mut Vec<u32>, x: u32)
    requires
        strictly_increasing(old(v)@),
    ensures
        strictly_increasing(final(v)@),
        forall|y: u32| #[trigger] final(v)@.contains(y) <==> old(v)@.contains(y) || y == x,
{
    let mut j = v.len();
    while j > 0 && v[j - 1] > x
        invariant
            j <= v@.len(),
            forall|k: int| j <= k < v@.len() ==> #[trigger] v@[k] > x,
        decreases j,
    {
        j = j - 1;
    }
    if j > 0 && v[j - 1] == x {
        assert(v@.contains(v@[j - 1]));
        return;
    }
    let ghost before = v@;
    v.insert(j, x);
    proof {
        assert forall|a: int, b: int| 0 <= a < b < v@.len() implies v@[a] < v@[b] by {
            if a < j && b < j {
                assert(v@[a] == before[a] && v@[b] == before[b]);
            } else if a < j && b == j {
                assert(v@[a] == before[a]);
                if a < j - 1 {
                    assert(before[a] < before[j - 1]);
                }
            } else if a < j {
                assert(v@[a] == before[a] && v@[b] == before[b - 1]);
                assert(before[b - 1] > x);
            } else if a == j {
                assert(v@[b] == before[b - 1]);
            } else {
                assert(v@[a] == before[a - 1] && v@[b] == before[b - 1]);
            }
        }
        assert forall|y: u32| #[trigger] v@.contains(y) <==> before.contains(y) || y == x by {
            if v@.contains(y) {
                let m = choose|m: int| 0 <= m < v@.len() && v@[m] == y;
                if m < j {
                    assert(before[m] == y);
                } else if m > j {
                    assert(before[m - 1] == y);
                }
            }
            if before.contains(y) {
                let m = choose|m: int| 0 <= m < before.len() && before[m] == y;
                if m < j {
                    assert(v@[m] == y);
                } else {
                    assert(v@[m + 1] == y);
                }
            }
            if y == x {
                assert(v@[j as int] == x);
            }
        }
    }
}

/// The uids of the discs checked in the delete form, from its raw body:
/// sorted, each once.
pub fn parse_selected_equip_uids(raw_form: &str) -> (r: Vec<u32>)
    ensures
        strictly_increasing(r@),
        forall|x: u32| #[trigger] r@.contains(x) <==> checked_uids(amp_pieces(raw_form@)).contains(x),
{
    let s = chars_of(raw_form);
    let f1 = chars_of("equip_uids");
    let f2 = chars_of("equip_uids[]");
    let f3 = chars_of("equip_uids%5B%5D");
    let mut out: Vec<u32> = Vec::new();
    let mut pos: usize = 0;
    let ghost mut seen: Seq<u32> = Seq::empty();
    assert(s@.subrange(0, s@.len() as int) =~= s@);
    loop
        invariant
            pos <= s@.len(),
            s@ == raw_form@,
            f1@ == "equip_uids"@,
            f2@ == "equip_uids[]"@,
            f3@ == "equip_uids%5B%5D"@,
            strictly_increasing(out@),
            forall|x: u32| #[trigger] out@.contains(x) <==> seen.contains(x),
            seen + checked_uids(amp_pieces(s@.subrange(pos as int, s@.len() as int)))
                == checked_uids(amp_pieces(s@)),
        decreases s@.len() - pos,
    {
        let ghost rest = s@.subrange(pos as int, s@.len() as int);
        proof {
            crate::text::lemma_find_char_bounds(s@, '&', pos as int);
            crate::text::lemma_find_char_bounds(rest, '&', 0);
            lemma_find_char_shift(s@, '&', pos as int);
        }
        let end = match find_char(&s, '&', pos) {
            Some(i) => i,
            None => s.len(),
        };
        let piece = sub_chars(&s, pos, end);
        proof {
            crate::text::lemma_find_char_bounds(piece@, '=', 0);
        }
        let (name, value) = match find_char(&piece, '=', 0) {
            Some(i) => (sub_chars(&piece, 0, i), sub_chars(&piece, i + 1, piece.len())),
            None => (sub_chars(&piece, 0, piece.len()), Vec::new()),
        };
        proof {
            assert(piece@.subrange(0, piece@.len() as int) =~= piece@);
            assert(name@ == pair_name(piece@));
            assert(value@ =~= pair_value(piece@));
        }
        let is_field = chars_eq(&name, &f1) || chars_eq(&name, &f2) || chars_eq(&name, &f3);
        let ghost before_seen = seen;
        let ghost added: Seq<u32> = Seq::empty();
        if is_field {
            match parse_u32_chars(&value) {
                Some(v) => {
                    insert_unique(&mut out, v);
                    proof {
                        added = seq![v];
                        seen = seen.push(v);
                        assert forall|x: u32| #[trigger] out@.contains(x) <==> seen.contains(x) by {
                            if before_seen.contains(x) {
                                let m = choose|m: int| 0 <= m < before_seen.len() && before_seen[m] == x;
                                assert(seen[m] == x);
                            }
                            if seen.contains(x) && x != v {
                                let m = choose|m: int| 0 <= m < seen.len() && seen[m] == x;
                                assert(before_seen[m] == x);
                            }
                            if x == v {
                                assert(seen[seen.len() - 1] == v);
                            }
                        }
                    }
                },
                None => {},
            }
        }
        proof {
            assert(seen =~= before_seen + added);
            assert(added == (if is_uid_field(pair_name(piece@)) {
                match crate::text::spec_parse_u32(pair_value(piece@)) {
                    Some(v) => seq![v],
                    None => Seq::<u32>::empty(),
                }
            } else {
                Seq::<u32>::empty()
            }));
            let pieces = amp_pieces(rest);
            assert(pieces[0] == piece@) by {
                if end < s.len() {
                    assert(rest.subrange(0, end - pos) =~= piece@);
                } else {
                    assert(rest =~= piece@);
                }
            }
            if end < s.len() {
                let next_rest = s@.subrange(end + 1, s@.len() as int);
                assert(rest.subrange(end - pos + 1, rest.len() as int) =~= next_rest);
                assert(pieces =~= seq![piece@] + amp_pieces(next_rest));
                assert(pieces.subrange(1, pieces.len() as int) =~= amp_pieces(next_rest));
                assert(checked_uids(pieces) == (if is_uid_field(pair_name(piece@)) {
                    match crate::text::spec_parse_u32(pair_value(piece@)) {
                        Some(v) => seq![v] + checked_uids(amp_pieces(next_rest)),
                        None => checked_uids(amp_pieces(next_rest)),
                    }
                } else {
                    checked_uids(amp_pieces(next_rest))
                }));
            } else {
                assert(pieces =~= seq![piece@]);
                assert(pieces.subrange(1, pieces.len() as int) =~= Seq::<Seq<char>>::empty());
            }
        }
        if end >= s.len() {
            proof {
                let pieces = amp_pieces(rest);
                assert(checked_uids(pieces.subrange(1, pieces.len() as int)) =~= Seq::<u32>::empty());
                assert(checked_uids(pieces) =~= added);
                assert(checked_uids(amp_pieces(s@)) =~= seen);
            }
            return out;
        }
        proof {
            let pieces = amp_pieces(rest);
            let next_rest = s@.subrange(end + 1, s@.len() as int);
            assert(checked_uids(pieces) =~= added + checked_uids(amp_pieces(next_rest)));
            assert(seen + checked_uids(amp_pieces(next_rest)) =~= before_seen + checked_uids(pieces));
        }
        pos = end + 1;
    }
}

proof fn lemma_find_char_shift(s: Seq<char>, c: char, pos: int)
    requires
        0 <= pos <= s.len(),
    ensures
        match spec_find_char(s, c, pos) {
            Some(i) => spec_find_char(s.subrange(pos, s.len() as int), c, 0) == Some(i - pos),
            None => spec_find_char(s.subrange(pos, s.len() as int), c, 0) is None,
        },
    decreases s.len() - pos,
{
    let rest = s.subrange(pos, s.len() as int);
    lemma_find_char_shift_from(s, c, pos, pos);
}

proof fn lemma_find_char_shift_from(s: Seq<char>, c: char, pos: int, from: int)
    requires
        0 <= pos <= from <= s.len(),
    ensures
        match spec_find_char(s, c, from) {
            Some(i) => spec_find_char(s.subrange(pos, s.len() as int), c, from - pos) == Some(i - pos),
            None => spec_find_char(s.subrange(pos, s.len() as int), c, from - pos) is None,
        },
    decreases s.len() - from,
{
    let rest = s.subrange(pos, s.len() as int);
    if from < s.len() {
        assert(rest[from - pos] == s[from]);
        if s[from] != c {
            lemma_find_char_shift_from(s, c, pos, from + 1);
        }
    }
}

/// Whether a disc's uid is outside `selected`.
pub open spec fn not_selected(selected: Seq<u32>) -> spec_fn(EquipModel) -> bool {
    |e: EquipModel| !selected.contains(e.uid)
}

/// Removes the discs whose uid is in `selected`; gives how many went.
pub fn delete_discs(save: &mut PlayerSave, selected: &Vec<u32>) -> (deleted: usize)
    ensures
        final(save)@ == (crate::save::PlayerModel {
            equip: old(save)@.equip.filter(not_selected(selected@)),
            ..old(save)@
        }),
        deleted == old(save)@.equip.len() - final(save)@.equip.len(),
{
    let ghost old_equip = save@.equip;
    let ghost keep = not_selected(selected@);
    let mut kept: Vec<EquipItemSave> = Vec::new();
    let mut all: Vec<EquipItemSave> = Vec::new();
    std::mem::swap(&mut all, &mut save.equip);
    let ghost all_items = all@;
    assert(equip_views(all_items) == old_equip);
    let mut i: usize = 0;
    let n = all.len();
    proof {
        reveal(Seq::filter);
    }
    while all.len() > 0
        invariant
            all@.len() + i == n,
            n == all_items.len(),
            all@ == all_items.subrange(i as int, n as int),
            equip_views(kept@) == equip_views(all_items.take(i as int)).filter(not_selected(selected@)),
            kept@.len() <= i,
        decreases all.len(),
    {
        let e = all.remove(0);
        let uid = e.uid;
        let ghost before = kept@;
        let drop = crate::discs::contains_u32(selected, uid);
        proof {
            reveal(Seq::filter);
            let t = equip_views(all_items.take(i + 1));
            assert(t.drop_last() =~= equip_views(all_items.take(i as int)));
            assert(t.last() == e@);
            let keep = not_selected(selected@);
            assert(t.filter(keep) == if keep(t.last()) {
                t.drop_last().filter(keep).push(t.last())
            } else {
                t.drop_last().filter(keep)
            });
        }
        if !drop {
            kept.push(e);
            assert(equip_views(kept@) =~= equip_views(before).push(e@));
        }
        i = i + 1;
        assert(all@ =~= all_items.subrange(i as int, n as int));
    }
    assert(all_items.take(n as int) =~= all_items);
    save.equip = kept;
    n - save.equip.len()
}

/// Deleting the selected discs leaves none of them, and keeps every disc
/// that was not selected.
pub proof fn law_delete_keeps_the_rest(s: Seq<EquipModel>, selected: Seq<u32>)
    ensures
        forall|i: int|
            0 <= i < s.filter(not_selected(selected)).len() ==> !selected.contains(
                (#[trigger] s.filter(not_selected(selected))[i]).uid,
            ),
        forall|i: int|
            0 <= i < s.len() && !selected.contains(s[i].uid) ==> #[trigger] s.filter(
                not_selected(selected),
            ).contains(s[i]),
{
    let keep = not_selected(selected);
    assert forall|i: int| 0 <= i < s.filter(keep).len() implies !selected.contains(
        (#[trigger] s.filter(keep)[i]).uid,
    ) by {
        s.lemma_filter_pred(keep, i);
    }
    assert forall|i: int| 0 <= i < s.len() && !selected.contains(s[i].uid) implies #[trigger] s.filter(
        keep,
    ).contains(s[i]) by {
        s.lemma_filter_contains(keep, i);
    }
}

/// Removes every disc; gives how many went.
pub fn clear_discs(save: &mut PlayerSave) -> (deleted: usize)
    ensures
        final(save)@ == (crate::save::PlayerModel { equip: Seq::empty(), ..old(save)@ }),
        deleted == old(save)@.equip.len(),
{
    let n = save.equip.len();
    save.equip.clear();
    assert(equip_views(save.equip@) =~= Seq::<EquipModel>::empty());
    n
}

// ---------------------------------------------------------------------------
// The disc list of the dashboard
// ---------------------------------------------------------------------------

/// How many disc cards one page shows.
pub const CARDS_PER_PAGE: usize = 50;

/// What a disc card of the dashboard is filtered and ordered by.
#[derive(Clone, Copy, Debug)]
pub struct DiscCard {
    pub item_id: u32,
    pub uid: u32,
    pub set_id: u32,
    pub slot: u32,
    pub main_key: u32,
}

/// Whether a card passes the set, slot and main stat filters (an absent
/// filter passes every card).
pub open spec fn card_matches(c: DiscCard, set_id: Option<u32>, slot: Option<u32>, main_key: Option<u32>) -> bool {
    &&& (set_id matches Some(f) ==> c.set_id == f)
    &&& (slot matches Some(f) ==> c.slot == f)
    &&& (main_key matches Some(f) ==> c.main_key == f)
}

/// The order of cards: by item id, then by uid.
pub open spec fn card_key(c: DiscCard) -> u64 {
    (c.item_id as int * 0x1_0000_0000 + c.uid as int) as u64
}

/// The cards among the first `n` that pass the filters, as (order key, index).
pub open spec fn matching_cards(cards: Seq<DiscCard>, set_id: Option<u32>, slot: Option<u32>, main_key: Option<u32>, n: nat) -> Seq<(u64, usize)>
    decreases n,
{
    if n == 0 {
        Seq::empty()
    } else {
        let prev = matching_cards(cards, set_id, slot, main_key, (n - 1) as nat);
        if card_matches(cards[n - 1], set_id, slot, main_key) {
            prev.push((card_key(cards[n - 1]), (n - 1) as usize))
        } else {
            prev
        }
    }
}

/// The number of pages for `total` cards: at least one.
pub open spec fn page_count(total: nat) -> nat {
    if total == 0 {
        1
    } else {
        ((total + CARDS_PER_PAGE - 1) / (CARDS_PER_PAGE as int)) as nat
    }
}

/// A requested page, brought within 1..=pages.
pub open spec fn clamp_page(page: u32, pages: nat) -> nat {
    if page < 1 {
        1
    } else if page > pages {
        pages
    } else {
        page as nat
    }
}

/// The cards of one page of the disc list.
pub struct DiscPage {
    /// Indices of the cards shown, in display order.
    pub cards: Vec<usize>,
    /// How many cards pass the filters.
    pub total: usize,
    pub total_pages: u32,
    /// The page shown.
    pub page: u32,
}

/// The indices of the cards on `page`, when the filtered cards are ordered
/// by item id and uid.
pub open spec fn spec_page_cards(sorted: Seq<(u64, usize)>, page: nat) -> Seq<usize> {
    let total = sorted.len();
    let start = (page - 1) * CARDS_PER_PAGE;
    let end = if total < start + CARDS_PER_PAGE { total as int } else { start + CARDS_PER_PAGE };
    sorted.subrange(start, end).map_values(|p: (u64, usize)| p.1)
}

/// Filters, orders and pages the disc cards.
pub fn disc_page(cards: &Vec<DiscCard>, set_id: Option<u32>, slot: Option<u32>, main_key: Option<u32>, page: u32) -> (r: DiscPage)
    requires
        cards@.len() <= u32::MAX,
    ensures
        ({
            let sorted = crate::order::sort_by_key(
                matching_cards(cards@, set_id, slot, main_key, cards@.len()),
            );
            let pages = page_count(sorted.len());
            let p = clamp_page(page, pages);
            &&& r.total == sorted.len()
            &&& r.total_pages == pages
            &&& r.page == p
            &&& r.cards@ == spec_page_cards(sorted, p)
            &&& crate::order::sorted_by_key(sorted)
        }),
{
    let mut sorted: Vec<(u64, usize)> = Vec::new();
    let mut i: usize = 0;
    while i < cards.len()
        invariant
            i <= cards@.len(),
            sorted@ == crate::order::sort_by_key(
                matching_cards(cards@, set_id, slot, main_key, i as nat),
            ),
        decreases cards.len() - i,
    {
        let c = cards[i];
        let keep = match set_id {
            Some(f) => c.set_id == f,
            None => true,
        } && match slot {
            Some(f) => c.slot == f,
            None => true,
        } && match main_key {
            Some(f) => c.main_key == f,
            None => true,
        };
        if keep {
            assert((c.item_id as int) * 0x1_0000_0000 + c.uid as int <= u64::MAX) by (nonlinear_arith)
                requires
                    c.item_id <= u32::MAX,
                    c.uid <= u32::MAX,
            ;
            let key: u64 = (c.item_id as u64) * 0x1_0000_0000 + (c.uid as u64);
            let ghost prev = matching_cards(cards@, set_id, slot, main_key, i as nat);
            crate::order::insert_sorted(&mut sorted, (key, i));
            assert(prev.push((key, i)).drop_last() =~= prev);
        }
        i = i + 1;
    }
    let ghost all = matching_cards(cards@, set_id, slot, main_key, cards@.len());
    proof {
        crate::order::lemma_sort_by_key_sorted(all);
        lemma_matching_len(cards@, set_id, slot, main_key, cards@.len());
    }
    let total = sorted.len();
    let total_pages: usize = if total == 0 {
        1
    } else {
        total / CARDS_PER_PAGE + if total % CARDS_PER_PAGE == 0 {
            0
        } else {
            1
        }
    };
    assert(total > 0 ==> total_pages == (total + 49) / 50) by (nonlinear_arith)
        requires
            total > 0 ==> total_pages == total / 50 + if total % 50 == 0 { 0int } else { 1int },
    ;
    let p: u32 = if page < 1 {
        1
    } else if page as usize > total_pages {
        total_pages as u32
    } else {
        page
    };
    let start = ((p - 1) as usize) * CARDS_PER_PAGE;
    proof {
        assert(((p - 1) as int) * 50 <= total) by (nonlinear_arith)
            requires
                p >= 1,
                total == 0 ==> p == 1,
                total > 0 ==> p <= (total + 49) / 50,
        ;
    }
    let end = if total - start < CARDS_PER_PAGE {
        total
    } else {
        start + CARDS_PER_PAGE
    };
    let mut shown: Vec<usize> = Vec::new();
    let mut k = start;
    while k < end
        invariant
            start <= k <= end <= sorted@.len(),
            shown@ == sorted@.subrange(start as int, k as int).map_values(|q: (u64, usize)| q.1),
        decreases end - k,
    {
        shown.push(sorted[k].1);
        k = k + 1;
        assert(shown@ =~= sorted@.subrange(start as int, k as int).map_values(|q: (u64, usize)| q.1));
    }
    DiscPage { cards: shown, total, total_pages: total_pages as u32, page: p }
}

proof fn lemma_matching_len(cards: Seq<DiscCard>, set_id: Option<u32>, slot: Option<u32>, main_key: Option<u32>, n: nat)
    ensures
        matching_cards(cards, set_id, slot, main_key, n).len() <= n,
    decreases n,
{
    if n > 0 {
        lemma_matching_len(cards, set_id, slot, main_key, (n - 1) as nat);
    }
}

proof fn lemma_matching_facts(cards: Seq<DiscCard>, set_id: Option<u32>, slot: Option<u32>, main_key: Option<u32>, n: nat)
    requires
        n <= cards.len(),
        cards.len() <= u32::MAX,
    ensures
        forall|k: int|
            0 <= k < matching_cards(cards, set_id, slot, main_key, n).len() ==> {
                let e = #[trigger] matching_cards(cards, set_id, slot, main_key, n)[k];
                &&& e.1 < n
                &&& card_matches(cards[e.1 as int], set_id, slot, main_key)
                &&& e.0 == card_key(cards[e.1 as int])
            },
        forall|a: int, b: int|
            0 <= a < b < matching_cards(cards, set_id, slot, main_key, n).len() ==> matching_cards(
                cards,
                set_id,
                slot,
                main_key,
                n,
            )[a].1 < matching_cards(cards, set_id, slot, main_key, n)[b].1,
        forall|j: int|
            0 <= j < n && card_matches(cards[j], set_id, slot, main_key) ==> matching_cards(
                cards,
                set_id,
                slot,
                main_key,
                n,
            ).contains((card_key(cards[j]), j as usize)),
    decreases n,
{
    if n > 0 {
        lemma_matching_facts(cards, set_id, slot, main_key, (n - 1) as nat);
        let prev = matching_cards(cards, set_id, slot, main_key, (n - 1) as nat);
        let m = matching_cards(cards, set_id, slot, main_key, n);
        if card_matches(cards[n - 1], set_id, slot, main_key) {
            let e = (card_key(cards[n - 1]), (n - 1) as usize);
            assert(m == prev.push(e));
            assert forall|k: int| 0 <= k < m.len() implies {
                let x = #[trigger] m[k];
                &&& x.1 < n
                &&& card_matches(cards[x.1 as int], set_id, slot, main_key)
                &&& x.0 == card_key(cards[x.1 as int])
            } by {
                if k < prev.len() {
                    assert(m[k] == prev[k]);
                }
            }
            assert forall|a: int, b: int| 0 <= a < b < m.len() implies m[a].1 < m[b].1 by {
                assert(m[a] == prev[a]);
                if b < prev.len() {
                    assert(m[b] == prev[b]);
                }
            }
        }
        assert forall|j: int| 0 <= j < n && card_matches(cards[j], set_id, slot, main_key) implies m.contains(
            (card_key(cards[j]), j as usize),
        ) by {
            if j < n - 1 {
                assert(prev.contains((card_key(cards[j]), j as usize)));
                let k = choose|k: int| 0 <= k < prev.len() && prev[k] == (card_key(cards[j]), j as usize);
                assert(m[k] == prev[k]);
            } else {
                assert(m[m.len() - 1] == (card_key(cards[j]), j as usize));
            }
        }
    }
}

proof fn lemma_passing_card_listed(cards: Seq<DiscCard>, set_id: Option<u32>, slot: Option<u32>, main_key: Option<u32>, j: int)
    requires
        cards.len() <= u32::MAX,
        0 <= j < cards.len(),
        card_matches(cards[j], set_id, slot, main_key),
    ensures
        exists|k: int|
            0 <= k < crate::order::sort_by_key(matching_cards(cards, set_id, slot, main_key, cards.len())).len()
                && (#[trigger] crate::order::sort_by_key(matching_cards(cards, set_id, slot, main_key, cards.len()))[k]).1 as int
                == j,
{
    let m = matching_cards(cards, set_id, slot, main_key, cards.len());
    lemma_matching_facts(cards, set_id, slot, main_key, cards.len());
    crate::order::lemma_sort_by_key_contents(m);
    let sorted = crate::order::sort_by_key(m);
    let e = (card_key(cards[j]), j as usize);
    assert(m.contains(e));
    assert(sorted.contains(e));
    let k = choose|k: int| 0 <= k < sorted.len() && sorted[k] == e;
    assert(sorted[k].1 as int == j);
}

proof fn lemma_passing_cards_listed(cards: Seq<DiscCard>, set_id: Option<u32>, slot: Option<u32>, main_key: Option<u32>)
    requires
        cards.len() <= u32::MAX,
    ensures
        forall|j: int|
            0 <= j < cards.len() && card_matches(#[trigger] cards[j], set_id, slot, main_key) ==> (exists|k: int|
                0 <= k < crate::order::sort_by_key(matching_cards(cards, set_id, slot, main_key, cards.len())).len()
                    && (#[trigger] crate::order::sort_by_key(
                    matching_cards(cards, set_id, slot, main_key, cards.len()),
                )[k]).1 as int == j),
{
    assert forall|j: int|
        0 <= j < cards.len() && card_matches(#[trigger] cards[j], set_id, slot, main_key) implies (exists|k: int|
        0 <= k < crate::order::sort_by_key(matching_cards(cards, set_id, slot, main_key, cards.len())).len()
            && (#[trigger] crate::order::sort_by_key(matching_cards(cards, set_id, slot, main_key, cards.len()))[k]).1 as int
            == j) by {
        lemma_passing_card_listed(cards, set_id, slot, main_key, j);
    }
}

/// The disc list shows only cards that pass every filter that is given: each
/// listed card is one of the input cards with the asked set id, slot and
/// main stat key; no card is listed twice; every card that passes is listed;
/// so the total is the number of passing cards. The list is ordered by item
/// id, then by uid. The cards of the page shown are passing cards too.
pub proof fn law_disc_page_filters(cards: Seq<DiscCard>, set_id: Option<u32>, slot: Option<u32>, main_key: Option<u32>, page: u32)
    requires
        cards.len() <= u32::MAX,
    ensures
        ({
            let sorted = crate::order::sort_by_key(matching_cards(cards, set_id, slot, main_key, cards.len()));
            let shown = spec_page_cards(sorted, clamp_page(page, page_count(sorted.len())));
            &&& (forall|k: int|
                0 <= k < sorted.len() ==> {
                    let j = (#[trigger] sorted[k]).1 as int;
                    &&& j < cards.len()
                    &&& (set_id is None || set_id == Some(cards[j].set_id))
                    &&& (slot is None || slot == Some(cards[j].slot))
                    &&& (main_key is None || main_key == Some(cards[j].main_key))
                })
            &&& (forall|a: int, b: int| 0 <= a < b < sorted.len() ==> sorted[a].1 != sorted[b].1)
            &&& (forall|a: int, b: int|
                #![trigger sorted[a], sorted[b]]
                0 <= a < b < sorted.len() ==> {
                    let x = cards[sorted[a].1 as int];
                    let y = cards[sorted[b].1 as int];
                    x.item_id < y.item_id || (x.item_id == y.item_id && x.uid <= y.uid)
                })
            &&& (forall|j: int|
                0 <= j < cards.len() && card_matches(#[trigger] cards[j], set_id, slot, main_key) ==> (exists|k: int|
                    0 <= k < sorted.len() && (#[trigger] sorted[k]).1 as int == j))
            &&& (forall|i: int|
                0 <= i < shown.len() ==> {
                    let j = (#[trigger] shown[i]) as int;
                    &&& j < cards.len()
                    &&& (set_id is None || set_id == Some(cards[j].set_id))
                    &&& (slot is None || slot == Some(cards[j].slot))
                    &&& (main_key is None || main_key == Some(cards[j].main_key))
                })
        }),
{
    let n = cards.len();
    let m = matching_cards(cards, set_id, slot, main_key, n);
    lemma_matching_facts(cards, set_id, slot, main_key, n);
    crate::order::lemma_sort_by_key_contents(m);
    let sorted = crate::order::sort_by_key(m);
    assert forall|k: int| 0 <= k < sorted.len() implies {
        let j = (#[trigger] sorted[k]).1 as int;
        &&& j < cards.len()
        &&& card_matches(cards[j], set_id, slot, main_key)
        &&& sorted[k].0 == card_key(cards[j])
    } by {
        assert(sorted.contains(sorted[k]));
        assert(m.contains(sorted[k]));
        let q = choose|q: int| 0 <= q < m.len() && m[q] == sorted[k];
        assert(m[q].1 < n);
    }
    crate::order::lemma_sort_by_key_sorted(m);
    assert forall|a: int, b: int| #![trigger sorted[a], sorted[b]] 0 <= a < b < sorted.len() implies {
        let x = cards[sorted[a].1 as int];
        let y = cards[sorted[b].1 as int];
        x.item_id < y.item_id || (x.item_id == y.item_id && x.uid <= y.uid)
    } by {
        let x = cards[sorted[a].1 as int];
        let y = cards[sorted[b].1 as int];
        assert(sorted[a].0 <= sorted[b].0);
        let xi = x.item_id as int;
        let xu = x.uid as int;
        let yi = y.item_id as int;
        let yu = y.uid as int;
        assert(xi * 0x1_0000_0000 + xu <= u64::MAX && yi * 0x1_0000_0000 + yu <= u64::MAX) by (nonlinear_arith)
            requires
                0 <= xi < 0x1_0000_0000,
                0 <= xu < 0x1_0000_0000,
                0 <= yi < 0x1_0000_0000,
                0 <= yu < 0x1_0000_0000,
        ;
        assert(xi < yi || (xi == yi && xu <= yu)) by (nonlinear_arith)
            requires
                0 <= xu < 0x1_0000_0000,
                0 <= yu < 0x1_0000_0000,
                xi * 0x1_0000_0000 + xu <= yi * 0x1_0000_0000 + yu,
        ;
    }
    let total = sorted.len();
    let p = clamp_page(page, page_count(total));
    assert((p - 1) * 50 <= total) by (nonlinear_arith)
        requires
            p >= 1,
            total == 0 ==> p == 1,
            total > 0 ==> p <= (total + 49) / 50,
    ;
    let start = (p - 1) * CARDS_PER_PAGE;
    let shown = spec_page_cards(sorted, p);
    assert forall|i: int| 0 <= i < shown.len() implies {
        let j = (#[trigger] shown[i]) as int;
        &&& j < cards.len()
        &&& card_matches(cards[j], set_id, slot, main_key)
    } by {
        assert(shown[i] == sorted[start + i].1);
    }
    lemma_passing_cards_listed(cards, set_id, slot, main_key);
}

/// Where page `p` of the disc list starts.
pub open spec fn page_start(p: nat) -> int {
    (p - 1) * 50
}

/// Every filtered card is on the page `i / 50 + 1` of its position `i`,
/// one of the pages the list has, and on no other page `p`.
pub proof fn law_pages_cover(total: nat, i: nat, p: nat)
    requires
        i < total,
    ensures
        1 <= i / 50 + 1 <= page_count(total),
        page_start(i / 50 + 1) <= i < page_start(i / 50 + 1) + 50,
        1 <= p && page_start(p) <= i < page_start(p) + 50 ==> p == i / 50 + 1,
{
    assert(i / 50 + 1 <= (total + 49) / 50) by (nonlinear_arith)
        requires
            i < total,
    ;
    assert((i / 50) * 50 <= i < (i / 50) * 50 + 50) by (nonlinear_arith);
    if 1 <= p && page_start(p) <= i < page_start(p) + 50 {
        assert(p == i / 50 + 1) by (nonlinear_arith)
            requires
                1 <= p,
                (p - 1) * 50 <= i,
                i < (p - 1) * 50 + 50,
        ;
    }
}

/// The first and last (1-based) positions the pager says a page shows.
pub open spec fn spec_showing_range(page: u32, total: usize) -> (int, int) {
    let start = (page - 1) * 50 + 1;
    let last = start + 49;
    (start, if total < last { total as int } else { last })
}

pub fn showing_range(page: u32, total: usize) -> (r: (usize, usize))
    requires
        page >= 1,
        (page - 1) * 50 + 50 <= usize::MAX,
    ensures
        r.0 == spec_showing_range(page, total).0,
        r.1 == spec_showing_range(page, total).1,
{
    let start = ((page - 1) as usize) * 50 + 1;
    let last = start + 49;
    (start, if total < last { total } else { last })
}

/// `&name=value` for a filter that is set, nothing for one that is not.
pub open spec fn opt_param(name: Seq<char>, v: Option<u32>) -> Seq<char> {
    match v {
        Some(x) => name + crate::text::decimal(x as nat),
        None => Seq::empty(),
    }
}

/// The status filter's part of the query string.
pub open spec fn status_param(status: Option<Seq<char>>) -> Seq<char> {
    match status {
        Some(v) => if v.len() > 0 {
            "&status="@ + v
        } else {
            Seq::empty()
        },
        None => Seq::empty(),
    }
}

/// The query string that keeps the disc list's filters across pages.
pub open spec fn spec_disc_filter_params(delete_mode: bool, set_id: Option<u32>, slot: Option<u32>, main_key: Option<u32>, status: Option<Seq<char>>) -> Seq<char> {
    "tab=discs"@ + (if delete_mode { "&delete=1"@ } else { Seq::empty() }) + opt_param("&set_id="@, set_id)
        + opt_param("&slot="@, slot) + opt_param("&main_stat="@, main_key) + status_param(status)
}

fn push_opt_param(out: &mut Vec<char>, name: &str, v: Option<u32>)
    ensures
        final(out)@ == old(out)@ + opt_param(name@, v),
{
    match v {
        Some(x) => {
            crate::text::extend_str(out, name);
            crate::text::push_decimal(out, x as u64);
            assert(final(out)@ =~= old(out)@ + opt_param(name@, v));
        },
        None => {
            assert(out@ =~= old(out)@ + opt_param(name@, v));
        },
    }
}

pub fn disc_filter_params(delete_mode: bool, set_id: Option<u32>, slot: Option<u32>, main_key: Option<u32>, status: Option<&str>) -> (r: String)
    ensures
        r@ == spec_disc_filter_params(
            delete_mode,
            set_id,
            slot,
            main_key,
            match status {
                Some(v) => Some(v@),
                None => None,
            },
        ),
{
    let ghost st = match status {
        Some(v) => Some(v@),
        None => None,
    };
    let mut out = chars_of("tab=discs");
    if delete_mode {
        crate::text::extend_str(&mut out, "&delete=1");
    }
    let ghost b = out@;
    assert(b =~= "tab=discs"@ + (if delete_mode { "&delete=1"@ } else { Seq::empty() }));
    push_opt_param(&mut out, "&set_id=", set_id);
    push_opt_param(&mut out, "&slot=", slot);
    push_opt_param(&mut out, "&main_stat=", main_key);
    let ghost e = out@;
    match status {
        Some(v) => {
            if !v.is_empty() {
                crate::text::extend_str(&mut out, "&status=");
                crate::text::extend_str(&mut out, v);
            }
        },
        None => {},
    }
    assert(out@ =~= e + status_param(st));
    crate::text::string_of(&out)
}

// ---------------------------------------------------------------------------
// Discs on the wire
// ---------------------------------------------------------------------------

/// What the ctl disc requests carry of a disc: its item id, level and stars,
/// and its stat lines padded with zero lines to five; `None` where the disc
/// has more than five lines or a value does not fit its field.
pub open spec fn spec_disc_wire(e: EquipModel) -> Option<(u16, u8, u8, Seq<(u16, u16, u8)>)> {
    if e.properties.len() <= 5 && e.id <= u16::MAX && e.level <= u8::MAX && e.star <= u8::MAX
        && (forall|i: int| 0 <= i < e.properties.len() ==> {
            let p = #[trigger] e.properties[i];
            p.key <= u16::MAX && p.base_value <= u16::MAX && p.add_value <= u8::MAX
        }) {
        Some((
            e.id as u16,
            e.level as u8,
            e.star as u8,
            Seq::new(
                5,
                |i: int|
                    if i < e.properties.len() {
                        (
                            e.properties[i].key as u16,
                            e.properties[i].base_value as u16,
                            e.properties[i].add_value as u8,
                        )
                    } else {
                        (0u16, 0u16, 0u8)
                    },
            ),
        ))
    } else {
        None
    }
}

/// The arguments of `ctl::create_equip` and `ctl::mod_equip` for a disc.
pub fn disc_wire(e: &EquipItemSave) -> (r: Option<(u16, u8, u8, [(u16, u16, u8); 5])>)
    ensures
        match r {
            Some((id, level, star, props)) => spec_disc_wire(e@) == Some((id, level, star, props@)),
            None => spec_disc_wire(e@) is None,
        },
{
    let n = e.properties.len();
    if n > 5 || e.id > 65535 || e.level > 255 || e.star > 255 {
        return None;
    }
    let mut props: [(u16, u16, u8); 5] = [(0, 0, 0); 5];
    let mut i: usize = 0;
    while i < n
        invariant
            n == e.properties@.len(),
            n <= 5,
            i <= n,
            props@.len() == 5,
            forall|j: int| 0 <= j < i ==> {
                let p = #[trigger] e@.properties[j];
                p.key <= u16::MAX && p.base_value <= u16::MAX && p.add_value <= u8::MAX
            },
            forall|j: int|
                0 <= j < 5 ==> #[trigger] props@[j] == if j < i {
                    (
                        e@.properties[j].key as u16,
                        e@.properties[j].base_value as u16,
                        e@.properties[j].add_value as u8,
                    )
                } else {
                    (0u16, 0u16, 0u8)
                },
        decreases n - i,
    {
        let p = e.properties[i];
        if p.key > 65535 || p.base_value > 65535 || p.add_value > 255 {
            proof {
                assert(e@.properties[i as int] == p);
            }
            return None;
        }
        props.set(i, (p.key as u16, p.base_value as u16, p.add_value as u8));
        proof {
            assert(e@.properties[i as int] == p);
        }
        i = i + 1;
    }
    let r = (e.id as u16, e.level as u8, e.star as u8, props);
    proof {
        let sp = spec_disc_wire(e@);
        assert(sp is Some);
        let w = sp->0;
        assert(w.3 =~= props@);
    }
    Some(r)
}

} // verus!
