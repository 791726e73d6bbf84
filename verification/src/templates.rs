use vstd::prelude::*;
use crate::text::{decimal, decimal_chars, parse_u32_chars, spec_parse_u32, chars_of};
use crate::zon::{ZonEntry, entry_views, spec_zon_entries, zon_try_parse_entries};

verus! {

/// Set and slot of one disc item.
#[derive(Clone, Copy, Debug)]
pub struct EquipTemplateInfo {
    pub suit_type: u32,
    pub slot: u32,
}

/// The disc templates: per item its set and slot, and per (set, slot) the
/// first item listed for it.
pub struct EquipTemplateIndex {
    by_item: Vec<(u32, EquipTemplateInfo)>,
    by_suit_slot: Vec<(u32, u32, u32)>,
}

pub open spec fn item_lookup(s: Seq<(u32, EquipTemplateInfo)>, id: u32) -> Option<EquipTemplateInfo>
    decreases s.len(),
{
    if s.len() == 0 {
        None
    } else if s.last().0 == id {
        Some(s.last().1)
    } else {
        item_lookup(s.drop_last(), id)
    }
}

pub open spec fn slot_lookup(s: Seq<(u32, u32, u32)>, set_id: u32, slot: u32) -> Option<u32>
    decreases s.len(),
{
    if s.len() == 0 {
        None
    } else if s.last().0 == set_id && s.last().1 == slot {
        Some(s.last().2)
    } else {
        slot_lookup(s.drop_last(), set_id, slot)
    }
}

proof fn lemma_slot_lookup_has(s: Seq<(u32, u32, u32)>, i: int)
    requires
        0 <= i < s.len(),
    ensures
        slot_lookup(s, s[i].0, s[i].1) is Some,
    decreases s.len(),
{
    if i < s.len() - 1 {
        assert(s.drop_last()[i] == s[i]);
        lemma_slot_lookup_has(s.drop_last(), i);
    }
}

proof fn lemma_slot_lookup_found(s: Seq<(u32, u32, u32)>, set_id: u32, slot: u32)
    ensures
        slot_lookup(s, set_id, slot) is Some ==> exists|j: int| 0 <= j < s.len() && (#[trigger] s[j]).0 == set_id,
    decreases s.len(),
{
    if s.len() > 0 {
        lemma_slot_lookup_found(s.drop_last(), set_id, slot);
        if slot_lookup(s.drop_last(), set_id, slot) is Some {
            let j = choose|j: int| 0 <= j < s.drop_last().len() && (#[trigger] s.drop_last()[j]).0 == set_id;
            assert(s[j] == s.drop_last()[j]);
        } else if slot_lookup(s, set_id, slot) is Some {
            assert(s[s.len() - 1].0 == set_id);
        }
    }
}

/// The index's content: item id to info, and (set, slot) to item id.
pub struct IndexModel {
    pub by_item: Map<u32, EquipTemplateInfo>,
    pub by_suit_slot: Map<(u32, u32), u32>,
}

impl EquipTemplateIndex {
    pub closed spec fn view(&self) -> IndexModel {
        IndexModel {
            by_item: Map::new(
                |k: u32| item_lookup(self.by_item@, k) is Some,
                |k: u32| item_lookup(self.by_item@, k)->0,
            ),
            by_suit_slot: Map::new(
                |k: (u32, u32)| slot_lookup(self.by_suit_slot@, k.0, k.1) is Some,
                |k: (u32, u32)| slot_lookup(self.by_suit_slot@, k.0, k.1)->0,
            ),
        }
    }

    pub fn new() -> (idx: Self)
        ensures
            idx.view().by_item == Map::<u32, EquipTemplateInfo>::empty(),
            idx.view().by_suit_slot == Map::<(u32, u32), u32>::empty(),
    {
        let idx = EquipTemplateIndex { by_item: Vec::new(), by_suit_slot: Vec::new() };
        assert(idx.view().by_item =~= Map::<u32, EquipTemplateInfo>::empty());
        assert(idx.view().by_suit_slot =~= Map::<(u32, u32), u32>::empty());
        idx
    }

    pub fn get_item(&self, item_id: u32) -> (r: Option<EquipTemplateInfo>)
        ensures
            r == (if self.view().by_item.contains_key(item_id) {
                Some(self.view().by_item[item_id])
            } else {
                None
            }),
    {
        let mut i = self.by_item.len();
        assert(self.by_item@.subrange(0, i as int) =~= self.by_item@);
        while i > 0
            invariant
                i <= self.by_item@.len(),
                item_lookup(self.by_item@.subrange(0, i as int), item_id) == item_lookup(
                    self.by_item@,
                    item_id,
                ),
            decreases i,
        {
            assert(self.by_item@.subrange(0, i as int).drop_last() =~= self.by_item@.subrange(
                0,
                i - 1,
            ));
            if self.by_item[i - 1].0 == item_id {
                return Some(self.by_item[i - 1].1);
            }
            i = i - 1;
        }
        None
    }

    pub fn get_suit_slot(&self, set_id: u32, slot: u32) -> (r: Option<u32>)
        ensures
            r == (if self.view().by_suit_slot.contains_key((set_id, slot)) {
                Some(self.view().by_suit_slot[(set_id, slot)])
            } else {
                None
            }),
    {
        let mut i = self.by_suit_slot.len();
        assert(self.by_suit_slot@.subrange(0, i as int) =~= self.by_suit_slot@);
        while i > 0
            invariant
                i <= self.by_suit_slot@.len(),
                slot_lookup(self.by_suit_slot@.subrange(0, i as int), set_id, slot) == slot_lookup(
                    self.by_suit_slot@,
                    set_id,
                    slot,
                ),
            decreases i,
        {
            assert(self.by_suit_slot@.subrange(0, i as int).drop_last()
                =~= self.by_suit_slot@.subrange(0, i - 1));
            let e = self.by_suit_slot[i - 1];
            if e.0 == set_id && e.1 == slot {
                return Some(e.2);
            }
            i = i - 1;
        }
        None
    }

    /// Whether the index has a disc of `set_id` for some slot.
    pub fn knows_set(&self, set_id: u32) -> (r: bool)
        ensures
            r == exists|slot: u32| #[trigger] self.view().by_suit_slot.contains_key((set_id, slot)),
    {
        let mut i: usize = 0;
        while i < self.by_suit_slot.len()
            invariant
                i <= self.by_suit_slot@.len(),
                forall|j: int| 0 <= j < i ==> (#[trigger] self.by_suit_slot@[j]).0 != set_id,
            decreases self.by_suit_slot.len() - i,
        {
            let e = self.by_suit_slot[i];
            if e.0 == set_id {
                proof {
                    lemma_slot_lookup_has(self.by_suit_slot@, i as int);
                    assert(self.view().by_suit_slot.contains_key((set_id, e.1)));
                }
                return true;
            }
            i = i + 1;
        }
        proof {
            assert forall|slot: u32| !self.view().by_suit_slot.contains_key((set_id, slot)) by {
                lemma_slot_lookup_found(self.by_suit_slot@, set_id, slot);
            }
        }
        false
    }

    /// Records an item: its info replaces any earlier one; its (set, slot)
    /// keeps the first item recorded for it.
    pub fn add(&mut self, item_id: u32, info: EquipTemplateInfo)
        ensures
            final(self).view().by_item == old(self).view().by_item.insert(item_id, info),
            final(self).view().by_suit_slot == if old(self).view().by_suit_slot.contains_key(
                (info.suit_type, info.slot),
            ) {
                old(self).view().by_suit_slot
            } else {
                old(self).view().by_suit_slot.insert((info.suit_type, info.slot), item_id)
            },
    {
        let ghost old_view = self.view();
        let ghost old_items = self.by_item@;
        let ghost old_slots = self.by_suit_slot@;
        let existing = self.get_suit_slot(info.suit_type, info.slot);
        self.by_item.push((item_id, info));
        assert(self.by_item@.drop_last() =~= old_items);
        if existing.is_none() {
            self.by_suit_slot.push((info.suit_type, info.slot, item_id));
            assert(self.by_suit_slot@.drop_last() =~= old_slots);
            assert(self.view().by_suit_slot =~= old_view.by_suit_slot.insert(
                (info.suit_type, info.slot),
                item_id,
            ));
        } else {
            assert(self.view().by_suit_slot =~= old_view.by_suit_slot);
        }
        assert(self.view().by_item =~= old_view.by_item.insert(item_id, info));
    }
}

/// The set a disc belongs to: its template's, else the id with the last two digits zeroed.
pub open spec fn spec_equip_set_id(item_id: u32, idx: IndexModel) -> u32 {
    if idx.by_item.contains_key(item_id) {
        idx.by_item[item_id].suit_type
    } else {
        ((item_id / 100) * 100) as u32
    }
}

/// The slot of a disc: its template's, else the id's last digit.
pub open spec fn spec_equip_slot(item_id: u32, idx: IndexModel) -> u32 {
    if idx.by_item.contains_key(item_id) {
        idx.by_item[item_id].slot
    } else {
        (item_id % 10) as u32
    }
}

pub fn equip_set_id(item_id: u32, index: &EquipTemplateIndex) -> (s: u32)
    ensures
        s == spec_equip_set_id(item_id, index.view()),
{
    match index.get_item(item_id) {
        Some(info) => info.suit_type,
        None => (item_id / 100) * 100,
    }
}

pub fn equip_slot(item_id: u32, index: &EquipTemplateIndex) -> (s: u32)
    ensures
        s == spec_equip_slot(item_id, index.view()),
{
    match index.get_item(item_id) {
        Some(info) => info.slot,
        None => item_id % 10,
    }
}

/// The disc item of a set for a slot, if the templates list one.
pub fn resolve_equip_item_id(set_id: u32, slot: u32, index: &EquipTemplateIndex) -> (r: Option<u32>)
    ensures
        r == (if index.view().by_suit_slot.contains_key((set_id, slot)) {
            Some(index.view().by_suit_slot[(set_id, slot)])
        } else {
            None
        }),
{
    index.get_suit_slot(set_id, slot)
}

/// The item id with its fourth decimal digit set to 4 (ids of fewer than
/// four digits, and results that overflow a u32, are left unchanged).
pub open spec fn spec_force_disc_fourth_digit(item_id: u32) -> u32 {
    let s = decimal(item_id as nat);
    if s.len() < 4 {
        item_id
    } else {
        match spec_parse_u32(s.update(3, '4')) {
            Some(v) => v,
            None => item_id,
        }
    }
}

pub fn force_disc_fourth_digit(item_id: u32) -> (r: u32)
    ensures
        r == spec_force_disc_fourth_digit(item_id),
{
    let mut s = decimal_chars(item_id as u64);
    if s.len() < 4 {
        return item_id;
    }
    s.set(3, '4');
    match parse_u32_chars(&s) {
        Some(v) => v,
        None => item_id,
    }
}

} // verus!

verus! {

/// A record's item id: its `item_id` field, or its `id` field when it has no
/// `item_id`, parsed as a u32.
pub open spec fn entry_item_id(e: Map<Seq<char>, Seq<char>>) -> Option<u32> {
    if e.contains_key("item_id"@) {
        spec_parse_u32(e["item_id"@])
    } else if e.contains_key("id"@) {
        spec_parse_u32(e["id"@])
    } else {
        None
    }
}

pub open spec fn parsed_field(e: Map<Seq<char>, Seq<char>>, key: Seq<char>) -> Option<u32> {
    if e.contains_key(key) {
        spec_parse_u32(e[key])
    } else {
        None
    }
}

/// A record's set and slot: its `suit_type` and `equipment_type` fields, or
/// the item id with the last two digits zeroed and its last digit.
pub open spec fn entry_info(e: Map<Seq<char>, Seq<char>>, item_id: u32) -> EquipTemplateInfo {
    EquipTemplateInfo {
        suit_type: match parsed_field(e, "suit_type"@) {
            Some(v) => v,
            None => ((item_id / 100) * 100) as u32,
        },
        slot: match parsed_field(e, "equipment_type"@) {
            Some(v) => v,
            None => (item_id % 10) as u32,
        },
    }
}

pub open spec fn index_add(idx: IndexModel, item_id: u32, info: EquipTemplateInfo) -> IndexModel {
    IndexModel {
        by_item: idx.by_item.insert(item_id, info),
        by_suit_slot: if idx.by_suit_slot.contains_key((info.suit_type, info.slot)) {
            idx.by_suit_slot
        } else {
            idx.by_suit_slot.insert((info.suit_type, info.slot), item_id)
        },
    }
}

/// The index built from the records in order; records without an item id are skipped.
pub open spec fn fold_index(entries: Seq<Map<Seq<char>, Seq<char>>>) -> IndexModel
    decreases entries.len(),
{
    if entries.len() == 0 {
        IndexModel { by_item: Map::empty(), by_suit_slot: Map::empty() }
    } else {
        let prev = fold_index(entries.drop_last());
        match entry_item_id(entries.last()) {
            Some(id) => index_add(prev, id, entry_info(entries.last(), id)),
            None => prev,
        }
    }
}

fn parse_field(e: &ZonEntry, key: &str) -> (r: Option<u32>)
    ensures
        r == parsed_field(e.view(), key@),
{
    match e.get(key) {
        Some(v) => {
            let c = chars_of(v.as_str());
            parse_u32_chars(&c)
        },
        None => None,
    }
}

/// Builds the disc template index from the text of EquipmentTemplateTb.zon;
/// `None` where the text cannot be cut as written.
pub fn build_equip_template_index(data: &str) -> (res: Option<EquipTemplateIndex>)
    ensures
        match res {
            Some(idx) => spec_zon_entries(data@) matches Some(es) && idx.view() == fold_index(es),
            None => spec_zon_entries(data@) is None,
        },
{
    let entries = match zon_try_parse_entries(data) {
        Some(v) => v,
        None => return None,
    };
    let ghost es = entry_views(entries@);
    let mut index = EquipTemplateIndex::new();
    let mut i: usize = 0;
    assert(es.subrange(0, 0) =~= Seq::<Map<Seq<char>, Seq<char>>>::empty());
    assert(index.view() =~= fold_index(es.subrange(0, 0)));
    while i < entries.len()
        invariant
            i <= entries@.len(),
            es == entry_views(entries@),
            index.view() == fold_index(es.subrange(0, i as int)),
        decreases entries.len() - i,
    {
        let e = &entries[i];
        assert(es.subrange(0, i + 1).drop_last() =~= es.subrange(0, i as int));
        assert(es.subrange(0, i + 1).last() == e.view());
        let item_id = match parse_field(e, "item_id") {
            Some(v) => Some(v),
            None => match e.get("item_id") {
                Some(_) => None,
                None => parse_field(e, "id"),
            },
        };
        if let Some(id) = item_id {
            let slot = match parse_field(e, "equipment_type") {
                Some(v) => v,
                None => id % 10,
            };
            let suit_type = match parse_field(e, "suit_type") {
                Some(v) => v,
                None => (id / 100) * 100,
            };
            let info = EquipTemplateInfo { suit_type, slot };
            let ghost before = index.view();
            index.add(id, info);
            assert(index.view() =~= index_add(before, id, entry_info(e.view(), id)));
        }
        i = i + 1;
    }
    assert(es.subrange(0, es.len() as int) =~= es);
    Some(index)
}

} // verus!
