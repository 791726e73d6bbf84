use vstd::prelude::*;
use crate::save::{buddy_views, BuddyItemSave, BuddyModel, PlayerSave};
use crate::zon::ZonEntry;

verus! {

/// The Bangboo edit form.
#[derive(Clone, Copy, Debug)]
pub struct BangbooUpdateForm {
    pub level: u32,
    pub rank: u32,
    pub star: u32,
    pub skill_manual: u32,
    pub skill_passive: u32,
    pub skill_qte: u32,
    pub skill_aid: u32,
}

/// The first Bangboo of the save with id `buddy_id`.
pub open spec fn find_buddy(s: Seq<BuddyModel>, buddy_id: u32) -> Option<int>
    decreases s.len(),
{
    if s.len() == 0 {
        None
    } else {
        match find_buddy(s.drop_last(), buddy_id) {
            Some(i) => Some(i),
            None => if s.last().id == buddy_id {
                Some(s.len() - 1)
            } else {
                None
            },
        }
    }
}

proof fn lemma_find_buddy(s: Seq<BuddyModel>, buddy_id: u32, i: int)
    requires
        0 <= i <= s.len(),
        i < s.len() ==> s[i].id == buddy_id,
        forall|j: int| 0 <= j < i ==> #[trigger] s[j].id != buddy_id,
    ensures
        find_buddy(s, buddy_id) == if i < s.len() {
            Some(i)
        } else {
            None::<int>
        },
    decreases s.len(),
{
    if s.len() > 0 {
        if i < s.len() - 1 {
            lemma_find_buddy(s.drop_last(), buddy_id, i);
        } else {
            lemma_find_buddy(s.drop_last(), buddy_id, s.len() - 1);
        }
    }
}

/// The Bangboo `b` after the edit form.
pub open spec fn edited_buddy(b: BuddyModel, f: BangbooUpdateForm) -> BuddyModel {
    BuddyModel {
        level: f.level,
        rank: f.rank,
        star: f.star,
        skill_levels: seq![f.skill_manual, f.skill_passive, f.skill_qte, f.skill_aid],
        ..b
    }
}

/// Applies the edit form to the Bangboo `buddy_id`; `false` (and no change)
/// where the save has none.
pub fn update_bangboo(save: &mut PlayerSave, buddy_id: u32, payload: &BangbooUpdateForm) -> (found: bool)
    ensures
        found == find_buddy(old(save)@.buddy, buddy_id) is Some,
        match find_buddy(old(save)@.buddy, buddy_id) {
            Some(i) => final(save)@ == (crate::save::PlayerModel {
                buddy: old(save)@.buddy.update(i, edited_buddy(old(save)@.buddy[i], *payload)),
                ..old(save)@
            }),
            None => final(save)@ == old(save)@,
        },
{
    let mut i: usize = 0;
    while i < save.buddy.len()
        invariant
            i <= save.buddy@.len(),
            save@ == old(save)@,
            forall|j: int| 0 <= j < i ==> #[trigger] save@.buddy[j].id != buddy_id,
        decreases save.buddy.len() - i,
    {
        if save.buddy[i].id == buddy_id {
            proof {
                lemma_find_buddy(save@.buddy, buddy_id, i as int);
            }
            let b = &save.buddy[i];
            let edited = BuddyItemSave {
                id: b.id,
                level: payload.level,
                exp: b.exp,
                rank: payload.rank,
                star: payload.star,
                favorite: b.favorite,
                skill_levels: vec![
                    payload.skill_manual,
                    payload.skill_passive,
                    payload.skill_qte,
                    payload.skill_aid,
                ],
            };
            let ghost before = save.buddy@;
            save.buddy.set(i, edited);
            assert(edited@.skill_levels =~= seq![
                payload.skill_manual,
                payload.skill_passive,
                payload.skill_qte,
                payload.skill_aid,
            ]);
            assert(buddy_views(save.buddy@) =~= buddy_views(before).update(i as int, edited@));
            return true;
        }
        i = i + 1;
    }
    proof {
        lemma_find_buddy(save@.buddy, buddy_id, save@.buddy.len() as int);
    }
    false
}

/// A fully upgraded Bangboo: level 60, rank 6, one star, skills 12/5/12/12.
pub open spec fn maxed_buddy(id: u32) -> BuddyModel {
    BuddyModel {
        id,
        level: 60,
        exp: 0,
        rank: 6,
        star: 1,
        favorite: false,
        skill_levels: seq![12u32, 5u32, 12u32, 12u32],
    }
}

/// The Bangboo id a template record names, where it is a u32 below 55000.
pub open spec fn template_buddy_id(e: Map<Seq<char>, Seq<char>>) -> Option<u32> {
    if e.contains_key("id"@) {
        match crate::text::spec_parse_u32(e["id"@]) {
            Some(v) => if v < 55000 {
                Some(v)
            } else {
                None
            },
            None => None,
        }
    } else {
        None
    }
}

/// The Bangboos the first `n` template records add to a save that owns
/// `owned`: each template Bangboo it does not own, in template order.
pub open spec fn missing_buddies(entries: Seq<Map<Seq<char>, Seq<char>>>, owned: Seq<BuddyModel>, n: nat) -> Seq<BuddyModel>
    decreases n,
{
    if n == 0 {
        Seq::empty()
    } else {
        let prev = missing_buddies(entries, owned, (n - 1) as nat);
        match template_buddy_id(entries[n - 1]) {
            Some(id) => if exists|j: int| 0 <= j < owned.len() && #[trigger] owned[j].id == id {
                prev
            } else {
                prev.push(maxed_buddy(id))
            },
            None => prev,
        }
    }
}

fn owns_buddy(save: &PlayerSave, id: u32, upto: usize) -> (r: bool)
    requires
        upto <= save.buddy@.len(),
    ensures
        r == exists|j: int| 0 <= j < upto && #[trigger] save@.buddy[j].id == id,
{
    let mut i: usize = 0;
    while i < upto
        invariant
            i <= upto <= save.buddy@.len(),
            forall|j: int| 0 <= j < i ==> #[trigger] save@.buddy[j].id != id,
        decreases upto - i,
    {
        if save.buddy[i].id == id {
            assert(save@.buddy[i as int].id == id);
            return true;
        }
        i = i + 1;
    }
    false
}

/// Adds, fully upgraded, every Bangboo of the templates (ids below 55000)
/// that the save does not hold yet.
pub fn add_all_bangboos(save: &mut PlayerSave, entries: &Vec<ZonEntry>)
    ensures
        final(save)@ == (crate::save::PlayerModel {
            buddy: old(save)@.buddy + missing_buddies(
                crate::zon::entry_views(entries@),
                old(save)@.buddy,
                entries@.len(),
            ),
            ..old(save)@
        }),
{
    let owned_count = save.buddy.len();
    let ghost owned = save@.buddy;
    let ghost ev = crate::zon::entry_views(entries@);
    let mut k: usize = 0;
    while k < entries.len()
        invariant
            k <= entries@.len(),
            owned_count == owned.len(),
            ev == crate::zon::entry_views(entries@),
            save@ == (crate::save::PlayerModel {
                buddy: owned + missing_buddies(ev, owned, k as nat),
                ..old(save)@
            }),
            owned == old(save)@.buddy,
        decreases entries.len() - k,
    {
        let ghost before = save.buddy@;
        proof {
            assert(ev[k as int] == entries@[k as int].view());
        }
        match entries[k].get("id") {
            Some(v) => {
                let chars = crate::text::chars_of(v.as_str());
                match crate::text::parse_u32_chars(&chars) {
                    Some(id) => {
                        if id < 55000 {
                            proof {
                                assert(save@.buddy.len() == save.buddy@.len());
                                assert(save@.buddy.len() >= owned_count);
                                assert forall|j: int| 0 <= j < owned_count implies #[trigger] save@.buddy[j]
                                    == owned[j] by {
                                    assert(save@.buddy[j] == (owned + missing_buddies(ev, owned, k as nat))[j]);
                                }
                            }
                            let owned_already = owns_buddy(save, id, owned_count);
                            proof {
                                assert(template_buddy_id(ev[k as int]) == Some(id));
                                if owned_already {
                                    let j = choose|j: int| 0 <= j < owned_count && #[trigger] save@.buddy[j].id == id;
                                    assert(owned[j].id == id);
                                } else {
                                    assert forall|j: int| 0 <= j < owned.len() implies #[trigger] owned[j].id != id by {
                                        assert(save@.buddy[j] == owned[j]);
                                    }
                                }
                            }
                            if !owned_already {
                                let b = BuddyItemSave {
                                    id,
                                    level: 60,
                                    exp: 0,
                                    rank: 6,
                                    star: 1,
                                    favorite: false,
                                    skill_levels: vec![12, 5, 12, 12],
                                };
                                assert(b@.skill_levels =~= seq![12u32, 5u32, 12u32, 12u32]);
                                save.buddy.push(b);
                                assert(buddy_views(save.buddy@) =~= buddy_views(before).push(b@));
                            }
                        } else {
                            assert(template_buddy_id(ev[k as int]) is None);
                        }
                    },
                    None => {
                        assert(template_buddy_id(ev[k as int]) is None);
                    },
                }
            },
            None => {
                assert(template_buddy_id(ev[k as int]) is None);
            },
        }
        k = k + 1;
        assert(save@.buddy =~= owned + missing_buddies(ev, owned, k as nat));
    }
}

} // verus!
