use vstd::prelude::*;
use crate::save::{avatar_views, AvatarItemSave, AvatarModel, PlayerSave};

verus! {

/// The agent edit form.
#[derive(Clone, Copy, Debug)]
pub struct AvatarUpdateForm {
    pub level: u32,
    pub core_ability: u32,
    pub unlocked_talent_num: u32,
    pub skill_common_attack: u32,
    pub skill_special_attack: u32,
    pub skill_evade: u32,
    pub skill_cooperate_skill: u32,
    pub skill_assist_skill: u32,
}

/// Whether the form's values are in range: level 1..=60, at most six
/// talents, skills 1..=12 and core ability 1..=7.
pub open spec fn spec_avatar_values_valid(f: AvatarUpdateForm) -> bool {
    &&& 1 <= f.level <= 60
    &&& f.unlocked_talent_num <= 6
    &&& 1 <= f.skill_common_attack <= 12
    &&& 1 <= f.skill_special_attack <= 12
    &&& 1 <= f.skill_evade <= 12
    &&& 1 <= f.skill_cooperate_skill <= 12
    &&& 1 <= f.core_ability <= 7
    &&& 1 <= f.skill_assist_skill <= 12
}

pub fn avatar_values_valid(payload: &AvatarUpdateForm) -> (r: bool)
    ensures
        r == spec_avatar_values_valid(*payload),
{
    1 <= payload.level && payload.level <= 60 && payload.unlocked_talent_num <= 6 && 1
        <= payload.skill_common_attack && payload.skill_common_attack <= 12 && 1
        <= payload.skill_special_attack && payload.skill_special_attack <= 12 && 1
        <= payload.skill_evade && payload.skill_evade <= 12 && 1 <= payload.skill_cooperate_skill
        && payload.skill_cooperate_skill <= 12 && 1 <= payload.core_ability
        && payload.core_ability <= 7 && 1 <= payload.skill_assist_skill
        && payload.skill_assist_skill <= 12
}

/// The skills of the form, as (skill id, level), in the order they are sent.
pub open spec fn form_skills(f: AvatarUpdateForm) -> Seq<(u32, u32)> {
    seq![
        (0u32, f.skill_common_attack),
        (1u32, f.skill_special_attack),
        (2u32, f.skill_evade),
        (3u32, f.skill_cooperate_skill),
        (5u32, f.core_ability),
        (6u32, f.skill_assist_skill),
    ]
}

/// A skill's level in the save: its entry in the skill list, 1 where the
/// list is shorter.
pub open spec fn saved_skill_level(levels: Seq<u32>, skill_id: u32) -> u32 {
    if skill_id < levels.len() {
        levels[skill_id as int]
    } else {
        1
    }
}

/// The value a skill change is sent with: the skill id in the low word, the
/// level in the high word.
pub open spec fn packed_skill(skill_id: u32, level: u32) -> u64 {
    (skill_id as int + level as int * 0x1_0000_0000) as u64
}

/// The skill changes among the first `n` skills of the form.
pub open spec fn skill_ops(levels: Seq<u32>, skills: Seq<(u32, u32)>, n: nat) -> Seq<(u8, u64)>
    decreases n,
{
    if n == 0 {
        Seq::empty()
    } else {
        let prev = skill_ops(levels, skills, (n - 1) as nat);
        let (id, level) = skills[n - 1];
        if level != saved_skill_level(levels, id) {
            prev.push((5u8, packed_skill(id, level)))
        } else {
            prev
        }
    }
}

/// The field changes sent for the edit form, as (field, value): the level
/// (field 0) and the talents (field 3) where they differ from the save, then
/// each skill (field 5) whose level differs.
pub open spec fn spec_avatar_update_ops(current: AvatarModel, f: AvatarUpdateForm) -> Seq<(u8, u64)> {
    let a: Seq<(u8, u64)> = if f.level != current.level {
        seq![(0u8, f.level as u64)]
    } else {
        Seq::empty()
    };
    let b: Seq<(u8, u64)> = if f.unlocked_talent_num != current.talents {
        seq![(3u8, f.unlocked_talent_num as u64)]
    } else {
        Seq::empty()
    };
    a + b + skill_ops(current.skill_levels, form_skills(f), 6)
}

/// The changes the edit form makes to the agent `current`.
pub fn avatar_update_ops(current: &AvatarItemSave, payload: &AvatarUpdateForm) -> (ops: Vec<(u8, u64)>)
    ensures
        ops@ == spec_avatar_update_ops(current@, *payload),
{
    let mut ops: Vec<(u8, u64)> = Vec::new();
    if payload.level != current.level {
        ops.push((0, payload.level as u64));
    }
    if payload.unlocked_talent_num != current.talents {
        ops.push((3, payload.unlocked_talent_num as u64));
    }
    let ghost head = ops@;
    let skills: [(u32, u32); 6] = [
        (0, payload.skill_common_attack),
        (1, payload.skill_special_attack),
        (2, payload.skill_evade),
        (3, payload.skill_cooperate_skill),
        (5, payload.core_ability),
        (6, payload.skill_assist_skill),
    ];
    assert(skills@ =~= form_skills(*payload));
    let mut k: usize = 0;
    while k < 6
        invariant
            k <= 6,
            skills@ == form_skills(*payload),
            ops@ == head + skill_ops(current@.skill_levels, form_skills(*payload), k as nat),
        decreases 6 - k,
    {
        let (skill_id, level) = skills[k];
        let saved = if (skill_id as usize) < current.skill_levels.len() {
            current.skill_levels[skill_id as usize]
        } else {
            1
        };
        if level != saved {
            assert((skill_id as int) + (level as int) * 0x1_0000_0000 <= u64::MAX) by (nonlinear_arith)
                requires
                    skill_id <= u32::MAX,
                    level <= u32::MAX,
            ;
            let packed: u64 = (skill_id as u64) | ((level as u64) << 32u64);
            assert(packed == (skill_id as u64) + (level as u64) * 0x1_0000_0000) by (bit_vector)
                requires
                    skill_id <= 0xffff_ffff,
                    level <= 0xffff_ffff,
                    packed == (skill_id as u64) | ((level as u64) << 32u64),
            ;
            ops.push((5, packed));
        }
        k = k + 1;
        assert(ops@ =~= head + skill_ops(current@.skill_levels, form_skills(*payload), k as nat));
    }
    assert(ops@ =~= spec_avatar_update_ops(current@, *payload));
    ops
}

/// The first agent of the save with id `avatar_id`.
pub open spec fn find_avatar(s: Seq<AvatarModel>, avatar_id: u32) -> Option<int>
    decreases s.len(),
{
    if s.len() == 0 {
        None
    } else {
        match find_avatar(s.drop_last(), avatar_id) {
            Some(i) => Some(i),
            None => if s.last().id == avatar_id {
                Some(s.len() - 1)
            } else {
                None
            },
        }
    }
}

proof fn lemma_find_avatar(s: Seq<AvatarModel>, avatar_id: u32, i: int)
    requires
        0 <= i <= s.len(),
        i < s.len() ==> s[i].id == avatar_id,
        forall|j: int| 0 <= j < i ==> #[trigger] s[j].id != avatar_id,
    ensures
        find_avatar(s, avatar_id) == if i < s.len() {
            Some(i)
        } else {
            None::<int>
        },
    decreases s.len(),
{
    if s.len() > 0 {
        if i < s.len() - 1 {
            lemma_find_avatar(s.drop_last(), avatar_id, i);
        } else {
            lemma_find_avatar(s.drop_last(), avatar_id, s.len() - 1);
        }
    }
}

/// The index of the save's agent `avatar_id` (the ownership check of the
/// edit form).
pub fn avatar_position(save: &PlayerSave, avatar_id: u32) -> (r: Option<usize>)
    ensures
        match r {
            Some(i) => find_avatar(save@.avatar, avatar_id) == Some(i as int),
            None => find_avatar(save@.avatar, avatar_id) is None,
        },
{
    let mut i: usize = 0;
    while i < save.avatar.len()
        invariant
            i <= save.avatar@.len(),
            forall|j: int| 0 <= j < i ==> #[trigger] save@.avatar[j].id != avatar_id,
        decreases save.avatar.len() - i,
    {
        if save.avatar[i].id == avatar_id {
            proof {
                lemma_find_avatar(save@.avatar, avatar_id, i as int);
            }
            return Some(i);
        }
        i = i + 1;
    }
    proof {
        lemma_find_avatar(save@.avatar, avatar_id, save@.avatar.len() as int);
    }
    None
}

/// Why the add form is refused.
#[derive(PartialEq, Eq, Structural, Debug, Clone, Copy)]
pub enum AvatarAddError {
    /// The id does not fit a u16.
    InvalidId,
    /// The account owns the agent already.
    AlreadyOwned,
}

/// Checks the add form against the save (if the player has one): gives the
/// agent id to create.
pub fn check_avatar_add(save: Option<&PlayerSave>, avatar_id: u32) -> (r: Result<u32, AvatarAddError>)
    ensures
        avatar_id > u16::MAX ==> r == Err::<u32, AvatarAddError>(AvatarAddError::InvalidId),
        avatar_id <= u16::MAX ==> r == match save {
            Some(s) => if find_avatar(s@.avatar, avatar_id) is Some {
                Err::<u32, AvatarAddError>(AvatarAddError::AlreadyOwned)
            } else {
                Ok(avatar_id)
            },
            None => Ok(avatar_id),
        },
{
    if avatar_id > 0xffff {
        return Err(AvatarAddError::InvalidId);
    }
    match save {
        Some(s) => match avatar_position(s, avatar_id) {
            Some(_) => Err(AvatarAddError::AlreadyOwned),
            None => Ok(avatar_id),
        },
        None => Ok(avatar_id),
    }
}

/// The element filter's name for an element id, empty for an unknown one.
pub open spec fn spec_avatar_element_name(element: u32) -> Seq<char> {
    if element == 200 {
        "physical"@
    } else if element == 201 {
        "fire"@
    } else if element == 202 {
        "ice"@
    } else if element == 203 {
        "electric"@
    } else if element == 204 {
        "wind"@
    } else if element == 205 {
        "ether"@
    } else {
        ""@
    }
}

pub fn avatar_element_name(element: u32) -> (r: &'static str)
    ensures
        r@ == spec_avatar_element_name(element),
{
    if element == 200 {
        "physical"
    } else if element == 201 {
        "fire"
    } else if element == 202 {
        "ice"
    } else if element == 203 {
        "electric"
    } else if element == 204 {
        "wind"
    } else if element == 205 {
        "ether"
    } else {
        ""
    }
}

} // verus!
