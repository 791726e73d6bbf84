use vstd::prelude::*;
use crate::save::{PlayerSave, WeaponItemSave};

verus! {

/// Why a W-Engine form is refused.
#[derive(PartialEq, Eq, Structural, Debug, Clone, Copy)]
pub enum WeaponFormError {
    /// The level is not one of 1 through 60.
    LevelOutOfRange,
    /// The refinement is not one of 1 through 5.
    RefineOutOfRange,
    /// The W-Engine id does not fit a u16.
    IdOutOfRange,
}

impl WeaponFormError {
    /// The translation key of the error's message.
    pub open spec fn spec_message_key(self) -> Seq<char> {
        match self {
            WeaponFormError::LevelOutOfRange => "weapon.level_out_of_range"@,
            WeaponFormError::RefineOutOfRange => "weapon.refine_out_of_range"@,
            WeaponFormError::IdOutOfRange => "weapon.id_out_of_range"@,
        }
    }

    /// The translation key of the error's message.
    pub fn message_key(&self) -> (k: &'static str)
        ensures
            k@ == self.spec_message_key(),
    {
        match self {
            WeaponFormError::LevelOutOfRange => "weapon.level_out_of_range",
            WeaponFormError::RefineOutOfRange => "weapon.refine_out_of_range",
            WeaponFormError::IdOutOfRange => "weapon.id_out_of_range",
        }
    }
}

/// Checks the edit form: the level and refinement to send.
pub fn validate_weapon_update(level: u32, refine_level: u32) -> (r: Result<(u8, u8), WeaponFormError>)
    ensures
        !(1 <= level <= 60) ==> r == Err::<(u8, u8), WeaponFormError>(WeaponFormError::LevelOutOfRange),
        1 <= level <= 60 && !(1 <= refine_level <= 5) ==> r == Err::<(u8, u8), WeaponFormError>(
            WeaponFormError::RefineOutOfRange,
        ),
        1 <= level <= 60 && 1 <= refine_level <= 5 ==> r == Ok::<(u8, u8), WeaponFormError>(
            (level as u8, refine_level as u8),
        ),
{
    if !(1 <= level && level <= 60) {
        return Err(WeaponFormError::LevelOutOfRange);
    }
    if !(1 <= refine_level && refine_level <= 5) {
        return Err(WeaponFormError::RefineOutOfRange);
    }
    Ok((level as u8, refine_level as u8))
}

/// Checks the add form: the W-Engine id and refinement to send.
pub fn validate_weapon_add(weapon_id: u32, refine_level: u32) -> (r: Result<(u16, u8), WeaponFormError>)
    ensures
        weapon_id > u16::MAX ==> r == Err::<(u16, u8), WeaponFormError>(WeaponFormError::IdOutOfRange),
        weapon_id <= u16::MAX && !(1 <= refine_level <= 5) ==> r == Err::<(u16, u8), WeaponFormError>(
            WeaponFormError::RefineOutOfRange,
        ),
        weapon_id <= u16::MAX && 1 <= refine_level <= 5 ==> r == Ok::<(u16, u8), WeaponFormError>(
            (weapon_id as u16, refine_level as u8),
        ),
{
    if weapon_id > 0xffff {
        return Err(WeaponFormError::IdOutOfRange);
    }
    if !(1 <= refine_level && refine_level <= 5) {
        return Err(WeaponFormError::RefineOutOfRange);
    }
    Ok((weapon_id as u16, refine_level as u8))
}

/// Whether the save (if there is one) holds the W-Engine `weapon_uid`: the
/// ownership check of the edit form.
pub fn weapon_belongs(save: Option<&PlayerSave>, weapon_uid: u32) -> (r: bool)
    ensures
        r == match save {
            Some(s) => exists|i: int| 0 <= i < s@.weapon.len() && #[trigger] s@.weapon[i].uid == weapon_uid,
            None => false,
        },
{
    match save {
        None => false,
        Some(s) => {
            let mut i: usize = 0;
            while i < s.weapon.len()
                invariant
                    i <= s.weapon@.len(),
                    save == Some(s),
                    forall|j: int| 0 <= j < i ==> #[trigger] s@.weapon[j].uid != weapon_uid,
                decreases s.weapon.len() - i,
            {
                if s.weapon[i].uid == weapon_uid {
                    assert(s@.weapon[i as int].uid == weapon_uid);
                    assert(exists|j: int| 0 <= j < s@.weapon.len() && #[trigger] s@.weapon[j].uid == weapon_uid);
                    return true;
                }
                i = i + 1;
            }
            false
        },
    }
}

/// The rarity filter's letter for a W-Engine rarity: 4 is S, 3 is A, any
/// other B.
pub open spec fn spec_rarity_letter(rarity: u32) -> Seq<char> {
    if rarity == 4 {
        "s"@
    } else if rarity == 3 {
        "a"@
    } else {
        "b"@
    }
}

pub fn rarity_letter(rarity: u32) -> (r: &'static str)
    ensures
        r@ == spec_rarity_letter(rarity),
{
    if rarity == 4 {
        "s"
    } else if rarity == 3 {
        "a"
    } else {
        "b"
    }
}

/// Whether a W-Engine of class `class` and rarity `rarity` (empty class and 0
/// where the data has no entry) passes the class and rarity filters; an empty
/// filter passes every W-Engine.
pub open spec fn spec_weapon_passes_filter(class: Seq<char>, rarity: u32, filter_class: Seq<char>, filter_rarity: Seq<char>) -> bool {
    (filter_class.len() == 0 || class == filter_class) && (filter_rarity.len() == 0
        || spec_rarity_letter(rarity) == filter_rarity)
}

pub fn weapon_passes_filter(class: &str, rarity: u32, filter_class: &str, filter_rarity: &str) -> (r: bool)
    ensures
        r == spec_weapon_passes_filter(class@, rarity, filter_class@, filter_rarity@),
{
    if !filter_class.is_empty() && !crate::text::str_eq(class, filter_class) {
        return false;
    }
    if !filter_rarity.is_empty() && !crate::text::str_eq(rarity_letter(rarity), filter_rarity) {
        return false;
    }
    true
}

} // verus!
