//! The admin's decisions on uploading and deleting client updates.
use vstd::prelude::*;
use crate::app_state::{join_path, path_join};
use crate::text::{chars_of, extend_str, string_of};

verus! {

/// Who may use an admin page.
#[derive(PartialEq, Eq, Structural, Clone, Copy, Debug)]
pub enum AdminAccess {
    /// No session: go to the sign-in page.
    SignIn,
    /// Signed in, but not as an admin.
    Forbidden,
    Granted,
}

pub open spec fn spec_admin_access(signed_in: bool, admin: bool) -> AdminAccess {
    if !signed_in {
        AdminAccess::SignIn
    } else if !admin {
        AdminAccess::Forbidden
    } else {
        AdminAccess::Granted
    }
}

pub fn admin_access(signed_in: bool, admin: bool) -> (r: AdminAccess)
    ensures
        r == spec_admin_access(signed_in, admin),
{
    if !signed_in {
        AdminAccess::SignIn
    } else if !admin {
        AdminAccess::Forbidden
    } else {
        AdminAccess::Granted
    }
}

/// The free space an upload needs on the update disk: 1 GiB.
pub const MIN_FREE_SPACE: u64 = 1073741824;

/// Whether the disk has room for an upload.
pub fn enough_space(available: u64) -> (r: bool)
    ensures
        r == (available >= MIN_FREE_SPACE),
{
    available >= MIN_FREE_SPACE
}

/// What the upload does with one part of the form.
#[derive(PartialEq, Eq, Structural, Clone, Copy, Debug)]
pub enum UploadFieldAction {
    /// Not a file, or not a zip: the next part.
    Skip,
    /// A zip of that name is there already: the upload is refused.
    Exists,
    /// Write the file.
    Save,
}

pub open spec fn ends_with_zip(name: Seq<char>) -> bool {
    name.len() >= 4 && name.subrange(name.len() - 4, name.len() as int) == ".zip"@
}

pub open spec fn spec_upload_field_action(file_name: Option<Seq<char>>, dest_exists: bool) -> UploadFieldAction {
    match file_name {
        None => UploadFieldAction::Skip,
        Some(n) => if !ends_with_zip(n) {
            UploadFieldAction::Skip
        } else if dest_exists {
            UploadFieldAction::Exists
        } else {
            UploadFieldAction::Save
        },
    }
}

fn is_zip_name(name: &str) -> (r: bool)
    ensures
        r == ends_with_zip(name@),
{
    let v = chars_of(name);
    let n = v.len();
    if n < 4 {
        return false;
    }
    let tail = crate::text::sub_chars(&v, n - 4, n);
    let zip = chars_of(".zip");
    crate::text::chars_eq(&tail, &zip)
}

/// `dest_exists` tells whether the update directory holds a file of that
/// name already.
pub fn upload_field_action(file_name: Option<&str>, dest_exists: bool) -> (r: UploadFieldAction)
    ensures
        r == spec_upload_field_action(
            match file_name {
                Some(n) => Some(n@),
                None => None,
            },
            dest_exists,
        ),
{
    match file_name {
        None => UploadFieldAction::Skip,
        Some(n) => {
            if !is_zip_name(n) {
                UploadFieldAction::Skip
            } else if dest_exists {
                UploadFieldAction::Exists
            } else {
                UploadFieldAction::Save
            }
        },
    }
}

/// The message of an upload refused because the file is there already.
pub open spec fn spec_exists_message(prefix: Seq<char>, file_name: Seq<char>, suffix: Seq<char>) -> Seq<char> {
    prefix + " '"@ + file_name + "' "@ + suffix
}

pub fn exists_message(prefix: &str, file_name: &str, suffix: &str) -> (r: String)
    ensures
        r@ == spec_exists_message(prefix@, file_name@, suffix@),
{
    let mut out = chars_of(prefix);
    extend_str(&mut out, " '");
    extend_str(&mut out, file_name);
    extend_str(&mut out, "' ");
    extend_str(&mut out, suffix);
    string_of(&out)
}

/// Whether `std::path::Path::starts_with` holds of the two paths: `base`'s
/// components are the first components of `path`.
pub uninterp spec fn std_path_starts_with(path: Seq<char>, base: Seq<char>) -> bool;

/// `std::path::Path::starts_with` on two paths.
#[verifier::external_body]
fn path_starts_with(path: &str, base: &str) -> (r: bool)
    ensures
        r == std_path_starts_with(path@, base@),
{
    std::path::Path::new(path).starts_with(std::path::Path::new(base))
}

/// Where the update `file_name` sits: in the Beta update directory below
/// `root`.
pub open spec fn spec_update_path(root: Seq<char>, file_name: Seq<char>) -> Seq<char> {
    path_join(path_join(root, "client_updates/Beta/Update"@), file_name)
}

pub fn update_path(root: &str, file_name: &str) -> (r: String)
    ensures
        r@ == spec_update_path(root@, file_name@),
{
    let dir = join_path(&chars_of(root), &chars_of("client_updates/Beta/Update"));
    string_of(&join_path(&dir, &chars_of(file_name)))
}

/// Whether the admin may delete the update `file_name`: the file is there
/// and its path lies within the client updates directory.
pub open spec fn spec_delete_allowed(root: Seq<char>, file_name: Seq<char>, exists: bool) -> bool {
    exists && std_path_starts_with(spec_update_path(root, file_name), path_join(root, "client_updates"@))
}

/// `exists` tells whether the file at `update_path(root, file_name)` is
/// there.
pub fn delete_allowed(root: &str, file_name: &str, exists: bool) -> (r: bool)
    ensures
        r == spec_delete_allowed(root@, file_name@, exists),
{
    if !exists {
        return false;
    }
    let dest = update_path(root, file_name);
    let base = string_of(&join_path(&chars_of(root), &chars_of("client_updates")));
    path_starts_with(dest.as_str(), base.as_str())
}

} // verus!
