use vstd::prelude::*;
use crate::app_state::{join_path, path_join};
use crate::text::{chars_of, string_of};

verus! {

/// What `std::path::Path::parent` gives for a path: the path without its last
/// component, `None` for a root or an empty path.
pub uninterp spec fn std_path_parent(path: Seq<char>) -> Option<Seq<char>>;

/// `std::path::Path::parent` on the path `path`.
#[verifier::external_body]
fn path_parent(path: &str) -> (r: Option<String>)
    ensures
        match r {
            Some(p) => std_path_parent(path@) == Some(p@),
            None => std_path_parent(path@) is None,
        },
{
    std::path::Path::new(path).parent().map(|p| p.to_string_lossy().into_owned())
}

/// The database path of the SDK configuration: `db_file` itself where it is
/// absolute, else `db_file` below the directory of the configuration file
/// (the current directory where that file has no parent).
pub open spec fn spec_resolve_db_path(config_path: Seq<char>, db_file: Seq<char>) -> Seq<char> {
    if db_file.len() > 0 && db_file[0] == '/' {
        db_file
    } else {
        path_join(
            match std_path_parent(config_path) {
                Some(p) => p,
                None => seq!['.'],
            },
            db_file,
        )
    }
}

pub fn resolve_db_path(config_path: &str, db_file: &str) -> (r: String)
    ensures
        r@ == spec_resolve_db_path(config_path@, db_file@),
{
    let db = chars_of(db_file);
    if db.len() > 0 && db[0] == '/' {
        return string_of(&db);
    }
    let parent = match path_parent(config_path) {
        Some(p) => chars_of(p.as_str()),
        None => {
            let mut d: Vec<char> = Vec::new();
            d.push('.');
            assert(d@ =~= seq!['.']);
            d
        },
    };
    let joined = join_path(&parent, &db);
    string_of(&joined)
}

/// Where the SDK configuration is read from: the path the environment
/// names, else the server's own file below `root` where it exists, else the
/// default file.
pub open spec fn spec_sdk_config_path(env_path: Option<Seq<char>>, root: Seq<char>, server_config_exists: bool) -> Seq<char> {
    match env_path {
        Some(p) => p,
        None => if server_config_exists {
            path_join(root, "hoyo-sdk/sdk_server.toml"@)
        } else {
            path_join(root, "hoyo-sdk/sdk.default.toml"@)
        },
    }
}

/// The server's own SDK configuration below `root`.
pub fn server_sdk_config(root: &str) -> (r: String)
    ensures
        r@ == path_join(root@, "hoyo-sdk/sdk_server.toml"@),
{
    string_of(&join_path(&chars_of(root), &chars_of("hoyo-sdk/sdk_server.toml")))
}

/// `env_path` is the value of `HOYO_SDK_CONFIG` where it is set;
/// `server_config_exists` tells whether `server_sdk_config(root)` exists.
pub fn resolve_sdk_config_path(env_path: Option<&str>, root: &str, server_config_exists: bool) -> (r: String)
    ensures
        r@ == spec_sdk_config_path(
            match env_path {
                Some(p) => Some(p@),
                None => None,
            },
            root@,
            server_config_exists,
        ),
{
    match env_path {
        Some(p) => string_of(&chars_of(p)),
        None => {
            if server_config_exists {
                server_sdk_config(root)
            } else {
                string_of(&join_path(&chars_of(root), &chars_of("hoyo-sdk/sdk.default.toml")))
            }
        },
    }
}

} // verus!
