use vstd::prelude::*;
use crate::assets::{path_extension, spec_path_extension};
use crate::text::{chars_of, extend_str, has_prefix, starts_with, str_eq, string_of};

verus! {

/// The text `chrono` gives for a UTC time `secs` seconds after the epoch in
/// the format `%Y-%m-%d %H:%M UTC`.
pub uninterp spec fn utc_minute_text(secs: u64) -> Seq<char>;

/// `chrono::DateTime::<Utc>::from_timestamp(secs, 0)` formatted with
/// `%Y-%m-%d %H:%M UTC`; `None` where chrono has no date for the time,
/// which its source shows cannot happen below 8e12 seconds.
#[verifier::external_body]
fn chrono_utc_minute(secs: u64) -> (r: Option<String>)
    requires
        secs <= i64::MAX,
    ensures
        r matches Some(s) ==> s@ == utc_minute_text(secs),
        secs <= 8_000_000_000_000 ==> r is Some,
{
    chrono::DateTime::<chrono::Utc>::from_timestamp(secs as i64, 0).map(
        |d| d.format("%Y-%m-%d %H:%M UTC").to_string(),
    )
}

/// What `std::path::Path::strip_prefix` gives for two paths: the rest of
/// `path` below `base`, where `base`'s components start `path`.
pub uninterp spec fn std_path_strip_prefix(path: Seq<char>, base: Seq<char>) -> Option<Seq<char>>;

/// `std::path::Path::strip_prefix` on two paths, its result as text.
#[verifier::external_body]
fn path_strip_prefix(path: &str, base: &str) -> (r: Option<String>)
    ensures
        match r {
            Some(p) => std_path_strip_prefix(path@, base@) == Some(p@),
            None => std_path_strip_prefix(path@, base@) is None,
        },
{
    std::path::Path::new(path).strip_prefix(base).ok().map(|p| p.to_string_lossy().into_owned())
}

/// A path with its backslashes turned into slashes.
pub open spec fn forward_slashes(p: Seq<char>) -> Seq<char> {
    p.map_values(|c: char| if c == '\\' { '/' } else { c })
}

/// Where a file below the panel's root is served from: its path below
/// `root`, with forward slashes; `None` for a file outside `root`.
pub open spec fn spec_asset_relative(path: Seq<char>, root: Seq<char>) -> Option<Seq<char>> {
    match std_path_strip_prefix(path, root) {
        Some(p) => Some(forward_slashes(p)),
        None => None,
    }
}

pub fn asset_relative_path(path: &str, root: &str) -> (r: Option<String>)
    ensures
        match r {
            Some(p) => spec_asset_relative(path@, root@) == Some(p@),
            None => spec_asset_relative(path@, root@) is None,
        },
{
    match path_strip_prefix(path, root) {
        None => None,
        Some(rest) => {
            let v = chars_of(rest.as_str());
            let mut out: Vec<char> = Vec::new();
            let mut i: usize = 0;
            while i < v.len()
                invariant
                    i <= v@.len(),
                    out@ == forward_slashes(v@.subrange(0, i as int)),
                decreases v.len() - i,
            {
                let c = v[i];
                out.push(if c == '\\' { '/' } else { c });
                assert(v@.subrange(0, i + 1) =~= v@.subrange(0, i as int).push(c));
                assert(out@ =~= forward_slashes(v@.subrange(0, i + 1)));
                i = i + 1;
            }
            assert(v@.subrange(0, v@.len() as int) =~= v@);
            Some(string_of(&out))
        },
    }
}

/// When a client update was last written, as the panel shows it.
pub fn format_update_time(secs: u64) -> (r: String)
    requires
        secs <= 8_000_000_000_000,
    ensures
        r@ == utc_minute_text(secs),
{
    match chrono_utc_minute(secs) {
        Some(s) => s,
        None => String::new(),
    }
}

/// A file of a client update directory.
pub struct UpdateFile {
    /// The file's path.
    pub path: String,
    /// Its name, where the path has one in UTF-8.
    pub file_name: Option<String>,
    /// Whether its metadata could be read.
    pub metadata_ok: bool,
    /// When it was last written, in nanoseconds since the epoch, where known.
    pub modified_ns: Option<u128>,
}

pub struct UpdateFileView {
    pub path: Seq<char>,
    pub file_name: Option<Seq<char>>,
    pub metadata_ok: bool,
    pub modified_ns: Option<u128>,
}

impl View for UpdateFile {
    type V = UpdateFileView;

    open spec fn view(&self) -> UpdateFileView {
        UpdateFileView {
            path: self.path@,
            file_name: match self.file_name {
                Some(n) => Some(n@),
                None => None,
            },
            metadata_ok: self.metadata_ok,
            modified_ns: self.modified_ns,
        }
    }
}

pub open spec fn update_views(v: Seq<UpdateFile>) -> Seq<UpdateFileView> {
    v.map_values(|f: UpdateFile| f@)
}

/// Whether a file may be the patch with name prefix `prefix`: a zip whose name
/// starts with the prefix and whose metadata could be read.
pub open spec fn is_patch_candidate(f: UpdateFileView, prefix: Seq<char>) -> bool {
    &&& spec_path_extension(f.path) == "zip"@
    &&& f.file_name matches Some(n) && has_prefix(n, prefix)
    &&& f.metadata_ok
}

/// The patch chosen among the first `n` files: the first candidate, replaced
/// by every later candidate written strictly later (a time that is unknown
/// counts as the epoch for the chosen file and never wins for a later one).
pub open spec fn latest_patch(files: Seq<UpdateFileView>, prefix: Seq<char>, n: nat) -> Option<int>
    decreases n,
{
    if n == 0 {
        None
    } else {
        let prev = latest_patch(files, prefix, (n - 1) as nat);
        let f = files[n - 1];
        if !is_patch_candidate(f, prefix) {
            prev
        } else {
            match prev {
                None => Some(n - 1),
                Some(i) => match f.modified_ns {
                    Some(t) => if t > (match files[i].modified_ns {
                        Some(e) => e,
                        None => 0,
                    }) {
                        Some(n - 1)
                    } else {
                        prev
                    },
                    None => prev,
                },
            }
        }
    }
}

fn is_zip_path(path: &str) -> (r: bool)
    ensures
        r == (spec_path_extension(path@) == "zip"@),
{
    let p = chars_of(path);
    let e = path_extension(&p);
    let z = chars_of("zip");
    crate::text::chars_eq(&e, &z)
}

/// The index of the patch file among `files` (in the order the directory
/// lists them).
pub fn find_update_file(files: &Vec<UpdateFile>, prefix: &str) -> (r: Option<usize>)
    ensures
        match r {
            Some(i) => latest_patch(update_views(files@), prefix@, files@.len()) == Some(i as int),
            None => latest_patch(update_views(files@), prefix@, files@.len()) is None,
        },
{
    let pre = chars_of(prefix);
    let mut latest: Option<usize> = None;
    let mut k: usize = 0;
    while k < files.len()
        invariant
            k <= files@.len(),
            pre@ == prefix@,
            match latest {
                Some(i) => i < k && latest_patch(update_views(files@), prefix@, k as nat) == Some(
                    i as int,
                ),
                None => latest_patch(update_views(files@), prefix@, k as nat) is None,
            },
        decreases files.len() - k,
    {
        let f = &files[k];
        let ghost fv = update_views(files@)[k as int];
        assert(fv == f@);
        let candidate = is_zip_path(f.path.as_str()) && match &f.file_name {
            Some(n) => {
                let nv = chars_of(n.as_str());
                starts_with(&nv, &pre)
            },
            None => false,
        } && f.metadata_ok;
        if candidate {
            latest = match latest {
                None => Some(k),
                Some(i) => match f.modified_ns {
                    Some(t) => {
                        let existing = match files[i].modified_ns {
                            Some(e) => e,
                            None => 0,
                        };
                        assert(update_views(files@)[i as int] == files@[i as int]@);
                        if t > existing {
                            Some(k)
                        } else {
                            Some(i)
                        }
                    },
                    None => Some(i),
                },
            };
        }
        k = k + 1;
    }
    latest
}

/// Where the panel serves a file of the client updates.
pub open spec fn spec_download_url(relative_path: Seq<char>) -> Seq<char> {
    "/assets/"@ + relative_path
}

pub fn download_url(relative_path: &str) -> (r: String)
    ensures
        r@ == spec_download_url(relative_path@),
{
    let mut out = chars_of("/assets/");
    extend_str(&mut out, relative_path);
    string_of(&out)
}

/// The aria2c command line that downloads an update from the panel's host.
pub open spec fn spec_aria2c_command(server_host: Seq<char>, download_url: Seq<char>) -> Seq<char> {
    "aria2c -x 16 -s 16 -k 1M -c \"http://"@ + server_host + download_url + "\""@
}

pub fn aria2c_command(server_host: &str, download_url: &str) -> (r: String)
    ensures
        r@ == spec_aria2c_command(server_host@, download_url@),
{
    let mut out = chars_of("aria2c -x 16 -s 16 -k 1M -c \"http://");
    extend_str(&mut out, server_host);
    extend_str(&mut out, download_url);
    extend_str(&mut out, "\"");
    string_of(&out)
}

/// The time a listed update is ordered by: its write time, the epoch where
/// unknown.
pub open spec fn sort_time(f: UpdateFileView) -> u128 {
    match f.modified_ns {
        Some(t) => t,
        None => 0,
    }
}

/// Whether a file is listed among the updates: a zip whose metadata could be
/// read and that lies below the panel's root.
pub open spec fn is_listed_update(f: UpdateFileView, below_root: bool) -> bool {
    spec_path_extension(f.path) == "zip"@ && f.metadata_ok && below_root
}

/// `s` with `x` placed after every entry written at the same time or later.
pub open spec fn insert_newest_first(s: Seq<(u128, usize)>, x: (u128, usize)) -> Seq<(u128, usize)>
    decreases s.len(),
{
    if s.len() == 0 {
        seq![x]
    } else if s.last().0 >= x.0 {
        s.push(x)
    } else {
        insert_newest_first(s.drop_last(), x).push(s.last())
    }
}

/// The listed updates among the first `n` files, newest first; files
/// written at the same time keep their order.
pub open spec fn newest_first(files: Seq<UpdateFileView>, below_root: Seq<bool>, n: nat) -> Seq<(u128, usize)>
    decreases n,
{
    if n == 0 {
        Seq::empty()
    } else {
        let prev = newest_first(files, below_root, (n - 1) as nat);
        if is_listed_update(files[n - 1], below_root[n - 1]) {
            insert_newest_first(prev, (sort_time(files[n - 1]), (n - 1) as usize))
        } else {
            prev
        }
    }
}

proof fn lemma_insert_newest_first(s: Seq<(u128, usize)>, x: (u128, usize), j: int)
    requires
        0 <= j <= s.len(),
        forall|k: int| j <= k < s.len() ==> #[trigger] s[k].0 < x.0,
        j == 0 || s[j - 1].0 >= x.0,
    ensures
        insert_newest_first(s, x) == s.insert(j, x),
    decreases s.len(),
{
    if s.len() == 0 {
        assert(s.insert(j, x) =~= seq![x]);
    } else if j == s.len() {
        assert(s.insert(j, x) =~= s.push(x));
    } else {
        lemma_insert_newest_first(s.drop_last(), x, j);
        assert(s.insert(j, x) =~= s.drop_last().insert(j, x).push(s.last()));
    }
}

/// The listed updates of a directory, newest first, as indices into `files`;
/// `below_root[i]` tells whether file `i` lies below the panel's root.
pub fn list_update_files(files: &Vec<UpdateFile>, below_root: &Vec<bool>) -> (r: Vec<usize>)
    requires
        below_root@.len() == files@.len(),
    ensures
        r@ == newest_first(update_views(files@), below_root@, files@.len()).map_values(
            |p: (u128, usize)| p.1,
        ),
{
    let mut sorted: Vec<(u128, usize)> = Vec::new();
    let mut k: usize = 0;
    while k < files.len()
        invariant
            k <= files@.len(),
            below_root@.len() == files@.len(),
            sorted@ == newest_first(update_views(files@), below_root@, k as nat),
        decreases files.len() - k,
    {
        let f = &files[k];
        assert(update_views(files@)[k as int] == f@);
        if is_zip_path(f.path.as_str()) && f.metadata_ok && below_root[k] {
            let t: u128 = match f.modified_ns {
                Some(t) => t,
                None => 0,
            };
            let x = (t, k);
            let mut j = sorted.len();
            while j > 0 && sorted[j - 1].0 < t
                invariant
                    j <= sorted@.len(),
                    forall|m: int| j <= m < sorted@.len() ==> #[trigger] sorted@[m].0 < t,
                decreases j,
            {
                j = j - 1;
            }
            proof {
                lemma_insert_newest_first(sorted@, x, j as int);
            }
            sorted.insert(j, x);
        }
        k = k + 1;
    }
    let mut out: Vec<usize> = Vec::new();
    let mut i: usize = 0;
    while i < sorted.len()
        invariant
            i <= sorted@.len(),
            out@ == sorted@.take(i as int).map_values(|p: (u128, usize)| p.1),
        decreases sorted.len() - i,
    {
        out.push(sorted[i].1);
        i = i + 1;
        assert(out@ =~= sorted@.take(i as int).map_values(|p: (u128, usize)| p.1));
    }
    assert(sorted@.take(sorted@.len() as int) =~= sorted@);
    out
}

} // verus!

verus! {

// ---------------------------------------------------------------------------
// Update cards
// ---------------------------------------------------------------------------

pub const EMPTY_CARD_0: &'static str = "<div style=\"padding: 12px; border-radius: 10px; background: #121620; border: 1px solid #232a38; min-width: 0;\">\n                    <div style=\"font-size: 13px; font-weight: 700; color: #e6e6e6; margin-bottom: 6px;\">";

pub const EMPTY_CARD_1: &'static str = "</div>\n                    <div class=\"meta\">";

pub const EMPTY_CARD_2: &'static str = "</div>\n                </div>";

pub const FILE_CARD_0: &'static str = "<div style=\"padding: 12px; border-radius: 10px; background: #121620; border: 1px solid #232a38; display: grid; gap: 6px; min-width: 0;\">\n                        <div style=\"font-size: 13px; font-weight: 700; color: #e6e6e6;\">";

pub const FILE_CARD_1: &'static str = "</div>\n                        <div class=\"meta\" style=\"overflow-wrap:anywhere; word-break: break-word;\">";

pub const FILE_CARD_2: &'static str = "</div>\n                        <div style=\"display:flex; gap:8px;\">\n                            <a href=\"";

pub const FILE_CARD_3: &'static str = "\" download style=\"flex:1; display:flex; align-items:center; justify-content:center; text-align:center; white-space:normal; overflow-wrap:anywhere; word-break:break-word; padding: 10px 12px; border-radius: 8px; background: #4c7dff; color: #fff; text-decoration: none; font-weight: 700;\">\n                                ";

pub const FILE_CARD_4: &'static str = "\n                            </a>";

pub const DELETE_FORM_0: &'static str = "<form method=\"post\" action=\"/admin/delete-update\" style=\"display:flex; flex:0 0 auto;\">\n                            <input type=\"hidden\" name=\"filename\" value=\"";

pub const DELETE_FORM_1: &'static str = "\" />\n                            <button type=\"submit\" class=\"danger\" style=\"padding:6px 10px; font-size:11px; white-space:nowrap;\" onclick=\"return confirm('Delete ";

pub const DELETE_FORM_2: &'static str = "?')\">";

pub const DELETE_FORM_3: &'static str = "</button>\n                        </form>";

pub const ARIA2C_BOX_0: &'static str = "<div style=\"padding: 8px; border-radius: 6px; background: #0f1115; border: 1px solid #1f2635; font-size: 12px; color: #9aa4b2; line-height: 1.4; min-width: 0;\">\n                            <div style=\"margin-bottom: 6px; color: #b8c0cc;\">";

pub const ARIA2C_BOX_1: &'static str = "</div>\n                            <code style=\"display: block; background: #0a0d11; padding: 6px; border-radius: 4px; font-family: monospace; font-size: 11px; overflow-x: auto; white-space: pre-wrap; word-break: break-all; overflow-wrap:anywhere; color: #6c9cff;\">";

pub const ARIA2C_BOX_2: &'static str = "</code>\n                        </div>";

/// The card of a kind of file that has none yet.
pub open spec fn spec_empty_update_card(label: Seq<char>, no_file: Seq<char>) -> Seq<char> {
    EMPTY_CARD_0@ + label + EMPTY_CARD_1@ + no_file + EMPTY_CARD_2@
}

pub fn render_empty_update_card(label: &str, no_file: &str) -> (r: String)
    ensures
        r@ == spec_empty_update_card(label@, no_file@),
{
    let mut out: Vec<char> = Vec::new();
    extend_str(&mut out, EMPTY_CARD_0);
    extend_str(&mut out, label);
    extend_str(&mut out, EMPTY_CARD_1);
    extend_str(&mut out, no_file);
    extend_str(&mut out, EMPTY_CARD_2);
    assert(out@ =~= spec_empty_update_card(label@, no_file@));
    string_of(&out)
}

/// The translated words of an update card.
pub struct UpdateCardLabels {
    pub download: String,
    pub delete: String,
    pub aria2c_desc: String,
    pub updated: String,
}

/// What an update card shows of its file.
pub struct UpdateCardFile {
    pub file_name: String,
    pub relative_path: String,
    /// The size, as the panel writes it.
    pub size: String,
    /// When the file was written, as the panel writes it.
    pub updated: String,
}

/// The delete button of an uploaded update: its form carries the file name
/// escaped as an attribute value.
pub open spec fn spec_delete_form(file_name: Seq<char>, delete: Seq<char>) -> Seq<char> {
    let name = crate::auth::spec_html_escape_attr(file_name);
    DELETE_FORM_0@ + name + DELETE_FORM_1@ + name + DELETE_FORM_2@ + delete + DELETE_FORM_3@
}

/// The card of a downloadable file: its kind and name, a download link,
/// for an uploaded update a delete button (`deletable`), for an update the
/// aria2c command that fetches it from `server_host`, and when it was
/// written.
pub open spec fn spec_update_file_card(labels: UpdateCardLabels, label: Seq<char>, f: UpdateCardFile, server_host: Seq<char>, deletable: bool, is_update: bool) -> Seq<char> {
    let url = spec_download_url(f.relative_path@);
    FILE_CARD_0@ + label + FILE_CARD_1@ + f.file_name@ + FILE_CARD_2@ + url + FILE_CARD_3@ + labels.download@ + " "@
        + f.file_name@ + " "@ + f.size@ + FILE_CARD_4@ + (if deletable {
        spec_delete_form(f.file_name@, labels.delete@)
    } else {
        Seq::empty()
    }) + "</div>"@ + (if is_update {
        ARIA2C_BOX_0@ + labels.aria2c_desc@ + ARIA2C_BOX_1@ + spec_aria2c_command(server_host, url) + ARIA2C_BOX_2@
    } else {
        Seq::empty()
    }) + "<div class=\"meta\">"@ + labels.updated@ + ": "@ + f.updated@ + "</div>"@ + "</div>"@
}

fn push_delete_form(out: &mut Vec<char>, file_name: &str, delete: &str)
    ensures
        final(out)@ == old(out)@ + spec_delete_form(file_name@, delete@),
{
    let name = crate::auth::html_escape_attr(file_name);
    extend_str(out, DELETE_FORM_0);
    extend_str(out, name.as_str());
    extend_str(out, DELETE_FORM_1);
    extend_str(out, name.as_str());
    extend_str(out, DELETE_FORM_2);
    extend_str(out, delete);
    extend_str(out, DELETE_FORM_3);
    assert(final(out)@ =~= old(out)@ + spec_delete_form(file_name@, delete@));
}

fn push_aria2c_box(out: &mut Vec<char>, desc: &str, command: &str)
    ensures
        final(out)@ == old(out)@ + ARIA2C_BOX_0@ + desc@ + ARIA2C_BOX_1@ + command@ + ARIA2C_BOX_2@,
{
    extend_str(out, ARIA2C_BOX_0);
    extend_str(out, desc);
    extend_str(out, ARIA2C_BOX_1);
    extend_str(out, command);
    extend_str(out, ARIA2C_BOX_2);
}

pub fn render_update_file_card(labels: &UpdateCardLabels, label: &str, f: &UpdateCardFile, server_host: &str, deletable: bool, is_update: bool) -> (r: String)
    ensures
        r@ == spec_update_file_card(*labels, label@, *f, server_host@, deletable, is_update),
{
    let url = download_url(f.relative_path.as_str());
    let mut out: Vec<char> = Vec::new();
    extend_str(&mut out, FILE_CARD_0);
    extend_str(&mut out, label);
    extend_str(&mut out, FILE_CARD_1);
    extend_str(&mut out, f.file_name.as_str());
    extend_str(&mut out, FILE_CARD_2);
    extend_str(&mut out, url.as_str());
    extend_str(&mut out, FILE_CARD_3);
    extend_str(&mut out, labels.download.as_str());
    extend_str(&mut out, " ");
    extend_str(&mut out, f.file_name.as_str());
    extend_str(&mut out, " ");
    extend_str(&mut out, f.size.as_str());
    extend_str(&mut out, FILE_CARD_4);
    let ghost head = out@;
    if deletable {
        push_delete_form(&mut out, f.file_name.as_str(), labels.delete.as_str());
    }
    extend_str(&mut out, "</div>");
    let ghost mid = out@;
    if is_update {
        let command = aria2c_command(server_host, url.as_str());
        push_aria2c_box(&mut out, labels.aria2c_desc.as_str(), command.as_str());
    }
    let ghost tail = out@;
    extend_str(&mut out, "<div class=\"meta\">");
    extend_str(&mut out, labels.updated.as_str());
    extend_str(&mut out, ": ");
    extend_str(&mut out, f.updated.as_str());
    extend_str(&mut out, "</div>");
    extend_str(&mut out, "</div>");
    assert(mid =~= head + (if deletable {
        spec_delete_form(f.file_name@, labels.delete@)
    } else {
        Seq::empty()
    }) + "</div>"@);
    assert(tail =~= mid + (if is_update {
        ARIA2C_BOX_0@ + labels.aria2c_desc@ + ARIA2C_BOX_1@ + spec_aria2c_command(server_host@, url@) + ARIA2C_BOX_2@
    } else {
        Seq::empty()
    }));
    assert(out@ =~= spec_update_file_card(*labels, label@, *f, server_host@, deletable, is_update));
    string_of(&out)
}

/// A kind of downloadable file (patch, update) and its files.
pub struct UpdateItem {
    pub label: String,
    pub files: Vec<UpdateCardFile>,
}

/// The cards of the first `n` files of one kind. An uploaded update (a file
/// of the update kind in the Beta group) gets a delete button for an
/// administrator; every update gets the aria2c command.
pub open spec fn file_cards_upto(
    labels: UpdateCardLabels,
    label: Seq<char>,
    files: Seq<UpdateCardFile>,
    update_label: Seq<char>,
    beta: bool,
    admin: bool,
    host: Seq<char>,
    n: nat,
) -> Seq<char>
    decreases n,
{
    if n == 0 {
        Seq::empty()
    } else {
        file_cards_upto(labels, label, files, update_label, beta, admin, host, (n - 1) as nat)
            + spec_update_file_card(
            labels,
            label,
            files[n - 1],
            host,
            admin && beta && label == update_label,
            label == update_label,
        )
    }
}

/// The cards of one kind of file: a card saying there is none, or a card
/// for each file.
pub open spec fn item_cards(
    labels: UpdateCardLabels,
    item: UpdateItem,
    no_file: Seq<char>,
    update_label: Seq<char>,
    beta: bool,
    admin: bool,
    host: Seq<char>,
) -> Seq<char> {
    if item.files@.len() == 0 {
        spec_empty_update_card(item.label@, no_file)
    } else {
        file_cards_upto(labels, item.label@, item.files@, update_label, beta, admin, host, item.files@.len())
    }
}

pub open spec fn items_cards_upto(
    labels: UpdateCardLabels,
    items: Seq<UpdateItem>,
    no_file: Seq<char>,
    update_label: Seq<char>,
    beta: bool,
    admin: bool,
    host: Seq<char>,
    n: nat,
) -> Seq<char>
    decreases n,
{
    if n == 0 {
        Seq::empty()
    } else {
        items_cards_upto(labels, items, no_file, update_label, beta, admin, host, (n - 1) as nat)
            + item_cards(labels, items[n - 1], no_file, update_label, beta, admin, host)
    }
}

fn push_item_cards(
    out: &mut Vec<char>,
    labels: &UpdateCardLabels,
    item: &UpdateItem,
    no_file: &str,
    update_label: &str,
    beta: bool,
    admin: bool,
    host: &str,
)
    ensures
        final(out)@ == old(out)@ + item_cards(*labels, *item, no_file@, update_label@, beta, admin, host@),
{
    if item.files.len() == 0 {
        let card = render_empty_update_card(item.label.as_str(), no_file);
        extend_str(out, card.as_str());
        return;
    }
    let is_update = str_eq(item.label.as_str(), update_label);
    let deletable = admin && beta && is_update;
    let ghost start = out@;
    let mut j: usize = 0;
    while j < item.files.len()
        invariant
            j <= item.files@.len(),
            is_update == (item.label@ == update_label@),
            deletable == (admin && beta && item.label@ == update_label@),
            out@ == start + file_cards_upto(
                *labels,
                item.label@,
                item.files@,
                update_label@,
                beta,
                admin,
                host@,
                j as nat,
            ),
        decreases item.files.len() - j,
    {
        let card = render_update_file_card(labels, item.label.as_str(), &item.files[j], host, deletable, is_update);
        extend_str(out, card.as_str());
        j = j + 1;
    }
}

/// The cards of a group's kinds of files, in order.
pub fn render_update_items(
    labels: &UpdateCardLabels,
    items: &Vec<UpdateItem>,
    no_file: &str,
    update_label: &str,
    beta: bool,
    admin: bool,
    host: &str,
) -> (r: String)
    ensures
        r@ == items_cards_upto(*labels, items@, no_file@, update_label@, beta, admin, host@, items@.len()),
{
    let mut out: Vec<char> = Vec::new();
    let mut i: usize = 0;
    while i < items.len()
        invariant
            i <= items@.len(),
            out@ == items_cards_upto(*labels, items@, no_file@, update_label@, beta, admin, host@, i as nat),
        decreases items.len() - i,
    {
        push_item_cards(&mut out, labels, &items[i], no_file, update_label, beta, admin, host);
        i = i + 1;
    }
    string_of(&out)
}

/// A group of update cards and its note.
pub open spec fn spec_update_group(cards: Seq<char>, note: Seq<char>) -> Seq<char> {
    "<div style=\"display:grid; gap:12px; min-width:0;\">"@ + cards + "</div>"@ + "<div class=\"meta\" style=\"margin-top: 8px;\">"@
        + note + "</div>"@
}

pub fn render_update_group(cards: &str, note: &str) -> (r: String)
    ensures
        r@ == spec_update_group(cards@, note@),
{
    let mut out: Vec<char> = Vec::new();
    extend_str(&mut out, "<div style=\"display:grid; gap:12px; min-width:0;\">");
    extend_str(&mut out, cards);
    extend_str(&mut out, "</div>");
    extend_str(&mut out, "<div class=\"meta\" style=\"margin-top: 8px;\">");
    extend_str(&mut out, note);
    extend_str(&mut out, "</div>");
    assert(out@ =~= spec_update_group(cards@, note@));
    string_of(&out)
}

} // verus!

verus! {

// ---------------------------------------------------------------------------
// The client updates tab
// ---------------------------------------------------------------------------

pub const UPLOAD_FORM_0: &'static str = "<div style=\"margin-bottom:12px;\">\n                <form id=\"upload-form\" method=\"post\" action=\"/admin/upload-update\" enctype=\"multipart/form-data\" style=\"display:flex; gap:8px; align-items:end;\">\n                    <div style=\"flex:1;\">\n                        <label style=\"margin:0 0 4px; font-size:11px; color:#9aa4b2;\">";

pub const UPLOAD_FORM_1: &'static str = "</label>\n                        <input type=\"file\" name=\"file\" id=\"upload-file\" required style=\"width:100%; box-sizing:border-box; padding:6px; border-radius:8px; border:1px solid #2a3140; background:#121620; color:#e6e6e6; font-size:13px;\" />\n                    </div>\n                    <button type=\"submit\" class=\"apply\" id=\"upload-btn\">";

pub const UPLOAD_FORM_2: &'static str = "</button>\n                </form>\n                <div id=\"upload-progress-wrap\" style=\"display:none; margin-top:8px;\">\n                    <div style=\"display:flex; justify-content:space-between; font-size:11px; color:#9aa4b2; margin-bottom:4px;\">\n                        <span id=\"upload-progress-text\">0%</span>\n                        <span id=\"upload-speed-text\"></span>\n                    </div>\n                    <div style=\"height:8px; background:#232a38; border-radius:4px; overflow:hidden;\">\n                        <div id=\"upload-progress-bar\" style=\"height:100%; width:0%; background:#4c7dff; border-radius:4px; transition: width 0.3s;\"></div>\n                    </div>\n                </div>\n                <div id=\"upload-error\" style=\"color:#ef4444; font-size:12px; margin-top:6px; display:none;\"></div>\n                <script>\n                (function() {\n                    var form = document.getElementById(\"upload-form\");\n                    var fileInput = document.getElementById(\"upload-file\");\n                    var btn = document.getElementById(\"upload-btn\");\n                    var wrap = document.getElementById(\"upload-progress-wrap\");\n                    var bar = document.getElementById(\"upload-progress-bar\");\n                    var text = document.getElementById(\"upload-progress-text\");\n                    var speedEl = document.getElementById(\"upload-speed-text\");\n                    var errorEl = document.getElementById(\"upload-error\");\n                    form.addEventListener(\"submit\", function(e) {\n                        e.preventDefault();\n                        var file = fileInput.files[0];\n                        if (!file) return;\n                        errorEl.style.display = \"none\";\n                        btn.disabled = true;\n                        btn.textContent = \"";

pub const UPLOAD_FORM_3: &'static str = "...\";\n                        wrap.style.display = \"block\";\n                        bar.style.width = \"0%\";\n                        text.textContent = \"0%\";\n                        var formData = new FormData();\n                        formData.append(\"file\", file);\n                    var xhr = new XMLHttpRequest();\n                    var startTime = Date.now();\n                    var uploading = true;\n                    var warnOnLeave = function(e) { if (uploading) { e.preventDefault(); e.returnValue = \"\"; } };\n                    window.addEventListener(\"beforeunload\", warnOnLeave);\n                    xhr.upload.addEventListener(\"progress\", function(ev) {\n                            if (ev.lengthComputable) {\n                                var pct = Math.round(ev.loaded / ev.total * 100);\n                                bar.style.width = pct + \"%\";\n                                text.textContent = pct + \"%\";\n                                var elapsed = (Date.now() - startTime) / 1000;\n                                if (elapsed > 0) {\n                                    var mbps = (ev.loaded / 1024 / 1024) / elapsed;\n                                    speedEl.textContent = mbps.toFixed(1) + \" MB/s\";\n                                }\n                            }\n                        });\n                        var cleanup = function() {\n                            uploading = false;\n                            window.removeEventListener(\"beforeunload\", warnOnLeave);\n                        };\n                        xhr.addEventListener(\"load\", function() {\n                            cleanup();\n                            if (xhr.status >= 200 && xhr.status < 300) {\n                                window.location.href = \"/dashboard?tab=updates\";\n                            } else {\n                                errorEl.textContent = xhr.responseText || \"Upload failed\";\n                                errorEl.style.display = \"block\";\n                                btn.disabled = false;\n                                btn.textContent = \"";

pub const UPLOAD_FORM_4: &'static str = "\";\n                                wrap.style.display = \"none\";\n                            }\n                        });\n                        xhr.addEventListener(\"error\", function() {\n                            cleanup();\n                            errorEl.textContent = \"Network error during upload\";\n                            errorEl.style.display = \"block\";\n                            btn.disabled = false;\n                            btn.textContent = \"";

pub const UPLOAD_FORM_5: &'static str = "\";\n                            wrap.style.display = \"none\";\n                        });\n                        xhr.addEventListener(\"abort\", function() {\n                            cleanup();\n                            errorEl.textContent = \"Upload cancelled\";\n                            errorEl.style.display = \"block\";\n                            btn.disabled = false;\n                            btn.textContent = \"";

pub const UPLOAD_FORM_6: &'static str = "\";\n                            wrap.style.display = \"none\";\n                        });\n                        xhr.open(\"POST\", \"/admin/upload-update\", true);\n                        xhr.send(formData);\n                    });\n                })();\n                </script>\n            </div>";

pub const UPDATES_PANEL_0: &'static str = "<div style=\"display:grid; gap:16px;\">\n            <div class=\"card\" style=\"background: #1b1f2a; padding: 16px; border-radius: 12px; border: 1px solid #232a38;\">\n                <h3 style=\"margin-top: 0;\">Beta</h3>\n                ";

pub const UPDATES_PANEL_1: &'static str = "\n                <div style=\"display:grid; gap:12px; min-width:0;\">";

pub const UPDATES_PANEL_2: &'static str = "</div>\n            </div>\n            <div class=\"card\" style=\"background: #1b1f2a; padding: 16px; border-radius: 12px; border: 1px solid #232a38;\">\n                <h3 style=\"margin-top: 0;\">Prod</h3>\n                <div style=\"display:grid; gap:12px; min-width:0;\">";

pub const UPDATES_PANEL_3: &'static str = "</div>\n            </div>\n        </div>";

/// The translated words of the upload form.
pub struct UploadFormLabels {
    pub upload_label: String,
    pub upload: String,
    pub uploading: String,
}

/// The admin's upload form for Beta updates, with the script that shows the
/// upload's progress.
pub open spec fn spec_upload_form(labels: UploadFormLabels) -> Seq<char> {
    UPLOAD_FORM_0@ + labels.upload_label@ + UPLOAD_FORM_1@ + labels.upload@ + UPLOAD_FORM_2@ + labels.uploading@ + UPLOAD_FORM_3@ + labels.upload@ + UPLOAD_FORM_4@ + labels.upload@ + UPLOAD_FORM_5@ + labels.upload@ + UPLOAD_FORM_6@
}

pub fn render_upload_form(labels: &UploadFormLabels) -> (r: String)
    ensures
        r@ == spec_upload_form(*labels),
{
    let mut out: Vec<char> = Vec::new();
    extend_str(&mut out, UPLOAD_FORM_0);
    extend_str(&mut out, labels.upload_label.as_str());
    extend_str(&mut out, UPLOAD_FORM_1);
    extend_str(&mut out, labels.upload.as_str());
    extend_str(&mut out, UPLOAD_FORM_2);
    extend_str(&mut out, labels.uploading.as_str());
    extend_str(&mut out, UPLOAD_FORM_3);
    extend_str(&mut out, labels.upload.as_str());
    extend_str(&mut out, UPLOAD_FORM_4);
    extend_str(&mut out, labels.upload.as_str());
    extend_str(&mut out, UPLOAD_FORM_5);
    extend_str(&mut out, labels.upload.as_str());
    extend_str(&mut out, UPLOAD_FORM_6);
    assert(out@ =~= spec_upload_form(*labels));
    string_of(&out)
}

/// The client updates tab: the Beta group, after the upload form where the
/// user is an admin, and the Prod group.
pub open spec fn spec_client_updates_panel(admin_upload: Seq<char>, beta_cards: Seq<char>, prod_cards: Seq<char>) -> Seq<char> {
    UPDATES_PANEL_0@ + admin_upload + UPDATES_PANEL_1@ + beta_cards + UPDATES_PANEL_2@ + prod_cards + UPDATES_PANEL_3@
}

pub fn render_client_updates_panel(admin_upload: &str, beta_cards: &str, prod_cards: &str) -> (r: String)
    ensures
        r@ == spec_client_updates_panel(admin_upload@, beta_cards@, prod_cards@),
{
    let mut out: Vec<char> = Vec::new();
    extend_str(&mut out, UPDATES_PANEL_0);
    extend_str(&mut out, admin_upload);
    extend_str(&mut out, UPDATES_PANEL_1);
    extend_str(&mut out, beta_cards);
    extend_str(&mut out, UPDATES_PANEL_2);
    extend_str(&mut out, prod_cards);
    extend_str(&mut out, UPDATES_PANEL_3);
    assert(out@ =~= spec_client_updates_panel(admin_upload@, beta_cards@, prod_cards@));
    string_of(&out)
}

} // verus!
