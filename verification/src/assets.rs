use vstd::prelude::*;
use crate::text::{
    chars_eq, chars_of, find_char, is_ws, lemma_find_char_bounds, lemma_rfind_char_bounds,
    parse_u64_chars, push_decimal, spec_find_char, spec_parse_u64, spec_rfind_char,
    spec_split_once, split_once, starts_with, string_of, sub_chars, trim, trim_chars, decimal,
    has_prefix,
};

verus! {

// ---------------------------------------------------------------------------
// Paths of served files
// ---------------------------------------------------------------------------

/// Whether the `/`-separated segment of `p` that ends at `end` begins at `st`.
pub open spec fn seg_start(p: Seq<char>, end: int) -> int {
    match spec_rfind_char(p, '/', end) {
        Some(i) => i + 1,
        None => 0,
    }
}

/// The file name of the path `p.subrange(0, end)`, as `Path::file_name` reads a
/// Unix path: its last segment that is neither empty nor `.`; none where that
/// segment is `..` or where there is none.
pub open spec fn file_name_upto(p: Seq<char>, end: int) -> Option<Seq<char>>
    decreases end,
{
    if end <= 0 || end > p.len() {
        None
    } else {
        let st = seg_start(p, end);
        proof {
            lemma_rfind_char_bounds(p, '/', end);
        }
        let seg = p.subrange(st, end);
        if seg.len() == 0 || seg =~= seq!['.'] {
            if st <= 0 {
                None
            } else {
                file_name_upto(p, st - 1)
            }
        } else if seg =~= seq!['.', '.'] {
            None
        } else {
            Some(seg)
        }
    }
}

/// `Path::file_name` of a Unix path.
pub open spec fn spec_file_name(p: Seq<char>) -> Option<Seq<char>> {
    file_name_upto(p, p.len() as int)
}

/// The extension of a file name, as `Path::extension` reads it: what follows
/// its last `.`, unless nothing precedes that dot.
pub open spec fn name_extension(f: Seq<char>) -> Option<Seq<char>> {
    match spec_rfind_char(f, '.', f.len() as int) {
        Some(i) => if i == 0 {
            None
        } else {
            Some(f.subrange(i + 1, f.len() as int))
        },
        None => None,
    }
}

/// The extension of a path, empty where it has none.
pub open spec fn spec_path_extension(p: Seq<char>) -> Seq<char> {
    match spec_file_name(p) {
        Some(f) => match name_extension(f) {
            Some(e) => e,
            None => Seq::empty(),
        },
        None => Seq::empty(),
    }
}

/// Start of the `/`-separated segment that ends at `end`.
fn segment_start(p: &Vec<char>, end: usize) -> (st: usize)
    requires
        end <= p.len(),
    ensures
        st == seg_start(p@, end as int),
        st <= end,
{
    let mut j = end;
    while j > 0 && p[j - 1] != '/'
        invariant
            j <= end <= p.len(),
            spec_rfind_char(p@, '/', j as int) == spec_rfind_char(p@, '/', end as int),
        decreases j,
    {
        j = j - 1;
    }
    j
}

/// `Path::file_name` of the Unix path `p`.
pub fn file_name_of(p: &Vec<char>) -> (r: Option<Vec<char>>)
    ensures
        match r {
            Some(f) => spec_file_name(p@) == Some(f@),
            None => spec_file_name(p@) is None,
        },
{
    let mut end = p.len();
    loop
        invariant
            end <= p.len(),
            file_name_upto(p@, end as int) == spec_file_name(p@),
        decreases end,
    {
        if end == 0 {
            return None;
        }
        let st = segment_start(p, end);
        let seg = sub_chars(p, st, end);
        if seg.len() == 0 || (seg.len() == 1 && seg[0] == '.') {
            assert(seg.len() == 1 ==> seg@ =~= seq!['.']);
            if st == 0 {
                return None;
            }
            end = st - 1;
        } else if seg.len() == 2 && seg[0] == '.' && seg[1] == '.' {
            assert(seg@ =~= seq!['.', '.']);
            return None;
        } else {
            assert(!(seg@ =~= seq!['.']));
            assert(!(seg@ =~= seq!['.', '.']));
            return Some(seg);
        }
    }
}

/// The extension of the path `p`, empty where it has none.
pub fn path_extension(p: &Vec<char>) -> (r: Vec<char>)
    ensures
        r@ == spec_path_extension(p@),
{
    match file_name_of(p) {
        Some(f) => {
            let mut j = f.len();
            while j > 0 && f[j - 1] != '.'
                invariant
                    j <= f.len(),
                    spec_rfind_char(f@, '.', j as int) == spec_rfind_char(
                        f@,
                        '.',
                        f@.len() as int,
                    ),
                decreases j,
            {
                j = j - 1;
            }
            if j <= 1 {
                Vec::new()
            } else {
                sub_chars(&f, j, f.len())
            }
        },
        None => Vec::new(),
    }
}

/// The media type the panel serves a file extension as.
pub open spec fn spec_content_type(ext: Seq<char>) -> Seq<char> {
    if ext == "zip"@ {
        "application/zip"@
    } else if ext == "png"@ {
        "image/png"@
    } else if ext == "jpg"@ || ext == "jpeg"@ {
        "image/jpeg"@
    } else if ext == "webp"@ {
        "image/webp"@
    } else if ext == "gif"@ {
        "image/gif"@
    } else if ext == "svg"@ {
        "image/svg+xml"@
    } else {
        "application/octet-stream"@
    }
}

/// Whether an extension is one of the image kinds the panel serves.
pub open spec fn is_image_ext(ext: Seq<char>) -> bool {
    ext == "png"@ || ext == "jpg"@ || ext == "jpeg"@ || ext == "webp"@ || ext == "gif"@ || ext
        == "svg"@
}

/// The cache policy for a file extension: images are cached for a week.
pub open spec fn spec_cache_control(ext: Seq<char>) -> Seq<char> {
    if is_image_ext(ext) {
        "public, max-age=604800, immutable"@
    } else {
        "no-cache"@
    }
}

fn ext_is(ext: &Vec<char>, lit: &str) -> (r: bool)
    ensures
        r == (ext@ == lit@),
{
    let l = chars_of(lit);
    chars_eq(ext, &l)
}

/// The `Content-Type` of the file at `path`.
pub fn content_type_for_path(path: &str) -> (r: &'static str)
    ensures
        r@ == spec_content_type(spec_path_extension(path@)),
{
    let p = chars_of(path);
    let ext = path_extension(&p);
    if ext_is(&ext, "zip") {
        "application/zip"
    } else if ext_is(&ext, "png") {
        "image/png"
    } else if ext_is(&ext, "jpg") || ext_is(&ext, "jpeg") {
        "image/jpeg"
    } else if ext_is(&ext, "webp") {
        "image/webp"
    } else if ext_is(&ext, "gif") {
        "image/gif"
    } else if ext_is(&ext, "svg") {
        "image/svg+xml"
    } else {
        "application/octet-stream"
    }
}

/// The `Cache-Control` of the file at `path`.
pub fn cache_control_for_path(path: &str) -> (r: &'static str)
    ensures
        r@ == spec_cache_control(spec_path_extension(path@)),
{
    let p = chars_of(path);
    let ext = path_extension(&p);
    if ext_is(&ext, "png") || ext_is(&ext, "jpg") || ext_is(&ext, "jpeg") || ext_is(&ext, "webp")
        || ext_is(&ext, "gif") || ext_is(&ext, "svg") {
        "public, max-age=604800, immutable"
    } else {
        "no-cache"
    }
}

/// Whether `p` has a `..` segment at index `i`.
pub open spec fn parent_segment_at(p: Seq<char>, i: int) -> bool {
    &&& 0 <= i && i + 2 <= p.len()
    &&& p[i] == '.' && p[i + 1] == '.'
    &&& (i == 0 || p[i - 1] == '/')
    &&& (i + 2 == p.len() || p[i + 2] == '/')
}

/// Whether a requested asset path stays below the asset root: it is not
/// absolute and has no `..` segment.
pub open spec fn spec_asset_path_is_safe(p: Seq<char>) -> bool {
    !(p.len() > 0 && p[0] == '/') && !(exists|i: int| parent_segment_at(p, i))
}

/// Whether the requested asset path `path` may be served; the panel answers
/// 400 to any other.
pub fn asset_path_is_safe(path: &str) -> (r: bool)
    ensures
        r == spec_asset_path_is_safe(path@),
{
    let p = chars_of(path);
    if p.len() > 0 && p[0] == '/' {
        return false;
    }
    let mut i: usize = 0;
    while p.len() >= 2 && i <= p.len() - 2
        invariant
            p@ == path@,
            i <= p.len(),
            forall|k: int| 0 <= k < i ==> !parent_segment_at(p@, k),
        decreases p.len() - i,
    {
        if p[i] == '.' && p[i + 1] == '.' && (i == 0 || p[i - 1] == '/') && (i + 2 == p.len()
            || p[i + 2] == '/') {
            assert(parent_segment_at(p@, i as int));
            return false;
        }
        i = i + 1;
    }
    assert forall|k: int| !parent_segment_at(p@, k) by {
        if k >= i {
            assert(!(k + 2 <= p@.len()) || p@.len() < 2);
        }
    }
    true
}

// ---------------------------------------------------------------------------
// Range requests
// ---------------------------------------------------------------------------

/// The first comma-separated part of `s`.
pub open spec fn first_part(s: Seq<char>) -> Seq<char> {
    match spec_find_char(s, ',', 0) {
        Some(i) => s.subrange(0, i),
        None => s,
    }
}

/// The one byte range the panel serves for a `Range` header value `v` on a
/// file of `len` bytes, as inclusive first and last offsets. Only the first
/// range of the header counts.
pub open spec fn spec_parse_http_range(v: Seq<char>, len: u64) -> Option<(u64, u64)> {
    if len == 0 || !has_prefix(v, "bytes="@) {
        None
    } else {
        let part = trim(first_part(v.subrange(6, v.len() as int)));
        match spec_split_once(part, '-') {
            None => None,
            Some((start_raw, end_raw)) => if start_raw.len() == 0 {
                match spec_parse_u64(end_raw) {
                    None => None,
                    Some(n) => if n == 0 {
                        None
                    } else {
                        Some((if n >= len { 0u64 } else { (len - n) as u64 }, (len - 1) as u64))
                    },
                }
            } else {
                match spec_parse_u64(start_raw) {
                    None => None,
                    Some(start) => if start >= len {
                        None
                    } else if end_raw.len() == 0 {
                        Some((start, (len - 1) as u64))
                    } else {
                        match spec_parse_u64(end_raw) {
                            None => None,
                            Some(e) => {
                                let end: u64 = if e < len - 1 { e } else { (len - 1) as u64 };
                                if end < start {
                                    None
                                } else {
                                    Some((start, end))
                                }
                            },
                        }
                    },
                }
            },
        }
    }
}

/// Reads a `Range` header: the first byte range it names, clamped to a file
/// of `file_len` bytes; `None` where the range cannot be served.
pub fn parse_http_range(value: &str, file_len: u64) -> (r: Option<(u64, u64)>)
    ensures
        r == spec_parse_http_range(value@, file_len),
        r matches Some((s, e)) ==> s <= e < file_len,
{
    if file_len == 0 {
        return None;
    }
    let v = chars_of(value);
    let prefix = chars_of("bytes=");
    proof {
        reveal_strlit("bytes=");
    }
    if !starts_with(&v, &prefix) {
        return None;
    }
    let rest = sub_chars(&v, 6, v.len());
    proof {
        lemma_find_char_bounds(rest@, ',', 0);
    }
    let first = match find_char(&rest, ',', 0) {
        Some(i) => sub_chars(&rest, 0, i),
        None => sub_chars(&rest, 0, rest.len()),
    };
    assert(first@ =~= first_part(rest@));
    let part = trim_chars(&first);
    match split_once(&part, '-') {
        None => None,
        Some((start_raw, end_raw)) => {
            if start_raw.len() == 0 {
                match parse_u64_chars(&end_raw) {
                    None => None,
                    Some(n) => {
                        if n == 0 {
                            None
                        } else {
                            let start = if n >= file_len {
                                0
                            } else {
                                file_len - n
                            };
                            Some((start, file_len - 1))
                        }
                    },
                }
            } else {
                match parse_u64_chars(&start_raw) {
                    None => None,
                    Some(start) => {
                        if start >= file_len {
                            None
                        } else if end_raw.len() == 0 {
                            Some((start, file_len - 1))
                        } else {
                            match parse_u64_chars(&end_raw) {
                                None => None,
                                Some(e) => {
                                    let end = if e < file_len - 1 {
                                        e
                                    } else {
                                        file_len - 1
                                    };
                                    if end < start {
                                        None
                                    } else {
                                        Some((start, end))
                                    }
                                },
                            }
                        }
                    },
                }
            }
        },
    }
}

/// How the panel answers a request for a file of `file_len` bytes.
pub enum RangePlan {
    /// The whole file, with status 200.
    Full,
    /// Bytes `start..=end`, with status 206.
    Partial { start: u64, end: u64 },
    /// Status 416: the range cannot be served.
    NotSatisfiable,
}

/// The answer to a request whose `Range` header is `range` (if it has one).
pub open spec fn spec_plan_range(range: Option<Seq<char>>, file_len: u64) -> RangePlan {
    match range {
        None => RangePlan::Full,
        Some(v) => match spec_parse_http_range(v, file_len) {
            Some((s, e)) => RangePlan::Partial { start: s, end: e },
            None => RangePlan::NotSatisfiable,
        },
    }
}

/// Decides how a file of `file_len` bytes is served for a request whose
/// `Range` header is `range`.
pub fn plan_range(range: Option<&str>, file_len: u64) -> (r: RangePlan)
    ensures
        r == spec_plan_range(
            match range {
                Some(v) => Some(v@),
                None => None,
            },
            file_len,
        ),
        r matches RangePlan::Partial { start, end } ==> start <= end < file_len,
{
    match range {
        None => RangePlan::Full,
        Some(v) => match parse_http_range(v, file_len) {
            Some((s, e)) => RangePlan::Partial { start: s, end: e },
            None => RangePlan::NotSatisfiable,
        },
    }
}

/// The `Content-Range` value of a partial answer: `bytes {start}-{end}/{len}`.
pub open spec fn spec_content_range(start: u64, end: u64, len: u64) -> Seq<char> {
    "bytes "@ + decimal(start as nat) + seq!['-'] + decimal(end as nat) + seq!['/'] + decimal(
        len as nat,
    )
}

pub fn content_range(start: u64, end: u64, file_len: u64) -> (r: String)
    ensures
        r@ == spec_content_range(start, end, file_len),
{
    let mut out = chars_of("bytes ");
    push_decimal(&mut out, start);
    out.push('-');
    push_decimal(&mut out, end);
    out.push('/');
    push_decimal(&mut out, file_len);
    proof {
        assert(out@ =~= spec_content_range(start, end, file_len));
    }
    string_of(&out)
}

/// The `Content-Range` value of a 416 answer: `bytes */{len}`.
pub open spec fn spec_unsatisfied_range(len: u64) -> Seq<char> {
    "bytes */"@ + decimal(len as nat)
}

pub fn unsatisfied_range(file_len: u64) -> (r: String)
    ensures
        r@ == spec_unsatisfied_range(file_len),
{
    let mut out = chars_of("bytes */");
    push_decimal(&mut out, file_len);
    string_of(&out)
}

} // verus!
