use vstd::prelude::*;
use crate::assets::{file_name_of, spec_file_name};
use crate::text::{
    chars_of, extend_chars, extend_str, find_char, has_prefix, rfind_char, spec_find_char,
    spec_rfind_char, starts_with, string_of, strip_prefix_chars, strip_prefix_chars_exec,
    sub_chars, trim, trim_chars,
};

verus! {

/// `Path::file_stem` of a name with no `/`, or the name itself where the path
/// has no file name (`""`, `.`, `..`): the part before its last `.`, unless
/// that dot begins the name.
pub open spec fn spec_name_stem(name: Seq<char>) -> Seq<char> {
    match spec_file_name(name) {
        Some(f) => match spec_rfind_char(f, '.', f.len() as int) {
            Some(i) => if i == 0 {
                f
            } else {
                f.subrange(0, i)
            },
            None => f,
        },
        None => name,
    }
}

pub fn name_stem(name: &Vec<char>) -> (r: Vec<char>)
    ensures
        r@ == spec_name_stem(name@),
{
    match file_name_of(name) {
        Some(f) => {
            proof {
                crate::text::lemma_rfind_char_bounds(f@, '.', f@.len() as int);
            }
            match rfind_char(&f, '.') {
                Some(i) => if i == 0 {
                    f
                } else {
                    sub_chars(&f, 0, i)
                },
                None => f,
            }
        },
        None => sub_chars(name, 0, name.len()),
    }
}

/// What follows the last `/` of `s`, cut at its first `?`, trimmed: the file
/// name of a URL.
pub open spec fn url_file_name(s: Seq<char>) -> Seq<char> {
    let last = match spec_rfind_char(s, '/', s.len() as int) {
        Some(i) => s.subrange(i + 1, s.len() as int),
        None => s,
    };
    let before_query = match spec_find_char(last, '?', 0) {
        Some(i) => last.subrange(0, i),
        None => last,
    };
    trim(before_query)
}

fn url_file_name_exec(s: &Vec<char>) -> (r: Vec<char>)
    ensures
        r@ == url_file_name(s@),
{
    proof {
        crate::text::lemma_rfind_char_bounds(s@, '/', s@.len() as int);
    }
    let last = match rfind_char(s, '/') {
        Some(i) => {
            let n = s.len();
            assert(i < n);
            sub_chars(s, i + 1, n)
        },
        None => sub_chars(s, 0, s.len()),
    };
    assert(s@.subrange(0, s@.len() as int) =~= s@);
    proof {
        crate::text::lemma_find_char_bounds(last@, '?', 0);
    }
    let before = match find_char(&last, '?', 0) {
        Some(i) => sub_chars(&last, 0, i),
        None => sub_chars(&last, 0, last.len()),
    };
    assert(last@.subrange(0, last@.len() as int) =~= last@);
    trim_chars(&before)
}

/// Whether `s` is an http or https URL.
pub open spec fn is_web_url(s: Seq<char>) -> bool {
    has_prefix(s, "http://"@) || has_prefix(s, "https://"@)
}

/// Where the panel serves the dump image of `stem`.
pub open spec fn dump_image_url(stem: Seq<char>) -> Seq<char> {
    "/assets/zzz_dump/assets/static.nanoka.cc/zzz/UI/"@ + stem + ".webp"@
}

/// The URL the panel serves an image reference of the game data under: a web
/// URL is replaced by the local copy of its file, a bare name (no `/`, no
/// `.`) names a dump image, and any other path is served below `/assets/`.
pub open spec fn spec_to_asset_url(path: Seq<char>) -> Seq<char> {
    if is_web_url(path) {
        dump_image_url(spec_name_stem(url_file_name(path)))
    } else if !path.contains('/') && !path.contains('.') {
        dump_image_url(path)
    } else {
        "/assets/"@ + strip_prefix_chars(path, '/')
    }
}

fn contains_char(v: &Vec<char>, c: char) -> (r: bool)
    ensures
        r == v@.contains(c),
{
    proof {
        crate::text::lemma_find_char_bounds(v@, c, 0);
        lemma_find_char_none(v@, c, 0);
    }
    find_char(v, c, 0).is_some()
}

proof fn lemma_find_char_none(s: Seq<char>, c: char, from: int)
    requires
        0 <= from,
    ensures
        spec_find_char(s, c, from) is None ==> forall|i: int| from <= i < s.len() ==> s[i] != c,
    decreases s.len() - from,
{
    if from < s.len() && s[from] != c {
        lemma_find_char_none(s, c, from + 1);
    }
}

fn is_web_url_exec(v: &Vec<char>) -> (r: bool)
    ensures
        r == is_web_url(v@),
{
    let a = chars_of("http://");
    let b = chars_of("https://");
    starts_with(v, &a) || starts_with(v, &b)
}

pub fn to_asset_url(path: &str) -> (r: String)
    ensures
        r@ == spec_to_asset_url(path@),
{
    let p = chars_of(path);
    let mut out: Vec<char>;
    if is_web_url_exec(&p) {
        let f = url_file_name_exec(&p);
        let stem = name_stem(&f);
        out = chars_of("/assets/zzz_dump/assets/static.nanoka.cc/zzz/UI/");
        extend_chars(&mut out, &stem);
        extend_str(&mut out, ".webp");
    } else if !contains_char(&p, '/') && !contains_char(&p, '.') {
        out = chars_of("/assets/zzz_dump/assets/static.nanoka.cc/zzz/UI/");
        extend_chars(&mut out, &p);
        extend_str(&mut out, ".webp");
    } else {
        out = chars_of("/assets/");
        let rest = strip_prefix_chars_exec(&p, '/');
        extend_chars(&mut out, &rest);
    }
    string_of(&out)
}

/// How an image reference of the game data is turned into a file below the
/// panel's root; the two `Check` plans depend on which files exist.
pub enum ImagePlan {
    /// No image.
    Nothing,
    /// This path, as it is.
    Use(String),
    /// This dump image, if its file exists.
    Check(String),
    /// The reference itself if that file exists, else the dump image (if
    /// there is one to try and its file exists).
    CheckThenFallback(String, Option<String>),
}

/// Where the dump keeps the image of `stem`, relative to the panel's root.
pub open spec fn dump_image_path(stem: Seq<char>) -> Seq<char> {
    "zzz_dump/assets/static.nanoka.cc/zzz/UI/"@ + stem + ".webp"@
}

/// The dump image to try for a stem, none for an empty one.
pub open spec fn candidate_for(stem: Seq<char>) -> Option<Seq<char>> {
    if stem.len() == 0 {
        None
    } else {
        Some(dump_image_path(stem))
    }
}

pub open spec fn plan_view(p: ImagePlan) -> (int, Seq<char>, Option<Seq<char>>) {
    match p {
        ImagePlan::Nothing => (0, Seq::empty(), None),
        ImagePlan::Use(s) => (1, s@, None),
        ImagePlan::Check(s) => (2, s@, None),
        ImagePlan::CheckThenFallback(s, f) => (3, s@, match f {
            Some(x) => Some(x@),
            None => None,
        }),
    }
}

/// The plan for an image reference: empty gives nothing; `/assets/...` is
/// used without its leading slashes; a web URL's dump image is checked; any
/// other reference is checked as it is, then its dump image.
pub open spec fn spec_image_plan(value: Seq<char>) -> (int, Seq<char>, Option<Seq<char>>) {
    let t = trim(value);
    if t.len() == 0 {
        (0, Seq::empty(), None)
    } else if has_prefix(t, "/assets/"@) {
        (1, strip_prefix_chars(t, '/'), None)
    } else if is_web_url(t) {
        match candidate_for(trim(spec_name_stem(url_file_name(t)))) {
            Some(c) => (2, c, None),
            None => (0, Seq::empty(), None),
        }
    } else {
        let name = match spec_file_name(t) {
            Some(f) => f,
            None => t,
        };
        (3, t, candidate_for(trim(spec_name_stem(name))))
    }
}

fn candidate_exec(stem: &Vec<char>) -> (r: Option<String>)
    ensures
        match r {
            Some(s) => candidate_for(stem@) == Some(s@),
            None => candidate_for(stem@) is None,
        },
{
    if stem.len() == 0 {
        None
    } else {
        let mut out = chars_of("zzz_dump/assets/static.nanoka.cc/zzz/UI/");
        extend_chars(&mut out, stem);
        extend_str(&mut out, ".webp");
        Some(string_of(&out))
    }
}

/// Plans how the image reference `value` is resolved.
pub fn image_reference_plan(value: &str) -> (r: ImagePlan)
    ensures
        plan_view(r) == spec_image_plan(value@),
{
    let v = chars_of(value);
    let t = trim_chars(&v);
    if t.len() == 0 {
        return ImagePlan::Nothing;
    }
    let assets = chars_of("/assets/");
    if starts_with(&t, &assets) {
        let rest = strip_prefix_chars_exec(&t, '/');
        return ImagePlan::Use(string_of(&rest));
    }
    if is_web_url_exec(&t) {
        let f = url_file_name_exec(&t);
        let stem = name_stem(&f);
        let stem = trim_chars(&stem);
        return match candidate_exec(&stem) {
            Some(c) => ImagePlan::Check(c),
            None => ImagePlan::Nothing,
        };
    }
    let name = match file_name_of(&t) {
        Some(f) => f,
        None => sub_chars(&t, 0, t.len()),
    };
    assert(t@.subrange(0, t@.len() as int) =~= t@);
    let stem = name_stem(&name);
    let stem = trim_chars(&stem);
    ImagePlan::CheckThenFallback(string_of(&t), candidate_exec(&stem))
}

/// Carries out an image plan, given whether its files exist: `first_exists`
/// for the path a `Check` or `CheckThenFallback` plan names first,
/// `fallback_exists` for the fallback dump image.
pub open spec fn spec_finish_image_plan(plan: (int, Seq<char>, Option<Seq<char>>), first_exists: bool, fallback_exists: bool) -> Option<Seq<char>> {
    if plan.0 == 1 {
        Some(plan.1)
    } else if plan.0 == 2 {
        if first_exists {
            Some(plan.1)
        } else {
            None
        }
    } else if plan.0 == 3 {
        if first_exists {
            Some(plan.1)
        } else {
            match plan.2 {
                Some(c) => if fallback_exists {
                    Some(c)
                } else {
                    None
                },
                None => None,
            }
        }
    } else {
        None
    }
}

pub fn finish_image_plan(plan: ImagePlan, first_exists: bool, fallback_exists: bool) -> (r: Option<String>)
    ensures
        match r {
            Some(s) => spec_finish_image_plan(plan_view(plan), first_exists, fallback_exists) == Some(s@),
            None => spec_finish_image_plan(plan_view(plan), first_exists, fallback_exists) is None,
        },
{
    match plan {
        ImagePlan::Nothing => None,
        ImagePlan::Use(s) => Some(s),
        ImagePlan::Check(s) => if first_exists {
            Some(s)
        } else {
            None
        },
        ImagePlan::CheckThenFallback(s, f) => if first_exists {
            Some(s)
        } else {
            match f {
                Some(c) => if fallback_exists {
                    Some(c)
                } else {
                    None
                },
                None => None,
            }
        },
    }
}

} // verus!
