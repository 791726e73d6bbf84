use vstd::prelude::*;
use crate::app_state::Locale;
use crate::text::{
    chars_eq_ignore_ascii_case, chars_of, eq_ignore_ascii_case, lemma_find_char_bounds,
    spec_split_once, split_once, sub_chars, trim, trim_chars,
};

verus! {

/// Every interface language, in the order of the language select.
pub open spec fn spec_all_locales() -> Seq<Locale> {
    seq![Locale::En, Locale::Ru, Locale::Zh, Locale::Ko, Locale::Ja]
}

pub fn all_locales() -> (r: Vec<Locale>)
    ensures
        r@ == spec_all_locales(),
{
    let r = vec![Locale::En, Locale::Ru, Locale::Zh, Locale::Ko, Locale::Ja];
    assert(r@ =~= spec_all_locales());
    r
}

/// The name of a language in itself.
pub open spec fn spec_locale_label(l: Locale) -> Seq<char> {
    match l {
        Locale::En => "English"@,
        Locale::Ru => "Русский"@,
        Locale::Zh => "中文"@,
        Locale::Ko => "한국어"@,
        Locale::Ja => "日本語"@,
    }
}

pub fn locale_label(l: Locale) -> (r: &'static str)
    ensures
        r@ == spec_locale_label(l),
{
    match l {
        Locale::En => "English",
        Locale::Ru => "Русский",
        Locale::Zh => "中文",
        Locale::Ko => "한국어",
        Locale::Ja => "日本語",
    }
}

pub open spec fn is_subtag_sep(c: char) -> bool {
    c == '-' || c == '_'
}

/// Where the primary subtag of `t` ends when scanning from `i`: the first
/// `-` or `_` at or after `i`, else the end.
pub open spec fn primary_end(t: Seq<char>, i: int) -> int
    decreases t.len() - i,
{
    if i < 0 || i >= t.len() || is_subtag_sep(t[i]) {
        i
    } else {
        primary_end(t, i + 1)
    }
}

proof fn lemma_primary_end_bounds(t: Seq<char>, i: int)
    requires
        0 <= i <= t.len(),
    ensures
        i <= primary_end(t, i) <= t.len(),
    decreases t.len() - i,
{
    if i < t.len() && !is_subtag_sep(t[i]) {
        lemma_primary_end_bounds(t, i + 1);
    }
}

/// The primary subtag of a language tag: the chars before the first `-` or
/// `_`.
pub open spec fn primary_subtag(t: Seq<char>) -> Seq<char> {
    t.subrange(0, primary_end(t, 0))
}

/// The language a tag names: its trimmed primary subtag, in any case, is
/// `en`, `ru`, `zh`, `ko` (or `kr`) or `ja`.
pub open spec fn spec_parse_locale(code: Seq<char>) -> Option<Locale> {
    let p = primary_subtag(trim(code));
    if eq_ignore_ascii_case(p, "en"@) {
        Some(Locale::En)
    } else if eq_ignore_ascii_case(p, "ru"@) {
        Some(Locale::Ru)
    } else if eq_ignore_ascii_case(p, "zh"@) {
        Some(Locale::Zh)
    } else if eq_ignore_ascii_case(p, "ko"@) || eq_ignore_ascii_case(p, "kr"@) {
        Some(Locale::Ko)
    } else if eq_ignore_ascii_case(p, "ja"@) {
        Some(Locale::Ja)
    } else {
        None
    }
}

fn same_word(p: &Vec<char>, w: &str) -> (r: bool)
    ensures
        r == eq_ignore_ascii_case(p@, w@),
{
    chars_eq_ignore_ascii_case(p, &chars_of(w))
}

fn parse_locale_chars(code: &Vec<char>) -> (r: Option<Locale>)
    ensures
        r == spec_parse_locale(code@),
{
    let t = trim_chars(code);
    let mut i: usize = 0;
    while i < t.len() && !(t[i] == '-' || t[i] == '_')
        invariant
            i <= t@.len(),
            primary_end(t@, i as int) == primary_end(t@, 0),
        decreases t.len() - i,
    {
        i = i + 1;
    }
    proof {
        lemma_primary_end_bounds(t@, 0);
    }
    let p = sub_chars(&t, 0, i);
    assert(p@ == primary_subtag(trim(code@)));
    if same_word(&p, "en") {
        Some(Locale::En)
    } else if same_word(&p, "ru") {
        Some(Locale::Ru)
    } else if same_word(&p, "zh") {
        Some(Locale::Zh)
    } else if same_word(&p, "ko") || same_word(&p, "kr") {
        Some(Locale::Ko)
    } else if same_word(&p, "ja") {
        Some(Locale::Ja)
    } else {
        None
    }
}

/// The language a tag such as `ru-RU` or `zh_CN` names, if the panel has it.
pub fn parse_locale(code: &str) -> (r: Option<Locale>)
    ensures
        r == spec_parse_locale(code@),
{
    parse_locale_chars(&chars_of(code))
}

/// The tag of one item of an `Accept-Language` list: what stands before its
/// parameters.
pub open spec fn tag_of(item: Seq<char>) -> Seq<char> {
    match spec_split_once(item, ';') {
        Some((tag, _)) => tag,
        None => item,
    }
}

/// The first language of an `Accept-Language` value that the panel has, in
/// the order the value lists them.
pub open spec fn spec_accept_language_locale(h: Seq<char>) -> Option<Locale>
    decreases h.len(),
{
    match spec_split_once(h, ',') {
        Some((first, rest)) => match spec_parse_locale(tag_of(first)) {
            Some(l) => Some(l),
            None => if rest.len() < h.len() {
                spec_accept_language_locale(rest)
            } else {
                None
            },
        },
        None => spec_parse_locale(tag_of(h)),
    }
}

fn parse_item(item: &Vec<char>) -> (r: Option<Locale>)
    ensures
        r == spec_parse_locale(tag_of(item@)),
{
    match split_once(item, ';') {
        Some((tag, _)) => parse_locale_chars(&tag),
        None => parse_locale_chars(item),
    }
}

fn accept_language_chars(h: &Vec<char>) -> (r: Option<Locale>)
    ensures
        r == spec_accept_language_locale(h@),
    decreases h.len(),
{
    proof {
        lemma_find_char_bounds(h@, ',', 0);
    }
    match split_once(h, ',') {
        Some((first, rest)) => match parse_item(&first) {
            Some(l) => Some(l),
            None => {
                if rest.len() < h.len() {
                    accept_language_chars(&rest)
                } else {
                    None
                }
            },
        },
        None => parse_item(h),
    }
}

pub fn accept_language_locale(header: &str) -> (r: Option<Locale>)
    ensures
        r == spec_accept_language_locale(header@),
{
    accept_language_chars(&chars_of(header))
}

/// The language of a request: the language cookie's, else the first one
/// of `Accept-Language` that the panel has, else English.
pub open spec fn spec_request_locale(lang_cookie: Option<Seq<char>>, accept: Option<Seq<char>>) -> Locale {
    let from_cookie = match lang_cookie {
        Some(c) => spec_parse_locale(c),
        None => None,
    };
    match from_cookie {
        Some(l) => l,
        None => match accept {
            Some(a) => match spec_accept_language_locale(a) {
                Some(l) => l,
                None => Locale::En,
            },
            None => Locale::En,
        },
    }
}

pub fn request_locale(lang_cookie: Option<&str>, accept: Option<&str>) -> (r: Locale)
    ensures
        r == spec_request_locale(
            match lang_cookie {
                Some(c) => Some(c@),
                None => None,
            },
            match accept {
                Some(a) => Some(a@),
                None => None,
            },
        ),
{
    let from_cookie = match lang_cookie {
        Some(c) => parse_locale(c),
        None => None,
    };
    match from_cookie {
        Some(l) => l,
        None => match accept {
            Some(a) => match accept_language_locale(a) {
                Some(l) => l,
                None => Locale::En,
            },
            None => Locale::En,
        },
    }
}

} // verus!
