use vstd::prelude::*;
use crate::app_state::Locale;
use crate::auth::escape_text_char;
use crate::text::{
    chars_eq, chars_of, decimal, extend_chars, extend_str, find_char, find_from, has_prefix,
    lemma_find_char_bounds, matches_at, occurs_at, parse_u32_chars, push_decimal, rfind_char,
    spec_find_char, spec_find_from, spec_parse_u32, spec_rfind_char, string_of,
    strip_prefix_chars, strip_prefix_chars_exec, sub_chars, trim, trim_chars,
};

verus! {

// ---------------------------------------------------------------------------
// Numbers
// ---------------------------------------------------------------------------

/// `i64::to_string`: an optional `-`, then the decimal digits.
pub open spec fn signed_decimal(n: i64) -> Seq<char> {
    if n < 0 {
        seq!['-'] + decimal((-(n as int)) as nat)
    } else {
        decimal(n as nat)
    }
}

/// The chars `s[0..i]` with a comma after every char that has a positive
/// multiple of three chars after it in `s`.
pub open spec fn commas_prefix(s: Seq<char>, i: int) -> Seq<char>
    decreases i,
{
    if i <= 0 {
        Seq::empty()
    } else {
        let rest = s.len() - i;
        commas_prefix(s, i - 1) + seq![s[i - 1]] + if rest > 0 && rest % 3 == 0 {
            seq![',']
        } else {
            Seq::empty()
        }
    }
}

/// `s` with its chars grouped in threes from the right by commas. The sign,
/// like a digit, counts as a char: -123 gives "-,123".
pub open spec fn group_thousands(s: Seq<char>) -> Seq<char> {
    commas_prefix(s, s.len() as int)
}

/// The decimal form of `n` with thousands separated by commas.
pub fn format_with_commas(n: i64) -> (r: String)
    ensures
        r@ == group_thousands(signed_decimal(n)),
{
    let mut s: Vec<char> = Vec::new();
    if n < 0 {
        s.push('-');
        let m: u64 = ((-(n + 1)) as u64) + 1;
        assert(m == -(n as int));
        push_decimal(&mut s, m);
    } else {
        push_decimal(&mut s, n as u64);
    }
    assert(s@ =~= signed_decimal(n));
    let mut out: Vec<char> = Vec::new();
    let mut i: usize = 0;
    while i < s.len()
        invariant
            i <= s@.len(),
            out@ == commas_prefix(s@, i as int),
        decreases s.len() - i,
    {
        out.push(s[i]);
        let rest = s.len() - 1 - i;
        if rest > 0 && rest % 3 == 0 {
            out.push(',');
        }
        i = i + 1;
        assert(out@ =~= commas_prefix(s@, i as int));
    }
    string_of(&out)
}

// ---------------------------------------------------------------------------
// Deadly Assault ids
// ---------------------------------------------------------------------------

/// The rotation of a Deadly Assault: digits three to five of its id, or 0 for
/// a shorter id.
pub open spec fn spec_da_rotation(id: u32) -> u32 {
    let s = decimal(id as nat);
    if s.len() >= 5 {
        match spec_parse_u32(s.subrange(2, 5)) {
            Some(v) => v,
            None => 0,
        }
    } else {
        0
    }
}

pub fn da_rotation_from_id(id: u32) -> (r: u32)
    ensures
        r == spec_da_rotation(id),
{
    let s = crate::text::decimal_chars(id as u64);
    if s.len() >= 5 {
        let part = sub_chars(&s, 2, 5);
        match parse_u32_chars(&part) {
            Some(v) => v,
            None => 0,
        }
    } else {
        0
    }
}

/// Whether a Deadly Assault is the hardcore mode: a six-digit or longer id
/// of rotation 42 or later whose sixth digit is 2.
pub open spec fn spec_da_is_hardcore(id: u32) -> bool {
    let s = decimal(id as nat);
    s.len() >= 6 && spec_da_rotation(id) >= 42 && s[5] == '2'
}

/// The mode of a Deadly Assault: "hardcore" or "normal".
pub fn da_mode_label_raw(id: u32) -> (r: &'static str)
    ensures
        r@ == if spec_da_is_hardcore(id) {
            "hardcore"@
        } else {
            "normal"@
        },
{
    let s = crate::text::decimal_chars(id as u64);
    if s.len() < 6 {
        return "normal";
    }
    let rotation = da_rotation_from_id(id);
    if rotation < 42 {
        return "normal";
    }
    if s[5] == '2' {
        "hardcore"
    } else {
        "normal"
    }
}

/// Whether `da_mode_label_raw` names the hardcore mode.
pub fn da_is_hardcore(id: u32) -> (r: bool)
    ensures
        r == spec_da_is_hardcore(id),
{
    let raw = da_mode_label_raw(id);
    let hard = crate::text::str_eq(raw, "hardcore");
    proof {
        reveal_strlit("hardcore");
        reveal_strlit("normal");
        if !spec_da_is_hardcore(id) {
            assert("normal"@ != "hardcore"@) by {
                assert("normal"@[0] != "hardcore"@[0]);
            }
        }
    }
    hard
}

/// The translation key of a Deadly Assault's mode.
pub fn da_mode_label_key(id: u32) -> (r: &'static str)
    ensures
        r@ == if spec_da_is_hardcore(id) {
            "da.mode_hardcore"@
        } else {
            "da.mode_normal"@
        },
{
    if da_is_hardcore(id) {
        "da.mode_hardcore"
    } else {
        "da.mode_normal"
    }
}

// ---------------------------------------------------------------------------
// Names and paths
// ---------------------------------------------------------------------------

/// Whether `s` ends with `p`.
pub open spec fn has_suffix(s: Seq<char>, p: Seq<char>) -> bool {
    p.len() <= s.len() && s.subrange(s.len() - p.len(), s.len() as int) == p
}

/// `str::trim_end_matches(p)` for a non-empty pattern: every trailing copy of
/// `p` removed.
pub open spec fn strip_suffixes(s: Seq<char>, p: Seq<char>) -> Seq<char>
    decreases s.len(),
{
    if p.len() > 0 && has_suffix(s, p) {
        strip_suffixes(s.subrange(0, s.len() - p.len()), p)
    } else {
        s
    }
}

/// What follows the last `/` of `s` (all of `s` where it has none).
pub open spec fn last_segment(s: Seq<char>) -> Seq<char> {
    match spec_rfind_char(s, '/', s.len() as int) {
        Some(i) => s.subrange(i + 1, s.len() as int),
        None => s,
    }
}

/// The image name of a boss: the file name of its image path without
/// trailing `.webp`.
pub open spec fn spec_boss_image_base_name(path: Seq<char>) -> Seq<char> {
    strip_suffixes(last_segment(path), ".webp"@)
}

fn strip_suffixes_exec(v: &Vec<char>, p: &Vec<char>) -> (r: Vec<char>)
    requires
        p@.len() > 0,
    ensures
        r@ == strip_suffixes(v@, p@),
{
    let mut j: usize = v.len();
    assert(v@.subrange(0, v@.len() as int) =~= v@);
    while p.len() <= j && matches_at(v, p, j - p.len())
        invariant
            j <= v.len(),
            p@.len() > 0,
            strip_suffixes(v@.subrange(0, j as int), p@) == strip_suffixes(v@, p@),
        decreases j,
    {
        let ghost cur = v@.subrange(0, j as int);
        assert(cur.subrange(cur.len() - p@.len(), cur.len() as int) =~= v@.subrange(
            j - p@.len(),
            j as int,
        ));
        assert(cur.subrange(0, cur.len() - p@.len()) =~= v@.subrange(0, j - p@.len()));
        j = j - p.len();
    }
    proof {
        let cur = v@.subrange(0, j as int);
        if has_suffix(cur, p@) {
            assert(cur.subrange(cur.len() - p@.len(), cur.len() as int) =~= v@.subrange(
                j - p@.len(),
                j as int,
            ));
        }
    }
    sub_chars(v, 0, j)
}

pub fn boss_image_base_name(image_path: &str) -> (r: String)
    ensures
        r@ == spec_boss_image_base_name(image_path@),
{
    let v = chars_of(image_path);
    proof {
        crate::text::lemma_rfind_char_bounds(v@, '/', v@.len() as int);
    }
    let last = match rfind_char(&v, '/') {
        Some(i) => {
            assert(i < v@.len());
            sub_chars(&v, i + 1, v.len())
        },
        None => sub_chars(&v, 0, v.len()),
    };
    assert(v@.subrange(0, v@.len() as int) =~= v@);
    let p = chars_of(".webp");
    proof {
        reveal_strlit(".webp");
    }
    let r = strip_suffixes_exec(&last, &p);
    string_of(&r)
}

/// The icon of an element, empty for an unknown one.
pub open spec fn spec_element_icon_path(element: Seq<char>) -> Seq<char> {
    if element == "Fire"@ {
        "/assets/zzz_dump/assets/static.nanoka.cc/zzz/UI/Sprite/Element_Fire.webp"@
    } else if element == "Ice"@ {
        "/assets/zzz_dump/assets/static.nanoka.cc/zzz/UI/Sprite/Element_Ice.webp"@
    } else if element == "Electric"@ {
        "/assets/zzz_dump/assets/static.nanoka.cc/zzz/UI/Sprite/Element_Electric.webp"@
    } else if element == "Ether"@ {
        "/assets/zzz_dump/assets/static.nanoka.cc/zzz/UI/Sprite/Element_Ether.webp"@
    } else if element == "Physical"@ {
        "/assets/zzz_dump/assets/static.nanoka.cc/zzz/UI/Sprite/Element_Physical.webp"@
    } else if element == "Wind"@ {
        "/assets/zzz_dump/assets/static.nanoka.cc/zzz/UI/Sprite/Element_Wind.webp"@
    } else {
        Seq::empty()
    }
}

pub fn element_icon_path(element: &str) -> (r: String)
    ensures
        r@ == spec_element_icon_path(element@),
{
    if crate::text::str_eq(element, "Fire") {
        "/assets/zzz_dump/assets/static.nanoka.cc/zzz/UI/Sprite/Element_Fire.webp".to_string()
    } else if crate::text::str_eq(element, "Ice") {
        "/assets/zzz_dump/assets/static.nanoka.cc/zzz/UI/Sprite/Element_Ice.webp".to_string()
    } else if crate::text::str_eq(element, "Electric") {
        "/assets/zzz_dump/assets/static.nanoka.cc/zzz/UI/Sprite/Element_Electric.webp".to_string()
    } else if crate::text::str_eq(element, "Ether") {
        "/assets/zzz_dump/assets/static.nanoka.cc/zzz/UI/Sprite/Element_Ether.webp".to_string()
    } else if crate::text::str_eq(element, "Physical") {
        "/assets/zzz_dump/assets/static.nanoka.cc/zzz/UI/Sprite/Element_Physical.webp".to_string()
    } else if crate::text::str_eq(element, "Wind") {
        "/assets/zzz_dump/assets/static.nanoka.cc/zzz/UI/Sprite/Element_Wind.webp".to_string()
    } else {
        String::new()
    }
}

/// The label of an element: its name, in Russian for the physical element
/// under the Russian locale; an unknown element labels itself.
pub open spec fn spec_element_label(locale: Locale, element: Seq<char>) -> Seq<char> {
    if element == "Physical"@ && locale == Locale::Ru {
        "Физический"@
    } else {
        element
    }
}

pub fn element_label<'a>(locale: Locale, element: &'a str) -> (r: &'a str)
    ensures
        r@ == spec_element_label(locale, element@),
{
    if crate::text::str_eq(element, "Physical") {
        match locale {
            Locale::Ru => "Физический",
            _ => element,
        }
    } else {
        element
    }
}

// ---------------------------------------------------------------------------
// The server configuration
// ---------------------------------------------------------------------------

/// The leading ASCII digits of `s`.
pub open spec fn leading_digits(s: Seq<char>) -> Seq<char>
    decreases s.len(),
{
    if s.len() > 0 && '0' <= s[0] <= '9' {
        seq![s[0]] + leading_digits(s.subrange(1, s.len() as int))
    } else {
        Seq::empty()
    }
}

/// The zone scheduled for an entrance in `config.zon`: the number after the
/// first `.zone = ` that follows `.{entrance}`, 0 where there is none or it
/// does not fit a u32.
pub open spec fn spec_extract_entrance_zone(config: Seq<char>, entrance: Seq<char>) -> u32 {
    let prefix = seq!['.'] + entrance;
    match spec_find_from(config, prefix, 0) {
        Some(pos) => {
            let after = config.subrange(pos + prefix.len(), config.len() as int);
            match spec_find_from(after, ".zone = "@, 0) {
                Some(zp) => {
                    let rest = after.subrange(zp + 8, after.len() as int);
                    match spec_parse_u32(leading_digits(rest)) {
                        Some(v) => v,
                        None => 0,
                    }
                },
                None => 0,
            }
        },
        None => 0,
    }
}

proof fn lemma_find_from_bounds(s: Seq<char>, p: Seq<char>, from: int)
    ensures
        spec_find_from(s, p, from) matches Some(i) ==> from <= i && occurs_at(s, p, i),
    decreases s.len() + 1 - from,
{
    if 0 <= from <= s.len() && !occurs_at(s, p, from) {
        lemma_find_from_bounds(s, p, from + 1);
    }
}

fn leading_digits_exec(v: &Vec<char>) -> (r: Vec<char>)
    ensures
        r@ == leading_digits(v@),
{
    let mut j: usize = 0;
    while j < v.len() && '0' <= v[j] && v[j] <= '9'
        invariant
            j <= v.len(),
            forall|k: int| 0 <= k < j ==> '0' <= #[trigger] v@[k] <= '9',
        decreases v.len() - j,
    {
        j = j + 1;
    }
    proof {
        lemma_leading_digits(v@, j as int);
    }
    sub_chars(v, 0, j)
}

proof fn lemma_leading_digits(s: Seq<char>, j: int)
    requires
        0 <= j <= s.len(),
        forall|k: int| 0 <= k < j ==> '0' <= #[trigger] s[k] <= '9',
        j == s.len() || !('0' <= s[j] <= '9'),
    ensures
        leading_digits(s) == s.subrange(0, j),
    decreases j,
{
    if j == 0 {
        assert(s.subrange(0, 0) =~= Seq::<char>::empty());
    } else {
        let t = s.subrange(1, s.len() as int);
        assert forall|k: int| 0 <= k < j - 1 implies '0' <= #[trigger] t[k] <= '9' by {
            assert(t[k] == s[k + 1]);
        }
        lemma_leading_digits(t, j - 1);
        assert(s.subrange(0, j) =~= seq![s[0]] + t.subrange(0, j - 1));
    }
}

/// Reads the zone scheduled for `entrance_name` from the text of `config.zon`.
pub fn extract_entrance_zone(config: &str, entrance_name: &str) -> (r: u32)
    ensures
        r == spec_extract_entrance_zone(config@, entrance_name@),
{
    let c = chars_of(config);
    let mut prefix: Vec<char> = Vec::new();
    prefix.push('.');
    extend_str(&mut prefix, entrance_name);
    assert(prefix@ =~= seq!['.'] + entrance_name@);
    proof {
        lemma_find_from_bounds(c@, prefix@, 0);
    }
    match find_from(&c, &prefix, 0) {
        Some(pos) => {
            assert(occurs_at(c@, prefix@, pos as int));
            let plen = prefix.len();
            let clen = c.len();
            assert(pos + plen <= clen);
            let after = sub_chars(&c, pos + plen, clen);
            let pat = chars_of(".zone = ");
            proof {
                reveal_strlit(".zone = ");
                lemma_find_from_bounds(after@, pat@, 0);
            }
            match find_from(&after, &pat, 0) {
                Some(zp) => {
                    let rest = sub_chars(&after, zp + 8, after.len());
                    let digits = leading_digits_exec(&rest);
                    match parse_u32_chars(&digits) {
                        Some(v) => v,
                        None => 0,
                    }
                },
                None => 0,
            }
        },
        None => 0,
    }
}

// ---------------------------------------------------------------------------
// Rich text of the game data
// ---------------------------------------------------------------------------

/// `str::replace(p, "")`: every occurrence of `p`, taken from the left without
/// overlap, removed.
pub open spec fn remove_all(s: Seq<char>, p: Seq<char>) -> Seq<char>
    decreases s.len(),
{
    if s.len() == 0 || p.len() == 0 {
        s
    } else if has_prefix(s, p) {
        remove_all(s.subrange(p.len() as int, s.len() as int), p)
    } else {
        seq![s[0]] + remove_all(s.subrange(1, s.len() as int), p)
    }
}

fn remove_all_exec(v: &Vec<char>, p: &Vec<char>) -> (r: Vec<char>)
    ensures
        r@ == remove_all(v@, p@),
{
    if p.len() == 0 {
        return sub_chars(v, 0, v.len());
    }
    let mut out: Vec<char> = Vec::new();
    let mut i: usize = 0;
    assert(v@.subrange(0, v@.len() as int) =~= v@);
    while i < v.len()
        invariant
            i <= v@.len(),
            p@.len() > 0,
            out@ + remove_all(v@.subrange(i as int, v@.len() as int), p@) == remove_all(v@, p@),
        decreases v.len() - i,
    {
        let ghost rest = v@.subrange(i as int, v@.len() as int);
        if matches_at(v, p, i) {
            assert(rest.subrange(0, p@.len() as int) =~= v@.subrange(i as int, i + p@.len()));
            assert(rest.subrange(p@.len() as int, rest.len() as int) =~= v@.subrange(
                i + p@.len(),
                v@.len() as int,
            ));
            i = i + p.len();
        } else {
            proof {
                if has_prefix(rest, p@) {
                    assert(rest.subrange(0, p@.len() as int) =~= v@.subrange(i as int, i + p@.len()));
                }
                assert(rest.subrange(1, rest.len() as int) =~= v@.subrange(i + 1, v@.len() as int));
            }
            let ghost before = out@;
            out.push(v[i]);
            assert(out@ =~= before + seq![rest[0]]);
            i = i + 1;
        }
    }
    assert(v@.subrange(i as int, v@.len() as int) =~= Seq::<char>::empty());
    assert(out@ + Seq::<char>::empty() =~= out@);
    out
}

/// The colour tags that the card texts drop.
pub open spec fn drop_color_tags(s: Seq<char>) -> Seq<char> {
    remove_all(
        remove_all(
            remove_all(
                remove_all(
                    remove_all(remove_all(s, "<color=#FFAF2C>"@), "<color=#FFFFFF>"@),
                    "<color=#2BAD00>"@,
                ),
                "<color=#98EFF0>"@,
            ),
            "<color=#2EB6FF>"@,
        ),
        "</color>"@,
    )
}

/// `s` trimmed, without leading dots, and trimmed again.
pub open spec fn trim_dots(s: Seq<char>) -> Seq<char> {
    trim(strip_prefix_chars(trim(s), '.'))
}

/// A buff description as plain text: its colour tags dropped, then trimmed
/// of whitespace and leading dots.
pub open spec fn spec_clean_rich_text(text: Seq<char>) -> Seq<char> {
    trim_dots(drop_color_tags(text))
}

fn remove_all_str(v: &Vec<char>, p: &str) -> (r: Vec<char>)
    ensures
        r@ == remove_all(v@, p@),
{
    let pv = chars_of(p);
    remove_all_exec(v, &pv)
}

fn trim_dots_exec(v: &Vec<char>) -> (r: Vec<char>)
    ensures
        r@ == trim_dots(v@),
{
    let a = trim_chars(v);
    let b = strip_prefix_chars_exec(&a, '.');
    trim_chars(&b)
}

pub fn clean_rich_text(text: &str) -> (r: String)
    ensures
        r@ == spec_clean_rich_text(text@),
{
    let v = chars_of(text);
    let a = remove_all_str(&v, "<color=#FFAF2C>");
    let b = remove_all_str(&a, "<color=#FFFFFF>");
    let c = remove_all_str(&b, "<color=#2BAD00>");
    let d = remove_all_str(&c, "<color=#98EFF0>");
    let e = remove_all_str(&d, "<color=#2EB6FF>");
    let f = remove_all_str(&e, "</color>");
    let g = trim_dots_exec(&f);
    string_of(&g)
}

/// `s` with every icon tag (`<IconMap:` up to the next `>`) removed, the first
/// one first; a tag that is never closed stays, with all after it.
pub open spec fn strip_icon_tags(s: Seq<char>) -> Seq<char>
    decreases s.len(),
{
    match spec_find_from(s, "<IconMap:"@, 0) {
        Some(st) => match spec_find_char(s, '>', st) {
            Some(e) => {
                proof {
                    lemma_find_char_bounds(s, '>', st);
                }
                if 0 <= st <= e < s.len() {
                    strip_icon_tags(s.subrange(0, st) + s.subrange(e + 1, s.len() as int))
                } else {
                    s
                }
            },
            None => s,
        },
        None => s,
    }
}

/// Whether `c` is an ASCII hexadecimal digit.
pub open spec fn is_hex_digit(c: char) -> bool {
    ('0' <= c <= '9') || ('a' <= c <= 'f') || ('A' <= c <= 'F')
}

/// A colour written as six hexadecimal digits.
pub open spec fn is_hex_color(c: Seq<char>) -> bool {
    c.len() == 6 && forall|i: int| 0 <= i < 6 ==> is_hex_digit(#[trigger] c[i])
}

/// `n` closing span tags.
pub open spec fn close_spans(n: nat) -> Seq<char>
    decreases n,
{
    if n == 0 {
        Seq::empty()
    } else {
        close_spans((n - 1) as nat) + "</span>"@
    }
}

/// The HTML of `s` from index `i` on, with `open` spans still open: a colour
/// tag with a six-digit colour opens a span, a closing colour tag closes one
/// (if one is open), a line break becomes `<br>`, every other char is
/// escaped, and spans still open at the end are closed.
pub open spec fn rich_from(s: Seq<char>, i: int, open: nat) -> Seq<char>
    decreases s.len() - i,
{
    if i < 0 || i >= s.len() {
        close_spans(open)
    } else if occurs_at(s, "<color=#"@, i) && spec_find_char(s, '>', i + 8) is Some
        && is_hex_color(s.subrange(i + 8, spec_find_char(s, '>', i + 8)->0)) {
        let e = spec_find_char(s, '>', i + 8)->0;
        proof {
            lemma_find_char_bounds(s, '>', i + 8);
        }
        "<span style=\"color: #"@ + s.subrange(i + 8, e) + ";\">"@ + rich_from(s, e + 1, open + 1)
    } else if occurs_at(s, "</color>"@, i) {
        proof {
            reveal_strlit("</color>");
        }
        if open > 0 {
            "</span>"@ + rich_from(s, i + 8, (open - 1) as nat)
        } else {
            rich_from(s, i + 8, open)
        }
    } else if s[i] == '\n' {
        "<br>"@ + rich_from(s, i + 1, open)
    } else {
        escape_text_char(s[i]) + rich_from(s, i + 1, open)
    }
}

/// The HTML of a buff or skill description: trimmed of whitespace and leading
/// dots, icon tags dropped, colour tags turned into spans.
pub open spec fn spec_render_rich_text(text: Seq<char>) -> Seq<char> {
    rich_from(strip_icon_tags(trim_dots(text)), 0, 0)
}

fn strip_icon_tags_exec(v: &Vec<char>) -> (r: Vec<char>)
    ensures
        r@ == strip_icon_tags(v@),
{
    let pat = chars_of("<IconMap:");
    let mut cur = sub_chars(v, 0, v.len());
    assert(v@.subrange(0, v@.len() as int) =~= v@);
    loop
        invariant
            pat@ == "<IconMap:"@,
            strip_icon_tags(cur@) == strip_icon_tags(v@),
        decreases cur@.len(),
    {
        proof {
            lemma_find_from_bounds(cur@, pat@, 0);
        }
        match find_from(&cur, &pat, 0) {
            Some(st) => {
                proof {
                    lemma_find_char_bounds(cur@, '>', st as int);
                }
                match find_char(&cur, '>', st) {
                    Some(e) => {
                        let mut next = sub_chars(&cur, 0, st);
                        let tail = sub_chars(&cur, e + 1, cur.len());
                        extend_chars(&mut next, &tail);
                        cur = next;
                    },
                    None => {
                        return cur;
                    },
                }
            },
            None => {
                return cur;
            },
        }
    }
}

fn is_hex_digit_exec(c: char) -> (r: bool)
    ensures
        r == is_hex_digit(c),
{
    ('0' <= c && c <= '9') || ('a' <= c && c <= 'f') || ('A' <= c && c <= 'F')
}

fn close_spans_exec(out: &mut Vec<char>, n: usize)
    ensures
        final(out)@ == old(out)@ + close_spans(n as nat),
{
    let mut k: usize = 0;
    while k < n
        invariant
            k <= n,
            out@ == old(out)@ + close_spans(k as nat),
        decreases n - k,
    {
        extend_str(out, "</span>");
        k = k + 1;
        assert(out@ =~= old(out)@ + close_spans(k as nat));
    }
}

/// Turns a description of the game data into HTML.
pub fn render_rich_text(text: &str) -> (r: String)
    ensures
        r@ == spec_render_rich_text(text@),
{
    let v = chars_of(text);
    let t = trim_dots_exec(&v);
    let s = strip_icon_tags_exec(&t);
    let color_open = chars_of("<color=#");
    let color_close = chars_of("</color>");
    proof {
        reveal_strlit("<color=#");
        reveal_strlit("</color>");
    }
    let mut out: Vec<char> = Vec::new();
    let mut idx: usize = 0;
    let mut open: usize = 0;
    while idx < s.len()
        invariant
            idx <= s@.len(),
            open <= idx,
            color_open@ == "<color=#"@,
            color_close@ == "</color>"@,
            color_open@.len() == 8,
            color_close@.len() == 8,
            out@ + rich_from(s@, idx as int, open as nat) == rich_from(s@, 0, 0),
        decreases s.len() - idx,
    {
        let ghost before = out@;
        if matches_at(&s, &color_open, idx) {
            proof {
                lemma_find_char_bounds(s@, '>', idx + 8);
            }
            match find_char(&s, '>', idx + 8) {
                Some(e) => {
                    let color = sub_chars(&s, idx + 8, e);
                    let mut valid = color.len() == 6;
                    let mut k: usize = 0;
                    while valid && k < color.len()
                        invariant
                            k <= color@.len(),
                            valid ==> color@.len() == 6,
                            valid ==> forall|j: int| 0 <= j < k ==> is_hex_digit(#[trigger] color@[j]),
                            !valid ==> !is_hex_color(color@),
                        decreases color.len() - k,
                    {
                        if !is_hex_digit_exec(color[k]) {
                            valid = false;
                        }
                        k = k + 1;
                    }
                    if valid {
                        extend_str(&mut out, "<span style=\"color: #");
                        extend_chars(&mut out, &color);
                        extend_str(&mut out, ";\">");
                        assert(out@ =~= before + ("<span style=\"color: #"@ + color@ + ";\">"@));
                        open = open + 1;
                        idx = e + 1;
                        continue;
                    }
                },
                None => {},
            }
        }
        if matches_at(&s, &color_close, idx) {
            if open > 0 {
                extend_str(&mut out, "</span>");
                open = open - 1;
            }
            idx = idx + 8;
            continue;
        }
        let ch = s[idx];
        if ch == '\n' {
            extend_str(&mut out, "<br>");
        } else if ch == '&' {
            extend_str(&mut out, "&amp;");
        } else if ch == '<' {
            extend_str(&mut out, "&lt;");
        } else if ch == '>' {
            extend_str(&mut out, "&gt;");
        } else {
            out.push(ch);
        }
        idx = idx + 1;
    }
    close_spans_exec(&mut out, open);
    string_of(&out)
}

// ---------------------------------------------------------------------------
// Element badges
// ---------------------------------------------------------------------------

/// The badge of an element: its icon and its label.
pub open spec fn spec_element_badge(icon: Seq<char>, label: Seq<char>) -> Seq<char> {
    "<span style=\"display:inline-flex; align-items:center; gap:6px; margin-right:10px; vertical-align:middle;\"><img src=\""@
        + icon + "\" alt=\""@ + label + "\" title=\""@ + label
        + "\" style=\"width: 18px; height: 18px; display:block;\" />"@ + label + "</span>"@
}

/// The badges of `elements`, in order; an element without an icon or a
/// label gets none.
pub open spec fn spec_element_badges(elements: Seq<Seq<char>>, locale: Locale) -> Seq<char>
    decreases elements.len(),
{
    if elements.len() == 0 {
        Seq::empty()
    } else {
        let e = elements.last();
        let icon = spec_element_icon_path(e);
        let label = spec_element_label(locale, e);
        spec_element_badges(elements.drop_last(), locale) + if icon.len() == 0 || label.len()
            == 0 {
            Seq::empty()
        } else {
            spec_element_badge(icon, label)
        }
    }
}

pub open spec fn strings_view(v: Seq<String>) -> Seq<Seq<char>> {
    v.map_values(|s: String| s@)
}

/// The badges of the elements a boss is weak or resistant to.
pub fn element_badges(elements: &Vec<String>, locale: Locale) -> (r: String)
    ensures
        r@ == spec_element_badges(strings_view(elements@), locale),
{
    let mut out: Vec<char> = Vec::new();
    let mut i: usize = 0;
    while i < elements.len()
        invariant
            i <= elements@.len(),
            out@ == spec_element_badges(strings_view(elements@).take(i as int), locale),
        decreases elements.len() - i,
    {
        let e = elements[i].as_str();
        let icon = element_icon_path(e);
        let label = element_label(locale, e);
        let ghost before = out@;
        if !icon.as_str().is_empty() && !label.is_empty() {
            extend_str(&mut out, "<span style=\"display:inline-flex; align-items:center; gap:6px; margin-right:10px; vertical-align:middle;\"><img src=\"");
            extend_str(&mut out, icon.as_str());
            extend_str(&mut out, "\" alt=\"");
            extend_str(&mut out, label);
            extend_str(&mut out, "\" title=\"");
            extend_str(&mut out, label);
            extend_str(&mut out, "\" style=\"width: 18px; height: 18px; display:block;\" />");
            extend_str(&mut out, label);
            extend_str(&mut out, "</span>");
        }
        proof {
            let sv = strings_view(elements@);
            assert(sv.take(i + 1).drop_last() =~= sv.take(i as int));
            assert(sv.take(i + 1).last() == elements@[i as int]@);
        }
        i = i + 1;
    }
    assert(strings_view(elements@).take(elements@.len() as int) =~= strings_view(elements@));
    string_of(&out)
}

// ---------------------------------------------------------------------------
// Shiyu Defense floors
// ---------------------------------------------------------------------------

/// One zone of a Shiyu Defense: its key in the dump and, where the dump gives
/// one, the floor (stage) it belongs to.
pub struct ShiyuZone {
    pub zone_key: String,
    pub stage_num: Option<u64>,
}

pub struct ShiyuZoneView {
    pub zone_key: Seq<char>,
    pub stage_num: Option<u64>,
}

impl View for ShiyuZone {
    type V = ShiyuZoneView;

    open spec fn view(&self) -> ShiyuZoneView {
        ShiyuZoneView { zone_key: self.zone_key@, stage_num: self.stage_num }
    }
}

pub open spec fn zones_view(v: Seq<ShiyuZone>) -> Seq<ShiyuZoneView> {
    v.map_values(|z: ShiyuZone| z@)
}

/// The highest floor among `zones`, its stage numbers read as u32.
pub open spec fn max_stage_of(zones: Seq<ShiyuZoneView>) -> Option<u32>
    decreases zones.len(),
{
    if zones.len() == 0 {
        None
    } else {
        let prev = max_stage_of(zones.drop_last());
        match zones.last().stage_num {
            Some(v) => {
                let f = v as u32;
                match prev {
                    Some(m) => Some(if m >= f { m } else { f }),
                    None => Some(f),
                }
            },
            None => prev,
        }
    }
}

/// The number of floors of a Shiyu Defense: its highest floor, 1 where no
/// zone gives one or the dump has no zones.
pub open spec fn spec_shiyu_max_stage(zones: Option<Seq<ShiyuZoneView>>) -> u32 {
    match zones {
        Some(z) => match max_stage_of(z) {
            Some(m) => m,
            None => 1,
        },
        None => 1,
    }
}

pub fn shiyu_max_stage(zones: Option<&Vec<ShiyuZone>>) -> (r: u32)
    ensures
        r == spec_shiyu_max_stage(
            match zones {
                Some(z) => Some(zones_view(z@)),
                None => None,
            },
        ),
{
    match zones {
        None => 1,
        Some(z) => {
            let mut best: Option<u32> = None;
            let mut i: usize = 0;
            while i < z.len()
                invariant
                    i <= z@.len(),
                    best == max_stage_of(zones_view(z@).take(i as int)),
                decreases z.len() - i,
            {
                proof {
                    let zv = zones_view(z@);
                    assert(zv.take(i + 1).drop_last() =~= zv.take(i as int));
                    assert(zv.take(i + 1).last() == z@[i as int]@);
                }
                match z[i].stage_num {
                    Some(v) => {
                        let f = v as u32;
                        best = match best {
                            Some(m) => Some(if m >= f { m } else { f }),
                            None => Some(f),
                        };
                    },
                    None => {},
                }
                i = i + 1;
            }
            assert(zones_view(z@).take(z@.len() as int) =~= zones_view(z@));
            match best {
                Some(m) => m,
                None => 1,
            }
        },
    }
}

/// The zones of `zones` on `floor` whose key is a zone id, as (zone id, index
/// in `zones`), in the order of `zones`.
pub open spec fn floor_zones(zones: Seq<ShiyuZoneView>, floor: u32) -> Seq<(u32, usize)>
    decreases zones.len(),
{
    if zones.len() == 0 {
        Seq::empty()
    } else {
        let prev = floor_zones(zones.drop_last(), floor);
        let z = zones.last();
        match z.stage_num {
            Some(v) => if (v as u32) == floor {
                match spec_parse_u32(z.zone_key) {
                    Some(id) => prev.push((id, (zones.len() - 1) as usize)),
                    None => prev,
                }
            } else {
                prev
            },
            None => prev,
        }
    }
}

/// `s` with `x` placed after every entry whose id is at most its own.
pub open spec fn insert_by_id(s: Seq<(u32, usize)>, x: (u32, usize)) -> Seq<(u32, usize)>
    decreases s.len(),
{
    if s.len() == 0 {
        seq![x]
    } else if s.last().0 <= x.0 {
        s.push(x)
    } else {
        insert_by_id(s.drop_last(), x).push(s.last())
    }
}

/// A stable sort by zone id: equal ids keep their order.
pub open spec fn sort_by_id(s: Seq<(u32, usize)>) -> Seq<(u32, usize)>
    decreases s.len(),
{
    if s.len() == 0 {
        Seq::empty()
    } else {
        insert_by_id(sort_by_id(s.drop_last()), s.last())
    }
}

pub open spec fn sorted_by_id(s: Seq<(u32, usize)>) -> bool {
    forall|i: int, j: int| 0 <= i < j < s.len() ==> s[i].0 <= s[j].0
}

proof fn lemma_insert_by_id(s: Seq<(u32, usize)>, x: (u32, usize), j: int)
    requires
        0 <= j <= s.len(),
        forall|k: int| j <= k < s.len() ==> #[trigger] s[k].0 > x.0,
        j == 0 || s[j - 1].0 <= x.0,
    ensures
        insert_by_id(s, x) == s.insert(j, x),
    decreases s.len(),
{
    if s.len() == 0 {
        assert(s.insert(j, x) =~= seq![x]);
    } else if j == s.len() {
        assert(s.insert(j, x) =~= s.push(x));
    } else {
        lemma_insert_by_id(s.drop_last(), x, j);
        assert(s.insert(j, x) =~= s.drop_last().insert(j, x).push(s.last()));
    }
}

proof fn lemma_insert_by_id_sorted(s: Seq<(u32, usize)>, x: (u32, usize))
    requires
        sorted_by_id(s),
    ensures
        sorted_by_id(insert_by_id(s, x)),
        insert_by_id(s, x).len() == s.len() + 1,
        forall|k: int|
            0 <= k < insert_by_id(s, x).len() ==> #[trigger] insert_by_id(s, x)[k] == x || s.contains(
                insert_by_id(s, x)[k],
            ),
    decreases s.len(),
{
    if s.len() > 0 && s.last().0 > x.0 {
        let d = s.drop_last();
        lemma_insert_by_id_sorted(d, x);
        let r = insert_by_id(d, x);
        let out = r.push(s.last());
        assert forall|k: int| 0 <= k < out.len() implies #[trigger] out[k] == x || s.contains(out[k]) by {
            if k < r.len() {
                if r[k] != x {
                    let m = choose|m: int| 0 <= m < d.len() && d[m] == r[k];
                    assert(s[m] == r[k]);
                }
            } else {
                assert(s[s.len() - 1] == out[k]);
            }
        }
        assert forall|a: int, b: int| 0 <= a < b < out.len() implies out[a].0 <= out[b].0 by {
            if b == out.len() - 1 && a < r.len() {
                if r[a] != x {
                    let m = choose|m: int| 0 <= m < d.len() && d[m] == r[a];
                    assert(s[m] == r[a]);
                }
            }
        }
    } else if s.len() > 0 {
        let out = s.push(x);
        assert forall|k: int| 0 <= k < out.len() implies #[trigger] out[k] == x || s.contains(out[k]) by {
            if k < s.len() {
                assert(s[k] == out[k]);
            }
        }
    }
}

proof fn lemma_sort_by_id_sorted(s: Seq<(u32, usize)>)
    ensures
        sorted_by_id(sort_by_id(s)),
        sort_by_id(s).len() == s.len(),
    decreases s.len(),
{
    if s.len() > 0 {
        lemma_sort_by_id_sorted(s.drop_last());
        lemma_insert_by_id_sorted(sort_by_id(s.drop_last()), s.last());
    }
}

/// The zones of one floor of a Shiyu Defense, as (zone id, index in
/// `zones`), ordered by zone id.
pub fn shiyu_stage_zones(zones: Option<&Vec<ShiyuZone>>, floor: u32) -> (r: Vec<(u32, usize)>)
    ensures
        r@ == match zones {
            Some(z) => sort_by_id(floor_zones(zones_view(z@), floor)),
            None => Seq::empty(),
        },
        sorted_by_id(r@),
{
    match zones {
        None => Vec::new(),
        Some(z) => {
            let mut out: Vec<(u32, usize)> = Vec::new();
            let mut i: usize = 0;
            while i < z.len()
                invariant
                    i <= z@.len(),
                    out@ == sort_by_id(floor_zones(zones_view(z@).take(i as int), floor)),
                decreases z.len() - i,
            {
                let ghost zv = zones_view(z@);
                proof {
                    assert(zv.take(i + 1).drop_last() =~= zv.take(i as int));
                    assert(zv.take(i + 1).last() == z@[i as int]@);
                    lemma_sort_by_id_sorted(floor_zones(zv.take(i as int), floor));
                }
                let zone = &z[i];
                match zone.stage_num {
                    Some(v) => {
                        if #[verifier::truncate] (v as u32) == floor {
                            let key = chars_of(zone.zone_key.as_str());
                            match parse_u32_chars(&key) {
                                Some(id) => {
                                    let x = (id, i);
                                    let mut j = out.len();
                                    while j > 0 && out[j - 1].0 > id
                                        invariant
                                            j <= out@.len(),
                                            forall|k: int| j <= k < out@.len() ==> #[trigger] out@[k].0 > id,
                                        decreases j,
                                    {
                                        j = j - 1;
                                    }
                                    proof {
                                        lemma_insert_by_id(out@, x, j as int);
                                        let zt = zv.take(i + 1);
                                        assert(zt.last().zone_key == key@);
                                        assert(floor_zones(zt, floor) == floor_zones(
                                            zv.take(i as int),
                                            floor,
                                        ).push(x));
                                        let fz = floor_zones(zv.take(i as int), floor);
                                        assert(fz.push(x).drop_last() =~= fz);
                                        assert(sort_by_id(fz.push(x)) == insert_by_id(
                                            sort_by_id(fz),
                                            x,
                                        ));
                                    }
                                    out.insert(j, x);
                                },
                                None => {},
                            }
                        }
                    },
                    None => {},
                }
                i = i + 1;
            }
            assert(zones_view(z@).take(z@.len() as int) =~= zones_view(z@));
            proof {
                lemma_sort_by_id_sorted(floor_zones(zones_view(z@), floor));
            }
            out
        },
    }
}

} // verus!

verus! {

// ---------------------------------------------------------------------------
// Boss cards
// ---------------------------------------------------------------------------

pub const MONSTER_CARD_OPEN: &'static str = "<div class=\"card\" style=\"background: #1b1f2a; padding: 12px; border-radius: 12px; border: 1px solid #232a38; display: flex; gap: 14px; align-items: stretch; justify-content: space-between; flex-wrap: nowrap; min-height: 170px;\">\n            <div style=\"flex: 1 1 260px; min-width: 220px;\">\n                <h4 style=\"margin: 0 0 10px 0; font-size: 16px;\">";

pub const MONSTER_CARD_STATS: &'static str = "</h4>\n                <div style=\"font-size: 13px; color: #c7d1e0; line-height: 1.45;\">\n                    <div style=\"margin-bottom: 5px;\"><strong>";

pub const MONSTER_CARD_COLON: &'static str = ":</strong> ";

pub const MONSTER_CARD_NEXT_STAT: &'static str = "</div>\n                    <div style=\"margin-bottom: 5px;\"><strong>";

pub const MONSTER_CARD_AFTER_STATS: &'static str = "</div>\n                    ";

pub const MONSTER_CARD_BETWEEN: &'static str = "\n                    ";

pub const MONSTER_CARD_AFTER_TEXT: &'static str = "\n                </div>\n            </div>\n            ";

pub const MONSTER_CARD_CLOSE: &'static str = "\n        </div>";

pub const MONSTER_IMAGE_OPEN: &'static str = "<img class=\"boss-inline-thumb\" src=\"/assets/zzz_dump/assets/static.nanoka.cc/zzz/UI/";

pub const MONSTER_IMAGE_ALT: &'static str = ".webp\" alt=\"";

pub const MONSTER_IMAGE_CLOSE: &'static str = "\" style=\"width: 180px; height: 100%; object-fit: cover; background: #10141d; border-radius: 8px; flex-shrink: 0;\" />";

pub const WEAKNESS_OPEN: &'static str = "<div style=\"display:flex; align-items:center; gap:8px; margin-top:8px; margin-bottom:6px;\"><strong>";

pub const RESISTANCE_OPEN: &'static str = "<div style=\"display:flex; align-items:center; gap:8px; margin-top:8px;\"><strong>";

pub const BADGES_OPEN: &'static str = ":</strong> <span style=\"display:inline-flex; align-items:center; flex-wrap:wrap; gap:6px;\">";

pub const BADGES_CLOSE: &'static str = "</span></div>";

/// The translated words of a boss card.
pub struct MonsterCardLabels {
    pub hp: String,
    pub atk: String,
    pub def: String,
    pub stun: String,
    pub weakness: String,
    pub resistance: String,
}

/// A boss's stats as the card shows them.
pub struct MonsterStats {
    pub hp: String,
    pub atk: String,
    pub def: String,
    pub stun: String,
}

/// The boss's picture: the local copy of its image, none where it has none.
pub open spec fn monster_image_html(image: Seq<char>, name: Seq<char>) -> Seq<char> {
    if image.len() == 0 {
        Seq::empty()
    } else {
        MONSTER_IMAGE_OPEN@ + spec_boss_image_base_name(image) + MONSTER_IMAGE_ALT@ + name + MONSTER_IMAGE_CLOSE@
    }
}

/// A labelled row of badges, none where there is no badge.
pub open spec fn badge_row(open: Seq<char>, label: Seq<char>, badges: Seq<char>) -> Seq<char> {
    if badges.len() == 0 {
        Seq::empty()
    } else {
        open + label + BADGES_OPEN@ + badges + BADGES_CLOSE@
    }
}

/// The card of a boss: its name, HP, ATK, DEF and Daze, the elements it is
/// weak and resistant to, and its picture.
pub open spec fn spec_monster_card(labels: MonsterCardLabels, name: Seq<char>, image: Seq<char>, stats: MonsterStats, weakness: Seq<Seq<char>>, resistance: Seq<Seq<char>>, locale: Locale) -> Seq<char> {
    MONSTER_CARD_OPEN@ + name + MONSTER_CARD_STATS@ + labels.hp@ + MONSTER_CARD_COLON@ + stats.hp@
        + MONSTER_CARD_NEXT_STAT@ + labels.atk@ + MONSTER_CARD_COLON@ + stats.atk@ + MONSTER_CARD_NEXT_STAT@
        + labels.def@ + MONSTER_CARD_COLON@ + stats.def@ + MONSTER_CARD_NEXT_STAT@ + labels.stun@
        + MONSTER_CARD_COLON@ + stats.stun@ + MONSTER_CARD_AFTER_STATS@ + badge_row(
        WEAKNESS_OPEN@,
        labels.weakness@,
        spec_element_badges(weakness, locale),
    ) + MONSTER_CARD_BETWEEN@ + badge_row(RESISTANCE_OPEN@, labels.resistance@, spec_element_badges(resistance, locale))
        + MONSTER_CARD_AFTER_TEXT@ + monster_image_html(image, name) + MONSTER_CARD_CLOSE@
}

fn push_stat_line(out: &mut Vec<char>, sep: &str, label: &str, value: &str)
    ensures
        final(out)@ == old(out)@ + sep@ + label@ + MONSTER_CARD_COLON@ + value@,
{
    extend_str(out, sep);
    extend_str(out, label);
    extend_str(out, MONSTER_CARD_COLON);
    extend_str(out, value);
}

fn push_badge_row(out: &mut Vec<char>, open: &str, label: &str, badges: &str)
    ensures
        final(out)@ == old(out)@ + badge_row(open@, label@, badges@),
{
    if !badges.is_empty() {
        extend_str(out, open);
        extend_str(out, label);
        extend_str(out, BADGES_OPEN);
        extend_str(out, badges);
        extend_str(out, BADGES_CLOSE);
    }
    assert(final(out)@ =~= old(out)@ + badge_row(open@, label@, badges@));
}

fn push_monster_image(out: &mut Vec<char>, image: &str, name: &str)
    ensures
        final(out)@ == old(out)@ + monster_image_html(image@, name@),
{
    if !image.is_empty() {
        let base = boss_image_base_name(image);
        extend_str(out, MONSTER_IMAGE_OPEN);
        extend_str(out, base.as_str());
        extend_str(out, MONSTER_IMAGE_ALT);
        extend_str(out, name);
        extend_str(out, MONSTER_IMAGE_CLOSE);
    }
    assert(final(out)@ =~= old(out)@ + monster_image_html(image@, name@));
}

/// `weakness` and `resistance` are the elements the boss is weak and
/// resistant to, in the dump's order.
pub fn render_monster_card(labels: &MonsterCardLabels, name: &str, image: &str, stats: &MonsterStats, weakness: &Vec<String>, resistance: &Vec<String>, locale: Locale) -> (r: String)
    ensures
        r@ == spec_monster_card(*labels, name@, image@, *stats, strings_view(weakness@), strings_view(resistance@), locale),
{
    let weak = element_badges(weakness, locale);
    let resist = element_badges(resistance, locale);
    let mut out: Vec<char> = Vec::new();
    extend_str(&mut out, MONSTER_CARD_OPEN);
    extend_str(&mut out, name);
    push_stat_line(&mut out, MONSTER_CARD_STATS, labels.hp.as_str(), stats.hp.as_str());
    push_stat_line(&mut out, MONSTER_CARD_NEXT_STAT, labels.atk.as_str(), stats.atk.as_str());
    push_stat_line(&mut out, MONSTER_CARD_NEXT_STAT, labels.def.as_str(), stats.def.as_str());
    push_stat_line(&mut out, MONSTER_CARD_NEXT_STAT, labels.stun.as_str(), stats.stun.as_str());
    extend_str(&mut out, MONSTER_CARD_AFTER_STATS);
    push_badge_row(&mut out, WEAKNESS_OPEN, labels.weakness.as_str(), weak.as_str());
    extend_str(&mut out, MONSTER_CARD_BETWEEN);
    push_badge_row(&mut out, RESISTANCE_OPEN, labels.resistance.as_str(), resist.as_str());
    extend_str(&mut out, MONSTER_CARD_AFTER_TEXT);
    push_monster_image(&mut out, image, name);
    extend_str(&mut out, MONSTER_CARD_CLOSE);
    assert(out@ =~= spec_monster_card(
        *labels,
        name@,
        image@,
        *stats,
        strings_view(weakness@),
        strings_view(resistance@),
        locale,
    ));
    string_of(&out)
}

// ---------------------------------------------------------------------------
// Zone names
// ---------------------------------------------------------------------------

/// A zone of a challenge in the dumps: its name, where given, and the names
/// of its monsters, room by room, where given.
pub struct ZoneRecord {
    pub name: Option<String>,
    pub monster_names: Vec<Option<String>>,
}

/// A challenge in the dumps: its name, where given, and its zones.
pub struct ChallengeRecord {
    pub name: Option<String>,
    pub zones: Vec<ZoneRecord>,
}

/// Which dump a challenge comes from.
#[derive(PartialEq, Eq, Structural, Clone, Copy)]
pub enum ChallengeKind {
    Shiyu,
    DeadlyAssault,
}

pub open spec fn opt_chars(o: Option<String>) -> Option<Seq<char>> {
    match o {
        Some(s) => Some(s@),
        None => None,
    }
}

/// A name that is given and not empty.
pub open spec fn nonempty_name(o: Option<Seq<char>>) -> bool {
    o matches Some(n) && n.len() > 0
}

/// The first monster name, from monster `i` on, that is not blank.
pub open spec fn first_monster_name(names: Seq<Option<Seq<char>>>, i: int) -> Option<Seq<char>>
    decreases names.len() - i,
{
    if i < 0 || i >= names.len() {
        None
    } else if names[i] matches Some(n) && crate::text::trim(n).len() > 0 {
        names[i]
    } else {
        first_monster_name(names, i + 1)
    }
}

pub open spec fn monster_names_view(v: Seq<Option<String>>) -> Seq<Option<Seq<char>>> {
    v.map_values(|o: Option<String>| opt_chars(o))
}

/// The name a zone gives, searching from zone `i` on: its own name, or, for
/// Deadly Assault, else the first monster name that is not blank.
pub open spec fn name_from_zones(zones: Seq<ZoneRecord>, kind: ChallengeKind, i: int) -> Option<Seq<char>>
    decreases zones.len() - i,
{
    if i < 0 || i >= zones.len() {
        None
    } else if nonempty_name(opt_chars(zones[i].name)) {
        opt_chars(zones[i].name)
    } else if kind == ChallengeKind::DeadlyAssault && first_monster_name(monster_names_view(zones[i].monster_names@), 0) is Some {
        first_monster_name(monster_names_view(zones[i].monster_names@), 0)
    } else {
        name_from_zones(zones, kind, i + 1)
    }
}

/// The name of a scheduled challenge: its own name, else the first name its
/// zones give, else `unknown`; `unknown` too where the dump lacks it.
pub open spec fn spec_lookup_zone_name(entry: Option<ChallengeRecord>, kind: ChallengeKind, unknown: Seq<char>) -> Seq<char> {
    match entry {
        None => unknown,
        Some(e) => if nonempty_name(opt_chars(e.name)) {
            opt_chars(e.name)->0
        } else {
            match name_from_zones(e.zones@, kind, 0) {
                Some(n) => n,
                None => unknown,
            }
        },
    }
}

fn monster_name(names: &Vec<Option<String>>) -> (r: Option<String>)
    ensures
        opt_chars(r) == first_monster_name(monster_names_view(names@), 0),
{
    let ghost nv = monster_names_view(names@);
    let mut i: usize = 0;
    while i < names.len()
        invariant
            i <= names@.len(),
            nv == monster_names_view(names@),
            first_monster_name(nv, i as int) == first_monster_name(nv, 0),
        decreases names.len() - i,
    {
        assert(nv[i as int] == opt_chars(names@[i as int]));
        match &names[i] {
            Some(n) => {
                let t = crate::text::trim_chars(&crate::text::chars_of(n.as_str()));
                if t.len() > 0 {
                    return Some(n.clone());
                }
            },
            None => {},
        }
        i = i + 1;
    }
    None
}

fn name_of(name: &Option<String>) -> (r: Option<String>)
    ensures
        nonempty_name(opt_chars(*name)) ==> opt_chars(r) == opt_chars(*name),
        !nonempty_name(opt_chars(*name)) ==> r is None,
{
    match name {
        Some(n) => {
            if n.as_str().is_empty() {
                None
            } else {
                Some(n.clone())
            }
        },
        None => None,
    }
}

pub fn lookup_zone_name(entry: Option<&ChallengeRecord>, kind: ChallengeKind, unknown: &str) -> (r: String)
    ensures
        r@ == spec_lookup_zone_name(
            match entry {
                Some(e) => Some(*e),
                None => None,
            },
            kind,
            unknown@,
        ),
{
    let e = match entry {
        Some(e) => e,
        None => {
            return string_of(&chars_of(unknown));
        },
    };
    match name_of(&e.name) {
        Some(n) => {
            return n;
        },
        None => {},
    }
    let mut i: usize = 0;
    while i < e.zones.len()
        invariant
            i <= e.zones@.len(),
            entry matches Some(x) && *x == *e,
            !nonempty_name(opt_chars(e.name)),
            name_from_zones(e.zones@, kind, i as int) == name_from_zones(e.zones@, kind, 0),
        decreases e.zones.len() - i,
    {
        let z = &e.zones[i];
        match name_of(&z.name) {
            Some(n) => {
                return n;
            },
            None => {},
        }
        if kind == ChallengeKind::DeadlyAssault {
            match monster_name(&z.monster_names) {
                Some(n) => {
                    return n;
                },
                None => {},
            }
        }
        i = i + 1;
    }
    string_of(&chars_of(unknown))
}

} // verus!

verus! {

// ---------------------------------------------------------------------------
// Challenge detail pages
// ---------------------------------------------------------------------------

pub const DA_BUFF_ITEM_0: &'static str = "<div style=\"margin-bottom: 12px; padding: 10px; background: #121620; border-radius: 8px; border-left: 3px solid #4c7dff;\">\n                                        <h4 style=\"margin: 0 0 6px 0; color: #4c7dff;\">";

pub const DA_BUFF_ITEM_1: &'static str = "</h4>\n                                        <p style=\"margin: 0; font-size: 12px; color: #9aa4b2; line-height: 1.4;\">";

pub const DA_BUFF_ITEM_2: &'static str = "</p>\n                                    </div>";

pub const SHIYU_BUFF_ITEM_0: &'static str = "<div style=\"margin-bottom: 12px; padding: 10px; background: #121620; border-radius: 8px; border-left: 3px solid #4c7dff;\">\n                                <h4 style=\"margin: 0 0 6px 0; color: #4c7dff;\">";

pub const SHIYU_BUFF_ITEM_1: &'static str = "</h4>\n                                <p style=\"margin: 0; font-size: 12px; color: #9aa4b2; line-height: 1.4;\">";

pub const SHIYU_BUFF_ITEM_2: &'static str = "</p>\n                            </div>";

pub const DA_BUFFS_CARD_0: &'static str = "<div class=\"card\" style=\"background: #1b1f2a; padding: 14px; border-radius: 12px; border: 1px solid #232a38; grid-column: span 1;\">\n                                        <h3>";

pub const DA_BUFFS_CARD_1: &'static str = "</h3>\n                                        ";

pub const DA_BUFFS_CARD_2: &'static str = "\n                                    </div>";

pub const LAYER_BUFF_0: &'static str = "<div style=\"padding: 8px 10px; border-radius: 8px; background: #10141d; margin-top: 8px; border-left: 3px solid #4c7dff; font-size: 12px; color: #9aa4b2; line-height: 1.4;\">";

pub const LAYER_BUFF_1: &'static str = "</div>";

pub const LAYER_BUFFS_0: &'static str = "<div style=\"margin-top: 10px;\">\n                                    <div style=\"font-size: 12px; font-weight: 700; color: #8fb0ff; margin-bottom: 2px;\">";

pub const LAYER_BUFFS_1: &'static str = "</div>\n                                    ";

pub const LAYER_BUFFS_2: &'static str = "\n                                </div>";

pub const SHIYU_BUFFS_CARD_0: &'static str = "<div class=\"card\" style=\"background: #1b1f2a; padding: 14px; border-radius: 12px; border: 1px solid #232a38;\">\n                            <h3>";

pub const SHIYU_BUFFS_CARD_1: &'static str = "</h3>\n                            ";

pub const SHIYU_BUFFS_CARD_2: &'static str = "\n                        </div>";

pub const SHIYU_FIGHT_CARD_0: &'static str = "<div class=\"card\" style=\"background: #1b1f2a; padding: 14px; border-radius: 12px; border: 1px solid #232a38;\">\n                            <h3>";

pub const SHIYU_FIGHT_CARD_1: &'static str = " ";

pub const SHIYU_FIGHT_CARD_2: &'static str = "</h3>\n                            <div style=\"display:flex; flex-direction:column; gap:14px;\">\n                                ";

pub const SHIYU_FIGHT_CARD_3: &'static str = "\n                            </div>\n                        </div>";

pub const FLOOR_TAB_0: &'static str = "<a href=\"/shiyu/";

pub const FLOOR_TAB_1: &'static str = "?floor=";

pub const FLOOR_TAB_2: &'static str = "\" class=\"";

pub const FLOOR_TAB_3: &'static str = "\" style=\"margin-right: 0; padding: 8px 12px; border-radius: 8px; text-decoration: none; font-weight: 600; ";

pub const FLOOR_TAB_4: &'static str = "\">";

pub const FLOOR_TAB_5: &'static str = " ";

pub const FLOOR_TAB_6: &'static str = "</a>";

pub const DA_BOSS_CARD_0: &'static str = "<div class=\"card\" style=\"background: #1b1f2a; padding: 14px; border-radius: 12px; border: 1px solid #232a38; display: flex; gap: 16px; align-items: stretch; justify-content: space-between; flex-wrap: nowrap; min-height: 220px;\">\n                                        <div style=\"flex: 1 1 260px; min-width: 240px;\">\n                                            <h3>";

pub const DA_BOSS_CARD_1: &'static str = "</h3>\n                                            <div style=\"margin-top: 12px; font-size: 13px; color: #c7d1e0; line-height: 1.45;\">\n                                                <div style=\"margin-bottom: 6px;\"><strong>";

pub const DA_BOSS_CARD_2: &'static str = ":</strong> ";

pub const DA_BOSS_CARD_3: &'static str = "</div>\n                                                <div style=\"margin-bottom: 6px;\"><strong>";

pub const DA_BOSS_CARD_4: &'static str = ":</strong> ";

pub const DA_BOSS_CARD_5: &'static str = "</div>\n                                                <div style=\"margin-bottom: 6px;\"><strong>";

pub const DA_BOSS_CARD_6: &'static str = ":</strong> ";

pub const DA_BOSS_CARD_7: &'static str = "</div>\n                                                <div style=\"margin-bottom: 6px;\"><strong>";

pub const DA_BOSS_CARD_8: &'static str = ":</strong> ";

pub const DA_BOSS_CARD_9: &'static str = "</div>\n                                                <div style=\"margin-bottom: 6px;\"><strong>";

pub const DA_BOSS_CARD_10: &'static str = ":</strong> ";

pub const DA_BOSS_CARD_11: &'static str = "</div>\n                                                ";

pub const DA_BOSS_CARD_12: &'static str = "\n                                                ";

pub const DA_BOSS_CARD_13: &'static str = "\n                                                ";

pub const DA_BOSS_CARD_14: &'static str = "\n                                            </div>\n                                        </div>\n                                        ";

pub const DA_BOSS_CARD_15: &'static str = "\n                                    </div>";

pub const DA_BOSS_IMAGE_0: &'static str = "<img class=\"boss-inline-thumb\" src=\"/assets/zzz_dump/assets/static.nanoka.cc/zzz/UI/";

pub const DA_BOSS_IMAGE_1: &'static str = ".webp\" alt=\"";

pub const DA_BOSS_IMAGE_2: &'static str = "\" style=\"width: 220px; height: 100%; object-fit: cover; background: #10141d; border-radius: 8px; flex-shrink: 0;\" />";

/// A buff of a challenge in the dumps: its title and description, where
/// given.
pub struct BuffRecord {
    pub title: Option<String>,
    pub desc: Option<String>,
}

pub open spec fn or_default(o: Option<String>, d: Seq<char>) -> Seq<char> {
    match o {
        Some(s) => s@,
        None => d,
    }
}

/// The pieces of a buff's box: the Deadly Assault page and the Shiyu page
/// indent them differently.
pub open spec fn buff_piece(da: bool, k: int) -> Seq<char> {
    if da {
        if k == 0 {
            DA_BUFF_ITEM_0@
        } else if k == 1 {
            DA_BUFF_ITEM_1@
        } else {
            DA_BUFF_ITEM_2@
        }
    } else {
        if k == 0 {
            SHIYU_BUFF_ITEM_0@
        } else if k == 1 {
            SHIYU_BUFF_ITEM_1@
        } else {
            SHIYU_BUFF_ITEM_2@
        }
    }
}

/// The box of a buff: its title (the word for "buff" where the title is
/// blank) and its description as rich text; none for a buff whose title is
/// blank and whose description is empty once cleaned.
pub open spec fn spec_buff_item(da: bool, b: BuffRecord, buff_word: Seq<char>, no_desc: Seq<char>) -> Seq<char> {
    let title = or_default(b.title, buff_word);
    let desc = or_default(b.desc, no_desc);
    if trim(title).len() == 0 && spec_clean_rich_text(desc).len() == 0 {
        Seq::empty()
    } else {
        buff_piece(da, 0) + (if trim(title).len() == 0 {
            buff_word
        } else {
            title
        }) + buff_piece(da, 1) + spec_render_rich_text(desc) + buff_piece(da, 2)
    }
}

pub open spec fn buff_items_upto(da: bool, buffs: Seq<BuffRecord>, buff_word: Seq<char>, no_desc: Seq<char>, n: nat) -> Seq<char>
    decreases n,
{
    if n == 0 {
        Seq::empty()
    } else {
        buff_items_upto(da, buffs, buff_word, no_desc, (n - 1) as nat) + spec_buff_item(da, buffs[n - 1], buff_word, no_desc)
    }
}

fn opt_or(o: &Option<String>, d: &str) -> (r: Vec<char>)
    ensures
        r@ == or_default(*o, d@),
{
    match o {
        Some(s) => chars_of(s.as_str()),
        None => chars_of(d),
    }
}

fn push_buff_item(out: &mut Vec<char>, da: bool, b: &BuffRecord, buff_word: &str, no_desc: &str)
    ensures
        final(out)@ == old(out)@ + spec_buff_item(da, *b, buff_word@, no_desc@),
{
    let title = opt_or(&b.title, buff_word);
    let desc = string_of(&opt_or(&b.desc, no_desc));
    let blank_title = crate::text::trim_chars(&title).len() == 0;
    let clean = clean_rich_text(desc.as_str());
    if blank_title && clean.as_str().is_empty() {
        assert(out@ =~= old(out)@ + spec_buff_item(da, *b, buff_word@, no_desc@));
        return;
    }
    let rich = render_rich_text(desc.as_str());
    if da {
        extend_str(out, DA_BUFF_ITEM_0);
    } else {
        extend_str(out, SHIYU_BUFF_ITEM_0);
    }
    if blank_title {
        extend_str(out, buff_word);
    } else {
        extend_chars(out, &title);
    }
    if da {
        extend_str(out, DA_BUFF_ITEM_1);
    } else {
        extend_str(out, SHIYU_BUFF_ITEM_1);
    }
    extend_str(out, rich.as_str());
    if da {
        extend_str(out, DA_BUFF_ITEM_2);
    } else {
        extend_str(out, SHIYU_BUFF_ITEM_2);
    }
    assert(final(out)@ =~= old(out)@ + spec_buff_item(da, *b, buff_word@, no_desc@));
}

/// The boxes of the first `limit` buffs (of all where there are fewer).
pub open spec fn spec_buff_items(da: bool, buffs: Seq<BuffRecord>, limit: nat, buff_word: Seq<char>, no_desc: Seq<char>) -> Seq<char> {
    buff_items_upto(da, buffs, buff_word, no_desc, if buffs.len() < limit { buffs.len() } else { limit })
}

fn buff_items(da: bool, buffs: &Vec<BuffRecord>, limit: usize, buff_word: &str, no_desc: &str) -> (r: Vec<char>)
    ensures
        r@ == spec_buff_items(da, buffs@, limit as nat, buff_word@, no_desc@),
{
    let n = if buffs.len() < limit {
        buffs.len()
    } else {
        limit
    };
    let mut out: Vec<char> = Vec::new();
    let mut i: usize = 0;
    while i < n
        invariant
            i <= n,
            n <= buffs@.len(),
            n == if buffs@.len() < limit { buffs@.len() } else { limit as nat },
            out@ == buff_items_upto(da, buffs@, buff_word@, no_desc@, i as nat),
        decreases n - i,
    {
        push_buff_item(&mut out, da, &buffs[i], buff_word, no_desc);
        i = i + 1;
    }
    out
}

/// A card around the buff boxes, none where there is no box.
pub open spec fn wrapped_card(p0: Seq<char>, title: Seq<char>, p1: Seq<char>, inner: Seq<char>, p2: Seq<char>) -> Seq<char> {
    if inner.len() == 0 {
        Seq::empty()
    } else {
        p0 + title + p1 + inner + p2
    }
}

fn push_wrapped_card(out: &mut Vec<char>, p0: &str, title: &str, p1: &str, inner: &Vec<char>, p2: &str)
    ensures
        final(out)@ == old(out)@ + wrapped_card(p0@, title@, p1@, inner@, p2@),
{
    if inner.len() > 0 {
        extend_str(out, p0);
        extend_str(out, title);
        extend_str(out, p1);
        extend_chars(out, inner);
        extend_str(out, p2);
    }
    assert(final(out)@ =~= old(out)@ + wrapped_card(p0@, title@, p1@, inner@, p2@));
}

/// The buffs card of a Shiyu floor: every buff of the floor's zones, in
/// order; none where no buff shows.
pub open spec fn spec_shiyu_buffs_card(title: Seq<char>, buffs: Seq<BuffRecord>, buff_word: Seq<char>, no_desc: Seq<char>) -> Seq<char> {
    wrapped_card(
        SHIYU_BUFFS_CARD_0@,
        title,
        SHIYU_BUFFS_CARD_1@,
        spec_buff_items(false, buffs, buffs.len(), buff_word, no_desc),
        SHIYU_BUFFS_CARD_2@,
    )
}

pub fn render_shiyu_buffs_card(title: &str, buffs: &Vec<BuffRecord>, buff_word: &str, no_desc: &str) -> (r: String)
    ensures
        r@ == spec_shiyu_buffs_card(title@, buffs@, buff_word@, no_desc@),
{
    let items = buff_items(false, buffs, buffs.len(), buff_word, no_desc);
    let mut out: Vec<char> = Vec::new();
    push_wrapped_card(&mut out, SHIYU_BUFFS_CARD_0, title, SHIYU_BUFFS_CARD_1, &items, SHIYU_BUFFS_CARD_2);
    assert(out@ =~= spec_shiyu_buffs_card(title@, buffs@, buff_word@, no_desc@));
    string_of(&out)
}

/// The fight card of a Shiyu floor: the boss cards under "fight" and the
/// floor number; none where there is no boss card.
pub open spec fn spec_shiyu_fight_card(title: Seq<char>, floor: u32, cards: Seq<char>) -> Seq<char> {
    wrapped_card(SHIYU_FIGHT_CARD_0@, title + SHIYU_FIGHT_CARD_1@ + decimal(floor as nat), SHIYU_FIGHT_CARD_2@, cards, SHIYU_FIGHT_CARD_3@)
}

pub fn render_shiyu_fight_card(title: &str, floor: u32, cards: &str) -> (r: String)
    ensures
        r@ == spec_shiyu_fight_card(title@, floor, cards@),
{
    let mut head = chars_of(title);
    extend_str(&mut head, SHIYU_FIGHT_CARD_1);
    push_decimal(&mut head, floor as u64);
    let c = chars_of(cards);
    let mut out: Vec<char> = Vec::new();
    push_wrapped_card(&mut out, SHIYU_FIGHT_CARD_0, string_of(&head).as_str(), SHIYU_FIGHT_CARD_2, &c, SHIYU_FIGHT_CARD_3);
    string_of(&out)
}

/// The floor the Shiyu page opens: the asked one, the last where none is
/// asked, kept within 1 and the last.
pub open spec fn spec_selected_floor(asked: Option<u32>, max_stage: u32) -> u32 {
    let f = match asked {
        Some(f) => f,
        None => max_stage,
    };
    if f < 1 {
        1
    } else if f > max_stage {
        max_stage
    } else {
        f
    }
}

pub fn selected_floor(asked: Option<u32>, max_stage: u32) -> (r: u32)
    requires
        max_stage >= 1,
    ensures
        r == spec_selected_floor(asked, max_stage),
{
    let f = match asked {
        Some(f) => f,
        None => max_stage,
    };
    if f < 1 {
        1
    } else if f > max_stage {
        max_stage
    } else {
        f
    }
}

/// The tab of floor `floor` on the Shiyu page; the open one is marked.
pub open spec fn floor_tab(id: u32, floor: nat, selected: u32, word: Seq<char>) -> Seq<char> {
    let active = floor == selected;
    FLOOR_TAB_0@ + decimal(id as nat) + FLOOR_TAB_1@ + decimal(floor) + FLOOR_TAB_2@ + (if active {
        "active"@
    } else {
        ""@
    }) + FLOOR_TAB_3@ + (if active {
        "background: #4c7dff; color: #fff;"@
    } else {
        "background: #2a3140; color: #c7d1e0;"@
    }) + FLOOR_TAB_4@ + word + FLOOR_TAB_5@ + decimal(floor) + FLOOR_TAB_6@
}

pub open spec fn floor_tabs_upto(id: u32, selected: u32, word: Seq<char>, n: nat) -> Seq<char>
    decreases n,
{
    if n == 0 {
        Seq::empty()
    } else {
        floor_tabs_upto(id, selected, word, (n - 1) as nat) + floor_tab(id, n, selected, word)
    }
}

/// The floor tabs of the Shiyu page: floors 1 through `max_stage`, named
/// waves where the challenge has five stages.
pub open spec fn spec_floor_tabs(id: u32, max_stage: u32, selected: u32, waves: Seq<char>, floor_word: Seq<char>) -> Seq<char> {
    floor_tabs_upto(id, selected, if max_stage == 5 { waves } else { floor_word }, max_stage as nat)
}

fn push_floor_tab(out: &mut Vec<char>, id: u32, floor: u32, selected: u32, word: &str)
    ensures
        final(out)@ == old(out)@ + floor_tab(id, floor as nat, selected, word@),
{
    let active = floor == selected;
    extend_str(out, FLOOR_TAB_0);
    push_decimal(out, id as u64);
    extend_str(out, FLOOR_TAB_1);
    push_decimal(out, floor as u64);
    extend_str(out, FLOOR_TAB_2);
    if active {
        extend_str(out, "active");
    } else {
        extend_str(out, "");
    }
    extend_str(out, FLOOR_TAB_3);
    if active {
        extend_str(out, "background: #4c7dff; color: #fff;");
    } else {
        extend_str(out, "background: #2a3140; color: #c7d1e0;");
    }
    extend_str(out, FLOOR_TAB_4);
    extend_str(out, word);
    extend_str(out, FLOOR_TAB_5);
    push_decimal(out, floor as u64);
    extend_str(out, FLOOR_TAB_6);
    assert(final(out)@ =~= old(out)@ + floor_tab(id, floor as nat, selected, word@));
}

pub fn render_floor_tabs(id: u32, max_stage: u32, selected: u32, waves: &str, floor_word: &str) -> (r: String)
    ensures
        r@ == spec_floor_tabs(id, max_stage, selected, waves@, floor_word@),
{
    let word = if max_stage == 5 {
        waves
    } else {
        floor_word
    };
    let mut out: Vec<char> = Vec::new();
    let mut f: u32 = 0;
    while f < max_stage
        invariant
            f <= max_stage,
            word@ == if max_stage == 5 { waves@ } else { floor_word@ },
            out@ == floor_tabs_upto(id, selected, word@, f as nat),
        decreases max_stage - f,
    {
        f = f + 1;
        push_floor_tab(&mut out, id, f, selected, word);
    }
    string_of(&out)
}

} // verus!

verus! {

/// The layer buffs of a Deadly Assault zone: one box per description that is
/// not empty once cleaned.
pub open spec fn layer_buffs_upto(descs: Seq<String>, n: nat) -> Seq<char>
    decreases n,
{
    if n == 0 {
        Seq::empty()
    } else {
        layer_buffs_upto(descs, (n - 1) as nat) + (if spec_clean_rich_text(descs[n - 1]@).len() == 0 {
            Seq::empty()
        } else {
            LAYER_BUFF_0@ + spec_render_rich_text(descs[n - 1]@) + LAYER_BUFF_1@
        })
    }
}

/// The layer buff section of a Deadly Assault boss card, none where no
/// layer buff shows.
pub open spec fn spec_layer_buffs_section(label: Seq<char>, descs: Seq<String>) -> Seq<char> {
    wrapped_card(LAYER_BUFFS_0@, label, LAYER_BUFFS_1@, layer_buffs_upto(descs, descs.len()), LAYER_BUFFS_2@)
}

fn layer_buffs_section(label: &str, descs: &Vec<String>) -> (r: Vec<char>)
    ensures
        r@ == spec_layer_buffs_section(label@, descs@),
{
    let mut items: Vec<char> = Vec::new();
    let mut i: usize = 0;
    while i < descs.len()
        invariant
            i <= descs@.len(),
            items@ == layer_buffs_upto(descs@, i as nat),
        decreases descs.len() - i,
    {
        let d = descs[i].as_str();
        let clean = clean_rich_text(d);
        if !clean.as_str().is_empty() {
            let rich = render_rich_text(d);
            extend_str(&mut items, LAYER_BUFF_0);
            extend_str(&mut items, rich.as_str());
            extend_str(&mut items, LAYER_BUFF_1);
        }
        i = i + 1;
        assert(items@ =~= layer_buffs_upto(descs@, i as nat));
    }
    let mut out: Vec<char> = Vec::new();
    push_wrapped_card(&mut out, LAYER_BUFFS_0, label, LAYER_BUFFS_1, &items, LAYER_BUFFS_2);
    out
}

/// A boss of a Deadly Assault zone in the dumps.
pub struct DaMonster {
    pub name: Option<String>,
    /// Its image path, empty where it has none.
    pub image: String,
    /// Its HP, base HP, ATK, DEF and Daze as the page writes them.
    pub hp: String,
    pub base_hp: String,
    pub atk: String,
    pub def: String,
    pub stun: String,
    /// The elements it resists.
    pub resistance: Vec<String>,
}

/// A zone of a Deadly Assault in the dumps.
pub struct DaZone {
    pub selectable_buffs: Vec<BuffRecord>,
    /// The descriptions of its layer buffs (empty where a buff has none).
    pub layer_buffs: Vec<String>,
    /// The elements its bosses are weak to.
    pub weakness: Vec<String>,
    pub monsters: Vec<DaMonster>,
}

/// The translated words of the Deadly Assault page.
pub struct DaLabels {
    pub unknown: String,
    pub hp: String,
    pub base_hp: String,
    pub atk: String,
    pub def: String,
    pub stun: String,
    pub weakness: String,
    pub resistance: String,
    pub layer_buffs: String,
    pub selectable_buffs: String,
    pub buff: String,
    pub no_description: String,
}

/// The boss's picture on the Deadly Assault page.
pub open spec fn da_image_html(image: Seq<char>, name: Seq<char>) -> Seq<char> {
    if image.len() == 0 {
        Seq::empty()
    } else {
        DA_BOSS_IMAGE_0@ + spec_boss_image_base_name(image) + DA_BOSS_IMAGE_1@ + name + DA_BOSS_IMAGE_2@
    }
}

pub open spec fn da_stats_html(l: DaLabels, m: DaMonster) -> Seq<char> {
    DA_BOSS_CARD_1@ + l.hp@ + DA_BOSS_CARD_2@ + m.hp@ + DA_BOSS_CARD_3@ + l.base_hp@ + DA_BOSS_CARD_4@ + m.base_hp@
        + DA_BOSS_CARD_5@ + l.atk@ + DA_BOSS_CARD_6@ + m.atk@ + DA_BOSS_CARD_7@ + l.def@ + DA_BOSS_CARD_8@ + m.def@
        + DA_BOSS_CARD_9@ + l.stun@ + DA_BOSS_CARD_10@ + m.stun@ + DA_BOSS_CARD_11@
}

/// The card of a Deadly Assault boss: its name, its stats, the elements it
/// is weak and resistant to, its zone's layer buffs and its picture.
pub open spec fn spec_da_boss_card(l: DaLabels, m: DaMonster, weakness: Seq<String>, layer_section: Seq<char>, locale: Locale) -> Seq<char> {
    let name = or_default(m.name, l.unknown@);
    DA_BOSS_CARD_0@ + name + da_stats_html(l, m) + badge_row(
        WEAKNESS_OPEN@,
        l.weakness@,
        spec_element_badges(strings_view(weakness), locale),
    ) + DA_BOSS_CARD_12@ + badge_row(RESISTANCE_OPEN@, l.resistance@, spec_element_badges(strings_view(m.resistance@), locale))
        + DA_BOSS_CARD_13@ + layer_section + DA_BOSS_CARD_14@ + da_image_html(m.image@, name) + DA_BOSS_CARD_15@
}

fn push_da_stats(out: &mut Vec<char>, l: &DaLabels, m: &DaMonster)
    ensures
        final(out)@ == old(out)@ + da_stats_html(*l, *m),
{
    extend_str(out, DA_BOSS_CARD_1);
    extend_str(out, l.hp.as_str());
    extend_str(out, DA_BOSS_CARD_2);
    extend_str(out, m.hp.as_str());
    extend_str(out, DA_BOSS_CARD_3);
    extend_str(out, l.base_hp.as_str());
    extend_str(out, DA_BOSS_CARD_4);
    extend_str(out, m.base_hp.as_str());
    extend_str(out, DA_BOSS_CARD_5);
    extend_str(out, l.atk.as_str());
    extend_str(out, DA_BOSS_CARD_6);
    extend_str(out, m.atk.as_str());
    extend_str(out, DA_BOSS_CARD_7);
    extend_str(out, l.def.as_str());
    extend_str(out, DA_BOSS_CARD_8);
    extend_str(out, m.def.as_str());
    extend_str(out, DA_BOSS_CARD_9);
    extend_str(out, l.stun.as_str());
    extend_str(out, DA_BOSS_CARD_10);
    extend_str(out, m.stun.as_str());
    extend_str(out, DA_BOSS_CARD_11);
    assert(final(out)@ =~= old(out)@ + da_stats_html(*l, *m));
}

fn push_da_image(out: &mut Vec<char>, image: &str, name: &Vec<char>)
    ensures
        final(out)@ == old(out)@ + da_image_html(image@, name@),
{
    if !image.is_empty() {
        let base = boss_image_base_name(image);
        extend_str(out, DA_BOSS_IMAGE_0);
        extend_str(out, base.as_str());
        extend_str(out, DA_BOSS_IMAGE_1);
        extend_chars(out, name);
        extend_str(out, DA_BOSS_IMAGE_2);
    }
    assert(final(out)@ =~= old(out)@ + da_image_html(image@, name@));
}

fn push_da_boss_card(out: &mut Vec<char>, l: &DaLabels, m: &DaMonster, weakness: &Vec<String>, layer_section: &Vec<char>, locale: Locale)
    ensures
        final(out)@ == old(out)@ + spec_da_boss_card(*l, *m, weakness@, layer_section@, locale),
{
    let name = opt_or(&m.name, l.unknown.as_str());
    let weak = element_badges(weakness, locale);
    let resist = element_badges(&m.resistance, locale);
    extend_str(out, DA_BOSS_CARD_0);
    extend_chars(out, &name);
    push_da_stats(out, l, m);
    push_badge_row(out, WEAKNESS_OPEN, l.weakness.as_str(), weak.as_str());
    extend_str(out, DA_BOSS_CARD_12);
    push_badge_row(out, RESISTANCE_OPEN, l.resistance.as_str(), resist.as_str());
    extend_str(out, DA_BOSS_CARD_13);
    extend_chars(out, layer_section);
    extend_str(out, DA_BOSS_CARD_14);
    push_da_image(out, m.image.as_str(), &name);
    extend_str(out, DA_BOSS_CARD_15);
    assert(final(out)@ =~= old(out)@ + spec_da_boss_card(*l, *m, weakness@, layer_section@, locale));
}

pub open spec fn da_boss_cards_upto(l: DaLabels, monsters: Seq<DaMonster>, weakness: Seq<String>, section: Seq<char>, locale: Locale, n: nat) -> Seq<char>
    decreases n,
{
    if n == 0 {
        Seq::empty()
    } else {
        da_boss_cards_upto(l, monsters, weakness, section, locale, (n - 1) as nat) + spec_da_boss_card(
            l,
            monsters[n - 1],
            weakness,
            section,
            locale,
        )
    }
}

/// The selectable buffs card of a Deadly Assault: the first three buffs of
/// a zone, none where no buff shows.
pub open spec fn da_selectable_card(l: DaLabels, buffs: Seq<BuffRecord>) -> Seq<char> {
    wrapped_card(
        DA_BUFFS_CARD_0@,
        l.selectable_buffs@,
        DA_BUFFS_CARD_1@,
        spec_buff_items(true, buffs, 3, l.buff@, l.no_description@),
        DA_BUFFS_CARD_2@,
    )
}

/// The buff cards and the boss cards of the first `n` zones: every zone's
/// bosses, with the zone's layer buffs; the selectable buffs of the first
/// zone that has some, where that zone shows a buff, else of the next.
pub open spec fn da_cards_upto(l: DaLabels, zones: Seq<DaZone>, locale: Locale, n: nat) -> (Seq<char>, Seq<char>)
    decreases n,
{
    if n == 0 {
        (Seq::empty(), Seq::empty())
    } else {
        let prev = da_cards_upto(l, zones, locale, (n - 1) as nat);
        let z = zones[n - 1];
        let section = spec_layer_buffs_section(l.layer_buffs@, z.layer_buffs@);
        let bosses = prev.1 + da_boss_cards_upto(l, z.monsters@, z.weakness@, section, locale, z.monsters@.len());
        let buffs = if prev.0.len() == 0 && z.selectable_buffs@.len() > 0 {
            prev.0 + da_selectable_card(l, z.selectable_buffs@)
        } else {
            prev.0
        };
        (buffs, bosses)
    }
}

/// The buff cards and the boss cards of a Deadly Assault's page.
pub fn render_da_cards(l: &DaLabels, zones: &Vec<DaZone>, locale: Locale) -> (r: (String, String))
    ensures
        r.0@ == da_cards_upto(*l, zones@, locale, zones@.len()).0,
        r.1@ == da_cards_upto(*l, zones@, locale, zones@.len()).1,
{
    let mut buffs: Vec<char> = Vec::new();
    let mut bosses: Vec<char> = Vec::new();
    let mut i: usize = 0;
    while i < zones.len()
        invariant
            i <= zones@.len(),
            buffs@ == da_cards_upto(*l, zones@, locale, i as nat).0,
            bosses@ == da_cards_upto(*l, zones@, locale, i as nat).1,
        decreases zones.len() - i,
    {
        let z = &zones[i];
        let section = layer_buffs_section(l.layer_buffs.as_str(), &z.layer_buffs);
        let ghost before = bosses@;
        let mut k: usize = 0;
        while k < z.monsters.len()
            invariant
                k <= z.monsters@.len(),
                bosses@ == before + da_boss_cards_upto(*l, z.monsters@, z.weakness@, section@, locale, k as nat),
            decreases z.monsters.len() - k,
        {
            push_da_boss_card(&mut bosses, l, &z.monsters[k], &z.weakness, &section, locale);
            k = k + 1;
            assert(bosses@ =~= before + da_boss_cards_upto(*l, z.monsters@, z.weakness@, section@, locale, k as nat));
        }
        if buffs.len() == 0 && z.selectable_buffs.len() > 0 {
            let items = buff_items(true, &z.selectable_buffs, 3, l.buff.as_str(), l.no_description.as_str());
            push_wrapped_card(
                &mut buffs,
                DA_BUFFS_CARD_0,
                l.selectable_buffs.as_str(),
                DA_BUFFS_CARD_1,
                &items,
                DA_BUFFS_CARD_2,
            );
        }
        i = i + 1;
    }
    (string_of(&buffs), string_of(&bosses))
}

} // verus!

verus! {

/// A boss of a Shiyu zone in the dumps.
pub struct ShiyuMonster {
    pub name: Option<String>,
    /// Its image path, empty where it has none.
    pub image: String,
    pub stats: MonsterStats,
    /// The elements it resists.
    pub resistance: Vec<String>,
}

/// A zone of a Shiyu floor in the dumps: the elements its bosses are weak
/// to and its bosses, room by room.
pub struct ShiyuFightZone {
    pub weakness: Vec<String>,
    pub monsters: Vec<ShiyuMonster>,
}

pub open spec fn monster_cards_upto(l: MonsterCardLabels, unknown: Seq<char>, ms: Seq<ShiyuMonster>, weakness: Seq<String>, locale: Locale, n: nat) -> Seq<char>
    decreases n,
{
    if n == 0 {
        Seq::empty()
    } else {
        let m = ms[n - 1];
        monster_cards_upto(l, unknown, ms, weakness, locale, (n - 1) as nat) + spec_monster_card(
            l,
            or_default(m.name, unknown),
            m.image@,
            m.stats,
            strings_view(weakness),
            strings_view(m.resistance@),
            locale,
        )
    }
}

/// The boss cards of the first `n` zones of a Shiyu floor, in order.
pub open spec fn fight_cards_upto(l: MonsterCardLabels, unknown: Seq<char>, zones: Seq<ShiyuFightZone>, locale: Locale, n: nat) -> Seq<char>
    decreases n,
{
    if n == 0 {
        Seq::empty()
    } else {
        let z = zones[n - 1];
        fight_cards_upto(l, unknown, zones, locale, (n - 1) as nat) + monster_cards_upto(
            l,
            unknown,
            z.monsters@,
            z.weakness@,
            locale,
            z.monsters@.len(),
        )
    }
}

/// The boss cards of a Shiyu floor; `unknown` names a boss without a name.
pub fn render_shiyu_fight_cards(l: &MonsterCardLabels, unknown: &str, zones: &Vec<ShiyuFightZone>, locale: Locale) -> (r: String)
    ensures
        r@ == fight_cards_upto(*l, unknown@, zones@, locale, zones@.len()),
{
    let mut out: Vec<char> = Vec::new();
    let mut i: usize = 0;
    while i < zones.len()
        invariant
            i <= zones@.len(),
            out@ == fight_cards_upto(*l, unknown@, zones@, locale, i as nat),
        decreases zones.len() - i,
    {
        let z = &zones[i];
        let ghost before = out@;
        let mut k: usize = 0;
        while k < z.monsters.len()
            invariant
                k <= z.monsters@.len(),
                out@ == before + monster_cards_upto(*l, unknown@, z.monsters@, z.weakness@, locale, k as nat),
            decreases z.monsters.len() - k,
        {
            let m = &z.monsters[k];
            let name = string_of(&opt_or(&m.name, unknown));
            let card = render_monster_card(l, name.as_str(), m.image.as_str(), &m.stats, &z.weakness, &m.resistance, locale);
            extend_str(&mut out, card.as_str());
            k = k + 1;
            assert(out@ =~= before + monster_cards_upto(*l, unknown@, z.monsters@, z.weakness@, locale, k as nat));
        }
        i = i + 1;
    }
    string_of(&out)
}

pub const DA_PAGE_0: &'static str = "<!doctype html>\n<html lang=\"";

pub const DA_PAGE_1: &'static str = "\">\n<head>\n  <meta charset=\"utf-8\" />\n  <meta name=\"viewport\" content=\"width=device-width, initial-scale=1\" />\n  <title>";

pub const DA_PAGE_2: &'static str = " - Gear Editor</title>\n  <style>\n    body { font-family: system-ui, sans-serif; margin: 0; background: #0f1115; color: #e6e6e6; }\n        header { padding: 16px 24px; display: flex; justify-content: space-between; align-items: center; gap: 12px; background: #151a24; }\n    .back { padding: 8px 12px; border-radius: 8px; background: #4c7dff; color: #fff; text-decoration: none; font-weight: 600; }\n    .container { padding: 20px 24px 40px; }\n    h1 { margin: 0 0 20px 0; font-size: 28px; }\n    .cards { display: grid; grid-template-columns: 1fr; gap: 16px; }\n    .card { background: #1b1f2a; padding: 16px; border-radius: 12px; border: 1px solid #232a38; }\n    .card h3 { margin: 0 0 12px 0; font-size: 18px; }\n    .meta { color: #9aa4b2; font-size: 12px; }\n        .cards .card img { display: block; }\n        .cards .card img { max-width: 100%; height: auto; }\n        .cards .card > div:first-child { min-width: 0; }\n        @media (max-width: 768px) {\n            header { padding: 12px 14px; flex-direction: column; align-items: stretch; }\n            header > a, header > form { width: 100%; box-sizing: border-box; }\n            header > a { align-self: stretch; text-align: center; }\n            header > form button { width: 100%; box-sizing: border-box; }\n            .container { padding: 14px; }\n            h1 { font-size: 22px; }\n            .card { padding: 12px; }\n            .cards .card { flex-direction: column; align-items: stretch; }\n            .cards .card img { width: min(100%, 320px); max-width: 100%; height: auto; margin: 0 auto; }\n            .cards .card img.boss-inline-thumb { width: min(100%, 320px) !important; max-width: 100% !important; height: auto !important; margin: 0 auto; }\n        }\n  </style>\n</head>\n<body>\n<header>\n  <a href=\"/dashboard?tab=status\" class=\"back\">";

pub const DA_PAGE_3: &'static str = "</a>\n</header>\n<div class=\"container\">\n  <h1>";

pub const DA_PAGE_4: &'static str = " ";

pub const DA_PAGE_5: &'static str = " ";

pub const DA_PAGE_6: &'static str = "</h1>\n  <div class=\"cards\">\n    ";

pub const DA_PAGE_7: &'static str = "\n    ";

pub const DA_PAGE_8: &'static str = "\n  </div>\n</div>\n</body>\n</html>";

/// What the Deadly Assault page shows.
pub struct DaPage {
    pub lang: String,
    pub name: String,
    pub back_label: String,
    pub id_label: String,
    pub id: u32,
    pub buff_cards: String,
    pub boss_cards: String,
}

pub open spec fn da_page_part_0(p: DaPage) -> Seq<char> {
    DA_PAGE_0@ + p.lang@ + DA_PAGE_1@ + p.name@ + DA_PAGE_2@ + p.back_label@
}

fn push_da_page_part_0(out: &mut Vec<char>, p: &DaPage)
    ensures
        final(out)@ == old(out)@ + da_page_part_0(*p),
{
    extend_str(out, DA_PAGE_0);
    extend_str(out, p.lang.as_str());
    extend_str(out, DA_PAGE_1);
    extend_str(out, p.name.as_str());
    extend_str(out, DA_PAGE_2);
    extend_str(out, p.back_label.as_str());
    assert(final(out)@ =~= old(out)@ + da_page_part_0(*p));
}

pub open spec fn da_page_part_1(p: DaPage) -> Seq<char> {
    DA_PAGE_3@ + p.name@ + DA_PAGE_4@ + p.id_label@ + DA_PAGE_5@ + decimal(p.id as nat)
}

fn push_da_page_part_1(out: &mut Vec<char>, p: &DaPage)
    ensures
        final(out)@ == old(out)@ + da_page_part_1(*p),
{
    extend_str(out, DA_PAGE_3);
    extend_str(out, p.name.as_str());
    extend_str(out, DA_PAGE_4);
    extend_str(out, p.id_label.as_str());
    extend_str(out, DA_PAGE_5);
    push_decimal(out, p.id as u64);
    assert(final(out)@ =~= old(out)@ + da_page_part_1(*p));
}

pub open spec fn da_page_part_2(p: DaPage) -> Seq<char> {
    DA_PAGE_6@ + p.buff_cards@ + DA_PAGE_7@ + p.boss_cards@ + DA_PAGE_8@
}

fn push_da_page_part_2(out: &mut Vec<char>, p: &DaPage)
    ensures
        final(out)@ == old(out)@ + da_page_part_2(*p),
{
    extend_str(out, DA_PAGE_6);
    extend_str(out, p.buff_cards.as_str());
    extend_str(out, DA_PAGE_7);
    extend_str(out, p.boss_cards.as_str());
    extend_str(out, DA_PAGE_8);
    assert(final(out)@ =~= old(out)@ + da_page_part_2(*p));
}

/// The Deadly Assault page: its name and id, a link back to the status tab, the selectable buffs card and the boss cards.
pub open spec fn spec_da_page(p: DaPage) -> Seq<char> {
    da_page_part_0(p) + da_page_part_1(p) + da_page_part_2(p)
}

pub fn render_da_page(p: &DaPage) -> (r: String)
    ensures
        r@ == spec_da_page(*p),
{
    let mut out: Vec<char> = Vec::new();
    push_da_page_part_0(&mut out, p);
    push_da_page_part_1(&mut out, p);
    push_da_page_part_2(&mut out, p);
    assert(out@ =~= spec_da_page(*p));
    string_of(&out)
}

pub const SHIYU_PAGE_0: &'static str = "<!doctype html>\n<html lang=\"";

pub const SHIYU_PAGE_1: &'static str = "\">\n<head>\n  <meta charset=\"utf-8\" />\n  <meta name=\"viewport\" content=\"width=device-width, initial-scale=1\" />\n  <title>";

pub const SHIYU_PAGE_2: &'static str = " - Gear Editor</title>\n  <style>\n    body { font-family: system-ui, sans-serif; margin: 0; background: #0f1115; color: #e6e6e6; }\n        header { padding: 16px 24px; display: flex; justify-content: space-between; align-items: center; gap: 12px; background: #151a24; }\n    .back { padding: 8px 12px; border-radius: 8px; background: #4c7dff; color: #fff; text-decoration: none; font-weight: 600; }\n    .container { padding: 20px 24px 40px; }\n    h1 { margin: 0 0 8px 0; font-size: 28px; }\n    .tabs { display: flex; flex-wrap: wrap; gap: 8px; margin-bottom: 20px; }\n    .tabs a { padding: 8px 12px; border-radius: 8px; text-decoration: none; color: #c7d1e0; }\n        .meta { color: #9aa4b2; font-size: 12px; }\n    .card { background: #1b1f2a; padding: 16px; border-radius: 12px; border: 1px solid #232a38; }\n        .card h3 { margin: 0 0 12px 0; font-size: 18px; }\n        .cards .card img { max-width: 100%; height: auto; }\n        .cards .card > div:first-child { min-width: 0; }\n        @media (max-width: 768px) {\n            header { padding: 12px 14px; flex-direction: column; align-items: stretch; }\n            header > a, header > form { width: 100%; box-sizing: border-box; }\n            .container { padding: 14px; }\n            h1 { font-size: 22px; }\n            .tabs { flex-direction: column; }\n            .card { padding: 12px; }\n            .cards .card { flex-direction: column; align-items: stretch; }\n            .cards .card img { width: min(100%, 320px); max-width: 100%; height: auto; margin: 0 auto; }\n            .cards .card img.boss-inline-thumb { width: min(100%, 320px) !important; max-width: 100% !important; height: auto !important; margin: 0 auto; }\n        }\n  </style>\n</head>\n<body>\n<header>\n  <a href=\"/dashboard?tab=status\" class=\"back\">";

pub const SHIYU_PAGE_3: &'static str = "</a>\n</header>\n<div class=\"container\">\n  <h1>";

pub const SHIYU_PAGE_4: &'static str = "</h1>\n  <div class=\"meta\">";

pub const SHIYU_PAGE_5: &'static str = " ";

pub const SHIYU_PAGE_6: &'static str = "</div>\n  <div class=\"tabs\">\n    ";

pub const SHIYU_PAGE_7: &'static str = "\n  </div>\n  ";

pub const SHIYU_PAGE_8: &'static str = "\n  ";

pub const SHIYU_PAGE_9: &'static str = "\n</div>\n</body>\n</html>";

/// What the Shiyu page shows.
pub struct ShiyuPage {
    pub lang: String,
    pub name: String,
    pub back_label: String,
    pub id: u32,
    pub boss_names: String,
    pub floor_tabs: String,
    pub buff_card: String,
    pub fight_card: String,
}

pub open spec fn shiyu_page_part_0(p: ShiyuPage) -> Seq<char> {
    SHIYU_PAGE_0@ + p.lang@ + SHIYU_PAGE_1@ + p.name@ + SHIYU_PAGE_2@ + p.back_label@
}

fn push_shiyu_page_part_0(out: &mut Vec<char>, p: &ShiyuPage)
    ensures
        final(out)@ == old(out)@ + shiyu_page_part_0(*p),
{
    extend_str(out, SHIYU_PAGE_0);
    extend_str(out, p.lang.as_str());
    extend_str(out, SHIYU_PAGE_1);
    extend_str(out, p.name.as_str());
    extend_str(out, SHIYU_PAGE_2);
    extend_str(out, p.back_label.as_str());
    assert(final(out)@ =~= old(out)@ + shiyu_page_part_0(*p));
}

pub open spec fn shiyu_page_part_1(p: ShiyuPage) -> Seq<char> {
    SHIYU_PAGE_3@ + p.name@ + SHIYU_PAGE_4@ + decimal(p.id as nat) + SHIYU_PAGE_5@ + p.boss_names@
}

fn push_shiyu_page_part_1(out: &mut Vec<char>, p: &ShiyuPage)
    ensures
        final(out)@ == old(out)@ + shiyu_page_part_1(*p),
{
    extend_str(out, SHIYU_PAGE_3);
    extend_str(out, p.name.as_str());
    extend_str(out, SHIYU_PAGE_4);
    push_decimal(out, p.id as u64);
    extend_str(out, SHIYU_PAGE_5);
    extend_str(out, p.boss_names.as_str());
    assert(final(out)@ =~= old(out)@ + shiyu_page_part_1(*p));
}

pub open spec fn shiyu_page_part_2(p: ShiyuPage) -> Seq<char> {
    SHIYU_PAGE_6@ + p.floor_tabs@ + SHIYU_PAGE_7@ + p.buff_card@ + SHIYU_PAGE_8@ + p.fight_card@
}

fn push_shiyu_page_part_2(out: &mut Vec<char>, p: &ShiyuPage)
    ensures
        final(out)@ == old(out)@ + shiyu_page_part_2(*p),
{
    extend_str(out, SHIYU_PAGE_6);
    extend_str(out, p.floor_tabs.as_str());
    extend_str(out, SHIYU_PAGE_7);
    extend_str(out, p.buff_card.as_str());
    extend_str(out, SHIYU_PAGE_8);
    extend_str(out, p.fight_card.as_str());
    assert(final(out)@ =~= old(out)@ + shiyu_page_part_2(*p));
}

pub open spec fn shiyu_page_part_3(p: ShiyuPage) -> Seq<char> {
    SHIYU_PAGE_9@
}

fn push_shiyu_page_part_3(out: &mut Vec<char>, p: &ShiyuPage)
    ensures
        final(out)@ == old(out)@ + shiyu_page_part_3(*p),
{
    extend_str(out, SHIYU_PAGE_9);
    assert(final(out)@ =~= old(out)@ + shiyu_page_part_3(*p));
}

/// The Shiyu page: its name, id and the names of the bosses of the floor, the floor tabs, the buffs card and the fight card.
pub open spec fn spec_shiyu_page(p: ShiyuPage) -> Seq<char> {
    shiyu_page_part_0(p) + shiyu_page_part_1(p) + shiyu_page_part_2(p) + shiyu_page_part_3(p)
}

pub fn render_shiyu_page(p: &ShiyuPage) -> (r: String)
    ensures
        r@ == spec_shiyu_page(*p),
{
    let mut out: Vec<char> = Vec::new();
    push_shiyu_page_part_0(&mut out, p);
    push_shiyu_page_part_1(&mut out, p);
    push_shiyu_page_part_2(&mut out, p);
    push_shiyu_page_part_3(&mut out, p);
    assert(out@ =~= spec_shiyu_page(*p));
    string_of(&out)
}

} // verus!

verus! {

pub const STATUS_PANEL_0: &'static str = "<div class=\"panel\" style=\"display:block;\">\n            <h3 style=\"text-align:center; font-size:16px; margin-bottom:16px;\">";

pub const STATUS_PANEL_1: &'static str = " ";

pub const STATUS_PANEL_2: &'static str = "</h3>\n            <div class=\"cards\">";

pub const STATUS_PANEL_5: &'static str = "</div>\n        </div>";

/// What the status tab shows.
pub struct StatusPanel {
    pub server_label: String,
    pub server: u32,
    pub shiyu_card: String,
    pub da_card: String,
    pub da_hard_card: String,
}

pub open spec fn status_panel_part_0(p: StatusPanel) -> Seq<char> {
    STATUS_PANEL_0@ + p.server_label@ + STATUS_PANEL_1@ + decimal(p.server as nat) + STATUS_PANEL_2@ + p.shiyu_card@
}

fn push_status_panel_part_0(out: &mut Vec<char>, p: &StatusPanel)
    ensures
        final(out)@ == old(out)@ + status_panel_part_0(*p),
{
    extend_str(out, STATUS_PANEL_0);
    extend_str(out, p.server_label.as_str());
    extend_str(out, STATUS_PANEL_1);
    push_decimal(out, p.server as u64);
    extend_str(out, STATUS_PANEL_2);
    extend_str(out, p.shiyu_card.as_str());
    assert(final(out)@ =~= old(out)@ + status_panel_part_0(*p));
}

pub open spec fn status_panel_part_1(p: StatusPanel) -> Seq<char> {
    p.da_card@ + p.da_hard_card@ + STATUS_PANEL_5@
}

fn push_status_panel_part_1(out: &mut Vec<char>, p: &StatusPanel)
    ensures
        final(out)@ == old(out)@ + status_panel_part_1(*p),
{
    extend_str(out, p.da_card.as_str());
    extend_str(out, p.da_hard_card.as_str());
    extend_str(out, STATUS_PANEL_5);
    assert(final(out)@ =~= old(out)@ + status_panel_part_1(*p));
}

/// The status tab: the server number and the cards of the scheduled Shiyu, Deadly Assault and hardcore Deadly Assault.
pub open spec fn spec_status_panel(p: StatusPanel) -> Seq<char> {
    status_panel_part_0(p) + status_panel_part_1(p)
}

pub fn render_status_panel(p: &StatusPanel) -> (r: String)
    ensures
        r@ == spec_status_panel(*p),
{
    let mut out: Vec<char> = Vec::new();
    push_status_panel_part_0(&mut out, p);
    push_status_panel_part_1(&mut out, p);
    assert(out@ =~= spec_status_panel(*p));
    string_of(&out)
}

} // verus!
