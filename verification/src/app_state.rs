use vstd::prelude::*;
use crate::text::{
    chars_eq, chars_eq_ignore_ascii_case, chars_of, decimal, eq_ignore_ascii_case, extend_chars,
    extend_str, find_char, has_prefix, parse_u32_chars, push_decimal, rfind_char, rsplit_once,
    spec_find_char, spec_parse_u32, spec_rfind_char, spec_rsplit_once, spec_split_once,
    split_once, starts_with, string_of, strip_prefix_chars, strip_prefix_chars_exec,
    strip_prefixes, strip_prefixes_chars, strip_suffix_chars, strip_suffix_chars_exec, sub_chars,
    trim, trim_chars, trim_start, trim_start_chars,
};

verus! {

/// The panel's interface languages.
#[derive(Clone, Copy, PartialEq, Eq, Debug, Structural)]
pub enum Locale {
    Ru,
    En,
    Zh,
    Ko,
    Ja,
}

pub open spec fn spec_locale_code(l: Locale) -> Seq<char> {
    match l {
        Locale::Ru => "ru"@,
        Locale::En => "en"@,
        Locale::Zh => "zh"@,
        Locale::Ko => "ko"@,
        Locale::Ja => "ja"@,
    }
}

impl Locale {
    /// The language code, which names the dump sub-directory.
    pub fn code(&self) -> (c: &'static str)
        ensures
            c@ == spec_locale_code(*self),
    {
        match self {
            Locale::Ru => "ru",
            Locale::En => "en",
            Locale::Zh => "zh",
            Locale::Ko => "ko",
            Locale::Ja => "ja",
        }
    }
}

/// `Path::join` on Unix: an absolute `rel` replaces `base`; otherwise a `/`
/// separates them unless `base` is empty or already ends with one.
pub open spec fn path_join(base: Seq<char>, rel: Seq<char>) -> Seq<char> {
    if rel.len() > 0 && rel[0] == '/' {
        rel
    } else if base.len() == 0 || base.last() == '/' {
        base + rel
    } else {
        base + seq!['/'] + rel
    }
}

pub fn join_path(base: &Vec<char>, rel: &Vec<char>) -> (r: Vec<char>)
    ensures
        r@ == path_join(base@, rel@),
{
    if rel.len() > 0 && rel[0] == '/' {
        return sub_chars(rel, 0, rel.len());
    }
    let mut r = sub_chars(base, 0, base.len());
    assert(base@.subrange(0, base@.len() as int) =~= base@);
    assert(rel@.subrange(0, rel@.len() as int) =~= rel@);
    if !(base.len() == 0 || base[base.len() - 1] == '/') {
        r.push('/');
    }
    extend_chars(&mut r, rel);
    r
}

/// Directories and ctl addresses the panel works with; paths are plain strings.
#[derive(Clone, Debug)]
pub struct AppState {
    /// Base dir for beta per-server saves.
    pub state_dir: String,
    /// Base dir for prod per-server saves.
    pub prod_state_dir: String,
    pub asset_dir: String,
    pub prod_asset_dir: String,
    /// Data dump dir for beta.
    pub dump_dir: String,
    /// Data dump dir for prod.
    pub live_dump_dir: String,
    pub root_dir: String,
    /// Base beta ctl address (server 1).
    pub ctl_addr: String,
    /// Base prod ctl address (server 1).
    pub prod_ctl_addr: String,
    pub passwd_path: String,
    /// base_player_uid of the selected server.
    pub base_player_uid: u32,
}

/// A selected server: environment and server number.
#[derive(Clone, Copy, PartialEq, Eq, Debug, Structural)]
pub struct ServerSelection {
    pub is_prod: bool,
    pub server_num: u32,
}

pub open spec fn spec_label(sel: ServerSelection) -> Seq<char> {
    (if sel.is_prod {
        "Prod "@
    } else {
        "Beta "@
    }) + decimal(sel.server_num as nat)
}

pub open spec fn spec_cookie_value(sel: ServerSelection) -> Seq<char> {
    (if sel.is_prod {
        "prod:"@
    } else {
        "beta:"@
    }) + decimal(sel.server_num as nat)
}

impl ServerSelection {
    /// Display label, e.g. "Beta 1".
    pub fn label(&self) -> (s: String)
        ensures
            s@ == spec_label(*self),
    {
        let mut v: Vec<char> = Vec::new();
        if self.is_prod {
            extend_str(&mut v, "Prod ");
        } else {
            extend_str(&mut v, "Beta ");
        }
        push_decimal(&mut v, self.server_num as u64);
        string_of(&v)
    }

    /// Value of the `gear_server` cookie, e.g. "prod:3".
    pub fn cookie_value(&self) -> (s: String)
        ensures
            s@ == spec_cookie_value(*self),
    {
        let mut v: Vec<char> = Vec::new();
        if self.is_prod {
            extend_str(&mut v, "prod:");
        } else {
            extend_str(&mut v, "beta:");
        }
        push_decimal(&mut v, self.server_num as u64);
        string_of(&v)
    }
}

pub open spec fn spec_server_state_dir(base: Seq<char>, server_num: u32) -> Seq<char> {
    path_join(path_join(base, "server"@ + decimal(server_num as nat)), "Persistent/LocalStorage"@)
}

/// The port a ctl address names, or 0 when it does not parse.
pub open spec fn port_or_zero(port: Seq<char>) -> int {
    match spec_parse_u32(port) {
        Some(p) => p as int,
        None => 0,
    }
}

/// Whether the ctl port of server `server_num` fits a u32.
pub open spec fn ctl_port_in_range(base: Seq<char>, server_num: u32) -> bool {
    match spec_rsplit_once(base, ':') {
        Some((host, port)) => 1 <= port_or_zero(port) + server_num <= u32::MAX as int,
        None => true,
    }
}

/// Server N listens on the base port + N - 1; an address without a port is used as is.
pub open spec fn spec_server_ctl_addr(base: Seq<char>, server_num: u32) -> Seq<char> {
    match spec_rsplit_once(base, ':') {
        Some((host, port)) => host + seq![':'] + decimal((port_or_zero(port) + server_num - 1) as nat),
        None => base,
    }
}

impl AppState {
    /// The dump directory of a language.
    pub fn dump_lang_dir(&self, locale: Locale) -> (p: String)
        ensures
            p@ == path_join(self.dump_dir@, spec_locale_code(locale)),
    {
        let base = chars_of(self.dump_dir.as_str());
        let code = chars_of(locale.code());
        string_of(&join_path(&base, &code))
    }

    /// The save directory of one server.
    pub fn server_state_dir(&self, is_prod: bool, server_num: u32) -> (p: String)
        ensures
            p@ == spec_server_state_dir(
                if is_prod {
                    self.prod_state_dir@
                } else {
                    self.state_dir@
                },
                server_num,
            ),
    {
        let base = if is_prod {
            chars_of(self.prod_state_dir.as_str())
        } else {
            chars_of(self.state_dir.as_str())
        };
        let mut server: Vec<char> = Vec::new();
        extend_str(&mut server, "server");
        push_decimal(&mut server, server_num as u64);
        let dir = join_path(&base, &server);
        let tail = chars_of("Persistent/LocalStorage");
        string_of(&join_path(&dir, &tail))
    }

    /// The ctl address of one server.
    pub fn server_ctl_addr(&self, is_prod: bool, server_num: u32) -> (a: String)
        requires
            ctl_port_in_range(
                if is_prod {
                    self.prod_ctl_addr@
                } else {
                    self.ctl_addr@
                },
                server_num,
            ),
        ensures
            a@ == spec_server_ctl_addr(
                if is_prod {
                    self.prod_ctl_addr@
                } else {
                    self.ctl_addr@
                },
                server_num,
            ),
    {
        let base = if is_prod {
            chars_of(self.prod_ctl_addr.as_str())
        } else {
            chars_of(self.ctl_addr.as_str())
        };
        match rsplit_once(&base, ':') {
            Some((host, port_str)) => {
                let base_port: u32 = match parse_u32_chars(&port_str) {
                    Some(p) => p,
                    None => 0,
                };
                let mut r = host;
                r.push(':');
                push_decimal(&mut r, (base_port + server_num - 1) as u64);
                string_of(&r)
            },
            None => string_of(&base),
        }
    }

    /// Parses the `.base_player_uid` value out of a config.zon line like
    /// `    .base_player_uid = 400,`; 1 when it does not parse.
    pub fn parse_base_player_uid(line: &str) -> (uid: u32)
        ensures
            uid == spec_parse_base_player_uid(line@),
    {
        let v = chars_of(line);
        let a = trim_chars(&v);
        let key = chars_of(".base_player_uid");
        let b = strip_prefixes_chars(&a, &key);
        let c = trim_chars(&b);
        let d = strip_prefix_chars_exec(&c, '=');
        let e = trim_chars(&d);
        let f = strip_suffix_chars_exec(&e, ',');
        let g = trim_chars(&f);
        match parse_u32_chars(&g) {
            Some(uid) => uid,
            None => 1,
        }
    }
}

pub open spec fn spec_parse_base_player_uid(line: Seq<char>) -> u32 {
    let s = trim(
        strip_suffix_chars(
            trim(strip_prefix_chars(trim(strip_prefixes(trim(line), ".base_player_uid"@)), '=')),
            ',',
        ),
    );
    match spec_parse_u32(s) {
        Some(uid) => uid,
        None => 1,
    }
}

} // verus!

verus! {

/// End of the line that starts at 0 (index of the first '\n', or the length).
pub open spec fn line_end(s: Seq<char>) -> int {
    match spec_find_char(s, '\n', 0) {
        Some(i) => i,
        None => s.len() as int,
    }
}

/// The first line whose trim_start begins with `.base_player_uid`.
pub open spec fn base_uid_line(s: Seq<char>) -> Option<Seq<char>>
    decreases s.len(),
{
    let end = line_end(s);
    proof {
        crate::text::lemma_find_char_bounds(s, '\n', 0);
    }
    let line = s.subrange(0, end);
    if has_prefix(trim_start(line), ".base_player_uid"@) {
        Some(line)
    } else if end < s.len() {
        base_uid_line(s.subrange(end + 1, s.len() as int))
    } else {
        None
    }
}

/// The base player uid a server's config.zon declares; 1 when it declares none.
pub open spec fn spec_base_uid_from_config(data: Seq<char>) -> u32 {
    match base_uid_line(data) {
        Some(line) => spec_parse_base_player_uid(line),
        None => 1,
    }
}

/// Reads the base player uid out of a server's config.zon text.
pub fn base_uid_from_config(data: &str) -> (uid: u32)
    ensures
        uid == spec_base_uid_from_config(data@),
{
    let v = chars_of(data);
    let key = chars_of(".base_player_uid");
    let mut start: usize = 0;
    assert(v@.subrange(0, v@.len() as int) =~= v@);
    while start <= v.len()
        invariant
            start <= v.len(),
            base_uid_line(v@.subrange(start as int, v@.len() as int)) == base_uid_line(v@),
            key@ == ".base_player_uid"@,
            v@ == data@,
        decreases v.len() - start,
    {
        let ghost rest = v@.subrange(start as int, v@.len() as int);
        let end = match find_char(&v, '\n', start) {
            Some(i) => i,
            None => v.len(),
        };
        proof {
            crate::text::lemma_find_char_bounds(v@, '\n', start as int);
            crate::text::lemma_find_char_bounds(rest, '\n', 0);
            lemma_find_char_shift(v@, '\n', start as int);
        }
        assert(end - start == line_end(rest));
        let line = sub_chars(&v, start, end);
        assert(line@ =~= rest.subrange(0, line_end(rest)));
        let ts = trim_start_chars(&line);
        if starts_with(&ts, &key) {
            assert(base_uid_line(rest) == Some(line@));
            let text = string_of(&line);
            return AppState::parse_base_player_uid(text.as_str());
        }
        if end >= v.len() {
            return 1;
        }
        assert(rest.subrange(line_end(rest) + 1, rest.len() as int) =~= v@.subrange(
            end + 1,
            v@.len() as int,
        ));
        start = end + 1;
    }
    1
}

/// Searching a suffix finds the same char at the shifted index.
pub proof fn lemma_find_char_shift(s: Seq<char>, c: char, start: int)
    requires
        0 <= start <= s.len(),
    ensures
        spec_find_char(s.subrange(start, s.len() as int), c, 0) == match spec_find_char(s, c, start) {
            Some(i) => Some(i - start),
            None => None,
        },
{
    lemma_find_char_shift_from(s, c, start, start);
}

proof fn lemma_find_char_shift_from(s: Seq<char>, c: char, start: int, k: int)
    requires
        0 <= start <= k <= s.len(),
    ensures
        spec_find_char(s.subrange(start, s.len() as int), c, k - start) == match spec_find_char(s, c, k) {
            Some(i) => Some(i - start),
            None => None,
        },
    decreases s.len() - k,
{
    if k < s.len() {
        lemma_find_char_shift_from(s, c, start, k + 1);
    }
}

/// The version in a marker file name: from its first ASCII digit, without the
/// last extension.
pub open spec fn spec_version_from_file_name(name: Seq<char>) -> Seq<char> {
    match first_digit(name, 0) {
        Some(start) => {
            let v = name.subrange(start, name.len() as int);
            match spec_rfind_char(v, '.', v.len() as int) {
                Some(dot) => v.subrange(0, dot),
                None => v,
            }
        },
        None => Seq::empty(),
    }
}

pub open spec fn first_digit(s: Seq<char>, from: int) -> Option<int>
    decreases s.len() - from,
{
    if from < 0 || from >= s.len() {
        None
    } else if '0' <= s[from] <= '9' {
        Some(from)
    } else {
        first_digit(s, from + 1)
    }
}

proof fn lemma_first_digit_bounds(s: Seq<char>, from: int)
    ensures
        first_digit(s, from) matches Some(i) ==> 0 <= from <= i < s.len(),
    decreases s.len() - from,
{
    if 0 <= from < s.len() && !('0' <= s[from] <= '9') {
        lemma_first_digit_bounds(s, from + 1);
    }
}

/// The dashboard's version string, taken from the name of the marker file in
/// a server's `version/` directory.
pub fn version_from_file_name(name: &str) -> (version: String)
    ensures
        version@ == spec_version_from_file_name(name@),
{
    let v = chars_of(name);
    let mut i: usize = 0;
    while i < v.len() && !('0' <= v[i] && v[i] <= '9')
        invariant
            i <= v.len(),
            first_digit(v@, i as int) == first_digit(v@, 0),
        decreases v.len() - i,
    {
        i = i + 1;
    }
    if i >= v.len() {
        return String::new();
    }
    let tail = sub_chars(&v, i, v.len());
    proof {
        crate::text::lemma_rfind_char_bounds(tail@, '.', tail@.len() as int);
    }
    match rfind_char(&tail, '.') {
        Some(dot) => string_of(&sub_chars(&tail, 0, dot)),
        None => string_of(&tail),
    }
}

/// End of the cookie segment that starts at 0.
pub open spec fn segment_end(s: Seq<char>) -> int {
    match spec_find_char(s, ';', 0) {
        Some(i) => i,
        None => s.len() as int,
    }
}

/// The value of cookie `key` in a Cookie header: the first `;`-separated
/// segment whose trimmed text is `key=value`.
pub open spec fn spec_cookie_lookup(cookies: Seq<char>, key: Seq<char>) -> Option<Seq<char>>
    decreases cookies.len(),
{
    let end = segment_end(cookies);
    proof {
        crate::text::lemma_find_char_bounds(cookies, ';', 0);
    }
    let seg = trim(cookies.subrange(0, end));
    let hit = match spec_split_once(seg, '=') {
        Some((name, value)) => if name == key {
            Some(value)
        } else {
            None
        },
        None => None,
    };
    if hit is Some {
        hit
    } else if end < cookies.len() {
        spec_cookie_lookup(cookies.subrange(end + 1, cookies.len() as int), key)
    } else {
        None
    }
}

/// Looks up cookie `key` in the text of a Cookie header.
pub fn cookie_value(cookies: &str, key: &str) -> (r: Option<String>)
    ensures
        match r {
            Some(v) => spec_cookie_lookup(cookies@, key@) == Some(v@),
            None => spec_cookie_lookup(cookies@, key@) is None,
        },
{
    let v = chars_of(cookies);
    let k = chars_of(key);
    let mut start: usize = 0;
    assert(v@.subrange(0, v@.len() as int) =~= v@);
    while start <= v.len()
        invariant
            start <= v.len(),
            spec_cookie_lookup(v@.subrange(start as int, v@.len() as int), k@) == spec_cookie_lookup(
                v@,
                k@,
            ),
            v@ == cookies@,
            k@ == key@,
        decreases v.len() - start,
    {
        let ghost rest = v@.subrange(start as int, v@.len() as int);
        let end = match find_char(&v, ';', start) {
            Some(i) => i,
            None => v.len(),
        };
        proof {
            crate::text::lemma_find_char_bounds(v@, ';', start as int);
            crate::text::lemma_find_char_bounds(rest, ';', 0);
            lemma_find_char_shift(v@, ';', start as int);
        }
        let seg_raw = sub_chars(&v, start, end);
        assert(seg_raw@ =~= rest.subrange(0, segment_end(rest)));
        let seg = trim_chars(&seg_raw);
        if let Some((name, value)) = split_once(&seg, '=') {
            if chars_eq(&name, &k) {
                return Some(string_of(&value));
            }
        }
        if end >= v.len() {
            return None;
        }
        assert(rest.subrange(segment_end(rest) + 1, rest.len() as int) =~= v@.subrange(
            end + 1,
            v@.len() as int,
        ));
        start = end + 1;
    }
    None
}

pub open spec fn clamp(v: int, lo: int, hi: int) -> int {
    if v < lo {
        lo
    } else if v > hi {
        hi
    } else {
        v
    }
}

/// `env:num` selects a server; a missing or unparsable number means 1. Prod
/// servers are 1..3; beta always uses server 1.
pub open spec fn spec_parse_server_selection(value: Seq<char>) -> ServerSelection {
    let (env, num) = match spec_split_once(value, ':') {
        Some((e, n)) => (
            e,
            match spec_parse_u32(n) {
                Some(x) => x as int,
                None => 1,
            },
        ),
        None => (value, 1int),
    };
    let is_prod = eq_ignore_ascii_case(env, "prod"@);
    ServerSelection {
        is_prod,
        server_num: if is_prod {
            clamp(num, 1, 3) as u32
        } else {
            1
        },
    }
}

/// Parses the value of the `gear_server` cookie.
pub fn parse_server_selection(value: &str) -> (sel: ServerSelection)
    ensures
        sel == spec_parse_server_selection(value@),
{
    let v = chars_of(value);
    let (env, num): (Vec<char>, u32) = match split_once(&v, ':') {
        Some((e, n)) => (
            e,
            match parse_u32_chars(&n) {
                Some(x) => x,
                None => 1,
            },
        ),
        None => (v, 1),
    };
    let prod = chars_of("prod");
    let is_prod = chars_eq_ignore_ascii_case(&env, &prod);
    let server_num: u32 = if is_prod {
        if num < 1 {
            1
        } else if num > 3 {
            3
        } else {
            num
        }
    } else {
        1
    };
    ServerSelection { is_prod, server_num }
}

pub open spec fn spec_active_server_selection(cookie_header: Option<Seq<char>>) -> ServerSelection {
    let value = match cookie_header {
        Some(c) => match spec_cookie_lookup(c, "gear_server"@) {
            Some(v) => v,
            None => "beta:1"@,
        },
        None => "beta:1"@,
    };
    spec_parse_server_selection(value)
}

/// The server selected by the request's Cookie header (beta 1 by default).
pub fn active_server_selection(cookie_header: Option<&str>) -> (sel: ServerSelection)
    ensures
        sel == spec_active_server_selection(
            match cookie_header {
                Some(c) => Some(c@),
                None => None,
            },
        ),
{
    let value: String = match cookie_header {
        Some(c) => match cookie_value(c, "gear_server") {
            Some(v) => v,
            None => String::from_str("beta:1"),
        },
        None => String::from_str("beta:1"),
    };
    parse_server_selection(value.as_str())
}

/// The cookie a selection writes reads back as the same selection.
pub proof fn law_selection_cookie_round_trip(sel: ServerSelection)
    requires
        (sel.is_prod && 1 <= sel.server_num <= 3) || (!sel.is_prod && sel.server_num == 1),
    ensures
        spec_parse_server_selection(spec_cookie_value(sel)) == sel,
{
    let c = spec_cookie_value(sel);
    let env = if sel.is_prod {
        "prod"@
    } else {
        "beta"@
    };
    reveal_strlit("prod:");
    reveal_strlit("beta:");
    reveal_strlit("prod");
    reveal_strlit("beta");
    let d = decimal(sel.server_num as nat);
    crate::text::lemma_parse_decimal_u32(sel.server_num);
    crate::text::lemma_decimal_value(sel.server_num as nat);
    assert(c[4] == ':');
    assert(spec_find_char(c, ':', 4) == Some(4int));
    assert(spec_find_char(c, ':', 3) == Some(4int));
    assert(spec_find_char(c, ':', 2) == Some(4int));
    assert(spec_find_char(c, ':', 1) == Some(4int));
    assert(spec_find_char(c, ':', 0) == Some(4int));
    assert(c.subrange(0, 4) =~= env);
    assert(c.subrange(5, c.len() as int) =~= d);
    if !sel.is_prod {
        assert(crate::text::ascii_lower(env[0]) != crate::text::ascii_lower("prod"@[0]));
    }
}

} // verus!

verus! {

/// `state` scoped to one server: both save dirs point at that server's save
/// directory, both ctl addresses at its port, the base uid is the server's,
/// and prod selections switch to the prod asset and dump dirs when those exist.
pub fn state_for_selected_server(
    state: &AppState,
    sel: ServerSelection,
    base_player_uid: u32,
    prod_asset_dir_exists: bool,
    live_dump_dir_exists: bool,
) -> (active: AppState)
    requires
        ctl_port_in_range(
            if sel.is_prod {
                state.prod_ctl_addr@
            } else {
                state.ctl_addr@
            },
            sel.server_num,
        ),
    ensures
        active.state_dir@ == spec_server_state_dir(
            if sel.is_prod {
                state.prod_state_dir@
            } else {
                state.state_dir@
            },
            sel.server_num,
        ),
        active.prod_state_dir@ == active.state_dir@,
        active.ctl_addr@ == spec_server_ctl_addr(
            if sel.is_prod {
                state.prod_ctl_addr@
            } else {
                state.ctl_addr@
            },
            sel.server_num,
        ),
        active.prod_ctl_addr@ == active.ctl_addr@,
        active.base_player_uid == base_player_uid,
        active.asset_dir@ == if sel.is_prod && prod_asset_dir_exists {
            state.prod_asset_dir@
        } else {
            state.asset_dir@
        },
        active.dump_dir@ == if sel.is_prod && live_dump_dir_exists {
            state.live_dump_dir@
        } else {
            state.dump_dir@
        },
        active.prod_asset_dir@ == state.prod_asset_dir@,
        active.live_dump_dir@ == state.live_dump_dir@,
        active.root_dir@ == state.root_dir@,
        active.passwd_path@ == state.passwd_path@,
{
    let dir = state.server_state_dir(sel.is_prod, sel.server_num);
    let ctl = state.server_ctl_addr(sel.is_prod, sel.server_num);
    let asset_dir = if sel.is_prod && prod_asset_dir_exists {
        state.prod_asset_dir.clone()
    } else {
        state.asset_dir.clone()
    };
    let dump_dir = if sel.is_prod && live_dump_dir_exists {
        state.live_dump_dir.clone()
    } else {
        state.dump_dir.clone()
    };
    AppState {
        state_dir: dir.clone(),
        prod_state_dir: dir,
        asset_dir,
        prod_asset_dir: state.prod_asset_dir.clone(),
        dump_dir,
        live_dump_dir: state.live_dump_dir.clone(),
        root_dir: state.root_dir.clone(),
        ctl_addr: ctl.clone(),
        prod_ctl_addr: ctl,
        passwd_path: state.passwd_path.clone(),
        base_player_uid,
    }
}

/// The ctl address of the selected server, for a state already scoped by
/// `state_for_selected_server`.
pub fn active_ctl_addr(state: &AppState) -> (a: String)
    ensures
        a@ == state.ctl_addr@,
{
    state.ctl_addr.clone()
}

} // verus!
