use vstd::prelude::*;
use vstd::utf8::encode_utf8;
use crate::text::{chars_of, extend_chars, extend_str, string_of, trim, trim_chars};

verus! {

// ---------------------------------------------------------------------------
// Redirect targets and escaping
// ---------------------------------------------------------------------------

/// Where a redirect may send the browser after login: the trimmed value,
/// when it is a non-empty path on this site (it starts with one `/`, not two)
/// and holds no line break.
pub open spec fn spec_sanitize_next_path(v: Seq<char>) -> Option<Seq<char>> {
    let t = trim(v);
    if t.len() == 0 {
        None
    } else if t[0] != '/' || (t.len() >= 2 && t[1] == '/') {
        None
    } else if t.contains('\n') || t.contains('\r') {
        None
    } else {
        Some(t)
    }
}

/// Checks a `next` redirect target; `None` where it could leave the site.
pub fn sanitize_next_path(value: &str) -> (r: Option<String>)
    ensures
        match r {
            Some(s) => spec_sanitize_next_path(value@) == Some(s@),
            None => spec_sanitize_next_path(value@) is None,
        },
        r matches Some(s) ==> s@.len() > 0 && s@[0] == '/' && !(s@.len() >= 2 && s@[1] == '/')
            && !s@.contains('\n') && !s@.contains('\r'),
{
    let v = chars_of(value);
    let t = trim_chars(&v);
    if t.len() == 0 {
        return None;
    }
    if t[0] != '/' || (t.len() >= 2 && t[1] == '/') {
        return None;
    }
    let mut i: usize = 0;
    while i < t.len()
        invariant
            i <= t.len(),
            t@ == trim(value@),
            t@.len() > 0 && t@[0] == '/' && !(t@.len() >= 2 && t@[1] == '/'),
            forall|j: int| 0 <= j < i ==> t@[j] != '\n' && t@[j] != '\r',
        decreases t.len() - i,
    {
        if t[i] == '\n' {
            assert(t@[i as int] == '\n');
            assert(t@.contains('\n'));
            return None;
        }
        if t[i] == '\r' {
            assert(t@[i as int] == '\r');
            assert(t@.contains('\r'));
            return None;
        }
        i = i + 1;
    }
    Some(string_of(&t))
}

/// The path a redirect goes to: `next` when it is safe, else the dashboard.
pub open spec fn spec_next_or_dashboard(next: Option<Seq<char>>) -> Seq<char> {
    match next {
        Some(v) => match spec_sanitize_next_path(v) {
            Some(t) => t,
            None => "/dashboard"@,
        },
        None => "/dashboard"@,
    }
}

pub fn next_or_dashboard(next: Option<&str>) -> (r: String)
    ensures
        r@ == spec_next_or_dashboard(
            match next {
                Some(v) => Some(v@),
                None => None,
            },
        ),
{
    match next {
        Some(v) => match sanitize_next_path(v) {
            Some(t) => t,
            None => "/dashboard".to_string(),
        },
        None => "/dashboard".to_string(),
    }
}

/// Wherever a `next` value points, the redirect after signing in stays on
/// this site: a path that starts with one `/`, not two, without line breaks.
pub proof fn law_redirect_stays_on_site(next: Option<Seq<char>>)
    ensures
        ({
            let r = spec_next_or_dashboard(next);
            &&& r.len() > 0
            &&& r[0] == '/'
            &&& !(r.len() >= 2 && r[1] == '/')
            &&& !r.contains('\n')
            &&& !r.contains('\r')
        }),
{
    reveal_strlit("/dashboard");
    let r = spec_next_or_dashboard(next);
    if r == "/dashboard"@ {
        assert(!r.contains('\n')) by {
            if r.contains('\n') {
                let i = choose|i: int| 0 <= i < r.len() && r[i] == '\n';
                assert(r[i] != '\n');
            }
        }
        assert(!r.contains('\r')) by {
            if r.contains('\r') {
                let i = choose|i: int| 0 <= i < r.len() && r[i] == '\r';
                assert(r[i] != '\r');
            }
        }
    }
}

/// The bytes a URL component keeps as they are.
pub open spec fn is_unreserved(b: u8) -> bool {
    (65 <= b <= 90) || (97 <= b <= 122) || (48 <= b <= 57) || b == 45 || b == 95 || b == 46 || b
        == 126
}

/// An upper-case hexadecimal digit.
pub open spec fn hex_upper(n: int) -> char {
    if n < 10 {
        ((48 + n) as u8) as char
    } else {
        ((55 + n) as u8) as char
    }
}

/// One byte of a URL component: itself, or `%` and two upper-case hex digits.
pub open spec fn encode_byte(b: u8) -> Seq<char> {
    if is_unreserved(b) {
        seq![b as char]
    } else {
        seq!['%', hex_upper(b as int / 16), hex_upper(b as int % 16)]
    }
}

/// Percent-encoding of a byte string.
pub open spec fn url_encode_bytes(s: Seq<u8>) -> Seq<char>
    decreases s.len(),
{
    if s.len() == 0 {
        Seq::empty()
    } else {
        url_encode_bytes(s.drop_last()) + encode_byte(s.last())
    }
}

fn hex_digit(n: u8) -> (c: char)
    requires
        n < 16,
    ensures
        c == hex_upper(n as int),
{
    if n < 10 {
        (48 + n) as char
    } else {
        (55 + n) as char
    }
}

/// Percent-encodes `value` for a query string: letters, digits and `-_.~`
/// stay, every other byte of its UTF-8 form becomes `%XX`.
pub fn url_encode_component(value: &str) -> (r: String)
    ensures
        r@ == url_encode_bytes(encode_utf8(value@)),
{
    let bytes = value.as_bytes();
    let mut out: Vec<char> = Vec::new();
    let mut i: usize = 0;
    while i < bytes.len()
        invariant
            i <= bytes@.len(),
            bytes@ == encode_utf8(value@),
            out@ == url_encode_bytes(bytes@.subrange(0, i as int)),
        decreases bytes.len() - i,
    {
        let b = bytes[i];
        let ghost before = out@;
        if (65 <= b && b <= 90) || (97 <= b && b <= 122) || (48 <= b && b <= 57) || b == 45 || b
            == 95 || b == 46 || b == 126 {
            out.push(b as char);
        } else {
            out.push('%');
            out.push(hex_digit(b / 16));
            out.push(hex_digit(b % 16));
        }
        assert(bytes@.subrange(0, i + 1).drop_last() =~= bytes@.subrange(0, i as int));
        assert(out@ =~= before + encode_byte(b));
        i = i + 1;
    }
    assert(bytes@.subrange(0, bytes@.len() as int) =~= bytes@);
    string_of(&out)
}

/// One char of an HTML attribute value, escaped.
pub open spec fn escape_attr_char(c: char) -> Seq<char> {
    if c == '&' {
        "&amp;"@
    } else if c == '"' {
        "&quot;"@
    } else if c == '<' {
        "&lt;"@
    } else if c == '>' {
        "&gt;"@
    } else {
        seq![c]
    }
}

/// One char of HTML text, escaped.
pub open spec fn escape_text_char(c: char) -> Seq<char> {
    if c == '&' {
        "&amp;"@
    } else if c == '<' {
        "&lt;"@
    } else if c == '>' {
        "&gt;"@
    } else {
        seq![c]
    }
}

pub open spec fn spec_html_escape_attr(s: Seq<char>) -> Seq<char>
    decreases s.len(),
{
    if s.len() == 0 {
        Seq::empty()
    } else {
        spec_html_escape_attr(s.drop_last()) + escape_attr_char(s.last())
    }
}

pub open spec fn spec_html_escape_text(s: Seq<char>) -> Seq<char>
    decreases s.len(),
{
    if s.len() == 0 {
        Seq::empty()
    } else {
        spec_html_escape_text(s.drop_last()) + escape_text_char(s.last())
    }
}

/// Escapes `value` for a double-quoted HTML attribute.
pub fn html_escape_attr(value: &str) -> (r: String)
    ensures
        r@ == spec_html_escape_attr(value@),
{
    let v = chars_of(value);
    let mut out: Vec<char> = Vec::new();
    let mut i: usize = 0;
    while i < v.len()
        invariant
            i <= v@.len(),
            out@ == spec_html_escape_attr(v@.subrange(0, i as int)),
        decreases v.len() - i,
    {
        let c = v[i];
        if c == '&' {
            extend_str(&mut out, "&amp;");
        } else if c == '"' {
            extend_str(&mut out, "&quot;");
        } else if c == '<' {
            extend_str(&mut out, "&lt;");
        } else if c == '>' {
            extend_str(&mut out, "&gt;");
        } else {
            out.push(c);
        }
        assert(v@.subrange(0, i + 1).drop_last() =~= v@.subrange(0, i as int));
        i = i + 1;
    }
    assert(v@.subrange(0, v@.len() as int) =~= v@);
    string_of(&out)
}

/// Escapes `value` for HTML text.
pub fn html_escape_text(value: &str) -> (r: String)
    ensures
        r@ == spec_html_escape_text(value@),
{
    let v = chars_of(value);
    let mut out: Vec<char> = Vec::new();
    let mut i: usize = 0;
    while i < v.len()
        invariant
            i <= v@.len(),
            out@ == spec_html_escape_text(v@.subrange(0, i as int)),
        decreases v.len() - i,
    {
        let c = v[i];
        if c == '&' {
            extend_str(&mut out, "&amp;");
        } else if c == '<' {
            extend_str(&mut out, "&lt;");
        } else if c == '>' {
            extend_str(&mut out, "&gt;");
        } else {
            out.push(c);
        }
        assert(v@.subrange(0, i + 1).drop_last() =~= v@.subrange(0, i as int));
        i = i + 1;
    }
    assert(v@.subrange(0, v@.len() as int) =~= v@);
    string_of(&out)
}

/// Escaped text holds no `<` or `>`, so it cannot open or close a tag.
pub proof fn law_escaped_text_has_no_tags(s: Seq<char>)
    ensures
        !spec_html_escape_text(s).contains('<'),
        !spec_html_escape_text(s).contains('>'),
    decreases s.len(),
{
    reveal_strlit("&amp;");
    reveal_strlit("&lt;");
    reveal_strlit("&gt;");
    if s.len() > 0 {
        law_escaped_text_has_no_tags(s.drop_last());
        let prev = spec_html_escape_text(s.drop_last());
        let tail = escape_text_char(s.last());
        assert(spec_html_escape_text(s) == prev + tail);
        assert forall|i: int| 0 <= i < (prev + tail).len() implies (prev + tail)[i] != '<' && (prev
            + tail)[i] != '>' by {
            if i < prev.len() {
                assert((prev + tail)[i] == prev[i]);
            } else {
                assert((prev + tail)[i] == tail[i - prev.len()]);
            }
        }
    }
}

/// An escaped attribute value holds no `<`, `>` or `"`, so it cannot end the
/// attribute or open a tag.
pub proof fn law_escaped_attr_stays_inside(s: Seq<char>)
    ensures
        !spec_html_escape_attr(s).contains('<'),
        !spec_html_escape_attr(s).contains('>'),
        !spec_html_escape_attr(s).contains('"'),
    decreases s.len(),
{
    reveal_strlit("&amp;");
    reveal_strlit("&quot;");
    reveal_strlit("&lt;");
    reveal_strlit("&gt;");
    if s.len() > 0 {
        law_escaped_attr_stays_inside(s.drop_last());
        let prev = spec_html_escape_attr(s.drop_last());
        let tail = escape_attr_char(s.last());
        assert(spec_html_escape_attr(s) == prev + tail);
        assert forall|i: int| 0 <= i < (prev + tail).len() implies (prev + tail)[i] != '<' && (prev
            + tail)[i] != '>' && (prev + tail)[i] != '"' by {
            if i < prev.len() {
                assert((prev + tail)[i] == prev[i]);
            } else {
                assert((prev + tail)[i] == tail[i - prev.len()]);
            }
        }
    }
}

/// Where an unauthenticated request is sent: the login page, with the page it
/// asked for (or the dashboard) as `next`.
pub open spec fn spec_login_redirect(attempted: Option<Seq<char>>) -> Seq<char> {
    "/?next="@ + url_encode_bytes(encode_utf8(spec_next_or_dashboard(attempted)))
}

/// The `Location` of the redirect to the login page for a request to
/// `attempted` (its path and query, where it has one).
pub fn login_redirect_location(attempted: Option<&str>) -> (r: String)
    ensures
        r@ == spec_login_redirect(
            match attempted {
                Some(v) => Some(v@),
                None => None,
            },
        ),
{
    let next = match attempted {
        Some(a) => next_or_dashboard(Some(a)),
        None => next_or_dashboard(Some("/dashboard")),
    };
    proof {
        if attempted is None {
            reveal_strlit("/dashboard");
            assert(trim("/dashboard"@) =~= "/dashboard"@) by {
                assert(crate::text::skip_ws("/dashboard"@, 0) == 0);
                assert(crate::text::back_ws("/dashboard"@, 10) == 10);
            }
            assert(!"/dashboard"@.contains('\n'));
            assert(!"/dashboard"@.contains('\r'));
        }
    }
    let enc = url_encode_component(next.as_str());
    let mut out = chars_of("/?next=");
    let e = chars_of(enc.as_str());
    extend_chars(&mut out, &e);
    string_of(&out)
}

/// Where a failed login or registration is sent: the login page, with
/// `next` and the translation key of the error.
pub open spec fn spec_error_redirect(next: Seq<char>, error_key: Seq<char>) -> Seq<char> {
    "/?next="@ + url_encode_bytes(encode_utf8(next)) + "&error="@ + url_encode_bytes(
        encode_utf8(error_key),
    )
}

pub fn error_redirect_location(next: &str, error_key: &str) -> (r: String)
    ensures
        r@ == spec_error_redirect(next@, error_key@),
{
    let mut out = chars_of("/?next=");
    let a = url_encode_component(next);
    let av = chars_of(a.as_str());
    extend_chars(&mut out, &av);
    extend_str(&mut out, "&error=");
    let b = url_encode_component(error_key);
    let bv = chars_of(b.as_str());
    extend_chars(&mut out, &bv);
    string_of(&out)
}

/// The `Set-Cookie` value that logs a browser in for thirty days.
pub open spec fn spec_session_cookie(session_id: Seq<char>) -> Seq<char> {
    "ge_session="@ + session_id + "; HttpOnly; SameSite=Lax; Path=/; Max-Age=2592000"@
}

pub fn session_cookie(session_id: &str) -> (r: String)
    ensures
        r@ == spec_session_cookie(session_id@),
{
    let mut out = chars_of("ge_session=");
    extend_str(&mut out, session_id);
    extend_str(&mut out, "; HttpOnly; SameSite=Lax; Path=/; Max-Age=2592000");
    string_of(&out)
}

/// Whether a registration form is complete: a user name that is not blank and
/// a password.
pub open spec fn spec_registration_filled(username: Seq<char>, password: Seq<char>) -> bool {
    trim(username).len() > 0 && password.len() > 0
}

pub fn registration_filled(username: &str, password: &str) -> (r: bool)
    ensures
        r == spec_registration_filled(username@, password@),
{
    let u = chars_of(username);
    let t = trim_chars(&u);
    t.len() > 0 && !password.is_empty()
}

} // verus!

verus! {

// ---------------------------------------------------------------------------
// Sessions
// ---------------------------------------------------------------------------

/// A logged-in panel user.
pub struct Session {
    pub uid: i32,
    pub username: String,
    /// Files staged for writing, by path.
    pub pending_writes: Vec<(String, String)>,
    /// When the session was last used, in milliseconds of a monotonic clock.
    pub last_active_ms: u64,
}

/// The mathematical content of a Session.
pub struct SessionView {
    pub uid: i32,
    pub username: Seq<char>,
    pub pending_writes: Seq<(Seq<char>, Seq<char>)>,
    pub last_active_ms: u64,
}

pub open spec fn pending_view(p: Seq<(String, String)>) -> Seq<(Seq<char>, Seq<char>)> {
    p.map_values(|w: (String, String)| (w.0@, w.1@))
}

impl View for Session {
    type V = SessionView;

    open spec fn view(&self) -> SessionView {
        SessionView {
            uid: self.uid,
            username: self.username@,
            pending_writes: pending_view(self.pending_writes@),
            last_active_ms: self.last_active_ms,
        }
    }
}

/// A copy of `s` whose last use is `last_active_ms`.
pub fn copy_session(s: &Session, last_active_ms: u64) -> (r: Session)
    ensures
        r@ == (SessionView { last_active_ms, ..s@ }),
{
    let mut pending: Vec<(String, String)> = Vec::new();
    let mut i: usize = 0;
    while i < s.pending_writes.len()
        invariant
            i <= s.pending_writes@.len(),
            pending@.len() == i,
            pending_view(pending@) == pending_view(s.pending_writes@).take(i as int),
        decreases s.pending_writes.len() - i,
    {
        let w = &s.pending_writes[i];
        let a = w.0.clone();
        let b = w.1.clone();
        let ghost before = pending@;
        pending.push((a, b));
        proof {
            let pv = pending_view(pending@);
            let sv = pending_view(s.pending_writes@).take(i + 1);
            assert forall|j: int| 0 <= j < i + 1 implies pv[j] == sv[j] by {
                if j < i {
                    assert(pending@[j] == before[j]);
                    assert(pending_view(before)[j] == pv[j]);
                }
            }
            assert(pv =~= sv);
        }
        i = i + 1;
    }
    assert(pending_view(s.pending_writes@).take(i as int) =~= pending_view(s.pending_writes@));
    Session {
        uid: s.uid,
        username: s.username.clone(),
        pending_writes: pending,
        last_active_ms,
    }
}

/// The account that may administer the panel.
pub open spec fn spec_is_admin(s: SessionView) -> bool {
    s.username == "XaPoHbomj"@ && s.uid == 1
}

/// Whether the session belongs to the panel's administrator.
pub fn is_admin(session: &Session) -> (r: bool)
    ensures
        r == spec_is_admin(session@),
{
    let u = chars_of(session.username.as_str());
    let a = chars_of("XaPoHbomj");
    crate::text::chars_eq(&u, &a) && session.uid == 1
}

/// One stored session and its id.
pub struct SessionEntry {
    id: String,
    session: Session,
}

/// The sessions a list of entries holds: a later entry for an id replaces
/// an earlier one.
spec fn entries_map(s: Seq<SessionEntry>) -> Map<Seq<char>, SessionView>
    decreases s.len(),
{
    if s.len() == 0 {
        Map::empty()
    } else {
        entries_map(s.drop_last()).insert(s.last().id@, s.last().session@)
    }
}

spec fn distinct_ids(s: Seq<SessionEntry>) -> bool {
    forall|i: int, j: int| 0 <= i < j < s.len() ==> s[i].id@ != s[j].id@
}

/// Whether a session last used at `last` is still kept at `now`.
pub open spec fn session_fresh(last: u64, now: u64, max_age_ms: u64) -> bool {
    (if now >= last { now - last } else { 0 }) < max_age_ms
}

/// The sessions of `m` that are still kept at `now`.
pub open spec fn fresh_sessions(m: Map<Seq<char>, SessionView>, now: u64, max_age_ms: u64) -> Map<
    Seq<char>,
    SessionView,
> {
    Map::new(
        |k: Seq<char>| m.contains_key(k) && session_fresh(m[k].last_active_ms, now, max_age_ms),
        |k: Seq<char>| m[k],
    )
}

proof fn lemma_entries_map_dom(s: Seq<SessionEntry>, k: Seq<char>)
    ensures
        entries_map(s).contains_key(k) <==> exists|i: int| 0 <= i < s.len() && #[trigger] s[i].id@
            == k,
        entries_map(s).dom().finite(),
    decreases s.len(),
{
    if s.len() > 0 {
        lemma_entries_map_dom(s.drop_last(), k);
        if entries_map(s.drop_last()).contains_key(k) {
            let i = choose|i: int| 0 <= i < s.drop_last().len() && #[trigger] s.drop_last()[i].id@ == k;
            assert(s[i].id@ == k);
        }
        if exists|i: int| 0 <= i < s.len() && #[trigger] s[i].id@ == k {
            let i = choose|i: int| 0 <= i < s.len() && #[trigger] s[i].id@ == k;
            if i < s.len() - 1 {
                assert(s.drop_last()[i].id@ == k);
            }
        }
    }
}

proof fn lemma_entries_map_len(s: Seq<SessionEntry>)
    requires
        distinct_ids(s),
    ensures
        entries_map(s).dom().len() == s.len(),
        entries_map(s).dom().finite(),
    decreases s.len(),
{
    if s.len() > 0 {
        let d = s.drop_last();
        lemma_entries_map_len(d);
        lemma_entries_map_dom(d, s.last().id@);
        if entries_map(d).contains_key(s.last().id@) {
            let i = choose|i: int| 0 <= i < d.len() && #[trigger] d[i].id@ == s.last().id@;
            assert(s[i].id@ == s[s.len() - 1].id@);
        }
    }
}

proof fn lemma_entries_map_at(s: Seq<SessionEntry>, i: int)
    requires
        distinct_ids(s),
        0 <= i < s.len(),
    ensures
        entries_map(s).contains_key(s[i].id@),
        entries_map(s)[s[i].id@] == s[i].session@,
    decreases s.len(),
{
    if i < s.len() - 1 {
        lemma_entries_map_at(s.drop_last(), i);
        assert(s.drop_last()[i] == s[i]);
    }
}

proof fn lemma_entries_map_update(s: Seq<SessionEntry>, i: int, e: SessionEntry)
    requires
        distinct_ids(s),
        0 <= i < s.len(),
        e.id@ == s[i].id@,
    ensures
        entries_map(s.update(i, e)) == entries_map(s).insert(e.id@, e.session@),
        distinct_ids(s.update(i, e)),
    decreases s.len(),
{
    let u = s.update(i, e);
    if i == s.len() - 1 {
        assert(u.drop_last() =~= s.drop_last());
        lemma_entries_map_dom(s.drop_last(), e.id@);
        if entries_map(s.drop_last()).contains_key(e.id@) {
            let j = choose|j: int| 0 <= j < s.drop_last().len() && #[trigger] s.drop_last()[j].id@
                == e.id@;
            assert(s[j].id@ == s[i].id@);
        }
        assert(entries_map(u) =~= entries_map(s).insert(e.id@, e.session@));
    } else {
        lemma_entries_map_update(s.drop_last(), i, e);
        assert(u.drop_last() =~= s.drop_last().update(i, e));
        assert(s.last().id@ != e.id@);
        assert(entries_map(u) =~= entries_map(s).insert(e.id@, e.session@));
    }
    assert forall|a: int, b: int| 0 <= a < b < u.len() implies u[a].id@ != u[b].id@ by {
        assert(u[a].id@ == s[a].id@);
        assert(u[b].id@ == s[b].id@);
    }
}

proof fn lemma_entries_map_remove(s: Seq<SessionEntry>, i: int)
    requires
        distinct_ids(s),
        0 <= i < s.len(),
    ensures
        entries_map(s.remove(i)) == entries_map(s).remove(s[i].id@),
        distinct_ids(s.remove(i)),
    decreases s.len(),
{
    let r = s.remove(i);
    let k = s[i].id@;
    if i == s.len() - 1 {
        assert(r =~= s.drop_last());
        lemma_entries_map_dom(s.drop_last(), k);
        if entries_map(s.drop_last()).contains_key(k) {
            let j = choose|j: int| 0 <= j < s.drop_last().len() && #[trigger] s.drop_last()[j].id@
                == k;
            assert(s[j].id@ == s[i].id@);
        }
        assert(entries_map(r) =~= entries_map(s).remove(k));
    } else {
        lemma_entries_map_remove(s.drop_last(), i);
        assert(r.drop_last() =~= s.drop_last().remove(i));
        assert(r.last() == s.last());
        assert(s.last().id@ != k);
        assert(entries_map(r) =~= entries_map(s).remove(k));
    }
    assert forall|a: int, b: int| 0 <= a < b < r.len() implies r[a].id@ != r[b].id@ by {
        let sa = if a < i { a } else { a + 1 };
        let sb = if b < i { b } else { b + 1 };
        assert(r[a] == s[sa]);
        assert(r[b] == s[sb]);
    }
}

/// The session id a request names: its `ge_session` cookie.
pub open spec fn session_id_of(cookie_header: Option<Seq<char>>) -> Option<Seq<char>> {
    match cookie_header {
        Some(c) => crate::app_state::spec_cookie_lookup(c, "ge_session"@),
        None => None,
    }
}

/// The sessions of all logged-in users, by session id.
pub struct SessionStore {
    entries: Vec<SessionEntry>,
}

impl View for SessionStore {
    type V = Map<Seq<char>, SessionView>;

    closed spec fn view(&self) -> Map<Seq<char>, SessionView> {
        entries_map(self.entries@)
    }
}

impl SessionStore {
    #[verifier::type_invariant]
    spec fn ids_distinct(self) -> bool {
        distinct_ids(self.entries@)
    }

    /// A store with no sessions.
    pub fn new() -> (r: Self)
        ensures
            r@ == Map::<Seq<char>, SessionView>::empty(),
    {
        SessionStore { entries: Vec::new() }
    }

    /// The number of sessions.
    pub fn len(&self) -> (n: usize)
        ensures
            n == self@.dom().len(),
            self@.dom().finite(),
    {
        proof {
            use_type_invariant(self);
            lemma_entries_map_len(self.entries@);
        }
        self.entries.len()
    }

    fn position(&self, id: &Vec<char>) -> (r: Option<usize>)
        ensures
            match r {
                Some(i) => i < self.entries@.len() && self.entries@[i as int].id@ == id@,
                None => forall|i: int| 0 <= i < self.entries@.len() ==> self.entries@[i].id@ != id@,
            },
    {
        let mut i: usize = 0;
        while i < self.entries.len()
            invariant
                i <= self.entries@.len(),
                forall|j: int| 0 <= j < i ==> self.entries@[j].id@ != id@,
            decreases self.entries.len() - i,
        {
            let e = chars_of(self.entries[i].id.as_str());
            if crate::text::chars_eq(&e, id) {
                return Some(i);
            }
            i = i + 1;
        }
        None
    }

    /// Stores `session` under `id`, replacing any session held there.
    pub fn set_session(&mut self, id: String, session: Session)
        ensures
            final(self)@ == old(self)@.insert(id@, session@),
    {
        proof {
            use_type_invariant(&*self);
        }
        let key = chars_of(id.as_str());
        let entry = SessionEntry { id, session };
        match self.position(&key) {
            Some(i) => {
                proof {
                    lemma_entries_map_update(self.entries@, i as int, entry);
                }
                let mut v: Vec<SessionEntry> = Vec::new();
                std::mem::swap(&mut v, &mut self.entries);
                v.set(i, entry);
                self.entries = v;
            },
            None => {
                let ghost before = self.entries@;
                proof {
                    assert forall|a: int, b: int|
                        0 <= a < b < before.push(entry).len() implies before.push(entry)[a].id@
                        != before.push(entry)[b].id@ by {
                        if b == before.len() {
                            assert(before.push(entry)[a] == before[a]);
                        } else {
                            assert(before.push(entry)[a] == before[a]);
                            assert(before.push(entry)[b] == before[b]);
                        }
                    }
                    assert(before.push(entry).drop_last() =~= before);
                }
                let mut v: Vec<SessionEntry> = Vec::new();
                std::mem::swap(&mut v, &mut self.entries);
                v.push(entry);
                self.entries = v;
            },
        }
    }

    /// Ends the session `id`, if there is one.
    pub fn remove_session(&mut self, id: &str)
        ensures
            final(self)@ == old(self)@.remove(id@),
    {
        proof {
            use_type_invariant(&*self);
        }
        let key = chars_of(id);
        match self.position(&key) {
            Some(i) => {
                proof {
                    lemma_entries_map_remove(self.entries@, i as int);
                }
                let mut v: Vec<SessionEntry> = Vec::new();
                std::mem::swap(&mut v, &mut self.entries);
                v.remove(i);
                self.entries = v;
            },
            None => {
                proof {
                    lemma_entries_map_dom(self.entries@, id@);
                    assert(self@ =~= self@.remove(id@));
                }
            },
        }
    }

    /// The session `id`, marked as used at `now_ms`; `None` where there is none.
    pub fn touch(&mut self, id: &str, now_ms: u64) -> (r: Option<Session>)
        ensures
            match r {
                Some(s) => old(self)@.contains_key(id@) && s@ == (SessionView {
                    last_active_ms: now_ms,
                    ..old(self)@[id@]
                }) && final(self)@ == old(self)@.insert(id@, s@),
                None => !old(self)@.contains_key(id@) && final(self)@ == old(self)@,
            },
    {
        proof {
            use_type_invariant(&*self);
        }
        let key = chars_of(id);
        match self.position(&key) {
            Some(i) => {
                proof {
                    lemma_entries_map_at(self.entries@, i as int);
                }
                let fresh = copy_session(&self.entries[i].session, now_ms);
                let stored = copy_session(&fresh, now_ms);
                let entry = SessionEntry { id: self.entries[i].id.clone(), session: stored };
                proof {
                    lemma_entries_map_update(self.entries@, i as int, entry);
                }
                let mut v: Vec<SessionEntry> = Vec::new();
                std::mem::swap(&mut v, &mut self.entries);
                v.set(i, entry);
                self.entries = v;
                Some(fresh)
            },
            None => {
                proof {
                    lemma_entries_map_dom(self.entries@, id@);
                }
                None
            },
        }
    }

    /// The session named by the `ge_session` cookie of a request whose
    /// `Cookie` header is `cookie_header`, marked as used at `now_ms`, with
    /// its id.
    pub fn get_session(&mut self, cookie_header: Option<&str>, now_ms: u64) -> (r: Option<
        (String, Session),
    >)
        ensures
            match session_id_of(
                match cookie_header {
                    Some(c) => Some(c@),
                    None => None,
                },
            ) {
                Some(id) => match r {
                    Some((rid, s)) => rid@ == id && old(self)@.contains_key(id) && s@ == (
                    SessionView { last_active_ms: now_ms, ..old(self)@[id] })
                        && final(self)@ == old(self)@.insert(id, s@),
                    None => !old(self)@.contains_key(id) && final(self)@ == old(self)@,
                },
                None => r is None && final(self)@ == old(self)@,
            },
    {
        let id = match cookie_header {
            Some(c) => crate::app_state::cookie_value(c, "ge_session"),
            None => None,
        };
        match id {
            Some(id) => match self.touch(id.as_str(), now_ms) {
                Some(s) => Some((id, s)),
                None => None,
            },
            None => None,
        }
    }

    /// Drops every session unused for `max_age_ms` or longer at `now_ms`;
    /// gives how many were dropped.
    pub fn gc_sessions(&mut self, now_ms: u64, max_age_ms: u64) -> (removed: usize)
        ensures
            final(self)@ == fresh_sessions(old(self)@, now_ms, max_age_ms),
            removed + final(self)@.dom().len() == old(self)@.dom().len(),
    {
        proof {
            use_type_invariant(&*self);
            lemma_entries_map_len(self.entries@);
        }
        let ghost s = self.entries@;
        let mut kept: Vec<SessionEntry> = Vec::new();
        let mut removed: usize = 0;
        let mut i: usize = 0;
        while i < self.entries.len()
            invariant
                s == self.entries@,
                distinct_ids(s),
                i <= s.len(),
                distinct_ids(kept@),
                forall|a: int|
                    #![trigger kept@[a]]
                    0 <= a < kept@.len() ==> exists|b: int|
                        0 <= b < i && #[trigger] s[b].id@ == kept@[a].id@,
                entries_map(kept@) == fresh_sessions(
                    entries_map(s.take(i as int)),
                    now_ms,
                    max_age_ms,
                ),
                removed + kept@.len() == i,
            decreases s.len() - i,
        {
            let e = &self.entries[i];
            let last = e.session.last_active_ms;
            let elapsed = if now_ms >= last {
                now_ms - last
            } else {
                0
            };
            let ghost before = kept@;
            let ghost m = entries_map(s.take(i as int));
            proof {
                assert(s.take(i + 1).drop_last() =~= s.take(i as int));
                lemma_entries_map_dom(s.take(i as int), s[i as int].id@);
                if m.contains_key(s[i as int].id@) {
                    let j = choose|j: int| 0 <= j < s.take(i as int).len() && #[trigger] s.take(
                        i as int,
                    )[j].id@ == s[i as int].id@;
                    assert(s[j].id@ == s[i as int].id@);
                }
            }
            if elapsed < max_age_ms {
                let copy = SessionEntry {
                    id: e.id.clone(),
                    session: copy_session(&e.session, last),
                };
                kept.push(copy);
                proof {
                    assert(kept@.drop_last() =~= before);
                    assert forall|a: int, b: int| 0 <= a < b < kept@.len() implies kept@[a].id@
                        != kept@[b].id@ by {
                        if b == kept@.len() - 1 {
                            assert(kept@[a] == before[a]);
                            let c = choose|c: int| 0 <= c < i && #[trigger] s[c].id@ == before[a].id@;
                            assert(s[c].id@ != s[i as int].id@);
                        } else {
                            assert(kept@[a] == before[a]);
                            assert(kept@[b] == before[b]);
                        }
                    }
                    assert forall|a: int| #![trigger kept@[a]] 0 <= a < kept@.len() implies exists|b: int|
                        0 <= b < i + 1 && #[trigger] s[b].id@ == kept@[a].id@ by {
                        if a == kept@.len() - 1 {
                            assert(s[i as int].id@ == kept@[a].id@);
                        } else {
                            assert(kept@[a] == before[a]);
                            let c = choose|c: int| 0 <= c < i && #[trigger] s[c].id@ == before[a].id@;
                            assert(s[c].id@ == kept@[a].id@);
                        }
                    }
                    assert(entries_map(kept@) =~= fresh_sessions(
                        entries_map(s.take(i + 1)),
                        now_ms,
                        max_age_ms,
                    ));
                }
            } else {
                removed = removed + 1;
                proof {
                    assert forall|a: int| #![trigger kept@[a]] 0 <= a < kept@.len() implies exists|b: int|
                        0 <= b < i + 1 && #[trigger] s[b].id@ == kept@[a].id@ by {
                        let c = choose|c: int| 0 <= c < i && #[trigger] s[c].id@ == kept@[a].id@;
                        assert(s[c].id@ == kept@[a].id@);
                    }
                    assert(entries_map(kept@) =~= fresh_sessions(
                        entries_map(s.take(i + 1)),
                        now_ms,
                        max_age_ms,
                    ));
                }
            }
            i = i + 1;
        }
        proof {
            assert(s.take(s.len() as int) =~= s);
            lemma_entries_map_len(kept@);
        }
        self.entries = kept;
        removed
    }
}

/// A session read back right after it was stored is the one stored, and other
/// ids keep their sessions; a removed session is gone.
pub proof fn law_session_store_read_after_write(
    m: Map<Seq<char>, SessionView>,
    id: Seq<char>,
    s: SessionView,
    other: Seq<char>,
)
    requires
        other != id,
    ensures
        m.insert(id, s).contains_key(id) && m.insert(id, s)[id] == s,
        m.insert(id, s).contains_key(other) == m.contains_key(other),
        m.contains_key(other) ==> m.insert(id, s)[other] == m[other],
        !m.remove(id).contains_key(id),
{
}

// ---------------------------------------------------------------------------
// Session ids
// ---------------------------------------------------------------------------

/// An ASCII letter or digit.
pub open spec fn is_ascii_alnum(c: char) -> bool {
    ('A' <= c <= 'Z') || ('a' <= c <= 'z') || ('0' <= c <= '9')
}

/// `rand`'s `Alphanumeric` distribution sampled `len` times from the thread
/// generator: `len` chars, each an ASCII letter or digit. Which ones is chance.
#[verifier::external_body]
fn random_alphanumeric(len: usize) -> (r: String)
    ensures
        r@.len() == len,
        forall|i: int| 0 <= i < len ==> is_ascii_alnum(#[trigger] r@[i]),
{
    rand::Rng::sample_iter(rand::thread_rng(), &rand::distributions::Alphanumeric).take(len).map(
        char::from,
    ).collect()
}

/// The length of a session id.
pub const SESSION_ID_LEN: usize = 48;

/// A fresh random session id: 48 ASCII letters and digits.
pub fn new_session_id() -> (r: String)
    ensures
        r@.len() == SESSION_ID_LEN,
        forall|i: int| 0 <= i < r@.len() ==> is_ascii_alnum(#[trigger] r@[i]),
{
    random_alphanumeric(SESSION_ID_LEN)
}

impl SessionStore {
    /// Stores `session` under a fresh random id and gives the id.
    pub fn insert_session(&mut self, session: Session) -> (id: String)
        ensures
            id@.len() == SESSION_ID_LEN,
            forall|i: int| 0 <= i < id@.len() ==> is_ascii_alnum(#[trigger] id@[i]),
            final(self)@ == old(self)@.insert(id@, session@),
    {
        let id = new_session_id();
        let key = id.clone();
        self.set_session(key, session);
        id
    }
}

// ---------------------------------------------------------------------------
// Login
// ---------------------------------------------------------------------------

/// Whether `password_hash::PasswordHash::new` accepts `hash` as a PHC string.
pub uninterp spec fn phc_string_parses(hash: Seq<char>) -> bool;

/// Whether the PBKDF2 verifier accepts `password` for the PHC string `hash`.
pub uninterp spec fn pbkdf2_password_matches(hash: Seq<char>, password: Seq<char>) -> bool;

/// `password_hash::PasswordHash::new`: whether `hash` parses as a PHC string.
/// Its source refuses the empty string first of all.
#[verifier::external_body]
fn phc_parses(hash: &str) -> (r: bool)
    ensures
        r == phc_string_parses(hash@),
        hash@.len() == 0 ==> !r,
{
    password_hash::PasswordHash::new(hash).is_ok()
}

/// `PasswordHash::verify_password` with the `pbkdf2::Pbkdf2` verifier:
/// whether `password` hashes, with the salt and parameters that `hash`
/// records, to the output it records.
#[verifier::external_body]
fn pbkdf2_verifies(hash: &str, password: &str) -> (r: bool)
    requires
        phc_string_parses(hash@),
    ensures
        r == pbkdf2_password_matches(hash@, password@),
{
    match password_hash::PasswordHash::new(hash) {
        Ok(h) => h.verify_password(&[&pbkdf2::Pbkdf2], password).is_ok(),
        Err(_) => false,
    }
}

/// What `bcrypt::verify` gives for a password and a stored hash: whether
/// the password hashes to it, `None` where the hash is not a bcrypt hash it
/// can read.
pub uninterp spec fn bcrypt_verdict(password: Seq<char>, hash: Seq<char>) -> Option<bool>;

/// `bcrypt::verify`: whether `password` (its UTF-8 bytes, the first 72 of
/// them) hashes, with the cost and salt that `hash` records, to the hash it
/// records; `None` where `hash` is malformed. Its source refuses any hash
/// that is not 60 ASCII bytes first of all.
#[verifier::external_body]
fn bcrypt_verify(password: &str, hash: &str) -> (r: Option<bool>)
    ensures
        r == bcrypt_verdict(password@, hash@),
        hash@.len() != 60 ==> r is None,
{
    bcrypt::verify(password, hash).ok()
}

/// A stored hash in bcrypt's format: `$2a$`, `$2b$`, `$2x$` or `$2y$`
/// first.
pub open spec fn is_bcrypt_hash(hash: Seq<char>) -> bool {
    &&& hash.len() >= 4
    &&& hash[0] == '$'
    &&& hash[1] == '2'
    &&& (hash[2] == 'a' || hash[2] == 'b' || hash[2] == 'x' || hash[2] == 'y')
    &&& hash[3] == '$'
}

fn bcrypt_prefixed(hash: &str) -> (r: bool)
    ensures
        r == is_bcrypt_hash(hash@),
{
    let v = chars_of(hash);
    v.len() >= 4 && v[0] == '$' && v[1] == '2' && (v[2] == 'a' || v[2] == 'b' || v[2] == 'x'
        || v[2] == 'y') && v[3] == '$'
}

/// How a stored password hash judges a password.
#[derive(PartialEq, Eq, Structural, Debug, Clone, Copy)]
pub enum PasswordVerdict {
    /// The stored hash is neither a bcrypt hash nor a PHC string the
    /// verifiers can read.
    Malformed,
    Match,
    Mismatch,
}

/// A bcrypt hash (the accounts' format) is checked by bcrypt; any other
/// stored hash is read as a PHC string and checked by PBKDF2.
pub open spec fn spec_password_verdict(hash: Seq<char>, password: Seq<char>) -> PasswordVerdict {
    if is_bcrypt_hash(hash) {
        match bcrypt_verdict(password, hash) {
            None => PasswordVerdict::Malformed,
            Some(true) => PasswordVerdict::Match,
            Some(false) => PasswordVerdict::Mismatch,
        }
    } else if !phc_string_parses(hash) {
        PasswordVerdict::Malformed
    } else if pbkdf2_password_matches(hash, password) {
        PasswordVerdict::Match
    } else {
        PasswordVerdict::Mismatch
    }
}

/// Checks `password` against the stored hash `hash` (bcrypt, or a PBKDF2
/// PHC string).
pub fn check_password(hash: &str, password: &str) -> (r: PasswordVerdict)
    ensures
        r == spec_password_verdict(hash@, password@),
{
    if bcrypt_prefixed(hash) {
        match bcrypt_verify(password, hash) {
            None => PasswordVerdict::Malformed,
            Some(true) => PasswordVerdict::Match,
            Some(false) => PasswordVerdict::Mismatch,
        }
    } else if !phc_parses(hash) {
        PasswordVerdict::Malformed
    } else if pbkdf2_verifies(hash, password) {
        PasswordVerdict::Match
    } else {
        PasswordVerdict::Mismatch
    }
}

/// Why a login could not be checked.
#[derive(PartialEq, Eq, Structural, Debug, Clone, Copy)]
pub enum LoginError {
    /// The account's stored hash is neither a bcrypt hash nor a PHC string
    /// the verifiers can read.
    MalformedHash,
}

/// What a login gives for the account `uid`/`username` once its password was
/// judged: a session used at `now_ms` on a match, nothing on a mismatch, an
/// error where the stored hash is broken.
pub open spec fn spec_login_outcome(uid: i32, username: Seq<char>, verdict: PasswordVerdict, now_ms: u64) -> Result<Option<SessionView>, LoginError> {
    match verdict {
        PasswordVerdict::Malformed => Err(LoginError::MalformedHash),
        PasswordVerdict::Match => Ok(Some(SessionView {
            uid,
            username,
            pending_writes: Seq::empty(),
            last_active_ms: now_ms,
        })),
        PasswordVerdict::Mismatch => Ok(None),
    }
}

pub open spec fn outcome_view(r: Result<Option<Session>, LoginError>) -> Result<Option<SessionView>, LoginError> {
    match r {
        Ok(Some(s)) => Ok(Some(s@)),
        Ok(None) => Ok(None),
        Err(e) => Err(e),
    }
}

/// The session a login opens for the account `uid`/`username` on `verdict`.
pub fn login_outcome(uid: i32, username: String, verdict: PasswordVerdict, now_ms: u64) -> (r: Result<Option<Session>, LoginError>)
    ensures
        outcome_view(r) == spec_login_outcome(uid, username@, verdict, now_ms),
{
    match verdict {
        PasswordVerdict::Malformed => Err(LoginError::MalformedHash),
        PasswordVerdict::Match => {
            let s = Session { uid, username, pending_writes: Vec::new(), last_active_ms: now_ms };
            assert(pending_view(s.pending_writes@) =~= Seq::empty());
            Ok(Some(s))
        },
        PasswordVerdict::Mismatch => Ok(None),
    }
}

/// Checks a login. `account` is the account row stored under the given user
/// name (uid, user name, password hash), `None` where there is none.
pub fn validate_login(account: Option<(i32, String, String)>, password: &str, now_ms: u64) -> (r: Result<Option<Session>, LoginError>)
    ensures
        outcome_view(r) == match account {
            None => Ok(None),
            Some((uid, username, hash)) => spec_login_outcome(
                uid,
                username@,
                spec_password_verdict(hash@, password@),
                now_ms,
            ),
        },
{
    match account {
        None => Ok(None),
        Some((uid, username, hash)) => {
            let verdict = check_password(hash.as_str(), password);
            login_outcome(uid, username, verdict, now_ms)
        },
    }
}

} // verus!
