use vstd::prelude::*;
use crate::text::{chars_of, decimal, extend_chars, extend_str, push_decimal, string_of};

verus! {

/// The stylesheet the edit pages share.
pub const SHARED_PAGE_CSS: &'static str = "body{font-family:system-ui,sans-serif;margin:0;background:#0f1115;color:#e6e6e6}\
     .container{padding:24px;max-width:900px;margin:0 auto}\
     input,select{width:100%;box-sizing:border-box;padding:8px;border-radius:8px;border:1px solid #2a3140;background:#121620;color:#e6e6e6}\
     label{display:block;margin:12px 0 6px;font-size:12px;color:#9aa4b2}\
     button{margin-top:16px;padding:10px 14px;border:0;border-radius:8px;background:#4c7dff;color:#fff;font-weight:600;cursor:pointer}\
     .row{display:grid;grid-template-columns:repeat(2,minmax(0,1fr));gap:12px}\
     .row>*{min-width:0}\
     .hero{display:flex;gap:16px;align-items:center;margin-bottom:16px}\
     .hero img{width:120px;height:120px;border-radius:12px;object-fit:cover;object-position:top;border:1px solid #2a3140;background:#0f1115}\
     .hero h1{margin:0}\
.meta{color:#9aa4b2;font-size:12px}\
      .back{display:inline-flex;align-items:center;justify-content:center;padding:10px 14px;border-radius:8px;background:#2a3140;color:#e6e6e6;text-decoration:none;font-weight:600}\
      .form-actions{display:flex;justify-content:space-between;gap:12px;margin-top:16px}\
      .form-actions button{margin-top:0}\
      .preview-img{display:none;width:33.33%;aspect-ratio:1/1;object-fit:contain;border-radius:8px;border:1px solid #2a3140;background:#0f1115;margin:0 0 8px}\
      @media(max-width:768px){.container{padding:14px}.row{grid-template-columns:1fr}button{width:100%}.hero{flex-direction:column;align-items:flex-start}.hero img{width:100%;max-width:240px;height:auto;aspect-ratio:1/1}.preview-img{width:100%}}";

/// The stylesheet the edit pages share.
pub fn shared_page_css() -> (r: &'static str)
    ensures
        r@ == SHARED_PAGE_CSS@,
{
    SHARED_PAGE_CSS
}

/// An edit page: the document around `inner`, with the shared stylesheet.
pub open spec fn spec_page_shell(title: Seq<char>, lang: Seq<char>, inner: Seq<char>) -> Seq<char> {
    "<!doctype html>\n<html lang=\""@ + lang
        + "\">\n<head>\n  <meta charset=\"utf-8\" />\n  <meta name=\"viewport\" content=\"width=device-width, initial-scale=1\" />\n  <title>"@
        + title + "</title>\n  <style>"@ + SHARED_PAGE_CSS@ + "</style>\n</head>\n<body>\n  <div class=\"container\">\n"@
        + inner + "\n  </div>\n</body>\n</html>"@
}

pub fn page_shell(title: &str, lang: &str, inner: &str) -> (r: String)
    ensures
        r@ == spec_page_shell(title@, lang@, inner@),
{
    let mut out = chars_of("<!doctype html>\n<html lang=\"");
    extend_str(&mut out, lang);
    extend_str(
        &mut out,
        "\">\n<head>\n  <meta charset=\"utf-8\" />\n  <meta name=\"viewport\" content=\"width=device-width, initial-scale=1\" />\n  <title>",
    );
    extend_str(&mut out, title);
    extend_str(&mut out, "</title>\n  <style>");
    extend_str(&mut out, shared_page_css());
    extend_str(&mut out, "</style>\n</head>\n<body>\n  <div class=\"container\">\n");
    extend_str(&mut out, inner);
    extend_str(&mut out, "\n  </div>\n</body>\n</html>");
    proof {
        assert(out@ =~= spec_page_shell(title@, lang@, inner@));
    }
    string_of(&out)
}

// ---------------------------------------------------------------------------
// Placeholder images
// ---------------------------------------------------------------------------

/// One char of a label inside a data URI: `%`, `#`, `<`, `>`, `"` and the
/// space are percent-encoded.
pub open spec fn svg_escape_char(c: char) -> Seq<char> {
    if c == '%' {
        "%25"@
    } else if c == '#' {
        "%23"@
    } else if c == '<' {
        "%3C"@
    } else if c == '>' {
        "%3E"@
    } else if c == '"' {
        "%22"@
    } else if c == ' ' {
        "%20"@
    } else {
        seq![c]
    }
}

pub open spec fn svg_escape(s: Seq<char>) -> Seq<char>
    decreases s.len(),
{
    if s.len() == 0 {
        Seq::empty()
    } else {
        svg_escape(s.drop_last()) + svg_escape_char(s.last())
    }
}

/// The number of bytes of a char in UTF-8.
pub open spec fn utf8_width(c: char) -> nat {
    if (c as u32) < 0x80 {
        1
    } else if (c as u32) < 0x800 {
        2
    } else if (c as u32) < 0x10000 {
        3
    } else {
        4
    }
}

/// The number of bytes of a text in UTF-8.
pub open spec fn utf8_len(s: Seq<char>) -> nat
    decreases s.len(),
{
    if s.len() == 0 {
        0
    } else {
        utf8_len(s.drop_last()) + utf8_width(s.last())
    }
}

/// The longest prefix of `s` of at most `max` bytes.
pub open spec fn byte_prefix(s: Seq<char>, max: nat, n: nat) -> Seq<char>
    decreases n,
{
    if n == 0 || n > s.len() {
        Seq::empty()
    } else {
        let p = byte_prefix(s, max, (n - 1) as nat);
        if p.len() == n - 1 && utf8_len(p) + utf8_width(s[n - 1]) <= max {
            p.push(s[n - 1])
        } else {
            p
        }
    }
}

/// The label text of a placeholder: escaped, then cut to its first 32 bytes
/// where it is longer.
pub open spec fn svg_label(label: Seq<char>) -> Seq<char> {
    let safe = svg_escape(label);
    if utf8_len(safe) > 32 {
        byte_prefix(safe, 32, safe.len())
    } else {
        safe
    }
}

/// Whether cutting the escaped label at 32 bytes would split a char (which
/// `String::truncate` refuses).
pub open spec fn svg_label_cut_splits_char(label: Seq<char>) -> bool {
    let safe = svg_escape(label);
    utf8_len(safe) > 32 && utf8_len(byte_prefix(safe, 32, safe.len())) != 32
}

/// A placeholder image for an item without one: its label on a dark card.
pub open spec fn spec_svg_data_uri(label: Seq<char>) -> Seq<char> {
    "data:image/svg+xml;utf8,<svg xmlns='http://www.w3.org/2000/svg' width='320' height='180'><rect width='100%25' height='100%25' fill='%23131a24'/><text x='50%25' y='50%25' dominant-baseline='middle' text-anchor='middle' fill='%239aa4b2' font-size='14' font-family='sans-serif'>"@
        + svg_label(label) + "</text></svg>"@
}

fn char_width(c: char) -> (w: usize)
    ensures
        w == utf8_width(c),
{
    let u = c as u32;
    if u < 0x80 {
        1
    } else if u < 0x800 {
        2
    } else if u < 0x10000 {
        3
    } else {
        4
    }
}

proof fn lemma_utf8_len_push(s: Seq<char>, c: char)
    ensures
        utf8_len(s.push(c)) == utf8_len(s) + utf8_width(c),
{
    assert(s.push(c).drop_last() =~= s);
}

proof fn lemma_byte_prefix_shape(s: Seq<char>, max: nat, n: nat)
    requires
        n <= s.len(),
    ensures
        byte_prefix(s, max, n) == s.subrange(0, byte_prefix(s, max, n).len() as int),
        utf8_len(byte_prefix(s, max, n)) <= max,
    decreases n,
{
    if n > 0 {
        lemma_byte_prefix_shape(s, max, (n - 1) as nat);
        let p = byte_prefix(s, max, (n - 1) as nat);
        if p.len() == n - 1 && utf8_len(p) + utf8_width(s[n - 1]) <= max {
            lemma_utf8_len_push(p, s[n - 1]);
            assert(p.push(s[n - 1]) =~= s.subrange(0, n as int));
        }
    } else {
        assert(Seq::<char>::empty() =~= s.subrange(0, 0));
    }
}

/// The placeholder image of an item labelled `label`.
pub fn svg_data_uri(label: &str) -> (r: String)
    requires
        !svg_label_cut_splits_char(label@),
    ensures
        r@ == spec_svg_data_uri(label@),
{
    let v = chars_of(label);
    let mut safe: Vec<char> = Vec::new();
    let mut bytes: usize = 0;
    let mut i: usize = 0;
    while i < v.len()
        invariant
            i <= v@.len(),
            v@ == label@,
            safe@ == svg_escape(v@.subrange(0, i as int)),
            bytes <= 32 ==> bytes == utf8_len(safe@),
            bytes > 32 ==> utf8_len(safe@) > 32,
        decreases v.len() - i,
    {
        let c = v[i];
        let ghost before = safe@;
        if c == '%' {
            extend_str(&mut safe, "%25");
        } else if c == '#' {
            extend_str(&mut safe, "%23");
        } else if c == '<' {
            extend_str(&mut safe, "%3C");
        } else if c == '>' {
            extend_str(&mut safe, "%3E");
        } else if c == '"' {
            extend_str(&mut safe, "%22");
        } else if c == ' ' {
            extend_str(&mut safe, "%20");
        } else {
            safe.push(c);
        }
        assert(v@.subrange(0, i + 1).drop_last() =~= v@.subrange(0, i as int));
        i = i + 1;
        bytes = 0;
        let mut k: usize = 0;
        while k < safe.len() && bytes <= 32
            invariant
                k <= safe@.len(),
                bytes <= 36,
                bytes == utf8_len(safe@.subrange(0, k as int)),
            decreases safe.len() - k,
        {
            proof {
                lemma_utf8_len_push(safe@.subrange(0, k as int), safe@[k as int]);
                assert(safe@.subrange(0, k as int).push(safe@[k as int]) =~= safe@.subrange(0, k + 1));
            }
            bytes = bytes + char_width(safe[k]);
            k = k + 1;
        }
        proof {
            if k == safe@.len() {
                assert(safe@.subrange(0, k as int) =~= safe@);
            } else {
                lemma_utf8_len_prefix_le(safe@, k as nat);
            }
        }
    }
    assert(v@.subrange(0, v@.len() as int) =~= v@);
    let mut out = chars_of(
        "data:image/svg+xml;utf8,<svg xmlns='http://www.w3.org/2000/svg' width='320' height='180'><rect width='100%25' height='100%25' fill='%23131a24'/><text x='50%25' y='50%25' dominant-baseline='middle' text-anchor='middle' fill='%239aa4b2' font-size='14' font-family='sans-serif'>",
    );
    let ghost head = out@;
    if bytes > 32 {
        let mut kept: Vec<char> = Vec::new();
        let mut used: usize = 0;
        let mut k: usize = 0;
        while k < safe.len()
            invariant
                k <= safe@.len(),
                kept@ == byte_prefix(safe@, 32, k as nat),
                used == utf8_len(kept@),
                used <= 32,
            decreases safe.len() - k,
        {
            proof {
                lemma_byte_prefix_shape(safe@, 32, k as nat);
                lemma_byte_prefix_len(safe@, 32, k as nat);
            }
            let w = char_width(safe[k]);
            if kept.len() == k && used + w <= 32 {
                proof {
                    lemma_utf8_len_push(kept@, safe@[k as int]);
                }
                kept.push(safe[k]);
                used = used + w;
            }
            k = k + 1;
        }
        extend_chars(&mut out, &kept);
    } else {
        extend_chars(&mut out, &safe);
    }
    extend_str(&mut out, "</text></svg>");
    assert(out@ =~= spec_svg_data_uri(label@));
    string_of(&out)
}

proof fn lemma_byte_prefix_len(s: Seq<char>, max: nat, n: nat)
    ensures
        byte_prefix(s, max, n).len() <= n,
    decreases n,
{
    if n > 0 {
        lemma_byte_prefix_len(s, max, (n - 1) as nat);
    }
}

proof fn lemma_utf8_len_prefix_le(s: Seq<char>, k: nat)
    requires
        k <= s.len(),
    ensures
        utf8_len(s.subrange(0, k as int)) <= utf8_len(s),
    decreases s.len() - k,
{
    if k < s.len() {
        lemma_utf8_len_prefix_le(s, k + 1);
        lemma_utf8_len_push(s.subrange(0, k as int), s[k as int]);
        assert(s.subrange(0, k as int).push(s[k as int]) =~= s.subrange(0, (k + 1) as int));
    } else {
        assert(s.subrange(0, k as int) =~= s);
    }
}

// ---------------------------------------------------------------------------
// The audit log
// ---------------------------------------------------------------------------

/// One char of the audit detail: backslashes and quotes get a backslash.
pub open spec fn audit_escape_char(c: char) -> Seq<char> {
    if c == '\\' {
        seq!['\\', '\\']
    } else if c == '"' {
        seq!['\\', '"']
    } else {
        seq![c]
    }
}

pub open spec fn audit_escape(s: Seq<char>) -> Seq<char>
    decreases s.len(),
{
    if s.len() == 0 {
        Seq::empty()
    } else {
        audit_escape(s.drop_last()) + audit_escape_char(s.last())
    }
}

/// The decimal form of an i32.
pub open spec fn signed_decimal_i32(n: i32) -> Seq<char> {
    if n < 0 {
        seq!['-'] + decimal((-(n as int)) as nat)
    } else {
        decimal(n as nat)
    }
}

/// One line of the audit log, a JSON object ended by a line break. Only the
/// detail is escaped.
pub open spec fn spec_audit_line(ts: Seq<char>, username: Seq<char>, uid: i32, action: Seq<char>, detail: Seq<char>) -> Seq<char> {
    "{\"ts\":\""@ + ts + "\",\"user\":\""@ + username + "\",\"uid\":"@ + signed_decimal_i32(uid)
        + ",\"action\":\""@ + action + "\",\"detail\":\""@ + audit_escape(detail) + "\"}\n"@
}

pub fn audit_line(ts: &str, username: &str, uid: i32, action: &str, detail: &str) -> (r: String)
    ensures
        r@ == spec_audit_line(ts@, username@, uid, action@, detail@),
{
    let mut out = chars_of("{\"ts\":\"");
    extend_str(&mut out, ts);
    extend_str(&mut out, "\",\"user\":\"");
    extend_str(&mut out, username);
    extend_str(&mut out, "\",\"uid\":");
    let ghost before_uid = out@;
    if uid < 0 {
        out.push('-');
        let m: u64 = ((-(uid as i64)) as u64);
        push_decimal(&mut out, m);
    } else {
        push_decimal(&mut out, uid as u64);
    }
    assert(out@ =~= before_uid + signed_decimal_i32(uid));
    extend_str(&mut out, ",\"action\":\"");
    extend_str(&mut out, action);
    extend_str(&mut out, "\",\"detail\":\"");
    let d = chars_of(detail);
    let ghost base = out@;
    let mut i: usize = 0;
    while i < d.len()
        invariant
            i <= d@.len(),
            out@ == base + audit_escape(d@.subrange(0, i as int)),
        decreases d.len() - i,
    {
        let c = d[i];
        if c == '\\' {
            out.push('\\');
            out.push('\\');
        } else if c == '"' {
            out.push('\\');
            out.push('"');
        } else {
            out.push(c);
        }
        assert(d@.subrange(0, i + 1).drop_last() =~= d@.subrange(0, i as int));
        i = i + 1;
        assert(out@ =~= base + audit_escape(d@.subrange(0, i as int)));
    }
    assert(d@.subrange(0, d@.len() as int) =~= d@);
    extend_str(&mut out, "\"}\n");
    string_of(&out)
}

} // verus!
