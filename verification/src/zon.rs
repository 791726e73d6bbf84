use vstd::prelude::*;
use crate::text::{
    chars_eq, chars_of, find_char, lemma_find_char_bounds, spec_find_char, string_of, sub_chars,
    trim, trim_chars,
};

verus! {

/// The latest value stored for `key` among `pairs`.
pub open spec fn pairs_lookup(pairs: Seq<(Seq<char>, Seq<char>)>, key: Seq<char>) -> Option<Seq<char>>
    decreases pairs.len(),
{
    if pairs.len() == 0 {
        None
    } else if pairs.last().0 == key {
        Some(pairs.last().1)
    } else {
        pairs_lookup(pairs.drop_last(), key)
    }
}

pub open spec fn pairs_map(pairs: Seq<(Seq<char>, Seq<char>)>) -> Map<Seq<char>, Seq<char>> {
    Map::new(|k: Seq<char>| pairs_lookup(pairs, k) is Some, |k: Seq<char>| pairs_lookup(pairs, k)->0)
}

pub open spec fn pair_views(v: Seq<(Vec<char>, Vec<char>)>) -> Seq<(Seq<char>, Seq<char>)> {
    v.map_values(|p: (Vec<char>, Vec<char>)| (p.0@, p.1@))
}

/// One ZON record: its `.key = value` fields.
pub struct ZonEntry {
    pairs: Vec<(Vec<char>, Vec<char>)>,
}

impl ZonEntry {
    pub closed spec fn view(&self) -> Map<Seq<char>, Seq<char>> {
        pairs_map(pair_views(self.pairs@))
    }

    pub fn new() -> (e: Self)
        ensures
            e.view() == Map::<Seq<char>, Seq<char>>::empty(),
    {
        let e = ZonEntry { pairs: Vec::new() };
        assert(e.view() =~= Map::<Seq<char>, Seq<char>>::empty());
        e
    }

    /// Whether the record has no field.
    pub fn is_empty(&self) -> (r: bool)
        ensures
            r == (self.view() =~= Map::<Seq<char>, Seq<char>>::empty()),
    {
        let r = self.pairs.len() == 0;
        proof {
            let pv = pair_views(self.pairs@);
            if !r {
                let k = pv.last().0;
                assert(pairs_lookup(pv, k) is Some);
                assert(self.view().contains_key(k));
            } else {
                assert(pv.len() == 0);
                assert(self.view() =~= Map::<Seq<char>, Seq<char>>::empty());
            }
        }
        r
    }

    /// Sets `key` to `value`, replacing any earlier value.
    pub fn insert(&mut self, key: Vec<char>, value: Vec<char>)
        ensures
            final(self).view() == old(self).view().insert(key@, value@),
    {
        let mut kept: Vec<(Vec<char>, Vec<char>)> = Vec::new();
        let mut i: usize = 0;
        let ghost old_pv = pair_views(self.pairs@);
        while i < self.pairs.len()
            invariant
                i <= self.pairs@.len(),
                old_pv == pair_views(self.pairs@),
                forall|k: Seq<char>|
                    #![trigger pairs_lookup(pair_views(kept@), k)]
                    pairs_lookup(pair_views(kept@), k) == if k == key@ {
                        None
                    } else {
                        pairs_lookup(old_pv.subrange(0, i as int), k)
                    },
            decreases self.pairs.len() - i,
        {
            let same = chars_eq(&self.pairs[i].0, &key);
            let ghost before = kept@;
            if !same {
                let a = sub_chars(&self.pairs[i].0, 0, self.pairs[i].0.len());
                let b = sub_chars(&self.pairs[i].1, 0, self.pairs[i].1.len());
                assert(a@ =~= self.pairs@[i as int].0@);
                assert(b@ =~= self.pairs@[i as int].1@);
                kept.push((a, b));
                assert(pair_views(kept@).drop_last() =~= pair_views(before));
            }
            i = i + 1;
            assert(old_pv.subrange(0, i as int).drop_last() =~= old_pv.subrange(0, i - 1));
            assert forall|k: Seq<char>|
                #![trigger pairs_lookup(pair_views(kept@), k)]
                pairs_lookup(pair_views(kept@), k) == if k == key@ {
                    None
                } else {
                    pairs_lookup(old_pv.subrange(0, i as int), k)
                } by {
                let prev = pairs_lookup(pair_views(before), k);
                assert(old_pv.subrange(0, i as int).last() == old_pv[i - 1]);
                if same {
                    assert(kept@ == before);
                }
            }
        }
        assert(old_pv.subrange(0, old_pv.len() as int) =~= old_pv);
        let ghost before = kept@;
        let ghost kv = key@;
        let ghost vv = value@;
        kept.push((key, value));
        assert(pair_views(kept@).drop_last() =~= pair_views(before));
        assert forall|k: Seq<char>|
            #![trigger pairs_lookup(pair_views(kept@), k)]
            pairs_lookup(pair_views(kept@), k) == if k == kv {
                Some(vv)
            } else {
                pairs_lookup(old_pv, k)
            } by {
            let prev = pairs_lookup(pair_views(before), k);
        }
        self.pairs = kept;
        assert(self.view() =~= pairs_map(old_pv).insert(kv, vv));
    }

    /// The value of field `key`, if the record has one.
    pub fn get(&self, key: &str) -> (r: Option<String>)
        ensures
            match r {
                Some(v) => self.view().contains_key(key@) && self.view()[key@] == v@,
                None => !self.view().contains_key(key@),
            },
    {
        let k = chars_of(key);
        let mut i: usize = self.pairs.len();
        let ghost pv = pair_views(self.pairs@);
        assert(pv.subrange(0, i as int) =~= pv);
        while i > 0
            invariant
                i <= self.pairs@.len(),
                pv == pair_views(self.pairs@),
                k@ == key@,
                pairs_lookup(pv.subrange(0, i as int), k@) == pairs_lookup(pv, k@),
            decreases i,
        {
            assert(pv.subrange(0, i as int).drop_last() =~= pv.subrange(0, i - 1));
            if chars_eq(&self.pairs[i - 1].0, &k) {
                return Some(string_of(&self.pairs[i - 1].1));
            }
            i = i - 1;
        }
        None
    }
}

} // verus!

verus! {

/// Scans an entry body from `k` with `ed` braces open: the index after the
/// brace that closes it (or the end) and the braces still open.
pub open spec fn close_scan(d: Seq<char>, k: int, ed: int) -> (int, int)
    decreases d.len() - k,
{
    if k < 0 || k >= d.len() || ed <= 0 {
        (k, ed)
    } else {
        let ed1 = if d[k] == '{' {
            ed + 1
        } else {
            ed
        };
        let ed2 = if d[k] == '}' {
            ed1 - 1
        } else {
            ed1
        };
        close_scan(d, k + 1, ed2)
    }
}

/// Scans a quoted value from `q`: the index of its closing quote (a
/// backslash escapes the next char), or past the end.
pub open spec fn quote_scan(r: Seq<char>, q: int) -> int
    decreases r.len() + 1 - q,
{
    if q < 0 || q >= r.len() || r[q] == '"' {
        q
    } else if r[q] == '\\' {
        quote_scan(r, q + 2)
    } else {
        quote_scan(r, q + 1)
    }
}

pub open spec fn is_value_end(c: char) -> bool {
    c == ',' || c == '\n' || c == '}'
}

/// Scans a bare value from `q` to the next `,`, newline or `}`.
pub open spec fn delim_scan(r: Seq<char>, q: int) -> int
    decreases r.len() - q,
{
    if q < 0 || q >= r.len() || is_value_end(r[q]) {
        q
    } else {
        delim_scan(r, q + 1)
    }
}

pub open spec fn is_ascii_char(c: char) -> bool {
    (c as u32) < 128
}

pub proof fn lemma_close_scan_bounds(d: Seq<char>, k: int, ed: int)
    requires
        0 <= k <= d.len(),
        0 <= ed,
    ensures
        k <= close_scan(d, k, ed).0 <= d.len(),
        close_scan(d, k, ed).1 >= 0,
        close_scan(d, k, ed).1 > 0 ==> close_scan(d, k, ed).0 == d.len(),
        close_scan(d, k, ed).1 <= ed + (close_scan(d, k, ed).0 - k),
        ed > 0 && close_scan(d, k, ed).1 == 0 ==> k < close_scan(d, k, ed).0 && d[close_scan(d, k, ed).0 - 1] == '}',
    decreases d.len() - k,
{
    if k < d.len() && ed > 0 {
        let ed1 = if d[k] == '{' {
            ed + 1
        } else {
            ed
        };
        let ed2 = if d[k] == '}' {
            ed1 - 1
        } else {
            ed1
        };
        lemma_close_scan_bounds(d, k + 1, ed2);
    }
}

pub proof fn lemma_quote_scan_bounds(r: Seq<char>, q: int)
    requires
        0 <= q <= r.len(),
    ensures
        q <= quote_scan(r, q) <= r.len() + 1,
        quote_scan(r, q) < r.len() ==> r[quote_scan(r, q)] == '"',
    decreases r.len() + 1 - q,
{
    if q < r.len() && r[q] != '"' {
        if r[q] == '\\' {
            if q + 2 <= r.len() {
                lemma_quote_scan_bounds(r, q + 2);
            } else {
                assert(quote_scan(r, q + 2) == q + 2);
            }
        } else {
            lemma_quote_scan_bounds(r, q + 1);
        }
    }
}

pub proof fn lemma_delim_scan_bounds(r: Seq<char>, q: int)
    requires
        0 <= q <= r.len(),
    ensures
        q <= delim_scan(r, q) <= r.len(),
    decreases r.len() - q,
{
    if q < r.len() && !is_value_end(r[q]) {
        lemma_delim_scan_bounds(r, q + 1);
    }
}

/// The fields of an entry body from `pos` on, added to `m`; `None` where the
/// body cannot be cut as the text says (a quoted value that opens at the very
/// end, or that runs unterminated into a final non-ASCII char).
pub open spec fn entry_loop(r: Seq<char>, pos: int, m: Map<Seq<char>, Seq<char>>) -> Option<Map<Seq<char>, Seq<char>>>
    decreases r.len() + 1 - pos,
{
    if pos < 0 || pos >= r.len() {
        Some(m)
    } else {
        match spec_find_char(r, '.', pos) {
            None => Some(m),
            Some(dot) => {
                proof {
                    lemma_find_char_bounds(r, '.', pos);
                    lemma_find_char_bounds(r, '=', dot + 1);
                }
                match spec_find_char(r, '=', dot + 1) {
                    None => Some(m),
                    Some(eq) => {
                        let key = trim(r.subrange(dot + 1, eq));
                        let vs = eq + 1;
                        if vs < r.len() && r[vs] == '"' {
                            let q = quote_scan(r, vs + 1);
                            proof {
                                lemma_quote_scan_bounds(r, vs + 1);
                            }
                            let p3 = if q < r.len() {
                                q + 1
                            } else {
                                q
                            };
                            if p3 - 1 < vs + 1 || (q == r.len() && !is_ascii_char(r[r.len() - 1])) {
                                None
                            } else {
                                entry_loop(r, p3, m.insert(key, r.subrange(vs + 1, p3 - 1)))
                            }
                        } else {
                            let q = delim_scan(r, vs);
                            proof {
                                lemma_delim_scan_bounds(r, vs);
                            }
                            entry_loop(r, q, m.insert(key, trim(r.subrange(vs, q))))
                        }
                    },
                }
            },
        }
    }
}

/// The records of a ZON table: the brace-delimited entries at nesting depth
/// one, each as a map of its fields; entries without fields are dropped.
/// `None` where the text cannot be cut as written (see `entry_loop`, and an
/// entry brace that is the text's last char or whose unclosed body ends in a
/// non-ASCII char).
pub open spec fn outer_loop(d: Seq<char>, i: int, depth: int, acc: Seq<Map<Seq<char>, Seq<char>>>) -> Option<Seq<Map<Seq<char>, Seq<char>>>>
    decreases d.len() + 1 - i,
{
    if i < 0 || i >= d.len() {
        Some(acc)
    } else if d[i] == '{' && depth == 1 {
        let start = i + 1;
        let (j, ed) = close_scan(d, start, 1);
        proof {
            lemma_close_scan_bounds(d, start, 1);
        }
        if j == start {
            None
        } else if ed > 0 && !is_ascii_char(d[d.len() - 1]) {
            None
        } else {
            match entry_loop(d.subrange(start, j - 1), 0, Map::empty()) {
                None => None,
                Some(m) => outer_loop(
                    d,
                    j,
                    depth,
                    if m == Map::<Seq<char>, Seq<char>>::empty() {
                        acc
                    } else {
                        acc.push(m)
                    },
                ),
            }
        }
    } else {
        let depth1 = if d[i] == '{' {
            depth + 1
        } else {
            depth
        };
        let depth2 = if d[i] == '}' {
            depth1 - 1
        } else {
            depth1
        };
        outer_loop(d, i + 1, depth2, acc)
    }
}

pub open spec fn spec_zon_entries(data: Seq<char>) -> Option<Seq<Map<Seq<char>, Seq<char>>>> {
    outer_loop(data, 0, 0, Seq::empty())
}

pub open spec fn entry_views(v: Seq<ZonEntry>) -> Seq<Map<Seq<char>, Seq<char>>> {
    v.map_values(|e: ZonEntry| e.view())
}

fn parse_entry(r: &Vec<char>) -> (res: Option<ZonEntry>)
    requires
        r@.len() < usize::MAX,
    ensures
        match res {
            Some(e) => entry_loop(r@, 0, Map::empty()) == Some(e.view()),
            None => entry_loop(r@, 0, Map::empty()) is None,
        },
{
    let mut m = ZonEntry::new();
    let mut pos: usize = 0;
    while pos < r.len()
        invariant
            pos <= r.len() + 1,
            r@.len() < usize::MAX,
            entry_loop(r@, pos as int, m.view()) == entry_loop(r@, 0, Map::empty()),
        decreases r.len() + 1 - pos,
    {
        let dot = match find_char(r, '.', pos) {
            Some(d) => d,
            None => return Some(m),
        };
        proof {
            lemma_find_char_bounds(r@, '.', pos as int);
            lemma_find_char_bounds(r@, '=', dot + 1);
        }
        let eq = match find_char(r, '=', dot + 1) {
            Some(e) => e,
            None => return Some(m),
        };
        let raw_key = sub_chars(r, dot + 1, eq);
        let key = trim_chars(&raw_key);
        let vs = eq + 1;
        if vs < r.len() && r[vs] == '"' {
            let mut q = vs + 1;
            proof {
                lemma_quote_scan_bounds(r@, vs + 1);
            }
            while q < r.len() && r[q] != '"'
                invariant
                    r@.len() < usize::MAX,
                    vs + 1 <= q <= r.len() + 1,
                    quote_scan(r@, q as int) == quote_scan(r@, vs + 1),
                decreases r.len() + 1 - q,
            {
                if r[q] == '\\' {
                    q = q + 1;
                }
                q = q + 1;
            }
            let p3 = if q < r.len() { q + 1 } else { q };
            if p3 - 1 < vs + 1 || (q == r.len() && (r[r.len() - 1] as u32) >= 128) {
                return None;
            }
            let v = sub_chars(r, vs + 1, p3 - 1);
            m.insert(key, v);
            pos = p3;
        } else {
            let mut q = vs;
            while q < r.len() && !(r[q] == ',' || r[q] == '\n' || r[q] == '}')
                invariant
                    vs <= q <= r.len(),
                    delim_scan(r@, q as int) == delim_scan(r@, vs as int),
                decreases r.len() - q,
            {
                q = q + 1;
            }
            let raw = sub_chars(r, vs, q);
            let v = trim_chars(&raw);
            m.insert(key, v);
            pos = q;
        }
    }
    Some(m)
}

/// Parses the entries of a ZON table; `None` exactly where the text cannot be
/// cut as written.
pub fn zon_try_parse_entries(data: &str) -> (res: Option<Vec<ZonEntry>>)
    ensures
        match res {
            Some(v) => spec_zon_entries(data@) == Some(entry_views(v@)),
            None => spec_zon_entries(data@) is None,
        },
{
    let d = chars_of(data);
    let mut entries: Vec<ZonEntry> = Vec::new();
    let mut depth: i128 = 0;
    let mut i: usize = 0;
    assert(entry_views(entries@) =~= Seq::<Map<Seq<char>, Seq<char>>>::empty());
    while i < d.len()
        invariant
            i <= d.len(),
            d@ == data@,
            -(i as int) <= depth <= i as int,
            outer_loop(d@, i as int, depth as int, entry_views(entries@)) == spec_zon_entries(data@),
        decreases d.len() + 1 - i,
    {
        if d[i] == '{' && depth == 1 {
            let start = i + 1;
            let mut j = start;
            let mut ed: usize = 1;
            proof {
                lemma_close_scan_bounds(d@, start as int, 1);
            }
            while j < d.len() && ed > 0
                invariant
                    1 <= start <= j <= d.len(),
                    ed <= 1 + (j - start),
                    close_scan(d@, j as int, ed as int) == close_scan(d@, start as int, 1),
                decreases d.len() - j,
            {
                if d[j] == '{' {
                    ed = ed + 1;
                }
                if d[j] == '}' {
                    ed = ed - 1;
                }
                j = j + 1;
            }
            if j == start {
                return None;
            }
            if ed > 0 && (d[d.len() - 1] as u32) >= 128 {
                return None;
            }
            let body = sub_chars(&d, start, j - 1);
            match parse_entry(&body) {
                None => return None,
                Some(m) => {
                    let empty = m.is_empty();
                    if !empty {
                        let ghost before = entries@;
                        entries.push(m);
                        assert(entry_views(entries@) =~= entry_views(before).push(m.view()));
                    } else {
                        assert(m.view() == Map::<Seq<char>, Seq<char>>::empty());
                    }
                    i = j;
                },
            }
        } else {
            if d[i] == '{' {
                depth = depth + 1;
            }
            if d[i] == '}' {
                depth = depth - 1;
            }
            i = i + 1;
        }
    }
    Some(entries)
}

/// Parses the entries of a ZON table that can be cut as written.
pub fn zon_parse_entries(data: &str) -> (entries: Vec<ZonEntry>)
    requires
        spec_zon_entries(data@) is Some,
    ensures
        spec_zon_entries(data@) == Some(entry_views(entries@)),
{
    match zon_try_parse_entries(data) {
        Some(v) => v,
        None => Vec::new(),
    }
}

} // verus!
