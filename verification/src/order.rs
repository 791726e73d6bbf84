use vstd::prelude::*;

verus! {

/// `s` with `x` placed after every entry whose key is at most its own.
pub open spec fn insert_by_key(s: Seq<(u64, usize)>, x: (u64, usize)) -> Seq<(u64, usize)>
    decreases s.len(),
{
    if s.len() == 0 {
        seq![x]
    } else if s.last().0 <= x.0 {
        s.push(x)
    } else {
        insert_by_key(s.drop_last(), x).push(s.last())
    }
}

/// A stable sort by key: entries with equal keys keep their order.
pub open spec fn sort_by_key(s: Seq<(u64, usize)>) -> Seq<(u64, usize)>
    decreases s.len(),
{
    if s.len() == 0 {
        Seq::empty()
    } else {
        insert_by_key(sort_by_key(s.drop_last()), s.last())
    }
}

pub open spec fn sorted_by_key(s: Seq<(u64, usize)>) -> bool {
    forall|i: int, j: int| 0 <= i < j < s.len() ==> s[i].0 <= s[j].0
}

proof fn lemma_insert_by_key(s: Seq<(u64, usize)>, x: (u64, usize), j: int)
    requires
        0 <= j <= s.len(),
        forall|k: int| j <= k < s.len() ==> #[trigger] s[k].0 > x.0,
        j == 0 || s[j - 1].0 <= x.0,
    ensures
        insert_by_key(s, x) == s.insert(j, x),
    decreases s.len(),
{
    if s.len() == 0 {
        assert(s.insert(j, x) =~= seq![x]);
    } else if j == s.len() {
        assert(s.insert(j, x) =~= s.push(x));
    } else {
        lemma_insert_by_key(s.drop_last(), x, j);
        assert(s.insert(j, x) =~= s.drop_last().insert(j, x).push(s.last()));
    }
}

proof fn lemma_insert_by_key_sorted(s: Seq<(u64, usize)>, x: (u64, usize))
    requires
        sorted_by_key(s),
    ensures
        sorted_by_key(insert_by_key(s, x)),
        insert_by_key(s, x).len() == s.len() + 1,
        forall|k: int|
            0 <= k < insert_by_key(s, x).len() ==> #[trigger] insert_by_key(s, x)[k] == x || s.contains(
                insert_by_key(s, x)[k],
            ),
    decreases s.len(),
{
    if s.len() > 0 && s.last().0 > x.0 {
        let d = s.drop_last();
        lemma_insert_by_key_sorted(d, x);
        let r = insert_by_key(d, x);
        let out = r.push(s.last());
        assert forall|k: int| 0 <= k < out.len() implies #[trigger] out[k] == x || s.contains(out[k]) by {
            if k < r.len() {
                if r[k] != x {
                    let m = choose|m: int| 0 <= m < d.len() && d[m] == r[k];
                    assert(s[m] == r[k]);
                }
            } else {
                assert(s[s.len() - 1] == out[k]);
            }
        }
        assert forall|a: int, b: int| 0 <= a < b < out.len() implies out[a].0 <= out[b].0 by {
            if b == out.len() - 1 && a < r.len() {
                if r[a] != x {
                    let m = choose|m: int| 0 <= m < d.len() && d[m] == r[a];
                    assert(s[m] == r[a]);
                }
            }
        }
    } else if s.len() > 0 {
        let out = s.push(x);
        assert forall|k: int| 0 <= k < out.len() implies #[trigger] out[k] == x || s.contains(out[k]) by {
            if k < s.len() {
                assert(s[k] == out[k]);
            }
        }
    }
}

/// The stable sort by key is ordered and keeps the length.
pub proof fn lemma_sort_by_key_sorted(s: Seq<(u64, usize)>)
    ensures
        sorted_by_key(sort_by_key(s)),
        sort_by_key(s).len() == s.len(),
    decreases s.len(),
{
    if s.len() > 0 {
        lemma_sort_by_key_sorted(s.drop_last());
        lemma_insert_by_key_sorted(sort_by_key(s.drop_last()), s.last());
    }
}

proof fn lemma_insert_by_key_is_insert(s: Seq<(u64, usize)>, x: (u64, usize))
    ensures
        exists|j: int| 0 <= j <= s.len() && insert_by_key(s, x) == s.insert(j, x),
    decreases s.len(),
{
    if s.len() == 0 {
        assert(insert_by_key(s, x) =~= s.insert(0, x));
    } else if s.last().0 <= x.0 {
        assert(insert_by_key(s, x) =~= s.insert(s.len() as int, x));
    } else {
        let d = s.drop_last();
        lemma_insert_by_key_is_insert(d, x);
        let j = choose|j: int| 0 <= j <= d.len() && insert_by_key(d, x) == d.insert(j, x);
        assert(insert_by_key(s, x) =~= s.insert(j, x));
    }
}

/// The stable sort by key keeps exactly the entries it was given, and
/// entries whose indices differ keep differing indices.
pub proof fn lemma_sort_by_key_contents(s: Seq<(u64, usize)>)
    requires
        forall|a: int, b: int| 0 <= a < b < s.len() ==> s[a].1 != s[b].1,
    ensures
        sort_by_key(s).len() == s.len(),
        forall|y: (u64, usize)| sort_by_key(s).contains(y) <==> s.contains(y),
        forall|a: int, b: int|
            0 <= a < b < sort_by_key(s).len() ==> sort_by_key(s)[a].1 != sort_by_key(s)[b].1,
    decreases s.len(),
{
    if s.len() > 0 {
        let d = s.drop_last();
        let x = s.last();
        lemma_sort_by_key_contents(d);
        let t = sort_by_key(d);
        lemma_insert_by_key_is_insert(t, x);
        let j = choose|j: int| 0 <= j <= t.len() && insert_by_key(t, x) == t.insert(j, x);
        let out = t.insert(j, x);
        assert(sort_by_key(s) == out);
        assert(s =~= d.push(x));
        assert forall|y: (u64, usize)| out.contains(y) <==> s.contains(y) by {
            if out.contains(y) {
                let k = choose|k: int| 0 <= k < out.len() && out[k] == y;
                if k < j {
                    assert(t[k] == y);
                    assert(d.contains(y));
                    let m = choose|m: int| 0 <= m < d.len() && d[m] == y;
                    assert(s[m] == y);
                } else if k > j {
                    assert(t[k - 1] == y);
                    assert(d.contains(y));
                    let m = choose|m: int| 0 <= m < d.len() && d[m] == y;
                    assert(s[m] == y);
                } else {
                    assert(s[s.len() - 1] == y);
                }
            }
            if s.contains(y) {
                let m = choose|m: int| 0 <= m < s.len() && s[m] == y;
                if m == s.len() - 1 {
                    assert(out[j] == y);
                } else {
                    assert(d[m] == y);
                    assert(d.contains(y));
                    assert(t.contains(y));
                    let k = choose|k: int| 0 <= k < t.len() && t[k] == y;
                    if k < j {
                        assert(out[k] == y);
                    } else {
                        assert(out[k + 1] == y);
                    }
                }
            }
        }
        assert forall|k: int| 0 <= k < t.len() implies #[trigger] t[k].1 != x.1 by {
            assert(t.contains(t[k]));
            assert(d.contains(t[k]));
            let m = choose|m: int| 0 <= m < d.len() && d[m] == t[k];
            assert(s[m] == t[k]);
        }
        assert forall|a: int, b: int| 0 <= a < b < out.len() implies out[a].1 != out[b].1 by {
            if a == j {
                assert(out[b] == t[b - 1]);
            } else if b == j {
                assert(out[a] == t[a]);
            } else if b < j {
                assert(out[a] == t[a] && out[b] == t[b]);
            } else if a < j {
                assert(out[a] == t[a] && out[b] == t[b - 1]);
            } else {
                assert(out[a] == t[a - 1] && out[b] == t[b - 1]);
            }
        }
    }
}

/// Inserts `x` into the key-ordered `v` after every entry whose key is at most
/// its own.
pub fn insert_sorted(v: &mut Vec<(u64, usize)>, x: (u64, usize))
    ensures
        final(v)@ == insert_by_key(old(v)@, x),
{
    let mut j = v.len();
    while j > 0 && v[j - 1].0 > x.0
        invariant
            j <= v@.len(),
            forall|k: int| j <= k < v@.len() ==> #[trigger] v@[k].0 > x.0,
        decreases j,
    {
        j = j - 1;
    }
    proof {
        lemma_insert_by_key(v@, x, j as int);
    }
    v.insert(j, x);
}


// ---------------------------------------------------------------------------
// Order of names
// ---------------------------------------------------------------------------

/// Whether `a` comes before `b` in the order of `str`: the first char where
/// they differ decides, by its code point, else the shorter comes first.
pub open spec fn chars_lt(a: Seq<char>, b: Seq<char>) -> bool
    decreases a.len(),
{
    if a.len() == 0 {
        b.len() > 0
    } else if b.len() == 0 {
        false
    } else if a[0] != b[0] {
        (a[0] as int) < (b[0] as int)
    } else {
        chars_lt(a.drop_first(), b.drop_first())
    }
}

/// `a` comes before `b` or is equal to it.
pub open spec fn chars_le(a: Seq<char>, b: Seq<char>) -> bool {
    !chars_lt(b, a)
}

pub proof fn lemma_chars_lt_asym(a: Seq<char>, b: Seq<char>)
    ensures
        chars_lt(a, b) ==> !chars_lt(b, a),
    decreases a.len(),
{
    if a.len() > 0 && b.len() > 0 && a[0] == b[0] {
        lemma_chars_lt_asym(a.drop_first(), b.drop_first());
    }
}

pub proof fn lemma_chars_le_trans(a: Seq<char>, b: Seq<char>, c: Seq<char>)
    ensures
        chars_le(a, b) && chars_le(b, c) ==> chars_le(a, c),
    decreases a.len(),
{
    if a.len() > 0 && b.len() > 0 && c.len() > 0 {
        lemma_chars_le_trans(a.drop_first(), b.drop_first(), c.drop_first());
    }
}

pub proof fn lemma_chars_lt_total(a: Seq<char>, b: Seq<char>)
    ensures
        chars_lt(a, b) || chars_lt(b, a) || a == b,
    decreases a.len(),
{
    if a.len() > 0 && b.len() > 0 {
        if a[0] == b[0] {
            lemma_chars_lt_total(a.drop_first(), b.drop_first());
            if a.drop_first() == b.drop_first() {
                assert(a =~= seq![a[0]] + a.drop_first());
                assert(b =~= seq![b[0]] + b.drop_first());
            }
        }
    } else if a.len() == 0 && b.len() == 0 {
        assert(a =~= b);
    }
}

/// `s` with `x` placed after every entry whose name comes before its own or
/// equals it.
pub open spec fn insert_by_name(s: Seq<(u32, Seq<char>)>, x: (u32, Seq<char>)) -> Seq<(u32, Seq<char>)>
    decreases s.len(),
{
    if s.len() == 0 {
        seq![x]
    } else if !chars_lt(x.1, s.last().1) {
        s.push(x)
    } else {
        insert_by_name(s.drop_last(), x).push(s.last())
    }
}

/// A stable sort by name: entries with equal names keep their order.
pub open spec fn sort_by_name(s: Seq<(u32, Seq<char>)>) -> Seq<(u32, Seq<char>)>
    decreases s.len(),
{
    if s.len() == 0 {
        Seq::empty()
    } else {
        insert_by_name(sort_by_name(s.drop_last()), s.last())
    }
}

pub open spec fn sorted_by_name(s: Seq<(u32, Seq<char>)>) -> bool {
    forall|i: int, j: int| 0 <= i < j < s.len() ==> chars_le(s[i].1, s[j].1)
}

proof fn lemma_insert_by_name_at(s: Seq<(u32, Seq<char>)>, x: (u32, Seq<char>), j: int)
    requires
        0 <= j <= s.len(),
        forall|k: int| j <= k < s.len() ==> chars_lt(x.1, #[trigger] s[k].1),
        j == 0 || !chars_lt(x.1, s[j - 1].1),
    ensures
        insert_by_name(s, x) == s.insert(j, x),
    decreases s.len(),
{
    if s.len() == 0 {
        assert(s.insert(j, x) =~= seq![x]);
    } else if j == s.len() {
        assert(s.insert(j, x) =~= s.push(x));
    } else {
        lemma_insert_by_name_at(s.drop_last(), x, j);
        assert(s.insert(j, x) =~= s.drop_last().insert(j, x).push(s.last()));
    }
}

proof fn lemma_insert_by_name_sorted(s: Seq<(u32, Seq<char>)>, x: (u32, Seq<char>), j: int)
    requires
        sorted_by_name(s),
        0 <= j <= s.len(),
        forall|k: int| j <= k < s.len() ==> chars_lt(x.1, #[trigger] s[k].1),
        j == 0 || !chars_lt(x.1, s[j - 1].1),
    ensures
        sorted_by_name(s.insert(j, x)),
{
    let out = s.insert(j, x);
    assert forall|a: int, b: int| 0 <= a < b < out.len() implies chars_le(out[a].1, out[b].1) by {
        if a < j && b == j {
            lemma_chars_le_trans(s[a].1, s[j - 1].1, x.1);
        } else if a == j && b > j {
            lemma_chars_lt_asym(x.1, s[b - 1].1);
        } else if a < j && b > j {
            assert(chars_le(s[a].1, s[b - 1].1));
        } else if a > j {
            assert(chars_le(s[a - 1].1, s[b - 1].1));
        }
    }
}

/// The stable sort by name orders the entries by name and keeps every entry
/// as often as it was there.
pub proof fn law_sort_by_name(s: Seq<(u32, Seq<char>)>)
    ensures
        sorted_by_name(sort_by_name(s)),
        sort_by_name(s).to_multiset() == s.to_multiset(),
    decreases s.len(),
{
    broadcast use vstd::seq_lib::group_to_multiset_ensures;
    if s.len() == 0 {
        assert(sort_by_name(s) =~= s);
    } else {
        let d = s.drop_last();
        let x = s.last();
        law_sort_by_name(d);
        let t = sort_by_name(d);
        let j = insert_position(t, x);
        lemma_insert_position(t, x);
        lemma_insert_by_name_at(t, x, j);
        lemma_insert_by_name_sorted(t, x, j);
        assert(s =~= d.push(x));
        let out = t.insert(j, x);
        assert(out.remove(j) =~= t);
        vstd::seq_lib::to_multiset_remove(out, j);
        assert(out[j] == x);
        assert(out.to_multiset().count(x) > 0);
        assert(out.to_multiset() =~= t.to_multiset().insert(x));
    }
}

/// Where the stable sort puts `x` in `t`: after the last entry whose name
/// is not after `x`'s.
pub open spec fn insert_position(t: Seq<(u32, Seq<char>)>, x: (u32, Seq<char>)) -> int
    decreases t.len(),
{
    if t.len() == 0 {
        0
    } else if !chars_lt(x.1, t.last().1) {
        t.len() as int
    } else {
        insert_position(t.drop_last(), x)
    }
}

proof fn lemma_insert_position(t: Seq<(u32, Seq<char>)>, x: (u32, Seq<char>))
    ensures
        0 <= insert_position(t, x) <= t.len(),
        forall|k: int| insert_position(t, x) <= k < t.len() ==> chars_lt(x.1, #[trigger] t[k].1),
        insert_position(t, x) == 0 || !chars_lt(x.1, t[insert_position(t, x) - 1].1),
    decreases t.len(),
{
    if t.len() > 0 && chars_lt(x.1, t.last().1) {
        lemma_insert_position(t.drop_last(), x);
        let j = insert_position(t, x);
        assert forall|k: int| j <= k < t.len() implies chars_lt(x.1, #[trigger] t[k].1) by {
            if k < t.len() - 1 {
                assert(t.drop_last()[k] == t[k]);
            }
        }
    }
}

fn chars_lt_exec(a: &Vec<char>, b: &Vec<char>) -> (r: bool)
    ensures
        r == chars_lt(a@, b@),
{
    let mut i: usize = 0;
    assert(a@.skip(0) =~= a@);
    assert(b@.skip(0) =~= b@);
    while i < a.len() && i < b.len() && a[i] == b[i]
        invariant
            i <= a@.len(),
            i <= b@.len(),
            chars_lt(a@.skip(i as int), b@.skip(i as int)) == chars_lt(a@, b@),
        decreases a.len() - i,
    {
        assert(a@.skip(i as int).drop_first() =~= a@.skip(i + 1));
        assert(b@.skip(i as int).drop_first() =~= b@.skip(i + 1));
        i = i + 1;
    }
    if i == a.len() {
        i < b.len()
    } else if i == b.len() {
        false
    } else {
        a[i] < b[i]
    }
}

/// Sorts the entries by name, stably.
pub fn sort_entries_by_name(items: Vec<(u32, String)>) -> (r: Vec<(u32, String)>)
    ensures
        names_view(r@) == sort_by_name(names_view(items@)),
{
    let mut out: Vec<(u32, String)> = Vec::new();
    let mut keys: Vec<Vec<char>> = Vec::new();
    let mut i: usize = 0;
    let ghost iv = names_view(items@);
    while i < items.len()
        invariant
            i <= items@.len(),
            iv == names_view(items@),
            keys@.len() == out@.len(),
            forall|k: int| 0 <= k < keys@.len() ==> (#[trigger] keys@[k])@ == out@[k].1@,
            names_view(out@) == sort_by_name(iv.take(i as int)),
        decreases items.len() - i,
    {
        assert(iv.take(i + 1).drop_last() =~= iv.take(i as int));
        let x = (items[i].0, items[i].1.clone());
        let xk = crate::text::chars_of(x.1.as_str());
        let ghost xv = (x.0, x.1@);
        assert(iv.take(i + 1).last() == xv);
        let mut j = out.len();
        while j > 0 && chars_lt_exec(&xk, &keys[j - 1])
            invariant
                j <= out@.len(),
                keys@.len() == out@.len(),
                forall|k: int| 0 <= k < keys@.len() ==> (#[trigger] keys@[k])@ == out@[k].1@,
                xk@ == xv.1,
                forall|k: int| j <= k < out@.len() ==> chars_lt(xv.1, #[trigger] names_view(out@)[k].1),
            decreases j,
        {
            j = j - 1;
        }
        proof {
            lemma_insert_by_name_at(names_view(out@), xv, j as int);
        }
        let ghost before = out@;
        out.insert(j, x);
        keys.insert(j, xk);
        assert(names_view(out@) =~= names_view(before).insert(j as int, xv));
        i = i + 1;
    }
    assert(iv.take(iv.len() as int) =~= iv);
    out
}

pub open spec fn names_view(v: Seq<(u32, String)>) -> Seq<(u32, Seq<char>)> {
    v.map_values(|p: (u32, String)| (p.0, p.1@))
}

} // verus!
