//! HTML fragments of the panel's pages. The translated labels come in as
//! arguments; the fragments around them are fixed.
use vstd::prelude::*;
use crate::text::{decimal, extend_chars, extend_str, push_decimal, string_of};

verus! {

/// ` selected` where the option is the selected one.
pub open spec fn selected_mark(b: bool) -> Seq<char> {
    if b {
        " selected"@
    } else {
        Seq::empty()
    }
}

fn push_selected(out: &mut Vec<char>, b: bool)
    ensures
        final(out)@ == old(out)@ + selected_mark(b),
{
    if b {
        extend_str(out, " selected");
    } else {
        assert(out@ =~= old(out)@ + selected_mark(b));
    }
}

/// `<option value="N"{sel}>{slot} N</option>` for slot `n`.
pub open spec fn slot_option(slot_label: Seq<char>, n: nat, selected: bool) -> Seq<char> {
    "<option value=\""@ + decimal(n) + "\""@ + selected_mark(selected) + ">"@ + slot_label + " "@ + decimal(n)
        + "</option>"@
}

/// The options for slots 1 through `n`; slot `sel` is marked.
pub open spec fn slot_options_upto(slot_label: Seq<char>, sel: int, n: nat) -> Seq<char>
    decreases n,
{
    if n == 0 {
        Seq::empty()
    } else {
        slot_options_upto(slot_label, sel, (n - 1) as nat) + slot_option(slot_label, n, n == sel)
    }
}

fn push_slot_options(out: &mut Vec<char>, slot_label: &str, sel: u32)
    ensures
        final(out)@ == old(out)@ + slot_options_upto(slot_label@, sel as int, 6),
{
    let mut n: u64 = 1;
    assert(out@ =~= old(out)@ + slot_options_upto(slot_label@, sel as int, 0));
    while n <= 6
        invariant
            1 <= n <= 7,
            out@ == old(out)@ + slot_options_upto(slot_label@, sel as int, (n - 1) as nat),
        decreases 7 - n,
    {
        let ghost before = out@;
        extend_str(out, "<option value=\"");
        push_decimal(out, n);
        extend_str(out, "\"");
        push_selected(out, n == sel as u64);
        extend_str(out, ">");
        extend_str(out, slot_label);
        extend_str(out, " ");
        push_decimal(out, n);
        extend_str(out, "</option>");
        assert(out@ =~= before + slot_option(slot_label@, n as nat, n == sel));
        n = n + 1;
        assert(out@ =~= old(out)@ + slot_options_upto(slot_label@, sel as int, (n - 1) as nat));
    }
}

/// The options of the slot select: slots 1 through 6, `selected` marked.
pub fn render_slot_options(slot_label: &str, selected: u32) -> (r: String)
    ensures
        r@ == slot_options_upto(slot_label@, selected as int, 6),
{
    let mut out: Vec<char> = Vec::new();
    push_slot_options(&mut out, slot_label, selected);
    assert(out@ =~= slot_options_upto(slot_label@, selected as int, 6));
    string_of(&out)
}

/// The slot options of the generate form: first "not selected", then slots 1
/// through 6.
pub open spec fn spec_generate_slot_options(not_selected: Seq<char>, slot_label: Seq<char>, selected: Option<u32>) -> Seq<char> {
    "<option value=\"\""@ + selected_mark(selected is None) + ">"@ + not_selected + "</option>"@
        + slot_options_upto(
        slot_label,
        match selected {
            Some(s) => s as int,
            None => 0,
        },
        6,
    )
}

pub fn render_generate_slot_options(not_selected: &str, slot_label: &str, selected: Option<u32>) -> (r: String)
    ensures
        r@ == spec_generate_slot_options(not_selected@, slot_label@, selected),
{
    let mut out: Vec<char> = Vec::new();
    extend_str(&mut out, "<option value=\"\"");
    push_selected(&mut out, selected.is_none());
    extend_str(&mut out, ">");
    extend_str(&mut out, not_selected);
    extend_str(&mut out, "</option>");
    let sel: u32 = match selected {
        Some(s) => s,
        None => 0,
    };
    push_slot_options(&mut out, slot_label, sel);
    assert(out@ =~= spec_generate_slot_options(not_selected@, slot_label@, selected));
    string_of(&out)
}

// ---------------------------------------------------------------------------
// Stat selects
// ---------------------------------------------------------------------------

pub open spec fn strictly_increasing(s: Seq<u32>) -> bool {
    forall|i: int, j: int| 0 <= i < j < s.len() ==> s[i] < s[j]
}

/// `s` with `x` put in order, unless `s` holds it already.
pub open spec fn insert_unique(s: Seq<u32>, x: u32) -> Seq<u32>
    decreases s.len(),
{
    if s.len() == 0 {
        seq![x]
    } else if s.last() < x {
        s.push(x)
    } else if s.last() == x {
        s
    } else {
        insert_unique(s.drop_last(), x).push(s.last())
    }
}

/// The distinct values of `s`, in increasing order.
pub open spec fn sorted_unique(s: Seq<u32>) -> Seq<u32>
    decreases s.len(),
{
    if s.len() == 0 {
        Seq::empty()
    } else {
        insert_unique(sorted_unique(s.drop_last()), s.last())
    }
}

proof fn lemma_insert_unique_at(s: Seq<u32>, x: u32, j: int)
    requires
        0 <= j <= s.len(),
        forall|k: int| j <= k < s.len() ==> #[trigger] s[k] > x,
        j == 0 || s[j - 1] <= x,
    ensures
        insert_unique(s, x) == if j > 0 && s[j - 1] == x {
            s
        } else {
            s.insert(j, x)
        },
    decreases s.len(),
{
    if s.len() == 0 {
        assert(s.insert(j, x) =~= seq![x]);
    } else if j == s.len() {
        assert(s.insert(j, x) =~= s.push(x));
    } else {
        lemma_insert_unique_at(s.drop_last(), x, j);
        if j > 0 && s[j - 1] == x {
            assert(s.drop_last().push(s.last()) =~= s);
        } else {
            assert(s.insert(j, x) =~= s.drop_last().insert(j, x).push(s.last()));
        }
    }
}

proof fn lemma_insert_unique(s: Seq<u32>, x: u32)
    requires
        strictly_increasing(s),
    ensures
        strictly_increasing(insert_unique(s, x)),
        forall|k: u32| #[trigger] insert_unique(s, x).contains(k) <==> (s.contains(k) || k == x),
    decreases s.len(),
{
    if s.len() == 0 {
        assert(insert_unique(s, x) =~= seq![x]);
        assert forall|k: u32| #[trigger] insert_unique(s, x).contains(k) <==> (s.contains(k) || k == x) by {
            if k == x {
                assert(insert_unique(s, x)[0] == x);
            }
        }
    } else if s.last() < x {
        let out = s.push(x);
        assert forall|k: u32| #[trigger] out.contains(k) <==> (s.contains(k) || k == x) by {
            if s.contains(k) {
                let i = choose|i: int| 0 <= i < s.len() && s[i] == k;
                assert(out[i] == k);
            }
            if k == x {
                assert(out[s.len() as int] == x);
            }
            if out.contains(k) {
                let i = choose|i: int| 0 <= i < out.len() && out[i] == k;
                if i < s.len() {
                    assert(s[i] == k);
                }
            }
        }
    } else if s.last() == x {
        assert forall|k: u32| #[trigger] s.contains(k) <==> (s.contains(k) || k == x) by {
            if k == x {
                assert(s[s.len() - 1] == x);
            }
        }
    } else {
        let d = s.drop_last();
        lemma_insert_unique(d, x);
        let r = insert_unique(d, x);
        let out = r.push(s.last());
        assert forall|k: u32| #[trigger] out.contains(k) <==> (s.contains(k) || k == x) by {
            if out.contains(k) {
                let i = choose|i: int| 0 <= i < out.len() && out[i] == k;
                if i < r.len() {
                    assert(r.contains(k));
                    if d.contains(k) {
                        let m = choose|m: int| 0 <= m < d.len() && d[m] == k;
                        assert(s[m] == k);
                    }
                } else {
                    assert(s[s.len() - 1] == k);
                }
            }
            if s.contains(k) {
                let i = choose|i: int| 0 <= i < s.len() && s[i] == k;
                if i < s.len() - 1 {
                    assert(d[i] == k);
                    assert(r.contains(k));
                    let m = choose|m: int| 0 <= m < r.len() && r[m] == k;
                    assert(out[m] == k);
                } else {
                    assert(out[r.len() as int] == k);
                }
            }
            if k == x {
                assert(r.contains(x));
                let m = choose|m: int| 0 <= m < r.len() && r[m] == x;
                assert(out[m] == x);
            }
        }
        assert forall|a: int, b: int| 0 <= a < b < out.len() implies out[a] < out[b] by {
            if b == out.len() - 1 {
                assert(r.contains(out[a]));
                if out[a] != x {
                    assert(d.contains(out[a]));
                    let m = choose|m: int| 0 <= m < d.len() && d[m] == out[a];
                    assert(s[m] == out[a]);
                }
            }
        }
    }
}

/// The distinct values of `s` come out in increasing order, and they are
/// exactly the values `s` holds.
pub proof fn law_sorted_unique(s: Seq<u32>)
    ensures
        strictly_increasing(sorted_unique(s)),
        forall|k: u32| #[trigger] sorted_unique(s).contains(k) <==> s.contains(k),
    decreases s.len(),
{
    if s.len() > 0 {
        let d = s.drop_last();
        law_sorted_unique(d);
        lemma_insert_unique(sorted_unique(d), s.last());
        assert forall|k: u32| #[trigger] sorted_unique(s).contains(k) <==> s.contains(k) by {
            if d.contains(k) {
                let m = choose|m: int| 0 <= m < d.len() && d[m] == k;
                assert(s[m] == k);
            }
            if s.contains(k) {
                let m = choose|m: int| 0 <= m < s.len() && s[m] == k;
                if m < s.len() - 1 {
                    assert(d[m] == k);
                }
            }
        }
    } else {
        assert(sorted_unique(s) =~= Seq::<u32>::empty());
    }
}

fn insert_unique_exec(v: &mut Vec<u32>, x: u32)
    ensures
        final(v)@ == insert_unique(old(v)@, x),
{
    let mut j = v.len();
    while j > 0 && v[j - 1] > x
        invariant
            j <= v@.len(),
            v@ == old(v)@,
            forall|k: int| j <= k < v@.len() ==> #[trigger] v@[k] > x,
        decreases j,
    {
        j = j - 1;
    }
    proof {
        lemma_insert_unique_at(v@, x, j as int);
    }
    if j > 0 && v[j - 1] == x {
        return;
    }
    v.insert(j, x);
}

/// The keys offered by a stat select: the positive keys of the list, and
/// the selected key where it is positive.
pub open spec fn stat_candidates(keys: Seq<u32>, selected: u32) -> Seq<u32> {
    keys.filter(|k: u32| k > 0) + if selected > 0 && !keys.contains(selected) {
        seq![selected]
    } else {
        Seq::empty()
    }
}

/// The keys of a stat select, in increasing order, each once.
pub fn stat_option_keys(keys: &Vec<u32>, selected: u32) -> (r: Vec<u32>)
    ensures
        r@ == sorted_unique(stat_candidates(keys@, selected)),
{
    let mut cands: Vec<u32> = Vec::new();
    let mut found = false;
    let mut i: usize = 0;
    while i < keys.len()
        invariant
            i <= keys@.len(),
            cands@ == keys@.take(i as int).filter(|k: u32| k > 0),
            found == keys@.take(i as int).contains(selected),
        decreases keys.len() - i,
    {
        let k = keys[i];
        proof {
            assert(keys@.take(i + 1).drop_last() =~= keys@.take(i as int));
            keys@.take(i as int).lemma_filter_push(k, |k: u32| k > 0);
            assert(keys@.take(i as int).push(k) =~= keys@.take(i + 1));
        }
        if k > 0 {
            cands.push(k);
        }
        if k == selected {
            assert(keys@.take(i + 1)[i as int] == selected);
            found = true;
        } else {
            assert(keys@.take(i + 1).contains(selected) ==> keys@.take(i as int).contains(selected)) by {
                if keys@.take(i + 1).contains(selected) {
                    let m = choose|m: int| 0 <= m < i + 1 && #[trigger] keys@.take(i + 1)[m] == selected;
                    assert(keys@.take(i as int)[m] == selected);
                }
            }
        }
        i = i + 1;
    }
    assert(keys@.take(keys@.len() as int) =~= keys@);
    if selected > 0 && !found {
        cands.push(selected);
    }
    assert(cands@ =~= stat_candidates(keys@, selected));
    let mut out: Vec<u32> = Vec::new();
    let mut j: usize = 0;
    while j < cands.len()
        invariant
            j <= cands@.len(),
            out@ == sorted_unique(cands@.take(j as int)),
        decreases cands.len() - j,
    {
        assert(cands@.take(j + 1).drop_last() =~= cands@.take(j as int));
        insert_unique_exec(&mut out, cands[j]);
        j = j + 1;
    }
    assert(cands@.take(cands@.len() as int) =~= cands@);
    out
}

/// The label a table gives a stat key: the first entry for the key, else the
/// key's digits.
pub open spec fn label_in(table: Seq<(u32, Seq<char>)>, k: u32) -> Seq<char>
    decreases table.len(),
{
    if table.len() == 0 {
        decimal(k as nat)
    } else if table[0].0 == k {
        table[0].1
    } else {
        label_in(table.drop_first(), k)
    }
}

pub open spec fn table_view(t: Seq<(u32, String)>) -> Seq<(u32, Seq<char>)> {
    t.map_values(|p: (u32, String)| (p.0, p.1@))
}

fn push_label(out: &mut Vec<char>, table: &Vec<(u32, String)>, k: u32)
    ensures
        final(out)@ == old(out)@ + label_in(table_view(table@), k),
{
    let ghost tv = table_view(table@);
    let mut i: usize = 0;
    assert(tv.skip(0) =~= tv);
    while i < table.len()
        invariant
            i <= table@.len(),
            out@ == old(out)@,
            tv == table_view(table@),
            label_in(tv.skip(i as int), k) == label_in(tv, k),
        decreases table.len() - i,
    {
        assert(tv.skip(i as int)[0] == (table@[i as int].0, table@[i as int].1@));
        assert(tv.skip(i as int).drop_first() =~= tv.skip(i + 1));
        if table[i].0 == k {
            extend_str(out, table[i].1.as_str());
            return;
        }
        i = i + 1;
    }
    assert(tv.skip(i as int).len() == 0);
    push_decimal(out, k as u64);
}

/// One option of a stat select.
pub open spec fn stat_option(table: Seq<(u32, Seq<char>)>, k: u32, selected: u32) -> Seq<char> {
    "<option value=\""@ + decimal(k as nat) + "\""@ + selected_mark(k == selected) + ">"@ + label_in(table, k)
        + "</option>"@
}

/// The options for the first `n` keys of `ks`.
pub open spec fn stat_options_upto(ks: Seq<u32>, table: Seq<(u32, Seq<char>)>, selected: u32, n: nat) -> Seq<char>
    decreases n,
{
    if n == 0 {
        Seq::empty()
    } else {
        stat_options_upto(ks, table, selected, (n - 1) as nat) + stat_option(table, ks[n - 1], selected)
    }
}

/// The options of a stat select: each key once, in increasing order, with
/// its label from the table.
pub open spec fn spec_stat_select_options(keys: Seq<u32>, selected: u32, table: Seq<(u32, Seq<char>)>) -> Seq<char> {
    let ks = sorted_unique(stat_candidates(keys, selected));
    stat_options_upto(ks, table, selected, ks.len())
}

fn push_stat_select_options(out: &mut Vec<char>, keys: &Vec<u32>, selected: u32, labels: &Vec<(u32, String)>)
    ensures
        final(out)@ == old(out)@ + spec_stat_select_options(keys@, selected, table_view(labels@)),
{
    let ks = stat_option_keys(keys, selected);
    let ghost tv = table_view(labels@);
    let mut i: usize = 0;
    assert(out@ =~= old(out)@ + stat_options_upto(ks@, tv, selected, 0));
    while i < ks.len()
        invariant
            i <= ks@.len(),
            tv == table_view(labels@),
            out@ == old(out)@ + stat_options_upto(ks@, tv, selected, i as nat),
        decreases ks.len() - i,
    {
        let ghost before = out@;
        let k = ks[i];
        extend_str(out, "<option value=\"");
        push_decimal(out, k as u64);
        extend_str(out, "\"");
        push_selected(out, k == selected);
        extend_str(out, ">");
        push_label(out, labels, k);
        extend_str(out, "</option>");
        assert(out@ =~= before + stat_option(tv, k, selected));
        i = i + 1;
        assert(out@ =~= old(out)@ + stat_options_upto(ks@, tv, selected, i as nat));
    }
}

/// The options of a stat select over `keys` with `selected` marked; labels
/// come from the table `labels`.
pub fn render_stat_select_options(keys: &Vec<u32>, selected: u32, labels: &Vec<(u32, String)>) -> (r: String)
    ensures
        r@ == spec_stat_select_options(keys@, selected, table_view(labels@)),
{
    let mut out: Vec<char> = Vec::new();
    push_stat_select_options(&mut out, keys, selected, labels);
    assert(out@ =~= spec_stat_select_options(keys@, selected, table_view(labels@)));
    string_of(&out)
}

/// The key a sub-stat row starts on: the line's own key, or the first
/// option where the line has none.
pub open spec fn row_key(sub_props: Seq<(u32, u32, u32)>, options: Seq<u32>, idx: int) -> u32 {
    let key = if idx < sub_props.len() {
        sub_props[idx].0
    } else {
        0
    };
    if key == 0 && options.len() > 0 {
        options[0]
    } else {
        key
    }
}

/// The procs a sub-stat row shows.
pub open spec fn row_procs(sub_props: Seq<(u32, u32, u32)>, idx: int) -> u32 {
    if idx < sub_props.len() {
        sub_props[idx].2
    } else {
        0
    }
}

/// The select of sub-stat row `idx` (0 through 3).
pub open spec fn sub_stat_select(key_label: Seq<char>, sub_props: Seq<(u32, u32, u32)>, options: Seq<u32>, table: Seq<(u32, Seq<char>)>, idx: int) -> Seq<char> {
    "<div><label>"@ + key_label + "</label><select name=\"sub_key_"@ + decimal((idx + 1) as nat) + "\">"@
        + spec_stat_select_options(options, row_key(sub_props, options, idx), table) + "</select></div>"@
}

/// The procs input of sub-stat row `idx` (0 through 3).
pub open spec fn sub_stat_procs(procs_label: Seq<char>, sub_props: Seq<(u32, u32, u32)>, idx: int) -> Seq<char> {
    "<div><label>"@ + procs_label + "</label><input name=\"sub_proc_"@ + decimal((idx + 1) as nat)
        + "\" type=\"number\" min=\"0\" max=\"6\" value=\""@ + decimal(row_procs(sub_props, idx) as nat)
        + "\" /></div>"@
}

/// The select and the procs input of sub-stat row `idx` (0 through 3).
pub open spec fn sub_stat_row(key_label: Seq<char>, procs_label: Seq<char>, sub_props: Seq<(u32, u32, u32)>, options: Seq<u32>, table: Seq<(u32, Seq<char>)>, idx: int) -> Seq<char> {
    sub_stat_select(key_label, sub_props, options, table, idx) + sub_stat_procs(procs_label, sub_props, idx)
}

fn push_sub_stat_select(out: &mut Vec<char>, key_label: &str, sub_props: &Vec<(u32, u32, u32)>, options: &Vec<u32>, labels: &Vec<(u32, String)>, idx: usize)
    requires
        idx < 4,
    ensures
        final(out)@ == old(out)@ + sub_stat_select(key_label@, sub_props@, options@, table_view(labels@), idx as int),
{
    let k0: u32 = if idx < sub_props.len() {
        sub_props[idx].0
    } else {
        0
    };
    let key: u32 = if k0 == 0 && options.len() > 0 {
        options[0]
    } else {
        k0
    };
    assert(key == row_key(sub_props@, options@, idx as int));
    extend_str(out, "<div><label>");
    extend_str(out, key_label);
    extend_str(out, "</label><select name=\"sub_key_");
    push_decimal(out, (idx + 1) as u64);
    extend_str(out, "\">");
    push_stat_select_options(out, options, key, labels);
    extend_str(out, "</select></div>");
    assert(final(out)@ =~= old(out)@ + sub_stat_select(key_label@, sub_props@, options@, table_view(labels@), idx as int));
}

fn push_sub_stat_procs(out: &mut Vec<char>, procs_label: &str, sub_props: &Vec<(u32, u32, u32)>, idx: usize)
    requires
        idx < 4,
    ensures
        final(out)@ == old(out)@ + sub_stat_procs(procs_label@, sub_props@, idx as int),
{
    let add: u32 = if idx < sub_props.len() {
        sub_props[idx].2
    } else {
        0
    };
    extend_str(out, "<div><label>");
    extend_str(out, procs_label);
    extend_str(out, "</label><input name=\"sub_proc_");
    push_decimal(out, (idx + 1) as u64);
    extend_str(out, "\" type=\"number\" min=\"0\" max=\"6\" value=\"");
    push_decimal(out, add as u64);
    extend_str(out, "\" /></div>");
    assert(final(out)@ =~= old(out)@ + sub_stat_procs(procs_label@, sub_props@, idx as int));
}

pub open spec fn sub_stat_rows_upto(key_label: Seq<char>, procs_label: Seq<char>, sub_props: Seq<(u32, u32, u32)>, options: Seq<u32>, table: Seq<(u32, Seq<char>)>, n: nat) -> Seq<char>
    decreases n,
{
    if n == 0 {
        Seq::empty()
    } else {
        sub_stat_rows_upto(key_label, procs_label, sub_props, options, table, (n - 1) as nat)
            + sub_stat_row(key_label, procs_label, sub_props, options, table, n - 1)
    }
}

/// The four sub-stat rows of the disc forms.
pub fn render_sub_stat_rows(key_label: &str, procs_label: &str, sub_props: &Vec<(u32, u32, u32)>, options: &Vec<u32>, labels: &Vec<(u32, String)>) -> (r: String)
    ensures
        r@ == sub_stat_rows_upto(key_label@, procs_label@, sub_props@, options@, table_view(labels@), 4),
{
    let ghost tv = table_view(labels@);
    let mut out: Vec<char> = Vec::new();
    let mut idx: usize = 0;
    while idx < 4
        invariant
            idx <= 4,
            tv == table_view(labels@),
            out@ == sub_stat_rows_upto(key_label@, procs_label@, sub_props@, options@, tv, idx as nat),
        decreases 4 - idx,
    {
        let ghost before = out@;
        push_sub_stat_select(&mut out, key_label, sub_props, options, labels, idx);
        push_sub_stat_procs(&mut out, procs_label, sub_props, idx);
        assert(out@ =~= before + sub_stat_row(key_label@, procs_label@, sub_props@, options@, tv, idx as int));
        idx = idx + 1;
    }
    string_of(&out)
}

// ---------------------------------------------------------------------------
// Pager of the disc list
// ---------------------------------------------------------------------------

pub const PAGER_LINK_STYLE: &'static str = "\" style=\"padding:6px 12px; border-radius:8px; background:#2a3140; color:#c7d1e0; text-decoration:none; font-size:12px; font-weight:600;\">";

pub const PAGER_SPAN_OPEN: &'static str = "<span style=\"padding:6px 12px; border-radius:8px; background:#1b2230; color:#5a6474; font-size:12px; font-weight:600;\">";

pub const PAGER_OPEN: &'static str = "<div style=\"display:flex; align-items:center; justify-content:space-between; gap:12px; margin-top:16px; flex-wrap:wrap;\">\n            <span class=\"meta\">";

pub const PAGER_MIDDLE: &'static str = "</span>\n            <div style=\"display:flex; gap:6px; align-items:center;\">\n                ";

pub const PAGER_PAGE_OPEN: &'static str = "\n                <span style=\"font-size:12px; color:#9aa4b2;\">";

pub const PAGER_PAGE_CLOSE: &'static str = "</span>\n                ";

pub const PAGER_CLOSE: &'static str = "\n            </div>\n        </div>";

/// A link to page `target` of the list, or, where `active` is false, the
/// label alone, greyed out.
pub open spec fn pager_link(active: bool, params: Seq<char>, target: int, label: Seq<char>) -> Seq<char> {
    if active {
        "<a href=\"/dashboard?"@ + params + "&page="@ + decimal(target as nat) + PAGER_LINK_STYLE@ + label + "</a>"@
    } else {
        PAGER_SPAN_OPEN@ + label + "</span>"@
    }
}

fn push_pager_link(out: &mut Vec<char>, active: bool, params: &str, target: u64, label: &str)
    ensures
        final(out)@ == old(out)@ + pager_link(active, params@, target as int, label@),
{
    if active {
        extend_str(out, "<a href=\"/dashboard?");
        extend_str(out, params);
        extend_str(out, "&page=");
        push_decimal(out, target);
        extend_str(out, PAGER_LINK_STYLE);
        extend_str(out, label);
        extend_str(out, "</a>");
    } else {
        extend_str(out, PAGER_SPAN_OPEN);
        extend_str(out, label);
        extend_str(out, "</span>");
    }
    assert(final(out)@ =~= old(out)@ + pager_link(active, params@, target as int, label@));
}

/// The translated words of the pager.
pub struct PagerLabels {
    pub showing: String,
    pub page: String,
    pub prev: String,
    pub next: String,
}

/// The filters the disc list keeps across pages.
pub struct DiscListFilters {
    pub set_id: Option<u32>,
    pub slot: Option<u32>,
    pub main_stat: Option<u32>,
    pub status: Option<String>,
    pub delete_mode: bool,
}

pub open spec fn filters_params(f: DiscListFilters) -> Seq<char> {
    crate::equip::spec_disc_filter_params(
        f.delete_mode,
        f.set_id,
        f.slot,
        f.main_stat,
        match f.status {
            Some(v) => Some(v@),
            None => None,
        },
    )
}

/// The pager under the disc list: the positions shown, links to the pages
/// before and after (where there is one), and the page number.
pub open spec fn spec_pagination(labels: PagerLabels, page: u32, total_pages: u32, filters: DiscListFilters, total: usize) -> Seq<char> {
    let (start, end) = crate::equip::spec_showing_range(page, total);
    let params = filters_params(filters);
    PAGER_OPEN@ + labels.showing@ + " "@ + decimal(start as nat) + "&ndash;"@ + decimal(end as nat) + " / "@ + decimal(
        total as nat,
    ) + PAGER_MIDDLE@ + pager_link(page > 1, params, page - 1, labels.prev@) + PAGER_PAGE_OPEN@ + labels.page@
        + " "@ + decimal(page as nat) + "/"@ + decimal(total_pages as nat) + PAGER_PAGE_CLOSE@ + pager_link(
        page < total_pages,
        params,
        page + 1,
        labels.next@,
    ) + PAGER_CLOSE@
}

pub fn render_pagination(labels: &PagerLabels, page: u32, total_pages: u32, filters: &DiscListFilters, total: usize) -> (r: String)
    requires
        page >= 1,
        (page - 1) * 50 + 50 <= usize::MAX,
    ensures
        r@ == spec_pagination(*labels, page, total_pages, *filters, total),
{
    let (start, end) = crate::equip::showing_range(page, total);
    let status: Option<&str> = match &filters.status {
        Some(s) => Some(s.as_str()),
        None => None,
    };
    let params = crate::equip::disc_filter_params(filters.delete_mode, filters.set_id, filters.slot, filters.main_stat, status);
    assert(params@ == filters_params(*filters));
    let mut out: Vec<char> = Vec::new();
    extend_str(&mut out, PAGER_OPEN);
    extend_str(&mut out, labels.showing.as_str());
    extend_str(&mut out, " ");
    push_decimal(&mut out, start as u64);
    extend_str(&mut out, "&ndash;");
    push_decimal(&mut out, end as u64);
    extend_str(&mut out, " / ");
    push_decimal(&mut out, total as u64);
    extend_str(&mut out, PAGER_MIDDLE);
    let ghost head = out@;
    push_pager_link(&mut out, page > 1, params.as_str(), (page as u64) - 1, labels.prev.as_str());
    extend_str(&mut out, PAGER_PAGE_OPEN);
    extend_str(&mut out, labels.page.as_str());
    extend_str(&mut out, " ");
    push_decimal(&mut out, page as u64);
    extend_str(&mut out, "/");
    push_decimal(&mut out, total_pages as u64);
    extend_str(&mut out, PAGER_PAGE_CLOSE);
    push_pager_link(&mut out, page < total_pages, params.as_str(), (page as u64) + 1, labels.next.as_str());
    extend_str(&mut out, PAGER_CLOSE);
    assert(out@ =~= spec_pagination(*labels, page, total_pages, *filters, total));
    string_of(&out)
}

// ---------------------------------------------------------------------------
// Filter selects
// ---------------------------------------------------------------------------

/// One option of a filter select: marked where the filter holds its value
/// (the "all" option has the empty value).
pub open spec fn filter_option(value: Seq<char>, label: Seq<char>, filter: Seq<char>) -> Seq<char> {
    "<option value=\""@ + value + "\""@ + selected_mark(filter == value) + ">"@ + label + "</option>"@
}

pub open spec fn filter_options_upto(values: Seq<Seq<char>>, labels: Seq<Seq<char>>, filter: Seq<char>, n: nat) -> Seq<char>
    decreases n,
{
    if n == 0 {
        Seq::empty()
    } else {
        filter_options_upto(values, labels, filter, (n - 1) as nat) + filter_option(values[n - 1], labels[n - 1], filter)
    }
}

pub open spec fn strs_view(v: Seq<&str>) -> Seq<Seq<char>> {
    v.map_values(|s: &str| s@)
}

pub open spec fn strings_view(v: Seq<String>) -> Seq<Seq<char>> {
    v.map_values(|s: String| s@)
}

fn push_filter_options(out: &mut Vec<char>, values: &Vec<&str>, labels: &Vec<String>, filter: &str)
    requires
        values.len() == labels.len(),
    ensures
        final(out)@ == old(out)@ + filter_options_upto(strs_view(values@), strings_view(labels@), filter@, values@.len()),
{
    let ghost vs = strs_view(values@);
    let ghost ls = strings_view(labels@);
    let mut i: usize = 0;
    assert(out@ =~= old(out)@ + filter_options_upto(vs, ls, filter@, 0));
    while i < values.len()
        invariant
            i <= values@.len(),
            values@.len() == labels@.len(),
            vs == strs_view(values@),
            ls == strings_view(labels@),
            out@ == old(out)@ + filter_options_upto(vs, ls, filter@, i as nat),
        decreases values.len() - i,
    {
        let ghost before = out@;
        let v = values[i];
        assert(vs[i as int] == v@);
        assert(ls[i as int] == labels@[i as int]@);
        extend_str(out, "<option value=\"");
        extend_str(out, v);
        extend_str(out, "\"");
        push_selected(out, crate::text::str_eq(filter, v));
        extend_str(out, ">");
        extend_str(out, labels[i].as_str());
        extend_str(out, "</option>");
        assert(out@ =~= before + filter_option(vs[i as int], ls[i as int], filter@));
        i = i + 1;
    }
}

/// The values of the W-Engine class filter: all, then the six classes.
pub open spec fn weapon_class_values() -> Seq<Seq<char>> {
    seq![""@, "Attack"@, "Stun"@, "Anomaly"@, "Defense"@, "Rupture"@, "Support"@]
}

/// The values of the W-Engine rarity filter.
pub open spec fn weapon_rarity_values() -> Seq<Seq<char>> {
    seq![""@, "s"@, "a"@, "b"@]
}

/// The values of the Agent element filter.
pub open spec fn avatar_element_values() -> Seq<Seq<char>> {
    seq![""@, "physical"@, "fire"@, "ice"@, "electric"@, "wind"@, "ether"@]
}

/// The values of the Agent rank filter: all, S (4) and A (3).
pub open spec fn avatar_rank_values() -> Seq<Seq<char>> {
    seq![""@, "4"@, "3"@]
}

fn filter_options_of(values: Vec<&str>, labels: &Vec<String>, filter: &str) -> (r: Vec<char>)
    requires
        values.len() == labels.len(),
    ensures
        r@ == filter_options_upto(strs_view(values@), strings_view(labels@), filter@, values@.len()),
{
    let mut out: Vec<char> = Vec::new();
    push_filter_options(&mut out, &values, labels, filter);
    assert(out@ =~= filter_options_upto(strs_view(values@), strings_view(labels@), filter@, values@.len()));
    out
}

fn weapon_class_options(labels: &Vec<String>, filter_class: &str) -> (r: Vec<char>)
    requires
        labels.len() == 7,
    ensures
        r@ == filter_options_upto(weapon_class_values(), strings_view(labels@), filter_class@, 7),
{
    let values = vec!["", "Attack", "Stun", "Anomaly", "Defense", "Rupture", "Support"];
    assert(strs_view(values@) =~= weapon_class_values());
    filter_options_of(values, labels, filter_class)
}

fn weapon_rarity_options(labels: &Vec<String>, filter_rarity: &str) -> (r: Vec<char>)
    requires
        labels.len() == 4,
    ensures
        r@ == filter_options_upto(weapon_rarity_values(), strings_view(labels@), filter_rarity@, 4),
{
    let values = vec!["", "s", "a", "b"];
    assert(strs_view(values@) =~= weapon_rarity_values());
    filter_options_of(values, labels, filter_rarity)
}

fn avatar_element_options(labels: &Vec<String>, filter_element: &str) -> (r: Vec<char>)
    requires
        labels.len() == 7,
    ensures
        r@ == filter_options_upto(avatar_element_values(), strings_view(labels@), filter_element@, 7),
{
    let values = vec!["", "physical", "fire", "ice", "electric", "wind", "ether"];
    assert(strs_view(values@) =~= avatar_element_values());
    filter_options_of(values, labels, filter_element)
}

fn avatar_rank_options(labels: &Vec<String>, filter_rank: &str) -> (r: Vec<char>)
    requires
        labels.len() == 3,
    ensures
        r@ == filter_options_upto(avatar_rank_values(), strings_view(labels@), filter_rank@, 3),
{
    let values = vec!["", "4", "3"];
    assert(strs_view(values@) =~= avatar_rank_values());
    filter_options_of(values, labels, filter_rank)
}

/// The options of the W-Engine class filter; `labels` are the words for
/// all, Attack, Stun, Anomaly, Defense, Rupture and Support.
pub fn render_weapon_filter_class_opts(labels: &Vec<String>, filter_class: &str) -> (r: String)
    requires
        labels.len() == 7,
    ensures
        r@ == filter_options_upto(weapon_class_values(), strings_view(labels@), filter_class@, 7),
{
    string_of(&weapon_class_options(labels, filter_class))
}

/// The options of the W-Engine rarity filter; `labels` are the words for
/// all, S, A and B.
pub fn render_weapon_filter_rarity_opts(labels: &Vec<String>, filter_rarity: &str) -> (r: String)
    requires
        labels.len() == 4,
    ensures
        r@ == filter_options_upto(weapon_rarity_values(), strings_view(labels@), filter_rarity@, 4),
{
    string_of(&weapon_rarity_options(labels, filter_rarity))
}

pub const WEAPON_FILTER_HEAD: &'static str = "<form method=\"get\" action=\"/dashboard\" style=\"margin-bottom:12px;\">\n            <input type=\"hidden\" name=\"tab\" value=\"weapons\" />\n            <div style=\"display:flex; gap:8px; flex-wrap:wrap; align-items:end;\">\n                <div style=\"display:flex; flex-direction:column; gap:4px;\">\n                    <span style=\"font-size:11px; color:#9aa4b2;\">";

pub const AVATAR_FILTER_HEAD: &'static str = "<form method=\"get\" action=\"/avatar/new\" style=\"margin-bottom:12px;\">\n            <div style=\"display:flex; gap:8px; flex-wrap:wrap; align-items:end;\">\n                <div style=\"display:flex; flex-direction:column; gap:4px;\">\n                    <span style=\"font-size:11px; color:#9aa4b2;\">";

pub const FILTER_SELECT_OPEN: &'static str = "</span>\n                    <select name=\"";

pub const FILTER_SELECT_STYLE: &'static str = "\" onchange=\"this.form.submit()\" style=\"width:auto; padding:5px 8px; border-radius:8px; border:1px solid #2a3140; background:#121620; color:#e6e6e6; font-size:12px;\">";

pub const FILTER_MIDDLE: &'static str = "</select>\n                </div>\n                <div style=\"display:flex; flex-direction:column; gap:4px;\">\n                    <span style=\"font-size:11px; color:#9aa4b2;\">";

pub const FILTER_END: &'static str = "</select>\n                </div>\n            </div>\n        </form>";

/// A filter form of two selects that submit on change.
pub open spec fn filter_form(head: Seq<char>, label1: Seq<char>, name1: Seq<char>, opts1: Seq<char>, label2: Seq<char>, name2: Seq<char>, opts2: Seq<char>) -> Seq<char> {
    head + label1 + FILTER_SELECT_OPEN@ + name1 + FILTER_SELECT_STYLE@ + opts1 + FILTER_MIDDLE@ + label2
        + FILTER_SELECT_OPEN@ + name2 + FILTER_SELECT_STYLE@ + opts2 + FILTER_END@
}

fn filter_form_exec(head: &str, label1: &str, name1: &str, opts1: &Vec<char>, label2: &str, name2: &str, opts2: &Vec<char>) -> (r: String)
    ensures
        r@ == filter_form(head@, label1@, name1@, opts1@, label2@, name2@, opts2@),
{
    let mut out: Vec<char> = Vec::new();
    extend_str(&mut out, head);
    extend_str(&mut out, label1);
    extend_str(&mut out, FILTER_SELECT_OPEN);
    extend_str(&mut out, name1);
    extend_str(&mut out, FILTER_SELECT_STYLE);
    extend_chars(&mut out, opts1);
    extend_str(&mut out, FILTER_MIDDLE);
    extend_str(&mut out, label2);
    extend_str(&mut out, FILTER_SELECT_OPEN);
    extend_str(&mut out, name2);
    extend_str(&mut out, FILTER_SELECT_STYLE);
    extend_chars(&mut out, opts2);
    extend_str(&mut out, FILTER_END);
    assert(out@ =~= filter_form(head@, label1@, name1@, opts1@, label2@, name2@, opts2@));
    string_of(&out)
}

/// The translated words of a two-select filter form.
pub struct FilterLabels {
    /// The caption of the first select.
    pub first: String,
    /// The words of the first select's options, in order.
    pub first_options: Vec<String>,
    /// The caption of the second select.
    pub second: String,
    /// The words of the second select's options, in order.
    pub second_options: Vec<String>,
}

/// The class and rarity filter of the W-Engine tab.
pub fn render_weapon_filter_panel(labels: &FilterLabels, filter_class: &str, filter_rarity: &str) -> (r: String)
    requires
        labels.first_options.len() == 7,
        labels.second_options.len() == 4,
    ensures
        r@ == filter_form(
            WEAPON_FILTER_HEAD@,
            labels.first@,
            "weapon_class"@,
            filter_options_upto(weapon_class_values(), strings_view(labels.first_options@), filter_class@, 7),
            labels.second@,
            "weapon_rarity"@,
            filter_options_upto(weapon_rarity_values(), strings_view(labels.second_options@), filter_rarity@, 4),
        ),
{
    let class_opts = weapon_class_options(&labels.first_options, filter_class);
    let rarity_opts = weapon_rarity_options(&labels.second_options, filter_rarity);
    filter_form_exec(
        WEAPON_FILTER_HEAD,
        labels.first.as_str(),
        "weapon_class",
        &class_opts,
        labels.second.as_str(),
        "weapon_rarity",
        &rarity_opts,
    )
}

/// The element and rank filter of the new-Agent page.
pub fn render_avatar_filter_panel(labels: &FilterLabels, filter_element: &str, filter_rank: &str) -> (r: String)
    requires
        labels.first_options.len() == 7,
        labels.second_options.len() == 3,
    ensures
        r@ == filter_form(
            AVATAR_FILTER_HEAD@,
            labels.first@,
            "element"@,
            filter_options_upto(avatar_element_values(), strings_view(labels.first_options@), filter_element@, 7),
            labels.second@,
            "rank"@,
            filter_options_upto(avatar_rank_values(), strings_view(labels.second_options@), filter_rank@, 3),
        ),
{
    let element_opts = avatar_element_options(&labels.first_options, filter_element);
    let rank_opts = avatar_rank_options(&labels.second_options, filter_rank);
    filter_form_exec(
        AVATAR_FILTER_HEAD,
        labels.first.as_str(),
        "element",
        &element_opts,
        labels.second.as_str(),
        "rank",
        &rank_opts,
    )
}

// ---------------------------------------------------------------------------
// Sign-in and registration pages
// ---------------------------------------------------------------------------

pub const AUTH_FORM_0: &'static str = "<!doctype html>\n<html lang=\"";

pub const AUTH_FORM_1: &'static str = "\">\n<head>\n  <meta charset=\"utf-8\" />\n  <meta name=\"viewport\" content=\"width=device-width, initial-scale=1\" />\n  <title>";

pub const LOGIN_FORM_2: &'static str = "</title>\n  <style>\n        body { font-family: system-ui, sans-serif; background: #0f1115; color: #e6e6e6; display: grid; place-items: center; min-height: 100vh; min-height: 100dvh; margin: 0; }\n        form { background: #1b1f2a; padding: 24px; border-radius: 12px; width: 320px; box-sizing: border-box; box-shadow: 0 10px 30px rgba(0,0,0,.4); display: flex; flex-direction: column; gap: 12px; }\n    h1 { font-size: 18px; margin: 0; }\n    .field { display: flex; flex-direction: column; gap: 6px; }\n    label { display: block; margin: 0; font-size: 12px; color: #9aa4b2; }\n    input { width: 100%; box-sizing: border-box; padding: 10px; border-radius: 8px; border: 1px solid #2a3140; background: #121620; color: #e6e6e6; }\n    button { width: 100%; padding: 10px; border: 0; border-radius: 8px; background: #4c7dff; color: #fff; font-weight: 600; cursor: pointer; }\n        @media (max-width: 768px) {\n            body { display: flex; align-items: center; justify-content: center; height: auto; min-height: 100vh; min-height: 100dvh; padding: 16px; box-sizing: border-box; }\n            form { width: 100%; max-width: 420px; margin: 0; box-sizing: border-box; }\n        }\n  </style>\n</head>\n<body>\n  <form method=\"post\" action=\"/login\">\n    <h1>";

pub const REGISTER_FORM_2: &'static str = "</title>\n  <style>\n        body { font-family: system-ui, sans-serif; background: #0f1115; color: #e6e6e6; display: grid; place-items: center; min-height: 100vh; min-height: 100dvh; margin: 0; }\n        form { background: #1b1f2a; padding: 24px; border-radius: 12px; width: 320px; box-sizing: border-box; box-shadow: 0 10px 30px rgba(0,0,0,.4); display: flex; flex-direction: column; gap: 12px; }\n    h1 { font-size: 18px; margin: 0; }\n    .field { display: flex; flex-direction: column; gap: 6px; }\n    label { display: block; margin: 0; font-size: 12px; color: #9aa4b2; }\n    input { width: 100%; box-sizing: border-box; padding: 10px; border-radius: 8px; border: 1px solid #2a3140; background: #121620; color: #e6e6e6; }\n    button { width: 100%; padding: 10px; border: 0; border-radius: 8px; background: #4c7dff; color: #fff; font-weight: 600; cursor: pointer; }\n        @media (max-width: 768px) {\n            body { display: flex; align-items: center; justify-content: center; height: auto; min-height: 100vh; min-height: 100dvh; padding: 16px; box-sizing: border-box; }\n            form { width: 100%; max-width: 420px; margin: 0; box-sizing: border-box; }\n        }\n  </style>\n</head>\n<body>\n  <form method=\"post\" action=\"/register\">\n    <h1>";

pub const AUTH_FORM_3: &'static str = "</h1>\n        ";

pub const AUTH_FORM_4: &'static str = "\n        <input type=\"hidden\" name=\"next\" value=\"";

pub const LOGIN_FORM_5: &'static str = "\" />\n        <div class=\"field\">\n            <label for=\"username\">";

pub const REGISTER_FORM_5: &'static str = "\" />\n        <div class=\"field\">\n            <label for=\"reg-username\">";

pub const LOGIN_FORM_6: &'static str = "</label>\n            <input id=\"username\" name=\"username\" autocomplete=\"username\" required />\n        </div>\n        <div class=\"field\">\n            <label for=\"password\">";

pub const REGISTER_FORM_6: &'static str = "</label>\n            <input id=\"reg-username\" name=\"username\" autocomplete=\"username\" required />\n        </div>\n        <div class=\"field\">\n            <label for=\"reg-password\">";

pub const LOGIN_FORM_7: &'static str = "</label>\n            <input id=\"password\" name=\"password\" type=\"password\" autocomplete=\"current-password\" required />\n        </div>\n    <button type=\"submit\">";

pub const REGISTER_FORM_7: &'static str = "</label>\n            <input id=\"reg-password\" name=\"password\" type=\"password\" autocomplete=\"new-password\" required />\n        </div>\n    <button type=\"submit\">";

pub const LOGIN_FORM_8: &'static str = "</button>\n    <div style=\"text-align:center;\">\n      <a href=\"/register?next=";

pub const REGISTER_FORM_8: &'static str = "</button>\n    <div style=\"text-align:center;\">\n      <a href=\"/?next=";

pub const AUTH_FORM_9: &'static str = "\" style=\"color:#9aa4b2; font-size:12px; text-decoration:none;\">";

pub const AUTH_FORM_10: &'static str = "</a>\n    </div>\n  </form>\n</body>\n</html>";

pub const AUTH_ERROR_OPEN: &'static str = "<div style=\"background:#3d1420;color:#fca5a5;border:1px solid #6b2136;padding:10px 12px;border-radius:8px;font-size:13px;margin-bottom:0;\">";

/// The fixed parts of the sign-in page, between the values put into it.
pub open spec fn login_form_pieces() -> Seq<Seq<char>> {
    seq![AUTH_FORM_0@, AUTH_FORM_1@, LOGIN_FORM_2@, AUTH_FORM_3@, AUTH_FORM_4@, LOGIN_FORM_5@, LOGIN_FORM_6@, LOGIN_FORM_7@, LOGIN_FORM_8@, AUTH_FORM_9@, AUTH_FORM_10@]
}

/// The fixed parts of the registration page, between the values put into it.
pub open spec fn register_form_pieces() -> Seq<Seq<char>> {
    seq![AUTH_FORM_0@, AUTH_FORM_1@, REGISTER_FORM_2@, AUTH_FORM_3@, AUTH_FORM_4@, REGISTER_FORM_5@, REGISTER_FORM_6@, REGISTER_FORM_7@, REGISTER_FORM_8@, AUTH_FORM_9@, AUTH_FORM_10@]
}

/// The translated words of the sign-in or registration page.
pub struct AuthFormLabels {
    /// The page's `lang` attribute.
    pub lang: String,
    pub title: String,
    pub username: String,
    pub password: String,
    /// The caption of the submit button.
    pub submit: String,
    /// The caption of the link to the other page.
    pub switch_link: String,
}

/// The error box of the page: the translated message, escaped as text.
pub open spec fn auth_error_html(error: Option<Seq<char>>) -> Seq<char> {
    match error {
        Some(msg) => AUTH_ERROR_OPEN@ + crate::auth::spec_html_escape_text(msg) + "</div>"@,
        None => Seq::empty(),
    }
}

/// The page around its values: the `next` path goes in escaped as an
/// attribute value, in the hidden field and in the link to the other page.
pub open spec fn auth_form(p: Seq<Seq<char>>, labels: AuthFormLabels, next: Seq<char>, error: Option<Seq<char>>) -> Seq<char> {
    let next_attr = crate::auth::spec_html_escape_attr(next);
    p[0] + labels.lang@ + p[1] + labels.title@ + p[2] + labels.title@ + p[3] + auth_error_html(error) + p[4]
        + next_attr + p[5] + labels.username@ + p[6] + labels.password@ + p[7] + labels.submit@ + p[8] + next_attr
        + p[9] + labels.switch_link@ + p[10]
}

pub open spec fn opt_str_view(o: Option<&str>) -> Option<Seq<char>> {
    match o {
        Some(s) => Some(s@),
        None => None,
    }
}

fn auth_form_exec(p: &Vec<&str>, labels: &AuthFormLabels, next: &str, error: Option<&str>) -> (r: String)
    requires
        p.len() == 11,
    ensures
        r@ == auth_form(strs_view(p@), *labels, next@, opt_str_view(error)),
{
    let ghost ps = strs_view(p@);
    assert(forall|i: int| 0 <= i < 11 ==> ps[i] == (#[trigger] p@[i])@);
    let next_attr = crate::auth::html_escape_attr(next);
    let mut out: Vec<char> = Vec::new();
    extend_str(&mut out, p[0]);
    extend_str(&mut out, labels.lang.as_str());
    extend_str(&mut out, p[1]);
    extend_str(&mut out, labels.title.as_str());
    extend_str(&mut out, p[2]);
    extend_str(&mut out, labels.title.as_str());
    extend_str(&mut out, p[3]);
    let ghost head = out@;
    match error {
        Some(msg) => {
            let escaped = crate::auth::html_escape_text(msg);
            extend_str(&mut out, AUTH_ERROR_OPEN);
            extend_str(&mut out, escaped.as_str());
            extend_str(&mut out, "</div>");
        },
        None => {},
    }
    assert(out@ =~= head + auth_error_html(opt_str_view(error)));
    extend_str(&mut out, p[4]);
    extend_str(&mut out, next_attr.as_str());
    extend_str(&mut out, p[5]);
    extend_str(&mut out, labels.username.as_str());
    extend_str(&mut out, p[6]);
    extend_str(&mut out, labels.password.as_str());
    extend_str(&mut out, p[7]);
    extend_str(&mut out, labels.submit.as_str());
    extend_str(&mut out, p[8]);
    extend_str(&mut out, next_attr.as_str());
    extend_str(&mut out, p[9]);
    extend_str(&mut out, labels.switch_link.as_str());
    extend_str(&mut out, p[10]);
    assert(out@ =~= auth_form(ps, *labels, next@, opt_str_view(error)));
    string_of(&out)
}

/// The sign-in page; `error` is the translated message of a failed attempt.
pub fn render_login_form(labels: &AuthFormLabels, next: &str, error: Option<&str>) -> (r: String)
    ensures
        r@ == auth_form(login_form_pieces(), *labels, next@, opt_str_view(error)),
{
    let p = vec![AUTH_FORM_0, AUTH_FORM_1, LOGIN_FORM_2, AUTH_FORM_3, AUTH_FORM_4, LOGIN_FORM_5, LOGIN_FORM_6, LOGIN_FORM_7, LOGIN_FORM_8, AUTH_FORM_9, AUTH_FORM_10];
    assert(strs_view(p@) =~= login_form_pieces());
    auth_form_exec(&p, labels, next, error)
}

/// The registration page; `error` is the translated message of a failed
/// attempt.
pub fn render_register_form(labels: &AuthFormLabels, next: &str, error: Option<&str>) -> (r: String)
    ensures
        r@ == auth_form(register_form_pieces(), *labels, next@, opt_str_view(error)),
{
    let p = vec![AUTH_FORM_0, AUTH_FORM_1, REGISTER_FORM_2, AUTH_FORM_3, AUTH_FORM_4, REGISTER_FORM_5, REGISTER_FORM_6, REGISTER_FORM_7, REGISTER_FORM_8, AUTH_FORM_9, AUTH_FORM_10];
    assert(strs_view(p@) =~= register_form_pieces());
    auth_form_exec(&p, labels, next, error)
}

// ---------------------------------------------------------------------------
// Error page
// ---------------------------------------------------------------------------

pub const ERROR_PAGE_0: &'static str = "<!doctype html>\n<html lang=\"";

pub const ERROR_PAGE_1: &'static str = "\">\n<head>\n    <meta charset=\"utf-8\" />\n    <meta name=\"viewport\" content=\"width=device-width, initial-scale=1\" />\n    <title>";

pub const ERROR_PAGE_2: &'static str = "</title>\n    <style>";

pub const ERROR_PAGE_3: &'static str = "</style>\n</head>\n<body>\n    <div class=\"container\">\n        <h1>";

pub const ERROR_PAGE_4: &'static str = "</h1>\n        <div class=\"panel\" style=\"margin-top:16px;\">\n            <div style=\"background:#3d1420;color:#fca5a5;border:1px solid #6b2136;padding:12px 16px;border-radius:8px;font-size:14px;\">";

pub const ERROR_PAGE_5: &'static str = "</div>\n        </div>\n        <a href=\"/dashboard?tab=discs\" class=\"back\" style=\"margin-top:16px;\">";

pub const ERROR_PAGE_6: &'static str = "</a>\n    </div>\n</body>\n</html>";

/// The page shown where a disc form fails: the title, the shared
/// stylesheet, the message and a link back to the disc list.
pub open spec fn spec_error_page(lang: Seq<char>, title: Seq<char>, message: Seq<char>, back: Seq<char>) -> Seq<char> {
    ERROR_PAGE_0@ + lang + ERROR_PAGE_1@ + title + ERROR_PAGE_2@ + crate::utils::SHARED_PAGE_CSS@ + ERROR_PAGE_3@
        + title + ERROR_PAGE_4@ + message + ERROR_PAGE_5@ + back + ERROR_PAGE_6@
}

pub fn render_error_page(lang: &str, title: &str, message: &str, back: &str) -> (r: String)
    ensures
        r@ == spec_error_page(lang@, title@, message@, back@),
{
    let mut out: Vec<char> = Vec::new();
    extend_str(&mut out, ERROR_PAGE_0);
    extend_str(&mut out, lang);
    extend_str(&mut out, ERROR_PAGE_1);
    extend_str(&mut out, title);
    extend_str(&mut out, ERROR_PAGE_2);
    extend_str(&mut out, crate::utils::SHARED_PAGE_CSS);
    extend_str(&mut out, ERROR_PAGE_3);
    extend_str(&mut out, title);
    extend_str(&mut out, ERROR_PAGE_4);
    extend_str(&mut out, message);
    extend_str(&mut out, ERROR_PAGE_5);
    extend_str(&mut out, back);
    extend_str(&mut out, ERROR_PAGE_6);
    assert(out@ =~= spec_error_page(lang@, title@, message@, back@));
    string_of(&out)
}

// ---------------------------------------------------------------------------
// Status cards
// ---------------------------------------------------------------------------

pub const STATUS_CARD_NA_0: &'static str = "<a class=\"card\" style=\"text-decoration:none;color:inherit;opacity:0.5;\">\n                <h3>";

pub const STATUS_CARD_NA_1: &'static str = "</h3>\n                <div class=\"meta\">";

pub const STATUS_CARD_NA_2: &'static str = "</div>\n            </a>";

pub const STATUS_MODE_0: &'static str = "<div style=\"font-size:14px; font-weight:600; color:";

pub const STATUS_MODE_1: &'static str = "; margin:6px 0;\">";

pub const STATUS_CARD_0: &'static str = "<a href=\"";

pub const STATUS_CARD_1: &'static str = "\" class=\"card\" style=\"text-decoration:none;color:inherit;\">\n            <h3>";

pub const STATUS_CARD_2: &'static str = "</h3>\n            ";

pub const STATUS_CARD_3: &'static str = "\n            <div class=\"meta\">";

pub const STATUS_CARD_END: &'static str = "</div>\n        </a>";

/// The translated words of the status cards.
pub struct StatusCardLabels {
    pub not_available: String,
    pub id: String,
    pub mode: String,
    pub mode_normal: String,
    pub mode_hardcore: String,
}

/// The mode line of a Deadly Assault card: red for the hardcore mode.
pub open spec fn status_mode_html(labels: StatusCardLabels, zone_id: u32) -> Seq<char> {
    let hard = crate::challenges::spec_da_is_hardcore(zone_id);
    STATUS_MODE_0@ + (if hard {
        "#ef4444"@
    } else {
        "#c7d1e0"@
    }) + STATUS_MODE_1@ + labels.mode@ + ": "@ + (if hard {
        labels.mode_hardcore@
    } else {
        labels.mode_normal@
    }) + "</div>"@
}

/// The card of one scheduled challenge: greyed out with no link where the
/// zone is 0; else a link to the zone's page with its id and name, and, for
/// Deadly Assault, its mode.
pub open spec fn spec_status_card(labels: StatusCardLabels, zone_id: u32, link_prefix: Seq<char>, label: Seq<char>, name: Seq<char>, is_da: bool) -> Seq<char> {
    if zone_id == 0 {
        STATUS_CARD_NA_0@ + label + STATUS_CARD_NA_1@ + labels.not_available@ + STATUS_CARD_NA_2@
    } else {
        STATUS_CARD_0@ + link_prefix + decimal(zone_id as nat) + STATUS_CARD_1@ + label + STATUS_CARD_2@ + (if is_da {
            status_mode_html(labels, zone_id)
        } else {
            Seq::empty()
        }) + STATUS_CARD_3@ + labels.id@ + ": "@ + decimal(zone_id as nat) + "<br>"@ + name + STATUS_CARD_END@
    }
}

fn push_status_mode(out: &mut Vec<char>, labels: &StatusCardLabels, zone_id: u32)
    ensures
        final(out)@ == old(out)@ + status_mode_html(*labels, zone_id),
{
    let hard = crate::challenges::da_is_hardcore(zone_id);
    extend_str(out, STATUS_MODE_0);
    if hard {
        extend_str(out, "#ef4444");
    } else {
        extend_str(out, "#c7d1e0");
    }
    extend_str(out, STATUS_MODE_1);
    extend_str(out, labels.mode.as_str());
    extend_str(out, ": ");
    if hard {
        extend_str(out, labels.mode_hardcore.as_str());
    } else {
        extend_str(out, labels.mode_normal.as_str());
    }
    extend_str(out, "</div>");
    assert(final(out)@ =~= old(out)@ + status_mode_html(*labels, zone_id));
}

/// `name` is the zone's name from the dumps; `is_da` marks a Deadly Assault
/// card.
pub fn render_status_card(labels: &StatusCardLabels, zone_id: u32, link_prefix: &str, label: &str, name: &str, is_da: bool) -> (r: String)
    ensures
        r@ == spec_status_card(*labels, zone_id, link_prefix@, label@, name@, is_da),
{
    let mut out: Vec<char> = Vec::new();
    if zone_id == 0 {
        extend_str(&mut out, STATUS_CARD_NA_0);
        extend_str(&mut out, label);
        extend_str(&mut out, STATUS_CARD_NA_1);
        extend_str(&mut out, labels.not_available.as_str());
        extend_str(&mut out, STATUS_CARD_NA_2);
    } else {
        extend_str(&mut out, STATUS_CARD_0);
        extend_str(&mut out, link_prefix);
        push_decimal(&mut out, zone_id as u64);
        extend_str(&mut out, STATUS_CARD_1);
        extend_str(&mut out, label);
        extend_str(&mut out, STATUS_CARD_2);
        let ghost mid = out@;
        if is_da {
            push_status_mode(&mut out, labels, zone_id);
        }
        assert(out@ =~= mid + (if is_da {
            status_mode_html(*labels, zone_id)
        } else {
            Seq::empty()
        }));
        extend_str(&mut out, STATUS_CARD_3);
        extend_str(&mut out, labels.id.as_str());
        extend_str(&mut out, ": ");
        push_decimal(&mut out, zone_id as u64);
        extend_str(&mut out, "<br>");
        extend_str(&mut out, name);
        extend_str(&mut out, STATUS_CARD_END);
    }
    assert(out@ =~= spec_status_card(*labels, zone_id, link_prefix@, label@, name@, is_da));
    string_of(&out)
}

// ---------------------------------------------------------------------------
// Skill inputs and panels
// ---------------------------------------------------------------------------

/// The level a skill input starts on: the save's level, else 1.
pub open spec fn level_at(levels: Seq<u32>, i: int) -> u32 {
    if 0 <= i < levels.len() {
        levels[i]
    } else {
        1
    }
}

/// The `disabled` attribute of the Agent's skill inputs, while the player is
/// offline.
pub open spec fn disabled_attr(online: bool) -> Seq<char> {
    if online {
        Seq::empty()
    } else {
        "disabled"@
    }
}

/// The skills of the Agent form, in order: their index in the save's skill
/// list and the name of their field.
pub open spec fn avatar_skill_slots() -> Seq<(int, Seq<char>)> {
    seq![
        (0, "skill_common_attack"@),
        (1, "skill_special_attack"@),
        (2, "skill_evade"@),
        (3, "skill_cooperate_skill"@),
        (6, "skill_assist_skill"@),
    ]
}

/// One skill input of the Agent form.
pub open spec fn avatar_skill_input(label: Seq<char>, name: Seq<char>, value: u32, max: nat, online: bool) -> Seq<char> {
    "<div><label>"@ + label + "</label><input name=\""@ + name + "\" type=\"number\" min=\"1\" max=\""@ + decimal(max)
        + "\" value=\""@ + decimal(value as nat) + "\" "@ + disabled_attr(online) + " /></div>"@
}

pub open spec fn avatar_skill_inputs_upto(labels: Seq<Seq<char>>, levels: Seq<u32>, online: bool, n: nat) -> Seq<char>
    decreases n,
{
    if n == 0 {
        Seq::empty()
    } else {
        let (idx, name) = avatar_skill_slots()[n - 1];
        avatar_skill_inputs_upto(labels, levels, online, (n - 1) as nat) + avatar_skill_input(
            labels[n - 1],
            name,
            level_at(levels, idx),
            12,
            online,
        )
    }
}

/// The skill inputs of the Agent form: the five skills, then the core
/// ability (the save's sixth level), which goes to 7.
pub open spec fn spec_skill_inputs(labels: Seq<Seq<char>>, levels: Seq<u32>, online: bool) -> Seq<char> {
    avatar_skill_inputs_upto(labels, levels, online, 5) + avatar_skill_input(
        labels[5],
        "core_ability"@,
        level_at(levels, 5),
        7,
        online,
    )
}

fn push_avatar_skill_input(out: &mut Vec<char>, label: &str, name: &str, value: u32, max: u64, online: bool)
    ensures
        final(out)@ == old(out)@ + avatar_skill_input(label@, name@, value, max as nat, online),
{
    extend_str(out, "<div><label>");
    extend_str(out, label);
    extend_str(out, "</label><input name=\"");
    extend_str(out, name);
    extend_str(out, "\" type=\"number\" min=\"1\" max=\"");
    push_decimal(out, max);
    extend_str(out, "\" value=\"");
    push_decimal(out, value as u64);
    extend_str(out, "\" ");
    if !online {
        extend_str(out, "disabled");
    }
    extend_str(out, " /></div>");
    assert(final(out)@ =~= old(out)@ + avatar_skill_input(label@, name@, value, max as nat, online));
}

fn level_of(levels: &Vec<u32>, i: usize) -> (r: u32)
    ensures
        r == level_at(levels@, i as int),
{
    if i < levels.len() {
        levels[i]
    } else {
        1
    }
}

/// The skill inputs of the Agent form; `labels` are the words for the basic
/// attack, special attack, dodge, ultimate, assist and core ability.
pub fn render_skill_inputs(labels: &Vec<String>, skill_levels: &Vec<u32>, online: bool) -> (r: String)
    requires
        labels.len() == 6,
    ensures
        r@ == spec_skill_inputs(strings_view(labels@), skill_levels@, online),
{
    let ghost ls = strings_view(labels@);
    let slots: Vec<(usize, &str)> = vec![
        (0, "skill_common_attack"),
        (1, "skill_special_attack"),
        (2, "skill_evade"),
        (3, "skill_cooperate_skill"),
        (6, "skill_assist_skill"),
    ];
    assert(forall|k: int| 0 <= k < 5 ==> (#[trigger] slots@[k]).0 == avatar_skill_slots()[k].0 && slots@[k].1@ == avatar_skill_slots()[k].1);
    let mut out: Vec<char> = Vec::new();
    let mut k: usize = 0;
    while k < 5
        invariant
            k <= 5,
            labels@.len() == 6,
            slots@.len() == 5,
            ls == strings_view(labels@),
            forall|k: int| 0 <= k < 5 ==> (#[trigger] slots@[k]).0 == avatar_skill_slots()[k].0 && slots@[k].1@ == avatar_skill_slots()[k].1,
            out@ == avatar_skill_inputs_upto(ls, skill_levels@, online, k as nat),
        decreases 5 - k,
    {
        let (idx, name) = slots[k];
        let value = level_of(skill_levels, idx);
        assert(ls[k as int] == labels@[k as int]@);
        push_avatar_skill_input(&mut out, labels[k].as_str(), name, value, 12, online);
        k = k + 1;
    }
    let core = level_of(skill_levels, 5);
    assert(ls[5] == labels@[5]@);
    push_avatar_skill_input(&mut out, labels[5].as_str(), "core_ability", core, 7, online);
    string_of(&out)
}

/// The field names of the Bangboo's skills, in order.
pub open spec fn bangboo_skill_names() -> Seq<Seq<char>> {
    seq!["manual"@, "passive"@, "qte"@, "aid"@]
}

pub open spec fn bangboo_skill_input(label: Seq<char>, name: Seq<char>, value: u32) -> Seq<char> {
    "<div><label>"@ + label + "</label><input name=\"skill_"@ + name + "\" type=\"number\" min=\"1\" value=\""@
        + decimal(value as nat) + "\" /></div>"@
}

pub open spec fn bangboo_skill_inputs_upto(labels: Seq<Seq<char>>, levels: Seq<u32>, n: nat) -> Seq<char>
    decreases n,
{
    if n == 0 {
        Seq::empty()
    } else {
        bangboo_skill_inputs_upto(labels, levels, (n - 1) as nat) + bangboo_skill_input(
            labels[n - 1],
            bangboo_skill_names()[n - 1],
            level_at(levels, n - 1),
        )
    }
}

/// The skill inputs of the Bangboo form; `labels` are the words for its
/// four skills.
pub fn render_bangboo_skill_inputs(labels: &Vec<String>, skill_levels: &Vec<u32>) -> (r: String)
    requires
        labels.len() == 4,
    ensures
        r@ == bangboo_skill_inputs_upto(strings_view(labels@), skill_levels@, 4),
{
    let ghost ls = strings_view(labels@);
    let names: Vec<&str> = vec!["manual", "passive", "qte", "aid"];
    assert(strs_view(names@) =~= bangboo_skill_names());
    let mut out: Vec<char> = Vec::new();
    let mut k: usize = 0;
    while k < 4
        invariant
            k <= 4,
            labels@.len() == 4,
            names@.len() == 4,
            ls == strings_view(labels@),
            strs_view(names@) == bangboo_skill_names(),
            out@ == bangboo_skill_inputs_upto(ls, skill_levels@, k as nat),
        decreases 4 - k,
    {
        let ghost before = out@;
        let value = level_of(skill_levels, k);
        assert(ls[k as int] == labels@[k as int]@);
        assert(bangboo_skill_names()[k as int] == names@[k as int]@);
        extend_str(&mut out, "<div><label>");
        extend_str(&mut out, labels[k].as_str());
        extend_str(&mut out, "</label><input name=\"skill_");
        extend_str(&mut out, names[k]);
        extend_str(&mut out, "\" type=\"number\" min=\"1\" value=\"");
        push_decimal(&mut out, value as u64);
        extend_str(&mut out, "\" /></div>");
        assert(out@ =~= before + bangboo_skill_input(ls[k as int], bangboo_skill_names()[k as int], value));
        k = k + 1;
    }
    string_of(&out)
}

/// The disc tab's action panel: links to the new-disc and generate pages, and
/// to delete mode, or out of it while it is on.
pub open spec fn spec_add_equip_panel(title: Seq<char>, new_disc: Seq<char>, generate: Seq<char>, delete_or_exit: Seq<char>, delete_mode: bool) -> Seq<char> {
    "<div class=\"panel\"><h3>"@ + title + "</h3><div style=\"display:flex; gap:8px;\"><a href=\"/equip/new\">"@ + new_disc
        + "</a><a href=\"/equip/generate\">"@ + generate + (if delete_mode {
        "</a><a href=\"/dashboard?tab=discs\">"@
    } else {
        "</a><a href=\"/dashboard?tab=discs&delete=1\">"@
    }) + delete_or_exit + "</a></div></div>"@
}

/// `delete_or_exit` is the word for "delete discs", or for "exit delete
/// mode" while delete mode is on.
pub fn render_add_equip_panel(title: &str, new_disc: &str, generate: &str, delete_or_exit: &str, delete_mode: bool) -> (r: String)
    ensures
        r@ == spec_add_equip_panel(title@, new_disc@, generate@, delete_or_exit@, delete_mode),
{
    let mut out: Vec<char> = Vec::new();
    extend_str(&mut out, "<div class=\"panel\"><h3>");
    extend_str(&mut out, title);
    extend_str(&mut out, "</h3><div style=\"display:flex; gap:8px;\"><a href=\"/equip/new\">");
    extend_str(&mut out, new_disc);
    extend_str(&mut out, "</a><a href=\"/equip/generate\">");
    extend_str(&mut out, generate);
    if delete_mode {
        extend_str(&mut out, "</a><a href=\"/dashboard?tab=discs\">");
    } else {
        extend_str(&mut out, "</a><a href=\"/dashboard?tab=discs&delete=1\">");
    }
    extend_str(&mut out, delete_or_exit);
    extend_str(&mut out, "</a></div></div>");
    assert(out@ =~= spec_add_equip_panel(title@, new_disc@, generate@, delete_or_exit@, delete_mode));
    string_of(&out)
}

/// The W-Engine tab's action panel: a link to the new-W-Engine page.
pub open spec fn spec_add_weapon_panel(title: Seq<char>, new_weapon: Seq<char>) -> Seq<char> {
    "<div class=\"panel\"><h3>"@ + title + "</h3><div style=\"display:flex; gap:8px;\"><a href=\"/weapon/new\">"@
        + new_weapon + "</a></div></div>"@
}

pub fn render_add_weapon_panel(title: &str, new_weapon: &str) -> (r: String)
    ensures
        r@ == spec_add_weapon_panel(title@, new_weapon@),
{
    let mut out: Vec<char> = Vec::new();
    extend_str(&mut out, "<div class=\"panel\"><h3>");
    extend_str(&mut out, title);
    extend_str(&mut out, "</h3><div style=\"display:flex; gap:8px;\"><a href=\"/weapon/new\">");
    extend_str(&mut out, new_weapon);
    extend_str(&mut out, "</a></div></div>");
    assert(out@ =~= spec_add_weapon_panel(title@, new_weapon@));
    string_of(&out)
}

/// The Bangboo tab's action panel: a button that adds every Bangboo.
pub open spec fn spec_add_bangboo_panel(title: Seq<char>, add_all: Seq<char>) -> Seq<char> {
    "<div class=\"panel\"><h3>"@ + title
        + "</h3><div style=\"display:flex; gap:8px;\"><form method=\"post\" action=\"/bangboo/add-all\" style=\"margin:0;\"><button type=\"submit\">"@
        + add_all + "</button></form></div></div>"@
}

pub fn render_add_bangboo_panel(title: &str, add_all: &str) -> (r: String)
    ensures
        r@ == spec_add_bangboo_panel(title@, add_all@),
{
    let mut out: Vec<char> = Vec::new();
    extend_str(&mut out, "<div class=\"panel\"><h3>");
    extend_str(&mut out, title);
    extend_str(
        &mut out,
        "</h3><div style=\"display:flex; gap:8px;\"><form method=\"post\" action=\"/bangboo/add-all\" style=\"margin:0;\"><button type=\"submit\">",
    );
    extend_str(&mut out, add_all);
    extend_str(&mut out, "</button></form></div></div>");
    assert(out@ =~= spec_add_bangboo_panel(title@, add_all@));
    string_of(&out)
}

// ---------------------------------------------------------------------------
// Cards of the dashboard tabs
// ---------------------------------------------------------------------------

/// The head of an item's card: the link to its page, its picture and name
/// (both escaped as attribute values), and its id on a pill.
pub open spec fn card_head(href: Seq<char>, id: u32, thumb_style: Seq<char>, img: Seq<char>, name: Seq<char>, pill: Seq<char>) -> Seq<char> {
    let name_attr = crate::auth::spec_html_escape_attr(name);
    "<a class=\"card\" href=\""@ + href + decimal(id as nat) + "\"><img class=\"thumb\""@ + thumb_style + " src=\""@
        + crate::auth::spec_html_escape_attr(img) + "\" alt=\""@ + name_attr + "\" /><span class=\"pill\">"@ + pill
        + " "@ + decimal(id as nat) + "</span><h3>"@ + name_attr + "</h3>"@
}

/// A line of a card: a label and a number.
pub open spec fn card_meta(label: Seq<char>, value: u32) -> Seq<char> {
    "<div class=\"meta\">"@ + label + " "@ + decimal(value as nat) + "</div>"@
}

fn push_card_head(out: &mut Vec<char>, href: &str, id: u32, thumb_style: &str, img: &str, name: &str, pill: &str)
    ensures
        final(out)@ == old(out)@ + card_head(href@, id, thumb_style@, img@, name@, pill@),
{
    let name_attr = crate::auth::html_escape_attr(name);
    let img_attr = crate::auth::html_escape_attr(img);
    extend_str(out, "<a class=\"card\" href=\"");
    extend_str(out, href);
    push_decimal(out, id as u64);
    extend_str(out, "\"><img class=\"thumb\"");
    extend_str(out, thumb_style);
    extend_str(out, " src=\"");
    extend_str(out, img_attr.as_str());
    extend_str(out, "\" alt=\"");
    extend_str(out, name_attr.as_str());
    extend_str(out, "\" /><span class=\"pill\">");
    extend_str(out, pill);
    extend_str(out, " ");
    push_decimal(out, id as u64);
    extend_str(out, "</span><h3>");
    extend_str(out, name_attr.as_str());
    extend_str(out, "</h3>");
    assert(final(out)@ =~= old(out)@ + card_head(href@, id, thumb_style@, img@, name@, pill@));
}

fn push_card_meta(out: &mut Vec<char>, label: &str, value: u32)
    ensures
        final(out)@ == old(out)@ + card_meta(label@, value),
{
    extend_str(out, "<div class=\"meta\">");
    extend_str(out, label);
    extend_str(out, " ");
    push_decimal(out, value as u64);
    extend_str(out, "</div>");
    assert(final(out)@ =~= old(out)@ + card_meta(label@, value));
}

/// The card of an Agent: its id, name, picture and level.
pub open spec fn spec_avatar_card(id_label: Seq<char>, level_label: Seq<char>, id: u32, level: u32, name: Seq<char>, img: Seq<char>) -> Seq<char> {
    card_head("/avatar/"@, id, ""@, img, name, id_label) + card_meta(level_label, level) + "</a>"@
}

pub fn render_avatar_card(id_label: &str, level_label: &str, id: u32, level: u32, name: &str, img: &str) -> (r: String)
    ensures
        r@ == spec_avatar_card(id_label@, level_label@, id, level, name@, img@),
{
    let mut out: Vec<char> = Vec::new();
    push_card_head(&mut out, "/avatar/", id, "", img, name, id_label);
    push_card_meta(&mut out, level_label, level);
    extend_str(&mut out, "</a>");
    assert(out@ =~= spec_avatar_card(id_label@, level_label@, id, level, name@, img@));
    string_of(&out)
}

/// The card of a W-Engine: its uid, name, picture and level.
pub open spec fn spec_weapon_card(uid_label: Seq<char>, level_label: Seq<char>, uid: u32, level: u32, name: Seq<char>, img: Seq<char>) -> Seq<char> {
    card_head("/weapon/"@, uid, " style=\"object-fit: contain;\""@, img, name, uid_label) + card_meta(level_label, level)
        + "</a>"@
}

pub fn render_weapon_card(uid_label: &str, level_label: &str, uid: u32, level: u32, name: &str, img: &str) -> (r: String)
    ensures
        r@ == spec_weapon_card(uid_label@, level_label@, uid, level, name@, img@),
{
    let mut out: Vec<char> = Vec::new();
    push_card_head(&mut out, "/weapon/", uid, " style=\"object-fit: contain;\"", img, name, uid_label);
    push_card_meta(&mut out, level_label, level);
    extend_str(&mut out, "</a>");
    assert(out@ =~= spec_weapon_card(uid_label@, level_label@, uid, level, name@, img@));
    string_of(&out)
}

/// The translated words of the Bangboo card.
pub struct BangbooCardLabels {
    pub uid: String,
    pub level: String,
    pub rank: String,
}

/// The card of a Bangboo: its id, name, picture, level and rank.
pub open spec fn spec_bangboo_card(labels: BangbooCardLabels, id: u32, level: u32, rank: u32, name: Seq<char>, img: Seq<char>) -> Seq<char> {
    card_head("/bangboo/"@, id, ""@, img, name, labels.uid@) + card_meta(labels.level@, level) + card_meta(
        labels.rank@,
        rank,
    ) + "</a>"@
}

pub fn render_bangboo_card(labels: &BangbooCardLabels, id: u32, level: u32, rank: u32, name: &str, img: &str) -> (r: String)
    ensures
        r@ == spec_bangboo_card(*labels, id, level, rank, name@, img@),
{
    let mut out: Vec<char> = Vec::new();
    push_card_head(&mut out, "/bangboo/", id, "", img, name, labels.uid.as_str());
    push_card_meta(&mut out, labels.level.as_str(), level);
    push_card_meta(&mut out, labels.rank.as_str(), rank);
    extend_str(&mut out, "</a>");
    assert(out@ =~= spec_bangboo_card(*labels, id, level, rank, name@, img@));
    string_of(&out)
}

/// A tab's list of cards after its panels; where there is no card, the
/// message `empty` in its place.
pub open spec fn spec_card_list(panels: Seq<char>, cards: Seq<char>, empty: Seq<char>) -> Seq<char> {
    panels + "<div class=\"cards\">"@ + (if cards.len() == 0 {
        "<p class=\"meta\">"@ + empty + "</p>"@
    } else {
        cards
    }) + "</div>"@
}

pub fn render_card_list(panels: &str, cards: &str, empty: &str) -> (r: String)
    ensures
        r@ == spec_card_list(panels@, cards@, empty@),
{
    let mut out: Vec<char> = Vec::new();
    extend_str(&mut out, panels);
    extend_str(&mut out, "<div class=\"cards\">");
    let c = crate::text::chars_of(cards);
    if c.len() == 0 {
        extend_str(&mut out, "<p class=\"meta\">");
        extend_str(&mut out, empty);
        extend_str(&mut out, "</p>");
    } else {
        extend_chars(&mut out, &c);
    }
    extend_str(&mut out, "</div>");
    assert(out@ =~= spec_card_list(panels@, cards@, empty@));
    string_of(&out)
}

// ---------------------------------------------------------------------------
// Disc cards
// ---------------------------------------------------------------------------

/// `label xN` for each sub-stat line, joined by `, `.
pub open spec fn sub_stats_joined(lines: Seq<(Seq<char>, u32)>) -> Seq<char>
    decreases lines.len(),
{
    if lines.len() == 0 {
        Seq::empty()
    } else if lines.len() == 1 {
        lines[0].0 + " x"@ + decimal(lines[0].1 as nat)
    } else {
        sub_stats_joined(lines.drop_last()) + ", "@ + lines.last().0 + " x"@ + decimal(lines.last().1 as nat)
    }
}

/// The sub-stat line of a disc card: the joined lines, or `none` where
/// there is none.
pub open spec fn spec_sub_stats_text(lines: Seq<(Seq<char>, u32)>, none: Seq<char>) -> Seq<char> {
    if lines.len() == 0 {
        none
    } else {
        sub_stats_joined(lines)
    }
}

pub open spec fn lines_view(v: Seq<(String, u32)>) -> Seq<(Seq<char>, u32)> {
    v.map_values(|p: (String, u32)| (p.0@, p.1))
}

/// The sub-stat line of a disc card, from each sub-stat's label and procs.
pub fn sub_stats_text(lines: &Vec<(String, u32)>, none: &str) -> (r: String)
    ensures
        r@ == spec_sub_stats_text(lines_view(lines@), none@),
{
    let ghost lv = lines_view(lines@);
    if lines.len() == 0 {
        return string_of(&crate::text::chars_of(none));
    }
    let mut out: Vec<char> = Vec::new();
    let mut i: usize = 0;
    while i < lines.len()
        invariant
            i <= lines@.len(),
            lv == lines_view(lines@),
            out@ == sub_stats_joined(lv.take(i as int)),
        decreases lines.len() - i,
    {
        assert(lv.take(i + 1).drop_last() =~= lv.take(i as int));
        assert(lv[i as int] == (lines@[i as int].0@, lines@[i as int].1));
        if i > 0 {
            extend_str(&mut out, ", ");
        }
        extend_str(&mut out, lines[i].0.as_str());
        extend_str(&mut out, " x");
        push_decimal(&mut out, lines[i].1 as u64);
        i = i + 1;
        assert(out@ =~= sub_stats_joined(lv.take(i as int)));
    }
    assert(lv.take(lv.len() as int) =~= lv);
    string_of(&out)
}

/// The translated words of the disc card.
pub struct DiscCardLabels {
    pub uid: String,
    pub set: String,
    pub slot: String,
    pub level: String,
    pub main_stat: String,
    pub sub_stats: String,
}

/// What a disc card shows.
pub struct DiscCardText {
    pub uid: u32,
    pub name: String,
    pub img: String,
    pub slot: u32,
    pub level: u32,
    pub main_label: String,
    pub sub_stats: String,
}

/// A line of a disc card: a label, a colon and the value.
pub open spec fn meta_line(label: Seq<char>, value: Seq<char>) -> Seq<char> {
    "<div class=\"meta\">"@ + label + ": "@ + value + "</div>"@
}

/// The lines of a disc card under its name.
pub open spec fn disc_card_body(labels: DiscCardLabels, d: DiscCardText) -> Seq<char> {
    meta_line(labels.set@, crate::auth::spec_html_escape_attr(d.name@)) + meta_line(labels.slot@, decimal(d.slot as nat))
        + meta_line(labels.level@, decimal(d.level as nat)) + meta_line(labels.main_stat@, d.main_label@) + meta_line(
        labels.sub_stats@,
        d.sub_stats@,
    )
}

/// A disc card: a link to the disc's page, or, in delete mode, a checkbox
/// carrying its uid.
pub open spec fn spec_disc_card(labels: DiscCardLabels, d: DiscCardText, delete_mode: bool) -> Seq<char> {
    let name_attr = crate::auth::spec_html_escape_attr(d.name@);
    let picture = "<img class=\"thumb\" src=\""@ + crate::auth::spec_html_escape_attr(d.img@) + "\" alt=\""@ + name_attr
        + "\" /><span class=\"pill\">"@ + labels.uid@ + " "@ + decimal(d.uid as nat) + "</span><h3>"@ + name_attr
        + "</h3>"@;
    if delete_mode {
        "<label class=\"card select-card\"><input type=\"checkbox\" name=\"equip_uids[]\" value=\""@ + decimal(
            d.uid as nat,
        ) + "\" /><span class=\"selection-outline\"></span>"@ + picture + disc_card_body(labels, d) + "</label>"@
    } else {
        "<a class=\"card\" href=\"/equip/"@ + decimal(d.uid as nat) + "\">"@ + picture + disc_card_body(labels, d)
            + "</a>"@
    }
}

fn push_meta_line(out: &mut Vec<char>, label: &str, value: &Vec<char>)
    ensures
        final(out)@ == old(out)@ + meta_line(label@, value@),
{
    extend_str(out, "<div class=\"meta\">");
    extend_str(out, label);
    extend_str(out, ": ");
    extend_chars(out, value);
    extend_str(out, "</div>");
    assert(final(out)@ =~= old(out)@ + meta_line(label@, value@));
}

fn push_disc_card_body(out: &mut Vec<char>, labels: &DiscCardLabels, d: &DiscCardText, name_attr: &str)
    requires
        name_attr@ == crate::auth::spec_html_escape_attr(d.name@),
    ensures
        final(out)@ == old(out)@ + disc_card_body(*labels, *d),
{
    push_meta_line(out, labels.set.as_str(), &crate::text::chars_of(name_attr));
    push_meta_line(out, labels.slot.as_str(), &crate::text::decimal_chars(d.slot as u64));
    push_meta_line(out, labels.level.as_str(), &crate::text::decimal_chars(d.level as u64));
    push_meta_line(out, labels.main_stat.as_str(), &crate::text::chars_of(d.main_label.as_str()));
    push_meta_line(out, labels.sub_stats.as_str(), &crate::text::chars_of(d.sub_stats.as_str()));
    assert(final(out)@ =~= old(out)@ + disc_card_body(*labels, *d));
}

#[verifier::spinoff_prover]
#[verifier::rlimit(30)]
pub fn render_disc_card(labels: &DiscCardLabels, d: &DiscCardText, delete_mode: bool) -> (r: String)
    ensures
        r@ == spec_disc_card(*labels, *d, delete_mode),
{
    let name_attr = crate::auth::html_escape_attr(d.name.as_str());
    let img_attr = crate::auth::html_escape_attr(d.img.as_str());
    let mut out: Vec<char> = Vec::new();
    if delete_mode {
        extend_str(&mut out, "<label class=\"card select-card\"><input type=\"checkbox\" name=\"equip_uids[]\" value=\"");
        push_decimal(&mut out, d.uid as u64);
        extend_str(&mut out, "\" /><span class=\"selection-outline\"></span>");
    } else {
        extend_str(&mut out, "<a class=\"card\" href=\"/equip/");
        push_decimal(&mut out, d.uid as u64);
        extend_str(&mut out, "\">");
    }
    let ghost head = out@;
    extend_str(&mut out, "<img class=\"thumb\" src=\"");
    extend_str(&mut out, img_attr.as_str());
    extend_str(&mut out, "\" alt=\"");
    extend_str(&mut out, name_attr.as_str());
    extend_str(&mut out, "\" /><span class=\"pill\">");
    extend_str(&mut out, labels.uid.as_str());
    extend_str(&mut out, " ");
    push_decimal(&mut out, d.uid as u64);
    extend_str(&mut out, "</span><h3>");
    extend_str(&mut out, name_attr.as_str());
    extend_str(&mut out, "</h3>");
    let ghost pic = out@;
    push_disc_card_body(&mut out, labels, d, name_attr.as_str());
    if delete_mode {
        extend_str(&mut out, "</label>");
    } else {
        extend_str(&mut out, "</a>");
    }
    assert(out@ =~= spec_disc_card(*labels, *d, delete_mode));
    string_of(&out)
}

// ---------------------------------------------------------------------------
// Options ordered by name
// ---------------------------------------------------------------------------

/// One option of a select over named items.
pub open spec fn named_option(item: (u32, Seq<char>), selected: Option<u32>) -> Seq<char> {
    "<option value=\""@ + decimal(item.0 as nat) + "\""@ + selected_mark(selected == Some(item.0)) + ">"@ + item.1
        + "</option>"@
}

pub open spec fn named_options_upto(items: Seq<(u32, Seq<char>)>, selected: Option<u32>, n: nat) -> Seq<char>
    decreases n,
{
    if n == 0 {
        Seq::empty()
    } else {
        named_options_upto(items, selected, (n - 1) as nat) + named_option(items[n - 1], selected)
    }
}

/// The first option, then one option per item in the order of their names;
/// the item whose id is `selected` is marked.
pub open spec fn spec_named_options(first: Seq<char>, items: Seq<(u32, Seq<char>)>, selected: Option<u32>) -> Seq<char> {
    let sorted = crate::order::sort_by_name(items);
    first + named_options_upto(sorted, selected, sorted.len())
}

pub fn render_named_options(first: &str, items: Vec<(u32, String)>, selected: Option<u32>) -> (r: String)
    ensures
        r@ == spec_named_options(first@, crate::order::names_view(items@), selected),
{
    let sorted = crate::order::sort_entries_by_name(items);
    let ghost sv = crate::order::names_view(sorted@);
    let mut out: Vec<char> = Vec::new();
    extend_str(&mut out, first);
    let ghost head = out@;
    let mut i: usize = 0;
    while i < sorted.len()
        invariant
            i <= sorted@.len(),
            sv == crate::order::names_view(sorted@),
            out@ == head + named_options_upto(sv, selected, i as nat),
        decreases sorted.len() - i,
    {
        let ghost before = out@;
        let id = sorted[i].0;
        assert(sv[i as int] == (id, sorted@[i as int].1@));
        extend_str(&mut out, "<option value=\"");
        push_decimal(&mut out, id as u64);
        extend_str(&mut out, "\"");
        let sel = match selected {
            Some(s) => s == id,
            None => false,
        };
        push_selected(&mut out, sel);
        extend_str(&mut out, ">");
        extend_str(&mut out, sorted[i].1.as_str());
        extend_str(&mut out, "</option>");
        assert(out@ =~= before + named_option(sv[i as int], selected));
        i = i + 1;
        assert(out@ =~= head + named_options_upto(sv, selected, i as nat));
    }
    string_of(&out)
}

/// The first option of a pick list: disabled and shown selected.
pub open spec fn prompt_option(prompt: Seq<char>) -> Seq<char> {
    "<option value=\"\" disabled selected>"@ + prompt + "</option>"@
}

/// The first option of a filter: all items.
pub open spec fn all_option(all: Seq<char>) -> Seq<char> {
    "<option value=\"\">"@ + all + "</option>"@
}

fn option_head(open: &str, label: &str, close: &str) -> (r: String)
    ensures
        r@ == open@ + label@ + close@,
{
    let mut out: Vec<char> = Vec::new();
    extend_str(&mut out, open);
    extend_str(&mut out, label);
    extend_str(&mut out, close);
    string_of(&out)
}

/// The disc set pick list of the new-disc form: the sets, by name, with
/// `selected_id` marked.
pub fn render_disc_select_options(prompt: &str, sets: Vec<(u32, String)>, selected_id: u32) -> (r: String)
    ensures
        r@ == spec_named_options(prompt_option(prompt@), crate::order::names_view(sets@), Some(selected_id)),
{
    let first = option_head("<option value=\"\" disabled selected>", prompt, "</option>");
    render_named_options(first.as_str(), sets, Some(selected_id))
}

/// A W-Engine the pick list may offer: its id, name, and class and rarity
/// (empty and 0 where the data has none).
pub struct WeaponChoice {
    pub id: u32,
    pub name: String,
    pub class: String,
    pub rarity: u32,
}

pub open spec fn weapon_choices_view(v: Seq<WeaponChoice>) -> Seq<(u32, Seq<char>, Seq<char>, u32)> {
    v.map_values(|w: WeaponChoice| (w.id, w.name@, w.class@, w.rarity))
}

/// The W-Engines that pass the class and rarity filters, as (id, name).
pub open spec fn weapons_passing(v: Seq<(u32, Seq<char>, Seq<char>, u32)>, filter_class: Seq<char>, filter_rarity: Seq<char>) -> Seq<(u32, Seq<char>)>
    decreases v.len(),
{
    if v.len() == 0 {
        Seq::empty()
    } else {
        let w = v.last();
        let rest = weapons_passing(v.drop_last(), filter_class, filter_rarity);
        if crate::weapon::spec_weapon_passes_filter(w.2, w.3, filter_class, filter_rarity) {
            rest.push((w.0, w.1))
        } else {
            rest
        }
    }
}

/// The W-Engine pick list of the new-W-Engine form: the W-Engines that pass
/// the filters, by name, with `selected_id` marked.
pub fn render_weapon_select_options(prompt: &str, weapons: &Vec<WeaponChoice>, selected_id: u32, filter_class: &str, filter_rarity: &str) -> (r: String)
    ensures
        r@ == spec_named_options(
            prompt_option(prompt@),
            weapons_passing(weapon_choices_view(weapons@), filter_class@, filter_rarity@),
            Some(selected_id),
        ),
{
    let ghost wv = weapon_choices_view(weapons@);
    let mut items: Vec<(u32, String)> = Vec::new();
    let mut i: usize = 0;
    while i < weapons.len()
        invariant
            i <= weapons@.len(),
            wv == weapon_choices_view(weapons@),
            crate::order::names_view(items@) == weapons_passing(wv.take(i as int), filter_class@, filter_rarity@),
        decreases weapons.len() - i,
    {
        let w = &weapons[i];
        assert(wv.take(i + 1).drop_last() =~= wv.take(i as int));
        assert(wv.take(i + 1).last() == (w.id, w.name@, w.class@, w.rarity));
        if crate::weapon::weapon_passes_filter(w.class.as_str(), w.rarity, filter_class, filter_rarity) {
            let ghost before = items@;
            items.push((w.id, w.name.clone()));
            assert(crate::order::names_view(items@) =~= crate::order::names_view(before).push((w.id, w.name@)));
        }
        i = i + 1;
    }
    assert(wv.take(wv.len() as int) =~= wv);
    let first = option_head("<option value=\"\" disabled selected>", prompt, "</option>");
    render_named_options(first.as_str(), items, Some(selected_id))
}

/// An Agent the pick list may offer: its id, name, whether the player owns
/// it, and its element and rarity (0 where the data has none).
pub struct AvatarChoice {
    pub id: u32,
    pub name: String,
    pub owned: bool,
    pub element: u32,
    pub rarity: u32,
}

pub open spec fn avatar_choices_view(v: Seq<AvatarChoice>) -> Seq<(u32, Seq<char>, bool, u32, u32)> {
    v.map_values(|a: AvatarChoice| (a.id, a.name@, a.owned, a.element, a.rarity))
}

/// Whether the new-Agent list offers an Agent: one the player does not own,
/// of the filtered element and rank (an empty filter passes every Agent).
pub open spec fn avatar_offered(a: (u32, Seq<char>, bool, u32, u32), filter_element: Seq<char>, filter_rank: Seq<char>) -> bool {
    &&& !a.2
    &&& (filter_element.len() == 0 || crate::avatar::spec_avatar_element_name(a.3) == filter_element)
    &&& (filter_rank.len() == 0 || decimal(a.4 as nat) == filter_rank)
}

pub open spec fn avatars_offered(v: Seq<(u32, Seq<char>, bool, u32, u32)>, filter_element: Seq<char>, filter_rank: Seq<char>) -> Seq<(u32, Seq<char>)>
    decreases v.len(),
{
    if v.len() == 0 {
        Seq::empty()
    } else {
        let a = v.last();
        let rest = avatars_offered(v.drop_last(), filter_element, filter_rank);
        if avatar_offered(a, filter_element, filter_rank) {
            rest.push((a.0, a.1))
        } else {
            rest
        }
    }
}

fn avatar_is_offered(a: &AvatarChoice, filter_element: &str, filter_rank: &str) -> (r: bool)
    ensures
        r == avatar_offered((a.id, a.name@, a.owned, a.element, a.rarity), filter_element@, filter_rank@),
{
    if a.owned {
        return false;
    }
    if !filter_element.is_empty() && !crate::text::str_eq(crate::avatar::avatar_element_name(a.element), filter_element) {
        return false;
    }
    if !filter_rank.is_empty() {
        let digits = crate::text::decimal_chars(a.rarity as u64);
        let f = crate::text::chars_of(filter_rank);
        if !crate::text::chars_eq(&digits, &f) {
            return false;
        }
    }
    true
}

/// The Agent pick list of the new-Agent form and how many Agents it offers:
/// the Agents the player does not own that pass the filters, by name.
pub fn render_avatar_select_options(prompt: &str, avatars: &Vec<AvatarChoice>, filter_element: &str, filter_rank: &str) -> (r: (String, usize))
    ensures
        r.0@ == spec_named_options(
            prompt_option(prompt@),
            avatars_offered(avatar_choices_view(avatars@), filter_element@, filter_rank@),
            None,
        ),
        r.1 == avatars_offered(avatar_choices_view(avatars@), filter_element@, filter_rank@).len(),
{
    let ghost av = avatar_choices_view(avatars@);
    let mut items: Vec<(u32, String)> = Vec::new();
    let mut i: usize = 0;
    while i < avatars.len()
        invariant
            i <= avatars@.len(),
            av == avatar_choices_view(avatars@),
            crate::order::names_view(items@) == avatars_offered(av.take(i as int), filter_element@, filter_rank@),
        decreases avatars.len() - i,
    {
        let a = &avatars[i];
        assert(av.take(i + 1).drop_last() =~= av.take(i as int));
        assert(av.take(i + 1).last() == (a.id, a.name@, a.owned, a.element, a.rarity));
        if avatar_is_offered(a, filter_element, filter_rank) {
            let ghost before = items@;
            items.push((a.id, a.name.clone()));
            assert(crate::order::names_view(items@) =~= crate::order::names_view(before).push((a.id, a.name@)));
        }
        i = i + 1;
    }
    assert(av.take(av.len() as int) =~= av);
    let count = items.len();
    let first = option_head("<option value=\"\" disabled selected>", prompt, "</option>");
    (render_named_options(first.as_str(), items, None), count)
}

// ---------------------------------------------------------------------------
// Filter of the disc list
// ---------------------------------------------------------------------------

pub const DISC_DELETE_FILTER_0: &'static str = "<div style=\"margin-bottom:12px;\">\n            <div style=\"display:flex; gap:8px; flex-wrap:wrap; align-items:end;\">\n                <div style=\"display:flex; flex-direction:column; gap:4px;\">\n                    <span style=\"font-size:11px; color:#9aa4b2;\">";

pub const DISC_DELETE_FILTER_1: &'static str = "</span>\n                    <select onchange=\"window.location='/dashboard?tab=discs&delete=1&set_id='+this.value+'&slot=";

pub const DISC_DELETE_FILTER_2: &'static str = "&main_stat=";

pub const DISC_DELETE_FILTER_3: &'static str = "'\" style=\"width:auto; padding:5px 8px; border-radius:8px; border:1px solid #2a3140; background:#121620; color:#e6e6e6; font-size:12px;\">";

pub const DISC_DELETE_FILTER_4: &'static str = "</select>\n                </div>\n                <div style=\"display:flex; flex-direction:column; gap:4px;\">\n                    <span style=\"font-size:11px; color:#9aa4b2;\">";

pub const DISC_DELETE_FILTER_5: &'static str = "</span>\n                    <select onchange=\"window.location='/dashboard?tab=discs&delete=1&set_id=";

pub const DISC_DELETE_FILTER_6: &'static str = "&slot='+this.value+'&main_stat=";

pub const DISC_DELETE_FILTER_7: &'static str = "'\" style=\"width:auto; padding:5px 8px; border-radius:8px; border:1px solid #2a3140; background:#121620; color:#e6e6e6; font-size:12px;\">";

pub const DISC_DELETE_FILTER_8: &'static str = "</select>\n                </div>\n                <div style=\"display:flex; flex-direction:column; gap:4px;\">\n                    <span style=\"font-size:11px; color:#9aa4b2;\">";

pub const DISC_DELETE_FILTER_9: &'static str = "</span>\n                    <select onchange=\"window.location='/dashboard?tab=discs&delete=1&set_id=";

pub const DISC_DELETE_FILTER_10: &'static str = "&slot=";

pub const DISC_DELETE_FILTER_11: &'static str = "&main_stat='+this.value+'&status=";

pub const DISC_DELETE_STATUS_PARAM: &'static str = "&status=";

pub const DISC_DELETE_STATUS_SELECT: &'static str = "&status='+this.value\" style=\"width:auto; padding:5px 8px; border-radius:8px; border:1px solid #2a3140; background:#121620; color:#e6e6e6; font-size:12px;\">";

pub const DISC_DELETE_FILTER_12: &'static str = "</select>\n                </div>\n            </div>\n        </div>";

pub const DISC_FILTER_HEAD: &'static str = "<form method=\"get\" action=\"/dashboard\" style=\"margin-bottom:12px;\">\n            <input type=\"hidden\" name=\"tab\" value=\"discs\" />\n            <div style=\"display:flex; gap:8px; flex-wrap:wrap; align-items:end;\">\n                <div style=\"display:flex; flex-direction:column; gap:4px;\">\n                    <span style=\"font-size:11px; color:#9aa4b2;\">";

/// The translated words of the disc list's filter.
pub struct DiscFilterLabels {
    pub all: String,
    pub set: String,
    pub slot: String,
    pub main_stat: String,
    /// The word before a slot number.
    pub slot_word: String,
    /// The caption of the lock status filter and its two choices.
    pub status: String,
    pub status_locked: String,
    pub status_unlocked: String,
}

/// The lock status a filter value selects: `locked`, `unlocked`, or all
/// (empty) for anything else.
pub open spec fn status_choice(status: Option<Seq<char>>) -> Seq<char> {
    match status {
        Some(v) => if v == "locked"@ {
            "locked"@
        } else if v == "unlocked"@ {
            "unlocked"@
        } else {
            ""@
        },
        None => ""@,
    }
}

fn status_choice_exec(status: Option<&str>) -> (r: &'static str)
    ensures
        r@ == status_choice(
            match status {
                Some(v) => Some(v@),
                None => None,
            },
        ),
{
    match status {
        Some(v) => if crate::text::str_eq(v, "locked") {
            "locked"
        } else if crate::text::str_eq(v, "unlocked") {
            "unlocked"
        } else {
            ""
        },
        None => "",
    }
}

/// The options of the lock status filter: all, locked, unlocked; the choice
/// `status_choice` gives is selected.
pub open spec fn status_filter_options(labels: DiscFilterLabels, choice: Seq<char>) -> Seq<char> {
    "<option value=\"\""@ + selected_mark(choice == ""@) + ">"@ + labels.all@
        + "</option><option value=\"locked\""@ + selected_mark(choice == "locked"@) + ">"@ + labels.status_locked@
        + "</option><option value=\"unlocked\""@ + selected_mark(choice == "unlocked"@) + ">"@
        + labels.status_unlocked@ + "</option>"@
}

fn status_options(labels: &DiscFilterLabels, choice: &str) -> (r: Vec<char>)
    ensures
        r@ == status_filter_options(*labels, choice@),
{
    let mut out: Vec<char> = Vec::new();
    extend_str(&mut out, "<option value=\"\"");
    push_selected(&mut out, crate::text::str_eq(choice, ""));
    extend_str(&mut out, ">");
    extend_str(&mut out, labels.all.as_str());
    extend_str(&mut out, "</option><option value=\"locked\"");
    push_selected(&mut out, crate::text::str_eq(choice, "locked"));
    extend_str(&mut out, ">");
    extend_str(&mut out, labels.status_locked.as_str());
    extend_str(&mut out, "</option><option value=\"unlocked\"");
    push_selected(&mut out, crate::text::str_eq(choice, "unlocked"));
    extend_str(&mut out, ">");
    extend_str(&mut out, labels.status_unlocked.as_str());
    extend_str(&mut out, "</option>");
    assert(out@ =~= status_filter_options(*labels, choice@));
    out
}

/// The options of the slot filter: all, then slots 1 through 6.
pub open spec fn disc_slot_filter_options(labels: DiscFilterLabels, filter_slot: Option<u32>) -> Seq<char> {
    all_option(labels.all@) + slot_options_upto(
        labels.slot_word@,
        match filter_slot {
            Some(s) => s as int,
            None => 0,
        },
        6,
    )
}

/// The options of the main stat filter: all, then every main stat key in
/// order, labelled by the table.
pub open spec fn disc_main_filter_options(labels: DiscFilterLabels, table: Seq<(u32, Seq<char>)>, filter_main: Option<u32>) -> Seq<char> {
    all_option(labels.all@) + main_filter_options_upto(
        crate::discs::spec_all_main_stat_keys(),
        table,
        filter_main,
        crate::discs::spec_all_main_stat_keys().len(),
    )
}

pub open spec fn main_filter_options_upto(keys: Seq<u32>, table: Seq<(u32, Seq<char>)>, filter_main: Option<u32>, n: nat) -> Seq<char>
    decreases n,
{
    if n == 0 {
        Seq::empty()
    } else {
        main_filter_options_upto(keys, table, filter_main, (n - 1) as nat) + main_filter_option(
            table,
            keys[n - 1],
            filter_main,
        )
    }
}

/// One option of the main stat filter.
pub open spec fn main_filter_option(table: Seq<(u32, Seq<char>)>, k: u32, filter_main: Option<u32>) -> Seq<char> {
    "<option value=\""@ + decimal(k as nat) + "\""@ + selected_mark(filter_main == Some(k)) + ">"@ + label_in(table, k)
        + "</option>"@
}

fn push_main_filter_option(out: &mut Vec<char>, table: &Vec<(u32, String)>, k: u32, filter_main: Option<u32>)
    ensures
        final(out)@ == old(out)@ + main_filter_option(table_view(table@), k, filter_main),
{
    extend_str(out, "<option value=\"");
    push_decimal(out, k as u64);
    extend_str(out, "\"");
    let sel = match filter_main {
        Some(f) => f == k,
        None => false,
    };
    push_selected(out, sel);
    extend_str(out, ">");
    push_label(out, table, k);
    extend_str(out, "</option>");
    assert(final(out)@ =~= old(out)@ + main_filter_option(table_view(table@), k, filter_main));
}

/// A filter value as the delete-mode links carry it: its digits, or nothing.
pub open spec fn opt_decimal(o: Option<u32>) -> Seq<char> {
    match o {
        Some(v) => decimal(v as nat),
        None => Seq::empty(),
    }
}

/// The filter of the disc list: set, slot, main stat and lock status. In
/// delete mode the selects navigate, keeping delete mode and the other
/// filters, so the checked boxes stay in one form; else they submit a plain
/// filter form. `choice` is the selected lock status.
pub open spec fn spec_disc_filter_panel(labels: DiscFilterLabels, set_opts: Seq<char>, slot_opts: Seq<char>, main_opts: Seq<char>, status_opts: Seq<char>, filter_set: Option<u32>, filter_slot: Option<u32>, filter_main: Option<u32>, choice: Seq<char>, delete_mode: bool) -> Seq<char> {
    if delete_mode {
        DISC_DELETE_FILTER_0@ + labels.set@ + DISC_DELETE_FILTER_1@ + opt_decimal(filter_slot) + DISC_DELETE_FILTER_2@
            + opt_decimal(filter_main) + DISC_DELETE_STATUS_PARAM@ + choice + DISC_DELETE_FILTER_3@ + set_opts
            + DISC_DELETE_FILTER_4@ + labels.slot@ + DISC_DELETE_FILTER_5@ + opt_decimal(filter_set)
            + DISC_DELETE_FILTER_6@ + opt_decimal(filter_main) + DISC_DELETE_STATUS_PARAM@ + choice
            + DISC_DELETE_FILTER_7@ + slot_opts + DISC_DELETE_FILTER_8@ + labels.main_stat@ + DISC_DELETE_FILTER_9@
            + opt_decimal(filter_set) + DISC_DELETE_FILTER_10@ + opt_decimal(filter_slot) + DISC_DELETE_FILTER_11@
            + choice + DISC_DELETE_FILTER_3@ + main_opts + DISC_DELETE_FILTER_4@ + labels.status@
            + DISC_DELETE_FILTER_9@ + opt_decimal(filter_set) + DISC_DELETE_FILTER_10@ + opt_decimal(filter_slot)
            + DISC_DELETE_FILTER_2@ + opt_decimal(filter_main) + DISC_DELETE_STATUS_SELECT@ + status_opts
            + DISC_DELETE_FILTER_12@
    } else {
        DISC_FILTER_HEAD@ + labels.set@ + FILTER_SELECT_OPEN@ + "set_id"@ + FILTER_SELECT_STYLE@ + set_opts
            + FILTER_MIDDLE@ + labels.slot@ + FILTER_SELECT_OPEN@ + "slot"@ + FILTER_SELECT_STYLE@ + slot_opts
            + FILTER_MIDDLE@ + labels.main_stat@ + FILTER_SELECT_OPEN@ + "main_stat"@ + FILTER_SELECT_STYLE@
            + main_opts + FILTER_MIDDLE@ + labels.status@ + FILTER_SELECT_OPEN@ + "status"@ + FILTER_SELECT_STYLE@
            + status_opts + FILTER_END@
    }
}

fn push_opt_decimal(out: &mut Vec<char>, o: Option<u32>)
    ensures
        final(out)@ == old(out)@ + opt_decimal(o),
{
    match o {
        Some(v) => push_decimal(out, v as u64),
        None => {},
    }
    assert(final(out)@ =~= old(out)@ + opt_decimal(o));
}

fn disc_main_options(labels: &DiscFilterLabels, table: &Vec<(u32, String)>, filter_main: Option<u32>) -> (r: Vec<char>)
    ensures
        r@ == disc_main_filter_options(*labels, table_view(table@), filter_main),
{
    let keys = crate::discs::all_main_stat_keys();
    let ghost tv = table_view(table@);
    let mut out: Vec<char> = Vec::new();
    extend_str(&mut out, "<option value=\"\">");
    extend_str(&mut out, labels.all.as_str());
    extend_str(&mut out, "</option>");
    let ghost head = out@;
    let mut i: usize = 0;
    while i < keys.len()
        invariant
            i <= keys@.len(),
            keys@ == crate::discs::spec_all_main_stat_keys(),
            tv == table_view(table@),
            out@ == head + main_filter_options_upto(keys@, tv, filter_main, i as nat),
        decreases keys.len() - i,
    {
        push_main_filter_option(&mut out, table, keys[i], filter_main);
        i = i + 1;
        assert(out@ =~= head + main_filter_options_upto(keys@, tv, filter_main, i as nat));
    }
    out
}

fn disc_slot_options(labels: &DiscFilterLabels, filter_slot: Option<u32>) -> (r: Vec<char>)
    ensures
        r@ == disc_slot_filter_options(*labels, filter_slot),
{
    let mut out: Vec<char> = Vec::new();
    extend_str(&mut out, "<option value=\"\">");
    extend_str(&mut out, labels.all.as_str());
    extend_str(&mut out, "</option>");
    let sel: u32 = match filter_slot {
        Some(s) => s,
        None => 0,
    };
    push_slot_options(&mut out, labels.slot_word.as_str(), sel);
    assert(out@ =~= disc_slot_filter_options(*labels, filter_slot));
    out
}

fn push_filter_select(out: &mut Vec<char>, name: &str, opts: &Vec<char>)
    ensures
        final(out)@ == old(out)@ + FILTER_SELECT_OPEN@ + name@ + FILTER_SELECT_STYLE@ + opts@,
{
    extend_str(out, FILTER_SELECT_OPEN);
    extend_str(out, name);
    extend_str(out, FILTER_SELECT_STYLE);
    extend_chars(out, opts);
}

/// The filter of the disc list: `sets` are the known disc sets (id, name),
/// offered by name; `table` labels the main stats; `filter_status` is the
/// lock status asked for.
pub fn render_disc_filter_panel(labels: &DiscFilterLabels, sets: Vec<(u32, String)>, table: &Vec<(u32, String)>, filter_set: Option<u32>, filter_slot: Option<u32>, filter_main: Option<u32>, filter_status: Option<&str>, delete_mode: bool) -> (r: String)
    ensures
        ({
            let choice = status_choice(
                match filter_status {
                    Some(v) => Some(v@),
                    None => None,
                },
            );
            r@ == spec_disc_filter_panel(
                *labels,
                spec_named_options(all_option(labels.all@), crate::order::names_view(sets@), filter_set),
                disc_slot_filter_options(*labels, filter_slot),
                disc_main_filter_options(*labels, table_view(table@), filter_main),
                status_filter_options(*labels, choice),
                filter_set,
                filter_slot,
                filter_main,
                choice,
                delete_mode,
            )
        }),
{
    let first = option_head("<option value=\"\">", labels.all.as_str(), "</option>");
    let set_opts = crate::text::chars_of(render_named_options(first.as_str(), sets, filter_set).as_str());
    let slot_opts = disc_slot_options(labels, filter_slot);
    let main_opts = disc_main_options(labels, table, filter_main);
    let choice = status_choice_exec(filter_status);
    let status_opts = status_options(labels, choice);
    let mut out: Vec<char> = Vec::new();
    if delete_mode {
        extend_str(&mut out, DISC_DELETE_FILTER_0);
        extend_str(&mut out, labels.set.as_str());
        extend_str(&mut out, DISC_DELETE_FILTER_1);
        push_opt_decimal(&mut out, filter_slot);
        extend_str(&mut out, DISC_DELETE_FILTER_2);
        push_opt_decimal(&mut out, filter_main);
        extend_str(&mut out, DISC_DELETE_STATUS_PARAM);
        extend_str(&mut out, choice);
        extend_str(&mut out, DISC_DELETE_FILTER_3);
        extend_chars(&mut out, &set_opts);
        extend_str(&mut out, DISC_DELETE_FILTER_4);
        extend_str(&mut out, labels.slot.as_str());
        extend_str(&mut out, DISC_DELETE_FILTER_5);
        push_opt_decimal(&mut out, filter_set);
        extend_str(&mut out, DISC_DELETE_FILTER_6);
        push_opt_decimal(&mut out, filter_main);
        extend_str(&mut out, DISC_DELETE_STATUS_PARAM);
        extend_str(&mut out, choice);
        extend_str(&mut out, DISC_DELETE_FILTER_7);
        extend_chars(&mut out, &slot_opts);
        extend_str(&mut out, DISC_DELETE_FILTER_8);
        extend_str(&mut out, labels.main_stat.as_str());
        extend_str(&mut out, DISC_DELETE_FILTER_9);
        push_opt_decimal(&mut out, filter_set);
        extend_str(&mut out, DISC_DELETE_FILTER_10);
        push_opt_decimal(&mut out, filter_slot);
        extend_str(&mut out, DISC_DELETE_FILTER_11);
        extend_str(&mut out, choice);
        extend_str(&mut out, DISC_DELETE_FILTER_3);
        extend_chars(&mut out, &main_opts);
        extend_str(&mut out, DISC_DELETE_FILTER_4);
        extend_str(&mut out, labels.status.as_str());
        extend_str(&mut out, DISC_DELETE_FILTER_9);
        push_opt_decimal(&mut out, filter_set);
        extend_str(&mut out, DISC_DELETE_FILTER_10);
        push_opt_decimal(&mut out, filter_slot);
        extend_str(&mut out, DISC_DELETE_FILTER_2);
        push_opt_decimal(&mut out, filter_main);
        extend_str(&mut out, DISC_DELETE_STATUS_SELECT);
        extend_chars(&mut out, &status_opts);
        extend_str(&mut out, DISC_DELETE_FILTER_12);
    } else {
        extend_str(&mut out, DISC_FILTER_HEAD);
        extend_str(&mut out, labels.set.as_str());
        push_filter_select(&mut out, "set_id", &set_opts);
        extend_str(&mut out, FILTER_MIDDLE);
        extend_str(&mut out, labels.slot.as_str());
        push_filter_select(&mut out, "slot", &slot_opts);
        extend_str(&mut out, FILTER_MIDDLE);
        extend_str(&mut out, labels.main_stat.as_str());
        push_filter_select(&mut out, "main_stat", &main_opts);
        extend_str(&mut out, FILTER_MIDDLE);
        extend_str(&mut out, labels.status.as_str());
        push_filter_select(&mut out, "status", &status_opts);
        extend_str(&mut out, FILTER_END);
    }
    assert(out@ =~= spec_disc_filter_panel(
        *labels,
        set_opts@,
        slot_opts@,
        main_opts@,
        status_opts@,
        filter_set,
        filter_slot,
        filter_main,
        choice@,
        delete_mode,
    ));
    string_of(&out)
}

// ---------------------------------------------------------------------------
// Tabs
// ---------------------------------------------------------------------------

/// The Agent tab's action panel: a link to the new-Agent page.
pub open spec fn spec_add_avatar_panel(title: Seq<char>, new_avatar: Seq<char>) -> Seq<char> {
    "<div class=\"panel\"><h3>"@ + title + "</h3><div style=\"display:flex; gap:8px;\"><a href=\"/avatar/new\">"@
        + new_avatar + "</a></div></div>"@
}

pub fn render_add_avatar_panel(title: &str, new_avatar: &str) -> (r: String)
    ensures
        r@ == spec_add_avatar_panel(title@, new_avatar@),
{
    let mut out: Vec<char> = Vec::new();
    extend_str(&mut out, "<div class=\"panel\"><h3>");
    extend_str(&mut out, title);
    extend_str(&mut out, "</h3><div style=\"display:flex; gap:8px;\"><a href=\"/avatar/new\">");
    extend_str(&mut out, new_avatar);
    extend_str(&mut out, "</a></div></div>");
    assert(out@ =~= spec_add_avatar_panel(title@, new_avatar@));
    string_of(&out)
}

/// The translated words of the disc list's delete mode.
pub struct DeleteModeLabels {
    pub title: String,
    pub delete_selected: String,
    pub delete_all_unlocked: String,
    pub cancel: String,
}

/// The panel of delete mode: delete the checked discs, delete every
/// unlocked disc (after a confirmation), or leave delete mode.
pub open spec fn spec_delete_panel(l: DeleteModeLabels) -> Seq<char> {
    "<div class=\"panel\"><h3>"@ + l.title@
        + "</h3><div style=\"display:flex; gap:8px; flex-wrap:wrap;\"><button class=\"danger\" type=\"submit\">"@
        + l.delete_selected@
        + "</button><button class=\"danger\" type=\"submit\" formaction=\"/equip/delete-all-unlocked\" onclick=\"return confirm('"@
        + l.delete_all_unlocked@ + "');\">"@ + l.delete_all_unlocked@ + "</button><a href=\"/dashboard?tab=discs\">"@
        + l.cancel@ + "</a></div></div>"@
}

/// The disc tab. `cards` are the cards of the page shown and `total` the
/// number of discs that pass the filters; "no discs" shows where there is
/// none. In delete mode the cards sit in a form that deletes the checked
/// discs after a confirmation.
pub open spec fn spec_disc_list(add_panel: Seq<char>, filter_panel: Seq<char>, cards: Seq<char>, pagination: Seq<char>, total: usize, no_discs: Seq<char>, delete: DeleteModeLabels, delete_mode: bool) -> Seq<char> {
    let shown = if cards.len() == 0 && total == 0 {
        "<p class=\"meta\">"@ + no_discs + "</p>"@
    } else {
        cards
    };
    if delete_mode {
        add_panel + "<form class=\"delete-form\" method=\"post\" action=\"/equip/delete\" onsubmit=\"return confirm('"@
            + delete.delete_selected@ + "');\">"@ + spec_delete_panel(delete) + filter_panel + "<div class=\"cards\">"@
            + shown + "</div></form>"@ + pagination
    } else {
        add_panel + filter_panel + "<div class=\"cards\">"@ + shown + "</div>"@ + pagination
    }
}

fn push_delete_panel(out: &mut Vec<char>, l: &DeleteModeLabels)
    ensures
        final(out)@ == old(out)@ + spec_delete_panel(*l),
{
    extend_str(out, "<div class=\"panel\"><h3>");
    extend_str(out, l.title.as_str());
    extend_str(out, "</h3><div style=\"display:flex; gap:8px; flex-wrap:wrap;\"><button class=\"danger\" type=\"submit\">");
    extend_str(out, l.delete_selected.as_str());
    extend_str(
        out,
        "</button><button class=\"danger\" type=\"submit\" formaction=\"/equip/delete-all-unlocked\" onclick=\"return confirm('",
    );
    extend_str(out, l.delete_all_unlocked.as_str());
    extend_str(out, "');\">");
    extend_str(out, l.delete_all_unlocked.as_str());
    extend_str(out, "</button><a href=\"/dashboard?tab=discs\">");
    extend_str(out, l.cancel.as_str());
    extend_str(out, "</a></div></div>");
    assert(final(out)@ =~= old(out)@ + spec_delete_panel(*l));
}

pub fn render_disc_list(add_panel: &str, filter_panel: &str, cards: &str, pagination: &str, total: usize, no_discs: &str, delete: &DeleteModeLabels, delete_mode: bool) -> (r: String)
    ensures
        r@ == spec_disc_list(add_panel@, filter_panel@, cards@, pagination@, total, no_discs@, *delete, delete_mode),
{
    let c = crate::text::chars_of(cards);
    let mut shown: Vec<char> = Vec::new();
    if c.len() == 0 && total == 0 {
        extend_str(&mut shown, "<p class=\"meta\">");
        extend_str(&mut shown, no_discs);
        extend_str(&mut shown, "</p>");
    } else {
        extend_chars(&mut shown, &c);
    }
    let mut out: Vec<char> = Vec::new();
    extend_str(&mut out, add_panel);
    if delete_mode {
        extend_str(&mut out, "<form class=\"delete-form\" method=\"post\" action=\"/equip/delete\" onsubmit=\"return confirm('");
        extend_str(&mut out, delete.delete_selected.as_str());
        extend_str(&mut out, "');\">");
        push_delete_panel(&mut out, delete);
        extend_str(&mut out, filter_panel);
        extend_str(&mut out, "<div class=\"cards\">");
        extend_chars(&mut out, &shown);
        extend_str(&mut out, "</div></form>");
    } else {
        extend_str(&mut out, filter_panel);
        extend_str(&mut out, "<div class=\"cards\">");
        extend_chars(&mut out, &shown);
        extend_str(&mut out, "</div>");
    }
    extend_str(&mut out, pagination);
    assert(out@ =~= spec_disc_list(add_panel@, filter_panel@, cards@, pagination@, total, no_discs@, *delete, delete_mode));
    string_of(&out)
}

// ---------------------------------------------------------------------------
// Language select
// ---------------------------------------------------------------------------

pub const LANG_SELECT_OPEN: &'static str = "<select onchange=\"location.href='/set-lang?lang='+this.value+'&next=";

pub const LANG_SELECT_STYLE: &'static str = "'\" style=\"padding:5px 8px; border-radius:8px; border:1px solid #2a3140; background:#121620; color:#e6e6e6; font-size:12px; font-weight:700; cursor:pointer;\">";

/// The language select of the dashboard: one option per language, the
/// current one marked; choosing one goes to the language switch, which
/// comes back to the dashboard.
pub open spec fn spec_lang_selector(codes: Seq<Seq<char>>, labels: Seq<Seq<char>>, current: Seq<char>) -> Seq<char> {
    LANG_SELECT_OPEN@ + crate::auth::url_encode_bytes(vstd::utf8::encode_utf8("/dashboard"@)) + LANG_SELECT_STYLE@
        + filter_options_upto(codes, labels, current, codes.len()) + "</select>"@
}

/// `codes` are the languages' codes and `labels` their names, in the same
/// order; `current` is the code of the page's language.
pub fn render_lang_selector(codes: &Vec<&str>, labels: &Vec<String>, current: &str) -> (r: String)
    requires
        codes.len() == labels.len(),
    ensures
        r@ == spec_lang_selector(strs_view(codes@), strings_view(labels@), current@),
{
    let next = crate::auth::url_encode_component("/dashboard");
    let mut out: Vec<char> = Vec::new();
    extend_str(&mut out, LANG_SELECT_OPEN);
    extend_str(&mut out, next.as_str());
    extend_str(&mut out, LANG_SELECT_STYLE);
    push_filter_options(&mut out, codes, labels, current);
    extend_str(&mut out, "</select>");
    assert(out@ =~= spec_lang_selector(strs_view(codes@), strings_view(labels@), current@));
    string_of(&out)
}

} // verus!
