use vstd::prelude::*;

verus! {

/// 2^64, the modulus of a decoded varint.
pub open spec fn two64() -> int {
    0x1_0000_0000_0000_0000int
}

/// The seven payload bits of a varint byte.
pub open spec fn low7(b: u8) -> int {
    (b % 128) as int
}

/// Little-endian base-128 sum of the payload bits of `n` bytes starting at `q`.
pub open spec fn payload_sum(buf: Seq<u8>, q: int, n: nat) -> int
    decreases n,
{
    if n == 0 {
        0
    } else {
        low7(buf[q]) + 128 * payload_sum(buf, q + 1, (n - 1) as nat)
    }
}

/// Number of bytes of the varint that starts at `p`, if it ends inside `buf`.
pub open spec fn varint_len(buf: Seq<u8>, p: int) -> Option<nat>
    decreases buf.len() - p,
{
    if p < 0 || p >= buf.len() {
        None
    } else if buf[p] < 128 {
        Some(1)
    } else {
        match varint_len(buf, p + 1) {
            Some(n) => Some(n + 1),
            None => None,
        }
    }
}

/// The varint at `p`: its value modulo 2^64 and the position after it.
pub open spec fn spec_read_varint(buf: Seq<u8>, p: int) -> Option<(u64, int)> {
    match varint_len(buf, p) {
        Some(n) => Some(((payload_sum(buf, p, n) % two64()) as u64, p + n)),
        None => None,
    }
}

pub proof fn lemma_varint_len_bounds(buf: Seq<u8>, p: int)
    ensures
        varint_len(buf, p) matches Some(n) ==> 1 <= n && p + n <= buf.len() && 0 <= p,
    decreases buf.len() - p,
{
    if 0 <= p < buf.len() && buf[p] >= 128 {
        lemma_varint_len_bounds(buf, p + 1);
    }
}

proof fn lemma_payload_sum_step(buf: Seq<u8>, q: int, n: nat)
    ensures
        payload_sum(buf, q, n + 1) == payload_sum(buf, q, n) + low7(buf[q + n]) * vstd::arithmetic::power::pow(128, n),
    decreases n,
{
    reveal(vstd::arithmetic::power::pow);
    if n == 0 {
        assert(payload_sum(buf, q + 1, 0) == 0);
    } else {
        lemma_payload_sum_step(buf, q + 1, (n - 1) as nat);
        assert(vstd::arithmetic::power::pow(128, n) == 128 * vstd::arithmetic::power::pow(128, (n - 1) as nat));
        assert(128 * (low7(buf[q + 1 + (n - 1)]) * vstd::arithmetic::power::pow(128, (n - 1) as nat))
            == low7(buf[q + n]) * vstd::arithmetic::power::pow(128, n)) by (nonlinear_arith)
            requires vstd::arithmetic::power::pow(128, n) == 128 * vstd::arithmetic::power::pow(128, (n - 1) as nat),
                q + 1 + (n - 1) == q + n;
    }
}

proof fn lemma_varint_len_of_run(buf: Seq<u8>, q: int, p: int)
    requires
        0 <= q <= p < buf.len(),
        buf[p] < 128,
        forall|i: int| q <= i < p ==> buf[i] >= 128,
    ensures
        varint_len(buf, q) == Some((p - q + 1) as nat),
    decreases p - q,
{
    if q < p {
        lemma_varint_len_of_run(buf, q + 1, p);
    }
}

proof fn lemma_varint_none_of_run(buf: Seq<u8>, q: int)
    requires
        0 <= q,
        forall|i: int| q <= i < buf.len() ==> buf[i] >= 128,
    ensures
        varint_len(buf, q) is None,
    decreases buf.len() - q,
{
    if q < buf.len() {
        lemma_varint_none_of_run(buf, q + 1);
    }
}

/// Reads the base-128 varint at `pos`; bits beyond the 64th are dropped.
/// `None` when the buffer ends before the varint does.
pub fn read_varint(buf: &[u8], pos: usize) -> (res: Option<(u64, usize)>)
    ensures
        match res {
            Some((v, e)) => spec_read_varint(buf@, pos as int) == Some((v, e as int)),
            None => spec_read_varint(buf@, pos as int) is None,
        },
{
    let mut result: u64 = 0;
    let mut mult: u64 = 1;
    let mut p: usize = pos;
    let ghost m: int = two64();
    proof {
        reveal(vstd::arithmetic::power::pow);
        assert(vstd::arithmetic::power::pow(128, 0) == 1);
    }
    loop
        invariant
            pos <= p,
            p <= pos || p <= buf.len(),
            m == two64(),
            forall|i: int| pos <= i < p ==> buf@[i] >= 128,
            result as int == payload_sum(buf@, pos as int, (p - pos) as nat) % m,
            mult as int == vstd::arithmetic::power::pow(128, (p - pos) as nat) % m,
        decreases buf.len() - p,
    {
        if p >= buf.len() {
            proof {
                lemma_varint_none_of_run(buf@, pos as int);
            }
            return None;
        }
        let byte = buf[p];
        let c: u64 = (byte % 128) as u64;
        proof {
            let n = (p - pos) as nat;
            lemma_payload_sum_step(buf@, pos as int, n);
            let s = payload_sum(buf@, pos as int, n);
            let w = vstd::arithmetic::power::pow(128, n);
            vstd::arithmetic::power::lemma_pow_positive(128, n);
            vstd::arithmetic::div_mod::lemma_mul_mod_noop_right(c as int, w, m);
            vstd::arithmetic::div_mod::lemma_add_mod_noop(s, c * w, m);
            vstd::arithmetic::div_mod::lemma_mul_mod_noop_left(w, 128, m);
            reveal(vstd::arithmetic::power::pow);
            assert(vstd::arithmetic::power::pow(128, n + 1) == w * 128) by {
                vstd::arithmetic::power::lemma_pow_adds(128, n, 1);
                assert(vstd::arithmetic::power::pow(128, 1) == 128) by {
                    reveal_with_fuel(vstd::arithmetic::power::pow, 2);
                }
            }
        }
        assert((c as u128) * (mult as u128) < 0x100_0000_0000_0000_0000u128) by (nonlinear_arith)
            requires c < 128, mult < 0x1_0000_0000_0000_0000u128;
        let sum: u128 = result as u128 + (c as u128) * (mult as u128);
        result = (sum % 0x1_0000_0000_0000_0000u128) as u64;
        mult = ((mult as u128 * 128u128) % 0x1_0000_0000_0000_0000u128) as u64;
        p = p + 1;
        if byte < 128 {
            proof {
                lemma_varint_len_of_run(buf@, pos as int, (p - 1) as int);
            }
            return Some((result, p));
        }
    }
}

} // verus!

verus! {

/// The low 32 bits of a decoded varint, as the save fields store them.
pub open spec fn trunc32(v: u64) -> u32 {
    (v % 0x1_0000_0000) as u32
}

/// The tag read at `p`, or tag 0 at the buffer's end when no varint can be read.
pub open spec fn next_tag(buf: Seq<u8>, p: int) -> (u64, int) {
    match spec_read_varint(buf, p) {
        Some(r) => r,
        None => (0u64, buf.len() as int),
    }
}

/// The length-delimited field at `p`: its bytes and the position after it.
pub open spec fn spec_read_ld(buf: Seq<u8>, p: int) -> Option<(Seq<u8>, int)> {
    match spec_read_varint(buf, p) {
        Some((len, np)) => if np + len > buf.len() {
            None
        } else {
            Some((buf.subrange(np, np + len), np + len))
        },
        None => None,
    }
}

/// A length-delimited field, or no bytes and the buffer's end when it cannot be read.
pub open spec fn ld_or_empty(buf: Seq<u8>, p: int) -> (Seq<u8>, int) {
    match spec_read_ld(buf, p) {
        Some(r) => r,
        None => (Seq::<u8>::empty(), buf.len() as int),
    }
}

/// First position at or after `p` that holds a byte without the continuation
/// bit, or the buffer's end.
pub open spec fn scan_end(buf: Seq<u8>, p: int) -> int
    decreases buf.len() - p,
{
    if p < 0 || p >= buf.len() {
        p
    } else if buf[p] < 128 {
        p
    } else {
        scan_end(buf, p + 1)
    }
}

/// Where skipping a field of wire type `wire` at `p` lands, or `None` when the
/// field cannot be skipped (unknown wire type, or a length past the buffer).
pub open spec fn spec_skip_field(wire: u64, buf: Seq<u8>, p: int) -> Option<int> {
    if wire == 0 {
        let q = scan_end(buf, p);
        Some(if 0 <= q < buf.len() { q + 1 } else { q })
    } else if wire == 2 {
        match spec_read_varint(buf, p) {
            Some((len, np)) => if np + len <= buf.len() {
                Some(np + len)
            } else {
                None
            },
            None => if p <= buf.len() {
                Some(p)
            } else {
                None
            },
        }
    } else {
        None
    }
}

/// The base-128 encoding of `v`: seven bits per byte, low bits first, the
/// high bit set on every byte but the last.
pub open spec fn varint_encoding(v: nat) -> Seq<u8>
    decreases v,
{
    if v < 128 {
        seq![v as u8]
    } else {
        seq![(v % 128 + 128) as u8] + varint_encoding(v / 128)
    }
}

proof fn lemma_varint_encoding_reads(v: nat, buf: Seq<u8>, p: int)
    requires
        0 <= p,
        p + varint_encoding(v).len() <= buf.len(),
        buf.subrange(p, p + varint_encoding(v).len()) == varint_encoding(v),
    ensures
        varint_len(buf, p) == Some(varint_encoding(v).len()),
        payload_sum(buf, p, varint_encoding(v).len()) == v,
    decreases v,
{
    let e = varint_encoding(v);
    assert(buf[p] == e[0]) by {
        assert(buf.subrange(p, p + e.len())[0] == buf[p]);
    }
    if v < 128 {
        assert(payload_sum(buf, p + 1, 0) == 0);
    } else {
        let rest = varint_encoding(v / 128);
        assert(e == seq![(v % 128 + 128) as u8] + rest);
        assert(buf.subrange(p + 1, p + 1 + rest.len()) =~= rest) by {
            assert forall|i: int| 0 <= i < rest.len() implies buf.subrange(p + 1, p + 1 + rest.len())[i]
                == rest[i] by {
                assert(buf.subrange(p, p + e.len())[i + 1] == e[i + 1]);
            }
        }
        lemma_varint_encoding_reads(v / 128, buf, p + 1);
        assert(low7(buf[p]) == v % 128);
        assert(v == v % 128 + 128 * (v / 128));
    }
}

/// The varint reader gives back any 64-bit value from its base-128
/// encoding, wherever the encoding stands in the buffer, and stops right
/// after it.
pub proof fn law_varint_round_trip(v: u64, buf: Seq<u8>, p: int)
    requires
        0 <= p,
        p + varint_encoding(v as nat).len() <= buf.len(),
        buf.subrange(p, p + varint_encoding(v as nat).len()) == varint_encoding(v as nat),
    ensures
        spec_read_varint(buf, p) == Some((v, p + varint_encoding(v as nat).len())),
{
    lemma_varint_encoding_reads(v as nat, buf, p);
    assert((v as int) % two64() == v as int);
}

pub proof fn lemma_read_varint_end(buf: Seq<u8>, p: int)
    ensures
        spec_read_varint(buf, p) matches Some((v, e)) ==> 0 <= p < e <= buf.len(),
        spec_read_varint(buf, p) is None ==> p < 0 || p >= buf.len() || buf.len() > 0,
{
    lemma_varint_len_bounds(buf, p);
}

pub proof fn lemma_next_tag_progress(buf: Seq<u8>, p: int)
    requires
        0 <= p < buf.len(),
    ensures
        p < next_tag(buf, p).1 <= buf.len(),
{
    lemma_read_varint_end(buf, p);
}

pub proof fn lemma_read_ld_end(buf: Seq<u8>, p: int)
    ensures
        spec_read_ld(buf, p) matches Some((sub, e)) ==> 0 <= p < e <= buf.len(),
{
    lemma_read_varint_end(buf, p);
}

pub proof fn lemma_ld_or_empty_end(buf: Seq<u8>, p: int)
    requires
        0 <= p <= buf.len(),
    ensures
        p <= ld_or_empty(buf, p).1 <= buf.len(),
{
    lemma_read_ld_end(buf, p);
}

proof fn lemma_scan_end_bounds(buf: Seq<u8>, p: int)
    requires
        0 <= p <= buf.len(),
    ensures
        p <= scan_end(buf, p) <= buf.len(),
    decreases buf.len() - p,
{
    if p < buf.len() && buf[p] >= 128 {
        lemma_scan_end_bounds(buf, p + 1);
    }
}

pub proof fn lemma_skip_end(wire: u64, buf: Seq<u8>, p: int)
    requires
        0 <= p <= buf.len(),
    ensures
        spec_skip_field(wire, buf, p) matches Some(e) ==> p <= e <= buf.len(),
{
    lemma_scan_end_bounds(buf, p);
    lemma_read_varint_end(buf, p);
}

/// Reads a length-delimited field (a varint length, then that many bytes).
pub fn read_ld(buf: &[u8], pos: usize) -> (res: Option<(&[u8], usize)>)
    ensures
        match res {
            Some((sub, e)) => spec_read_ld(buf@, pos as int) == Some((sub@, e as int)),
            None => spec_read_ld(buf@, pos as int) is None,
        },
{
    let (len, np) = match read_varint(buf, pos) {
        Some(r) => r,
        None => return None,
    };
    proof {
        lemma_read_varint_end(buf@, pos as int);
    }
    if len > (buf.len() - np) as u64 {
        return None;
    }
    let end: usize = np + len as usize;
    Some((&buf[np..end], end))
}

/// Skips one field of wire type `wire` starting at `*pos`; false when the field
/// cannot be skipped. A varint that runs to the buffer's end leaves the
/// position at the end.
pub fn skip_field(wire: u64, buf: &[u8], pos: &mut usize) -> (ok: bool)
    requires
        *old(pos) <= buf.len(),
    ensures
        ok == spec_skip_field(wire, buf@, *old(pos) as int) is Some,
        ok ==> spec_skip_field(wire, buf@, *old(pos) as int) == Some(*final(pos) as int),
        *final(pos) <= buf.len(),
{
    if wire == 0 {
        let ghost start = *pos;
        while *pos < buf.len() && buf[*pos] >= 128
            invariant
                start <= *pos <= buf.len(),
                scan_end(buf@, start as int) == scan_end(buf@, *pos as int),
            decreases buf.len() - *pos,
        {
            *pos = *pos + 1;
        }
        if *pos < buf.len() {
            *pos = *pos + 1;
        }
        true
    } else if wire == 2 {
        match read_varint(buf, *pos) {
            Some((len, np)) => {
                proof {
                    lemma_read_varint_end(buf@, *pos as int);
                }
                if len > (buf.len() - np) as u64 {
                    *pos = buf.len();
                    false
                } else {
                    *pos = np + len as usize;
                    true
                }
            },
            None => true,
        }
    } else {
        false
    }
}

/// The packed-varint list loop: every varint from `pos` on, truncated to 32 bits.
pub open spec fn varint_list_loop(buf: Seq<u8>, pos: int, acc: Seq<u32>) -> Seq<u32>
    decreases buf.len() - pos,
{
    if pos < 0 || pos >= buf.len() {
        acc
    } else {
        let (v, p1) = next_tag(buf, pos);
        proof {
            lemma_next_tag_progress(buf, pos);
        }
        varint_list_loop(buf, p1, acc.push(trunc32(v)))
    }
}

pub open spec fn spec_varint_list(buf: Seq<u8>) -> Seq<u32> {
    varint_list_loop(buf, 0, Seq::<u32>::empty())
}

/// Decodes a packed list of varints, each truncated to 32 bits.
pub fn decode_varint_list(buf: &[u8]) -> (list: Vec<u32>)
    ensures
        list@ == spec_varint_list(buf@),
{
    let mut list: Vec<u32> = Vec::new();
    let mut pos: usize = 0;
    while pos < buf.len()
        invariant
            pos <= buf.len(),
            varint_list_loop(buf@, pos as int, list@) == spec_varint_list(buf@),
        decreases buf.len() - pos,
    {
        proof {
            lemma_next_tag_progress(buf@, pos as int);
        }
        let (v, np) = match read_varint(buf, pos) {
            Some(r) => r,
            None => (0, buf.len()),
        };
        pos = np;
        list.push((v % 0x1_0000_0000) as u32);
    }
    list
}

} // verus!

verus! {

/// The player's basic record.
#[derive(Clone, Copy, Debug)]
pub struct BasicSave {
    pub level: u32,
    pub avatar_id: u32,
    pub control_avatar_id: u32,
    pub control_guise_avatar_id: u32,
}

/// One W-Engine in the save.
#[derive(Clone, Copy, Debug)]
pub struct WeaponItemSave {
    pub uid: u32,
    pub id: u32,
    pub level: u32,
    pub star: u32,
    pub refine: u32,
}

/// One stat line of a drive disc.
#[derive(Clone, Copy, Debug)]
pub struct EquipProperty {
    pub key: u32,
    pub base_value: u32,
    pub add_value: u32,
}

/// The hall (overworld) record.
#[derive(Clone, Copy, Debug)]
pub struct HallSave {
    pub section_id: u32,
}

pub open spec fn basic_default() -> BasicSave {
    BasicSave { level: 0, avatar_id: 0, control_avatar_id: 0, control_guise_avatar_id: 0 }
}

pub open spec fn weapon_default() -> WeaponItemSave {
    WeaponItemSave { uid: 0, id: 0, level: 0, star: 0, refine: 0 }
}

pub open spec fn property_default() -> EquipProperty {
    EquipProperty { key: 0, base_value: 0, add_value: 0 }
}

pub open spec fn set_basic_field(b: BasicSave, field: u64, v: u32) -> BasicSave {
    if field == 1 {
        BasicSave { level: v, ..b }
    } else if field == 2 {
        BasicSave { avatar_id: v, ..b }
    } else if field == 3 {
        BasicSave { control_avatar_id: v, ..b }
    } else {
        BasicSave { control_guise_avatar_id: v, ..b }
    }
}

/// Field loop of a BasicSave message: fields 1..4 are varints, other fields are skipped.
pub open spec fn basic_loop(buf: Seq<u8>, pos: int, acc: BasicSave) -> BasicSave
    decreases buf.len() - pos,
{
    if pos < 0 || pos >= buf.len() {
        acc
    } else {
        let (tag, p1) = next_tag(buf, pos);
        let field = tag / 8;
        proof {
            lemma_next_tag_progress(buf, pos);
            lemma_read_varint_end(buf, p1);
            lemma_skip_end(tag % 8, buf, p1);
        }
        if 1 <= field <= 4 {
            match spec_read_varint(buf, p1) {
                Some((v, p2)) => basic_loop(buf, p2, set_basic_field(acc, field, trunc32(v))),
                None => basic_loop(buf, p1, acc),
            }
        } else {
            match spec_skip_field(tag % 8, buf, p1) {
                Some(p2) => basic_loop(buf, p2, acc),
                None => acc,
            }
        }
    }
}

pub open spec fn spec_basic_save(buf: Seq<u8>) -> BasicSave {
    basic_loop(buf, 0, basic_default())
}

/// Decodes a BasicSave message; unreadable trailing data ends the decode.
pub fn decode_basic_save(buf: &[u8]) -> (basic: BasicSave)
    ensures
        basic == spec_basic_save(buf@),
{
    let mut basic = BasicSave { level: 0, avatar_id: 0, control_avatar_id: 0, control_guise_avatar_id: 0 };
    let mut pos: usize = 0;
    while pos < buf.len()
        invariant
            pos <= buf.len(),
            basic_loop(buf@, pos as int, basic) == spec_basic_save(buf@),
        decreases buf.len() - pos,
    {
        proof {
            lemma_next_tag_progress(buf@, pos as int);
        }
        let (tag, new_pos) = match read_varint(buf, pos) {
            Some(r) => r,
            None => (0, buf.len()),
        };
        pos = new_pos;
        let field = tag / 8;
        proof {
            lemma_read_varint_end(buf@, pos as int);
            lemma_skip_end(tag % 8, buf@, pos as int);
        }
        if field >= 1 && field <= 4 {
            if let Some((v, np)) = read_varint(buf, pos) {
                let v32 = (v % 0x1_0000_0000) as u32;
                if field == 1 {
                    basic.level = v32;
                } else if field == 2 {
                    basic.avatar_id = v32;
                } else if field == 3 {
                    basic.control_avatar_id = v32;
                } else {
                    basic.control_guise_avatar_id = v32;
                }
                pos = np;
            }
        } else {
            if !skip_field(tag % 8, buf, &mut pos) {
                return basic;
            }
        }
    }
    basic
}

pub open spec fn set_weapon_field(w: WeaponItemSave, field: u64, v: u32) -> WeaponItemSave {
    if field == 1 {
        WeaponItemSave { uid: v, ..w }
    } else if field == 2 {
        WeaponItemSave { id: v, ..w }
    } else if field == 3 {
        WeaponItemSave { level: v, ..w }
    } else if field == 4 {
        WeaponItemSave { star: v, ..w }
    } else {
        WeaponItemSave { refine: v, ..w }
    }
}

/// Field loop of a WeaponItemSave message: fields 1..5 are varints.
pub open spec fn weapon_loop(buf: Seq<u8>, pos: int, acc: WeaponItemSave) -> WeaponItemSave
    decreases buf.len() - pos,
{
    if pos < 0 || pos >= buf.len() {
        acc
    } else {
        let (tag, p1) = next_tag(buf, pos);
        let field = tag / 8;
        proof {
            lemma_next_tag_progress(buf, pos);
            lemma_read_varint_end(buf, p1);
            lemma_skip_end(tag % 8, buf, p1);
        }
        if 1 <= field <= 5 {
            match spec_read_varint(buf, p1) {
                Some((v, p2)) => weapon_loop(buf, p2, set_weapon_field(acc, field, trunc32(v))),
                None => weapon_loop(buf, p1, acc),
            }
        } else {
            match spec_skip_field(tag % 8, buf, p1) {
                Some(p2) => weapon_loop(buf, p2, acc),
                None => acc,
            }
        }
    }
}

pub open spec fn spec_weapon_save(buf: Seq<u8>) -> WeaponItemSave {
    weapon_loop(buf, 0, weapon_default())
}

/// Decodes one WeaponItemSave message.
pub fn decode_weapon_save(buf: &[u8]) -> (item: WeaponItemSave)
    ensures
        item == spec_weapon_save(buf@),
{
    let mut item = WeaponItemSave { uid: 0, id: 0, level: 0, star: 0, refine: 0 };
    let mut pos: usize = 0;
    while pos < buf.len()
        invariant
            pos <= buf.len(),
            weapon_loop(buf@, pos as int, item) == spec_weapon_save(buf@),
        decreases buf.len() - pos,
    {
        proof {
            lemma_next_tag_progress(buf@, pos as int);
        }
        let (tag, new_pos) = match read_varint(buf, pos) {
            Some(r) => r,
            None => (0, buf.len()),
        };
        pos = new_pos;
        let field = tag / 8;
        proof {
            lemma_read_varint_end(buf@, pos as int);
            lemma_skip_end(tag % 8, buf@, pos as int);
        }
        if field >= 1 && field <= 5 {
            if let Some((v, np)) = read_varint(buf, pos) {
                pos = np;
                let v32 = (v % 0x1_0000_0000) as u32;
                if field == 1 {
                    item.uid = v32;
                } else if field == 2 {
                    item.id = v32;
                } else if field == 3 {
                    item.level = v32;
                } else if field == 4 {
                    item.star = v32;
                } else {
                    item.refine = v32;
                }
            }
        } else {
            if !skip_field(tag % 8, buf, &mut pos) {
                return item;
            }
        }
    }
    item
}

/// One varint field: its tag byte (field number times eight, wire type 0)
/// and the base-128 encoding of its value.
pub open spec fn varint_field(field: nat, v: nat) -> Seq<u8> {
    seq![(field * 8) as u8] + varint_encoding(v)
}

/// A WeaponItemSave message that writes each field once, in field order:
/// uid (1), id (2), level (3), star (4), refine (5).
pub open spec fn weapon_save_encoding(w: WeaponItemSave) -> Seq<u8> {
    varint_field(1, w.uid as nat) + varint_field(2, w.id as nat) + varint_field(3, w.level as nat)
        + varint_field(4, w.star as nat) + varint_field(5, w.refine as nat)
}

proof fn lemma_varint_field_reads(buf: Seq<u8>, pos: int, field: nat, v: u32)
    requires
        1 <= field <= 15,
        0 <= pos,
        pos + varint_field(field, v as nat).len() <= buf.len(),
        buf.subrange(pos, pos + varint_field(field, v as nat).len()) == varint_field(field, v as nat),
    ensures
        next_tag(buf, pos) == ((field * 8) as u64, pos + 1),
        ((field * 8) as u64) / 8 == field,
        ((field * 8) as u64) % 8 == 0,
        spec_read_varint(buf, pos + 1) == Some((v as u64, pos + varint_field(field, v as nat).len())),
        trunc32(v as u64) == v,
{
    let t: u64 = (field * 8) as u64;
    let e = varint_encoding(v as nat);
    let f = varint_field(field, v as nat);
    let whole = buf.subrange(pos, pos + f.len());
    assert(t as nat == field * 8);
    assert(varint_encoding(t as nat) =~= seq![(field * 8) as u8]);
    assert(buf.subrange(pos, pos + 1) =~= whole.subrange(0, 1));
    assert(f.subrange(0, 1) =~= seq![(field * 8) as u8]);
    law_varint_round_trip(t, buf, pos);
    assert(buf.subrange(pos + 1, pos + 1 + e.len()) =~= whole.subrange(1, f.len() as int));
    assert(f.subrange(1, f.len() as int) =~= e);
    law_varint_round_trip(v as u64, buf, pos + 1);
}

proof fn lemma_weapon_field_step(buf: Seq<u8>, pos: int, field: nat, v: u32, acc: WeaponItemSave)
    requires
        1 <= field <= 5,
        0 <= pos,
        pos + varint_field(field, v as nat).len() <= buf.len(),
        buf.subrange(pos, pos + varint_field(field, v as nat).len()) == varint_field(field, v as nat),
    ensures
        weapon_loop(buf, pos, acc) == weapon_loop(
            buf,
            pos + varint_field(field, v as nat).len(),
            set_weapon_field(acc, field as u64, v),
        ),
{
    lemma_varint_field_reads(buf, pos, field, v);
}

/// Decoding a WeaponItemSave message that holds each field once gives back
/// every field as written: uid from field 1, id from 2, level from 3, star
/// from 4 and refine from 5.
pub proof fn law_weapon_save_round_trip(w: WeaponItemSave)
    ensures
        spec_weapon_save(weapon_save_encoding(w)) == w,
{
    let buf = weapon_save_encoding(w);
    let f1 = varint_field(1, w.uid as nat);
    let f2 = varint_field(2, w.id as nat);
    let f3 = varint_field(3, w.level as nat);
    let f4 = varint_field(4, w.star as nat);
    let f5 = varint_field(5, w.refine as nat);
    let p1 = f1.len() as int;
    let p2 = p1 + f2.len();
    let p3 = p2 + f3.len();
    let p4 = p3 + f4.len();
    let p5 = p4 + f5.len();
    assert(buf.len() == p5);
    assert(buf.subrange(0, p1) =~= f1);
    assert(buf.subrange(p1, p2) =~= f2);
    assert(buf.subrange(p2, p3) =~= f3);
    assert(buf.subrange(p3, p4) =~= f4);
    assert(buf.subrange(p4, p5) =~= f5);
    let a0 = weapon_default();
    let a1 = set_weapon_field(a0, 1, w.uid);
    let a2 = set_weapon_field(a1, 2, w.id);
    let a3 = set_weapon_field(a2, 3, w.level);
    let a4 = set_weapon_field(a3, 4, w.star);
    let a5 = set_weapon_field(a4, 5, w.refine);
    lemma_weapon_field_step(buf, 0, 1, w.uid, a0);
    lemma_weapon_field_step(buf, p1, 2, w.id, a1);
    lemma_weapon_field_step(buf, p2, 3, w.level, a2);
    lemma_weapon_field_step(buf, p3, 4, w.star, a3);
    lemma_weapon_field_step(buf, p4, 5, w.refine, a4);
    assert(weapon_loop(buf, p5, a5) == a5);
    assert(a5 == w);
}

/// A BasicSave message that writes each field once, in field order: level
/// (1), avatar id (2), control avatar id (3), control guise avatar id (4).
pub open spec fn basic_save_encoding(b: BasicSave) -> Seq<u8> {
    varint_field(1, b.level as nat) + varint_field(2, b.avatar_id as nat) + varint_field(3, b.control_avatar_id as nat)
        + varint_field(4, b.control_guise_avatar_id as nat)
}

proof fn lemma_basic_field_step(buf: Seq<u8>, pos: int, field: nat, v: u32, acc: BasicSave)
    requires
        1 <= field <= 4,
        0 <= pos,
        pos + varint_field(field, v as nat).len() <= buf.len(),
        buf.subrange(pos, pos + varint_field(field, v as nat).len()) == varint_field(field, v as nat),
    ensures
        basic_loop(buf, pos, acc) == basic_loop(
            buf,
            pos + varint_field(field, v as nat).len(),
            set_basic_field(acc, field as u64, v),
        ),
{
    lemma_varint_field_reads(buf, pos, field, v);
}

/// Decoding a BasicSave message that holds each field once gives back every
/// field as written.
pub proof fn law_basic_save_round_trip(b: BasicSave)
    ensures
        spec_basic_save(basic_save_encoding(b)) == b,
{
    let buf = basic_save_encoding(b);
    let f1 = varint_field(1, b.level as nat);
    let f2 = varint_field(2, b.avatar_id as nat);
    let f3 = varint_field(3, b.control_avatar_id as nat);
    let f4 = varint_field(4, b.control_guise_avatar_id as nat);
    let p1 = f1.len() as int;
    let p2 = p1 + f2.len();
    let p3 = p2 + f3.len();
    let p4 = p3 + f4.len();
    assert(buf.len() == p4);
    assert(buf.subrange(0, p1) =~= f1);
    assert(buf.subrange(p1, p2) =~= f2);
    assert(buf.subrange(p2, p3) =~= f3);
    assert(buf.subrange(p3, p4) =~= f4);
    let a0 = basic_default();
    let a1 = set_basic_field(a0, 1, b.level);
    let a2 = set_basic_field(a1, 2, b.avatar_id);
    let a3 = set_basic_field(a2, 3, b.control_avatar_id);
    let a4 = set_basic_field(a3, 4, b.control_guise_avatar_id);
    lemma_basic_field_step(buf, 0, 1, b.level, a0);
    lemma_basic_field_step(buf, p1, 2, b.avatar_id, a1);
    lemma_basic_field_step(buf, p2, 3, b.control_avatar_id, a2);
    lemma_basic_field_step(buf, p3, 4, b.control_guise_avatar_id, a3);
    assert(basic_loop(buf, p4, a4) == a4);
    assert(a4 == b);
}

pub open spec fn set_property_field(p: EquipProperty, field: u64, v: u32) -> EquipProperty {
    if field == 1 {
        EquipProperty { key: v, ..p }
    } else if field == 2 {
        EquipProperty { base_value: v, ..p }
    } else {
        EquipProperty { add_value: v, ..p }
    }
}

/// Field loop of an EquipProperty message: fields 1..3 are varints.
pub open spec fn property_loop(buf: Seq<u8>, pos: int, acc: EquipProperty) -> EquipProperty
    decreases buf.len() - pos,
{
    if pos < 0 || pos >= buf.len() {
        acc
    } else {
        let (tag, p1) = next_tag(buf, pos);
        let field = tag / 8;
        proof {
            lemma_next_tag_progress(buf, pos);
            lemma_read_varint_end(buf, p1);
            lemma_skip_end(tag % 8, buf, p1);
        }
        if 1 <= field <= 3 {
            match spec_read_varint(buf, p1) {
                Some((v, p2)) => property_loop(buf, p2, set_property_field(acc, field, trunc32(v))),
                None => property_loop(buf, p1, acc),
            }
        } else {
            match spec_skip_field(tag % 8, buf, p1) {
                Some(p2) => property_loop(buf, p2, acc),
                None => acc,
            }
        }
    }
}

pub open spec fn spec_equip_property(buf: Seq<u8>) -> EquipProperty {
    property_loop(buf, 0, property_default())
}

/// An EquipProperty message that writes each field once, in field order:
/// key (1), base value (2), added rolls (3).
pub open spec fn equip_property_encoding(e: EquipProperty) -> Seq<u8> {
    varint_field(1, e.key as nat) + varint_field(2, e.base_value as nat) + varint_field(3, e.add_value as nat)
}

proof fn lemma_property_field_step(buf: Seq<u8>, pos: int, field: nat, v: u32, acc: EquipProperty)
    requires
        1 <= field <= 3,
        0 <= pos,
        pos + varint_field(field, v as nat).len() <= buf.len(),
        buf.subrange(pos, pos + varint_field(field, v as nat).len()) == varint_field(field, v as nat),
    ensures
        property_loop(buf, pos, acc) == property_loop(
            buf,
            pos + varint_field(field, v as nat).len(),
            set_property_field(acc, field as u64, v),
        ),
{
    lemma_varint_field_reads(buf, pos, field, v);
}

/// Decoding an EquipProperty message that holds each field once gives back
/// the key, base value and added rolls as written.
pub proof fn law_equip_property_round_trip(e: EquipProperty)
    ensures
        spec_equip_property(equip_property_encoding(e)) == e,
{
    let buf = equip_property_encoding(e);
    let f1 = varint_field(1, e.key as nat);
    let f2 = varint_field(2, e.base_value as nat);
    let f3 = varint_field(3, e.add_value as nat);
    let p1 = f1.len() as int;
    let p2 = p1 + f2.len();
    let p3 = p2 + f3.len();
    assert(buf.len() == p3);
    assert(buf.subrange(0, p1) =~= f1);
    assert(buf.subrange(p1, p2) =~= f2);
    assert(buf.subrange(p2, p3) =~= f3);
    let a0 = property_default();
    let a1 = set_property_field(a0, 1, e.key);
    let a2 = set_property_field(a1, 2, e.base_value);
    let a3 = set_property_field(a2, 3, e.add_value);
    lemma_property_field_step(buf, 0, 1, e.key, a0);
    lemma_property_field_step(buf, p1, 2, e.base_value, a1);
    lemma_property_field_step(buf, p2, 3, e.add_value, a2);
    assert(property_loop(buf, p3, a3) == a3);
    assert(a3 == e);
}


/// Decodes one EquipProperty message (key, base value, added rolls).
pub fn decode_equip_property(buf: &[u8]) -> (prop: EquipProperty)
    ensures
        prop == spec_equip_property(buf@),
{
    let mut prop = EquipProperty { key: 0, base_value: 0, add_value: 0 };
    let mut pos: usize = 0;
    while pos < buf.len()
        invariant
            pos <= buf.len(),
            property_loop(buf@, pos as int, prop) == spec_equip_property(buf@),
        decreases buf.len() - pos,
    {
        proof {
            lemma_next_tag_progress(buf@, pos as int);
        }
        let (tag, new_pos) = match read_varint(buf, pos) {
            Some(r) => r,
            None => (0, buf.len()),
        };
        pos = new_pos;
        let field = tag / 8;
        proof {
            lemma_read_varint_end(buf@, pos as int);
            lemma_skip_end(tag % 8, buf@, pos as int);
        }
        if field >= 1 && field <= 3 {
            if let Some((v, np)) = read_varint(buf, pos) {
                pos = np;
                let v32 = (v % 0x1_0000_0000) as u32;
                if field == 1 {
                    prop.key = v32;
                } else if field == 2 {
                    prop.base_value = v32;
                } else {
                    prop.add_value = v32;
                }
            }
        } else {
            if !skip_field(tag % 8, buf, &mut pos) {
                return prop;
            }
        }
    }
    prop
}

/// Field loop of a HallSave message: field 1 is a varint.
pub open spec fn hall_loop(buf: Seq<u8>, pos: int, acc: HallSave) -> HallSave
    decreases buf.len() - pos,
{
    if pos < 0 || pos >= buf.len() {
        acc
    } else {
        let (tag, p1) = next_tag(buf, pos);
        proof {
            lemma_next_tag_progress(buf, pos);
            lemma_read_varint_end(buf, p1);
            lemma_skip_end(tag % 8, buf, p1);
        }
        if tag / 8 == 1 {
            match spec_read_varint(buf, p1) {
                Some((v, p2)) => hall_loop(buf, p2, HallSave { section_id: trunc32(v) }),
                None => hall_loop(buf, p1, acc),
            }
        } else {
            match spec_skip_field(tag % 8, buf, p1) {
                Some(p2) => hall_loop(buf, p2, acc),
                None => acc,
            }
        }
    }
}

pub open spec fn spec_hall_save(buf: Seq<u8>) -> HallSave {
    hall_loop(buf, 0, HallSave { section_id: 0 })
}

/// Decodes a HallSave message.
pub fn decode_hall_save(buf: &[u8]) -> (hall: HallSave)
    ensures
        hall == spec_hall_save(buf@),
{
    let mut hall = HallSave { section_id: 0 };
    let mut pos: usize = 0;
    while pos < buf.len()
        invariant
            pos <= buf.len(),
            hall_loop(buf@, pos as int, hall) == spec_hall_save(buf@),
        decreases buf.len() - pos,
    {
        proof {
            lemma_next_tag_progress(buf@, pos as int);
        }
        let (tag, new_pos) = match read_varint(buf, pos) {
            Some(r) => r,
            None => (0, buf.len()),
        };
        pos = new_pos;
        proof {
            lemma_read_varint_end(buf@, pos as int);
            lemma_skip_end(tag % 8, buf@, pos as int);
        }
        if tag / 8 == 1 {
            if let Some((v, np)) = read_varint(buf, pos) {
                hall.section_id = (v % 0x1_0000_0000) as u32;
                pos = np;
            }
        } else {
            if !skip_field(tag % 8, buf, &mut pos) {
                return hall;
            }
        }
    }
    hall
}

} // verus!

verus! {

/// One agent in the save.
#[derive(Clone, Debug)]
pub struct AvatarItemSave {
    pub id: u32,
    pub level: u32,
    pub exp: u32,
    pub rank: u32,
    pub talents: u32,
    pub talent_switch: u32,
    pub favorite: bool,
    pub skill_levels: Vec<u32>,
    pub skin_id: u32,
    pub awake_available: bool,
    pub awake_enabled: bool,
    pub awake_id: u32,
    pub weapon_uid: u32,
    pub equipment_uids: Vec<u32>,
    pub awake_material_count: u32,
}

/// The mathematical content of an AvatarItemSave.
pub struct AvatarModel {
    pub id: u32,
    pub level: u32,
    pub exp: u32,
    pub rank: u32,
    pub talents: u32,
    pub talent_switch: u32,
    pub favorite: bool,
    pub skill_levels: Seq<u32>,
    pub skin_id: u32,
    pub awake_available: bool,
    pub awake_enabled: bool,
    pub awake_id: u32,
    pub weapon_uid: u32,
    pub equipment_uids: Seq<u32>,
    pub awake_material_count: u32,
}

impl View for AvatarItemSave {
    type V = AvatarModel;

    open spec fn view(&self) -> AvatarModel {
        AvatarModel {
            id: self.id,
            level: self.level,
            exp: self.exp,
            rank: self.rank,
            talents: self.talents,
            talent_switch: self.talent_switch,
            favorite: self.favorite,
            skill_levels: self.skill_levels@,
            skin_id: self.skin_id,
            awake_available: self.awake_available,
            awake_enabled: self.awake_enabled,
            awake_id: self.awake_id,
            weapon_uid: self.weapon_uid,
            equipment_uids: self.equipment_uids@,
            awake_material_count: self.awake_material_count,
        }
    }
}

pub open spec fn avatar_default() -> AvatarModel {
    AvatarModel {
        id: 0,
        level: 0,
        exp: 0,
        rank: 0,
        talents: 0,
        talent_switch: 0,
        favorite: false,
        skill_levels: Seq::empty(),
        skin_id: 0,
        awake_available: false,
        awake_enabled: false,
        awake_id: 0,
        weapon_uid: 0,
        equipment_uids: Seq::empty(),
        awake_material_count: 0,
    }
}

/// Whether `field` is one of the agent's single-varint fields.
pub open spec fn avatar_scalar_field(field: u64) -> bool {
    (1 <= field <= 7) || field == 9 || field == 10 || (12 <= field <= 15)
}

pub open spec fn set_avatar_scalar(a: AvatarModel, field: u64, v: u64) -> AvatarModel {
    let x = trunc32(v);
    if field == 1 {
        AvatarModel { id: x, ..a }
    } else if field == 2 {
        AvatarModel { level: x, ..a }
    } else if field == 3 {
        AvatarModel { exp: x, ..a }
    } else if field == 4 {
        AvatarModel { rank: x, ..a }
    } else if field == 5 {
        AvatarModel { talents: x, ..a }
    } else if field == 6 {
        AvatarModel { talent_switch: x, ..a }
    } else if field == 7 {
        AvatarModel { favorite: v != 0, ..a }
    } else if field == 9 {
        AvatarModel { skin_id: x, ..a }
    } else if field == 10 {
        AvatarModel { weapon_uid: x, ..a }
    } else if field == 12 {
        AvatarModel { awake_available: v != 0, ..a }
    } else if field == 13 {
        AvatarModel { awake_enabled: v != 0, ..a }
    } else if field == 14 {
        AvatarModel { awake_id: x, ..a }
    } else {
        AvatarModel { awake_material_count: x, ..a }
    }
}

/// Field loop of an AvatarItemSave message. Skill levels (field 8) and
/// equipment uids (field 11) come either as repeated varints, each appended,
/// or as one packed list that replaces the list read so far.
pub open spec fn avatar_loop(buf: Seq<u8>, pos: int, acc: AvatarModel) -> AvatarModel
    decreases buf.len() - pos,
{
    if pos < 0 || pos >= buf.len() {
        acc
    } else {
        let (tag, p1) = next_tag(buf, pos);
        let field = tag / 8;
        let wire = tag % 8;
        proof {
            lemma_next_tag_progress(buf, pos);
            lemma_read_varint_end(buf, p1);
            lemma_ld_or_empty_end(buf, p1);
            lemma_skip_end(wire, buf, p1);
        }
        if wire == 0 && (avatar_scalar_field(field) || field == 8 || field == 11) {
            match spec_read_varint(buf, p1) {
                Some((v, p2)) => {
                    let next = if field == 8 {
                        AvatarModel { skill_levels: acc.skill_levels.push(trunc32(v)), ..acc }
                    } else if field == 11 {
                        AvatarModel { equipment_uids: acc.equipment_uids.push(trunc32(v)), ..acc }
                    } else {
                        set_avatar_scalar(acc, field, v)
                    };
                    avatar_loop(buf, p2, next)
                },
                None => avatar_loop(buf, p1, acc),
            }
        } else if wire == 2 && field == 8 {
            let (sub, p2) = ld_or_empty(buf, p1);
            avatar_loop(buf, p2, AvatarModel { skill_levels: spec_varint_list(sub), ..acc })
        } else if wire == 2 && field == 11 {
            let (sub, p2) = ld_or_empty(buf, p1);
            avatar_loop(buf, p2, AvatarModel { equipment_uids: spec_varint_list(sub), ..acc })
        } else {
            match spec_skip_field(wire, buf, p1) {
                Some(p2) => avatar_loop(buf, p2, acc),
                None => acc,
            }
        }
    }
}

pub open spec fn spec_avatar_save(buf: Seq<u8>) -> AvatarModel {
    avatar_loop(buf, 0, avatar_default())
}

/// A prefix of `buf` that is `x + y` gives `x` as a prefix and `y` right after it.
proof fn lemma_prefix_step(buf: Seq<u8>, x: Seq<u8>, y: Seq<u8>)
    requires
        x.len() + y.len() <= buf.len(),
        buf.subrange(0, (x.len() + y.len()) as int) == x + y,
    ensures
        buf.subrange(0, x.len() as int) == x,
        buf.subrange(x.len() as int, (x.len() + y.len()) as int) == y,
{
    let n: int = (x.len() + y.len()) as int;
    let p = buf.subrange(0, n);
    assert forall|k: int| 0 <= k < x.len() implies buf[k] == x[k] by {
        assert(p[k] == buf[k]);
        assert((x + y)[k] == x[k]);
    }
    assert(buf.subrange(0, x.len() as int) =~= x);
    assert forall|k: int| 0 <= k < y.len() implies buf[x.len() + k] == y[k] by {
        assert(p[x.len() + k] == buf[x.len() + k]);
        assert((x + y)[x.len() + k] == y[k]);
    }
    assert(buf.subrange(x.len() as int, n) =~= y);
}

/// Each value of `vs` as a varint field `field` of its own, in order.
pub open spec fn repeated_varints(field: nat, vs: Seq<u32>) -> Seq<u8>
    decreases vs.len(),
{
    if vs.len() == 0 {
        Seq::empty()
    } else {
        varint_field(field, vs[0] as nat) + repeated_varints(field, vs.drop_first())
    }
}

/// A flag as a varint: 1 for true, 0 for false.
pub open spec fn bool_varint(b: bool) -> nat {
    if b {
        1
    } else {
        0
    }
}

/// An agent message that writes each scalar field once, in field order, with
/// skill levels (field 8) and equipment uids (field 11) as repeated varints.
pub open spec fn avatar_save_encoding(a: AvatarModel) -> Seq<u8> {
    varint_field(1, a.id as nat) + varint_field(2, a.level as nat) + varint_field(3, a.exp as nat) + varint_field(
        4,
        a.rank as nat,
    ) + varint_field(5, a.talents as nat) + varint_field(6, a.talent_switch as nat) + varint_field(
        7,
        bool_varint(a.favorite),
    ) + repeated_varints(8, a.skill_levels) + varint_field(9, a.skin_id as nat) + varint_field(
        10,
        a.weapon_uid as nat,
    ) + repeated_varints(11, a.equipment_uids) + varint_field(12, bool_varint(a.awake_available))
        + varint_field(13, bool_varint(a.awake_enabled)) + varint_field(14, a.awake_id as nat) + varint_field(
        15,
        a.awake_material_count as nat,
    )
}

/// The agent decoded from `pos` on, starting from `acc`; kept opaque so that
/// the field-by-field steps below compose without unfolding the loop.
#[verifier::opaque]
spec fn avatar_from(buf: Seq<u8>, pos: int, acc: AvatarModel) -> AvatarModel {
    avatar_loop(buf, pos, acc)
}

proof fn lemma_avatar_from_ends(buf: Seq<u8>, acc: AvatarModel)
    ensures
        spec_avatar_save(buf) == avatar_from(buf, 0, avatar_default()),
        avatar_from(buf, buf.len() as int, acc) == acc,
{
    reveal(avatar_from);
}

proof fn lemma_avatar_scalar_step(buf: Seq<u8>, pos: int, field: nat, v: u32, acc: AvatarModel)
    requires
        1 <= field <= 15,
        avatar_scalar_field(field as u64),
        0 <= pos,
        pos + varint_field(field, v as nat).len() <= buf.len(),
        buf.subrange(pos, pos + varint_field(field, v as nat).len()) == varint_field(field, v as nat),
    ensures
        avatar_from(buf, pos, acc) == avatar_from(
            buf,
            pos + varint_field(field, v as nat).len(),
            set_avatar_scalar(acc, field as u64, v as u64),
        ),
{
    reveal(avatar_from);
    lemma_varint_field_reads(buf, pos, field, v);
}

proof fn lemma_avatar_list_steps(buf: Seq<u8>, pos: int, field: nat, vs: Seq<u32>, acc: AvatarModel)
    requires
        field == 8 || field == 11,
        0 <= pos,
        pos + repeated_varints(field, vs).len() <= buf.len(),
        buf.subrange(pos, pos + repeated_varints(field, vs).len()) == repeated_varints(field, vs),
    ensures
        avatar_from(buf, pos, acc) == avatar_from(
            buf,
            pos + repeated_varints(field, vs).len(),
            if field == 8 {
                AvatarModel { skill_levels: acc.skill_levels + vs, ..acc }
            } else {
                AvatarModel { equipment_uids: acc.equipment_uids + vs, ..acc }
            },
        ),
    decreases vs.len(),
{
    reveal(avatar_from);
    if vs.len() == 0 {
        assert(acc.skill_levels + vs =~= acc.skill_levels);
        assert(acc.equipment_uids + vs =~= acc.equipment_uids);
    } else {
        let f = varint_field(field, vs[0] as nat);
        let rest = repeated_varints(field, vs.drop_first());
        let whole = buf.subrange(pos, pos + repeated_varints(field, vs).len());
        assert(whole == f + rest);
        assert(buf.subrange(pos, pos + f.len()) =~= whole.subrange(0, f.len() as int));
        assert(whole.subrange(0, f.len() as int) =~= f);
        assert(buf.subrange(pos + f.len(), pos + f.len() + rest.len()) =~= whole.subrange(
            f.len() as int,
            whole.len() as int,
        ));
        assert(whole.subrange(f.len() as int, whole.len() as int) =~= rest);
        lemma_varint_field_reads(buf, pos, field, vs[0]);
        let acc2 = if field == 8 {
            AvatarModel { skill_levels: acc.skill_levels.push(vs[0]), ..acc }
        } else {
            AvatarModel { equipment_uids: acc.equipment_uids.push(vs[0]), ..acc }
        };
        lemma_avatar_list_steps(buf, pos + f.len(), field, vs.drop_first(), acc2);
        assert(acc.skill_levels.push(vs[0]) + vs.drop_first() =~= acc.skill_levels + vs);
        assert(acc.equipment_uids.push(vs[0]) + vs.drop_first() =~= acc.equipment_uids + vs);
    }
}

/// Decoding an agent message that writes each scalar field once, in field
/// order, with its skill levels and equipment uids as repeated varints, gives
/// back every field as written and both lists in order.
#[verifier::spinoff_prover]
#[verifier::rlimit(100)]
pub proof fn law_avatar_save_round_trip(a: AvatarModel)
    ensures
        spec_avatar_save(avatar_save_encoding(a)) == a,
{
    let buf = avatar_save_encoding(a);
    let s0 = varint_field(1, a.id as nat);
    let s1 = varint_field(2, a.level as nat);
    let s2 = varint_field(3, a.exp as nat);
    let s3 = varint_field(4, a.rank as nat);
    let s4 = varint_field(5, a.talents as nat);
    let s5 = varint_field(6, a.talent_switch as nat);
    let s6 = varint_field(7, bool_varint(a.favorite));
    let s7 = repeated_varints(8, a.skill_levels);
    let s8 = varint_field(9, a.skin_id as nat);
    let s9 = varint_field(10, a.weapon_uid as nat);
    let s10 = repeated_varints(11, a.equipment_uids);
    let s11 = varint_field(12, bool_varint(a.awake_available));
    let s12 = varint_field(13, bool_varint(a.awake_enabled));
    let s13 = varint_field(14, a.awake_id as nat);
    let s14 = varint_field(15, a.awake_material_count as nat);
    let q1 = s0;
    let q2 = q1 + s1;
    let q3 = q2 + s2;
    let q4 = q3 + s3;
    let q5 = q4 + s4;
    let q6 = q5 + s5;
    let q7 = q6 + s6;
    let q8 = q7 + s7;
    let q9 = q8 + s8;
    let q10 = q9 + s9;
    let q11 = q10 + s10;
    let q12 = q11 + s11;
    let q13 = q12 + s12;
    let q14 = q13 + s13;
    let q15 = q14 + s14;
    assert(buf == q15);
    assert(buf.subrange(0, buf.len() as int) =~= buf);
    lemma_prefix_step(buf, q14, s14);
    lemma_prefix_step(buf, q13, s13);
    lemma_prefix_step(buf, q12, s12);
    lemma_prefix_step(buf, q11, s11);
    lemma_prefix_step(buf, q10, s10);
    lemma_prefix_step(buf, q9, s9);
    lemma_prefix_step(buf, q8, s8);
    lemma_prefix_step(buf, q7, s7);
    lemma_prefix_step(buf, q6, s6);
    lemma_prefix_step(buf, q5, s5);
    lemma_prefix_step(buf, q4, s4);
    lemma_prefix_step(buf, q3, s3);
    lemma_prefix_step(buf, q2, s2);
    lemma_prefix_step(buf, q1, s1);
    let c0 = avatar_default();
    let c1 = set_avatar_scalar(c0, 1, (a.id as nat) as u32 as u64);
    lemma_avatar_scalar_step(buf, 0, 1, (a.id as nat) as u32, c0);
    let c2 = set_avatar_scalar(c1, 2, (a.level as nat) as u32 as u64);
    lemma_avatar_scalar_step(buf, q1.len() as int, 2, (a.level as nat) as u32, c1);
    let c3 = set_avatar_scalar(c2, 3, (a.exp as nat) as u32 as u64);
    lemma_avatar_scalar_step(buf, q2.len() as int, 3, (a.exp as nat) as u32, c2);
    let c4 = set_avatar_scalar(c3, 4, (a.rank as nat) as u32 as u64);
    lemma_avatar_scalar_step(buf, q3.len() as int, 4, (a.rank as nat) as u32, c3);
    let c5 = set_avatar_scalar(c4, 5, (a.talents as nat) as u32 as u64);
    lemma_avatar_scalar_step(buf, q4.len() as int, 5, (a.talents as nat) as u32, c4);
    let c6 = set_avatar_scalar(c5, 6, (a.talent_switch as nat) as u32 as u64);
    lemma_avatar_scalar_step(buf, q5.len() as int, 6, (a.talent_switch as nat) as u32, c5);
    let c7 = set_avatar_scalar(c6, 7, (bool_varint(a.favorite)) as u32 as u64);
    lemma_avatar_scalar_step(buf, q6.len() as int, 7, (bool_varint(a.favorite)) as u32, c6);
    let c8 = AvatarModel { skill_levels: c7.skill_levels + a.skill_levels, ..c7 };
    lemma_avatar_list_steps(buf, q7.len() as int, 8, a.skill_levels, c7);
    let c9 = set_avatar_scalar(c8, 9, (a.skin_id as nat) as u32 as u64);
    lemma_avatar_scalar_step(buf, q8.len() as int, 9, (a.skin_id as nat) as u32, c8);
    let c10 = set_avatar_scalar(c9, 10, (a.weapon_uid as nat) as u32 as u64);
    lemma_avatar_scalar_step(buf, q9.len() as int, 10, (a.weapon_uid as nat) as u32, c9);
    let c11 = AvatarModel { equipment_uids: c10.equipment_uids + a.equipment_uids, ..c10 };
    lemma_avatar_list_steps(buf, q10.len() as int, 11, a.equipment_uids, c10);
    let c12 = set_avatar_scalar(c11, 12, (bool_varint(a.awake_available)) as u32 as u64);
    lemma_avatar_scalar_step(buf, q11.len() as int, 12, (bool_varint(a.awake_available)) as u32, c11);
    let c13 = set_avatar_scalar(c12, 13, (bool_varint(a.awake_enabled)) as u32 as u64);
    lemma_avatar_scalar_step(buf, q12.len() as int, 13, (bool_varint(a.awake_enabled)) as u32, c12);
    let c14 = set_avatar_scalar(c13, 14, (a.awake_id as nat) as u32 as u64);
    lemma_avatar_scalar_step(buf, q13.len() as int, 14, (a.awake_id as nat) as u32, c13);
    let c15 = set_avatar_scalar(c14, 15, (a.awake_material_count as nat) as u32 as u64);
    lemma_avatar_scalar_step(buf, q14.len() as int, 15, (a.awake_material_count as nat) as u32, c14);
    lemma_avatar_from_ends(buf, c15);
    assert(c15.skill_levels =~= a.skill_levels);
    assert(c15.equipment_uids =~= a.equipment_uids);
    assert(c15 == a);
}


/// Reads the length-delimited field at `pos`, or no bytes and the buffer's end.
fn read_ld_or_empty(buf: &[u8], pos: usize) -> (res: (&[u8], usize))
    requires
        pos <= buf.len(),
    ensures
        (res.0@, res.1 as int) == ld_or_empty(buf@, pos as int),
        pos <= res.1 <= buf.len(),
{
    proof {
        lemma_ld_or_empty_end(buf@, pos as int);
    }
    match read_ld(buf, pos) {
        Some(r) => r,
        None => {
            let empty: &[u8] = &[];
            assert(empty@ =~= Seq::<u8>::empty());
            (empty, buf.len())
        },
    }
}

/// Decodes one AvatarItemSave message.
pub fn decode_avatar_save(buf: &[u8]) -> (item: AvatarItemSave)
    ensures
        item@ == spec_avatar_save(buf@),
{
    let mut item = AvatarItemSave {
        id: 0,
        level: 0,
        exp: 0,
        rank: 0,
        talents: 0,
        talent_switch: 0,
        favorite: false,
        skill_levels: Vec::new(),
        skin_id: 0,
        awake_available: false,
        awake_enabled: false,
        awake_id: 0,
        weapon_uid: 0,
        equipment_uids: Vec::new(),
        awake_material_count: 0,
    };
    let mut pos: usize = 0;
    assert(item@ == avatar_default());
    while pos < buf.len()
        invariant
            pos <= buf.len(),
            avatar_loop(buf@, pos as int, item@) == spec_avatar_save(buf@),
        decreases buf.len() - pos,
    {
        proof {
            lemma_next_tag_progress(buf@, pos as int);
        }
        let (tag, new_pos) = match read_varint(buf, pos) {
            Some(r) => r,
            None => (0, buf.len()),
        };
        pos = new_pos;
        let field = tag / 8;
        let wire = tag % 8;
        proof {
            lemma_read_varint_end(buf@, pos as int);
            lemma_skip_end(wire, buf@, pos as int);
        }
        let scalar = (field >= 1 && field <= 7) || field == 9 || field == 10 || (field >= 12
            && field <= 15);
        if wire == 0 && (scalar || field == 8 || field == 11) {
            if let Some((v, np)) = read_varint(buf, pos) {
                let x = (v % 0x1_0000_0000) as u32;
                let ghost before = item@;
                if field == 8 {
                    item.skill_levels.push(x);
                } else if field == 11 {
                    item.equipment_uids.push(x);
                } else if field == 1 {
                    item.id = x;
                } else if field == 2 {
                    item.level = x;
                } else if field == 3 {
                    item.exp = x;
                } else if field == 4 {
                    item.rank = x;
                } else if field == 5 {
                    item.talents = x;
                } else if field == 6 {
                    item.talent_switch = x;
                } else if field == 7 {
                    item.favorite = v != 0;
                } else if field == 9 {
                    item.skin_id = x;
                } else if field == 10 {
                    item.weapon_uid = x;
                } else if field == 12 {
                    item.awake_available = v != 0;
                } else if field == 13 {
                    item.awake_enabled = v != 0;
                } else if field == 14 {
                    item.awake_id = x;
                } else {
                    item.awake_material_count = x;
                }
                assert(item@ == (if field == 8 {
                    AvatarModel { skill_levels: before.skill_levels.push(x), ..before }
                } else if field == 11 {
                    AvatarModel { equipment_uids: before.equipment_uids.push(x), ..before }
                } else {
                    set_avatar_scalar(before, field, v)
                }));
                pos = np;
            }
        } else if wire == 2 && field == 8 {
            let (sub, np) = read_ld_or_empty(buf, pos);
            pos = np;
            item.skill_levels = decode_varint_list(sub);
        } else if wire == 2 && field == 11 {
            let (sub, np) = read_ld_or_empty(buf, pos);
            pos = np;
            item.equipment_uids = decode_varint_list(sub);
        } else {
            if !skip_field(wire, buf, &mut pos) {
                return item;
            }
        }
    }
    item
}

} // verus!

verus! {

/// One drive disc in the save; `properties[0]` is the main stat.
#[derive(Clone, Debug)]
pub struct EquipItemSave {
    pub uid: u32,
    pub id: u32,
    pub level: u32,
    pub star: u32,
    pub properties: Vec<EquipProperty>,
}

pub struct EquipModel {
    pub uid: u32,
    pub id: u32,
    pub level: u32,
    pub star: u32,
    pub properties: Seq<EquipProperty>,
}

impl View for EquipItemSave {
    type V = EquipModel;

    open spec fn view(&self) -> EquipModel {
        EquipModel {
            uid: self.uid,
            id: self.id,
            level: self.level,
            star: self.star,
            properties: self.properties@,
        }
    }
}

pub open spec fn equip_default() -> EquipModel {
    EquipModel { uid: 0, id: 0, level: 0, star: 0, properties: Seq::empty() }
}

pub open spec fn set_equip_scalar(e: EquipModel, field: u64, v: u32) -> EquipModel {
    if field == 1 {
        EquipModel { uid: v, ..e }
    } else if field == 2 {
        EquipModel { id: v, ..e }
    } else if field == 3 {
        EquipModel { level: v, ..e }
    } else {
        EquipModel { star: v, ..e }
    }
}

/// Field loop of an EquipItemSave message: fields 1..4 are varints and every
/// field-5 message appends one property (an unreadable one appends a zero
/// property and ends the message).
pub open spec fn equip_loop(buf: Seq<u8>, pos: int, acc: EquipModel) -> EquipModel
    decreases buf.len() - pos,
{
    if pos < 0 || pos >= buf.len() {
        acc
    } else {
        let (tag, p1) = next_tag(buf, pos);
        let field = tag / 8;
        let wire = tag % 8;
        proof {
            lemma_next_tag_progress(buf, pos);
            lemma_read_varint_end(buf, p1);
            lemma_ld_or_empty_end(buf, p1);
            lemma_skip_end(wire, buf, p1);
        }
        if wire == 0 && 1 <= field <= 4 {
            match spec_read_varint(buf, p1) {
                Some((v, p2)) => equip_loop(buf, p2, set_equip_scalar(acc, field, trunc32(v))),
                None => equip_loop(buf, p1, acc),
            }
        } else if wire == 2 && field == 5 {
            let (sub, p2) = ld_or_empty(buf, p1);
            equip_loop(
                buf,
                p2,
                EquipModel { properties: acc.properties.push(spec_equip_property(sub)), ..acc },
            )
        } else {
            match spec_skip_field(wire, buf, p1) {
                Some(p2) => equip_loop(buf, p2, acc),
                None => acc,
            }
        }
    }
}

pub open spec fn spec_equip_save(buf: Seq<u8>) -> EquipModel {
    equip_loop(buf, 0, equip_default())
}

proof fn lemma_varint_encoding_len(v: nat)
    ensures
        1 <= varint_encoding(v).len() <= v + 1,
    decreases v,
{
    if v >= 128 {
        lemma_varint_encoding_len(v / 128);
    }
}

/// One length-delimited field: its tag byte (field number times eight, wire
/// type 2), the base-128 length of `body`, then `body`.
pub open spec fn ld_field(field: nat, body: Seq<u8>) -> Seq<u8> {
    seq![(field * 8 + 2) as u8] + varint_encoding(body.len()) + body
}

/// The property messages of a disc, each as a field-5 message, in order.
pub open spec fn equip_properties_encoding(ps: Seq<EquipProperty>) -> Seq<u8>
    decreases ps.len(),
{
    if ps.len() == 0 {
        Seq::empty()
    } else {
        ld_field(5, equip_property_encoding(ps[0])) + equip_properties_encoding(ps.drop_first())
    }
}

/// A disc message that writes uid (1), id (2), level (3) and star (4) once
/// each, then its properties as field-5 messages.
pub open spec fn equip_save_encoding(e: EquipModel) -> Seq<u8> {
    varint_field(1, e.uid as nat) + varint_field(2, e.id as nat) + varint_field(3, e.level as nat) + varint_field(
        4,
        e.star as nat,
    ) + equip_properties_encoding(e.properties)
}

proof fn lemma_equip_field_step(buf: Seq<u8>, pos: int, field: nat, v: u32, acc: EquipModel)
    requires
        1 <= field <= 4,
        0 <= pos,
        pos + varint_field(field, v as nat).len() <= buf.len(),
        buf.subrange(pos, pos + varint_field(field, v as nat).len()) == varint_field(field, v as nat),
    ensures
        equip_loop(buf, pos, acc) == equip_loop(
            buf,
            pos + varint_field(field, v as nat).len(),
            set_equip_scalar(acc, field as u64, v),
        ),
{
    lemma_varint_field_reads(buf, pos, field, v);
}

proof fn lemma_property_encoding_len(e: EquipProperty)
    ensures
        equip_property_encoding(e).len() < 0x1_0000_0000_0000,
{
    lemma_varint_encoding_len(e.key as nat);
    lemma_varint_encoding_len(e.base_value as nat);
    lemma_varint_encoding_len(e.add_value as nat);
}

proof fn lemma_equip_property_step(buf: Seq<u8>, pos: int, e: EquipProperty, acc: EquipModel)
    requires
        0 <= pos,
        pos + ld_field(5, equip_property_encoding(e)).len() <= buf.len(),
        buf.subrange(pos, pos + ld_field(5, equip_property_encoding(e)).len()) == ld_field(
            5,
            equip_property_encoding(e),
        ),
    ensures
        equip_loop(buf, pos, acc) == equip_loop(
            buf,
            pos + ld_field(5, equip_property_encoding(e)).len(),
            EquipModel { properties: acc.properties.push(e), ..acc },
        ),
{
    let body = equip_property_encoding(e);
    let f = ld_field(5, body);
    lemma_property_encoding_len(e);
    let n: u64 = body.len() as u64;
    let le = varint_encoding(n as nat);
    let ll: int = le.len() as int;
    let whole = buf.subrange(pos, pos + f.len());
    assert(varint_encoding(42) =~= seq![42u8]);
    assert(buf.subrange(pos, pos + 1) =~= whole.subrange(0, 1));
    assert(f.subrange(0, 1) =~= seq![42u8]);
    law_varint_round_trip(42, buf, pos);
    assert(buf.subrange(pos + 1, pos + 1 + ll) =~= whole.subrange(1, 1 + ll));
    assert(f.subrange(1, 1 + ll) =~= le);
    law_varint_round_trip(n, buf, pos + 1);
    let np = pos + 1 + ll;
    assert(buf.subrange(np, np + n) =~= whole.subrange(1 + ll, f.len() as int));
    assert(f.subrange(1 + ll, f.len() as int) =~= body);
    assert(ld_or_empty(buf, pos + 1) == (body, pos + f.len()));
    law_equip_property_round_trip(e);
    assert(next_tag(buf, pos) == (42u64, pos + 1));
}

proof fn lemma_equip_properties_steps(buf: Seq<u8>, pos: int, ps: Seq<EquipProperty>, acc: EquipModel)
    requires
        0 <= pos,
        pos + equip_properties_encoding(ps).len() == buf.len(),
        buf.subrange(pos, buf.len() as int) == equip_properties_encoding(ps),
    ensures
        equip_loop(buf, pos, acc) == (EquipModel { properties: acc.properties + ps, ..acc }),
    decreases ps.len(),
{
    if ps.len() == 0 {
        assert(acc.properties + ps =~= acc.properties);
    } else {
        let f = ld_field(5, equip_property_encoding(ps[0]));
        let rest = equip_properties_encoding(ps.drop_first());
        let q = pos + f.len();
        let whole = buf.subrange(pos, buf.len() as int);
        assert(whole == f + rest);
        assert(whole.subrange(0, f.len() as int) =~= f);
        assert(whole.subrange(f.len() as int, whole.len() as int) =~= rest);
        assert(buf.subrange(pos, q) =~= whole.subrange(0, f.len() as int));
        lemma_equip_property_step(buf, pos, ps[0], acc);
        let acc2 = EquipModel { properties: acc.properties.push(ps[0]), ..acc };
        assert(buf.subrange(q, buf.len() as int) =~= buf.subrange(pos, buf.len() as int).subrange(
            f.len() as int,
            buf.len() - pos,
        ));
        lemma_equip_properties_steps(buf, q, ps.drop_first(), acc2);
        assert(acc2.properties + ps.drop_first() =~= acc.properties + ps);
    }
}

/// Decoding a disc message that holds uid, id, level and star once each and
/// then its property messages gives back every field as written and the
/// properties in order.
pub proof fn law_equip_save_round_trip(e: EquipModel)
    ensures
        spec_equip_save(equip_save_encoding(e)) == e,
{
    let buf = equip_save_encoding(e);
    let f1 = varint_field(1, e.uid as nat);
    let f2 = varint_field(2, e.id as nat);
    let f3 = varint_field(3, e.level as nat);
    let f4 = varint_field(4, e.star as nat);
    let r = equip_properties_encoding(e.properties);
    let p1 = f1.len() as int;
    let p2 = p1 + f2.len();
    let p3 = p2 + f3.len();
    let p4 = p3 + f4.len();
    assert(buf.len() == p4 + r.len());
    assert(buf.subrange(0, p1) =~= f1);
    assert(buf.subrange(p1, p2) =~= f2);
    assert(buf.subrange(p2, p3) =~= f3);
    assert(buf.subrange(p3, p4) =~= f4);
    assert(buf.subrange(p4, buf.len() as int) =~= r);
    let a0 = equip_default();
    let a1 = set_equip_scalar(a0, 1, e.uid);
    let a2 = set_equip_scalar(a1, 2, e.id);
    let a3 = set_equip_scalar(a2, 3, e.level);
    let a4 = set_equip_scalar(a3, 4, e.star);
    lemma_equip_field_step(buf, 0, 1, e.uid, a0);
    lemma_equip_field_step(buf, p1, 2, e.id, a1);
    lemma_equip_field_step(buf, p2, 3, e.level, a2);
    lemma_equip_field_step(buf, p3, 4, e.star, a3);
    lemma_equip_properties_steps(buf, p4, e.properties, a4);
    assert(a4.properties + e.properties =~= e.properties);
}


/// Decodes one EquipItemSave message.
pub fn decode_equip_save(buf: &[u8]) -> (item: EquipItemSave)
    ensures
        item@ == spec_equip_save(buf@),
{
    let mut item = EquipItemSave { uid: 0, id: 0, level: 0, star: 0, properties: Vec::new() };
    let mut pos: usize = 0;
    assert(item@ == equip_default());
    while pos < buf.len()
        invariant
            pos <= buf.len(),
            equip_loop(buf@, pos as int, item@) == spec_equip_save(buf@),
        decreases buf.len() - pos,
    {
        proof {
            lemma_next_tag_progress(buf@, pos as int);
        }
        let (tag, new_pos) = match read_varint(buf, pos) {
            Some(r) => r,
            None => (0, buf.len()),
        };
        pos = new_pos;
        let field = tag / 8;
        let wire = tag % 8;
        proof {
            lemma_read_varint_end(buf@, pos as int);
            lemma_skip_end(wire, buf@, pos as int);
        }
        if wire == 0 && field >= 1 && field <= 4 {
            if let Some((v, np)) = read_varint(buf, pos) {
                let x = (v % 0x1_0000_0000) as u32;
                if field == 1 {
                    item.uid = x;
                } else if field == 2 {
                    item.id = x;
                } else if field == 3 {
                    item.level = x;
                } else {
                    item.star = x;
                }
                pos = np;
            }
        } else if wire == 2 && field == 5 {
            let (sub, np) = read_ld_or_empty(buf, pos);
            pos = np;
            let prop = decode_equip_property(sub);
            item.properties.push(prop);
        } else {
            if !skip_field(wire, buf, &mut pos) {
                return item;
            }
        }
    }
    item
}

/// One Bangboo in the save.
#[derive(Clone, Debug)]
pub struct BuddyItemSave {
    pub id: u32,
    pub level: u32,
    pub exp: u32,
    pub rank: u32,
    pub star: u32,
    pub favorite: bool,
    pub skill_levels: Vec<u32>,
}

pub struct BuddyModel {
    pub id: u32,
    pub level: u32,
    pub exp: u32,
    pub rank: u32,
    pub star: u32,
    pub favorite: bool,
    pub skill_levels: Seq<u32>,
}

impl View for BuddyItemSave {
    type V = BuddyModel;

    open spec fn view(&self) -> BuddyModel {
        BuddyModel {
            id: self.id,
            level: self.level,
            exp: self.exp,
            rank: self.rank,
            star: self.star,
            favorite: self.favorite,
            skill_levels: self.skill_levels@,
        }
    }
}

pub open spec fn buddy_default() -> BuddyModel {
    BuddyModel { id: 0, level: 0, exp: 0, rank: 0, star: 0, favorite: false, skill_levels: Seq::empty() }
}

pub open spec fn set_buddy_scalar(b: BuddyModel, field: u64, v: u64) -> BuddyModel {
    let x = trunc32(v);
    if field == 1 {
        BuddyModel { id: x, ..b }
    } else if field == 2 {
        BuddyModel { level: x, ..b }
    } else if field == 3 {
        BuddyModel { exp: x, ..b }
    } else if field == 4 {
        BuddyModel { rank: x, ..b }
    } else if field == 5 {
        BuddyModel { star: x, ..b }
    } else {
        BuddyModel { favorite: v != 0, ..b }
    }
}

/// Field loop of a BuddyItemSave message; skill levels (field 7) come as
/// repeated varints or as one packed list.
pub open spec fn buddy_loop(buf: Seq<u8>, pos: int, acc: BuddyModel) -> BuddyModel
    decreases buf.len() - pos,
{
    if pos < 0 || pos >= buf.len() {
        acc
    } else {
        let (tag, p1) = next_tag(buf, pos);
        let field = tag / 8;
        let wire = tag % 8;
        proof {
            lemma_next_tag_progress(buf, pos);
            lemma_read_varint_end(buf, p1);
            lemma_ld_or_empty_end(buf, p1);
            lemma_skip_end(wire, buf, p1);
        }
        if wire == 0 && 1 <= field <= 7 {
            match spec_read_varint(buf, p1) {
                Some((v, p2)) => {
                    let next = if field == 7 {
                        BuddyModel { skill_levels: acc.skill_levels.push(trunc32(v)), ..acc }
                    } else {
                        set_buddy_scalar(acc, field, v)
                    };
                    buddy_loop(buf, p2, next)
                },
                None => buddy_loop(buf, p1, acc),
            }
        } else if wire == 2 && field == 7 {
            let (sub, p2) = ld_or_empty(buf, p1);
            buddy_loop(buf, p2, BuddyModel { skill_levels: spec_varint_list(sub), ..acc })
        } else {
            match spec_skip_field(wire, buf, p1) {
                Some(p2) => buddy_loop(buf, p2, acc),
                None => acc,
            }
        }
    }
}

pub open spec fn spec_buddy_save(buf: Seq<u8>) -> BuddyModel {
    buddy_loop(buf, 0, buddy_default())
}

/// A Bangboo message that writes each scalar field once, in field order,
/// then its skill levels (field 7) as repeated varints.
pub open spec fn buddy_save_encoding(a: BuddyModel) -> Seq<u8> {
    varint_field(1, a.id as nat) + varint_field(2, a.level as nat) + varint_field(3, a.exp as nat) + varint_field(
        4,
        a.rank as nat,
    ) + varint_field(5, a.star as nat) + varint_field(6, bool_varint(a.favorite)) + repeated_varints(
        7,
        a.skill_levels,
    )
}

/// The Bangboo decoded from `pos` on, starting from `acc`; kept opaque so
/// that the field-by-field steps below compose without unfolding the loop.
#[verifier::opaque]
spec fn buddy_from(buf: Seq<u8>, pos: int, acc: BuddyModel) -> BuddyModel {
    buddy_loop(buf, pos, acc)
}

proof fn lemma_buddy_from_ends(buf: Seq<u8>, acc: BuddyModel)
    ensures
        spec_buddy_save(buf) == buddy_from(buf, 0, buddy_default()),
        buddy_from(buf, buf.len() as int, acc) == acc,
{
    reveal(buddy_from);
}

proof fn lemma_buddy_scalar_step(buf: Seq<u8>, pos: int, field: nat, v: u32, acc: BuddyModel)
    requires
        1 <= field <= 6,
        0 <= pos,
        pos + varint_field(field, v as nat).len() <= buf.len(),
        buf.subrange(pos, pos + varint_field(field, v as nat).len()) == varint_field(field, v as nat),
    ensures
        buddy_from(buf, pos, acc) == buddy_from(
            buf,
            pos + varint_field(field, v as nat).len(),
            set_buddy_scalar(acc, field as u64, v as u64),
        ),
{
    reveal(buddy_from);
    lemma_varint_field_reads(buf, pos, field, v);
}

proof fn lemma_buddy_list_steps(buf: Seq<u8>, pos: int, field: nat, vs: Seq<u32>, acc: BuddyModel)
    requires
        field == 7,
        0 <= pos,
        pos + repeated_varints(field, vs).len() <= buf.len(),
        buf.subrange(pos, pos + repeated_varints(field, vs).len()) == repeated_varints(field, vs),
    ensures
        buddy_from(buf, pos, acc) == buddy_from(
            buf,
            pos + repeated_varints(field, vs).len(),
            BuddyModel { skill_levels: acc.skill_levels + vs, ..acc },
        ),
    decreases vs.len(),
{
    reveal(buddy_from);
    if vs.len() == 0 {
        assert(acc.skill_levels + vs =~= acc.skill_levels);
    } else {
        let f = varint_field(field, vs[0] as nat);
        let rest = repeated_varints(field, vs.drop_first());
        let whole = buf.subrange(pos, pos + repeated_varints(field, vs).len());
        assert(whole == f + rest);
        assert(buf.subrange(pos, pos + f.len()) =~= whole.subrange(0, f.len() as int));
        assert(whole.subrange(0, f.len() as int) =~= f);
        assert(buf.subrange(pos + f.len(), pos + f.len() + rest.len()) =~= whole.subrange(
            f.len() as int,
            whole.len() as int,
        ));
        assert(whole.subrange(f.len() as int, whole.len() as int) =~= rest);
        lemma_varint_field_reads(buf, pos, field, vs[0]);
        let acc2 = BuddyModel { skill_levels: acc.skill_levels.push(vs[0]), ..acc };
        lemma_buddy_list_steps(buf, pos + f.len(), field, vs.drop_first(), acc2);
        assert(acc.skill_levels.push(vs[0]) + vs.drop_first() =~= acc.skill_levels + vs);
    }
}

/// Decoding a Bangboo message that writes each scalar field once, in field
/// order, then its skill levels as repeated varints, gives back every field
/// as written and the skill levels in order.
#[verifier::spinoff_prover]
pub proof fn law_buddy_save_round_trip(a: BuddyModel)
    ensures
        spec_buddy_save(buddy_save_encoding(a)) == a,
{
    let buf = buddy_save_encoding(a);
    let s0 = varint_field(1, a.id as nat);
    let s1 = varint_field(2, a.level as nat);
    let s2 = varint_field(3, a.exp as nat);
    let s3 = varint_field(4, a.rank as nat);
    let s4 = varint_field(5, a.star as nat);
    let s5 = varint_field(6, bool_varint(a.favorite));
    let s6 = repeated_varints(7, a.skill_levels);
    let q1 = s0;
    let q2 = q1 + s1;
    let q3 = q2 + s2;
    let q4 = q3 + s3;
    let q5 = q4 + s4;
    let q6 = q5 + s5;
    let q7 = q6 + s6;
    assert(buf == q7);
    assert(buf.subrange(0, buf.len() as int) =~= buf);
    lemma_prefix_step(buf, q6, s6);
    lemma_prefix_step(buf, q5, s5);
    lemma_prefix_step(buf, q4, s4);
    lemma_prefix_step(buf, q3, s3);
    lemma_prefix_step(buf, q2, s2);
    lemma_prefix_step(buf, q1, s1);
    let c0 = buddy_default();
    let c1 = set_buddy_scalar(c0, 1, (a.id as nat) as u32 as u64);
    lemma_buddy_scalar_step(buf, 0, 1, (a.id as nat) as u32, c0);
    let c2 = set_buddy_scalar(c1, 2, (a.level as nat) as u32 as u64);
    lemma_buddy_scalar_step(buf, q1.len() as int, 2, (a.level as nat) as u32, c1);
    let c3 = set_buddy_scalar(c2, 3, (a.exp as nat) as u32 as u64);
    lemma_buddy_scalar_step(buf, q2.len() as int, 3, (a.exp as nat) as u32, c2);
    let c4 = set_buddy_scalar(c3, 4, (a.rank as nat) as u32 as u64);
    lemma_buddy_scalar_step(buf, q3.len() as int, 4, (a.rank as nat) as u32, c3);
    let c5 = set_buddy_scalar(c4, 5, (a.star as nat) as u32 as u64);
    lemma_buddy_scalar_step(buf, q4.len() as int, 5, (a.star as nat) as u32, c4);
    let c6 = set_buddy_scalar(c5, 6, (bool_varint(a.favorite)) as u32 as u64);
    lemma_buddy_scalar_step(buf, q5.len() as int, 6, (bool_varint(a.favorite)) as u32, c5);
    let c7 = BuddyModel { skill_levels: c6.skill_levels + a.skill_levels, ..c6 };
    lemma_buddy_list_steps(buf, q6.len() as int, 7, a.skill_levels, c6);
    lemma_buddy_from_ends(buf, c7);
    assert(c7.skill_levels =~= a.skill_levels);
    assert(c7 == a);
}


/// Decodes one BuddyItemSave message.
pub fn decode_buddy_save(buf: &[u8]) -> (item: BuddyItemSave)
    ensures
        item@ == spec_buddy_save(buf@),
{
    let mut item = BuddyItemSave {
        id: 0,
        level: 0,
        exp: 0,
        rank: 0,
        star: 0,
        favorite: false,
        skill_levels: Vec::new(),
    };
    let mut pos: usize = 0;
    assert(item@ == buddy_default());
    while pos < buf.len()
        invariant
            pos <= buf.len(),
            buddy_loop(buf@, pos as int, item@) == spec_buddy_save(buf@),
        decreases buf.len() - pos,
    {
        proof {
            lemma_next_tag_progress(buf@, pos as int);
        }
        let (tag, new_pos) = match read_varint(buf, pos) {
            Some(r) => r,
            None => (0, buf.len()),
        };
        pos = new_pos;
        let field = tag / 8;
        let wire = tag % 8;
        proof {
            lemma_read_varint_end(buf@, pos as int);
            lemma_skip_end(wire, buf@, pos as int);
        }
        if wire == 0 && field >= 1 && field <= 7 {
            if let Some((v, np)) = read_varint(buf, pos) {
                let x = (v % 0x1_0000_0000) as u32;
                let ghost before = item@;
                if field == 7 {
                    item.skill_levels.push(x);
                } else if field == 1 {
                    item.id = x;
                } else if field == 2 {
                    item.level = x;
                } else if field == 3 {
                    item.exp = x;
                } else if field == 4 {
                    item.rank = x;
                } else if field == 5 {
                    item.star = x;
                } else {
                    item.favorite = v != 0;
                }
                assert(item@ == (if field == 7 {
                    BuddyModel { skill_levels: before.skill_levels.push(x), ..before }
                } else {
                    set_buddy_scalar(before, field, v)
                }));
                pos = np;
            }
        } else if wire == 2 && field == 7 {
            let (sub, np) = read_ld_or_empty(buf, pos);
            pos = np;
            item.skill_levels = decode_varint_list(sub);
        } else {
            if !skip_field(wire, buf, &mut pos) {
                return item;
            }
        }
    }
    item
}

} // verus!

verus! {

pub open spec fn avatar_views(v: Seq<AvatarItemSave>) -> Seq<AvatarModel> {
    v.map_values(|a: AvatarItemSave| a@)
}

pub open spec fn equip_views(v: Seq<EquipItemSave>) -> Seq<EquipModel> {
    v.map_values(|e: EquipItemSave| e@)
}

pub open spec fn buddy_views(v: Seq<BuddyItemSave>) -> Seq<BuddyModel> {
    v.map_values(|b: BuddyItemSave| b@)
}

/// A repeated-message list: each field-1 length-delimited message is one item;
/// any other tag, or an unreadable message, ends the list.
pub open spec fn list_item_at(buf: Seq<u8>, pos: int) -> Option<(Seq<u8>, int)> {
    let (tag, p1) = next_tag(buf, pos);
    if tag / 8 == 1 && tag % 8 == 2 {
        spec_read_ld(buf, p1)
    } else {
        None
    }
}

pub proof fn lemma_list_item_progress(buf: Seq<u8>, pos: int)
    requires
        0 <= pos < buf.len(),
    ensures
        list_item_at(buf, pos) matches Some((sub, e)) ==> pos < e <= buf.len(),
{
    lemma_next_tag_progress(buf, pos);
    lemma_read_ld_end(buf, next_tag(buf, pos).1);
}

pub open spec fn avatar_list_loop(buf: Seq<u8>, pos: int, acc: Seq<AvatarModel>) -> Seq<AvatarModel>
    decreases buf.len() - pos,
{
    if pos < 0 || pos >= buf.len() {
        acc
    } else {
        proof {
            lemma_list_item_progress(buf, pos);
        }
        match list_item_at(buf, pos) {
            Some((sub, p2)) => avatar_list_loop(buf, p2, acc.push(spec_avatar_save(sub))),
            None => acc,
        }
    }
}

pub open spec fn weapon_list_loop(buf: Seq<u8>, pos: int, acc: Seq<WeaponItemSave>) -> Seq<WeaponItemSave>
    decreases buf.len() - pos,
{
    if pos < 0 || pos >= buf.len() {
        acc
    } else {
        proof {
            lemma_list_item_progress(buf, pos);
        }
        match list_item_at(buf, pos) {
            Some((sub, p2)) => weapon_list_loop(buf, p2, acc.push(spec_weapon_save(sub))),
            None => acc,
        }
    }
}

pub open spec fn equip_list_loop(buf: Seq<u8>, pos: int, acc: Seq<EquipModel>) -> Seq<EquipModel>
    decreases buf.len() - pos,
{
    if pos < 0 || pos >= buf.len() {
        acc
    } else {
        proof {
            lemma_list_item_progress(buf, pos);
        }
        match list_item_at(buf, pos) {
            Some((sub, p2)) => equip_list_loop(buf, p2, acc.push(spec_equip_save(sub))),
            None => acc,
        }
    }
}

pub open spec fn buddy_list_loop(buf: Seq<u8>, pos: int, acc: Seq<BuddyModel>) -> Seq<BuddyModel>
    decreases buf.len() - pos,
{
    if pos < 0 || pos >= buf.len() {
        acc
    } else {
        proof {
            lemma_list_item_progress(buf, pos);
        }
        match list_item_at(buf, pos) {
            Some((sub, p2)) => buddy_list_loop(buf, p2, acc.push(spec_buddy_save(sub))),
            None => acc,
        }
    }
}

/// Reads the next list item's bytes, if the tag at `pos` opens one.
fn read_list_item(buf: &[u8], pos: usize) -> (res: Option<(&[u8], usize)>)
    requires
        pos < buf.len(),
    ensures
        match res {
            Some((sub, e)) => list_item_at(buf@, pos as int) == Some((sub@, e as int)),
            None => list_item_at(buf@, pos as int) is None,
        },
{
    let (tag, new_pos) = match read_varint(buf, pos) {
        Some(r) => r,
        None => (0, buf.len()),
    };
    if tag / 8 == 1 && tag % 8 == 2 {
        read_ld(buf, new_pos)
    } else {
        None
    }
}

/// Decodes a list of AvatarItemSave messages.
pub fn decode_avatar_save_list(buf: &[u8]) -> (items: Vec<AvatarItemSave>)
    ensures
        avatar_views(items@) == avatar_list_loop(buf@, 0, Seq::empty()),
{
    let mut items: Vec<AvatarItemSave> = Vec::new();
    let mut pos: usize = 0;
    assert(avatar_views(items@) =~= Seq::<AvatarModel>::empty());
    while pos < buf.len()
        invariant
            pos <= buf.len(),
            avatar_list_loop(buf@, pos as int, avatar_views(items@)) == avatar_list_loop(
                buf@,
                0,
                Seq::empty(),
            ),
        decreases buf.len() - pos,
    {
        proof {
            lemma_list_item_progress(buf@, pos as int);
        }
        match read_list_item(buf, pos) {
            Some((sub, np)) => {
                pos = np;
                let item = decode_avatar_save(sub);
                let ghost before = items@;
                items.push(item);
                assert(avatar_views(items@) =~= avatar_views(before).push(item@));
            },
            None => return items,
        }
    }
    items
}

/// Decodes a list of WeaponItemSave messages.
pub fn decode_weapon_save_list(buf: &[u8]) -> (items: Vec<WeaponItemSave>)
    ensures
        items@ == weapon_list_loop(buf@, 0, Seq::empty()),
{
    let mut items: Vec<WeaponItemSave> = Vec::new();
    let mut pos: usize = 0;
    while pos < buf.len()
        invariant
            pos <= buf.len(),
            weapon_list_loop(buf@, pos as int, items@) == weapon_list_loop(buf@, 0, Seq::empty()),
        decreases buf.len() - pos,
    {
        proof {
            lemma_list_item_progress(buf@, pos as int);
        }
        match read_list_item(buf, pos) {
            Some((sub, np)) => {
                pos = np;
                let item = decode_weapon_save(sub);
                items.push(item);
            },
            None => return items,
        }
    }
    items
}

/// Decodes a list of EquipItemSave messages.
pub fn decode_equip_save_list(buf: &[u8]) -> (items: Vec<EquipItemSave>)
    ensures
        equip_views(items@) == equip_list_loop(buf@, 0, Seq::empty()),
{
    let mut items: Vec<EquipItemSave> = Vec::new();
    let mut pos: usize = 0;
    assert(equip_views(items@) =~= Seq::<EquipModel>::empty());
    while pos < buf.len()
        invariant
            pos <= buf.len(),
            equip_list_loop(buf@, pos as int, equip_views(items@)) == equip_list_loop(
                buf@,
                0,
                Seq::empty(),
            ),
        decreases buf.len() - pos,
    {
        proof {
            lemma_list_item_progress(buf@, pos as int);
        }
        match read_list_item(buf, pos) {
            Some((sub, np)) => {
                pos = np;
                let item = decode_equip_save(sub);
                let ghost before = items@;
                items.push(item);
                assert(equip_views(items@) =~= equip_views(before).push(item@));
            },
            None => return items,
        }
    }
    items
}

/// Decodes a list of BuddyItemSave messages.
pub fn decode_buddy_save_list(buf: &[u8]) -> (items: Vec<BuddyItemSave>)
    ensures
        buddy_views(items@) == buddy_list_loop(buf@, 0, Seq::empty()),
{
    let mut items: Vec<BuddyItemSave> = Vec::new();
    let mut pos: usize = 0;
    assert(buddy_views(items@) =~= Seq::<BuddyModel>::empty());
    while pos < buf.len()
        invariant
            pos <= buf.len(),
            buddy_list_loop(buf@, pos as int, buddy_views(items@)) == buddy_list_loop(
                buf@,
                0,
                Seq::empty(),
            ),
        decreases buf.len() - pos,
    {
        proof {
            lemma_list_item_progress(buf@, pos as int);
        }
        match read_list_item(buf, pos) {
            Some((sub, np)) => {
                pos = np;
                let item = decode_buddy_save(sub);
                let ghost before = items@;
                items.push(item);
                assert(buddy_views(items@) =~= buddy_views(before).push(item@));
            },
            None => return items,
        }
    }
    items
}

/// A whole PlayerSave file.
#[derive(Clone, Debug)]
pub struct PlayerSave {
    pub basic: Option<BasicSave>,
    pub avatar: Vec<AvatarItemSave>,
    pub weapon: Vec<WeaponItemSave>,
    pub equip: Vec<EquipItemSave>,
    pub buddy: Vec<BuddyItemSave>,
    pub hall: Option<HallSave>,
}

pub struct PlayerModel {
    pub basic: Option<BasicSave>,
    pub avatar: Seq<AvatarModel>,
    pub weapon: Seq<WeaponItemSave>,
    pub equip: Seq<EquipModel>,
    pub buddy: Seq<BuddyModel>,
    pub hall: Option<HallSave>,
}

impl View for PlayerSave {
    type V = PlayerModel;

    open spec fn view(&self) -> PlayerModel {
        PlayerModel {
            basic: self.basic,
            avatar: avatar_views(self.avatar@),
            weapon: self.weapon@,
            equip: equip_views(self.equip@),
            buddy: buddy_views(self.buddy@),
            hall: self.hall,
        }
    }
}

pub open spec fn player_default() -> PlayerModel {
    PlayerModel {
        basic: None,
        avatar: Seq::empty(),
        weapon: Seq::empty(),
        equip: Seq::empty(),
        buddy: Seq::empty(),
        hall: None,
    }
}

/// Stores the decoded sub-message of top-level field `field` (1..6); a later
/// occurrence of a field replaces an earlier one.
pub open spec fn set_player_field(s: PlayerModel, field: u64, sub: Seq<u8>) -> PlayerModel {
    if field == 1 {
        PlayerModel { basic: Some(spec_basic_save(sub)), ..s }
    } else if field == 2 {
        PlayerModel { avatar: avatar_list_loop(sub, 0, Seq::empty()), ..s }
    } else if field == 3 {
        PlayerModel { weapon: weapon_list_loop(sub, 0, Seq::empty()), ..s }
    } else if field == 4 {
        PlayerModel { equip: equip_list_loop(sub, 0, Seq::empty()), ..s }
    } else if field == 5 {
        PlayerModel { buddy: buddy_list_loop(sub, 0, Seq::empty()), ..s }
    } else {
        PlayerModel { hall: Some(spec_hall_save(sub)), ..s }
    }
}

/// Top-level loop of a PlayerSave: `None` as soon as a tag, a known
/// sub-message, or an unknown field cannot be read.
pub open spec fn player_loop(buf: Seq<u8>, pos: int, acc: PlayerModel) -> Option<PlayerModel>
    decreases buf.len() - pos,
{
    if pos < 0 || pos >= buf.len() {
        Some(acc)
    } else {
        proof {
            lemma_read_varint_end(buf, pos);
        }
        match spec_read_varint(buf, pos) {
            None => None,
            Some((tag, p1)) => {
                let field = tag / 8;
                let wire = tag % 8;
                proof {
                    lemma_read_ld_end(buf, p1);
                    lemma_skip_end(wire, buf, p1);
                }
                if wire == 2 && 1 <= field <= 6 {
                    match spec_read_ld(buf, p1) {
                        Some((sub, p2)) => player_loop(buf, p2, set_player_field(acc, field, sub)),
                        None => None,
                    }
                } else {
                    match spec_skip_field(wire, buf, p1) {
                        Some(p2) => player_loop(buf, p2, acc),
                        None => None,
                    }
                }
            },
        }
    }
}

pub open spec fn spec_player_save(buf: Seq<u8>) -> Option<PlayerModel> {
    player_loop(buf, 0, player_default())
}

/// Decodes a whole PlayerSave file; `None` when its top level is malformed.
pub fn decode_player_save(buf: &[u8]) -> (res: Option<PlayerSave>)
    ensures
        match res {
            Some(save) => spec_player_save(buf@) == Some(save@),
            None => spec_player_save(buf@) is None,
        },
{
    let mut save = PlayerSave {
        basic: None,
        avatar: Vec::new(),
        weapon: Vec::new(),
        equip: Vec::new(),
        buddy: Vec::new(),
        hall: None,
    };
    assert(save@ == player_default()) by {
        assert(avatar_views(save.avatar@) =~= Seq::<AvatarModel>::empty());
        assert(equip_views(save.equip@) =~= Seq::<EquipModel>::empty());
        assert(buddy_views(save.buddy@) =~= Seq::<BuddyModel>::empty());
    }
    let mut pos: usize = 0;
    while pos < buf.len()
        invariant
            pos <= buf.len(),
            player_loop(buf@, pos as int, save@) == spec_player_save(buf@),
        decreases buf.len() - pos,
    {
        proof {
            lemma_read_varint_end(buf@, pos as int);
        }
        let (tag, new_pos) = match read_varint(buf, pos) {
            Some(r) => r,
            None => return None,
        };
        pos = new_pos;
        let field = tag / 8;
        let wire = tag % 8;
        proof {
            lemma_read_ld_end(buf@, pos as int);
            lemma_skip_end(wire, buf@, pos as int);
        }
        if wire == 2 && field >= 1 && field <= 6 {
            let (sub, np) = match read_ld(buf, pos) {
                Some(r) => r,
                None => return None,
            };
            pos = np;
            if field == 1 {
                save.basic = Some(decode_basic_save(sub));
            } else if field == 2 {
                save.avatar = decode_avatar_save_list(sub);
            } else if field == 3 {
                save.weapon = decode_weapon_save_list(sub);
            } else if field == 4 {
                save.equip = decode_equip_save_list(sub);
            } else if field == 5 {
                save.buddy = decode_buddy_save_list(sub);
            } else {
                save.hall = Some(decode_hall_save(sub));
            }
        } else {
            if !skip_field(wire, buf, &mut pos) {
                return None;
            }
        }
    }
    Some(save)
}

} // verus!
