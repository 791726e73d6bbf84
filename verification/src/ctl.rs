use vstd::prelude::*;
use crate::text::{chars_eq, chars_of, decimal, extend_str, push_decimal, string_of, sub_chars};

verus! {

/// Little-endian bytes of `v`, `n` of them (higher bytes dropped).
pub open spec fn le_bytes(v: nat, n: nat) -> Seq<u8>
    decreases n,
{
    if n == 0 {
        Seq::empty()
    } else {
        seq![(v % 256) as u8] + le_bytes(v / 256, (n - 1) as nat)
    }
}

/// `v` shifted right by `i` whole bytes.
pub open spec fn shr8(v: nat, i: nat) -> nat
    decreases i,
{
    if i == 0 {
        v
    } else {
        shr8(v / 256, (i - 1) as nat)
    }
}

proof fn lemma_shr8_step(v: nat, i: nat)
    ensures
        shr8(v, i + 1) == shr8(v, i) / 256,
    decreases i,
{
    reveal_with_fuel(shr8, 2);
    if i > 0 {
        lemma_shr8_step(v / 256, (i - 1) as nat);
    }
}

proof fn lemma_le_bytes_snoc(v: nat, i: nat)
    ensures
        le_bytes(v, i + 1) == le_bytes(v, i).push((shr8(v, i) % 256) as u8),
    decreases i,
{
    reveal_with_fuel(le_bytes, 2);
    if i == 0 {
        assert(le_bytes(v, 1) =~= seq![(v % 256) as u8]);
        assert(le_bytes(v, 0) =~= Seq::<u8>::empty());
    } else {
        lemma_le_bytes_snoc(v / 256, (i - 1) as nat);
        assert(le_bytes(v, i + 1) =~= le_bytes(v, i).push((shr8(v, i) % 256) as u8));
    }
}

pub proof fn lemma_le_bytes_len(v: nat, n: nat)
    ensures
        le_bytes(v, n).len() == n,
    decreases n,
{
    if n > 0 {
        lemma_le_bytes_len(v / 256, (n - 1) as nat);
    }
}

/// `s` with the bytes from `p` on overwritten by `t`.
pub open spec fn splice(s: Seq<u8>, p: int, t: Seq<u8>) -> Seq<u8> {
    s.subrange(0, p) + t + s.subrange(p + t.len(), s.len() as int)
}

/// Writes the `n` low bytes of `val`, least significant first, at `*pos`.
fn write_le(buf: &mut Vec<u8>, pos: &mut usize, val: u64, n: usize)
    requires
        *old(pos) + n <= old(buf).len(),
    ensures
        final(buf)@ == splice(old(buf)@, *old(pos) as int, le_bytes(val as nat, n as nat)),
        *final(pos) == *old(pos) + n,
{
    let ghost p0 = *pos as int;
    let ghost orig = buf@;
    let mut cur: u64 = val;
    let mut i: usize = 0;
    proof {
        lemma_le_bytes_len(val as nat, 0);
        assert(orig =~= splice(orig, p0, le_bytes(val as nat, 0)));
    }
    while i < n
        invariant
            i <= n,
            p0 + n <= orig.len(),
            *pos == p0 + i,
            buf@.len() == orig.len(),
            buf@ == splice(orig, p0, le_bytes(val as nat, i as nat)),
            cur as nat == shr8(val as nat, i as nat),
        decreases n - i,
    {
        proof {
            lemma_le_bytes_snoc(val as nat, i as nat);
            lemma_le_bytes_len(val as nat, i as nat);
            lemma_le_bytes_len(val as nat, (i + 1) as nat);
            lemma_shr8_step(val as nat, i as nat);
        }
        assert(*pos < buf.len());
        buf.set(*pos, (cur % 256) as u8);
        *pos = *pos + 1;
        cur = cur / 256;
        i = i + 1;
        assert(buf@ =~= splice(orig, p0, le_bytes(val as nat, i as nat)));
    }
}

/// Writes one byte at `*pos` and advances it.
pub fn write_u8(buf: &mut Vec<u8>, pos: &mut usize, val: u8)
    requires
        *old(pos) < old(buf).len(),
    ensures
        final(buf)@ == splice(old(buf)@, *old(pos) as int, seq![val]),
        *final(pos) == *old(pos) + 1,
{
    buf.set(*pos, val);
    *pos = *pos + 1;
    assert(buf@ =~= splice(old(buf)@, *old(pos) as int, seq![val]));
}

/// Writes a little-endian u16 at `*pos` and advances it.
pub fn write_u16_le(buf: &mut Vec<u8>, pos: &mut usize, val: u16)
    requires
        *old(pos) + 2 <= old(buf).len(),
    ensures
        final(buf)@ == splice(old(buf)@, *old(pos) as int, le_bytes(val as nat, 2)),
        *final(pos) == *old(pos) + 2,
{
    write_le(buf, pos, val as u64, 2);
}

/// Writes a little-endian u32 at `*pos` and advances it.
pub fn write_u32_le(buf: &mut Vec<u8>, pos: &mut usize, val: u32)
    requires
        *old(pos) + 4 <= old(buf).len(),
    ensures
        final(buf)@ == splice(old(buf)@, *old(pos) as int, le_bytes(val as nat, 4)),
        *final(pos) == *old(pos) + 4,
{
    write_le(buf, pos, val as u64, 4);
}

/// Writes a little-endian u64 at `*pos` and advances it.
pub fn write_u64_le(buf: &mut Vec<u8>, pos: &mut usize, val: u64)
    requires
        *old(pos) + 8 <= old(buf).len(),
    ensures
        final(buf)@ == splice(old(buf)@, *old(pos) as int, le_bytes(val as nat, 8)),
        *final(pos) == *old(pos) + 8,
{
    write_le(buf, pos, val, 8);
}

} // verus!

verus! {

/// Size of the ctl packet header.
pub const HEADER_SIZE: usize = 8;

/// Base of the live weapon uid space: a save's weapon uid `n` is `WEAPON_UID_BASE + n` on the server.
pub const WEAPON_UID_BASE: u32 = 0x01_00_00;

/// Base of the live equip uid space.
pub const EQUIP_UID_BASE: u32 = 0x02_00_00;

/// `rand::random::<u32>()`: a value drawn from the thread-local generator.
/// Nothing is promised of the value.
#[verifier::external_body]
fn random_u32() -> u32 {
    rand::random::<u32>()
}

/// The 8-byte header: protocol version 0, the operation version, the operation
/// tag (LE u16) and a request nonce (LE u32).
pub open spec fn header_bytes(op_tag: u16, op_version: u8, nonce: u32) -> Seq<u8> {
    seq![0u8, op_version] + le_bytes(op_tag as nat, 2) + le_bytes(nonce as nat, 4)
}

/// Builds a request header with a fresh random nonce.
pub fn make_header(operation_tag: u16, operation_version: u8) -> (h: Vec<u8>)
    ensures
        exists|nonce: u32| h@ == header_bytes(operation_tag, operation_version, nonce),
{
    let mut h: Vec<u8> = vec![0u8; HEADER_SIZE];
    let mut p: usize = 0;
    write_u8(&mut h, &mut p, 0);
    write_u8(&mut h, &mut p, operation_version);
    write_u16_le(&mut h, &mut p, operation_tag);
    let nonce = random_u32();
    write_u32_le(&mut h, &mut p, nonce);
    proof {
        lemma_le_bytes_len(operation_tag as nat, 2);
        lemma_le_bytes_len(nonce as nat, 4);
    }
    assert(h@ =~= header_bytes(operation_tag, operation_version, nonce));
    h
}

/// The packed W-Engine meta word: level in bits 0..6, star from bit 6, refine from bit 9.
pub open spec fn spec_pack_weapon_meta(level: u8, star: u8, refine: u8) -> u16 {
    (level as u16) | ((star as u16) << 6u16) | ((refine as u16) << 9u16)
}

pub fn pack_weapon_meta(level: u8, star: u8, refine: u8) -> (m: u16)
    ensures
        m == spec_pack_weapon_meta(level, star, refine),
{
    (level as u16) | ((star as u16) << 6u16) | ((refine as u16) << 9u16)
}

/// The packed disc meta word: level in bits 0..4, star from bit 4.
pub open spec fn spec_pack_equip_meta(level: u8, star: u8) -> u16 {
    (level as u16) | ((star as u16) << 4u16)
}

pub fn pack_equip_meta(level: u8, star: u8) -> (m: u16)
    ensures
        m == spec_pack_equip_meta(level, star),
{
    (level as u16) | ((star as u16) << 4u16)
}

/// The packed disc property word: key in bits 0..16, base value from bit 16,
/// added rolls from bit 28.
pub open spec fn spec_pack_equip_property(key: u16, base_value: u16, add_value: u8) -> u32 {
    (key as u32) | ((base_value as u32) << 16u32) | ((add_value as u32) << 28u32)
}

pub fn pack_equip_property(key: u16, base_value: u16, add_value: u8) -> (w: u32)
    ensures
        w == spec_pack_equip_property(key, base_value, add_value),
{
    (key as u32) | ((base_value as u32) << 16u32) | ((add_value as u32) << 28u32)
}

/// Unpacking a weapon meta word recovers fields that fit their bit widths.
pub proof fn law_weapon_meta_unpacks(level: u8, star: u8, refine: u8)
    requires
        level < 64,
        star < 8,
        refine < 128,
    ensures
        spec_pack_weapon_meta(level, star, refine) & 0x3f == level as u16,
        (spec_pack_weapon_meta(level, star, refine) >> 6u16) & 0x7 == star as u16,
        spec_pack_weapon_meta(level, star, refine) >> 9u16 == refine as u16,
{
    let l = level as u16;
    let s = star as u16;
    let r = refine as u16;
    assert((l | (s << 6u16) | (r << 9u16)) & 0x3f == l && ((l | (s << 6u16) | (r << 9u16)) >> 6u16)
        & 0x7 == s && (l | (s << 6u16) | (r << 9u16)) >> 9u16 == r) by (bit_vector)
        requires
            l < 64,
            s < 8,
            r < 128,
    ;
}

/// Unpacking a disc meta word recovers a level below 16 and the star.
pub proof fn law_equip_meta_unpacks(level: u8, star: u8)
    requires
        level < 16,
    ensures
        spec_pack_equip_meta(level, star) & 0xf == level as u16,
        spec_pack_equip_meta(level, star) >> 4u16 == star as u16,
{
    let l = level as u16;
    let s = star as u16;
    assert((l | (s << 4u16)) & 0xf == l && (l | (s << 4u16)) >> 4u16 == s) by (bit_vector)
        requires
            l < 16,
            s < 256,
    ;
}

/// Unpacking a disc property word recovers the key, a base value below 4096 and rolls below 16.
pub proof fn law_equip_property_unpacks(key: u16, base_value: u16, add_value: u8)
    requires
        base_value < 4096,
        add_value < 16,
    ensures
        spec_pack_equip_property(key, base_value, add_value) & 0xffff == key as u32,
        (spec_pack_equip_property(key, base_value, add_value) >> 16u32) & 0xfff == base_value as u32,
        spec_pack_equip_property(key, base_value, add_value) >> 28u32 == add_value as u32,
{
    let k = key as u32;
    let b = base_value as u32;
    let a = add_value as u32;
    assert((k | (b << 16u32) | (a << 28u32)) & 0xffff == k && ((k | (b << 16u32) | (a << 28u32))
        >> 16u32) & 0xfff == b && (k | (b << 16u32) | (a << 28u32)) >> 28u32 == a) by (bit_vector)
        requires
            k < 65536,
            b < 4096,
            a < 16,
    ;
}

} // verus!

verus! {

proof fn lemma_splice_prefix(s: Seq<u8>, p: int, t: Seq<u8>)
    requires
        0 <= p,
        p + t.len() <= s.len(),
    ensures
        splice(s, p, t).len() == s.len(),
        splice(s, p, t).subrange(0, p + t.len()) == s.subrange(0, p) + t,
{
    assert(splice(s, p, t).subrange(0, p + t.len()) =~= s.subrange(0, p) + t);
}

/// A zero-padded packet of `size` bytes whose first 8 bytes are a fresh header.
fn start_packet(operation_tag: u16, size: usize) -> (buf: Vec<u8>)
    requires
        size >= HEADER_SIZE,
    ensures
        buf@.len() == size,
        exists|nonce: u32| buf@.subrange(0, 8) == header_bytes(operation_tag, 0, nonce),
{
    let mut buf = make_header(operation_tag, 0);
    let ghost h = buf@;
    proof {
        let nonce = choose|nonce: u32| h == header_bytes(operation_tag, 0, nonce);
        lemma_le_bytes_len(operation_tag as nat, 2);
        lemma_le_bytes_len(nonce as nat, 4);
        assert(h.len() == 8);
    }
    buf.resize(size, 0u8);
    assert(buf@.subrange(0, 8) =~= h);
    buf
}

/// Writes a u32 at `*pos` onto a packet whose prefix up to `*pos` is `done`.
fn put_u32(buf: &mut Vec<u8>, pos: &mut usize, val: u32, Ghost(done): Ghost<Seq<u8>>)
    requires
        *old(pos) + 4 <= old(buf)@.len(),
        old(buf)@.subrange(0, *old(pos) as int) == done,
    ensures
        final(buf)@.len() == old(buf)@.len(),
        *final(pos) == *old(pos) + 4,
        final(buf)@.subrange(0, *final(pos) as int) == done + le_bytes(val as nat, 4),
{
    proof {
        lemma_le_bytes_len(val as nat, 4);
        lemma_splice_prefix(buf@, *pos as int, le_bytes(val as nat, 4));
    }
    write_u32_le(buf, pos, val);
}

fn put_u16(buf: &mut Vec<u8>, pos: &mut usize, val: u16, Ghost(done): Ghost<Seq<u8>>)
    requires
        *old(pos) + 2 <= old(buf)@.len(),
        old(buf)@.subrange(0, *old(pos) as int) == done,
    ensures
        final(buf)@.len() == old(buf)@.len(),
        *final(pos) == *old(pos) + 2,
        final(buf)@.subrange(0, *final(pos) as int) == done + le_bytes(val as nat, 2),
{
    proof {
        lemma_le_bytes_len(val as nat, 2);
        lemma_splice_prefix(buf@, *pos as int, le_bytes(val as nat, 2));
    }
    write_u16_le(buf, pos, val);
}

fn put_u64(buf: &mut Vec<u8>, pos: &mut usize, val: u64, Ghost(done): Ghost<Seq<u8>>)
    requires
        *old(pos) + 8 <= old(buf)@.len(),
        old(buf)@.subrange(0, *old(pos) as int) == done,
    ensures
        final(buf)@.len() == old(buf)@.len(),
        *final(pos) == *old(pos) + 8,
        final(buf)@.subrange(0, *final(pos) as int) == done + le_bytes(val as nat, 8),
{
    proof {
        lemma_le_bytes_len(val as nat, 8);
        lemma_splice_prefix(buf@, *pos as int, le_bytes(val as nat, 8));
    }
    write_u64_le(buf, pos, val);
}

fn put_u8(buf: &mut Vec<u8>, pos: &mut usize, val: u8, Ghost(done): Ghost<Seq<u8>>)
    requires
        *old(pos) + 1 <= old(buf)@.len(),
        old(buf)@.subrange(0, *old(pos) as int) == done,
    ensures
        final(buf)@.len() == old(buf)@.len(),
        *final(pos) == *old(pos) + 1,
        final(buf)@.subrange(0, *final(pos) as int) == done + seq![val],
{
    proof {
        lemma_splice_prefix(buf@, *pos as int, seq![val]);
    }
    write_u8(buf, pos, val);
}

/// modAvatarMeta (tag 2): value (LE u64), player uid, avatar id, field selector.
pub open spec fn avatar_meta_packet(nonce: u32, player_uid: u32, avatar_id: u32, field: u8, value: u64) -> Seq<u8> {
    header_bytes(2, 0, nonce) + le_bytes(value as nat, 8) + le_bytes(player_uid as nat, 4)
        + le_bytes(avatar_id as nat, 4) + seq![field]
}

/// The 25-byte modAvatarMeta request that sets `field` of an agent to `value`.
pub fn mod_avatar_meta(player_uid: u32, avatar_id: u32, field: u8, value: u64) -> (packet: Vec<u8>)
    ensures
        exists|nonce: u32| packet@ == avatar_meta_packet(nonce, player_uid, avatar_id, field, value),
{
    let mut buf = start_packet(2, 25);
    let ghost nonce = choose|nonce: u32| buf@.subrange(0, 8) == header_bytes(2, 0, nonce);
    let ghost h = header_bytes(2, 0, nonce);
    let mut p: usize = HEADER_SIZE;
    put_u64(&mut buf, &mut p, value, Ghost(h));
    put_u32(&mut buf, &mut p, player_uid, Ghost(h + le_bytes(value as nat, 8)));
    put_u32(&mut buf, &mut p, avatar_id, Ghost(h + le_bytes(value as nat, 8) + le_bytes(player_uid as nat, 4)));
    put_u8(&mut buf, &mut p, field, Ghost(h + le_bytes(value as nat, 8) + le_bytes(player_uid as nat, 4) + le_bytes(avatar_id as nat, 4)));
    assert(buf@ =~= buf@.subrange(0, 25));
    assert(buf@ == avatar_meta_packet(nonce, player_uid, avatar_id, field, value));
    buf
}

} // verus!

verus! {

/// createWeapon (tag 3): player uid, count 1, then one entry (item id, meta word).
pub open spec fn create_weapon_packet(nonce: u32, player_uid: u32, item_id: u16, level: u8, star: u8, refine: u8) -> Seq<u8> {
    header_bytes(3, 0, nonce) + le_bytes(player_uid as nat, 4) + le_bytes(1, 4) + le_bytes(item_id as nat, 2)
        + le_bytes(spec_pack_weapon_meta(level, star, refine) as nat, 2)
}

/// The 20-byte createWeapon request for one W-Engine.
pub fn create_weapon(player_uid: u32, item_id: u16, level: u8, star: u8, refine: u8) -> (packet: Vec<u8>)
    ensures
        exists|nonce: u32| packet@ == create_weapon_packet(nonce, player_uid, item_id, level, star, refine),
{
    let mut buf = start_packet(3, 20);
    let ghost nonce = choose|nonce: u32| buf@.subrange(0, 8) == header_bytes(3, 0, nonce);
    let ghost h0 = header_bytes(3, 0, nonce);
    let mut p: usize = HEADER_SIZE;
    put_u32(&mut buf, &mut p, player_uid, Ghost(h0));
    let ghost h1 = h0 + le_bytes(player_uid as nat, 4);
    put_u32(&mut buf, &mut p, 1, Ghost(h1));
    let ghost h2 = h1 + le_bytes(1, 4);
    put_u16(&mut buf, &mut p, item_id, Ghost(h2));
    let ghost h3 = h2 + le_bytes(item_id as nat, 2);
    let meta = pack_weapon_meta(level, star, refine);
    put_u16(&mut buf, &mut p, meta, Ghost(h3));
    assert(buf@ =~= buf@.subrange(0, 20));
    assert(buf@ == create_weapon_packet(nonce, player_uid, item_id, level, star, refine));
    buf
}

/// modWeapon (tag 6): player uid, live weapon uid, meta word.
pub open spec fn mod_weapon_packet(nonce: u32, player_uid: u32, weapon_uid_in_save: u32, level: u8, star: u8, refine: u8) -> Seq<u8> {
    header_bytes(6, 0, nonce) + le_bytes(player_uid as nat, 4) + le_bytes(
        (WEAPON_UID_BASE + weapon_uid_in_save) as nat,
        4,
    ) + le_bytes(spec_pack_weapon_meta(level, star, refine) as nat, 2)
}

/// The 18-byte modWeapon request; the save's weapon uid is moved into the live uid space.
pub fn mod_weapon(player_uid: u32, weapon_uid_in_save: u32, level: u8, star: u8, refine: u8) -> (packet: Vec<u8>)
    requires
        WEAPON_UID_BASE + weapon_uid_in_save <= u32::MAX,
    ensures
        exists|nonce: u32| packet@ == mod_weapon_packet(nonce, player_uid, weapon_uid_in_save, level, star, refine),
{
    let mut buf = start_packet(6, 18);
    let ghost nonce = choose|nonce: u32| buf@.subrange(0, 8) == header_bytes(6, 0, nonce);
    let ghost h0 = header_bytes(6, 0, nonce);
    let mut p: usize = HEADER_SIZE;
    put_u32(&mut buf, &mut p, player_uid, Ghost(h0));
    let ghost h1 = h0 + le_bytes(player_uid as nat, 4);
    put_u32(&mut buf, &mut p, WEAPON_UID_BASE + weapon_uid_in_save, Ghost(h1));
    let ghost h2 = h1 + le_bytes((WEAPON_UID_BASE + weapon_uid_in_save) as nat, 4);
    let meta = pack_weapon_meta(level, star, refine);
    put_u16(&mut buf, &mut p, meta, Ghost(h2));
    assert(buf@ =~= buf@.subrange(0, 18));
    assert(buf@ == mod_weapon_packet(nonce, player_uid, weapon_uid_in_save, level, star, refine));
    buf
}

/// deleteWeapon (tag 8): player uid, live weapon uid.
pub open spec fn delete_weapon_packet(nonce: u32, player_uid: u32, weapon_uid_in_save: u32) -> Seq<u8> {
    header_bytes(8, 0, nonce) + le_bytes(player_uid as nat, 4) + le_bytes(
        (WEAPON_UID_BASE + weapon_uid_in_save) as nat,
        4,
    )
}

/// The 16-byte deleteWeapon request.
pub fn delete_weapon(player_uid: u32, weapon_uid_in_save: u32) -> (packet: Vec<u8>)
    requires
        WEAPON_UID_BASE + weapon_uid_in_save <= u32::MAX,
    ensures
        exists|nonce: u32| packet@ == delete_weapon_packet(nonce, player_uid, weapon_uid_in_save),
{
    let mut buf = start_packet(8, 16);
    let ghost nonce = choose|nonce: u32| buf@.subrange(0, 8) == header_bytes(8, 0, nonce);
    let ghost h0 = header_bytes(8, 0, nonce);
    let mut p: usize = HEADER_SIZE;
    put_u32(&mut buf, &mut p, player_uid, Ghost(h0));
    let ghost h1 = h0 + le_bytes(player_uid as nat, 4);
    put_u32(&mut buf, &mut p, WEAPON_UID_BASE + weapon_uid_in_save, Ghost(h1));
    assert(buf@ =~= buf@.subrange(0, 16));
    assert(buf@ == delete_weapon_packet(nonce, player_uid, weapon_uid_in_save));
    buf
}

/// The property words of a disc, in order.
pub open spec fn props_bytes(props: Seq<(u16, u16, u8)>) -> Seq<u8>
    decreases props.len(),
{
    if props.len() == 0 {
        Seq::empty()
    } else {
        props_bytes(props.drop_last()) + le_bytes(
            spec_pack_equip_property(props.last().0, props.last().1, props.last().2) as nat,
            4,
        )
    }
}

proof fn lemma_props_bytes_len(props: Seq<(u16, u16, u8)>)
    ensures
        props_bytes(props).len() == 4 * props.len(),
    decreases props.len(),
{
    if props.len() > 0 {
        lemma_props_bytes_len(props.drop_last());
        lemma_le_bytes_len(
            spec_pack_equip_property(props.last().0, props.last().1, props.last().2) as nat,
            4,
        );
    }
}

fn put_props(buf: &mut Vec<u8>, pos: &mut usize, properties: &[(u16, u16, u8); 5], Ghost(done): Ghost<Seq<u8>>)
    requires
        *old(pos) + 20 <= old(buf)@.len(),
        old(buf)@.subrange(0, *old(pos) as int) == done,
    ensures
        final(buf)@.len() == old(buf)@.len(),
        *final(pos) == *old(pos) + 20,
        final(buf)@.subrange(0, *final(pos) as int) == done + props_bytes(properties@),
{
    let ghost p0 = *pos;
    let mut i: usize = 0;
    assert(properties@.subrange(0, 0) =~= Seq::<(u16, u16, u8)>::empty());
    assert(done + props_bytes(properties@.subrange(0, 0)) =~= done);
    while i < 5
        invariant
            i <= 5,
            properties@.len() == 5,
            *pos == p0 + 4 * i,
            p0 + 20 <= buf@.len(),
            buf@.len() == old(buf)@.len(),
            buf@.subrange(0, *pos as int) == done + props_bytes(properties@.subrange(0, i as int)),
        decreases 5 - i,
    {
        let (key, base, add) = properties[i];
        let w = pack_equip_property(key, base, add);
        let ghost before = properties@.subrange(0, i as int);
        put_u32(buf, pos, w, Ghost(done + props_bytes(before)));
        i = i + 1;
        assert(properties@.subrange(0, i as int).drop_last() =~= before);
        assert(done + props_bytes(properties@.subrange(0, i as int)) =~= done + props_bytes(before)
            + le_bytes(w as nat, 4));
    }
    assert(properties@.subrange(0, 5) =~= properties@);
}

/// createEquip (tag 4): player uid, count 1, five property words, item id, meta word.
pub open spec fn create_equip_packet(nonce: u32, player_uid: u32, item_id: u16, level: u8, star: u8, props: Seq<(u16, u16, u8)>) -> Seq<u8> {
    header_bytes(4, 0, nonce) + le_bytes(player_uid as nat, 4) + le_bytes(1, 4) + props_bytes(props)
        + le_bytes(item_id as nat, 2) + le_bytes(spec_pack_equip_meta(level, star) as nat, 2)
}

/// The 40-byte createEquip request for one disc.
pub fn create_equip(player_uid: u32, item_id: u16, level: u8, star: u8, properties: &[(u16, u16, u8); 5]) -> (packet: Vec<u8>)
    ensures
        exists|nonce: u32| packet@ == create_equip_packet(nonce, player_uid, item_id, level, star, properties@),
{
    let mut buf = start_packet(4, 40);
    let ghost nonce = choose|nonce: u32| buf@.subrange(0, 8) == header_bytes(4, 0, nonce);
    let ghost h0 = header_bytes(4, 0, nonce);
    let mut p: usize = HEADER_SIZE;
    put_u32(&mut buf, &mut p, player_uid, Ghost(h0));
    let ghost h1 = h0 + le_bytes(player_uid as nat, 4);
    put_u32(&mut buf, &mut p, 1, Ghost(h1));
    let ghost h2 = h1 + le_bytes(1, 4);
    put_props(&mut buf, &mut p, properties, Ghost(h2));
    let ghost h3 = h2 + props_bytes(properties@);
    put_u16(&mut buf, &mut p, item_id, Ghost(h3));
    let ghost h4 = h3 + le_bytes(item_id as nat, 2);
    let meta = pack_equip_meta(level, star);
    put_u16(&mut buf, &mut p, meta, Ghost(h4));
    assert(buf@ =~= buf@.subrange(0, 40));
    assert(buf@ == create_equip_packet(nonce, player_uid, item_id, level, star, properties@));
    buf
}

/// modEquip (tag 7): player uid, live equip uid, level, star, five property words.
pub open spec fn mod_equip_packet(nonce: u32, player_uid: u32, equip_uid_in_save: u32, level: u8, star: u8, props: Seq<(u16, u16, u8)>) -> Seq<u8> {
    header_bytes(7, 0, nonce) + le_bytes(player_uid as nat, 4) + le_bytes(
        (EQUIP_UID_BASE + equip_uid_in_save) as nat,
        4,
    ) + seq![level, star] + props_bytes(props)
}

/// The 38-byte modEquip request.
pub fn mod_equip(player_uid: u32, equip_uid_in_save: u32, level: u8, star: u8, properties: &[(u16, u16, u8); 5]) -> (packet: Vec<u8>)
    requires
        EQUIP_UID_BASE + equip_uid_in_save <= u32::MAX,
    ensures
        exists|nonce: u32| packet@ == mod_equip_packet(nonce, player_uid, equip_uid_in_save, level, star, properties@),
{
    let mut buf = start_packet(7, 38);
    let ghost nonce = choose|nonce: u32| buf@.subrange(0, 8) == header_bytes(7, 0, nonce);
    let ghost h0 = header_bytes(7, 0, nonce);
    let mut p: usize = HEADER_SIZE;
    put_u32(&mut buf, &mut p, player_uid, Ghost(h0));
    let ghost h1 = h0 + le_bytes(player_uid as nat, 4);
    put_u32(&mut buf, &mut p, EQUIP_UID_BASE + equip_uid_in_save, Ghost(h1));
    let ghost h2 = h1 + le_bytes((EQUIP_UID_BASE + equip_uid_in_save) as nat, 4);
    put_u8(&mut buf, &mut p, level, Ghost(h2));
    put_u8(&mut buf, &mut p, star, Ghost(h2 + seq![level]));
    let ghost h3 = h2 + seq![level] + seq![star];
    assert(h3 =~= h2 + seq![level, star]);
    put_props(&mut buf, &mut p, properties, Ghost(h3));
    assert(buf@ =~= buf@.subrange(0, 38));
    assert(buf@ == mod_equip_packet(nonce, player_uid, equip_uid_in_save, level, star, properties@));
    buf
}

/// deleteEquip (tag 9): player uid, live equip uid.
pub open spec fn delete_equip_packet(nonce: u32, player_uid: u32, equip_uid_in_save: u32) -> Seq<u8> {
    header_bytes(9, 0, nonce) + le_bytes(player_uid as nat, 4) + le_bytes(
        (EQUIP_UID_BASE + equip_uid_in_save) as nat,
        4,
    )
}

/// The 16-byte deleteEquip request.
pub fn delete_equip(player_uid: u32, equip_uid_in_save: u32) -> (packet: Vec<u8>)
    requires
        EQUIP_UID_BASE + equip_uid_in_save <= u32::MAX,
    ensures
        exists|nonce: u32| packet@ == delete_equip_packet(nonce, player_uid, equip_uid_in_save),
{
    let mut buf = start_packet(9, 16);
    let ghost nonce = choose|nonce: u32| buf@.subrange(0, 8) == header_bytes(9, 0, nonce);
    let ghost h0 = header_bytes(9, 0, nonce);
    let mut p: usize = HEADER_SIZE;
    put_u32(&mut buf, &mut p, player_uid, Ghost(h0));
    let ghost h1 = h0 + le_bytes(player_uid as nat, 4);
    put_u32(&mut buf, &mut p, EQUIP_UID_BASE + equip_uid_in_save, Ghost(h1));
    assert(buf@ =~= buf@.subrange(0, 16));
    assert(buf@ == delete_equip_packet(nonce, player_uid, equip_uid_in_save));
    buf
}

/// modHadalZoneSchedule (tag 5): count 1, then one (entrance id, zone id) entry.
pub open spec fn hadal_entrance_packet(nonce: u32, entrance_id: u32, zone_id: u32) -> Seq<u8> {
    header_bytes(5, 0, nonce) + le_bytes(1, 4) + le_bytes(entrance_id as nat, 4) + le_bytes(zone_id as nat, 4)
}

/// The 20-byte request that schedules `zone_id` on a Hadal entrance.
pub fn mod_hadal_entrance(entrance_id: u32, zone_id: u32) -> (packet: Vec<u8>)
    ensures
        exists|nonce: u32| packet@ == hadal_entrance_packet(nonce, entrance_id, zone_id),
{
    let mut buf = start_packet(5, 20);
    let ghost nonce = choose|nonce: u32| buf@.subrange(0, 8) == header_bytes(5, 0, nonce);
    let ghost h0 = header_bytes(5, 0, nonce);
    let mut p: usize = HEADER_SIZE;
    put_u32(&mut buf, &mut p, 1, Ghost(h0));
    let ghost h1 = h0 + le_bytes(1, 4);
    put_u32(&mut buf, &mut p, entrance_id, Ghost(h1));
    let ghost h2 = h1 + le_bytes(entrance_id as nat, 4);
    put_u32(&mut buf, &mut p, zone_id, Ghost(h2));
    assert(buf@ =~= buf@.subrange(0, 20));
    assert(buf@ == hadal_entrance_packet(nonce, entrance_id, zone_id));
    buf
}

/// The presence probe: a createWeapon (tag 3) with count 0, a no-op on a live server.
pub open spec fn probe_packet_bytes(nonce: u32, player_uid: u32) -> Seq<u8> {
    header_bytes(3, 0, nonce) + le_bytes(player_uid as nat, 4) + le_bytes(0, 4)
}

/// The 16-byte presence probe for a player.
pub fn probe_packet(player_uid: u32) -> (packet: Vec<u8>)
    ensures
        exists|nonce: u32| packet@ == probe_packet_bytes(nonce, player_uid),
{
    let mut buf = start_packet(3, 16);
    let ghost nonce = choose|nonce: u32| buf@.subrange(0, 8) == header_bytes(3, 0, nonce);
    let ghost h0 = header_bytes(3, 0, nonce);
    let mut p: usize = HEADER_SIZE;
    put_u32(&mut buf, &mut p, player_uid, Ghost(h0));
    let ghost h1 = h0 + le_bytes(player_uid as nat, 4);
    put_u32(&mut buf, &mut p, 0, Ghost(h1));
    assert(buf@ =~= buf@.subrange(0, 16));
    assert(buf@ == probe_packet_bytes(nonce, player_uid));
    buf
}

} // verus!

verus! {

/// Little-endian u16 at `i`.
pub open spec fn le_u16_at(s: Seq<u8>, i: int) -> u16 {
    (s[i] as int + 256 * s[i + 1] as int) as u16
}

/// Little-endian u32 at `i`.
pub open spec fn le_u32_at(s: Seq<u8>, i: int) -> u32 {
    (s[i] as int + 256 * s[i + 1] as int + 65536 * s[i + 2] as int + 16777216 * s[i + 3] as int) as u32
}

fn read_u16_at(s: &[u8], i: usize) -> (v: u16)
    requires
        i + 2 <= s@.len(),
    ensures
        v == le_u16_at(s@, i as int),
{
    s[i] as u16 + 256 * (s[i + 1] as u16)
}

fn read_u32_at(s: &[u8], i: usize) -> (v: u32)
    requires
        i + 4 <= s@.len(),
    ensures
        v == le_u32_at(s@, i as int),
{
    s[i] as u32 + 256 * (s[i + 1] as u32) + 65536 * (s[i + 2] as u32) + 16777216 * (s[i + 3] as u32)
}

/// Why a ctl request was not acknowledged.
#[derive(Clone, Copy, Debug)]
pub enum CtlError {
    /// The reply was shorter than a header (its length).
    ShortResponse(usize),
    /// A NAK reply without its 8-byte event body (its length).
    ShortNak(usize),
    /// The server refused the request.
    Nak { reason: u32, extra: u32 },
    /// The reply carried an event tag other than ACK (0) or NAK (1).
    UnexpectedTag(u16),
}

/// The outcome of a request given the server's reply bytes.
pub open spec fn spec_interpret_ack(r: Seq<u8>) -> Result<(), CtlError> {
    if r.len() < 8 {
        Err(CtlError::ShortResponse(r.len() as usize))
    } else {
        let tag = le_u16_at(r, 2);
        if tag == 1 {
            if r.len() < 16 {
                Err(CtlError::ShortNak(r.len() as usize))
            } else {
                Err(CtlError::Nak { reason: le_u32_at(r, 8), extra: le_u32_at(r, 12) })
            }
        } else if tag != 0 {
            Err(CtlError::UnexpectedTag(tag))
        } else {
            Ok(())
        }
    }
}

/// Interprets the reply datagram of a ctl request: ACK is success.
pub fn interpret_ack(reply: &[u8]) -> (r: Result<(), CtlError>)
    ensures
        r == spec_interpret_ack(reply@),
{
    let n = reply.len();
    if n < 8 {
        return Err(CtlError::ShortResponse(n));
    }
    let tag = read_u16_at(reply, 2);
    if tag == 1 {
        if n < 16 {
            return Err(CtlError::ShortNak(n));
        }
        let reason = read_u32_at(reply, 8);
        let extra = read_u32_at(reply, 12);
        return Err(CtlError::Nak { reason, extra });
    }
    if tag != 0 {
        return Err(CtlError::UnexpectedTag(tag));
    }
    Ok(())
}

pub open spec fn spec_nak_reason_name(reason: u32) -> Seq<char> {
    if reason == 1 {
        "protocol_version_mismatch"@
    } else if reason == 2 {
        "operation_version_mismatch"@
    } else if reason == 3 {
        "unknown_operation_tag"@
    } else if reason == 4 {
        "invalid_parameter"@
    } else if reason == 5 {
        "no_entry (player not online or entity not found)"@
    } else if reason == 6 {
        "no_space_left"@
    } else {
        "unknown"@
    }
}

/// The name of a NAK reason code.
pub fn nak_reason_name(reason: u32) -> (name: &'static str)
    ensures
        name@ == spec_nak_reason_name(reason),
{
    if reason == 1 {
        "protocol_version_mismatch"
    } else if reason == 2 {
        "operation_version_mismatch"
    } else if reason == 3 {
        "unknown_operation_tag"
    } else if reason == 4 {
        "invalid_parameter"
    } else if reason == 5 {
        "no_entry (player not online or entity not found)"
    } else if reason == 6 {
        "no_space_left"
    } else {
        "unknown"
    }
}

/// Whether a player is on a server, as a probe tells it.
#[derive(Clone, Copy, PartialEq, Eq, Debug, Structural)]
pub enum Presence {
    Online,
    Offline,
    Unreachable,
}

/// A probe reply of at least 16 bytes: ACK means online, NAK `no_entry` (5)
/// means offline; anything else, or no reply, means unreachable.
pub open spec fn spec_probe_presence(reply: Option<Seq<u8>>) -> Presence {
    match reply {
        Some(r) => if r.len() >= 16 {
            let tag = le_u16_at(r, 2);
            if tag == 0 {
                Presence::Online
            } else if tag == 1 {
                if le_u32_at(r, 8) == 5 {
                    Presence::Offline
                } else {
                    Presence::Unreachable
                }
            } else {
                Presence::Unreachable
            }
        } else {
            Presence::Unreachable
        },
        None => Presence::Unreachable,
    }
}

/// Classifies the reply (or its absence) to a presence probe.
pub fn classify_probe_reply(reply: Option<&[u8]>) -> (p: Presence)
    ensures
        p == spec_probe_presence(
            match reply {
                Some(r) => Some(r@),
                None => None,
            },
        ),
{
    match reply {
        Some(r) => {
            if r.len() >= 16 {
                let tag = read_u16_at(r, 2);
                if tag == 0 {
                    Presence::Online
                } else if tag == 1 {
                    if read_u32_at(r, 8) == 5 {
                        Presence::Offline
                    } else {
                        Presence::Unreachable
                    }
                } else {
                    Presence::Unreachable
                }
            } else {
                Presence::Unreachable
            }
        },
        None => Presence::Unreachable,
    }
}

/// Whether a presence means the player can be edited.
pub fn player_is_online(presence: Presence) -> (r: bool)
    ensures
        r == (presence == Presence::Online),
{
    presence == Presence::Online
}

/// Server-wide operations only need the server up: any reply to a probe
/// (sent with the synthetic uid 0) counts.
pub fn server_reachable(reply: Option<&[u8]>) -> (r: bool)
    ensures
        r == reply is Some,
{
    reply.is_some()
}

} // verus!

verus! {

/// How long a probe result stays fresh, in milliseconds.
pub const PROBE_CACHE_TTL_MS: u64 = 10_000;

/// A cached probe result.
pub struct ProbeEntry {
    pub addr: Vec<char>,
    pub player_uid: u32,
    pub presence: Presence,
    pub at_ms: u64,
}

/// Probe results keyed by (server address, player uid), with the time each was taken.
pub struct ProbeCache {
    entries: Vec<ProbeEntry>,
}

/// The latest entry for `key` in `s`.
pub open spec fn cache_lookup(s: Seq<ProbeEntry>, key: (Seq<char>, u32)) -> Option<(Presence, u64)>
    decreases s.len(),
{
    if s.len() == 0 {
        None
    } else if (s.last().addr@, s.last().player_uid) == key {
        Some((s.last().presence, s.last().at_ms))
    } else {
        cache_lookup(s.drop_last(), key)
    }
}

/// Whether a result taken at `at` is still fresh at `now` (a clock that went
/// back counts as no time elapsed).
pub open spec fn is_fresh(at: u64, now: u64) -> bool {
    (if now >= at {
        now - at
    } else {
        0
    }) < PROBE_CACHE_TTL_MS
}

impl ProbeCache {
    /// The cache as a map from (address, uid) to (presence, time taken).
    pub closed spec fn view(&self) -> Map<(Seq<char>, u32), (Presence, u64)> {
        Map::new(
            |k: (Seq<char>, u32)| cache_lookup(self.entries@, k) is Some,
            |k: (Seq<char>, u32)| cache_lookup(self.entries@, k)->0,
        )
    }

    pub fn new() -> (c: Self)
        ensures
            c.view() == Map::<(Seq<char>, u32), (Presence, u64)>::empty(),
    {
        let c = ProbeCache { entries: Vec::new() };
        assert(c.view() =~= Map::<(Seq<char>, u32), (Presence, u64)>::empty());
        c
    }

    fn find(&self, addr: &Vec<char>, player_uid: u32) -> (r: Option<(Presence, u64)>)
        ensures
            r == cache_lookup(self.entries@, (addr@, player_uid)),
    {
        let mut i: usize = self.entries.len();
        assert(self.entries@.subrange(0, i as int) =~= self.entries@);
        while i > 0
            invariant
                i <= self.entries@.len(),
                cache_lookup(self.entries@.subrange(0, i as int), (addr@, player_uid))
                    == cache_lookup(self.entries@, (addr@, player_uid)),
            decreases i,
        {
            let e = &self.entries[i - 1];
            assert(self.entries@.subrange(0, i as int).drop_last() =~= self.entries@.subrange(
                0,
                i - 1,
            ));
            if e.player_uid == player_uid && chars_eq(&e.addr, addr) {
                return Some((e.presence, e.at_ms));
            }
            i = i - 1;
        }
        None
    }

    /// Drops every cached result; done after a successful mutation.
    pub fn invalidate(&mut self)
        ensures
            final(self).view() == Map::<(Seq<char>, u32), (Presence, u64)>::empty(),
    {
        self.entries = Vec::new();
        assert(self.view() =~= Map::<(Seq<char>, u32), (Presence, u64)>::empty());
    }
}

/// The cached presence for (`addr`, `player_uid`) if it is still fresh at `now_ms`.
pub fn cached_presence(cache: &ProbeCache, addr: &str, player_uid: u32, now_ms: u64) -> (r: Option<Presence>)
    ensures
        r == (if cache.view().contains_key((addr@, player_uid)) && is_fresh(
            cache.view()[(addr@, player_uid)].1,
            now_ms,
        ) {
            Some(cache.view()[(addr@, player_uid)].0)
        } else {
            None
        }),
{
    let key = chars_of(addr);
    match cache.find(&key, player_uid) {
        Some((presence, at)) => {
            let elapsed = if now_ms >= at { now_ms - at } else { 0 };
            if elapsed < PROBE_CACHE_TTL_MS {
                Some(presence)
            } else {
                None
            }
        },
        None => None,
    }
}

/// Copies the entries of `s` whose key differs from `key`.
fn entries_without(s: &Vec<ProbeEntry>, addr: &Vec<char>, player_uid: u32) -> (r: Vec<ProbeEntry>)
    ensures
        forall|k: (Seq<char>, u32)|
            #![trigger cache_lookup(r@, k)]
            cache_lookup(r@, k) == if k == (addr@, player_uid) {
                None
            } else {
                cache_lookup(s@, k)
            },
{
    let mut r: Vec<ProbeEntry> = Vec::new();
    let mut i: usize = 0;
    while i < s.len()
        invariant
            i <= s@.len(),
            forall|k: (Seq<char>, u32)|
                #![trigger cache_lookup(r@, k)]
                cache_lookup(r@, k) == if k == (addr@, player_uid) {
                    None
                } else {
                    cache_lookup(s@.subrange(0, i as int), k)
                },
        decreases s.len() - i,
    {
        let e = &s[i];
        let same = e.player_uid == player_uid && chars_eq(&e.addr, addr);
        let ghost before = r@;
        if !same {
            let copy = ProbeEntry {
                addr: sub_chars(&e.addr, 0, e.addr.len()),
                player_uid: e.player_uid,
                presence: e.presence,
                at_ms: e.at_ms,
            };
            assert(e.addr@.subrange(0, e.addr@.len() as int) =~= e.addr@);
            r.push(copy);
            assert(r@.drop_last() =~= before);
        }
        i = i + 1;
        assert(s@.subrange(0, i as int).drop_last() =~= s@.subrange(0, i - 1));
        assert forall|k: (Seq<char>, u32)|
            #![trigger cache_lookup(r@, k)]
            cache_lookup(r@, k) == if k == (addr@, player_uid) {
                None
            } else {
                cache_lookup(s@.subrange(0, i as int), k)
            } by {
            let prev = cache_lookup(before, k);
            assert(s@.subrange(0, i as int).last() == s@[i - 1]);
            if same {
                assert(r@ == before);
            } else {
                assert(r@.last().addr@ == s@[i - 1].addr@);
            }
        }
    }
    assert(s@.subrange(0, s@.len() as int) =~= s@);
    r
}

/// Records the presence probed for (`addr`, `player_uid`) at `now_ms`,
/// replacing any earlier result for that key.
pub fn store_presence(cache: &mut ProbeCache, addr: &str, player_uid: u32, presence: Presence, now_ms: u64)
    ensures
        final(cache).view() == old(cache).view().insert((addr@, player_uid), (presence, now_ms)),
{
    let key = chars_of(addr);
    let mut kept = entries_without(&cache.entries, &key, player_uid);
    let ghost before = kept@;
    kept.push(ProbeEntry { addr: key, player_uid, presence, at_ms: now_ms });
    assert(kept@.drop_last() =~= before);
    let ghost old_view = cache.view();
    let ghost old_entries = cache.entries@;
    cache.entries = kept;
    assert forall|k: (Seq<char>, u32)|
        #![trigger cache_lookup(cache.entries@, k)]
        cache_lookup(cache.entries@, k) == if k == (addr@, player_uid) {
            Some((presence, now_ms))
        } else {
            cache_lookup(old_entries, k)
        } by {
        let prev = cache_lookup(before, k);
    }
    assert(cache.view() =~= old_view.insert((addr@, player_uid), (presence, now_ms)));
}

/// What to do to learn a player's presence: a fresh cached answer, or the
/// probe packet to send.
pub enum PresenceStep {
    Cached(Presence),
    Probe(Vec<u8>),
}

/// The first step of a presence lookup: the cached result if fresh, else a probe to send.
pub fn presence_of(cache: &ProbeCache, addr: &str, player_uid: u32, now_ms: u64) -> (step: PresenceStep)
    ensures
        match step {
            PresenceStep::Cached(p) => cached_presence_spec(cache.view(), addr@, player_uid, now_ms) == Some(p),
            PresenceStep::Probe(packet) => cached_presence_spec(cache.view(), addr@, player_uid, now_ms)
                is None && exists|nonce: u32| packet@ == probe_packet_bytes(nonce, player_uid),
        },
{
    match cached_presence(cache, addr, player_uid, now_ms) {
        Some(p) => PresenceStep::Cached(p),
        None => PresenceStep::Probe(probe_packet(player_uid)),
    }
}

pub open spec fn cached_presence_spec(m: Map<(Seq<char>, u32), (Presence, u64)>, addr: Seq<char>, player_uid: u32, now_ms: u64) -> Option<Presence> {
    if m.contains_key((addr, player_uid)) && is_fresh(m[(addr, player_uid)].1, now_ms) {
        Some(m[(addr, player_uid)].0)
    } else {
        None
    }
}

/// The second step: classifies the probe reply, caches it, and returns it.
pub fn finish_probe(cache: &mut ProbeCache, addr: &str, player_uid: u32, reply: Option<&[u8]>, now_ms: u64) -> (p: Presence)
    ensures
        p == spec_probe_presence(
            match reply {
                Some(r) => Some(r@),
                None => None,
            },
        ),
        final(cache).view() == old(cache).view().insert((addr@, player_uid), (p, now_ms)),
{
    let p = classify_probe_reply(reply);
    store_presence(cache, addr, player_uid, p, now_ms);
    p
}

/// A stored probe result is what a lookup for the same key returns while it
/// is fresh, and other keys keep their results.
pub proof fn law_probe_cache_read_after_write(
    m: Map<(Seq<char>, u32), (Presence, u64)>,
    addr: Seq<char>,
    player_uid: u32,
    presence: Presence,
    at: u64,
    now: u64,
    other_addr: Seq<char>,
    other_uid: u32,
)
    requires
        (other_addr, other_uid) != (addr, player_uid),
    ensures
        is_fresh(at, now) ==> cached_presence_spec(m.insert((addr, player_uid), (presence, at)), addr, player_uid, now) == Some(presence),
        !is_fresh(at, now) ==> cached_presence_spec(m.insert((addr, player_uid), (presence, at)), addr, player_uid, now) is None,
        cached_presence_spec(m.insert((addr, player_uid), (presence, at)), other_addr, other_uid, now)
            == cached_presence_spec(m, other_addr, other_uid, now),
{
}

/// After the cache is emptied (as after a successful mutation), a lookup for
/// any player asks for a fresh probe.
pub proof fn law_invalidated_cache_probes(addr: Seq<char>, player_uid: u32, now: u64)
    ensures
        cached_presence_spec(Map::<(Seq<char>, u32), (Presence, u64)>::empty(), addr, player_uid, now) is None,
{
}

} // verus!

verus! {

/// The text the panel shows for a refused request.
pub open spec fn spec_ctl_error_message(e: CtlError) -> Seq<char> {
    match e {
        CtlError::ShortResponse(n) => "short response: "@ + decimal(n as nat) + " bytes"@,
        CtlError::ShortNak(n) => "short NAK response: "@ + decimal(n as nat) + " bytes"@,
        CtlError::Nak { reason, extra } => "NAK "@ + spec_nak_reason_name(reason) + " (code="@
            + decimal(reason as nat) + ") extra="@ + decimal(extra as nat),
        CtlError::UnexpectedTag(tag) => "unexpected event tag="@ + decimal(tag as nat),
    }
}

impl CtlError {
    /// The error's message.
    pub fn message(&self) -> (m: String)
        ensures
            m@ == spec_ctl_error_message(*self),
    {
        let mut v: Vec<char> = Vec::new();
        match *self {
            CtlError::ShortResponse(n) => {
                extend_str(&mut v, "short response: ");
                push_decimal(&mut v, n as u64);
                extend_str(&mut v, " bytes");
            },
            CtlError::ShortNak(n) => {
                extend_str(&mut v, "short NAK response: ");
                push_decimal(&mut v, n as u64);
                extend_str(&mut v, " bytes");
            },
            CtlError::Nak { reason, extra } => {
                extend_str(&mut v, "NAK ");
                extend_str(&mut v, nak_reason_name(reason));
                extend_str(&mut v, " (code=");
                push_decimal(&mut v, reason as u64);
                extend_str(&mut v, ") extra=");
                push_decimal(&mut v, extra as u64);
            },
            CtlError::UnexpectedTag(tag) => {
                extend_str(&mut v, "unexpected event tag=");
                push_decimal(&mut v, tag as u64);
            },
        }
        assert(v@ =~= spec_ctl_error_message(*self));
        string_of(&v)
    }
}

} // verus!

verus! {

/// The number that the bytes of `s` spell, least significant first.
pub open spec fn le_value(s: Seq<u8>) -> nat
    decreases s.len(),
{
    if s.len() == 0 {
        0
    } else {
        s[0] as nat + 256 * le_value(s.drop_first())
    }
}

/// The little-endian number held by the `n` bytes of `p` from offset `i`.
pub open spec fn le_value_at(p: Seq<u8>, i: int, n: int) -> nat {
    le_value(p.subrange(i, i + n))
}

/// `256` to the power `n`.
pub open spec fn pow256(n: nat) -> nat
    decreases n,
{
    if n == 0 {
        1
    } else {
        256 * pow256((n - 1) as nat)
    }
}

/// Reading back `n` little-endian bytes gives the value written, when it fits.
pub proof fn lemma_le_value_of_le_bytes(v: nat, n: nat)
    requires
        v < pow256(n),
    ensures
        le_value(le_bytes(v, n)) == v,
    decreases n,
{
    if n > 0 {
        let q = v / 256;
        let p = pow256((n - 1) as nat);
        assert(q < p) by (nonlinear_arith)
            requires
                v < 256 * p,
                q == v / 256,
        ;
        lemma_le_value_of_le_bytes(q, (n - 1) as nat);
        let s = le_bytes(v, n);
        assert(s.drop_first() =~= le_bytes(q, (n - 1) as nat));
        assert(s[0] as nat == v % 256);
        assert(v == v % 256 + 256 * q) by (nonlinear_arith)
            requires
                q == v / 256,
        ;
    } else {
        assert(v == 0);
    }
}

proof fn lemma_header_len(op_tag: u16, op_version: u8, nonce: u32)
    ensures
        header_bytes(op_tag, op_version, nonce).len() == 8,
{
    lemma_le_bytes_len(op_tag as nat, 2);
    lemma_le_bytes_len(nonce as nat, 4);
}

/// The bytes of `v` written as `n` little-endian bytes after `pre` read back
/// as `v`, whatever follows them.
proof fn lemma_field_at(p: Seq<u8>, pre: Seq<u8>, v: nat, n: nat, post: Seq<u8>)
    requires
        p == pre + le_bytes(v, n) + post,
        v < pow256(n),
    ensures
        le_value_at(p, pre.len() as int, n as int) == v,
        p.len() == pre.len() + n + post.len(),
{
    lemma_le_bytes_len(v, n);
    assert(p.subrange(pre.len() as int, pre.len() + n as int) =~= le_bytes(v, n));
    lemma_le_value_of_le_bytes(v, n);
}

/// A packet that starts with a header carries the header's version at
/// byte 1 and its operation tag as the LE u16 at byte 2.
proof fn lemma_header_fields(p: Seq<u8>, op_tag: u16, op_version: u8, nonce: u32, post: Seq<u8>)
    requires
        p == header_bytes(op_tag, op_version, nonce) + post,
    ensures
        p[0] == 0,
        p[1] == op_version,
        le_value_at(p, 2, 2) == op_tag as nat,
{
    reveal_with_fuel(pow256, 3);
    lemma_le_bytes_len(op_tag as nat, 2);
    lemma_le_bytes_len(nonce as nat, 4);
    let h = header_bytes(op_tag, op_version, nonce);
    assert(p =~= seq![0u8, op_version] + le_bytes(op_tag as nat, 2) + (le_bytes(nonce as nat, 4) + post));
    lemma_field_at(p, seq![0u8, op_version], op_tag as nat, 2, le_bytes(nonce as nat, 4) + post);
}

/// The weapon meta word is the number `level + 64 * star + 512 * refine` when
/// each field fits its bits.
proof fn lemma_weapon_meta_value(level: u8, star: u8, refine: u8)
    requires
        level < 64,
        star < 8,
        refine < 128,
    ensures
        spec_pack_weapon_meta(level, star, refine) as nat == level as nat + 64 * star as nat + 512 * refine as nat,
{
    let l = level as u16;
    let s = star as u16;
    let r = refine as u16;
    assert((l | (s << 6u16) | (r << 9u16)) == l + s * 64 + r * 512) by (bit_vector)
        requires
            l < 64,
            s < 8,
            r < 128,
    ;
}

/// A modWeapon request is 18 bytes: the player uid at offset 8, the live
/// weapon uid `WEAPON_UID_BASE + weapon_uid_in_save` at offset 12, and at
/// offset 16 the meta word `level + 64 * star + 512 * refine` (star in bits
/// 6..9, refine from bit 9), the same word that createWeapon sends for that
/// level, star and refine.
pub proof fn law_mod_weapon_fields(
    nonce: u32,
    player_uid: u32,
    weapon_uid_in_save: u32,
    level: u8,
    star: u8,
    refine: u8,
    create_nonce: u32,
    item_id: u16,
)
    requires
        WEAPON_UID_BASE + weapon_uid_in_save <= u32::MAX,
        level < 64,
        star < 8,
        refine < 128,
    ensures
        mod_weapon_packet(nonce, player_uid, weapon_uid_in_save, level, star, refine).len() == 18,
        le_value_at(mod_weapon_packet(nonce, player_uid, weapon_uid_in_save, level, star, refine), 2, 2) == 6,
        le_value_at(mod_weapon_packet(nonce, player_uid, weapon_uid_in_save, level, star, refine), 8, 4)
            == player_uid as nat,
        le_value_at(mod_weapon_packet(nonce, player_uid, weapon_uid_in_save, level, star, refine), 12, 4)
            == WEAPON_UID_BASE as nat + weapon_uid_in_save as nat,
        le_value_at(mod_weapon_packet(nonce, player_uid, weapon_uid_in_save, level, star, refine), 16, 2)
            == level as nat + 64 * star as nat + 512 * refine as nat,
        le_value_at(mod_weapon_packet(nonce, player_uid, weapon_uid_in_save, level, star, refine), 16, 2)
            == le_value_at(create_weapon_packet(create_nonce, player_uid, item_id, level, star, refine), 18, 2),
{
    let m = spec_pack_weapon_meta(level, star, refine) as nat;
    let live = (WEAPON_UID_BASE + weapon_uid_in_save) as nat;
    lemma_header_len(6, 0, nonce);
    lemma_header_len(3, 0, create_nonce);
    lemma_le_bytes_len(player_uid as nat, 4);
    lemma_le_bytes_len(live, 4);
    lemma_le_bytes_len(1, 4);
    lemma_le_bytes_len(item_id as nat, 2);
    lemma_le_bytes_len(m, 2);
    reveal_with_fuel(pow256, 5);
    lemma_weapon_meta_value(level, star, refine);
    lemma_le_value_of_le_bytes(player_uid as nat, 4);
    lemma_le_value_of_le_bytes(live, 4);
    lemma_le_value_of_le_bytes(m, 2);
    let p = mod_weapon_packet(nonce, player_uid, weapon_uid_in_save, level, star, refine);
    assert(p =~= header_bytes(6, 0, nonce) + (le_bytes(player_uid as nat, 4) + le_bytes(live, 4) + le_bytes(m, 2)));
    lemma_header_fields(p, 6, 0, nonce, le_bytes(player_uid as nat, 4) + le_bytes(live, 4) + le_bytes(m, 2));
    assert(p.subrange(8, 12) =~= le_bytes(player_uid as nat, 4));
    assert(p.subrange(12, 16) =~= le_bytes(live, 4));
    assert(p.subrange(16, 18) =~= le_bytes(m, 2));
    let c = create_weapon_packet(create_nonce, player_uid, item_id, level, star, refine);
    assert(c.subrange(18, 20) =~= le_bytes(m, 2));
}

/// A deleteEquip request is 16 bytes: the player uid at offset 8 and, at
/// offset 12, the disc's live uid `EQUIP_UID_BASE + equip_uid_in_save`, the
/// same uid that modEquip sends for that disc.
pub proof fn law_delete_equip_fields(
    nonce: u32,
    player_uid: u32,
    equip_uid_in_save: u32,
    mod_nonce: u32,
    level: u8,
    star: u8,
    props: Seq<(u16, u16, u8)>,
)
    requires
        EQUIP_UID_BASE + equip_uid_in_save <= u32::MAX,
    ensures
        delete_equip_packet(nonce, player_uid, equip_uid_in_save).len() == 16,
        le_value_at(delete_equip_packet(nonce, player_uid, equip_uid_in_save), 2, 2) == 9,
        le_value_at(delete_equip_packet(nonce, player_uid, equip_uid_in_save), 8, 4) == player_uid as nat,
        le_value_at(delete_equip_packet(nonce, player_uid, equip_uid_in_save), 12, 4)
            == EQUIP_UID_BASE as nat + equip_uid_in_save as nat,
        le_value_at(delete_equip_packet(nonce, player_uid, equip_uid_in_save), 12, 4)
            == le_value_at(mod_equip_packet(mod_nonce, player_uid, equip_uid_in_save, level, star, props), 12, 4),
{
    let live = (EQUIP_UID_BASE + equip_uid_in_save) as nat;
    lemma_header_len(9, 0, nonce);
    lemma_header_len(7, 0, mod_nonce);
    lemma_le_bytes_len(player_uid as nat, 4);
    lemma_le_bytes_len(live, 4);
    reveal_with_fuel(pow256, 5);
    lemma_le_value_of_le_bytes(player_uid as nat, 4);
    lemma_le_value_of_le_bytes(live, 4);
    let p = delete_equip_packet(nonce, player_uid, equip_uid_in_save);
    assert(p =~= header_bytes(9, 0, nonce) + (le_bytes(player_uid as nat, 4) + le_bytes(live, 4)));
    lemma_header_fields(p, 9, 0, nonce, le_bytes(player_uid as nat, 4) + le_bytes(live, 4));
    assert(p.subrange(8, 12) =~= le_bytes(player_uid as nat, 4));
    assert(p.subrange(12, 16) =~= le_bytes(live, 4));
    let q = mod_equip_packet(mod_nonce, player_uid, equip_uid_in_save, level, star, props);
    assert(q.subrange(12, 16) =~= le_bytes(live, 4));
}


/// A createWeapon request is 20 bytes with tag 3: the player uid at offset 8,
/// a count of 1 at offset 12, the item id at offset 16 and, at offset 18, the
/// meta word `level + 64 * star + 512 * refine`.
pub proof fn law_create_weapon_fields(nonce: u32, player_uid: u32, item_id: u16, level: u8, star: u8, refine: u8)
    requires
        level < 64,
        star < 8,
        refine < 128,
    ensures
        create_weapon_packet(nonce, player_uid, item_id, level, star, refine).len() == 20,
        le_value_at(create_weapon_packet(nonce, player_uid, item_id, level, star, refine), 2, 2) == 3,
        le_value_at(create_weapon_packet(nonce, player_uid, item_id, level, star, refine), 8, 4) == player_uid as nat,
        le_value_at(create_weapon_packet(nonce, player_uid, item_id, level, star, refine), 12, 4) == 1,
        le_value_at(create_weapon_packet(nonce, player_uid, item_id, level, star, refine), 16, 2) == item_id as nat,
        le_value_at(create_weapon_packet(nonce, player_uid, item_id, level, star, refine), 18, 2)
            == level as nat + 64 * star as nat + 512 * refine as nat,
{
    reveal_with_fuel(pow256, 5);
    lemma_weapon_meta_value(level, star, refine);
    lemma_header_len(3, 0, nonce);
    let h = header_bytes(3, 0, nonce);
    let a = le_bytes(player_uid as nat, 4);
    let b = le_bytes(1, 4);
    let c = le_bytes(item_id as nat, 2);
    let m = spec_pack_weapon_meta(level, star, refine) as nat;
    let d = le_bytes(m, 2);
    lemma_le_bytes_len(player_uid as nat, 4);
    lemma_le_bytes_len(1, 4);
    lemma_le_bytes_len(item_id as nat, 2);
    let p = create_weapon_packet(nonce, player_uid, item_id, level, star, refine);
    assert(p =~= h + (a + b + c + d));
    lemma_header_fields(p, 3, 0, nonce, a + b + c + d);
    assert(p =~= h + a + (b + c + d));
    lemma_field_at(p, h, player_uid as nat, 4, b + c + d);
    assert(p =~= (h + a) + b + (c + d));
    lemma_field_at(p, h + a, 1, 4, c + d);
    assert(p =~= (h + a + b) + c + d);
    lemma_field_at(p, h + a + b, item_id as nat, 2, d);
    assert(p =~= (h + a + b + c) + d + Seq::<u8>::empty());
    lemma_field_at(p, h + a + b + c, m, 2, Seq::<u8>::empty());
}

/// A deleteWeapon request is 16 bytes with tag 8: the player uid at offset 8
/// and the live weapon uid `WEAPON_UID_BASE + weapon_uid_in_save` at offset
/// 12, the same uid that modWeapon sends for that W-Engine.
pub proof fn law_delete_weapon_fields(
    nonce: u32,
    player_uid: u32,
    weapon_uid_in_save: u32,
    mod_nonce: u32,
    level: u8,
    star: u8,
    refine: u8,
)
    requires
        WEAPON_UID_BASE + weapon_uid_in_save <= u32::MAX,
    ensures
        delete_weapon_packet(nonce, player_uid, weapon_uid_in_save).len() == 16,
        le_value_at(delete_weapon_packet(nonce, player_uid, weapon_uid_in_save), 2, 2) == 8,
        le_value_at(delete_weapon_packet(nonce, player_uid, weapon_uid_in_save), 8, 4) == player_uid as nat,
        le_value_at(delete_weapon_packet(nonce, player_uid, weapon_uid_in_save), 12, 4)
            == WEAPON_UID_BASE as nat + weapon_uid_in_save as nat,
        le_value_at(delete_weapon_packet(nonce, player_uid, weapon_uid_in_save), 12, 4)
            == le_value_at(mod_weapon_packet(mod_nonce, player_uid, weapon_uid_in_save, level, star, refine), 12, 4),
{
    reveal_with_fuel(pow256, 5);
    let live = (WEAPON_UID_BASE + weapon_uid_in_save) as nat;
    lemma_header_len(8, 0, nonce);
    lemma_header_len(6, 0, mod_nonce);
    lemma_le_bytes_len(player_uid as nat, 4);
    let h = header_bytes(8, 0, nonce);
    let a = le_bytes(player_uid as nat, 4);
    let b = le_bytes(live, 4);
    let p = delete_weapon_packet(nonce, player_uid, weapon_uid_in_save);
    assert(p =~= h + (a + b));
    lemma_header_fields(p, 8, 0, nonce, a + b);
    assert(p =~= h + a + b);
    lemma_field_at(p, h, player_uid as nat, 4, b);
    assert(p =~= h + a + b + Seq::<u8>::empty());
    lemma_field_at(p, h + a, live, 4, Seq::<u8>::empty());
    let h2 = header_bytes(6, 0, mod_nonce);
    let d = le_bytes(spec_pack_weapon_meta(level, star, refine) as nat, 2);
    let q = mod_weapon_packet(mod_nonce, player_uid, weapon_uid_in_save, level, star, refine);
    assert(q =~= (h2 + a) + b + d);
    lemma_field_at(q, h2 + a, live, 4, d);
}

/// A modAvatarMeta request is 25 bytes with tag 2: the value as the LE u64 at
/// offset 8, the player uid at offset 16, the agent id at offset 20 and the
/// field selector in byte 24.
pub proof fn law_avatar_meta_fields(nonce: u32, player_uid: u32, avatar_id: u32, field: u8, value: u64)
    ensures
        avatar_meta_packet(nonce, player_uid, avatar_id, field, value).len() == 25,
        le_value_at(avatar_meta_packet(nonce, player_uid, avatar_id, field, value), 2, 2) == 2,
        le_value_at(avatar_meta_packet(nonce, player_uid, avatar_id, field, value), 8, 8) == value as nat,
        le_value_at(avatar_meta_packet(nonce, player_uid, avatar_id, field, value), 16, 4) == player_uid as nat,
        le_value_at(avatar_meta_packet(nonce, player_uid, avatar_id, field, value), 20, 4) == avatar_id as nat,
        avatar_meta_packet(nonce, player_uid, avatar_id, field, value)[24] == field,
{
    reveal_with_fuel(pow256, 9);
    lemma_header_len(2, 0, nonce);
    let h = header_bytes(2, 0, nonce);
    let a = le_bytes(value as nat, 8);
    let b = le_bytes(player_uid as nat, 4);
    let c = le_bytes(avatar_id as nat, 4);
    let f = seq![field];
    lemma_le_bytes_len(value as nat, 8);
    lemma_le_bytes_len(player_uid as nat, 4);
    lemma_le_bytes_len(avatar_id as nat, 4);
    let p = avatar_meta_packet(nonce, player_uid, avatar_id, field, value);
    assert(p =~= h + (a + b + c + f));
    lemma_header_fields(p, 2, 0, nonce, a + b + c + f);
    assert(p =~= h + a + (b + c + f));
    lemma_field_at(p, h, value as nat, 8, b + c + f);
    assert(p =~= (h + a) + b + (c + f));
    lemma_field_at(p, h + a, player_uid as nat, 4, c + f);
    assert(p =~= (h + a + b) + c + f);
    lemma_field_at(p, h + a + b, avatar_id as nat, 4, f);
    assert(p[24] == f[0]);
}

/// A modHadalZoneSchedule request is 20 bytes with tag 5: a count of 1 at
/// offset 8, the entrance id at offset 12 and the zone id at offset 16.
pub proof fn law_hadal_entrance_fields(nonce: u32, entrance_id: u32, zone_id: u32)
    ensures
        hadal_entrance_packet(nonce, entrance_id, zone_id).len() == 20,
        le_value_at(hadal_entrance_packet(nonce, entrance_id, zone_id), 2, 2) == 5,
        le_value_at(hadal_entrance_packet(nonce, entrance_id, zone_id), 8, 4) == 1,
        le_value_at(hadal_entrance_packet(nonce, entrance_id, zone_id), 12, 4) == entrance_id as nat,
        le_value_at(hadal_entrance_packet(nonce, entrance_id, zone_id), 16, 4) == zone_id as nat,
{
    reveal_with_fuel(pow256, 5);
    lemma_header_len(5, 0, nonce);
    let h = header_bytes(5, 0, nonce);
    let a = le_bytes(1, 4);
    let b = le_bytes(entrance_id as nat, 4);
    let c = le_bytes(zone_id as nat, 4);
    lemma_le_bytes_len(1, 4);
    lemma_le_bytes_len(entrance_id as nat, 4);
    let p = hadal_entrance_packet(nonce, entrance_id, zone_id);
    assert(p =~= h + (a + b + c));
    lemma_header_fields(p, 5, 0, nonce, a + b + c);
    assert(p =~= h + a + (b + c));
    lemma_field_at(p, h, 1, 4, b + c);
    assert(p =~= (h + a) + b + c);
    lemma_field_at(p, h + a, entrance_id as nat, 4, c);
    assert(p =~= (h + a + b) + c + Seq::<u8>::empty());
    lemma_field_at(p, h + a + b, zone_id as nat, 4, Seq::<u8>::empty());
}

/// The presence probe is 16 bytes with tag 3 (createWeapon): the player uid
/// at offset 8 and a count of 0 at offset 12, so it creates nothing.
pub proof fn law_probe_fields(nonce: u32, player_uid: u32)
    ensures
        probe_packet_bytes(nonce, player_uid).len() == 16,
        le_value_at(probe_packet_bytes(nonce, player_uid), 2, 2) == 3,
        le_value_at(probe_packet_bytes(nonce, player_uid), 8, 4) == player_uid as nat,
        le_value_at(probe_packet_bytes(nonce, player_uid), 12, 4) == 0,
{
    reveal_with_fuel(pow256, 5);
    lemma_header_len(3, 0, nonce);
    let h = header_bytes(3, 0, nonce);
    let a = le_bytes(player_uid as nat, 4);
    let b = le_bytes(0, 4);
    lemma_le_bytes_len(player_uid as nat, 4);
    let p = probe_packet_bytes(nonce, player_uid);
    assert(p =~= h + (a + b));
    lemma_header_fields(p, 3, 0, nonce, a + b);
    assert(p =~= h + a + b);
    lemma_field_at(p, h, player_uid as nat, 4, b);
    assert(p =~= h + a + b + Seq::<u8>::empty());
    lemma_field_at(p, h + a, 0, 4, Seq::<u8>::empty());
}

proof fn lemma_props_bytes_at(props: Seq<(u16, u16, u8)>, i: int)
    requires
        0 <= i < props.len(),
    ensures
        props_bytes(props).len() == 4 * props.len(),
        props_bytes(props).subrange(4 * i, 4 * i + 4) == le_bytes(
            spec_pack_equip_property(props[i].0, props[i].1, props[i].2) as nat,
            4,
        ),
    decreases props.len(),
{
    lemma_props_bytes_len(props);
    let d = props.drop_last();
    lemma_props_bytes_len(d);
    let w = le_bytes(spec_pack_equip_property(props.last().0, props.last().1, props.last().2) as nat, 4);
    lemma_le_bytes_len(spec_pack_equip_property(props.last().0, props.last().1, props.last().2) as nat, 4);
    if i < props.len() - 1 {
        lemma_props_bytes_at(d, i);
        assert(props_bytes(props).subrange(4 * i, 4 * i + 4) =~= props_bytes(d).subrange(4 * i, 4 * i + 4));
    } else {
        assert(props_bytes(props).subrange(4 * i, 4 * i + 4) =~= w);
    }
}

/// A disc property word is the number `key + 65536 * base + 2^28 * add` when
/// the base value fits 12 bits and the added rolls 4 bits.
proof fn lemma_equip_property_value(key: u16, base_value: u16, add_value: u8)
    requires
        base_value < 4096,
        add_value < 16,
    ensures
        spec_pack_equip_property(key, base_value, add_value) as nat == key as nat + 65536 * base_value as nat
            + 0x1000_0000 * add_value as nat,
{
    let k = key as u32;
    let b = base_value as u32;
    let a = add_value as u32;
    assert((k | (b << 16u32) | (a << 28u32)) == k + b * 65536 + a * 0x1000_0000) by (bit_vector)
        requires
            k < 65536,
            b < 4096,
            a < 16,
    ;
}

/// A modEquip request is 38 bytes with tag 7: the player uid at offset 8, the
/// disc's live uid `EQUIP_UID_BASE + equip_uid_in_save` at offset 12, the
/// level in byte 16, the star in byte 17, and from offset 18 the five
/// property words in order, each `key + 65536 * base + 2^28 * add`.
pub proof fn law_mod_equip_fields(
    nonce: u32,
    player_uid: u32,
    equip_uid_in_save: u32,
    level: u8,
    star: u8,
    props: Seq<(u16, u16, u8)>,
)
    requires
        EQUIP_UID_BASE + equip_uid_in_save <= u32::MAX,
        props.len() == 5,
        forall|i: int| 0 <= i < 5 ==> (#[trigger] props[i]).1 < 4096 && props[i].2 < 16,
    ensures
        mod_equip_packet(nonce, player_uid, equip_uid_in_save, level, star, props).len() == 38,
        le_value_at(mod_equip_packet(nonce, player_uid, equip_uid_in_save, level, star, props), 2, 2) == 7,
        le_value_at(mod_equip_packet(nonce, player_uid, equip_uid_in_save, level, star, props), 8, 4)
            == player_uid as nat,
        le_value_at(mod_equip_packet(nonce, player_uid, equip_uid_in_save, level, star, props), 12, 4)
            == EQUIP_UID_BASE as nat + equip_uid_in_save as nat,
        mod_equip_packet(nonce, player_uid, equip_uid_in_save, level, star, props)[16] == level,
        mod_equip_packet(nonce, player_uid, equip_uid_in_save, level, star, props)[17] == star,
        forall|i: int|
            0 <= i < 5 ==> le_value_at(mod_equip_packet(nonce, player_uid, equip_uid_in_save, level, star, props), 18 + 4 * i, 4)
                == (#[trigger] props[i]).0 as nat + 65536 * props[i].1 as nat + 0x1000_0000 * props[i].2 as nat,
{
    reveal_with_fuel(pow256, 5);
    let live = (EQUIP_UID_BASE + equip_uid_in_save) as nat;
    lemma_header_len(7, 0, nonce);
    lemma_props_bytes_len(props);
    let h = header_bytes(7, 0, nonce);
    let a = le_bytes(player_uid as nat, 4);
    let b = le_bytes(live, 4);
    let c = seq![level, star];
    let r = props_bytes(props);
    lemma_le_bytes_len(player_uid as nat, 4);
    lemma_le_bytes_len(live, 4);
    let p = mod_equip_packet(nonce, player_uid, equip_uid_in_save, level, star, props);
    assert(p =~= h + (a + b + c + r));
    lemma_header_fields(p, 7, 0, nonce, a + b + c + r);
    assert(p =~= h + a + (b + c + r));
    lemma_field_at(p, h, player_uid as nat, 4, b + c + r);
    assert(p =~= (h + a) + b + (c + r));
    lemma_field_at(p, h + a, live, 4, c + r);
    assert(p[16] == c[0] && p[17] == c[1]);
    assert forall|i: int| 0 <= i < 5 implies le_value_at(p, 18 + 4 * i, 4) == (#[trigger] props[i]).0 as nat + 65536
        * props[i].1 as nat + 0x1000_0000 * props[i].2 as nat by {
        let w = spec_pack_equip_property(props[i].0, props[i].1, props[i].2) as nat;
        lemma_props_bytes_at(props, i);
        lemma_equip_property_value(props[i].0, props[i].1, props[i].2);
        lemma_le_value_of_le_bytes(w, 4);
        assert(p.subrange(18 + 4 * i, 18 + 4 * i + 4) =~= r.subrange(4 * i, 4 * i + 4));
    }
}

/// A createEquip request is 40 bytes with tag 4: the player uid at offset 8,
/// a count of 1 at offset 12, the five property words from offset 16, the
/// item id at offset 36 and the meta word `level + 16 * star` at offset 38.
pub proof fn law_create_equip_fields(nonce: u32, player_uid: u32, item_id: u16, level: u8, star: u8, props: Seq<(u16, u16, u8)>)
    requires
        props.len() == 5,
        forall|i: int| 0 <= i < 5 ==> (#[trigger] props[i]).1 < 4096 && props[i].2 < 16,
        level < 16,
    ensures
        create_equip_packet(nonce, player_uid, item_id, level, star, props).len() == 40,
        le_value_at(create_equip_packet(nonce, player_uid, item_id, level, star, props), 2, 2) == 4,
        le_value_at(create_equip_packet(nonce, player_uid, item_id, level, star, props), 8, 4) == player_uid as nat,
        le_value_at(create_equip_packet(nonce, player_uid, item_id, level, star, props), 12, 4) == 1,
        forall|i: int|
            0 <= i < 5 ==> le_value_at(create_equip_packet(nonce, player_uid, item_id, level, star, props), 16 + 4 * i, 4)
                == (#[trigger] props[i]).0 as nat + 65536 * props[i].1 as nat + 0x1000_0000 * props[i].2 as nat,
        le_value_at(create_equip_packet(nonce, player_uid, item_id, level, star, props), 36, 2) == item_id as nat,
        le_value_at(create_equip_packet(nonce, player_uid, item_id, level, star, props), 38, 2)
            == level as nat + 16 * star as nat,
{
    reveal_with_fuel(pow256, 5);
    lemma_header_len(4, 0, nonce);
    lemma_props_bytes_len(props);
    let h = header_bytes(4, 0, nonce);
    let a = le_bytes(player_uid as nat, 4);
    let b = le_bytes(1, 4);
    let r = props_bytes(props);
    let c = le_bytes(item_id as nat, 2);
    let m = spec_pack_equip_meta(level, star) as nat;
    let d = le_bytes(m, 2);
    lemma_le_bytes_len(player_uid as nat, 4);
    lemma_le_bytes_len(1, 4);
    lemma_le_bytes_len(item_id as nat, 2);
    let l = level as u16;
    let st = star as u16;
    assert((l | (st << 4u16)) == l + st * 16) by (bit_vector)
        requires
            l < 16,
            st < 256,
    ;
    let p = create_equip_packet(nonce, player_uid, item_id, level, star, props);
    assert(p =~= h + (a + b + r + c + d));
    lemma_header_fields(p, 4, 0, nonce, a + b + r + c + d);
    assert(p =~= h + a + (b + r + c + d));
    lemma_field_at(p, h, player_uid as nat, 4, b + r + c + d);
    assert(p =~= (h + a) + b + (r + c + d));
    lemma_field_at(p, h + a, 1, 4, r + c + d);
    assert(p =~= (h + a + b + r) + c + d);
    lemma_field_at(p, h + a + b + r, item_id as nat, 2, d);
    assert(p =~= (h + a + b + r + c) + d + Seq::<u8>::empty());
    lemma_field_at(p, h + a + b + r + c, m, 2, Seq::<u8>::empty());
    assert forall|i: int| 0 <= i < 5 implies le_value_at(p, 16 + 4 * i, 4) == (#[trigger] props[i]).0 as nat + 65536
        * props[i].1 as nat + 0x1000_0000 * props[i].2 as nat by {
        let w = spec_pack_equip_property(props[i].0, props[i].1, props[i].2) as nat;
        lemma_props_bytes_at(props, i);
        lemma_equip_property_value(props[i].0, props[i].1, props[i].2);
        lemma_le_value_of_le_bytes(w, 4);
        assert(p.subrange(16 + 4 * i, 16 + 4 * i + 4) =~= r.subrange(4 * i, 4 * i + 4));
    }
}
} // verus!
