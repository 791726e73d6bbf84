use gear_editor::ctl::{
    cached_presence, classify_probe_reply, create_equip, create_weapon, delete_equip,
    delete_weapon, finish_probe, interpret_ack, mod_avatar_meta, mod_equip, mod_hadal_entrance,
    mod_weapon, nak_reason_name, pack_equip_meta, pack_equip_property, pack_weapon_meta,
    player_is_online, presence_of, probe_packet, server_reachable, store_presence, CtlError,
    Presence, PresenceStep, ProbeCache,
};

fn u16_at(b: &[u8], i: usize) -> u16 {
    u16::from_le_bytes([b[i], b[i + 1]])
}

fn u32_at(b: &[u8], i: usize) -> u32 {
    u32::from_le_bytes([b[i], b[i + 1], b[i + 2], b[i + 3]])
}

fn reply(tag: u8, reason: u8) -> [u8; 16] {
    let mut rsp = [0u8; 16];
    rsp[2] = tag;
    rsp[8] = reason;
    rsp
}

#[test]
fn probe_classifies_online_offline_unreachable() {
    // ACK (online)
    let ack = reply(0, 0);
    assert_eq!(classify_probe_reply(Some(&ack[..])), Presence::Online);
    // NAK no_entry (offline)
    let nak = reply(1, 5);
    assert_eq!(classify_probe_reply(Some(&nak[..])), Presence::Offline);
    // No reply -> unreachable
    assert_eq!(classify_probe_reply(None), Presence::Unreachable);
}

#[test]
fn probe_reply_other_cases_are_unreachable() {
    let nak_other = reply(1, 4);
    assert_eq!(classify_probe_reply(Some(&nak_other[..])), Presence::Unreachable);
    let odd_tag = reply(7, 0);
    assert_eq!(classify_probe_reply(Some(&odd_tag[..])), Presence::Unreachable);
    let short = [0u8; 8];
    assert_eq!(classify_probe_reply(Some(&short[..])), Presence::Unreachable);
    assert!(player_is_online(Presence::Online));
    assert!(!player_is_online(Presence::Offline));
    assert!(server_reachable(Some(&short[..])));
    assert!(!server_reachable(None));
}

#[test]
fn probe_packet_layout() {
    let p = probe_packet(42);
    assert_eq!(p.len(), 16);
    assert_eq!(p[0], 0);
    assert_eq!(p[1], 0);
    assert_eq!(u16_at(&p, 2), 3);
    assert_eq!(u32_at(&p, 8), 42);
    assert_eq!(u32_at(&p, 12), 0);
}

#[test]
fn mod_avatar_meta_layout() {
    let p = mod_avatar_meta(100, 1011, 5, 0x0000_000c_0000_0002);
    assert_eq!(p.len(), 25);
    assert_eq!(u16_at(&p, 2), 2);
    assert_eq!(u64::from_le_bytes(p[8..16].try_into().unwrap()), 0x0000_000c_0000_0002);
    assert_eq!(u32_at(&p, 16), 100);
    assert_eq!(u32_at(&p, 20), 1011);
    assert_eq!(p[24], 5);
}

#[test]
fn weapon_packets_layout() {
    let c = create_weapon(7, 14102, 60, 5, 3);
    assert_eq!(c.len(), 20);
    assert_eq!(u16_at(&c, 2), 3);
    assert_eq!(u32_at(&c, 8), 7);
    assert_eq!(u32_at(&c, 12), 1);
    assert_eq!(u16_at(&c, 16), 14102);
    assert_eq!(u16_at(&c, 18), pack_weapon_meta(60, 5, 3));
    let m = mod_weapon(7, 12, 50, 5, 2);
    assert_eq!(m.len(), 18);
    assert_eq!(u16_at(&m, 2), 6);
    assert_eq!(u32_at(&m, 12), 0x01_00_00 + 12);
    let d = delete_weapon(7, 12);
    assert_eq!(d.len(), 16);
    assert_eq!(u16_at(&d, 2), 8);
    assert_eq!(u32_at(&d, 12), 0x01_00_00 + 12);
}

#[test]
fn equip_packets_layout() {
    let props = [(11103u16, 550u16, 0u8), (20103, 240, 2), (0, 0, 0), (0, 0, 0), (0, 0, 0)];
    let c = create_equip(9, 31041, 15, 1, &props);
    assert_eq!(c.len(), 40);
    assert_eq!(u16_at(&c, 2), 4);
    assert_eq!(u32_at(&c, 16), pack_equip_property(11103, 550, 0));
    assert_eq!(u32_at(&c, 20), pack_equip_property(20103, 240, 2));
    assert_eq!(u16_at(&c, 36), 31041);
    assert_eq!(u16_at(&c, 38), pack_equip_meta(15, 1));
    let m = mod_equip(9, 3, 15, 2, &props);
    assert_eq!(m.len(), 38);
    assert_eq!(u16_at(&m, 2), 7);
    assert_eq!(u32_at(&m, 12), 0x02_00_00 + 3);
    assert_eq!(m[16], 15);
    assert_eq!(m[17], 2);
    let d = delete_equip(9, 3);
    assert_eq!(d.len(), 16);
    assert_eq!(u16_at(&d, 2), 9);
    let h = mod_hadal_entrance(2, 61001);
    assert_eq!(h.len(), 20);
    assert_eq!(u16_at(&h, 2), 5);
    assert_eq!(u32_at(&h, 8), 1);
    assert_eq!(u32_at(&h, 12), 2);
    assert_eq!(u32_at(&h, 16), 61001);
}

#[test]
fn packing_formulas() {
    assert_eq!(pack_weapon_meta(60, 5, 3), 60 | (5 << 6) | (3 << 9));
    assert_eq!(pack_equip_meta(15, 1), 15 | (1 << 4));
    assert_eq!(pack_equip_property(11103, 550, 2), 11103 | (550 << 16) | (2 << 28));
}

#[test]
fn ack_interpretation() {
    let ack = reply(0, 0);
    assert!(interpret_ack(&ack[..]).is_ok());
    let nak = reply(1, 5);
    match interpret_ack(&nak[..]) {
        Err(CtlError::Nak { reason, extra }) => {
            assert_eq!(reason, 5);
            assert_eq!(extra, 0);
        }
        other => panic!("unexpected {:?}", other),
    }
    match interpret_ack(&ack[..4]) {
        Err(CtlError::ShortResponse(n)) => assert_eq!(n, 4),
        other => panic!("unexpected {:?}", other),
    }
    match interpret_ack(&nak[..10]) {
        Err(CtlError::ShortNak(n)) => assert_eq!(n, 10),
        other => panic!("unexpected {:?}", other),
    }
    let odd = reply(3, 0);
    match interpret_ack(&odd[..]) {
        Err(CtlError::UnexpectedTag(t)) => assert_eq!(t, 3),
        other => panic!("unexpected {:?}", other),
    }
}

#[test]
fn error_messages() {
    assert_eq!(CtlError::ShortResponse(4).message(), "short response: 4 bytes");
    assert_eq!(CtlError::ShortNak(10).message(), "short NAK response: 10 bytes");
    assert_eq!(
        CtlError::Nak { reason: 5, extra: 7 }.message(),
        "NAK no_entry (player not online or entity not found) (code=5) extra=7"
    );
    assert_eq!(CtlError::UnexpectedTag(3).message(), "unexpected event tag=3");
    assert_eq!(nak_reason_name(1), "protocol_version_mismatch");
    assert_eq!(nak_reason_name(99), "unknown");
}

#[test]
fn probe_cache_read_after_write() {
    let mut cache = ProbeCache::new();
    assert_eq!(cached_presence(&cache, "127.0.0.1:15811", 1, 1000), None);
    store_presence(&mut cache, "127.0.0.1:15811", 1, Presence::Online, 1000);
    assert_eq!(cached_presence(&cache, "127.0.0.1:15811", 1, 5000), Some(Presence::Online));
    assert_eq!(cached_presence(&cache, "127.0.0.1:15811", 2, 5000), None);
    // ten seconds later the result is stale
    assert_eq!(cached_presence(&cache, "127.0.0.1:15811", 1, 11000), None);
    store_presence(&mut cache, "127.0.0.1:15811", 1, Presence::Offline, 12000);
    assert_eq!(cached_presence(&cache, "127.0.0.1:15811", 1, 12001), Some(Presence::Offline));
    cache.invalidate();
    assert_eq!(cached_presence(&cache, "127.0.0.1:15811", 1, 12001), None);
}

#[test]
fn presence_lookup_in_two_steps() {
    let mut cache = ProbeCache::new();
    match presence_of(&cache, "a", 5, 0) {
        PresenceStep::Probe(packet) => assert_eq!(u32_at(&packet, 8), 5),
        PresenceStep::Cached(_) => panic!("empty cache"),
    }
    let nak = reply(1, 5);
    assert_eq!(finish_probe(&mut cache, "a", 5, Some(&nak[..]), 0), Presence::Offline);
    match presence_of(&cache, "a", 5, 100) {
        PresenceStep::Cached(p) => assert_eq!(p, Presence::Offline),
        PresenceStep::Probe(_) => panic!("fresh result expected"),
    }
}
