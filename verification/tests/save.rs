use gear_editor::save::{
    decode_avatar_save, decode_equip_property, decode_equip_save, decode_player_save,
    decode_varint_list, read_ld, read_varint, skip_field,
};

fn varint_bytes(mut v: u32) -> Vec<u8> {
    let mut out = Vec::new();
    loop {
        let b = (v & 0x7f) as u8;
        v >>= 7;
        if v != 0 {
            out.push(b | 0x80);
        } else {
            out.push(b);
            break;
        }
    }
    out
}

#[test]
fn avatar_skill_levels_decode_repeated_wire0() {
    let mut item = Vec::new();
    for &v in &[12u32, 12, 12, 12, 12, 7, 12] {
        item.extend_from_slice(&[(8u8 << 3) | 0]);
        item.extend_from_slice(&[v as u8]);
    }
    let save = decode_avatar_save(&item);
    assert_eq!(save.skill_levels, vec![12, 12, 12, 12, 12, 7, 12]);
}

#[test]
fn avatar_skill_levels_decode_packed_wire2() {
    let values = [12u8, 12, 12, 12, 12, 7, 12];
    let mut item = vec![(8u8 << 3) | 2, values.len() as u8];
    item.extend_from_slice(&values);
    let save = decode_avatar_save(&item);
    assert_eq!(save.skill_levels, vec![12, 12, 12, 12, 12, 7, 12]);
}

#[test]
fn avatar_equipment_uids_decode_repeated_wire0() {
    let mut item = Vec::new();
    for &v in &[1001u32, 2002] {
        item.extend_from_slice(&[(11u8 << 3) | 0]);
        item.extend_from_slice(&varint_bytes(v));
    }
    let save = decode_avatar_save(&item);
    assert_eq!(save.equipment_uids, vec![1001, 2002]);
}

#[test]
fn equip_save_decodes_repeated_property_fields() {
    let item: Vec<u8> = vec![
        0x08, 0x00, 0x10, 0xC1, 0x8B, 0x02, 0x18, 0x0F, 0x20, 0x01,
        0x2A, 0x08, 0x08, 0xDF, 0x56, 0x10, 0xA6, 0x04, 0x18, 0x00,
        0x2A, 0x09, 0x08, 0x87, 0x9D, 0x01, 0x10, 0xF0, 0x01, 0x18, 0x06,
        0x2A, 0x08, 0x08, 0xAE, 0x66, 0x10, 0xE0, 0x03, 0x18, 0x01,
        0x2A, 0x07, 0x08, 0xAF, 0x66, 0x10, 0x0F, 0x18, 0x01,
        0x2A, 0x08, 0x08, 0xA3, 0xB5, 0x01, 0x10, 0x09, 0x18, 0x01,
    ];
    let save = decode_equip_save(&item);
    assert_eq!(save.uid, 0);
    assert_eq!(save.id, 34241);
    assert_eq!(save.level, 15);
    assert_eq!(save.star, 1);
    assert_eq!(save.properties.len(), 5);
    assert_eq!(save.properties[0].key, 11103);
    assert_eq!(save.properties[0].base_value, 550);
    assert_eq!(save.properties[0].add_value, 0);
    assert_eq!(save.properties[1].key, 20103);
    assert_eq!(save.properties[1].base_value, 240);
    assert_eq!(save.properties[1].add_value, 6);
    assert_eq!(save.properties[2].key, 13102);
    assert_eq!(save.properties[3].key, 13103);
    assert_eq!(save.properties[4].key, 23203);
}

#[test]
fn varint_reads_multi_byte_values() {
    assert_eq!(read_varint(&[0xC1, 0x8B, 0x02], 0), Some((34241, 3)));
    assert_eq!(read_varint(&[0x00, 0x96, 0x01], 1), Some((150, 3)));
    assert_eq!(read_varint(&[0x80, 0x80], 0), None);
    assert_eq!(read_varint(&[], 0), None);
    let max = [0xFF, 0xFF, 0xFF, 0xFF, 0xFF, 0xFF, 0xFF, 0xFF, 0xFF, 0x01];
    assert_eq!(read_varint(&max, 0), Some((u64::MAX, 10)));
}

#[test]
fn length_delimited_and_skips() {
    let buf = [0x03, 1, 2, 3, 9];
    let (sub, end) = read_ld(&buf, 0).unwrap();
    assert_eq!(sub, &[1, 2, 3]);
    assert_eq!(end, 4);
    assert!(read_ld(&[0x05, 1], 0).is_none());
    let mut pos = 0usize;
    assert!(skip_field(0, &[0x96, 0x01, 0x07], &mut pos));
    assert_eq!(pos, 2);
    let mut pos = 0usize;
    assert!(skip_field(2, &[0x02, 7, 7, 1], &mut pos));
    assert_eq!(pos, 3);
    let mut pos = 0usize;
    assert!(!skip_field(5, &[0x02], &mut pos));
    let mut pos = 0usize;
    assert!(!skip_field(2, &[0x09, 1], &mut pos));
}

#[test]
fn packed_list_and_property() {
    assert_eq!(decode_varint_list(&[1, 0xAC, 0x02, 3]), vec![1, 300, 3]);
    let p = decode_equip_property(&[0x08, 0x05, 0x10, 0x06, 0x18, 0x07]);
    assert_eq!((p.key, p.base_value, p.add_value), (5, 6, 7));
}

#[test]
fn player_save_top_level() {
    // basic {level 60}, weapon list with one weapon {uid 3, id 14001}, hall {section 2}
    let weapon = [0x08, 0x03, 0x10, 0xB1, 0x6D];
    let mut weapon_list = vec![0x0A, weapon.len() as u8];
    weapon_list.extend_from_slice(&weapon);
    let mut buf = vec![0x0A, 0x02, 0x08, 60];
    buf.push(0x1A);
    buf.push(weapon_list.len() as u8);
    buf.extend_from_slice(&weapon_list);
    buf.extend_from_slice(&[0x32, 0x02, 0x08, 0x02]);
    buf.extend_from_slice(&[0x38, 0x05]); // unknown varint field 7 is skipped
    let save = decode_player_save(&buf).unwrap();
    assert_eq!(save.basic.unwrap().level, 60);
    assert_eq!(save.weapon.len(), 1);
    assert_eq!(save.weapon[0].uid, 3);
    assert_eq!(save.weapon[0].id, 14001);
    assert_eq!(save.hall.unwrap().section_id, 2);
    assert!(save.avatar.is_empty());
    // a wire type that cannot be skipped makes the top level unreadable
    assert!(decode_player_save(&[0x0D, 0, 0, 0, 0]).is_none());
    // a truncated sub-message too
    assert!(decode_player_save(&[0x0A, 0x05, 0x08]).is_none());
}

#[test]
fn varint_encodings_read_back() {
    for v in [0u32, 1, 127, 128, 300, 16_383, 16_384, 2_000_000, u32::MAX] {
        let mut buf = vec![0xAA, 0xBB];
        let enc = varint_bytes(v);
        buf.extend_from_slice(&enc);
        buf.push(0x07);
        assert_eq!(read_varint(&buf, 2), Some((v as u64, 2 + enc.len())));
    }
}
