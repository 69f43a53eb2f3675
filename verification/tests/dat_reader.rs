use client_assets::dat_reader::{dat_header, DatError, DatFormat, LegacyCategory, LegacyDatReader};

fn u16le(v: u16) -> [u8; 2] {
    v.to_le_bytes()
}

fn header(objects: u16, outfits: u16) -> Vec<u8> {
    let mut d = vec![0xA3, 0x42, 0x00, 0x00];
    d.extend_from_slice(&u16le(objects));
    d.extend_from_slice(&u16le(outfits));
    d.extend_from_slice(&u16le(0));
    d.extend_from_slice(&u16le(0));
    d
}

/// One simple 1x1 group with a single extended sprite id.
fn simple_group(d: &mut Vec<u8>, sprite: u32) {
    d.extend_from_slice(&[1, 1, 1, 1, 1, 1, 1]);
    d.extend_from_slice(&sprite.to_le_bytes());
}

fn v6() -> DatFormat {
    DatFormat { structure: 6, is_extended: true, has_frame_groups: false, has_improved_animations: false }
}

#[test]
fn reads_one_item_with_flags_and_a_group() {
    let mut d = header(100, 0);
    d.extend_from_slice(&[0x00, 150, 0, 0x04, 0xFF]);
    simple_group(&mut d, 7);
    let r = LegacyDatReader::from_bytes(&d, v6()).unwrap();
    assert_eq!(r.signature, 0x42A3);
    assert_eq!(r.object_count, 100);
    assert_eq!(r.objects.len(), 1);
    let t = &r.objects[0];
    assert_eq!(t.id, 100);
    assert_eq!(t.category, LegacyCategory::Item);
    assert!(t.is_ground);
    assert_eq!(t.ground_speed, 150);
    assert!(t.is_container);
    assert!(!t.is_stackable);
    assert_eq!(t.frame_groups.len(), 1);
    let g = &t.frame_groups[0];
    assert_eq!(g.exact_size, 32);
    assert_eq!(g.sprite_ids, vec![7]);
    assert!(!g.is_animation);
}

#[test]
fn reads_market_light_and_offset() {
    let mut d = header(100, 0);
    d.push(0x22);
    for v in [3u16, 100, 101, 3] {
        d.extend_from_slice(&u16le(v));
    }
    d.extend_from_slice(b"axe");
    d.extend_from_slice(&u16le(4));
    d.extend_from_slice(&u16le(20));
    d.push(0x16);
    d.extend_from_slice(&u16le(7));
    d.extend_from_slice(&u16le(215));
    d.push(0x19);
    d.extend_from_slice(&(-4i16).to_le_bytes());
    d.extend_from_slice(&(8i16).to_le_bytes());
    d.push(0xFF);
    simple_group(&mut d, 1);
    let r = LegacyDatReader::from_bytes(&d, v6()).unwrap();
    let t = &r.objects[0];
    assert!(t.is_market_item);
    assert_eq!(t.market.name, "axe");
    assert_eq!(t.market.trade_as, 100);
    assert_eq!(t.market.restrict_level, 20);
    assert!(t.has_light);
    assert_eq!((t.light.level, t.light.color), (7, 215));
    assert!(t.has_offset);
    assert_eq!((t.offset.x, t.offset.y), (-4, 8));
}

#[test]
fn animated_item_gets_default_durations() {
    let mut d = header(100, 0);
    d.push(0xFF);
    d.extend_from_slice(&[1, 1, 1, 1, 1, 1, 3]);
    for s in [1u32, 2, 3] {
        d.extend_from_slice(&s.to_le_bytes());
    }
    let r = LegacyDatReader::from_bytes(&d, v6()).unwrap();
    let g = &r.objects[0].frame_groups[0];
    assert!(g.is_animation);
    assert_eq!(g.frame_durations.len(), 3);
    assert_eq!((g.frame_durations[0].min, g.frame_durations[0].max), (100, 100));
    assert_eq!(g.sprite_ids, vec![1, 2, 3]);
}

#[test]
fn outfit_frame_groups_are_typed() {
    let mut d = header(99, 1);
    d.push(0xFF);
    d.push(2);
    for ty in [0u8, 1] {
        d.push(ty);
        simple_group(&mut d, 9);
    }
    let f = DatFormat { structure: 6, is_extended: true, has_frame_groups: true, has_improved_animations: false };
    let r = LegacyDatReader::from_bytes(&d, f).unwrap();
    assert_eq!(r.objects.len(), 0);
    assert_eq!(r.outfits.len(), 1);
    assert_eq!(r.outfits[0].category, LegacyCategory::Outfit);
    assert_eq!(r.outfits[0].frame_groups[1].group_type, 1);
}

#[test]
fn short_file_is_too_small() {
    assert_eq!(LegacyDatReader::from_bytes(&[0u8; 5], v6()).err(), Some(DatError::FileTooSmall));
}

#[test]
fn errors_name_their_cause() {
    let old = DatFormat { structure: 1, is_extended: false, has_frame_groups: false, has_improved_animations: false };
    let mut d = header(100, 0);
    d.extend_from_slice(&[0x30, 0xFF]);
    simple_group(&mut d, 1);
    assert_eq!(LegacyDatReader::try_parse_bytes(&d, old).err(), Some(DatError::UnknownFlag { flag: 0x30, structure: 1 }));

    let mut d = header(100, 0);
    d.extend_from_slice(&[0x04; 130]);
    assert_eq!(LegacyDatReader::try_parse_bytes(&d, v6()).err(), Some(DatError::TooManyAttributes { id: 100 }));

    let mut d = header(100, 0);
    d.push(0xFF);
    d.extend_from_slice(&[0, 1, 1, 1, 1, 1, 1]);
    assert_eq!(LegacyDatReader::try_parse_bytes(&d, v6()).err(), Some(DatError::InvalidSpriteCount { id: 100 }));

    let mut d = header(99, 1);
    d.extend_from_slice(&[0xFF, 5]);
    let f = DatFormat { structure: 6, is_extended: true, has_frame_groups: true, has_improved_animations: false };
    assert_eq!(LegacyDatReader::try_parse_bytes(&d, f).err(), Some(DatError::InvalidGroupCount { id: 1, count: 5 }));

    let mut d = header(100, 0);
    d.push(0x22);
    for v in [1u16, 2, 3, 513] {
        d.extend_from_slice(&u16le(v));
    }
    assert_eq!(LegacyDatReader::try_parse_bytes(&d, v6()).err(), Some(DatError::InvalidMarketNameLength { len: 513 }));

    let mut d = header(100, 0);
    d.extend_from_slice(&[0x00, 1]);
    assert_eq!(LegacyDatReader::try_parse_bytes(&d, v6()).err(), Some(DatError::UnexpectedEof));
}

#[test]
fn unknown_flag_falls_back_to_another_structure() {
    let old = DatFormat { structure: 1, is_extended: true, has_frame_groups: false, has_improved_animations: false };
    let mut d = header(100, 0);
    d.extend_from_slice(&[0x30, 0xFF]);
    simple_group(&mut d, 1);
    let r = LegacyDatReader::from_bytes(&d, old).unwrap();
    assert_eq!(r.structure, 6);
    assert_eq!(r.objects.len(), 1);
}

#[test]
fn header_fields() {
    let d = header(120, 3);
    assert_eq!(dat_header(&d), Ok((0x42A3, 120, 3, 0, 0)));
    assert_eq!(dat_header(&d[..7]), Err(DatError::UnexpectedEof));
}
