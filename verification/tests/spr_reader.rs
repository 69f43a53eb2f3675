use client_assets::spr_reader::{decode_sprite_rle, inspect_spr_header, LegacySprReader, SprError, SPRITE_RGBA_BYTES};

#[test]
fn test_empty_sprite_rle() {
    let dummy = vec![0u8; 100];
    let res = decode_sprite_rle(&dummy, 0, false).unwrap();
    assert_eq!(res.len(), SPRITE_RGBA_BYTES);
    assert!(res.iter().all(|&b| b == 0));
}

fn one_sprite_file() -> Vec<u8> {
    let mut d = vec![0x11, 0x22, 0x33, 0x44];
    d.extend_from_slice(&1u16.to_le_bytes());
    d.extend_from_slice(&10u32.to_le_bytes());
    d.extend_from_slice(&[0xFF, 0x00, 0xFF]);
    d.extend_from_slice(&7u16.to_le_bytes());
    d.extend_from_slice(&2u16.to_le_bytes());
    d.extend_from_slice(&1u16.to_le_bytes());
    d.extend_from_slice(&[10, 20, 30]);
    d
}

#[test]
fn decodes_a_run_after_transparent_pixels() {
    let r = LegacySprReader::from_bytes(one_sprite_file(), false, false).unwrap();
    assert_eq!(r.signature, 0x44332211);
    assert_eq!(r.sprite_count, 1);
    assert_eq!(r.offsets, vec![10]);
    let s = r.decode_sprite(1).unwrap();
    assert_eq!(s.id, 1);
    assert_eq!(&s.rgba[8..12], &[10, 20, 30, 255]);
    assert!(s.rgba[..8].iter().all(|&b| b == 0));
    assert!(s.rgba[12..].iter().all(|&b| b == 0));
}

#[test]
fn sprite_errors() {
    let r = LegacySprReader::from_bytes(one_sprite_file(), false, false).unwrap();
    assert_eq!(r.decode_sprite(0).err(), Some(SprError::IdOutOfRange { id: 0, count: 1 }));
    assert_eq!(r.decode_sprite(2).err(), Some(SprError::IdOutOfRange { id: 2, count: 1 }));
    assert_eq!(LegacySprReader::from_bytes(vec![0; 5], false, false).err(), Some(SprError::FileTooSmall));
    assert_eq!(LegacySprReader::from_bytes(vec![0; 7], true, false).err(), Some(SprError::ExtendedFileTooSmall));
    let mut short = vec![0u8; 4];
    short.extend_from_slice(&3u16.to_le_bytes());
    assert_eq!(
        LegacySprReader::from_bytes(short, false, false).err(),
        Some(SprError::Truncated { required: 18, count: 3, len: 6 })
    );
    let mut cut = one_sprite_file();
    cut.pop();
    assert_eq!(decode_sprite_rle(&cut, 10, false).err(), Some(SprError::UnexpectedEof));
}

#[test]
fn batches_stop_at_the_sprite_count() {
    let r = LegacySprReader::from_bytes(one_sprite_file(), false, false).unwrap();
    let b = r.decode_batch(1, 10).unwrap();
    assert_eq!(b.len(), 1);
    assert!(r.decode_batch(0, 10).unwrap().is_empty());
    assert!(r.decode_batch(2, 10).unwrap().is_empty());
    assert_eq!(r.decode_all_sprites().unwrap().len(), 1);
}

#[test]
fn header_inspection_tells_extended_files() {
    let mut h = vec![1, 0, 0, 0];
    h.extend_from_slice(&2u16.to_le_bytes());
    h.extend_from_slice(&[0, 0]);
    assert_eq!(inspect_spr_header(&h, 14), Ok((1, 2, false)));
    assert_eq!(inspect_spr_header(&h, 16), Ok((1, 2, true)));
    assert_eq!(inspect_spr_header(&h[..5], 100), Err(SprError::UnexpectedEof));
}

#[test]
fn sprite_errors_read_as_text() {
    assert_eq!(SprError::IdOutOfRange { id: 9, count: 3 }.message(), "Sprite ID 9 out of range (1..3)");
    assert_eq!(
        SprError::Truncated { required: 14, count: 2, len: 10 }.message(),
        "SPR file truncated: expected at least 14 bytes for 2 sprite offsets, but file has 10 bytes"
    );
    assert_eq!(SprError::FileTooSmall.message(), "SPR file too small (less than 6 bytes)");
}
