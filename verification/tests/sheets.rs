use client_assets::sheets::{
    aec_companion, aec_sprites_bytes, build_sheet_bmp, catalog_entry, compile_sheet, compile_sheet_from_reader,
    compile_sprites_to_sheets, encode_7bit,
    layout_sheet, plan_sheets, wrap_cip_lzma,
};
use client_assets::spr_reader::{DecodedSprite, LegacySprReader};

#[test]
fn seven_bit_sizes() {
    assert_eq!(encode_7bit(0), vec![0]);
    assert_eq!(encode_7bit(127), vec![127]);
    assert_eq!(encode_7bit(300), vec![0xAC, 0x02]);
    assert_eq!(encode_7bit(u64::MAX).len(), 10);
}

#[test]
fn cip_wrapping() {
    assert_eq!(wrap_cip_lzma(&[9, 8]), vec![0x70, 0x0A, 0xFA, 0x80, 0x24, 2, 9, 8]);
}

#[test]
fn companion_sprite_file() {
    let out = aec_sprites_bytes(&vec![vec![1, 2, 3], vec![]]);
    assert_eq!(out, vec![b'A', b'E', b'C', b'S', 1, 2, 0, 0, 0, 3, 0, 0, 0, 1, 2, 3, 0, 0, 0, 0]);
}

#[test]
fn sprites_split_into_sheets_of_384() {
    let ids: Vec<u32> = (1..=400).collect();
    let plan = plan_sheets(&ids);
    assert_eq!(plan.len(), 2);
    assert_eq!((plan[0].first_id, plan[0].last_id, plan[0].count), (1, 384, 384));
    assert_eq!((plan[1].first_id, plan[1].last_id, plan[1].count), (385, 385 + 24 - 1, 16));
    assert!(plan_sheets(&Vec::new()).is_empty());
}

#[test]
fn tiles_are_laid_out_row_major() {
    let mut a = vec![0u8; 4096];
    a[0..4].copy_from_slice(&[1, 2, 3, 4]);
    let mut b = vec![0u8; 4096];
    b[4092..4096].copy_from_slice(&[5, 6, 7, 8]);
    let (pixels, cols, rows) = layout_sheet(&vec![a, b], 12);
    assert_eq!((cols, rows), (12, 1));
    assert_eq!(pixels.len(), 12 * 32 * 32 * 4);
    assert_eq!(&pixels[0..4], &[1, 2, 3, 4]);
    // Last pixel of tile 1: column 1, row 31 of a 384-pixel-wide sheet.
    let at = ((31 * 384) + 32 + 31) * 4;
    assert_eq!(&pixels[at..at + 4], &[5, 6, 7, 8]);
    assert_eq!(pixels.iter().filter(|&&x| x != 0).count(), 8);
    let (_, c1, r1) = layout_sheet(&Vec::new(), 0);
    assert_eq!((c1, r1), (1, 1));
}

#[test]
fn sheets_encode_as_bmp_and_sprites_as_png() {
    let (bmp, cols, rows) = build_sheet_bmp(&vec![vec![255u8; 4096]; 13], 12).unwrap();
    assert_eq!((cols, rows), (12, 2));
    assert_eq!(&bmp[0..2], b"BM");
    let sprite = DecodedSprite { id: 1, rgba: vec![9u8; 4096] };
    let companion = aec_companion(&vec![sprite]).unwrap();
    assert_eq!(&companion[0..9], &[b'A', b'E', b'C', b'S', 1, 1, 0, 0, 0]);
    assert_eq!(&companion[13..17], &[0x89, b'P', b'N', b'G']);
    let short = DecodedSprite { id: 2, rgba: vec![0u8; 10] };
    assert!(aec_companion(&vec![short]).is_err());
}

#[test]
fn catalog_entries_name_their_sheet() {
    let plan = plan_sheets(&vec![5, 6, 7]);
    let e = catalog_entry(&plan[0]);
    assert_eq!(e.entry_type, "sprite");
    assert_eq!(e.file, "sprites_5.cwm");
    assert_eq!(e.sprite_type, Some(0));
    assert_eq!((e.first_sprite_id, e.last_sprite_id), (Some(5), Some(16)));
    assert_eq!(e.area, None);
}

#[test]
fn sheets_compile_from_decoded_sprites_and_from_a_reader() {
    let chunk = vec![DecodedSprite { id: 7, rgba: vec![1u8; 4096] }, DecodedSprite { id: 8, rgba: vec![2u8; 4096] }];
    let (bmp, entry) = compile_sheet(&chunk).unwrap();
    assert_eq!(&bmp[0..2], b"BM");
    assert_eq!((entry.first_sprite_id, entry.last_sprite_id), (Some(7), Some(18)));

    let mut d = vec![0x11, 0x22, 0x33, 0x44];
    d.extend_from_slice(&1u16.to_le_bytes());
    d.extend_from_slice(&0u32.to_le_bytes());
    let reader = LegacySprReader::from_bytes(d, false, false).unwrap();
    let (_, e) = compile_sheet_from_reader(&reader, 0).unwrap().unwrap();
    assert_eq!((e.first_sprite_id, e.last_sprite_id), (Some(1), Some(12)));
    assert!(compile_sheet_from_reader(&reader, 1).unwrap().is_none());
}

#[test]
fn decoded_sprites_compile_into_sheets_of_384() {
    let sprites: Vec<DecodedSprite> =
        (1..=390u32).map(|id| DecodedSprite { id, rgba: vec![id as u8; 32 * 32 * 4] }).collect();
    let (sheets, n) = compile_sprites_to_sheets(&sprites).unwrap();
    assert_eq!(n, 2);
    assert_eq!(sheets.len(), 2);
    assert_eq!((sheets[0].1.first_sprite_id, sheets[0].1.last_sprite_id), (Some(1), Some(384)));
    assert_eq!((sheets[1].1.first_sprite_id, sheets[1].1.last_sprite_id), (Some(385), Some(396)));
    assert_eq!(sheets[1].1.file, "sprites_385.cwm");
    assert_eq!(&sheets[0].0[0..2], b"BM");

    let (none, zero) = compile_sprites_to_sheets(&Vec::new()).unwrap();
    assert!(none.is_empty());
    assert_eq!(zero, 0);
}

#[test]
fn sheets_with_short_tiles_still_compile() {
    let chunk = vec![DecodedSprite { id: 3, rgba: vec![1u8; 7] }];
    let (bmp, entry) = compile_sheet(&chunk).unwrap();
    assert_eq!(&bmp[0..2], b"BM");
    assert_eq!((entry.first_sprite_id, entry.last_sprite_id), (Some(3), Some(14)));
    let (bmp2, c, rows) = build_sheet_bmp(&vec![vec![0u8; 4096]], 0).unwrap();
    assert_eq!((c, rows), (1, 1));
    assert_eq!(&bmp2[0..2], b"BM");
}

#[test]
fn sheets_take_any_count_of_tiles_and_columns() {
    let (bmp, c, rows) = build_sheet_bmp(&vec![vec![7u8; 4096]; 500], 20).unwrap();
    assert_eq!((c, rows), (20, 25));
    assert_eq!(&bmp[0..2], b"BM");
    let (pixels, c2, r2) = layout_sheet(&vec![vec![1u8; 4096]; 3], 40);
    assert_eq!((c2, r2), (40, 1));
    assert_eq!(pixels.len(), 40 * 32 * 32 * 4);
}
