use client_assets::converter::{detect_legacy_info, map_things, pick_largest_dat, resolve_format, LegacyConvertOptions};
use client_assets::dat_reader::{DatFormat, LegacyDatReader};
use client_assets::mapper::map_legacy_thing_to_appearance;

fn options(version_id: Option<u32>) -> LegacyConvertOptions {
    LegacyConvertOptions {
        dat_path: "Tibia.dat".to_string(),
        spr_path: "Tibia.spr".to_string(),
        output_dir: "out".to_string(),
        version_id,
        extended_sprites: false,
        transparency: false,
        frame_groups: false,
        improved_animations: false,
        export_aec: false,
        project_name: None,
    }
}

#[test]
fn detection_uses_the_signature_table() {
    let info = detect_legacy_info((0x4C28B721, 1000, 300, 40, 50), (0x4C220594, 20000, false));
    assert_eq!(info.detected_version_id, 860);
    assert_eq!(info.detected_version_name, "Tibia 8.60");
    assert_eq!(info.total_things, 901 + 300 + 40 + 50);
    assert!(!info.is_extended);
    assert!(!info.suggested_transparency);
}

#[test]
fn detection_falls_back_on_the_sprite_count() {
    let big = detect_legacy_info((1, 50, 0, 0, 0), (2, 70000, false));
    assert_eq!(big.detected_version_id, 1098);
    assert_eq!(big.detected_version_name, "Tibia 10.98 (Custom / Detected)");
    assert!(big.is_extended && big.suggested_frame_groups && big.suggested_improved_animations);
    assert_eq!(big.total_things, 0);
    let small = detect_legacy_info((1, 50, 0, 0, 0), (2, 100, false));
    assert_eq!(small.detected_version_id, 860);
    assert_eq!(small.detected_version_name, "Tibia 8.60 (Custom / Detected)");
}

#[test]
fn format_follows_version_or_detection() {
    assert_eq!(
        resolve_format(&options(Some(1098)), (0, 0, false)),
        DatFormat { structure: 6, is_extended: true, has_frame_groups: true, has_improved_animations: true }
    );
    assert_eq!(
        resolve_format(&options(Some(820)), (0, 0, false)),
        DatFormat { structure: 4, is_extended: false, has_frame_groups: false, has_improved_animations: false }
    );
    assert_eq!(resolve_format(&options(Some(5000)), (0, 0, false)).structure, 6);
    assert_eq!(resolve_format(&options(None), (0x4C28B721, 0x4C220594, false)).structure, 5);
    assert_eq!(
        resolve_format(&options(None), (1, 2, true)),
        DatFormat { structure: 6, is_extended: true, has_frame_groups: false, has_improved_animations: false }
    );
}

#[test]
fn things_map_to_appearances() {
    let mut d = vec![0xA3, 0x42, 0, 0, 100, 0, 0, 0, 0, 0, 0, 0];
    d.extend_from_slice(&[0x00, 150, 0, 0x05, 0x13, 0x14, 0xFF]);
    d.extend_from_slice(&[1, 1, 1, 1, 1, 1, 1]);
    d.extend_from_slice(&7u32.to_le_bytes());
    let f = DatFormat { structure: 6, is_extended: true, has_frame_groups: false, has_improved_animations: false };
    let r = LegacyDatReader::from_bytes(&d, f).unwrap();
    let a = map_legacy_thing_to_appearance(&r.objects[0]);
    assert_eq!(a.id, Some(100));
    assert_eq!(a.name, None);
    let flags = a.flags.as_ref().unwrap();
    assert_eq!(flags.bank.unwrap().waypoints, Some(150));
    assert_eq!(flags.cumulative, Some(true));
    assert_eq!(flags.container, None);
    assert_eq!(flags.hook.unwrap().direction, Some(1));
    let g = &a.frame_group[0];
    assert_eq!(g.fixed_frame_group, Some(2));
    let info = g.sprite_info.as_ref().unwrap();
    assert_eq!(info.sprite_id, vec![7]);
    assert_eq!(info.bounding_square, Some(32));
    assert!(info.animation.is_none());
    let all = map_things(&r);
    assert_eq!(all.object.len(), 1);
    assert!(all.outfit.is_empty());
}

#[test]
fn the_largest_matching_dat_is_picked_first_on_ties() {
    let names: Vec<String> = ["Tibia.spr", "Tibia.dat", "Tibia2.dat", "other.dat", "Tibia3.dat"].iter().map(|s| s.to_string()).collect();
    let sizes = vec![999u64, 10, 30, 500, 30];
    assert_eq!(pick_largest_dat(&names, &sizes, "Tibia"), Some(2));
    assert_eq!(pick_largest_dat(&names, &sizes, "none"), None);
}
