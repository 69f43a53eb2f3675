use client_assets::versions::{detect_version_from_signatures, get_structure_for_version, get_version_by_id, supported_versions};

#[test]
fn test_versions_definitions() {
    assert!(!supported_versions().is_empty());
    let v860 = get_version_by_id(860).expect("Tibia 8.60 must exist");
    assert_eq!(v860.structure, 5);
    let v1098 = get_version_by_id(1098).expect("Tibia 10.98 must exist");
    assert_eq!(v1098.structure, 6);
    assert!(v1098.default_extended);
}

#[test]
fn unknown_ids_fall_back_to_id_ranges() {
    assert!(get_version_by_id(861).is_none());
    assert_eq!(get_structure_for_version(700), 1);
    assert_eq!(get_structure_for_version(745), 2);
    assert_eq!(get_structure_for_version(772), 3);
    assert_eq!(get_structure_for_version(850), 4);
    assert_eq!(get_structure_for_version(900), 5);
    assert_eq!(get_structure_for_version(1200), 6);
    assert_eq!(get_structure_for_version(860), 5);
}

#[test]
fn signatures_detect_versions_in_order_of_preference() {
    let both = detect_version_from_signatures(0x4C28B721, 0x4C220594).unwrap();
    assert_eq!(both.id, 860);
    assert_eq!(both.name, "Tibia 8.60");
    let dat_only = detect_version_from_signatures(0x42A3, 0).unwrap();
    assert_eq!(dat_only.id, 1098);
    let spr_only = detect_version_from_signatures(0, 0x59E48E02).unwrap();
    assert_eq!(spr_only.id, 1310);
    assert!(detect_version_from_signatures(1, 2).is_none());
}
