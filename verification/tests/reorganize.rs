use client_assets::appearance::{
    Appearance, AppearanceFlagMarket, AppearanceFlags, Appearances, SpecialMeaningAppearanceIds,
};
use client_assets::reorganize::{
    apply_special_meaning_remap, build_remap, ids_in_range, preview_reorganize_appearance_ids,
    reorganize_appearance_ids, validate_range, AppearanceCategory,
};
use std::collections::HashMap;

#[test]
fn build_remap_compacts_and_reports_only_moves() {
    let ids = vec![3000u32, 4000, 4005];
    let (pairs, map) = build_remap(&ids, 3000);
    assert_eq!(map.get(&4000), Some(&3001));
    assert_eq!(map.get(&4005), Some(&3002));
    assert!(!map.contains_key(&3000));
    assert_eq!(pairs.len(), 2);
}

#[test]
fn build_remap_noop_when_already_sequential() {
    let ids = vec![10u32, 11, 12];
    let (pairs, map) = build_remap(&ids, 10);
    assert!(pairs.is_empty());
    assert!(map.is_empty());
}

#[test]
fn special_meaning_follows_moved_object_ids() {
    let map: HashMap<u32, u32> = [(4000u32, 3001u32)].into_iter().collect();
    let mut sm = SpecialMeaningAppearanceIds { gold_coin_id: Some(4000), platinum_coin_id: Some(999), ..Default::default() };
    apply_special_meaning_remap(&mut sm, &map);
    assert_eq!(sm.gold_coin_id, Some(3001));
    assert_eq!(sm.platinum_coin_id, Some(999));
}

#[test]
fn validate_range_rejects_bad_bounds() {
    assert!(validate_range(0, 10).is_err());
    assert!(validate_range(10, 5).is_err());
    assert!(validate_range(3000, 8000).is_ok());
}

#[test]
fn validate_range_messages() {
    assert_eq!(validate_range(0, 10), Err("Start id must be greater than 0".to_string()));
    assert_eq!(validate_range(10, 5), Err("Invalid range: 10 > 5".to_string()));
}

fn empty_flags() -> AppearanceFlags {
    AppearanceFlags {
        bank: None,
        clip: None,
        bottom: None,
        top: None,
        container: None,
        cumulative: None,
        usable: None,
        forceuse: None,
        multiuse: None,
        write: None,
        write_once: None,
        liquidpool: None,
        unpass: None,
        unmove: None,
        unsight: None,
        avoid: None,
        no_movement_animation: None,
        take: None,
        liquidcontainer: None,
        hang: None,
        hook: None,
        rotate: None,
        light: None,
        dont_hide: None,
        translucent: None,
        shift: None,
        height: None,
        lying_object: None,
        animate_always: None,
        automap: None,
        lenshelp: None,
        fullbank: None,
        ignore_look: None,
        clothes: None,
        default_action: None,
        market: None,
        wrap: None,
        unwrap: None,
        topeffect: None,
        npcsaledata: Vec::new(),
        changedtoexpire: None,
        restrict_to_vocation: Vec::new(),
        minimum_level: None,
    }
}

fn object(id: u32, trade_as: Option<u32>) -> Appearance {
    let mut flags = empty_flags();
    if let Some(t) = trade_as {
        flags.market = Some(AppearanceFlagMarket { category: Some(1), trade_as_object_id: Some(t), show_as_object_id: Some(t) });
    }
    Appearance { id: Some(id), name: None, description: None, flags: Some(flags), frame_group: Vec::new() }
}

fn catalog() -> Appearances {
    Appearances {
        object: vec![object(4005, None), object(3000, Some(4005)), object(9000, Some(4000)), object(4000, None)],
        outfit: vec![object(4000, None)],
        effect: Vec::new(),
        missile: Vec::new(),
        special_meaning_appearance_ids: Some(SpecialMeaningAppearanceIds { gold_coin_id: Some(4005), ..Default::default() }),
    }
}

#[test]
fn ids_in_range_are_sorted() {
    let a = catalog();
    assert_eq!(ids_in_range(&a, AppearanceCategory::Objects, 3000, 5000), vec![3000, 4000, 4005]);
    assert_eq!(ids_in_range(&a, AppearanceCategory::Outfits, 1, 10), Vec::<u32>::new());
}

#[test]
fn reorganize_compacts_the_range_and_follows_references() {
    let mut a = catalog();
    let r = reorganize_appearance_ids(&mut a, AppearanceCategory::Objects, 3000, 5000).unwrap();
    assert_eq!(r.count, 3);
    assert_eq!(r.changed, 2);
    assert_eq!(r.remap, vec![(4000, 3001), (4005, 3002)]);
    assert_eq!(r.freed_from, 3003);
    assert_eq!(r.freed_to, 5000);
    let ids: Vec<Option<u32>> = a.object.iter().map(|o| o.id).collect();
    assert_eq!(ids, vec![Some(3000), Some(3001), Some(3002), Some(9000)]);
    let market = |o: &Appearance| o.flags.as_ref().unwrap().market.map(|m| m.trade_as_object_id);
    assert_eq!(market(&a.object[0]), Some(Some(3002)));
    assert_eq!(market(&a.object[3]), Some(Some(3001)));
    assert_eq!(a.special_meaning_appearance_ids.unwrap().gold_coin_id, Some(3002));
    // Outfits are another category: untouched.
    assert_eq!(a.outfit[0].id, Some(4000));
}

#[test]
fn reorganize_already_compact_changes_nothing() {
    let mut a = Appearances {
        object: vec![object(11, None), object(10, None)],
        outfit: Vec::new(),
        effect: Vec::new(),
        missile: Vec::new(),
        special_meaning_appearance_ids: None,
    };
    let r = reorganize_appearance_ids(&mut a, AppearanceCategory::Objects, 10, 20).unwrap();
    assert_eq!(r.changed, 0);
    assert!(r.remap.is_empty());
    let ids: Vec<Option<u32>> = a.object.iter().map(|o| o.id).collect();
    assert_eq!(ids, vec![Some(11), Some(10)]);
}

#[test]
fn reorganize_refuses_a_bad_range_without_changes() {
    let mut a = catalog();
    assert!(reorganize_appearance_ids(&mut a, AppearanceCategory::Objects, 0, 10).is_err());
    assert_eq!(a.object[0].id, Some(4005));
}

#[test]
fn preview_reports_without_changing() {
    let a = catalog();
    let p = preview_reorganize_appearance_ids(&a, AppearanceCategory::Objects, 3000, 5000).unwrap();
    assert_eq!(p.count, 3);
    assert_eq!(p.changed, 2);
    assert_eq!(p.freed_from, 3003);
    assert_eq!(p.sample, vec![(4000, 3001), (4005, 3002)]);
    assert_eq!(a.object[0].id, Some(4005));
}
