use client_assets::staticdata::{
    choose_schema, detect_format, doc_statistics, execute_staticdata_merge, is_trivially_empty, merge_by_id, merge_docs, get_staticdata_merge_preview,
    Schema, StaticDataDoc, StaticDataFormat, StaticDataMergeThresholds, StaticDataNew, StaticDataOld, StaticRecord,
};

fn rec(id: u32) -> StaticRecord {
    StaticRecord { id: Some(id), payload: vec![id as u8] }
}

fn ids(v: &[StaticRecord]) -> Vec<Option<u32>> {
    v.iter().map(|r| r.id).collect()
}

fn thresholds() -> StaticDataMergeThresholds {
    StaticDataMergeThresholds { creatures: 100, bosses: 0, houses: 0, quests: 0, achievements: 0, monster_classes: 0, map_houses: 0 }
}

fn legacy_doc(creatures: Vec<StaticRecord>) -> StaticDataDoc {
    StaticDataDoc::Old(StaticDataOld { creatures, achievements: Vec::new(), houses: Vec::new(), bosses: Vec::new(), quests: Vec::new() })
}

fn new_doc() -> StaticDataDoc {
    StaticDataDoc::New(StaticDataNew {
        monsters: vec![rec(2)],
        monster_classes: vec![rec(1)],
        achievements: Vec::new(),
        houses: Vec::new(),
        bosses: Vec::new(),
        quests: Vec::new(),
    })
}

#[test]
fn merge_takes_new_ids_at_or_above_the_threshold() {
    let (merged, added) = merge_by_id(vec![rec(300), rec(100)], vec![rec(50), rec(100), rec(200), rec(400)], 100);
    assert_eq!(added, 2);
    assert_eq!(ids(&merged), vec![Some(100), Some(200), Some(300), Some(400)]);
}

#[test]
fn merge_docs_counts_per_category() {
    let (doc, counts) = merge_docs(legacy_doc(vec![rec(150)]), legacy_doc(vec![rec(150), rec(160)]), &thresholds()).unwrap();
    assert_eq!(counts.creatures, 1);
    assert_eq!(counts.monster_classes, 0);
    match doc {
        StaticDataDoc::Old(o) => assert_eq!(ids(&o.creatures), vec![Some(150), Some(160)]),
        StaticDataDoc::New(_) => panic!("schema changed"),
    }
}

#[test]
fn merge_docs_refuses_mixed_schemas() {
    assert!(merge_docs(legacy_doc(Vec::new()), new_doc(), &thresholds()).is_err());
}

#[test]
fn statistics_and_version() {
    let s = doc_statistics(&new_doc());
    assert_eq!(s.version, "new");
    assert_eq!(s.total_creatures, 1);
    assert_eq!(s.total_monster_classes, 1);
    assert_eq!(new_doc().version(), "new");
    assert_eq!(legacy_doc(Vec::new()).version(), "old");
    assert!(is_trivially_empty(&legacy_doc(Vec::new())));
    assert!(!is_trivially_empty(&new_doc()));
}

#[test]
fn format_and_schema_choices() {
    assert_eq!(detect_format(true, true), StaticDataFormat::Xz);
    assert_eq!(detect_format(false, true), StaticDataFormat::Raw);
    assert_eq!(detect_format(false, false), StaticDataFormat::Lzma);
    assert_eq!(choose_schema(100, Some(98), Some(60)), Some(Schema::New));
    assert_eq!(choose_schema(100, Some(50), Some(99)), Some(Schema::Old));
    assert_eq!(choose_schema(100, Some(90), Some(110)), Some(Schema::New));
    assert_eq!(choose_schema(100, None, None), None);
}

#[test]
fn preview_counts_map_houses() {
    let p = get_staticdata_merge_preview(
        legacy_doc(vec![rec(150)]),
        legacy_doc(vec![rec(170)]),
        &thresholds(),
        Some((vec![rec(1)], vec![rec(1), rec(2)])),
        "staticdata-1.dat".to_string(),
        None,
    )
    .unwrap();
    assert_eq!(p.creatures_to_add, 1);
    assert_eq!(p.map_houses_to_add, 1);
    assert_eq!(p.schema, "old");
}

#[test]
fn execute_merges_documents_and_map_houses() {
    let (doc, houses, res) =
        execute_staticdata_merge(legacy_doc(vec![rec(150)]), legacy_doc(vec![rec(170), rec(90)]), &thresholds(), Some((vec![rec(3)], vec![rec(1)]))).unwrap();
    assert_eq!(res.creatures_added, 1);
    assert_eq!(res.map_houses_added, 1);
    assert_eq!(ids(&houses.unwrap()), vec![Some(1), Some(3)]);
    match doc {
        StaticDataDoc::Old(o) => assert_eq!(ids(&o.creatures), vec![Some(150), Some(170)]),
        StaticDataDoc::New(_) => panic!("schema changed"),
    }
    assert!(execute_staticdata_merge(legacy_doc(Vec::new()), new_doc(), &thresholds(), None).is_err());
}

#[test]
fn mixed_schema_refusal_names_both_schemas() {
    let r = merge_docs(legacy_doc(Vec::new()), new_doc(), &thresholds());
    assert_eq!(
        r.err(),
        Some("Schema mismatch: the official staticdata uses the \"old\" schema but the loaded one uses \"new\". Load a staticdata from the same client version before merging.".to_string())
    );
}
