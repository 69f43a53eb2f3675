use client_assets::lua::{escape_lua_string, remap_lua_int_field, rewrite_field_matches};
use std::collections::HashMap;

#[test]
fn escapes_quotes_and_backslashes() {
    assert_eq!(escape_lua_string(r#"a"b\c"#), r#"a\"b\\c"#);
}

#[test]
fn escapes_newlines() {
    assert_eq!(escape_lua_string("line1\nline2\r\n"), "line1\\nline2\\r\\n");
}

#[test]
fn leaves_plain_text_untouched() {
    assert_eq!(escape_lua_string("Hello World"), "Hello World");
}

#[test]
fn escapes_tabs_and_keeps_unicode() {
    assert_eq!(escape_lua_string("a\tb ção"), "a\\tb ção");
    assert_eq!(escape_lua_string(""), "");
}

#[test]
fn remap_lua_int_field_rewrites_only_mapped_ids() {
    let map: HashMap<u32, u32> = [(4000u32, 3001u32)].into_iter().collect();
    let src = "outfit = { lookType = 4000, lookMount = 999 }";
    let (out, n) = remap_lua_int_field(src, "lookType", &map).unwrap();
    assert_eq!(out, "outfit = { lookType = 3001, lookMount = 999 }");
    assert_eq!(n, 1);
    let (out2, n2) = remap_lua_int_field(&out, "lookMount", &map).unwrap();
    assert_eq!(n2, 0);
    assert_eq!(out2, out);
}

#[test]
fn remap_counts_every_mapped_occurrence_and_keeps_spacing() {
    let map: HashMap<u32, u32> = [(7u32, 12345u32), (8, 9)].into_iter().collect();
    let src = "id=7\nid =  8\nxid = 7\nid = 70000000000\nid = 6";
    let (out, n) = remap_lua_int_field(src, "id", &map).unwrap();
    assert_eq!(out, "id=12345\nid =  9\nxid = 7\nid = 70000000000\nid = 6");
    assert_eq!(n, 2);
}

#[test]
fn rewriting_at_given_matches_replaces_only_mapped_digits() {
    let text = "a lookType = 4000 b lookType=7";
    let ms = vec![(2usize, 17usize, 2usize, 13usize, 13usize, 17usize), (20, 30, 20, 29, 29, 30)];
    let map: HashMap<u32, u32> = [(4000u32, 3001u32)].into_iter().collect();
    assert_eq!(rewrite_field_matches(text, &ms, &map), ("a lookType = 3001 b lookType=7".to_string(), 1));
    assert_eq!(rewrite_field_matches(text, &Vec::new(), &map), (text.to_string(), 0));
}

#[test]
fn remapping_keeps_non_ascii_text_around_the_numbers() {
    let map: HashMap<u32, u32> = [(12u32, 345u32)].into_iter().collect();
    let (out, n) = remap_lua_int_field("-- caf\u{e9}\nlookType = 12 -- \u{fc}", "lookType", &map).unwrap();
    assert_eq!(out, "-- caf\u{e9}\nlookType = 345 -- \u{fc}");
    assert_eq!(n, 1);
}

#[test]
fn field_names_match_literally() {
    let map: HashMap<u32, u32> = [(1u32, 5u32), (2u32, 6u32)].into_iter().collect();
    let (out, n) = remap_lua_int_field("a.b = 1, axb = 2", "a.b", &map).unwrap();
    assert_eq!(out, "a.b = 5, axb = 2");
    assert_eq!(n, 1);
}
