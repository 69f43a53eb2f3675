use client_assets::battleye::{detect, set_enabled, JMP, JNZ};
use client_assets::client_config::{battleye_scan_step, client_urls, rsa_scan_step, save_client_urls_text, ScanStep};
use client_assets::config_ini::{read_section_text, rewrite_section, IniEntry};
use client_assets::rsa;
use client_assets::rsa::{normalize_modulus, set_modulus, MODULUS_HEX_LEN, OT_DEFAULT_MODULUS};

/// A buffer containing the BattleEye signature once, with the given jump byte.
fn be_buf_with(jump: u8) -> Vec<u8> {
    let mut v = vec![0x11u8; 64];
    let sig: &[u8] = &[0x80, 0xBE, 0x75, 0x0A, 0x00, 0x00, 0x00, jump, 0x0F, 0xE8, 0xAF, 0x69, 0xED, 0xFF];
    v.splice(20..20, sig.iter().copied());
    v
}

#[test]
fn detects_enabled() {
    let s = detect(&be_buf_with(JNZ)).unwrap();
    assert!(s.found);
    assert_eq!(s.enabled, Some(true));
    assert_eq!(s.offset, Some(20 + 7));
}

#[test]
fn detects_disabled() {
    let s = detect(&be_buf_with(JMP)).unwrap();
    assert!(s.found);
    assert_eq!(s.enabled, Some(false));
}

#[test]
fn toggle_flips_the_single_byte() {
    let mut b = be_buf_with(JNZ);
    let s = set_enabled(&mut b, false).unwrap();
    assert_eq!(s.enabled, Some(false));
    assert_eq!(b[20 + 7], JMP);
    set_enabled(&mut b, true).unwrap();
    assert_eq!(b[20 + 7], JNZ);
}

#[test]
fn refuses_ambiguous_double_match() {
    let mut b = be_buf_with(JNZ);
    let tail = be_buf_with(JMP);
    b.extend_from_slice(&tail);
    assert!(detect(&b).is_err());
    assert!(set_enabled(&mut b, false).is_err());
}

#[test]
fn battleye_not_found_is_clean() {
    let s = detect(&[0u8; 128]).unwrap();
    assert!(!s.found);
    assert_eq!(s.offset, None);
}

#[test]
fn toggle_then_detect_reports_the_requested_state() {
    let mut b = be_buf_with(JNZ);
    let before = b.clone();
    set_enabled(&mut b, false).unwrap();
    let s = detect(&b).unwrap();
    assert_eq!(s.enabled, Some(false));
    assert_eq!(s.offset, Some(27));
    for (i, (x, y)) in before.iter().zip(b.iter()).enumerate() {
        if i != 27 {
            assert_eq!(x, y);
        }
    }
}

/// A buffer with one null-bounded 256-hex modulus and unrelated filler.
fn rsa_buf_with(modulus: &str) -> Vec<u8> {
    let mut v = b"port precomputation\x00".to_vec();
    v.extend_from_slice(modulus.as_bytes());
    v.push(0x00);
    v.extend_from_slice(b"wrong ty");
    v
}

#[test]
fn detects_unique_modulus_and_flags_ot_default() {
    let v = rsa_buf_with(OT_DEFAULT_MODULUS);
    let s = rsa::detect(&v).unwrap();
    assert!(s.found);
    assert!(s.is_ot_default);
    assert_eq!(s.modulus.as_deref(), Some(OT_DEFAULT_MODULUS));
    assert_eq!(s.offset, Some(20));
}

#[test]
fn replace_keeps_length_and_updates_value() {
    let mut v = rsa_buf_with(OT_DEFAULT_MODULUS);
    let len_before = v.len();
    let custom = "A".repeat(256);
    let s = set_modulus(&mut v, &custom).unwrap();
    assert_eq!(v.len(), len_before, "in-place patch must not resize");
    assert!(!s.is_ot_default);
    assert_eq!(rsa::detect(&v).unwrap().modulus.as_deref(), Some(custom.as_str()));
}

#[test]
fn normalize_pads_and_uppercases() {
    let out = normalize_modulus("  9b64 6903  ").unwrap();
    assert_eq!(out.len(), MODULUS_HEX_LEN);
    assert!(out.ends_with("9B646903"));
    assert!(out.starts_with("0000"));
}

#[test]
fn rejects_non_hex_and_oversize() {
    assert!(normalize_modulus("XYZ").is_err());
    assert!(normalize_modulus(&"A".repeat(257)).is_err());
}

#[test]
fn normalize_rejects_empty_input() {
    assert_eq!(normalize_modulus("   "), Err("Modulus is empty.".to_string()));
}

#[test]
fn refuses_ambiguous_double_modulus() {
    let mut v = rsa_buf_with(OT_DEFAULT_MODULUS);
    v.extend_from_slice(&rsa_buf_with(&"B".repeat(256)));
    assert!(rsa::detect(&v).is_err());
    assert!(set_modulus(&mut v, &"C".repeat(256)).is_err());
}

#[test]
fn rsa_not_found_is_clean() {
    assert!(!rsa::detect(b"no key here").unwrap().found);
}

#[test]
fn set_modulus_without_modulus_is_refused() {
    let mut v = b"nothing to patch here".to_vec();
    let before = v.clone();
    assert!(set_modulus(&mut v, "ABCD").is_err());
    assert_eq!(v, before);
}

const SAMPLE: &str = "[URLS]\r\ntibiaPageUrl=https://old.example   \r\nloginWebService=http://127.0.0.1:8081/login\r\n; a comment\r\n[OTHER]\r\nkeep=me\r\n";

#[test]
fn reads_urls_in_order_and_trims_padding() {
    let entries = read_section_text(SAMPLE, "URLS");
    assert_eq!(entries.len(), 2);
    assert_eq!(entries[0].key, "tibiaPageUrl");
    assert_eq!(entries[0].value, "https://old.example");
    assert_eq!(entries[1].key, "loginWebService");
}

#[test]
fn rewrite_replaces_only_targeted_values_and_preserves_rest() {
    let updates = vec![IniEntry { key: "loginWebService".into(), value: "http://myserver:7171/login".into() }];
    let out = rewrite_section(SAMPLE, "URLS", &updates);
    assert!(out.contains("loginWebService=http://myserver:7171/login"));
    assert!(out.contains("tibiaPageUrl=https://old.example"));
    assert!(out.contains("; a comment"));
    assert!(out.contains("[OTHER]") && out.contains("keep=me"));
    assert!(out.ends_with("\r\n"));
}

#[test]
fn rewrite_ignores_keys_outside_the_section() {
    let updates = vec![IniEntry { key: "keep".into(), value: "HACKED".into() }];
    let out = rewrite_section(SAMPLE, "URLS", &updates);
    assert!(out.contains("keep=me"));
    assert!(!out.contains("HACKED"));
}

#[test]
fn rewrite_without_updates_keeps_the_text() {
    let out = rewrite_section(SAMPLE, "URLS", &[]);
    assert_eq!(out, SAMPLE);
}

#[test]
fn section_match_ignores_case() {
    let entries = read_section_text("[urls]\nk = v\n", "URLS");
    assert_eq!(entries.len(), 1);
    assert_eq!(entries[0].key, "k");
    assert_eq!(entries[0].value, "v");
}

#[test]
fn url_commands_read_and_rewrite_the_urls_section() {
    let urls = client_urls("conf/config.ini".to_string(), SAMPLE);
    assert_eq!(urls.config_path, "conf/config.ini");
    assert_eq!(urls.entries.len(), 2);
    let out = save_client_urls_text(SAMPLE, &[IniEntry { key: "tibiaPageUrl".into(), value: "https://new.example".into() }]);
    assert!(out.contains("tibiaPageUrl=https://new.example\r\n"));
    assert!(out.contains("loginWebService=http://127.0.0.1:8081/login"));
}

#[test]
fn scan_steps_stop_on_found_and_on_ambiguity() {
    match battleye_scan_step(&be_buf_with(JNZ)) {
        ScanStep::Found(s) => assert_eq!(s.offset, Some(27)),
        _ => panic!("expected the BattleEye check to be found"),
    }
    assert!(matches!(battleye_scan_step(&[0u8; 32]), ScanStep::Next));
    let mut twice = be_buf_with(JNZ);
    twice.extend_from_slice(&be_buf_with(JNZ));
    assert!(matches!(battleye_scan_step(&twice), ScanStep::Failed(_)));
    match rsa_scan_step(&rsa_buf_with(OT_DEFAULT_MODULUS)) {
        ScanStep::Found(s) => assert!(s.is_ot_default),
        _ => panic!("expected the modulus to be found"),
    }
    assert!(matches!(rsa_scan_step(b"none"), ScanStep::Next));
}

#[test]
fn refusal_texts_name_the_cause() {
    let mut b = be_buf_with(JNZ);
    b.extend_from_slice(&be_buf_with(JMP));
    assert_eq!(
        detect(&b).err(),
        Some("BattleEye signature 'cmp[reg+disp32],0;jcc0F;call' matched more than once \u{2014} refusing to guess which site to patch."
            .to_string())
    );
    let mut v = rsa_buf_with(OT_DEFAULT_MODULUS);
    v.extend_from_slice(&rsa_buf_with(&"B".repeat(256)));
    assert_eq!(
        rsa::detect(&v).err(),
        Some("Found 2 candidate RSA modulus strings \u{2014} refusing to guess which one to patch.".to_string())
    );
    assert_eq!(
        normalize_modulus(&"A".repeat(257)),
        Err("Modulus is 257 hex chars; the client slot holds a 1024-bit key (256 hex chars max).".to_string())
    );
    assert_eq!(normalize_modulus("XYZ"), Err("Modulus must be hexadecimal (0-9, A-F).".to_string()));
}

#[test]
fn patching_an_unknown_build_is_refused_with_its_reason() {
    let mut b = vec![0x11u8; 64];
    assert_eq!(
        set_enabled(&mut b, true).err(),
        Some("BattleEye gate not found in this binary \u{2014} unknown or already-modified build.".to_string())
    );
    assert_eq!(
        set_modulus(&mut b, "ABC").err(),
        Some("RSA modulus not found in this binary \u{2014} unknown or already-modified build.".to_string())
    );
    assert_eq!(b, vec![0x11u8; 64]);
}

#[test]
fn rewrite_keeps_every_line_ending_as_it_was() {
    assert_eq!(rewrite_section("a\r", "URLS", &[]), "a\r");
    let mixed = "[URLS]\nk=old\r\nj=x\n[B]\r\nk=z";
    let updates = vec![IniEntry { key: "k".into(), value: "new".into() }];
    assert_eq!(rewrite_section(mixed, "URLS", &updates), "[URLS]\nk=new\r\nj=x\n[B]\r\nk=z");
    assert_eq!(rewrite_section(mixed, "urls", &[]), mixed);
}

#[test]
fn a_rewritten_section_reads_back_with_the_new_values() {
    let text = "[URLS]\r\na = 1\nb=2   \r\n; c=3\n[X]\na=9";
    let updates = vec![IniEntry { key: "a".into(), value: "new".into() }];
    let back = read_section_text(&rewrite_section(text, "urls", &updates), "URLS");
    let pairs: Vec<(String, String)> = back.into_iter().map(|e| (e.key, e.value)).collect();
    assert_eq!(pairs, vec![("a".to_string(), "new".to_string()), ("b".to_string(), "2".to_string())]);
}

#[test]
fn scan_steps_report_signature_default_flag_and_refusal() {
    match battleye_scan_step(&be_buf_with(JNZ)) {
        ScanStep::Found(s) => assert_eq!(s.signature.as_deref(), Some("cmp[reg+disp32],0;jcc0F;call")),
        _ => panic!("expected a match"),
    }
    match rsa_scan_step(&rsa_buf_with(OT_DEFAULT_MODULUS)) {
        ScanStep::Found(s) => assert!(s.is_ot_default),
        _ => panic!("expected a modulus"),
    }
    let mut v = rsa_buf_with(OT_DEFAULT_MODULUS);
    v.extend_from_slice(&rsa_buf_with(&"B".repeat(256)));
    match rsa_scan_step(&v) {
        ScanStep::Failed(e) => assert!(e.starts_with("Found 2 candidate")),
        _ => panic!("expected a refusal"),
    }
}
