use font_library::lowercase::LowercaseString;
use font_library::scan::{cjk_from, needs_alternate, pick_family_name, script_entries};
use font_library::text::{Cjk, Script, HAN_TAG};

#[test]
fn ascii_names_fold_in_place() {
    let mut buf = LowercaseString::new();
    assert_eq!(buf.get("Foo Sans").unwrap(), "foo sans");
    assert_eq!(buf.get("").unwrap(), "");
    assert_eq!(buf.get("DejaVu-Serif 2").unwrap(), "dejavu-serif 2");
}

#[test]
fn other_names_fold_through_unicode() {
    let mut buf = LowercaseString::new();
    assert_eq!(buf.get("ÉCOLE Sans").unwrap(), "école sans");
    let long = "A".repeat(200);
    assert_eq!(buf.get(&long).unwrap(), "a".repeat(200));
}

#[test]
fn vendor_prefixed_or_empty_names_ask_for_the_other_kind() {
    assert!(needs_alternate(&String::new()));
    assert!(needs_alternate(&"Noto Sans CJK JP Bold".to_string()));
    assert!(!needs_alternate(&"Fira Sans".to_string()));
    assert!(!needs_alternate(&"Not".to_string()));
}

#[test]
fn shorter_non_empty_alternate_wins() {
    assert_eq!(pick_family_name("Noto Sans CJK JP Bold".to_string(), "Noto Sans CJK JP".to_string()), "Noto Sans CJK JP");
    assert_eq!(pick_family_name("Noto Sans".to_string(), "Noto Sans Display".to_string()), "Noto Sans");
    assert_eq!(pick_family_name("Noto Sans".to_string(), String::new()), "Noto Sans");
    assert_eq!(pick_family_name(String::new(), "Foo".to_string()), "Foo");
}

#[test]
fn han_takes_the_language_variant() {
    let latn = u32::from_be_bytes(*b"latn");
    let systems = vec![
        (Some(HAN_TAG), Some(3u8)),
        (Some(HAN_TAG), None),
        (Some(latn), Some(2u8)),
        (Some(latn), None),
        (None, Some(1u8)),
        (Some(HAN_TAG), Some(3u8)),
    ];
    let entries = script_entries(&systems);
    assert_eq!(
        entries,
        vec![
            (Script { tag: HAN_TAG }, Cjk::Japanese),
            (Script { tag: HAN_TAG }, Cjk::Neutral),
            (Script { tag: latn }, Cjk::Neutral),
        ]
    );
    assert_eq!(cjk_from(1), Cjk::Traditional);
    assert_eq!(cjk_from(9), Cjk::Neutral);
}

#[test]
fn shorter_means_fewer_utf8_bytes() {
    // 7 characters but 9 bytes, against 8 characters in 8 bytes.
    assert_eq!(pick_family_name("Noto ÉÉ".to_string(), "Noto abc".to_string()), "Noto abc");
}
