use font_library::attributes::{Attributes, Stretch, Style, Weight};
use font_library::id::{FamilyId, FontId, SourceId, MAX_INDEX};
use font_library::text::{Cjk, GenericFamily, Locale, Script, HAN_TAG};

#[test]
fn allocate_keeps_index_and_origin() {
    let user = FontId::allocate(7, true).unwrap();
    assert_eq!(user.to_usize(), 7);
    assert!(user.is_user_font());
    let system = FontId::allocate(7, false).unwrap();
    assert_eq!(system.to_usize(), 7);
    assert!(!system.is_user_font());
    assert_ne!(user, system);
}

#[test]
fn allocate_fails_past_the_largest_index() {
    assert!(FamilyId::allocate(MAX_INDEX as usize, true).is_some());
    assert!(FamilyId::allocate(MAX_INDEX as usize + 1, true).is_none());
    assert!(SourceId::allocate(MAX_INDEX as usize + 1, false).is_none());
    assert_eq!(SourceId::allocate(MAX_INDEX as usize, false).unwrap().to_usize(), MAX_INDEX as usize);
}

#[test]
fn ids_order_by_origin_then_index() {
    let a = FamilyId::allocate(5, false).unwrap();
    let b = FamilyId::allocate(6, false).unwrap();
    let c = FamilyId::allocate(0, true).unwrap();
    assert!(a < b);
    assert!(b < c);
    assert_eq!(FamilyId::new(5), a);
}

#[test]
fn attributes_unpack_like_swash() {
    let bits = swash::Attributes::new(swash::Stretch::NORMAL, swash::Weight(700), swash::Style::Italic).0;
    let (stretch, weight, style) = Attributes { bits }.parts();
    assert_eq!(stretch, Stretch(100));
    assert_eq!(weight, Weight(700));
    assert_eq!(style, Style::Italic);
    let normal = Attributes { bits: 0b10 | (400 << 9) | (100 << 19) };
    assert_eq!(normal.parts(), (Stretch(100), Weight(400), Style::Normal));
    let oblique = Attributes { bits: 1 | (20 << 1) | (300 << 9) | (75 << 19) };
    assert_eq!(oblique.parts(), (Stretch(75), Weight(300), Style::Oblique(20)));
}

#[test]
fn script_and_kind_indices() {
    assert!(Script::han().is_han());
    assert_eq!(Script::han().tag, HAN_TAG);
    assert!(!Script::from_tag(u32::from_be_bytes(*b"latn")).is_han());
    assert_eq!(Cjk::Neutral.index(), 0);
    assert_eq!(Cjk::Korean.index(), 4);
    assert_eq!(Locale::new(Cjk::Japanese).cjk(), Cjk::Japanese);
    assert_eq!(GenericFamily::SansSerif.index(), 0);
    assert_eq!(GenericFamily::Emoji.index(), 5);
}
