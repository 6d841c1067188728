use font_library::attributes::{Attributes, Stretch, Style, Weight};
use font_library::data::{
    default_family_names, fallback_family_names, generic_family_names, CollectionData, Os, Registration,
};
use font_library::font::FontData;
use font_library::id::{FamilyId, FontId, SourceId};
use font_library::ingest::ScannedFont;
use font_library::lowercase::LowercaseString;
use font_library::source::{LoadStep, SourceData};
use font_library::static_data::{
    compare_names, StaticCollectionData, StaticFamilyData, StaticFontData, StaticScriptFallbacks, StaticSourceData,
};
use font_library::system::{ScannedCollectionData, SourcePaths, StaticCollection, SystemCollectionData};
use font_library::text::{Cjk, GenericFamily, Locale, Script, HAN_TAG};

fn latn() -> u32 {
    u32::from_be_bytes(*b"latn")
}

fn bits(stretch: u32, weight: u32, italic: bool) -> u32 {
    let style = if italic { 0b110 } else { 0b10 };
    style | (weight << 9) | (stretch << 19)
}

fn face(name: &str, weight: u32, italic: bool, scripts: Vec<(Script, Cjk)>) -> ScannedFont {
    let mut buf = LowercaseString::new();
    ScannedFont {
        name: name.to_string(),
        lowercase_name: buf.get(name).unwrap(),
        index: 0,
        attributes: Attributes { bits: bits(100, weight, italic) },
        cache_key: 11,
        scripts,
    }
}

fn memory_source() -> SourceData {
    SourceData::from_data(FontData::new(vec![0, 1]))
}

fn add(c: &mut CollectionData, faces: Vec<ScannedFont>, reg: &mut Registration) -> u32 {
    let id = SourceId::allocate(c.sources.len(), c.is_user).unwrap();
    c.add_scanned(&faces, &memory_source(), id, reg)
}

#[test]
fn ingestion_assigns_fresh_ids_of_the_collection() {
    let mut c = CollectionData::new(true);
    let mut reg = Registration::new();
    let latin = vec![(Script::from_tag(latn()), Cjk::Neutral)];
    let n = add(&mut c, vec![face("Foo Sans", 400, false, latin.clone()), face("Foo Sans", 700, false, latin.clone()), face("Bar", 400, false, latin)], &mut reg);
    assert_eq!(n, 3);
    assert_eq!(reg.fonts.len(), 3);
    for (k, id) in reg.fonts.iter().enumerate() {
        assert_eq!(id.to_usize(), k);
        assert!(id.is_user_font());
    }
    assert_eq!(reg.families.len(), 2);
    assert!(reg.families.iter().all(|f| f.is_user_font()));
    assert_ne!(reg.families[0], reg.families[1]);
    assert_eq!(c.sources.len(), 1);
    assert_eq!(c.fonts.len(), 3);
}

#[test]
fn duplicate_face_is_rejected_and_left_out_of_the_registration() {
    let mut c = CollectionData::new(true);
    let mut first = Registration::new();
    assert_eq!(add(&mut c, vec![face("Foo Sans", 400, false, vec![])], &mut first), 1);
    let mut second = Registration::new();
    assert_eq!(add(&mut c, vec![face("FOO SANS", 400, false, vec![])], &mut second), 0);
    assert!(second.fonts.is_empty());
    assert!(second.families.is_empty());
    assert_eq!(c.fonts.len(), 1);
    assert_eq!(c.sources.len(), 1);
    let family = c.family_by_name("foo sans").unwrap();
    assert_eq!(family.fonts.len(), 1);
    // Same family, another style: accepted.
    let mut third = Registration::new();
    assert_eq!(add(&mut c, vec![face("Foo Sans", 400, true, vec![])], &mut third), 1);
    assert_eq!(c.family_by_name("Foo Sans").unwrap().fonts.len(), 2);
}

#[test]
fn family_fonts_ascend_by_weight() {
    let mut c = CollectionData::new(false);
    let mut reg = Registration::new();
    add(&mut c, vec![face("W", 700, false, vec![]), face("W", 300, false, vec![]), face("W", 500, false, vec![]), face("W", 300, true, vec![])], &mut reg);
    let weights: Vec<u16> = c.family_by_name("w").unwrap().fonts.iter().map(|f| f.2 .0).collect();
    assert_eq!(weights, vec![300, 300, 500, 700]);
    let family = c.family(FamilyId::new(0)).unwrap();
    assert!(!family.has_stretch);
    assert_eq!(family.name, "W");
}

#[test]
fn stretched_face_marks_its_family() {
    let mut c = CollectionData::new(false);
    let mut reg = Registration::new();
    let mut narrow = face("Narrow", 400, false, vec![]);
    narrow.attributes = Attributes { bits: bits(75, 400, false) };
    add(&mut c, vec![narrow], &mut reg);
    let family = c.family_by_name("narrow").unwrap();
    assert!(family.has_stretch);
    assert_eq!(family.fonts[0].1, Stretch(75));
}

#[test]
fn queries_with_the_wrong_origin_find_nothing() {
    let mut c = CollectionData::new(true);
    let mut reg = Registration::new();
    add(&mut c, vec![face("Foo", 400, false, vec![])], &mut reg);
    assert!(c.family(FamilyId::allocate(0, true).unwrap()).is_some());
    assert!(c.family(FamilyId::new(0)).is_none());
    assert!(c.font(FontId::new(0)).is_none());
    assert!(c.source(SourceId::new(0)).is_none());
    assert!(matches!(c.load(SourceId::new(0)), LoadStep::Absent));
    let font = c.font(reg.fonts[0]).unwrap();
    assert_eq!(font.family, reg.families[0]);
    assert_eq!(font.cache_key, 11);
    assert_eq!(font.attributes.parts(), (Stretch(100), Weight(400), Style::Normal));
    assert!(c.font(FontId::allocate(1, true).unwrap()).is_none());
}

#[test]
fn han_fallback_follows_the_locale() {
    let mut c = CollectionData::new(false);
    let mut reg = Registration::new();
    add(&mut c, vec![face("Gothic JP", 400, false, vec![(Script::han(), Cjk::Japanese)])], &mut reg);
    add(&mut c, vec![face("Ming TC", 400, false, vec![(Script::han(), Cjk::Traditional)])], &mut reg);
    let jp = c.family_id("gothic jp").unwrap();
    let tc = c.family_id("ming tc").unwrap();
    // A list under the Han tag itself does not change what Han resolves to.
    c.script_fallbacks.push((HAN_TAG, vec![tc]));
    assert_eq!(c.fallback_families(Script::han(), Some(Locale::new(Cjk::Japanese))), &[jp]);
    assert_eq!(c.fallback_families(Script::han(), Some(Locale::new(Cjk::Traditional))), &[tc]);
    assert!(c.fallback_families(Script::han(), None).is_empty());
}

#[test]
fn unlisted_script_falls_back_to_the_defaults() {
    let mut c = CollectionData::new(false);
    let mut reg = Registration::new();
    add(&mut c, vec![face("Foo Sans", 400, false, vec![(Script::from_tag(latn()), Cjk::Neutral)])], &mut reg);
    let foo = c.family_id("Foo Sans").unwrap();
    c.default_families.push(foo);
    let cyrl = Script::from_tag(u32::from_be_bytes(*b"cyrl"));
    assert_eq!(c.fallback_families(cyrl, None), c.default_families());
    assert_eq!(c.fallback_families(Script::from_tag(latn()), None), &[foo]);
}

#[test]
fn fallback_lists_keep_insertion_order_without_repeats() {
    let mut c = CollectionData::new(false);
    let mut reg = Registration::new();
    let latin = vec![(Script::from_tag(latn()), Cjk::Neutral)];
    add(&mut c, vec![face("B", 400, false, latin.clone()), face("A", 400, false, latin.clone()), face("B", 700, false, latin)], &mut reg);
    let a = c.family_id("a").unwrap();
    let b = c.family_id("b").unwrap();
    assert_eq!(c.fallback_families(Script::from_tag(latn()), None), &[b, a]);
}

#[test]
fn missing_names_stay_missing() {
    let mut c = CollectionData::new(false);
    c.mark_missing("Ghost Sans");
    assert!(c.family_id("ghost sans").is_none());
    let mut reg = Registration::new();
    assert_eq!(add(&mut c, vec![face("Ghost Sans", 400, false, vec![])], &mut reg), 0);
    assert!(c.families.is_empty());
}

#[test]
fn setup_uses_the_platform_names() {
    let mut c = CollectionData::new(false);
    let mut reg = Registration::new();
    add(&mut c, vec![face("Liberation Serif", 400, false, vec![]), face("DejaVu Sans", 400, false, vec![]), face("Segoe UI", 400, false, vec![])], &mut reg);
    c.setup_default(Os::Other);
    let lib = c.family_id("liberation serif").unwrap();
    assert_eq!(c.default_families(), &[lib]);
    c.setup_default_generic(Os::Other);
    assert_eq!(c.generic_families(GenericFamily::SystemUi), &[c.family_id("dejavu sans").unwrap()]);
    assert!(c.generic_families(GenericFamily::Serif).is_empty());
    c.setup_default(Os::Windows);
    assert_eq!(c.default_families(), &[c.family_id("segoe ui").unwrap()]);
    assert_eq!(default_family_names(Os::MacOs), vec!["helvetica"]);
    assert_eq!(generic_family_names(Os::Windows, GenericFamily::Monospace), vec!["courier new"]);
    assert_eq!(fallback_family_names(Os::Other).len(), 4);
    assert!(c.setup_fallbacks(Os::Other).is_empty());
}

#[test]
fn snapshot_copy_keeps_families_fonts_and_names() {
    let mut c = CollectionData::new(true);
    let mut reg = Registration::new();
    add(&mut c, vec![face("Foo", 400, false, vec![])], &mut reg);
    let mut other = CollectionData::new(true);
    c.clone_into(&mut other);
    assert_eq!(other.fonts.len(), 1);
    assert_eq!(other.family_id("FOO"), c.family_id("foo"));
    assert!(matches!(other.load(SourceId::allocate(0, true).unwrap()), LoadStep::Ready(_)));
}

#[test]
fn file_source_load_round_trip_through_a_collection() {
    let mut c = CollectionData::new(false);
    let mut reg = Registration::new();
    let id = SourceId::allocate(0, false).unwrap();
    c.add_scanned(&vec![face("File Font", 400, false, vec![])], &SourceData::from_path("/x.ttf".to_string()), id, &mut reg);
    match c.load(id) {
        LoadStep::Read(p) => assert_eq!(p, "/x.ttf"),
        _ => panic!("expected a read"),
    }
    let data = c.finish_load(id, Some(vec![5, 6])).unwrap();
    match c.load(id) {
        LoadStep::Ready(d) => assert_eq!(d.as_bytes(), data.as_bytes()),
        _ => panic!("expected cached bytes"),
    }
}

fn static_tables() -> StaticCollectionData {
    let fam = |name: &str| StaticFamilyData {
        name: name.to_string(),
        lowercase_name: name.to_lowercase(),
        has_stretch: false,
        fonts: vec![(FontId::new(0), Stretch(100), Weight(400), Style::Normal)],
    };
    StaticCollectionData {
        search_paths: vec!["/usr/share/fonts".to_string()],
        families: vec![fam("Arial"), fam("Courier"), fam("Times")],
        fonts: vec![StaticFontData { family: FamilyId::new(0), attributes: Attributes { bits: bits(100, 400, false) }, source: SourceId::new(0), index: 0 }],
        sources: vec![StaticSourceData { file_name: "arial.ttf".to_string() }],
        default_families: vec![FamilyId::new(2)],
        script_fallbacks: vec![
            StaticScriptFallbacks { script: u32::from_be_bytes(*b"arab"), families: vec![FamilyId::new(1)] },
            StaticScriptFallbacks { script: latn(), families: vec![FamilyId::new(0)] },
        ],
        generic_families: vec![vec![FamilyId::new(0)], vec![FamilyId::new(2)], vec![FamilyId::new(1)], vec![], vec![], vec![]],
        cjk_families: vec![vec![], vec![], vec![], vec![FamilyId::new(1)], vec![]],
    }
}

#[test]
fn static_lookup_bisects_folded_names() {
    let tables = static_tables();
    assert_eq!(tables.family_id("TIMES"), Some(FamilyId::new(2)));
    assert_eq!(tables.family_id("arial"), Some(FamilyId::new(0)));
    assert_eq!(tables.family_id("Courier"), Some(FamilyId::new(1)));
    assert_eq!(tables.family_id("Helvetica"), None);
    assert_eq!(tables.family_id(""), None);
    assert_eq!(tables.family_name(FamilyId::new(1)), Some("Courier"));
    assert_eq!(tables.family_name(FamilyId::new(3)), None);
    assert!(compare_names("abc", "abd") < 0);
    assert!(compare_names("ab", "abc") < 0);
    assert_eq!(compare_names("abc", "abc"), 0);
    assert!(compare_names("b", "abc") > 0);
}

#[test]
fn static_fallback_bisects_script_tags() {
    let tables = static_tables();
    assert_eq!(tables.fallback_families(Script::from_tag(latn()), None), &[FamilyId::new(0)]);
    assert_eq!(tables.fallback_families(Script::from_tag(u32::from_be_bytes(*b"arab")), None), &[FamilyId::new(1)]);
    assert_eq!(tables.fallback_families(Script::from_tag(u32::from_be_bytes(*b"grek")), None), &[FamilyId::new(2)]);
    assert_eq!(tables.fallback_families(Script::han(), Some(Locale::new(Cjk::Japanese))), &[FamilyId::new(1)]);
}

#[test]
fn static_backing_answers_like_a_collection_and_refuses_registration() {
    let mut system = SystemCollectionData::Static(StaticCollection::new(static_tables()));
    let entry = system.family_by_name("courier").unwrap();
    assert_eq!(entry.id, FamilyId::new(1));
    assert_eq!(entry.name, "Courier");
    let font = system.font(FontId::new(0)).unwrap();
    assert_eq!(font.family, FamilyId::new(0));
    assert!(system.font(FontId::new(1)).is_none());
    assert!(system.source(SourceId::new(0)).is_some());
    assert_eq!(system.default_families(), &[FamilyId::new(2)]);
    assert_eq!(system.generic_families(GenericFamily::Serif), &[FamilyId::new(2)]);
    match system.load(SourceId::new(0)) {
        LoadStep::Read(p) => assert_eq!(p, "arial.ttf"),
        _ => panic!("expected a read"),
    }
    assert!(system.finish_load(SourceId::new(0), None).is_none());
    assert!(matches!(system.load(SourceId::new(0)), LoadStep::Absent));
    let mut reg = Registration::new();
    assert!(system.add_fonts(&FontData::new(vec![1, 2, 3]), memory_source(), &mut reg).is_none());
    let mut paths: SourcePaths = system.source_paths();
    assert_eq!(paths.next(), Some("/usr/share/fonts".to_string()));
    assert_eq!(paths.next(), None);
    assert_eq!(paths.next(), None);
}

#[test]
fn scanned_backing_has_no_search_paths() {
    let system = SystemCollectionData::Scanned(ScannedCollectionData { collection: CollectionData::new(false) });
    let mut paths = system.source_paths();
    assert_eq!(paths.next(), None);
    assert!(system.family_by_name("anything").is_none());
}

#[test]
fn duplicate_within_one_blob_is_rejected_and_later_faces_still_go_in() {
    let mut c = CollectionData::new(true);
    let mut reg = Registration::new();
    let n = add(&mut c, vec![face("Foo", 400, false, vec![]), face("FOO", 400, false, vec![]), face("Foo", 700, false, vec![])], &mut reg);
    assert_eq!(n, 2);
    assert_eq!(reg.fonts.len(), 2);
    assert_eq!(reg.families.len(), 1);
    let weights: Vec<u16> = c.family_by_name("foo").unwrap().fonts.iter().map(|f| f.2 .0).collect();
    assert_eq!(weights, vec![400, 700]);
}
