use font_library::context::FontContext;
use font_library::data::{CollectionData, Os};
use font_library::id::{FamilyId, SourceId};
use font_library::library::{Library, LibraryBuilder};
use font_library::source::{LoadStep, SourceData};
use font_library::font::FontData;
use font_library::scan::FontScanner;
use font_library::system::{ScannedCollectionData, SystemCollectionData};
use font_library::text::{Cjk, GenericFamily, Locale, Script};

fn be16(out: &mut Vec<u8>, v: u16) {
    out.extend_from_slice(&v.to_be_bytes());
}

fn be32(out: &mut Vec<u8>, v: u32) {
    out.extend_from_slice(&v.to_be_bytes());
}

/// A font file with a name table, an OS/2 table and a GSUB table that lists
/// one script.
fn tiny_font(family: &str, weight: u16, script: &[u8; 4]) -> Vec<u8> {
    let mut gsub = Vec::new();
    be32(&mut gsub, 0x0001_0000);
    be16(&mut gsub, 10); // script list
    be16(&mut gsub, 24); // feature list
    be16(&mut gsub, 24); // lookup list
    be16(&mut gsub, 1);
    gsub.extend_from_slice(script);
    be16(&mut gsub, 8);
    be16(&mut gsub, 4); // default language system
    be16(&mut gsub, 0);
    be16(&mut gsub, 0);
    be16(&mut gsub, 0xFFFF);
    be16(&mut gsub, 0);
    be16(&mut gsub, 0);

    let mut os2 = vec![0u8; 96];
    os2[4..6].copy_from_slice(&weight.to_be_bytes());
    os2[6..8].copy_from_slice(&5u16.to_be_bytes());
    os2[62..64].copy_from_slice(&0x40u16.to_be_bytes());

    let text: Vec<u8> = family.encode_utf16().flat_map(|u| u.to_be_bytes()).collect();
    let mut name = Vec::new();
    be16(&mut name, 0);
    be16(&mut name, 1);
    be16(&mut name, 18);
    be16(&mut name, 3);
    be16(&mut name, 1);
    be16(&mut name, 0x0409);
    be16(&mut name, 1);
    be16(&mut name, text.len() as u16);
    be16(&mut name, 0);
    name.extend_from_slice(&text);

    let tables: Vec<(&[u8; 4], Vec<u8>)> = vec![(b"GSUB", gsub), (b"OS/2", os2), (b"name", name)];
    let mut out = Vec::new();
    be32(&mut out, 0x0001_0000);
    be16(&mut out, tables.len() as u16);
    be16(&mut out, 0);
    be16(&mut out, 0);
    be16(&mut out, 0);
    let mut offset = 12 + 16 * tables.len();
    for (tag, data) in &tables {
        out.extend_from_slice(*tag);
        be32(&mut out, 0);
        be32(&mut out, offset as u32);
        be32(&mut out, data.len() as u32);
        offset += (data.len() + 3) & !3;
    }
    for (_, data) in &tables {
        out.extend_from_slice(data);
        while out.len() % 4 != 0 {
            out.push(0);
        }
    }
    out
}

fn latin() -> Script {
    Script::from_tag(u32::from_be_bytes(*b"latn"))
}

fn empty_library() -> Library {
    Library::new(SystemCollectionData::Scanned(ScannedCollectionData { collection: CollectionData::new(false) }))
}

#[test]
fn registered_face_is_found_by_folded_name() {
    let mut library = empty_library();
    let mut ctx = FontContext::new(&library);
    let reg = ctx.register_fonts(&mut library, tiny_font("Foo Sans", 400, b"latn")).unwrap();
    assert_eq!(reg.fonts.len(), 1);
    assert_eq!(reg.families.len(), 1);
    let family = ctx.family_by_name(&library, "foo sans").unwrap();
    assert_eq!(family.name, "Foo Sans");
    assert_eq!(family.fonts.len(), 1);
    assert_eq!(family.fonts[0].2 .0, 400);
    assert_eq!(family.id, reg.families[0]);
    assert!(family.id.is_user_font());
}

#[test]
fn registered_latin_face_joins_an_empty_latin_chain() {
    let mut library = empty_library();
    let mut ctx = FontContext::new(&library);
    assert!(ctx.fallback_families(&library, latin(), None).is_empty());
    let reg = ctx.register_fonts(&mut library, tiny_font("Foo Sans", 400, b"latn")).unwrap();
    assert_eq!(ctx.fallback_families(&library, latin(), None), vec![reg.families[0]]);
}

#[test]
fn existing_system_latin_chain_is_unaffected() {
    let mut system = CollectionData::new(false);
    let sys_family = FamilyId::new(0);
    system.families.push(font_library::data::FamilyData { name: "Sys".to_string(), has_stretch: false, fonts: vec![] });
    system.script_fallbacks.push((u32::from_be_bytes(*b"latn"), vec![sys_family]));
    let mut library = Library::new(SystemCollectionData::Scanned(ScannedCollectionData { collection: system }));
    let mut ctx = FontContext::new(&library);
    ctx.register_fonts(&mut library, tiny_font("Foo Sans", 400, b"latn")).unwrap();
    assert_eq!(ctx.fallback_families(&library, latin(), None), vec![sys_family]);
}

#[test]
fn context_taken_before_a_registration_sees_it_on_its_next_query() {
    let mut library = empty_library();
    let mut early = FontContext::new(&library);
    let mut other = FontContext::new(&library);
    assert!(early.family_by_name(&library, "Foo Sans").is_none());
    let reg = other.register_fonts(&mut library, tiny_font("Foo Sans", 400, b"latn")).unwrap();
    assert_eq!(library.user_version, 1);
    assert!(early.family_by_name(&library, "Foo Sans").is_some());
    let late = FontContext::new(&library);
    assert_eq!(late.user_version, 1);
    let mut late = late;
    assert!(late.family(&library, reg.families[0]).is_some());
    let font = late.font(&library, reg.fonts[0]).unwrap();
    assert_eq!(font.family, reg.families[0]);
    let source = late.source(&library, font.source).unwrap();
    assert_eq!(source.id, font.source);
    match late.load(&library, font.source) {
        LoadStep::Ready(d) => assert_eq!(d.as_bytes(), &tiny_font("Foo Sans", 400, b"latn")[..]),
        _ => panic!("memory sources are ready"),
    }
}

#[test]
fn blob_without_faces_registers_nothing() {
    let mut library = empty_library();
    let mut ctx = FontContext::new(&library);
    assert!(ctx.register_fonts(&mut library, vec![1, 2, 3, 4]).is_none());
    assert_eq!(library.user_version, 0);
    assert!(ctx.register_fonts(&mut library, Vec::new()).is_none());
}

#[test]
fn same_blob_twice_adds_one_entry() {
    let mut library = empty_library();
    let mut ctx = FontContext::new(&library);
    assert!(ctx.register_fonts(&mut library, tiny_font("Foo Sans", 400, b"latn")).is_some());
    assert!(ctx.register_fonts(&mut library, tiny_font("Foo Sans", 400, b"latn")).is_none());
    assert_eq!(library.user_version, 1);
    assert_eq!(ctx.family_by_name(&library, "FOO SANS").unwrap().fonts.len(), 1);
    assert!(ctx.register_fonts(&mut library, tiny_font("Foo Sans", 700, b"latn")).is_some());
    assert_eq!(ctx.family_by_name(&library, "foo sans").unwrap().fonts.len(), 2);
    assert_eq!(ctx.families(&library).len(), 1);
}

#[test]
fn han_chain_comes_from_the_system_lists() {
    let mut builder = LibraryBuilder::new();
    builder.add_fonts(&FontData::new(tiny_font("Noto Sans CJK JP", 400, b"hani")), SourceData::from_path("/jp.otf".to_string())).unwrap();
    let library = builder.build(Os::Other);
    let ctx = FontContext::new(&library);
    let neutral = ctx.fallback_families(&library, Script::han(), Some(Locale::new(Cjk::Neutral)));
    assert_eq!(neutral.len(), 1);
    assert!(ctx.fallback_families(&library, Script::han(), Some(Locale::new(Cjk::Korean))).is_empty());
    assert_eq!(ctx.fallback_families(&library, Script::han(), None), neutral);
    assert!(ctx.default_families(&library).is_empty());
    assert!(ctx.generic_families(&library, GenericFamily::Emoji).is_empty());
}

#[test]
fn system_file_source_loads_through_the_context() {
    let mut builder = LibraryBuilder::new();
    builder.add_fonts(&FontData::new(tiny_font("Cantarell Regular", 400, b"latn")), SourceData::from_path("/c.otf".to_string())).unwrap();
    assert!(builder.family_id("cantarell regular").is_some());
    builder.mark_missing("Nowhere");
    let mut library = builder.build(Os::Other);
    let mut ctx = FontContext::new(&library);
    assert_eq!(ctx.default_families(&library).len(), 1);
    let id = SourceId::new(0);
    match ctx.load(&library, id) {
        LoadStep::Read(p) => assert_eq!(p, "/c.otf"),
        _ => panic!("expected a read"),
    }
    let bytes = ctx.finish_load(&mut library, id, Some(vec![3, 3])).unwrap();
    assert_eq!(bytes.as_bytes(), &[3, 3]);
    assert!(ctx.family_by_name(&library, "nowhere").is_none());
}

#[test]
fn scanner_reads_name_weight_and_scripts() {
    let bytes = tiny_font("Foo Sans", 700, b"latn");
    let mut scanner = FontScanner::new();
    let records = scanner.scan(&bytes);
    assert_eq!(records.len(), 1);
    let face = &records[0];
    assert_eq!(face.name, "Foo Sans");
    assert_eq!(face.lowercase_name, "foo sans");
    assert_eq!(face.index, 0);
    assert_eq!(face.attributes.parts().1 .0, 700);
    assert_eq!(face.scripts, vec![(latin(), Cjk::Neutral)]);
    assert!(scanner.scan_font(&bytes, 1).is_none());
    assert!(scanner.scan(&[0u8, 1, 2, 3]).is_empty());
}

#[test]
fn registered_han_face_serves_when_the_system_has_none() {
    let mut library = empty_library();
    let mut ctx = FontContext::new(&library);
    let reg = ctx.register_fonts(&mut library, tiny_font("Mincho", 400, b"hani")).unwrap();
    assert_eq!(ctx.fallback_families(&library, Script::han(), None), vec![reg.families[0]]);
    assert!(ctx.fallback_families(&library, Script::han(), Some(Locale::new(Cjk::Korean))).is_empty());
}
