//! Reading face metadata out of font bytes.
//!
//! The font tables are parsed by swash; this module decides which family
//! name a face goes by and which scripts it is listed under.

use crate::attributes::Attributes;
use crate::ingest::ScannedFont;
use crate::lowercase::{fold_name, LowercaseString};
use crate::text::{Cjk, Script, HAN_TAG};
use swash::{FontDataRef, FontRef, StringId};
use vstd::prelude::*;
use vstd::string::StrSliceExecFns;
use vstd::utf8::encode_utf8;

verus! {

/// Number of faces swash finds in the bytes.
pub uninterp spec fn face_count_of(data: Seq<u8>) -> nat;

/// The family name (or, with `typographic`, the typographic family name) of
/// face `index`, for `language` or the language-neutral entry.
pub uninterp spec fn face_name_of(
    data: Seq<u8>,
    index: nat,
    typographic: bool,
    language: Option<Seq<char>>,
) -> Option<Seq<char>>;

/// Number of variation axes of face `index`.
pub uninterp spec fn face_axes_of(data: Seq<u8>, index: nat) -> nat;

/// Packed stretch, weight and style of face `index`.
pub uninterp spec fn face_attrs_of(data: Seq<u8>, index: nat) -> u32;

/// Writing systems of face `index`: the script tag when swash knows the
/// script, and the CJK variant of the language (as swash numbers them).
pub uninterp spec fn face_systems_of(data: Seq<u8>, index: nat) -> Seq<(Option<u32>, Option<u8>)>;

/// The view of an optional string slice.
pub open spec fn opt_view(s: Option<&str>) -> Option<Seq<char>> {
    match s {
        Some(l) => Some(l@),
        None => None,
    }
}

/// Relies on `swash::FontDataRef::new` and `FontDataRef::len`: the number of
/// faces in the bytes, none when they are not a font.
#[verifier::external_body]
fn face_count(data: &[u8]) -> (r: usize)
    ensures
        r == face_count_of(data@),
{
    match FontDataRef::new(data) {
        Some(f) => f.len(),
        None => 0,
    }
}

/// Whether the name record that `face_name_of` reads is found, and whether
/// it is stored in a Unicode encoding.
pub uninterp spec fn face_name_unicode_of(
    data: Seq<u8>,
    index: nat,
    typographic: bool,
    language: Option<Seq<char>>,
) -> Option<bool>;

/// Relies on `swash::FontRef::from_index`, `LocalizedStrings::find_by_id`
/// and `LocalizedString::is_unicode`: whether face `index` has the name
/// record, and whether the record is Unicode-encoded.
#[verifier::external_body]
fn face_name_encoding(data: &[u8], index: usize, typographic: bool, language: Option<&str>) -> (r: Option<bool>)
    ensures
        r == face_name_unicode_of(data@, index as nat, typographic, opt_view(language)),
{
    let id = if typographic {
        StringId::TypographicFamily
    } else {
        StringId::Family
    };
    FontRef::from_index(data, index)
        .and_then(|f| f.localized_strings().find_by_id(id, language))
        .map(|s| s.is_unicode())
}

/// Relies on `swash::FontRef::from_index`, `LocalizedStrings::find_by_id`
/// and `LocalizedString::chars`: a family name of face `index`. Only a
/// Unicode-encoded record is decoded: swash reads those with checked reads,
/// while its Mac Roman decoding may index past the table.
#[verifier::external_body]
fn face_name(data: &[u8], index: usize, typographic: bool, language: Option<&str>) -> (r: Option<String>)
    requires
        face_name_unicode_of(data@, index as nat, typographic, opt_view(language)) == Some(true),
    ensures
        match face_name_of(data@, index as nat, typographic, opt_view(language)) {
            Some(n) => r matches Some(s) && s@ == n,
            None => r is None,
        },
{
    let id = if typographic {
        StringId::TypographicFamily
    } else {
        StringId::Family
    };
    FontRef::from_index(data, index)
        .and_then(|f| f.localized_strings().find_by_id(id, language))
        .map(|s| s.chars().collect())
}

/// The family name of face `index` from a Unicode-encoded record; names in
/// other encodings are not read.
pub open spec fn unicode_name_of(
    data: Seq<u8>,
    index: nat,
    typographic: bool,
    language: Option<Seq<char>>,
) -> Option<Seq<char>> {
    if face_name_unicode_of(data, index, typographic, language) == Some(true) {
        face_name_of(data, index, typographic, language)
    } else {
        None
    }
}

fn unicode_name(data: &[u8], index: usize, typographic: bool, language: Option<&str>) -> (r: Option<String>)
    ensures
        match unicode_name_of(data@, index as nat, typographic, opt_view(language)) {
            Some(n) => r matches Some(s) && s@ == n,
            None => r is None,
        },
{
    match face_name_encoding(data, index, typographic, language) {
        Some(true) => face_name(data, index, typographic, language),
        _ => None,
    }
}

/// Relies on `swash::FontRef::from_index` and `FontRef::variations`: the
/// number of variation axes of face `index`.
#[verifier::external_body]
fn face_axis_count(data: &[u8], index: usize) -> (r: usize)
    ensures
        r == face_axes_of(data@, index as nat),
{
    FontRef::from_index(data, index).map(|f| f.variations().len()).unwrap_or(0)
}

/// Relies on `swash::FontRef::from_index` and `FontRef::attributes`: the
/// packed attributes of face `index`.
#[verifier::external_body]
fn face_attributes(data: &[u8], index: usize) -> (r: u32)
    ensures
        r == face_attrs_of(data@, index as nat),
{
    FontRef::from_index(data, index).map(|f| f.attributes().0).unwrap_or(0)
}

/// Relies on `swash::FontRef::from_index` and the `key` field of
/// `swash::FontRef`: a fresh cache key for face `index`.
#[verifier::external_body]
fn face_cache_key(data: &[u8], index: usize) -> u64 {
    FontRef::from_index(data, index).map(|f| f.key.value()).unwrap_or(0)
}

/// Relies on `swash::FontRef::from_index`, `FontRef::writing_systems`,
/// `WritingSystem::script`, `Script::to_opentype`, `WritingSystem::language`
/// and `Language::cjk`: the writing systems of face `index`.
#[verifier::external_body]
fn face_writing_systems(data: &[u8], index: usize) -> (r: Vec<(Option<u32>, Option<u8>)>)
    ensures
        r@ == face_systems_of(data@, index as nat),
{
    match FontRef::from_index(data, index) {
        Some(f) => f.writing_systems().map(|ws| (ws.script().map(|s| s.to_opentype()), ws.language().map(|l| l.cjk() as u8))).collect(),
        None => Vec::new(),
    }
}

/// Names starting with this vendor prefix tend to be overly specific.
pub open spec fn has_vendor_prefix(s: Seq<char>) -> bool {
    s.len() >= 4 && s[0] == 'N' && s[1] == 'o' && s[2] == 't' && s[3] == 'o'
}

/// Whether the other kind of family name should be consulted.
pub open spec fn wants_alternate(name: Seq<char>) -> bool {
    name.len() == 0 || has_vendor_prefix(name)
}

/// The family name chosen between a face's primary name and the other kind:
/// the other one when it is not empty and the primary one is empty or
/// longer in UTF-8 bytes.
pub open spec fn pick_name(primary: Seq<char>, alternate: Seq<char>) -> Seq<char> {
    if alternate.len() > 0 && (primary.len() == 0 || encode_utf8(alternate).len() < encode_utf8(primary).len()) {
        alternate
    } else {
        primary
    }
}

pub fn needs_alternate(name: &String) -> (r: bool)
    ensures
        r == wants_alternate(name@),
{
    let s = name.as_str();
    let n = s.unicode_len();
    if n == 0 {
        return true;
    }
    n >= 4 && s.get_char(0) == 'N' && s.get_char(1) == 'o' && s.get_char(2) == 't' && s.get_char(3) == 'o'
}

pub fn pick_family_name(primary: String, alternate: String) -> (r: String)
    ensures
        r@ == pick_name(primary@, alternate@),
{
    let a = alternate.as_str().as_bytes().len();
    let p = primary.as_str().as_bytes().len();
    let na = alternate.as_str().unicode_len();
    let np = primary.as_str().unicode_len();
    if na > 0 && (np == 0 || a < p) {
        alternate
    } else {
        primary
    }
}

/// The CJK variant swash numbers `n`.
pub open spec fn cjk_from_index(n: u8) -> Cjk {
    if n == 1 {
        Cjk::Traditional
    } else if n == 2 {
        Cjk::Simplified
    } else if n == 3 {
        Cjk::Japanese
    } else if n == 4 {
        Cjk::Korean
    } else {
        Cjk::Neutral
    }
}

pub fn cjk_from(n: u8) -> (r: Cjk)
    ensures
        r == cjk_from_index(n),
{
    if n == 1 {
        Cjk::Traditional
    } else if n == 2 {
        Cjk::Simplified
    } else if n == 3 {
        Cjk::Japanese
    } else if n == 4 {
        Cjk::Korean
    } else {
        Cjk::Neutral
    }
}

/// The (script, variant) pair a writing system is listed under: Han takes
/// the variant of its language, other scripts none; a writing system of an
/// unknown script is not listed.
pub open spec fn script_entry(ws: (Option<u32>, Option<u8>)) -> Option<(Script, Cjk)> {
    match ws.0 {
        None => None,
        Some(tag) => if tag == HAN_TAG && ws.1 is Some {
            Some((Script { tag }, cjk_from_index(ws.1->0)))
        } else {
            Some((Script { tag }, Cjk::Neutral))
        },
    }
}

/// Collects the distinct script entries of a face's writing systems.
pub fn script_entries(systems: &Vec<(Option<u32>, Option<u8>)>) -> (r: Vec<(Script, Cjk)>)
    ensures
        forall|i: int, j: int| 0 <= i < j < r@.len() ==> r@[i] != r@[j],
        forall|i: int| 0 <= i < systems@.len() && script_entry(#[trigger] systems@[i]) is Some ==> r@.contains(script_entry(systems@[i])->0),
        forall|k: int| 0 <= k < r@.len() ==> entry_from(systems@, #[trigger] r@[k]),
        r@.to_set() == entry_set(systems@),
{
    let mut r: Vec<(Script, Cjk)> = Vec::new();
    let mut i: usize = 0;
    while i < systems.len()
        invariant
            i <= systems@.len(),
            forall|a: int, b: int| 0 <= a < b < r@.len() ==> r@[a] != r@[b],
            forall|j: int| 0 <= j < i && script_entry(#[trigger] systems@[j]) is Some ==> r@.contains(script_entry(systems@[j])->0),
            forall|k: int| 0 <= k < r@.len() ==> entry_from(systems@, #[trigger] r@[k]),
        decreases systems@.len() - i,
    {
        let ws = systems[i];
        let entry = match ws.0 {
            None => None,
            Some(tag) => {
                if tag == HAN_TAG && ws.1.is_some() {
                    Some((Script { tag }, cjk_from(ws.1.unwrap())))
                } else {
                    Some((Script { tag }, Cjk::Neutral))
                }
            },
        };
        assert(entry == script_entry(systems@[i as int]));
        if let Some(e) = entry {
            let mut found = false;
            let mut k: usize = 0;
            while k < r.len()
                invariant
                    k <= r@.len(),
                    !found ==> forall|a: int| 0 <= a < k ==> r@[a] != e,
                    found ==> r@.contains(e),
                decreases r@.len() - k,
            {
                if r[k].0 == e.0 && r[k].1 == e.1 {
                    found = true;
                }
                k += 1;
            }
            if !found {
                let ghost old_r = r@;
                assert(entry_from(systems@, e)) by {
                    assert(script_entry(systems@[i as int]) == Some(e));
                }
                r.push(e);
                assert(forall|k: int| 0 <= k < old_r.len() ==> r@[k] == old_r[k]);
                assert(r@.last() == e);
                assert(forall|j: int| 0 <= j < old_r.len() ==> r@[j] == old_r[j]);
                assert forall|j: int| 0 <= j < i + 1 && script_entry(#[trigger] systems@[j]) is Some implies r@.contains(script_entry(systems@[j])->0) by {
                    if j < i {
                        let x = script_entry(systems@[j])->0;
                        let a = choose|a: int| 0 <= a < old_r.len() && old_r[a] == x;
                        assert(r@[a] == x);
                    } else {
                        assert(r@[r@.len() - 1] == e);
                    }
                }
            }
        }
        i += 1;
    }
    assert(r@.to_set() =~= entry_set(systems@)) by {
        assert forall|e: (Script, Cjk)| entry_set(systems@).contains(e) implies r@.to_set().contains(e) by {
            let j = choose|j: int| 0 <= j < systems@.len() && script_entry(#[trigger] systems@[j]) == Some(e);
            assert(r@.contains(script_entry(systems@[j])->0));
        }
        assert forall|e: (Script, Cjk)| r@.to_set().contains(e) implies entry_set(systems@).contains(e) by {
            let k = choose|k: int| 0 <= k < r@.len() && r@[k] == e;
            assert(entry_from(systems@, r@[k]));
        }
    }
    r
}

/// `e` is the entry of some writing system in `systems`.
pub open spec fn entry_from(systems: Seq<(Option<u32>, Option<u8>)>, e: (Script, Cjk)) -> bool {
    exists|i: int| 0 <= i < systems.len() && script_entry(#[trigger] systems[i]) == Some(e)
}

/// The entries of a face's writing systems.
pub open spec fn entry_set(systems: Seq<(Option<u32>, Option<u8>)>) -> Set<(Script, Cjk)> {
    Set::new(|e: (Script, Cjk)| entry_from(systems, e))
}

/// The language whose names are preferred.
pub open spec fn english() -> Seq<char> {
    seq!['e', 'n']
}

/// A family name of the face: the English entry, else the language-neutral
/// one, else empty.
pub open spec fn face_name_or_empty(data: Seq<u8>, index: nat, typographic: bool) -> Seq<char> {
    match unicode_name_of(data, index, typographic, Some(english())) {
        Some(n) => n,
        None => match unicode_name_of(data, index, typographic, None) {
            Some(n) => n,
            None => Seq::empty(),
        },
    }
}

/// The family name a face goes by. Variable faces tend to fold the full
/// style into the plain family name, so their typographic family name comes
/// first; a vendor-prefixed or empty name is weighed against the other kind.
pub open spec fn chosen_name(data: Seq<u8>, index: nat) -> Seq<char> {
    let is_var = face_axes_of(data, index) != 0;
    let primary = face_name_or_empty(data, index, is_var);
    if wants_alternate(primary) {
        pick_name(primary, face_name_or_empty(data, index, !is_var))
    } else {
        primary
    }
}

/// The record of face `index` carries what the face's tables say.
pub open spec fn describes_face(s: ScannedFont, data: Seq<u8>, index: nat) -> bool {
    &&& s.name@ == chosen_name(data, index)
    &&& s.index == index
    &&& s.attributes.bits == face_attrs_of(data, index)
    &&& s.scripts@.to_set() == entry_set(face_systems_of(data, index))
    &&& scanned_wf(s)
}

/// Indices below `n` of the faces that have a family name, in order.
pub open spec fn named_faces(data: Seq<u8>, n: nat) -> Seq<nat>
    decreases n,
{
    if n == 0 {
        Seq::empty()
    } else {
        let prev = named_faces(data, (n - 1) as nat);
        if chosen_name(data, (n - 1) as nat).len() > 0 {
            prev.push((n - 1) as nat)
        } else {
            prev
        }
    }
}

/// Faces scanned from `data`: face indices fit 32 bits.
pub open spec fn scan_limit(data: Seq<u8>) -> nat {
    if face_count_of(data) > u32::MAX + 1 {
        (u32::MAX + 1) as nat
    } else {
        face_count_of(data)
    }
}

/// The records a scan of `data` gives are those of the named faces, in order.
pub open spec fn scan_result(r: Seq<ScannedFont>, data: Seq<u8>) -> bool {
    let idx = named_faces(data, scan_limit(data));
    &&& r.len() == idx.len()
    &&& forall|k: int| 0 <= k < r.len() ==> describes_face(#[trigger] r[k], data, idx[k])
}

/// Scans the faces of a font file.
pub struct FontScanner {
    lowercase: LowercaseString,
}

impl FontScanner {
    pub fn new() -> (r: Self) {
        FontScanner { lowercase: LowercaseString::new() }
    }

    /// Scans every face in `data`, in order; faces without a family name are
    /// left out.
    pub fn scan(&mut self, data: &[u8]) -> (r: Vec<ScannedFont>)
        ensures
            scan_result(r@, data@),
    {
        let mut out: Vec<ScannedFont> = Vec::new();
        let count = face_count(data);
        let len: usize = if count > u32::MAX as usize {
            u32::MAX as usize + 1
        } else {
            count
        };
        let mut i: usize = 0;
        while i < len
            invariant
                len == scan_limit(data@),
                i <= len,
                len <= u32::MAX + 1,
                out@.len() == named_faces(data@, i as nat).len(),
                forall|k: int| 0 <= k < out@.len() ==> describes_face(#[trigger] out@[k], data@, named_faces(data@, i as nat)[k]),
            decreases len - i,
        {
            let ghost before = out@;
            if let Some(scanned) = self.scan_font(data, i as u32) {
                out.push(scanned);
                assert(forall|k: int| 0 <= k < before.len() ==> out@[k] == before[k]);
            }
            assert(named_faces(data@, (i + 1) as nat) == if chosen_name(data@, i as nat).len() > 0 {
                named_faces(data@, i as nat).push(i as nat)
            } else {
                named_faces(data@, i as nat)
            });
            i += 1;
        }
        out
    }

    /// Reads face `index` of `data`: its family name, attributes, cache key
    /// and scripts. Gives nothing when the face has no family name.
    pub fn scan_font(&mut self, data: &[u8], index: u32) -> (r: Option<ScannedFont>)
        ensures
            r is Some <==> chosen_name(data@, index as nat).len() > 0,
            r matches Some(s) ==> describes_face(s, data@, index as nat),
    {
        let i = index as usize;
        let en = "en";
        proof {
            reveal_strlit("en");
            assert(en@ =~= english());
        }
        let is_var = face_axis_count(data, i) != 0;
        let mut name = match unicode_name(data, i, is_var, Some(en)) {
            Some(n) => n,
            None => match unicode_name(data, i, is_var, None) {
                Some(n) => n,
                None => String::new(),
            },
        };
        if needs_alternate(&name) {
            let alternate = match unicode_name(data, i, !is_var, Some(en)) {
                Some(n) => n,
                None => match unicode_name(data, i, !is_var, None) {
                    Some(n) => n,
                    None => String::new(),
                },
            };
            name = pick_family_name(name, alternate);
        }
        assert(name@ == chosen_name(data@, index as nat));
        if name.as_str().unicode_len() == 0 {
            return None;
        }
        let lowercase_name = match self.lowercase.get(name.as_str()) {
            Some(l) => l,
            None => return None,
        };
        let attributes = Attributes { bits: face_attributes(data, i) };
        let systems = face_writing_systems(data, i);
        let scripts = script_entries(&systems);
        Some(
            ScannedFont {
                name,
                lowercase_name,
                index,
                attributes,
                cache_key: face_cache_key(data, i),
                scripts,
            },
        )
    }
}

/// A scanned record has a non-empty name, its folded form, and distinct
/// script entries.
pub open spec fn scanned_wf(s: ScannedFont) -> bool {
    &&& s.name@.len() > 0
    &&& s.lowercase_name@ == fold_name(s.name@)
    &&& forall|i: int, j: int| 0 <= i < j < s.scripts@.len() ==> s.scripts@[i] != s.scripts@[j]
}

} // verus!
