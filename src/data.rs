//! Indexed font collections.
//!
//! A collection owns its families, fonts and sources, each addressed by an
//! identifier whose index is the position in its table and whose origin bit
//! says which collection it belongs to. Families are found by their folded
//! name; per-script fallback lists, CJK variant lists, the default list and
//! the generic family lists are ordered lists of family identifiers.

use crate::attributes::{Attributes, Stretch, Style, Weight};
use crate::font;
use crate::id::{FamilyId, FontId, SourceId, MAX_INDEX};
use crate::lowercase::{fold_name, LowercaseString};
use crate::source::{load_step, load_step_allowed, finish_load, filled_by, LoadStep, SourceData, SourceDataKind, SourceDataStatus};
use crate::text::{cjk_of, locale_cjk, GenericFamily, Locale, Script, CJK_FAMILY_COUNT, GENERIC_FAMILY_COUNT};
use vstd::prelude::*;

verus! {

broadcast use crate::id::group_id_eq;

/// One font of a family: its identifier and its stretch, weight and style.
pub type FontSlot = (FontId, Stretch, Weight, Style);

/// A family: its name, its fonts in ascending weight, and whether any of
/// them has a stretch other than normal.
pub struct FamilyData {
    pub name: String,
    pub has_stretch: bool,
    pub fonts: Vec<FontSlot>,
}

/// A font: its family, its source, its face index within the source, its
/// attributes and the key that identifies it to caches.
#[derive(Clone, Copy)]
pub struct FontData {
    pub family: FamilyId,
    pub source: SourceId,
    pub index: u32,
    pub attributes: Attributes,
    pub cache_key: u64,
}

/// A family as a query hands it out.
pub struct FamilyEntry {
    pub id: FamilyId,
    pub name: String,
    pub has_stretch: bool,
    pub fonts: Vec<FontSlot>,
}

/// A font as a query hands it out.
#[derive(Clone, Copy)]
pub struct FontEntry {
    pub id: FontId,
    pub family: FamilyId,
    pub source: SourceId,
    pub index: u32,
    pub attributes: Attributes,
    pub cache_key: u64,
}

/// Where the bytes of a source come from, as a query hands it out.
pub enum SourceKind {
    /// A file of a scanned collection.
    Path(String),
    /// Bytes held in memory.
    Data(font::FontData),
    /// A file of a precompiled collection.
    FileName(String),
}

/// A source as a query hands it out.
pub struct SourceEntry {
    pub id: SourceId,
    pub kind: SourceKind,
}

/// Identifiers of the families and fonts one registration added.
pub struct Registration {
    pub families: Vec<FamilyId>,
    pub fonts: Vec<FontId>,
}

impl Registration {
    pub fn new() -> (r: Self)
        ensures
            r.families@ == Seq::<FamilyId>::empty(),
            r.fonts@ == Seq::<FontId>::empty(),
    {
        Registration { families: Vec::new(), fonts: Vec::new() }
    }
}

/// Two font slots carry the same stretch, weight and style.
pub open spec fn same_style(a: FontSlot, b: FontSlot) -> bool {
    a.1 == b.1 && a.2 == b.2 && a.3 == b.3
}

/// A font record carries the stretch, weight and style of its slot.
pub open spec fn slot_matches(record: FontData, slot: FontSlot) -> bool {
    &&& crate::attributes::stretch_bits(record.attributes.bits) == slot.1.0
    &&& crate::attributes::weight_bits(record.attributes.bits) == slot.2.0
    &&& crate::attributes::style_bits(record.attributes.bits) == slot.3
}

/// A list of family identifiers without repeats.
pub open spec fn no_repeats(l: Seq<FamilyId>) -> bool {
    forall|i: int, j: int| 0 <= i < j < l.len() ==> l[i] != l[j]
}

/// Copies a list of font slots.
pub fn copy_slots(v: &Vec<FontSlot>) -> (r: Vec<FontSlot>)
    ensures
        r@ == v@,
{
    let mut r: Vec<FontSlot> = Vec::new();
    let mut i: usize = 0;
    while i < v.len()
        invariant
            i <= v@.len(),
            r@ == v@.subrange(0, i as int),
        decreases v@.len() - i,
    {
        r.push(v[i]);
        i += 1;
        assert(r@ =~= v@.subrange(0, i as int));
    }
    assert(r@ =~= v@);
    r
}

/// Indexed collection of families, fonts and sources.
pub struct CollectionData {
    pub is_user: bool,
    pub families: Vec<FamilyData>,
    pub fonts: Vec<FontData>,
    pub sources: Vec<SourceData>,
    /// Folded family name, and the family it names; `None` marks a name
    /// known to have no family.
    pub family_map: Vec<(String, Option<FamilyId>)>,
    pub default_families: Vec<FamilyId>,
    pub generic_families: Vec<Vec<FamilyId>>,
    pub cjk_families: Vec<Vec<FamilyId>>,
    /// Script tag and its fallback families, in order of registration.
    pub script_fallbacks: Vec<(u32, Vec<FamilyId>)>,
}

impl CollectionData {
    pub open spec fn valid_family(&self, id: FamilyId) -> bool {
        id.is_user() == self.is_user && id.index() < self.families@.len()
    }

    pub open spec fn valid_font(&self, id: FontId) -> bool {
        id.is_user() == self.is_user && id.index() < self.fonts@.len()
    }

    pub open spec fn valid_source(&self, id: SourceId) -> bool {
        id.is_user() == self.is_user && id.index() < self.sources@.len()
    }

    /// A list of families of this collection.
    pub open spec fn valid_ids(&self, l: Seq<FamilyId>) -> bool {
        forall|i: int| 0 <= i < l.len() ==> self.valid_family(#[trigger] l[i])
    }

    /// A list of families of this collection, without repeats.
    pub open spec fn valid_list(&self, l: Seq<FamilyId>) -> bool {
        &&& self.valid_ids(l)
        &&& no_repeats(l)
    }

    /// The fonts of family `k` belong to it, ascend by weight, and differ
    /// pairwise in stretch, weight or style.
    pub open spec fn family_wf(&self, k: int) -> bool {
        let f = self.families@[k].fonts@;
        &&& forall|j: int|
            0 <= j < f.len() ==> self.valid_font(#[trigger] f[j].0) && self.fonts@[f[j].0.index() as int].family.index()
                == k && slot_matches(self.fonts@[f[j].0.index() as int], f[j])
        &&& forall|i: int, j: int| 0 <= i < j < f.len() ==> f[i].2.0 <= f[j].2.0
        &&& forall|i: int, j: int| 0 <= i < j < f.len() ==> !same_style(f[i], f[j])
        &&& self.families@[k].has_stretch == exists|j: int| 0 <= j < f.len() && (#[trigger] f[j]).1.0 != crate::attributes::NORMAL_STRETCH
    }

    /// The family map's keys are distinct, and its families are distinct
    /// families of this collection.
    pub open spec fn map_wf(&self) -> bool {
        let m = self.family_map@;
        &&& forall|i: int, j: int|
            0 <= i < m.len() && 0 <= j < m.len() && i != j ==> (#[trigger] m[i]).0@ != (#[trigger] m[j]).0@
        &&& forall|i: int|
            0 <= i < m.len() && (#[trigger] m[i]).1 is Some ==> self.valid_family(m[i].1->0)
        &&& forall|i: int, j: int|
            0 <= i < m.len() && 0 <= j < m.len() && i != j && (#[trigger] m[i]).1 is Some && (#[trigger] m[j]).1 is Some
                ==> m[i].1 != m[j].1
    }

    pub open spec fn lists_wf(&self) -> bool {
        &&& self.generic_families@.len() == GENERIC_FAMILY_COUNT
        &&& self.cjk_families@.len() == CJK_FAMILY_COUNT
        &&& self.valid_ids(self.default_families@)
        &&& forall|i: int|
            0 <= i < GENERIC_FAMILY_COUNT ==> self.valid_ids(#[trigger] self.generic_families@[i]@)
        &&& forall|i: int| 0 <= i < CJK_FAMILY_COUNT ==> self.valid_list(#[trigger] self.cjk_families@[i]@)
        &&& forall|i: int|
            0 <= i < self.script_fallbacks@.len() ==> self.valid_list(
                #[trigger] self.script_fallbacks@[i].1@,
            )
        &&& forall|i: int, j: int|
            0 <= i < j < self.script_fallbacks@.len() ==> self.script_fallbacks@[i].0
                != self.script_fallbacks@[j].0
    }

    /// Well-formedness of a collection.
    pub open spec fn wf(&self) -> bool {
        &&& self.families@.len() <= MAX_INDEX + 1
        &&& self.fonts@.len() <= MAX_INDEX + 1
        &&& self.sources@.len() <= MAX_INDEX + 1
        &&& forall|k: int| 0 <= k < self.families@.len() ==> #[trigger] self.family_wf(k)
        &&& forall|k: int|
            0 <= k < self.fonts@.len() ==> self.valid_family((#[trigger] self.fonts@[k]).family)
                && self.valid_source(self.fonts@[k].source)
        &&& self.map_wf()
        &&& self.lists_wf()
    }

    /// Position in the family map of the folded name `key`, if any.
    pub open spec fn map_position(&self, key: Seq<char>) -> Option<int> {
        let m = self.map_view();
        if exists|i: int| 0 <= i < m.len() && (#[trigger] m[i]).0 == key {
            Some(choose|i: int| 0 <= i < m.len() && (#[trigger] m[i]).0 == key)
        } else {
            None
        }
    }

    /// The family map as folded names and families.
    pub open spec fn map_view(&self) -> Seq<(Seq<char>, Option<FamilyId>)> {
        self.family_map@.map_values(|e: (String, Option<FamilyId>)| (e.0@, e.1))
    }

    /// Family well-formedness depends on the families, the fonts and the
    /// origin alone.
    pub proof fn lemma_families_kept(a: &Self, b: &Self)
        requires
            a.families@ == b.families@,
            a.fonts@ == b.fonts@,
            a.is_user == b.is_user,
            forall|k: int| 0 <= k < a.families@.len() ==> #[trigger] a.family_wf(k),
        ensures
            forall|k: int| 0 <= k < b.families@.len() ==> #[trigger] b.family_wf(k),
    {
        assert forall|k: int| 0 <= k < b.families@.len() implies #[trigger] b.family_wf(k) by {
            assert(a.family_wf(k));
        }
    }

    /// Font records stay valid when families, fonts, source count and origin
    /// are kept.
    pub proof fn lemma_records_kept(a: &Self, b: &Self)
        requires
            a.families@.len() == b.families@.len(),
            a.fonts@ == b.fonts@,
            a.sources@.len() == b.sources@.len(),
            a.is_user == b.is_user,
            forall|k: int|
                0 <= k < a.fonts@.len() ==> a.valid_family((#[trigger] a.fonts@[k]).family)
                    && a.valid_source(a.fonts@[k].source),
        ensures
            forall|k: int|
                0 <= k < b.fonts@.len() ==> b.valid_family((#[trigger] b.fonts@[k]).family)
                    && b.valid_source(b.fonts@[k].source),
    {
        assert forall|k: int| 0 <= k < b.fonts@.len() implies b.valid_family((#[trigger] b.fonts@[k]).family)
            && b.valid_source(b.fonts@[k].source) by {
            assert(a.fonts@[k] == b.fonts@[k]);
            assert(a.valid_family(a.fonts@[k].family));
            assert(a.valid_source(a.fonts@[k].source));
        }
    }

    /// Gathers the parts of well-formedness.
    pub proof fn lemma_wf_intro(&self)
        requires
            self.families@.len() <= MAX_INDEX + 1,
            self.fonts@.len() <= MAX_INDEX + 1,
            self.sources@.len() <= MAX_INDEX + 1,
            forall|k: int| 0 <= k < self.families@.len() ==> #[trigger] self.family_wf(k),
            forall|k: int|
                0 <= k < self.fonts@.len() ==> self.valid_family((#[trigger] self.fonts@[k]).family)
                    && self.valid_source(self.fonts@[k].source),
            self.map_wf(),
            self.lists_wf(),
        ensures
            self.wf(),
    {
    }

    /// A key found at position `i` of a map with distinct keys is found
    /// there alone.
    pub proof fn lemma_position(&self, key: Seq<char>, i: int)
        requires
            forall|a: int, b: int|
                0 <= a < self.family_map@.len() && 0 <= b < self.family_map@.len() && a != b
                    ==> (#[trigger] self.family_map@[a]).0@ != (#[trigger] self.family_map@[b]).0@,
            0 <= i < self.family_map@.len(),
            self.family_map@[i].0@ == key,
        ensures
            self.map_position(key) == Some(i),
    {
        let m = self.map_view();
        assert(0 <= i < m.len() && (#[trigger] m[i]).0 == key);
        let j = choose|j: int| 0 <= j < m.len() && (#[trigger] m[j]).0 == key;
        if j != i {
            assert(self.family_map@[i].0@ != self.family_map@[j].0@);
        }
    }

    /// The family the folded name `key` names, if any.
    pub open spec fn lookup(&self, key: Seq<char>) -> Option<FamilyId> {
        match self.map_position(key) {
            Some(i) => self.family_map@[i].1,
            None => None,
        }
    }

    /// The family list a fallback query gives.
    pub open spec fn fallback_spec(&self, script: Script, locale: Option<Locale>) -> Seq<FamilyId> {
        if script.tag == crate::text::HAN_TAG {
            self.cjk_families@[cjk_of(locale).spec_index() as int]@
        } else if exists|i: int|
            0 <= i < self.script_fallbacks@.len() && (#[trigger] self.script_fallbacks@[i]).0 == script.tag {
            let i = choose|i: int|
                0 <= i < self.script_fallbacks@.len() && (#[trigger] self.script_fallbacks@[i]).0 == script.tag;
            self.script_fallbacks@[i].1@
        } else {
            self.default_families@
        }
    }

    /// An empty collection; `is_user` tells which population it holds.
    pub fn new(is_user: bool) -> (r: Self)
        ensures
            r.wf(),
            r.is_user == is_user,
            r.families@.len() == 0,
            r.fonts@.len() == 0,
            r.sources@.len() == 0,
            r.family_map@.len() == 0,
            r.default_families@.len() == 0,
            r.script_fallbacks@.len() == 0,
            forall|i: int| 0 <= i < GENERIC_FAMILY_COUNT ==> (#[trigger] r.generic_families@[i])@.len() == 0,
            forall|i: int| 0 <= i < CJK_FAMILY_COUNT ==> (#[trigger] r.cjk_families@[i])@.len() == 0,
    {
        let mut generic_families: Vec<Vec<FamilyId>> = Vec::new();
        let mut i: usize = 0;
        while i < GENERIC_FAMILY_COUNT
            invariant
                i <= GENERIC_FAMILY_COUNT,
                generic_families@.len() == i,
                forall|j: int| 0 <= j < i ==> (#[trigger] generic_families@[j])@.len() == 0,
            decreases GENERIC_FAMILY_COUNT - i,
        {
            generic_families.push(Vec::new());
            i += 1;
        }
        let mut cjk_families: Vec<Vec<FamilyId>> = Vec::new();
        let mut i: usize = 0;
        while i < CJK_FAMILY_COUNT
            invariant
                i <= CJK_FAMILY_COUNT,
                cjk_families@.len() == i,
                forall|j: int| 0 <= j < i ==> (#[trigger] cjk_families@[j])@.len() == 0,
            decreases CJK_FAMILY_COUNT - i,
        {
            cjk_families.push(Vec::new());
            i += 1;
        }
        CollectionData {
            is_user,
            families: Vec::new(),
            fonts: Vec::new(),
            sources: Vec::new(),
            family_map: Vec::new(),
            default_families: Vec::new(),
            generic_families,
            cjk_families,
            script_fallbacks: Vec::new(),
        }
    }

    /// Position of the folded name `key` in the family map.
    pub fn find_key(&self, key: &String) -> (r: Option<usize>)
        requires
            self.map_wf(),
        ensures
            r is None <==> self.map_position(key@) is None,
            r matches Some(i) ==> self.map_position(key@) == Some(i as int),
    {
        let mut i: usize = 0;
        while i < self.family_map.len()
            invariant
                i <= self.family_map@.len(),
                self.map_wf(),
                forall|j: int| 0 <= j < i ==> (#[trigger] self.family_map@[j]).0@ != key@,
            decreases self.family_map@.len() - i,
        {
            if self.family_map[i].0 == *key {
                proof {
                    self.lemma_position(key@, i as int);
                }
                return Some(i);
            }
            i += 1;
        }
        None
    }

    /// The family named `name`, compared without regard to case.
    pub fn family_id(&self, name: &str) -> (r: Option<FamilyId>)
        requires
            self.wf(),
        ensures
            r == self.lookup(fold_name(name@)),
            r matches Some(id) ==> self.valid_family(id),
    {
        let mut lowercase_buf = LowercaseString::new();
        let key = match lowercase_buf.get(name) {
            Some(key) => key,
            None => return None,
        };
        match self.find_key(&key) {
            Some(i) => self.family_map[i].1,
            None => None,
        }
    }

    /// Marks `name` as a name that no family answers to, unless the name is
    /// known already.
    pub fn mark_missing(&mut self, name: &str)
        requires
            old(self).wf(),
        ensures
            final(self).wf(),
            final(self).is_user == old(self).is_user,
            final(self).families@ == old(self).families@,
            final(self).fonts@ == old(self).fonts@,
            final(self).sources@ == old(self).sources@,
            final(self).lookup(fold_name(name@)) == old(self).lookup(fold_name(name@)),
            final(self).map_position(fold_name(name@)) is Some,
            final(self).family_map@.len() >= old(self).family_map@.len(),
            final(self).family_map@.subrange(0, old(self).family_map@.len() as int) == old(self).family_map@,
    {
        let mut lowercase_buf = LowercaseString::new();
        let key = match lowercase_buf.get(name) {
            Some(key) => key,
            None => return,
        };
        proof {
            assert(self.family_map@.subrange(0, self.family_map@.len() as int) =~= self.family_map@);
        }
        if self.find_key(&key).is_none() {
            let ghost before = *self;
            assert forall|i: int| 0 <= i < before.family_map@.len() implies (#[trigger] before.family_map@[i]).0@ != key@ by {
                assert(before.map_view()[i].0 == before.family_map@[i].0@);
            }
            self.family_map.push((key, None));
            assert(forall|i: int| 0 <= i < before.family_map@.len() ==> #[trigger] self.family_map@[i] == before.family_map@[i]);
            proof {
                self.lemma_position(fold_name(name@), before.family_map@.len() as int);
                assert(self.family_map@.subrange(0, before.family_map@.len() as int) =~= before.family_map@);
            }
            proof {
                Self::lemma_families_kept(&before, self);
                let m = self.family_map@;
                let n = before.family_map@.len() as int;
                assert forall|i: int, j: int|
                    0 <= i < m.len() && 0 <= j < m.len() && i != j implies (#[trigger] m[i]).0@ != (#[trigger] m[j]).0@ by {
                    if i < n && j < n {
                        assert(before.family_map@[i].0@ != before.family_map@[j].0@);
                    }
                }
                assert forall|i: int| 0 <= i < m.len() && (#[trigger] m[i]).1 is Some implies self.valid_family(m[i].1->0) by {
                    assert(before.valid_family(before.family_map@[i].1->0));
                }
                assert forall|i: int, j: int|
                    0 <= i < m.len() && 0 <= j < m.len() && i != j && (#[trigger] m[i]).1 is Some && (#[trigger] m[j]).1 is Some
                        implies m[i].1 != m[j].1 by {
                    assert(before.family_map@[i].1 != before.family_map@[j].1);
                }
                assert(self.map_wf());
                assert(self.lists_wf());
                assert(self.fonts@ == before.fonts@);
                assert(self.sources@ == before.sources@);
                assert(self.families@ == before.families@);
                Self::lemma_records_kept(&before, self);
                self.lemma_wf_intro();
            }
        }
    }

    /// The family with identifier `id`.
    pub fn family(&self, id: FamilyId) -> (r: Option<FamilyEntry>)
        ensures
            r.is_some() <==> self.valid_family(id),
            r matches Some(e) ==> e.id == id && e.name@ == self.families@[id.index() as int].name@
                && e.has_stretch == self.families@[id.index() as int].has_stretch && e.fonts@
                == self.families@[id.index() as int].fonts@,
    {
        if id.is_user_font() != self.is_user {
            return None;
        }
        let index = id.to_usize();
        if index >= self.families.len() {
            return None;
        }
        let family = &self.families[index];
        Some(
            FamilyEntry {
                id,
                name: family.name.clone(),
                has_stretch: family.has_stretch,
                fonts: copy_slots(&family.fonts),
            },
        )
    }

    /// The family named `name`, compared without regard to case.
    pub fn family_by_name(&self, name: &str) -> (r: Option<FamilyEntry>)
        requires
            self.wf(),
        ensures
            r.is_some() <==> self.lookup(fold_name(name@)) is Some,
            r matches Some(e) ==> Some(e.id) == self.lookup(fold_name(name@)) && e.name@
                == self.families@[e.id.index() as int].name@ && e.fonts@ == self.families@[e.id.index() as int].fonts@,
    {
        let family_id = match self.family_id(name) {
            Some(id) => id,
            None => return None,
        };
        self.family(family_id)
    }

    /// The families of the generic kind `family`.
    pub fn generic_families(&self, family: GenericFamily) -> (r: &[FamilyId])
        requires
            self.wf(),
        ensures
            r@ == self.generic_families@[family.spec_index() as int]@,
    {
        self.generic_families[family.index()].as_slice()
    }

    /// The default families.
    pub fn default_families(&self) -> (r: &[FamilyId])
        ensures
            r@ == self.default_families@,
    {
        self.default_families.as_slice()
    }

    /// Position of the fallback list of script tag `tag`.
    pub fn find_script(&self, tag: u32) -> (r: Option<usize>)
        requires
            self.wf(),
        ensures
            r matches Some(i) ==> i < self.script_fallbacks@.len() && self.script_fallbacks@[i as int].0 == tag,
            r is None ==> forall|i: int| 0 <= i < self.script_fallbacks@.len() ==> (#[trigger] self.script_fallbacks@[i]).0 != tag,
    {
        let mut i: usize = 0;
        while i < self.script_fallbacks.len()
            invariant
                i <= self.script_fallbacks@.len(),
                forall|j: int| 0 <= j < i ==> (#[trigger] self.script_fallbacks@[j]).0 != tag,
            decreases self.script_fallbacks@.len() - i,
        {
            if self.script_fallbacks[i].0 == tag {
                return Some(i);
            }
            i += 1;
        }
        None
    }

    /// The fallback chain for `script` in `locale`: for Han, the list of the
    /// locale's CJK variant; otherwise the script's list, or the default
    /// families when the script has none.
    pub fn fallback_families(&self, script: Script, locale: Option<Locale>) -> (r: &[FamilyId])
        requires
            self.wf(),
        ensures
            r@ == self.fallback_spec(script, locale),
    {
        if script.is_han() {
            let cjk = locale_cjk(locale);
            return self.cjk_families[cjk.index()].as_slice();
        }
        match self.find_script(script.tag) {
            Some(i) => {
                assert(self.script_fallbacks@[i as int].0 == script.tag);
                self.script_fallbacks[i].1.as_slice()
            },
            None => self.default_families.as_slice(),
        }
    }

    /// The font with identifier `id`.
    pub fn font(&self, id: FontId) -> (r: Option<FontEntry>)
        ensures
            r.is_some() <==> self.valid_font(id),
            r matches Some(e) ==> {
                let f = self.fonts@[id.index() as int];
                &&& e.id == id
                &&& e.family == f.family
                &&& e.source == f.source
                &&& e.index == f.index
                &&& e.attributes == f.attributes
                &&& e.cache_key == f.cache_key
            },
    {
        if id.is_user_font() != self.is_user {
            return None;
        }
        let index = id.to_usize();
        if index >= self.fonts.len() {
            return None;
        }
        let font = &self.fonts[index];
        Some(
            FontEntry {
                id,
                family: font.family,
                source: font.source,
                index: font.index,
                attributes: font.attributes,
                cache_key: font.cache_key,
            },
        )
    }

    /// The source with identifier `id`.
    pub fn source(&self, id: SourceId) -> (r: Option<SourceEntry>)
        ensures
            r.is_some() <==> self.valid_source(id),
            r matches Some(e) ==> e.id == id && match (e.kind, self.sources@[id.index() as int].kind) {
                (SourceKind::Path(a), SourceDataKind::Path(b)) => a@ == b@,
                (SourceKind::Data(a), SourceDataKind::Data(b)) => a@ == b@,
                _ => false,
            },
    {
        if id.is_user_font() != self.is_user {
            return None;
        }
        let index = id.to_usize();
        if index >= self.sources.len() {
            return None;
        }
        let kind = match &self.sources[index].kind {
            SourceDataKind::Path(path) => SourceKind::Path(path.clone()),
            SourceDataKind::Data(data) => SourceKind::Data(data.clone()),
        };
        Some(SourceEntry { id, kind })
    }

    /// Starts loading the bytes of source `id`; see [`load_step`].
    pub fn load(&self, id: SourceId) -> (r: LoadStep)
        ensures
            !self.valid_source(id) ==> r is Absent,
            self.valid_source(id) ==> load_step_allowed(self.sources@[id.index() as int], r),
    {
        if id.is_user_font() != self.is_user {
            return LoadStep::Absent;
        }
        let index = id.to_usize();
        if index >= self.sources.len() {
            return LoadStep::Absent;
        }
        load_step(&self.sources[index])
    }

    /// Completes a load of source `id` with the outcome of reading its file;
    /// see [`finish_load`].
    pub fn finish_load(&mut self, id: SourceId, read: Option<Vec<u8>>) -> (r: Option<font::FontData>)
        requires
            old(self).wf(),
        ensures
            final(self).wf(),
            final(self).is_user == old(self).is_user,
            final(self).families@ == old(self).families@,
            final(self).family_map@ == old(self).family_map@,
            final(self).fonts@ == old(self).fonts@,
            final(self).sources@.len() == old(self).sources@.len(),
            forall|k: int| 0 <= k < old(self).sources@.len() && k != id.index() ==> #[trigger] final(self).sources@[k] == old(self).sources@[k],
            old(self).valid_source(id) ==> final(self).sources@[id.index() as int].kind == old(self).sources@[id.index() as int].kind,
            final(self).default_families@ == old(self).default_families@,
            final(self).generic_families@ == old(self).generic_families@,
            final(self).cjk_families@ == old(self).cjk_families@,
            final(self).script_fallbacks@ == old(self).script_fallbacks@,
            !old(self).valid_source(id) ==> r is None && *final(self) == *old(self),
            old(self).valid_source(id) ==> {
                let i = id.index() as int;
                let before = old(self).sources@[i].status;
                let after = final(self).sources@[i].status;
                &&& final(self).sources@.len() == old(self).sources@.len()
                &&& match before {
                    SourceDataStatus::Error => r is None && after is Error,
                    SourceDataStatus::Vacant => filled_by(read, r, after),
                    SourceDataStatus::Present(w) => (r matches Some(d) && d@ == w@ && after.same(before))
                        || filled_by(read, r, after),
                }
            },
    {
        if id.is_user_font() != self.is_user {
            return None;
        }
        let index = id.to_usize();
        if index >= self.sources.len() {
            return None;
        }
        let ghost before = *self;
        let r = finish_load(&mut self.sources[index].status, read);
        proof {
            Self::lemma_families_kept(&before, self);
            assert(self.sources@.len() == before.sources@.len());
            assert(self.families@ == before.families@);
            assert(self.family_map@ == before.family_map@);
            assert(self.fonts@ == before.fonts@);
            assert(forall|k: int| 0 <= k < self.fonts@.len() ==> self.valid_family((#[trigger] self.fonts@[k]).family)
                && self.valid_source(self.fonts@[k].source));
            assert(forall|k: int| 0 <= k < self.families@.len() ==> #[trigger] self.family_wf(k));
            assert(self.map_wf());
            assert(self.lists_wf());
            assert(self.wf());
        }
        r
    }

    /// Copies the families, fonts, sources and family map of `self` into
    /// `other`, leaving the rest of `other` as it is.
    pub fn clone_into(&self, other: &mut Self)
        ensures
            final(other).is_user == old(other).is_user,
            final(other).families@.len() == self.families@.len(),
            forall|k: int| 0 <= k < self.families@.len() ==> {
                &&& (#[trigger] final(other).families@[k]).name@ == self.families@[k].name@
                &&& final(other).families@[k].has_stretch == self.families@[k].has_stretch
                &&& final(other).families@[k].fonts@ == self.families@[k].fonts@
            },
            final(other).fonts@ == self.fonts@,
            final(other).sources@.len() == self.sources@.len(),
            forall|k: int| 0 <= k < self.sources@.len() ==> (#[trigger] final(other).sources@[k]).same(self.sources@[k]),
            final(other).family_map@.len() == self.family_map@.len(),
            forall|k: int| 0 <= k < self.family_map@.len() ==> (#[trigger] final(other).family_map@[k]).0@ == self.family_map@[k].0@
                && final(other).family_map@[k].1 == self.family_map@[k].1,
            final(other).map_view() == self.map_view(),
            final(other).default_families@ == old(other).default_families@,
            final(other).generic_families@ == old(other).generic_families@,
            final(other).cjk_families@ == old(other).cjk_families@,
            final(other).script_fallbacks@ == old(other).script_fallbacks@,
    {
        other.families.clear();
        other.fonts.clear();
        other.sources.clear();
        other.family_map.clear();
        let mut i: usize = 0;
        while i < self.families.len()
            invariant
                i <= self.families@.len(),
                other.families@.len() == i,
                other.fonts@.len() == 0,
                other.sources@.len() == 0,
                other.family_map@.len() == 0,
                other.is_user == old(other).is_user,
                other.default_families@ == old(other).default_families@,
                other.generic_families@ == old(other).generic_families@,
                other.cjk_families@ == old(other).cjk_families@,
                other.script_fallbacks@ == old(other).script_fallbacks@,
                forall|k: int| 0 <= k < i ==> {
                    &&& (#[trigger] other.families@[k]).name@ == self.families@[k].name@
                    &&& other.families@[k].has_stretch == self.families@[k].has_stretch
                    &&& other.families@[k].fonts@ == self.families@[k].fonts@
                },
            decreases self.families@.len() - i,
        {
            let f = &self.families[i];
            other.families.push(
                FamilyData { name: f.name.clone(), has_stretch: f.has_stretch, fonts: copy_slots(&f.fonts) },
            );
            i += 1;
        }
        let mut i: usize = 0;
        while i < self.fonts.len()
            invariant
                i <= self.fonts@.len(),
                other.fonts@ == self.fonts@.subrange(0, i as int),
                other.sources@.len() == 0,
                other.family_map@.len() == 0,
                other.is_user == old(other).is_user,
                other.default_families@ == old(other).default_families@,
                other.generic_families@ == old(other).generic_families@,
                other.cjk_families@ == old(other).cjk_families@,
                other.script_fallbacks@ == old(other).script_fallbacks@,
                other.families@.len() == self.families@.len(),
                forall|k: int| 0 <= k < self.families@.len() ==> {
                    &&& (#[trigger] other.families@[k]).name@ == self.families@[k].name@
                    &&& other.families@[k].has_stretch == self.families@[k].has_stretch
                    &&& other.families@[k].fonts@ == self.families@[k].fonts@
                },
            decreases self.fonts@.len() - i,
        {
            other.fonts.push(self.fonts[i]);
            i += 1;
            assert(other.fonts@ =~= self.fonts@.subrange(0, i as int));
        }
        assert(other.fonts@ =~= self.fonts@);
        let mut i: usize = 0;
        while i < self.sources.len()
            invariant
                i <= self.sources@.len(),
                other.sources@.len() == i,
                other.family_map@.len() == 0,
                other.fonts@ == self.fonts@,
                other.is_user == old(other).is_user,
                other.default_families@ == old(other).default_families@,
                other.generic_families@ == old(other).generic_families@,
                other.cjk_families@ == old(other).cjk_families@,
                other.script_fallbacks@ == old(other).script_fallbacks@,
                other.families@.len() == self.families@.len(),
                forall|k: int| 0 <= k < self.families@.len() ==> {
                    &&& (#[trigger] other.families@[k]).name@ == self.families@[k].name@
                    &&& other.families@[k].has_stretch == self.families@[k].has_stretch
                    &&& other.families@[k].fonts@ == self.families@[k].fonts@
                },
                forall|k: int| 0 <= k < i ==> (#[trigger] other.sources@[k]).same(self.sources@[k]),
            decreases self.sources@.len() - i,
        {
            other.sources.push(self.sources[i].copy());
            i += 1;
        }
        let mut i: usize = 0;
        while i < self.family_map.len()
            invariant
                i <= self.family_map@.len(),
                other.family_map@.len() == i,
                other.fonts@ == self.fonts@,
                other.sources@.len() == self.sources@.len(),
                forall|k: int| 0 <= k < self.sources@.len() ==> (#[trigger] other.sources@[k]).same(self.sources@[k]),
                other.is_user == old(other).is_user,
                other.default_families@ == old(other).default_families@,
                other.generic_families@ == old(other).generic_families@,
                other.cjk_families@ == old(other).cjk_families@,
                other.script_fallbacks@ == old(other).script_fallbacks@,
                other.families@.len() == self.families@.len(),
                forall|k: int| 0 <= k < self.families@.len() ==> {
                    &&& (#[trigger] other.families@[k]).name@ == self.families@[k].name@
                    &&& other.families@[k].has_stretch == self.families@[k].has_stretch
                    &&& other.families@[k].fonts@ == self.families@[k].fonts@
                },
                forall|k: int| 0 <= k < i ==> (#[trigger] other.family_map@[k]).0@ == self.family_map@[k].0@
                    && other.family_map@[k].1 == self.family_map@[k].1,
            decreases self.family_map@.len() - i,
        {
            other.family_map.push((self.family_map[i].0.clone(), self.family_map[i].1));
            i += 1;
        }
        assert(other.map_view() =~= self.map_view());
    }
}

/// The platforms whose standard family names the library knows.
#[derive(Clone, Copy, PartialEq, Eq, Structural, Debug)]
pub enum Os {
    Windows,
    MacOs,
    Other,
}

/// The families that names in `names` give, in order, skipping names no
/// family answers to.
pub open spec fn found_ids(c: CollectionData, names: Seq<Seq<char>>) -> Seq<FamilyId>
    decreases names.len(),
{
    if names.len() == 0 {
        Seq::empty()
    } else {
        let prev = found_ids(c, names.drop_last());
        match c.lookup(fold_name(names.last())) {
            Some(id) => prev.push(id),
            None => prev,
        }
    }
}

/// The names of a list of string slices.
pub open spec fn names_of(names: Seq<&str>) -> Seq<Seq<char>> {
    names.map_values(|s: &str| s@)
}

/// Standard names of the default families on `os`.
pub open spec fn default_names(os: Os) -> Seq<&'static str> {
    match os {
        Os::Windows => seq!["segoe ui"],
        Os::MacOs => seq!["helvetica"],
        Os::Other => seq!["Cantarell Regular", "liberation serif", "dejavu serif"],
    }
}

/// Standard names of the default families on `os`.
pub fn default_family_names(os: Os) -> (r: Vec<&'static str>)
    ensures
        r@ == default_names(os),
{
    match os {
        Os::Windows => vec!["segoe ui"],
        Os::MacOs => vec!["helvetica"],
        Os::Other => vec!["Cantarell Regular", "liberation serif", "dejavu serif"],
    }
}

/// Standard names of the families of generic kind `kind` on `os`.
pub open spec fn generic_names(os: Os, kind: GenericFamily) -> Seq<&'static str> {
    match os {
        Os::Windows => match kind {
            GenericFamily::SansSerif => seq!["arial"],
            GenericFamily::Serif => seq!["times new roman"],
            GenericFamily::Monospace => seq!["courier new"],
            GenericFamily::Cursive => seq!["comic sans ms"],
            GenericFamily::SystemUi => seq!["segoe ui"],
            GenericFamily::Emoji => seq!["segoe ui emoji"],
        },
        Os::MacOs => match kind {
            GenericFamily::SansSerif => seq!["helvetica"],
            GenericFamily::Serif => seq!["times"],
            GenericFamily::Monospace => seq!["courier"],
            GenericFamily::Cursive => seq!["apple chancery"],
            GenericFamily::SystemUi => seq!["helvetica"],
            GenericFamily::Emoji => seq!["apple color emoji"],
        },
        Os::Other => match kind {
            GenericFamily::SansSerif => seq!["sans-serif"],
            GenericFamily::Serif => seq!["serif"],
            GenericFamily::Monospace => seq!["monospace"],
            GenericFamily::Cursive => seq!["cursive"],
            GenericFamily::SystemUi => seq!["system-ui", "Cantarell Regular", "liberation sans", "dejavu sans"],
            GenericFamily::Emoji => seq!["noto color emoji", "emoji one"],
        },
    }
}

/// Standard names of the families of generic kind `kind` on `os`.
pub fn generic_family_names(os: Os, kind: GenericFamily) -> (r: Vec<&'static str>)
    ensures
        r@ == generic_names(os, kind),
{
    match os {
        Os::Windows => match kind {
            GenericFamily::SansSerif => vec!["arial"],
            GenericFamily::Serif => vec!["times new roman"],
            GenericFamily::Monospace => vec!["courier new"],
            GenericFamily::Cursive => vec!["comic sans ms"],
            GenericFamily::SystemUi => vec!["segoe ui"],
            GenericFamily::Emoji => vec!["segoe ui emoji"],
        },
        Os::MacOs => match kind {
            GenericFamily::SansSerif => vec!["helvetica"],
            GenericFamily::Serif => vec!["times"],
            GenericFamily::Monospace => vec!["courier"],
            GenericFamily::Cursive => vec!["apple chancery"],
            GenericFamily::SystemUi => vec!["helvetica"],
            GenericFamily::Emoji => vec!["apple color emoji"],
        },
        Os::Other => match kind {
            GenericFamily::SansSerif => vec!["sans-serif"],
            GenericFamily::Serif => vec!["serif"],
            GenericFamily::Monospace => vec!["monospace"],
            GenericFamily::Cursive => vec!["cursive"],
            GenericFamily::SystemUi => vec!["system-ui", "Cantarell Regular", "liberation sans", "dejavu sans"],
            GenericFamily::Emoji => vec!["noto color emoji", "emoji one"],
        },
    }
}

/// Standard names of families that serve as script fallbacks on `os`. Once
/// they are discovered and added, ingestion lists them under their scripts.
pub open spec fn fallback_names(os: Os) -> Seq<&'static str> {
    match os {
        Os::Windows => seq![
            "microsoft yahei",
            "simsun",
            "simsun-extb",
            "meiryo",
            "yu gothic",
            "microsoft jhenghei",
            "pmingliu",
            "pmingliu-extb",
            "malgun gothic",
            "gulim",
        ],
        Os::MacOs => seq![
            "pingfang sc",
            "geeza pro",
            "hiragino maru gothic pron w4",
            "hiragino kaku gothic pron w3",
            "apple sd gothic neo",
            "Menlo",
            "STIXGeneral",
        ],
        Os::Other => seq!["Noto Sans CJK SC", "Noto Sans CJK TC", "Noto Sans CJK JP", "Noto Sans CJK KR"],
    }
}

/// Standard names of families that serve as script fallbacks on `os`. Once
/// they are discovered and added, ingestion lists them under their scripts.
pub fn fallback_family_names(os: Os) -> (r: Vec<&'static str>)
    ensures
        r@ == fallback_names(os),
{
    match os {
        Os::Windows => vec![
            "microsoft yahei",
            "simsun",
            "simsun-extb",
            "meiryo",
            "yu gothic",
            "microsoft jhenghei",
            "pmingliu",
            "pmingliu-extb",
            "malgun gothic",
            "gulim",
        ],
        Os::MacOs => vec![
            "pingfang sc",
            "geeza pro",
            "hiragino maru gothic pron w4",
            "hiragino kaku gothic pron w3",
            "apple sd gothic neo",
            "Menlo",
            "STIXGeneral",
        ],
        Os::Other => vec!["Noto Sans CJK SC", "Noto Sans CJK TC", "Noto Sans CJK JP", "Noto Sans CJK KR"],
    }
}

impl CollectionData {
    /// The families that `names` give, in order; see [`found_ids`].
    pub fn find_family(&self, names: &Vec<&str>) -> (r: Vec<FamilyId>)
        requires
            self.wf(),
        ensures
            r@ == found_ids(*self, names_of(names@)),
            self.valid_ids(r@),
    {
        let mut r: Vec<FamilyId> = Vec::new();
        let mut i: usize = 0;
        while i < names.len()
            invariant
                i <= names@.len(),
                self.wf(),
                r@ == found_ids(*self, names_of(names@.subrange(0, i as int))),
                self.valid_ids(r@),
            decreases names@.len() - i,
        {
            let ghost prefix = names_of(names@.subrange(0, i as int + 1));
            assert(prefix.drop_last() =~= names_of(names@.subrange(0, i as int)));
            assert(prefix.last() == names@[i as int]@);
            if let Some(id) = self.family_id(names[i]) {
                r.push(id);
            }
            i += 1;
        }
        assert(names@.subrange(0, names@.len() as int) =~= names@);
        r
    }

    /// Sets the default families to those the standard names of `os` give.
    pub fn setup_default(&mut self, os: Os)
        requires
            old(self).wf(),
        ensures
            final(self).wf(),
            final(self).default_families@ == found_ids(*old(self), names_of(default_names(os))),
            final(self).same_but_default_lists(old(self)),
            final(self).generic_families@ == old(self).generic_families@,
    {
        let names = default_family_names(os);
        let ghost before = *self;
        let families = self.find_family(&names);
        self.default_families = families;
        proof {
            Self::lemma_families_kept(&before, self);
            assert(self.valid_ids(self.default_families@));
            self.lemma_wf_intro();
        }
    }

    /// Sets the families of generic kind `kind` to those the standard names
    /// of `os` give.
    pub fn setup_generic(&mut self, os: Os, kind: GenericFamily)
        requires
            old(self).wf(),
        ensures
            final(self).wf(),
            final(self).generic_families@[kind.spec_index() as int]@ == found_ids(*old(self), names_of(generic_names(os, kind))),
            forall|i: int| 0 <= i < GENERIC_FAMILY_COUNT && i != kind.spec_index() ==> #[trigger] final(self).generic_families@[i] == old(self).generic_families@[i],
            final(self).same_but_default_lists(old(self)),
            final(self).default_families@ == old(self).default_families@,
    {
        let names = generic_family_names(os, kind);
        let ghost before = *self;
        let families = self.find_family(&names);
        self.generic_families.set(kind.index(), families);
        proof {
            Self::lemma_families_kept(&before, self);
            assert forall|i: int| 0 <= i < GENERIC_FAMILY_COUNT implies self.valid_ids(#[trigger] self.generic_families@[i]@) by {
                if i != kind.spec_index() {
                    assert(before.valid_ids(before.generic_families@[i]@));
                }
            }
            assert(self.lists_wf());
            self.lemma_wf_intro();
        }
    }

    /// Sets every generic family list to what the standard names of `os`
    /// give.
    pub fn setup_default_generic(&mut self, os: Os)
        requires
            old(self).wf(),
        ensures
            final(self).wf(),
            forall|k: GenericFamily| #[trigger] final(self).generic_families@[k.spec_index() as int]@ == found_ids(*old(self), names_of(generic_names(os, k))),
            final(self).same_but_default_lists(old(self)),
            final(self).default_families@ == old(self).default_families@,
    {
        let ghost before = *self;
        self.setup_generic(os, GenericFamily::SansSerif);
        let ghost s1 = *self;
        self.setup_generic(os, GenericFamily::Serif);
        let ghost s2 = *self;
        self.setup_generic(os, GenericFamily::Monospace);
        let ghost s3 = *self;
        self.setup_generic(os, GenericFamily::Cursive);
        let ghost s4 = *self;
        self.setup_generic(os, GenericFamily::SystemUi);
        let ghost s5 = *self;
        self.setup_generic(os, GenericFamily::Emoji);
        proof {
            assert forall|k: GenericFamily| #[trigger] self.generic_families@[k.spec_index() as int]@ == found_ids(before, names_of(generic_names(os, k))) by {
                let n = names_of(generic_names(os, k));
                lemma_found_ids_depends(before, s1, n);
                lemma_found_ids_depends(before, s2, n);
                lemma_found_ids_depends(before, s3, n);
                lemma_found_ids_depends(before, s4, n);
                lemma_found_ids_depends(before, s5, n);
                let i = k.spec_index() as int;
                assert(self.generic_families@[i] == s5.generic_families@[i] || k == GenericFamily::Emoji);
            }
        }
    }

    /// The families among the standard fallback names of `os` that are known
    /// already. Discovering the others, and adding their faces, lists them
    /// under their scripts.
    pub fn setup_fallbacks(&self, os: Os) -> (r: Vec<FamilyId>)
        requires
            self.wf(),
        ensures
            r@ == found_ids(*self, names_of(fallback_names(os))),
    {
        let names = fallback_family_names(os);
        self.find_family(&names)
    }

    /// Everything but the default and generic lists is left as it is.
    pub open spec fn same_but_default_lists(&self, other: &Self) -> bool {
        &&& self.is_user == other.is_user
        &&& self.families@ == other.families@
        &&& self.fonts@ == other.fonts@
        &&& self.sources@ == other.sources@
        &&& self.family_map@ == other.family_map@
        &&& self.cjk_families@ == other.cjk_families@
        &&& self.script_fallbacks@ == other.script_fallbacks@
    }
}

/// Lookups give the same families when the family map is the same.
pub proof fn lemma_found_ids_depends(a: CollectionData, b: CollectionData, names: Seq<Seq<char>>)
    requires
        a.map_view() == b.map_view(),
    ensures
        found_ids(a, names) == found_ids(b, names),
    decreases names.len(),
{
    if names.len() > 0 {
        lemma_found_ids_depends(a, b, names.drop_last());
        assert(a.lookup(fold_name(names.last())) == b.lookup(fold_name(names.last())));
    }
}

/// Han fallback goes by the locale's CJK variant, whatever list the Han
/// script tag may have; a script without a list of its own falls back to the
/// default families.
pub proof fn lemma_fallback_choice(c: CollectionData, locale: Option<Locale>, other: Script)
    requires
        other.tag != crate::text::HAN_TAG,
        forall|i: int| 0 <= i < c.script_fallbacks@.len() ==> (#[trigger] c.script_fallbacks@[i]).0 != other.tag,
    ensures
        c.fallback_spec(Script { tag: crate::text::HAN_TAG }, locale) == c.cjk_families@[cjk_of(locale).spec_index() as int]@,
        c.fallback_spec(other, locale) == c.default_families@,
{
}

} // verus!
