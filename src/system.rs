//! The system collection, backed either by precompiled tables or by a
//! scanned collection, behind one query surface.

use crate::data::{copy_slots, CollectionData, FamilyEntry, FontEntry, FontSlot, Registration, SourceEntry, SourceKind, no_repeats};
use crate::font;
use crate::ingest::{accepts_some_face, blob_ingested};
use crate::id::{FamilyId, FontId, SourceId, MAX_INDEX};
use crate::lowercase::fold_name;
use crate::source::{finish_load, filled_by, load_path_step, path_step_allowed, load_step_allowed, LoadStep, SourceData, SourceDataStatus};
use crate::static_data::StaticCollectionData;
use crate::text::{GenericFamily, Locale, Script};
use vstd::prelude::*;

verus! {

broadcast use crate::id::group_id_eq;

/// Relies on `swash::CacheKey::new`: a fresh key from a process-wide counter.
#[verifier::external_body]
fn new_cache_key() -> u64 {
    swash::CacheKey::new().value()
}

/// A precompiled collection with its per-font cache keys and per-source load
/// status.
pub struct StaticCollection {
    pub data: StaticCollectionData,
    pub cache_keys: Vec<u64>,
    pub sources: Vec<SourceDataStatus>,
}

impl StaticCollection {
    pub open spec fn wf(&self) -> bool {
        &&& self.data.sorted()
        &&& self.cache_keys@.len() == self.data.fonts@.len()
        &&& self.sources@.len() == self.data.sources@.len()
    }

    /// Wraps precompiled tables: every font gets a fresh cache key and every
    /// source starts unread.
    pub fn new(data: StaticCollectionData) -> (r: Self)
        requires
            data.sorted(),
        ensures
            r.wf(),
            r.data == data,
            forall|i: int| 0 <= i < r.sources@.len() ==> (#[trigger] r.sources@[i]) is Vacant,
    {
        let mut cache_keys: Vec<u64> = Vec::new();
        let mut i: usize = 0;
        while i < data.fonts.len()
            invariant
                i <= data.fonts@.len(),
                cache_keys@.len() == i,
            decreases data.fonts@.len() - i,
        {
            cache_keys.push(new_cache_key());
            i += 1;
        }
        let mut sources: Vec<SourceDataStatus> = Vec::new();
        let mut i: usize = 0;
        while i < data.sources.len()
            invariant
                i <= data.sources@.len(),
                sources@.len() == i,
                forall|j: int| 0 <= j < i ==> (#[trigger] sources@[j]) is Vacant,
            decreases data.sources@.len() - i,
        {
            sources.push(SourceDataStatus::Vacant);
            i += 1;
        }
        StaticCollection { data, cache_keys, sources }
    }

    pub fn family_id(&self, name: &str) -> (r: Option<FamilyId>)
        requires
            self.wf(),
        ensures
            r is Some <==> self.data.lookup(fold_name(name@)) is Some,
            r matches Some(id) ==> !id.is_user() && Some(id.index() as int) == self.data.lookup(fold_name(name@)),
    {
        self.data.family_id(name)
    }

    pub fn fallback_families(&self, script: Script, locale: Option<Locale>) -> (r: &[FamilyId])
        requires
            self.wf(),
        ensures
            r@ == self.data.fallback_spec(script, locale),
    {
        self.data.fallback_families(script, locale)
    }

    pub fn family_name(&self, id: FamilyId) -> (r: Option<&str>)
        ensures
            r is Some <==> id.index() < self.data.families@.len(),
            r matches Some(n) ==> n@ == self.data.families@[id.index() as int].name@,
    {
        self.data.family_name(id)
    }

    /// Whether `id` names a source of this collection.
    pub open spec fn valid_source(&self, id: SourceId) -> bool {
        !id.is_user() && id.index() < self.data.sources@.len()
    }

    /// Starts loading source `id`; see [`load_path_step`].
    pub fn load(&self, id: SourceId) -> (r: LoadStep)
        requires
            self.wf(),
        ensures
            !self.valid_source(id) ==> r is Absent,
            self.valid_source(id) ==> path_step_allowed(
                self.data.sources@[id.index() as int].file_name@,
                self.sources@[id.index() as int],
                r,
            ),
    {
        if id.is_user_font() {
            return LoadStep::Absent;
        }
        let index = id.to_usize();
        if index >= self.data.sources.len() {
            return LoadStep::Absent;
        }
        load_path_step(&self.data.sources[index].file_name, &self.sources[index])
    }

    /// Completes a load of source `id`; see [`finish_load`].
    pub fn finish_load(&mut self, id: SourceId, read: Option<Vec<u8>>) -> (r: Option<font::FontData>)
        requires
            old(self).wf(),
        ensures
            final(self).wf(),
            final(self).data == old(self).data,
            final(self).sources@.len() == old(self).sources@.len(),
            forall|k: int| 0 <= k < old(self).sources@.len() && k != id.index() ==> #[trigger] final(self).sources@[k] == old(self).sources@[k],
            !old(self).valid_source(id) ==> r is None && *final(self) == *old(self),
            old(self).valid_source(id) ==> {
                let before = old(self).sources@[id.index() as int];
                let after = final(self).sources@[id.index() as int];
                match before {
                    SourceDataStatus::Error => r is None && after is Error,
                    SourceDataStatus::Vacant => filled_by(read, r, after),
                    SourceDataStatus::Present(w) => (r matches Some(d) && d@ == w@ && after.same(before))
                        || filled_by(read, r, after),
                }
            },
    {
        if id.is_user_font() {
            return None;
        }
        let index = id.to_usize();
        if index >= self.sources.len() {
            return None;
        }
        finish_load(&mut self.sources[index], read)
    }
}

/// File system paths where fonts of a collection may be found, handed out
/// one at a time.
pub struct SourcePaths {
    pub paths: Vec<String>,
    pub pos: usize,
}

impl SourcePaths {
    /// The next path, if any is left.
    pub fn next(&mut self) -> (r: Option<String>)
        ensures
            final(self).paths@ == old(self).paths@,
            old(self).pos < old(self).paths@.len() ==> (r matches Some(p) && p@ == old(self).paths@[old(self).pos as int]@)
                && final(self).pos == old(self).pos + 1,
            old(self).pos >= old(self).paths@.len() ==> r is None && final(self).pos == old(self).pos,
    {
        if self.pos >= self.paths.len() {
            None
        } else {
            let pos = self.pos;
            self.pos = pos + 1;
            Some(self.paths[pos].clone())
        }
    }
}

/// A system collection built by scanning.
pub struct ScannedCollectionData {
    pub collection: CollectionData,
}

/// The system collection: precompiled or scanned.
pub enum SystemCollectionData {
    Static(StaticCollection),
    Scanned(ScannedCollectionData),
}

impl SystemCollectionData {
    pub open spec fn wf(&self) -> bool {
        match self {
            SystemCollectionData::Static(s) => s.wf(),
            SystemCollectionData::Scanned(d) => d.collection.wf() && !d.collection.is_user,
        }
    }

    /// Number of families.
    pub open spec fn family_count(&self) -> nat {
        match self {
            SystemCollectionData::Static(s) => s.data.families@.len(),
            SystemCollectionData::Scanned(d) => d.collection.families@.len(),
        }
    }

    /// Name of family `i`.
    pub open spec fn family_name_at(&self, i: int) -> Seq<char> {
        match self {
            SystemCollectionData::Static(s) => s.data.families@[i].name@,
            SystemCollectionData::Scanned(d) => d.collection.families@[i].name@,
        }
    }

    /// Fonts of family `i`.
    pub open spec fn family_fonts_at(&self, i: int) -> Seq<FontSlot> {
        match self {
            SystemCollectionData::Static(s) => s.data.families@[i].fonts@,
            SystemCollectionData::Scanned(d) => d.collection.families@[i].fonts@,
        }
    }

    /// The family the folded name `key` names.
    pub open spec fn lookup(&self, key: Seq<char>) -> Option<FamilyId> {
        match self {
            SystemCollectionData::Static(s) => match s.data.lookup(key) {
                Some(i) => Some(static_family_id(i)),
                None => None,
            },
            SystemCollectionData::Scanned(d) => d.collection.lookup(key),
        }
    }

    /// The fallback chain for `script` in `locale`.
    pub open spec fn fallback_spec(&self, script: Script, locale: Option<Locale>) -> Seq<FamilyId> {
        match self {
            SystemCollectionData::Static(s) => s.data.fallback_spec(script, locale),
            SystemCollectionData::Scanned(d) => d.collection.fallback_spec(script, locale),
        }
    }

    /// The default families.
    pub open spec fn defaults(&self) -> Seq<FamilyId> {
        match self {
            SystemCollectionData::Static(s) => s.data.default_families@,
            SystemCollectionData::Scanned(d) => d.collection.default_families@,
        }
    }

    /// The families of generic kind `kind`.
    pub open spec fn generic(&self, kind: GenericFamily) -> Seq<FamilyId> {
        match self {
            SystemCollectionData::Static(s) => s.data.generic_families@[kind.spec_index() as int]@,
            SystemCollectionData::Scanned(d) => d.collection.generic_families@[kind.spec_index() as int]@,
        }
    }

    /// The search paths of the collection: those of the precompiled tables,
    /// none for a scanned collection.
    pub fn source_paths(&self) -> (r: SourcePaths)
        ensures
            r.pos == 0,
            self is Scanned ==> r.paths@.len() == 0,
            self matches SystemCollectionData::Static(s) ==> r.paths@.len() == s.data.search_paths@.len()
                && forall|i: int| 0 <= i < r.paths@.len() ==> (#[trigger] r.paths@[i])@ == s.data.search_paths@[i]@,
    {
        match self {
            SystemCollectionData::Static(s) => {
                let mut paths: Vec<String> = Vec::new();
                let mut i: usize = 0;
                while i < s.data.search_paths.len()
                    invariant
                        i <= s.data.search_paths@.len(),
                        paths@.len() == i,
                        forall|j: int| 0 <= j < i ==> (#[trigger] paths@[j])@ == s.data.search_paths@[j]@,
                    decreases s.data.search_paths@.len() - i,
                {
                    paths.push(s.data.search_paths[i].clone());
                    i += 1;
                }
                SourcePaths { paths, pos: 0 }
            },
            SystemCollectionData::Scanned(_) => SourcePaths { paths: Vec::new(), pos: 0 },
        }
    }

    /// The family with identifier `id`.
    pub fn family(&self, id: FamilyId) -> (r: Option<FamilyEntry>)
        requires
            self.wf(),
        ensures
            r is Some <==> !id.is_user() && id.index() < self.family_count(),
            r matches Some(e) ==> e.id == id && e.name@ == self.family_name_at(id.index() as int) && e.fonts@
                == self.family_fonts_at(id.index() as int),
    {
        match self {
            SystemCollectionData::Static(s) => {
                if id.is_user_font() {
                    return None;
                }
                let index = id.to_usize();
                if index >= s.data.families.len() {
                    return None;
                }
                let family = &s.data.families[index];
                Some(
                    FamilyEntry {
                        id,
                        name: family.name.clone(),
                        has_stretch: family.has_stretch,
                        fonts: copy_slots(&family.fonts),
                    },
                )
            },
            SystemCollectionData::Scanned(d) => d.collection.family(id),
        }
    }

    /// The family named `name`, compared without regard to case.
    pub fn family_id(&self, name: &str) -> (r: Option<FamilyId>)
        requires
            self.wf(),
        ensures
            r == self.lookup(fold_name(name@)),
    {
        match self {
            SystemCollectionData::Static(s) => match s.family_id(name) {
                Some(id) => {
                    assert(static_family_id(id.index() as int).index() == id.index());
                    assert(id == static_family_id(id.index() as int));
                    Some(id)
                },
                None => None,
            },
            SystemCollectionData::Scanned(d) => d.collection.family_id(name),
        }
    }

    /// The family named `name`, compared without regard to case.
    pub fn family_by_name(&self, name: &str) -> (r: Option<FamilyEntry>)
        requires
            self.wf(),
        ensures
            r is Some <==> self.lookup(fold_name(name@)) is Some,
            r matches Some(e) ==> Some(e.id) == self.lookup(fold_name(name@)) && e.name@ == self.family_name_at(
                e.id.index() as int,
            ) && e.fonts@ == self.family_fonts_at(e.id.index() as int),
    {
        let family_id = match self.family_id(name) {
            Some(id) => id,
            None => return None,
        };
        proof {
            match self {
                SystemCollectionData::Static(s) => {
                    let i = s.data.lookup(fold_name(name@))->0;
                    assert(0 <= i < s.data.families@.len() && (#[trigger] s.data.families@[i]).lowercase_name@ == fold_name(name@));
                },
                SystemCollectionData::Scanned(d) => {},
            }
        }
        self.family(family_id)
    }

    /// The font with identifier `id`.
    pub fn font(&self, id: FontId) -> (r: Option<FontEntry>)
        requires
            self.wf(),
        ensures
            r matches Some(e) ==> e.id == id && !id.is_user(),
            self matches SystemCollectionData::Scanned(d) ==> (r is Some <==> d.collection.valid_font(id)) && (r matches Some(e) ==> {
                let f = d.collection.fonts@[id.index() as int];
                &&& e.family == f.family
                &&& e.source == f.source
                &&& e.index == f.index
                &&& e.attributes == f.attributes
                &&& e.cache_key == f.cache_key
            }),
            self matches SystemCollectionData::Static(s) ==> (r is Some <==> !id.is_user() && id.index() < s.data.fonts@.len())
                && (r matches Some(e) ==> {
                    let f = s.data.fonts@[id.index() as int];
                    &&& e.family == f.family
                    &&& e.source == f.source
                    &&& e.index == f.index
                    &&& e.attributes == f.attributes
                    &&& e.cache_key == s.cache_keys@[id.index() as int]
                }),
    {
        match self {
            SystemCollectionData::Static(s) => {
                if id.is_user_font() {
                    return None;
                }
                let index = id.to_usize();
                if index >= s.data.fonts.len() {
                    return None;
                }
                let font = &s.data.fonts[index];
                let cache_key = s.cache_keys[index];
                Some(
                    FontEntry {
                        id,
                        family: font.family,
                        source: font.source,
                        index: font.index,
                        attributes: font.attributes,
                        cache_key,
                    },
                )
            },
            SystemCollectionData::Scanned(d) => d.collection.font(id),
        }
    }

    /// Adds the faces in `data` to a scanned collection; a precompiled one
    /// takes nothing and answers `None`.
    pub fn add_fonts(&mut self, data: &font::FontData, source: SourceData, reg: &mut Registration) -> (r: Option<u32>)
        requires
            old(self).wf(),
            no_repeats(old(reg).families@),
        ensures
            final(self).wf(),
            no_repeats(final(reg).families@),
            *old(self) is Static ==> r is None && *final(self) == *old(self) && final(reg).families@ == old(reg).families@,
            *final(self) is Static <==> *old(self) is Static,
            r is None ==> final(reg).fonts@ == old(reg).fonts@,
            *old(self) matches SystemCollectionData::Scanned(d) ==> (r is None <==> d.collection.sources@.len() > MAX_INDEX),
            *old(self) matches SystemCollectionData::Scanned(d) ==> (r matches Some(count) ==> (count == 0 <==> !accepts_some_face(d.collection, data@))),
            *old(self) matches SystemCollectionData::Scanned(d) ==> (r matches Some(count) ==> blob_ingested(d.collection, data@, final(self)->Scanned_0.collection, old(reg).families@, final(reg).families@, count as nat)),
            *old(self) matches SystemCollectionData::Scanned(d) ==> forall|k: int| 0 <= k < final(reg).families@.len() ==> final(self)->Scanned_0.collection.valid_family(#[trigger] final(reg).families@[k])
                || old(reg).families@.contains(final(reg).families@[k]),
            *old(self) matches SystemCollectionData::Scanned(d) ==> (r matches Some(count) ==> final(self)->Scanned_0.collection.fonts@.len()
                == d.collection.fonts@.len() + count && final(reg).fonts@.len() == old(reg).fonts@.len() + count),
    {
        match self {
            SystemCollectionData::Static(_) => None,
            SystemCollectionData::Scanned(d) => d.collection.add_fonts(data, source, reg),
        }
    }

    /// The source with identifier `id`.
    pub fn source(&self, id: SourceId) -> (r: Option<SourceEntry>)
        ensures
            r matches Some(e) ==> e.id == id,
            self matches SystemCollectionData::Scanned(d) ==> (r is Some <==> d.collection.valid_source(id)) && (r matches Some(e) ==> match (e.kind, d.collection.sources@[id.index() as int].kind) {
                (SourceKind::Path(a), crate::source::SourceDataKind::Path(b)) => a@ == b@,
                (SourceKind::Data(a), crate::source::SourceDataKind::Data(b)) => a@ == b@,
                _ => false,
            }),
            self matches SystemCollectionData::Static(s) ==> (r is Some <==> s.valid_source(id)) && (r matches Some(e)
                ==> e.kind matches SourceKind::FileName(f) && f@ == s.data.sources@[id.index() as int].file_name@),
    {
        match self {
            SystemCollectionData::Static(s) => {
                if id.is_user_font() {
                    return None;
                }
                let index = id.to_usize();
                if index >= s.data.sources.len() {
                    return None;
                }
                Some(SourceEntry { id, kind: SourceKind::FileName(s.data.sources[index].file_name.clone()) })
            },
            SystemCollectionData::Scanned(d) => d.collection.source(id),
        }
    }

    /// Starts loading source `id`.
    pub fn load(&self, id: SourceId) -> (r: LoadStep)
        requires
            self.wf(),
        ensures
            self matches SystemCollectionData::Static(s) ==> (!s.valid_source(id) ==> r is Absent) && (s.valid_source(id)
                ==> path_step_allowed(s.data.sources@[id.index() as int].file_name@, s.sources@[id.index() as int], r)),
            self matches SystemCollectionData::Scanned(d) ==> (!d.collection.valid_source(id) ==> r is Absent) && (
            d.collection.valid_source(id) ==> load_step_allowed(d.collection.sources@[id.index() as int], r)),
    {
        match self {
            SystemCollectionData::Static(s) => s.load(id),
            SystemCollectionData::Scanned(d) => d.collection.load(id),
        }
    }

    /// Completes a load of source `id` with the outcome of reading it.
    pub fn finish_load(&mut self, id: SourceId, read: Option<Vec<u8>>) -> (r: Option<font::FontData>)
        requires
            old(self).wf(),
        ensures
            final(self).wf(),
            *final(self) is Static <==> *old(self) is Static,
            *old(self) matches SystemCollectionData::Static(s) ==> (!s.valid_source(id) ==> r is None) && (s.valid_source(id) ==> {
                let before = s.sources@[id.index() as int];
                let after = final(self)->Static_0.sources@[id.index() as int];
                match before {
                    SourceDataStatus::Error => r is None && after is Error,
                    SourceDataStatus::Vacant => filled_by(read, r, after),
                    SourceDataStatus::Present(w) => (r matches Some(d) && d@ == w@ && after.same(before))
                        || filled_by(read, r, after),
                }
            }),
            *old(self) matches SystemCollectionData::Scanned(d) ==> final(self)->Scanned_0.collection.sources@.len() == d.collection.sources@.len()
                && (forall|k: int| 0 <= k < d.collection.sources@.len() && k != id.index() ==> #[trigger] final(self)->Scanned_0.collection.sources@[k] == d.collection.sources@[k])
                && (d.collection.valid_source(id) ==> final(self)->Scanned_0.collection.sources@[id.index() as int].kind == d.collection.sources@[id.index() as int].kind),
            *old(self) matches SystemCollectionData::Static(s) ==> final(self)->Static_0.data == s.data
                && final(self)->Static_0.sources@.len() == s.sources@.len()
                && (forall|k: int| 0 <= k < s.sources@.len() && k != id.index() ==> #[trigger] final(self)->Static_0.sources@[k] == s.sources@[k]),
            *old(self) matches SystemCollectionData::Scanned(d) ==> (!d.collection.valid_source(id) ==> r is None) && (d.collection.valid_source(id) ==> {
                let before = d.collection.sources@[id.index() as int].status;
                let after = final(self)->Scanned_0.collection.sources@[id.index() as int].status;
                match before {
                    SourceDataStatus::Error => r is None && after is Error,
                    SourceDataStatus::Vacant => filled_by(read, r, after),
                    SourceDataStatus::Present(w) => (r matches Some(d) && d@ == w@ && after.same(before))
                        || filled_by(read, r, after),
                }
            }),
    {
        match self {
            SystemCollectionData::Static(s) => s.finish_load(id, read),
            SystemCollectionData::Scanned(d) => d.collection.finish_load(id, read),
        }
    }

    /// The default families.
    pub fn default_families(&self) -> (r: &[FamilyId])
        ensures
            r@ == self.defaults(),
    {
        match self {
            SystemCollectionData::Static(s) => s.data.default_families.as_slice(),
            SystemCollectionData::Scanned(d) => d.collection.default_families(),
        }
    }

    /// The families of generic kind `family`.
    pub fn generic_families(&self, family: GenericFamily) -> (r: &[FamilyId])
        requires
            self.wf(),
        ensures
            r@ == self.generic(family),
    {
        match self {
            SystemCollectionData::Static(s) => s.data.generic_families[family.index()].as_slice(),
            SystemCollectionData::Scanned(d) => d.collection.generic_families(family),
        }
    }

    /// The fallback chain for `script` in `locale`.
    pub fn fallback_families(&self, script: Script, locale: Option<Locale>) -> (r: &[FamilyId])
        requires
            self.wf(),
        ensures
            r@ == self.fallback_spec(script, locale),
    {
        match self {
            SystemCollectionData::Static(s) => s.fallback_families(script, locale),
            SystemCollectionData::Scanned(d) => d.collection.fallback_families(script, locale),
        }
    }
}

impl SystemCollectionData {
    /// Whether the collection has a fallback list of its own for script tag
    /// `tag`.
    pub open spec fn has_list(&self, tag: u32) -> bool {
        match self {
            SystemCollectionData::Static(s) => exists|i: int|
                0 <= i < s.data.script_fallbacks@.len() && (#[trigger] s.data.script_fallbacks@[i]).script == tag,
            SystemCollectionData::Scanned(d) => exists|i: int|
                0 <= i < d.collection.script_fallbacks@.len() && (#[trigger] d.collection.script_fallbacks@[i]).0 == tag,
        }
    }

    pub fn has_fallbacks(&self, tag: u32) -> (r: bool)
        requires
            self.wf(),
        ensures
            r == self.has_list(tag),
    {
        match self {
            SystemCollectionData::Static(s) => s.data.has_script(tag),
            SystemCollectionData::Scanned(d) => match d.collection.find_script(tag) {
                Some(i) => {
                    assert(0 <= i < d.collection.script_fallbacks@.len() && (#[trigger] d.collection.script_fallbacks@[i as int]).0 == tag);
                    true
                },
                None => false,
            },
        }
    }
}

/// The identifier of family `i` of a precompiled table.
pub open spec fn static_family_id(i: int) -> FamilyId {
    FamilyId::spec_new(i as nat, false)
}

} // verus!
