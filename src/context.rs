//! Per-consumer query handle over a library.
//!
//! A context keeps its own snapshot of the user collection, tagged with the
//! version it was taken at. A query that touches user data first compares
//! that version with the library's and, when they differ, copies the user
//! collection again. The library is passed to each call.

use crate::data::{CollectionData, FamilyEntry, FontEntry, Registration, SourceEntry, SourceKind};
use crate::font;
use crate::id::{FamilyId, FontId, SourceId, MAX_INDEX};
use crate::ingest::{blob_ingested, accepts_some_face, face_key, single_face, single_face_registered, slot_of_face};
use crate::scan::{named_faces, scan_limit};
use crate::library::Library;
use crate::lowercase::fold_name;
use crate::source::{filled_by, load_step_allowed, path_step_allowed, LoadStep, SourceDataKind, SourceDataStatus};
use crate::system::SystemCollectionData;
use crate::text::{GenericFamily, Locale, Script};
use vstd::prelude::*;

verus! {

broadcast use crate::id::group_id_eq;

/// `a` holds the families, fonts, sources and family map of `b`.
pub open spec fn snapshot_of(a: CollectionData, b: CollectionData) -> bool {
    &&& a.is_user == b.is_user
    &&& a.families@.len() == b.families@.len()
    &&& forall|k: int| 0 <= k < b.families@.len() ==> {
        &&& (#[trigger] a.families@[k]).name@ == b.families@[k].name@
        &&& a.families@[k].has_stretch == b.families@[k].has_stretch
        &&& a.families@[k].fonts@ == b.families@[k].fonts@
    }
    &&& a.fonts@ == b.fonts@
    &&& a.sources@.len() == b.sources@.len()
    &&& a.map_view() == b.map_view()
}

/// A snapshot keeps no lists of its own: lists are read from the library.
pub open spec fn snapshot_lists_empty(c: CollectionData) -> bool {
    &&& c.default_families@.len() == 0
    &&& c.script_fallbacks@.len() == 0
    &&& c.generic_families@.len() == crate::text::GENERIC_FAMILY_COUNT
    &&& c.cjk_families@.len() == crate::text::CJK_FAMILY_COUNT
    &&& forall|i: int| 0 <= i < crate::text::GENERIC_FAMILY_COUNT ==> (#[trigger] c.generic_families@[i])@.len() == 0
    &&& forall|i: int| 0 <= i < crate::text::CJK_FAMILY_COUNT ==> (#[trigger] c.cjk_families@[i])@.len() == 0
}

/// Interface to a library providing queries and fallbacks.
pub struct FontContext {
    pub user_version: u64,
    pub user: CollectionData,
}

impl FontContext {
    pub open spec fn wf(&self) -> bool {
        &&& self.user.wf()
        &&& self.user.is_user
        &&& snapshot_lists_empty(self.user)
    }

    /// The context's snapshot is that of the library's current version.
    pub open spec fn synced(&self, library: &Library) -> bool {
        &&& self.user_version == library.user_version
        &&& snapshot_of(self.user, library.user)
    }

    /// A snapshot is well formed when its source is.
    proof fn lemma_snapshot_wf(a: &CollectionData, b: &CollectionData)
        requires
            b.wf(),
            snapshot_of(*a, *b),
            a.lists_wf(),
        ensures
            a.wf(),
    {
        assert forall|k: int| 0 <= k < a.families@.len() implies #[trigger] a.family_wf(k) by {
            assert(b.family_wf(k));
            let f = a.families@[k].fonts@;
            assert forall|j: int| 0 <= j < f.len() implies a.valid_font(#[trigger] f[j].0) && a.fonts@[f[j].0.index() as int].family.index() == k
                && crate::data::slot_matches(a.fonts@[f[j].0.index() as int], f[j]) by {
                assert(b.valid_font(b.families@[k].fonts@[j].0));
            }
        }
        assert forall|k: int| 0 <= k < a.fonts@.len() implies a.valid_family((#[trigger] a.fonts@[k]).family)
            && a.valid_source(a.fonts@[k].source) by {
            assert(b.valid_family(b.fonts@[k].family));
            assert(b.valid_source(b.fonts@[k].source));
        }
        let m = a.family_map@;
        let n = b.family_map@;
        assert(a.map_view().len() == m.len());
        assert(b.map_view().len() == n.len());
        assert(m.len() == n.len());
        assert forall|i: int, j: int|
            0 <= i < m.len() && 0 <= j < m.len() && i != j implies (#[trigger] m[i]).0@ != (#[trigger] m[j]).0@ by {
            assert(a.map_view()[i] == b.map_view()[i]);
            assert(a.map_view()[j] == b.map_view()[j]);
            assert(n[i].0@ != n[j].0@);
        }
        assert forall|i: int| 0 <= i < m.len() && (#[trigger] m[i]).1 is Some implies a.valid_family(m[i].1->0) by {
            assert(a.map_view()[i] == b.map_view()[i]);
            assert(n[i].1 is Some);
            assert(b.valid_family(n[i].1->0));
        }
        assert forall|i: int, j: int|
            0 <= i < m.len() && 0 <= j < m.len() && i != j && (#[trigger] m[i]).1 is Some && (#[trigger] m[j]).1 is Some
                implies m[i].1 != m[j].1 by {
            assert(a.map_view()[i] == b.map_view()[i]);
            assert(a.map_view()[j] == b.map_view()[j]);
            assert(n[i].1 != n[j].1);
        }
        a.lemma_wf_intro();
    }

    /// Copies the library's user collection into `snapshot`, keeping the
    /// snapshot's own lists.
    fn refresh(snapshot: &mut CollectionData, library: &Library)
        requires
            library.wf(),
            old(snapshot).is_user,
            snapshot_lists_empty(*old(snapshot)),
        ensures
            final(snapshot).wf(),
            final(snapshot).is_user,
            snapshot_lists_empty(*final(snapshot)),
            snapshot_of(*final(snapshot), library.user),
    {
        library.user.clone_into(snapshot);
        proof {
            assert(snapshot.lists_wf());
            Self::lemma_snapshot_wf(snapshot, &library.user);
        }
    }

    /// A context over `library`, holding a snapshot of its current user
    /// collection.
    pub fn new(library: &Library) -> (r: Self)
        requires
            library.wf(),
        ensures
            r.wf(),
            r.synced(library),
    {
        let mut user = CollectionData::new(true);
        Self::refresh(&mut user, library);
        FontContext { user_version: library.user_version, user }
    }

    /// Brings the snapshot up to the library's version, copying the user
    /// collection only when the versions differ.
    pub fn sync_user(&mut self, library: &Library)
        requires
            old(self).wf(),
            library.wf(),
            old(self).user_version == library.user_version ==> snapshot_of(old(self).user, library.user),
        ensures
            final(self).wf(),
            final(self).synced(library),
            old(self).user_version == library.user_version ==> *final(self) == *old(self),
    {
        if self.user_version != library.user_version {
            Self::refresh(&mut self.user, library);
            self.user_version = library.user_version;
        }
    }
}

/// A context's snapshot is valid for the library when their versions agree.
pub open spec fn coherent(ctx: &FontContext, library: &Library) -> bool {
    ctx.user_version == library.user_version ==> snapshot_of(ctx.user, library.user)
}

/// A context taken before a registration that advanced the library's version
/// stays coherent with the library; its next query that touches user data
/// copies the new user collection, so it never answers from the old one.
pub proof fn lemma_registration_seen(ctx: &FontContext, before: &Library, after: &Library)
    requires
        ctx.synced(before),
        after.user_version != before.user_version,
    ensures
        coherent(ctx, after),
        ctx.user_version != after.user_version,
{
}

impl FontContext {
    /// The family with identifier `id`: from the library's current user
    /// collection for a user identifier, else from the system collection.
    pub fn family(&mut self, library: &Library, id: FamilyId) -> (r: Option<FamilyEntry>)
        requires
            old(self).wf(),
            library.wf(),
            coherent(old(self), library),
        ensures
            final(self).wf(),
            coherent(final(self), library),
            id.is_user() ==> final(self).synced(library) && (r is Some <==> library.user.valid_family(id)) && (
            r matches Some(e) ==> e.id == id && e.name@ == library.user.families@[id.index() as int].name@
                && e.fonts@ == library.user.families@[id.index() as int].fonts@),
            !id.is_user() ==> *final(self) == *old(self) && (r is Some <==> id.index() < library.system.family_count())
                && (r matches Some(e) ==> e.id == id && e.name@ == library.system.family_name_at(id.index() as int)
                && e.fonts@ == library.system.family_fonts_at(id.index() as int)),
    {
        if id.is_user_font() {
            self.sync_user(library);
            self.user.family(id)
        } else {
            library.system.family(id)
        }
    }

    /// The family named `name`, compared without regard to case: a family
    /// of the user collection first, then one of the system collection.
    pub fn family_by_name(&mut self, library: &Library, name: &str) -> (r: Option<FamilyEntry>)
        requires
            old(self).wf(),
            library.wf(),
            coherent(old(self), library),
        ensures
            final(self).wf(),
            final(self).synced(library),
            r is Some <==> library.lookup(fold_name(name@)) is Some,
            r matches Some(e) ==> Some(e.id) == library.lookup(fold_name(name@)),
            r matches Some(e) ==> e.id.is_user() ==> e.name@ == library.user.families@[e.id.index() as int].name@
                && e.fonts@ == library.user.families@[e.id.index() as int].fonts@,
            r matches Some(e) ==> !e.id.is_user() ==> e.name@ == library.system.family_name_at(e.id.index() as int)
                && e.fonts@ == library.system.family_fonts_at(e.id.index() as int),
    {
        self.sync_user(library);
        match self.user.family_by_name(name) {
            Some(e) => Some(e),
            None => {
                let r = library.system.family_by_name(name);
                proof {
                    if r is Some {
                        let e = r->0;
                        match &library.system {
                            crate::system::SystemCollectionData::Static(_) => {
                                assert(!e.id.is_user());
                            },
                            crate::system::SystemCollectionData::Scanned(d) => {
                                let i = d.collection.map_position(fold_name(name@))->0;
                                assert(d.collection.valid_family(d.collection.family_map@[i].1->0));
                            },
                        }
                    }
                }
                r
            },
        }
    }

    /// The font with identifier `id`.
    pub fn font(&mut self, library: &Library, id: FontId) -> (r: Option<FontEntry>)
        requires
            old(self).wf(),
            library.wf(),
            coherent(old(self), library),
        ensures
            final(self).wf(),
            coherent(final(self), library),
            id.is_user() ==> final(self).synced(library) && (r is Some <==> library.user.valid_font(id)) && (
            r matches Some(e) ==> {
                let f = library.user.fonts@[id.index() as int];
                &&& e.id == id
                &&& e.family == f.family
                &&& e.source == f.source
                &&& e.index == f.index
                &&& e.attributes == f.attributes
                &&& e.cache_key == f.cache_key
            }),
            !id.is_user() ==> *final(self) == *old(self) && (r matches Some(e) ==> e.id == id),
            !id.is_user() ==> (library.system matches SystemCollectionData::Scanned(d) ==> (r is Some <==> d.collection.valid_font(id))
                && (r matches Some(e) ==> {
                    let f = d.collection.fonts@[id.index() as int];
                    &&& e.family == f.family
                    &&& e.source == f.source
                    &&& e.index == f.index
                    &&& e.attributes == f.attributes
                    &&& e.cache_key == f.cache_key
                })),
            !id.is_user() ==> (library.system matches SystemCollectionData::Static(s) ==> (r is Some <==> id.index() < s.data.fonts@.len())
                && (r matches Some(e) ==> {
                    let f = s.data.fonts@[id.index() as int];
                    &&& e.family == f.family
                    &&& e.source == f.source
                    &&& e.index == f.index
                    &&& e.attributes == f.attributes
                    &&& e.cache_key == s.cache_keys@[id.index() as int]
                })),
    {
        if id.is_user_font() {
            self.sync_user(library);
            self.user.font(id)
        } else {
            library.system.font(id)
        }
    }

    /// The source with identifier `id`.
    pub fn source(&mut self, library: &Library, id: SourceId) -> (r: Option<SourceEntry>)
        requires
            old(self).wf(),
            library.wf(),
            coherent(old(self), library),
        ensures
            final(self).wf(),
            coherent(final(self), library),
            id.is_user() ==> final(self).synced(library) && (r is Some <==> library.user.valid_source(id)),
            id.is_user() ==> (r matches Some(e) ==> match (e.kind, final(self).user.sources@[id.index() as int].kind) {
                (SourceKind::Path(a), SourceDataKind::Path(b)) => a@ == b@,
                (SourceKind::Data(a), SourceDataKind::Data(b)) => a@ == b@,
                _ => false,
            }),
            r matches Some(e) ==> e.id == id,
            !id.is_user() ==> *final(self) == *old(self),
            !id.is_user() ==> (library.system matches SystemCollectionData::Scanned(d) ==> (r is Some <==> d.collection.valid_source(id))
                && (r matches Some(e) ==> match (e.kind, d.collection.sources@[id.index() as int].kind) {
                    (SourceKind::Path(a), SourceDataKind::Path(b)) => a@ == b@,
                    (SourceKind::Data(a), SourceDataKind::Data(b)) => a@ == b@,
                    _ => false,
                })),
            !id.is_user() ==> (library.system matches SystemCollectionData::Static(s) ==> (r is Some <==> s.valid_source(id))
                && (r matches Some(e) ==> e.kind matches SourceKind::FileName(f) && f@ == s.data.sources@[id.index() as int].file_name@)),
    {
        if id.is_user_font() {
            self.sync_user(library);
            self.user.source(id)
        } else {
            library.system.source(id)
        }
    }

    /// Starts loading source `id`: from the snapshot for a user source, from
    /// the system collection otherwise.
    pub fn load(&mut self, library: &Library, id: SourceId) -> (r: LoadStep)
        requires
            old(self).wf(),
            library.wf(),
            coherent(old(self), library),
        ensures
            final(self).wf(),
            coherent(final(self), library),
            id.is_user() ==> final(self).synced(library) && (!final(self).user.valid_source(id) ==> r is Absent) && (
            final(self).user.valid_source(id) ==> crate::source::load_step_allowed(
                final(self).user.sources@[id.index() as int],
                r,
            )),
            !id.is_user() ==> *final(self) == *old(self),
            !id.is_user() ==> (library.system matches SystemCollectionData::Static(s) ==> (!s.valid_source(id) ==> r is Absent)
                && (s.valid_source(id) ==> path_step_allowed(s.data.sources@[id.index() as int].file_name@, s.sources@[id.index() as int], r))),
            !id.is_user() ==> (library.system matches SystemCollectionData::Scanned(d) ==> (!d.collection.valid_source(id) ==> r is Absent)
                && (d.collection.valid_source(id) ==> load_step_allowed(d.collection.sources@[id.index() as int], r))),
    {
        if id.is_user_font() {
            self.sync_user(library);
            self.user.load(id)
        } else {
            library.system.load(id)
        }
    }

    /// Completes a load of source `id` with the outcome of reading it.
    pub fn finish_load(&mut self, library: &mut Library, id: SourceId, read: Option<Vec<u8>>) -> (r: Option<font::FontData>)
        requires
            old(self).wf(),
            old(library).wf(),
            coherent(old(self), old(library)),
        ensures
            final(self).wf(),
            final(library).wf(),
            coherent(final(self), final(library)),
            id.is_user() ==> *final(library) == *old(library) && final(self).synced(final(library)),
            id.is_user() ==> (!final(self).user.valid_source(id) ==> r is None),
            id.is_user() ==> final(self).user.sources@.len() == old(library).user.sources@.len(),
            id.is_user() && old(self).synced(old(library)) ==> forall|k: int| 0 <= k < old(self).user.sources@.len() && k != id.index()
                ==> #[trigger] final(self).user.sources@[k] == old(self).user.sources@[k],
            id.is_user() && old(library).user.valid_source(id) && old(self).synced(old(library)) ==> final(self).user.sources@[id.index() as int].kind
                == old(self).user.sources@[id.index() as int].kind,
            !id.is_user() ==> (old(library).system matches SystemCollectionData::Scanned(d) ==> final(library).system->Scanned_0.collection.sources@.len() == d.collection.sources@.len()
                && (forall|k: int| 0 <= k < d.collection.sources@.len() && k != id.index() ==> #[trigger] final(library).system->Scanned_0.collection.sources@[k] == d.collection.sources@[k])
                && (d.collection.valid_source(id) ==> final(library).system->Scanned_0.collection.sources@[id.index() as int].kind == d.collection.sources@[id.index() as int].kind)),
            !id.is_user() ==> (old(library).system matches SystemCollectionData::Static(s) ==> final(library).system->Static_0.data == s.data
                && (forall|k: int| 0 <= k < s.sources@.len() && k != id.index() ==> #[trigger] final(library).system->Static_0.sources@[k] == s.sources@[k])),
            id.is_user() && old(library).user.valid_source(id) && old(self).synced(old(library)) ==> {
                let before = old(self).user.sources@[id.index() as int].status;
                let after = final(self).user.sources@[id.index() as int].status;
                match before {
                    SourceDataStatus::Error => r is None && after is Error,
                    SourceDataStatus::Vacant => filled_by(read, r, after),
                    SourceDataStatus::Present(w) => (r matches Some(d) && d@ == w@ && after.same(before))
                        || filled_by(read, r, after),
                }
            },
            !id.is_user() ==> (old(library).system matches SystemCollectionData::Static(s) ==> (!s.valid_source(id) ==> r is None) && (s.valid_source(id) ==> {
                let before = s.sources@[id.index() as int];
                let after = final(library).system->Static_0.sources@[id.index() as int];
                match before {
                    SourceDataStatus::Error => r is None && after is Error,
                    SourceDataStatus::Vacant => filled_by(read, r, after),
                    SourceDataStatus::Present(w) => (r matches Some(d) && d@ == w@ && after.same(before))
                        || filled_by(read, r, after),
                }
            })),
            !id.is_user() ==> (old(library).system matches SystemCollectionData::Scanned(d) ==> (!d.collection.valid_source(id) ==> r is None) && (d.collection.valid_source(id) ==> {
                let before = d.collection.sources@[id.index() as int].status;
                let after = final(library).system->Scanned_0.collection.sources@[id.index() as int].status;
                match before {
                    SourceDataStatus::Error => r is None && after is Error,
                    SourceDataStatus::Vacant => filled_by(read, r, after),
                    SourceDataStatus::Present(w) => (r matches Some(d) && d@ == w@ && after.same(before))
                        || filled_by(read, r, after),
                }
            })),
            !id.is_user() ==> *final(self) == *old(self) && final(library).user == old(library).user
                && final(library).user_version == old(library).user_version,
    {
        if id.is_user_font() {
            self.sync_user(library);
            let ghost before = self.user;
            let r = self.user.finish_load(id, read);
            proof {
                assert(self.user.fonts@ == before.fonts@);
                assert(self.user.map_view() == before.map_view());
            }
            r
        } else {
            library.system.finish_load(id, read)
        }
    }

    /// The default families of the system collection.
    pub fn default_families(&self, library: &Library) -> (r: Vec<FamilyId>)
        ensures
            r@ == library.system.defaults(),
    {
        copy_ids_slice(library.system.default_families())
    }

    /// The families of generic kind `family` in the system collection.
    pub fn generic_families(&self, library: &Library, family: GenericFamily) -> (r: Vec<FamilyId>)
        requires
            library.wf(),
        ensures
            r@ == library.system.generic(family),
    {
        copy_ids_slice(library.system.generic_families(family))
    }

    /// The fallback chain for `script` in `locale`; see
    /// [`Library::fallback_spec`].
    pub fn fallback_families(&self, library: &Library, script: Script, locale: Option<Locale>) -> (r: Vec<FamilyId>)
        requires
            library.wf(),
        ensures
            r@ == library.fallback_spec(script, locale),
    {
        if script.is_han() {
            let system = library.system.fallback_families(script, locale);
            if system.len() > 0 {
                return copy_ids_slice(system);
            }
            return copy_ids_slice(library.user.fallback_families(script, locale));
        }
        if library.system.has_fallbacks(script.tag) {
            return copy_ids_slice(library.system.fallback_families(script, locale));
        }
        match library.user.find_script(script.tag) {
            Some(i) => {
                assert(library.user.script_fallbacks@[i as int].0 == script.tag);
                copy_ids_slice(library.user.fallback_families(script, locale))
            },
            None => copy_ids_slice(library.system.default_families()),
        }
    }

    /// Registers the fonts in `data` with the library's user collection.
    /// Returns the identifiers of the families and fonts added, or `None`
    /// when no face was accepted; only then is the version left as it was.
    pub fn register_fonts(&mut self, library: &mut Library, data: Vec<u8>) -> (r: Option<Registration>)
        requires
            old(self).wf(),
            old(library).wf(),
            coherent(old(self), old(library)),
            old(self).user_version <= old(library).user_version,
        ensures
            final(self).wf(),
            final(library).wf(),
            coherent(final(self), final(library)),
            final(self).user_version <= final(library).user_version,
            final(library).system == old(library).system,
            r is Some <==> final(library).user_version == old(library).user_version + 1,
            r is None ==> final(library).user_version == old(library).user_version && final(library).user == old(library).user,
            r is Some <==> old(library).user.sources@.len() <= MAX_INDEX && accepts_some_face(old(library).user, data@),
            final(library).user.lists_extend(&old(library).user),
            final(library).user.families_extend(&old(library).user),
            r matches Some(reg) ==> reg.fonts@.len() == 1 && single_face(data@) && old(library).user.map_position(face_key(data@, named_faces(data@, scan_limit(data@))[0])) is None
                ==> final(library).user.families@[final(library).user.lookup(face_key(data@, named_faces(data@, scan_limit(data@))[0]))->0.index() as int].fonts@
                == seq![slot_of_face(data@, named_faces(data@, scan_limit(data@))[0], reg.fonts@[0])],
            r matches Some(reg) ==> reg.fonts@.len() == 1 && single_face(data@) ==> single_face_registered(final(library).user, data@)
                && reg.families@ == seq![final(library).user.lookup(face_key(data@, named_faces(data@, scan_limit(data@))[0]))->0],
            r matches Some(reg) ==> reg.fonts@.len() <= named_faces(data@, scan_limit(data@)).len(),
            r matches Some(reg) ==> blob_ingested(old(library).user, data@, final(library).user, Seq::empty(), reg.families@, reg.fonts@.len()),
            r matches Some(reg) ==> {
                &&& reg.fonts@.len() > 0
                &&& forall|k: int| 0 <= k < reg.families@.len() ==> final(library).user.valid_family(#[trigger] reg.families@[k])
                &&& final(library).user.fonts@.len() == old(library).user.fonts@.len() + reg.fonts@.len()
                &&& forall|k: int| 0 <= k < reg.fonts@.len() ==> {
                    let id = #[trigger] reg.fonts@[k];
                    id.index() == old(library).user.fonts@.len() + k && id.is_user()
                }
            },
    {
        library.register(data)
    }

    /// Identifiers of all families: the system ones, then the user ones.
    pub fn families(&mut self, library: &Library) -> (r: Vec<FamilyId>)
        requires
            old(self).wf(),
            library.wf(),
            coherent(old(self), library),
        ensures
            final(self).wf(),
            final(self).synced(library),
            r@.len() == library.system.family_count() + library.user.families@.len(),
            forall|i: int| 0 <= i < library.system.family_count() ==> (#[trigger] r@[i]).index() == i && !r@[i].is_user(),
            forall|i: int| library.system.family_count() <= i < r@.len() ==> (#[trigger] r@[i]).index() == i
                - library.system.family_count() && r@[i].is_user(),
    {
        self.sync_user(library);
        let n = system_family_count(&library.system);
        let mut r: Vec<FamilyId> = Vec::new();
        let mut i: usize = 0;
        while i < n
            invariant
                n == library.system.family_count(),
                library.wf(),
                i <= n,
                r@.len() == i,
                forall|j: int| 0 <= j < i ==> (#[trigger] r@[j]).index() == j && !r@[j].is_user(),
            decreases n - i,
        {
            r.push(FamilyId::new(i as u32));
            i += 1;
        }
        let m = self.user.families.len();
        let mut j: usize = 0;
        while j < m
            invariant
                n == library.system.family_count(),
                m == library.user.families@.len(),
                m <= MAX_INDEX + 1,
                j <= m,
                r@.len() == n + j,
                forall|k: int| 0 <= k < n ==> (#[trigger] r@[k]).index() == k && !r@[k].is_user(),
                forall|k: int| n <= k < n + j ==> (#[trigger] r@[k]).index() == k - n && r@[k].is_user(),
            decreases m - j,
        {
            match FamilyId::allocate(j, true) {
                Some(id) => r.push(id),
                None => {},
            }
            j += 1;
        }
        r
    }
}

/// Number of families of the system collection.
fn system_family_count(system: &crate::system::SystemCollectionData) -> (r: usize)
    requires
        system.wf(),
    ensures
        r == system.family_count(),
        r <= MAX_INDEX + 1,
{
    match system {
        crate::system::SystemCollectionData::Static(s) => s.data.families.len(),
        crate::system::SystemCollectionData::Scanned(d) => d.collection.families.len(),
    }
}

/// Copies a slice of family identifiers.
fn copy_ids_slice(v: &[FamilyId]) -> (r: Vec<FamilyId>)
    ensures
        r@ == v@,
{
    let mut r: Vec<FamilyId> = Vec::new();
    let mut i: usize = 0;
    while i < v.len()
        invariant
            i <= v@.len(),
            r@ == v@.subrange(0, i as int),
        decreases v@.len() - i,
    {
        r.push(v[i]);
        i += 1;
        assert(r@ =~= v@.subrange(0, i as int));
    }
    assert(r@ =~= v@);
    r
}

} // verus!
