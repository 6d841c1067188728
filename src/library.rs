//! The shared font library: the system collection, the user collection and
//! the version counter of the user collection.

use crate::data::{found_ids, names_of, default_names, generic_names, CollectionData, Os, Registration};
use crate::font;
use crate::id::{FamilyId, MAX_INDEX};
use crate::ingest::{blob_ingested, accepts_some_face, face_key, single_face, single_face_registered, slot_of_face};
use crate::scan::{named_faces, scan_limit};
use crate::lowercase::fold_name;
use crate::source::SourceData;
use crate::system::{ScannedCollectionData, SystemCollectionData};
use crate::text::{GenericFamily, Locale, Script, HAN_TAG};
use vstd::prelude::*;

verus! {

/// Indexed collections of fonts with their metadata, for queries and
/// fallback. Queries go through a [`crate::context::FontContext`].
pub struct Library {
    pub system: SystemCollectionData,
    pub user: CollectionData,
    /// Advances with every registration that added fonts.
    pub user_version: u64,
}

impl Library {
    pub open spec fn wf(&self) -> bool {
        &&& self.system.wf()
        &&& self.user.wf()
        &&& self.user.is_user
        &&& self.user_version <= self.user.fonts@.len()
    }

    /// A library over `system` with an empty user collection.
    pub fn new(system: SystemCollectionData) -> (r: Self)
        requires
            system.wf(),
        ensures
            r.wf(),
            r.system == system,
            r.user_version == 0,
            r.user.families@.len() == 0,
            r.user.fonts@.len() == 0,
    {
        Library { system, user: CollectionData::new(true), user_version: 0 }
    }

    /// The family a folded name names: in the user collection first, then in
    /// the system one.
    pub open spec fn lookup(&self, key: Seq<char>) -> Option<FamilyId> {
        match self.user.lookup(key) {
            Some(id) => Some(id),
            None => self.system.lookup(key),
        }
    }

    /// The fallback chain: for Han, the system list of the locale's CJK
    /// variant, or the user list of that variant when the system one is
    /// empty; for another script, the system list of its tag, else the
    /// user list of its tag, else the system default families.
    pub open spec fn fallback_spec(&self, script: Script, locale: Option<Locale>) -> Seq<FamilyId> {
        if script.tag == HAN_TAG {
            if self.system.fallback_spec(script, locale).len() > 0 {
                self.system.fallback_spec(script, locale)
            } else {
                self.user.fallback_spec(script, locale)
            }
        } else if self.system.has_list(script.tag) {
            self.system.fallback_spec(script, locale)
        } else if exists|i: int|
            0 <= i < self.user.script_fallbacks@.len() && (#[trigger] self.user.script_fallbacks@[i]).0 == script.tag {
            self.user.fallback_spec(script, locale)
        } else {
            self.system.defaults()
        }
    }

    /// Ingests `data` into the user collection. When at least one face was
    /// accepted the version advances and the registration is returned.
    pub fn register(&mut self, data: Vec<u8>) -> (r: Option<Registration>)
        requires
            old(self).wf(),
        ensures
            final(self).wf(),
            final(self).system == old(self).system,
            r is Some <==> final(self).user_version != old(self).user_version,
            r is Some <==> old(self).user.sources@.len() <= MAX_INDEX && accepts_some_face(old(self).user, data@),
            r is Some ==> final(self).user_version == old(self).user_version + 1,
            r is None ==> final(self).user == old(self).user,
            final(self).user.lists_extend(&old(self).user),
            final(self).user.families_extend(&old(self).user),
            r matches Some(reg) ==> reg.fonts@.len() == 1 && single_face(data@) && old(self).user.map_position(face_key(data@, named_faces(data@, scan_limit(data@))[0])) is None
                ==> final(self).user.families@[final(self).user.lookup(face_key(data@, named_faces(data@, scan_limit(data@))[0]))->0.index() as int].fonts@
                == seq![slot_of_face(data@, named_faces(data@, scan_limit(data@))[0], reg.fonts@[0])],
            r matches Some(reg) ==> reg.fonts@.len() == 1 && single_face(data@) ==> single_face_registered(final(self).user, data@)
                && reg.families@ == seq![final(self).user.lookup(face_key(data@, named_faces(data@, scan_limit(data@))[0]))->0],
            r matches Some(reg) ==> reg.fonts@.len() <= named_faces(data@, scan_limit(data@)).len(),
            r matches Some(reg) ==> blob_ingested(old(self).user, data@, final(self).user, Seq::empty(), reg.families@, reg.fonts@.len()),
            r matches Some(reg) ==> {
                &&& reg.fonts@.len() > 0
                &&& forall|k: int| 0 <= k < reg.families@.len() ==> final(self).user.valid_family(#[trigger] reg.families@[k])
                &&& final(self).user.fonts@.len() == old(self).user.fonts@.len() + reg.fonts@.len()
                &&& forall|k: int| 0 <= k < reg.fonts@.len() ==> {
                    let id = #[trigger] reg.fonts@[k];
                    id.index() == old(self).user.fonts@.len() + k && id.is_user()
                }
            },
    {
        let ghost bytes = data@;
        let data = font::FontData::new(data);
        let source = SourceData::from_data(data.clone());
        let mut reg = Registration::new();
        proof {
            CollectionData::lemma_lists_extend_refl(&self.user, &self.user);
            CollectionData::lemma_families_extend_refl(&self.user);
        }
        let count = match self.user.add_fonts(&data, source, &mut reg) {
            Some(count) => count,
            None => 0,
        };
        if count != 0 {
            proof {
                if reg.fonts@.len() == 1 && single_face(data@) {
                    assert(reg.families@ =~= seq![self.user.lookup(face_key(data@, named_faces(data@, scan_limit(data@))[0]))->0]);
                }
            }
            assert forall|k: int| 0 <= k < reg.fonts@.len() implies {
                let id = #[trigger] reg.fonts@[k];
                id.index() == old(self).user.fonts@.len() + k && id.is_user()
            } by {
                assert(reg.fonts@[0 + k] == reg.fonts@[k]);
            }
            self.user_version = self.user_version + 1;
            Some(reg)
        } else {
            None
        }
    }
}

/// Assembles a library whose system collection is scanned: faces are added
/// as they are discovered, then the default and generic family lists are
/// set from the platform's standard names.
pub struct LibraryBuilder {
    pub system: CollectionData,
}

impl LibraryBuilder {
    pub open spec fn wf(&self) -> bool {
        self.system.wf() && !self.system.is_user
    }

    pub fn new() -> (r: Self)
        ensures
            r.wf(),
            r.system.families@.len() == 0,
    {
        LibraryBuilder { system: CollectionData::new(false) }
    }

    /// The family named `name`, if one was added already.
    pub fn family_id(&self, name: &str) -> (r: Option<FamilyId>)
        requires
            self.wf(),
        ensures
            r == self.system.lookup(fold_name(name@)),
    {
        self.system.family_id(name)
    }

    /// Records that no family answers to `name`.
    pub fn mark_missing(&mut self, name: &str)
        requires
            old(self).wf(),
        ensures
            final(self).wf(),
    {
        self.system.mark_missing(name)
    }

    /// Adds the faces of a discovered file.
    pub fn add_fonts(&mut self, data: &font::FontData, source: SourceData) -> (r: Option<u32>)
        requires
            old(self).wf(),
        ensures
            final(self).wf(),
            r is None <==> old(self).system.sources@.len() > MAX_INDEX,
            r matches Some(count) ==> final(self).system.fonts@.len() == old(self).system.fonts@.len() + count,
            r matches Some(count) ==> (count == 0 <==> !accepts_some_face(old(self).system, data@)),
            r matches Some(count) ==> exists|fams: Seq<FamilyId>| blob_ingested(old(self).system, data@, final(self).system, Seq::empty(), fams, count as nat),
    {
        let mut reg = Registration::new();
        self.system.add_fonts(data, source, &mut reg)
    }

    /// Sets the default and generic families of `os` and builds the library.
    pub fn build(self, os: Os) -> (r: Library)
        requires
            self.wf(),
        ensures
            r.wf(),
            r.user_version == 0,
            r.system matches SystemCollectionData::Scanned(d) && d.collection.default_families@ == found_ids(
                self.system,
                names_of(default_names(os)),
            ) && forall|k: GenericFamily| #[trigger] d.collection.generic_families@[k.spec_index() as int]@
                == found_ids(self.system, names_of(generic_names(os, k))),
    {
        let mut system = self.system;
        let ghost before = system;
        system.setup_default(os);
        let ghost mid = system;
        system.setup_default_generic(os);
        proof {
            crate::data::lemma_found_ids_depends(before, mid, names_of(default_names(os)));
            assert forall|k: GenericFamily| #[trigger] system.generic_families@[k.spec_index() as int]@
                == found_ids(before, names_of(generic_names(os, k))) by {
                crate::data::lemma_found_ids_depends(before, mid, names_of(generic_names(os, k)));
            }
        }
        Library::new(SystemCollectionData::Scanned(ScannedCollectionData { collection: system }))
    }
}

/// Through a library, Han resolves by the locale's CJK variant (the system
/// list, else the user list), whatever lists exist under the Han tag; a script with
/// no list anywhere resolves to exactly the system default families.
pub proof fn lemma_library_fallback_choice(library: &Library, locale: Option<Locale>, other: Script)
    requires
        other.tag != HAN_TAG,
        !library.system.has_list(other.tag),
        forall|i: int| 0 <= i < library.user.script_fallbacks@.len() ==> (#[trigger] library.user.script_fallbacks@[i]).0 != other.tag,
    ensures
        library.system.fallback_spec(Script { tag: HAN_TAG }, locale).len() > 0 ==> library.fallback_spec(Script { tag: HAN_TAG }, locale)
            == library.system.fallback_spec(Script { tag: HAN_TAG }, locale),
        library.system.fallback_spec(Script { tag: HAN_TAG }, locale).len() == 0 ==> library.fallback_spec(Script { tag: HAN_TAG }, locale)
            == library.user.cjk_families@[crate::text::cjk_of(locale).spec_index() as int]@,
        library.system matches SystemCollectionData::Scanned(d) ==> d.collection.cjk_families@[crate::text::cjk_of(locale).spec_index() as int]@.len() > 0
            ==> library.fallback_spec(Script { tag: HAN_TAG }, locale) == d.collection.cjk_families@[crate::text::cjk_of(locale).spec_index() as int]@,
        library.fallback_spec(other, locale) == library.system.defaults(),
{
}

} // verus!
