//! Adding scanned faces to a collection.

use crate::attributes::{Attributes, Stretch, Weight, NORMAL_STRETCH};
use crate::data::{no_repeats, same_style, slot_matches, CollectionData, FamilyData, FontData, FontSlot, Registration};
use crate::id::{FamilyId, FontId, SourceId, MAX_INDEX};
use crate::lowercase::fold_name;
use crate::scan::{scan_result, chosen_name, describes_face, entry_set, face_attrs_of, face_systems_of, named_faces, scan_limit, FontScanner};
use crate::source::SourceData;
use crate::text::{Cjk, Script};
use vstd::prelude::*;

verus! {

broadcast use crate::id::group_id_eq;

/// What the scanner found in one face.
pub struct ScannedFont {
    pub name: String,
    pub lowercase_name: String,
    pub index: u32,
    pub attributes: Attributes,
    pub cache_key: u64,
    /// Scripts the face declares, each with its CJK variant, without repeats.
    pub scripts: Vec<(Script, Cjk)>,
}

/// The slot a scanned face takes in its family.
pub open spec fn slot_of(font: ScannedFont, id: FontId) -> FontSlot {
    (
        id,
        Stretch(crate::attributes::stretch_bits(font.attributes.bits)),
        Weight(crate::attributes::weight_bits(font.attributes.bits)),
        crate::attributes::style_bits(font.attributes.bits),
    )
}

/// Any font identifier: the style of a slot does not depend on it.
pub open spec fn fid_font_any() -> FontId {
    arbitrary()
}

/// A slot with the stretch, weight and style packed in `bits`.
pub open spec fn style_slot(bits: u32) -> FontSlot {
    (
        fid_font_any(),
        Stretch(crate::attributes::stretch_bits(bits)),
        Weight(crate::attributes::weight_bits(bits)),
        crate::attributes::style_bits(bits),
    )
}

/// Appends `id` to `list` unless it is there already.
pub fn add_unique(list: &mut Vec<FamilyId>, id: FamilyId)
    ensures
        old(list)@.contains(id) ==> final(list)@ == old(list)@,
        !old(list)@.contains(id) ==> final(list)@ == old(list)@.push(id),
{
    let mut i: usize = 0;
    while i < list.len()
        invariant
            i <= list@.len(),
            list@ == old(list)@,
            forall|j: int| 0 <= j < i ==> list@[j] != id,
        decreases list@.len() - i,
    {
        if list[i] == id {
            return;
        }
        i += 1;
    }
    list.push(id);
}

/// Inserts `slot` after every slot of lower or equal weight.
pub fn insert_by_weight(fonts: &mut Vec<FontSlot>, slot: FontSlot) -> (p: usize)
    requires
        forall|i: int, j: int| 0 <= i < j < old(fonts)@.len() ==> old(fonts)@[i].2.0 <= old(fonts)@[j].2.0,
    ensures
        p <= old(fonts)@.len(),
        final(fonts)@ == old(fonts)@.insert(p as int, slot),
        forall|i: int, j: int| 0 <= i < j < final(fonts)@.len() ==> final(fonts)@[i].2.0 <= final(fonts)@[j].2.0,
{
    let mut p: usize = 0;
    while p < fonts.len() && fonts[p].2.0 <= slot.2.0
        invariant
            p <= fonts@.len(),
            fonts@ == old(fonts)@,
            forall|i: int| 0 <= i < p ==> fonts@[i].2.0 <= slot.2.0,
        decreases fonts@.len() - p,
    {
        p += 1;
    }
    fonts.insert(p, slot);
    p
}

impl CollectionData {
    /// Whether a face goes in: its font identifier fits, its name is not
    /// marked as naming no family, a new family's identifier fits, and its
    /// family has no font of the same stretch, weight and style yet.
    pub open spec fn accepts(&self, font: ScannedFont) -> bool {
        self.accepts_face(font.lowercase_name@, font.attributes.bits)
    }

    /// Whether a face of folded name `key` and packed attributes `bits`
    /// goes in; see [`CollectionData::accepts`].
    pub open spec fn accepts_face(&self, key: Seq<char>, bits: u32) -> bool {
        &&& self.fonts@.len() <= MAX_INDEX
        &&& match self.map_position(key) {
            Some(p) => match self.family_map@[p].1 {
                None => false,
                Some(fid) => !exists|j: int|
                    0 <= j < self.families@[fid.index() as int].fonts@.len() && same_style(
                        #[trigger] self.families@[fid.index() as int].fonts@[j],
                        style_slot(bits),
                    ),
            },
            None => self.families@.len() <= MAX_INDEX,
        }
    }

    /// Everything but the fallback lists is left as it is.
    pub open spec fn same_but_lists(&self, other: &Self) -> bool {
        &&& self.is_user == other.is_user
        &&& self.families@ == other.families@
        &&& self.fonts@ == other.fonts@
        &&& self.sources@ == other.sources@
        &&& self.family_map@ == other.family_map@
    }

    /// The fallback lists of `self` extend those of `old`: no list loses or
    /// reorders an entry, only appends; default and generic lists are kept.
    pub open spec fn lists_extend(&self, old: &Self) -> bool {
        &&& self.default_families@ == old.default_families@
        &&& self.generic_families@ == old.generic_families@
        &&& self.cjk_families@.len() == old.cjk_families@.len()
        &&& forall|c: int| 0 <= c < old.cjk_families@.len() ==> {
            &&& old.cjk_families@[c]@.len() <= (#[trigger] self.cjk_families@[c])@.len()
            &&& self.cjk_families@[c]@.subrange(0, old.cjk_families@[c]@.len() as int) == old.cjk_families@[c]@
        }
        &&& self.script_fallbacks@.len() >= old.script_fallbacks@.len()
        &&& forall|i: int| 0 <= i < old.script_fallbacks@.len() ==> {
            &&& (#[trigger] self.script_fallbacks@[i]).0 == old.script_fallbacks@[i].0
            &&& old.script_fallbacks@[i].1@.len() <= self.script_fallbacks@[i].1@.len()
            &&& self.script_fallbacks@[i].1@.subrange(0, old.script_fallbacks@[i].1@.len() as int) == old.script_fallbacks@[i].1@
        }
    }

    pub proof fn lemma_lists_extend_refl(a: &Self, b: &Self)
        requires
            a.default_families@ == b.default_families@,
            a.generic_families@ == b.generic_families@,
            a.cjk_families@ == b.cjk_families@,
            a.script_fallbacks@ == b.script_fallbacks@,
        ensures
            a.lists_extend(b),
    {
        assert forall|k: int| 0 <= k < b.cjk_families@.len() implies {
            &&& b.cjk_families@[k]@.len() <= (#[trigger] a.cjk_families@[k])@.len()
            &&& a.cjk_families@[k]@.subrange(0, b.cjk_families@[k]@.len() as int) == b.cjk_families@[k]@
        } by {
            assert(b.cjk_families@[k]@.subrange(0, b.cjk_families@[k]@.len() as int) =~= b.cjk_families@[k]@);
        }
        assert forall|i: int| 0 <= i < b.script_fallbacks@.len() implies {
            &&& (#[trigger] a.script_fallbacks@[i]).0 == b.script_fallbacks@[i].0
            &&& b.script_fallbacks@[i].1@.len() <= a.script_fallbacks@[i].1@.len()
            &&& a.script_fallbacks@[i].1@.subrange(0, b.script_fallbacks@[i].1@.len() as int) == b.script_fallbacks@[i].1@
        } by {
            assert(b.script_fallbacks@[i].1@.subrange(0, b.script_fallbacks@[i].1@.len() as int) =~= b.script_fallbacks@[i].1@);
        }
    }

    /// The families of `old` are in `self` under the same names, each with
    /// at least its old fonts; the family map only grows at its end.
    pub open spec fn families_extend(&self, old: &Self) -> bool {
        &&& self.families@.len() >= old.families@.len()
        &&& forall|k: int| 0 <= k < old.families@.len() ==> {
            &&& (#[trigger] self.families@[k]).name@ == old.families@[k].name@
            &&& forall|j: int| 0 <= j < old.families@[k].fonts@.len() ==> self.families@[k].fonts@.contains(#[trigger] old.families@[k].fonts@[j])
        }
        &&& self.family_map@.len() >= old.family_map@.len()
        &&& self.family_map@.subrange(0, old.family_map@.len() as int) == old.family_map@
        &&& self.fonts@.len() >= old.fonts@.len()
        &&& self.fonts@.subrange(0, old.fonts@.len() as int) == old.fonts@
    }

    pub proof fn lemma_families_extend_refl(a: &Self)
        ensures
            a.families_extend(a),
    {
        assert forall|k: int| 0 <= k < a.families@.len() implies {
            &&& (#[trigger] a.families@[k]).name@ == a.families@[k].name@
            &&& forall|j: int| 0 <= j < a.families@[k].fonts@.len() ==> a.families@[k].fonts@.contains(#[trigger] a.families@[k].fonts@[j])
        } by {
            assert forall|j: int| 0 <= j < a.families@[k].fonts@.len() implies a.families@[k].fonts@.contains(#[trigger] a.families@[k].fonts@[j]) by {
                assert(a.families@[k].fonts@[j] == a.families@[k].fonts@[j]);
            }
        }
        assert(a.family_map@.subrange(0, a.family_map@.len() as int) =~= a.family_map@);
        assert(a.fonts@.subrange(0, a.fonts@.len() as int) =~= a.fonts@);
    }

    pub proof fn lemma_families_extend_trans(a: &Self, b: &Self, c: &Self)
        requires
            a.families_extend(b),
            b.families_extend(c),
        ensures
            a.families_extend(c),
    {
        assert forall|k: int| 0 <= k < c.families@.len() implies {
            &&& (#[trigger] a.families@[k]).name@ == c.families@[k].name@
            &&& forall|j: int| 0 <= j < c.families@[k].fonts@.len() ==> a.families@[k].fonts@.contains(#[trigger] c.families@[k].fonts@[j])
        } by {
            assert forall|j: int| 0 <= j < c.families@[k].fonts@.len() implies a.families@[k].fonts@.contains(#[trigger] c.families@[k].fonts@[j]) by {
                let x = c.families@[k].fonts@[j];
                assert(b.families@[k].fonts@.contains(x));
                let m = choose|m: int| 0 <= m < b.families@[k].fonts@.len() && b.families@[k].fonts@[m] == x;
                assert(a.families@[k].fonts@.contains(b.families@[k].fonts@[m]));
            }
        }
        assert(a.family_map@.subrange(0, c.family_map@.len() as int) =~= a.family_map@.subrange(0, b.family_map@.len() as int).subrange(0, c.family_map@.len() as int));
        assert(a.fonts@.subrange(0, c.fonts@.len() as int) =~= a.fonts@.subrange(0, b.fonts@.len() as int).subrange(0, c.fonts@.len() as int));
    }

    pub proof fn lemma_lists_extend_trans(a: &Self, b: &Self, c: &Self)
        requires
            a.lists_extend(b),
            b.lists_extend(c),
        ensures
            a.lists_extend(c),
    {
        assert forall|k: int| 0 <= k < c.cjk_families@.len() implies {
            &&& c.cjk_families@[k]@.len() <= (#[trigger] a.cjk_families@[k])@.len()
            &&& a.cjk_families@[k]@.subrange(0, c.cjk_families@[k]@.len() as int) == c.cjk_families@[k]@
        } by {
            assert(b.cjk_families@[k]@.subrange(0, c.cjk_families@[k]@.len() as int) == c.cjk_families@[k]@);
            assert(a.cjk_families@[k]@.subrange(0, c.cjk_families@[k]@.len() as int) =~= a.cjk_families@[k]@.subrange(0, b.cjk_families@[k]@.len() as int).subrange(0, c.cjk_families@[k]@.len() as int));
        }
        assert forall|i: int| 0 <= i < c.script_fallbacks@.len() implies {
            &&& (#[trigger] a.script_fallbacks@[i]).0 == c.script_fallbacks@[i].0
            &&& c.script_fallbacks@[i].1@.len() <= a.script_fallbacks@[i].1@.len()
            &&& a.script_fallbacks@[i].1@.subrange(0, c.script_fallbacks@[i].1@.len() as int) == c.script_fallbacks@[i].1@
        } by {
            assert(b.script_fallbacks@[i].0 == c.script_fallbacks@[i].0);
            assert(a.script_fallbacks@[i].1@.subrange(0, c.script_fallbacks@[i].1@.len() as int) =~= a.script_fallbacks@[i].1@.subrange(0, b.script_fallbacks@[i].1@.len() as int).subrange(0, c.script_fallbacks@[i].1@.len() as int));
        }
    }

    /// The fallback lists of `self` are those of `old`, some with `fid`
    /// appended (where it was missing), each under a script of `scripts`.
    pub open spec fn lists_grow(&self, old: &Self, fid: FamilyId, scripts: Seq<(Script, Cjk)>) -> bool {
        &&& self.cjk_families@.len() == old.cjk_families@.len()
        &&& forall|c: int| 0 <= c < old.cjk_families@.len() ==> (#[trigger] self.cjk_families@[c])@ == old.cjk_families@[c]@ || (
            self.cjk_families@[c]@ == old.cjk_families@[c]@.push(fid) && !old.cjk_families@[c]@.contains(fid)
                && exists|e: int| 0 <= e < scripts.len() && (#[trigger] scripts[e]).0.tag == crate::text::HAN_TAG
                    && scripts[e].1.spec_index() == c)
        &&& self.script_fallbacks@.len() >= old.script_fallbacks@.len()
        &&& forall|i: int| 0 <= i < old.script_fallbacks@.len() ==> (#[trigger] self.script_fallbacks@[i]).0 == old.script_fallbacks@[i].0
        &&& forall|i: int| 0 <= i < old.script_fallbacks@.len() ==> (#[trigger] self.script_fallbacks@[i]).1@ == old.script_fallbacks@[i].1@ || (
            self.script_fallbacks@[i].1@ == old.script_fallbacks@[i].1@.push(fid) && !old.script_fallbacks@[i].1@.contains(fid)
                && exists|e: int| 0 <= e < scripts.len() && (#[trigger] scripts[e]).0.tag == self.script_fallbacks@[i].0
                    && self.script_fallbacks@[i].0 != crate::text::HAN_TAG)
        &&& forall|i: int| old.script_fallbacks@.len() <= i < self.script_fallbacks@.len() ==> (#[trigger] self.script_fallbacks@[i]).1@ == seq![fid]
            && exists|e: int| 0 <= e < scripts.len() && (#[trigger] scripts[e]).0.tag == self.script_fallbacks@[i].0
                && self.script_fallbacks@[i].0 != crate::text::HAN_TAG
    }

    pub proof fn lemma_lists_grow_base(a: &Self, b1: &Self, b2: &Self, fid: FamilyId, scripts: Seq<(Script, Cjk)>)
        requires
            a.lists_grow(b1, fid, scripts),
            b1.cjk_families@ == b2.cjk_families@,
            b1.script_fallbacks@ == b2.script_fallbacks@,
        ensures
            a.lists_grow(b2, fid, scripts),
    {
    }

    pub proof fn lemma_lists_grow_refl(a: &Self, fid: FamilyId)
        ensures
            a.lists_grow(a, fid, Seq::empty()),
    {
    }

    pub proof fn lemma_lists_grow_step(a: &Self, b: &Self, c: &Self, fid: FamilyId, scripts: Seq<(Script, Cjk)>, k: int)
        requires
            0 <= k < scripts.len(),
            b.lists_grow(c, fid, scripts.subrange(0, k)),
            a.lists_grow(b, fid, seq![scripts[k]]),
        ensures
            a.lists_grow(c, fid, scripts.subrange(0, k + 1)),
    {
        let s0 = scripts.subrange(0, k);
        let s1 = scripts.subrange(0, k + 1);
        let one = seq![scripts[k]];
        assert(s1[k] == scripts[k]);
        assert forall|x: int| 0 <= x < c.cjk_families@.len() implies (#[trigger] a.cjk_families@[x])@ == c.cjk_families@[x]@ || (
            a.cjk_families@[x]@ == c.cjk_families@[x]@.push(fid) && !c.cjk_families@[x]@.contains(fid)
                && exists|e: int| 0 <= e < s1.len() && (#[trigger] s1[e]).0.tag == crate::text::HAN_TAG
                    && s1[e].1.spec_index() == x) by {
            let bl = b.cjk_families@[x]@;
            let cl = c.cjk_families@[x]@;
            if bl != cl {
                let e = choose|e: int| 0 <= e < s0.len() && (#[trigger] s0[e]).0.tag == crate::text::HAN_TAG && s0[e].1.spec_index() == x;
                assert(s1[e] == s0[e]);
                assert(bl.contains(fid)) by {
                    assert(bl[bl.len() - 1] == fid);
                }
            } else if a.cjk_families@[x]@ != bl {
                let e = choose|e: int| 0 <= e < one.len() && (#[trigger] one[e]).0.tag == crate::text::HAN_TAG && one[e].1.spec_index() == x;
                assert(e == 0);
            }
        }
        assert forall|i: int| 0 <= i < c.script_fallbacks@.len() implies (#[trigger] a.script_fallbacks@[i]).1@ == c.script_fallbacks@[i].1@ || (
            a.script_fallbacks@[i].1@ == c.script_fallbacks@[i].1@.push(fid) && !c.script_fallbacks@[i].1@.contains(fid)
                && exists|e: int| 0 <= e < s1.len() && (#[trigger] s1[e]).0.tag == a.script_fallbacks@[i].0
                    && a.script_fallbacks@[i].0 != crate::text::HAN_TAG) by {
            let al = a.script_fallbacks@[i].1@;
            let bl = b.script_fallbacks@[i].1@;
            let cl = c.script_fallbacks@[i].1@;
            assert(a.script_fallbacks@[i].0 == b.script_fallbacks@[i].0);
            if bl != cl {
                let e = choose|e: int| 0 <= e < s0.len() && (#[trigger] s0[e]).0.tag == b.script_fallbacks@[i].0 && b.script_fallbacks@[i].0 != crate::text::HAN_TAG;
                assert(s1[e] == s0[e]);
                assert(bl.contains(fid)) by {
                    assert(bl[bl.len() - 1] == fid);
                }
            } else if al != bl {
                let e = choose|e: int| 0 <= e < one.len() && (#[trigger] one[e]).0.tag == a.script_fallbacks@[i].0 && a.script_fallbacks@[i].0 != crate::text::HAN_TAG;
                assert(e == 0);
            }
        }
        assert forall|i: int| c.script_fallbacks@.len() <= i < a.script_fallbacks@.len() implies (#[trigger] a.script_fallbacks@[i]).1@ == seq![fid]
            && exists|e: int| 0 <= e < s1.len() && (#[trigger] s1[e]).0.tag == a.script_fallbacks@[i].0
                && a.script_fallbacks@[i].0 != crate::text::HAN_TAG by {
            if i < b.script_fallbacks@.len() {
                let e = choose|e: int| 0 <= e < s0.len() && (#[trigger] s0[e]).0.tag == b.script_fallbacks@[i].0 && b.script_fallbacks@[i].0 != crate::text::HAN_TAG;
                assert(s1[e] == s0[e]);
                assert(b.script_fallbacks@[i].1@.contains(fid)) by {
                    assert(b.script_fallbacks@[i].1@[0] == fid);
                }
                assert(a.script_fallbacks@[i].0 == b.script_fallbacks@[i].0);
                assert(a.script_fallbacks@[i].1@ == b.script_fallbacks@[i].1@);
            } else {
                let e = choose|e: int| 0 <= e < one.len() && (#[trigger] one[e]).0.tag == a.script_fallbacks@[i].0 && a.script_fallbacks@[i].0 != crate::text::HAN_TAG;
                assert(e == 0);
            }
        }
    }

    /// The fallback list `script` and `cjk` select holds `id`.
    pub open spec fn listed_under(&self, script: Script, cjk: Cjk, id: FamilyId) -> bool {
        if script.tag == crate::text::HAN_TAG {
            self.cjk_families@[cjk.spec_index() as int]@.contains(id)
        } else {
            exists|i: int|
                0 <= i < self.script_fallbacks@.len() && (#[trigger] self.script_fallbacks@[i]).0 == script.tag
                    && self.script_fallbacks@[i].1@.contains(id)
        }
    }

    /// Adds family `id` to the fallback list of `script` (for Han, the list of
    /// variant `cjk`), unless it is there already.
    pub fn add_fallback(&mut self, script: Script, cjk: Cjk, id: FamilyId)
        requires
            old(self).wf(),
            old(self).valid_family(id),
        ensures
            final(self).wf(),
            final(self).same_but_lists(old(self)),
            final(self).default_families@ == old(self).default_families@,
            final(self).generic_families@ == old(self).generic_families@,
            final(self).listed_under(script, cjk, id),
            forall|s: Script, c: Cjk, f: FamilyId|
                old(self).listed_under(s, c, f) ==> #[trigger] final(self).listed_under(s, c, f),
            final(self).lists_extend(old(self)),
            final(self).lists_grow(old(self), id, seq![(script, cjk)]),
    {
        let ghost before = *self;
        let ghost one = seq![(script, cjk)];
        assert(one[0] == (script, cjk));
        if script.is_han() {
            let c = cjk.index();
            add_unique(&mut self.cjk_families[c], id);
            proof {
                assert(self.script_fallbacks@ == before.script_fallbacks@);
                assert forall|k: int| 0 <= k < before.script_fallbacks@.len() implies {
                    &&& (#[trigger] self.script_fallbacks@[k]).0 == before.script_fallbacks@[k].0
                    &&& before.script_fallbacks@[k].1@.len() <= self.script_fallbacks@[k].1@.len()
                    &&& self.script_fallbacks@[k].1@.subrange(0, before.script_fallbacks@[k].1@.len() as int) == before.script_fallbacks@[k].1@
                } by {
                    assert(before.script_fallbacks@[k].1@.subrange(0, before.script_fallbacks@[k].1@.len() as int) =~= before.script_fallbacks@[k].1@);
                }
                assert forall|k: int| 0 <= k < before.cjk_families@.len() implies {
                    &&& before.cjk_families@[k]@.len() <= (#[trigger] self.cjk_families@[k])@.len()
                    &&& self.cjk_families@[k]@.subrange(0, before.cjk_families@[k]@.len() as int) == before.cjk_families@[k]@
                } by {
                    assert(before.cjk_families@[k]@.subrange(0, before.cjk_families@[k]@.len() as int) =~= before.cjk_families@[k]@);
                    if k == c {
                        assert(self.cjk_families@[k]@.subrange(0, before.cjk_families@[k]@.len() as int) =~= before.cjk_families@[k]@);
                    }
                }
                Self::lemma_families_kept(&before, self);
                assert(self.cjk_families@[c as int]@.contains(id)) by {
                    if !before.cjk_families@[c as int]@.contains(id) {
                        assert(self.cjk_families@[c as int]@.last() == id);
                    }
                }
                assert forall|s: Script, cc: Cjk, f: FamilyId|
                    before.listed_under(s, cc, f) implies #[trigger] self.listed_under(s, cc, f) by {
                    if s.tag == crate::text::HAN_TAG && cc.spec_index() == c {
                        let l = before.cjk_families@[c as int]@;
                        let k = choose|k: int| 0 <= k < l.len() && l[k] == f;
                        assert(self.cjk_families@[c as int]@[k] == f);
                    }
                }
            }
        } else {
            match self.find_script(script.tag) {
                Some(i) => {
                    add_unique(&mut self.script_fallbacks[i].1, id);
                    proof {
                        assert(self.cjk_families@ == before.cjk_families@);
                        assert forall|k: int| 0 <= k < before.cjk_families@.len() implies {
                            &&& before.cjk_families@[k]@.len() <= (#[trigger] self.cjk_families@[k])@.len()
                            &&& self.cjk_families@[k]@.subrange(0, before.cjk_families@[k]@.len() as int) == before.cjk_families@[k]@
                        } by {
                            assert(before.cjk_families@[k]@.subrange(0, before.cjk_families@[k]@.len() as int) =~= before.cjk_families@[k]@);
                        }
                        assert forall|k: int| 0 <= k < before.script_fallbacks@.len() implies {
                            &&& (#[trigger] self.script_fallbacks@[k]).0 == before.script_fallbacks@[k].0
                            &&& before.script_fallbacks@[k].1@.len() <= self.script_fallbacks@[k].1@.len()
                            &&& self.script_fallbacks@[k].1@.subrange(0, before.script_fallbacks@[k].1@.len() as int) == before.script_fallbacks@[k].1@
                        } by {
                            assert(before.script_fallbacks@[k].1@.subrange(0, before.script_fallbacks@[k].1@.len() as int) =~= before.script_fallbacks@[k].1@);
                            if k == i {
                                assert(self.script_fallbacks@[k].1@.subrange(0, before.script_fallbacks@[k].1@.len() as int) =~= before.script_fallbacks@[k].1@);
                            }
                        }
                        Self::lemma_families_kept(&before, self);
                        assert(self.script_fallbacks@[i as int].1@.contains(id)) by {
                            if !before.script_fallbacks@[i as int].1@.contains(id) {
                                assert(self.script_fallbacks@[i as int].1@.last() == id);
                            }
                        }
                        assert forall|s: Script, cc: Cjk, f: FamilyId|
                            before.listed_under(s, cc, f) implies #[trigger] self.listed_under(s, cc, f) by {
                            if s.tag != crate::text::HAN_TAG {
                                let n = choose|n: int|
                                    0 <= n < before.script_fallbacks@.len() && (#[trigger] before.script_fallbacks@[n]).0 == s.tag
                                        && before.script_fallbacks@[n].1@.contains(f);
                                if n == i {
                                    let l = before.script_fallbacks@[n].1@;
                                    let k = choose|k: int| 0 <= k < l.len() && l[k] == f;
                                    assert(self.script_fallbacks@[n].1@[k] == f);
                                }
                                assert(self.script_fallbacks@[n].0 == s.tag);
                            }
                        }
                    }
                },
                None => {
                    let mut list: Vec<FamilyId> = Vec::new();
                    list.push(id);
                    self.script_fallbacks.push((script.tag, list));
                    proof {
                        assert(self.cjk_families@ == before.cjk_families@);
                        assert forall|k: int| 0 <= k < before.cjk_families@.len() implies {
                            &&& before.cjk_families@[k]@.len() <= (#[trigger] self.cjk_families@[k])@.len()
                            &&& self.cjk_families@[k]@.subrange(0, before.cjk_families@[k]@.len() as int) == before.cjk_families@[k]@
                        } by {
                            assert(before.cjk_families@[k]@.subrange(0, before.cjk_families@[k]@.len() as int) =~= before.cjk_families@[k]@);
                        }
                        assert forall|k: int| 0 <= k < before.script_fallbacks@.len() implies {
                            &&& (#[trigger] self.script_fallbacks@[k]).0 == before.script_fallbacks@[k].0
                            &&& before.script_fallbacks@[k].1@.len() <= self.script_fallbacks@[k].1@.len()
                            &&& self.script_fallbacks@[k].1@.subrange(0, before.script_fallbacks@[k].1@.len() as int) == before.script_fallbacks@[k].1@
                        } by {
                            assert(self.script_fallbacks@[k] == before.script_fallbacks@[k]);
                            assert(before.script_fallbacks@[k].1@.subrange(0, before.script_fallbacks@[k].1@.len() as int) =~= before.script_fallbacks@[k].1@);
                        }
                        Self::lemma_families_kept(&before, self);
                        let n = before.script_fallbacks@.len() as int;
                        assert(self.script_fallbacks@[n].1@[0] == id);
                        assert(self.script_fallbacks@[n].0 == script.tag);
                        assert(self.lists_wf());
                        self.lemma_wf_intro();
                        assert forall|s: Script, cc: Cjk, f: FamilyId|
                            before.listed_under(s, cc, f) implies #[trigger] self.listed_under(s, cc, f) by {
                            if s.tag != crate::text::HAN_TAG {
                                let m = choose|m: int|
                                    0 <= m < before.script_fallbacks@.len() && (#[trigger] before.script_fallbacks@[m]).0 == s.tag
                                        && before.script_fallbacks@[m].1@.contains(f);
                                assert(self.script_fallbacks@[m] == before.script_fallbacks@[m]);
                            }
                        }
                    }
                },
            }
        }
    }

    /// The slot of `family` that has the stretch, weight and style of
    /// `slot`, if any.
    pub fn find_style(family: &FamilyData, slot: FontSlot) -> (r: bool)
        ensures
            r == exists|j: int| 0 <= j < family.fonts@.len() && same_style(#[trigger] family.fonts@[j], slot),
    {
        let mut j: usize = 0;
        while j < family.fonts.len()
            invariant
                j <= family.fonts@.len(),
                forall|i: int| 0 <= i < j ==> !same_style(#[trigger] family.fonts@[i], slot),
            decreases family.fonts@.len() - j,
        {
            let f = family.fonts[j];
            if f.1 == slot.1 && f.2 == slot.2 && f.3 == slot.3 {
                assert(same_style(family.fonts@[j as int], slot));
                return true;
            }
            j += 1;
        }
        false
    }
}

impl CollectionData {
    /// Creates the family for folded name `key`, called `name`.
    fn push_family(&mut self, name: &String, key: &String) -> (id: FamilyId)
        requires
            old(self).wf(),
            old(self).families@.len() <= MAX_INDEX,
            old(self).map_position(key@) is None,
        ensures
            final(self).wf(),
            id.index() == old(self).families@.len(),
            id.is_user() == old(self).is_user,
            final(self).is_user == old(self).is_user,
            final(self).families@ == old(self).families@.push(final(self).families@.last()),
            final(self).families@.last().name@ == name@,
            final(self).families@.last().fonts@.len() == 0,
            !final(self).families@.last().has_stretch,
            final(self).family_map@ == old(self).family_map@.push(final(self).family_map@.last()),
            final(self).family_map@.last().0@ == key@,
            final(self).family_map@.last().1 == Some(id),
            final(self).lookup(key@) == Some(id),
            final(self).fonts@ == old(self).fonts@,
            final(self).sources@ == old(self).sources@,
            final(self).default_families@ == old(self).default_families@,
            final(self).generic_families@ == old(self).generic_families@,
            final(self).cjk_families@ == old(self).cjk_families@,
            final(self).script_fallbacks@ == old(self).script_fallbacks@,
            forall|s: Script, c: Cjk, f: FamilyId|
                old(self).listed_under(s, c, f) ==> #[trigger] final(self).listed_under(s, c, f),
    {
        let ghost before = *self;
        let id = match FamilyId::allocate(self.families.len(), self.is_user) {
            Some(id) => id,
            None => {
                assert(false);
                return FamilyId::new(0);
            },
        };
        assert forall|i: int| 0 <= i < before.family_map@.len() implies (#[trigger] before.family_map@[i]).0@ != key@ by {
            assert(before.map_view()[i].0 == before.family_map@[i].0@);
        }
        self.families.push(FamilyData { name: name.clone(), has_stretch: false, fonts: Vec::new() });
        self.family_map.push((key.clone(), Some(id)));
        proof {
            assert(self.fonts@ == before.fonts@);
            let n = before.families@.len() as int;
            assert forall|k: int| 0 <= k < self.families@.len() implies #[trigger] self.family_wf(k) by {
                if k < n {
                    assert(before.family_wf(k));
                    assert(self.families@[k] == before.families@[k]);
                }
            }
            let m = before.family_map@.len() as int;
            assert(forall|i: int| 0 <= i < m ==> #[trigger] self.family_map@[i] == before.family_map@[i]);
            assert(forall|i: int| 0 <= i < m && (#[trigger] before.family_map@[i]).1 is Some ==> before.valid_family(before.family_map@[i].1->0));
            assert(self.map_wf());
            self.lemma_position(key@, m);
            assert(self.lists_wf());
            assert forall|k: int| 0 <= k < self.fonts@.len() implies self.valid_family((#[trigger] self.fonts@[k]).family)
                && self.valid_source(self.fonts@[k].source) by {
                assert(before.valid_family(before.fonts@[k].family));
            }
            self.lemma_wf_intro();
            assert forall|s: Script, c: Cjk, f: FamilyId|
                before.listed_under(s, c, f) implies #[trigger] self.listed_under(s, c, f) by {
                if s.tag != crate::text::HAN_TAG {
                    let j = choose|j: int|
                        0 <= j < before.script_fallbacks@.len() && (#[trigger] before.script_fallbacks@[j]).0 == s.tag
                            && before.script_fallbacks@[j].1@.contains(f);
                    assert(self.script_fallbacks@[j] == before.script_fallbacks@[j]);
                }
            }
        }
        id
    }
}

impl CollectionData {
    /// Adding a font record and its slot to family `fi` keeps a collection
    /// well formed, when no slot of the family has the same style.
    proof fn lemma_slot_added(mid: &Self, c: &Self, fi: int, p: int, slot: FontSlot, source_id: SourceId)
        requires
            mid.wf(),
            0 <= fi < mid.families@.len(),
            c.is_user == mid.is_user,
            c.family_map@ == mid.family_map@,
            c.default_families@ == mid.default_families@,
            c.generic_families@ == mid.generic_families@,
            c.cjk_families@ == mid.cjk_families@,
            c.script_fallbacks@ == mid.script_fallbacks@,
            c.families@.len() == mid.families@.len(),
            forall|k: int| 0 <= k < c.families@.len() && k != fi ==> (#[trigger] c.families@[k]).fonts@ == mid.families@[k].fonts@
                && c.families@[k].has_stretch == mid.families@[k].has_stretch,
            c.families@[fi].has_stretch == (mid.families@[fi].has_stretch || slot.1.0 != NORMAL_STRETCH),
            0 <= p <= mid.families@[fi].fonts@.len(),
            c.families@[fi].fonts@ == mid.families@[fi].fonts@.insert(p, slot),
            forall|i: int, j: int| 0 <= i < j < c.families@[fi].fonts@.len() ==> c.families@[fi].fonts@[i].2.0 <= c.families@[fi].fonts@[j].2.0,
            forall|j: int| 0 <= j < mid.families@[fi].fonts@.len() ==> !same_style(#[trigger] mid.families@[fi].fonts@[j], slot),
            c.fonts@.len() == mid.fonts@.len() + 1,
            c.fonts@.len() <= MAX_INDEX + 1,
            forall|k: int| 0 <= k < mid.fonts@.len() ==> #[trigger] c.fonts@[k] == mid.fonts@[k],
            c.fonts@.last().family.index() == fi,
            c.fonts@.last().family.is_user() == c.is_user,
            c.fonts@.last().source == source_id,
            source_id.is_user() == c.is_user,
            source_id.index() < c.sources@.len(),
            slot_matches(c.fonts@.last(), slot),
            slot.0.index() == mid.fonts@.len(),
            slot.0.is_user() == c.is_user,
            c.sources@.len() >= mid.sources@.len(),
            c.sources@.len() <= MAX_INDEX + 1,
        ensures
            c.wf(),
    {
        let n = mid.fonts@.len() as int;
        assert forall|k: int| 0 <= k < c.families@.len() implies #[trigger] c.family_wf(k) by {
            assert(mid.family_wf(k));
            let f = c.families@[k].fonts@;
            if k == fi {
                let g = mid.families@[k].fonts@;
                assert forall|j: int| 0 <= j < f.len() implies c.valid_font(#[trigger] f[j].0)
                    && c.fonts@[f[j].0.index() as int].family.index() == k
                    && slot_matches(c.fonts@[f[j].0.index() as int], f[j]) by {
                    if j < p {
                        assert(f[j] == g[j]);
                    } else if j > p {
                        assert(f[j] == g[j - 1]);
                    } else {
                        assert(f[j] == slot);
                    }
                }
                assert(c.families@[k].has_stretch == exists|j: int| 0 <= j < f.len() && (#[trigger] f[j]).1.0 != NORMAL_STRETCH) by {
                    if slot.1.0 != NORMAL_STRETCH {
                        assert(f[p] == slot);
                    }
                    if mid.families@[k].has_stretch {
                        let j = choose|j: int| 0 <= j < g.len() && (#[trigger] g[j]).1.0 != NORMAL_STRETCH;
                        if j < p {
                            assert(f[j] == g[j]);
                        } else {
                            assert(f[j + 1] == g[j]);
                        }
                    }
                    if exists|j: int| 0 <= j < f.len() && (#[trigger] f[j]).1.0 != NORMAL_STRETCH {
                        let j = choose|j: int| 0 <= j < f.len() && (#[trigger] f[j]).1.0 != NORMAL_STRETCH;
                        if j < p {
                            assert(f[j] == g[j]);
                        } else if j > p {
                            assert(f[j] == g[j - 1]);
                        }
                    }
                }
                assert forall|a: int, b: int| 0 <= a < b < f.len() implies !same_style(f[a], f[b]) by {
                    if a < p && b < p {
                        assert(f[a] == g[a] && f[b] == g[b]);
                    } else if a < p && b == p {
                        assert(f[a] == g[a]);
                    } else if a < p && b > p {
                        assert(f[a] == g[a] && f[b] == g[b - 1]);
                    } else if a == p {
                        assert(f[b] == g[b - 1]);
                    } else {
                        assert(f[a] == g[a - 1] && f[b] == g[b - 1]);
                    }
                }
            } else {
                assert(f == mid.families@[k].fonts@);
                assert forall|j: int| 0 <= j < f.len() implies c.valid_font(#[trigger] f[j].0)
                    && c.fonts@[f[j].0.index() as int].family.index() == k
                    && slot_matches(c.fonts@[f[j].0.index() as int], f[j]) by {
                    assert(mid.valid_font(f[j].0));
                }
            }
        }
        assert forall|k: int| 0 <= k < c.fonts@.len() implies c.valid_family((#[trigger] c.fonts@[k]).family)
            && c.valid_source(c.fonts@[k].source) by {
            if k < n {
                assert(mid.valid_family(mid.fonts@[k].family));
                assert(mid.valid_source(mid.fonts@[k].source));
            }
        }
        assert(forall|i: int| 0 <= i < c.family_map@.len() && (#[trigger] c.family_map@[i]).1 is Some ==> mid.valid_family(c.family_map@[i].1->0));
        assert(c.map_wf());
        assert(c.lists_wf());
        assert(c.families@.len() <= MAX_INDEX + 1);
        assert(forall|k: int| 0 <= k < c.families@.len() ==> #[trigger] c.family_wf(k));
        c.lemma_wf_intro();
    }
}

/// The font record a scanned face gets.
pub open spec fn record_of(font: ScannedFont, family: FamilyId, source: SourceId) -> FontData {
    FontData {
        family,
        source,
        index: font.index,
        attributes: font.attributes,
        cache_key: font.cache_key,
    }
}

/// What accepting `font` from source `source_id` does to `before`: its
/// family (found by folded name, or created) gets one new slot, inserted
/// into its list, for a new font record appended last; no other family
/// changes; its family is listed under each of its scripts; lists and
/// families only grow.
pub open spec fn step_added(before: CollectionData, font: ScannedFont, source_id: SourceId, after: CollectionData) -> bool {
    let key = font.lowercase_name@;
    let fid = after.lookup(key)->0;
    let fresh = before.map_position(key) is None;
    let base = if fresh { Seq::<FontSlot>::empty() } else { before.families@[fid.index() as int].fonts@ };
    let fonts = after.families@[fid.index() as int].fonts@;
    &&& after.lookup(key) is Some
    &&& after.valid_family(fid)
    &&& !fresh ==> before.lookup(key) == Some(fid) && after.families@.len() == before.families@.len()
    &&& fresh ==> fid.index() == before.families@.len() && after.families@.len() == before.families@.len() + 1
        && after.families@[fid.index() as int].name@ == font.name@
    &&& after.fonts@ == before.fonts@.push(record_of(font, fid, source_id))
    &&& exists|p: int| 0 <= p <= base.len() && fonts == base.insert(p, fonts[p]) && fonts[p] == slot_of(
        font,
        fonts[p].0,
    ) && fonts[p].0.index() == before.fonts@.len() && fonts[p].0.is_user() == before.is_user
    &&& forall|k: int| 0 <= k < before.families@.len() && k != fid.index() ==> #[trigger] after.families@[k] == before.families@[k]
    &&& forall|k: int| 0 <= k < font.scripts@.len() ==> after.listed_under(#[trigger] font.scripts@[k].0, font.scripts@[k].1, fid)
    &&& after.lists_extend(&before)
    &&& after.lists_grow(&before, fid, font.scripts@)
    &&& after.families_extend(&before)
}

/// What one face's ingestion does: the face is accepted exactly when the
/// collection as it stands accepts it; an accepted face is added as
/// [`step_added`] says and its family joins the registration unless there
/// already; a rejected face changes nothing.
pub open spec fn face_step(
    before: CollectionData,
    font: ScannedFont,
    source_id: SourceId,
    after: CollectionData,
    accepted: bool,
    reg_before: Seq<FamilyId>,
    reg_after: Seq<FamilyId>,
) -> bool {
    &&& accepted == before.accepts(font)
    &&& !accepted ==> after == before && reg_after == reg_before
    &&& accepted ==> step_added(before, font, source_id, after)
    &&& accepted ==> after.wf()
    &&& accepted ==> {
        let fid = after.lookup(font.lowercase_name@)->0;
        &&& reg_before.contains(fid) ==> reg_after == reg_before
        &&& !reg_before.contains(fid) ==> reg_after == reg_before.push(fid)
    }
}

/// The faces `fonts` were ingested one after another through the
/// collections `states` and registration family lists `regs`; `acc` says
/// which were accepted.
pub open spec fn ingest_trace(
    fonts: Seq<ScannedFont>,
    source_id: SourceId,
    states: Seq<CollectionData>,
    regs: Seq<Seq<FamilyId>>,
    acc: Seq<bool>,
) -> bool {
    &&& states.len() == fonts.len() + 1
    &&& regs.len() == fonts.len() + 1
    &&& acc.len() == fonts.len()
    &&& forall|k: int| 0 <= k < fonts.len() ==> face_step(states[k], #[trigger] fonts[k], source_id, states[k + 1], acc[k], regs[k], regs[k + 1])
}

/// Number of accepted faces.
pub open spec fn count_true(acc: Seq<bool>) -> nat
    decreases acc.len(),
{
    if acc.len() == 0 {
        0
    } else {
        count_true(acc.drop_last()) + if acc.last() { 1nat } else { 0nat }
    }
}

impl CollectionData {
    /// Adds one scanned face, taken from the source with identifier
    /// `source_id`. The source itself is appended with the first face
    /// accepted; `added_source` tells whether that has happened. Returns
    /// whether the face was accepted, see [`CollectionData::accepts`].
    pub fn add_font(
        &mut self,
        font: &ScannedFont,
        source: &SourceData,
        source_id: SourceId,
        added_source: &mut bool,
        reg: &mut Registration,
    ) -> (r: bool)
        requires
            old(self).wf(),
            source_id.is_user() == old(self).is_user,
            *old(added_source) ==> old(self).sources@.len() >= 1 && source_id.index() + 1 == old(self).sources@.len(),
            !*old(added_source) ==> source_id.index() == old(self).sources@.len() && old(self).sources@.len() <= MAX_INDEX,
            no_repeats(old(reg).families@),
        ensures
            final(self).wf(),
            final(self).is_user == old(self).is_user,
            no_repeats(final(reg).families@),
            r == old(self).accepts(*font),
            r ==> step_added(*old(self), *font, source_id, *final(self)),
            r ==> (old(reg).families@.contains(final(self).lookup(font.lowercase_name@)->0) ==> final(reg).families@ == old(reg).families@),
            r ==> (!old(reg).families@.contains(final(self).lookup(font.lowercase_name@)->0) ==> final(reg).families@ == old(reg).families@.push(final(self).lookup(font.lowercase_name@)->0)),
            final(self).lists_extend(old(self)),
            final(self).families_extend(old(self)),
            final(self).sources@.len() >= old(self).sources@.len(),
            final(self).sources@.subrange(0, old(self).sources@.len() as int) == old(self).sources@,
            !r ==> *final(self) == *old(self) && final(reg).families@ == old(reg).families@ && final(reg).fonts@
                == old(reg).fonts@ && *final(added_source) == *old(added_source),
            r ==> {
                let fid = final(self).lookup(font.lowercase_name@)->0;
                let font_id = final(reg).fonts@.last();
                &&& final(self).lookup(font.lowercase_name@) is Some
                &&& old(self).lookup(font.lowercase_name@) is Some ==> old(self).lookup(font.lowercase_name@) == Some(fid)
                &&& old(self).map_position(font.lowercase_name@) is None ==> fid.index() == old(self).families@.len()
                &&& old(self).map_position(font.lowercase_name@) is None ==> final(self).families@[fid.index() as int].fonts@
                    == seq![slot_of(*font, font_id)]
                &&& fid.is_user() == old(self).is_user
                &&& final(self).valid_family(fid)
                &&& final(self).families@.len() >= old(self).families@.len()
                &&& final(reg).fonts@ == old(reg).fonts@.push(font_id)
                &&& font_id.index() == old(self).fonts@.len() && font_id.is_user() == old(self).is_user
                &&& final(reg).families@.contains(fid)
                &&& final(reg).families@ == old(reg).families@ || final(reg).families@ == old(reg).families@.push(fid)
                &&& final(self).fonts@ == old(self).fonts@.push(record_of(*font, fid, source_id))
                &&& final(self).families@[fid.index() as int].fonts@.contains(slot_of(*font, font_id))
                &&& *final(added_source)
                &&& *old(added_source) ==> final(self).sources@ == old(self).sources@
                &&& !*old(added_source) ==> final(self).sources@.len() == old(self).sources@.len() + 1
                    && final(self).sources@.last().same(*source)
                &&& forall|k: int| 0 <= k < font.scripts@.len() ==> final(self).listed_under(
                    #[trigger] font.scripts@[k].0, font.scripts@[k].1, fid)
            },
    {
        let ghost before = *self;
        proof {
            Self::lemma_lists_extend_refl(self, self);
            Self::lemma_families_extend_refl(self);
            assert(self.sources@.subrange(0, self.sources@.len() as int) =~= self.sources@);
        }
        let is_user = self.is_user;
        let font_id = match FontId::allocate(self.fonts.len(), is_user) {
            Some(id) => id,
            None => return false,
        };
        let family_id = match self.find_key(&font.lowercase_name) {
            Some(p) => match self.family_map[p].1 {
                Some(id) => id,
                None => return false,
            },
            None => {
                if self.families.len() > MAX_INDEX as usize {
                    return false;
                }
                self.push_family(&font.name, &font.lowercase_name)
            },
        };
        let ghost mid = *self;
        assert(mid.wf());
        let fi = family_id.to_usize();
        let (stretch, weight, style) = font.attributes.parts();
        let slot: FontSlot = (font_id, stretch, weight, style);
        assert(same_style(slot, slot_of(*font, fid_font_any())));
        if Self::find_style(&self.families[fi], slot) {
            proof {
                let j = choose|j: int| 0 <= j < self.families@[fi as int].fonts@.len() && same_style(#[trigger] self.families@[fi as int].fonts@[j], slot);
                assert(same_style(self.families@[fi as int].fonts@[j], slot_of(*font, fid_font_any())));
            }
            return false;
        }
        if !*added_source {
            self.sources.push(source.copy());
            *added_source = true;
        }
        let ghost s2 = *self;
        assert(s2.sources@.subrange(0, before.sources@.len() as int) =~= before.sources@);
        self.fonts.push(
            FontData {
                family: family_id,
                source: source_id,
                index: font.index,
                attributes: font.attributes,
                cache_key: font.cache_key,
            },
        );
        if stretch.0 != NORMAL_STRETCH {
            self.families[fi].has_stretch = true;
        }
        let ghost s3 = *self;
        assert(mid.family_wf(fi as int));
        assert(self.families@[fi as int].fonts@ == mid.families@[fi as int].fonts@);
        assert(self.families@.len() == mid.families@.len());
        let ghost s3b = *self;
        let p = insert_by_weight(&mut self.families[fi].fonts, slot);
        let ghost s3c = *self;
        proof {
            assert(self.families@[fi as int].fonts@[p as int] == slot);
            assert(mid.family_wf(fi as int));
            Self::lemma_slot_added(&mid, self, fi as int, p as int, slot, source_id);
        }
        let ghost s4 = *self;
        proof {
            Self::lemma_lists_extend_refl(&s4, &s4);
            Self::lemma_lists_grow_refl(&s4, family_id);
            assert(font.scripts@.subrange(0, 0) =~= Seq::<(Script, Cjk)>::empty());
        }
        add_unique(&mut reg.families, family_id);
        reg.fonts.push(font_id);
        assert(reg.families@.contains(family_id)) by {
            if !old(reg).families@.contains(family_id) {
                assert(reg.families@.last() == family_id);
            }
        }
        let mut k: usize = 0;
        while k < font.scripts.len()
            invariant
                k <= font.scripts@.len(),
                self.wf(),
                self.same_but_lists(&s4),
                self.lists_extend(&s4),
                self.lists_grow(&s4, family_id, font.scripts@.subrange(0, k as int)),
                self.valid_family(family_id),
                forall|j: int| 0 <= j < k ==> self.listed_under(#[trigger] font.scripts@[j].0, font.scripts@[j].1, family_id),
            decreases font.scripts@.len() - k,
        {
            let (script, cjk) = font.scripts[k];
            let ghost s5 = *self;
            self.add_fallback(script, cjk, family_id);
            proof {
                Self::lemma_lists_extend_trans(self, &s5, &s4);
                assert(seq![(script, cjk)] == seq![font.scripts@[k as int]]);
                Self::lemma_lists_grow_step(self, &s5, &s4, family_id, font.scripts@, k as int);
            }
            k += 1;
        }
        proof {
            assert(s4.lists_extend(&before)) by {
                Self::lemma_lists_extend_refl(&s4, &before);
            }
            Self::lemma_lists_extend_trans(self, &s4, &before);
            assert(self.sources@ == s2.sources@);
            assert(font.scripts@.subrange(0, font.scripts@.len() as int) =~= font.scripts@);
            Self::lemma_lists_grow_base(self, &s4, &before, family_id, font.scripts@);
            assert(self.family_map@.subrange(0, before.family_map@.len() as int) =~= before.family_map@);
            assert(self.fonts@.subrange(0, before.fonts@.len() as int) =~= before.fonts@);
            assert forall|k: int| 0 <= k < before.families@.len() implies {
                &&& (#[trigger] self.families@[k]).name@ == before.families@[k].name@
                &&& forall|j: int| 0 <= j < before.families@[k].fonts@.len() ==> self.families@[k].fonts@.contains(#[trigger] before.families@[k].fonts@[j])
            } by {
                assert(self.families@[k] == s4.families@[k]);
                assert(mid.families@[k] == before.families@[k]);
                assert forall|j: int| 0 <= j < before.families@[k].fonts@.len() implies self.families@[k].fonts@.contains(#[trigger] before.families@[k].fonts@[j]) by {
                    let g = before.families@[k].fonts@;
                    if k == fi {
                        if j < p {
                            assert(self.families@[k].fonts@[j] == g[j]);
                        } else {
                            assert(self.families@[k].fonts@[j + 1] == g[j]);
                        }
                    } else {
                        assert(self.families@[k].fonts@[j] == g[j]);
                    }
                }
            }
            assert(self.family_map@ == s4.family_map@);
            assert(self.family_map@ == mid.family_map@);
            let fam = self.families@[fi as int].fonts@;
            let base = if before.map_position(font.lowercase_name@) is None { Seq::<FontSlot>::empty() } else { before.families@[fi as int].fonts@ };
            assert(self.families@ == s3c.families@);
            assert(mid.families@[fi as int].fonts@ =~= base);
            assert(fam[p as int] == slot_of(*font, font_id));
            assert(fam == base.insert(p as int, fam[p as int]));
            assert forall|k: int| 0 <= k < before.families@.len() && k != fi implies #[trigger] self.families@[k] == before.families@[k] by {
                assert(mid.families@[k] == before.families@[k]);
                assert(s3b.families@[k] == mid.families@[k]);
                assert(s3c.families@[k] == s3b.families@[k]);
            }
            if before.map_position(font.lowercase_name@) is None {
                assert(self.families@[fi as int].name@ == font.name@) by {
                    assert(mid.families@[fi as int].name@ == font.name@);
                    assert(s3c.families@[fi as int].name@ == s3b.families@[fi as int].name@);
                }
            }
            assert(self.map_view() == mid.map_view());
            if before.map_position(font.lowercase_name@) is Some {
                assert(mid == before);
            }
            assert(self.lookup(font.lowercase_name@) == Some(family_id));
            assert(self.fonts@ =~= before.fonts@.push(record_of(*font, family_id, source_id)));
            assert(self.families@[fi as int].fonts@[p as int] == slot_of(*font, font_id));
            if before.map_position(font.lowercase_name@) is None {
                assert(mid.families@[fi as int].fonts@.len() == 0);
                assert(self.families@[fi as int].fonts@ =~= seq![slot_of(*font, font_id)]);
            }
        }
        true
    }
}

impl CollectionData {
    /// Adds the scanned faces of one source, in order, each as
    /// [`CollectionData::add_font`] does. The source is appended once, with the
    /// first face accepted, under identifier `source_id`. Returns how many
    /// faces were accepted; the registration gains their font identifiers,
    /// which are the next ones in this collection, in order.
    pub fn add_scanned(
        &mut self,
        fonts: &Vec<ScannedFont>,
        source: &SourceData,
        source_id: SourceId,
        reg: &mut Registration,
    ) -> (count: u32)
        requires
            old(self).wf(),
            source_id.is_user() == old(self).is_user,
            source_id.index() == old(self).sources@.len(),
            old(self).sources@.len() <= MAX_INDEX,
            no_repeats(old(reg).families@),
        ensures
            final(self).wf(),
            final(self).is_user == old(self).is_user,
            no_repeats(final(reg).families@),
            count <= fonts@.len(),
            final(self).fonts@.len() == old(self).fonts@.len() + count,
            final(self).fonts@.subrange(0, old(self).fonts@.len() as int) == old(self).fonts@,
            final(reg).fonts@.len() == old(reg).fonts@.len() + count,
            final(reg).fonts@.subrange(0, old(reg).fonts@.len() as int) == old(reg).fonts@,
            forall|k: int| 0 <= k < count ==> {
                let id = #[trigger] final(reg).fonts@[old(reg).fonts@.len() + k];
                id.index() == old(self).fonts@.len() + k && id.is_user() == old(self).is_user
            },
            forall|k: int| 0 <= k < old(reg).families@.len() ==> final(reg).families@.contains(#[trigger] old(reg).families@[k]),
            forall|k: int| 0 <= k < final(reg).families@.len() ==> final(self).valid_family(#[trigger] final(reg).families@[k])
                || old(reg).families@.contains(final(reg).families@[k]),
            count == 0 ==> final(self).sources@ == old(self).sources@,
            exists|states: Seq<CollectionData>, regs: Seq<Seq<FamilyId>>, acc: Seq<bool>|
                ingest_trace(fonts@, source_id, states, regs, acc) && states[0] == *old(self) && states.last() == *final(self)
                    && regs[0] == old(reg).families@ && regs.last() == final(reg).families@ && count == count_true(acc),
            count == 0 ==> *final(self) == *old(self),
            count == 0 ==> final(reg).families@ == old(reg).families@ && final(reg).fonts@ == old(reg).fonts@,
            final(self).sources@.len() >= old(self).sources@.len(),
            final(self).sources@.subrange(0, old(self).sources@.len() as int) == old(self).sources@,
            count == 0 <==> forall|k: int| 0 <= k < fonts@.len() ==> !old(self).accepts(#[trigger] fonts@[k]),
            final(self).lists_extend(old(self)),
            final(self).families_extend(old(self)),
            forall|k: int| old(self).fonts@.len() <= k < final(self).fonts@.len() ==> (#[trigger] final(self).fonts@[k]).source == source_id,
            fonts@.len() == 1 && count == 1 ==> face_registered(*final(self), fonts@[0].lowercase_name@, fonts@[0].attributes.bits, fonts@[0].scripts@.to_set())
                && final(reg).families@.contains(final(self).lookup(fonts@[0].lowercase_name@)->0)
                && (final(reg).families@ == old(reg).families@ || final(reg).families@ == old(reg).families@.push(final(self).lookup(fonts@[0].lowercase_name@)->0)),
            fonts@.len() == 1 && count == 1 && old(self).map_position(fonts@[0].lowercase_name@) is None ==> final(self).families@[final(self).lookup(fonts@[0].lowercase_name@)->0.index() as int].fonts@
                == seq![slot_of(fonts@[0], final(reg).fonts@.last())],
            final(reg).families@.len() >= old(reg).families@.len(),
            final(reg).families@.subrange(0, old(reg).families@.len() as int) == old(reg).families@,
            count > 0 ==> final(self).sources@.len() == old(self).sources@.len() + 1 && final(self).sources@.last().same(*source),
    {
        proof {
            Self::lemma_lists_extend_refl(self, self);
            Self::lemma_families_extend_refl(self);
            assert(self.sources@.subrange(0, self.sources@.len() as int) =~= self.sources@);
        }
        let mut added = false;
        let mut count: u32 = 0;
        let mut i: usize = 0;
        let ghost mut states: Seq<CollectionData> = seq![*self];
        let ghost mut regs: Seq<Seq<FamilyId>> = seq![reg.families@];
        let ghost mut acc: Seq<bool> = Seq::empty();
        while i < fonts.len()
            invariant
                i <= fonts@.len(),
                states.len() == i + 1,
                regs.len() == i + 1,
                acc.len() == i,
                states[0] == *old(self),
                states[i as int] == *self,
                regs[0] == old(reg).families@,
                regs[i as int] == reg.families@,
                count == count_true(acc),
                forall|k: int| 0 <= k < i ==> face_step(states[k], #[trigger] fonts@[k], source_id, states[k + 1], acc[k], regs[k], regs[k + 1]),
                count <= i,
                self.wf(),
                self.is_user == old(self).is_user,
                source_id.is_user() == self.is_user,
                source_id.index() == old(self).sources@.len(),
                old(self).sources@.len() <= MAX_INDEX,
                no_repeats(reg.families@),
                added <==> count > 0,
                count == 0 ==> *self == *old(self),
                count == 0 ==> reg.families@ == old(reg).families@ && reg.fonts@ == old(reg).fonts@,
                self.sources@.len() >= old(self).sources@.len(),
                self.sources@.subrange(0, old(self).sources@.len() as int) == old(self).sources@,
                (count == 0) == (forall|j: int| 0 <= j < i ==> !old(self).accepts(#[trigger] fonts@[j])),
                self.lists_extend(old(self)),
                self.families_extend(old(self)),
                forall|k: int| old(self).fonts@.len() <= k < self.fonts@.len() ==> (#[trigger] self.fonts@[k]).source == source_id,
                fonts@.len() == 1 && i == 1 && count == 1 ==> face_registered(*self, fonts@[0].lowercase_name@, fonts@[0].attributes.bits, fonts@[0].scripts@.to_set())
                    && reg.families@.contains(self.lookup(fonts@[0].lowercase_name@)->0)
                    && (reg.families@ == old(reg).families@ || reg.families@ == old(reg).families@.push(self.lookup(fonts@[0].lowercase_name@)->0)),
                fonts@.len() == 1 && i == 1 && count == 1 && old(self).map_position(fonts@[0].lowercase_name@) is None ==> self.families@[self.lookup(fonts@[0].lowercase_name@)->0.index() as int].fonts@
                    == seq![slot_of(fonts@[0], reg.fonts@.last())],
                reg.families@.len() >= old(reg).families@.len(),
                reg.families@.subrange(0, old(reg).families@.len() as int) == old(reg).families@,
                !added ==> self.sources@ == old(self).sources@,
                added ==> self.sources@.len() == old(self).sources@.len() + 1 && self.sources@.last().same(*source),
                self.fonts@.len() == old(self).fonts@.len() + count,
                self.fonts@.subrange(0, old(self).fonts@.len() as int) == old(self).fonts@,
                reg.fonts@.len() == old(reg).fonts@.len() + count,
                reg.fonts@.subrange(0, old(reg).fonts@.len() as int) == old(reg).fonts@,
                forall|k: int| 0 <= k < count ==> {
                    let id = #[trigger] reg.fonts@[old(reg).fonts@.len() + k];
                    id.index() == old(self).fonts@.len() + k && id.is_user() == old(self).is_user
                },
                forall|k: int| 0 <= k < old(reg).families@.len() ==> reg.families@.contains(#[trigger] old(reg).families@[k]),
                forall|k: int| 0 <= k < reg.families@.len() ==> self.valid_family(#[trigger] reg.families@[k])
                    || old(reg).families@.contains(reg.families@[k]),
            decreases fonts@.len() - i,
        {
            let ghost s0 = *self;
            let ghost r0 = *reg;
            let accepted = self.add_font(&fonts[i], source, source_id, &mut added, reg);
            proof {
                assert(self.sources@.subrange(0, old(self).sources@.len() as int) =~= s0.sources@.subrange(0, s0.sources@.len() as int).subrange(0, old(self).sources@.len() as int));
                Self::lemma_lists_extend_trans(self, &s0, old(self));
                Self::lemma_families_extend_trans(self, &s0, old(self));
                if accepted {
                    let f = fonts@[i as int];
                    let fid = self.lookup(f.lowercase_name@)->0;
                    let fam = self.families@[fid.index() as int].fonts@;
                    let sl = slot_of(f, reg.fonts@.last());
                    let j = choose|j: int| 0 <= j < fam.len() && fam[j] == sl;
                    assert(same_style(fam[j], style_slot(f.attributes.bits)));
                    assert forall|e: (Script, Cjk)| f.scripts@.to_set().contains(e) implies #[trigger] self.listed_under(e.0, e.1, fid) by {
                        let m = choose|m: int| 0 <= m < f.scripts@.len() && f.scripts@[m] == e;
                        assert(self.listed_under(f.scripts@[m].0, f.scripts@[m].1, fid));
                    }
                    assert(self.fonts@[self.fonts@.len() - 1] == record_of(f, fid, source_id));
                    assert forall|k: int| old(self).fonts@.len() <= k < self.fonts@.len() implies (#[trigger] self.fonts@[k]).source == source_id by {
                        if k < s0.fonts@.len() {
                            assert(self.fonts@[k] == s0.fonts@[k]);
                        }
                    }
                }
                if reg.families@ != r0.families@ {
                    assert(reg.families@ == r0.families@.push(reg.families@.last()));
                }
                assert(reg.families@.subrange(0, old(reg).families@.len() as int) =~= r0.families@.subrange(0, old(reg).families@.len() as int));
            }
            if accepted {
                proof {
                    assert(self.fonts@ == s0.fonts@.push(self.fonts@.last()));
                    assert(self.fonts@.subrange(0, old(self).fonts@.len() as int) =~= s0.fonts@.subrange(0, old(self).fonts@.len() as int));
                    assert(reg.fonts@ == r0.fonts@.push(reg.fonts@.last()));
                    assert(reg.fonts@.subrange(0, old(reg).fonts@.len() as int) =~= r0.fonts@.subrange(0, old(reg).fonts@.len() as int));
                    assert forall|k: int| 0 <= k < count + 1 implies {
                        let id = #[trigger] reg.fonts@[old(reg).fonts@.len() + k];
                        id.index() == old(self).fonts@.len() + k && id.is_user() == old(self).is_user
                    } by {
                        if k < count {
                            assert(reg.fonts@[old(reg).fonts@.len() + k] == r0.fonts@[old(reg).fonts@.len() + k]);
                        }
                    }
                    assert forall|k: int| 0 <= k < old(reg).families@.len() implies reg.families@.contains(#[trigger] old(reg).families@[k]) by {
                        let x = old(reg).families@[k];
                        assert(r0.families@.contains(x));
                        let j = choose|j: int| 0 <= j < r0.families@.len() && r0.families@[j] == x;
                        assert(reg.families@[j] == x);
                    }
                    assert forall|k: int| 0 <= k < reg.families@.len() implies self.valid_family(#[trigger] reg.families@[k])
                        || old(reg).families@.contains(reg.families@[k]) by {
                        if k < r0.families@.len() {
                            assert(reg.families@[k] == r0.families@[k]);
                            assert(s0.valid_family(r0.families@[k]) || old(reg).families@.contains(r0.families@[k]));
                        }
                    }
                }
                count = count + 1;
            }
            proof {
                let ghost new_acc = acc.push(accepted);
                assert(new_acc.drop_last() =~= acc);
                states = states.push(*self);
                regs = regs.push(reg.families@);
                acc = new_acc;
                assert(face_step(states[i as int], fonts@[i as int], source_id, states[i as int + 1], acc[i as int], regs[i as int], regs[i as int + 1]));
            }
            i += 1;
        }
        proof {
            assert(ingest_trace(fonts@, source_id, states, regs, acc));
        }
        count
    }

    /// Scans `data` and adds its faces, from the source `source`; see
    /// [`CollectionData::add_scanned`]. Fails, adding nothing, when the
    /// source identifier does not fit.
    pub fn add_fonts(&mut self, data: &crate::font::FontData, source: SourceData, reg: &mut Registration) -> (r: Option<u32>)
        requires
            old(self).wf(),
            no_repeats(old(reg).families@),
        ensures
            final(self).wf(),
            final(self).is_user == old(self).is_user,
            no_repeats(final(reg).families@),
            r is None <==> old(self).sources@.len() > MAX_INDEX,
            r is None ==> *final(self) == *old(self) && final(reg).fonts@ == old(reg).fonts@ && final(reg).families@ == old(reg).families@,
            final(reg).families@.len() >= old(reg).families@.len(),
            final(reg).families@.subrange(0, old(reg).families@.len() as int) == old(reg).families@,
            forall|k: int| 0 <= k < final(reg).families@.len() ==> final(self).valid_family(#[trigger] final(reg).families@[k])
                || old(reg).families@.contains(final(reg).families@[k]),
            r matches Some(count) ==> (count == 0 <==> !accepts_some_face(*old(self), data@)),
            r matches Some(count) ==> count <= named_faces(data@, scan_limit(data@)).len(),
            r matches Some(count) ==> blob_ingested(*old(self), data@, *final(self), old(reg).families@, final(reg).families@, count as nat),
            r == Some(0u32) ==> *final(self) == *old(self) && final(reg).families@ == old(reg).families@ && final(reg).fonts@ == old(reg).fonts@,
            final(self).sources@.len() >= old(self).sources@.len(),
            final(self).sources@.subrange(0, old(self).sources@.len() as int) == old(self).sources@,
            final(reg).fonts@.len() >= old(reg).fonts@.len(),
            final(reg).fonts@.subrange(0, old(reg).fonts@.len() as int) == old(reg).fonts@,
            final(self).lists_extend(old(self)),
            final(self).families_extend(old(self)),
            r is Some ==> forall|k: int| old(self).fonts@.len() <= k < final(self).fonts@.len() ==> (#[trigger] final(self).fonts@[k]).source.index() == old(self).sources@.len()
                && final(self).fonts@[k].source.is_user() == old(self).is_user,
            r == Some(1u32) && single_face(data@) && old(self).map_position(face_key(data@, named_faces(data@, scan_limit(data@))[0])) is None
                ==> final(self).families@[final(self).lookup(face_key(data@, named_faces(data@, scan_limit(data@))[0]))->0.index() as int].fonts@
                == seq![slot_of_face(data@, named_faces(data@, scan_limit(data@))[0], final(reg).fonts@.last())],
            r == Some(1u32) && single_face(data@) ==> single_face_registered(*final(self), data@)
                && final(reg).families@.contains(final(self).lookup(face_key(data@, named_faces(data@, scan_limit(data@))[0]))->0)
                && (final(reg).families@ == old(reg).families@ || final(reg).families@ == old(reg).families@.push(final(self).lookup(face_key(data@, named_faces(data@, scan_limit(data@))[0]))->0)),
            r matches Some(count) ==> {
                &&& final(self).fonts@.len() == old(self).fonts@.len() + count
                &&& final(self).fonts@.subrange(0, old(self).fonts@.len() as int) == old(self).fonts@
                &&& final(reg).fonts@.len() == old(reg).fonts@.len() + count
                &&& forall|k: int| 0 <= k < count ==> {
                    let id = #[trigger] final(reg).fonts@[old(reg).fonts@.len() + k];
                    id.index() == old(self).fonts@.len() + k && id.is_user() == old(self).is_user
                }
                &&& count == 0 ==> final(self).sources@ == old(self).sources@ && *final(self) == *old(self)
                &&& count > 0 ==> final(self).sources@.len() == old(self).sources@.len() + 1
            },
    {
        proof {
            Self::lemma_lists_extend_refl(self, self);
            Self::lemma_families_extend_refl(self);
            assert(self.sources@.subrange(0, self.sources@.len() as int) =~= self.sources@);
            assert(reg.fonts@.subrange(0, reg.fonts@.len() as int) =~= reg.fonts@);
        }
        let source_id = match SourceId::allocate(self.sources.len(), self.is_user) {
            Some(id) => id,
            None => return None,
        };
        let mut scanner = FontScanner::new();
        let bytes = data.as_bytes();
        let scanned = scanner.scan(bytes);
        let ghost before = *self;
        let ghost reg0 = reg.families@;
        let count = self.add_scanned(&scanned, &source, source_id, reg);
        proof {
            let (states, regs, acc) = choose|states: Seq<CollectionData>, regs: Seq<Seq<FamilyId>>, acc: Seq<bool>|
                ingest_trace(scanned@, source_id, states, regs, acc) && states[0] == before && states.last() == *self
                    && regs[0] == reg0 && regs.last() == reg.families@ && count == count_true(acc);
            assert(blob_ingested(before, data@, *self, reg0, reg.families@, count as nat));
            let idx = named_faces(data@, scan_limit(data@));
            assert forall|k: int| 0 <= k < scanned@.len() implies before.accepts(#[trigger] scanned@[k])
                == before.accepts_face(fold_name(chosen_name(data@, idx[k])), face_attrs_of(data@, idx[k])) by {
                assert(describes_face(scanned@[k], data@, idx[k]));
            }
            if accepts_some_face(before, data@) {
                let k = choose|k: int| 0 <= k < idx.len() && before.accepts_face(
                    fold_name(chosen_name(data@, #[trigger] idx[k])),
                    face_attrs_of(data@, idx[k]),
                );
                assert(before.accepts(scanned@[k]));
            }
            if count != 0 {
                let k = choose|k: int| 0 <= k < scanned@.len() && before.accepts(#[trigger] scanned@[k]);
                assert(before.accepts(scanned@[k]));
            }
            if count == 1 && single_face(data@) {
                assert(describes_face(scanned@[0], data@, idx[0]));
                assert(scanned@[0].lowercase_name@ == face_key(data@, idx[0]));
            }
        }
        Some(count)
    }
}

/// Every identifier a collection hands out is its own: the fonts listed
/// under its families have pairwise distinct identifiers, and every font,
/// family and source identifier it holds carries its origin bit.
pub proof fn lemma_ids_unique(c: &CollectionData, k1: int, j1: int, k2: int, j2: int)
    requires
        c.wf(),
        0 <= k1 < c.families@.len(),
        0 <= k2 < c.families@.len(),
        0 <= j1 < c.families@[k1].fonts@.len(),
        0 <= j2 < c.families@[k2].fonts@.len(),
        k1 != k2 || j1 != j2,
    ensures
        c.families@[k1].fonts@[j1].0 != c.families@[k2].fonts@[j2].0,
        c.families@[k1].fonts@[j1].0.is_user() == c.is_user,
        forall|k: int| 0 <= k < c.fonts@.len() ==> (#[trigger] c.fonts@[k]).family.is_user() == c.is_user
            && c.fonts@[k].source.is_user() == c.is_user,
        forall|i: int| 0 <= i < c.family_map@.len() && (#[trigger] c.family_map@[i]).1 is Some
            ==> c.family_map@[i].1->0.is_user() == c.is_user,
{
    assert(c.family_wf(k1));
    assert(c.family_wf(k2));
    let a = c.families@[k1].fonts@[j1];
    let b = c.families@[k2].fonts@[j2];
    if a.0 == b.0 {
        let r = c.fonts@[a.0.index() as int];
        assert(r.family.index() == k1);
        assert(r.family.index() == k2);
        assert(slot_matches(r, a) && slot_matches(r, b));
        if j1 < j2 {
            assert(!same_style(c.families@[k1].fonts@[j1], c.families@[k1].fonts@[j2]));
        } else {
            assert(!same_style(c.families@[k1].fonts@[j2], c.families@[k1].fonts@[j1]));
        }
    }
    assert forall|k: int| 0 <= k < c.fonts@.len() implies (#[trigger] c.fonts@[k]).family.is_user() == c.is_user
        && c.fonts@[k].source.is_user() == c.is_user by {
        assert(c.valid_family(c.fonts@[k].family));
    }
}

/// A face whose family already holds a font of the same stretch, weight and
/// style is turned away, so ingesting the same face twice keeps one entry and
/// the second registration does not list it.
pub proof fn lemma_duplicate_rejected(c: &CollectionData, font: ScannedFont, id: FontId)
    requires
        c.wf(),
        c.lookup(font.lowercase_name@) is Some,
        c.families@[c.lookup(font.lowercase_name@)->0.index() as int].fonts@.contains(slot_of(font, id)),
    ensures
        !c.accepts(font),
{
    let fid = c.lookup(font.lowercase_name@)->0;
    let l = c.families@[fid.index() as int].fonts@;
    let j = choose|j: int| 0 <= j < l.len() && l[j] == slot_of(font, id);
    assert(same_style(l[j], slot_of(font, fid_font_any())));
}

/// Some face of `data` with a family name is accepted by `c`.
pub open spec fn accepts_some_face(c: CollectionData, data: Seq<u8>) -> bool {
    let idx = named_faces(data, scan_limit(data));
    exists|k: int| 0 <= k < idx.len() && c.accepts_face(fold_name(chosen_name(data, #[trigger] idx[k])), face_attrs_of(data, idx[k]))
}

/// `c` holds a family for folded name `key` with a font of the style packed
/// in `bits`, listed under each of `scripts`.
pub open spec fn face_registered(c: CollectionData, key: Seq<char>, bits: u32, scripts: Set<(Script, Cjk)>) -> bool {
    &&& c.lookup(key) is Some
    &&& c.valid_family(c.lookup(key)->0)
    &&& exists|j: int| 0 <= j < c.families@[c.lookup(key)->0.index() as int].fonts@.len() && same_style(
        #[trigger] c.families@[c.lookup(key)->0.index() as int].fonts@[j],
        style_slot(bits),
    )
    &&& forall|e: (Script, Cjk)| scripts.contains(e) ==> #[trigger] c.listed_under(e.0, e.1, c.lookup(key)->0)
}

/// Folded family name of face `i` of `data`.
pub open spec fn face_key(data: Seq<u8>, i: nat) -> Seq<char> {
    fold_name(chosen_name(data, i))
}

/// The slot face `i` of `data` takes under identifier `id`.
pub open spec fn slot_of_face(data: Seq<u8>, i: nat, id: FontId) -> FontSlot {
    (
        id,
        Stretch(crate::attributes::stretch_bits(face_attrs_of(data, i))),
        Weight(crate::attributes::weight_bits(face_attrs_of(data, i))),
        crate::attributes::style_bits(face_attrs_of(data, i)),
    )
}

/// `data` holds exactly one face with a family name.
pub open spec fn single_face(data: Seq<u8>) -> bool {
    named_faces(data, scan_limit(data)).len() == 1
}

/// `c` holds the one named face of `data`: its family, a font of its style,
/// and its family listed under each of its scripts.
pub open spec fn single_face_registered(c: CollectionData, data: Seq<u8>) -> bool {
    let i = named_faces(data, scan_limit(data))[0];
    face_registered(c, face_key(data, i), face_attrs_of(data, i), entry_set(face_systems_of(data, i)))
}

/// Ingesting a single-face blob a second time accepts nothing: once the
/// collection holds the face's family with a font of its style, the same
/// face is turned away, so a second registration of it returns nothing.
pub proof fn lemma_same_blob_rejected(c: CollectionData, data: Seq<u8>)
    requires
        c.wf(),
        single_face(data),
        single_face_registered(c, data),
    ensures
        !accepts_some_face(c, data),
{
    let idx = named_faces(data, scan_limit(data));
    let i = idx[0];
    let key = face_key(data, i);
    let bits = face_attrs_of(data, i);
    let p = c.map_position(key)->0;
    assert(c.map_view()[p].1 == c.family_map@[p].1);
    assert(!c.accepts_face(key, bits));
    assert forall|k: int| 0 <= k < idx.len() implies !c.accepts_face(fold_name(chosen_name(data, #[trigger] idx[k])), face_attrs_of(data, idx[k])) by {
        assert(k == 0);
    }
}

/// The blob `data` was ingested from `before` to `after`, face by face, in
/// the order a scan gives its named faces, from a source with the next
/// source identifier; `count` faces were accepted and the registration's
/// families went from `reg_before` to `reg_after`.
pub open spec fn blob_ingested(
    before: CollectionData,
    data: Seq<u8>,
    after: CollectionData,
    reg_before: Seq<FamilyId>,
    reg_after: Seq<FamilyId>,
    count: nat,
) -> bool {
    exists|recs: Seq<ScannedFont>, sid: SourceId, states: Seq<CollectionData>, regs: Seq<Seq<FamilyId>>, acc: Seq<bool>|
        scan_result(recs, data) && sid.index() == before.sources@.len() && sid.is_user() == before.is_user
            && ingest_trace(recs, sid, states, regs, acc) && states[0] == before && states.last() == after
            && regs[0] == reg_before && regs.last() == reg_after && count == count_true(acc)
}

/// Every collection along an ingestion extends the first, and is well
/// formed when the first is.
pub proof fn lemma_trace_extends(fonts: Seq<ScannedFont>, source_id: SourceId, states: Seq<CollectionData>, regs: Seq<Seq<FamilyId>>, acc: Seq<bool>, k: int)
    requires
        ingest_trace(fonts, source_id, states, regs, acc),
        states[0].wf(),
        0 <= k <= fonts.len(),
    ensures
        states[k].families_extend(&states[0]),
        states[k].wf(),
    decreases k,
{
    if k == 0 {
        CollectionData::lemma_families_extend_refl(&states[0]);
    } else {
        lemma_trace_extends(fonts, source_id, states, regs, acc, k - 1);
        assert(face_step(states[k - 1], fonts[k - 1], source_id, states[k], acc[k - 1], regs[k - 1], regs[k]));
        if acc[k - 1] {
            CollectionData::lemma_families_extend_trans(&states[k], &states[k - 1], &states[0]);
        }
    }
}

/// A name found in a map is found at the same place, with the same family,
/// in any well-formed map that extends it.
pub proof fn lemma_lookup_kept(a: &CollectionData, b: &CollectionData, key: Seq<char>)
    requires
        b.wf(),
        b.families_extend(a),
        a.map_position(key) is Some,
    ensures
        b.lookup(key) == a.lookup(key),
{
    let p = a.map_position(key)->0;
    let m = a.map_view();
    assert(0 <= p < m.len() && (#[trigger] m[p]).0 == key);
    assert(b.family_map@[p] == b.family_map@.subrange(0, a.family_map@.len() as int)[p]);
    assert(b.family_map@[p] == a.family_map@[p]);
    b.lemma_position(key, p);
}

/// Duplicates are rejected, never merged, also within one blob: a face
/// whose family already held a font of its stretch, weight and style when
/// ingestion began is not accepted, and its step changes nothing.
pub proof fn lemma_held_face_rejected(
    fonts: Seq<ScannedFont>,
    source_id: SourceId,
    states: Seq<CollectionData>,
    regs: Seq<Seq<FamilyId>>,
    acc: Seq<bool>,
    k: int,
    j: int,
)
    requires
        ingest_trace(fonts, source_id, states, regs, acc),
        states[0].wf(),
        0 <= k < fonts.len(),
        states[0].lookup(fonts[k].lowercase_name@) is Some,
        0 <= j < states[0].families@[states[0].lookup(fonts[k].lowercase_name@)->0.index() as int].fonts@.len(),
        same_style(
            states[0].families@[states[0].lookup(fonts[k].lowercase_name@)->0.index() as int].fonts@[j],
            style_slot(fonts[k].attributes.bits),
        ),
    ensures
        !acc[k],
        states[k + 1] == states[k],
        regs[k + 1] == regs[k],
{
    let a = states[0];
    let c = states[k];
    let key = fonts[k].lowercase_name@;
    lemma_trace_extends(fonts, source_id, states, regs, acc, k);
    lemma_lookup_kept(&a, &c, key);
    let fid = a.lookup(key)->0;
    assert(a.valid_family(fid)) by {
        let p = a.map_position(key)->0;
        assert(a.map_view()[p] == (a.family_map@[p].0@, a.family_map@[p].1));
    }
    let x = a.families@[fid.index() as int].fonts@[j];
    assert(c.families@[fid.index() as int].fonts@.contains(x));
    let m = choose|m: int| 0 <= m < c.families@[fid.index() as int].fonts@.len() && c.families@[fid.index() as int].fonts@[m] == x;
    assert(same_style(c.families@[fid.index() as int].fonts@[m], style_slot(fonts[k].attributes.bits)));
    let p = c.map_position(key)->0;
    assert(c.map_view()[p] == (c.family_map@[p].0@, c.family_map@[p].1));
    assert(!c.accepts(fonts[k]));
    assert(face_step(states[k], fonts[k], source_id, states[k + 1], acc[k], regs[k], regs[k + 1]));
}

} // verus!
