//! The precompiled system collection: read-only tables, families sorted by
//! folded name and script fallbacks sorted by script tag, both searched by
//! bisection.

use crate::attributes::Attributes;
use crate::data::FontSlot;
use crate::id::{FamilyId, SourceId, MAX_INDEX};
use crate::lowercase::{fold_name, LowercaseString};
use crate::text::{cjk_of, locale_cjk, Locale, Script, CJK_FAMILY_COUNT, GENERIC_FAMILY_COUNT};
use vstd::prelude::*;
use vstd::string::StrSliceExecFns;

verus! {

/// Strict order of names: by code point, a proper prefix first.
pub open spec fn name_lt(a: Seq<char>, b: Seq<char>) -> bool
    decreases a.len(),
{
    if a.len() == 0 {
        b.len() > 0
    } else if b.len() == 0 {
        false
    } else if a[0] != b[0] {
        a[0] < b[0]
    } else {
        name_lt(a.drop_first(), b.drop_first())
    }
}

pub proof fn lemma_name_lt_irreflexive(a: Seq<char>)
    ensures
        !name_lt(a, a),
    decreases a.len(),
{
    if a.len() > 0 {
        lemma_name_lt_irreflexive(a.drop_first());
    }
}

pub proof fn lemma_name_lt_transitive(a: Seq<char>, b: Seq<char>, c: Seq<char>)
    requires
        name_lt(a, b),
        name_lt(b, c),
    ensures
        name_lt(a, c),
    decreases a.len(),
{
    if a.len() > 0 && b.len() > 0 && c.len() > 0 && a[0] == b[0] && b[0] == c[0] {
        lemma_name_lt_transitive(a.drop_first(), b.drop_first(), c.drop_first());
    }
}

pub proof fn lemma_name_lt_total(a: Seq<char>, b: Seq<char>)
    requires
        a != b,
    ensures
        name_lt(a, b) || name_lt(b, a),
    decreases a.len(),
{
    if a.len() == 0 && b.len() == 0 {
        assert(a =~= b);
    }
    if a.len() > 0 && b.len() > 0 && a[0] == b[0] {
        if a.drop_first() == b.drop_first() {
            assert(a =~= seq![a[0]] + a.drop_first());
            assert(b =~= seq![b[0]] + b.drop_first());
        }
        lemma_name_lt_total(a.drop_first(), b.drop_first());
    }
}

/// Comparing from position `i` on, after an equal prefix.
proof fn lemma_name_lt_suffix(a: Seq<char>, b: Seq<char>, i: int)
    requires
        0 <= i <= a.len(),
        i <= b.len(),
        a.subrange(0, i) == b.subrange(0, i),
    ensures
        name_lt(a, b) == name_lt(a.subrange(i, a.len() as int), b.subrange(i, b.len() as int)),
    decreases i,
{
    if i > 0 {
        assert(a[0] == a.subrange(0, i)[0]);
        assert(b[0] == b.subrange(0, i)[0]);
        assert(a.drop_first().subrange(0, i - 1) =~= a.subrange(0, i).drop_first());
        assert(b.drop_first().subrange(0, i - 1) =~= b.subrange(0, i).drop_first());
        lemma_name_lt_suffix(a.drop_first(), b.drop_first(), i - 1);
        assert(a.drop_first().subrange(i - 1, a.len() - 1) =~= a.subrange(i, a.len() as int));
        assert(b.drop_first().subrange(i - 1, b.len() - 1) =~= b.subrange(i, b.len() as int));
    } else {
        assert(a.subrange(0, a.len() as int) =~= a);
        assert(b.subrange(0, b.len() as int) =~= b);
    }
}

/// Compares two names: negative, zero or positive as `a` orders before,
/// equal to, or after `b`.
pub fn compare_names(a: &str, b: &str) -> (r: i8)
    ensures
        r < 0 <==> name_lt(a@, b@),
        r == 0 <==> a@ == b@,
        r > 0 <==> name_lt(b@, a@),
{
    let la = a.unicode_len();
    let lb = b.unicode_len();
    let mut i: usize = 0;
    while i < la && i < lb
        invariant
            la == a@.len(),
            lb == b@.len(),
            i <= la,
            i <= lb,
            a@.subrange(0, i as int) == b@.subrange(0, i as int),
        decreases la - i,
    {
        let ca = a.get_char(i);
        let cb = b.get_char(i);
        if ca != cb {
            proof {
                lemma_name_lt_suffix(a@, b@, i as int);
                lemma_name_lt_suffix(b@, a@, i as int);
                let sa = a@.subrange(i as int, a@.len() as int);
                let sb = b@.subrange(i as int, b@.len() as int);
                assert(sa[0] == ca && sb[0] == cb);
                assert(a@[i as int] != b@[i as int]);
            }
            if ca < cb {
                return -1;
            } else {
                return 1;
            }
        }
        assert(a@.subrange(0, i as int + 1) =~= a@.subrange(0, i as int).push(ca));
        assert(b@.subrange(0, i as int + 1) =~= b@.subrange(0, i as int).push(cb));
        i += 1;
    }
    proof {
        lemma_name_lt_suffix(a@, b@, i as int);
        lemma_name_lt_suffix(b@, a@, i as int);
        if la == lb {
            assert(a@ =~= a@.subrange(0, i as int));
            assert(b@ =~= b@.subrange(0, i as int));
            lemma_name_lt_irreflexive(a@);
        } else {
            assert(a@.len() != b@.len());
        }
    }
    if la < lb {
        -1
    } else if la > lb {
        1
    } else {
        0
    }
}

/// A family of the precompiled table.
pub struct StaticFamilyData {
    pub name: String,
    pub lowercase_name: String,
    pub has_stretch: bool,
    pub fonts: Vec<FontSlot>,
}

/// A font of the precompiled table.
#[derive(Clone, Copy)]
pub struct StaticFontData {
    pub family: FamilyId,
    pub attributes: Attributes,
    pub source: SourceId,
    pub index: u32,
}

/// A source file of the precompiled table.
pub struct StaticSourceData {
    pub file_name: String,
}

/// The fallback families of one script tag.
pub struct StaticScriptFallbacks {
    pub script: u32,
    pub families: Vec<FamilyId>,
}

/// The precompiled tables of a system collection.
pub struct StaticCollectionData {
    pub search_paths: Vec<String>,
    pub families: Vec<StaticFamilyData>,
    pub fonts: Vec<StaticFontData>,
    pub sources: Vec<StaticSourceData>,
    pub default_families: Vec<FamilyId>,
    pub script_fallbacks: Vec<StaticScriptFallbacks>,
    pub generic_families: Vec<Vec<FamilyId>>,
    pub cjk_families: Vec<Vec<FamilyId>>,
}

impl StaticCollectionData {
    /// The shape the table was built with: families strictly ascending by
    /// folded name, script fallbacks strictly ascending by tag, and a list
    /// for each generic kind and CJK variant. Nothing checks this at run time.
    pub open spec fn sorted(&self) -> bool {
        &&& self.families@.len() <= MAX_INDEX + 1
        &&& forall|i: int, j: int|
            0 <= i < j < self.families@.len() ==> name_lt(
                (#[trigger] self.families@[i]).lowercase_name@,
                (#[trigger] self.families@[j]).lowercase_name@,
            )
        &&& forall|i: int, j: int|
            0 <= i < j < self.script_fallbacks@.len() ==> (#[trigger] self.script_fallbacks@[i]).script
                < (#[trigger] self.script_fallbacks@[j]).script
        &&& self.generic_families@.len() == GENERIC_FAMILY_COUNT
        &&& self.cjk_families@.len() == CJK_FAMILY_COUNT
    }

    /// The family whose folded name is `key`.
    pub open spec fn lookup(&self, key: Seq<char>) -> Option<int> {
        if exists|i: int| 0 <= i < self.families@.len() && (#[trigger] self.families@[i]).lowercase_name@ == key {
            Some(choose|i: int| 0 <= i < self.families@.len() && (#[trigger] self.families@[i]).lowercase_name@ == key)
        } else {
            None
        }
    }

    /// The family named `name`, compared without regard to case.
    pub fn family_id(&self, name: &str) -> (r: Option<FamilyId>)
        requires
            self.sorted(),
        ensures
            r is Some <==> self.lookup(fold_name(name@)) is Some,
            r matches Some(id) ==> !id.is_user() && Some(id.index() as int) == self.lookup(fold_name(name@)),
    {
        let mut lowercase_buf = LowercaseString::new();
        let key = match lowercase_buf.get(name) {
            Some(key) => key,
            None => return None,
        };
        let ghost k = key@;
        let mut lo: usize = 0;
        let mut hi: usize = self.families.len();
        while lo < hi
            invariant
                self.sorted(),
                k == key@,
                k == fold_name(name@),
                lo <= hi <= self.families@.len(),
                forall|j: int| 0 <= j < lo ==> name_lt((#[trigger] self.families@[j]).lowercase_name@, k),
                forall|j: int| hi <= j < self.families@.len() ==> name_lt(k, (#[trigger] self.families@[j]).lowercase_name@),
            decreases hi - lo,
        {
            let mid = lo + (hi - lo) / 2;
            let c = compare_names(self.families[mid].lowercase_name.as_str(), key.as_str());
            if c == 0 {
                proof {
                    let m = mid as int;
                    assert(self.families@[m].lowercase_name@ == k);
                    assert(0 <= m < self.families@.len() && (#[trigger] self.families@[m]).lowercase_name@ == k);
                    let i = choose|i: int| 0 <= i < self.families@.len() && (#[trigger] self.families@[i]).lowercase_name@ == k;
                    if i != m {
                        if i < m {
                            assert(name_lt(self.families@[i].lowercase_name@, self.families@[m].lowercase_name@));
                        } else {
                            assert(name_lt(self.families@[m].lowercase_name@, self.families@[i].lowercase_name@));
                        }
                        lemma_name_lt_irreflexive(k);
                    }
                    assert(self.lookup(k) == Some(m));
                    assert(k == fold_name(name@));
                }
                return Some(FamilyId::new(mid as u32));
            } else if c < 0 {
                proof {
                    assert forall|j: int| 0 <= j < mid + 1 implies name_lt((#[trigger] self.families@[j]).lowercase_name@, k) by {
                        if j < mid {
                            lemma_name_lt_transitive(self.families@[j].lowercase_name@, self.families@[mid as int].lowercase_name@, k);
                        }
                    }
                }
                lo = mid + 1;
            } else {
                proof {
                    assert forall|j: int| mid <= j < self.families@.len() implies name_lt(k, (#[trigger] self.families@[j]).lowercase_name@) by {
                        if j > mid {
                            lemma_name_lt_transitive(k, self.families@[mid as int].lowercase_name@, self.families@[j].lowercase_name@);
                        }
                    }
                }
                hi = mid;
            }
        }
        proof {
            assert forall|j: int| 0 <= j < self.families@.len() implies (#[trigger] self.families@[j]).lowercase_name@ != k by {
                if j < lo {
                    lemma_name_lt_irreflexive(k);
                } else {
                    lemma_name_lt_irreflexive(k);
                }
            }
        }
        None
    }

    /// The fallback chain for `script` in `locale`, as for a scanned
    /// collection.
    pub open spec fn fallback_spec(&self, script: Script, locale: Option<Locale>) -> Seq<FamilyId> {
        if script.tag == crate::text::HAN_TAG {
            self.cjk_families@[cjk_of(locale).spec_index() as int]@
        } else if exists|i: int|
            0 <= i < self.script_fallbacks@.len() && (#[trigger] self.script_fallbacks@[i]).script == script.tag {
            let i = choose|i: int|
                0 <= i < self.script_fallbacks@.len() && (#[trigger] self.script_fallbacks@[i]).script == script.tag;
            self.script_fallbacks@[i].families@
        } else {
            self.default_families@
        }
    }

    pub fn fallback_families(&self, script: Script, locale: Option<Locale>) -> (r: &[FamilyId])
        requires
            self.sorted(),
        ensures
            r@ == self.fallback_spec(script, locale),
    {
        if script.is_han() {
            let cjk = locale_cjk(locale);
            return self.cjk_families[cjk.index()].as_slice();
        }
        let tag = script.tag;
        let mut lo: usize = 0;
        let mut hi: usize = self.script_fallbacks.len();
        while lo < hi
            invariant
                self.sorted(),
                tag == script.tag,
                script.tag != crate::text::HAN_TAG,
                lo <= hi <= self.script_fallbacks@.len(),
                forall|j: int| 0 <= j < lo ==> (#[trigger] self.script_fallbacks@[j]).script < tag,
                forall|j: int| hi <= j < self.script_fallbacks@.len() ==> (#[trigger] self.script_fallbacks@[j]).script > tag,
            decreases hi - lo,
        {
            let mid = lo + (hi - lo) / 2;
            let t = self.script_fallbacks[mid].script;
            if t == tag {
                proof {
                    let m = mid as int;
                    assert(0 <= m < self.script_fallbacks@.len() && (#[trigger] self.script_fallbacks@[m]).script == tag);
                    let i = choose|i: int| 0 <= i < self.script_fallbacks@.len() && (#[trigger] self.script_fallbacks@[i]).script == tag;
                    if i < m {
                        assert(self.script_fallbacks@[i].script < self.script_fallbacks@[m].script);
                    } else if i > m {
                        assert(self.script_fallbacks@[m].script < self.script_fallbacks@[i].script);
                    }
                    assert(script.tag != crate::text::HAN_TAG);
                    assert(self.fallback_spec(script, locale) == self.script_fallbacks@[m].families@);
                }
                return self.script_fallbacks[mid].families.as_slice();
            } else if t < tag {
                assert forall|j: int| 0 <= j < mid + 1 implies (#[trigger] self.script_fallbacks@[j]).script < tag by {
                    if j < mid {
                        assert(self.script_fallbacks@[j].script < self.script_fallbacks@[mid as int].script);
                    }
                }
                lo = mid + 1;
            } else {
                assert forall|j: int| mid <= j < self.script_fallbacks@.len() implies (#[trigger] self.script_fallbacks@[j]).script > tag by {
                    if j > mid {
                        assert(self.script_fallbacks@[mid as int].script < self.script_fallbacks@[j].script);
                    }
                }
                hi = mid;
            }
        }
        self.default_families.as_slice()
    }

    /// Whether the table has a fallback list for script tag `tag`.
    pub fn has_script(&self, tag: u32) -> (r: bool)
        ensures
            r == exists|i: int| 0 <= i < self.script_fallbacks@.len() && (#[trigger] self.script_fallbacks@[i]).script == tag,
    {
        let mut i: usize = 0;
        while i < self.script_fallbacks.len()
            invariant
                i <= self.script_fallbacks@.len(),
                forall|j: int| 0 <= j < i ==> (#[trigger] self.script_fallbacks@[j]).script != tag,
            decreases self.script_fallbacks@.len() - i,
        {
            if self.script_fallbacks[i].script == tag {
                assert(0 <= i < self.script_fallbacks@.len() && (#[trigger] self.script_fallbacks@[i as int]).script == tag);
                return true;
            }
            i += 1;
        }
        false
    }

    /// The name of family `id`.
    pub fn family_name(&self, id: FamilyId) -> (r: Option<&str>)
        ensures
            r is Some <==> id.index() < self.families@.len(),
            r matches Some(n) ==> n@ == self.families@[id.index() as int].name@,
    {
        let index = id.to_usize();
        if index < self.families.len() {
            Some(self.families[index].name.as_str())
        } else {
            None
        }
    }
}

} // verus!
