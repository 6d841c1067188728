//! Identifiers for families, fonts and sources.
//!
//! Each identifier packs an index into its collection together with one bit
//! telling whether it belongs to the user collection or the system one. The
//! user bit is the highest bit, so identifiers order by origin first and by
//! index second.

use vstd::prelude::*;

verus! {

/// The bit that marks an identifier of the user collection.
pub const USER_BIT: u32 = 0x8000_0000;

/// The largest index an identifier can hold.
pub const MAX_INDEX: u32 = 0x7FFF_FFFF;

/// Index packed in a raw identifier value.
pub open spec fn index_of(value: u32) -> nat {
    if value >= USER_BIT {
        (value - USER_BIT) as nat
    } else {
        value as nat
    }
}

/// Origin bit packed in a raw identifier value.
pub open spec fn user_of(value: u32) -> bool {
    value >= USER_BIT
}

/// Raw value of an identifier with the given index and origin.
pub open spec fn pack(index: nat, is_user: bool) -> u32
    recommends
        index <= MAX_INDEX,
{
    if is_user {
        (index + USER_BIT) as u32
    } else {
        index as u32
    }
}

fn pack_exec(index: u32, is_user: bool) -> (r: u32)
    requires
        index <= MAX_INDEX,
    ensures
        r == pack(index as nat, is_user),
        index_of(r) == index,
        user_of(r) == is_user,
{
    if is_user {
        index + USER_BIT
    } else {
        index
    }
}

fn unpack_index(value: u32) -> (r: u32)
    ensures
        r == index_of(value),
        r <= MAX_INDEX,
{
    if value >= USER_BIT {
        value - USER_BIT
    } else {
        value
    }
}

/// Identifier of a font family.
#[derive(Clone, Copy, PartialEq, Eq, Structural, PartialOrd, Ord, Hash, Debug)]
pub struct FamilyId(u32);

/// Identifier of a font.
#[derive(Clone, Copy, PartialEq, Eq, Structural, PartialOrd, Ord, Hash, Debug)]
pub struct FontId(u32);

/// Identifier of a font source.
#[derive(Clone, Copy, PartialEq, Eq, Structural, PartialOrd, Ord, Hash, Debug)]
pub struct SourceId(u32);

impl FamilyId {
    pub closed spec fn raw(self) -> u32 {
        self.0
    }

    /// The identifier with the given index and origin.
    pub closed spec fn spec_new(index: nat, is_user: bool) -> Self {
        FamilyId(pack(index, is_user))
    }

    pub broadcast proof fn lemma_spec_new(index: nat, is_user: bool)
        requires
            index <= MAX_INDEX,
        ensures
            #[trigger] Self::spec_new(index, is_user).index() == index,
            Self::spec_new(index, is_user).is_user() == is_user,
    {
    }

    pub open spec fn index(self) -> nat {
        index_of(self.raw())
    }

    pub open spec fn is_user(self) -> bool {
        user_of(self.raw())
    }

    /// Two identifiers are equal exactly when index and origin are.
    pub broadcast proof fn lemma_eq(a: Self, b: Self)
        ensures
            #[trigger] a.index() == #[trigger] b.index() && a.is_user() == b.is_user() <==> a == b,
    {
    }

    /// Creates a system identifier for the given index.
    pub fn new(index: u32) -> (r: Self)
        requires
            index <= MAX_INDEX,
        ensures
            r.index() == index,
            !r.is_user(),
    {
        proof {
            Self::lemma_spec_new(index as nat, false);
        }
        FamilyId(pack_exec(index, false))
    }

    /// Allocates the identifier for `index`; fails when the index does not fit.
    pub fn allocate(index: usize, is_user: bool) -> (r: Option<Self>)
        ensures
            r.is_some() <==> index <= MAX_INDEX,
            r matches Some(id) ==> id.index() == index && id.is_user() == is_user,
    {
        if index > MAX_INDEX as usize {
            None
        } else {
            Some(FamilyId(pack_exec(index as u32, is_user)))
        }
    }

    pub fn to_usize(self) -> (r: usize)
        ensures
            r == self.index(),
            r <= MAX_INDEX,
    {
        unpack_index(self.0) as usize
    }

    pub fn is_user_font(self) -> (r: bool)
        ensures
            r == self.is_user(),
    {
        self.0 >= USER_BIT
    }
}

impl FontId {
    pub closed spec fn raw(self) -> u32 {
        self.0
    }

    pub open spec fn index(self) -> nat {
        index_of(self.raw())
    }

    pub open spec fn is_user(self) -> bool {
        user_of(self.raw())
    }

    /// Two identifiers are equal exactly when index and origin are.
    pub broadcast proof fn lemma_eq(a: Self, b: Self)
        ensures
            #[trigger] a.index() == #[trigger] b.index() && a.is_user() == b.is_user() <==> a == b,
    {
    }

    /// Creates a system identifier for the given index.
    pub fn new(index: u32) -> (r: Self)
        requires
            index <= MAX_INDEX,
        ensures
            r.index() == index,
            !r.is_user(),
    {
        FontId(pack_exec(index, false))
    }

    /// Allocates the identifier for `index`; fails when the index does not fit.
    pub fn allocate(index: usize, is_user: bool) -> (r: Option<Self>)
        ensures
            r.is_some() <==> index <= MAX_INDEX,
            r matches Some(id) ==> id.index() == index && id.is_user() == is_user,
    {
        if index > MAX_INDEX as usize {
            None
        } else {
            Some(FontId(pack_exec(index as u32, is_user)))
        }
    }

    pub fn to_usize(self) -> (r: usize)
        ensures
            r == self.index(),
            r <= MAX_INDEX,
    {
        unpack_index(self.0) as usize
    }

    pub fn is_user_font(self) -> (r: bool)
        ensures
            r == self.is_user(),
    {
        self.0 >= USER_BIT
    }
}

impl SourceId {
    pub closed spec fn raw(self) -> u32 {
        self.0
    }

    pub open spec fn index(self) -> nat {
        index_of(self.raw())
    }

    pub open spec fn is_user(self) -> bool {
        user_of(self.raw())
    }

    /// Two identifiers are equal exactly when index and origin are.
    pub broadcast proof fn lemma_eq(a: Self, b: Self)
        ensures
            #[trigger] a.index() == #[trigger] b.index() && a.is_user() == b.is_user() <==> a == b,
    {
    }

    /// Creates a system identifier for the given index.
    pub fn new(index: u32) -> (r: Self)
        requires
            index <= MAX_INDEX,
        ensures
            r.index() == index,
            !r.is_user(),
    {
        SourceId(pack_exec(index, false))
    }

    /// Allocates the identifier for `index`; fails when the index does not fit.
    pub fn allocate(index: usize, is_user: bool) -> (r: Option<Self>)
        ensures
            r.is_some() <==> index <= MAX_INDEX,
            r matches Some(id) ==> id.index() == index && id.is_user() == is_user,
    {
        if index > MAX_INDEX as usize {
            None
        } else {
            Some(SourceId(pack_exec(index as u32, is_user)))
        }
    }

    pub fn to_usize(self) -> (r: usize)
        ensures
            r == self.index(),
            r <= MAX_INDEX,
    {
        unpack_index(self.0) as usize
    }

    pub fn is_user_font(self) -> (r: bool)
        ensures
            r == self.is_user(),
    {
        self.0 >= USER_BIT
    }
}

pub broadcast group group_id_eq {
    FamilyId::lemma_eq,
    FamilyId::lemma_spec_new,
    FontId::lemma_eq,
    SourceId::lemma_eq,
}

} // verus!
