//! Scripts, locales and generic family kinds.

use vstd::prelude::*;

verus! {

/// OpenType tag of the Han script.
pub const HAN_TAG: u32 = 0x6861_6E69;

/// A writing script, named by its OpenType script tag.
#[derive(Clone, Copy, PartialEq, Eq, Structural, Debug)]
pub struct Script {
    pub tag: u32,
}

impl Script {
    pub fn from_tag(tag: u32) -> (r: Self)
        ensures
            r.tag == tag,
    {
        Script { tag }
    }

    pub fn han() -> (r: Self)
        ensures
            r.tag == HAN_TAG,
    {
        Script { tag: HAN_TAG }
    }

    pub fn is_han(&self) -> (r: bool)
        ensures
            r == (self.tag == HAN_TAG),
    {
        self.tag == HAN_TAG
    }
}

/// Language-specific variant of Han coverage.
#[derive(Clone, Copy, PartialEq, Eq, Structural, Debug)]
pub enum Cjk {
    Neutral,
    Traditional,
    Simplified,
    Japanese,
    Korean,
}

/// Number of CJK variants.
pub const CJK_FAMILY_COUNT: usize = 5;

impl Cjk {
    pub open spec fn spec_index(self) -> nat {
        match self {
            Cjk::Neutral => 0,
            Cjk::Traditional => 1,
            Cjk::Simplified => 2,
            Cjk::Japanese => 3,
            Cjk::Korean => 4,
        }
    }

    pub fn index(self) -> (r: usize)
        ensures
            r == self.spec_index(),
            r < CJK_FAMILY_COUNT,
    {
        match self {
            Cjk::Neutral => 0,
            Cjk::Traditional => 1,
            Cjk::Simplified => 2,
            Cjk::Japanese => 3,
            Cjk::Korean => 4,
        }
    }
}

/// A locale, as far as font selection needs it: its CJK variant.
#[derive(Clone, Copy, PartialEq, Eq, Structural, Debug)]
pub struct Locale {
    pub cjk: Cjk,
}

impl Locale {
    pub fn new(cjk: Cjk) -> (r: Self)
        ensures
            r.cjk == cjk,
    {
        Locale { cjk }
    }

    pub fn cjk(&self) -> (r: Cjk)
        ensures
            r == self.cjk,
    {
        self.cjk
    }
}

/// The CJK variant a query uses: that of the locale, or none without one.
pub open spec fn cjk_of(locale: Option<Locale>) -> Cjk {
    match locale {
        Some(l) => l.cjk,
        None => Cjk::Neutral,
    }
}

pub fn locale_cjk(locale: Option<Locale>) -> (r: Cjk)
    ensures
        r == cjk_of(locale),
{
    match locale {
        Some(l) => l.cjk,
        None => Cjk::Neutral,
    }
}

/// Abstract style buckets that map to concrete families.
#[derive(Clone, Copy, PartialEq, Eq, Structural, Debug)]
pub enum GenericFamily {
    SansSerif,
    Serif,
    Monospace,
    Cursive,
    SystemUi,
    Emoji,
}

/// Number of generic family kinds.
pub const GENERIC_FAMILY_COUNT: usize = 6;

impl GenericFamily {
    pub open spec fn spec_index(self) -> nat {
        match self {
            GenericFamily::SansSerif => 0,
            GenericFamily::Serif => 1,
            GenericFamily::Monospace => 2,
            GenericFamily::Cursive => 3,
            GenericFamily::SystemUi => 4,
            GenericFamily::Emoji => 5,
        }
    }

    pub fn index(self) -> (r: usize)
        ensures
            r == self.spec_index(),
            r < GENERIC_FAMILY_COUNT,
    {
        match self {
            GenericFamily::SansSerif => 0,
            GenericFamily::Serif => 1,
            GenericFamily::Monospace => 2,
            GenericFamily::Cursive => 3,
            GenericFamily::SystemUi => 4,
            GenericFamily::Emoji => 5,
        }
    }
}

} // verus!
