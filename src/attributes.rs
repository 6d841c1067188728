//! Primary font attributes: stretch, weight and style.
//!
//! The attributes are kept in the packed form that font headers give: the
//! style in the low nine bits, the weight in the next ten and the stretch in
//! the nine after that.

use vstd::prelude::*;

verus! {

/// Visual width of a font, in percent of normal.
#[derive(Clone, Copy, PartialEq, Eq, Structural, Debug)]
pub struct Stretch(pub u16);

/// Visual weight of a font.
#[derive(Clone, Copy, PartialEq, Eq, Structural, Debug)]
pub struct Weight(pub u16);

/// Visual slope of a font.
#[derive(Clone, Copy, PartialEq, Eq, Structural, Debug)]
pub enum Style {
    Normal,
    Italic,
    /// An oblique style with its packed angle.
    Oblique(u8),
}

/// The normal stretch.
pub const NORMAL_STRETCH: u16 = 100;

/// The normal weight.
pub const NORMAL_WEIGHT: u16 = 400;

impl Stretch {
    pub fn normal() -> (r: Self)
        ensures
            r.0 == NORMAL_STRETCH,
    {
        Stretch(NORMAL_STRETCH)
    }
}

impl Weight {
    pub fn normal() -> (r: Self)
        ensures
            r.0 == NORMAL_WEIGHT,
    {
        Weight(NORMAL_WEIGHT)
    }
}

pub open spec fn stretch_bits(bits: u32) -> u16 {
    ((bits >> 19u32) & 0x1FFu32) as u16
}

pub open spec fn weight_bits(bits: u32) -> u16 {
    ((bits >> 9u32) & 0x3FFu32) as u16
}

pub open spec fn style_bits(bits: u32) -> Style {
    let s = bits & 0x1FFu32;
    if s & 1u32 != 0 {
        Style::Oblique((s >> 1u32) as u8)
    } else if s == 6u32 {
        Style::Italic
    } else {
        Style::Normal
    }
}

/// Packed stretch, weight and style of a font.
#[derive(Clone, Copy, PartialEq, Eq, Structural, Debug)]
pub struct Attributes {
    pub bits: u32,
}

impl Attributes {
    pub fn stretch(&self) -> (r: Stretch)
        ensures
            r.0 == stretch_bits(self.bits),
    {
        Stretch(((self.bits >> 19u32) & 0x1FFu32) as u16)
    }

    pub fn weight(&self) -> (r: Weight)
        ensures
            r.0 == weight_bits(self.bits),
    {
        Weight(((self.bits >> 9u32) & 0x3FFu32) as u16)
    }

    pub fn style(&self) -> (r: Style)
        ensures
            r == style_bits(self.bits),
    {
        let s = self.bits & 0x1FFu32;
        if s & 1u32 != 0 {
            Style::Oblique((s >> 1u32) as u8)
        } else if s == 6u32 {
            Style::Italic
        } else {
            Style::Normal
        }
    }

    /// Returns stretch, weight and style together.
    pub fn parts(&self) -> (r: (Stretch, Weight, Style))
        ensures
            r.0.0 == stretch_bits(self.bits),
            r.1.0 == weight_bits(self.bits),
            r.2 == style_bits(self.bits),
    {
        (self.stretch(), self.weight(), self.style())
    }
}

} // verus!
