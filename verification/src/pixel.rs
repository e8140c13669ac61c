//! What a pixel of the grid shows.

use vstd::prelude::*;

verus! {

/// What was seen at a pixel in the chunk under analysis.
#[derive(Clone, Copy, Debug, PartialEq, Eq, Structural)]
pub enum HitType {
    /// A data word reports the pixel as hit.
    Hit,
    /// Kept for a pixel hit twice. No rule of this crate gives it yet.
    DoubleHit,
    /// The pixel lies in a group marked for pileup and is not itself a hit.
    Pileup,
    /// Nothing was seen.
    Other,
}

impl HitType {
    /// The colour that stands for this kind: red, green and blue.
    pub open spec fn spec_rgb(self) -> (u8, u8, u8) {
        match self {
            HitType::Hit => (0, 255, 0),
            HitType::DoubleHit => (255, 0, 255),
            HitType::Pileup => (255, 0, 0),
            HitType::Other => (50, 50, 50),
        }
    }

    /// The kind of a pixel, from whether it is among the hits and whether
    /// it is among the pixels marked for pileup. A hit stays a hit whatever
    /// the pileup list says.
    pub open spec fn spec_classify(hit: bool, pileup: bool) -> HitType {
        if hit {
            HitType::Hit
        } else if pileup {
            HitType::Pileup
        } else {
            HitType::Other
        }
    }

    /// The colour in which a pixel of this kind is drawn: red, green and
    /// blue.
    pub fn rgb(&self) -> (c: (u8, u8, u8))
        ensures
            c == self.spec_rgb(),
    {
        match self {
            HitType::Hit => (0, 255, 0),
            HitType::DoubleHit => (255, 0, 255),
            HitType::Pileup => (255, 0, 0),
            HitType::Other => (50, 50, 50),
        }
    }

    /// Gives the kind of a pixel, from whether it is among the hits and
    /// whether it is among the pixels marked for pileup.
    pub fn classify(hit: bool, pileup: bool) -> (kind: HitType)
        ensures
            kind == Self::spec_classify(hit, pileup),
    {
        match (hit, pileup) {
            (true, _) => HitType::Hit,
            (_, true) => HitType::Pileup,
            _ => HitType::Other,
        }
    }
}

} // verus!
