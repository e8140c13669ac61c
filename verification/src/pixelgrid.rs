//! The pixel grid of the detector: what each pixel shows, where the
//! separating lines run, and what picking a pixel does.

use vstd::prelude::*;
use crate::pixel::HitType;
use crate::tdcpixapp::TDCpixApp;

verus! {

/// Columns of the pixel grid.
pub const GRID_COLUMNS: u8 = 40;

/// Rows of the pixel grid.
pub const GRID_ROWS: u8 = 45;

/// Columns that one q-chip reads out.
pub const COLUMNS_PER_QCHIP: u8 = 10;

/// Rows between two horizontal separating lines.
pub const ROWS_PER_BAND: u8 = 5;

/// Whether a separating line between q-chips runs left of column `x`: at
/// every tenth column but the first.
pub fn starts_qchip(x: u8) -> (r: bool)
    ensures
        r == (x % COLUMNS_PER_QCHIP == 0 && x != 0),
{
    x % COLUMNS_PER_QCHIP == 0 && x != 0
}

/// Whether a separating line runs above row `y`: at every fifth row but the
/// first.
pub fn starts_band(y: u8) -> (r: bool)
    ensures
        r == (y % ROWS_PER_BAND == 0 && y != 0),
{
    y % ROWS_PER_BAND == 0 && y != 0
}

/// Whether `pixel` occurs in `list`.
pub fn contains_pixel(list: &[(u8, u8)], pixel: (u8, u8)) -> (r: bool)
    ensures
        r == list@.contains(pixel),
{
    let mut i: usize = 0;
    while i < list.len()
        invariant
            i <= list@.len(),
            forall|j: int| 0 <= j < i ==> list@[j] != pixel,
        decreases list@.len() - i,
    {
        if list[i].0 == pixel.0 && list[i].1 == pixel.1 {
            assert(list@[i as int] == pixel);
            return true;
        }
        i += 1;
    }
    false
}

impl TDCpixApp {
    /// What the pixel in column `x` and row `y` shows: a hit if it is among
    /// the hit pixels, else pileup if it is among the pixels marked for
    /// pileup, else nothing.
    pub open spec fn spec_hit_type_at(&self, x: u8, y: u8) -> HitType {
        HitType::spec_classify(
            self.hit_idxes@.contains((x, y)),
            self.pileup_idxes@.contains((x, y)),
        )
    }

    /// Whether the pixel in column `x` and row `y` is the one picked.
    pub open spec fn spec_is_highlighted(&self, x: u8, y: u8) -> bool {
        self.has_selected_hit && self.highlight_idx == (x, y)
    }

    /// What the pixel in column `x` and row `y` shows.
    pub fn hit_type_at(&self, x: u8, y: u8) -> (kind: HitType)
        ensures
            kind == self.spec_hit_type_at(x, y),
            kind != HitType::DoubleHit,
    {
        HitType::classify(
            contains_pixel(self.hit_idxes.as_slice(), (x, y)),
            contains_pixel(self.pileup_idxes.as_slice(), (x, y)),
        )
    }

    /// Whether the pixel in column `x` and row `y` is the one picked.
    pub fn is_highlighted(&self, x: u8, y: u8) -> (r: bool)
        ensures
            r == self.spec_is_highlighted(x, y),
    {
        x == self.highlight_idx.0 && y == self.highlight_idx.1 && self.has_selected_hit
    }

    /// Picks a pixel, as a click on it does. The pixel becomes the one
    /// picked; picking the pixel that is picked already lets it go.
    pub fn select_pixel(&mut self, pixel: (u8, u8))
        ensures
            final(self).highlight_idx == pixel,
            final(self).has_selected_hit == !(old(self).has_selected_hit && old(
                self,
            ).highlight_idx == pixel),
            final(self).chunks == old(self).chunks,
            final(self).analysis_chunk_idx == old(self).analysis_chunk_idx,
            final(self).hit_idxes == old(self).hit_idxes,
            final(self).pileup_idxes == old(self).pileup_idxes,
            old(self).wf() ==> final(self).wf(),
    {
        let old_highlight = self.highlight_idx;
        self.highlight_idx = pixel;
        if !self.has_selected_hit {
            self.has_selected_hit = true;
        } else if old_highlight.0 == pixel.0 && old_highlight.1 == pixel.1 {
            self.has_selected_hit = !self.has_selected_hit;
        }
    }
}

} // verus!
