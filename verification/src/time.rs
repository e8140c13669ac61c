//! Hit times, reconstructed from the timing fields of a data word.
//!
//! A time is a coarse count and a fine count. Both tick lengths are fixed
//! by the hardware. The rollover bits of a data word play no part: near a
//! wraparound of the coarse counter the times of successive hits may
//! therefore run backwards.

use vstd::prelude::*;
use crate::word::DataWord;

verus! {

/// Picoseconds in one tick of a coarse counter: 3.125 ns.
pub const COARSE_TICK_PS: u64 = 3125;

/// Picoseconds in one tick of a fine counter.
pub const FINE_TICK_PS: u64 = 98;

impl DataWord {
    /// When the hit began, in picoseconds.
    pub open spec fn start_ps(self) -> int {
        self.leading_coarse_time * COARSE_TICK_PS + self.leading_fine_time * FINE_TICK_PS
    }

    /// How long the hit lasted, in picoseconds.
    pub open spec fn duration_ps(self) -> int {
        self.trailing_coarse_time * COARSE_TICK_PS + self.trailing_fine_time * FINE_TICK_PS
    }

    /// When the hit ended, in picoseconds.
    pub open spec fn end_ps(self) -> int {
        self.start_ps() + self.duration_ps()
    }

    /// When the hit ended, in picoseconds: its start plus its duration.
    pub fn get_time(&self) -> (ps: u64)
        ensures
            ps == self.end_ps(),
            ps == self.start_ps() + self.duration_ps(),
    {
        let leading_coarse_time = self.leading_coarse_time as u64 * COARSE_TICK_PS;
        let leading_fine_time = self.leading_fine_time as u64 * FINE_TICK_PS;
        let trailing_coarse_time = self.trailing_coarse_time as u64 * COARSE_TICK_PS;
        let trailing_fine_time = self.trailing_fine_time as u64 * FINE_TICK_PS;
        leading_coarse_time + leading_fine_time + trailing_coarse_time + trailing_fine_time
    }

    /// How long the hit lasted, in picoseconds.
    pub fn get_duration(&self) -> (ps: u64)
        ensures
            ps == self.duration_ps(),
    {
        let trailing_coarse_time = self.trailing_coarse_time as u64 * COARSE_TICK_PS;
        let trailing_fine_time = self.trailing_fine_time as u64 * FINE_TICK_PS;
        trailing_coarse_time + trailing_fine_time
    }

    /// When the hit began, in picoseconds.
    pub fn get_start_time(&self) -> (ps: u64)
        ensures
            ps == self.start_ps(),
    {
        let leading_coarse_time = self.leading_coarse_time as u64 * COARSE_TICK_PS;
        let leading_fine_time = self.leading_fine_time as u64 * FINE_TICK_PS;
        leading_coarse_time + leading_fine_time
    }
}

/// The start and the duration of a hit, in picoseconds.
pub fn decode_time(word: &DataWord) -> (times: (u64, u64))
    ensures
        times.0 == word.start_ps(),
        times.1 == word.duration_ps(),
{
    (word.get_start_time(), word.get_duration())
}

/// The start time is linear in the coarse count: two words with the same
/// fine count start `COARSE_TICK_PS` apart for each coarse tick between
/// them. So a word with twice the coarse count of another has twice its
/// coarse share of the start time.
pub proof fn lemma_start_time_linear(a: DataWord, b: DataWord)
    requires
        a.leading_fine_time == b.leading_fine_time,
    ensures
        b.start_ps() - a.start_ps() == COARSE_TICK_PS * (b.leading_coarse_time
            - a.leading_coarse_time),
        b.leading_coarse_time == 2 * a.leading_coarse_time ==> b.start_ps()
            - b.leading_fine_time * FINE_TICK_PS == 2 * (a.start_ps() - a.leading_fine_time
            * FINE_TICK_PS),
{
}

} // verus!
