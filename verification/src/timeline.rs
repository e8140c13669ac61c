//! The timeline of a chunk: one box for each data word, placed by its start
//! time and its group.
//!
//! What is computed here is exact: times in picoseconds, the span they
//! cover, and the lane of each group. Turning them into lengths on a screen
//! is left to the caller.

use vstd::prelude::*;
use crate::address::GROUPS_PER_COLUMN;
use crate::tdcpixapp::TDCpixApp;
use crate::time::decode_time;
use crate::word::DataWord;

verus! {

/// The start and the duration of each data word, in picoseconds.
pub open spec fn times_of(words: Seq<DataWord>) -> Seq<(u64, u64)> {
    Seq::new(words.len(), |i: int| (words[i].start_ps() as u64, words[i].duration_ps() as u64))
}

/// Whether `t` is the start of the word that starts first.
pub open spec fn is_earliest_start(words: Seq<DataWord>, t: int) -> bool {
    &&& exists|i: int| 0 <= i < words.len() && (#[trigger] words[i]).start_ps() == t
    &&& forall|i: int| 0 <= i < words.len() ==> t <= (#[trigger] words[i]).start_ps()
}

/// Whether `t` is the end of the word that ends last.
pub open spec fn is_latest_end(words: Seq<DataWord>, t: int) -> bool {
    &&& exists|i: int| 0 <= i < words.len() && (#[trigger] words[i]).end_ps() == t
    &&& forall|i: int| 0 <= i < words.len() ==> (#[trigger] words[i]).end_ps() <= t
}

/// Whether one of the words has the group address `a`.
pub open spec fn has_address(words: Seq<DataWord>, a: int) -> bool {
    exists|i: int| 0 <= i < words.len() && (#[trigger] words[i]).address == a
}

/// How many group addresses below `bound` occur among the words.
pub open spec fn groups_below(words: Seq<DataWord>, bound: nat) -> nat
    decreases bound,
{
    if bound == 0 {
        0
    } else {
        let a = (bound - 1) as nat;
        groups_below(words, a) + if has_address(words, a as int) {
            1nat
        } else {
            0nat
        }
    }
}

/// How many groups occur among the words.
pub open spec fn group_count(words: Seq<DataWord>) -> nat {
    groups_below(words, 256)
}

/// The start and the duration of each data word, in picoseconds.
pub fn decode_times(words: &[DataWord]) -> (times: Vec<(u64, u64)>)
    ensures
        times@ == times_of(words@),
{
    let mut times: Vec<(u64, u64)> = Vec::new();
    let mut i: usize = 0;
    while i < words.len()
        invariant
            i <= words@.len(),
            times@ == times_of(words@.take(i as int)),
        decreases words@.len() - i,
    {
        times.push(decode_time(&words[i]));
        assert(times@ =~= times_of(words@.take(i + 1)));
        i += 1;
    }
    assert(words@.take(i as int) =~= words@);
    times
}

/// The span of time that the words cover: the earliest start and the
/// latest end. Words that are none cover nothing.
pub fn time_span(words: &[DataWord]) -> (span: Option<(u64, u64)>)
    ensures
        span is None <==> words@.len() == 0,
        span matches Some((first, last)) ==> is_earliest_start(words@, first as int)
            && is_latest_end(words@, last as int) && first <= last,
{
    if words.len() == 0 {
        return None;
    }
    let mut first = words[0].get_start_time();
    let mut last = words[0].get_time();
    let mut i: usize = 1;
    proof {
        let one = words@.take(1);
        assert(one[0] == words@[0]);
        assert(one[0].start_ps() == first && one[0].end_ps() == last);
    }
    while i < words.len()
        invariant
            1 <= i <= words@.len(),
            is_earliest_start(words@.take(i as int), first as int),
            is_latest_end(words@.take(i as int), last as int),
        decreases words@.len() - i,
    {
        let ghost seen = words@.take(i as int);
        let ghost next = words@.take(i + 1);
        let start = words[i].get_start_time();
        let end = words[i].get_time();
        proof {
            let s = choose|k: int| 0 <= k < seen.len() && (#[trigger] seen[k]).start_ps() == first;
            let e = choose|k: int| 0 <= k < seen.len() && (#[trigger] seen[k]).end_ps() == last;
            assert(next[s] == seen[s] && next[e] == seen[e]);
            assert(next[i as int] == words@[i as int]);
            assert forall|k: int| 0 <= k < next.len() implies (if start < first {
                start
            } else {
                first
            }) <= (#[trigger] next[k]).start_ps() by {
                if k < i {
                    assert(next[k] == seen[k]);
                }
            }
            assert forall|k: int| 0 <= k < next.len() implies (#[trigger] next[k]).end_ps() <= (
            if end > last {
                end
            } else {
                last
            }) by {
                if k < i {
                    assert(next[k] == seen[k]);
                }
            }
        }
        if start < first {
            first = start;
        }
        if end > last {
            last = end;
        }
        i += 1;
    }
    proof {
        assert(words@.take(i as int) =~= words@);
        let s = choose|k: int| 0 <= k < words@.len() && (#[trigger] words@[k]).start_ps() == first;
        assert(words@[s].start_ps() <= words@[s].end_ps() <= last);
    }
    Some((first, last))
}

/// The lanes of the timeline: how many groups occur among the words, and
/// for each word the number of those groups whose address is lower than its
/// own. Words of one group share a lane, and lanes follow the addresses.
pub fn group_lanes(words: &[DataWord]) -> (r: (usize, Vec<usize>))
    ensures
        r.0 == group_count(words@),
        r.0 <= 256,
        r.1@.len() == words@.len(),
        forall|i: int|
            0 <= i < words@.len() ==> (#[trigger] r.1@[i]) == groups_below(
                words@,
                words@[i].address as nat,
            ),
{
    let mut present: Vec<bool> = Vec::new();
    while present.len() < 256
        invariant
            present@.len() <= 256,
            forall|a: int| 0 <= a < present@.len() ==> !(#[trigger] present@[a]),
        decreases 256 - present@.len(),
    {
        present.push(false);
    }
    let mut k: usize = 0;
    while k < words.len()
        invariant
            k <= words@.len(),
            present@.len() == 256,
            forall|a: int|
                0 <= a < 256 ==> ((#[trigger] present@[a]) <==> has_address(
                    words@.take(k as int),
                    a,
                )),
        decreases words@.len() - k,
    {
        let ghost seen = words@.take(k as int);
        let ghost next = words@.take(k + 1);
        let ghost before = present@;
        let address = words[k].address;
        present.set(address as usize, true);
        proof {
            assert(next[k as int].address == address);
            assert forall|a: int| 0 <= a < 256 implies ((#[trigger] present@[a]) <==> has_address(
                next,
                a,
            )) by {
                if has_address(seen, a) {
                    let i = choose|i: int| 0 <= i < seen.len() && (#[trigger] seen[i]).address == a;
                    assert(next[i] == seen[i]);
                }
                if has_address(next, a) && a != address {
                    let i = choose|i: int| 0 <= i < next.len() && (#[trigger] next[i]).address == a;
                    assert(seen[i] == next[i]);
                    assert(before[a]);
                }
            }
        }
        k += 1;
    }
    assert(words@.take(k as int) =~= words@);
    let mut below: Vec<usize> = Vec::new();
    let mut count: usize = 0;
    let mut a: usize = 0;
    while a < 256
        invariant
            a <= 256,
            present@.len() == 256,
            forall|b: int| 0 <= b < 256 ==> ((#[trigger] present@[b]) <==> has_address(words@, b)),
            below@.len() == a,
            count == groups_below(words@, a as nat),
            count <= a,
            forall|b: int| 0 <= b < a ==> (#[trigger] below@[b]) == groups_below(words@, b as nat),
        decreases 256 - a,
    {
        below.push(count);
        if present[a] {
            count += 1;
        }
        a += 1;
    }
    let mut lanes: Vec<usize> = Vec::new();
    let mut i: usize = 0;
    while i < words.len()
        invariant
            i <= words@.len(),
            below@.len() == 256,
            forall|b: int| 0 <= b < 256 ==> (#[trigger] below@[b]) == groups_below(words@, b as nat),
            lanes@.len() == i,
            forall|j: int|
                0 <= j < i ==> (#[trigger] lanes@[j]) == groups_below(
                    words@,
                    words@[j].address as nat,
                ),
        decreases words@.len() - i,
    {
        lanes.push(below[words[i].address as usize]);
        i += 1;
    }
    (count, lanes)
}

/// Where the pileup flag of the word at place `i` is read, in a chunk of
/// `n` words. The flags are kept under the low eight bits of a word's
/// place, and of the words that share those bits the last one sets the
/// flag. In a chunk of at most 256 words every word has its own flag.
pub open spec fn flag_place(i: int, n: int) -> int {
    i % 256 + 256 * ((n - 1 - i % 256) / 256)
}

/// Whether `pixel` lies in the group of `hit`: in its column, and a whole
/// number of pixels of the group down from the first.
pub open spec fn in_group_of(pixel: (u8, u8), hit: (u8, u8)) -> bool {
    &&& pixel.0 == hit.0
    &&& exists|k: int|
        0 <= k < 5 && pixel.1 == hit.1 % GROUPS_PER_COLUMN + #[trigger] (k * GROUPS_PER_COLUMN)
}

/// Tests whether `pixel` lies in the group of `hit`.
pub fn pixel_in_group_of(pixel: (u8, u8), hit: (u8, u8)) -> (r: bool)
    ensures
        r == in_group_of(pixel, hit),
{
    if pixel.0 != hit.0 {
        return false;
    }
    let first = hit.1 % GROUPS_PER_COLUMN;
    let mut k: u8 = 0;
    while k < 5
        invariant
            k <= 5,
            first == hit.1 % GROUPS_PER_COLUMN,
            pixel.0 == hit.0,
            forall|j: int| 0 <= j < k ==> pixel.1 != first + #[trigger] (j * GROUPS_PER_COLUMN),
        decreases 5 - k,
    {
        if pixel.1 == first + k * GROUPS_PER_COLUMN {
            assert(pixel.1 == first + (k as int) * GROUPS_PER_COLUMN);
            return true;
        }
        k += 1;
    }
    false
}

impl TDCpixApp {
    /// Whether the timeline has a box that answers for the data word at
    /// place `i`: the chunk under analysis exists, holds such a word, and
    /// the list of hit pixels reaches that far.
    pub open spec fn has_box(&self, i: int) -> bool {
        &&& self.analysis_chunk_idx < self.chunks@.len()
        &&& 0 <= i < self.chunks@[self.analysis_chunk_idx as int]@.data_words.len()
        &&& i < self.hit_idxes@.len()
    }

    /// Whether the box of the data word at place `i` is drawn picked out: a
    /// pixel is picked, and it is the hit pixel of the word, or the word's
    /// pileup flag is set and the pixel lies in the group of the hit pixel.
    pub open spec fn spec_is_box_highlighted(&self, i: int) -> bool {
        let words = self.chunks@[self.analysis_chunk_idx as int]@.data_words;
        let hit = self.hit_idxes@[i];
        &&& self.has_box(i)
        &&& self.has_selected_hit
        &&& {
            ||| self.highlight_idx == hit
            ||| words[flag_place(i, words.len() as int)].address_pileup != 0 && in_group_of(
                self.highlight_idx,
                hit,
            )
        }
    }

    /// Whether the box of the data word at place `i` is drawn picked out.
    pub fn is_box_highlighted(&self, i: usize) -> (r: bool)
        ensures
            r == self.spec_is_box_highlighted(i as int),
    {
        if self.analysis_chunk_idx >= self.chunks.len() {
            return false;
        }
        let words = &self.chunks[self.analysis_chunk_idx].data_words;
        let n = words.len();
        if i >= n || i >= self.hit_idxes.len() || !self.has_selected_hit {
            return false;
        }
        let hit = self.hit_idxes[i];
        if self.highlight_idx.0 == hit.0 && self.highlight_idx.1 == hit.1 {
            return true;
        }
        let low = i % 256;
        let place = low + 256 * ((n - 1 - low) / 256);
        words[place].address_pileup != 0 && pixel_in_group_of(self.highlight_idx, hit)
    }

    /// Picks the hit pixel of the data word at place `i`, as a click on its
    /// box does. Where the timeline has no such box, nothing changes.
    pub fn select_box(&mut self, i: usize)
        ensures
            old(self).has_box(i as int) ==> final(self).highlight_idx == old(self).hit_idxes@[i as int]
                && final(self).has_selected_hit == !(old(self).has_selected_hit && old(
                self,
            ).highlight_idx == old(self).hit_idxes@[i as int]),
            !old(self).has_box(i as int) ==> *final(self) == *old(self),
            final(self).chunks == old(self).chunks,
            final(self).analysis_chunk_idx == old(self).analysis_chunk_idx,
            final(self).hit_idxes == old(self).hit_idxes,
            final(self).pileup_idxes == old(self).pileup_idxes,
            old(self).wf() ==> final(self).wf(),
    {
        if self.analysis_chunk_idx >= self.chunks.len() {
            return ;
        }
        if i >= self.chunks[self.analysis_chunk_idx].data_words.len() || i
            >= self.hit_idxes.len() {
            return ;
        }
        let hit = self.hit_idxes[i];
        self.select_pixel(hit);
    }
}

} // verus!
