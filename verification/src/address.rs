//! From the address fields of a data word to pixel coordinates.
//!
//! The detector is read out in groups of five pixels. A column holds nine
//! groups, and the five pixels of a group lie nine rows apart. The address
//! of a data word names the group; its arbiter mask says which pixel of the
//! group fired; its pileup mask says that more than one hit was seen.
//!
//! An arbiter mask without a set bit maps to the first pixel of the group,
//! exactly as a mask with bit 0 set does: the two cannot be told apart in
//! the coordinate.

use vstd::prelude::*;
use crate::word::DataWord;

verus! {

/// Groups in one column, and the distance in rows between two pixels of a
/// group.
pub const GROUPS_PER_COLUMN: u8 = 9;

/// Pixels in one group, and bits in an arbiter or pileup mask.
pub const PIXELS_PER_GROUP: u8 = 5;

/// Whether bit `b` of `mask` is set.
pub open spec fn bit_is_set(mask: u8, b: u8) -> bool {
    mask & (1u8 << b) != 0
}

/// The position of the lowest set bit of `mask`, counted from bit 0; zero
/// for a mask without a set bit.
pub open spec fn lowest_set_bit(mask: u8) -> u8 {
    if bit_is_set(mask, 0) {
        0
    } else if bit_is_set(mask, 1) {
        1
    } else if bit_is_set(mask, 2) {
        2
    } else if bit_is_set(mask, 3) {
        3
    } else if bit_is_set(mask, 4) {
        4
    } else if bit_is_set(mask, 5) {
        5
    } else if bit_is_set(mask, 6) {
        6
    } else if bit_is_set(mask, 7) {
        7
    } else {
        0
    }
}

/// The column of the group with this address.
pub open spec fn column(address: u8) -> u8 {
    address / GROUPS_PER_COLUMN
}

/// The place of the group within its column: the row of its first pixel.
pub open spec fn slot(address: u8) -> u8 {
    address % GROUPS_PER_COLUMN
}

/// The pixel of the word's group that lies `k` pixels down the group.
pub open spec fn group_pixel(word: DataWord, k: int) -> (u8, u8) {
    (column(word.address), (slot(word.address) + k * GROUPS_PER_COLUMN) as u8)
}

/// The pixel that the word reports as hit.
pub open spec fn hit_coord(word: DataWord) -> (u8, u8) {
    group_pixel(word, lowest_set_bit(word.address_arbiter) as int)
}

/// All five pixels of the word's group, from the first down.
pub open spec fn group_pixels(word: DataWord) -> Seq<(u8, u8)> {
    Seq::new(PIXELS_PER_GROUP as nat, |k: int| group_pixel(word, k))
}

/// The pixels marked by the lowest `bits` bits of the pileup mask: for each
/// set bit, in rising order, the whole group once.
pub open spec fn pileup_upto(word: DataWord, bits: nat) -> Seq<(u8, u8)>
    decreases bits,
{
    if bits == 0 {
        Seq::empty()
    } else {
        let b = (bits - 1) as nat;
        pileup_upto(word, b) + if bit_is_set(word.address_pileup, b as u8) {
            group_pixels(word)
        } else {
            Seq::empty()
        }
    }
}

/// The pixels that the word marks as affected by pileup. Every set bit of
/// the five-bit pileup mask marks the whole group, so a pixel is listed once
/// for each set bit.
pub open spec fn pileup_coords(word: DataWord) -> Seq<(u8, u8)> {
    pileup_upto(word, PIXELS_PER_GROUP as nat)
}

/// How many of the lowest `bits` bits of `mask` are set.
pub open spec fn count_set_bits(mask: u8, bits: nat) -> nat
    decreases bits,
{
    if bits == 0 {
        0
    } else {
        let b = (bits - 1) as nat;
        count_set_bits(mask, b) + if bit_is_set(mask, b as u8) {
            1nat
        } else {
            0nat
        }
    }
}

/// Each set pileup bit marks five pixels.
pub proof fn lemma_pileup_len(word: DataWord, bits: nat)
    ensures
        pileup_upto(word, bits).len() == 5 * count_set_bits(word.address_pileup, bits),
        pileup_upto(word, bits).len() % 5 == 0,
        pileup_upto(word, bits).len() <= 5 * bits,
    decreases bits,
{
    if bits > 0 {
        lemma_pileup_len(word, (bits - 1) as nat);
    }
}

/// The hit pixels of a run of data words, one per word and in their order.
pub open spec fn hit_coords_of(words: Seq<DataWord>) -> Seq<(u8, u8)> {
    Seq::new(words.len(), |i: int| hit_coord(words[i]))
}

/// The pixels that a run of data words marks as affected by pileup: the
/// lists of the words one after another. Nothing is removed, so a pixel may
/// occur more than once.
pub open spec fn pileup_coords_of(words: Seq<DataWord>) -> Seq<(u8, u8)>
    decreases words.len(),
{
    if words.len() == 0 {
        Seq::empty()
    } else {
        pileup_coords_of(words.drop_last()) + pileup_coords(words.last())
    }
}

/// The pileup list of any run of data words holds a multiple of five
/// pixels, at most twenty-five for each word.
pub proof fn lemma_pileup_of_len(words: Seq<DataWord>)
    ensures
        pileup_coords_of(words).len() % 5 == 0,
        pileup_coords_of(words).len() <= 25 * words.len(),
    decreases words.len(),
{
    if words.len() > 0 {
        lemma_pileup_of_len(words.drop_last());
        lemma_pileup_len(words.last(), 5);
    }
}

/// The count of trailing zeros of a mask with a set bit is the position of
/// its lowest set bit.
proof fn lemma_trailing_zeros_is_lowest_set_bit(mask: u8)
    requires
        mask != 0,
    ensures
        vstd::std_specs::bits::u8_trailing_zeros(mask) == lowest_set_bit(mask),
{
    vstd::std_specs::bits::axiom_u8_trailing_zeros(mask);
    let t = vstd::std_specs::bits::u8_trailing_zeros(mask) as u8;
    assert(t < 8);
    assert((mask >> t) & 1u8 == 1u8);
    assert forall|j: u8| 0 <= j < 8 implies (#[trigger] bit_is_set(mask, j) <==> (mask >> j) & 1u8
        == 1u8) by {
        assert(j < 8 ==> (mask & (1u8 << j) != 0 <==> (mask >> j) & 1u8 == 1u8)) by (bit_vector);
    }
    assert forall|j: u8| 0 <= j < t implies !(#[trigger] bit_is_set(mask, j)) by {
        assert((mask >> j) & 1u8 == 0u8);
    }
    assert(bit_is_set(mask, t));
}

/// The row within the group of the pixel that fired: the position of the
/// lowest set bit of the arbiter mask, or zero if no bit is set.
pub fn hit_row(arbiter: u8) -> (row: u8)
    ensures
        row == lowest_set_bit(arbiter),
        row < 8,
{
    if arbiter == 0 {
        assert(forall|b: u8| b < 8 ==> 0u8 & (1u8 << b) == 0) by (bit_vector);
        0
    } else {
        proof {
            lemma_trailing_zeros_is_lowest_set_bit(arbiter);
            vstd::std_specs::bits::axiom_u8_trailing_zeros(arbiter);
        }
        arbiter.trailing_zeros() as u8
    }
}

/// Maps a data word onto the pixel grid: the pixel it reports as hit, and
/// the pixels it marks as affected by pileup.
///
/// The hit pixel lies in column `address / 9`, in row `address % 9` plus
/// nine rows for each place of the lowest set arbiter bit. The pileup list
/// holds the five pixels of the group once for each set bit among the five
/// bits of the pileup mask, so its length is five times their number.
pub fn map_address(word: &DataWord) -> (r: ((u8, u8), Vec<(u8, u8)>))
    ensures
        r.0 == hit_coord(*word),
        r.1@ == pileup_coords(*word),
        r.1@.len() == 5 * count_set_bits(word.address_pileup, 5),
        r.1@.len() % 5 == 0,
        word.address_pileup == 0 ==> r.1@.len() == 0,
{
    let x = word.address / GROUPS_PER_COLUMN;
    let arbiter_nr = word.address % GROUPS_PER_COLUMN;
    let arbiter_val = hit_row(word.address_arbiter);
    let y = arbiter_nr + arbiter_val * GROUPS_PER_COLUMN;
    let pileup = word.address_pileup;
    let mut marked: Vec<(u8, u8)> = Vec::new();
    let mut b: u8 = 0;
    while b < PIXELS_PER_GROUP
        invariant
            b <= PIXELS_PER_GROUP,
            x == column(word.address),
            arbiter_nr == slot(word.address),
            pileup == word.address_pileup,
            marked@ == pileup_upto(*word, b as nat),
        decreases PIXELS_PER_GROUP - b,
    {
        if pileup & (1u8 << b) != 0 {
            let ghost before = marked@;
            let mut k: u8 = 0;
            while k < PIXELS_PER_GROUP
                invariant
                    k <= PIXELS_PER_GROUP,
                    x == column(word.address),
                    arbiter_nr == slot(word.address),
                    marked@ == before + group_pixels(*word).take(k as int),
                decreases PIXELS_PER_GROUP - k,
            {
                marked.push((x, arbiter_nr + k * GROUPS_PER_COLUMN));
                assert(group_pixels(*word).take(k + 1) =~= group_pixels(*word).take(k as int).push(
                    group_pixel(*word, k as int),
                ));
                k += 1;
            }
            assert(group_pixels(*word).take(5) =~= group_pixels(*word));
        }
        b += 1;
    }
    proof {
        lemma_pileup_len(*word, 5);
        if pileup == 0 {
            assert(forall|j: u8| j < 8 ==> 0u8 & (1u8 << j) == 0) by (bit_vector);
            reveal_with_fuel(pileup_upto, 6);
            assert(pileup_upto(*word, 5) =~= Seq::<(u8, u8)>::empty());
        }
    }
    ((x, y), marked)
}

/// Maps the data words of a chunk onto the pixel grid: the hit pixel of
/// each word, in the order of the words, and all the pixels that the words
/// mark as affected by pileup.
pub fn map_words(words: &[DataWord]) -> (r: (Vec<(u8, u8)>, Vec<(u8, u8)>))
    ensures
        r.0@ == hit_coords_of(words@),
        r.1@ == pileup_coords_of(words@),
        r.0@.len() == words@.len(),
        r.1@.len() % 5 == 0,
{
    let mut hits: Vec<(u8, u8)> = Vec::new();
    let mut marked: Vec<(u8, u8)> = Vec::new();
    let mut i: usize = 0;
    assert(words@.take(0) =~= Seq::<DataWord>::empty());
    while i < words.len()
        invariant
            i <= words@.len(),
            hits@ == hit_coords_of(words@.take(i as int)),
            marked@ == pileup_coords_of(words@.take(i as int)),
        decreases words@.len() - i,
    {
        let (hit, mut pileup) = map_address(&words[i]);
        proof {
            assert(words@.take(i + 1).drop_last() =~= words@.take(i as int));
            assert(words@.take(i + 1).last() == words@[i as int]);
            assert(hit_coords_of(words@.take(i + 1)) =~= hit_coords_of(words@.take(i as int)).push(
                hit,
            ));
        }
        hits.push(hit);
        marked.append(&mut pileup);
        i += 1;
    }
    proof {
        assert(words@.take(i as int) =~= words@);
        lemma_pileup_of_len(words@);
    }
    (hits, marked)
}

} // verus!
