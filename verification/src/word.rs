//! The two kinds of readout word and their bit layouts.
//!
//! A word is 48 bits wide and arrives in a `u64`. Decoding cuts the value
//! into fields at fixed positions and checks nothing else: whether the
//! fields make sense for the detector is for the code that uses them.

use vstd::prelude::*;
use crate::error::ParseError;
use crate::hex::{hex_u64, parse_hex_u64};
use crate::text::chars_of;

verus! {

/// The bits of a data word that carry a field: all of the low 48.
pub const DATA_WORD_BITS: u64 = 0xFFFF_FFFF_FFFF;

/// The bits of a frame word that decoding reads: bits 42 to 37 and bits 35
/// to 0. Bit 36, the top bit of the hit counter, is not among them.
pub const FRAME_WORD_BITS: u64 = 0x7EF_FFFF_FFFF;

/// The word that ends a line: the counters of one acquisition frame.
///
/// | bits     | field                   |
/// |----------|-------------------------|
/// | 42 to 37 | `qchip_collision_count` |
/// | 36 to 28 | `hit_counter`           |
/// | 27 to 0  | `frame_counter`         |
///
/// The hit counter is nine bits wide in the word, but decoding keeps its low
/// eight bits only and drops bit 36.
#[derive(Clone, Copy, Debug, PartialEq, Eq, Structural)]
pub struct FrameWord {
    pub raw: u64,
    pub qchip_collision_count: u8,
    pub hit_counter: u16,
    pub frame_counter: u32,
}

/// One pixel hit.
///
/// | bits     | field                           |
/// |----------|---------------------------------|
/// | 47       | `data_selector`                 |
/// | 46 to 40 | `address`                       |
/// | 39 to 35 | `address_arbiter`               |
/// | 34 to 30 | `address_pileup`                |
/// | 29       | `leading_coarse_time_selector`  |
/// | 28 to 17 | `leading_coarse_time`           |
/// | 16 to 12 | `leading_fine_time`             |
/// | 11       | `trailing_coarse_time_selector` |
/// | 10 to 5  | `trailing_coarse_time`          |
/// | 4 to 0   | `trailing_fine_time`            |
///
/// The two selector bits mark a rollover of the coarse counter. They are
/// decoded and kept, and nothing in this crate consults them.
#[derive(Clone, Copy, Debug, PartialEq, Eq, Structural)]
pub struct DataWord {
    pub raw: u64,
    pub data_selector: u8,
    pub address: u8,
    pub address_arbiter: u8,
    pub address_pileup: u8,
    pub leading_coarse_time_selector: u8,
    pub leading_coarse_time: u16,
    pub leading_fine_time: u8,
    pub trailing_coarse_time_selector: u8,
    pub trailing_coarse_time: u8,
    pub trailing_fine_time: u8,
}

/// A decoded word of either kind.
#[derive(Clone, Copy, Debug, PartialEq, Eq, Structural)]
pub enum TDCpixWord {
    FrameWord(FrameWord),
    DataWord(DataWord),
}

/// The value of a token: the number it denotes, or `MalformedWord` where it
/// is not a hexadecimal number of at most 64 bits.
pub open spec fn word_value(token: Seq<char>) -> Result<u64, ParseError> {
    match hex_u64(token) {
        Some(raw) => Ok(raw),
        None => Err(ParseError::MalformedWord),
    }
}

/// Reads the value of a token.
pub fn read_word_value(token: &[char]) -> (r: Result<u64, ParseError>)
    ensures
        r == word_value(token@),
{
    match parse_hex_u64(token) {
        Some(raw) => Ok(raw),
        None => Err(ParseError::MalformedWord),
    }
}

impl FrameWord {
    /// The frame word that `raw` decodes to.
    pub open spec fn spec_decode(raw: u64) -> FrameWord {
        FrameWord {
            raw,
            qchip_collision_count: ((raw >> 37) & 0x3F) as u8,
            hit_counter: ((raw >> 28) & 0xFF) as u16,
            frame_counter: (raw & 0xFFF_FFFF) as u32,
        }
    }

    /// Whether the fields are those that `raw` decodes to.
    pub open spec fn is_decoded(self) -> bool {
        self == Self::spec_decode(self.raw)
    }

    /// Whether each field is within the width that decoding gives it.
    pub open spec fn in_range(self) -> bool {
        &&& self.qchip_collision_count < 0x40
        &&& self.hit_counter < 0x100
        &&& self.frame_counter < 0x1000_0000
    }

    /// The fields put back at their bit positions and joined.
    pub open spec fn packed(self) -> u64 {
        ((self.qchip_collision_count as u64) << 37) | ((self.hit_counter as u64) << 28) | (
        self.frame_counter as u64)
    }

    /// Decodes a frame word from its value.
    pub fn decode(raw: u64) -> (word: FrameWord)
        ensures
            word == Self::spec_decode(raw),
            word.in_range(),
            word.packed() == raw & FRAME_WORD_BITS,
    {
        proof {
            lemma_frame_word_fields(raw);
        }
        FrameWord {
            raw,
            qchip_collision_count: ((raw >> 37) & 0x3F) as u8,
            hit_counter: ((raw >> 28) & 0xFF) as u16,
            frame_counter: (raw & 0xFFF_FFFF) as u32,
        }
    }

    /// Decodes a frame word from a hexadecimal token.
    pub fn from_hex(token: &str) -> (r: Result<FrameWord, ParseError>)
        ensures
            r == match word_value(token@) {
                Ok(raw) => Ok(Self::spec_decode(raw)),
                Err(e) => Err(e),
            },
            r matches Ok(word) ==> word.in_range(),
    {
        let chars = chars_of(token);
        match read_word_value(chars.as_slice()) {
            Ok(raw) => Ok(Self::decode(raw)),
            Err(e) => Err(e),
        }
    }

    /// Puts the fields back at their bit positions.
    pub fn encode(&self) -> (bits: u64)
        ensures
            bits == self.packed(),
    {
        ((self.qchip_collision_count as u64) << 37) | ((self.hit_counter as u64) << 28) | (
        self.frame_counter as u64)
    }
}

impl DataWord {
    /// The data word that `raw` decodes to.
    pub open spec fn spec_decode(raw: u64) -> DataWord {
        DataWord {
            raw,
            data_selector: ((raw >> 47) & 0x1) as u8,
            address: ((raw >> 40) & 0x7F) as u8,
            address_arbiter: ((raw >> 35) & 0x1F) as u8,
            address_pileup: ((raw >> 30) & 0x1F) as u8,
            leading_coarse_time_selector: ((raw >> 29) & 0x1) as u8,
            leading_coarse_time: ((raw >> 17) & 0xFFF) as u16,
            leading_fine_time: ((raw >> 12) & 0x1F) as u8,
            trailing_coarse_time_selector: ((raw >> 11) & 0x1) as u8,
            trailing_coarse_time: ((raw >> 5) & 0x3F) as u8,
            trailing_fine_time: (raw & 0x1F) as u8,
        }
    }

    /// Whether the fields are those that `raw` decodes to.
    pub open spec fn is_decoded(self) -> bool {
        self == Self::spec_decode(self.raw)
    }

    /// Whether each field is within the width that the layout gives it.
    pub open spec fn in_range(self) -> bool {
        &&& self.data_selector < 0x2
        &&& self.address < 0x80
        &&& self.address_arbiter < 0x20
        &&& self.address_pileup < 0x20
        &&& self.leading_coarse_time_selector < 0x2
        &&& self.leading_coarse_time < 0x1000
        &&& self.leading_fine_time < 0x20
        &&& self.trailing_coarse_time_selector < 0x2
        &&& self.trailing_coarse_time < 0x40
        &&& self.trailing_fine_time < 0x20
    }

    /// The fields put back at their bit positions and joined.
    pub open spec fn packed(self) -> u64 {
        ((self.data_selector as u64) << 47) | ((self.address as u64) << 40) | ((
        self.address_arbiter as u64) << 35) | ((self.address_pileup as u64) << 30) | ((
        self.leading_coarse_time_selector as u64) << 29) | ((self.leading_coarse_time as u64)
            << 17) | ((self.leading_fine_time as u64) << 12) | ((
        self.trailing_coarse_time_selector as u64) << 11) | ((self.trailing_coarse_time as u64)
            << 5) | (self.trailing_fine_time as u64)
    }

    /// Decodes a data word from its value.
    pub fn decode(raw: u64) -> (word: DataWord)
        ensures
            word == Self::spec_decode(raw),
            word.in_range(),
            word.packed() == raw & DATA_WORD_BITS,
    {
        proof {
            lemma_data_word_fields(raw);
        }
        DataWord {
            raw,
            data_selector: ((raw >> 47) & 0x1) as u8,
            address: ((raw >> 40) & 0x7F) as u8,
            address_arbiter: ((raw >> 35) & 0x1F) as u8,
            address_pileup: ((raw >> 30) & 0x1F) as u8,
            leading_coarse_time_selector: ((raw >> 29) & 0x1) as u8,
            leading_coarse_time: ((raw >> 17) & 0xFFF) as u16,
            leading_fine_time: ((raw >> 12) & 0x1F) as u8,
            trailing_coarse_time_selector: ((raw >> 11) & 0x1) as u8,
            trailing_coarse_time: ((raw >> 5) & 0x3F) as u8,
            trailing_fine_time: (raw & 0x1F) as u8,
        }
    }

    /// Decodes a data word from a hexadecimal token.
    pub fn from_hex(token: &str) -> (r: Result<DataWord, ParseError>)
        ensures
            r == match word_value(token@) {
                Ok(raw) => Ok(Self::spec_decode(raw)),
                Err(e) => Err(e),
            },
            r matches Ok(word) ==> word.in_range(),
    {
        let chars = chars_of(token);
        match read_word_value(chars.as_slice()) {
            Ok(raw) => Ok(Self::decode(raw)),
            Err(e) => Err(e),
        }
    }

    /// Puts the fields back at their bit positions.
    pub fn encode(&self) -> (bits: u64)
        ensures
            bits == self.packed(),
    {
        ((self.data_selector as u64) << 47) | ((self.address as u64) << 40) | ((
        self.address_arbiter as u64) << 35) | ((self.address_pileup as u64) << 30) | ((
        self.leading_coarse_time_selector as u64) << 29) | ((self.leading_coarse_time as u64)
            << 17) | ((self.leading_fine_time as u64) << 12) | ((
        self.trailing_coarse_time_selector as u64) << 11) | ((self.trailing_coarse_time as u64)
            << 5) | (self.trailing_fine_time as u64)
    }
}

impl TDCpixWord {
    /// The value that the word was decoded from.
    pub open spec fn spec_raw(self) -> u64 {
        match self {
            TDCpixWord::FrameWord(word) => word.raw,
            TDCpixWord::DataWord(word) => word.raw,
        }
    }

    /// The fields put back at their bit positions and joined.
    pub open spec fn packed(self) -> u64 {
        match self {
            TDCpixWord::FrameWord(word) => word.packed(),
            TDCpixWord::DataWord(word) => word.packed(),
        }
    }

    /// The value that the word was decoded from.
    pub fn raw(&self) -> (raw: u64)
        ensures
            raw == self.spec_raw(),
    {
        match self {
            TDCpixWord::FrameWord(word) => word.raw,
            TDCpixWord::DataWord(word) => word.raw,
        }
    }

    /// Puts the fields back at their bit positions.
    pub fn encode(&self) -> (bits: u64)
        ensures
            bits == self.packed(),
    {
        match self {
            TDCpixWord::FrameWord(word) => word.encode(),
            TDCpixWord::DataWord(word) => word.encode(),
        }
    }
}

/// Decoding a frame word keeps each field within its width, and the fields
/// put back together are the bits of the value that decoding reads.
pub proof fn lemma_frame_word_fields(raw: u64)
    ensures
        FrameWord::spec_decode(raw).in_range(),
        FrameWord::spec_decode(raw).packed() == raw & FRAME_WORD_BITS,
        raw & FRAME_WORD_BITS == raw ==> FrameWord::spec_decode(raw).packed() == raw,
{
    let q = (raw >> 37) & 0x3F;
    let h = (raw >> 28) & 0xFF;
    let f = raw & 0xFFF_FFFF;
    assert(q < 0x40 && h < 0x100 && f < 0x1000_0000) by (bit_vector)
        requires
            q == (raw >> 37) & 0x3F,
            h == (raw >> 28) & 0xFF,
            f == raw & 0xFFF_FFFF,
    ;
    assert((q << 37) | (h << 28) | f == raw & 0x7EF_FFFF_FFFF) by (bit_vector)
        requires
            q == (raw >> 37) & 0x3F,
            h == (raw >> 28) & 0xFF,
            f == raw & 0xFFF_FFFF,
    ;
    assert((q as u8) as u64 == q);
    assert((h as u16) as u64 == h);
    assert((f as u32) as u64 == f);
}

/// Decoding a data word keeps each field within its width, and the fields
/// put back together are the low 48 bits of the value: a value of at most 48
/// bits comes back whole.
pub proof fn lemma_data_word_fields(raw: u64)
    ensures
        DataWord::spec_decode(raw).in_range(),
        DataWord::spec_decode(raw).packed() == raw & DATA_WORD_BITS,
        raw <= DATA_WORD_BITS ==> DataWord::spec_decode(raw).packed() == raw,
{
    let ds = (raw >> 47) & 0x1;
    let ad = (raw >> 40) & 0x7F;
    let ar = (raw >> 35) & 0x1F;
    let pu = (raw >> 30) & 0x1F;
    let ls = (raw >> 29) & 0x1;
    let lc = (raw >> 17) & 0xFFF;
    let lf = (raw >> 12) & 0x1F;
    let ts = (raw >> 11) & 0x1;
    let tc = (raw >> 5) & 0x3F;
    let tf = raw & 0x1F;
    assert(ds < 0x2 && ad < 0x80 && ar < 0x20 && pu < 0x20 && ls < 0x2 && lc < 0x1000 && lf < 0x20
        && ts < 0x2 && tc < 0x40 && tf < 0x20) by (bit_vector)
        requires
            ds == (raw >> 47) & 0x1,
            ad == (raw >> 40) & 0x7F,
            ar == (raw >> 35) & 0x1F,
            pu == (raw >> 30) & 0x1F,
            ls == (raw >> 29) & 0x1,
            lc == (raw >> 17) & 0xFFF,
            lf == (raw >> 12) & 0x1F,
            ts == (raw >> 11) & 0x1,
            tc == (raw >> 5) & 0x3F,
            tf == raw & 0x1F,
    ;
    assert((ds << 47) | (ad << 40) | (ar << 35) | (pu << 30) | (ls << 29) | (lc << 17) | (lf << 12)
        | (ts << 11) | (tc << 5) | tf == raw & 0xFFFF_FFFF_FFFF) by (bit_vector)
        requires
            ds == (raw >> 47) & 0x1,
            ad == (raw >> 40) & 0x7F,
            ar == (raw >> 35) & 0x1F,
            pu == (raw >> 30) & 0x1F,
            ls == (raw >> 29) & 0x1,
            lc == (raw >> 17) & 0xFFF,
            lf == (raw >> 12) & 0x1F,
            ts == (raw >> 11) & 0x1,
            tc == (raw >> 5) & 0x3F,
            tf == raw & 0x1F,
    ;
    assert(raw <= 0xFFFF_FFFF_FFFF ==> raw & 0xFFFF_FFFF_FFFF == raw) by (bit_vector);
    assert((ds as u8) as u64 == ds);
    assert((ad as u8) as u64 == ad);
    assert((ar as u8) as u64 == ar);
    assert((pu as u8) as u64 == pu);
    assert((ls as u8) as u64 == ls);
    assert((lc as u16) as u64 == lc);
    assert((lf as u8) as u64 == lf);
    assert((ts as u8) as u64 == ts);
    assert((tc as u8) as u64 == tc);
    assert((tf as u8) as u64 == tf);
}

} // verus!
