//! Hexadecimal tokens: the digits, the number a run of digits denotes, and
//! the reading of a token as a `u64`.

use vstd::prelude::*;

verus! {

/// The value of one hexadecimal digit, in either case; `None` for every
/// other character.
pub open spec fn hex_digit_value(c: char) -> Option<u8> {
    if '0' <= c <= '9' {
        Some((c as u32 - '0' as u32) as u8)
    } else if 'a' <= c <= 'f' {
        Some((c as u32 - 'a' as u32 + 10) as u8)
    } else if 'A' <= c <= 'F' {
        Some((c as u32 - 'A' as u32 + 10) as u8)
    } else {
        None
    }
}

/// Whether every character of `s` is a hexadecimal digit.
pub open spec fn all_hex_digits(s: Seq<char>) -> bool {
    forall|i: int| 0 <= i < s.len() ==> (#[trigger] hex_digit_value(s[i])) is Some
}

/// The number that the digits of `s` denote, most significant digit first.
/// A character that is no digit counts as zero; `hex_u64` never looks at
/// such a string.
pub open spec fn hex_number(s: Seq<char>) -> nat
    decreases s.len(),
{
    if s.len() == 0 {
        0
    } else {
        let d: nat = match hex_digit_value(s.last()) {
            Some(v) => v as nat,
            None => 0,
        };
        16 * hex_number(s.drop_last()) + d
    }
}

/// The reading of a token: its number, if the token is a non-empty run of
/// hexadecimal digits whose number fits in 64 bits.
pub open spec fn hex_u64(s: Seq<char>) -> Option<u64> {
    if s.len() > 0 && all_hex_digits(s) && hex_number(s) <= u64::MAX {
        Some(hex_number(s) as u64)
    } else {
        None
    }
}

/// Reads one hexadecimal digit.
pub fn hex_digit(c: char) -> (r: Option<u8>)
    ensures
        r == hex_digit_value(c),
{
    if '0' <= c && c <= '9' {
        Some((c as u32 - '0' as u32) as u8)
    } else if 'a' <= c && c <= 'f' {
        Some((c as u32 - 'a' as u32 + 10) as u8)
    } else if 'A' <= c && c <= 'F' {
        Some((c as u32 - 'A' as u32 + 10) as u8)
    } else {
        None
    }
}

/// The number of a prefix is no larger than the number of the whole string.
pub proof fn lemma_hex_number_prefix(s: Seq<char>, n: int)
    requires
        0 <= n <= s.len(),
    ensures
        hex_number(s.take(n)) <= hex_number(s),
    decreases s.len(),
{
    if n == s.len() {
        assert(s.take(n) =~= s);
    } else {
        assert(s.drop_last().take(n) =~= s.take(n));
        lemma_hex_number_prefix(s.drop_last(), n);
    }
}

/// Reads a token as a hexadecimal `u64`.
///
/// The token must be made of hexadecimal digits alone, at least one of them,
/// and its number must fit in 64 bits; leading zeros are allowed. No sign
/// and no prefix is accepted.
pub fn parse_hex_u64(token: &[char]) -> (r: Option<u64>)
    ensures
        r == hex_u64(token@),
{
    let n = token.len();
    if n == 0 {
        return None;
    }
    let mut acc: u64 = 0;
    let mut i: usize = 0;
    while i < n
        invariant
            i <= n,
            n == token@.len(),
            all_hex_digits(token@.take(i as int)),
            acc == hex_number(token@.take(i as int)),
        decreases n - i,
    {
        let ghost before = token@.take(i as int);
        let ghost after = token@.take(i + 1);
        proof {
            assert(after.drop_last() =~= before);
            assert(after.last() == token@[i as int]);
        }
        match hex_digit(token[i]) {
            None => {
                assert(hex_digit_value(token@[i as int]) is None);
                return None;
            },
            Some(d) => {
                if acc > (u64::MAX - d as u64) / 16 {
                    proof {
                        lemma_hex_number_prefix(token@, i + 1);
                    }
                    return None;
                }
                acc = acc * 16 + d as u64;
                assert forall|j: int| 0 <= j < after.len() implies (#[trigger] hex_digit_value(
                    after[j],
                )) is Some by {
                    if j < i {
                        assert(after[j] == before[j]);
                    }
                }
            },
        }
        i += 1;
    }
    assert(token@.take(n as int) =~= token@);
    Some(acc)
}

} // verus!
