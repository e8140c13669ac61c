//! Chunk indices as a user types them: decimal numbers.

use vstd::prelude::*;
use crate::text::chars_of;

verus! {

/// The value of one decimal digit; `None` for every other character.
pub open spec fn decimal_digit_value(c: char) -> Option<u8> {
    if '0' <= c <= '9' {
        Some((c as u32 - '0' as u32) as u8)
    } else {
        None
    }
}

/// Whether every character of `s` is a decimal digit.
pub open spec fn all_decimal_digits(s: Seq<char>) -> bool {
    forall|i: int| 0 <= i < s.len() ==> (#[trigger] decimal_digit_value(s[i])) is Some
}

/// The number that the digits of `s` denote, most significant digit first.
/// A character that is no digit counts as zero; `decimal_usize` never looks
/// at such a string.
pub open spec fn decimal_number(s: Seq<char>) -> nat
    decreases s.len(),
{
    if s.len() == 0 {
        0
    } else {
        let d: nat = match decimal_digit_value(s.last()) {
            Some(v) => v as nat,
            None => 0,
        };
        10 * decimal_number(s.drop_last()) + d
    }
}

/// What is left of `s` once a plus sign in front is taken off.
pub open spec fn without_plus(s: Seq<char>) -> Seq<char> {
    if s.len() > 0 && s[0] == '+' {
        s.drop_first()
    } else {
        s
    }
}

/// The index that `s` denotes, as `str::parse::<usize>` reads it: an
/// optional plus sign, then decimal digits, at least one, whose number fits
/// in a `usize`.
pub open spec fn decimal_usize(s: Seq<char>) -> Option<usize> {
    let digits = without_plus(s);
    if digits.len() > 0 && all_decimal_digits(digits) && decimal_number(digits) <= usize::MAX {
        Some(decimal_number(digits) as usize)
    } else {
        None
    }
}

/// The number of a prefix is no larger than the number of the whole string.
pub proof fn lemma_decimal_number_prefix(s: Seq<char>, n: int)
    requires
        0 <= n <= s.len(),
    ensures
        decimal_number(s.take(n)) <= decimal_number(s),
    decreases s.len(),
{
    if n == s.len() {
        assert(s.take(n) =~= s);
    } else {
        assert(s.drop_last().take(n) =~= s.take(n));
        lemma_decimal_number_prefix(s.drop_last(), n);
    }
}

/// Reads a chunk index from the text of an input field. Text that is no
/// index gives `None`.
pub fn parse_index(text: &str) -> (r: Option<usize>)
    ensures
        r == decimal_usize(text@),
{
    let chars = chars_of(text);
    let n = chars.len();
    let start: usize = if n > 0 && chars[0] == '+' {
        1
    } else {
        0
    };
    let ghost digits = without_plus(chars@);
    assert(digits =~= chars@.skip(start as int));
    if start == n {
        return None;
    }
    let mut acc: usize = 0;
    let mut i: usize = start;
    assert(digits.take(0) =~= Seq::<char>::empty());
    while i < n
        invariant
            start <= i <= n,
            n == chars@.len(),
            chars@ == text@,
            digits == without_plus(text@),
            digits == chars@.skip(start as int),
            all_decimal_digits(digits.take(i - start)),
            acc == decimal_number(digits.take(i - start)),
        decreases n - i,
    {
        let ghost before = digits.take(i - start);
        let ghost after = digits.take(i - start + 1);
        proof {
            assert(after.drop_last() =~= before);
            assert(after.last() == chars@[i as int]);
        }
        let c = chars[i];
        if !('0' <= c && c <= '9') {
            assert(decimal_digit_value(digits[i - start]) is None);
            return None;
        }
        let d = (c as u32 - '0' as u32) as usize;
        if acc > (usize::MAX - d) / 10 {
            proof {
                lemma_decimal_number_prefix(digits, i - start + 1);
            }
            return None;
        }
        acc = acc * 10 + d;
        assert forall|j: int| 0 <= j < after.len() implies (#[trigger] decimal_digit_value(
            after[j],
        )) is Some by {
            if j < i - start {
                assert(after[j] == before[j]);
            }
        }
        i += 1;
    }
    assert(digits.take(n - start) =~= digits);
    Some(acc)
}

} // verus!
