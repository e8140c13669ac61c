//! The text of a readout file: its characters, its lines, and the tokens of
//! a line.
//!
//! Everything here is stated over `Seq<char>`, the view of a `&str`. A line
//! ends at a line feed; the last line needs none. A token is a maximal run of
//! characters that are not whitespace, so a carriage return before the line
//! feed is whitespace like any other and never part of a token.

use vstd::prelude::*;

verus! {

/// Whether `c` is whitespace: a character with the Unicode property
/// `White_Space`, the characters that `char::is_whitespace` accepts.
pub open spec fn is_whitespace(c: char) -> bool {
    let n = c as u32;
    ||| 0x09 <= n <= 0x0D
    ||| n == 0x20
    ||| n == 0x85
    ||| n == 0xA0
    ||| n == 0x1680
    ||| 0x2000 <= n <= 0x200A
    ||| n == 0x2028
    ||| n == 0x2029
    ||| n == 0x202F
    ||| n == 0x205F
    ||| n == 0x3000
}

/// The number of characters before the first line feed of `s`, or the
/// length of `s` if it holds none.
pub open spec fn line_len(s: Seq<char>) -> nat
    decreases s.len(),
{
    if s.len() > 0 && s[0] != '\n' {
        1 + line_len(s.drop_first())
    } else {
        0
    }
}

/// The lines of a text, in order, without their line feeds. A text that
/// ends in a line feed has the same lines as the text without it; the empty
/// text has no line.
pub open spec fn lines(s: Seq<char>) -> Seq<Seq<char>>
    decreases s.len(),
{
    if s.len() == 0 {
        Seq::empty()
    } else {
        let n = line_len(s);
        if n >= s.len() {
            seq![s]
        } else {
            seq![s.take(n as int)] + lines(s.skip(n as int + 1))
        }
    }
}

/// The number of characters before the first whitespace of `s`, or the
/// length of `s` if it holds none.
pub open spec fn token_len(s: Seq<char>) -> nat
    decreases s.len(),
{
    if s.len() > 0 && !is_whitespace(s[0]) {
        1 + token_len(s.drop_first())
    } else {
        0
    }
}

/// The tokens of a line, left to right: its maximal runs of characters that
/// are not whitespace.
pub open spec fn tokens(s: Seq<char>) -> Seq<Seq<char>>
    decreases s.len(),
{
    if s.len() == 0 {
        Seq::empty()
    } else if is_whitespace(s[0]) {
        tokens(s.drop_first())
    } else {
        let n = token_len(s);
        if n >= s.len() {
            seq![s]
        } else {
            seq![s.take(n as int)] + tokens(s.skip(n as int))
        }
    }
}

/// Whether every pair of `bounds` is a range within a text of `len`
/// characters.
pub open spec fn bounds_within(bounds: Seq<(usize, usize)>, len: nat) -> bool {
    forall|i: int|
        0 <= i < bounds.len() ==> (#[trigger] bounds[i]).0 <= bounds[i].1 && bounds[i].1 <= len
}

/// The pieces of `s` that `bounds` cuts out, in the order of `bounds`.
pub open spec fn pieces(s: Seq<char>, bounds: Seq<(usize, usize)>) -> Seq<Seq<char>> {
    Seq::new(bounds.len(), |i: int| s.subrange(bounds[i].0 as int, bounds[i].1 as int))
}

/// Whether the ranges of `bounds` follow one another with exactly one
/// character between them, the first starting at the start of the text.
pub open spec fn one_apart(bounds: Seq<(usize, usize)>) -> bool {
    &&& bounds.len() > 0 ==> bounds[0].0 == 0
    &&& forall|i: int|
        0 < i < bounds.len() ==> (#[trigger] bounds[i]).0 == bounds[i - 1].1 + 1
}

/// Whether the ranges of `bounds` are not empty and lie in rising order
/// without touching, and every character of `s` outside of them is
/// whitespace.
pub open spec fn apart_by_whitespace(s: Seq<char>, bounds: Seq<(usize, usize)>) -> bool {
    &&& forall|i: int| 0 <= i < bounds.len() ==> (#[trigger] bounds[i]).0 < bounds[i].1
    &&& forall|i: int| 0 < i < bounds.len() ==> bounds[i - 1].1 < (#[trigger] bounds[i]).0
    &&& forall|p: int|
        0 <= p < s.len() ==> is_whitespace(#[trigger] s[p]) || exists|i: int|
            0 <= i < bounds.len() && (#[trigger] bounds[i]).0 <= p < bounds[i].1
}

/// Tests a character for whitespace.
pub fn char_is_whitespace(c: char) -> (r: bool)
    ensures
        r == is_whitespace(c),
{
    let n = c as u32;
    (0x09 <= n && n <= 0x0D) || n == 0x20 || n == 0x85 || n == 0xA0 || n == 0x1680 || (0x2000 <= n
        && n <= 0x200A) || n == 0x2028 || n == 0x2029 || n == 0x202F || n == 0x205F || n == 0x3000
}

/// The characters of a string, in order.
pub fn chars_of(s: &str) -> (v: Vec<char>)
    ensures
        v@ == s@,
{
    broadcast use vstd::string::axiom_spec_iter;

    let mut v: Vec<char> = Vec::new();
    for c in it: s.chars()
        invariant
            it.seq() == s@,
            v@ == it.seq().take(it.index()),
    {
        v.push(c);
    }
    assert(v@ =~= s@);
    v
}

/// A token stops at the end of the text or before whitespace, and no
/// sooner.
pub proof fn lemma_token_len_stops(s: Seq<char>)
    ensures
        token_len(s) <= s.len(),
        token_len(s) < s.len() ==> is_whitespace(s[token_len(s) as int]),
        forall|p: int| 0 <= p < token_len(s) ==> !is_whitespace(#[trigger] s[p]),
    decreases s.len(),
{
    if s.len() > 0 && !is_whitespace(s[0]) {
        let rest = s.drop_first();
        lemma_token_len_stops(rest);
        assert forall|p: int| 0 <= p < token_len(s) implies !is_whitespace(#[trigger] s[p]) by {
            if p > 0 {
                assert(s[p] == rest[p - 1]);
            }
        }
    }
}

/// Where the line that starts at `from` ends: at its line feed, or at the
/// end of the text.
pub fn line_end(text: &[char], from: usize) -> (end: usize)
    requires
        from <= text@.len(),
    ensures
        end == from + line_len(text@.skip(from as int)),
        end <= text@.len(),
{
    let n = text.len();
    let mut i = from;
    while i < n && text[i] != '\n'
        invariant
            from <= i <= n,
            n == text@.len(),
            line_len(text@.skip(from as int)) == (i - from) + line_len(text@.skip(i as int)),
        decreases n - i,
    {
        assert(text@.skip(i as int).drop_first() =~= text@.skip(i + 1));
        i += 1;
    }
    i
}

/// Where the token that starts at `from` ends: at the next whitespace, or
/// at the end of the text.
pub fn token_end(text: &[char], from: usize) -> (end: usize)
    requires
        from <= text@.len(),
    ensures
        end == from + token_len(text@.skip(from as int)),
        end <= text@.len(),
{
    let n = text.len();
    let mut i = from;
    while i < n && !char_is_whitespace(text[i])
        invariant
            from <= i <= n,
            n == text@.len(),
            token_len(text@.skip(from as int)) == (i - from) + token_len(text@.skip(i as int)),
        decreases n - i,
    {
        assert(text@.skip(i as int).drop_first() =~= text@.skip(i + 1));
        i += 1;
    }
    i
}

/// Cuts a text into its lines. Each pair holds where a line starts and
/// where it ends, line feed excluded.
pub fn split_lines(text: &[char]) -> (bounds: Vec<(usize, usize)>)
    ensures
        bounds_within(bounds@, text@.len()),
        pieces(text@, bounds@) == lines(text@),
        one_apart(bounds@),
{
    let n = text.len();
    let mut bounds: Vec<(usize, usize)> = Vec::new();
    let mut pos: usize = 0;
    assert(text@.skip(0) =~= text@);
    while pos < n
        invariant
            pos <= n,
            n == text@.len(),
            bounds_within(bounds@, text@.len()),
            lines(text@) == pieces(text@, bounds@) + lines(text@.skip(pos as int)),
            one_apart(bounds@),
            bounds@.len() == 0 ==> pos == 0,
            bounds@.len() > 0 ==> pos == n || pos == bounds@.last().1 + 1,
        decreases n - pos,
    {
        let end = line_end(text, pos);
        let ghost rest = text@.skip(pos as int);
        let ghost before = bounds@;
        bounds.push((pos, end));
        proof {
            assert(rest.take(end - pos) =~= text@.subrange(pos as int, end as int));
            assert(pieces(text@, bounds@) =~= pieces(text@, before) + seq![
                text@.subrange(pos as int, end as int),
            ]);
            if end < n {
                assert(rest.skip(end - pos + 1) =~= text@.skip(end + 1));
            } else {
                assert(rest =~= text@.subrange(pos as int, end as int));
                assert(lines(text@.skip(n as int)) =~= Seq::<Seq<char>>::empty());
            }
        }
        pos = if end < n {
            end + 1
        } else {
            n
        };
    }
    bounds
}

/// Cuts a line into its tokens. Each pair holds where a token starts and
/// where it ends.
pub fn split_tokens(line: &[char]) -> (bounds: Vec<(usize, usize)>)
    ensures
        bounds_within(bounds@, line@.len()),
        pieces(line@, bounds@) == tokens(line@),
        apart_by_whitespace(line@, bounds@),
{
    let n = line.len();
    let mut bounds: Vec<(usize, usize)> = Vec::new();
    let mut pos: usize = 0;
    assert(line@.skip(0) =~= line@);
    while pos < n
        invariant
            pos <= n,
            n == line@.len(),
            bounds_within(bounds@, line@.len()),
            tokens(line@) == pieces(line@, bounds@) + tokens(line@.skip(pos as int)),
            apart_by_whitespace(line@.take(pos as int), bounds@),
            bounds@.len() > 0 ==> bounds@.last().1 <= pos,
            bounds@.len() > 0 && bounds@.last().1 == pos && pos < n ==> is_whitespace(
                line@[pos as int],
            ),
        decreases n - pos,
    {
        let ghost rest = line@.skip(pos as int);
        let ghost old_bounds = bounds@;
        let ghost old_pos = pos;
        if char_is_whitespace(line[pos]) {
            assert(rest.drop_first() =~= line@.skip(pos + 1));
            pos += 1;
            proof {
                let seen = line@.take(pos as int);
                assert forall|p: int| 0 <= p < seen.len() implies is_whitespace(#[trigger] seen[p])
                    || exists|i: int|
                    0 <= i < bounds@.len() && (#[trigger] bounds@[i]).0 <= p < bounds@[i].1 by {
                    if p < old_pos {
                        assert(line@.take(old_pos as int)[p] == seen[p]);
                    }
                }
            }
        } else {
            let end = token_end(line, pos);
            bounds.push((pos, end));
            proof {
                assert(rest.take(end - pos) =~= line@.subrange(pos as int, end as int));
                assert(pieces(line@, bounds@) =~= pieces(line@, old_bounds) + seq![
                    line@.subrange(pos as int, end as int),
                ]);
                if end < n {
                    assert(rest.skip(end - pos) =~= line@.skip(end as int));
                } else {
                    assert(rest =~= line@.subrange(pos as int, end as int));
                    assert(tokens(line@.skip(n as int)) =~= Seq::<Seq<char>>::empty());
                }
                lemma_token_len_stops(rest);
                if end < n {
                    assert(rest[end - pos] == line@[end as int]);
                }
                let seen = line@.take(end as int);
                let last = bounds@.len() - 1;
                assert(bounds@[last] == (pos, end));
                assert forall|i: int| 0 < i < bounds@.len() implies bounds@[i - 1].1 < (
                #[trigger] bounds@[i]).0 by {
                    if i < last {
                        assert(bounds@[i] == old_bounds[i]);
                        assert(bounds@[i - 1] == old_bounds[i - 1]);
                    } else {
                        assert(bounds@[i - 1] == old_bounds.last());
                    }
                }
                assert forall|p: int| 0 <= p < seen.len() implies is_whitespace(#[trigger] seen[p])
                    || exists|i: int|
                    0 <= i < bounds@.len() && (#[trigger] bounds@[i]).0 <= p < bounds@[i].1 by {
                    if p < old_pos {
                        assert(line@.take(old_pos as int)[p] == seen[p]);
                        if !is_whitespace(seen[p]) {
                            let i = choose|i: int|
                                0 <= i < old_bounds.len() && (#[trigger] old_bounds[i]).0 <= p
                                    < old_bounds[i].1;
                            assert(bounds@[i] == old_bounds[i]);
                        }
                    } else {
                        assert(bounds@[last].0 <= p < bounds@[last].1);
                    }
                }
            }
            pos = end;
        }
    }
    assert(line@.take(n as int) =~= line@);
    bounds
}

} // verus!
