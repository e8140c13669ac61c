//! Chunks: the words of one line, and the reading of a whole readout.
//!
//! Each line of a readout is one chunk. Its last token is the frame word,
//! the tokens before it are the data words, left to right. A line without a
//! token has no frame word and is an error, and so is a token that is no
//! hexadecimal number. A readout is read whole or not at all: the first line
//! that fails gives the error, and no chunk of the lines before it is
//! handed out.

use vstd::prelude::*;
use vstd::slice::slice_subrange;
use crate::error::ParseError;
use crate::hex::hex_u64;
use crate::text::{chars_of, lines, pieces, split_lines, split_tokens, tokens};
use crate::word::{read_word_value, DataWord, FrameWord};

verus! {

/// The words of one acquisition frame: its data words in the order of the
/// line, and the frame word that ended the line.
#[derive(Clone, Debug)]
pub struct Chunk {
    pub data_words: Vec<DataWord>,
    pub frame_word: FrameWord,
}

/// What a chunk holds, as a mathematical value.
pub struct ChunkView {
    pub data_words: Seq<DataWord>,
    pub frame_word: FrameWord,
}

impl View for Chunk {
    type V = ChunkView;

    open spec fn view(&self) -> ChunkView {
        ChunkView { data_words: self.data_words@, frame_word: self.frame_word }
    }
}

/// The views of a sequence of chunks.
pub open spec fn chunk_views(chunks: Seq<Chunk>) -> Seq<ChunkView> {
    Seq::new(chunks.len(), |i: int| chunks[i]@)
}

/// Whether every token is a hexadecimal number of at most 64 bits.
pub open spec fn all_words_valid(toks: Seq<Seq<char>>) -> bool {
    forall|i: int| 0 <= i < toks.len() ==> (#[trigger] hex_u64(toks[i])) is Some
}

/// The chunk made of the given tokens: the last is decoded as the frame
/// word, each of the others as a data word.
pub open spec fn assemble(toks: Seq<Seq<char>>) -> ChunkView
    recommends
        toks.len() > 0,
        all_words_valid(toks),
{
    ChunkView {
        data_words: Seq::new(
            (toks.len() - 1) as nat,
            |i: int| DataWord::spec_decode(hex_u64(toks[i]).unwrap()),
        ),
        frame_word: FrameWord::spec_decode(hex_u64(toks.last()).unwrap()),
    }
}

/// The chunk of one line, or why the line has none.
pub open spec fn chunk_of_line(line: Seq<char>) -> Result<ChunkView, ParseError> {
    let toks = tokens(line);
    if toks.len() == 0 {
        Err(ParseError::EmptyLine)
    } else if !all_words_valid(toks) {
        Err(ParseError::MalformedWord)
    } else {
        Ok(assemble(toks))
    }
}

/// The chunks of a run of lines, one per line and in their order, or the
/// error of the first line that has none.
pub open spec fn chunks_of_lines(ls: Seq<Seq<char>>) -> Result<Seq<ChunkView>, ParseError>
    decreases ls.len(),
{
    if ls.len() == 0 {
        Ok(Seq::empty())
    } else {
        match chunks_of_lines(ls.drop_last()) {
            Err(e) => Err(e),
            Ok(chunks) => match chunk_of_line(ls.last()) {
                Err(e) => Err(e),
                Ok(chunk) => Ok(chunks.push(chunk)),
            },
        }
    }
}

/// The chunks of a readout, or why it has none.
pub open spec fn chunks_of_text(text: Seq<char>) -> Result<Seq<ChunkView>, ParseError> {
    chunks_of_lines(lines(text))
}

/// Once a line has failed, the lines after it change nothing.
pub proof fn lemma_first_error_decides(ls: Seq<Seq<char>>, n: int)
    requires
        0 <= n <= ls.len(),
        chunks_of_lines(ls.take(n)) is Err,
    ensures
        chunks_of_lines(ls) == chunks_of_lines(ls.take(n)),
    decreases ls.len(),
{
    if n == ls.len() {
        assert(ls.take(n) =~= ls);
    } else {
        assert(ls.drop_last().take(n) =~= ls.take(n));
        lemma_first_error_decides(ls.drop_last(), n);
    }
}

/// A readout whose lines all have a chunk has as many chunks as lines, and
/// the chunk at each place is that of the line at that place.
pub proof fn lemma_one_chunk_per_line(ls: Seq<Seq<char>>)
    requires
        forall|i: int| 0 <= i < ls.len() ==> (#[trigger] chunk_of_line(ls[i])) is Ok,
    ensures
        chunks_of_lines(ls) is Ok,
        chunks_of_lines(ls).unwrap().len() == ls.len(),
        forall|i: int|
            0 <= i < ls.len() ==> chunk_of_line(ls[i]) == Ok::<ChunkView, ParseError>(
                #[trigger] chunks_of_lines(ls).unwrap()[i],
            ),
    decreases ls.len(),
{
    if ls.len() > 0 {
        let front = ls.drop_last();
        assert forall|i: int| 0 <= i < front.len() implies (#[trigger] chunk_of_line(
            front[i],
        )) is Ok by {
            assert(front[i] == ls[i]);
        }
        lemma_one_chunk_per_line(front);
        assert(chunk_of_line(ls[ls.len() - 1]) is Ok);
        let all = chunks_of_lines(ls).unwrap();
        assert forall|i: int| 0 <= i < ls.len() implies chunk_of_line(ls[i]) == Ok::<
            ChunkView,
            ParseError,
        >(#[trigger] all[i]) by {
            if i < front.len() {
                assert(front[i] == ls[i]);
                assert(all[i] == chunks_of_lines(front).unwrap()[i]);
            }
        }
    }
}

/// A readout with a line that has no chunk has no chunks at all, and its
/// error is that of the first such line.
pub proof fn lemma_first_failing_line(ls: Seq<Seq<char>>, n: int)
    requires
        0 <= n < ls.len(),
        chunk_of_line(ls[n]) is Err,
        forall|i: int| 0 <= i < n ==> (#[trigger] chunk_of_line(ls[i])) is Ok,
    ensures
        chunks_of_lines(ls) is Err,
        chunks_of_lines(ls) == Err::<Seq<ChunkView>, ParseError>(chunk_of_line(ls[n])->Err_0),
{
    let front = ls.take(n);
    assert forall|i: int| 0 <= i < front.len() implies (#[trigger] chunk_of_line(
        front[i],
    )) is Ok by {
        assert(front[i] == ls[i]);
    }
    lemma_one_chunk_per_line(front);
    assert(ls.take(n + 1).drop_last() =~= front);
    assert(ls.take(n + 1).last() == ls[n]);
    lemma_first_error_decides(ls, n + 1);
}

/// A readout with a line that has no chunk has no chunks at all.
pub proof fn lemma_any_failing_line(ls: Seq<Seq<char>>, n: int)
    requires
        0 <= n < ls.len(),
        chunk_of_line(ls[n]) is Err,
    ensures
        chunks_of_lines(ls) is Err,
    decreases n,
{
    if exists|i: int| 0 <= i < n && (#[trigger] chunk_of_line(ls[i])) is Err {
        let k = choose|i: int| 0 <= i < n && (#[trigger] chunk_of_line(ls[i])) is Err;
        lemma_any_failing_line(ls, k);
    } else {
        lemma_first_failing_line(ls, n);
    }
}

/// A readout with a line that holds no token has no chunks. Its error is
/// `EmptyLine` unless a line before that one holds a malformed token, which
/// is met first.
pub proof fn lemma_empty_line_fails(ls: Seq<Seq<char>>, n: int)
    requires
        0 <= n < ls.len(),
        tokens(ls[n]).len() == 0,
    ensures
        chunks_of_lines(ls) is Err,
        (forall|i: int| 0 <= i < n ==> all_words_valid(#[trigger] tokens(ls[i])))
            ==> chunks_of_lines(ls) == Err::<Seq<ChunkView>, ParseError>(ParseError::EmptyLine),
    decreases n,
{
    if exists|i: int| 0 <= i < n && (#[trigger] chunk_of_line(ls[i])) is Err {
        let k = choose|i: int| 0 <= i < n && (#[trigger] chunk_of_line(ls[i])) is Err;
        if tokens(ls[k]).len() == 0 {
            lemma_empty_line_fails(ls, k);
        } else {
            lemma_any_failing_line(ls, k);
            assert(!all_words_valid(tokens(ls[k])));
        }
    } else {
        lemma_first_failing_line(ls, n);
    }
}

/// A readout that has chunks has one for each line.
pub proof fn lemma_chunks_len(ls: Seq<Seq<char>>)
    ensures
        chunks_of_lines(ls) matches Ok(chunks) ==> chunks.len() == ls.len(),
    decreases ls.len(),
{
    if ls.len() > 0 {
        lemma_chunks_len(ls.drop_last());
    }
}

/// The only errors of a readout are `EmptyLine` and `MalformedWord`.
pub proof fn lemma_errors_of_lines(ls: Seq<Seq<char>>)
    ensures
        chunks_of_lines(ls) matches Err(e) ==> e == ParseError::EmptyLine || e
            == ParseError::MalformedWord,
    decreases ls.len(),
{
    if ls.len() > 0 {
        lemma_errors_of_lines(ls.drop_last());
    }
}

/// Reads the chunk of one line.
pub fn parse_line(line: &[char]) -> (r: Result<Chunk, ParseError>)
    ensures
        match r {
            Ok(chunk) => chunk_of_line(line@) == Ok::<ChunkView, ParseError>(chunk@),
            Err(e) => chunk_of_line(line@) == Err::<ChunkView, ParseError>(e),
        },
{
    let bounds = split_tokens(line);
    let n = bounds.len();
    if n == 0 {
        return Err(ParseError::EmptyLine);
    }
    let ghost toks = tokens(line@);
    assert(toks.len() == n);
    let (from, to) = bounds[n - 1];
    assert(toks[n - 1] == line@.subrange(from as int, to as int));
    let frame_word = match read_word_value(slice_subrange(line, from, to)) {
        Ok(raw) => FrameWord::decode(raw),
        Err(e) => {
            return Err(e);
        },
    };
    let mut data_words: Vec<DataWord> = Vec::new();
    let mut i: usize = 0;
    while i < n - 1
        invariant
            i <= n - 1,
            n == bounds@.len(),
            n == toks.len(),
            toks == tokens(line@),
            toks == pieces(line@, bounds@),
            crate::text::bounds_within(bounds@, line@.len()),
            hex_u64(toks[n - 1]) is Some,
            data_words@.len() == i,
            forall|j: int| 0 <= j < i ==> (#[trigger] hex_u64(toks[j])) is Some,
            forall|j: int|
                0 <= j < i ==> (#[trigger] data_words@[j]) == DataWord::spec_decode(
                    hex_u64(toks[j]).unwrap(),
                ),
        decreases n - 1 - i,
    {
        let (from, to) = bounds[i];
        assert(toks[i as int] == line@.subrange(from as int, to as int));
        match read_word_value(slice_subrange(line, from, to)) {
            Ok(raw) => {
                data_words.push(DataWord::decode(raw));
            },
            Err(e) => {
                assert(hex_u64(toks[i as int]) is None);
                return Err(e);
            },
        }
        i += 1;
    }
    let chunk = Chunk { data_words, frame_word };
    proof {
        assert forall|j: int| 0 <= j < toks.len() implies (#[trigger] hex_u64(toks[j])) is Some by {
            if j == n - 1 {
            }
        }
        assert(chunk@.data_words =~= assemble(toks).data_words);
    }
    Ok(chunk)
}

/// Reads a readout: one chunk per line, in the order of the lines.
///
/// Fails with `EmptyLine` if the first line that has no chunk holds no
/// token, and with `MalformedWord` if it holds a token that is no
/// hexadecimal number of at most 64 bits.
pub fn parse(contents: &str) -> (r: Result<Vec<Chunk>, ParseError>)
    ensures
        match r {
            Ok(chunks) => chunks_of_text(contents@) == Ok::<Seq<ChunkView>, ParseError>(
                chunk_views(chunks@),
            ),
            Err(e) => chunks_of_text(contents@) == Err::<Seq<ChunkView>, ParseError>(e),
        },
        r matches Ok(chunks) ==> chunks@.len() == lines(contents@).len(),
        r matches Err(e) ==> e == ParseError::EmptyLine || e == ParseError::MalformedWord,
{
    proof {
        lemma_errors_of_lines(lines(contents@));
        lemma_chunks_len(lines(contents@));
    }
    let text = chars_of(contents);
    let bounds = split_lines(text.as_slice());
    let ghost ls = lines(text@);
    let mut chunks: Vec<Chunk> = Vec::new();
    let mut i: usize = 0;
    assert(ls.take(0) =~= Seq::<Seq<char>>::empty());
    assert(chunk_views(chunks@) =~= Seq::<ChunkView>::empty());
    while i < bounds.len()
        invariant
            i <= bounds@.len(),
            text@ == contents@,
            ls == lines(text@),
            ls == pieces(text@, bounds@),
            crate::text::bounds_within(bounds@, text@.len()),
            chunks_of_lines(ls.take(i as int)) == Ok::<Seq<ChunkView>, ParseError>(
                chunk_views(chunks@),
            ),
        decreases bounds@.len() - i,
    {
        let (from, to) = bounds[i];
        assert(ls[i as int] == text@.subrange(from as int, to as int));
        let ghost before = chunk_views(chunks@);
        proof {
            assert(ls.take(i + 1).drop_last() =~= ls.take(i as int));
            assert(ls.take(i + 1).last() == ls[i as int]);
        }
        match parse_line(slice_subrange(text.as_slice(), from, to)) {
            Ok(chunk) => {
                chunks.push(chunk);
                assert(chunk_views(chunks@) =~= before.push(chunk@));
            },
            Err(e) => {
                proof {
                    lemma_first_error_decides(ls, i + 1);
                }
                return Err(e);
            },
        }
        i += 1;
    }
    assert(ls.take(i as int) =~= ls);
    Ok(chunks)
}

/// Reads a readout and appends its chunks to `chunks`.
///
/// On an error `chunks` is left as it was.
pub fn parse_tdcpix_txt(contents: &str, chunks: &mut Vec<Chunk>) -> (r: Result<(), ParseError>)
    ensures
        match r {
            Ok(()) => {
                &&& chunks_of_text(contents@) is Ok
                &&& chunk_views(final(chunks)@) == chunk_views(old(chunks)@) + chunks_of_text(
                    contents@,
                ).unwrap()
                &&& final(chunks)@.take(old(chunks)@.len() as int) == old(chunks)@
            },
            Err(e) => {
                &&& chunks_of_text(contents@) == Err::<Seq<ChunkView>, ParseError>(e)
                &&& *final(chunks) == *old(chunks)
            },
        },
{
    match parse(contents) {
        Ok(new_chunks) => {
            let mut new_chunks = new_chunks;
            let ghost added = new_chunks@;
            chunks.append(&mut new_chunks);
            assert(chunk_views(chunks@) =~= chunk_views(old(chunks)@) + chunk_views(added));
            assert(chunks@.take(old(chunks)@.len() as int) =~= old(chunks)@);
            Ok(())
        },
        Err(e) => Err(e),
    }
}

} // verus!
