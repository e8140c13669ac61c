//! The state of an analysis session: the chunks of the loaded readout, the
//! chunk under analysis with its pixels, and the pixel picked out.
//!
//! The pixel lists are derived from the chunk under analysis and can be
//! computed again at any time. Loading replaces the chunks as a whole or
//! leaves the session as it was. Asking for a chunk that is not there
//! changes nothing.

use vstd::prelude::*;
use crate::address::{hit_coords_of, map_words, pileup_coords_of};
use crate::chunk::{chunk_views, chunks_of_text, parse, Chunk, ChunkView};
use crate::error::ParseError;

verus! {

/// An analysis session.
pub struct TDCpixApp {
    /// The chunks of the loaded readout, in the order of its lines.
    pub chunks: Vec<Chunk>,
    /// Which chunk is under analysis.
    pub analysis_chunk_idx: usize,
    /// The hit pixel of each data word of that chunk, in their order.
    pub hit_idxes: Vec<(u8, u8)>,
    /// The pixels that the data words of that chunk mark for pileup.
    pub pileup_idxes: Vec<(u8, u8)>,
    /// The pixel that was picked last.
    pub highlight_idx: (u8, u8),
    /// Whether a pixel is picked at present.
    pub has_selected_hit: bool,
}

impl TDCpixApp {
    /// Whether the two pixel lists are those of `chunk`.
    pub open spec fn shows(&self, chunk: ChunkView) -> bool {
        &&& self.hit_idxes@ == hit_coords_of(chunk.data_words)
        &&& self.pileup_idxes@ == pileup_coords_of(chunk.data_words)
    }

    /// Whether the session is consistent: if the chunk under analysis
    /// exists, the pixel lists are its own.
    pub open spec fn wf(&self) -> bool {
        self.analysis_chunk_idx < self.chunks@.len() ==> self.shows(
            self.chunks@[self.analysis_chunk_idx as int]@,
        )
    }

    /// A session with nothing loaded and nothing picked.
    pub fn new() -> (app: Self)
        ensures
            app.wf(),
            app.chunks@.len() == 0,
            app.analysis_chunk_idx == 0,
            app.hit_idxes@.len() == 0,
            app.pileup_idxes@.len() == 0,
            app.highlight_idx == (0u8, 0u8),
            !app.has_selected_hit,
    {
        TDCpixApp {
            chunks: Vec::new(),
            analysis_chunk_idx: 0,
            hit_idxes: Vec::new(),
            pileup_idxes: Vec::new(),
            highlight_idx: (0, 0),
            has_selected_hit: false,
        }
    }

    /// The chunk under analysis, if the loaded readout holds it.
    pub fn analysis_chunk(&self) -> (chunk: Option<&Chunk>)
        ensures
            match chunk {
                Some(c) => self.analysis_chunk_idx < self.chunks@.len() && *c
                    == self.chunks@[self.analysis_chunk_idx as int],
                None => self.analysis_chunk_idx >= self.chunks@.len(),
            },
    {
        if self.analysis_chunk_idx >= self.chunks.len() {
            None
        } else {
            Some(&self.chunks[self.analysis_chunk_idx])
        }
    }

    /// Puts chunk `idx` under analysis and derives its pixel lists.
    ///
    /// An index that the loaded readout does not hold is rejected with
    /// `IndexOutOfRange`, and the session stays as it was.
    pub fn update_analysis_chunk_idx(&mut self, idx: usize) -> (r: Result<(), ParseError>)
        ensures
            idx >= old(self).chunks@.len() <==> r == Err::<(), ParseError>(
                ParseError::IndexOutOfRange,
            ),
            idx < old(self).chunks@.len() <==> r is Ok,
            r is Err ==> *final(self) == *old(self),
            r is Ok ==> {
                &&& final(self).analysis_chunk_idx == idx
                &&& final(self).shows(old(self).chunks@[idx as int]@)
                &&& final(self).wf()
                &&& final(self).hit_idxes@.len() == old(self).chunks@[idx as int]@.data_words.len()
                &&& final(self).pileup_idxes@.len() % 5 == 0
            },
            final(self).chunks == old(self).chunks,
            final(self).highlight_idx == old(self).highlight_idx,
            final(self).has_selected_hit == old(self).has_selected_hit,
    {
        if idx >= self.chunks.len() {
            return Err(ParseError::IndexOutOfRange);
        }
        let (hits, marked) = map_words(self.chunks[idx].data_words.as_slice());
        self.analysis_chunk_idx = idx;
        self.hit_idxes = hits;
        self.pileup_idxes = marked;
        Ok(())
    }

    /// Loads a readout: replaces the chunks of the session by those of
    /// `contents` and puts the first of them under analysis.
    ///
    /// `None` stands for a file that could not be read and gives
    /// `FileUnreadable`. A readout that cannot be parsed gives the error of
    /// `parse`. Either way the session stays as it was. A readout without a
    /// line is loaded, and since it has no first chunk, the index and the
    /// pixel lists stay as they were.
    pub fn update_file(&mut self, contents: Option<&str>) -> (r: Result<(), ParseError>)
        ensures
            match contents {
                None => r == Err::<(), ParseError>(ParseError::FileUnreadable),
                Some(text) => match chunks_of_text(text@) {
                    Err(e) => r == Err::<(), ParseError>(e),
                    Ok(chunks) => {
                        &&& r is Ok
                        &&& chunk_views(final(self).chunks@) == chunks
                        &&& chunks.len() > 0 ==> final(self).analysis_chunk_idx == 0
                            && final(self).shows(chunks[0])
                        &&& chunks.len() == 0 ==> final(self).analysis_chunk_idx == old(
                            self,
                        ).analysis_chunk_idx && final(self).hit_idxes == old(self).hit_idxes
                            && final(self).pileup_idxes == old(self).pileup_idxes
                    },
                },
            },
            r is Err ==> *final(self) == *old(self),
            r is Ok ==> final(self).wf(),
            final(self).highlight_idx == old(self).highlight_idx,
            final(self).has_selected_hit == old(self).has_selected_hit,
    {
        let text = match contents {
            None => {
                return Err(ParseError::FileUnreadable);
            },
            Some(text) => text,
        };
        match parse(text) {
            Err(e) => Err(e),
            Ok(chunks) => {
                let ghost views = chunk_views(chunks@);
                self.chunks = chunks;
                let _ = self.update_analysis_chunk_idx(0);
                assert(chunk_views(self.chunks@) == views);
                assert(views.len() > 0 ==> views[0] == self.chunks@[0]@);
                Ok(())
            },
        }
    }
}

} // verus!
