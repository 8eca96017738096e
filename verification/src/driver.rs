//! Extraction driving: the validated split request, and the per-chunk
//! extraction request that pairs the exact time window and fade directive
//! with the chunk's output file name. Chunks are extracted strictly in
//! index order, one at a time; the caller performs the engine invocation
//! for each request and aborts the run on the first failure.

use vstd::prelude::*;
use crate::namer::make_target_file;
use crate::namer::target_name;
use crate::plan::Chunk;
use crate::plan::chunk;

verus! {

/// The validated inputs of one split run: tempo, chunk count, fade length
/// in milliseconds, and the source file's base name and extension.
pub struct SplitRequest {
    pub bpm: u32,
    pub chunk_count: u32,
    pub fade_ms: u32,
    pub source_base: String,
    pub source_ext: String,
}

impl SplitRequest {
    /// A well-formed request has a positive tempo and chunk count, a fade
    /// short enough for its window arithmetic to stay within machine
    /// bounds, and a non-empty base name and extension.
    pub open spec fn wf(self) -> bool {
        &&& self.bpm > 0
        &&& self.chunk_count > 0
        &&& (self.bpm as int) * (self.fade_ms as int) <= 0x1000_0000_0000_0000
        &&& self.source_base@.len() > 0
        &&& self.source_ext@.len() > 0
    }

    /// Validates the raw inputs into a request; yields nothing exactly
    /// when the tempo or chunk count is zero, the tempo-fade product is
    /// out of machine bounds, or the base name or extension is empty.
    pub fn new(bpm: u32, chunk_count: u32, fade_ms: u32, source_base: String, source_ext: String)
        -> (r: Option<SplitRequest>)
        ensures
            r matches Some(s) ==> {
                &&& s.wf()
                &&& s.bpm == bpm
                &&& s.chunk_count == chunk_count
                &&& s.fade_ms == fade_ms
                &&& s.source_base == source_base
                &&& s.source_ext == source_ext
            },
            (r is Some) <==> {
                &&& bpm > 0
                &&& chunk_count > 0
                &&& (bpm as int) * (fade_ms as int) <= 0x1000_0000_0000_0000
                &&& source_base@.len() > 0
                &&& source_ext@.len() > 0
            },
    {
        proof {
            assert((bpm as int) * (fade_ms as int) < 0x1_0000_0000 * 0x1_0000_0000)
                by (nonlinear_arith)
                requires
                    bpm < 0x1_0000_0000,
                    fade_ms < 0x1_0000_0000,
            ;
        }
        let beat_fade: u64 = (bpm as u64) * (fade_ms as u64);
        if bpm > 0 && chunk_count > 0 && beat_fade <= 0x1000_0000_0000_0000
            && source_base.as_str().unicode_len() > 0 && source_ext.as_str().unicode_len() > 0 {
            Some(SplitRequest { bpm, chunk_count, fade_ms, source_base, source_ext })
        } else {
            None
        }
    }
}

/// Everything the engine needs to cut one chunk: the exact extraction
/// window with its fade directive, and the output file's name.
pub struct ExtractionRequest {
    pub chunk: Chunk,
    pub output_name: String,
}

/// Builds the extraction request for the chunk at `index`: the window
/// starts at `index` sixteenth notes (computed multiplicatively, never
/// accumulated), lasts one sixteenth note, fades out from `fade_ms / 1000`
/// seconds before its end with an envelope as long as the whole window,
/// and lands in the zero-padded output file for `index`.
pub fn build_extraction_request(req: &SplitRequest, index: u32) -> (r: ExtractionRequest)
    requires
        req.wf(),
        index < req.chunk_count,
    ensures
        r.chunk.index == index,
        r.chunk.start.num == 60 * index,
        r.chunk.start.den == 4 * req.bpm,
        r.chunk.length.num == 60,
        r.chunk.length.den == 4 * req.bpm,
        r.chunk.fade_duration == r.chunk.length,
        r.chunk.fade_start.num == 60000 - 4 * (req.bpm as int) * (req.fade_ms as int),
        r.chunk.fade_start.den == 4000 * req.bpm,
        r.output_name@ == target_name(
            req.source_base@,
            req.source_ext@,
            index as nat,
            req.chunk_count as nat,
        ),
{
    let c = chunk(req.bpm, req.fade_ms, index);
    let output_name = make_target_file(
        req.source_base.as_str(),
        req.source_ext.as_str(),
        index,
        req.chunk_count,
    );
    ExtractionRequest { chunk: c, output_name }
}

} // verus!
