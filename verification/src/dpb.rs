//! Decoded picture buffer parameters.
use crate::common::ChromaFormat;
use vstd::prelude::*;

verus! {

/// The buffering parameters of one temporal sublayer.
pub struct DpbParameter {
    pub max_tid: usize,
    pub max_dec_pic_buffering: usize,
    pub max_num_reorder_pics: usize,
    pub max_latency_increase: usize,
}

impl DpbParameter {
    /// The parameters this encoder signals: one sublayer, eight pictures, up to four reordered.
    pub fn new() -> (r: DpbParameter)
        ensures
            r.max_tid == 1,
            r.max_dec_pic_buffering == 8,
            r.max_num_reorder_pics == 4,
            r.max_latency_increase == 1,
    {
        DpbParameter {
            max_tid: 1,
            max_dec_pic_buffering: 8,
            max_num_reorder_pics: 4,
            max_latency_increase: 1,
        }
    }
}

/// The picture format of an output layer set, for its buffering parameters.
pub struct OlsDpbParameter {
    pub pic_width: usize,
    pub pic_height: usize,
    pub chroma_format: ChromaFormat,
    pub bitdepth: usize,
    pub params_idx: usize,
}

impl OlsDpbParameter {
    /// The format of a `width` by `height` picture.
    pub fn new(
        width: usize,
        height: usize,
        chroma_format: ChromaFormat,
        bitdepth: usize,
        params_idx: usize,
    ) -> (r: OlsDpbParameter)
        ensures
            r.pic_width == width,
            r.pic_height == height,
            r.chroma_format == chroma_format,
            r.bitdepth == bitdepth,
            r.params_idx == params_idx,
    {
        OlsDpbParameter { pic_width: width, pic_height: height, chroma_format, bitdepth, params_idx }
    }
}

} // verus!
