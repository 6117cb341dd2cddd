//! Writing decoded picture buffer parameters.
use crate::bins::{appended, lemma_appended_nothing, lemma_appended_trans, Bins};
use crate::bool_coder::{ue_bits, BoolCoder};
use crate::dpb::DpbParameter;
use vstd::prelude::*;

verus! {

/// The coded parameters of one sublayer: the picture buffer size, the number of
/// reordered pictures and the latency increase, each as an Exp-Golomb code.
pub open spec fn dpbp_entry_bits(p: DpbParameter) -> Seq<bool> {
    ue_bits(p.max_dec_pic_buffering as u64) + ue_bits(p.max_num_reorder_pics as u64) + ue_bits(
        p.max_latency_increase as u64,
    )
}

/// The coded parameters of the sublayers `lo` up to, not including, `hi`.
pub open spec fn dpbp_range_bits(params: Seq<DpbParameter>, lo: int, hi: int) -> Seq<bool>
    decreases hi - lo,
{
    if hi <= lo {
        Seq::empty()
    } else {
        dpbp_range_bits(params, lo, hi - 1) + dpbp_entry_bits(params[hi - 1])
    }
}

/// The first sublayer whose parameters are signalled: all of them with per-sublayer
/// information, else only the highest.
pub open spec fn dpbp_first(max_sublayers: nat, sublayer_info_flag: bool) -> int {
    if sublayer_info_flag {
        0
    } else {
        max_sublayers - 1
    }
}

/// The coded parameters: those of the signalled sublayers below `max_sublayers`
/// that `params` holds.
pub open spec fn dpbp_bits(params: Seq<DpbParameter>, max_sublayers: nat, sublayer_info_flag: bool) -> Seq<bool> {
    let hi = if max_sublayers < params.len() { max_sublayers as int } else { params.len() as int };
    dpbp_range_bits(params, dpbp_first(max_sublayers, sublayer_info_flag), hi)
}

/// Every parameter of `p` has an Exp-Golomb code.
pub open spec fn dpbp_codable(p: DpbParameter) -> bool {
    &&& (p.max_dec_pic_buffering as u64) < u64::MAX
    &&& (p.max_num_reorder_pics as u64) < u64::MAX
    &&& (p.max_latency_increase as u64) < u64::MAX
}

proof fn lemma_dpbp_range_len(params: Seq<DpbParameter>, lo: int, hi: int)
    requires
        forall|j: int| lo <= j < hi ==> dpbp_codable(#[trigger] params[j]),
    ensures
        dpbp_range_bits(params, lo, hi).len() <= 381 * (if hi <= lo { 0 } else { hi - lo }),
    decreases hi - lo,
{
    if hi > lo {
        lemma_dpbp_range_len(params, lo, hi - 1);
        let p = params[hi - 1];
        crate::bool_coder::lemma_ue_len(p.max_dec_pic_buffering as u64);
        crate::bool_coder::lemma_ue_len(p.max_num_reorder_pics as u64);
        crate::bool_coder::lemma_ue_len(p.max_latency_increase as u64);
    }
}

/// Writes the decoded picture buffer parameters of the sublayers.
pub struct DpbpEncoder {}

impl DpbpEncoder {
    /// An encoder.
    pub fn new() -> (e: DpbpEncoder) {
        DpbpEncoder {  }
    }

    /// Appends the parameters of the signalled sublayers: from the first one when
    /// `sublayer_info_flag` is set, else from sublayer `max_sublayers - 1`, up to
    /// `max_sublayers` or the end of `dpb_parameters`.
    pub fn encode(
        &mut self,
        coder: &mut BoolCoder,
        bins: &mut Bins,
        dpb_parameters: &[DpbParameter],
        max_sublayers: usize,
        sublayer_info_flag: bool,
    )
        requires
            sublayer_info_flag || max_sublayers > 0,
            forall|i: int| 0 <= i < dpb_parameters@.len() ==> dpbp_codable(#[trigger] dpb_parameters@[i]),
            old(bins).num_bins + 381 * dpb_parameters@.len() <= usize::MAX,
        ensures
            appended(
                *old(bins),
                *final(bins),
                dpbp_bits(dpb_parameters@, max_sublayers as nat, sublayer_info_flag),
            ),
            *final(coder) == *old(coder),
    {
        let l: usize = if sublayer_info_flag {
            0
        } else {
            max_sublayers - 1
        };
        let hi: usize = if max_sublayers < dpb_parameters.len() {
            max_sublayers
        } else {
            dpb_parameters.len()
        };
        let ghost b0 = *bins;
        proof {
            lemma_appended_nothing(b0);
        }
        let mut i: usize = l;
        while i < hi
            invariant
                l <= hi ==> l <= i <= hi,
                l > hi ==> i == l,
                hi <= dpb_parameters@.len(),
                l == dpbp_first(max_sublayers as nat, sublayer_info_flag),
                forall|j: int| 0 <= j < dpb_parameters@.len() ==> dpbp_codable(#[trigger] dpb_parameters@[j]),
                b0.num_bins + 381 * dpb_parameters@.len() <= usize::MAX,
                appended(b0, *bins, dpbp_range_bits(dpb_parameters@, l as int, i as int)),
                *coder == *old(coder),
            decreases hi - i,
        {
            let dpbp = &dpb_parameters[i];
            proof {
                assert(dpbp_codable(dpb_parameters@[i as int]));
                assert forall|j: int| l <= j < i implies dpbp_codable(#[trigger] dpb_parameters@[j]) by {
                    assert(dpbp_codable(dpb_parameters@[j]));
                }
                lemma_dpbp_range_len(dpb_parameters@, l as int, i as int);
                crate::bool_coder::lemma_ue_len(dpbp.max_dec_pic_buffering as u64);
                crate::bool_coder::lemma_ue_len(dpbp.max_num_reorder_pics as u64);
                crate::bool_coder::lemma_ue_len(dpbp.max_latency_increase as u64);
            }
            let ghost acc = dpbp_range_bits(dpb_parameters@, l as int, i as int);
            let ghost p0 = *bins;
            coder.encode_unsigned_exp_golomb(bins, dpbp.max_dec_pic_buffering as u64);
            let ghost p1 = *bins;
            coder.encode_unsigned_exp_golomb(bins, dpbp.max_num_reorder_pics as u64);
            let ghost p2 = *bins;
            coder.encode_unsigned_exp_golomb(bins, dpbp.max_latency_increase as u64);
            proof {
                let u0 = ue_bits(dpbp.max_dec_pic_buffering as u64);
                let u1 = ue_bits(dpbp.max_num_reorder_pics as u64);
                let u2 = ue_bits(dpbp.max_latency_increase as u64);
                lemma_appended_trans(b0, p0, p1, acc, u0);
                lemma_appended_trans(b0, p1, p2, acc + u0, u1);
                lemma_appended_trans(b0, p2, *bins, acc + u0 + u1, u2);
                assert(acc + u0 + u1 + u2 =~= dpbp_range_bits(dpb_parameters@, l as int, i + 1));
            }
            i += 1;
        }
    }
}

} // verus!
