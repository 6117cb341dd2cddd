//! The block splitter's state: its intra predictor and the rate tables by which it
//! weighs coefficient levels.
use crate::intra_predictor::{zero_block, IntraPredictor};
use vstd::prelude::*;

verus! {

/// Chooses block splits and modes by rate and distortion: an intra predictor, and
/// the estimated rate of each level below 1024, for plain quantization, dependent
/// quantization and its trellis search, in units of 1/16384 bit.
pub struct BlockSplitter {
    intra_predictor: IntraPredictor,
    lv_table: [i64; 1024],
    lv_dq_table: [i64; 1024],
    lv_dq_trellis_table: [i64; 1024],
}

impl BlockSplitter {
    /// A splitter with a fresh intra predictor and the given rate tables.
    pub fn from_tables(lv_table: [i64; 1024], lv_dq_table: [i64; 1024], lv_dq_trellis_table: [i64; 1024]) -> (s: BlockSplitter)
        ensures
            s.lv_table() == lv_table,
            s.lv_dq_table() == lv_dq_table,
            s.lv_dq_trellis_table() == lv_dq_trellis_table,
            zero_block(s.intra_predictor().pred_v),
            zero_block(s.intra_predictor().pred_h),
            zero_block(s.intra_predictor().ref_l),
            zero_block(s.intra_predictor().ref_t),
            forall|i: int| 0 <= i < 130 ==> s.intra_predictor().left_ref_samples@[i] == 0
                && s.intra_predictor().left_ref_filtered_samples@[i] == 0,
            forall|i: int| 0 <= i < 129 ==> s.intra_predictor().above_ref_samples@[i] == 0
                && s.intra_predictor().above_ref_filtered_samples@[i] == 0,
    {
        BlockSplitter { intra_predictor: IntraPredictor::new(), lv_table, lv_dq_table, lv_dq_trellis_table }
    }

    /// The rate table of plain quantization.
    pub closed spec fn lv_table(self) -> [i64; 1024] {
        self.lv_table
    }

    /// The rate table of dependent quantization.
    pub closed spec fn lv_dq_table(self) -> [i64; 1024] {
        self.lv_dq_table
    }

    /// The rate table of the dependent quantization trellis.
    pub closed spec fn lv_dq_trellis_table(self) -> [i64; 1024] {
        self.lv_dq_trellis_table
    }

    /// The intra predictor.
    pub closed spec fn intra_predictor(self) -> IntraPredictor {
        self.intra_predictor
    }

}

} // verus!
