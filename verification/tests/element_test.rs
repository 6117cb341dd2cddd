use vvcenc::aps::AlfData;
use vvcenc::bins::Bins;
use vvcenc::bool_coder::BoolCoder;
use vvcenc::cabac_contexts::{ctx_table_len, CabacContext, CtxInc};
use vvcenc::common::{IntraSubpartitionsSplitType, ModeType, MttSplitMode, SliceType, TreeType, Vec2d};
use vvcenc::ctu::{CodingTreeUnit, MergeData, TileGeometry};
use vvcenc::encoder_context::EncoderContext;
use vvcenc::neighbour_ctx::PictureGeometry;

fn start() -> Bins {
    let mut b = Bins::new();
    b.push_initial_bin(true);
    b
}

fn coder() -> BoolCoder {
    let mut c = BoolCoder::new();
    c.init_ctx_table(26);
    c.init_arithmetic_engine();
    c
}

/// Both coders and outputs are in the same state.
fn same(c1: &BoolCoder, b1: Bins, c2: &BoolCoder, b2: Bins) {
    assert_eq!(c1.cabac_ivl_curr_range, c2.cabac_ivl_curr_range);
    assert_eq!(c1.cabac_ivl_offset, c2.cabac_ivl_offset);
    assert_eq!(c1.cabac_first_bit_flag, c2.cabac_first_bit_flag);
    assert_eq!(c1.cabac_bits_outstanding, c2.cabac_bits_outstanding);
    assert_eq!(c1.cabac_p_state_idx, c2.cabac_p_state_idx);
    assert_eq!(b1.num_bins, b2.num_bins);
    assert_eq!(b1.collect(), b2.collect());
}

/// Codes `bins` with the given (context index, bypass) selections directly.
fn by_hand(bins: &[bool], sels: &[(usize, bool)], ctx: CabacContext) -> (BoolCoder, Bins) {
    let mut c = coder();
    let mut b = start();
    for (bin, (idx, bypass)) in bins.iter().zip(sels.iter()) {
        c.encode_arithmetic(&mut b, *bin, ctx, *idx, *bypass, 0);
    }
    (c, b)
}

fn levels16(values: &[(usize, usize, usize)]) -> Vec2d<usize> {
    let mut a = Vec2d::new(0usize, 16, 16);
    for (y, x, v) in values {
        a.set(*y, *x, *v);
    }
    a
}

fn ectx() -> EncoderContext {
    EncoderContext {
        ctb_log2_size_y: 7,
        min_qt_size_y: 8,
        min_qt_size_c: 4,
        min_bt_size_y: 4,
        min_tt_size_y: 4,
        max_bt_size_y: 128,
        max_bt_size_c: 64,
        max_tt_size_y: 64,
        max_tt_size_c: 32,
        max_mtt_depth_y: 3,
        max_mtt_depth_c: 3,
        sub_width_c: 2,
        sub_height_c: 2,
        mtt_split_mode: vec![vec![vec![MttSplitMode::SPLIT_TT_HOR]]],
        cu_pred_mode: vec![vec![vec![ModeType::MODE_INTRA; 64]; 64]],
        cb_width: vec![vec![vec![8usize; 64]; 64]; 2],
        cb_height: vec![vec![vec![8usize; 64]; 64]; 2],
        bit_depth: 8,
        num_ref_idx_active: [2, 2],
        max_num_merge_cand: 6,
        max_num_subblock_merge_cand: 5,
        max_num_ibc_merge_cand: 6,
        max_num_gpm_merge_cand: 6,
        no_backward_pred_flag: false,
    }
}

fn geometry() -> PictureGeometry {
    PictureGeometry {
        pic_width_in_luma_samples: 1920,
        pic_height_in_luma_samples: 1080,
        entropy_coding_sync_enabled_flag: false,
    }
}

#[test]
fn table_rule_contexts_with_terminating_bins() {
    let c = BoolCoder::new();
    assert_eq!(c.derive_context_and_bypass_flag_ctu(0, CabacContext::AlfSaoTypeIdxLuma, SliceType::I, false), (0, false));
    assert_eq!(c.derive_context_and_bypass_flag_ctu(1, CabacContext::AlfSaoTypeIdxLuma, SliceType::I, false), (0, true));
    assert_eq!(c.derive_context_and_bypass_flag_ctu(2, CabacContext::CuQpDeltaAbs, SliceType::I, false), (1, false));
    assert_eq!(c.derive_context_and_bypass_flag_ctu(9, CabacContext::CuQpDeltaAbs, SliceType::I, false), (0, true));
    let len = ctx_table_len(CabacContext::CuQpDeltaAbs.index());
    assert_eq!(c.derive_context_and_bypass_flag_ctu(1, CabacContext::CuQpDeltaAbs, SliceType::P, false), (len + 1, false));
    assert_eq!(c.derive_context_and_bypass_flag_ctu(0, CabacContext::EndOfSliceOneBit, SliceType::I, false), (0, false));
    assert_eq!(c._derive_context_and_bypass_flag_residual(0, CabacContext::EndOfTileOneBit, SliceType::I, false), (0, false));
    assert_eq!(c._derive_context_and_bypass_flag_residual(0, CabacContext::AlfSaoTypeIdxLuma, SliceType::I, false), (0, false));
    assert_eq!(c._derive_context_and_bypass_flag_residual(3, CabacContext::LastSigCoeffXSuffix, SliceType::I, false), (0, true));
}

#[test]
fn last_significant_prefix_context_indices() {
    let c = BoolCoder::new();
    let ctu = CodingTreeUnit::new_arc_mutex(0, 0, 4, 4, None, None);
    let tu = &ctu.transform_units[0];
    assert_eq!(tu.get_log2_tb_size(0), (4, 4));
    assert_eq!(tu.get_log2_tb_size(1), (3, 3));
    // Luma 16: offset 6, shift 1.
    assert_eq!(c.derive_context_and_bypass_flag_last_sig_coeff_x_prefix(3, 0, tu, SliceType::I, false), (7, false));
    // Chroma 8: offset 20, shift 1.
    assert_eq!(c.derive_context_and_bypass_flag_last_sig_coeff_y_prefix(5, 1, tu, SliceType::I, false), (22, false));
}

#[test]
fn coefficient_flag_context_indices() {
    let c = BoolCoder::new();
    let mut ctu = CodingTreeUnit::new_arc_mutex(0, 0, 4, 4, None, None);
    ctu.transform_units[0].quantized_transformed_coeffs[0].set(0, 1, 5);
    ctu.transform_units[0].quantized_transformed_coeffs[0].set(1, 0, -2);
    let pass1 = levels16(&[(0, 1, 3), (1, 0, 1)]);
    let tu = &ctu.transform_units[0];
    assert_eq!(
        c.derive_context_and_bypass_flag_for_sig_coeff_flag(0, 0, 0, CabacContext::SigCoeffFlag, tu, SliceType::I, false, false, &pass1, 0),
        (10, false)
    );
    assert_eq!(
        c.derive_context_and_bypass_flag_for_par_level_flag_and_abs_level_gtx_flag(
            CabacContext::ParLevelFlag, tu, 0, 0, 0, 0, (3, 3), SliceType::I, false, false, false, false, &pass1
        ),
        (18, false)
    );
    assert_eq!(
        c.derive_context_and_bypass_flag_for_par_level_flag_and_abs_level_gtx_flag(
            CabacContext::AbsLevelGtxFlag, tu, 0, 0, 0, 1, (3, 3), SliceType::I, false, false, false, false, &pass1
        ),
        (50, false)
    );
    let signs: Vec<Vec<isize>> = vec![vec![0, -1], vec![-1, 0]];
    assert_eq!(
        c.derive_context_and_bypass_flag_for_coeff_sign_flag(tu, 0, 1, 1, 5, 5, SliceType::I, false, false, &signs),
        (0, true)
    );
    assert_eq!(c._derive_context_and_bypass_flag_for_run_copy_flag(0, 3, 10, SliceType::I, false), (4, false));
    let mut ctu2 = CodingTreeUnit::new_arc_mutex(0, 0, 4, 4, None, None);
    ctu2.transform_units[0].transform_skip_flag[0] = true;
    assert_eq!(
        c.derive_context_and_bypass_flag_for_coeff_sign_flag(&ctu2.transform_units[0], 0, 1, 1, 5, 5, SliceType::I, false, false, &signs),
        (2, false)
    );
    ctu2.coding_units[0].ref_idx = [0, 2];
    assert_eq!(
        c._derive_context_and_bypass_flag_for_alf_ctb_filter_alt_idx(1, CabacContext::AlfCtbFilterAltIdx, &ctu2.coding_units[0], SliceType::I, false),
        (2, false)
    );
}

#[test]
fn single_bin_elements_code_with_their_derived_context() {
    let mut ctu = CodingTreeUnit::new_arc_mutex(0, 0, 4, 4, None, None);
    ctu.transform_units[0].quantized_transformed_coeffs[0].set(0, 1, 5);
    ctu.transform_units[0].quantized_transformed_coeffs[0].set(1, 0, -2);
    ctu.transform_units[0].quantized_transformed_coeffs[0].set(0, 5, 1);
    let pass1 = levels16(&[(0, 1, 3), (1, 0, 1)]);
    let tu = &ctu.transform_units[0];

    let (mut c1, mut b1) = (coder(), start());
    c1.encode_cabac_for_sig_coeff_flag(&mut b1, 1, 0, 0, CabacContext::SigCoeffFlag, tu, 0, SliceType::I, false, false, &pass1, 0);
    let (c2, b2) = by_hand(&[true], &[(10, false)], CabacContext::SigCoeffFlag);
    same(&c1, b1, &c2, b2);

    let (mut c1, mut b1) = (coder(), start());
    c1.encode_cabac_for_par_level_flag_and_abs_level_gtx_flag(
        &mut b1, false, CabacContext::ParLevelFlag, 0, tu, 0, 0, 0, (3, 3), SliceType::I, false, false, false, false, &pass1,
    );
    let (c2, b2) = by_hand(&[false], &[(18, false)], CabacContext::ParLevelFlag);
    same(&c1, b1, &c2, b2);

    let signs: Vec<Vec<isize>> = vec![vec![0, -1], vec![-1, 0]];
    let (mut c1, mut b1) = (coder(), start());
    c1.encode_cabac_for_coeff_sign_flag(&mut b1, true, 5, 5, tu, 0, 1, 1, SliceType::I, false, false, &signs);
    let (c2, b2) = by_hand(&[true], &[(0, true)], CabacContext::CoeffSignFlag);
    same(&c1, b1, &c2, b2);

    let (mut c1, mut b1) = (coder(), start());
    c1._encode_cabac_for_run_copy_flag(&mut b1, true, 1, 3, 6, SliceType::I, false);
    let (c2, b2) = by_hand(&[true], &[(6, false)], CabacContext::RunCopyFlag);
    same(&c1, b1, &c2, b2);

    // Sub-block (0, 0) of the 16x16 luma block: the sub-block to its right holds a
    // nonzero coefficient, so the context increment is 1.
    let c = BoolCoder::new();
    assert_eq!(c.derive_ctx_inc_for_sb_coded_flag(0, 0, 4, 4, 0, tu, false), CtxInc::Number(1));
    assert_eq!(c.derive_context_and_bypass_flag_for_sb_coded_flag(tu, 0, 0, 0, false), (1, false));
    assert_eq!(c.derive_ctx_inc_for_sb_coded_flag(1, 1, 4, 4, 0, tu, false), CtxInc::Number(0));
    let (mut c1, mut b1) = (coder(), start());
    c1.encode_cabac_for_sb_coded_flag(&mut b1, true, tu, 0, 0, 0, SliceType::I, false, false);
    let (c2, b2) = by_hand(&[true], &[(1, false)], CabacContext::SbCodedFlag);
    same(&c1, b1, &c2, b2);
}

#[test]
fn coded_sub_block_context_under_transform_skip() {
    let c = BoolCoder::new();
    let mut ctu = CodingTreeUnit::new_arc_mutex(0, 0, 4, 4, None, None);
    ctu.transform_units[0].transform_skip_flag[1] = true;
    // Cb is 8x8 in 4x4 sub-blocks; left sub-block (0, 1) holds a coefficient.
    ctu.transform_units[0].quantized_transformed_coeffs[1].set(5, 1, 3);
    let tu = &ctu.transform_units[0];
    assert_eq!(c.derive_ctx_inc_for_sb_coded_flag(1, 1, 3, 3, 1, tu, false), CtxInc::Number(5));
    // With transform skip residual coding disabled the right and lower neighbours count.
    assert_eq!(c.derive_ctx_inc_for_sb_coded_flag(0, 0, 3, 3, 1, tu, true), CtxInc::Number(3));
}

#[test]
fn level_codes_with_table_contexts() {
    let ctu = CodingTreeUnit::new_arc_mutex(0, 0, 4, 4, None, None);
    let tu = &ctu.transform_units[0];
    let zero_map = levels16(&[]);
    let mut zero_pos = vec![0usize; 16];

    // Rice parameter 0: 5 is 111110, every bin in bypass mode.
    let (mut c1, mut b1) = (coder(), start());
    c1.encode_cabac_for_abs_remainder(
        &mut b1, 5, 0, 0, 0, CabacContext::AbsRemainder, tu, 0, SliceType::I, false, false, &zero_map, 0, &mut zero_pos,
    );
    let bins = [true, true, true, true, true, false];
    let (c2, b2) = by_hand(&bins, &[(0, true); 6], CabacContext::AbsRemainder);
    same(&c1, b1, &c2, b2);
    assert!(zero_pos.iter().all(|z| *z == 0));

    let (mut c1, mut b1) = (coder(), start());
    c1.encode_cabac_for_dec_abs_level(
        &mut b1, 3, 0, 0, 2, CabacContext::DecAbsLevel, tu, 0, SliceType::I, false, &zero_map, 3, &mut zero_pos,
    );
    let (c2, b2) = by_hand(&[true, true, true, false], &[(0, true); 4], CabacContext::DecAbsLevel);
    same(&c1, b1, &c2, b2);
    assert_eq!(zero_pos[2], 2);

    // A prefix of 5 takes a one-bit suffix.
    let (mut c1, mut b1) = (coder(), start());
    c1.encode_cabac_for_last_sig_coeff_x_suffix(&mut b1, 1, 5, CabacContext::LastSigCoeffXSuffix, SliceType::I, false);
    let (c2, b2) = by_hand(&[true], &[(0, true)], CabacContext::LastSigCoeffXSuffix);
    same(&c1, b1, &c2, b2);
    // A prefix of 7 takes a two-bit suffix.
    let (mut c1, mut b1) = (coder(), start());
    c1.encode_cabac_for_last_sig_coeff_y_suffix(&mut b1, 2, 7, CabacContext::LastSigCoeffYSuffix, SliceType::I, false);
    let (c2, b2) = by_hand(&[true, false], &[(0, true), (0, true)], CabacContext::LastSigCoeffYSuffix);
    same(&c1, b1, &c2, b2);
}

#[test]
fn last_significant_prefix_bins_and_contexts() {
    let ctu = CodingTreeUnit::new_arc_mutex(0, 0, 4, 4, None, None);
    let tu = &ctu.transform_units[0];
    let mut c = BoolCoder::new();
    let mut b = start();
    // Largest value 7 for a 16-wide block: 2 is 110.
    c.binarize_cabac_last_sig_coeff_x_prefix(&mut b, 2, tu, 0, false, false);
    assert_eq!(b.collect(), vec![true, true, true, false]);
    let mut b = start();
    c.binarize_cabac_last_sig_coeff_y_prefix(&mut b, 7, tu, 0, false, false);
    assert_eq!(b.collect(), vec![true, true, true, true, true, true, true, true]);

    let (mut c1, mut b1) = (coder(), start());
    c1.encode_cabac_last_sig_coeff_x_prefix(&mut b1, 2, tu, 0, SliceType::I, false, false, false);
    let (c2, b2) = by_hand(&[true, true, false], &[(6, false), (6, false), (7, false)], CabacContext::LastSigCoeffXPrefix);
    same(&c1, b1, &c2, b2);

    let (mut c1, mut b1) = (coder(), start());
    c1.encode_cabac_last_sig_coeff_y_prefix(&mut b1, 1, tu, 0, SliceType::I, false, false, false);
    let (c2, b2) = by_hand(&[true, false], &[(6, false), (6, false)], CabacContext::LastSigCoeffYPrefix);
    same(&c1, b1, &c2, b2);
}

#[test]
fn transform_unit_contexts_and_elements() {
    let c = BoolCoder::new();
    let mut ctu = CodingTreeUnit::new_arc_mutex(0, 0, 4, 4, None, None);
    assert_eq!(
        c.derive_context_and_bypass_flag_tu(0, 0, CabacContext::TuYCodedFlag, &ctu, 0, SliceType::I, false, IntraSubpartitionsSplitType::ISP_NO_SPLIT),
        (0, false)
    );
    // The first sub-partition of its coding unit.
    assert_eq!(
        c.derive_context_and_bypass_flag_tu(0, 0, CabacContext::TuYCodedFlag, &ctu, 0, SliceType::I, false, IntraSubpartitionsSplitType::ISP_HOR_SPLIT),
        (2, false)
    );
    assert_eq!(
        c.derive_context_and_bypass_flag_tu(0, 1, CabacContext::TransformSkipFlag, &ctu, 0, SliceType::I, false, IntraSubpartitionsSplitType::ISP_NO_SPLIT),
        (1, false)
    );
    assert_eq!(
        c.derive_context_and_bypass_flag_tu(0, 0, CabacContext::TuCrCodedFlag, &ctu, 0, SliceType::I, false, IntraSubpartitionsSplitType::ISP_NO_SPLIT),
        (0, false)
    );
    ctu.transform_units[0].quantized_transformed_coeffs[1].set(2, 3, 7);
    assert_eq!(
        c.derive_context_and_bypass_flag_tu(0, 0, CabacContext::TuCrCodedFlag, &ctu, 0, SliceType::I, false, IntraSubpartitionsSplitType::ISP_NO_SPLIT),
        (1, false)
    );
    ctu.transform_units[0].cu_bdpcm_flag[1] = true;
    assert_eq!(
        c.derive_context_and_bypass_flag_tu(0, 0, CabacContext::TuCbCodedFlag, &ctu, 0, SliceType::I, false, IntraSubpartitionsSplitType::ISP_NO_SPLIT),
        (1, false)
    );
    // Cb coded, Cr not: 2 * 1 + 0 - 1.
    assert_eq!(
        c.derive_context_and_bypass_flag_tu(0, 0, CabacContext::TuJointCbcrResidualFlag, &ctu, 0, SliceType::I, false, IntraSubpartitionsSplitType::ISP_NO_SPLIT),
        (1, false)
    );

    let mut b = start();
    let mut c3 = BoolCoder::new();
    // Largest index 2: 1 is 10.
    c3.binarize_cabac_tu(&mut b, 1, CabacContext::CuChromaQpOffsetIdx, 3);
    assert_eq!(b.collect(), vec![true, true, false]);

    // cu_qp_delta_abs 2 is 110, with contexts 0, 1, 1.
    let (mut c1, mut b1) = (coder(), start());
    c1.encode_cabac_tu(&mut b1, 2, 0, CabacContext::CuQpDeltaAbs, &ctu, 0, SliceType::I, false, IntraSubpartitionsSplitType::ISP_NO_SPLIT, 1);
    let (c2, b2) = by_hand(&[true, true, false], &[(0, false), (1, false), (1, false)], CabacContext::CuQpDeltaAbs);
    same(&c1, b1, &c2, b2);
}

#[test]
fn coding_tree_unit_elements() {
    let mut alf = AlfData::new();
    alf.cc_cb_filters_signalled = 3;
    alf.chroma_num_alt_filters = 4;
    let mut c = BoolCoder::new();
    let mut b = start();
    c.binarize_cabac_ctu(&mut b, 2, CabacContext::AlfCtbCcCbIdc, &alf, 1, 8);
    assert_eq!(b.collect(), vec![true, true, true, false]);
    let mut b = start();
    // Largest value 3: 3 is 111.
    c.binarize_cabac_ctu(&mut b, 3, CabacContext::AlfCtbFilterAltIdx, &alf, 1, 8);
    assert_eq!(b.collect(), vec![true, true, true, true]);
    let mut b = start();
    // Five luma filter sets: truncated binary of 3 up to 4 is 6 in three bits, 110.
    c.binarize_cabac_ctu(&mut b, 3, CabacContext::AlfLumaPrevFilterIdx, &alf, 5, 8);
    assert_eq!(b.collect(), vec![true, true, true, false]);

    // Bit depth 8: the SAO offset is at most 7; 3 is 1110, all in bypass mode.
    let (mut c1, mut b1) = (coder(), start());
    c1.encode_cabac_ctu(&mut b1, 3, CabacContext::SaoOffsetAbs, SliceType::I, false, &alf, 1, 8);
    let (c2, b2) = by_hand(&[true, true, true, false], &[(0, true); 4], CabacContext::SaoOffsetAbs);
    same(&c1, b1, &c2, b2);
    // Bit depth 10: at most 31; 4 is 11110.
    let (mut c1, mut b1) = (coder(), start());
    c1.encode_cabac_ctu(&mut b1, 4, CabacContext::SaoOffsetAbs, SliceType::I, false, &alf, 1, 10);
    let bins = [true, true, true, true, false];
    let (c2, b2) = by_hand(&bins, &[(0, true); 5], CabacContext::SaoOffsetAbs);
    same(&c1, b1, &c2, b2);
}

#[test]
fn quadtree_split_rule() {
    let e = ectx();
    assert!(e.derive_allow_split_qt(16, 0, TreeType::SINGLE_TREE, ModeType::MODE_TYPE_ALL));
    assert!(!e.derive_allow_split_qt(8, 0, TreeType::SINGLE_TREE, ModeType::MODE_TYPE_ALL));
    assert!(!e.derive_allow_split_qt(16, 1, TreeType::SINGLE_TREE, ModeType::MODE_TYPE_ALL));
    assert!(e.derive_allow_split_qt(16, 0, TreeType::DUAL_TREE_CHROMA, ModeType::MODE_TYPE_ALL));
    assert!(!e.derive_allow_split_qt(8, 0, TreeType::DUAL_TREE_CHROMA, ModeType::MODE_TYPE_ALL));
    assert!(!e.derive_allow_split_qt(16, 0, TreeType::DUAL_TREE_CHROMA, ModeType::MODE_TYPE_INTRA));
}

#[test]
fn binary_and_ternary_split_rules() {
    let e = ectx();
    let t = TreeType::SINGLE_TREE;
    let m = ModeType::MODE_TYPE_ALL;
    // A vertical binary split of a block of at most 64x64 is ruled out.
    assert!(!e.derive_allow_split_bt(MttSplitMode::SPLIT_BT_VER, 32, 32, 0, 0, 0, 3, 64, 8, 0, t, m, 1920, 1080));
    assert!(e.derive_allow_split_bt(MttSplitMode::SPLIT_BT_HOR, 32, 32, 0, 0, 0, 3, 64, 8, 0, t, m, 1920, 1080));
    // Too deep, too small, or too large for the ternary limit.
    assert!(!e.derive_allow_split_bt(MttSplitMode::SPLIT_BT_HOR, 32, 32, 0, 0, 3, 3, 64, 8, 0, t, m, 1920, 1080));
    assert!(!e.derive_allow_split_bt(MttSplitMode::SPLIT_BT_HOR, 8, 4, 0, 0, 0, 3, 64, 8, 0, t, m, 1920, 1080));
    assert!(!e.derive_allow_split_bt(MttSplitMode::SPLIT_BT_HOR, 128, 64, 0, 0, 0, 3, 128, 8, 0, t, m, 1920, 1080));
    // The second part of a horizontal ternary split may not split horizontally in two.
    assert!(!e.derive_allow_split_bt(MttSplitMode::SPLIT_BT_HOR, 32, 32, 0, 0, 1, 3, 64, 8, 1, t, m, 1920, 1080));
    assert!(e.derive_allow_split_bt(MttSplitMode::SPLIT_BT_HOR, 32, 32, 0, 0, 1, 3, 64, 8, 0, t, m, 1920, 1080));
    // Crossing the right edge of the picture but not the bottom.
    assert!(!e.derive_allow_split_bt(MttSplitMode::SPLIT_BT_HOR, 32, 32, 1900, 0, 0, 3, 64, 8, 0, t, m, 1920, 1080));

    assert!(e._derive_allow_split_tt(MttSplitMode::SPLIT_TT_VER, 32, 32, 0, 0, 64, t, m, 1920, 1080));
    assert!(!e._derive_allow_split_tt(MttSplitMode::SPLIT_TT_VER, 8, 8, 0, 0, 64, t, m, 1920, 1080));
    assert!(!e._derive_allow_split_tt(MttSplitMode::SPLIT_TT_HOR, 128, 32, 0, 0, 128, t, m, 1920, 1080));
    assert!(!e._derive_allow_split_tt(MttSplitMode::SPLIT_TT_VER, 32, 32, 1900, 0, 64, t, m, 1920, 1080));
    // A 64-sample block may not be split in three for inter prediction alone.
    assert!(!e._derive_allow_split_tt(MttSplitMode::SPLIT_TT_VER, 16, 4, 0, 0, 64, t, ModeType::MODE_TYPE_INTER, 1920, 1080));
    assert!(e._derive_allow_split_tt(MttSplitMode::SPLIT_TT_VER, 16, 4, 0, 0, 64, t, m, 1920, 1080));
}

#[test]
fn coding_tree_node_splits() {
    let e = ectx();
    let ctu = CodingTreeUnit::new_arc_mutex(0, 0, 4, 4, None, None);
    let ct = &ctu.coding_trees[0];
    assert!(ct.allow_split_qt(&e));
    assert!(!ct.allow_split_bt(MttSplitMode::SPLIT_BT_VER, 1920, 1080, &e));
    assert!(ct.allow_split_bt(MttSplitMode::SPLIT_BT_HOR, 1920, 1080, &e));
    // The ternary check follows the binary rule with the ternary size limits.
    assert!(ct.allow_split_tt(MttSplitMode::SPLIT_TT_VER, 1920, 1080, &e));
    assert!(!ct.allow_split_tt(MttSplitMode::SPLIT_TT_VER, 8, 8, &e));
}

#[test]
fn neighbouring_block_availability() {
    let mut e = ectx();
    assert!(e.derive_neighbouring_block_availability(16, 16, 15, 16, 8, 8, false, false, false, 1920, 1080, false));
    assert!(!e.derive_neighbouring_block_availability(0, 0, -1, 0, 8, 8, false, false, false, 1920, 1080, false));
    // Right of the block without above-right availability.
    assert!(!e.derive_neighbouring_block_availability(16, 16, 24, 15, 8, 8, false, false, false, 1920, 1080, false));
    assert!(e.derive_neighbouring_block_availability(16, 16, 24, 15, 8, 8, true, false, false, 1920, 1080, false));
    // Outside the picture.
    assert!(!e.derive_neighbouring_block_availability(16, 16, 15, 16, 8, 8, false, false, false, 8, 1080, false));
    // A coding tree block row below.
    assert!(!e.derive_neighbouring_block_availability(0, 0, 0, 200, 8, 8, false, true, false, 1920, 1080, false));
    // Another prediction mode.
    e.cu_pred_mode[0][15][16] = ModeType::MODE_INTER;
    assert!(!e.derive_neighbouring_block_availability(16, 16, 15, 16, 8, 8, false, false, true, 1920, 1080, false));
    assert!(e.derive_neighbouring_block_availability(16, 16, 16, 15, 8, 8, false, false, true, 1920, 1080, false));
}

#[test]
fn split_direction_context() {
    let mut e = ectx();
    let c = BoolCoder::new();
    let g = geometry();
    assert_eq!(c.derive_ctx_inc_for_mtt_split_cu_vertical_flag(16, 16, 0, 16, 16, true, false, false, false, g, &e), CtxInc::Number(4));
    assert_eq!(c.derive_ctx_inc_for_mtt_split_cu_vertical_flag(16, 16, 0, 16, 16, false, true, false, false, g, &e), CtxInc::Number(3));
    // No neighbours at the top-left of the picture.
    assert_eq!(c.derive_ctx_inc_for_mtt_split_cu_vertical_flag(0, 0, 0, 16, 16, true, true, false, false, g, &e), CtxInc::Number(0));
    // Above 8 wide: 16 / 8 = 2; left 16 high: 16 / 16 = 1.
    e.cb_height[0][15][16] = 16;
    assert_eq!(c.derive_ctx_inc_for_mtt_split_cu_vertical_flag(16, 16, 0, 16, 16, true, true, false, false, g, &e), CtxInc::Number(2));
    e.cb_width[0][16][15] = 32;
    assert_eq!(c.derive_ctx_inc_for_mtt_split_cu_vertical_flag(16, 16, 0, 16, 16, true, true, false, false, g, &e), CtxInc::Number(1));
    e.cb_width[0][16][15] = 16;
    assert_eq!(c.derive_ctx_inc_for_mtt_split_cu_vertical_flag(16, 16, 0, 16, 16, true, true, false, false, g, &e), CtxInc::Number(0));
}

#[test]
fn split_flag_contexts_from_neighbouring_nodes() {
    let e = ectx();
    let c = BoolCoder::new();
    let g = geometry();
    let mut left = CodingTreeUnit::new_arc_mutex(0, 16, 3, 3, None, None);
    left.coding_trees[0].cqt_depth = 1;
    let mut above = CodingTreeUnit::new_arc_mutex(16, 0, 5, 5, None, None);
    above.coding_trees[0].cqt_depth = 0;
    let l = Some(&left.coding_trees[0]);
    let a = Some(&above.coding_trees[0]);
    // Left below the root quadtree level, above not; quadtree depth 2 adds 3.
    assert_eq!(
        c.derive_ctx_inc_using_left_and_above_ct(CabacContext::SplitQtFlag, l, a, None, 16, 16, 2, 16, 16, false, true, true, false, true, g, &e),
        CtxInc::Number(4)
    );
    // Left 8 high is smaller; above 32 wide is not; four allowed splits add 3.
    assert_eq!(
        c.derive_ctx_inc_using_left_and_above_ct(CabacContext::SplitCuFlag, l, a, None, 16, 16, 0, 16, 16, false, true, true, false, true, g, &e),
        CtxInc::Number(4)
    );
    // One allowed split adds nothing.
    assert_eq!(
        c.derive_ctx_inc_using_left_and_above_ct(CabacContext::SplitCuFlag, l, a, None, 16, 16, 0, 16, 16, true, false, false, false, false, g, &e),
        CtxInc::Number(1)
    );
    let above_cu = Some(&above.coding_units[0]);
    assert_eq!(
        c.derive_ctx_inc_using_left_and_above_ct(CabacContext::NonInterFlag, l, a, above_cu, 16, 16, 0, 16, 16, true, false, false, false, false, g, &e),
        CtxInc::Number(1)
    );
    // At the top-left of the picture no neighbour is available.
    assert_eq!(
        c.derive_ctx_inc_using_left_and_above_ct(CabacContext::NonInterFlag, None, None, above_cu, 0, 0, 0, 16, 16, true, false, false, false, false, g, &e),
        CtxInc::Number(0)
    );
}

#[test]
fn unit_flag_contexts_from_neighbouring_units() {
    let e = ectx();
    let c = BoolCoder::new();
    let g = geometry();
    let mut left = CodingTreeUnit::new_arc_mutex(0, 16, 4, 4, None, None);
    let mut above = CodingTreeUnit::new_arc_mutex(16, 0, 4, 4, None, None);
    left.coding_units[0].skip_flag = true;
    left.coding_units[0].intra_mip_flag = true;
    above.coding_units[0].intra_mip_flag = true;
    let merge = MergeData {
        merge_idx: 0,
        merge_subblock_flag: true,
        merge_subblock_idx: 0,
        regular_merge_flag: false,
        mmvd_merge_flag: false,
        mmvd_cand_flag: false,
        mmvd_distance_idx: 0,
        mmvd_direction_idx: 0,
        ciip_flag: false,
        merge_gpm_partition_idx: 0,
        merge_gpm_idx0: 0,
        merge_gpm_idx1: 0,
    };
    left.coding_units[0].merge_data = Some(merge);
    above.coding_units[0].merge_data = Some(MergeData { merge_subblock_flag: false, ..merge });
    above.coding_units[0].inter_affine_flag = true;
    let l = Some(&left.coding_units[0]);
    let a = Some(&above.coding_units[0]);
    assert_eq!(c.derive_ctx_inc_using_left_and_above_cu(CabacContext::CuSkipFlag, l, a, 16, 16, 16, 16, g, &e), CtxInc::Number(1));
    assert_eq!(c.derive_ctx_inc_using_left_and_above_cu(CabacContext::IntraMipFlag, l, a, 16, 16, 16, 16, g, &e), CtxInc::Number(2));
    assert_eq!(c.derive_ctx_inc_using_left_and_above_cu(CabacContext::MergeSubblockFlag, l, a, 16, 16, 16, 16, g, &e), CtxInc::Number(2));
    assert_eq!(c.derive_ctx_inc_using_left_and_above_cu(CabacContext::PredModeIbcFlag, l, a, 16, 16, 16, 16, g, &e), CtxInc::Number(0));
    assert_eq!(c.derive_ctx_inc_using_left_and_above_cu(CabacContext::PredModeFlag, l, a, 16, 16, 16, 16, g, &e), CtxInc::Number(1));
    assert_eq!(c.derive_ctx_inc_using_left_and_above_cu(CabacContext::CuSkipFlag, None, None, 0, 0, 16, 16, g, &e), CtxInc::Number(0));
}

#[test]
fn coding_tree_elements_code_with_their_contexts() {
    let e = ectx();
    let g = geometry();
    let c = BoolCoder::new();
    let mut ctu = CodingTreeUnit::new_arc_mutex(0, 0, 4, 4, None, None);
    ctu.coding_trees[0].split_mode = MttSplitMode::SPLIT_BT_VER;
    ctu.coding_trees[0].depth = 1;
    let ct = &ctu.coding_trees[0];
    // Binary flag: vertical (2) at depth 1 (1).
    assert_eq!(
        c.derive_context_and_bypass_flag_ct(0, CabacContext::MttSplitCuBinaryFlag, ct, None, None, None, SliceType::I, false, g, &e),
        (3, false)
    );
    // The block at the top-left: no neighbours; 16x16 allows a quadtree, the
    // horizontal binary and both ternary splits: 3 * ((1 + 1 + 1 + 2 - 1) / 2).
    let mut ctu0 = CodingTreeUnit::new_arc_mutex(0, 0, 4, 4, None, None);
    ctu0.coding_trees[0].split_mode = MttSplitMode::SPLIT_NONE;
    let ct0 = &ctu0.coding_trees[0];
    assert_eq!(
        c.derive_context_and_bypass_flag_ct(0, CabacContext::SplitCuFlag, ct0, None, None, None, SliceType::I, false, g, &e),
        (6, false)
    );
    assert_eq!(
        c.derive_context_and_bypass_flag_ct(0, CabacContext::AlfSaoTypeIdxLuma, ct0, None, None, None, SliceType::I, false, g, &e),
        (0, false)
    );
    let (mut c1, mut b1) = (coder(), start());
    c1.encode_cabac_ct(&mut b1, 1, CabacContext::SplitCuFlag, ct0, None, None, None, SliceType::I, false, g, &e);
    let (c2, b2) = by_hand(&[true], &[(6, false)], CabacContext::SplitCuFlag);
    same(&c1, b1, &c2, b2);
}

#[test]
fn coding_unit_elements_code_with_their_contexts() {
    let e = ectx();
    let g = geometry();
    let c = BoolCoder::new();
    let mut ctu = CodingTreeUnit::new_arc_mutex(0, 0, 4, 4, None, None);
    ctu.coding_units[0].skip_flag = true;
    let ct = &ctu.coding_trees[0];
    let cu = &ctu.coding_units[0];
    assert_eq!(
        c.derive_context_and_bypass_flag_cu(0, CabacContext::RegularMergeFlag, ct, cu, None, None, SliceType::I, false, g, &e),
        (0, false)
    );
    assert_eq!(
        c.derive_context_and_bypass_flag_cu(0, CabacContext::CuSbtFlag, ct, cu, None, None, SliceType::I, false, g, &e),
        (1, false)
    );
    assert_eq!(
        c.derive_context_and_bypass_flag_cu(0, CabacContext::AmvrPrecisionIdx, ct, cu, None, None, SliceType::I, false, g, &e),
        (2, false)
    );
    assert_eq!(
        c.derive_context_and_bypass_flag_cu(0, CabacContext::IntraMipFlag, ct, cu, None, None, SliceType::I, false, g, &e),
        (0, false)
    );
    let mut wide = CodingTreeUnit::new_arc_mutex(0, 0, 5, 3, None, None);
    wide.coding_units[0].skip_flag = false;
    assert_eq!(
        c.derive_context_and_bypass_flag_cu(0, CabacContext::IntraMipFlag, &wide.coding_trees[0], &wide.coding_units[0], None, None, SliceType::I, false, g, &e),
        (3, false)
    );

    let mut c3 = BoolCoder::new();
    let mut b = start();
    // 16x16: largest matrix intra mode 5; 4 is truncated binary 110 (u = 2).
    c3.binarize_cabac_cu(&mut b, 4, CabacContext::IntraMipMode, cu, 1, &e);
    assert_eq!(b.collect(), vec![true, true, true, false]);
    let mut b = start();
    // Six merge candidates: 2 is 110.
    c3.binarize_cabac_cu(&mut b, 2, CabacContext::MergeIdx, cu, 1, &e);
    assert_eq!(b.collect(), vec![true, true, true, false]);
    let mut b = start();
    c3.binarize_cabac_cu(&mut b, 2, CabacContext::InterPredIdc, cu, 1, &e);
    assert_eq!(b.collect(), vec![true, true]);

    // merge_idx 2: bin 0 with context 0, the others bypassed.
    let (mut c1, mut b1) = (coder(), start());
    c1.encode_cabac_cu(&mut b1, 2, CabacContext::MergeIdx, ct, cu, None, None, SliceType::I, false, g, 1, &e);
    let (c2, b2) = by_hand(&[true, true, false], &[(0, false), (0, true), (0, true)], CabacContext::MergeIdx);
    same(&c1, b1, &c2, b2);
}

#[test]
fn decremented_absolute_levels() {
    let ctu = CodingTreeUnit::new_arc_mutex(0, 0, 2, 2, None, None);
    let tu = &ctu.transform_units[0];
    let zero_map = Vec2d::new(0usize, 4, 4);
    // Rice parameter 0: the zero position is 1 (2 in quantizer states 2 and 3).
    assert_eq!(tu.get_dec_abs_level(0, 0, 0, 0, 0, &zero_map), 1);
    assert_eq!(tu.get_dec_abs_level(1, 0, 0, 0, 0, &zero_map), 0);
    assert_eq!(tu.get_dec_abs_level(5, 0, 0, 0, 0, &zero_map), 5);
    assert_eq!(tu.get_dec_abs_level(2, 0, 0, 0, 3, &zero_map), 1);
    assert_eq!(tu.get_dec_abs_level(3, 0, 0, 0, 3, &zero_map), 3);
    // Neighbouring levels summing to 14 give parameter 2: zero position 4.
    let mut a = Vec2d::new(0usize, 4, 4);
    for (y, x, v) in [(0usize, 1usize, 3usize), (0, 2, 3), (1, 1, 2), (1, 0, 4), (2, 0, 2)] {
        a.set(y, x, v);
    }
    assert_eq!(tu.get_dec_abs_level(0, 0, 0, 0, 0, &a), 4);
    assert_eq!(tu.get_dec_abs_level(4, 0, 0, 0, 0, &a), 3);
    assert_eq!(tu.get_dec_abs_level(5, 0, 0, 0, 0, &a), 5);
}

#[test]
fn cross_component_prediction_and_tree_types() {
    let e = ectx();
    let ctu = CodingTreeUnit::new_arc_mutex(0, 0, 4, 4, None, None);
    let cu = &ctu.coding_units[0];
    assert!(cu.is_cclm_enabled(true, false, SliceType::I, &e));
    assert!(!cu.is_cclm_enabled(false, true, SliceType::I, &e));
    assert!(cu.is_cclm_enabled(true, true, SliceType::B, &e));
    let mut small = ectx();
    small.ctb_log2_size_y = 5;
    assert!(cu.is_cclm_enabled(true, true, SliceType::I, &small));
    assert_eq!(ctu.coding_trees[0]._prev_tree_type(0), TreeType::DUAL_TREE_LUMA);
    assert_eq!(ctu.coding_trees[0]._prev_tree_type(2), TreeType::DUAL_TREE_CHROMA);
}

#[test]
fn neighbouring_units_in_the_tile_grid() {
    let t = TileGeometry { ctu_col: 1, ctu_row: 0, num_ctu_cols: 3, num_ctu_rows: 2, log2_ctu_size: 4 };
    let ctu = CodingTreeUnit::new_arc_mutex(32, 16, 4, 4, Some(t), None);
    assert_eq!(ctu._left_ctu_in_tile(), Some((1, 0)));
    assert_eq!(ctu._above_ctu_in_tile(), Some((0, 1)));
    let first = CodingTreeUnit::new_arc_mutex(16, 0, 4, 4, Some(t), None);
    assert_eq!(first._left_ctu_in_tile(), None);
    assert_eq!(first._above_ctu_in_tile(), None);
    let untiled = CodingTreeUnit::new_arc_mutex(32, 16, 4, 4, None, None);
    assert_eq!(untiled._left_ctu_in_tile(), None);
    let tu = &ctu.transform_units[0];
    assert!(tu.is_in_first_qg_in_ctb_row_in_tile(16));
    assert!(!tu.is_in_first_qg_in_ctb_row_in_tile(32));
}
