use vvcenc::coeff_scan::last_sig_coeff_prefix_suffix;
use vvcenc::bins::Bins;
use vvcenc::bool_coder::BoolCoder;
use vvcenc::cabac_contexts::{CabacContext, CtxInc};
use vvcenc::common::{IntraSubpartitionsSplitType, ModeType, TreeType, Vec2d};

fn bits(s: &str) -> Vec<bool> {
    s.chars().filter(|c| *c == '0' || *c == '1').map(|c| c == '1').collect()
}

fn start() -> Bins {
    let mut b = Bins::new();
    b.push_initial_bin(true);
    b
}

fn after_start(b: Bins) -> Vec<bool> {
    let v = b.collect();
    assert!(v[0]);
    v[1..].to_vec()
}

#[test]
fn last_significant_prefix_contexts() {
    let c = BoolCoder::new();
    // Luma 8x8: offset 3, shift 1.
    assert_eq!(c.derive_ctx_inc_for_last_sig_coeff_x_prefix(3, 0, 3), CtxInc::Number(4));
    // Luma 32: offset 10, shift 1.
    assert_eq!(c.derive_ctx_inc_for_last_sig_coeff_y_prefix(5, 0, 5), CtxInc::Number(12));
    // Chroma 16: offset 20, shift 2.
    assert_eq!(c.derive_ctx_inc_for_last_sig_coeff_x_prefix(5, 1, 4), CtxInc::Number(21));
    // Chroma 4: shift 0.
    assert_eq!(c.derive_ctx_inc_for_last_sig_coeff_y_prefix(2, 2, 2), CtxInc::Number(22));
}

#[test]
fn coded_flag_contexts() {
    let c = BoolCoder::new();
    assert_eq!(c.derive_ctx_inc_for_tu_y_coded_flag(false, 1, true, IntraSubpartitionsSplitType::ISP_HOR_SPLIT), CtxInc::Number(1));
    assert_eq!(c.derive_ctx_inc_for_tu_y_coded_flag(false, 1, false, IntraSubpartitionsSplitType::ISP_NO_SPLIT), CtxInc::Number(0));
    assert_eq!(c.derive_ctx_inc_for_tu_y_coded_flag(true, 1, false, IntraSubpartitionsSplitType::ISP_VER_SPLIT), CtxInc::Number(2));
    assert_eq!(c.derive_ctx_inc_for_tu_y_coded_flag(false, 1, false, IntraSubpartitionsSplitType::ISP_VER_SPLIT), CtxInc::Number(3));
    assert_eq!(c.derive_ctx_inc_for_tu_cb_coded_flag(0, true), CtxInc::Number(1));
    assert_eq!(c.derive_ctx_inc_for_tu_cr_coded_flag(0, true, false), CtxInc::Number(1));
    assert_eq!(c.derive_ctx_inc_for_tu_cr_coded_flag(0, false, true), CtxInc::Number(2));
    assert_eq!(c.derive_ctx_inc_for_tu_joint_cbcr_residual_flag(0, true, true), CtxInc::Number(2));
    assert_eq!(c.derive_ctx_inc_for_tu_joint_cbcr_residual_flag(0, false, true), CtxInc::Number(0));
}

#[test]
fn block_shape_contexts() {
    let c = BoolCoder::new();
    assert_eq!(c.derive_ctx_inc_for_mtt_split_cu_binary_flag(true, 1), CtxInc::Number(3));
    assert_eq!(c.derive_ctx_inc_for_mtt_split_cu_binary_flag(false, 2), CtxInc::Number(0));
    assert_eq!(c.derive_ctx_inc_for_cu_sbt_flag(0, 16, 16), CtxInc::Number(1));
    assert_eq!(c.derive_ctx_inc_for_cu_sbt_flag(0, 32, 16), CtxInc::Number(0));
    assert_eq!(c.derive_ctx_inc_for_cu_sbt_horizontal_flag(0, 8, 8), CtxInc::Number(0));
    assert_eq!(c.derive_ctx_inc_for_cu_sbt_horizontal_flag(0, 8, 16), CtxInc::Number(1));
    assert_eq!(c.derive_ctx_inc_for_cu_sbt_horizontal_flag(0, 16, 8), CtxInc::Number(2));
    // 8x8: 7 - (1 + 3 + 3) / 2 = 4; 4x8 sums to 12: 5.
    assert_eq!(c.derive_ctx_inc_for_inter_pred_idc(0, 8, 8), CtxInc::Number(4));
    assert_eq!(c.derive_ctx_inc_for_inter_pred_idc(0, 4, 8), CtxInc::Number(5));
    assert_eq!(c.derive_ctx_inc_for_inter_pred_idc(0, 64, 64), CtxInc::Number(1));
}

#[test]
fn mode_contexts() {
    let c = BoolCoder::new();
    assert_eq!(c.derive_ctx_inc_for_intra_luma_not_planar_flag(true), CtxInc::Number(0));
    assert_eq!(c.derive_ctx_inc_for_intra_luma_not_planar_flag(false), CtxInc::Number(1));
    assert_eq!(c.derive_ctx_inc_for_regular_merge_flag(false), CtxInc::Number(1));
    assert_eq!(c.derive_ctx_inc_for_lfnst_idx(0, TreeType::DUAL_TREE_LUMA), CtxInc::Number(1));
    assert_eq!(c.derive_ctx_inc_for_lfnst_idx(0, TreeType::SINGLE_TREE), CtxInc::Number(0));
    assert_eq!(c.derive_ctx_inc_for_transform_skip_flag(0, 2), CtxInc::Number(1));
    assert_eq!(c.derive_ctx_inc_for_bcw_idx(2, true), CtxInc::Bypass);
    assert_eq!(c.derive_ctx_inc_for_amvr_precision_idx(0, true, ModeType::MODE_IBC), CtxInc::Number(1));
    assert_eq!(c.derive_ctx_inc_for_amvr_precision_idx(0, true, ModeType::MODE_INTER), CtxInc::Number(0));
    assert_eq!(c.derive_ctx_inc_for_amvr_precision_idx(0, false, ModeType::MODE_INTER), CtxInc::Number(2));
    assert_eq!(c._derive_ctx_inc_for_run_copy_flag(0, 3, 10), CtxInc::Number(4));
    assert_eq!(c._derive_ctx_inc_for_run_copy_flag(1, 3, 6), CtxInc::Number(6));
    assert_eq!(c._derive_ctx_inc_for_alf_ctb_filter_alt_idx(2), CtxInc::Number(2));
}

#[test]
fn sign_contexts_under_transform_skip() {
    let c = BoolCoder::new();
    let tu_levels: Vec<Vec<isize>> = vec![vec![1, -1], vec![1, 0]];
    // (1, 1): left level -1 (column 0, row 1), above level 1 (column 1, row 0): opposite, 0.
    let ctu = vvcenc::ctu::CodingTreeUnit::new_arc_mutex(0, 0, 3, 3, None, None);
    let u = &ctu.transform_units[0];
    assert_eq!(c.derive_ctx_inc_for_coeff_sign_flag_for_transform_skip_mode(1, 1, 0, u, &tu_levels), CtxInc::Number(0));
    // (1, 0): left level 1, nothing above: 1.
    assert_eq!(c.derive_ctx_inc_for_coeff_sign_flag_for_transform_skip_mode(1, 0, 0, u, &tu_levels), CtxInc::Number(1));
    // (0, 1): nothing left, above level 1: 1.
    assert_eq!(c.derive_ctx_inc_for_coeff_sign_flag_for_transform_skip_mode(0, 1, 0, u, &tu_levels), CtxInc::Number(1));
    let opposite: Vec<Vec<isize>> = vec![vec![0, 1], vec![-1, 0]];
    assert_eq!(c.derive_ctx_inc_for_coeff_sign_flag_for_transform_skip_mode(1, 1, 0, u, &opposite), CtxInc::Number(0));
    let negative: Vec<Vec<isize>> = vec![vec![0, -1], vec![-1, 0]];
    assert_eq!(c.derive_ctx_inc_for_coeff_sign_flag_for_transform_skip_mode(1, 1, 0, u, &negative), CtxInc::Number(2));
    assert_eq!(c.derive_ctx_inc_for_coeff_sign_flag(1, 1, 0, false, 0, 5, u, false, &negative), CtxInc::Bypass);
    assert_eq!(c.derive_ctx_inc_for_coeff_sign_flag(1, 1, 0, true, 6, 5, u, false, &negative), CtxInc::Bypass);
    assert_eq!(c.derive_ctx_inc_for_coeff_sign_flag(1, 1, 0, true, 5, 5, u, false, &negative), CtxInc::Number(2));
}

fn levels(values: &[(usize, usize, usize)]) -> Vec2d<usize> {
    let mut a = Vec2d::new(0usize, 4, 4);
    for (y, x, v) in values {
        a.set(*y, *x, *v);
    }
    a
}

#[test]
fn rice_parameter_from_neighbouring_levels() {
    let c = BoolCoder::new();
    let mut zero_pos = vec![0usize; 16];
    // Template of (0, 0): (1,0)=3, (2,0)=3, (1,1)=2, (0,1)=4, (0,2)=2: sum 14.
    let a = levels(&[(0, 1, 3), (0, 2, 3), (1, 1, 2), (1, 0, 4), (2, 0, 2)]);
    assert_eq!(c.derive_rice_parameter(0, 0, 0, 2, 2, 5, &a, 0, &mut zero_pos), 2);
    assert_eq!(zero_pos[5], 4);
    assert_eq!(c.derive_rice_parameter(0, 0, 0, 2, 2, 6, &a, 3, &mut zero_pos), 2);
    assert_eq!(zero_pos[6], 8);
    // A base level of 4 takes 20 off the sum: parameter 0; no zero position is recorded.
    assert_eq!(c.derive_rice_parameter(4, 0, 0, 2, 2, 7, &a, 0, &mut zero_pos), 0);
    assert_eq!(zero_pos[7], 0);
    // At the bottom-right corner nothing is summed.
    assert_eq!(c.derive_rice_parameter(0, 3, 3, 2, 2, 8, &a, 0, &mut zero_pos), 0);
    assert_eq!(zero_pos[8], 1);
}

#[test]
fn level_remainders_with_and_without_escape() {
    let mut c = BoolCoder::new();
    let a = levels(&[]);
    let mut zero_pos = vec![0usize; 16];
    // Rice parameter 0: 3 is the truncated code 1110.
    let mut b = start();
    c.encode_dec_abs_level(&mut b, 3, 0, 0, 0, 2, 2, &a, 0, &mut zero_pos);
    assert_eq!(after_start(b), bits("1110"));
    assert_eq!(zero_pos[0], 1);
    // 6 reaches the prefix limit: six ones, then the escape of 0 with order 1: 00.
    let mut b = start();
    c.encode_dec_abs_level(&mut b, 6, 0, 0, 0, 2, 2, &a, 0, &mut zero_pos);
    assert_eq!(after_start(b), bits("111111 00"));
    // 11 escapes 5 with order 1: 1011.
    let mut b = start();
    c.encode_dec_abs_level(&mut b, 11, 0, 0, 0, 2, 2, &a, 0, &mut zero_pos);
    assert_eq!(after_start(b), bits("111111 1011"));
}

#[test]
fn remainder_under_transform_skip_uses_parameter_one() {
    let mut c = BoolCoder::new();
    let ctu = vvcenc::ctu::CodingTreeUnit::new_arc_mutex(0, 0, 2, 2, None, None);
    let a = levels(&[]);
    let mut zero_pos = vec![0usize; 16];
    // Parameter 1: 5 is prefix 11 0 and suffix 1.
    let mut b = start();
    c.encode_abs_remainder(&mut b, 5, &ctu.transform_units[0], 0, 0, 0, 0, true, false, &a, 0, &mut zero_pos);
    assert_eq!(after_start(b), bits("110 1"));
    // Without transform skip the derived parameter is 0 here: 5 is 111110.
    let mut b = start();
    c.encode_abs_remainder(&mut b, 5, &ctu.transform_units[0], 0, 0, 0, 0, false, false, &a, 0, &mut zero_pos);
    assert_eq!(after_start(b), bits("111110"));
    assert!(zero_pos.iter().all(|z| *z == 0));
}

#[test]
fn significance_and_level_flag_contexts() {
    let c = BoolCoder::new();
    let mut ctu = vvcenc::ctu::CodingTreeUnit::new_arc_mutex(0, 0, 2, 2, None, None);
    ctu.transform_units[0].quantized_transformed_coeffs[0].set(0, 1, 5);
    ctu.transform_units[0].quantized_transformed_coeffs[0].set(1, 0, -2);
    let pass1 = levels(&[(0, 1, 3), (1, 0, 1)]);
    let tu = &ctu.transform_units[0];
    // Two significant neighbours, first-pass sum 4.
    assert_eq!(c.derive_loc_num_sig_and_loc_sum_abs_pass1(tu, 0, 0, 0, 2, 2, false, &pass1), (2, 4));
    assert_eq!(c.derive_ctx_inc_for_sig_coeff_flag(0, 0, 2, 2, tu, 0, false, &pass1, 0), CtxInc::Number(10));
    assert_eq!(c.derive_ctx_inc_for_sig_coeff_flag(0, 0, 2, 2, tu, 0, false, &pass1, 2), CtxInc::Number(22));
    assert_eq!(
        c.derive_ctx_inc_for_par_level_flag_and_abs_level_gtx_flag(CabacContext::ParLevelFlag, 0, 0, 2, 2, tu, 0, 0, (3, 3), false, &pass1),
        CtxInc::Number(18)
    );
    assert_eq!(
        c.derive_ctx_inc_for_par_level_flag_and_abs_level_gtx_flag(CabacContext::AbsLevelGtxFlag, 0, 0, 2, 2, tu, 0, 1, (3, 3), false, &pass1),
        CtxInc::Number(50)
    );
    assert_eq!(
        c.derive_ctx_inc_for_par_level_flag_and_abs_level_gtx_flag(CabacContext::AbsLevelGtxFlag, 0, 0, 2, 2, tu, 0, 1, (0, 0), false, &pass1),
        CtxInc::Number(32)
    );
}

#[test]
fn level_flag_contexts_under_transform_skip() {
    let c = BoolCoder::new();
    let mut ctu = vvcenc::ctu::CodingTreeUnit::new_arc_mutex(0, 0, 2, 2, None, None);
    ctu.transform_units[0].quantized_transformed_coeffs[0].set(0, 1, 5);
    ctu.transform_units[0].quantized_transformed_coeffs[0].set(1, 0, -2);
    ctu.transform_units[0].transform_skip_flag[0] = true;
    let pass1 = levels(&[(0, 1, 3), (1, 0, 1)]);
    let tu = &ctu.transform_units[0];
    assert_eq!(
        c.derive_ctx_inc_for_par_level_flag_and_abs_level_gtx_flag(CabacContext::ParLevelFlag, 1, 1, 2, 2, tu, 0, 0, (3, 3), false, &pass1),
        CtxInc::Number(32)
    );
    assert_eq!(
        c.derive_ctx_inc_for_par_level_flag_and_abs_level_gtx_flag(CabacContext::AbsLevelGtxFlag, 1, 1, 2, 2, tu, 0, 0, (3, 3), false, &pass1),
        CtxInc::Number(66)
    );
    assert_eq!(
        c.derive_ctx_inc_for_par_level_flag_and_abs_level_gtx_flag(CabacContext::AbsLevelGtxFlag, 1, 1, 2, 2, tu, 0, 2, (3, 3), false, &pass1),
        CtxInc::Number(69)
    );
    // Left and above of (1, 1): both significant, with first-pass levels 1 and 3.
    assert_eq!(c.derive_loc_num_sig_and_loc_sum_abs_pass1(tu, 0, 1, 1, 2, 2, false, &pass1), (2, 4));
    assert_eq!(c.derive_ctx_inc_for_sig_coeff_flag(1, 1, 2, 2, tu, 0, false, &pass1, 0), CtxInc::Number(62));
}

#[test]
fn last_significant_coefficient_in_scan_order() {
    // A 4x4 block is one sub-block in diagonal order: (0,0) (0,1) (1,0) (0,2) (1,1) ...
    let mut ctu = vvcenc::ctu::CodingTreeUnit::new_arc_mutex(0, 0, 2, 2, None, None);
    assert_eq!(ctu.transform_units[0].get_last_sig_coeff_pos(0), (0, 0));
    ctu.transform_units[0].quantized_transformed_coeffs[0].set(0, 1, 5);
    ctu.transform_units[0].quantized_transformed_coeffs[0].set(1, 0, -2);
    assert_eq!(ctu.transform_units[0].get_last_sig_coeff_pos(0), (1, 0));
    ctu.transform_units[0].quantized_transformed_coeffs[0].set(2, 1, 1);
    assert_eq!(ctu.transform_units[0].get_last_sig_coeff_pos(0), (1, 2));
    // An 8x8 block has four 4x4 sub-blocks, coded (0,0) (0,1) (1,0) (1,1): the
    // coefficient at x 5, y 1 (third sub-block) comes after the one at x 0, y 6.
    let mut big = vvcenc::ctu::CodingTreeUnit::new_arc_mutex(0, 0, 3, 3, None, None);
    big.transform_units[0].quantized_transformed_coeffs[0].set(1, 5, 3);
    big.transform_units[0].quantized_transformed_coeffs[0].set(6, 0, -1);
    assert_eq!(big.transform_units[0].get_last_sig_coeff_pos(0), (5, 1));
    big.transform_units[0].quantized_transformed_coeffs[0].set(7, 7, 2);
    assert_eq!(big.transform_units[0].get_last_sig_coeff_pos(0), (7, 7));
}

#[test]
fn last_significant_coordinate_prefix_and_suffix() {
    for v in 0..4 {
        assert_eq!(last_sig_coeff_prefix_suffix(v), (v, 0));
    }
    assert_eq!(last_sig_coeff_prefix_suffix(4), (4, 0));
    assert_eq!(last_sig_coeff_prefix_suffix(5), (4, 1));
    assert_eq!(last_sig_coeff_prefix_suffix(6), (5, 0));
    assert_eq!(last_sig_coeff_prefix_suffix(7), (5, 1));
    assert_eq!(last_sig_coeff_prefix_suffix(8), (6, 0));
    assert_eq!(last_sig_coeff_prefix_suffix(13), (7, 1));
    assert_eq!(last_sig_coeff_prefix_suffix(16), (8, 0));
    assert_eq!(last_sig_coeff_prefix_suffix(31), (9, 7));
    // Each coordinate comes back from its prefix and suffix.
    for v in 0..32usize {
        let (p, s) = last_sig_coeff_prefix_suffix(v);
        let back = if p <= 3 { p } else { (2 + p % 2) * (1 << (p / 2 - 1)) + s };
        assert_eq!(back, v);
    }
}
