use vvcenc::aps::AlfData;
use vvcenc::bins::Bins;
use vvcenc::bool_coder::BoolCoder;
use vvcenc::cabac_contexts::CabacContext;
use vvcenc::common::{IntraPredMode, IntraSubpartitionsSplitType, ModeType, MttSplitMode, SliceType, TreeType};
use vvcenc::cu_syntax::{CuParams, MvdState};
use vvcenc::tu_syntax::{TuScope, TuState};
use vvcenc::ctu::{CodingTreeUnit, MvdCoding, SAO};
use vvcenc::ctu_encoder::{CtuEncoder, CtuScope, CuScope};
use vvcenc::encoder_context::EncoderContext;
use vvcenc::neighbour_ctx::PictureGeometry;

fn ectx() -> EncoderContext {
    EncoderContext {
        ctb_log2_size_y: 7,
        min_qt_size_y: 8,
        min_qt_size_c: 4,
        min_bt_size_y: 4,
        min_tt_size_y: 4,
        max_bt_size_y: 128,
        max_bt_size_c: 64,
        max_tt_size_y: 64,
        max_tt_size_c: 32,
        max_mtt_depth_y: 3,
        max_mtt_depth_c: 3,
        sub_width_c: 2,
        sub_height_c: 2,
        mtt_split_mode: vec![vec![vec![MttSplitMode::SPLIT_NONE]]],
        cu_pred_mode: vec![vec![vec![ModeType::MODE_INTRA; 64]; 64]],
        cb_width: vec![vec![vec![8usize; 64]; 64]; 2],
        cb_height: vec![vec![vec![8usize; 64]; 64]; 2],
        bit_depth: 8,
        num_ref_idx_active: [2, 2],
        max_num_merge_cand: 6,
        max_num_subblock_merge_cand: 5,
        max_num_ibc_merge_cand: 6,
        max_num_gpm_merge_cand: 6,
        no_backward_pred_flag: false,
    }
}

fn geometry() -> PictureGeometry {
    PictureGeometry { pic_width_in_luma_samples: 1920, pic_height_in_luma_samples: 1080, entropy_coding_sync_enabled_flag: false }
}

fn coder() -> BoolCoder {
    let mut c = BoolCoder::new();
    c.init_ctx_table(26);
    c.init_arithmetic_engine();
    c
}

fn start() -> Bins {
    let mut b = Bins::new();
    b.push_initial_bin(true);
    b
}

fn scope() -> CuScope {
    let mut ctu = CodingTreeUnit::new_arc_mutex(0, 0, 4, 4, None, None);
    CuScope {
        ct: ctu.coding_trees.remove(0),
        cu: ctu.coding_units.remove(0),
        left_cu: None,
        above_cu: None,
        slice_type: SliceType::I,
        cabac_init_flag: false,
        geometry: geometry(),
        chroma_qp_offset_list_len: 1,
    }
}

#[test]
fn motion_vector_differences_code_element_by_element() {
    let mvd = MvdCoding {
        abs_mvd_greater0_flag: [true, true],
        abs_mvd_greater1_flag: [true, false],
        abs_mvd: [6, 1],
        sign_flag: [true, false],
    };
    let s = scope();
    let mut enc = CtuEncoder::new(ectx(), coder());
    let mut b1 = start();
    enc.encode_mvd(&mut b1, &mvd, &s);
    // The same elements one by one: both "greater than 0" flags, both "greater than
    // 1" flags, then the first component's value less 2 and sign, the second's sign.
    let e = ectx();
    let mut c2 = coder();
    let mut b2 = start();
    let elems = [
        (CabacContext::AbsMvdGreater0Flag, 1),
        (CabacContext::AbsMvdGreater0Flag, 1),
        (CabacContext::AbsMvdGreater1Flag, 1),
        (CabacContext::AbsMvdGreater1Flag, 0),
        (CabacContext::AbsMvd, 4),
        (CabacContext::MvdSignFlag, 1),
        (CabacContext::MvdSignFlag, 0),
    ];
    for (ctx, val) in elems {
        c2.encode_cabac_cu(&mut b2, val, ctx, &s.ct, &s.cu, None, None, SliceType::I, false, geometry(), 1, &e);
    }
    assert_eq!((enc.coder.cabac_ivl_curr_range, enc.coder.cabac_ivl_offset, enc.coder.cabac_bits_outstanding), (c2.cabac_ivl_curr_range, c2.cabac_ivl_offset, c2.cabac_bits_outstanding));
    assert_eq!(enc.coder.cabac_p_state_idx, c2.cabac_p_state_idx);
    assert_eq!(b1.num_bins, b2.num_bins);
    assert_eq!(b1.collect(), b2.collect());
    // A zero difference codes only its two flags.
    let zero = MvdCoding { abs_mvd_greater0_flag: [false, false], abs_mvd_greater1_flag: [false, false], abs_mvd: [0, 0], sign_flag: [false, false] };
    let mut enc = CtuEncoder::new(ectx(), coder());
    let mut b3 = start();
    enc.encode_mvd(&mut b3, &zero, &s);
    let mut c4 = coder();
    let mut b4 = start();
    c4.encode_cabac_cu(&mut b4, 0, CabacContext::AbsMvdGreater0Flag, &s.ct, &s.cu, None, None, SliceType::I, false, geometry(), 1, &e);
    c4.encode_cabac_cu(&mut b4, 0, CabacContext::AbsMvdGreater0Flag, &s.ct, &s.cu, None, None, SliceType::I, false, geometry(), 1, &e);
    assert_eq!((enc.coder.cabac_ivl_curr_range, enc.coder.cabac_ivl_offset), (c4.cabac_ivl_curr_range, c4.cabac_ivl_offset));
    assert_eq!(b3.collect(), b4.collect());
}

fn ctu_scope() -> CtuScope {
    CtuScope {
        ctb_to_tile_col_bd: vec![0, 0, 0],
        first_ctb_row_in_slice: false,
        sao_type_idx: vec![vec![vec![1, 1], vec![1, 1]]; 3],
        chroma_present: true,
        sao_luma_used_flag: true,
        sao_chroma_used_flag: true,
        slice_type: SliceType::I,
        cabac_init_flag: false,
        alf: AlfData::new(),
        num_alf_aps_ids_luma: 0,
        bit_depth: 8,
    }
}

fn offsets(c: [[usize; 4]; 3]) -> Vec<Vec<Vec<Vec<usize>>>> {
    c.iter().map(|o| vec![vec![o.to_vec(); 2]; 2]).collect()
}

#[test]
fn sample_adaptive_offsets_code_element_by_element() {
    let s = ctu_scope();
    let sao = SAO {
        merge_left_flag: false,
        merge_up_flag: false,
        type_idx_luma: 1,
        type_idx_chroma: 1,
        offset_abs: offsets([[1, 0, 2, 0], [1, 1, 0, 0], [0, 1, 1, 0]]),
        offset_sign_flag: vec![vec![vec![vec![true, false, false, false]; 2]; 2]; 3],
        band_position: vec![vec![vec![5, 5]; 2]; 3],
        eo_class_luma: 0,
        eo_class_chroma: 1,
    };
    let mut enc = CtuEncoder::new(ectx(), coder());
    let mut b1 = start();
    enc.encode_sao(&mut b1, &sao, &s, 0, 0);
    // Band offsets everywhere: luma and the first chroma component code their type,
    // each component its four offsets, the signs of those not zero and the band
    // position (the second chroma component shares the first one's type).
    let elems = [
        (CabacContext::AlfSaoTypeIdxLuma, 1),
        (CabacContext::SaoOffsetAbs, 1),
        (CabacContext::SaoOffsetAbs, 0),
        (CabacContext::SaoOffsetAbs, 2),
        (CabacContext::SaoOffsetAbs, 0),
        (CabacContext::SaoOffsetSignFlag, 1),
        (CabacContext::SaoOffsetSignFlag, 0),
        (CabacContext::SaoBandPosition, 5),
        (CabacContext::AlfSaoTypeIdxChroma, 1),
        (CabacContext::SaoOffsetAbs, 1),
        (CabacContext::SaoOffsetAbs, 1),
        (CabacContext::SaoOffsetAbs, 0),
        (CabacContext::SaoOffsetAbs, 0),
        (CabacContext::SaoOffsetSignFlag, 1),
        (CabacContext::SaoOffsetSignFlag, 0),
        (CabacContext::SaoBandPosition, 5),
        (CabacContext::SaoOffsetAbs, 0),
        (CabacContext::SaoOffsetAbs, 1),
        (CabacContext::SaoOffsetAbs, 1),
        (CabacContext::SaoOffsetAbs, 0),
        (CabacContext::SaoOffsetSignFlag, 0),
        (CabacContext::SaoOffsetSignFlag, 0),
        (CabacContext::SaoBandPosition, 5),
    ];
    let mut c2 = coder();
    let mut b2 = start();
    for (ctx, val) in elems {
        c2.encode_cabac_ctu(&mut b2, val, ctx, SliceType::I, false, &s.alf, 0, 8);
    }
    assert_eq!((enc.coder.cabac_ivl_curr_range, enc.coder.cabac_ivl_offset), (c2.cabac_ivl_curr_range, c2.cabac_ivl_offset));
    assert_eq!(b1.collect(), b2.collect());
    // A unit merged with its left neighbour codes only the merge flag.
    let merged = SAO { merge_left_flag: true, ..sao };
    let mut enc = CtuEncoder::new(ectx(), coder());
    let mut b3 = start();
    enc.encode_sao(&mut b3, &merged, &s, 1, 1);
    let mut c4 = coder();
    let mut b4 = start();
    c4.encode_cabac_ctu(&mut b4, 1, CabacContext::AlfSaoMergeLeftFlag, SliceType::I, false, &s.alf, 0, 8);
    assert_eq!(b3.collect(), b4.collect());
    assert_eq!(enc.coder.cabac_ivl_curr_range, c4.cabac_ivl_curr_range);
}

fn params() -> CuParams {
    CuParams {
        ibc_enabled_flag: false,
        palette_enabled_flag: false,
        act_enabled_flag: false,
        bdpcm_enabled_flag: false,
        mip_enabled_flag: false,
        mrl_enabled_flag: false,
        isp_enabled_flag: false,
        chroma_present: true,
        cclm_enabled_flag: false,
        qtbtt_dual_tree_intra_flag: false,
        affine_enabled_flag: false,
        six_param_affine_enabled_flag: false,
        smvd_enabled_flag: false,
        amvr_enabled_flag: false,
        affine_amvr_enabled_flag: false,
        bcw_enabled_flag: false,
        sbt_enabled_flag: false,
        lfnst_enabled_flag: false,
        mvd_l1_zero_flag: false,
        luma_weight_l0_flag: vec![false; 2],
        luma_weight_l1_flag: vec![false; 2],
        chroma_weight_l0_flag: vec![false; 2],
        chroma_weight_l1_flag: vec![false; 2],
        max_ts_size: 32,
        ctb_size_y: 128,
        log2_ctb_size: 7,
        max_tb_size_y: 64,
        min_tb_size_y: 4,
        motion_model_idc: 0,
        ref_idx_sym_l0: -1,
        ref_idx_sym_l1: -1,
        isp_split_type: IntraSubpartitionsSplitType::ISP_NO_SPLIT,
        num_intra_subpartitions: 1,
        intra_mip_flag_at: false,
        first_tu_coded: [false; 3],
        first_tu_transform_skip: [false; 3],
        lfnst_dc_only: true,
        lfnst_zero_out_sig_coeff_flag: true,
        mts_dc_only: true,
        mts_zero_out_sig_coeff_flag: true,
    }
}

fn no_mvd() -> MvdState {
    MvdState { mvd_l0: (0, 0), mvd_l1: (0, 0), mvd_cp_l0: [(0, 0); 3], mvd_cp_l1: [(0, 0); 3] }
}

fn coded_like(s: &CuScope, slice_type: SliceType, elems: &[(CabacContext, usize)]) -> (BoolCoder, Bins) {
    let e = ectx();
    let mut c = coder();
    let mut b = start();
    for &(ctx, val) in elems {
        c.encode_cabac_cu(&mut b, val, ctx, &s.ct, &s.cu, None, None, slice_type, false, geometry(), 1, &e);
    }
    (c, b)
}

#[test]
fn planar_intra_unit_codes_its_mode_syntax() {
    let mut s = scope();
    s.cu.pred_mode = [ModeType::MODE_INTRA; 2];
    s.cu.tree_type = TreeType::SINGLE_TREE;
    s.cu.mode_type = ModeType::MODE_TYPE_ALL;
    s.cu.intra_pred_mode = [IntraPredMode::PLANAR; 3];
    s.cu.intra_luma_ref_idx = 0;
    s.cu.intra_subpartitions_mode_flag = false;
    s.cu.intra_mip_flag = false;
    s.cu.pred_mode_plt_flag = false;
    s.cu.act_enabled_flag = false;
    s.cu.intra_chroma_pred_mode = 4;
    s.cu.coded_flag = false;
    let mut enc = CtuEncoder::new(ectx(), coder());
    let mut b1 = start();
    let mut st = no_mvd();
    enc.encode_coding_unit(&mut b1, &s, &params(), &mut st);
    // Planar is always the first most probable mode: the flag, "planar", then the
    // chroma mode taken from luma.
    let (c2, b2) = coded_like(
        &s,
        SliceType::I,
        &[(CabacContext::IntraLumaMpmFlag, 1), (CabacContext::IntraLumaNotPlanarFlag, 0), (CabacContext::IntraChromaPredMode, 4)],
    );
    assert_eq!((enc.coder.cabac_ivl_curr_range, enc.coder.cabac_ivl_offset), (c2.cabac_ivl_curr_range, c2.cabac_ivl_offset));
    assert_eq!(enc.coder.cabac_p_state_idx, c2.cabac_p_state_idx);
    assert_eq!(b1.num_bins, b2.num_bins);
    assert_eq!(b1.collect(), b2.collect());
    assert_eq!((st.mvd_l0, st.mvd_l1), ((0, 0), (0, 0)));
}

#[test]
fn angular_intra_unit_codes_its_mode_remainder() {
    let mut s = scope();
    s.cu.pred_mode = [ModeType::MODE_INTRA; 2];
    s.cu.tree_type = TreeType::SINGLE_TREE;
    s.cu.mode_type = ModeType::MODE_TYPE_ALL;
    s.cu.intra_pred_mode = [IntraPredMode::ANGULAR34, IntraPredMode::PLANAR, IntraPredMode::PLANAR];
    s.cu.intra_luma_ref_idx = 0;
    s.cu.intra_subpartitions_mode_flag = false;
    s.cu.intra_mip_flag = false;
    s.cu.pred_mode_plt_flag = false;
    s.cu.act_enabled_flag = false;
    s.cu.intra_chroma_pred_mode = 4;
    s.cu.coded_flag = false;
    // Without neighbours the most probable modes are 1, 50, 18, 46 and 54: mode 34
    // is not among them and has two of them below it, so its remainder is 31.
    assert_eq!(s.cu.get_intra_luma_mpm_flag_and_idx_and_remainder(None, None, 7), (false, 0, 31));
    let mut enc = CtuEncoder::new(ectx(), coder());
    let mut b1 = start();
    let mut st = no_mvd();
    enc.encode_coding_unit(&mut b1, &s, &params(), &mut st);
    let (c2, b2) = coded_like(
        &s,
        SliceType::I,
        &[(CabacContext::IntraLumaMpmFlag, 0), (CabacContext::IntraLumaMpmRemainder, 31), (CabacContext::IntraChromaPredMode, 4)],
    );
    assert_eq!((enc.coder.cabac_ivl_curr_range, enc.coder.cabac_ivl_offset), (c2.cabac_ivl_curr_range, c2.cabac_ivl_offset));
    assert_eq!(enc.coder.cabac_p_state_idx, c2.cabac_p_state_idx);
    assert_eq!(b1.collect(), b2.collect());
}

#[test]
fn last_significant_position_codes_prefixes_then_suffixes() {
    let mut ctu = CodingTreeUnit::new_arc_mutex(0, 0, 3, 3, None, None);
    ctu.transform_units[0].quantized_transformed_coeffs[0].set(1, 5, 3);
    let tu = &ctu.transform_units[0];
    let mut enc = CtuEncoder::new(ectx(), coder());
    let mut b1 = start();
    let pos = enc.encode_last_sig_coeff_position(&mut b1, tu, 0, SliceType::I, false, false, false);
    assert_eq!(pos, (5, 1));
    // x 5 is prefix 4 with the one-bit suffix 1; y 1 is prefix 1 alone.
    let mut c2 = coder();
    let mut b2 = start();
    c2.encode_cabac_last_sig_coeff_x_prefix(&mut b2, 4, tu, 0, SliceType::I, false, false, false);
    c2.encode_cabac_last_sig_coeff_y_prefix(&mut b2, 1, tu, 0, SliceType::I, false, false, false);
    c2.encode_cabac_for_last_sig_coeff_x_suffix(&mut b2, 1, 4, CabacContext::LastSigCoeffXSuffix, SliceType::I, false);
    assert_eq!((enc.coder.cabac_ivl_curr_range, enc.coder.cabac_ivl_offset), (c2.cabac_ivl_curr_range, c2.cabac_ivl_offset));
    assert_eq!(enc.coder.cabac_p_state_idx, c2.cabac_p_state_idx);
    assert_eq!(b1.collect(), b2.collect());
    // An all-zero block codes (0, 0): two one-bin prefixes of 0.
    let empty = CodingTreeUnit::new_arc_mutex(0, 0, 3, 3, None, None);
    let mut enc = CtuEncoder::new(ectx(), coder());
    let mut b3 = start();
    assert_eq!(enc.encode_last_sig_coeff_position(&mut b3, &empty.transform_units[0], 0, SliceType::I, false, false, false), (0, 0));
    let mut c4 = coder();
    let mut b4 = start();
    c4.encode_cabac_last_sig_coeff_x_prefix(&mut b4, 0, &empty.transform_units[0], 0, SliceType::I, false, false, false);
    c4.encode_cabac_last_sig_coeff_y_prefix(&mut b4, 0, &empty.transform_units[0], 0, SliceType::I, false, false, false);
    assert_eq!(b3.collect(), b4.collect());
    assert_eq!(enc.coder.cabac_ivl_curr_range, c4.cabac_ivl_curr_range);
}

fn tu_scope(ctu: CodingTreeUnit, qp_delta_enabled: bool, delta: isize) -> TuScope {
    TuScope {
        ctu,
        u: 0,
        slice_type: SliceType::I,
        cabac_init_flag: false,
        isp_split_type: IntraSubpartitionsSplitType::ISP_NO_SPLIT,
        num_intra_subpartitions: 1,
        chroma_qp_offset_list_len: 1,
        monochrome: false,
        cu_qp_delta_enabled_flag: qp_delta_enabled,
        cu_chroma_qp_offset_enabled_flag: false,
        joint_cbcr_enabled_flag: false,
        max_tb_size_y: 64,
        cu_qp_delta: delta,
    }
}

fn fresh_tu_state() -> TuState {
    TuState { infer_tu_cbf_luma: true, is_cu_qp_delta_coded: false, cu_qp_delta_val: 0, is_cu_chroma_qp_offset_coded: false }
}

fn tu_coded_like(s: &TuScope, elems: &[(CabacContext, usize)]) -> (BoolCoder, Bins) {
    let mut c = coder();
    let mut b = start();
    for &(ctx, val) in elems {
        c.encode_cabac_tu(&mut b, val, 0, ctx, &s.ctu, 0, SliceType::I, false, IntraSubpartitionsSplitType::ISP_NO_SPLIT, 1);
    }
    (c, b)
}

fn head_ctu() -> CodingTreeUnit {
    let mut ctu = CodingTreeUnit::new_arc_mutex(0, 0, 2, 2, None, None);
    ctu.coding_units[0].pred_mode = [ModeType::MODE_INTRA; 2];
    ctu.coding_units[0].act_enabled_flag = false;
    ctu.coding_units[0].sbt_flag = false;
    ctu.transform_units[0].quantized_transformed_coeffs[0].set(0, 1, 5);
    ctu
}

#[test]
fn transform_unit_head_codes_coded_flags_and_qp_delta() {
    // Chroma flags (both blocks empty), then the luma flag of the intra unit.
    let s = tu_scope(head_ctu(), false, 0);
    let mut enc = CtuEncoder::new(ectx(), coder());
    let mut b1 = start();
    let mut st = fresh_tu_state();
    enc.encode_transform_unit_head(&mut b1, &s, &mut st);
    let (c2, b2) = tu_coded_like(&s, &[(CabacContext::TuCbCodedFlag, 0), (CabacContext::TuCrCodedFlag, 0), (CabacContext::TuYCodedFlag, 1)]);
    assert_eq!((enc.coder.cabac_ivl_curr_range, enc.coder.cabac_ivl_offset), (c2.cabac_ivl_curr_range, c2.cabac_ivl_offset));
    assert_eq!(enc.coder.cabac_p_state_idx, c2.cabac_p_state_idx);
    assert_eq!(b1.collect(), b2.collect());
    assert!(!st.is_cu_qp_delta_coded);
    // With QP deltas on, a coded block carries its delta: magnitude 3, negative;
    // the delta is then recorded and not coded again.
    let s = tu_scope(head_ctu(), true, -3);
    let mut enc = CtuEncoder::new(ectx(), coder());
    let mut b3 = start();
    let mut st = fresh_tu_state();
    enc.encode_transform_unit_head(&mut b3, &s, &mut st);
    let (c4, b4) = tu_coded_like(
        &s,
        &[
            (CabacContext::TuCbCodedFlag, 0),
            (CabacContext::TuCrCodedFlag, 0),
            (CabacContext::TuYCodedFlag, 1),
            (CabacContext::CuQpDeltaAbs, 3),
            (CabacContext::CuQpDeltaSignFlag, 1),
        ],
    );
    assert_eq!((enc.coder.cabac_ivl_curr_range, enc.coder.cabac_ivl_offset), (c4.cabac_ivl_curr_range, c4.cabac_ivl_offset));
    assert_eq!(b3.collect(), b4.collect());
    assert!(st.is_cu_qp_delta_coded);
    assert_eq!(st.cu_qp_delta_val, -3);
    let mut b5 = start();
    let mut enc2 = CtuEncoder::new(ectx(), coder());
    enc2.encode_transform_unit_head(&mut b5, &s, &mut st);
    let (c6, b6) = tu_coded_like(&s, &[(CabacContext::TuCbCodedFlag, 0), (CabacContext::TuCrCodedFlag, 0), (CabacContext::TuYCodedFlag, 1)]);
    assert_eq!(b5.collect(), b6.collect());
    assert_eq!(enc2.coder.cabac_ivl_curr_range, c6.cabac_ivl_curr_range);
}
