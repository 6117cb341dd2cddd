use vvcenc::aps::{AdaptationParameterSet, LmcsData};
use vvcenc::aps_encoder::ApsEncoder;
use vvcenc::bins::Bins;
use vvcenc::bool_coder::BoolCoder;
use vvcenc::dpb::DpbParameter;
use vvcenc::dpbp_encoder::DpbpEncoder;
use vvcenc::gci::GeneralConstraintsInfo;
use vvcenc::gci_encoder::GCIEncoder;

fn bits(s: &str) -> Vec<bool> {
    s.chars().filter(|c| *c == '0' || *c == '1').map(|c| c == '1').collect()
}

fn start() -> Bins {
    let mut b = Bins::new();
    b.push_initial_bin(true);
    b
}

fn after_start(b: Bins) -> Vec<bool> {
    let v = b.collect();
    assert!(v[0]);
    v[1..].to_vec()
}

#[test]
fn alf_aps_without_filters() {
    let mut coder = BoolCoder::new();
    let mut enc = ApsEncoder::_new(25, vec![]);
    let aps = AdaptationParameterSet::new_alf(3);
    let v = enc._encode(&mut coder, &aps);
    assert_eq!(v, bits("000 00011 0 0 0 1 0000"));
}

#[test]
fn lmcs_aps_with_one_bin() {
    let mut coder = BoolCoder::new();
    let mut enc = ApsEncoder::_new(25, vec![]);
    let mut aps = AdaptationParameterSet::new_lmcs(0);
    let mut lmcs = LmcsData::new();
    lmcs.delta_cw_prec = 2;
    lmcs.delta_abs_cw = vec![3];
    lmcs.delta_sign_cw_flag = vec![false];
    aps.lmcs_data = Some(lmcs);
    let v = enc._encode(&mut coder, &aps);
    assert_eq!(v, bits("001 00000 0 1 000010000 010 11 0 0 1 00000"));
    assert_eq!(v.len() % 8, 0);
}

#[test]
fn lmcs_delta_max_bin_idx() {
    let mut lmcs = LmcsData::new();
    lmcs.max_bin_idx = 12;
    assert_eq!(lmcs.delta_max_bin_idx(), 3);
}

#[test]
fn dpb_parameters_of_the_highest_sublayer() {
    let mut coder = BoolCoder::new();
    let mut enc = DpbpEncoder::new();
    let params = vec![DpbParameter::new(), DpbParameter::new()];
    let mut b = start();
    enc.encode(&mut coder, &mut b, &params, 2, false);
    assert_eq!(after_start(b), bits("0001001 00101 010"));
    let mut b = start();
    enc.encode(&mut coder, &mut b, &params, 2, true);
    assert_eq!(after_start(b), bits("0001001 00101 010 0001001 00101 010"));
    let mut b = start();
    enc.encode(&mut coder, &mut b, &params[..1], 3, true);
    assert_eq!(after_start(b), bits("0001001 00101 010"));
}

fn no_constraints(num_reserved_bits: usize) -> GeneralConstraintsInfo {
    GeneralConstraintsInfo {
        intra_only_constraint_flag: false,
        all_layers_independent_constraint_flag: false,
        one_au_only_constraint_flag: false,
        sixteen_minus_max_bitdepth_constraint_idc: 0,
        three_minus_max_chroma_format_constraint_idc: 0,
        no_mixed_nalu_types_in_pic_constraint_flag: false,
        no_trail_constraint_flag: false,
        no_stsa_constraint_flag: false,
        no_rasl_constraint_flag: false,
        no_radl_constraint_flag: false,
        no_idr_constraint_flag: false,
        no_cra_constraint_flag: false,
        no_gdr_constraint_flag: false,
        no_aps_constraint_flag: false,
        no_idr_rpl_constraint_flag: false,
        one_tile_per_pic_constraint_flag: false,
        pic_header_in_slice_header_constraint_flag: false,
        one_slice_per_pic_constraint_flag: false,
        no_rectangular_slice_constraint_flag: false,
        one_slice_per_subpic_constraint_flag: false,
        no_subpic_info_constraint_flag: false,
        three_minus_max_log2_ctu_size_constraint_idc: 0,
        no_partition_constraints_override_constraint_flag: false,
        no_mtt_constraint_flag: false,
        no_qtbtt_dual_tree_intra_constraint_flag: false,
        no_palette_constraint_flag: false,
        no_ibc_constraint_flag: false,
        no_isp_constraint_flag: false,
        no_mrl_constraint_flag: false,
        no_mip_constraint_flag: false,
        no_cclm_constraint_flag: false,
        no_ref_pic_resampling_constraint_flag: false,
        no_res_change_in_clvs_constraint_flag: false,
        no_weighted_prediction_constraint_flag: false,
        no_ref_wraparound_constraint_flag: false,
        no_temporal_mvp_constraint_flag: false,
        no_sbtmvp_constraint_flag: false,
        no_amvr_constraint_flag: false,
        no_bdof_constraint_flag: false,
        no_smvd_constraint_flag: false,
        no_dmvr_constraint_flag: false,
        no_mmvd_constraint_flag: false,
        no_affine_motion_constraint_flag: false,
        no_prof_constraint_flag: false,
        no_bcw_constraint_flag: false,
        no_ciip_constraint_flag: false,
        no_gpm_constraint_flag: false,
        no_luma_transform_size_64_constraint_flag: false,
        no_transform_skip_constraint_flag: false,
        no_bdpcm_constraint_flag: false,
        no_mts_constraint_flag: false,
        no_lfnst_constraint_flag: false,
        no_joint_cbcr_constraint_flag: false,
        no_sbt_constraint_flag: false,
        no_act_constraint_flag: false,
        no_explicit_scaling_list_constraint_flag: false,
        no_dep_quant_constraint_flag: false,
        no_sign_data_hiding_constraint_flag: false,
        no_cu_qp_delta_constraint_flag: false,
        no_chroma_qp_offset_constraint_flag: false,
        no_sao_constraint_flag: false,
        no_alf_constraint_flag: false,
        no_ccalf_constraint_flag: false,
        no_lmcs_constraint_flag: false,
        no_ladf_constraint_flag: false,
        no_virtual_boundaries_constraint_flag: false,
        num_reserved_bits,
    }
}

#[test]
fn absent_constraints_are_one_flag_and_alignment() {
    let mut enc = GCIEncoder::new();
    let mut b = start();
    enc.encode(&mut b, &None);
    assert_eq!(after_start(b), bits("0 000000"));
}

#[test]
fn present_constraints_write_every_field() {
    let mut enc = GCIEncoder::new();
    let mut b = start();
    let mut g = no_constraints(0);
    g.intra_only_constraint_flag = true;
    g.sixteen_minus_max_bitdepth_constraint_idc = 8;
    g.no_virtual_boundaries_constraint_flag = true;
    enc.encode(&mut b, &Some(g));
    let v = after_start(b);
    // presence, three flags, four bits of bit depth, then fields up to 79 bits, then alignment.
    assert_eq!(v.len(), 87);
    assert_eq!(&v[..9], &bits("1 100 1000 0")[..]);
    assert!(v[71]);
    assert_eq!(&v[72..80], &bits("00000000")[..]);
    assert!(v[80..].iter().all(|b| !*b));
}

#[test]
fn reserved_bits_follow_their_count() {
    let mut enc = GCIEncoder::new();
    let mut b = start();
    enc.encode(&mut b, &Some(no_constraints(3)));
    let v = after_start(b);
    assert_eq!(&v[72..80], &bits("00000011")[..]);
    assert_eq!(v.len(), 87);
}
