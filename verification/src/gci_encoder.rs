//! Writing the general constraints information.
use crate::aps_encoder::push_flag;
use crate::bins::{appended, lemma_appended_nothing, lemma_appended_trans, Bins};
use crate::bits::{fits, repeat_bit, word_bits};
use crate::gci::GeneralConstraintsInfo;
use vstd::prelude::*;

verus! {

/// The bins of fixed-width fields: each value's `width` low bits, most significant
/// first, field after field.
#[verifier::opaque]
pub open spec fn fields_bits(f: Seq<(u64, usize)>) -> Seq<bool>
    decreases f.len(),
{
    if f.len() == 0 {
        Seq::empty()
    } else {
        fields_bits(f.drop_last()) + word_bits(f.last().0, f.last().1 as nat)
    }
}

/// The fields for general constraints and the picture format, with their widths.
#[verifier::opaque]
pub open spec fn gci_general_items(g: GeneralConstraintsInfo) -> Seq<(u64, usize)> {
    seq![
        (g.intra_only_constraint_flag as u64, 1usize),
        (g.all_layers_independent_constraint_flag as u64, 1usize),
        (g.one_au_only_constraint_flag as u64, 1usize),
        (g.sixteen_minus_max_bitdepth_constraint_idc as u64, 4usize),
        (g.three_minus_max_chroma_format_constraint_idc as u64, 2usize),
    ]
}

/// The fields for NAL unit types, with their widths.
#[verifier::opaque]
pub open spec fn gci_nal_unit_items(g: GeneralConstraintsInfo) -> Seq<(u64, usize)> {
    seq![
        (g.no_mixed_nalu_types_in_pic_constraint_flag as u64, 1usize),
        (g.no_trail_constraint_flag as u64, 1usize),
        (g.no_stsa_constraint_flag as u64, 1usize),
        (g.no_rasl_constraint_flag as u64, 1usize),
        (g.no_radl_constraint_flag as u64, 1usize),
        (g.no_idr_constraint_flag as u64, 1usize),
        (g.no_cra_constraint_flag as u64, 1usize),
        (g.no_gdr_constraint_flag as u64, 1usize),
        (g.no_aps_constraint_flag as u64, 1usize),
        (g.no_idr_rpl_constraint_flag as u64, 1usize),
    ]
}

/// The fields for tile, slice and subpicture partitioning, with their widths.
#[verifier::opaque]
pub open spec fn gci_partitioning_items(g: GeneralConstraintsInfo) -> Seq<(u64, usize)> {
    seq![
        (g.one_tile_per_pic_constraint_flag as u64, 1usize),
        (g.pic_header_in_slice_header_constraint_flag as u64, 1usize),
        (g.one_slice_per_pic_constraint_flag as u64, 1usize),
        (g.no_rectangular_slice_constraint_flag as u64, 1usize),
        (g.one_slice_per_subpic_constraint_flag as u64, 1usize),
        (g.no_subpic_info_constraint_flag as u64, 1usize),
    ]
}

/// The fields for CTU and block partitioning, with their widths.
#[verifier::opaque]
pub open spec fn gci_block_items(g: GeneralConstraintsInfo) -> Seq<(u64, usize)> {
    seq![
        (g.three_minus_max_log2_ctu_size_constraint_idc as u64, 2usize),
        (g.no_partition_constraints_override_constraint_flag as u64, 1usize),
        (g.no_mtt_constraint_flag as u64, 1usize),
        (g.no_qtbtt_dual_tree_intra_constraint_flag as u64, 1usize),
    ]
}

/// The fields for intra coding tools, with their widths.
#[verifier::opaque]
pub open spec fn gci_intra_items(g: GeneralConstraintsInfo) -> Seq<(u64, usize)> {
    seq![
        (g.no_palette_constraint_flag as u64, 1usize),
        (g.no_ibc_constraint_flag as u64, 1usize),
        (g.no_isp_constraint_flag as u64, 1usize),
        (g.no_mrl_constraint_flag as u64, 1usize),
        (g.no_mip_constraint_flag as u64, 1usize),
    ]
}

/// The fields for reference picture and temporal motion vector tools, with their widths.
#[verifier::opaque]
pub open spec fn gci_inter_picture_items(g: GeneralConstraintsInfo) -> Seq<(u64, usize)> {
    seq![
        (g.no_cclm_constraint_flag as u64, 1usize),
        (g.no_ref_pic_resampling_constraint_flag as u64, 1usize),
        (g.no_res_change_in_clvs_constraint_flag as u64, 1usize),
        (g.no_weighted_prediction_constraint_flag as u64, 1usize),
        (g.no_ref_wraparound_constraint_flag as u64, 1usize),
        (g.no_temporal_mvp_constraint_flag as u64, 1usize),
    ]
}

/// The fields for motion vector coding and inter prediction tools, with their widths.
#[verifier::opaque]
pub open spec fn gci_inter_block_items(g: GeneralConstraintsInfo) -> Seq<(u64, usize)> {
    seq![
        (g.no_sbtmvp_constraint_flag as u64, 1usize),
        (g.no_amvr_constraint_flag as u64, 1usize),
        (g.no_bdof_constraint_flag as u64, 1usize),
        (g.no_smvd_constraint_flag as u64, 1usize),
        (g.no_dmvr_constraint_flag as u64, 1usize),
        (g.no_mmvd_constraint_flag as u64, 1usize),
        (g.no_affine_motion_constraint_flag as u64, 1usize),
        (g.no_prof_constraint_flag as u64, 1usize),
        (g.no_bcw_constraint_flag as u64, 1usize),
        (g.no_ciip_constraint_flag as u64, 1usize),
        (g.no_gpm_constraint_flag as u64, 1usize),
    ]
}

/// The fields for transform, quantization and residual coding tools, with their widths.
#[verifier::opaque]
pub open spec fn gci_residual_items(g: GeneralConstraintsInfo) -> Seq<(u64, usize)> {
    seq![
        (g.no_luma_transform_size_64_constraint_flag as u64, 1usize),
        (g.no_transform_skip_constraint_flag as u64, 1usize),
        (g.no_bdpcm_constraint_flag as u64, 1usize),
        (g.no_mts_constraint_flag as u64, 1usize),
        (g.no_lfnst_constraint_flag as u64, 1usize),
        (g.no_joint_cbcr_constraint_flag as u64, 1usize),
        (g.no_sbt_constraint_flag as u64, 1usize),
        (g.no_act_constraint_flag as u64, 1usize),
        (g.no_explicit_scaling_list_constraint_flag as u64, 1usize),
        (g.no_dep_quant_constraint_flag as u64, 1usize),
        (g.no_sign_data_hiding_constraint_flag as u64, 1usize),
        (g.no_cu_qp_delta_constraint_flag as u64, 1usize),
        (g.no_chroma_qp_offset_constraint_flag as u64, 1usize),
    ]
}

/// The fields for loop filters, and the number of reserved bits, with their widths.
#[verifier::opaque]
pub open spec fn gci_loop_filter_items(g: GeneralConstraintsInfo) -> Seq<(u64, usize)> {
    seq![
        (g.no_sao_constraint_flag as u64, 1usize),
        (g.no_alf_constraint_flag as u64, 1usize),
        (g.no_ccalf_constraint_flag as u64, 1usize),
        (g.no_lmcs_constraint_flag as u64, 1usize),
        (g.no_ladf_constraint_flag as u64, 1usize),
        (g.no_virtual_boundaries_constraint_flag as u64, 1usize),
        (g.num_reserved_bits as u64, 8usize),
    ]
}

/// The coded constraint fields of `g` up to the intra coding tools.
pub open spec fn gci_head_fields(g: GeneralConstraintsInfo) -> Seq<bool> {
    fields_bits(gci_general_items(g)) + fields_bits(gci_nal_unit_items(g)) + fields_bits(
        gci_partitioning_items(g),
    ) + fields_bits(gci_block_items(g)) + fields_bits(gci_intra_items(g))
}

/// The coded constraint fields of `g` from the inter coding tools on.
pub open spec fn gci_tail_fields(g: GeneralConstraintsInfo) -> Seq<bool> {
    fields_bits(gci_inter_picture_items(g)) + fields_bits(gci_inter_block_items(g)) + fields_bits(
        gci_residual_items(g),
    ) + fields_bits(gci_loop_filter_items(g))
}

/// The coded constraint fields of `g`.
pub open spec fn gci_fields(g: GeneralConstraintsInfo) -> Seq<bool> {
    gci_head_fields(g) + gci_tail_fields(g)
}

/// The coded general constraints information: a presence flag, the constraints with
/// the reserved zero bits, and zero bits up to the next byte boundary of `start` bins in all.
pub open spec fn gci_bits(gci: Option<GeneralConstraintsInfo>, start: nat) -> Seq<bool> {
    let p = seq![gci is Some] + match gci {
        Some(g) => gci_fields(g) + repeat_bit(false, g.num_reserved_bits as nat),
        None => Seq::empty(),
    };
    p + repeat_bit(false, ((8 - (start + p.len()) % 8) % 8) as nat)
}

/// Every multi-bit field of `g` fits its width.
pub open spec fn gci_fits(g: GeneralConstraintsInfo) -> bool {
    &&& fits(g.sixteen_minus_max_bitdepth_constraint_idc as u64, 4)
    &&& fits(g.three_minus_max_chroma_format_constraint_idc as u64, 2)
    &&& fits(g.three_minus_max_log2_ctu_size_constraint_idc as u64, 2)
    &&& fits(g.num_reserved_bits as u64, 8)
}

/// Every field value fits its width, and no width exceeds a byte.
#[verifier::opaque]
pub open spec fn fields_ok(f: Seq<(u64, usize)>) -> bool {
    forall|i: int| 0 <= i < f.len() ==> 1 <= (#[trigger] f[i]).1 <= 8 && fits(f[i].0, f[i].1 as nat)
}

proof fn lemma_fields_bits_len(f: Seq<(u64, usize)>)
    requires
        fields_ok(f),
    ensures
        fields_bits(f).len() <= 8 * f.len(),
    decreases f.len(),
{
    reveal(fields_bits);
    reveal(fields_ok);
    if f.len() > 0 {
        assert(fields_ok(f.drop_last()));
        lemma_fields_bits_len(f.drop_last());
        let _ = f[f.len() - 1];
    }
}

proof fn lemma_flag_fits(b: bool)
    ensures
        fits(b as u64, 1),
{
    assert((b as u64) < (1u64 << 1u64)) by (bit_vector);
}

/// Appends each field of `fields` at its width.
fn push_fields(bins: &mut Bins, fields: &Vec<(u64, usize)>)
    requires
        fields_ok(fields@),
        old(bins).wf(),
        old(bins).num_bins > 0,
        old(bins).num_bins + 8 * fields.len() <= usize::MAX,
    ensures
        appended(*old(bins), *final(bins), fields_bits(fields@)),
        final(bins).wf(),
{
    let ghost b0 = *bins;
    proof {
        reveal(fields_bits);
        reveal(fields_ok);
        lemma_appended_nothing(b0);
        assert(fields@.take(0) =~= Seq::<(u64, usize)>::empty());
    }
    let mut i: usize = 0;
    while i < fields.len()
        invariant
            i <= fields.len(),
            fields_ok(fields@),
            b0.wf(),
            b0.num_bins > 0,
            b0.num_bins + 8 * fields.len() <= usize::MAX,
            appended(b0, *bins, fields_bits(fields@.take(i as int))),
            bins.wf(),
        decreases fields.len() - i,
    {
        let (value, width) = fields[i];
        proof {
            reveal(fields_ok);
            let _ = fields@[i as int];
            assert(fields_ok(fields@.take(i as int)));
            lemma_fields_bits_len(fields@.take(i as int));
        }
        let ghost prev = *bins;
        bins.push_bins_with_size(value, width);
        proof {
            reveal(fields_bits);
            lemma_appended_trans(b0, prev, *bins, fields_bits(fields@.take(i as int)), word_bits(value, width as nat));
            let t = fields@.take(i + 1);
            assert(t.drop_last() =~= fields@.take(i as int));
            assert(t.last() == (value, width));
        }
        i += 1;
    }
    proof {
        assert(fields@.take(fields.len() as int) =~= fields@);
    }
}

fn gci_general_list(g: &GeneralConstraintsInfo) -> (fields: Vec<(u64, usize)>)
    requires
        gci_fits(*g),
    ensures
        fields@ == gci_general_items(*g),
        fields_ok(fields@),
        fields@.len() == 5,
{
    let fields: Vec<(u64, usize)> = vec![
        (g.intra_only_constraint_flag as u64, 1usize),
        (g.all_layers_independent_constraint_flag as u64, 1usize),
        (g.one_au_only_constraint_flag as u64, 1usize),
        (g.sixteen_minus_max_bitdepth_constraint_idc as u64, 4usize),
        (g.three_minus_max_chroma_format_constraint_idc as u64, 2usize),
    ];
    proof {
        reveal(gci_general_items);
        assert(fields@ =~= gci_general_items(*g));
        reveal(fields_ok);
        lemma_flag_fits(false);
        lemma_flag_fits(true);
        assert forall|i: int| 0 <= i < fields@.len() implies 1 <= (#[trigger] fields@[i]).1 <= 8
            && fits(fields@[i].0, fields@[i].1 as nat) by {
            if fields@[i].1 == 1 {
                assert(fields@[i].0 == 0 || fields@[i].0 == 1);
            }
        }
    }
    fields
}

fn gci_nal_unit_list(g: &GeneralConstraintsInfo) -> (fields: Vec<(u64, usize)>)
    requires
        gci_fits(*g),
    ensures
        fields@ == gci_nal_unit_items(*g),
        fields_ok(fields@),
        fields@.len() == 10,
{
    let fields: Vec<(u64, usize)> = vec![
        (g.no_mixed_nalu_types_in_pic_constraint_flag as u64, 1usize),
        (g.no_trail_constraint_flag as u64, 1usize),
        (g.no_stsa_constraint_flag as u64, 1usize),
        (g.no_rasl_constraint_flag as u64, 1usize),
        (g.no_radl_constraint_flag as u64, 1usize),
        (g.no_idr_constraint_flag as u64, 1usize),
        (g.no_cra_constraint_flag as u64, 1usize),
        (g.no_gdr_constraint_flag as u64, 1usize),
        (g.no_aps_constraint_flag as u64, 1usize),
        (g.no_idr_rpl_constraint_flag as u64, 1usize),
    ];
    proof {
        reveal(gci_nal_unit_items);
        assert(fields@ =~= gci_nal_unit_items(*g));
        reveal(fields_ok);
        lemma_flag_fits(false);
        lemma_flag_fits(true);
        assert forall|i: int| 0 <= i < fields@.len() implies 1 <= (#[trigger] fields@[i]).1 <= 8
            && fits(fields@[i].0, fields@[i].1 as nat) by {
            if fields@[i].1 == 1 {
                assert(fields@[i].0 == 0 || fields@[i].0 == 1);
            }
        }
    }
    fields
}

fn gci_partitioning_list(g: &GeneralConstraintsInfo) -> (fields: Vec<(u64, usize)>)
    requires
        gci_fits(*g),
    ensures
        fields@ == gci_partitioning_items(*g),
        fields_ok(fields@),
        fields@.len() == 6,
{
    let fields: Vec<(u64, usize)> = vec![
        (g.one_tile_per_pic_constraint_flag as u64, 1usize),
        (g.pic_header_in_slice_header_constraint_flag as u64, 1usize),
        (g.one_slice_per_pic_constraint_flag as u64, 1usize),
        (g.no_rectangular_slice_constraint_flag as u64, 1usize),
        (g.one_slice_per_subpic_constraint_flag as u64, 1usize),
        (g.no_subpic_info_constraint_flag as u64, 1usize),
    ];
    proof {
        reveal(gci_partitioning_items);
        assert(fields@ =~= gci_partitioning_items(*g));
        reveal(fields_ok);
        lemma_flag_fits(false);
        lemma_flag_fits(true);
        assert forall|i: int| 0 <= i < fields@.len() implies 1 <= (#[trigger] fields@[i]).1 <= 8
            && fits(fields@[i].0, fields@[i].1 as nat) by {
            if fields@[i].1 == 1 {
                assert(fields@[i].0 == 0 || fields@[i].0 == 1);
            }
        }
    }
    fields
}

fn gci_block_list(g: &GeneralConstraintsInfo) -> (fields: Vec<(u64, usize)>)
    requires
        gci_fits(*g),
    ensures
        fields@ == gci_block_items(*g),
        fields_ok(fields@),
        fields@.len() == 4,
{
    let fields: Vec<(u64, usize)> = vec![
        (g.three_minus_max_log2_ctu_size_constraint_idc as u64, 2usize),
        (g.no_partition_constraints_override_constraint_flag as u64, 1usize),
        (g.no_mtt_constraint_flag as u64, 1usize),
        (g.no_qtbtt_dual_tree_intra_constraint_flag as u64, 1usize),
    ];
    proof {
        reveal(gci_block_items);
        assert(fields@ =~= gci_block_items(*g));
        reveal(fields_ok);
        lemma_flag_fits(false);
        lemma_flag_fits(true);
        assert forall|i: int| 0 <= i < fields@.len() implies 1 <= (#[trigger] fields@[i]).1 <= 8
            && fits(fields@[i].0, fields@[i].1 as nat) by {
            if fields@[i].1 == 1 {
                assert(fields@[i].0 == 0 || fields@[i].0 == 1);
            }
        }
    }
    fields
}

fn gci_intra_list(g: &GeneralConstraintsInfo) -> (fields: Vec<(u64, usize)>)
    requires
        gci_fits(*g),
    ensures
        fields@ == gci_intra_items(*g),
        fields_ok(fields@),
        fields@.len() == 5,
{
    let fields: Vec<(u64, usize)> = vec![
        (g.no_palette_constraint_flag as u64, 1usize),
        (g.no_ibc_constraint_flag as u64, 1usize),
        (g.no_isp_constraint_flag as u64, 1usize),
        (g.no_mrl_constraint_flag as u64, 1usize),
        (g.no_mip_constraint_flag as u64, 1usize),
    ];
    proof {
        reveal(gci_intra_items);
        assert(fields@ =~= gci_intra_items(*g));
        reveal(fields_ok);
        lemma_flag_fits(false);
        lemma_flag_fits(true);
        assert forall|i: int| 0 <= i < fields@.len() implies 1 <= (#[trigger] fields@[i]).1 <= 8
            && fits(fields@[i].0, fields@[i].1 as nat) by {
            if fields@[i].1 == 1 {
                assert(fields@[i].0 == 0 || fields@[i].0 == 1);
            }
        }
    }
    fields
}

fn gci_inter_picture_list(g: &GeneralConstraintsInfo) -> (fields: Vec<(u64, usize)>)
    requires
        gci_fits(*g),
    ensures
        fields@ == gci_inter_picture_items(*g),
        fields_ok(fields@),
        fields@.len() == 6,
{
    let fields: Vec<(u64, usize)> = vec![
        (g.no_cclm_constraint_flag as u64, 1usize),
        (g.no_ref_pic_resampling_constraint_flag as u64, 1usize),
        (g.no_res_change_in_clvs_constraint_flag as u64, 1usize),
        (g.no_weighted_prediction_constraint_flag as u64, 1usize),
        (g.no_ref_wraparound_constraint_flag as u64, 1usize),
        (g.no_temporal_mvp_constraint_flag as u64, 1usize),
    ];
    proof {
        reveal(gci_inter_picture_items);
        assert(fields@ =~= gci_inter_picture_items(*g));
        reveal(fields_ok);
        lemma_flag_fits(false);
        lemma_flag_fits(true);
        assert forall|i: int| 0 <= i < fields@.len() implies 1 <= (#[trigger] fields@[i]).1 <= 8
            && fits(fields@[i].0, fields@[i].1 as nat) by {
            if fields@[i].1 == 1 {
                assert(fields@[i].0 == 0 || fields@[i].0 == 1);
            }
        }
    }
    fields
}

fn gci_inter_block_list(g: &GeneralConstraintsInfo) -> (fields: Vec<(u64, usize)>)
    requires
        gci_fits(*g),
    ensures
        fields@ == gci_inter_block_items(*g),
        fields_ok(fields@),
        fields@.len() == 11,
{
    let fields: Vec<(u64, usize)> = vec![
        (g.no_sbtmvp_constraint_flag as u64, 1usize),
        (g.no_amvr_constraint_flag as u64, 1usize),
        (g.no_bdof_constraint_flag as u64, 1usize),
        (g.no_smvd_constraint_flag as u64, 1usize),
        (g.no_dmvr_constraint_flag as u64, 1usize),
        (g.no_mmvd_constraint_flag as u64, 1usize),
        (g.no_affine_motion_constraint_flag as u64, 1usize),
        (g.no_prof_constraint_flag as u64, 1usize),
        (g.no_bcw_constraint_flag as u64, 1usize),
        (g.no_ciip_constraint_flag as u64, 1usize),
        (g.no_gpm_constraint_flag as u64, 1usize),
    ];
    proof {
        reveal(gci_inter_block_items);
        assert(fields@ =~= gci_inter_block_items(*g));
        reveal(fields_ok);
        lemma_flag_fits(false);
        lemma_flag_fits(true);
        assert forall|i: int| 0 <= i < fields@.len() implies 1 <= (#[trigger] fields@[i]).1 <= 8
            && fits(fields@[i].0, fields@[i].1 as nat) by {
            if fields@[i].1 == 1 {
                assert(fields@[i].0 == 0 || fields@[i].0 == 1);
            }
        }
    }
    fields
}

fn gci_residual_list(g: &GeneralConstraintsInfo) -> (fields: Vec<(u64, usize)>)
    requires
        gci_fits(*g),
    ensures
        fields@ == gci_residual_items(*g),
        fields_ok(fields@),
        fields@.len() == 13,
{
    let fields: Vec<(u64, usize)> = vec![
        (g.no_luma_transform_size_64_constraint_flag as u64, 1usize),
        (g.no_transform_skip_constraint_flag as u64, 1usize),
        (g.no_bdpcm_constraint_flag as u64, 1usize),
        (g.no_mts_constraint_flag as u64, 1usize),
        (g.no_lfnst_constraint_flag as u64, 1usize),
        (g.no_joint_cbcr_constraint_flag as u64, 1usize),
        (g.no_sbt_constraint_flag as u64, 1usize),
        (g.no_act_constraint_flag as u64, 1usize),
        (g.no_explicit_scaling_list_constraint_flag as u64, 1usize),
        (g.no_dep_quant_constraint_flag as u64, 1usize),
        (g.no_sign_data_hiding_constraint_flag as u64, 1usize),
        (g.no_cu_qp_delta_constraint_flag as u64, 1usize),
        (g.no_chroma_qp_offset_constraint_flag as u64, 1usize),
    ];
    proof {
        reveal(gci_residual_items);
        assert(fields@ =~= gci_residual_items(*g));
        reveal(fields_ok);
        lemma_flag_fits(false);
        lemma_flag_fits(true);
        assert forall|i: int| 0 <= i < fields@.len() implies 1 <= (#[trigger] fields@[i]).1 <= 8
            && fits(fields@[i].0, fields@[i].1 as nat) by {
            if fields@[i].1 == 1 {
                assert(fields@[i].0 == 0 || fields@[i].0 == 1);
            }
        }
    }
    fields
}

fn gci_loop_filter_list(g: &GeneralConstraintsInfo) -> (fields: Vec<(u64, usize)>)
    requires
        gci_fits(*g),
    ensures
        fields@ == gci_loop_filter_items(*g),
        fields_ok(fields@),
        fields@.len() == 7,
{
    let fields: Vec<(u64, usize)> = vec![
        (g.no_sao_constraint_flag as u64, 1usize),
        (g.no_alf_constraint_flag as u64, 1usize),
        (g.no_ccalf_constraint_flag as u64, 1usize),
        (g.no_lmcs_constraint_flag as u64, 1usize),
        (g.no_ladf_constraint_flag as u64, 1usize),
        (g.no_virtual_boundaries_constraint_flag as u64, 1usize),
        (g.num_reserved_bits as u64, 8usize),
    ];
    proof {
        reveal(gci_loop_filter_items);
        assert(fields@ =~= gci_loop_filter_items(*g));
        reveal(fields_ok);
        lemma_flag_fits(false);
        lemma_flag_fits(true);
        assert forall|i: int| 0 <= i < fields@.len() implies 1 <= (#[trigger] fields@[i]).1 <= 8
            && fits(fields@[i].0, fields@[i].1 as nat) by {
            if fields@[i].1 == 1 {
                assert(fields@[i].0 == 0 || fields@[i].0 == 1);
            }
        }
    }
    fields
}

/// Appends the fields of `part`.
fn push_part(bins: &mut Bins, part: &Vec<(u64, usize)>)
    requires
        old(bins).wf(),
        old(bins).num_bins > 0,
        old(bins).num_bins + 8 * part.len() <= usize::MAX,
        fields_ok(part@),
    ensures
        appended(*old(bins), *final(bins), fields_bits(part@)),
        final(bins).wf(),
        final(bins).num_bins > 0,
        fields_bits(part@).len() <= 8 * part.len(),
{
    proof {
        lemma_fields_bits_len(part@);
    }
    push_fields(bins, part);
}

/// Appends the constraint fields of `g` up to the intra coding tools.
#[verifier::rlimit(20)]
fn push_gci_head_fields(bins: &mut Bins, g: &GeneralConstraintsInfo)
    requires
        old(bins).wf(),
        old(bins).num_bins > 0,
        old(bins).num_bins + 600 <= usize::MAX,
        gci_fits(*g),
    ensures
        appended(*old(bins), *final(bins), gci_head_fields(*g)),
        final(bins).wf(),
        final(bins).num_bins > 0,
        gci_head_fields(*g).len() <= 300,
{
    let ghost b0 = *bins;
    let part = gci_general_list(g);
    push_part(bins, &part);
    let ghost b1 = *bins;
    let part = gci_nal_unit_list(g);
    push_part(bins, &part);
    let ghost b2 = *bins;
    let part = gci_partitioning_list(g);
    push_part(bins, &part);
    let ghost b3 = *bins;
    let part = gci_block_list(g);
    push_part(bins, &part);
    let ghost b4 = *bins;
    let part = gci_intra_list(g);
    push_part(bins, &part);
    let ghost b5 = *bins;
    proof {
        lemma_appended_trans(b0, b1, b2, fields_bits(gci_general_items(*g)), fields_bits(gci_nal_unit_items(*g)));
        lemma_appended_trans(b0, b2, b3, fields_bits(gci_general_items(*g)) + fields_bits(gci_nal_unit_items(*g)), fields_bits(gci_partitioning_items(*g)));
        lemma_appended_trans(b0, b3, b4, fields_bits(gci_general_items(*g)) + fields_bits(gci_nal_unit_items(*g)) + fields_bits(gci_partitioning_items(*g)), fields_bits(gci_block_items(*g)));
        lemma_appended_trans(b0, b4, b5, fields_bits(gci_general_items(*g)) + fields_bits(gci_nal_unit_items(*g)) + fields_bits(gci_partitioning_items(*g)) + fields_bits(gci_block_items(*g)), fields_bits(gci_intra_items(*g)));
    }
}

/// Appends the constraint fields of `g` from the inter coding tools on.
#[verifier::rlimit(20)]
fn push_gci_tail_fields(bins: &mut Bins, g: &GeneralConstraintsInfo)
    requires
        old(bins).wf(),
        old(bins).num_bins > 0,
        old(bins).num_bins + 600 <= usize::MAX,
        gci_fits(*g),
    ensures
        appended(*old(bins), *final(bins), gci_tail_fields(*g)),
        final(bins).wf(),
        final(bins).num_bins > 0,
        gci_tail_fields(*g).len() <= 300,
{
    let ghost b0 = *bins;
    let part = gci_inter_picture_list(g);
    push_part(bins, &part);
    let ghost b1 = *bins;
    let part = gci_inter_block_list(g);
    push_part(bins, &part);
    let ghost b2 = *bins;
    let part = gci_residual_list(g);
    push_part(bins, &part);
    let ghost b3 = *bins;
    let part = gci_loop_filter_list(g);
    push_part(bins, &part);
    let ghost b4 = *bins;
    proof {
        lemma_appended_trans(b0, b1, b2, fields_bits(gci_inter_picture_items(*g)), fields_bits(gci_inter_block_items(*g)));
        lemma_appended_trans(b0, b2, b3, fields_bits(gci_inter_picture_items(*g)) + fields_bits(gci_inter_block_items(*g)), fields_bits(gci_residual_items(*g)));
        lemma_appended_trans(b0, b3, b4, fields_bits(gci_inter_picture_items(*g)) + fields_bits(gci_inter_block_items(*g)) + fields_bits(gci_residual_items(*g)), fields_bits(gci_loop_filter_items(*g)));
    }
}

/// Appends the constraint fields of `g`.
fn push_gci_fields(bins: &mut Bins, g: &GeneralConstraintsInfo)
    requires
        old(bins).wf(),
        old(bins).num_bins > 0,
        old(bins).num_bins + 900 <= usize::MAX,
        gci_fits(*g),
    ensures
        appended(*old(bins), *final(bins), gci_fields(*g)),
        final(bins).wf(),
        gci_fields(*g).len() <= 600,
{
    let ghost b0 = *bins;
    push_gci_head_fields(bins, g);
    let ghost b1 = *bins;
    push_gci_tail_fields(bins, g);
    proof {
        lemma_appended_trans(b0, b1, *bins, gci_head_fields(*g), gci_tail_fields(*g));
    }
}

/// Writes the general constraints information.
pub struct GCIEncoder {}

impl GCIEncoder {
    /// An encoder.
    pub fn new() -> (e: GCIEncoder) {
        GCIEncoder {  }
    }

    /// Appends the general constraints information `gci` and aligns to a byte.
    pub fn encode(&mut self, bins: &mut Bins, gci: &Option<GeneralConstraintsInfo>)
        requires
            old(bins).wf(),
            old(bins).num_bins > 0,
            old(bins).num_bins + 1000 <= usize::MAX,
            gci matches Some(g) ==> gci_fits(*g),
        ensures
            appended(*old(bins), *final(bins), gci_bits(*gci, old(bins).num_bins as nat)),
            final(bins).wf(),
    {
        let ghost b0 = *bins;
        proof {
            lemma_appended_nothing(b0);
        }
        push_flag(bins, gci.is_some(), Ghost(b0), Ghost(Seq::empty()));
        let ghost mut acc: Seq<bool> = seq![gci is Some];
        proof {
            assert(Seq::<bool>::empty().push(gci is Some) =~= acc);
        }
        match gci {
            Some(g) => {
                let ghost prev = *bins;
                push_gci_fields(bins, g);
                proof {
                    lemma_appended_trans(b0, prev, *bins, acc, gci_fields(*g));
                    acc = acc + gci_fields(*g);
                }
                proof {
                    assert(g.num_reserved_bits < 256) by {
                        assert(fits(g.num_reserved_bits as u64, 8));
                        assert(1u64 << 8u64 == 256) by (bit_vector);
                    }
                }
                let mut k: usize = 0;
                while k < g.num_reserved_bits
                    invariant
                        k <= g.num_reserved_bits,
                        g.num_reserved_bits < 256,
                        appended(b0, *bins, acc + repeat_bit(false, k as nat)),
                        b0.wf(),
                        b0.num_bins > 0,
                        b0.num_bins + 1000 <= usize::MAX,
                        acc.len() <= 700,
                        bins.wf(),
                    decreases g.num_reserved_bits - k,
                {
                    let reserved_zero_bit = false;
                    push_flag(bins, reserved_zero_bit, Ghost(b0), Ghost(acc + repeat_bit(false, k as nat)));
                    proof {
                        assert((acc + repeat_bit(false, k as nat)).push(false) =~= acc + repeat_bit(false, (k + 1) as nat));
                    }
                    k += 1;
                }
                proof {
                    acc = acc + repeat_bit(false, k as nat);
                }
            },
            None => {},
        }
        let ghost prev = *bins;
        bins.byte_align();
        proof {
            lemma_appended_trans(b0, prev, *bins, acc, repeat_bit(false, ((8 - prev.num_bins % 8) % 8) as nat));
            assert(acc + repeat_bit(false, ((8 - prev.num_bins % 8) % 8) as nat) =~= gci_bits(*gci, b0.num_bins as nat));
        }
    }
}

} // verus!
