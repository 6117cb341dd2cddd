//! Adaptation parameter sets and the data they carry.
use crate::common::ApsParamsType;
use vstd::prelude::*;

verus! {

/// Adaptive loop filter parameters.
pub struct AlfData {
    pub luma_filter_signal_flag: bool,
    pub chroma_filter_signal_flag: bool,
    pub cc_cb_filter_signal_flag: bool,
    pub cc_cr_filter_signal_flag: bool,
    pub luma_ciip_flag: bool,
    pub luma_num_filters_signalled: usize,
    pub luma_coeff_delta_idx: Vec<usize>,
    pub luma_coeff_abs: Vec<Vec<usize>>,
    pub luma_coeff_sign: Vec<Vec<bool>>,
    pub luma_ciip_idx: Vec<Vec<usize>>,
    pub chroma_ciip_flag: bool,
    pub chroma_num_alt_filters: usize,
    pub chroma_coeff_abs: Vec<Vec<usize>>,
    pub chroma_coeff_sign: Vec<Vec<bool>>,
    pub chroma_ciip_idx: Vec<Vec<usize>>,
    pub cc_cb_filters_signalled: usize,
    pub cc_cb_mapped_coeff_abs: Vec<Vec<usize>>,
    pub cc_cb_coeff_sign: Vec<Vec<bool>>,
    pub cc_cr_filters_signalled: usize,
    pub cc_cr_mapped_coeff_abs: Vec<Vec<usize>>,
    pub cc_cr_coeff_sign: Vec<Vec<bool>>,
}

/// No filter is signalled and every coefficient list is empty.
pub open spec fn alf_fresh(r: AlfData) -> bool {
    &&& !r.luma_filter_signal_flag
    &&& !r.chroma_filter_signal_flag
    &&& !r.cc_cb_filter_signal_flag
    &&& !r.cc_cr_filter_signal_flag
    &&& !r.luma_ciip_flag
    &&& r.luma_num_filters_signalled == 0
    &&& r.luma_coeff_delta_idx@.len() == 0
    &&& r.luma_coeff_abs@.len() == 0
    &&& r.luma_coeff_sign@.len() == 0
    &&& r.luma_ciip_idx@.len() == 0
    &&& !r.chroma_ciip_flag
    &&& r.chroma_num_alt_filters == 0
    &&& r.chroma_coeff_abs@.len() == 0
    &&& r.chroma_coeff_sign@.len() == 0
    &&& r.chroma_ciip_idx@.len() == 0
    &&& r.cc_cb_filters_signalled == 0
    &&& r.cc_cb_mapped_coeff_abs@.len() == 0
    &&& r.cc_cb_coeff_sign@.len() == 0
    &&& r.cc_cr_filters_signalled == 0
    &&& r.cc_cr_mapped_coeff_abs@.len() == 0
    &&& r.cc_cr_coeff_sign@.len() == 0
}

/// The identity mapping over the first bin, with a delta precision of 1.
pub open spec fn lmcs_fresh(r: LmcsData) -> bool {
    &&& r.min_bin_idx == 0
    &&& r.max_bin_idx == 0
    &&& r.delta_cw_prec == 1
    &&& r.delta_abs_cw@.len() == 0
    &&& r.delta_sign_cw_flag@.len() == 0
    &&& r.delta_abs_crs == 0
    &&& !r.delta_sign_crs_flag
}

/// Every list is signalled explicitly, with no deltas and DC coefficients of 0.
pub open spec fn sl_fresh(r: ScalingListData) -> bool {
    &&& forall|i: int| 0 <= i < 28 ==> !#[trigger] r.copy_mode_flag[i]
    &&& forall|i: int| 0 <= i < 28 ==> !#[trigger] r.pred_mode_flag[i]
    &&& forall|i: int| 0 <= i < 28 ==> #[trigger] r.pred_id_delta[i] == 0
    &&& forall|i: int| 0 <= i < 14 ==> #[trigger] r.dc_coef[i] == 0
    &&& forall|i: int| 0 <= i < 28 ==> #[trigger] r.delta_coef[i]@.len() == 0
}

impl AlfData {
    /// No filter signalled.
    pub fn new() -> (r: AlfData)
        ensures
            !r.luma_filter_signal_flag,
            !r.chroma_filter_signal_flag,
            !r.cc_cb_filter_signal_flag,
            !r.cc_cr_filter_signal_flag,
            !r.luma_ciip_flag,
            r.luma_num_filters_signalled == 0,
            r.luma_coeff_delta_idx@.len() == 0,
            r.luma_coeff_abs@.len() == 0,
            r.luma_coeff_sign@.len() == 0,
            r.luma_ciip_idx@.len() == 0,
            !r.chroma_ciip_flag,
            r.chroma_num_alt_filters == 0,
            r.chroma_coeff_abs@.len() == 0,
            r.chroma_coeff_sign@.len() == 0,
            r.chroma_ciip_idx@.len() == 0,
            r.cc_cb_filters_signalled == 0,
            r.cc_cb_mapped_coeff_abs@.len() == 0,
            r.cc_cb_coeff_sign@.len() == 0,
            r.cc_cr_filters_signalled == 0,
            r.cc_cr_mapped_coeff_abs@.len() == 0,
            r.cc_cr_coeff_sign@.len() == 0,
            alf_fresh(r),
    {
        AlfData {
            luma_filter_signal_flag: false,
            chroma_filter_signal_flag: false,
            cc_cb_filter_signal_flag: false,
            cc_cr_filter_signal_flag: false,
            luma_ciip_flag: false,
            luma_num_filters_signalled: 0,
            luma_coeff_delta_idx: Vec::new(),
            luma_coeff_abs: Vec::new(),
            luma_coeff_sign: Vec::new(),
            luma_ciip_idx: Vec::new(),
            chroma_ciip_flag: false,
            chroma_num_alt_filters: 0,
            chroma_coeff_abs: Vec::new(),
            chroma_coeff_sign: Vec::new(),
            chroma_ciip_idx: Vec::new(),
            cc_cb_filters_signalled: 0,
            cc_cb_mapped_coeff_abs: Vec::new(),
            cc_cb_coeff_sign: Vec::new(),
            cc_cr_filters_signalled: 0,
            cc_cr_mapped_coeff_abs: Vec::new(),
            cc_cr_coeff_sign: Vec::new(),
        }
    }
}

/// Luma mapping with chroma scaling parameters.
pub struct LmcsData {
    pub min_bin_idx: usize,
    pub max_bin_idx: usize,
    pub delta_cw_prec: usize,
    pub delta_abs_cw: Vec<usize>,
    pub delta_sign_cw_flag: Vec<bool>,
    pub delta_abs_crs: usize,
    pub delta_sign_crs_flag: bool,
}

impl LmcsData {
    /// An identity mapping over the first bin.
    pub fn new() -> (r: LmcsData)
        ensures
            r.min_bin_idx == 0,
            r.max_bin_idx == 0,
            r.delta_cw_prec == 1,
            r.delta_abs_cw@.len() == 0,
            r.delta_sign_cw_flag@.len() == 0,
            r.delta_abs_crs == 0,
            !r.delta_sign_crs_flag,
            lmcs_fresh(r),
    {
        LmcsData {
            min_bin_idx: 0,
            max_bin_idx: 0,
            delta_cw_prec: 1,
            delta_abs_cw: Vec::new(),
            delta_sign_cw_flag: Vec::new(),
            delta_abs_crs: 0,
            delta_sign_crs_flag: false,
        }
    }

    /// `lmcs_delta_max_bin_idx`: the distance of the last used bin from bin 15.
    pub fn delta_max_bin_idx(&self) -> (r: usize)
        requires
            self.max_bin_idx <= 15,
        ensures
            r == 15 - self.max_bin_idx,
    {
        15 - self.max_bin_idx
    }
}

/// Scaling list parameters, one list for each of the 28 matrix identifiers.
pub struct ScalingListData {
    pub copy_mode_flag: [bool; 28],
    pub pred_mode_flag: [bool; 28],
    pub pred_id_delta: [usize; 28],
    pub dc_coef: [isize; 14],
    pub delta_coef: [Vec<isize>; 28],
}

impl ScalingListData {
    /// All lists signalled explicitly and empty.
    pub fn new() -> (r: ScalingListData)
        ensures
            forall|i: int| 0 <= i < 28 ==> !#[trigger] r.copy_mode_flag[i],
            forall|i: int| 0 <= i < 28 ==> !#[trigger] r.pred_mode_flag[i],
            forall|i: int| 0 <= i < 28 ==> #[trigger] r.pred_id_delta[i] == 0,
            forall|i: int| 0 <= i < 14 ==> #[trigger] r.dc_coef[i] == 0,
            forall|i: int| 0 <= i < 28 ==> #[trigger] r.delta_coef[i]@.len() == 0,
            sl_fresh(r),
    {
        ScalingListData {
            copy_mode_flag: [false; 28],
            pred_mode_flag: [false; 28],
            pred_id_delta: [0; 28],
            dc_coef: [0; 14],
            delta_coef: [
                Vec::new(), Vec::new(), Vec::new(), Vec::new(), Vec::new(), Vec::new(), Vec::new(),
                Vec::new(), Vec::new(), Vec::new(), Vec::new(), Vec::new(), Vec::new(), Vec::new(),
                Vec::new(), Vec::new(), Vec::new(), Vec::new(), Vec::new(), Vec::new(), Vec::new(),
                Vec::new(), Vec::new(), Vec::new(), Vec::new(), Vec::new(), Vec::new(), Vec::new(),
            ],
        }
    }
}

/// An adaptation parameter set: an identifier and the parameters of one kind.
pub struct AdaptationParameterSet {
    pub id: usize,
    pub params_type: ApsParamsType,
    pub chroma_present_flag: bool,
    pub alf_data: Option<AlfData>,
    pub lmcs_data: Option<LmcsData>,
    pub scaling_list_data: Option<ScalingListData>,
    pub extension_data: Vec<bool>,
}

impl AdaptationParameterSet {
    /// An adaptive loop filter set with identifier `id`.
    pub fn new_alf(id: usize) -> (r: AdaptationParameterSet)
        ensures
            r.id == id,
            r.params_type == ApsParamsType::ALF_APS,
            !r.chroma_present_flag,
            r.alf_data is Some,
            alf_fresh(r.alf_data.unwrap()),
            r.lmcs_data is None,
            r.scaling_list_data is None,
            r.extension_data@.len() == 0,
    {
        AdaptationParameterSet {
            id,
            params_type: ApsParamsType::ALF_APS,
            chroma_present_flag: false,
            alf_data: Some(AlfData::new()),
            lmcs_data: None,
            scaling_list_data: None,
            extension_data: Vec::new(),
        }
    }

    /// A luma mapping set with identifier `id`.
    pub fn new_lmcs(id: usize) -> (r: AdaptationParameterSet)
        ensures
            r.id == id,
            r.params_type == ApsParamsType::LMCS_APS,
            !r.chroma_present_flag,
            r.alf_data is None,
            r.lmcs_data is Some,
            lmcs_fresh(r.lmcs_data.unwrap()),
            r.scaling_list_data is None,
            r.extension_data@.len() == 0,
    {
        AdaptationParameterSet {
            id,
            params_type: ApsParamsType::LMCS_APS,
            chroma_present_flag: false,
            alf_data: None,
            lmcs_data: Some(LmcsData::new()),
            scaling_list_data: None,
            extension_data: Vec::new(),
        }
    }

    /// A scaling list set with identifier `id`.
    pub fn new_sl(id: usize) -> (r: AdaptationParameterSet)
        ensures
            r.id == id,
            r.params_type == ApsParamsType::SCALING_APS,
            !r.chroma_present_flag,
            r.alf_data is None,
            r.lmcs_data is None,
            r.scaling_list_data is Some,
            sl_fresh(r.scaling_list_data.unwrap()),
            r.extension_data@.len() == 0,
    {
        AdaptationParameterSet {
            id,
            params_type: ApsParamsType::SCALING_APS,
            chroma_present_flag: false,
            alf_data: None,
            lmcs_data: None,
            scaling_list_data: Some(ScalingListData::new()),
            extension_data: Vec::new(),
        }
    }
}

} // verus!
