//! The syntax at the head of a transform unit, before its residuals: the coded
//! flags, the QP delta, the chroma QP offset and the joint chroma flag.
use crate::bins::Bins;
use crate::bool_coder::{init_type_of, BoolCoder};
use crate::cabac_contexts::CabacContext;
use crate::common::{IntraSubpartitionsSplitType, ModeType, SliceType, TreeType};
use crate::ctu::{CodingTreeUnit, CodingUnit, TransformUnit};
use crate::ctu_encoder::{flag, CtuEncoder};
use crate::element_coding::{cb_coded, coded_in, cr_coded, ctx_of_inc, inc_entry_ok, planes_ok, tu_bin_bits, tu_bin_ok, tu_inc, tu_inc_ok, y_coded};
use vstd::prelude::*;

verus! {

/// What the head of transform unit `u` of `ctu` reads besides the unit: the slice's
/// coding set-up, the parameter set flags, and the state earlier units left.
pub struct TuScope {
    pub ctu: CodingTreeUnit,
    pub u: usize,
    pub slice_type: SliceType,
    pub cabac_init_flag: bool,
    pub isp_split_type: IntraSubpartitionsSplitType,
    pub num_intra_subpartitions: usize,
    pub chroma_qp_offset_list_len: usize,
    pub monochrome: bool,
    pub cu_qp_delta_enabled_flag: bool,
    pub cu_chroma_qp_offset_enabled_flag: bool,
    pub joint_cbcr_enabled_flag: bool,
    pub max_tb_size_y: usize,
    pub cu_qp_delta: isize,
}

/// The encoder state the head of a transform unit reads and updates.
pub struct TuState {
    pub infer_tu_cbf_luma: bool,
    pub is_cu_qp_delta_coded: bool,
    pub cu_qp_delta_val: isize,
    pub is_cu_chroma_qp_offset_coded: bool,
}

/// The transform unit in scope.
pub open spec fn tu_of(s: TuScope) -> TransformUnit {
    s.ctu.transform_units@[s.u as int]
}

/// The coding unit of the transform unit in scope.
pub open spec fn cu_of_tu(s: TuScope) -> CodingUnit {
    s.ctu.coding_units@[tu_of(s).cu as int]
}

/// Element `ctx` with value `val` when `cond` holds, else nothing.
pub open spec fn tu_opt(cond: bool, ctx: CabacContext, val: usize) -> Seq<(CabacContext, usize)> {
    if cond { seq![(ctx, val)] } else { Seq::empty() }
}

/// The unit is the last intra sub-partition.
pub open spec fn last_sub(s: TuScope) -> bool {
    tu_of(s).sub_tu_index == s.num_intra_subpartitions - 1
}

/// The unit is the half of a subblock transform that holds no residual.
pub open spec fn sbt_empty_half(s: TuScope) -> bool {
    let cu = cu_of_tu(s);
    let sub = tu_of(s).sub_tu_index;
    cu.sbt_flag && ((sub == 0 && cu.sbt_pos_flag) || (sub == 1 && !cu.sbt_pos_flag))
}

/// The unit carries chroma.
pub open spec fn chroma_available(s: TuScope) -> bool {
    &&& tu_of(s).tree_type != TreeType::DUAL_TREE_LUMA
    &&& !s.monochrome
    &&& s.isp_split_type == IntraSubpartitionsSplitType::ISP_NO_SPLIT || last_sub(s)
}

/// The chroma coded flags are present.
pub open spec fn chroma_cbf_coded(s: TuScope) -> bool {
    let no_isp = s.isp_split_type == IntraSubpartitionsSplitType::ISP_NO_SPLIT;
    &&& tu_of(s).tree_type == TreeType::SINGLE_TREE || tu_of(s).tree_type == TreeType::DUAL_TREE_CHROMA
    &&& !s.monochrome
    &&& (no_isp && !sbt_empty_half(s)) || (!no_isp && last_sub(s))
}

/// The luma coded flag is present.
pub open spec fn luma_cbf_coded(s: TuScope, st: TuState) -> bool {
    let tu = tu_of(s);
    let cu = cu_of_tu(s);
    let no_isp = s.isp_split_type == IntraSubpartitionsSplitType::ISP_NO_SPLIT;
    &&& tu.tree_type == TreeType::SINGLE_TREE || tu.tree_type == TreeType::DUAL_TREE_LUMA
    &&& (no_isp && !sbt_empty_half(s) && ((cu.pred_mode[tu.ch_type as int] == ModeType::MODE_INTRA && !cu.act_enabled_flag) || (
    chroma_available(s) && (cb_coded(tu) || cr_coded(tu))) || cu.width > s.max_tb_size_y || cu.height > s.max_tb_size_y))
        || (!no_isp && (tu.sub_tu_index < s.num_intra_subpartitions - 1 || !st.infer_tu_cbf_luma))
}

/// The QP delta is present.
pub open spec fn qp_delta_coded(s: TuScope, st: TuState) -> bool {
    let tu = tu_of(s);
    let cu = cu_of_tu(s);
    &&& cu.width > 64 || cu.height > 64 || y_coded(tu) || (chroma_available(s) && (cb_coded(tu) || cr_coded(tu)))
    &&& tu.tree_type != TreeType::DUAL_TREE_CHROMA
    &&& s.cu_qp_delta_enabled_flag
    &&& !st.is_cu_qp_delta_coded
}

/// The chroma QP offset flag is present.
pub open spec fn chroma_qp_offset_coded(s: TuScope, st: TuState) -> bool {
    let tu = tu_of(s);
    let cu = cu_of_tu(s);
    &&& cu.width > 64 || cu.height > 64 || (chroma_available(s) && (cb_coded(tu) || cr_coded(tu)))
    &&& tu.tree_type != TreeType::DUAL_TREE_LUMA
    &&& s.cu_chroma_qp_offset_enabled_flag
    &&& !st.is_cu_chroma_qp_offset_coded
}

/// The magnitude of the QP delta.
pub open spec fn qp_delta_abs(d: isize) -> usize {
    if d < 0 { (-d) as usize } else { d as usize }
}

/// The Cb and Cr coded flags, then the luma coded flag, each where present.
#[verifier::opaque]
pub open spec fn tu_cbf_elements(s: TuScope, st: TuState) -> Seq<(CabacContext, usize)> {
    let tu = tu_of(s);
    (if chroma_cbf_coded(s) {
        seq![(CabacContext::TuCbCodedFlag, flag(cb_coded(tu))), (CabacContext::TuCrCodedFlag, flag(cr_coded(tu)))]
    } else {
        Seq::empty()
    }) + tu_opt(luma_cbf_coded(s, st), CabacContext::TuYCodedFlag, flag(y_coded(tu)))
}

/// The QP delta magnitude and, when not zero, its sign, where present.
#[verifier::opaque]
pub open spec fn tu_qp_elements(s: TuScope, st: TuState) -> Seq<(CabacContext, usize)> {
    if qp_delta_coded(s, st) {
        seq![(CabacContext::CuQpDeltaAbs, qp_delta_abs(s.cu_qp_delta))] + tu_opt(
            s.cu_qp_delta != 0,
            CabacContext::CuQpDeltaSignFlag,
            flag(s.cu_qp_delta < 0),
        )
    } else {
        Seq::empty()
    }
}

/// The chroma QP offset flag and, for a list of several offsets, the index, where
/// present.
#[verifier::opaque]
pub open spec fn tu_chroma_qp_elements(s: TuScope, st: TuState) -> Seq<(CabacContext, usize)> {
    let tu = tu_of(s);
    if chroma_qp_offset_coded(s, st) {
        seq![(CabacContext::CuChromaQpOffsetFlag, flag(tu.cu_chroma_qp_offset_flag))] + tu_opt(
            tu.cu_chroma_qp_offset_flag && s.chroma_qp_offset_list_len > 1,
            CabacContext::CuChromaQpOffsetIdx,
            tu.cu_chroma_qp_offset_idx,
        )
    } else {
        Seq::empty()
    }
}

/// The joint chroma residual flag, where present.
#[verifier::opaque]
pub open spec fn tu_joint_elements(s: TuScope) -> Seq<(CabacContext, usize)> {
    let tu = tu_of(s);
    let cu = cu_of_tu(s);
    let cb = cb_coded(tu);
    let cr = cr_coded(tu);
    tu_opt(
        s.joint_cbcr_enabled_flag && ((cu.pred_mode[tu.ch_type as int] == ModeType::MODE_INTRA && (cb || cr)) || (cb && cr))
            && chroma_available(s),
        CabacContext::TuJointCbcrResidualFlag,
        flag(tu.joint_cbcr_residual_flag),
    )
}

/// The elements at the head of the transform unit in scope, in order: the Cb and Cr
/// coded flags, the luma coded flag, the QP delta magnitude and sign, the chroma QP
/// offset flag and index, and the joint chroma residual flag, each where present.
pub open spec fn tu_head_elements(s: TuScope, st: TuState) -> Seq<(CabacContext, usize)> {
    tu_cbf_elements(s, st) + tu_qp_elements(s, st) + tu_chroma_qp_elements(s, st) + tu_joint_elements(s)
}

proof fn lemma_tu_head_len(s: TuScope, st: TuState)
    ensures
        tu_head_elements(s, st).len() <= 8,
{
    reveal(tu_cbf_elements);
    reveal(tu_qp_elements);
    reveal(tu_chroma_qp_elements);
    reveal(tu_joint_elements);
}

/// The encoder state after the head of the transform unit in scope: the luma coded
/// flag is inferred for the last sub-partition only while no earlier one was coded,
/// and a coded QP delta is recorded.
pub open spec fn tu_state_after(s: TuScope, st: TuState) -> TuState {
    let tu = tu_of(s);
    let luma_tree = tu.tree_type == TreeType::SINGLE_TREE || tu.tree_type == TreeType::DUAL_TREE_LUMA;
    TuState {
        infer_tu_cbf_luma: if luma_tree && s.isp_split_type != IntraSubpartitionsSplitType::ISP_NO_SPLIT {
            st.infer_tu_cbf_luma && !y_coded(tu)
        } else {
            st.infer_tu_cbf_luma
        },
        is_cu_qp_delta_coded: st.is_cu_qp_delta_coded || qp_delta_coded(s, st),
        cu_qp_delta_val: if qp_delta_coded(s, st) { s.cu_qp_delta } else { st.cu_qp_delta_val },
        is_cu_chroma_qp_offset_coded: st.is_cu_chroma_qp_offset_coded,
    }
}

/// What the head of the transform unit in scope reads exists and its arithmetic
/// stays in range.
pub open spec fn tu_head_ok(s: TuScope) -> bool {
    let tu = tu_of(s);
    &&& s.ctu.wf()
    &&& s.u < s.ctu.transform_units@.len()
    &&& tu.cu < s.ctu.coding_units@.len()
    &&& tu.ch_type < 2
    &&& planes_ok(tu)
    &&& s.cu_qp_delta > isize::MIN
    &&& s.isp_split_type != IntraSubpartitionsSplitType::ISP_NO_SPLIT ==> s.num_intra_subpartitions >= 1
}

/// Element `ctx` with value `val` of the transform unit in scope has a binarization
/// whose bins can each take the context derived for them.
pub open spec fn tu_element_ok(s: TuScope, ctx: CabacContext, val: usize) -> bool {
    let bins = tu_bin_bits(ctx, val, s.chroma_qp_offset_list_len);
    &&& tu_bin_ok(ctx, val, s.chroma_qp_offset_list_len)
    &&& bins.len() <= 64
    &&& forall|k: usize|
        k < bins.len() ==> #[trigger] tu_inc_ok(s.ctu, s.u as int, k, ctx) && inc_entry_ok(
            ctx,
            tu_inc(s.ctu, s.u as int, k, 0, ctx, s.isp_split_type),
            init_type_of(s.slice_type, s.cabac_init_flag),
        )
}

/// Coder `c1` with output `o1` follows `c0` with output `o0` by coding element `ctx`
/// with value `val` of the transform unit in scope.
pub open spec fn tu_element_coded(c0: BoolCoder, o0: Bins, c1: BoolCoder, o1: Bins, s: TuScope, ctx: CabacContext, val: usize) -> bool {
    let bins = tu_bin_bits(ctx, val, s.chroma_qp_offset_list_len);
    let it = init_type_of(s.slice_type, s.cabac_init_flag);
    coded_in(
        c0,
        o0,
        c1,
        o1,
        bins,
        Seq::new(bins.len(), |k: int| ctx_of_inc(ctx, tu_inc(s.ctu, s.u as int, k as usize, 0, ctx, s.isp_split_type), it)),
        ctx,
        it,
    )
}

/// The coder states `cs` with outputs `os` step through the transform unit elements
/// `elems`.
pub open spec fn tu_steps(cs: Seq<BoolCoder>, os: Seq<Bins>, s: TuScope, elems: Seq<(CabacContext, usize)>) -> bool {
    &&& cs.len() == elems.len() + 1
    &&& os.len() == elems.len() + 1
    &&& forall|k: int| 0 <= k < elems.len() ==> #[trigger] tu_element_coded(cs[k], os[k], cs[k + 1], os[k + 1], s, elems[k].0, elems[k].1)
}

/// Coder `c1` with output `o1` follows `c0` with output `o0` by coding the transform
/// unit elements `elems` in order.
pub open spec fn tu_elements_coded(c0: BoolCoder, o0: Bins, c1: BoolCoder, o1: Bins, s: TuScope, elems: Seq<(CabacContext, usize)>) -> bool {
    exists|cs: Seq<BoolCoder>, os: Seq<Bins>|
        #[trigger] tu_steps(cs, os, s, elems) && cs[0] == c0 && os[0] == o0 && cs.last() == c1 && os.last() == o1
}

/// The chroma availability of the transform unit in scope.
fn chroma_avail(s: &TuScope) -> (r: bool)
    requires
        tu_head_ok(*s),
    ensures
        r == chroma_available(*s),
{
    let tu = &s.ctu.transform_units[s.u];
    let no_isp = s.isp_split_type == IntraSubpartitionsSplitType::ISP_NO_SPLIT;
    tu.tree_type != TreeType::DUAL_TREE_LUMA && !s.monochrome && (no_isp || tu.sub_tu_index == s.num_intra_subpartitions - 1)
}

/// The coding unit of the transform unit in scope is intra in the unit's channel.
fn cu_intra(s: &TuScope) -> (r: bool)
    requires
        tu_head_ok(*s),
    ensures
        r == (cu_of_tu(*s).pred_mode[tu_of(*s).ch_type as int] == ModeType::MODE_INTRA),
{
    let tu = &s.ctu.transform_units[s.u];
    let cu = &s.ctu.coding_units[tu.cu];
    match cu.pred_mode[tu.ch_type] {
        ModeType::MODE_INTRA => true,
        _ => false,
    }
}

/// Appends the coded flags; returns whether the luma coded flag is still inferred.
#[verifier::spinoff_prover]
fn push_cbf(v: &mut Vec<(CabacContext, usize)>, s: &TuScope, st: &TuState, y: bool, cb: bool, cr: bool) -> (infer: bool)
    requires
        tu_head_ok(*s),
        y == y_coded(tu_of(*s)),
        cb == cb_coded(tu_of(*s)),
        cr == cr_coded(tu_of(*s)),
    ensures
        final(v)@ == old(v)@ + tu_cbf_elements(*s, *st),
        infer == tu_state_after(*s, *st).infer_tu_cbf_luma,
{
    proof {
        reveal(tu_cbf_elements);
    }
    let ghost v0 = v@;
    let tu = &s.ctu.transform_units[s.u];
    let cu = &s.ctu.coding_units[tu.cu];
    let no_isp = s.isp_split_type == IntraSubpartitionsSplitType::ISP_NO_SPLIT;
    let last = !no_isp && tu.sub_tu_index == s.num_intra_subpartitions - 1;
    let sub = tu.sub_tu_index;
    let sbt_empty = cu.sbt_flag && ((sub == 0 && cu.sbt_pos_flag) || (sub == 1 && !cu.sbt_pos_flag));
    let chroma_av = chroma_avail(s);
    if (tu.tree_type == TreeType::SINGLE_TREE || tu.tree_type == TreeType::DUAL_TREE_CHROMA) && !s.monochrome && ((no_isp
        && !sbt_empty) || last) {
        v.push((CabacContext::TuCbCodedFlag, if cb { 1 } else { 0 }));
        v.push((CabacContext::TuCrCodedFlag, if cr { 1 } else { 0 }));
    }
    let ghost v1 = v@;
    let mut infer = st.infer_tu_cbf_luma;
    if tu.tree_type == TreeType::SINGLE_TREE || tu.tree_type == TreeType::DUAL_TREE_LUMA {
        let intra = cu_intra(s);
        if (no_isp && !sbt_empty && ((intra && !cu.act_enabled_flag) || (chroma_av && (cb || cr)) || cu.width > s.max_tb_size_y
            || cu.height > s.max_tb_size_y)) || (!no_isp && (sub < s.num_intra_subpartitions - 1 || !st.infer_tu_cbf_luma)) {
            v.push((CabacContext::TuYCodedFlag, if y { 1 } else { 0 }));
        }
        if !no_isp {
            infer = st.infer_tu_cbf_luma && !y;
        }
    }
    proof {
        let ss = *s;
        let tt = tu_of(ss);
        assert(*tu == tt);
        assert(*cu == cu_of_tu(ss));
        assert(sbt_empty == sbt_empty_half(ss));
        let ce = if chroma_cbf_coded(ss) {
            seq![(CabacContext::TuCbCodedFlag, flag(cb_coded(tt))), (CabacContext::TuCrCodedFlag, flag(cr_coded(tt)))]
        } else {
            Seq::empty()
        };
        assert(v1 =~= v0 + ce);
        assert(v@ =~= v0 + tu_cbf_elements(ss, *st));
    }
    infer
}

/// Appends the QP delta elements; returns whether they are present.
fn push_qp(v: &mut Vec<(CabacContext, usize)>, s: &TuScope, st: &TuState, y: bool, cb: bool, cr: bool) -> (coded: bool)
    requires
        tu_head_ok(*s),
        y == y_coded(tu_of(*s)),
        cb == cb_coded(tu_of(*s)),
        cr == cr_coded(tu_of(*s)),
    ensures
        final(v)@ == old(v)@ + tu_qp_elements(*s, *st),
        coded == qp_delta_coded(*s, *st),
{
    proof {
        reveal(tu_qp_elements);
    }
    let ghost v0 = v@;
    let tu = &s.ctu.transform_units[s.u];
    let cu = &s.ctu.coding_units[tu.cu];
    let chroma_av = chroma_avail(s);
    let qp_coded = (cu.width > 64 || cu.height > 64 || y || (chroma_av && (cb || cr))) && tu.tree_type != TreeType::DUAL_TREE_CHROMA
        && s.cu_qp_delta_enabled_flag && !st.is_cu_qp_delta_coded;
    let d = s.cu_qp_delta;
    if qp_coded {
        let a: usize = if d < 0 { (-d) as usize } else { d as usize };
        v.push((CabacContext::CuQpDeltaAbs, a));
        if d != 0 {
            v.push((CabacContext::CuQpDeltaSignFlag, if d < 0 { 1 } else { 0 }));
        }
    }
    proof {
        assert(*tu == tu_of(*s));
        assert(*cu == cu_of_tu(*s));
        assert(v@ =~= v0 + tu_qp_elements(*s, *st));
    }
    qp_coded
}

/// Appends the chroma QP offset elements.
fn push_chroma_qp(v: &mut Vec<(CabacContext, usize)>, s: &TuScope, st: &TuState, cb: bool, cr: bool)
    requires
        tu_head_ok(*s),
        cb == cb_coded(tu_of(*s)),
        cr == cr_coded(tu_of(*s)),
    ensures
        final(v)@ == old(v)@ + tu_chroma_qp_elements(*s, *st),
{
    proof {
        reveal(tu_chroma_qp_elements);
    }
    let ghost v0 = v@;
    let tu = &s.ctu.transform_units[s.u];
    let cu = &s.ctu.coding_units[tu.cu];
    let chroma_av = chroma_avail(s);
    if (cu.width > 64 || cu.height > 64 || (chroma_av && (cb || cr))) && tu.tree_type != TreeType::DUAL_TREE_LUMA
        && s.cu_chroma_qp_offset_enabled_flag && !st.is_cu_chroma_qp_offset_coded {
        v.push((CabacContext::CuChromaQpOffsetFlag, if tu.cu_chroma_qp_offset_flag { 1 } else { 0 }));
        if tu.cu_chroma_qp_offset_flag && s.chroma_qp_offset_list_len > 1 {
            v.push((CabacContext::CuChromaQpOffsetIdx, tu.cu_chroma_qp_offset_idx));
        }
    }
    proof {
        assert(*tu == tu_of(*s));
        assert(*cu == cu_of_tu(*s));
        assert(v@ =~= v0 + tu_chroma_qp_elements(*s, *st));
    }
}

/// Appends the joint chroma residual flag.
fn push_joint(v: &mut Vec<(CabacContext, usize)>, s: &TuScope, cb: bool, cr: bool)
    requires
        tu_head_ok(*s),
        cb == cb_coded(tu_of(*s)),
        cr == cr_coded(tu_of(*s)),
    ensures
        final(v)@ == old(v)@ + tu_joint_elements(*s),
{
    proof {
        reveal(tu_joint_elements);
    }
    let ghost v0 = v@;
    let tu = &s.ctu.transform_units[s.u];
    let intra = cu_intra(s);
    let chroma_av = chroma_avail(s);
    if s.joint_cbcr_enabled_flag && ((intra && (cb || cr)) || (cb && cr)) && chroma_av {
        v.push((CabacContext::TuJointCbcrResidualFlag, if tu.joint_cbcr_residual_flag { 1 } else { 0 }));
    }
    proof {
        assert(*tu == tu_of(*s));
        assert(v@ =~= v0 + tu_joint_elements(*s));
    }
}

/// The head elements of the transform unit in scope, and the state after them.
fn tu_head_list(s: &TuScope, st: &TuState) -> (r: (Vec<(CabacContext, usize)>, TuState))
    requires
        tu_head_ok(*s),
    ensures
        r.0@ == tu_head_elements(*s, *st),
        r.1 == tu_state_after(*s, *st),
{
    let tu = &s.ctu.transform_units[s.u];
    let y = tu.get_y_coded_flag();
    let cb = tu.get_cb_coded_flag();
    let cr = tu.get_cr_coded_flag();
    let mut v: Vec<(CabacContext, usize)> = Vec::new();
    let infer = push_cbf(&mut v, s, st, y, cb, cr);
    let qp_coded = push_qp(&mut v, s, st, y, cb, cr);
    push_chroma_qp(&mut v, s, st, cb, cr);
    push_joint(&mut v, s, cb, cr);
    proof {
        assert(v@ =~= tu_head_elements(*s, *st));
    }
    let n = TuState {
        infer_tu_cbf_luma: infer,
        is_cu_qp_delta_coded: st.is_cu_qp_delta_coded || qp_coded,
        cu_qp_delta_val: if qp_coded { s.cu_qp_delta } else { st.cu_qp_delta_val },
        is_cu_chroma_qp_offset_coded: st.is_cu_chroma_qp_offset_coded,
    };
    (v, n)
}

impl CtuEncoder {
    /// Codes the head of the transform unit in scope, the syntax before its
    /// residuals: the elements of `tu_head_elements` in order, each with its
    /// contexts; and updates the state as coding the head does.
    #[verifier::spinoff_prover]
    #[verifier::rlimit(60)]
    pub fn encode_transform_unit_head(&mut self, bins: &mut Bins, scope: &TuScope, state: &mut TuState)
        requires
            tu_head_ok(*scope),
            forall|k: int|
                0 <= k < tu_head_elements(*scope, *old(state)).len() ==> #[trigger] tu_element_ok(
                    *scope,
                    tu_head_elements(*scope, *old(state))[k].0,
                    tu_head_elements(*scope, *old(state))[k].1,
                ),
            old(self).coder.wf(),
            old(self).coder.engine_ok(),
            old(bins).num_bins + old(self).coder.cabac_bits_outstanding + 9 * 64 * 8 + 9 * 65 <= usize::MAX,
        ensures
            tu_elements_coded(old(self).coder, *old(bins), final(self).coder, *final(bins), *scope, tu_head_elements(*scope, *old(state))),
            *final(state) == tu_state_after(*scope, *old(state)),
            final(self).encoder_context == old(self).encoder_context,
            final(self).coder.wf(),
            final(self).coder.engine_ok(),
    {
        let (elems, n) = tu_head_list(scope, state);
        *state = n;
        proof {
            lemma_tu_head_len(*scope, *old(state));
        }
        let ghost c0 = self.coder;
        let ghost o0 = *bins;
        let ghost e = self.encoder_context;
        let ghost mut cs: Seq<BoolCoder> = seq![c0];
        let ghost mut os: Seq<Bins> = seq![o0];
        let mut i: usize = 0;
        while i < elems.len()
            invariant
                i <= elems@.len(),
                elems@.len() <= 8,
                e == self.encoder_context,
                tu_head_ok(*scope),
                forall|k: int| 0 <= k < elems@.len() ==> #[trigger] tu_element_ok(*scope, elems@[k].0, elems@[k].1),
                tu_steps(cs, os, *scope, elems@.take(i as int)),
                cs[0] == c0 && os[0] == o0 && cs.last() == self.coder && os.last() == *bins,
                self.coder.wf(),
                self.coder.engine_ok(),
                bins.num_bins + self.coder.cabac_bits_outstanding <= o0.num_bins + c0.cabac_bits_outstanding + 9 * 64 * i,
                o0.num_bins + c0.cabac_bits_outstanding + 9 * 64 * 8 + 9 * 65 <= usize::MAX,
            decreases elems@.len() - i,
        {
            let (ctx, val) = elems[i];
            proof {
                assert(tu_element_ok(*scope, elems@[i as int].0, elems@[i as int].1));
                assert(elems@[i as int] == (ctx, val));
                assert(9 * 64 * i + 9 * 64 <= 9 * 64 * 8) by (nonlinear_arith)
                    requires
                        i < 8,
                ;
            }
            let ghost cm = self.coder;
            let ghost om = *bins;
            self.coder.encode_cabac_tu(
                bins,
                val,
                0,
                ctx,
                &scope.ctu,
                scope.u,
                scope.slice_type,
                scope.cabac_init_flag,
                scope.isp_split_type,
                scope.chroma_qp_offset_list_len,
            );
            proof {
                assert(9 * 64 * i + 9 * 64 == 9 * 64 * (i + 1)) by (nonlinear_arith);
                let t = elems@.take(i + 1);
                let cs2 = cs.push(self.coder);
                let os2 = os.push(*bins);
                assert(tu_element_coded(cm, om, self.coder, *bins, *scope, ctx, val));
                assert forall|k: int| 0 <= k < t.len() implies #[trigger] tu_element_coded(cs2[k], os2[k], cs2[k + 1], os2[k + 1], *scope, t[k].0, t[k].1) by {
                    if k < i {
                        assert(t[k] == elems@.take(i as int)[k]);
                        assert(tu_element_coded(cs[k], os[k], cs[k + 1], os[k + 1], *scope, elems@.take(i as int)[k].0, elems@.take(i as int)[k].1));
                    } else {
                        assert(t[k] == (ctx, val));
                    }
                }
                cs = cs2;
                os = os2;
            }
            i += 1;
        }
        proof {
            assert(elems@.take(elems@.len() as int) =~= elems@);
        }
    }
}

} // verus!
