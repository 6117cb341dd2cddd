//! Coding syntax elements whose contexts depend on where they stand: each bin
//! with the context index its derivation selects, or in bypass mode.
use crate::bins::Bins;
use crate::bool_coder::{ctx_entry_ok, init_type_of, BoolCoder};
use crate::cabac_contexts::{ctx_inc_row, ctx_table_len, spec_ctx_inc_row, spec_ctx_init_values, CabacContext, CtxInc};
use crate::common::SliceType;
use crate::aps::AlfData;
use crate::common::{IntraSubpartitionsSplitType, TreeType, Vec2d};
use crate::ctu::{any_nonzero, min_usize, prev_tu_of, prev_tu_ok, sb_size, CodingTreeUnit, CodingUnit, TransformUnit};
use crate::ctx_inc::{
    last_sig_ctx_inc, last_sig_ctx_ok, level_flag_inc, loc_ok, loc_sig_and_sum, loc_template, sig_coeff_inc, sign_ctx,
    sign_levels_ok,
};
use vstd::arithmetic::power2::pow2;
use crate::syntax_coding::{bin_coded, bin_ctx_ok, bin_rule, bins_coded, coding_steps, ctx_of_bin};
use crate::bins::appended;
use crate::bits::{bit_length, fits, word_bits};
use crate::bool_coder::{tb_bits, bin_process_bits, bin_process_domain, bin_process_ok, cu_qp_delta_abs_bits, tr_bits};
use crate::cabac_contexts::spec_ctx_to_bin_process;
use crate::level_coding::{abs_rem_bits, lemma_abs_rem_bits_len, rice_param, template_ok};
use vstd::prelude::*;

verus! {

/// The context index and bypass flag a context increment selects for `ctx` under
/// initialization type `init_type`: an increment counts from the start of the
/// type's contexts; a terminating bin takes index 0 and is not bypassed.
pub open spec fn ctx_of_inc(ctx: CabacContext, inc: CtxInc, init_type: usize) -> (int, bool) {
    match inc {
        CtxInc::Number(n) => (spec_ctx_init_values(ctx.spec_index(), 0).len() * init_type + n, false),
        CtxInc::Bypass => (0, true),
        _ => (0, false),
    }
}

/// A context increment the coder can use: a number whose context index fits a
/// `usize`, bypass, or terminate.
pub open spec fn inc_ok(ctx: CabacContext, inc: CtxInc, init_type: usize) -> bool {
    match inc {
        CtxInc::Number(n) => ctx_of_inc(ctx, inc, init_type).0 <= usize::MAX,
        CtxInc::Bypass => true,
        CtxInc::Terminate => true,
        _ => false,
    }
}

/// The context index and bypass flag of `inc` for `ctx`.
pub(crate) fn context_of_inc(ctx: CabacContext, inc: CtxInc, init_type: usize) -> (r: (usize, bool))
    requires
        inc_ok(ctx, inc, init_type),
    ensures
        r.0 == ctx_of_inc(ctx, inc, init_type).0,
        r.1 == ctx_of_inc(ctx, inc, init_type).1,
{
    match inc {
        CtxInc::Number(n) => {
            let len = ctx_table_len(ctx.index());
            proof {
                assert(len * init_type <= len * init_type + n);
            }
            (len * init_type + n, false)
        },
        CtxInc::Bypass => (0, true),
        _ => (0, false),
    }
}

/// Coder `c1` with output `o1` follows `cm` with output `om` by coding `bin` of
/// `ctx` with context index and bypass flag `sel`.
pub open spec fn sel_coded(
    cm: BoolCoder,
    om: Bins,
    c1: BoolCoder,
    o1: Bins,
    bin: bool,
    ctx: CabacContext,
    init_type: usize,
    sel: (int, bool),
) -> bool {
    if sel.1 {
        cm.bypass_coded(c1, om, o1, bin)
    } else {
        cm.decision_coded(c1, om, o1, bin, ctx.spec_index() as int, init_type as int, sel.0)
    }
}

/// The coder states `cs` with outputs `os` step through `bins` of `ctx`, bin `k`
/// coded with selection `sels[k]`.
pub open spec fn steps_in(
    cs: Seq<BoolCoder>,
    os: Seq<Bins>,
    bins: Seq<bool>,
    sels: Seq<(int, bool)>,
    ctx: CabacContext,
    init_type: usize,
) -> bool {
    &&& cs.len() == bins.len() + 1
    &&& os.len() == bins.len() + 1
    &&& forall|k: int|
        0 <= k < bins.len() ==> #[trigger] sel_coded(cs[k], os[k], cs[k + 1], os[k + 1], bins[k], ctx, init_type, sels[k])
}

/// Coder `c1` with output `o1` follows `c0` with output `o0` by coding `bins` of
/// `ctx` in order, bin `k` with selection `sels[k]`.
pub open spec fn coded_in(
    c0: BoolCoder,
    o0: Bins,
    c1: BoolCoder,
    o1: Bins,
    bins: Seq<bool>,
    sels: Seq<(int, bool)>,
    ctx: CabacContext,
    init_type: usize,
) -> bool {
    exists|cs: Seq<BoolCoder>, os: Seq<Bins>|
        #[trigger] steps_in(cs, os, bins, sels, ctx, init_type) && cs[0] == c0 && os[0] == o0 && cs.last() == c1
            && os.last() == o1
}

/// Selections that follow the table rule of `ctx` code as its bins do.
proof fn lemma_coded_by_rule(
    c0: BoolCoder,
    o0: Bins,
    c1: BoolCoder,
    o1: Bins,
    bins: Seq<bool>,
    ctx: CabacContext,
    init_type: usize,
)
    requires
        coded_in(c0, o0, c1, o1, bins, Seq::new(bins.len(), |k: int| ctx_of_bin(ctx, k, init_type)), ctx, init_type),
    ensures
        bins_coded(c0, o0, c1, o1, bins, ctx, init_type),
{
    let sels = Seq::new(bins.len(), |k: int| ctx_of_bin(ctx, k, init_type));
    let (cs, os) = choose|cs: Seq<BoolCoder>, os: Seq<Bins>|
        #[trigger] steps_in(cs, os, bins, sels, ctx, init_type) && cs[0] == c0 && os[0] == o0 && cs.last() == c1
            && os.last() == o1;
    assert forall|k: int| 0 <= k < bins.len() implies #[trigger] bin_coded(cs[k], os[k], cs[k + 1], os[k + 1], bins[k], ctx, init_type, k) by {
        assert(sel_coded(cs[k], os[k], cs[k + 1], os[k + 1], bins[k], ctx, init_type, sels[k]));
    }
    assert(coding_steps(cs, os, bins, ctx, init_type));
}

impl BoolCoder {
    /// Codes `bins` of `ctx` in order, bin `k` with context index `sels[k].0` or in
    /// bypass mode when `sels[k].1`.
    pub(crate) fn encode_bins_in(
        &mut self,
        out_bins: &mut Bins,
        bins: &Vec<bool>,
        sels: &Vec<(usize, bool)>,
        ctx: CabacContext,
        init_type: usize,
        Ghost(gs): Ghost<Seq<(int, bool)>>,
    )
        requires
            sels.len() == bins.len(),
            gs.len() == bins.len(),
            bins.len() <= 64,
            forall|k: int| 0 <= k < bins.len() ==> #[trigger] sels@[k].0 == gs[k].0 && sels@[k].1 == gs[k].1,
            forall|k: int| 0 <= k < bins.len() && !gs[k].1 ==> ctx_entry_ok(ctx, init_type, #[trigger] sels@[k].0),
            old(self).wf(),
            old(self).engine_ok(),
            old(out_bins).num_bins + old(self).cabac_bits_outstanding + 9 * 65 <= usize::MAX,
        ensures
            coded_in(*old(self), *old(out_bins), *final(self), *final(out_bins), bins@, gs, ctx, init_type),
            final(self).wf(),
            final(self).engine_ok(),
            final(self).cabac_table_state_sync == old(self).cabac_table_state_sync,
            final(out_bins).num_bins + final(self).cabac_bits_outstanding <= old(out_bins).num_bins
                + old(self).cabac_bits_outstanding + 9 * 64,
    {
        let ghost c0 = *self;
        let ghost o0 = *out_bins;
        let ghost mut cs: Seq<BoolCoder> = seq![c0];
        let ghost mut os: Seq<Bins> = seq![o0];
        proof {
            assert(bins@.take(0) =~= Seq::<bool>::empty());
        }
        let mut i: usize = 0;
        while i < bins.len()
            invariant
                i <= bins@.len(),
                bins@.len() <= 64,
                sels@.len() == bins@.len(),
                gs.len() == bins@.len(),
                forall|k: int| 0 <= k < bins.len() ==> #[trigger] sels@[k].0 == gs[k].0 && sels@[k].1 == gs[k].1,
                forall|k: int| 0 <= k < bins.len() && !gs[k].1 ==> ctx_entry_ok(ctx, init_type, #[trigger] sels@[k].0),
                steps_in(cs, os, bins@.take(i as int), gs, ctx, init_type),
                cs[0] == c0 && os[0] == o0 && cs.last() == *self && os.last() == *out_bins,
                self.wf(),
                self.engine_ok(),
                self.cabac_table_state_sync == c0.cabac_table_state_sync,
                out_bins.num_bins + self.cabac_bits_outstanding + 9 * (65 - i) <= usize::MAX,
                out_bins.num_bins + self.cabac_bits_outstanding <= o0.num_bins + c0.cabac_bits_outstanding + 9 * i,
            decreases bins@.len() - i,
        {
            let bin = bins[i];
            let (ctx_idx, bypass_flag) = sels[i];
            proof {
                assert(sels@[i as int].0 == gs[i as int].0);
            }
            let ghost cm = *self;
            let ghost om = *out_bins;
            self.encode_arithmetic(out_bins, bin, ctx, ctx_idx, bypass_flag, init_type);
            proof {
                let t = bins@.take(i + 1);
                assert(sel_coded(cm, om, *self, *out_bins, bin, ctx, init_type, gs[i as int]));
                let cs2 = cs.push(*self);
                let os2 = os.push(*out_bins);
                assert forall|k: int| 0 <= k < t.len() implies #[trigger] sel_coded(cs2[k], os2[k], cs2[k + 1], os2[k + 1], t[k], ctx, init_type, gs[k]) by {
                    if k < i {
                        assert(t[k] == bins@.take(i as int)[k]);
                        assert(sel_coded(cs[k], os[k], cs[k + 1], os[k + 1], bins@.take(i as int)[k], ctx, init_type, gs[k]));
                    } else {
                        assert(t[k] == bin);
                    }
                }
                cs = cs2;
                os = os2;
            }
            i += 1;
        }
        proof {
            assert(bins@.take(bins@.len() as int) =~= bins@);
        }
    }

    /// The context index and bypass flag of bin `bin_idx` of `ctx` by its table rule,
    /// a terminating bin taking index 0 outside bypass mode.
    pub fn derive_context_and_bypass_flag_ctu(
        &self,
        bin_idx: usize,
        ctx: CabacContext,
        slice_type: SliceType,
        cabac_init_flag: bool,
    ) -> (r: (usize, bool))
        requires
            inc_ok(ctx, bin_rule(ctx, bin_idx as int), init_type_of(slice_type, cabac_init_flag)),
        ensures
            r.0 == ctx_of_inc(ctx, bin_rule(ctx, bin_idx as int), init_type_of(slice_type, cabac_init_flag)).0,
            r.1 == ctx_of_inc(ctx, bin_rule(ctx, bin_idx as int), init_type_of(slice_type, cabac_init_flag)).1,
    {
        let i = if bin_idx < 5 {
            bin_idx
        } else {
            5
        };
        let init_type = Self::get_init_type(slice_type, cabac_init_flag);
        context_of_inc(ctx, ctx_inc_row(ctx)[i], init_type)
    }
}

/// The context increment of bin `bin_idx` of a residual syntax element: the end of a
/// slice, tile or subset terminates; other elements follow their table rule.
pub open spec fn residual_inc(ctx: CabacContext, bin_idx: int) -> CtxInc {
    match ctx {
        CabacContext::EndOfSliceOneBit | CabacContext::EndOfTileOneBit | CabacContext::EndOfSubsetOneBit => CtxInc::Terminate,
        _ => bin_rule(ctx, bin_idx),
    }
}

impl BoolCoder {
    /// The context index and bypass flag of bin `bin_idx` of the residual syntax
    /// element `ctx`.
    pub fn _derive_context_and_bypass_flag_residual(
        &self,
        bin_idx: usize,
        ctx: CabacContext,
        slice_type: SliceType,
        cabac_init_flag: bool,
    ) -> (r: (usize, bool))
        requires
            inc_ok(ctx, residual_inc(ctx, bin_idx as int), init_type_of(slice_type, cabac_init_flag)),
        ensures
            r.0 == ctx_of_inc(ctx, residual_inc(ctx, bin_idx as int), init_type_of(slice_type, cabac_init_flag)).0,
            r.1 == ctx_of_inc(ctx, residual_inc(ctx, bin_idx as int), init_type_of(slice_type, cabac_init_flag)).1,
    {
        let init_type = Self::get_init_type(slice_type, cabac_init_flag);
        let inc = match ctx {
            CabacContext::EndOfSliceOneBit | CabacContext::EndOfTileOneBit | CabacContext::EndOfSubsetOneBit => {
                CtxInc::Terminate
            },
            _ => {
                let i = if bin_idx < 5 {
                    bin_idx
                } else {
                    5
                };
                ctx_inc_row(ctx)[i]
            },
        };
        context_of_inc(ctx, inc, init_type)
    }

    /// The context index of bin `bin_idx` of `last_sig_coeff_x_prefix` of component
    /// `c_idx` of `tu`.
    pub fn derive_context_and_bypass_flag_last_sig_coeff_x_prefix(
        &self,
        bin_idx: usize,
        c_idx: usize,
        tu: &TransformUnit,
        slice_type: SliceType,
        cabac_init_flag: bool,
    ) -> (r: (usize, bool))
        requires
            c_idx < 3,
            last_sig_ctx_ok(bin_idx, c_idx, tu.spec_log2_tb_size(c_idx).0),
            inc_ok(
                CabacContext::LastSigCoeffXPrefix,
                CtxInc::Number(last_sig_ctx_inc(bin_idx, c_idx, tu.spec_log2_tb_size(c_idx).0) as usize),
                init_type_of(slice_type, cabac_init_flag),
            ),
        ensures
            r == (
                ctx_of_inc(
                    CabacContext::LastSigCoeffXPrefix,
                    CtxInc::Number(last_sig_ctx_inc(bin_idx, c_idx, tu.spec_log2_tb_size(c_idx).0) as usize),
                    init_type_of(slice_type, cabac_init_flag),
                ).0 as usize,
                false,
            ),
    {
        let inc = self.derive_ctx_inc_for_last_sig_coeff_x_prefix(bin_idx, c_idx, tu.get_log2_tb_size(c_idx).0);
        let init_type = Self::get_init_type(slice_type, cabac_init_flag);
        context_of_inc(CabacContext::LastSigCoeffXPrefix, inc, init_type)
    }

    /// The context index of bin `bin_idx` of `last_sig_coeff_y_prefix` of component
    /// `c_idx` of `tu`.
    pub fn derive_context_and_bypass_flag_last_sig_coeff_y_prefix(
        &self,
        bin_idx: usize,
        c_idx: usize,
        tu: &TransformUnit,
        slice_type: SliceType,
        cabac_init_flag: bool,
    ) -> (r: (usize, bool))
        requires
            c_idx < 3,
            last_sig_ctx_ok(bin_idx, c_idx, tu.spec_log2_tb_size(c_idx).1),
            inc_ok(
                CabacContext::LastSigCoeffYPrefix,
                CtxInc::Number(last_sig_ctx_inc(bin_idx, c_idx, tu.spec_log2_tb_size(c_idx).1) as usize),
                init_type_of(slice_type, cabac_init_flag),
            ),
        ensures
            r == (
                ctx_of_inc(
                    CabacContext::LastSigCoeffYPrefix,
                    CtxInc::Number(last_sig_ctx_inc(bin_idx, c_idx, tu.spec_log2_tb_size(c_idx).1) as usize),
                    init_type_of(slice_type, cabac_init_flag),
                ).0 as usize,
                false,
            ),
    {
        let inc = self.derive_ctx_inc_for_last_sig_coeff_y_prefix(bin_idx, c_idx, tu.get_log2_tb_size(c_idx).1);
        let init_type = Self::get_init_type(slice_type, cabac_init_flag);
        context_of_inc(CabacContext::LastSigCoeffYPrefix, inc, init_type)
    }
}

/// The log2 size of the block of component `c_idx` of `tu` that can hold nonzero
/// coefficients.
pub open spec fn zo_tb_size(tu: TransformUnit, mts_enabled_flag: bool, sbt_flag: bool, c_idx: usize) -> (usize, usize) {
    let (w, h) = tu.spec_log2_tb_size(c_idx);
    (
        if mts_enabled_flag && sbt_flag && c_idx == 0 && w == 5 && h < 6 {
            4usize
        } else {
            min_usize(w, 5)
        },
        if mts_enabled_flag && sbt_flag && c_idx == 0 && h == 5 && w < 6 {
            4usize
        } else {
            min_usize(h, 5)
        },
    )
}

/// The context increment of `coeff_sign_flag` at scan position `n`: bypass unless
/// transform skip residual coding is on and `n` is not past `last_scan_pos_pass1`.
pub open spec fn coeff_sign_inc(
    tu: TransformUnit,
    c_idx: usize,
    x: usize,
    y: usize,
    n: usize,
    last_scan_pos_pass1: isize,
    ts_residual_coding_disabled_flag: bool,
    l: Seq<Vec<isize>>,
) -> CtxInc {
    if !tu.transform_skip_flag[c_idx as int] || n > last_scan_pos_pass1 || ts_residual_coding_disabled_flag {
        CtxInc::Bypass
    } else {
        CtxInc::Number(sign_ctx(l, x, y, tu.cu_bdpcm_flag[c_idx as int]))
    }
}

/// The context increment of a palette `run_copy_flag`.
pub open spec fn run_copy_inc(previous_run_type: usize, previous_run_position: usize, cur_pos: usize) -> usize {
    let d = cur_pos - previous_run_position - 1;
    if previous_run_type == 0 {
        if d < 4 { d as usize } else { 4 }
    } else if d == 0 {
        5
    } else if d < 3 {
        6
    } else {
        7
    }
}

/// A context increment the engine can code with: bypass, or a number (or a
/// terminating bin, at index 0) whose context index is a table entry.
pub open spec fn inc_entry_ok(ctx: CabacContext, inc: CtxInc, init_type: usize) -> bool {
    match inc {
        CtxInc::Number(n) => ctx_of_inc(ctx, inc, init_type).0 <= usize::MAX && ctx_entry_ok(
            ctx,
            init_type,
            ctx_of_inc(ctx, inc, init_type).0 as usize,
        ),
        CtxInc::Bypass => true,
        CtxInc::Terminate => ctx_entry_ok(ctx, init_type, 0),
        _ => false,
    }
}

impl BoolCoder {
    /// The context index of `sig_coeff_flag` (`ctx`) at (x_c, y_c) of component
    /// `c_idx` of `tu`, with first-pass levels `abs_level_pass1` in quantizer state
    /// `q_state`.
    pub fn derive_context_and_bypass_flag_for_sig_coeff_flag(
        &self,
        x_c: usize,
        y_c: usize,
        c_idx: usize,
        ctx: CabacContext,
        tu: &TransformUnit,
        slice_type: SliceType,
        cabac_init_flag: bool,
        ts_residual_coding_disabled_flag: bool,
        abs_level_pass1: &Vec2d<usize>,
        q_state: usize,
    ) -> (r: (usize, bool))
        requires
            c_idx < 3,
            ({
                let (lw, lh) = tu.spec_log2_tb_size(c_idx);
                &&& loc_ok(*tu, c_idx, *abs_level_pass1, x_c, y_c, lw, lh)
                &&& loc_sig_and_sum(
                    tu.quantized_transformed_coeffs@[c_idx as int],
                    *abs_level_pass1,
                    x_c as int,
                    y_c as int,
                    pow2(lw as nat) as int,
                    pow2(lh as nat) as int,
                    tu.transform_skip_flag[c_idx as int] && !ts_residual_coding_disabled_flag,
                ).1 + 100 <= usize::MAX
                &&& inc_ok(
                    ctx,
                    CtxInc::Number(
                        sig_coeff_inc(*tu, c_idx, *abs_level_pass1, x_c, y_c, lw, lh, ts_residual_coding_disabled_flag, q_state) as usize,
                    ),
                    init_type_of(slice_type, cabac_init_flag),
                )
            }),
            x_c + y_c <= usize::MAX,
            12 * q_state + 100 <= usize::MAX,
        ensures
            ({
                let (lw, lh) = tu.spec_log2_tb_size(c_idx);
                r == (
                    ctx_of_inc(
                        ctx,
                        CtxInc::Number(
                            sig_coeff_inc(*tu, c_idx, *abs_level_pass1, x_c, y_c, lw, lh, ts_residual_coding_disabled_flag, q_state) as usize,
                        ),
                        init_type_of(slice_type, cabac_init_flag),
                    ).0 as usize,
                    false,
                )
            }),
    {
        let (log2_tb_width, log2_tb_height) = tu.get_log2_tb_size(c_idx);
        let inc = self.derive_ctx_inc_for_sig_coeff_flag(
            x_c,
            y_c,
            log2_tb_width,
            log2_tb_height,
            tu,
            c_idx,
            ts_residual_coding_disabled_flag,
            abs_level_pass1,
            q_state,
        );
        let init_type = Self::get_init_type(slice_type, cabac_init_flag);
        context_of_inc(ctx, inc, init_type)
    }

    /// The context index of `par_level_flag` or the `j`-th `abs_level_gtx_flag`
    /// (`ctx`) at (x_c, y_c) of component `c_idx` of `tu`, in the block that can hold
    /// nonzero coefficients.
    pub fn derive_context_and_bypass_flag_for_par_level_flag_and_abs_level_gtx_flag(
        &self,
        ctx: CabacContext,
        tu: &TransformUnit,
        c_idx: usize,
        x_c: usize,
        y_c: usize,
        j: usize,
        last_sig_coeff_pos: (usize, usize),
        slice_type: SliceType,
        cabac_init_flag: bool,
        mts_enabled_flag: bool,
        sbt_flag: bool,
        ts_residual_coding_disabled_flag: bool,
        abs_level_pass1: &Vec2d<usize>,
    ) -> (r: (usize, bool))
        requires
            c_idx < 3,
            ({
                let (lw, lh) = zo_tb_size(*tu, mts_enabled_flag, sbt_flag, c_idx);
                &&& loc_ok(*tu, c_idx, *abs_level_pass1, x_c, y_c, lw, lh)
                &&& loc_template(
                    tu.quantized_transformed_coeffs@[c_idx as int],
                    *abs_level_pass1,
                    x_c as int,
                    y_c as int,
                    pow2(lw as nat) as int,
                    pow2(lh as nat) as int,
                ).1 <= usize::MAX
                &&& inc_ok(
                    ctx,
                    CtxInc::Number(
                        level_flag_inc(*tu, c_idx, *abs_level_pass1, x_c, y_c, lw, lh, ts_residual_coding_disabled_flag, ctx, j, last_sig_coeff_pos) as usize,
                    ),
                    init_type_of(slice_type, cabac_init_flag),
                )
            }),
            x_c + y_c <= usize::MAX,
            j + 67 <= usize::MAX,
        ensures
            ({
                let (lw, lh) = zo_tb_size(*tu, mts_enabled_flag, sbt_flag, c_idx);
                r == (
                    ctx_of_inc(
                        ctx,
                        CtxInc::Number(
                            level_flag_inc(*tu, c_idx, *abs_level_pass1, x_c, y_c, lw, lh, ts_residual_coding_disabled_flag, ctx, j, last_sig_coeff_pos) as usize,
                        ),
                        init_type_of(slice_type, cabac_init_flag),
                    ).0 as usize,
                    false,
                )
            }),
    {
        let (log2_tb_width, log2_tb_height) = tu.get_log2_zo_tb_size(mts_enabled_flag, sbt_flag, c_idx);
        let inc = self.derive_ctx_inc_for_par_level_flag_and_abs_level_gtx_flag(
            ctx,
            x_c,
            y_c,
            log2_tb_width,
            log2_tb_height,
            tu,
            c_idx,
            j,
            last_sig_coeff_pos,
            ts_residual_coding_disabled_flag,
            abs_level_pass1,
        );
        let init_type = Self::get_init_type(slice_type, cabac_init_flag);
        context_of_inc(ctx, inc, init_type)
    }

    /// The context index and bypass flag of `coeff_sign_flag` at (x_c, y_c), scan
    /// position `coeff_sign_flag_n`, of component `c_idx` of `tu`.
    pub fn derive_context_and_bypass_flag_for_coeff_sign_flag(
        &self,
        tu: &TransformUnit,
        c_idx: usize,
        x_c: usize,
        y_c: usize,
        last_scan_pos_pass1: isize,
        coeff_sign_flag_n: usize,
        slice_type: SliceType,
        cabac_init_flag: bool,
        ts_residual_coding_disabled_flag: bool,
        coeff_sign_level: &Vec<Vec<isize>>,
    ) -> (r: (usize, bool))
        requires
            c_idx < 3,
            coeff_sign_flag_n <= isize::MAX,
            coeff_sign_inc(*tu, c_idx, x_c, y_c, coeff_sign_flag_n, last_scan_pos_pass1, ts_residual_coding_disabled_flag, coeff_sign_level@) is Number
                ==> sign_levels_ok(coeff_sign_level@, x_c, y_c),
            inc_ok(
                CabacContext::CoeffSignFlag,
                coeff_sign_inc(*tu, c_idx, x_c, y_c, coeff_sign_flag_n, last_scan_pos_pass1, ts_residual_coding_disabled_flag, coeff_sign_level@),
                init_type_of(slice_type, cabac_init_flag),
            ),
        ensures
            ({
                let s = ctx_of_inc(
                    CabacContext::CoeffSignFlag,
                    coeff_sign_inc(*tu, c_idx, x_c, y_c, coeff_sign_flag_n, last_scan_pos_pass1, ts_residual_coding_disabled_flag, coeff_sign_level@),
                    init_type_of(slice_type, cabac_init_flag),
                );
                r.0 == s.0 && r.1 == s.1
            }),
    {
        let transform_skip_flag = tu.transform_skip_flag[c_idx];
        let inc = self.derive_ctx_inc_for_coeff_sign_flag(
            x_c,
            y_c,
            c_idx,
            transform_skip_flag,
            coeff_sign_flag_n,
            last_scan_pos_pass1,
            tu,
            ts_residual_coding_disabled_flag,
            coeff_sign_level,
        );
        let init_type = Self::get_init_type(slice_type, cabac_init_flag);
        context_of_inc(CabacContext::CoeffSignFlag, inc, init_type)
    }

    /// The context index of a palette `run_copy_flag`.
    pub fn _derive_context_and_bypass_flag_for_run_copy_flag(
        &self,
        previous_run_type: usize,
        previous_run_position: usize,
        cur_pos: usize,
        slice_type: SliceType,
        cabac_init_flag: bool,
    ) -> (r: (usize, bool))
        requires
            previous_run_type < 2,
            cur_pos > previous_run_position,
            inc_ok(
                CabacContext::RunCopyFlag,
                CtxInc::Number(run_copy_inc(previous_run_type, previous_run_position, cur_pos)),
                init_type_of(slice_type, cabac_init_flag),
            ),
        ensures
            r == (
                ctx_of_inc(
                    CabacContext::RunCopyFlag,
                    CtxInc::Number(run_copy_inc(previous_run_type, previous_run_position, cur_pos)),
                    init_type_of(slice_type, cabac_init_flag),
                ).0 as usize,
                false,
            ),
    {
        let inc = self._derive_ctx_inc_for_run_copy_flag(previous_run_type, previous_run_position, cur_pos);
        let init_type = Self::get_init_type(slice_type, cabac_init_flag);
        context_of_inc(CabacContext::RunCopyFlag, inc, init_type)
    }

    /// The context index of `alf_ctb_filter_alt_idx` (`ctx`) for reference list
    /// `ref_l` of `cu`: its reference index.
    pub fn _derive_context_and_bypass_flag_for_alf_ctb_filter_alt_idx(
        &self,
        ref_l: usize,
        ctx: CabacContext,
        cu: &CodingUnit,
        slice_type: SliceType,
        cabac_init_flag: bool,
    ) -> (r: (usize, bool))
        requires
            ref_l < 2,
            inc_ok(ctx, CtxInc::Number(cu.ref_idx[ref_l as int]), init_type_of(slice_type, cabac_init_flag)),
        ensures
            r == (
                ctx_of_inc(ctx, CtxInc::Number(cu.ref_idx[ref_l as int]), init_type_of(slice_type, cabac_init_flag)).0 as usize,
                false,
            ),
    {
        let ref_idx = cu.ref_idx[ref_l];
        let inc = self._derive_ctx_inc_for_alf_ctb_filter_alt_idx(ref_idx);
        let init_type = Self::get_init_type(slice_type, cabac_init_flag);
        context_of_inc(ctx, inc, init_type)
    }
}

impl BoolCoder {
    /// Codes `level_flag`, the `par_level_flag` or `j`-th `abs_level_gtx_flag`
    /// (`ctx`) at (x_c, y_c) of component `c_idx` of `tu`, with its derived context.
    pub fn encode_cabac_for_par_level_flag_and_abs_level_gtx_flag(
        &mut self,
        out_bins: &mut Bins,
        level_flag: bool,
        ctx: CabacContext,
        abs_level_gtx_flag_j: usize,
        tu: &TransformUnit,
        c_idx: usize,
        x_c: usize,
        y_c: usize,
        last_sig_coeff_pos: (usize, usize),
        slice_type: SliceType,
        cabac_init_flag: bool,
        mts_enabled_flag: bool,
        sbt_flag: bool,
        ts_residual_coding_disabled_flag: bool,
        abs_level_pass1: &Vec2d<usize>,
    )
        requires
            c_idx < 3,
            ({
                let (lw, lh) = zo_tb_size(*tu, mts_enabled_flag, sbt_flag, c_idx);
                &&& loc_ok(*tu, c_idx, *abs_level_pass1, x_c, y_c, lw, lh)
                &&& loc_template(
                    tu.quantized_transformed_coeffs@[c_idx as int],
                    *abs_level_pass1,
                    x_c as int,
                    y_c as int,
                    pow2(lw as nat) as int,
                    pow2(lh as nat) as int,
                ).1 <= usize::MAX
                &&& inc_entry_ok(
                    ctx,
                    CtxInc::Number(
                        level_flag_inc(*tu, c_idx, *abs_level_pass1, x_c, y_c, lw, lh, ts_residual_coding_disabled_flag, ctx, abs_level_gtx_flag_j, last_sig_coeff_pos) as usize,
                    ),
                    init_type_of(slice_type, cabac_init_flag),
                )
            }),
            x_c + y_c <= usize::MAX,
            abs_level_gtx_flag_j + 67 <= usize::MAX,
            old(self).wf(),
            old(self).engine_ok(),
            old(self).room(*old(out_bins), 9),
        ensures
            ({
                let (lw, lh) = zo_tb_size(*tu, mts_enabled_flag, sbt_flag, c_idx);
                sel_coded(
                    *old(self),
                    *old(out_bins),
                    *final(self),
                    *final(out_bins),
                    level_flag,
                    ctx,
                    init_type_of(slice_type, cabac_init_flag),
                    ctx_of_inc(
                        ctx,
                        CtxInc::Number(
                            level_flag_inc(*tu, c_idx, *abs_level_pass1, x_c, y_c, lw, lh, ts_residual_coding_disabled_flag, ctx, abs_level_gtx_flag_j, last_sig_coeff_pos) as usize,
                        ),
                        init_type_of(slice_type, cabac_init_flag),
                    ),
                )
            }),
            final(self).wf(),
            final(self).engine_ok(),
            final(self).cabac_table_state_sync == old(self).cabac_table_state_sync,
    {
        let init_type = Self::get_init_type(slice_type, cabac_init_flag);
        let (ctx_idx, bypass_flag) = self.derive_context_and_bypass_flag_for_par_level_flag_and_abs_level_gtx_flag(
            ctx,
            tu,
            c_idx,
            x_c,
            y_c,
            abs_level_gtx_flag_j,
            last_sig_coeff_pos,
            slice_type,
            cabac_init_flag,
            mts_enabled_flag,
            sbt_flag,
            ts_residual_coding_disabled_flag,
            abs_level_pass1,
        );
        self.encode_arithmetic(out_bins, level_flag, ctx, ctx_idx, bypass_flag, init_type);
    }

    /// Codes `coeff_sign_flag` at (x_c, y_c), scan position `coeff_sign_flag_n`, of
    /// component `c_idx` of `tu`: with the context of the neighbouring signs, or in
    /// bypass mode.
    pub fn encode_cabac_for_coeff_sign_flag(
        &mut self,
        out_bins: &mut Bins,
        coeff_sign_flag: bool,
        last_scan_pos_pass1: isize,
        coeff_sign_flag_n: usize,
        tu: &TransformUnit,
        c_idx: usize,
        x_c: usize,
        y_c: usize,
        slice_type: SliceType,
        cabac_init_flag: bool,
        ts_residual_coding_disabled_flag: bool,
        coeff_sign_level: &Vec<Vec<isize>>,
    )
        requires
            c_idx < 3,
            coeff_sign_flag_n <= isize::MAX,
            coeff_sign_inc(*tu, c_idx, x_c, y_c, coeff_sign_flag_n, last_scan_pos_pass1, ts_residual_coding_disabled_flag, coeff_sign_level@) is Number
                ==> sign_levels_ok(coeff_sign_level@, x_c, y_c),
            inc_entry_ok(
                CabacContext::CoeffSignFlag,
                coeff_sign_inc(*tu, c_idx, x_c, y_c, coeff_sign_flag_n, last_scan_pos_pass1, ts_residual_coding_disabled_flag, coeff_sign_level@),
                init_type_of(slice_type, cabac_init_flag),
            ),
            old(self).wf(),
            old(self).engine_ok(),
            old(self).room(*old(out_bins), 9),
        ensures
            sel_coded(
                *old(self),
                *old(out_bins),
                *final(self),
                *final(out_bins),
                coeff_sign_flag,
                CabacContext::CoeffSignFlag,
                init_type_of(slice_type, cabac_init_flag),
                ctx_of_inc(
                    CabacContext::CoeffSignFlag,
                    coeff_sign_inc(*tu, c_idx, x_c, y_c, coeff_sign_flag_n, last_scan_pos_pass1, ts_residual_coding_disabled_flag, coeff_sign_level@),
                    init_type_of(slice_type, cabac_init_flag),
                ),
            ),
            final(self).wf(),
            final(self).engine_ok(),
            final(self).cabac_table_state_sync == old(self).cabac_table_state_sync,
    {
        let init_type = Self::get_init_type(slice_type, cabac_init_flag);
        let (ctx_idx, bypass_flag) = self.derive_context_and_bypass_flag_for_coeff_sign_flag(
            tu,
            c_idx,
            x_c,
            y_c,
            last_scan_pos_pass1,
            coeff_sign_flag_n,
            slice_type,
            cabac_init_flag,
            ts_residual_coding_disabled_flag,
            coeff_sign_level,
        );
        self.encode_arithmetic(out_bins, coeff_sign_flag, CabacContext::CoeffSignFlag, ctx_idx, bypass_flag, init_type);
    }

    /// Codes a palette `run_copy_flag` with the context of the previous run.
    pub fn _encode_cabac_for_run_copy_flag(
        &mut self,
        out_bins: &mut Bins,
        run_copy_flag: bool,
        previous_run_type: usize,
        previous_run_position: usize,
        cur_pos: usize,
        slice_type: SliceType,
        cabac_init_flag: bool,
    )
        requires
            previous_run_type < 2,
            cur_pos > previous_run_position,
            inc_entry_ok(
                CabacContext::RunCopyFlag,
                CtxInc::Number(run_copy_inc(previous_run_type, previous_run_position, cur_pos)),
                init_type_of(slice_type, cabac_init_flag),
            ),
            old(self).wf(),
            old(self).engine_ok(),
            old(self).room(*old(out_bins), 9),
        ensures
            sel_coded(
                *old(self),
                *old(out_bins),
                *final(self),
                *final(out_bins),
                run_copy_flag,
                CabacContext::RunCopyFlag,
                init_type_of(slice_type, cabac_init_flag),
                ctx_of_inc(
                    CabacContext::RunCopyFlag,
                    CtxInc::Number(run_copy_inc(previous_run_type, previous_run_position, cur_pos)),
                    init_type_of(slice_type, cabac_init_flag),
                ),
            ),
            final(self).wf(),
            final(self).engine_ok(),
            final(self).cabac_table_state_sync == old(self).cabac_table_state_sync,
    {
        let init_type = Self::get_init_type(slice_type, cabac_init_flag);
        let (ctx_idx, bypass_flag) = self._derive_context_and_bypass_flag_for_run_copy_flag(
            previous_run_type,
            previous_run_position,
            cur_pos,
            slice_type,
            cabac_init_flag,
        );
        self.encode_arithmetic(out_bins, run_copy_flag, CabacContext::RunCopyFlag, ctx_idx, bypass_flag, init_type);
    }

    /// Codes `sig_coeff_flag` `val` (`ctx`) at (x_c, y_c) of component `c_idx` of
    /// `tu`: its one-bin binarization with the derived context.
    pub fn encode_cabac_for_sig_coeff_flag(
        &mut self,
        out_bins: &mut Bins,
        val: usize,
        x_c: usize,
        y_c: usize,
        ctx: CabacContext,
        tu: &TransformUnit,
        c_idx: usize,
        slice_type: SliceType,
        cabac_init_flag: bool,
        ts_residual_coding_disabled_flag: bool,
        abs_level_pass1: &Vec2d<usize>,
        q_state: usize,
    )
        requires
            val <= 1,
            c_idx < 3,
            ({
                let (lw, lh) = tu.spec_log2_tb_size(c_idx);
                &&& loc_ok(*tu, c_idx, *abs_level_pass1, x_c, y_c, lw, lh)
                &&& loc_sig_and_sum(
                    tu.quantized_transformed_coeffs@[c_idx as int],
                    *abs_level_pass1,
                    x_c as int,
                    y_c as int,
                    pow2(lw as nat) as int,
                    pow2(lh as nat) as int,
                    tu.transform_skip_flag[c_idx as int] && !ts_residual_coding_disabled_flag,
                ).1 + 100 <= usize::MAX
                &&& inc_entry_ok(
                    ctx,
                    CtxInc::Number(
                        sig_coeff_inc(*tu, c_idx, *abs_level_pass1, x_c, y_c, lw, lh, ts_residual_coding_disabled_flag, q_state) as usize,
                    ),
                    init_type_of(slice_type, cabac_init_flag),
                )
            }),
            x_c + y_c <= usize::MAX,
            12 * q_state + 100 <= usize::MAX,
            old(self).wf(),
            old(self).engine_ok(),
            old(self).room(*old(out_bins), 9),
        ensures
            ({
                let (lw, lh) = tu.spec_log2_tb_size(c_idx);
                sel_coded(
                    *old(self),
                    *old(out_bins),
                    *final(self),
                    *final(out_bins),
                    val == 1,
                    ctx,
                    init_type_of(slice_type, cabac_init_flag),
                    ctx_of_inc(
                        ctx,
                        CtxInc::Number(
                            sig_coeff_inc(*tu, c_idx, *abs_level_pass1, x_c, y_c, lw, lh, ts_residual_coding_disabled_flag, q_state) as usize,
                        ),
                        init_type_of(slice_type, cabac_init_flag),
                    ),
                )
            }),
            final(self).wf(),
            final(self).engine_ok(),
            final(self).cabac_table_state_sync == old(self).cabac_table_state_sync,
    {
        let init_type = Self::get_init_type(slice_type, cabac_init_flag);
        let mut bins = Bins::new();
        self.binarize_cabac_sig_coeff_flag(&mut bins, val);
        proof {
            assert(crate::bits::bit_length(1) == 1) by {
                assert(crate::bits::bit_length(0) == 0);
            }
            assert((val as u64) < (1u64 << 1u64)) by (bit_vector)
                requires
                    val <= 1,
            ;
        }
        let v = bins.collect();
        proof {
            assert(((val as u64 >> 0u64) & 1u64 == 1u64) == (val == 1)) by (bit_vector)
                requires
                    val <= 1,
            ;
        }
        let (ctx_idx, bypass_flag) = self.derive_context_and_bypass_flag_for_sig_coeff_flag(
            x_c,
            y_c,
            c_idx,
            ctx,
            tu,
            slice_type,
            cabac_init_flag,
            ts_residual_coding_disabled_flag,
            abs_level_pass1,
            q_state,
        );
        self.encode_arithmetic(out_bins, v[0], ctx, ctx_idx, bypass_flag, init_type);
    }
}

impl BoolCoder {
    /// Codes `v` as the bins of `ctx`, each with the context its position selects in
    /// the table, or in bypass mode.
    fn encode_bins_by_rule(
        &mut self,
        out_bins: &mut Bins,
        v: &Vec<bool>,
        ctx: CabacContext,
        slice_type: SliceType,
        cabac_init_flag: bool,
    )
        requires
            v.len() <= 64,
            forall|k: int| 0 <= k < v.len() ==> #[trigger] bin_ctx_ok(ctx, k, init_type_of(slice_type, cabac_init_flag)),
            old(self).wf(),
            old(self).engine_ok(),
            old(out_bins).num_bins + old(self).cabac_bits_outstanding + 9 * 65 <= usize::MAX,
        ensures
            bins_coded(*old(self), *old(out_bins), *final(self), *final(out_bins), v@, ctx, init_type_of(slice_type, cabac_init_flag)),
            final(self).wf(),
            final(self).engine_ok(),
            final(self).cabac_table_state_sync == old(self).cabac_table_state_sync,
            final(out_bins).num_bins + final(self).cabac_bits_outstanding <= old(out_bins).num_bins
                + old(self).cabac_bits_outstanding + 9 * 64,
    {
        let init_type = Self::get_init_type(slice_type, cabac_init_flag);
        let ghost gs = Seq::new(v@.len(), |k: int| ctx_of_bin(ctx, k, init_type));
        let mut sels: Vec<(usize, bool)> = Vec::new();
        let mut i: usize = 0;
        while i < v.len()
            invariant
                i <= v@.len(),
                sels@.len() == i,
                init_type == init_type_of(slice_type, cabac_init_flag),
                gs == Seq::new(v@.len(), |k: int| ctx_of_bin(ctx, k, init_type)),
                forall|k: int| 0 <= k < v.len() ==> #[trigger] bin_ctx_ok(ctx, k, init_type),
                forall|k: int| 0 <= k < i ==> #[trigger] sels@[k].0 == gs[k].0 && sels@[k].1 == gs[k].1,
            decreases v@.len() - i,
        {
            proof {
                assert(bin_ctx_ok(ctx, i as int, init_type));
            }
            let sel = self.derive_context_and_bypass_flag(i, ctx, slice_type, cabac_init_flag);
            sels.push(sel);
            i += 1;
        }
        proof {
            assert forall|k: int| 0 <= k < v.len() && !gs[k].1 implies ctx_entry_ok(ctx, init_type, #[trigger] sels@[k].0) by {
                assert(bin_ctx_ok(ctx, k, init_type));
            }
        }
        let ghost c0 = *self;
        let ghost o0 = *out_bins;
        self.encode_bins_in(out_bins, v, &sels, ctx, init_type, Ghost(gs));
        proof {
            lemma_coded_by_rule(c0, o0, *self, *out_bins, v@, ctx, init_type);
        }
    }

    /// Appends the binarization of `abs_remainder` at (x_c, y_c), scan position
    /// `abs_n`, of component `c_idx` of `tu`.
    pub fn binarize_cabac_for_abs_remainder(
        &mut self,
        out_bins: &mut Bins,
        val: usize,
        x_c: usize,
        y_c: usize,
        abs_n: usize,
        tu: &TransformUnit,
        c_idx: usize,
        ts_residual_coding_disabled_flag: bool,
        abs_level: &Vec2d<usize>,
        q_state: usize,
        zero_pos: &mut Vec<usize>,
    )
        requires
            c_idx < 3,
            old(out_bins).num_bins + 64 <= usize::MAX,
            !(tu.transform_skip_flag[c_idx as int] && !ts_residual_coding_disabled_flag) ==> template_ok(
                *abs_level,
                4,
                x_c,
                y_c,
                tu.spec_log2_tb_size(c_idx).0,
                tu.spec_log2_tb_size(c_idx).1,
            ),
        ensures
            appended(*old(out_bins), *final(out_bins), abs_rem_bits(val as nat, abs_rem_param(*tu, c_idx, x_c, y_c, ts_residual_coding_disabled_flag, *abs_level) as nat)),
            final(zero_pos)@ == old(zero_pos)@,
            *final(self) == *old(self),
    {
        self.encode_abs_remainder(
            out_bins,
            val,
            tu,
            c_idx,
            x_c,
            y_c,
            abs_n,
            tu.transform_skip_flag[c_idx],
            ts_residual_coding_disabled_flag,
            abs_level,
            q_state,
            zero_pos,
        )
    }

    /// Appends the binarization of `dec_abs_level` at (x_c, y_c), scan position
    /// `abs_n`, of component `c_idx` of `tu`, recording its zero position.
    pub fn binarize_cabac_for_dec_abs_level(
        &mut self,
        out_bins: &mut Bins,
        val: usize,
        x_c: usize,
        y_c: usize,
        abs_n: usize,
        tu: &TransformUnit,
        c_idx: usize,
        abs_level: &Vec2d<usize>,
        q_state: usize,
        zero_pos: &mut Vec<usize>,
    )
        requires
            c_idx < 3,
            old(out_bins).num_bins + 64 <= usize::MAX,
            template_ok(*abs_level, 0, x_c, y_c, tu.spec_log2_tb_size(c_idx).0, tu.spec_log2_tb_size(c_idx).1),
            abs_n < old(zero_pos)@.len(),
        ensures
            ({
                let k = dec_abs_param(*tu, c_idx, x_c, y_c, *abs_level);
                &&& appended(*old(out_bins), *final(out_bins), abs_rem_bits(val as nat, k as nat))
                &&& final(zero_pos)@ == old(zero_pos)@.update(
                    abs_n as int,
                    ((if q_state < 2 { 1int } else { 2 }) * pow2(k as nat)) as usize,
                )
            }),
            *final(self) == *old(self),
    {
        let (log2_tb_width, log2_tb_height) = tu.get_log2_tb_size(c_idx);
        self.encode_dec_abs_level(out_bins, val, abs_n, x_c, y_c, log2_tb_width, log2_tb_height, abs_level, q_state, zero_pos)
    }

    /// Codes `abs_remainder` `val` (`ctx`) at (x_c, y_c), scan position `abs_n`, of
    /// component `c_idx` of `tu`: its binarization, each bin by the table rule.
    pub fn encode_cabac_for_abs_remainder(
        &mut self,
        out_bins: &mut Bins,
        val: usize,
        x_c: usize,
        y_c: usize,
        abs_n: usize,
        ctx: CabacContext,
        tu: &TransformUnit,
        c_idx: usize,
        slice_type: SliceType,
        cabac_init_flag: bool,
        ts_residual_coding_disabled_flag: bool,
        abs_level: &Vec2d<usize>,
        q_state: usize,
        zero_pos: &mut Vec<usize>,
    )
        requires
            c_idx < 3,
            !(tu.transform_skip_flag[c_idx as int] && !ts_residual_coding_disabled_flag) ==> template_ok(
                *abs_level,
                4,
                x_c,
                y_c,
                tu.spec_log2_tb_size(c_idx).0,
                tu.spec_log2_tb_size(c_idx).1,
            ),
            forall|i: int|
                0 <= i < abs_rem_bits(val as nat, abs_rem_param(*tu, c_idx, x_c, y_c, ts_residual_coding_disabled_flag, *abs_level) as nat).len()
                    ==> #[trigger] bin_ctx_ok(ctx, i, init_type_of(slice_type, cabac_init_flag)),
            old(self).wf(),
            old(self).engine_ok(),
            old(out_bins).num_bins + old(self).cabac_bits_outstanding + 9 * 65 <= usize::MAX,
        ensures
            bins_coded(
                *old(self),
                *old(out_bins),
                *final(self),
                *final(out_bins),
                abs_rem_bits(val as nat, abs_rem_param(*tu, c_idx, x_c, y_c, ts_residual_coding_disabled_flag, *abs_level) as nat),
                ctx,
                init_type_of(slice_type, cabac_init_flag),
            ),
            final(zero_pos)@ == old(zero_pos)@,
            final(self).wf(),
            final(self).engine_ok(),
            final(self).cabac_table_state_sync == old(self).cabac_table_state_sync,
    {
        let ghost k = abs_rem_param(*tu, c_idx, x_c, y_c, ts_residual_coding_disabled_flag, *abs_level);
        proof {
            lemma_abs_rem_bits_len(val as nat, k as nat);
        }
        let mut bins = Bins::new();
        self.binarize_cabac_for_abs_remainder(
            &mut bins,
            val,
            x_c,
            y_c,
            abs_n,
            tu,
            c_idx,
            ts_residual_coding_disabled_flag,
            abs_level,
            q_state,
            zero_pos,
        );
        let v = bins.collect();
        self.encode_bins_by_rule(out_bins, &v, ctx, slice_type, cabac_init_flag);
    }

    /// Codes `dec_abs_level` `val` (`ctx`) at (x_c, y_c), scan position `abs_n`, of
    /// component `c_idx` of `tu`: its binarization, each bin by the table rule.
    pub fn encode_cabac_for_dec_abs_level(
        &mut self,
        out_bins: &mut Bins,
        val: usize,
        x_c: usize,
        y_c: usize,
        abs_n: usize,
        ctx: CabacContext,
        tu: &TransformUnit,
        c_idx: usize,
        slice_type: SliceType,
        cabac_init_flag: bool,
        abs_level: &Vec2d<usize>,
        q_state: usize,
        zero_pos: &mut Vec<usize>,
    )
        requires
            c_idx < 3,
            template_ok(*abs_level, 0, x_c, y_c, tu.spec_log2_tb_size(c_idx).0, tu.spec_log2_tb_size(c_idx).1),
            abs_n < old(zero_pos)@.len(),
            forall|i: int|
                0 <= i < abs_rem_bits(val as nat, dec_abs_param(*tu, c_idx, x_c, y_c, *abs_level) as nat).len()
                    ==> #[trigger] bin_ctx_ok(ctx, i, init_type_of(slice_type, cabac_init_flag)),
            old(self).wf(),
            old(self).engine_ok(),
            old(out_bins).num_bins + old(self).cabac_bits_outstanding + 9 * 65 <= usize::MAX,
        ensures
            ({
                let k = dec_abs_param(*tu, c_idx, x_c, y_c, *abs_level);
                &&& bins_coded(
                    *old(self),
                    *old(out_bins),
                    *final(self),
                    *final(out_bins),
                    abs_rem_bits(val as nat, k as nat),
                    ctx,
                    init_type_of(slice_type, cabac_init_flag),
                )
                &&& final(zero_pos)@ == old(zero_pos)@.update(
                    abs_n as int,
                    ((if q_state < 2 { 1int } else { 2 }) * pow2(k as nat)) as usize,
                )
            }),
            final(self).wf(),
            final(self).engine_ok(),
            final(self).cabac_table_state_sync == old(self).cabac_table_state_sync,
    {
        let ghost k = dec_abs_param(*tu, c_idx, x_c, y_c, *abs_level);
        proof {
            lemma_abs_rem_bits_len(val as nat, k as nat);
        }
        let mut bins = Bins::new();
        self.binarize_cabac_for_dec_abs_level(&mut bins, val, x_c, y_c, abs_n, tu, c_idx, abs_level, q_state, zero_pos);
        let v = bins.collect();
        self.encode_bins_by_rule(out_bins, &v, ctx, slice_type, cabac_init_flag);
    }

    /// Codes `last_sig_coeff_x_suffix` `val` (`ctx`) after prefix
    /// `last_sig_coeff_x_prefix`: its fixed-length binarization, each bin by the
    /// table rule.
    pub fn encode_cabac_for_last_sig_coeff_x_suffix(
        &mut self,
        out_bins: &mut Bins,
        val: usize,
        last_sig_coeff_x_prefix: usize,
        ctx: CabacContext,
        slice_type: SliceType,
        cabac_init_flag: bool,
    )
        requires
            4 <= last_sig_coeff_x_prefix,
            last_sig_coeff_x_prefix / 2 - 1 < usize::BITS,
            fits(val as u64, (last_sig_coeff_x_prefix / 2 - 1) as nat),
            forall|i: int|
                0 <= i < last_sig_coeff_x_prefix / 2 - 1 ==> #[trigger] bin_ctx_ok(ctx, i, init_type_of(slice_type, cabac_init_flag)),
            old(self).wf(),
            old(self).engine_ok(),
            old(out_bins).num_bins + old(self).cabac_bits_outstanding + 9 * 65 <= usize::MAX,
        ensures
            bins_coded(
                *old(self),
                *old(out_bins),
                *final(self),
                *final(out_bins),
                word_bits(val as u64, (last_sig_coeff_x_prefix / 2 - 1) as nat),
                ctx,
                init_type_of(slice_type, cabac_init_flag),
            ),
            final(self).wf(),
            final(self).engine_ok(),
            final(self).cabac_table_state_sync == old(self).cabac_table_state_sync,
            final(out_bins).num_bins + final(self).cabac_bits_outstanding <= old(out_bins).num_bins
                + old(self).cabac_bits_outstanding + 9 * 64,
    {
        let mut bins = Bins::new();
        self.binarize_cabac_for_last_sig_coeff_x_suffix(&mut bins, val, last_sig_coeff_x_prefix);
        let v = bins.collect();
        self.encode_bins_by_rule(out_bins, &v, ctx, slice_type, cabac_init_flag);
    }

    /// Codes `last_sig_coeff_y_suffix` `val` (`ctx`) after prefix
    /// `last_sig_coeff_y_prefix`: its fixed-length binarization, each bin by the
    /// table rule.
    pub fn encode_cabac_for_last_sig_coeff_y_suffix(
        &mut self,
        out_bins: &mut Bins,
        val: usize,
        last_sig_coeff_y_prefix: usize,
        ctx: CabacContext,
        slice_type: SliceType,
        cabac_init_flag: bool,
    )
        requires
            4 <= last_sig_coeff_y_prefix,
            last_sig_coeff_y_prefix / 2 - 1 < usize::BITS,
            fits(val as u64, (last_sig_coeff_y_prefix / 2 - 1) as nat),
            forall|i: int|
                0 <= i < last_sig_coeff_y_prefix / 2 - 1 ==> #[trigger] bin_ctx_ok(ctx, i, init_type_of(slice_type, cabac_init_flag)),
            old(self).wf(),
            old(self).engine_ok(),
            old(out_bins).num_bins + old(self).cabac_bits_outstanding + 9 * 65 <= usize::MAX,
        ensures
            bins_coded(
                *old(self),
                *old(out_bins),
                *final(self),
                *final(out_bins),
                word_bits(val as u64, (last_sig_coeff_y_prefix / 2 - 1) as nat),
                ctx,
                init_type_of(slice_type, cabac_init_flag),
            ),
            final(self).wf(),
            final(self).engine_ok(),
            final(self).cabac_table_state_sync == old(self).cabac_table_state_sync,
            final(out_bins).num_bins + final(self).cabac_bits_outstanding <= old(out_bins).num_bins
                + old(self).cabac_bits_outstanding + 9 * 64,
    {
        let mut bins = Bins::new();
        self.binarize_cabac_for_last_sig_coeff_y_suffix(&mut bins, val, last_sig_coeff_y_prefix);
        let v = bins.collect();
        self.encode_bins_by_rule(out_bins, &v, ctx, slice_type, cabac_init_flag);
    }
}

/// The Rice parameter of `abs_remainder` at (x, y) of component `c_idx` of `tu`: 1
/// under transform skip residual coding, else derived for a base level of 4.
pub open spec fn abs_rem_param(
    tu: TransformUnit,
    c_idx: usize,
    x: usize,
    y: usize,
    ts_residual_coding_disabled_flag: bool,
    a: Vec2d<usize>,
) -> usize {
    let (lw, lh) = tu.spec_log2_tb_size(c_idx);
    if tu.transform_skip_flag[c_idx as int] && !ts_residual_coding_disabled_flag {
        1
    } else {
        rice_param(a, 4, x as int, y as int, pow2(lw as nat) as int, pow2(lh as nat) as int)
    }
}

/// The Rice parameter of `dec_abs_level` at (x, y) of component `c_idx` of `tu`:
/// derived for a base level of 0.
pub open spec fn dec_abs_param(tu: TransformUnit, c_idx: usize, x: usize, y: usize, a: Vec2d<usize>) -> usize {
    let (lw, lh) = tu.spec_log2_tb_size(c_idx);
    rice_param(a, 0, x as int, y as int, pow2(lw as nat) as int, pow2(lh as nat) as int)
}

/// The context index of bin `k` of a last significant coefficient prefix (`ctx`) of
/// component `c_idx` of a block `2^log2_tb_size` samples along its axis.
pub open spec fn last_prefix_sel(ctx: CabacContext, k: int, c_idx: usize, log2_tb_size: usize, init_type: usize) -> (int, bool) {
    ctx_of_inc(ctx, CtxInc::Number(last_sig_ctx_inc(k as usize, c_idx, log2_tb_size) as usize), init_type)
}

/// The bins of a last significant coefficient prefix of component `c_idx` of a
/// block `2^log2_tb_size` samples along its axis can each take their context.
pub open spec fn last_prefix_ok(ctx: CabacContext, n: int, c_idx: usize, log2_tb_size: usize, init_type: usize) -> bool {
    forall|k: usize|
        k < n ==> #[trigger] last_sig_ctx_ok(k, c_idx, log2_tb_size) && inc_entry_ok(
            ctx,
            CtxInc::Number(last_sig_ctx_inc(k, c_idx, log2_tb_size) as usize),
            init_type,
        )
}

proof fn lemma_tr0_len(v: nat, c_max: nat)
    ensures
        tr_bits(v, c_max, 0).len() <= c_max,
{
    vstd::arithmetic::power2::lemma2_to64();
}

impl BoolCoder {
    /// Appends the truncated Rice binarization of `last_sig_coeff_x_prefix`, largest
    /// value one less than twice the log2 width of the block of component `c_idx` of
    /// `tu` that can hold nonzero coefficients.
    pub fn binarize_cabac_last_sig_coeff_x_prefix(
        &mut self,
        out_bins: &mut Bins,
        val: usize,
        tu: &TransformUnit,
        c_idx: usize,
        mts_enabled_flag: bool,
        sbt_flag: bool,
    )
        requires
            c_idx < 3,
            zo_tb_size(*tu, mts_enabled_flag, sbt_flag, c_idx).0 >= 1,
            old(out_bins).num_bins + 128 <= usize::MAX,
        ensures
            appended(
                *old(out_bins),
                *final(out_bins),
                tr_bits(val as nat, (2 * zo_tb_size(*tu, mts_enabled_flag, sbt_flag, c_idx).0 - 1) as nat, 0),
            ),
            *final(self) == *old(self),
    {
        let log2_zo_tb_width = tu.get_log2_zo_tb_size(mts_enabled_flag, sbt_flag, c_idx).0;
        proof {
            vstd::arithmetic::power2::lemma2_to64();
            vstd::bits::lemma_usize_shl_is_mul(log2_zo_tb_width, 1);
        }
        let c_max = (log2_zo_tb_width << 1) - 1;
        self.encode_trancated_rice(out_bins, val, c_max, 0)
    }

    /// Appends the truncated Rice binarization of `last_sig_coeff_y_prefix`, largest
    /// value one less than twice the log2 height of the block of component `c_idx` of
    /// `tu` that can hold nonzero coefficients.
    pub fn binarize_cabac_last_sig_coeff_y_prefix(
        &mut self,
        out_bins: &mut Bins,
        val: usize,
        tu: &TransformUnit,
        c_idx: usize,
        mts_enabled_flag: bool,
        sbt_flag: bool,
    )
        requires
            c_idx < 3,
            zo_tb_size(*tu, mts_enabled_flag, sbt_flag, c_idx).1 >= 1,
            old(out_bins).num_bins + 128 <= usize::MAX,
        ensures
            appended(
                *old(out_bins),
                *final(out_bins),
                tr_bits(val as nat, (2 * zo_tb_size(*tu, mts_enabled_flag, sbt_flag, c_idx).1 - 1) as nat, 0),
            ),
            *final(self) == *old(self),
    {
        let log2_zo_tb_height = tu.get_log2_zo_tb_size(mts_enabled_flag, sbt_flag, c_idx).1;
        proof {
            vstd::arithmetic::power2::lemma2_to64();
            vstd::bits::lemma_usize_shl_is_mul(log2_zo_tb_height, 1);
        }
        let c_max = (log2_zo_tb_height << 1) - 1;
        self.encode_trancated_rice(out_bins, val, c_max, 0)
    }

    /// Codes `last_sig_coeff_x_prefix` `val` of component `c_idx` of `tu`: its
    /// binarization, bin `k` with the context of its position in a block of the
    /// transform width.
    pub fn encode_cabac_last_sig_coeff_x_prefix(
        &mut self,
        out_bins: &mut Bins,
        val: usize,
        tu: &TransformUnit,
        c_idx: usize,
        slice_type: SliceType,
        cabac_init_flag: bool,
        mts_enabled_flag: bool,
        sbt_flag: bool,
    )
        requires
            c_idx < 3,
            zo_tb_size(*tu, mts_enabled_flag, sbt_flag, c_idx).0 >= 1,
            last_prefix_ok(
                CabacContext::LastSigCoeffXPrefix,
                tr_bits(val as nat, (2 * zo_tb_size(*tu, mts_enabled_flag, sbt_flag, c_idx).0 - 1) as nat, 0).len() as int,
                c_idx,
                tu.spec_log2_tb_size(c_idx).0,
                init_type_of(slice_type, cabac_init_flag),
            ),
            old(self).wf(),
            old(self).engine_ok(),
            old(out_bins).num_bins + old(self).cabac_bits_outstanding + 9 * 65 <= usize::MAX,
        ensures
            ({
                let bins = tr_bits(val as nat, (2 * zo_tb_size(*tu, mts_enabled_flag, sbt_flag, c_idx).0 - 1) as nat, 0);
                let it = init_type_of(slice_type, cabac_init_flag);
                coded_in(
                    *old(self),
                    *old(out_bins),
                    *final(self),
                    *final(out_bins),
                    bins,
                    Seq::new(
                        bins.len(),
                        |k: int| last_prefix_sel(CabacContext::LastSigCoeffXPrefix, k, c_idx, tu.spec_log2_tb_size(c_idx).0, it),
                    ),
                    CabacContext::LastSigCoeffXPrefix,
                    it,
                )
            }),
            final(self).wf(),
            final(self).engine_ok(),
            final(self).cabac_table_state_sync == old(self).cabac_table_state_sync,
            final(out_bins).num_bins + final(self).cabac_bits_outstanding <= old(out_bins).num_bins
                + old(self).cabac_bits_outstanding + 9 * 64,
    {
        let init_type = Self::get_init_type(slice_type, cabac_init_flag);
        let ghost lw = tu.spec_log2_tb_size(c_idx).0;
        let ghost ctx = CabacContext::LastSigCoeffXPrefix;
        let mut bins = Bins::new();
        self.binarize_cabac_last_sig_coeff_x_prefix(&mut bins, val, tu, c_idx, mts_enabled_flag, sbt_flag);
        proof {
            lemma_tr0_len(val as nat, (2 * zo_tb_size(*tu, mts_enabled_flag, sbt_flag, c_idx).0 - 1) as nat);
        }
        let v = bins.collect();
        let ghost gs = Seq::new(v@.len(), |k: int| last_prefix_sel(ctx, k, c_idx, lw, init_type));
        let mut sels: Vec<(usize, bool)> = Vec::new();
        let mut i: usize = 0;
        while i < v.len()
            invariant
                i <= v@.len(),
                c_idx < 3,
                sels@.len() == i,
                init_type == init_type_of(slice_type, cabac_init_flag),
                lw == tu.spec_log2_tb_size(c_idx).0,
                ctx == CabacContext::LastSigCoeffXPrefix,
                gs == Seq::new(v@.len(), |k: int| last_prefix_sel(ctx, k, c_idx, lw, init_type)),
                last_prefix_ok(ctx, v@.len() as int, c_idx, lw, init_type),
                forall|k: int| 0 <= k < i ==> #[trigger] sels@[k].0 == gs[k].0 && sels@[k].1 == gs[k].1,
            decreases v@.len() - i,
        {
            proof {
                assert(last_sig_ctx_ok(i, c_idx, lw));
            }
            let sel = self.derive_context_and_bypass_flag_last_sig_coeff_x_prefix(i, c_idx, tu, slice_type, cabac_init_flag);
            proof {
                assert(gs[i as int] == last_prefix_sel(ctx, i as int, c_idx, lw, init_type));
                assert(sel.0 == gs[i as int].0 && sel.1 == gs[i as int].1);
            }
            sels.push(sel);
            i += 1;
        }
        proof {
            assert forall|k: int| 0 <= k < v.len() && !gs[k].1 implies ctx_entry_ok(ctx, init_type, #[trigger] sels@[k].0) by {
                assert(last_sig_ctx_ok(k as usize, c_idx, lw));
            }
        }
        self.encode_bins_in(out_bins, &v, &sels, CabacContext::LastSigCoeffXPrefix, init_type, Ghost(gs));
    }

    /// Codes `last_sig_coeff_y_prefix` `val` of component `c_idx` of `tu`: its
    /// binarization, bin `k` with the context of its position in a block of the
    /// transform height.
    pub fn encode_cabac_last_sig_coeff_y_prefix(
        &mut self,
        out_bins: &mut Bins,
        val: usize,
        tu: &TransformUnit,
        c_idx: usize,
        slice_type: SliceType,
        cabac_init_flag: bool,
        mts_enabled_flag: bool,
        sbt_flag: bool,
    )
        requires
            c_idx < 3,
            zo_tb_size(*tu, mts_enabled_flag, sbt_flag, c_idx).1 >= 1,
            last_prefix_ok(
                CabacContext::LastSigCoeffYPrefix,
                tr_bits(val as nat, (2 * zo_tb_size(*tu, mts_enabled_flag, sbt_flag, c_idx).1 - 1) as nat, 0).len() as int,
                c_idx,
                tu.spec_log2_tb_size(c_idx).1,
                init_type_of(slice_type, cabac_init_flag),
            ),
            old(self).wf(),
            old(self).engine_ok(),
            old(out_bins).num_bins + old(self).cabac_bits_outstanding + 9 * 65 <= usize::MAX,
        ensures
            ({
                let bins = tr_bits(val as nat, (2 * zo_tb_size(*tu, mts_enabled_flag, sbt_flag, c_idx).1 - 1) as nat, 0);
                let it = init_type_of(slice_type, cabac_init_flag);
                coded_in(
                    *old(self),
                    *old(out_bins),
                    *final(self),
                    *final(out_bins),
                    bins,
                    Seq::new(
                        bins.len(),
                        |k: int| last_prefix_sel(CabacContext::LastSigCoeffYPrefix, k, c_idx, tu.spec_log2_tb_size(c_idx).1, it),
                    ),
                    CabacContext::LastSigCoeffYPrefix,
                    it,
                )
            }),
            final(self).wf(),
            final(self).engine_ok(),
            final(self).cabac_table_state_sync == old(self).cabac_table_state_sync,
            final(out_bins).num_bins + final(self).cabac_bits_outstanding <= old(out_bins).num_bins
                + old(self).cabac_bits_outstanding + 9 * 64,
    {
        let init_type = Self::get_init_type(slice_type, cabac_init_flag);
        let ghost lh = tu.spec_log2_tb_size(c_idx).1;
        let ghost ctx = CabacContext::LastSigCoeffYPrefix;
        let mut bins = Bins::new();
        self.binarize_cabac_last_sig_coeff_y_prefix(&mut bins, val, tu, c_idx, mts_enabled_flag, sbt_flag);
        proof {
            lemma_tr0_len(val as nat, (2 * zo_tb_size(*tu, mts_enabled_flag, sbt_flag, c_idx).1 - 1) as nat);
        }
        let v = bins.collect();
        let ghost gs = Seq::new(v@.len(), |k: int| last_prefix_sel(ctx, k, c_idx, lh, init_type));
        let mut sels: Vec<(usize, bool)> = Vec::new();
        let mut i: usize = 0;
        while i < v.len()
            invariant
                i <= v@.len(),
                c_idx < 3,
                sels@.len() == i,
                init_type == init_type_of(slice_type, cabac_init_flag),
                lh == tu.spec_log2_tb_size(c_idx).1,
                ctx == CabacContext::LastSigCoeffYPrefix,
                gs == Seq::new(v@.len(), |k: int| last_prefix_sel(ctx, k, c_idx, lh, init_type)),
                last_prefix_ok(ctx, v@.len() as int, c_idx, lh, init_type),
                forall|k: int| 0 <= k < i ==> #[trigger] sels@[k].0 == gs[k].0 && sels@[k].1 == gs[k].1,
            decreases v@.len() - i,
        {
            proof {
                assert(last_sig_ctx_ok(i, c_idx, lh));
            }
            let sel = self.derive_context_and_bypass_flag_last_sig_coeff_y_prefix(i, c_idx, tu, slice_type, cabac_init_flag);
            proof {
                assert(gs[i as int] == last_prefix_sel(ctx, i as int, c_idx, lh, init_type));
                assert(sel.0 == gs[i as int].0 && sel.1 == gs[i as int].1);
            }
            sels.push(sel);
            i += 1;
        }
        proof {
            assert forall|k: int| 0 <= k < v.len() && !gs[k].1 implies ctx_entry_ok(ctx, init_type, #[trigger] sels@[k].0) by {
                assert(last_sig_ctx_ok(k as usize, c_idx, lh));
            }
        }
        self.encode_bins_in(out_bins, &v, &sels, CabacContext::LastSigCoeffYPrefix, init_type, Ghost(gs));
    }
}

/// Some luma coefficient of `tu` is nonzero (never for a chroma tree).
pub open spec fn y_coded(tu: TransformUnit) -> bool {
    tu.tree_type != TreeType::DUAL_TREE_CHROMA && any_nonzero(
        tu.quantized_transformed_coeffs@[0],
        0,
        tu.height as int,
        0,
        tu.width as int,
    )
}

/// Some Cb coefficient of `tu` is nonzero (never for a luma tree).
pub open spec fn cb_coded(tu: TransformUnit) -> bool {
    tu.tree_type != TreeType::DUAL_TREE_LUMA && any_nonzero(
        tu.quantized_transformed_coeffs@[1],
        0,
        (tu.height / 2) as int,
        0,
        (tu.width / 2) as int,
    )
}

/// Some Cr coefficient of `tu` is nonzero (never for a luma tree).
pub open spec fn cr_coded(tu: TransformUnit) -> bool {
    tu.tree_type != TreeType::DUAL_TREE_LUMA && any_nonzero(
        tu.quantized_transformed_coeffs@[2],
        0,
        (tu.height / 2) as int,
        0,
        (tu.width / 2) as int,
    )
}

/// The coefficient planes of `tu` cover its luma block and its half-size chroma
/// blocks, as far as its tree type has them.
pub open spec fn planes_ok(tu: TransformUnit) -> bool {
    &&& tu.tree_type != TreeType::DUAL_TREE_CHROMA ==> tu.quantized_transformed_coeffs@.len() > 0
        && tu.quantized_transformed_coeffs@[0].wf() && tu.height <= tu.quantized_transformed_coeffs@[0].height
    &&& tu.tree_type != TreeType::DUAL_TREE_LUMA ==> tu.quantized_transformed_coeffs@.len() > 2
        && tu.quantized_transformed_coeffs@[1].wf() && tu.height / 2 <= tu.quantized_transformed_coeffs@[1].height
        && tu.quantized_transformed_coeffs@[2].wf() && tu.height / 2 <= tu.quantized_transformed_coeffs@[2].height
}

/// The context increment of bin `bin_idx` of the transform unit syntax element
/// `ctx` of unit `u` (component `c_idx`) of `ctu`, with intra sub-partitions split
/// `isp`: `tu_y_coded_flag` by the previous unit of its coding unit, the chroma
/// coded flags and the joint flag by the coded chroma blocks, `transform_skip_flag`
/// by the component; other elements by their table rule.
pub open spec fn tu_inc(
    ctu: CodingTreeUnit,
    u: int,
    bin_idx: usize,
    c_idx: usize,
    ctx: CabacContext,
    isp: IntraSubpartitionsSplitType,
) -> CtxInc {
    let tu = ctu.transform_units@[u];
    match ctx {
        CabacContext::TuYCodedFlag => CtxInc::Number(
            if tu.cu_bdpcm_flag[0] {
                1
            } else if isp == IntraSubpartitionsSplitType::ISP_NO_SPLIT {
                0
            } else {
                match prev_tu_of(ctu, tu.parent as int) {
                    Some(p) => if y_coded(ctu.transform_units@[p]) {
                        3
                    } else {
                        2
                    },
                    None => 2,
                }
            },
        ),
        CabacContext::TuCbCodedFlag => CtxInc::Number(if tu.cu_bdpcm_flag[1] { 1 } else { 0 }),
        CabacContext::TuCrCodedFlag => CtxInc::Number(
            if tu.cu_bdpcm_flag[2] {
                2
            } else if cb_coded(tu) {
                1
            } else {
                0
            },
        ),
        CabacContext::TransformSkipFlag => if bin_idx == 0 {
            CtxInc::Number(if c_idx != 0 { 1 } else { 0 })
        } else {
            spec_ctx_inc_row(CabacContext::TransformSkipFlag)[bin_idx as int]
        },
        CabacContext::TuJointCbcrResidualFlag => if bin_idx == 0 {
            CtxInc::Number(((if cb_coded(tu) { 2int } else { 0 }) + (if cr_coded(tu) { 1int } else { 0 }) - 1) as usize)
        } else {
            spec_ctx_inc_row(CabacContext::TransformSkipFlag)[bin_idx as int]
        },
        _ => bin_rule(ctx, bin_idx as int),
    }
}

/// The context increment of bin `bin_idx` of `ctx` of unit `u` of `ctu` can be
/// derived: the units it reads have their coefficient planes; the one-bin flags
/// have no second bin; the joint flag is coded with some chroma block coded.
pub open spec fn tu_inc_ok(ctu: CodingTreeUnit, u: int, bin_idx: usize, ctx: CabacContext) -> bool {
    let tu = ctu.transform_units@[u];
    match ctx {
        CabacContext::TuYCodedFlag => prev_tu_ok(ctu, tu.parent as int) && match prev_tu_of(ctu, tu.parent as int) {
            Some(p) => 0 <= p < ctu.transform_units@.len() && planes_ok(ctu.transform_units@[p]),
            None => true,
        },
        CabacContext::TuCbCodedFlag => bin_idx == 0,
        CabacContext::TuCrCodedFlag => bin_idx == 0 && planes_ok(tu),
        CabacContext::TransformSkipFlag => bin_idx < 6,
        CabacContext::TuJointCbcrResidualFlag => bin_idx < 6 && planes_ok(tu) && (bin_idx == 0 ==> cb_coded(tu)
            || cr_coded(tu)),
        _ => true,
    }
}

/// The bins of transform unit syntax element `ctx` with value `val`: the
/// `cu_qp_delta_abs` code, a truncated Rice code up to `chroma_qp_offset_list_len - 1`
/// for the chroma QP offset index, else its table binarization.
pub open spec fn tu_bin_bits(ctx: CabacContext, val: usize, chroma_qp_offset_list_len: usize) -> Seq<bool> {
    match ctx {
        CabacContext::CuQpDeltaAbs => cu_qp_delta_abs_bits(val as nat),
        CabacContext::CuChromaQpOffsetIdx => tr_bits(val as nat, (chroma_qp_offset_list_len - 1) as nat, 0),
        _ => bin_process_bits(spec_ctx_to_bin_process(ctx), val),
    }
}

/// `val` has a binarization as transform unit syntax element `ctx`.
pub open spec fn tu_bin_ok(ctx: CabacContext, val: usize, chroma_qp_offset_list_len: usize) -> bool {
    match ctx {
        CabacContext::CuQpDeltaAbs => true,
        CabacContext::CuChromaQpOffsetIdx => 1 <= chroma_qp_offset_list_len <= 64,
        _ => bin_process_ok(spec_ctx_to_bin_process(ctx), val) && bin_process_domain(spec_ctx_to_bin_process(ctx), val),
    }
}

impl BoolCoder {
    /// The context index and bypass flag of bin `bin_idx` of the transform unit
    /// syntax element `ctx` of unit `u` (component `c_idx`) of `ctu`.
    pub fn derive_context_and_bypass_flag_tu(
        &self,
        bin_idx: usize,
        c_idx: usize,
        ctx: CabacContext,
        ctu: &CodingTreeUnit,
        u: usize,
        slice_type: SliceType,
        cabac_init_flag: bool,
        intra_subpartitions_split_type: IntraSubpartitionsSplitType,
    ) -> (r: (usize, bool))
        requires
            ctu.wf(),
            u < ctu.transform_units@.len(),
            tu_inc_ok(*ctu, u as int, bin_idx, ctx),
            inc_ok(ctx, tu_inc(*ctu, u as int, bin_idx, c_idx, ctx, intra_subpartitions_split_type), init_type_of(slice_type, cabac_init_flag)),
        ensures
            ({
                let s = ctx_of_inc(
                    ctx,
                    tu_inc(*ctu, u as int, bin_idx, c_idx, ctx, intra_subpartitions_split_type),
                    init_type_of(slice_type, cabac_init_flag),
                );
                r.0 == s.0 && r.1 == s.1
            }),
    {
        let tu = &ctu.transform_units[u];
        let inc = match ctx {
            CabacContext::TuYCodedFlag => {
                let prev_tu_cbf_y: usize = match TransformUnit::prev_tu_in_cu(ctu, u) {
                    Some(p) => {
                        if ctu.transform_units[p].get_y_coded_flag() {
                            1
                        } else {
                            0
                        }
                    },
                    None => 0,
                };
                let bdpcm_flag = tu.cu_bdpcm_flag[0];
                self.derive_ctx_inc_for_tu_y_coded_flag(
                    TransformUnit::first_in_cu(ctu, u),
                    prev_tu_cbf_y,
                    bdpcm_flag,
                    intra_subpartitions_split_type,
                )
            },
            CabacContext::TuCbCodedFlag => self.derive_ctx_inc_for_tu_cb_coded_flag(bin_idx, tu.cu_bdpcm_flag[1]),
            CabacContext::TuCrCodedFlag => self.derive_ctx_inc_for_tu_cr_coded_flag(
                bin_idx,
                tu.get_cb_coded_flag(),
                tu.cu_bdpcm_flag[2],
            ),
            CabacContext::TransformSkipFlag => self.derive_ctx_inc_for_transform_skip_flag(bin_idx, c_idx),
            CabacContext::TuJointCbcrResidualFlag => self.derive_ctx_inc_for_tu_joint_cbcr_residual_flag(
                bin_idx,
                tu.get_cb_coded_flag(),
                tu.get_cr_coded_flag(),
            ),
            _ => {
                let i = if bin_idx < 5 {
                    bin_idx
                } else {
                    5
                };
                ctx_inc_row(ctx)[i]
            },
        };
        let init_type = Self::get_init_type(slice_type, cabac_init_flag);
        context_of_inc(ctx, inc, init_type)
    }

    /// Appends the binarization of transform unit syntax element `ctx` with value
    /// `val`.
    pub fn binarize_cabac_tu(&mut self, out_bins: &mut Bins, val: usize, ctx: CabacContext, chroma_qp_offset_list_len: usize)
        requires
            tu_bin_ok(ctx, val, chroma_qp_offset_list_len),
            old(out_bins).num_bins + 256 <= usize::MAX,
        ensures
            appended(*old(out_bins), *final(out_bins), tu_bin_bits(ctx, val, chroma_qp_offset_list_len)),
            *final(self) == *old(self),
    {
        match ctx {
            CabacContext::CuQpDeltaAbs => self.encode_cu_qp_delta_abs(out_bins, val),
            CabacContext::CuChromaQpOffsetIdx => {
                proof {
                    vstd::arithmetic::power2::lemma2_to64();
                }
                let c_max = chroma_qp_offset_list_len - 1;
                self.encode_trancated_rice(out_bins, val, c_max, 0)
            },
            _ => self.binarize_cabac_ct(out_bins, val, ctx),
        }
    }

    /// Codes transform unit syntax element `ctx` with value `val` for unit `u`
    /// (component `c_idx`) of `ctu`: its binarization, bin `k` with the context
    /// derived for it.
    pub fn encode_cabac_tu(
        &mut self,
        out_bins: &mut Bins,
        val: usize,
        c_idx: usize,
        ctx: CabacContext,
        ctu: &CodingTreeUnit,
        u: usize,
        slice_type: SliceType,
        cabac_init_flag: bool,
        intra_subpartitions_split_type: IntraSubpartitionsSplitType,
        chroma_qp_offset_list_len: usize,
    )
        requires
            ctu.wf(),
            u < ctu.transform_units@.len(),
            tu_bin_ok(ctx, val, chroma_qp_offset_list_len),
            tu_bin_bits(ctx, val, chroma_qp_offset_list_len).len() <= 64,
            forall|k: usize|
                k < tu_bin_bits(ctx, val, chroma_qp_offset_list_len).len() ==> #[trigger] tu_inc_ok(*ctu, u as int, k, ctx)
                    && inc_entry_ok(
                    ctx,
                    tu_inc(*ctu, u as int, k, c_idx, ctx, intra_subpartitions_split_type),
                    init_type_of(slice_type, cabac_init_flag),
                ),
            old(self).wf(),
            old(self).engine_ok(),
            old(out_bins).num_bins + old(self).cabac_bits_outstanding + 9 * 65 <= usize::MAX,
        ensures
            ({
                let bins = tu_bin_bits(ctx, val, chroma_qp_offset_list_len);
                let it = init_type_of(slice_type, cabac_init_flag);
                coded_in(
                    *old(self),
                    *old(out_bins),
                    *final(self),
                    *final(out_bins),
                    bins,
                    Seq::new(
                        bins.len(),
                        |k: int| ctx_of_inc(ctx, tu_inc(*ctu, u as int, k as usize, c_idx, ctx, intra_subpartitions_split_type), it),
                    ),
                    ctx,
                    it,
                )
            }),
            final(self).wf(),
            final(self).engine_ok(),
            final(self).cabac_table_state_sync == old(self).cabac_table_state_sync,
            final(out_bins).num_bins + final(self).cabac_bits_outstanding <= old(out_bins).num_bins
                + old(self).cabac_bits_outstanding + 9 * 64,
    {
        let init_type = Self::get_init_type(slice_type, cabac_init_flag);
        let mut bins = Bins::new();
        self.binarize_cabac_tu(&mut bins, val, ctx, chroma_qp_offset_list_len);
        let v = bins.collect();
        let ghost gs = Seq::new(
            v@.len(),
            |k: int| ctx_of_inc(ctx, tu_inc(*ctu, u as int, k as usize, c_idx, ctx, intra_subpartitions_split_type), init_type),
        );
        let mut sels: Vec<(usize, bool)> = Vec::new();
        let mut i: usize = 0;
        while i < v.len()
            invariant
                i <= v@.len(),
                v@.len() <= 64,
                ctu.wf(),
                u < ctu.transform_units@.len(),
                sels@.len() == i,
                init_type == init_type_of(slice_type, cabac_init_flag),
                v@ == tu_bin_bits(ctx, val, chroma_qp_offset_list_len),
                gs == Seq::new(
                    v@.len(),
                    |k: int| ctx_of_inc(ctx, tu_inc(*ctu, u as int, k as usize, c_idx, ctx, intra_subpartitions_split_type), init_type),
                ),
                forall|k: usize|
                    k < v@.len() ==> #[trigger] tu_inc_ok(*ctu, u as int, k, ctx) && inc_entry_ok(
                        ctx,
                        tu_inc(*ctu, u as int, k, c_idx, ctx, intra_subpartitions_split_type),
                        init_type,
                    ),
                forall|k: int| 0 <= k < i ==> #[trigger] sels@[k].0 == gs[k].0 && sels@[k].1 == gs[k].1,
            decreases v@.len() - i,
        {
            proof {
                assert(tu_inc_ok(*ctu, u as int, i, ctx));
            }
            let sel = self.derive_context_and_bypass_flag_tu(
                i,
                c_idx,
                ctx,
                ctu,
                u,
                slice_type,
                cabac_init_flag,
                intra_subpartitions_split_type,
            );
            proof {
                assert(gs[i as int] == ctx_of_inc(ctx, tu_inc(*ctu, u as int, i, c_idx, ctx, intra_subpartitions_split_type), init_type));
            }
            sels.push(sel);
            i += 1;
        }
        proof {
            assert forall|k: int| 0 <= k < v.len() && !gs[k].1 implies ctx_entry_ok(ctx, init_type, #[trigger] sels@[k].0) by {
                assert(tu_inc_ok(*ctu, u as int, k as usize, ctx));
            }
        }
        self.encode_bins_in(out_bins, &v, &sels, ctx, init_type, Ghost(gs));
    }
}

/// The largest `sao_offset_abs` at bit depth `bit_depth`: `2^(min(bit_depth, 10) - 5) - 1`.
pub open spec fn sao_offset_abs_max(bit_depth: usize) -> nat {
    (pow2(((if bit_depth < 10 { bit_depth } else { 10usize }) - 5) as nat) - 1) as nat
}

/// The bins of coding tree unit syntax element `ctx` with value `val`: the filter
/// indices of adaptive loop filtering bounded by `alf` and the number of luma
/// filter sets `num_alf_aps_ids_luma`, the SAO offset bounded by the bit depth, and
/// else the table binarization.
pub open spec fn ctu_bin_bits(ctx: CabacContext, val: usize, alf: AlfData, num_alf_aps_ids_luma: usize, bit_depth: usize) -> Seq<bool> {
    match ctx {
        CabacContext::AlfCtbCcCbIdc => tr_bits(val as nat, alf.cc_cb_filters_signalled as nat, 0),
        CabacContext::AlfCtbCcCrIdc => tr_bits(val as nat, alf.cc_cr_filters_signalled as nat, 0),
        CabacContext::AlfLumaPrevFilterIdx => tb_bits(val as nat, (num_alf_aps_ids_luma - 1) as nat),
        CabacContext::AlfCtbFilterAltIdx => tr_bits(val as nat, (alf.chroma_num_alt_filters - 1) as nat, 0),
        CabacContext::SaoOffsetAbs => tr_bits(val as nat, sao_offset_abs_max(bit_depth), 0),
        _ => bin_process_bits(spec_ctx_to_bin_process(ctx), val),
    }
}

/// `val` has a binarization as coding tree unit syntax element `ctx`.
pub open spec fn ctu_bin_ok(ctx: CabacContext, val: usize, alf: AlfData, num_alf_aps_ids_luma: usize, bit_depth: usize) -> bool {
    match ctx {
        CabacContext::AlfCtbCcCbIdc => alf.cc_cb_filters_signalled < 64,
        CabacContext::AlfCtbCcCrIdc => alf.cc_cr_filters_signalled < 64,
        CabacContext::AlfLumaPrevFilterIdx => {
            let c_max = num_alf_aps_ids_luma - 1;
            &&& 1 <= num_alf_aps_ids_luma
            &&& bit_length(num_alf_aps_ids_luma as nat) < usize::BITS
            &&& c_max > 0 || val > 0
            &&& val <= c_max
            &&& val + pow2(bit_length(num_alf_aps_ids_luma as nat)) <= usize::MAX
        },
        CabacContext::AlfCtbFilterAltIdx => 1 <= alf.chroma_num_alt_filters <= 64,
        CabacContext::SaoOffsetAbs => 5 <= bit_depth,
        _ => bin_process_ok(spec_ctx_to_bin_process(ctx), val) && bin_process_domain(spec_ctx_to_bin_process(ctx), val),
    }
}

impl BoolCoder {
    /// Appends the binarization of coding tree unit syntax element `ctx` with value
    /// `val`.
    pub fn binarize_cabac_ctu(
        &mut self,
        out_bins: &mut Bins,
        val: usize,
        ctx: CabacContext,
        alf: &AlfData,
        num_alf_aps_ids_luma: usize,
        bit_depth: usize,
    )
        requires
            ctu_bin_ok(ctx, val, *alf, num_alf_aps_ids_luma, bit_depth),
            old(out_bins).num_bins + 256 <= usize::MAX,
        ensures
            appended(*old(out_bins), *final(out_bins), ctu_bin_bits(ctx, val, *alf, num_alf_aps_ids_luma, bit_depth)),
            *final(self) == *old(self),
    {
        proof {
            vstd::arithmetic::power2::lemma2_to64();
        }
        match ctx {
            CabacContext::AlfCtbCcCbIdc => {
                let c_max = alf.cc_cb_filters_signalled;
                self.encode_trancated_rice(out_bins, val, c_max, 0)
            },
            CabacContext::AlfCtbCcCrIdc => {
                let c_max = alf.cc_cr_filters_signalled;
                self.encode_trancated_rice(out_bins, val, c_max, 0)
            },
            CabacContext::AlfLumaPrevFilterIdx => {
                let c_max = num_alf_aps_ids_luma - 1;
                self.encode_trancated_binary(out_bins, val, c_max)
            },
            CabacContext::AlfCtbFilterAltIdx => {
                let c_max = alf.chroma_num_alt_filters - 1;
                self.encode_trancated_rice(out_bins, val, c_max, 0)
            },
            CabacContext::SaoOffsetAbs => {
                let d = if bit_depth < 10 {
                    bit_depth
                } else {
                    10
                };
                let e = d - 5;
                proof {
                    crate::bits::lemma_usize_shl_one(e);
                    crate::bits::lemma_pow2_le(e as nat, 5);
                }
                let c_max = (1usize << e) - 1;
                self.encode_trancated_rice(out_bins, val, c_max, 0)
            },
            _ => self.binarize_cabac_ct(out_bins, val, ctx),
        }
    }

    /// Codes coding tree unit syntax element `ctx` with value `val`: its
    /// binarization, each bin with the context of its position in the table.
    pub fn encode_cabac_ctu(
        &mut self,
        out_bins: &mut Bins,
        val: usize,
        ctx: CabacContext,
        slice_type: SliceType,
        cabac_init_flag: bool,
        alf: &AlfData,
        num_alf_aps_ids_luma: usize,
        bit_depth: usize,
    )
        requires
            ctu_bin_ok(ctx, val, *alf, num_alf_aps_ids_luma, bit_depth),
            ctu_bin_bits(ctx, val, *alf, num_alf_aps_ids_luma, bit_depth).len() <= 64,
            forall|k: int|
                0 <= k < ctu_bin_bits(ctx, val, *alf, num_alf_aps_ids_luma, bit_depth).len() ==> #[trigger] inc_entry_ok(
                    ctx,
                    bin_rule(ctx, k),
                    init_type_of(slice_type, cabac_init_flag),
                ),
            old(self).wf(),
            old(self).engine_ok(),
            old(out_bins).num_bins + old(self).cabac_bits_outstanding + 9 * 65 <= usize::MAX,
        ensures
            ({
                let bins = ctu_bin_bits(ctx, val, *alf, num_alf_aps_ids_luma, bit_depth);
                let it = init_type_of(slice_type, cabac_init_flag);
                coded_in(
                    *old(self),
                    *old(out_bins),
                    *final(self),
                    *final(out_bins),
                    bins,
                    Seq::new(bins.len(), |k: int| ctx_of_inc(ctx, bin_rule(ctx, k), it)),
                    ctx,
                    it,
                )
            }),
            final(self).wf(),
            final(self).engine_ok(),
            final(self).cabac_table_state_sync == old(self).cabac_table_state_sync,
            final(out_bins).num_bins + final(self).cabac_bits_outstanding <= old(out_bins).num_bins
                + old(self).cabac_bits_outstanding + 9 * 64,
    {
        let init_type = Self::get_init_type(slice_type, cabac_init_flag);
        let mut bins = Bins::new();
        self.binarize_cabac_ctu(&mut bins, val, ctx, alf, num_alf_aps_ids_luma, bit_depth);
        let v = bins.collect();
        let ghost gs = Seq::new(v@.len(), |k: int| ctx_of_inc(ctx, bin_rule(ctx, k), init_type));
        let mut sels: Vec<(usize, bool)> = Vec::new();
        let mut i: usize = 0;
        while i < v.len()
            invariant
                i <= v@.len(),
                v@.len() <= 64,
                sels@.len() == i,
                init_type == init_type_of(slice_type, cabac_init_flag),
                gs == Seq::new(v@.len(), |k: int| ctx_of_inc(ctx, bin_rule(ctx, k), init_type)),
                forall|k: int| 0 <= k < v@.len() ==> #[trigger] inc_entry_ok(ctx, bin_rule(ctx, k), init_type),
                forall|k: int| 0 <= k < i ==> #[trigger] sels@[k].0 == gs[k].0 && sels@[k].1 == gs[k].1,
            decreases v@.len() - i,
        {
            proof {
                assert(inc_entry_ok(ctx, bin_rule(ctx, i as int), init_type));
            }
            let sel = self.derive_context_and_bypass_flag_ctu(i, ctx, slice_type, cabac_init_flag);
            sels.push(sel);
            i += 1;
        }
        proof {
            assert forall|k: int| 0 <= k < v.len() && !gs[k].1 implies ctx_entry_ok(ctx, init_type, #[trigger] sels@[k].0) by {
                assert(inc_entry_ok(ctx, bin_rule(ctx, k), init_type));
            }
        }
        self.encode_bins_in(out_bins, &v, &sels, ctx, init_type, Ghost(gs));
    }
}

/// The log2 sub-block size the coded sub-block context assumes for a `2^lw` by
/// `2^lh` block of component `c_idx`: 4 by 4 (2 by 2 for a side below 4), with a
/// luma side below 4 kept and the other side making up 16 samples.
pub open spec fn sb_ctx_log2(lw: usize, lh: usize, c_idx: usize) -> (usize, usize) {
    let base: usize = if min_usize(lw, lh) < 2 { 1 } else { 2 };
    if lw < 2 && c_idx == 0 {
        (lw, (4 - lw) as usize)
    } else if lh < 2 && c_idx == 0 {
        ((4 - lh) as usize, lh)
    } else {
        (base, base)
    }
}

/// 1 when sub-block (xs, ys) of component `c_idx` of `tu` holds a nonzero
/// coefficient.
pub open spec fn sb_bit(tu: TransformUnit, c_idx: usize, xs: int, ys: int) -> int {
    let (lw, lh) = sb_size(tu.spec_log2_tb_size(c_idx).0, tu.spec_log2_tb_size(c_idx).1);
    if any_nonzero(
        tu.quantized_transformed_coeffs@[c_idx as int],
        ys * pow2(lh as nat),
        (ys + 1) * pow2(lh as nat),
        xs * pow2(lw as nat),
        (xs + 1) * pow2(lw as nat),
    ) {
        1
    } else {
        0
    }
}

/// Sub-block (xs, ys) of component `c_idx` of `tu` can be read.
pub open spec fn sb_read_ok(tu: TransformUnit, c_idx: usize, xs: int, ys: int) -> bool {
    let (lw, lh) = sb_size(tu.spec_log2_tb_size(c_idx).0, tu.spec_log2_tb_size(c_idx).1);
    &&& c_idx < tu.quantized_transformed_coeffs@.len()
    &&& tu.quantized_transformed_coeffs@[c_idx as int].wf()
    &&& tu.spec_log2_tb_size(c_idx).0 + tu.spec_log2_tb_size(c_idx).1 <= usize::MAX
    &&& 0 <= xs && 0 <= ys
    &&& (ys + 1) * pow2(lh as nat) <= tu.quantized_transformed_coeffs@[c_idx as int].height
    &&& (xs + 1) * pow2(lw as nat) <= usize::MAX
}

/// Under transform skip residual coding (`ts`), the coded left and above
/// sub-blocks of (xs, ys); else the coded right and lower ones inside a `2^lw` by
/// `2^lh` block.
pub open spec fn csbf(tu: TransformUnit, c_idx: usize, xs: usize, ys: usize, lw: usize, lh: usize, ts: bool) -> int {
    let (sw, sh) = sb_ctx_log2(lw, lh, c_idx);
    if ts {
        (if xs > 0 { sb_bit(tu, c_idx, xs - 1, ys as int) } else { 0 }) + (if ys > 0 {
            sb_bit(tu, c_idx, xs as int, ys - 1)
        } else {
            0
        })
    } else {
        (if xs < pow2((lw - sw) as nat) - 1 { sb_bit(tu, c_idx, xs + 1, ys as int) } else { 0 }) + (if ys < pow2(
            (lh - sh) as nat,
        ) - 1 {
            sb_bit(tu, c_idx, xs as int, ys + 1)
        } else {
            0
        })
    }
}

/// The sub-blocks the coded sub-block context of (xs, ys) reads can be read.
pub open spec fn csbf_ok(tu: TransformUnit, c_idx: usize, xs: usize, ys: usize, lw: usize, lh: usize, ts: bool) -> bool {
    let (sw, sh) = sb_ctx_log2(lw, lh, c_idx);
    if ts {
        &&& xs > 0 ==> sb_read_ok(tu, c_idx, xs - 1, ys as int)
        &&& ys > 0 ==> sb_read_ok(tu, c_idx, xs as int, ys - 1)
    } else {
        &&& sw <= lw && sh <= lh
        &&& lw - sw < usize::BITS && lh - sh < usize::BITS
        &&& xs < pow2((lw - sw) as nat) - 1 ==> sb_read_ok(tu, c_idx, xs + 1, ys as int)
        &&& ys < pow2((lh - sh) as nat) - 1 ==> sb_read_ok(tu, c_idx, xs as int, ys + 1)
    }
}

/// The context increment of `sb_coded_flag` of sub-block (xs, ys) of component
/// `c_idx` of `tu`, a `2^lw` by `2^lh` block: 4 plus the coded left and above
/// sub-blocks under transform skip residual coding; else whether a right or lower
/// one is coded, plus 2 for chroma.
pub open spec fn sb_coded_inc(
    tu: TransformUnit,
    c_idx: usize,
    xs: usize,
    ys: usize,
    lw: usize,
    lh: usize,
    ts_residual_coding_disabled_flag: bool,
) -> usize {
    let ts = tu.transform_skip_flag[c_idx as int] && !ts_residual_coding_disabled_flag;
    let c = csbf(tu, c_idx, xs, ys, lw, lh, ts);
    if ts {
        (4 + c) as usize
    } else if c_idx == 0 {
        if c < 1 { c as usize } else { 1 }
    } else {
        (2 + (if c < 1 { c } else { 1 })) as usize
    }
}

impl BoolCoder {
    /// The context increment of `sb_coded_flag` of sub-block (x_s, y_s) of component
    /// `c_idx` of `tu`, a `2^log2_tb_width` by `2^log2_tb_height` block.
    pub fn derive_ctx_inc_for_sb_coded_flag(
        &self,
        x_s: usize,
        y_s: usize,
        log2_tb_width: usize,
        log2_tb_height: usize,
        c_idx: usize,
        tu: &TransformUnit,
        ts_residual_coding_disabled_flag: bool,
    ) -> (r: CtxInc)
        requires
            c_idx < 3,
            csbf_ok(*tu, c_idx, x_s, y_s, log2_tb_width, log2_tb_height, tu.transform_skip_flag[c_idx as int]
                && !ts_residual_coding_disabled_flag),
        ensures
            r == CtxInc::Number(
                sb_coded_inc(*tu, c_idx, x_s, y_s, log2_tb_width, log2_tb_height, ts_residual_coding_disabled_flag),
            ),
    {
        let transform_skip_flag = tu.transform_skip_flag[c_idx];
        let ts = transform_skip_flag && !ts_residual_coding_disabled_flag;
        let mut log2_sb_width: usize = if log2_tb_width.min(log2_tb_height) < 2 {
            1
        } else {
            2
        };
        let mut log2_sb_height = log2_sb_width;
        if log2_tb_width < 2 && c_idx == 0 {
            log2_sb_width = log2_tb_width;
            log2_sb_height = 4 - log2_sb_width;
        } else if log2_tb_height < 2 && c_idx == 0 {
            log2_sb_height = log2_tb_height;
            log2_sb_width = 4 - log2_sb_height;
        }
        let mut csbf_ctx: usize = 0;
        if ts {
            if x_s > 0 {
                csbf_ctx += if tu.get_sb_coded_flag(c_idx, x_s - 1, y_s) {
                    1
                } else {
                    0
                };
            }
            if y_s > 0 {
                csbf_ctx += if tu.get_sb_coded_flag(c_idx, x_s, y_s - 1) {
                    1
                } else {
                    0
                };
            }
        } else {
            let ew = log2_tb_width - log2_sb_width;
            let eh = log2_tb_height - log2_sb_height;
            proof {
                crate::bits::lemma_usize_shl_one(ew);
                crate::bits::lemma_usize_shl_one(eh);
            }
            if x_s < (1usize << ew) - 1 {
                csbf_ctx += if tu.get_sb_coded_flag(c_idx, x_s + 1, y_s) {
                    1
                } else {
                    0
                };
            }
            if y_s < (1usize << eh) - 1 {
                csbf_ctx += if tu.get_sb_coded_flag(c_idx, x_s, y_s + 1) {
                    1
                } else {
                    0
                };
            }
        }
        if ts {
            CtxInc::Number(4 + csbf_ctx)
        } else if c_idx == 0 {
            CtxInc::Number(csbf_ctx.min(1))
        } else {
            CtxInc::Number(2 + csbf_ctx.min(1))
        }
    }

    /// The context index of `sb_coded_flag` of sub-block (x_s, y_s) of component
    /// `c_idx` of `tu`: its context increment itself, with no offset for the
    /// initialization type.
    pub fn derive_context_and_bypass_flag_for_sb_coded_flag(
        &self,
        tu: &TransformUnit,
        c_idx: usize,
        x_s: usize,
        y_s: usize,
        ts_residual_coding_disabled_flag: bool,
    ) -> (r: (usize, bool))
        requires
            c_idx < 3,
            csbf_ok(
                *tu,
                c_idx,
                x_s,
                y_s,
                tu.spec_log2_tb_size(c_idx).0,
                tu.spec_log2_tb_size(c_idx).1,
                tu.transform_skip_flag[c_idx as int] && !ts_residual_coding_disabled_flag,
            ),
        ensures
            r == (
                sb_coded_inc(
                    *tu,
                    c_idx,
                    x_s,
                    y_s,
                    tu.spec_log2_tb_size(c_idx).0,
                    tu.spec_log2_tb_size(c_idx).1,
                    ts_residual_coding_disabled_flag,
                ),
                false,
            ),
    {
        let (log2_tb_width, log2_tb_height) = tu.get_log2_tb_size(c_idx);
        let inc = self.derive_ctx_inc_for_sb_coded_flag(
            x_s,
            y_s,
            log2_tb_width,
            log2_tb_height,
            c_idx,
            tu,
            ts_residual_coding_disabled_flag,
        );
        match inc {
            CtxInc::Number(ctx_inc) => (ctx_inc, false),
            CtxInc::Bypass => (0, true),
            _ => (0, false),
        }
    }

    /// Codes `sb_coded_flag` of sub-block (x_s, y_s) of component `c_idx` of `tu`
    /// with its derived context.
    pub fn encode_cabac_for_sb_coded_flag(
        &mut self,
        out_bins: &mut Bins,
        sb_coded_flag: bool,
        tu: &TransformUnit,
        c_idx: usize,
        x_s: usize,
        y_s: usize,
        slice_type: SliceType,
        cabac_init_flag: bool,
        ts_residual_coding_disabled_flag: bool,
    )
        requires
            c_idx < 3,
            csbf_ok(
                *tu,
                c_idx,
                x_s,
                y_s,
                tu.spec_log2_tb_size(c_idx).0,
                tu.spec_log2_tb_size(c_idx).1,
                tu.transform_skip_flag[c_idx as int] && !ts_residual_coding_disabled_flag,
            ),
            ctx_entry_ok(
                CabacContext::SbCodedFlag,
                init_type_of(slice_type, cabac_init_flag),
                sb_coded_inc(
                    *tu,
                    c_idx,
                    x_s,
                    y_s,
                    tu.spec_log2_tb_size(c_idx).0,
                    tu.spec_log2_tb_size(c_idx).1,
                    ts_residual_coding_disabled_flag,
                ),
            ),
            old(self).wf(),
            old(self).engine_ok(),
            old(self).room(*old(out_bins), 9),
        ensures
            sel_coded(
                *old(self),
                *old(out_bins),
                *final(self),
                *final(out_bins),
                sb_coded_flag,
                CabacContext::SbCodedFlag,
                init_type_of(slice_type, cabac_init_flag),
                (
                    sb_coded_inc(
                        *tu,
                        c_idx,
                        x_s,
                        y_s,
                        tu.spec_log2_tb_size(c_idx).0,
                        tu.spec_log2_tb_size(c_idx).1,
                        ts_residual_coding_disabled_flag,
                    ) as int,
                    false,
                ),
            ),
            final(self).wf(),
            final(self).engine_ok(),
            final(self).cabac_table_state_sync == old(self).cabac_table_state_sync,
    {
        let init_type = Self::get_init_type(slice_type, cabac_init_flag);
        let (ctx_idx, bypass_flag) = self.derive_context_and_bypass_flag_for_sb_coded_flag(
            tu,
            c_idx,
            x_s,
            y_s,
            ts_residual_coding_disabled_flag,
        );
        self.encode_arithmetic(out_bins, sb_coded_flag, CabacContext::SbCodedFlag, ctx_idx, bypass_flag, init_type);
    }
}

/// Along bypass-coded steps the context states stay those of the first state.
proof fn lemma_bypass_steps_keep_states(
    cs: Seq<BoolCoder>,
    os: Seq<Bins>,
    bins: Seq<bool>,
    sels: Seq<(int, bool)>,
    ctx: CabacContext,
    init_type: usize,
    k: int,
)
    requires
        steps_in(cs, os, bins, sels, ctx, init_type),
        forall|j: int| 0 <= j < bins.len() ==> #[trigger] sels[j].1,
        0 <= k <= bins.len(),
    ensures
        cs[k].cabac_p_state_idx == cs[0].cabac_p_state_idx,
    decreases k,
{
    if k > 0 {
        let j = k - 1;
        lemma_bypass_steps_keep_states(cs, os, bins, sels, ctx, init_type, j);
        assert(sel_coded(cs[j], os[j], cs[j + 1], os[j + 1], bins[j], ctx, init_type, sels[j]));
        assert(sels[j].1);
    }
}

/// Bins coded in bypass mode leave every context variable as it was: coding a
/// syntax element whose bins are all bypass coded changes no context state.
pub proof fn law_bypass_bins_keep_context_states(
    c0: BoolCoder,
    o0: Bins,
    c1: BoolCoder,
    o1: Bins,
    bins: Seq<bool>,
    sels: Seq<(int, bool)>,
    ctx: CabacContext,
    init_type: usize,
)
    requires
        coded_in(c0, o0, c1, o1, bins, sels, ctx, init_type),
        forall|k: int| 0 <= k < bins.len() ==> #[trigger] sels[k].1,
    ensures
        c1.cabac_p_state_idx == c0.cabac_p_state_idx,
{
    let (cs, os) = choose|cs: Seq<BoolCoder>, os: Seq<Bins>|
        #[trigger] steps_in(cs, os, bins, sels, ctx, init_type) && cs[0] == c0 && os[0] == o0 && cs.last() == c1
            && os.last() == o1;
    lemma_bypass_steps_keep_states(cs, os, bins, sels, ctx, init_type, bins.len() as int);
}

} // verus!
