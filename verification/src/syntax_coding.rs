//! Coding a syntax element with CABAC: its binarization, then each bin with the
//! context its position selects, or in bypass mode.
use crate::bins::Bins;
use crate::bool_coder::{bin_process_bits, bin_process_domain, bin_process_ok, ctx_entry_ok, init_type_of, BoolCoder};
use crate::cabac_contexts::{ctx_inc_row, ctx_table_len, spec_ctx_inc_row, spec_ctx_init_values, spec_ctx_to_bin_process, CabacContext, CtxInc};
use crate::common::SliceType;
use vstd::prelude::*;

verus! {

/// The rule for bin `bin_idx` of `ctx`: the table gives the first five bins one
/// each, and every later bin the rule of the sixth.
pub open spec fn bin_rule(ctx: CabacContext, bin_idx: int) -> CtxInc {
    spec_ctx_inc_row(ctx)[if bin_idx < 5 { bin_idx } else { 5 }]
}

/// The context index and bypass flag of bin `bin_idx` of `ctx` under initialization
/// type `init_type`: a context increment counts from the start of the type's
/// contexts, each type holding as many as the first.
pub open spec fn ctx_of_bin(ctx: CabacContext, bin_idx: int, init_type: usize) -> (int, bool) {
    match bin_rule(ctx, bin_idx) {
        CtxInc::Number(n) => (spec_ctx_init_values(ctx.spec_index(), 0).len() * init_type + n, false),
        _ => (0, true),
    }
}

/// Bin `bin_idx` of `ctx` is context coded with a context that exists for
/// `init_type`, or bypass coded.
pub open spec fn bin_ctx_ok(ctx: CabacContext, bin_idx: int, init_type: usize) -> bool {
    match bin_rule(ctx, bin_idx) {
        CtxInc::Number(n) => ctx_entry_ok(ctx, init_type, ctx_of_bin(ctx, bin_idx, init_type).0 as usize)
            && ctx_of_bin(ctx, bin_idx, init_type).0 <= usize::MAX,
        CtxInc::Bypass => true,
        _ => false,
    }
}

/// Coder `c1` with output `o1` follows `cm` with output `om` by coding `bin` as bin
/// `bin_idx` of `ctx`.
pub open spec fn bin_coded(
    cm: BoolCoder,
    om: Bins,
    c1: BoolCoder,
    o1: Bins,
    bin: bool,
    ctx: CabacContext,
    init_type: usize,
    bin_idx: int,
) -> bool {
    let (idx, bypass) = ctx_of_bin(ctx, bin_idx, init_type);
    if bypass {
        cm.bypass_coded(c1, om, o1, bin)
    } else {
        cm.decision_coded(c1, om, o1, bin, ctx.spec_index() as int, init_type as int, idx)
    }
}

/// The coder states `cs` with outputs `os` step through `bins` as the bins of
/// `ctx`: state `k + 1` follows state `k` by coding bin `k`.
pub open spec fn coding_steps(
    cs: Seq<BoolCoder>,
    os: Seq<Bins>,
    bins: Seq<bool>,
    ctx: CabacContext,
    init_type: usize,
) -> bool {
    &&& cs.len() == bins.len() + 1
    &&& os.len() == bins.len() + 1
    &&& forall|k: int|
        0 <= k < bins.len() ==> #[trigger] bin_coded(cs[k], os[k], cs[k + 1], os[k + 1], bins[k], ctx, init_type, k)
}

/// Coder `c1` with output `o1` follows `c0` with output `o0` by coding `bins`, in
/// order, as the bins of `ctx`.
pub open spec fn bins_coded(
    c0: BoolCoder,
    o0: Bins,
    c1: BoolCoder,
    o1: Bins,
    bins: Seq<bool>,
    ctx: CabacContext,
    init_type: usize,
) -> bool {
    exists|cs: Seq<BoolCoder>, os: Seq<Bins>|
        #[trigger] coding_steps(cs, os, bins, ctx, init_type) && cs[0] == c0 && os[0] == o0 && cs.last() == c1
            && os.last() == o1
}

impl BoolCoder {
    /// The context index and bypass flag of bin `bin_idx` of `ctx` in a slice of type
    /// `slice_type`.
    pub fn derive_context_and_bypass_flag(
        &self,
        bin_idx: usize,
        ctx: CabacContext,
        slice_type: SliceType,
        cabac_init_flag: bool,
    ) -> (r: (usize, bool))
        requires
            bin_rule(ctx, bin_idx as int) is Bypass || (bin_rule(ctx, bin_idx as int) is Number && ctx_of_bin(
                ctx,
                bin_idx as int,
                init_type_of(slice_type, cabac_init_flag),
            ).0 <= usize::MAX),
        ensures
            r.0 == ctx_of_bin(ctx, bin_idx as int, init_type_of(slice_type, cabac_init_flag)).0,
            r.1 == ctx_of_bin(ctx, bin_idx as int, init_type_of(slice_type, cabac_init_flag)).1,
    {
        let i = if bin_idx < 5 {
            bin_idx
        } else {
            5
        };
        match ctx_inc_row(ctx)[i] {
            CtxInc::Number(ctx_inc) => {
                let init_type = Self::get_init_type(slice_type, cabac_init_flag);
                let len = ctx_table_len(ctx.index());
                proof {
                    assert(len * init_type <= len * init_type + ctx_inc);
                }
                (len * init_type + ctx_inc, false)
            },
            _ => (0, true),
        }
    }

    /// Codes `val` as the syntax element `ctx` in a slice of type `slice_type`: its
    /// binarization, each bin with the context its position selects or in bypass
    /// mode.
    pub fn _encode_cabac(
        &mut self,
        out_bins: &mut Bins,
        val: usize,
        ctx: CabacContext,
        slice_type: SliceType,
        cabac_init_flag: bool,
    )
        requires
            bin_process_ok(spec_ctx_to_bin_process(ctx), val),
            bin_process_domain(spec_ctx_to_bin_process(ctx), val),
            bin_process_bits(spec_ctx_to_bin_process(ctx), val).len() <= 64,
            forall|i: int|
                0 <= i < bin_process_bits(spec_ctx_to_bin_process(ctx), val).len() ==> #[trigger] bin_ctx_ok(
                    ctx,
                    i,
                    init_type_of(slice_type, cabac_init_flag),
                ),
            old(self).wf(),
            old(self).engine_ok(),
            old(out_bins).num_bins + old(self).cabac_bits_outstanding + 9 * 65 <= usize::MAX,
        ensures
            bins_coded(
                *old(self),
                *old(out_bins),
                *final(self),
                *final(out_bins),
                bin_process_bits(spec_ctx_to_bin_process(ctx), val),
                ctx,
                init_type_of(slice_type, cabac_init_flag),
            ),
            final(self).wf(),
            final(self).engine_ok(),
            final(self).cabac_table_state_sync == old(self).cabac_table_state_sync,
    {
        let ghost c0 = *self;
        let ghost o0 = *out_bins;
        let ghost code = bin_process_bits(spec_ctx_to_bin_process(ctx), val);
        let ghost mut cs: Seq<BoolCoder> = seq![c0];
        let ghost mut os: Seq<Bins> = seq![o0];
        let init_type = Self::get_init_type(slice_type, cabac_init_flag);
        let mut bins = Bins::new();
        self._binarize_cabac(&mut bins, val, ctx);
        let v = bins.collect();
        proof {
            assert(v@.take(0) =~= Seq::<bool>::empty());
        }
        let mut i: usize = 0;
        while i < v.len()
            invariant
                v@ == code,
                code.len() <= 64,
                i <= v@.len(),
                init_type == init_type_of(slice_type, cabac_init_flag),
                forall|k: int| 0 <= k < code.len() ==> #[trigger] bin_ctx_ok(ctx, k, init_type),
                coding_steps(cs, os, v@.take(i as int), ctx, init_type),
                cs[0] == c0 && os[0] == o0 && cs.last() == *self && os.last() == *out_bins,
                self.wf(),
                self.engine_ok(),
                self.cabac_table_state_sync == c0.cabac_table_state_sync,
                out_bins.num_bins + self.cabac_bits_outstanding + 9 * (65 - i) <= usize::MAX,
            decreases v@.len() - i,
        {
            let bin = v[i];
            proof {
                assert(bin_ctx_ok(ctx, i as int, init_type));
            }
            let (ctx_idx, bypass_flag) = self.derive_context_and_bypass_flag(i, ctx, slice_type, cabac_init_flag);
            let ghost cm = *self;
            let ghost om = *out_bins;
            self.encode_arithmetic(out_bins, bin, ctx, ctx_idx, bypass_flag, init_type);
            proof {
                let t = v@.take(i + 1);
                assert(bin_coded(cm, om, *self, *out_bins, bin, ctx, init_type, i as int));
                let cs2 = cs.push(*self);
                let os2 = os.push(*out_bins);
                assert forall|k: int| 0 <= k < t.len() implies #[trigger] bin_coded(cs2[k], os2[k], cs2[k + 1], os2[k + 1], t[k], ctx, init_type, k) by {
                    if k < i {
                        assert(t[k] == v@.take(i as int)[k]);
                        assert(bin_coded(cs[k], os[k], cs[k + 1], os[k + 1], v@.take(i as int)[k], ctx, init_type, k));
                    } else {
                        assert(k == i);
                        assert(t[k] == bin);
                    }
                }
                cs = cs2;
                os = os2;
            }
            i += 1;
        }
        proof {
            assert(v@.take(v@.len() as int) =~= code);
            assert(coding_steps(cs, os, code, ctx, init_type));
        }
    }
}

} // verus!
