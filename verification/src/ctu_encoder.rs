//! Coding of the syntax of a coding tree unit: its sample adaptive offset
//! parameters and the motion vector differences of a coding unit, element by
//! element with their contexts.
use crate::aps::AlfData;
use crate::bins::Bins;
use crate::bool_coder::{init_type_of, BoolCoder};
use crate::cabac_contexts::CabacContext;
use crate::common::SliceType;
use crate::ctu::{CodingTree, CodingUnit, MvdCoding, SAO};
use crate::element_coding::{coded_in, ctu_bin_bits, ctu_bin_ok, ctx_of_inc, inc_entry_ok};
use crate::syntax_coding::bin_rule;
use crate::encoder_context::EncoderContext;
use crate::neighbour_ctx::PictureGeometry;
use crate::tree_coding::{cu_bin_bits, cu_bin_ok, cu_inc, cu_inc_ok, opt};
use vstd::prelude::*;

verus! {

/// The neighbourhood a coding unit's elements are coded in: its coding tree node,
/// the unit, its left and above neighbours, the slice type and initialization flag,
/// the picture geometry and the length of the chroma QP offset list.
pub struct CuScope {
    pub ct: CodingTree,
    pub cu: CodingUnit,
    pub left_cu: Option<CodingUnit>,
    pub above_cu: Option<CodingUnit>,
    pub slice_type: SliceType,
    pub cabac_init_flag: bool,
    pub geometry: PictureGeometry,
    pub chroma_qp_offset_list_len: usize,
}

/// Element `ctx` with value `val` of the unit can be coded in scope `s`: it
/// binarizes into at most 64 bins, each with a context in the table.
pub open spec fn cu_element_ok(e: EncoderContext, s: CuScope, ctx: CabacContext, val: usize) -> bool {
    let bins = cu_bin_bits(e, s.cu, ctx, val, s.chroma_qp_offset_list_len);
    &&& cu_bin_ok(e, s.cu, ctx, val, s.chroma_qp_offset_list_len)
    &&& bins.len() <= 64
    &&& forall|k: usize|
        k < bins.len() ==> #[trigger] cu_inc_ok(e, s.cu, k, ctx, s.left_cu, s.above_cu, s.geometry) && inc_entry_ok(
            ctx,
            cu_inc(e, s.ct, s.cu, k, ctx, s.left_cu, s.above_cu, s.geometry),
            init_type_of(s.slice_type, s.cabac_init_flag),
        )
}

/// Coder `c1` with output `o1` follows `c0` with output `o0` by coding element `ctx`
/// with value `val` in scope `s`: its bins, bin `k` with the context derived for it.
pub open spec fn cu_element_coded(
    c0: BoolCoder,
    o0: Bins,
    c1: BoolCoder,
    o1: Bins,
    e: EncoderContext,
    s: CuScope,
    ctx: CabacContext,
    val: usize,
) -> bool {
    let bins = cu_bin_bits(e, s.cu, ctx, val, s.chroma_qp_offset_list_len);
    let it = init_type_of(s.slice_type, s.cabac_init_flag);
    coded_in(
        c0,
        o0,
        c1,
        o1,
        bins,
        Seq::new(bins.len(), |k: int| ctx_of_inc(ctx, cu_inc(e, s.ct, s.cu, k as usize, ctx, s.left_cu, s.above_cu, s.geometry), it)),
        ctx,
        it,
    )
}

/// The coder states `cs` with outputs `os` step through the elements `elems`.
pub open spec fn elements_steps(cs: Seq<BoolCoder>, os: Seq<Bins>, e: EncoderContext, s: CuScope, elems: Seq<(CabacContext, usize)>) -> bool {
    &&& cs.len() == elems.len() + 1
    &&& os.len() == elems.len() + 1
    &&& forall|k: int|
        0 <= k < elems.len() ==> #[trigger] cu_element_coded(cs[k], os[k], cs[k + 1], os[k + 1], e, s, elems[k].0, elems[k].1)
}

/// Coder `c1` with output `o1` follows `c0` with output `o0` by coding the elements
/// `elems` in order.
pub open spec fn elements_coded(
    c0: BoolCoder,
    o0: Bins,
    c1: BoolCoder,
    o1: Bins,
    e: EncoderContext,
    s: CuScope,
    elems: Seq<(CabacContext, usize)>,
) -> bool {
    exists|cs: Seq<BoolCoder>, os: Seq<Bins>|
        #[trigger] elements_steps(cs, os, e, s, elems) && cs[0] == c0 && os[0] == o0 && cs.last() == c1 && os.last() == o1
}

/// `1` for true.
pub open spec fn flag(b: bool) -> usize {
    if b { 1 } else { 0 }
}

/// The elements of the absolute value and sign of motion vector difference
/// component `i`, when it is not zero.
pub open spec fn mvd_tail(mvd: MvdCoding, i: int) -> Seq<(CabacContext, usize)> {
    if mvd.abs_mvd_greater0_flag[i] {
        (if mvd.abs_mvd_greater1_flag[i] {
            seq![(CabacContext::AbsMvd, (mvd.abs_mvd[i] - 2) as usize)]
        } else {
            Seq::empty()
        }) + seq![(CabacContext::MvdSignFlag, flag(mvd.sign_flag[i]))]
    } else {
        Seq::empty()
    }
}

/// The `mvd_coding` elements of `mvd`: both "greater than 0" flags, the "greater
/// than 1" flags of the non-zero components, then for each of these its absolute
/// value less 2 (when above 1) and its sign.
#[verifier::opaque]
pub open spec fn mvd_elements(mvd: MvdCoding) -> Seq<(CabacContext, usize)> {
    let g0 = mvd.abs_mvd_greater0_flag;
    let g1 = mvd.abs_mvd_greater1_flag;
    seq![
        (CabacContext::AbsMvdGreater0Flag, flag(g0[0])),
        (CabacContext::AbsMvdGreater0Flag, flag(g0[1])),
    ] + (if g0[0] { seq![(CabacContext::AbsMvdGreater1Flag, flag(g1[0]))] } else { Seq::empty() }) + (if g0[1] {
        seq![(CabacContext::AbsMvdGreater1Flag, flag(g1[1]))]
    } else {
        Seq::empty()
    }) + mvd_tail(mvd, 0) + mvd_tail(mvd, 1)
}

/// Codes the syntax of a coding tree unit with its coder and encoder context.
pub struct CtuEncoder {
    pub coder: BoolCoder,
    pub encoder_context: EncoderContext,
}

/// Appends element `ctx` with value `val` to `v`.
fn push_element(v: &mut Vec<(CabacContext, usize)>, ctx: CabacContext, val: usize)
    ensures
        final(v)@ == old(v)@.push((ctx, val)),
{
    v.push((ctx, val));
}

/// The `mvd_coding` elements of `mvd`.
pub(crate) fn mvd_element_list(mvd: &MvdCoding) -> (v: Vec<(CabacContext, usize)>)
    requires
        mvd.abs_mvd_greater0_flag[0] && mvd.abs_mvd_greater1_flag[0] ==> mvd.abs_mvd[0] >= 2,
        mvd.abs_mvd_greater0_flag[1] && mvd.abs_mvd_greater1_flag[1] ==> mvd.abs_mvd[1] >= 2,
    ensures
        v@ == mvd_elements(*mvd),
        v@.len() <= 10,
{
    proof {
        reveal(mvd_elements);
    }
    let mut v: Vec<(CabacContext, usize)> = Vec::new();
    let mut i: usize = 0;
    while i < 2
        invariant
            i <= 2,
            v@ =~= mvd_elements(*mvd).take(i as int),
        decreases 2 - i,
    {
        proof {
            reveal(mvd_elements);
        }
        push_element(&mut v, CabacContext::AbsMvdGreater0Flag, if mvd.abs_mvd_greater0_flag[i] { 1 } else { 0 });
        i += 1;
    }
    if mvd.abs_mvd_greater0_flag[0] {
        push_element(&mut v, CabacContext::AbsMvdGreater1Flag, if mvd.abs_mvd_greater1_flag[0] { 1 } else { 0 });
    }
    if mvd.abs_mvd_greater0_flag[1] {
        push_element(&mut v, CabacContext::AbsMvdGreater1Flag, if mvd.abs_mvd_greater1_flag[1] { 1 } else { 0 });
    }
    let ghost head = v@;
    let mut i: usize = 0;
    while i < 2
        invariant
            i <= 2,
            mvd.abs_mvd_greater0_flag[0] && mvd.abs_mvd_greater1_flag[0] ==> mvd.abs_mvd[0] >= 2,
            mvd.abs_mvd_greater0_flag[1] && mvd.abs_mvd_greater1_flag[1] ==> mvd.abs_mvd[1] >= 2,
            v@ =~= head + (if i >= 1 { mvd_tail(*mvd, 0) } else { Seq::empty() }) + (if i >= 2 { mvd_tail(*mvd, 1) } else { Seq::empty() }),
        decreases 2 - i,
    {
        if mvd.abs_mvd_greater0_flag[i] {
            if mvd.abs_mvd_greater1_flag[i] {
                push_element(&mut v, CabacContext::AbsMvd, mvd.abs_mvd[i] - 2);
            }
            push_element(&mut v, CabacContext::MvdSignFlag, if mvd.sign_flag[i] { 1 } else { 0 });
        }
        i += 1;
    }
    proof {
        assert(v@ =~= mvd_elements(*mvd));
    }
    v
}

impl CtuEncoder {
    /// An encoder with coder `coder` and encoder context `encoder_context`.
    pub fn new(encoder_context: EncoderContext, coder: BoolCoder) -> (r: CtuEncoder)
        ensures
            r.coder == coder,
            r.encoder_context == encoder_context,
    {
        CtuEncoder { coder, encoder_context }
    }

    /// Codes the elements `elems` of the coding unit in scope, in order, each with its
    /// contexts.
    #[verifier::spinoff_prover]
    #[verifier::rlimit(60)]
    pub(crate) fn encode_elements(&mut self, bins: &mut Bins, elems: &Vec<(CabacContext, usize)>, scope: &CuScope)
        requires
            forall|k: int| 0 <= k < elems@.len() ==> #[trigger] cu_element_ok(old(self).encoder_context, *scope, elems@[k].0, elems@[k].1),
            old(self).coder.wf(),
            old(self).coder.engine_ok(),
            old(bins).num_bins + old(self).coder.cabac_bits_outstanding + 9 * 64 * elems@.len() + 9 * 65 <= usize::MAX,
        ensures
            elements_coded(old(self).coder, *old(bins), final(self).coder, *final(bins), old(self).encoder_context, *scope, elems@),
            final(self).encoder_context == old(self).encoder_context,
            final(self).coder.wf(),
            final(self).coder.engine_ok(),
    {
        let ghost c0 = self.coder;
        let ghost o0 = *bins;
        let ghost e = self.encoder_context;
        let ghost mut cs: Seq<BoolCoder> = seq![c0];
        let ghost mut os: Seq<Bins> = seq![o0];
        let mut i: usize = 0;
        while i < elems.len()
            invariant
                i <= elems@.len(),
                e == self.encoder_context,
                forall|k: int| 0 <= k < elems@.len() ==> #[trigger] cu_element_ok(e, *scope, elems@[k].0, elems@[k].1),
                elements_steps(cs, os, e, *scope, elems@.take(i as int)),
                cs[0] == c0 && os[0] == o0 && cs.last() == self.coder && os.last() == *bins,
                self.coder.wf(),
                self.coder.engine_ok(),
                bins.num_bins + self.coder.cabac_bits_outstanding <= o0.num_bins + c0.cabac_bits_outstanding + 9 * 64 * i,
                o0.num_bins + c0.cabac_bits_outstanding + 9 * 64 * elems@.len() + 9 * 65 <= usize::MAX,
            decreases elems@.len() - i,
        {
            let (ctx, val) = elems[i];
            proof {
                assert(cu_element_ok(e, *scope, elems@[i as int].0, elems@[i as int].1));
                assert(elems@[i as int] == (ctx, val));
                assert(cu_element_ok(e, *scope, ctx, val));
                assert(9 * 64 * i + 9 * 64 <= 9 * 64 * elems@.len()) by (nonlinear_arith)
                    requires i < elems@.len();
            }
            let ghost cm = self.coder;
            let ghost om = *bins;
            let left = match &scope.left_cu {
                Some(c) => Some(c),
                None => None,
            };
            let above = match &scope.above_cu {
                Some(c) => Some(c),
                None => None,
            };
            proof {
                assert(opt(left) == scope.left_cu);
                assert(opt(above) == scope.above_cu);
                assert forall|k: usize|
                    k < cu_bin_bits(e, scope.cu, ctx, val, scope.chroma_qp_offset_list_len).len() implies #[trigger] cu_inc_ok(
                        e,
                        scope.cu,
                        k,
                        ctx,
                        opt(left),
                        opt(above),
                        scope.geometry,
                    ) && inc_entry_ok(
                        ctx,
                        cu_inc(e, scope.ct, scope.cu, k, ctx, opt(left), opt(above), scope.geometry),
                        init_type_of(scope.slice_type, scope.cabac_init_flag),
                    ) by {
                    assert(cu_inc_ok(e, scope.cu, k, ctx, scope.left_cu, scope.above_cu, scope.geometry));
                }
            }
            self.coder.encode_cabac_cu(
                bins,
                val,
                ctx,
                &scope.ct,
                &scope.cu,
                left,
                above,
                scope.slice_type,
                scope.cabac_init_flag,
                scope.geometry,
                scope.chroma_qp_offset_list_len,
                &self.encoder_context,
            );
            proof {
                assert(9 * 64 * i + 9 * 64 == 9 * 64 * (i + 1)) by (nonlinear_arith);
                let t = elems@.take(i + 1);
                let cs2 = cs.push(self.coder);
                let os2 = os.push(*bins);
                assert(cu_element_coded(cm, om, self.coder, *bins, e, *scope, ctx, val));
                assert forall|k: int| 0 <= k < t.len() implies #[trigger] cu_element_coded(cs2[k], os2[k], cs2[k + 1], os2[k + 1], e, *scope, t[k].0, t[k].1) by {
                    if k < i {
                        assert(t[k] == elems@.take(i as int)[k]);
                        assert(cu_element_coded(cs[k], os[k], cs[k + 1], os[k + 1], e, *scope, elems@.take(i as int)[k].0, elems@.take(i as int)[k].1));
                    } else {
                        assert(t[k] == (ctx, val));
                    }
                }
                cs = cs2;
                os = os2;
            }
            i += 1;
        }
        proof {
            assert(elems@.take(elems@.len() as int) =~= elems@);
        }
    }

    /// Codes the motion vector difference `mvd` of the coding unit in scope: the
    /// elements of `mvd_elements` in order, each with its contexts.
    pub fn encode_mvd(&mut self, bins: &mut Bins, mvd: &MvdCoding, scope: &CuScope)
        requires
            mvd.abs_mvd_greater0_flag[0] && mvd.abs_mvd_greater1_flag[0] ==> mvd.abs_mvd[0] >= 2,
            mvd.abs_mvd_greater0_flag[1] && mvd.abs_mvd_greater1_flag[1] ==> mvd.abs_mvd[1] >= 2,
            forall|k: int|
                0 <= k < mvd_elements(*mvd).len() ==> #[trigger] cu_element_ok(
                    old(self).encoder_context,
                    *scope,
                    mvd_elements(*mvd)[k].0,
                    mvd_elements(*mvd)[k].1,
                ),
            old(self).coder.wf(),
            old(self).coder.engine_ok(),
            old(bins).num_bins + old(self).coder.cabac_bits_outstanding + 9 * 65 * 11 <= usize::MAX,
        ensures
            elements_coded(old(self).coder, *old(bins), final(self).coder, *final(bins), old(self).encoder_context, *scope, mvd_elements(*mvd)),
            final(self).encoder_context == old(self).encoder_context,
            final(self).coder.wf(),
            final(self).coder.engine_ok(),
    {
        let elems = mvd_element_list(mvd);
        proof {
            assert(9 * 64 * elems@.len() <= 9 * 64 * 10) by (nonlinear_arith)
                requires elems@.len() <= 10;
        }
        self.encode_elements(bins, &elems, scope);
    }
}

/// What coding a coding tree unit's elements depends on beyond the elements: the
/// tile column boundary of each coding tree block column, whether the unit is in the
/// first row of its slice, the offset type of each component of each unit (by
/// component, column and row), whether the picture has chroma and the slice uses
/// luma and chroma offsets, the slice type and initialization flag, and the
/// adaptive loop filter parameters, number of luma filter sets and bit depth that
/// binarization reads.
pub struct CtuScope {
    pub ctb_to_tile_col_bd: Vec<usize>,
    pub first_ctb_row_in_slice: bool,
    pub sao_type_idx: Vec<Vec<Vec<usize>>>,
    pub chroma_present: bool,
    pub sao_luma_used_flag: bool,
    pub sao_chroma_used_flag: bool,
    pub slice_type: SliceType,
    pub cabac_init_flag: bool,
    pub alf: AlfData,
    pub num_alf_aps_ids_luma: usize,
    pub bit_depth: usize,
}

/// Element `ctx` with value `val` of the coding tree unit can be coded in scope
/// `s`: it binarizes into at most 64 bins, each with a context in the table.
pub open spec fn ctu_element_ok(s: CtuScope, ctx: CabacContext, val: usize) -> bool {
    let bins = ctu_bin_bits(ctx, val, s.alf, s.num_alf_aps_ids_luma, s.bit_depth);
    &&& ctu_bin_ok(ctx, val, s.alf, s.num_alf_aps_ids_luma, s.bit_depth)
    &&& bins.len() <= 64
    &&& forall|k: int| 0 <= k < bins.len() ==> #[trigger] inc_entry_ok(ctx, bin_rule(ctx, k), init_type_of(s.slice_type, s.cabac_init_flag))
}

/// Coder `c1` with output `o1` follows `c0` with output `o0` by coding coding tree
/// unit element `ctx` with value `val` in scope `s`.
pub open spec fn ctu_element_coded(c0: BoolCoder, o0: Bins, c1: BoolCoder, o1: Bins, s: CtuScope, ctx: CabacContext, val: usize) -> bool {
    let bins = ctu_bin_bits(ctx, val, s.alf, s.num_alf_aps_ids_luma, s.bit_depth);
    let it = init_type_of(s.slice_type, s.cabac_init_flag);
    coded_in(c0, o0, c1, o1, bins, Seq::new(bins.len(), |k: int| ctx_of_inc(ctx, bin_rule(ctx, k), it)), ctx, it)
}

/// The coder states `cs` with outputs `os` step through the coding tree unit
/// elements `elems`.
pub open spec fn ctu_elements_steps(cs: Seq<BoolCoder>, os: Seq<Bins>, s: CtuScope, elems: Seq<(CabacContext, usize)>) -> bool {
    &&& cs.len() == elems.len() + 1
    &&& os.len() == elems.len() + 1
    &&& forall|k: int|
        0 <= k < elems.len() ==> #[trigger] ctu_element_coded(cs[k], os[k], cs[k + 1], os[k + 1], s, elems[k].0, elems[k].1)
}

/// Coder `c1` with output `o1` follows `c0` with output `o0` by coding the coding
/// tree unit elements `elems` in order.
pub open spec fn ctu_elements_coded(c0: BoolCoder, o0: Bins, c1: BoolCoder, o1: Bins, s: CtuScope, elems: Seq<(CabacContext, usize)>) -> bool {
    exists|cs: Seq<BoolCoder>, os: Seq<Bins>|
        #[trigger] ctu_elements_steps(cs, os, s, elems) && cs[0] == c0 && os[0] == o0 && cs.last() == c1 && os.last() == o1
}

/// The offset sign elements of the first `n` offsets of component `c` of the unit at
/// (rx, ry): one for each offset that is not zero.
pub open spec fn sao_signs(sao: SAO, c: int, rx: int, ry: int, n: int) -> Seq<(CabacContext, usize)>
    decreases n,
{
    if n <= 0 {
        Seq::empty()
    } else {
        sao_signs(sao, c, rx, ry, n - 1) + (if sao.offset_abs@[c]@[rx]@[ry]@[n - 1] != 0 {
            seq![(CabacContext::SaoOffsetSignFlag, flag(sao.offset_sign_flag@[c]@[rx]@[ry]@[n - 1]))]
        } else {
            Seq::empty()
        })
    }
}

/// The offset elements of component `c` of the unit at (rx, ry) when the slice uses
/// offsets of its kind: its type (luma, or first chroma), and for a unit with
/// offsets the four absolute offsets, then for band offsets the signs of those not
/// zero and the band position, for edge offsets the class (luma, or first chroma).
pub open spec fn sao_component(sao: SAO, s: CtuScope, c: int, rx: int, ry: int) -> Seq<(CabacContext, usize)> {
    if (s.sao_luma_used_flag && c == 0) || (s.sao_chroma_used_flag && c > 0) {
        let typ = if c == 0 {
            seq![(CabacContext::AlfSaoTypeIdxLuma, sao.type_idx_luma)]
        } else if c == 1 {
            seq![(CabacContext::AlfSaoTypeIdxChroma, sao.type_idx_chroma)]
        } else {
            Seq::empty()
        };
        let t = s.sao_type_idx@[c]@[rx]@[ry];
        typ + (if t != 0 {
            Seq::new(4, |i: int| (CabacContext::SaoOffsetAbs, sao.offset_abs@[c]@[rx]@[ry]@[i])) + (if t == 1 {
                sao_signs(sao, c, rx, ry, 4) + seq![(CabacContext::SaoBandPosition, sao.band_position@[c]@[rx]@[ry])]
            } else if c == 0 {
                seq![(CabacContext::SaoEoClassLuma, sao.eo_class_luma)]
            } else if c == 1 {
                seq![(CabacContext::SaoEoClassChroma, sao.eo_class_chroma)]
            } else {
                Seq::empty()
            })
        } else {
            Seq::empty()
        })
    } else {
        Seq::empty()
    }
}

/// The offset elements of the first `n` components.
pub open spec fn sao_components(sao: SAO, s: CtuScope, rx: int, ry: int, n: int) -> Seq<(CabacContext, usize)>
    decreases n,
{
    if n <= 0 {
        Seq::empty()
    } else {
        sao_components(sao, s, rx, ry, n - 1) + sao_component(sao, s, n - 1, rx, ry)
    }
}

/// The left neighbour of the unit at (rx, ry) can be merged with.
pub open spec fn sao_left_available(s: CtuScope, rx: int) -> bool {
    rx > 0 && rx != s.ctb_to_tile_col_bd@[rx]
}

/// The neighbour above the unit at (rx, ry) can be merged with (without a merge to
/// the left).
pub open spec fn sao_up_available(sao: SAO, s: CtuScope, ry: int) -> bool {
    ry > 0 && !sao.merge_left_flag && ry != s.ctb_to_tile_col_bd@[ry] && !s.first_ctb_row_in_slice
}

/// The `sao` syntax of the unit at (rx, ry): the merge flags that can be coded, then,
/// without a merge, the offsets of each component.
pub open spec fn sao_elements(sao: SAO, s: CtuScope, rx: int, ry: int) -> Seq<(CabacContext, usize)> {
    (if sao_left_available(s, rx) {
        seq![(CabacContext::AlfSaoMergeLeftFlag, flag(sao.merge_left_flag))]
    } else {
        Seq::empty()
    }) + (if sao_up_available(sao, s, ry) {
        seq![(CabacContext::AlfSaoMergeUpFlag, flag(sao.merge_up_flag))]
    } else {
        Seq::empty()
    }) + (if !sao.merge_up_flag && !sao.merge_left_flag {
        sao_components(sao, s, rx, ry, if s.chroma_present { 3 } else { 1 })
    } else {
        Seq::empty()
    })
}

/// Everything the `sao` syntax of the unit at (rx, ry) reads exists.
pub open spec fn sao_indexable(sao: SAO, s: CtuScope, rx: int, ry: int) -> bool {
    &&& rx > 0 ==> rx < s.ctb_to_tile_col_bd@.len()
    &&& ry > 0 && !sao.merge_left_flag ==> ry < s.ctb_to_tile_col_bd@.len()
    &&& !sao.merge_up_flag && !sao.merge_left_flag ==> forall|c: int|
        0 <= c < (if s.chroma_present { 3int } else { 1int }) && ((s.sao_luma_used_flag && c == 0) || (s.sao_chroma_used_flag
            && c > 0)) ==> #[trigger] sao_component_indexable(sao, s, c, rx, ry)
}

/// Everything the offsets of component `c` of the unit at (rx, ry) read exists.
pub open spec fn sao_component_indexable(sao: SAO, s: CtuScope, c: int, rx: int, ry: int) -> bool {
    &&& c < s.sao_type_idx@.len() && rx < s.sao_type_idx@[c]@.len() && ry < s.sao_type_idx@[c]@[rx]@.len()
    &&& s.sao_type_idx@[c]@[rx]@[ry] != 0 ==> {
        &&& c < sao.offset_abs@.len() && rx < sao.offset_abs@[c]@.len() && ry < sao.offset_abs@[c]@[rx]@.len()
        &&& 4 <= sao.offset_abs@[c]@[rx]@[ry]@.len()
    }
    &&& s.sao_type_idx@[c]@[rx]@[ry] == 1 ==> {
        &&& c < sao.band_position@.len() && rx < sao.band_position@[c]@.len() && ry < sao.band_position@[c]@[rx]@.len()
        &&& (exists|i: int| 0 <= i < 4 && sao.offset_abs@[c]@[rx]@[ry]@[i] != 0) ==> {
            &&& c < sao.offset_sign_flag@.len() && rx < sao.offset_sign_flag@[c]@.len() && ry < sao.offset_sign_flag@[c]@[rx]@.len()
            &&& forall|i: int| 0 <= i < 4 && sao.offset_abs@[c]@[rx]@[ry]@[i] != 0 ==> i < sao.offset_sign_flag@[c]@[rx]@[ry]@.len()
        }
    }
}

/// Appends the offset elements of component `c` of the unit at (rx, ry) to `v`.
fn push_sao_component(v: &mut Vec<(CabacContext, usize)>, sao: &SAO, s: &CtuScope, c: usize, rx: usize, ry: usize)
    requires
        c < 3,
        (s.sao_luma_used_flag && c == 0) || (s.sao_chroma_used_flag && c > 0) ==> sao_component_indexable(*sao, *s, c as int, rx as int, ry as int),
        old(v)@.len() <= 40,
    ensures
        final(v)@ == old(v)@ + sao_component(*sao, *s, c as int, rx as int, ry as int),
        final(v)@.len() <= old(v)@.len() + 10,
{
    let ghost v0 = v@;
    if (s.sao_luma_used_flag && c == 0) || (s.sao_chroma_used_flag && c > 0) {
        if c == 0 {
            push_element(v, CabacContext::AlfSaoTypeIdxLuma, sao.type_idx_luma);
        } else if c == 1 {
            push_element(v, CabacContext::AlfSaoTypeIdxChroma, sao.type_idx_chroma);
        }
        let ghost v1 = v@;
        let t = s.sao_type_idx[c][rx][ry];
        if t != 0 {
            let mut i: usize = 0;
            while i < 4
                invariant
                    i <= 4,
                    t != 0,
                    t == s.sao_type_idx@[c as int]@[rx as int]@[ry as int],
                    sao_component_indexable(*sao, *s, c as int, rx as int, ry as int),
                    v@ =~= v1 + Seq::new(i as nat, |k: int| (CabacContext::SaoOffsetAbs, sao.offset_abs@[c as int]@[rx as int]@[ry as int]@[k])),
                decreases 4 - i,
            {
                push_element(v, CabacContext::SaoOffsetAbs, sao.offset_abs[c][rx][ry][i]);
                i += 1;
            }
            let ghost v2 = v@;
            if t == 1 {
                let mut i: usize = 0;
                while i < 4
                    invariant
                        i <= 4,
                        t == 1,
                        t == s.sao_type_idx@[c as int]@[rx as int]@[ry as int],
                        sao_component_indexable(*sao, *s, c as int, rx as int, ry as int),
                        v@ =~= v2 + sao_signs(*sao, c as int, rx as int, ry as int, i as int),
                        v@.len() <= v2.len() + i,
                    decreases 4 - i,
                {
                    if sao.offset_abs[c][rx][ry][i] != 0 {
                        proof {
                            assert(exists|j: int| 0 <= j < 4 && sao.offset_abs@[c as int]@[rx as int]@[ry as int]@[j] != 0);
                        }
                        push_element(v, CabacContext::SaoOffsetSignFlag, if sao.offset_sign_flag[c][rx][ry][i] { 1 } else { 0 });
                    }
                    i += 1;
                }
                push_element(v, CabacContext::SaoBandPosition, sao.band_position[c][rx][ry]);
            } else if c == 0 {
                push_element(v, CabacContext::SaoEoClassLuma, sao.eo_class_luma);
            } else if c == 1 {
                push_element(v, CabacContext::SaoEoClassChroma, sao.eo_class_chroma);
            }
        }
    }
    proof {
        assert(v@ =~= v0 + sao_component(*sao, *s, c as int, rx as int, ry as int));
    }
}

/// The `sao` syntax elements of the unit at (rx, ry).
fn sao_element_list(sao: &SAO, s: &CtuScope, rx: usize, ry: usize) -> (v: Vec<(CabacContext, usize)>)
    requires
        sao_indexable(*sao, *s, rx as int, ry as int),
    ensures
        v@ == sao_elements(*sao, *s, rx as int, ry as int),
        v@.len() <= 40,
{
    let mut v: Vec<(CabacContext, usize)> = Vec::new();
    if rx > 0 {
        if rx != s.ctb_to_tile_col_bd[rx] {
            push_element(&mut v, CabacContext::AlfSaoMergeLeftFlag, if sao.merge_left_flag { 1 } else { 0 });
        }
    }
    if ry > 0 && !sao.merge_left_flag {
        if ry != s.ctb_to_tile_col_bd[ry] && !s.first_ctb_row_in_slice {
            push_element(&mut v, CabacContext::AlfSaoMergeUpFlag, if sao.merge_up_flag { 1 } else { 0 });
        }
    }
    let ghost head = v@;
    if !sao.merge_up_flag && !sao.merge_left_flag {
        let nc: usize = if s.chroma_present { 3 } else { 1 };
        let mut c: usize = 0;
        while c < nc
            invariant
                c <= nc <= 3,
                nc == (if s.chroma_present { 3usize } else { 1usize }),
                !sao.merge_up_flag && !sao.merge_left_flag,
                sao_indexable(*sao, *s, rx as int, ry as int),
                v@ =~= head + sao_components(*sao, *s, rx as int, ry as int, c as int),
                v@.len() <= 2 + 10 * c,
            decreases nc - c,
        {
            proof {
                if (s.sao_luma_used_flag && c == 0) || (s.sao_chroma_used_flag && c > 0) {
                    assert(sao_component_indexable(*sao, *s, c as int, rx as int, ry as int));
                }
            }
            push_sao_component(&mut v, sao, s, c, rx, ry);
            c += 1;
        }
    }
    proof {
        assert(v@ =~= sao_elements(*sao, *s, rx as int, ry as int));
    }
    v
}

impl CtuEncoder {
    /// Codes the sample adaptive offset parameters `sao` of the coding tree unit at
    /// (rx, ry): the elements of `sao_elements` in order, each with its contexts.
    pub fn encode_sao(&mut self, bins: &mut Bins, sao: &SAO, scope: &CtuScope, rx: usize, ry: usize)
        requires
            sao_indexable(*sao, *scope, rx as int, ry as int),
            forall|k: int|
                0 <= k < sao_elements(*sao, *scope, rx as int, ry as int).len() ==> #[trigger] ctu_element_ok(
                    *scope,
                    sao_elements(*sao, *scope, rx as int, ry as int)[k].0,
                    sao_elements(*sao, *scope, rx as int, ry as int)[k].1,
                ),
            old(self).coder.wf(),
            old(self).coder.engine_ok(),
            old(bins).num_bins + old(self).coder.cabac_bits_outstanding + 9 * 65 * 41 <= usize::MAX,
        ensures
            ctu_elements_coded(old(self).coder, *old(bins), final(self).coder, *final(bins), *scope, sao_elements(*sao, *scope, rx as int, ry as int)),
            final(self).encoder_context == old(self).encoder_context,
            final(self).coder.wf(),
            final(self).coder.engine_ok(),
    {
        let elems = sao_element_list(sao, scope, rx, ry);
        let ghost c0 = self.coder;
        let ghost o0 = *bins;
        let ghost mut cs: Seq<BoolCoder> = seq![c0];
        let ghost mut os: Seq<Bins> = seq![o0];
        let mut i: usize = 0;
        while i < elems.len()
            invariant
                i <= elems@.len() <= 40,
                elems@ == sao_elements(*sao, *scope, rx as int, ry as int),
                forall|k: int| 0 <= k < elems@.len() ==> #[trigger] ctu_element_ok(*scope, elems@[k].0, elems@[k].1),
                ctu_elements_steps(cs, os, *scope, elems@.take(i as int)),
                cs[0] == c0 && os[0] == o0 && cs.last() == self.coder && os.last() == *bins,
                self.coder.wf(),
                self.coder.engine_ok(),
                bins.num_bins + self.coder.cabac_bits_outstanding <= o0.num_bins + c0.cabac_bits_outstanding + 9 * 64 * i,
                o0.num_bins + c0.cabac_bits_outstanding + 9 * 65 * 41 <= usize::MAX,
                self.encoder_context == old(self).encoder_context,
            decreases elems@.len() - i,
        {
            let (ctx, val) = elems[i];
            proof {
                assert(ctu_element_ok(*scope, elems@[i as int].0, elems@[i as int].1));
                assert(9 * 64 * i <= 9 * 64 * 40) by (nonlinear_arith)
                    requires i <= 40;
            }
            let ghost cm = self.coder;
            let ghost om = *bins;
            self.coder.encode_cabac_ctu(bins, val, ctx, scope.slice_type, scope.cabac_init_flag, &scope.alf, scope.num_alf_aps_ids_luma, scope.bit_depth);
            proof {
                assert(9 * 64 * i + 9 * 64 == 9 * 64 * (i + 1)) by (nonlinear_arith);
                let t = elems@.take(i + 1);
                let cs2 = cs.push(self.coder);
                let os2 = os.push(*bins);
                assert(ctu_element_coded(cm, om, self.coder, *bins, *scope, ctx, val));
                assert forall|k: int| 0 <= k < t.len() implies #[trigger] ctu_element_coded(cs2[k], os2[k], cs2[k + 1], os2[k + 1], *scope, t[k].0, t[k].1) by {
                    if k < i {
                        assert(t[k] == elems@.take(i as int)[k]);
                        assert(ctu_element_coded(cs[k], os[k], cs[k + 1], os[k + 1], *scope, elems@.take(i as int)[k].0, elems@.take(i as int)[k].1));
                    } else {
                        assert(t[k] == (ctx, val));
                    }
                }
                cs = cs2;
                os = os2;
            }
            i += 1;
        }
        proof {
            assert(elems@.take(elems@.len() as int) =~= elems@);
        }
    }
}

} // verus!
