//! The planar and DC predictions of a transform block: its reference samples
//! prepared, the block predicted from them, and, on larger blocks, the
//! position-dependent filtering.
use crate::common::{law_vec2d_read_after_write, IntraPredMode, Vec2d};
use crate::ctu::TransformUnit;
use crate::encoder_context::EncoderContext;
use crate::intra_predictor::{block_inside, block_written, dc_value, planar_value, side_ok, IntraPredictor};
use crate::neighbour_ctx::PictureGeometry;
use crate::angular::{
    angular_refs, angular_sizes_ok, angular_smooth, angular_value, intra_pred_angle, ref_smoothed_mode, refs_len,
    refs_readable, size_class, taps_ok, wide_angle, angular_filter_flag, wide_angle_mode,
};
use crate::pdpc::{
    block_angular_filtered, block_filtered, pdpc_angular_reads_ok, pdpc_angular_scale, pdpc_angular_value, pdpc_scale,
    pdpc_value,
};
use crate::ref_samples::{reads_ok, ref_dims, ref_geometry_ok, refs_prepared, tu_comp_pos, tu_comp_size};
use vstd::prelude::*;

verus! {

/// The position-dependent filter follows the prediction: on blocks of at least 4 by
/// 4 on the nearest reference line, outside block-based delta coding.
pub open spec fn pdpc_applies(tw: int, th: int, ref_idx: int, bdpcm_flag: bool) -> bool {
    tw >= 4 && th >= 4 && ref_idx == 0 && !bdpcm_flag
}

/// The block of `new` at (tx, ty) is `f`, filtered with the references `a`, `l` and
/// the corner `c` in mode `mode` when `filtered`, and `new` is `old` elsewhere.
pub open spec fn block_predicted(
    old: Vec2d<u8>,
    new: Vec2d<u8>,
    tx: int,
    ty: int,
    tw: int,
    th: int,
    f: spec_fn(int, int) -> u8,
    filtered: bool,
    a: Seq<i16>,
    l: Seq<i16>,
    c: int,
    mode: int,
) -> bool {
    if filtered {
        block_written(old, new, tx, ty, tw, th, |x: int, y: int| pdpc_value(f(x, y) as int, a, l, c, mode, pdpc_scale(tw, th), x, y) as u8)
    } else {
        block_written(old, new, tx, ty, tw, th, f)
    }
}

/// Filtering a block just written gives the filtered values of what was written.
proof fn lemma_write_then_filter(
    p0: Vec2d<u8>,
    p1: Vec2d<u8>,
    p2: Vec2d<u8>,
    tx: int,
    ty: int,
    tw: int,
    th: int,
    f: spec_fn(int, int) -> u8,
    a: Seq<i16>,
    l: Seq<i16>,
    c: int,
    mode: int,
)
    requires
        block_written(p0, p1, tx, ty, tw, th, f),
        block_filtered(p1, p2, tx, ty, tw, th, a, l, c, mode),
    ensures
        block_predicted(p0, p2, tx, ty, tw, th, f, true, a, l, c, mode),
{
    let g = |x: int, y: int| pdpc_value(f(x, y) as int, a, l, c, mode, pdpc_scale(tw, th), x, y) as u8;
    assert forall|r: int, k: int| 0 <= r < p2.height && 0 <= k < p2.width implies #[trigger] p2.at(r, k) == if ty <= r < ty
        + th && tx <= k < tx + tw {
        g(k - tx, r - ty)
    } else {
        p0.at(r, k)
    } by {
        assert(p1.at(r, k) == if ty <= r < ty + th && tx <= k < tx + tw {
            f(k - tx, r - ty)
        } else {
            p0.at(r, k)
        });
    }
}

/// The conditions under which a unit's component can be predicted from the
/// reconstructed samples `p`.
pub open spec fn prediction_ok(
    tu: TransformUnit,
    c_idx: usize,
    ref_idx: usize,
    pred: Vec2d<u8>,
    p: Vec2d<u8>,
    ar: bool,
    bl: bool,
    e: EncoderContext,
    g: PictureGeometry,
) -> bool {
    let (tw, th) = tu_comp_size(tu, c_idx);
    let (tx, ty) = tu_comp_pos(tu, c_idx);
    &&& ref_geometry_ok(tu, c_idx, ref_idx, e)
    &&& reads_ok(tu, c_idx, ref_idx, p, ar, bl, e, g)
    &&& side_ok(tw as usize) && side_ok(th as usize)
    &&& ref_dims(tu, c_idx).0 > tw && ref_dims(tu, c_idx).1 > th
    &&& block_inside(pred, tx as usize, ty as usize, tw as usize, th as usize)
}

/// The DC prediction of component `c_idx` of `tu` turned the predictor `old` into
/// `new` and the prediction plane `old_pred` into `new_pred`.
pub open spec fn dc_predicted(old: IntraPredictor, new: IntraPredictor, old_pred: Vec2d<u8>, new_pred: Vec2d<u8>, tu: TransformUnit, c_idx: usize, ref_idx: usize, p: Vec2d<u8>, ar: bool, bl: bool, e: EncoderContext, g: PictureGeometry) -> bool {
    &&& refs_prepared(old, new, tu, c_idx, ref_idx, p, ar, bl, e, g)
    &&& ({
                let (tw, th) = tu_comp_size(tu, c_idx);
                let (tx, ty) = tu_comp_pos(tu, c_idx);
                let a = new.above_ref_filtered_samples@.subrange(ref_idx as int, ref_idx + tw);
                let l = new.left_ref_filtered_samples@.subrange(ref_idx + 1, ref_idx + 1 + th);
                let dc = dc_value(a, l, tw, th) as u8;
                block_predicted(
                    old_pred,
                    new_pred,
                    tx,
                    ty,
                    tw,
                    th,
                    |x: int, y: int| dc,
                    pdpc_applies(tw, th, ref_idx as int, tu.cu_bdpcm_flag[c_idx as int]),
                    a,
                    l,
                    new.left_ref_filtered_samples@[0] as int,
                    1,
                )
            })
}

/// The planar prediction of component `c_idx` of `tu` turned the predictor `old` into
/// `new` and the prediction plane `old_pred` into `new_pred`.
pub open spec fn planar_predicted(old: IntraPredictor, new: IntraPredictor, old_pred: Vec2d<u8>, new_pred: Vec2d<u8>, tu: TransformUnit, c_idx: usize, ref_idx: usize, p: Vec2d<u8>, ar: bool, bl: bool, e: EncoderContext, g: PictureGeometry) -> bool {
    &&& refs_prepared(old, new, tu, c_idx, ref_idx, p, ar, bl, e, g)
    &&& ({
                let (tw, th) = tu_comp_size(tu, c_idx);
                let (tx, ty) = tu_comp_pos(tu, c_idx);
                let a = new.above_ref_filtered_samples@.subrange(ref_idx as int, ref_idx + tw + 1);
                let l = new.left_ref_filtered_samples@.subrange(ref_idx + 1, ref_idx + 2 + th);
                block_predicted(
                    old_pred,
                    new_pred,
                    tx,
                    ty,
                    tw,
                    th,
                    |x: int, y: int| planar_value(a, l, tw, th, x, y) as u8,
                    pdpc_applies(tw, th, ref_idx as int, tu.cu_bdpcm_flag[c_idx as int]),
                    a,
                    l,
                    new.left_ref_filtered_samples@[0] as int,
                    0,
                )
            })
}

/// The angular prediction of component `c_idx` of `tu` turned the predictor `old` into
/// `new` and the prediction plane `old_pred` into `new_pred`.
pub open spec fn angular_predicted(old: IntraPredictor, new: IntraPredictor, old_pred: Vec2d<u8>, new_pred: Vec2d<u8>, tu: TransformUnit, c_idx: usize, ref_idx: usize, p: Vec2d<u8>, ar: bool, bl: bool, e: EncoderContext, g: PictureGeometry, isp_split: bool) -> bool {
    &&& refs_prepared(old, new, tu, c_idx, ref_idx, p, ar, bl, e, g)
    &&& ({
                let (tw, th) = tu_comp_size(tu, c_idx);
                let (tx, ty) = tu_comp_pos(tu, c_idx);
                let (rw, rh) = ref_dims(tu, c_idx);
                let mode = tu_wide_mode(tu, c_idx);
                let angle = intra_pred_angle(mode);
                let lf = new.left_ref_filtered_samples@;
                let af = new.above_ref_filtered_samples@;
                let refs = angular_refs(lf, af, mode >= 34, angle, ref_idx as int, tw, th, rw, rh);
                let smooth = angular_smooth(mode, ref_idx as int, isp_split, tw, th);
                let f = |x: int, y: int| angular_value(refs, mode >= 34, angle, ref_idx as int, c_idx == 0, smooth, x, y) as u8;
                let a = af.subrange(ref_idx as int, 129);
                let l = lf.subrange(ref_idx + 1, 130);
                let applies = angular_pdpc_applies(tw, th, ref_idx as int, tu.cu_bdpcm_flag[c_idx as int], mode);
                if applies && (2 <= mode <= 17 || 51 <= mode) {
                    block_written(
                        old_pred,
                        new_pred,
                        tx,
                        ty,
                        tw,
                        th,
                        |x: int, y: int| pdpc_angular_value(f(x, y) as int, a, l, mode, pdpc_angular_scale(mode, tw), x, y) as u8,
                    )
                } else {
                    block_predicted(
                        old_pred,
                        new_pred,
                        tx,
                        ty,
                        tw,
                        th,
                        f,
                        applies,
                        a,
                        l,
                        lf[0] as int,
                        if mode < 2 { 0 } else { mode },
                    )
                }
            })
}

/// The conditions under which component `c_idx` of `tu` can be predicted in its
/// angular mode from the predictor `old` into the plane `old_pred`: the mode maps
/// into the table, the references and the block fit, and every reference that the
/// interpolation and the filter read lies in the prepared buffers.
pub open spec fn angular_predict_ok(old: IntraPredictor, old_pred: Vec2d<u8>, tu: TransformUnit, c_idx: usize, ref_idx: usize, p: Vec2d<u8>, ar: bool, bl: bool, e: EncoderContext, g: PictureGeometry, isp_split: bool) -> bool {
    &&& ({
                let (tw, th) = tu_comp_size(tu, c_idx);
                let (tx, ty) = tu_comp_pos(tu, c_idx);
                let mode = tu_wide_mode(tu, c_idx);
                &&& 2 <= tu.cu_intra_pred_mode[c_idx as int].spec_value() <= 66
                &&& -14 <= mode <= 80
                &&& ref_geometry_ok(tu, c_idx, ref_idx, e)
                &&& reads_ok(tu, c_idx, ref_idx, p, ar, bl, e, g)
                &&& side_ok(tw as usize) && side_ok(th as usize)
                &&& block_inside(old_pred, tx as usize, ty as usize, tw as usize, th as usize)
                &&& filtered_8bit(old)
                &&& ref_smoothed_mode(mode) || ref_idx != 0 || isp_split || 2 <= size_class(tw, th)
            })
    &&& forall|ip: IntraPredictor|
                refs_prepared(old, ip, tu, c_idx, ref_idx, p, ar, bl, e, g)
                    ==> #[trigger] angular_ok(tu, c_idx, ref_idx, isp_split, ip)
}

impl IntraPredictor {
    /// Predicts component `c_idx` of `tu` in DC mode into `tile_pred_pixels`: prepares
    /// the references from `tile_reconst_pixels`, fills the block with their mean and,
    /// where it applies, filters it position-dependently.
    pub fn predict_dc(
        &mut self,
        tu: &TransformUnit,
        c_idx: usize,
        ref_idx: usize,
        tile_pred_pixels: &mut Vec2d<u8>,
        tile_reconst_pixels: &Vec2d<u8>,
        is_above_right_available: bool,
        is_below_left_available: bool,
        geometry: PictureGeometry,
        ectx: &EncoderContext,
    )
        requires
            prediction_ok(*tu, c_idx, ref_idx, *old(tile_pred_pixels), *tile_reconst_pixels, is_above_right_available, is_below_left_available, *ectx, geometry),
        ensures
            dc_predicted(*old(self), *final(self), *old(tile_pred_pixels), *final(tile_pred_pixels), *tu, c_idx, ref_idx, *tile_reconst_pixels, is_above_right_available, is_below_left_available, *ectx, geometry),
    {
        self.set_left_and_above_ref_samples(
            tu,
            c_idx,
            ref_idx,
            tile_reconst_pixels,
            is_above_right_available,
            is_below_left_available,
            geometry,
            ectx,
        );
        let (tw, th) = tu.get_component_size(c_idx);
        let (tx, ty) = tu.get_component_pos(c_idx);
        let ghost p0 = *tile_pred_pixels;
        let lrs = &self.left_ref_filtered_samples[ref_idx + 1..ref_idx + 1 + th];
        let ars = &self.above_ref_filtered_samples[ref_idx..ref_idx + tw];
        let alrs = self.left_ref_filtered_samples[0];
        proof {
            assert(lrs@ == self.left_ref_filtered_samples@.subrange(ref_idx + 1, ref_idx + 1 + th));
            assert(ars@ == self.above_ref_filtered_samples@.subrange(ref_idx as int, ref_idx + tw));
        }
        self.dc_block(ars, lrs, tw, th, tx, ty, tile_pred_pixels);
        let ghost p1 = *tile_pred_pixels;
        if tw >= 4 && th >= 4 && ref_idx == 0 && !tu.cu_bdpcm_flag[c_idx] {
            self.pdpc_block(ars, lrs, alrs, 1, tw, th, tx, ty, tile_pred_pixels);
            proof {
                let dc = dc_value(ars@, lrs@, tw as int, th as int) as u8;
                lemma_write_then_filter(p0, p1, *tile_pred_pixels, tx as int, ty as int, tw as int, th as int, |x: int, y: int| dc, ars@, lrs@, alrs as int, 1);
            }
        }
    }

    /// Predicts component `c_idx` of `tu` in planar mode into `tile_pred_pixels`:
    /// prepares the references from `tile_reconst_pixels`, fills the block with the
    /// planar interpolation and, where it applies, filters it position-dependently.
    /// The interpolation of a non-square block is carried in 16-bit signed
    /// arithmetic, so such a block is accepted only where its largest weighted sum,
    /// `511 * tw * th`, fits in an `i16`.
    pub fn predict_planar(
        &mut self,
        tu: &TransformUnit,
        c_idx: usize,
        ref_idx: usize,
        tile_pred_pixels: &mut Vec2d<u8>,
        tile_reconst_pixels: &Vec2d<u8>,
        is_above_right_available: bool,
        is_below_left_available: bool,
        geometry: PictureGeometry,
        ectx: &EncoderContext,
    )
        requires
            prediction_ok(*tu, c_idx, ref_idx, *old(tile_pred_pixels), *tile_reconst_pixels, is_above_right_available, is_below_left_available, *ectx, geometry),
            ({
                let (tw, th) = tu_comp_size(*tu, c_idx);
                tw == th || 511 * tw * th <= 32767
            }),
        ensures
            planar_predicted(*old(self), *final(self), *old(tile_pred_pixels), *final(tile_pred_pixels), *tu, c_idx, ref_idx, *tile_reconst_pixels, is_above_right_available, is_below_left_available, *ectx, geometry),
    {
        self.set_left_and_above_ref_samples(
            tu,
            c_idx,
            ref_idx,
            tile_reconst_pixels,
            is_above_right_available,
            is_below_left_available,
            geometry,
            ectx,
        );
        let (tw, th) = tu.get_component_size(c_idx);
        let (tx, ty) = tu.get_component_pos(c_idx);
        let ghost p0 = *tile_pred_pixels;
        let lrs = &self.left_ref_filtered_samples[ref_idx + 1..ref_idx + 2 + th];
        let ars = &self.above_ref_filtered_samples[ref_idx..ref_idx + tw + 1];
        let alrs = self.left_ref_filtered_samples[0];
        proof {
            assert(lrs@ == self.left_ref_filtered_samples@.subrange(ref_idx + 1, ref_idx + 2 + th));
            assert(ars@ == self.above_ref_filtered_samples@.subrange(ref_idx as int, ref_idx + tw + 1));
        }
        self.planar_block(ars, lrs, tw, th, tx, ty, tile_pred_pixels);
        let ghost p1 = *tile_pred_pixels;
        if tw >= 4 && th >= 4 && ref_idx == 0 && !tu.cu_bdpcm_flag[c_idx] {
            self.pdpc_block(ars, lrs, alrs, 0, tw, th, tx, ty, tile_pred_pixels);
            proof {
                lemma_write_then_filter(
                    p0,
                    p1,
                    *tile_pred_pixels,
                    tx as int,
                    ty as int,
                    tw as int,
                    th as int,
                    |x: int, y: int| planar_value(ars@, lrs@, tw as int, th as int, x, y) as u8,
                    ars@,
                    lrs@,
                    alrs as int,
                    0,
                );
            }
        }
    }
}

/// Every filtered reference sample of `ip` is an 8-bit value.
pub open spec fn filtered_8bit(ip: IntraPredictor) -> bool {
    &&& forall|i: int| 0 <= i < 130 ==> 0 <= #[trigger] ip.left_ref_filtered_samples@[i] <= 255
    &&& forall|i: int| 0 <= i < 129 ==> 0 <= #[trigger] ip.above_ref_filtered_samples@[i] <= 255
}

/// Preparing the references keeps every filtered sample 8-bit.
pub proof fn lemma_prepared_8bit(
    old: IntraPredictor,
    new: IntraPredictor,
    tu: TransformUnit,
    c_idx: usize,
    ref_idx: usize,
    p: Vec2d<u8>,
    ar: bool,
    bl: bool,
    e: EncoderContext,
    g: PictureGeometry,
)
    requires
        filtered_8bit(old),
        refs_prepared(old, new, tu, c_idx, ref_idx, p, ar, bl, e, g),
    ensures
        filtered_8bit(new),
{
    let (rw, rh) = ref_dims(tu, c_idx);
    let nl = rh + ref_idx + 1;
    let na = rw + ref_idx;
    assert forall|i: int| 0 <= i < 130 implies 0 <= #[trigger] new.left_ref_filtered_samples@[i] <= 255 by {
        if i >= nl {
            assert(new.left_ref_filtered_samples@[i] == old.left_ref_filtered_samples@[i]);
        }
    }
    assert forall|i: int| 0 <= i < 129 implies 0 <= #[trigger] new.above_ref_filtered_samples@[i] <= 255 by {
        if i >= na {
            assert(new.above_ref_filtered_samples@[i] == old.above_ref_filtered_samples@[i]);
        }
    }
}

/// The mode of component `c_idx` of `tu` after the wide-angle mapping.
pub open spec fn tu_wide_mode(tu: TransformUnit, c_idx: usize) -> int {
    let (tw, th) = tu_comp_size(tu, c_idx);
    let (nw, nh) = if !tu.cu_intra_subpartitions_mode_flag {
        (tw, th)
    } else {
        (tu.cu_size[c_idx as int].0 as int, tu.cu_size[c_idx as int].1 as int)
    };
    wide_angle(tu.cu_intra_pred_mode[c_idx as int].spec_value() as int, nw, nh)
}

/// The position-dependent filter follows an angular prediction in mode `mode`.
pub open spec fn angular_pdpc_applies(tw: int, th: int, ref_idx: int, bdpcm_flag: bool, mode: int) -> bool {
    pdpc_applies(tw, th, ref_idx, bdpcm_flag) && (mode <= 18 || 50 <= mode < 81)
}

/// The conditions under which component `c_idx` of `tu` can be predicted in its
/// angular mode, `isp_split` telling whether the block is an intra sub-partition,
/// once the references are prepared in `ip`.
pub open spec fn angular_ok(tu: TransformUnit, c_idx: usize, ref_idx: usize, isp_split: bool, ip: IntraPredictor) -> bool {
    let (tw, th) = tu_comp_size(tu, c_idx);
    let (rw, rh) = ref_dims(tu, c_idx);
    let mode = tu_wide_mode(tu, c_idx);
    let angle = intra_pred_angle(mode);
    let a = ip.above_ref_filtered_samples@.subrange(ref_idx as int, 129);
    let l = ip.left_ref_filtered_samples@.subrange(ref_idx + 1, 130);
    &&& angular_sizes_ok(ref_idx as int, tw, th, rw, rh)
    &&& refs_readable(130, 129, mode >= 34, angle, ref_idx as int, tw, th, rw, rh)
    &&& taps_ok(refs_len(mode >= 34, angle, ref_idx as int, tw, th, rw, rh), mode >= 34, angle, ref_idx as int, c_idx == 0, tw, th)
    &&& angular_pdpc_applies(tw, th, ref_idx as int, tu.cu_bdpcm_flag[c_idx as int], mode) && (2 <= mode <= 17 || 51 <= mode)
        ==> tw == th && pdpc_angular_reads_ok(a, l, mode, tw)
}

impl IntraPredictor {
    /// Predicts component `c_idx` of `tu` in its angular mode into `tile_pred_pixels`:
    /// maps the mode to a wide angle on a non-square block, prepares the references
    /// from `tile_reconst_pixels`, interpolates along the direction and, where it
    /// applies, filters the block position-dependently. `isp_split` tells whether the
    /// block is an intra sub-partition.
    pub fn predict_angular(
        &mut self,
        tu: &TransformUnit,
        c_idx: usize,
        ref_idx: usize,
        tile_pred_pixels: &mut Vec2d<u8>,
        tile_reconst_pixels: &Vec2d<u8>,
        is_above_right_available: bool,
        is_below_left_available: bool,
        isp_split: bool,
        geometry: PictureGeometry,
        ectx: &EncoderContext,
    )
        requires
            angular_predict_ok(*old(self), *old(tile_pred_pixels), *tu, c_idx, ref_idx, *tile_reconst_pixels, is_above_right_available, is_below_left_available, *ectx, geometry, isp_split),
        ensures
            angular_predicted(*old(self), *final(self), *old(tile_pred_pixels), *final(tile_pred_pixels), *tu, c_idx, ref_idx, *tile_reconst_pixels, is_above_right_available, is_below_left_available, *ectx, geometry, isp_split),
    {
        let (tw, th) = tu.get_component_size(c_idx);
        let (tx, ty) = tu.get_component_pos(c_idx);
        let (nw, nh) = if !tu.cu_intra_subpartitions_mode_flag {
            (tw, th)
        } else {
            tu.cu_size[c_idx]
        };
        let mode = wide_angle_mode(tu.cu_intra_pred_mode[c_idx].value(), nw, nh);
        let ghost old_self = *self;
        self.set_left_and_above_ref_samples(
            tu,
            c_idx,
            ref_idx,
            tile_reconst_pixels,
            is_above_right_available,
            is_below_left_available,
            geometry,
            ectx,
        );
        proof {
            lemma_prepared_8bit(old_self, *self, *tu, c_idx, ref_idx, *tile_reconst_pixels, is_above_right_available, is_below_left_available, *ectx, geometry);
            assert(angular_ok(*tu, c_idx, ref_idx, isp_split, *self));
        }
        let isp = tu.cu_intra_subpartitions_mode_flag;
        let (n_cb_w, n_cb_h) = tu.cu_size[c_idx];
        let (ref_w, ref_h) = if !isp || c_idx != 0 {
            (tw * 2, th * 2)
        } else {
            (n_cb_w + tw, n_cb_h + th)
        };
        let smooth = angular_filter_flag(mode, ref_idx, isp_split, tw, th);
        let ghost p0 = *tile_pred_pixels;
        self.angular_block(
            &self.left_ref_filtered_samples,
            &self.above_ref_filtered_samples,
            mode,
            c_idx,
            ref_idx,
            ref_w,
            ref_h,
            smooth,
            tw,
            th,
            tx,
            ty,
            tile_pred_pixels,
        );
        let ghost p1 = *tile_pred_pixels;
        if tw >= 4 && th >= 4 && ref_idx == 0 && !tu.cu_bdpcm_flag[c_idx] && (mode <= 18 || (mode >= 50 && mode < 81)) {
            let ars = &self.above_ref_filtered_samples[ref_idx..129];
            let lrs = &self.left_ref_filtered_samples[ref_idx + 1..130];
            let alrs = self.left_ref_filtered_samples[0];
            proof {
                assert(ars@ == self.above_ref_filtered_samples@.subrange(ref_idx as int, 129));
                assert(lrs@ == self.left_ref_filtered_samples@.subrange(ref_idx + 1, 130));
            }
            if (2 <= mode && mode <= 17) || 51 <= mode {
                self.pdpc_angular_block(ars, lrs, mode, tw, tx, ty, tile_pred_pixels);
                proof {
                    let ghost f = |x: int, y: int| angular_value(
                        angular_refs(self.left_ref_filtered_samples@, self.above_ref_filtered_samples@, mode >= 34, intra_pred_angle(mode as int), ref_idx as int, tw as int, th as int, ref_w as int, ref_h as int),
                        mode >= 34, intra_pred_angle(mode as int), ref_idx as int, c_idx == 0, smooth, x, y) as u8;
                    lemma_write_then_filter_angular(p0, p1, *tile_pred_pixels, tx as int, ty as int, tw as int, f, ars@, lrs@, mode as int);
                }
            } else {
                let m: isize = if mode < 2 { 0 } else { mode };
                proof {
                    assert forall|i: int| 0 <= i < tw implies 0 <= #[trigger] ars@[i] <= 255 by {
                        assert(ars@[i] == self.above_ref_filtered_samples@[i]);
                    }
                    assert forall|i: int| 0 <= i < th implies 0 <= #[trigger] lrs@[i] <= 255 by {
                        assert(lrs@[i] == self.left_ref_filtered_samples@[i + 1]);
                    }
                }
                self.pdpc_block(ars, lrs, alrs, m, tw, th, tx, ty, tile_pred_pixels);
                proof {
                    let ghost f = |x: int, y: int| angular_value(
                        angular_refs(self.left_ref_filtered_samples@, self.above_ref_filtered_samples@, mode >= 34, intra_pred_angle(mode as int), ref_idx as int, tw as int, th as int, ref_w as int, ref_h as int),
                        mode >= 34, intra_pred_angle(mode as int), ref_idx as int, c_idx == 0, smooth, x, y) as u8;
                    lemma_write_then_filter(p0, p1, *tile_pred_pixels, tx as int, ty as int, tw as int, th as int, f, ars@, lrs@, alrs as int, m as int);
                }
            }
        }
    }
}

/// Filtering a square block just written gives the angular-filtered values of what
/// was written.
proof fn lemma_write_then_filter_angular(
    p0: Vec2d<u8>,
    p1: Vec2d<u8>,
    p2: Vec2d<u8>,
    tx: int,
    ty: int,
    side: int,
    f: spec_fn(int, int) -> u8,
    a: Seq<i16>,
    l: Seq<i16>,
    mode: int,
)
    requires
        block_written(p0, p1, tx, ty, side, side, f),
        block_angular_filtered(p1, p2, tx, ty, side, a, l, mode),
    ensures
        block_written(p0, p2, tx, ty, side, side, |x: int, y: int| pdpc_angular_value(f(x, y) as int, a, l, mode, pdpc_angular_scale(mode, side), x, y) as u8),
{
    let g = |x: int, y: int| pdpc_angular_value(f(x, y) as int, a, l, mode, pdpc_angular_scale(mode, side), x, y) as u8;
    assert forall|r: int, k: int| 0 <= r < p2.height && 0 <= k < p2.width implies #[trigger] p2.at(r, k) == if ty <= r < ty
        + side && tx <= k < tx + side {
        g(k - tx, r - ty)
    } else {
        p0.at(r, k)
    } by {
        assert(p1.at(r, k) == if ty <= r < ty + side && tx <= k < tx + side {
            f(k - tx, r - ty)
        } else {
            p0.at(r, k)
        });
    }
}

/// The block of `new` at (ox, oy) holds the residuals of the `tw` by `th` block at
/// (tx, ty): the source picture's samples less the predicted ones; `new` is `old` elsewhere.
pub open spec fn residual_written(
    old: Vec2d<i16>,
    new: Vec2d<i16>,
    ox: int,
    oy: int,
    tw: int,
    th: int,
    source: Vec2d<u8>,
    pred: Vec2d<u8>,
    tx: int,
    ty: int,
) -> bool {
    &&& new.wf()
    &&& new.width == old.width && new.height == old.height && new.log2_stride == old.log2_stride
    &&& forall|r: int, c: int|
        0 <= r < new.height && 0 <= c < new.width ==> #[trigger] new.at(r, c) == if oy <= r < oy + th && ox <= c < ox + tw {
            (source.at(ty + r - oy, tx + c - ox) - pred.at(ty + r - oy, tx + c - ox)) as i16
        } else {
            old.at(r, c)
        }
}

/// The `tw` by `th` block at (x, y) lies inside the residual plane `p`.
pub open spec fn residual_block_inside(p: Vec2d<i16>, x: int, y: int, tw: int, th: int) -> bool {
    &&& p.wf()
    &&& 0 <= x && x + tw <= p.width
    &&& 0 <= y && y + th <= p.height
}

/// The reference line that component `c_idx` of `tu` is predicted from.
pub open spec fn pred_ref_idx(tu: TransformUnit, c_idx: usize) -> usize {
    if c_idx == 0 { tu.cu_intra_luma_ref_idx } else { 0 }
}

impl IntraPredictor {
    /// Predicts component `c_idx` of `tu` in its mode (planar, DC or angular) into
    /// `tile_pred_pixels`, and writes the residuals, the source picture's samples less the
    /// predicted ones, into the unit's block `residuals` and at the block's place in
    /// `residual_pixels`.
    pub fn predict(
        &mut self,
        tu: &TransformUnit,
        c_idx: usize,
        tile_pred_pixels: &mut Vec2d<u8>,
        tile_reconst_pixels: &Vec2d<u8>,
        source_pixels: &Vec2d<u8>,
        residual_pixels: &mut Vec2d<i16>,
        residuals: &mut Vec2d<i16>,
        is_above_right_available: bool,
        is_below_left_available: bool,
        isp_split: bool,
        geometry: PictureGeometry,
        ectx: &EncoderContext,
    )
        requires
            c_idx < 3,
            ({
                let m = tu.cu_intra_pred_mode[c_idx as int].spec_value();
                let ref_idx = pred_ref_idx(*tu, c_idx);
                let (tw, th) = tu_comp_size(*tu, c_idx);
                let (tx, ty) = tu_comp_pos(*tu, c_idx);
                &&& m == 0 ==> prediction_ok(*tu, c_idx, ref_idx, *old(tile_pred_pixels), *tile_reconst_pixels, is_above_right_available, is_below_left_available, *ectx, geometry)
                    && (tw == th || 511 * tw * th <= 32767)
                &&& m == 1 ==> prediction_ok(*tu, c_idx, ref_idx, *old(tile_pred_pixels), *tile_reconst_pixels, is_above_right_available, is_below_left_available, *ectx, geometry)
                &&& m >= 2 ==> angular_predict_ok(*old(self), *old(tile_pred_pixels), *tu, c_idx, ref_idx, *tile_reconst_pixels, is_above_right_available, is_below_left_available, *ectx, geometry, isp_split)
                &&& block_inside(*source_pixels, tx as usize, ty as usize, tw as usize, th as usize)
                &&& residual_block_inside(*old(residual_pixels), tx, ty, tw, th)
                &&& residual_block_inside(*old(residuals), 0, 0, tw, th)
            }),
        ensures
            ({
                let m = tu.cu_intra_pred_mode[c_idx as int].spec_value();
                let ref_idx = pred_ref_idx(*tu, c_idx);
                if m == 0 {
                    planar_predicted(*old(self), *final(self), *old(tile_pred_pixels), *final(tile_pred_pixels), *tu, c_idx, ref_idx, *tile_reconst_pixels, is_above_right_available, is_below_left_available, *ectx, geometry)
                } else if m == 1 {
                    dc_predicted(*old(self), *final(self), *old(tile_pred_pixels), *final(tile_pred_pixels), *tu, c_idx, ref_idx, *tile_reconst_pixels, is_above_right_available, is_below_left_available, *ectx, geometry)
                } else {
                    angular_predicted(*old(self), *final(self), *old(tile_pred_pixels), *final(tile_pred_pixels), *tu, c_idx, ref_idx, *tile_reconst_pixels, is_above_right_available, is_below_left_available, *ectx, geometry, isp_split)
                }
            }),
            ({
                let (tw, th) = tu_comp_size(*tu, c_idx);
                let (tx, ty) = tu_comp_pos(*tu, c_idx);
                &&& residual_written(*old(residual_pixels), *final(residual_pixels), tx, ty, tw, th, *source_pixels, *final(tile_pred_pixels), tx, ty)
                &&& residual_written(*old(residuals), *final(residuals), 0, 0, tw, th, *source_pixels, *final(tile_pred_pixels), tx, ty)
            }),
    {
        let ref_idx = if c_idx == 0 { tu.cu_intra_luma_ref_idx } else { 0 };
        let m = tu.cu_intra_pred_mode[c_idx];
        let (tw, th) = tu.get_component_size(c_idx);
        let (tx, ty) = tu.get_component_pos(c_idx);
        let ghost pp0 = *tile_pred_pixels;
        match m {
            IntraPredMode::PLANAR => {
                self.predict_planar(tu, c_idx, ref_idx, tile_pred_pixels, tile_reconst_pixels, is_above_right_available, is_below_left_available, geometry, ectx);
            },
            IntraPredMode::DC => {
                self.predict_dc(tu, c_idx, ref_idx, tile_pred_pixels, tile_reconst_pixels, is_above_right_available, is_below_left_available, geometry, ectx);
            },
            _ => {
                self.predict_angular(tu, c_idx, ref_idx, tile_pred_pixels, tile_reconst_pixels, is_above_right_available, is_below_left_available, isp_split, geometry, ectx);
            },
        }
        proof {
            assert(tile_pred_pixels.wf() && tile_pred_pixels.width == pp0.width && tile_pred_pixels.height == pp0.height);
        }
        let ghost rp0 = *residual_pixels;
        let ghost rs0 = *residuals;
        let mut y: usize = 0;
        while y < th
            invariant
                y <= th,
                block_inside(*source_pixels, tx, ty, tw, th),
                block_inside(*tile_pred_pixels, tx, ty, tw, th),
                residual_block_inside(rp0, tx as int, ty as int, tw as int, th as int),
                residual_block_inside(rs0, 0, 0, tw as int, th as int),
                residual_written(rp0, *residual_pixels, tx as int, ty as int, tw as int, y as int, *source_pixels, *tile_pred_pixels, tx as int, ty as int),
                residual_written(rs0, *residuals, 0, 0, tw as int, y as int, *source_pixels, *tile_pred_pixels, tx as int, ty as int),
            decreases th - y,
        {
            let mut x: usize = 0;
            while x < tw
                invariant
                    x <= tw,
                    y < th,
                    block_inside(*source_pixels, tx, ty, tw, th),
                    block_inside(*tile_pred_pixels, tx, ty, tw, th),
                    residual_block_inside(rp0, tx as int, ty as int, tw as int, th as int),
                    residual_block_inside(rs0, 0, 0, tw as int, th as int),
                    residual_pixels.wf(),
                    residual_pixels.width == rp0.width && residual_pixels.height == rp0.height && residual_pixels.log2_stride == rp0.log2_stride,
                    residuals.wf(),
                    residuals.width == rs0.width && residuals.height == rs0.height && residuals.log2_stride == rs0.log2_stride,
                    forall|r: int, c: int|
                        0 <= r < residual_pixels.height && 0 <= c < residual_pixels.width ==> #[trigger] residual_pixels.at(r, c) == if (ty <= r < ty + y
                            && tx <= c < tx + tw) || (r == ty + y && tx <= c < tx + x) {
                            (source_pixels.at(r, c) - tile_pred_pixels.at(r, c)) as i16
                        } else {
                            rp0.at(r, c)
                        },
                    forall|r: int, c: int|
                        0 <= r < residuals.height && 0 <= c < residuals.width ==> #[trigger] residuals.at(r, c) == if (r < y
                            && c < tw) || (r == y && c < x) {
                            (source_pixels.at(ty + r, tx + c) - tile_pred_pixels.at(ty + r, tx + c)) as i16
                        } else {
                            rs0.at(r, c)
                        },
                decreases tw - x,
            {
                let o = source_pixels.get(ty + y, tx + x) as i16;
                let pv = tile_pred_pixels.get(ty + y, tx + x) as i16;
                let res = o - pv;
                let ghost b1 = *residual_pixels;
                residual_pixels.set(ty + y, tx + x, res);
                proof {
                    law_vec2d_read_after_write(b1, *residual_pixels, (ty + y) as int, (tx + x) as int, res);
                }
                let ghost b2 = *residuals;
                residuals.set(y, x, res);
                proof {
                    law_vec2d_read_after_write(b2, *residuals, y as int, x as int, res);
                }
                x += 1;
            }
            y += 1;
        }
    }
}

} // verus!
