//! Position-dependent prediction sample filtering: blending a predicted block with
//! its left and above references, with weights that fade away from the edges.
use crate::angular::{angle_of, clip_sample, intra_pred_angle, inv_angle, inv_angle_of, side_log2};
use crate::bits::{bit_length, ilog2};
use crate::common::{law_vec2d_read_after_write, Vec2d};
use crate::intra_predictor::{block_inside, samples_ok, IntraPredictor};
use vstd::prelude::*;

verus! {

/// The weight scale of a `tw` by `th` block for the planar, DC, horizontal and
/// vertical modes.
pub open spec fn pdpc_scale(tw: int, th: int) -> int {
    (side_log2(tw) + side_log2(th) - 2) / 4
}

/// The weight of the references at distance `i` from the block's edge at scale `n`:
/// 32, halved every half sample, every sample or every second sample for scale 0, 1
/// or 2, and 0 from the sixth halving on.
pub open spec fn pdpc_weight(n: int, i: int) -> int {
    let k = (2 * i) / (if n == 0 { 1 } else if n == 1 { 2 } else { 4 });
    if k == 0 {
        32
    } else if k == 1 {
        16
    } else if k == 2 {
        8
    } else if k == 3 {
        4
    } else if k == 4 {
        2
    } else if k == 5 {
        1
    } else {
        0
    }
}

/// The filtered sample at (x, y) of a block predicted in mode `mode` (planar 0, DC 1,
/// horizontal 18 or vertical 50) whose prediction there is `p`, from the above
/// references `a`, the left ones `l` and the corner `c`.
pub open spec fn pdpc_value(p: int, a: Seq<i16>, l: Seq<i16>, c: int, mode: int, n: int, x: int, y: int) -> int {
    let (ref_l, ref_t, w_l, w_t) = if mode < 2 {
        (l[y] as int, a[x] as int, pdpc_weight(n, x), pdpc_weight(n, y))
    } else {
        (
            l[y] - c + p,
            a[x] - c + p,
            if mode == 50 { pdpc_weight(n, x) } else { 0 },
            if mode == 18 { pdpc_weight(n, y) } else { 0 },
        )
    };
    clip_sample(ref_l * w_l + ref_t * w_t + (64 - w_l - w_t) * p + 32)
}

/// Every element of `new` inside the `tw` by `th` block at (tx, ty) is the filtered
/// value of the element of `old` there; every other element is that of `old`.
pub open spec fn block_filtered(
    old: Vec2d<u8>,
    new: Vec2d<u8>,
    tx: int,
    ty: int,
    tw: int,
    th: int,
    a: Seq<i16>,
    l: Seq<i16>,
    c: int,
    mode: int,
) -> bool {
    &&& new.wf()
    &&& new.width == old.width && new.height == old.height && new.log2_stride == old.log2_stride
    &&& forall|r: int, k: int|
        0 <= r < new.height && 0 <= k < new.width ==> #[trigger] new.at(r, k) == if ty <= r < ty + th && tx <= k < tx
            + tw {
            pdpc_value(old.at(r, k) as int, a, l, c, mode, pdpc_scale(tw, th), k - tx, r - ty) as u8
        } else {
            old.at(r, k)
        }
}

/// The weight of distance `i` at scale `n`.
fn weight_of(n: i64, i: i64) -> (w: i64)
    requires
        0 <= n <= 2,
        0 <= i < 64,
    ensures
        w == pdpc_weight(n as int, i as int),
        0 <= w <= 32,
{
    let k = (2 * i) / (if n == 0 { 1 } else if n == 1 { 2 } else { 4 });
    if k == 0 {
        32
    } else if k == 1 {
        16
    } else if k == 2 {
        8
    } else if k == 3 {
        4
    } else if k == 4 {
        2
    } else if k == 5 {
        1
    } else {
        0
    }
}

impl IntraPredictor {
    /// Filters the `tw` by `th` block at (tx, ty) of `pred`, predicted in mode `mode`
    /// (planar 0, DC 1, horizontal 18 or vertical 50), with its above references
    /// `above`, its left ones `left` (below the corner) and the corner `corner`.
    pub fn pdpc_block(
        &self,
        above: &[i16],
        left: &[i16],
        corner: i16,
        mode: isize,
        tw: usize,
        th: usize,
        tx: usize,
        ty: usize,
        pred: &mut Vec2d<u8>,
    )
        requires
            mode == 0 || mode == 1 || mode == 18 || mode == 50,
            tw == 4 || tw == 8 || tw == 16 || tw == 32 || tw == 64,
            th == 4 || th == 8 || th == 16 || th == 32 || th == 64,
            samples_ok(above@, tw as int),
            samples_ok(left@, th as int),
            0 <= corner <= 255,
            block_inside(*old(pred), tx, ty, tw, th),
        ensures
            block_filtered(*old(pred), *final(pred), tx as int, ty as int, tw as int, th as int, above@, left@, corner as int, mode as int),
    {
        let ghost p0 = *pred;
        let lw = if tw <= 4 { 2 } else if tw <= 8 { 3 } else if tw <= 16 { 4 } else if tw <= 32 { 5 } else { 6 };
        let lh = if th <= 4 { 2 } else if th <= 8 { 3 } else if th <= 16 { 4 } else if th <= 32 { 5 } else { 6 };
        let n: i64 = (lw + lh - 2) / 4;
        proof {
            assert(n == pdpc_scale(tw as int, th as int));
        }
        let c = corner as i64;
        let mut y: usize = 0;
        while y < th
            invariant
                y <= th,
                th <= 64 && tw <= 64,
                0 <= n <= 2,
                n == pdpc_scale(tw as int, th as int),
                c == corner,
                0 <= corner <= 255,
                mode == 0 || mode == 1 || mode == 18 || mode == 50,
                samples_ok(above@, tw as int),
                samples_ok(left@, th as int),
                block_inside(p0, tx, ty, tw, th),
                forall|r: int, k: int|
                    0 <= r < pred.height && 0 <= k < pred.width ==> #[trigger] pred.at(r, k) == if ty <= r < ty + y && tx
                        <= k < tx + tw {
                        pdpc_value(p0.at(r, k) as int, above@, left@, c as int, mode as int, n as int, k - tx, r - ty) as u8
                    } else {
                        p0.at(r, k)
                    },
                pred.wf(),
                pred.width == p0.width && pred.height == p0.height && pred.log2_stride == p0.log2_stride,
            decreases th - y,
        {
            let mut x: usize = 0;
            while x < tw
                invariant
                    x <= tw,
                    y < th,
                    th <= 64 && tw <= 64,
                    0 <= n <= 2,
                    c == corner,
                    0 <= corner <= 255,
                    mode == 0 || mode == 1 || mode == 18 || mode == 50,
                    samples_ok(above@, tw as int),
                    samples_ok(left@, th as int),
                    block_inside(p0, tx, ty, tw, th),
                    forall|r: int, k: int|
                        0 <= r < pred.height && 0 <= k < pred.width ==> #[trigger] pred.at(r, k) == if (ty <= r < ty + y
                            && tx <= k < tx + tw) || (r == ty + y && tx <= k < tx + x) {
                            pdpc_value(p0.at(r, k) as int, above@, left@, c as int, mode as int, n as int, k - tx, r - ty) as u8
                        } else {
                            p0.at(r, k)
                        },
                    pred.wf(),
                    pred.width == p0.width && pred.height == p0.height && pred.log2_stride == p0.log2_stride,
                decreases tw - x,
            {
                let p = pred.get(ty + y, tx + x) as i64;
                let a = above[x] as i64;
                let l = left[y] as i64;
                let wx = weight_of(n, x as i64);
                let wy = weight_of(n, y as i64);
                let (ref_l, ref_t, w_l, w_t): (i64, i64, i64, i64) = if mode < 2 {
                    (l, a, wx, wy)
                } else {
                    (l - c + p, a - c + p, if mode == 50 { wx } else { 0 }, if mode == 18 { wy } else { 0 })
                };
                proof {
                    assert(-255 * 32 <= ref_l * w_l <= 510 * 32) by (nonlinear_arith)
                        requires -255 <= ref_l <= 510, 0 <= w_l <= 32;
                    assert(-255 * 32 <= ref_t * w_t <= 510 * 32) by (nonlinear_arith)
                        requires -255 <= ref_t <= 510, 0 <= w_t <= 32;
                    assert(0 <= (64 - w_l - w_t) * p <= 64 * 255) by (nonlinear_arith)
                        requires 0 <= w_l <= 32, 0 <= w_t <= 32, 0 <= p <= 255;
                }
                let v = ref_l * w_l + ref_t * w_t + (64 - w_l - w_t) * p + 32;
                let val: i64 = if v < 0 {
                    0
                } else {
                    let d = (v as u64 / 64) as i64;
                    if d > 255 {
                        255
                    } else {
                        d
                    }
                };
                proof {
                    assert(p == p0.at((ty + y) as int, (tx + x) as int));
                    assert(val == pdpc_value(p as int, above@, left@, c as int, mode as int, n as int, x as int, y as int));
                }
                let ghost before = *pred;
                pred.set(ty + y, tx + x, val as u8);
                proof {
                    law_vec2d_read_after_write(before, *pred, (ty + y) as int, (tx + x) as int, val as u8);
                }
                x += 1;
            }
            y += 1;
        }
    }
}

/// The number of lines the angular filter reaches at scale `n`: 3, 6 or 12.
pub open spec fn reach_of(n: int) -> int {
    if n == 0 { 3 } else if n == 1 { 6 } else { 12 }
}

/// The reference position that position `pos` of line `line` projects onto along
/// the inverse angle `inv`.
pub open spec fn proj_tap(pos: int, line: int, inv: int) -> int {
    pos + ((line + 1) * inv + 256) / 512
}

/// The weight scale of the filter for angular mode `mode` (2 to 17 or 51 to 80) on
/// a block side `side`: it shrinks as the inverse angle grows, negative when the
/// filter does not apply.
pub open spec fn pdpc_angular_scale(mode: int, side: int) -> int {
    let inv = inv_angle(intra_pred_angle(mode));
    let s = side_log2(side) - (bit_length((3 * inv - 2) as nat) - 1) + 8;
    if s < 2 { s } else { 2 }
}

/// The filtered sample at (x, y) of a block predicted in angular mode `mode` (2 to
/// 17 or 51 to 80) whose prediction there is `p`: for a mode near the horizontal the
/// above reference that the sample's line projects onto is blended in, for one near
/// the vertical the left reference, both only over the first `3 << n` lines.
pub open spec fn pdpc_angular_value(p: int, a: Seq<i16>, l: Seq<i16>, mode: int, n: int, x: int, y: int) -> int {
    let inv = inv_angle(intra_pred_angle(mode));
    if n < 0 {
        clip_sample(64 * p + 32)
    } else if mode < 18 {
        let w = pdpc_weight(n, y);
        let r = if y < reach_of(n) {
            a[proj_tap(x, y, inv)] as int
        } else {
            0
        };
        clip_sample(r * w + (64 - w) * p + 32)
    } else {
        let w = pdpc_weight(n, x);
        let r = if x < reach_of(n) {
            l[proj_tap(y, x, inv)] as int
        } else {
            0
        };
        clip_sample(r * w + (64 - w) * p + 32)
    }
}

/// The references that the angular filter of a `side` by `side` block reads exist
/// and are 8-bit samples.
pub open spec fn pdpc_angular_reads_ok(a: Seq<i16>, l: Seq<i16>, mode: int, side: int) -> bool {
    let inv = inv_angle(intra_pred_angle(mode));
    let n = pdpc_angular_scale(mode, side);
    &&& n >= 0 && mode < 18 ==> forall|x: int, y: int|
        0 <= x < side && 0 <= y < side && y < reach_of(n as int) ==> #[trigger] proj_tap(x, y, inv) < a.len()
    &&& n >= 0 && mode > 50 ==> forall|x: int, y: int|
        0 <= x < side && 0 <= y < side && x < reach_of(n as int) ==> #[trigger] proj_tap(y, x, inv) < l.len()
    &&& forall|i: int| 0 <= i < a.len() ==> 0 <= #[trigger] a[i] <= 255
    &&& forall|i: int| 0 <= i < l.len() ==> 0 <= #[trigger] l[i] <= 255
}

/// Every element of `new` inside the `side` by `side` block at (tx, ty) is the
/// angular-filtered value of the element of `old` there; every other element is
/// that of `old`.
pub open spec fn block_angular_filtered(
    old: Vec2d<u8>,
    new: Vec2d<u8>,
    tx: int,
    ty: int,
    side: int,
    a: Seq<i16>,
    l: Seq<i16>,
    mode: int,
) -> bool {
    &&& new.wf()
    &&& new.width == old.width && new.height == old.height && new.log2_stride == old.log2_stride
    &&& forall|r: int, k: int|
        0 <= r < new.height && 0 <= k < new.width ==> #[trigger] new.at(r, k) == if ty <= r < ty + side && tx <= k < tx
            + side {
            pdpc_angular_value(old.at(r, k) as int, a, l, mode, pdpc_angular_scale(mode, side), k - tx, r - ty) as u8
        } else {
            old.at(r, k)
        }
}

/// The projected offset `((line + 1) * inv + 256) / 512`.
fn projected_offset(line: i64, inv: i64) -> (d: i64)
    requires
        0 <= line < 64,
        32 <= inv <= 16384,
    ensures
        d == ((line + 1) * inv + 256) / 512,
        0 <= d <= 2100,
{
    proof {
        assert(0 <= (line + 1) * inv <= 64 * 16384) by (nonlinear_arith)
            requires 0 <= line < 64, 32 <= inv <= 16384;
    }
    (((line + 1) * inv + 256) as u64 / 512) as i64
}

impl IntraPredictor {
    /// Filters the `side` by `side` block at (tx, ty) of `pred`, predicted in angular
    /// mode `mode` (2 to 17 or 51 to 80), with its above references `above` and its
    /// left ones `left` (below the corner).
    pub fn pdpc_angular_block(
        &self,
        above: &[i16],
        left: &[i16],
        mode: isize,
        side: usize,
        tx: usize,
        ty: usize,
        pred: &mut Vec2d<u8>,
    )
        requires
            2 <= mode <= 17 || 51 <= mode <= 80,
            side == 4 || side == 8 || side == 16 || side == 32 || side == 64,
            pdpc_angular_reads_ok(above@, left@, mode as int, side as int),
            block_inside(*old(pred), tx, ty, side, side),
        ensures
            block_angular_filtered(*old(pred), *final(pred), tx as int, ty as int, side as int, above@, left@, mode as int),
    {
        let ghost p0 = *pred;
        let angle = angle_of(mode);
        let inv = inv_angle_of(angle);
        let lg: i64 = if side <= 4 { 2 } else if side <= 8 { 3 } else if side <= 16 { 4 } else if side <= 32 { 5 } else { 6 };
        let b = ilog2((3 * inv - 2) as usize) as i64;
        let s0 = lg - b + 8;
        let n: i64 = if s0 < 2 { s0 } else { 2 };
        proof {
            assert(angle > 0);
            assert(n == pdpc_angular_scale(mode as int, side as int));
        }
        let reach: i64 = if n == 0 { 3 } else if n == 1 { 6 } else { 12 };
        let mut y: usize = 0;
        while y < side
            invariant
                y <= side <= 64,
                2 <= mode <= 17 || 51 <= mode <= 80,
                32 <= inv <= 16384,
                inv == inv_angle(intra_pred_angle(mode as int)),
                n == pdpc_angular_scale(mode as int, side as int),
                n <= 2,
                reach == reach_of(n as int),
                pdpc_angular_reads_ok(above@, left@, mode as int, side as int),
                block_inside(p0, tx, ty, side, side),
                forall|r: int, k: int|
                    0 <= r < pred.height && 0 <= k < pred.width ==> #[trigger] pred.at(r, k) == if ty <= r < ty + y && tx
                        <= k < tx + side {
                        pdpc_angular_value(p0.at(r, k) as int, above@, left@, mode as int, n as int, k - tx, r - ty) as u8
                    } else {
                        p0.at(r, k)
                    },
                pred.wf(),
                pred.width == p0.width && pred.height == p0.height && pred.log2_stride == p0.log2_stride,
            decreases side - y,
        {
            let mut x: usize = 0;
            while x < side
                invariant
                    x <= side <= 64,
                    y < side,
                    2 <= mode <= 17 || 51 <= mode <= 80,
                    32 <= inv <= 16384,
                    inv == inv_angle(intra_pred_angle(mode as int)),
                    n == pdpc_angular_scale(mode as int, side as int),
                    n <= 2,
                    reach == reach_of(n as int),
                    pdpc_angular_reads_ok(above@, left@, mode as int, side as int),
                    block_inside(p0, tx, ty, side, side),
                    forall|r: int, k: int|
                        0 <= r < pred.height && 0 <= k < pred.width ==> #[trigger] pred.at(r, k) == if (ty <= r < ty + y
                            && tx <= k < tx + side) || (r == ty + y && tx <= k < tx + x) {
                            pdpc_angular_value(p0.at(r, k) as int, above@, left@, mode as int, n as int, k - tx, r - ty) as u8
                        } else {
                            p0.at(r, k)
                        },
                    pred.wf(),
                    pred.width == p0.width && pred.height == p0.height && pred.log2_stride == p0.log2_stride,
                decreases side - x,
            {
                let p = pred.get(ty + y, tx + x) as i64;
                let (r, w): (i64, i64) = if n < 0 {
                    (0, 0)
                } else if mode < 18 {
                    let w = weight_of(n, y as i64);
                    if (y as i64) < reach {
                        let d = projected_offset(y as i64, inv);
                        proof {
                            assert(proj_tap(x as int, y as int, inv as int) < above@.len());
                        }
                        (above[x + d as usize] as i64, w)
                    } else {
                        (0, w)
                    }
                } else {
                    let w = weight_of(n, x as i64);
                    if (x as i64) < reach {
                        let d = projected_offset(x as i64, inv);
                        proof {
                            assert(proj_tap(y as int, x as int, inv as int) < left@.len());
                        }
                        (left[y + d as usize] as i64, w)
                    } else {
                        (0, w)
                    }
                };
                proof {
                    assert(0 <= r <= 255);
                    assert(0 <= r * w <= 255 * 32) by (nonlinear_arith)
                        requires 0 <= r <= 255, 0 <= w <= 32;
                    assert(0 <= (64 - w) * p <= 64 * 255) by (nonlinear_arith)
                        requires 0 <= w <= 32, 0 <= p <= 255;
                }
                let v = r * w + (64 - w) * p + 32;
                let d = (v as u64 / 64) as i64;
                let val: i64 = if d > 255 { 255 } else { d };
                proof {
                    assert(p == p0.at((ty + y) as int, (tx + x) as int));
                    assert(val == pdpc_angular_value(p as int, above@, left@, mode as int, n as int, x as int, y as int));
                }
                let ghost before = *pred;
                pred.set(ty + y, tx + x, val as u8);
                proof {
                    law_vec2d_read_after_write(before, *pred, (ty + y) as int, (tx + x) as int, val as u8);
                }
                x += 1;
            }
            y += 1;
        }
    }
}

} // verus!
