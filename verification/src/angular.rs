//! Angular intra prediction: the wide-angle mode mapping, the reference array
//! projected along the prediction direction, and the interpolated prediction.
use crate::common::{law_vec2d_read_after_write, Vec2d};
use crate::intra_predictor::{block_inside, block_written, IntraPredictor};
use vstd::prelude::*;

verus! {

/// The prediction angle of the modes from -14 to 80, in 1/32 sample per line.
pub open spec fn angle_table() -> Seq<int> {
    seq![
        512, 341, 256, 171, 128, 102, 86, 73, 64, 57, 51, 45, 39, 35, 0, 0,
        32, 29, 26, 23, 20, 18, 16, 14, 12, 10, 8, 6, 4, 3, 2, 1,
        0, -1, -2, -3, -4, -6, -8, -10, -12, -14, -16, -18, -20, -23, -26, -29,
        -32, -29, -26, -23, -20, -18, -16, -14, -12, -10, -8, -6, -4, -3, -2, -1,
        0, 1, 2, 3, 4, 6, 8, 10, 12, 14, 16, 18, 20, 23, 26, 29,
        32, 35, 39, 45, 51, 57, 64, 73, 86, 102, 128, 171, 256, 341, 512,
    ]
}

/// `intraPredAngle` of mode `m` (-14 to 80).
pub open spec fn intra_pred_angle(m: int) -> int {
    angle_table()[m + 14]
}

/// The cubic interpolation filter of luma: four taps for each of the 32 fractions.
pub open spec fn cubic_table() -> Seq<int> {
    seq![
        0, 64, 0, 0, -1, 63, 2, 0, -2, 62, 4, 0, -2, 60, 7, -1,
        -2, 58, 10, -2, -3, 57, 12, -2, -4, 56, 14, -2, -4, 55, 15, -2,
        -4, 54, 16, -2, -5, 53, 18, -2, -6, 52, 20, -2, -6, 49, 24, -3,
        -6, 46, 28, -4, -5, 44, 29, -4, -4, 42, 30, -4, -4, 39, 33, -4,
        -4, 36, 36, -4, -4, 33, 39, -4, -4, 30, 42, -4, -4, 29, 44, -5,
        -4, 28, 46, -6, -3, 24, 49, -6, -2, 20, 52, -6, -2, 18, 53, -5,
        -2, 16, 54, -4, -2, 15, 55, -4, -2, 14, 56, -4, -2, 12, 57, -3,
        -2, 10, 58, -2, -1, 7, 60, -2, 0, 4, 62, -2, 0, 2, 63, -1,
    ]
}

/// Tap `i` of the luma interpolation filter at fraction `f` (0 to 31): the cubic
/// filter, or with `smooth` the Gaussian one.
pub open spec fn luma_coeff(smooth: bool, f: int, i: int) -> int {
    if smooth {
        if i == 0 {
            16 - f / 2
        } else if i == 1 {
            32 - f / 2
        } else if i == 2 {
            16 + f / 2
        } else {
            f / 2
        }
    } else {
        cubic_table()[4 * f + i]
    }
}

/// `intraPredAngle` of mode `m` (-14 to 80).
pub(crate) fn angle_of(m: isize) -> (r: i64)
    requires
        -14 <= m <= 80,
    ensures
        r == intra_pred_angle(m as int),
        -32 <= r <= 512,
{
    let t: [i64; 95] = [
        512, 341, 256, 171, 128, 102, 86, 73, 64, 57, 51, 45, 39, 35, 0, 0,
        32, 29, 26, 23, 20, 18, 16, 14, 12, 10, 8, 6, 4, 3, 2, 1,
        0, -1, -2, -3, -4, -6, -8, -10, -12, -14, -16, -18, -20, -23, -26, -29,
        -32, -29, -26, -23, -20, -18, -16, -14, -12, -10, -8, -6, -4, -3, -2, -1,
        0, 1, 2, 3, 4, 6, 8, 10, 12, 14, 16, 18, 20, 23, 26, 29,
        32, 35, 39, 45, 51, 57, 64, 73, 86, 102, 128, 171, 256, 341, 512,
    ];
    proof {
        assert(t@ =~= angle_table().map_values(|v: int| v as i64));
    }
    t[(m + 14) as usize]
}

/// The four taps of the luma filter at fraction `f`.
fn luma_coeffs(smooth: bool, f: i64) -> (r: (i64, i64, i64, i64))
    requires
        0 <= f < 32,
    ensures
        r.0 == luma_coeff(smooth, f as int, 0),
        r.1 == luma_coeff(smooth, f as int, 1),
        r.2 == luma_coeff(smooth, f as int, 2),
        r.3 == luma_coeff(smooth, f as int, 3),
        -64 <= r.0 <= 64 && -64 <= r.1 <= 64 && -64 <= r.2 <= 64 && -64 <= r.3 <= 64,
{
    if smooth {
        (16 - f / 2, 32 - f / 2, 16 + f / 2, f / 2)
    } else {
        let t: [i64; 128] = [
        0, 64, 0, 0, -1, 63, 2, 0, -2, 62, 4, 0, -2, 60, 7, -1,
        -2, 58, 10, -2, -3, 57, 12, -2, -4, 56, 14, -2, -4, 55, 15, -2,
        -4, 54, 16, -2, -5, 53, 18, -2, -6, 52, 20, -2, -6, 49, 24, -3,
        -6, 46, 28, -4, -5, 44, 29, -4, -4, 42, 30, -4, -4, 39, 33, -4,
        -4, 36, 36, -4, -4, 33, 39, -4, -4, 30, 42, -4, -4, 29, 44, -5,
        -4, 28, 46, -6, -3, 24, 49, -6, -2, 20, 52, -6, -2, 18, 53, -5,
        -2, 16, 54, -4, -2, 15, 55, -4, -2, 14, 56, -4, -2, 12, 57, -3,
        -2, 10, 58, -2, -1, 7, 60, -2, 0, 4, 62, -2, 0, 2, 63, -1,
        ];
        proof {
            assert(t@ =~= cubic_table().map_values(|v: int| v as i64));
        }
        let k = (4 * f) as usize;
        (t[k], t[k + 1], t[k + 2], t[k + 3])
    }
}

/// The base-2 logarithm of a block side (a power of two from 1 to 64).
pub open spec fn side_log2(n: int) -> int {
    if n <= 1 {
        0
    } else if n <= 2 {
        1
    } else if n <= 4 {
        2
    } else if n <= 8 {
        3
    } else if n <= 16 {
        4
    } else if n <= 32 {
        5
    } else {
        6
    }
}

/// The base-2 logarithm of a block side.
fn log2_side(n: usize) -> (r: usize)
    ensures
        r == side_log2(n as int),
{
    if n <= 1 {
        0
    } else if n <= 2 {
        1
    } else if n <= 4 {
        2
    } else if n <= 8 {
        3
    } else if n <= 16 {
        4
    } else if n <= 32 {
        5
    } else {
        6
    }
}

/// The wide-angle mapping of mode `mode` for an `nw` by `nh` block: on a wide block
/// the modes nearest the bottom-left diagonal move past mode 66, on a tall one those
/// nearest the top-right diagonal move below mode 2, the more the longer the block.
pub open spec fn wide_angle(mode: int, nw: int, nh: int) -> int {
    let lw = side_log2(nw);
    let lh = side_log2(nh);
    let ratio = if lw >= lh { lw - lh } else { lh - lw };
    if nw > nh && mode >= 2 && mode < (if ratio > 1 { 8 + 2 * ratio } else { 8 }) {
        mode + 65
    } else if nh > nw && mode <= 66 && mode > (if ratio > 1 { 60 - 2 * ratio } else { 60 }) {
        mode - 67
    } else {
        mode
    }
}

proof fn lemma_side_log2_of_pow2(k: nat)
    requires
        k <= 6,
    ensures
        side_log2(vstd::arithmetic::power2::pow2(k) as int) == k,
{
    vstd::arithmetic::power2::lemma2_to64();
}

/// On a block `2^lw` wide and `2^lh` high with ratio `r = |lw - lh|`: when wider
/// than high, exactly the modes from 2 below `8 + 2r` (below 8 for `r` 1) become
/// wide angles 65 higher; when higher than wide, exactly the modes above `60 - 2r`
/// (above 60 for `r` 1) up to 66 become wide angles 67 lower; every other mode, and
/// every mode of a square block, keeps its number.
pub proof fn law_wide_angles_replace_the_modes_beyond_the_block_diagonal(mode: int, lw: nat, lh: nat)
    requires
        lw <= 6,
        lh <= 6,
        0 <= mode <= 66,
    ensures
        ({
            let nw = vstd::arithmetic::power2::pow2(lw) as int;
            let nh = vstd::arithmetic::power2::pow2(lh) as int;
            &&& lw > lh ==> wide_angle(mode, nw, nh) == if 2 <= mode && mode < (if lw - lh >= 2 {
                8 + 2 * (lw - lh)
            } else {
                8
            }) {
                mode + 65
            } else {
                mode
            }
            &&& lh > lw ==> wide_angle(mode, nw, nh) == if mode > (if lh - lw >= 2 {
                60 - 2 * (lh - lw)
            } else {
                60
            }) {
                mode - 67
            } else {
                mode
            }
            &&& lw == lh ==> wide_angle(mode, nw, nh) == mode
        }),
{
    lemma_side_log2_of_pow2(lw);
    lemma_side_log2_of_pow2(lh);
    if lw > lh {
        vstd::arithmetic::power2::lemma_pow2_strictly_increases(lh, lw);
    }
    if lh > lw {
        vstd::arithmetic::power2::lemma_pow2_strictly_increases(lw, lh);
    }
}

/// The wide-angle intra prediction mode mapping of `mode` for an `nw` by `nh` block.
pub fn wide_angle_mode(mode: usize, nw: usize, nh: usize) -> (r: isize)
    requires
        mode <= 83,
    ensures
        r == wide_angle(mode as int, nw as int, nh as int),
{
    let lw = log2_side(nw);
    let lh = log2_side(nh);
    let ratio: isize = if lw >= lh {
        (lw - lh) as isize
    } else {
        (lh - lw) as isize
    };
    let m = mode as isize;
    if nw > nh && m >= 2 && m < (if ratio > 1 { 8 + 2 * ratio } else { 8 }) {
        m + 65
    } else if nh > nw && m <= 66 && m > (if ratio > 1 { 60 - 2 * ratio } else { 60 }) {
        m - 67
    } else {
        m
    }
}

/// The modes whose reference samples are smoothed beforehand: planar, the
/// diagonals and the wide angles at integer slopes.
pub open spec fn ref_smoothed_mode(m: int) -> bool {
    m == 0 || m == -14 || m == -12 || m == -10 || m == -6 || m == 2 || m == 34 || m == 66 || m == 72 || m == 76
        || m == 78 || m == 80
}

/// The least distance from the horizontal or vertical mode beyond which a block of
/// size class `s` (the mean base-2 logarithm of its sides, 2 to 6) interpolates
/// with the smoothing filter.
pub open spec fn hor_ver_threshold(s: int) -> int {
    if s == 2 {
        24
    } else if s == 3 {
        14
    } else if s == 4 {
        2
    } else {
        0
    }
}

/// The size class of a `tw` by `th` block: the mean base-2 logarithm of its sides.
pub open spec fn size_class(tw: int, th: int) -> int {
    (side_log2(tw) + side_log2(th)) / 2
}

/// Luma interpolation uses the smoothing filter: for a mode other than those
/// with smoothed references, on the nearest reference line, without intra
/// sub-partitions, and far enough from the horizontal and vertical modes.
pub open spec fn angular_smooth(mode: int, ref_idx: int, isp_split: bool, tw: int, th: int) -> bool {
    let d50 = if mode >= 50 { mode - 50 } else { 50 - mode };
    let d18 = if mode >= 18 { mode - 18 } else { 18 - mode };
    let d = if d50 <= d18 { d50 } else { d18 };
    !ref_smoothed_mode(mode) && ref_idx == 0 && !isp_split && d > hor_ver_threshold(size_class(tw, th))
}

/// Whether luma interpolation of `mode` uses the smoothing filter (`isp_split`: the
/// block is an intra sub-partition).
pub fn angular_filter_flag(mode: isize, ref_idx: usize, isp_split: bool, tw: usize, th: usize) -> (r: bool)
    requires
        -14 <= mode <= 83,
        ref_smoothed_mode(mode as int) || ref_idx != 0 || isp_split || 2 <= size_class(tw as int, th as int),
    ensures
        r == angular_smooth(mode as int, ref_idx as int, isp_split, tw as int, th as int),
{
    let ref_filter = mode == 0 || mode == -14 || mode == -12 || mode == -10 || mode == -6 || mode == 2 || mode == 34
        || mode == 66 || mode == 72 || mode == 76 || mode == 78 || mode == 80;
    if ref_filter || ref_idx != 0 || isp_split {
        false
    } else {
        let s = (log2_side(tw) + log2_side(th)) / 2;
        let d50 = if mode >= 50 { mode - 50 } else { 50 - mode };
        let d18 = if mode >= 18 { mode - 18 } else { 18 - mode };
        let d = if d50 <= d18 { d50 } else { d18 };
        let thres: isize = if s == 2 {
            24
        } else if s == 3 {
            14
        } else if s == 4 {
            2
        } else {
            0
        };
        d > thres
    }
}

/// The inverse angle of `angle` (in 1/32 sample per line), rounded, scaled by 2^14.
pub open spec fn inv_angle(angle: int) -> int {
    if angle > 0 {
        (16384 + angle / 2) / angle
    } else if angle < 0 {
        -((16384 + (-angle) / 2) / (-angle))
    } else {
        0
    }
}

pub(crate) fn inv_angle_of(angle: i64) -> (r: i64)
    requires
        -32 <= angle <= 512,
    ensures
        r == inv_angle(angle as int),
        angle < 0 ==> r <= -512,
        angle < 0 ==> r >= -16384,
        angle > 0 ==> 32 <= r <= 16384,
{
    if angle > 0 {
        let a = angle as u64;
        let q = (16384 + a / 2) / a;
        proof {
            assert(32 <= q <= 16384) by (nonlinear_arith)
                requires
                    1 <= a <= 512,
                    q as int == (16384 + a as int / 2) / a as int,
            ;
        }
        q as i64
    } else if angle < 0 {
        let a = (-angle) as u64;
        let q = (16384 + a / 2) / a;
        proof {
            assert(512 <= q <= 16384) by (nonlinear_arith)
                requires
                    1 <= a <= 32,
                    q as int == (16384 + a as int / 2) / a as int,
            ;
        }
        -(q as i64)
    } else {
        0
    }
}

/// `v` if positive, else 0.
pub open spec fn pos_part(v: int) -> int {
    if v > 0 { v } else { 0 }
}

/// The reference position that line `x` (negative) projects to along the inverse
/// angle `inv`, at most `n`.
pub open spec fn projected(x: int, inv: int, n: int) -> int {
    let v = (x * inv + 256) / 512;
    if v < n { v } else { n }
}

/// The length of the reference array of a `tw` by `th` block: the main references
/// and, for a negative angle, the side references projected onto its extension,
/// else the far references padded by repeating the last one.
pub open spec fn refs_len(vertical: bool, angle: int, ref_idx: int, tw: int, th: int, ref_w: int, ref_h: int) -> int {
    if vertical {
        if angle < 0 {
            tw + ref_idx + 2 + th
        } else {
            tw + ref_idx + 2 + pos_part(ref_w - tw - 2) + (if tw / th > 1 { tw / th } else { 1 }) * ref_idx + 3
        }
    } else {
        if angle < 0 {
            th + ref_idx + 2 + tw
        } else {
            th + ref_idx + 2 + pos_part(ref_h - th - 1) + (if th / tw > 1 { th / tw } else { 1 }) * ref_idx + 2
        }
    }
}

/// Element `k` of the reference array, from the left references `l` (the corner
/// first) and the above ones `a`. For a vertical mode: the corner, the above
/// references, then the projected left ones or the far above ones; for a
/// horizontal mode the same with left and above exchanged.
pub open spec fn ref_elem(
    l: Seq<i16>,
    a: Seq<i16>,
    vertical: bool,
    angle: int,
    ref_idx: int,
    tw: int,
    th: int,
    ref_w: int,
    ref_h: int,
    k: int,
) -> i16 {
    let inv = inv_angle(angle);
    if vertical {
        let base = tw + ref_idx + 2;
        if k == 0 {
            l[0]
        } else if k < base {
            a[k - 1]
        } else if angle < 0 {
            l[projected(k - base - th, inv, th)]
        } else if k < base + pos_part(ref_w - tw - 2) {
            a[k - 1]
        } else {
            a[ref_w + ref_idx - 1]
        }
    } else {
        let base = th + ref_idx + 2;
        if k < base {
            l[k]
        } else if angle < 0 {
            let j = projected(k - base - tw, inv, tw);
            if j == 0 {
                l[0]
            } else {
                a[j - 1]
            }
        } else if k < base + pos_part(ref_h - th - 1) {
            l[k]
        } else {
            l[ref_h + ref_idx]
        }
    }
}

/// The reference array of angular prediction.
pub open spec fn angular_refs(
    l: Seq<i16>,
    a: Seq<i16>,
    vertical: bool,
    angle: int,
    ref_idx: int,
    tw: int,
    th: int,
    ref_w: int,
    ref_h: int,
) -> Seq<i16> {
    Seq::new(
        refs_len(vertical, angle, ref_idx, tw, th, ref_w, ref_h) as nat,
        |k: int| ref_elem(l, a, vertical, angle, ref_idx, tw, th, ref_w, ref_h, k),
    )
}

/// The references that building the reference array reads exist: `ll` left and
/// `al` above ones.
pub open spec fn refs_readable(
    ll: int,
    al: int,
    vertical: bool,
    angle: int,
    ref_idx: int,
    tw: int,
    th: int,
    ref_w: int,
    ref_h: int,
) -> bool {
    if vertical {
        &&& tw + ref_idx < al
        &&& th < ll
        &&& angle >= 0 ==> 1 <= ref_w + ref_idx <= al
    } else {
        &&& th + ref_idx + 1 < ll
        &&& angle < 0 ==> tw <= al
        &&& angle >= 0 ==> ref_h + ref_idx < ll
    }
}

/// The sizes angular prediction handles.
pub open spec fn angular_sizes_ok(ref_idx: int, tw: int, th: int, ref_w: int, ref_h: int) -> bool {
    &&& 1 <= tw <= 64 && 1 <= th <= 64
    &&& 0 <= ref_idx <= 128
    &&& 0 <= ref_w <= 256 && 0 <= ref_h <= 256
}

/// Builds the reference array of angular prediction.
fn build_refs(
    left: &[i16],
    above: &[i16],
    vertical: bool,
    angle: i64,
    ref_idx: usize,
    tw: usize,
    th: usize,
    ref_w: usize,
    ref_h: usize,
) -> (r: Vec<i16>)
    requires
        -32 <= angle <= 512,
        angular_sizes_ok(ref_idx as int, tw as int, th as int, ref_w as int, ref_h as int),
        refs_readable(left@.len() as int, above@.len() as int, vertical, angle as int, ref_idx as int, tw as int, th as int, ref_w as int, ref_h as int),
    ensures
        r@ == angular_refs(left@, above@, vertical, angle as int, ref_idx as int, tw as int, th as int, ref_w as int, ref_h as int),
{
    let ghost (l, a) = (left@, above@);
    let ghost (ai, ri, twi, thi, rwi, rhi) = (angle as int, ref_idx as int, tw as int, th as int, ref_w as int, ref_h as int);
    let inv = inv_angle_of(angle);
    let mut r: Vec<i16> = Vec::new();
    if vertical {
        r.push(left[0]);
        let mut x: usize = 0;
        while x <= tw + ref_idx
            invariant
                x <= tw + ref_idx + 1,
                tw + ref_idx < above@.len(),
                r@.len() == x + 1,
                a == above@,
                l == left@,
                th < left@.len(),
                (ai, ri, twi, thi, rwi, rhi) == (angle as int, ref_idx as int, tw as int, th as int, ref_w as int, ref_h as int),
                angular_sizes_ok(ri, twi, thi, rwi, rhi),
                forall|k: int| 0 <= k < r@.len() ==> #[trigger] r@[k] == ref_elem(l, a, true, ai, ri, twi, thi, rwi, rhi, k),
            decreases tw + ref_idx + 1 - x,
        {
            r.push(above[x]);
            x += 1;
        }
        if angle < 0 {
            let mut x: i64 = -(th as i64);
            while x <= -1
                invariant
                    -(th as int) <= x <= 0,
                    1 <= th <= 64,
                    th < left@.len(),
                    -16384 <= inv <= -512,
                    inv == inv_angle(ai),
                    ai < 0,
                    r@.len() == twi + ri + 2 + thi + x,
                    a == above@,
                    l == left@,
                    (ai, ri, twi, thi, rwi, rhi) == (angle as int, ref_idx as int, tw as int, th as int, ref_w as int, ref_h as int),
                    angular_sizes_ok(ri, twi, thi, rwi, rhi),
                angular_sizes_ok(ri, twi, thi, rwi, rhi),
                    forall|k: int| 0 <= k < r@.len() ==> #[trigger] r@[k] == ref_elem(l, a, true, ai, ri, twi, thi, rwi, rhi, k),
                decreases -x,
            {
                proof {
                    assert(x * inv >= 0 && x * inv <= 64 * 16384) by (nonlinear_arith)
                        requires
                            -64 <= x <= -1,
                            -16384 <= inv <= -512,
                    ;
                }
                let v = ((x * inv + 256) as u64 / 512) as usize;
                let j = if v < th { v } else { th };
                r.push(left[j]);
                x += 1;
            }
        } else {
            let mut x: usize = tw + 2 + ref_idx;
            while x < ref_w + ref_idx
                invariant
                    tw + 2 + ref_idx <= x,
                    x <= ref_w + ref_idx || ref_w + ref_idx < tw + 2 + ref_idx,
                    ref_w + ref_idx < tw + 2 + ref_idx ==> x == tw + 2 + ref_idx,
                    ref_w + ref_idx <= above@.len(),
                    r@.len() == x,
                    ai >= 0,
                    a == above@,
                    l == left@,
                    (ai, ri, twi, thi, rwi, rhi) == (angle as int, ref_idx as int, tw as int, th as int, ref_w as int, ref_h as int),
                    angular_sizes_ok(ri, twi, thi, rwi, rhi),
                angular_sizes_ok(ri, twi, thi, rwi, rhi),
                    forall|k: int| 0 <= k < r@.len() ==> #[trigger] r@[k] == ref_elem(l, a, true, ai, ri, twi, thi, rwi, rhi, k),
                decreases ref_w + ref_idx - x,
            {
                r.push(above[x - 1]);
                x += 1;
            }
            let q = tw / th;
            proof {
                assert((if q > 1 { q } else { 1 }) * ref_idx <= 64 * 128) by (nonlinear_arith)
                    requires
                        q <= 64,
                        ref_idx <= 128,
                ;
            }
            let rep = (if q > 1 { q } else { 1 }) * ref_idx + 3;
            let last = above[ref_w + ref_idx - 1];
            let start = r.len();
            let mut c: usize = 0;
            while c < rep
                invariant
                    c <= rep,
                    rep == (if twi / thi > 1 { twi / thi } else { 1 }) * ri + 3,
                    start == twi + ri + 2 + pos_part(rwi - twi - 2),
                    r@.len() == start + c,
                    1 <= ref_w + ref_idx <= above@.len(),
                    last == above@[ref_w + ref_idx - 1],
                    ai >= 0,
                    a == above@,
                    l == left@,
                    (ai, ri, twi, thi, rwi, rhi) == (angle as int, ref_idx as int, tw as int, th as int, ref_w as int, ref_h as int),
                    angular_sizes_ok(ri, twi, thi, rwi, rhi),
                angular_sizes_ok(ri, twi, thi, rwi, rhi),
                    forall|k: int| 0 <= k < r@.len() ==> #[trigger] r@[k] == ref_elem(l, a, true, ai, ri, twi, thi, rwi, rhi, k),
                decreases rep - c,
            {
                r.push(last);
                c += 1;
            }
        }
    } else {
        let mut x: usize = 0;
        while x <= th + ref_idx + 1
            invariant
                x <= th + ref_idx + 2,
                th + ref_idx + 1 < left@.len(),
                r@.len() == x,
                a == above@,
                l == left@,
                (ai, ri, twi, thi, rwi, rhi) == (angle as int, ref_idx as int, tw as int, th as int, ref_w as int, ref_h as int),
                angular_sizes_ok(ri, twi, thi, rwi, rhi),
                forall|k: int| 0 <= k < r@.len() ==> #[trigger] r@[k] == ref_elem(l, a, false, ai, ri, twi, thi, rwi, rhi, k),
            decreases th + ref_idx + 2 - x,
        {
            r.push(left[x]);
            x += 1;
        }
        if angle < 0 {
            let mut x: i64 = -(tw as i64);
            while x <= -1
                invariant
                    -(tw as int) <= x <= 0,
                    1 <= tw <= 64,
                    tw <= above@.len(),
                    1 <= left@.len(),
                    -16384 <= inv <= -512,
                    inv == inv_angle(ai),
                    ai < 0,
                    r@.len() == thi + ri + 2 + twi + x,
                    a == above@,
                    l == left@,
                    (ai, ri, twi, thi, rwi, rhi) == (angle as int, ref_idx as int, tw as int, th as int, ref_w as int, ref_h as int),
                    angular_sizes_ok(ri, twi, thi, rwi, rhi),
                angular_sizes_ok(ri, twi, thi, rwi, rhi),
                    forall|k: int| 0 <= k < r@.len() ==> #[trigger] r@[k] == ref_elem(l, a, false, ai, ri, twi, thi, rwi, rhi, k),
                decreases -x,
            {
                proof {
                    assert(x * inv >= 0 && x * inv <= 64 * 16384) by (nonlinear_arith)
                        requires
                            -64 <= x <= -1,
                            -16384 <= inv <= -512,
                    ;
                }
                let v = ((x * inv + 256) as u64 / 512) as usize;
                let j = if v < tw { v } else { tw };
                if j == 0 {
                    r.push(left[0]);
                } else {
                    r.push(above[j - 1]);
                }
                x += 1;
            }
        } else {
            let mut x: usize = th + 2 + ref_idx;
            while x <= ref_h + ref_idx
                invariant
                    th + 2 + ref_idx <= x,
                    x <= ref_h + ref_idx + 1 || ref_h + ref_idx + 1 < th + 2 + ref_idx,
                    ref_h + ref_idx + 1 < th + 2 + ref_idx ==> x == th + 2 + ref_idx,
                    ref_h + ref_idx < left@.len(),
                    r@.len() == x,
                    ai >= 0,
                    a == above@,
                    l == left@,
                    (ai, ri, twi, thi, rwi, rhi) == (angle as int, ref_idx as int, tw as int, th as int, ref_w as int, ref_h as int),
                    angular_sizes_ok(ri, twi, thi, rwi, rhi),
                angular_sizes_ok(ri, twi, thi, rwi, rhi),
                    forall|k: int| 0 <= k < r@.len() ==> #[trigger] r@[k] == ref_elem(l, a, false, ai, ri, twi, thi, rwi, rhi, k),
                decreases ref_h + ref_idx + 1 - x,
            {
                r.push(left[x]);
                x += 1;
            }
            let q = th / tw;
            proof {
                assert((if q > 1 { q } else { 1 }) * ref_idx <= 64 * 128) by (nonlinear_arith)
                    requires
                        q <= 64,
                        ref_idx <= 128,
                ;
            }
            let rep = (if q > 1 { q } else { 1 }) * ref_idx + 2;
            let last = left[ref_h + ref_idx];
            let start = r.len();
            let mut c: usize = 0;
            while c < rep
                invariant
                    c <= rep,
                    rep == (if thi / twi > 1 { thi / twi } else { 1 }) * ri + 2,
                    start == thi + ri + 2 + pos_part(rhi - thi - 1),
                    r@.len() == start + c,
                    ref_h + ref_idx < left@.len(),
                    last == left@[ref_h + ref_idx],
                    ai >= 0,
                    a == above@,
                    l == left@,
                    (ai, ri, twi, thi, rwi, rhi) == (angle as int, ref_idx as int, tw as int, th as int, ref_w as int, ref_h as int),
                    angular_sizes_ok(ri, twi, thi, rwi, rhi),
                angular_sizes_ok(ri, twi, thi, rwi, rhi),
                    forall|k: int| 0 <= k < r@.len() ==> #[trigger] r@[k] == ref_elem(l, a, false, ai, ri, twi, thi, rwi, rhi, k),
                decreases rep - c,
            {
                r.push(last);
                c += 1;
            }
        }
    }
    proof {
        assert(r@ =~= angular_refs(l, a, vertical, ai, ri, twi, thi, rwi, rhi));
    }
    r
}

/// Element `idx` of the reference array `r`, a negative index counting from its end.
pub open spec fn tap(r: Seq<i16>, idx: int) -> int {
    if idx < 0 {
        r[r.len() + idx] as int
    } else {
        r[idx] as int
    }
}

/// A filtered luma sum `v` (with its rounding offset) scaled down to a sample and
/// clipped to 0..255.
pub open spec fn clip_sample(v: int) -> int {
    if v < 0 {
        0
    } else if v / 64 > 255 {
        255
    } else {
        v / 64
    }
}

/// The integer part of the displacement of prediction line `line` (with the
/// reference line `ref_idx` added).
pub open spec fn tap_base(angle: int, ref_idx: int, line: int) -> int {
    ((line + 1 + ref_idx) * angle) / 32 + ref_idx
}

/// The fractional part, in 1/32, of the displacement of prediction line `line`.
pub open spec fn tap_frac(angle: int, ref_idx: int, line: int) -> int {
    ((line + 1 + ref_idx) * angle) % 32
}

/// The predicted sample at position `pos` of line `line`: luma by the four-tap
/// filter, clipped; chroma by linear interpolation between two references, or the
/// reference itself at a whole displacement.
pub open spec fn angular_sample(r: Seq<i16>, angle: int, ref_idx: int, luma: bool, smooth: bool, pos: int, line: int) -> int {
    let b = pos + tap_base(angle, ref_idx, line);
    let f = tap_frac(angle, ref_idx, line);
    if luma {
        clip_sample(
            luma_coeff(smooth, f, 0) * tap(r, b) + luma_coeff(smooth, f, 1) * tap(r, b + 1) + luma_coeff(smooth, f, 2) * tap(
                r,
                b + 2,
            ) + luma_coeff(smooth, f, 3) * tap(r, b + 3) + 32,
        )
    } else if f != 0 {
        ((32 - f) * tap(r, b + 1) + f * tap(r, b + 2) + 16) / 32
    } else {
        tap(r, b + 1)
    }
}

/// The angular prediction at (x, y) of the block: lines are rows for a vertical
/// mode, columns for a horizontal one.
pub open spec fn angular_value(r: Seq<i16>, vertical: bool, angle: int, ref_idx: int, luma: bool, smooth: bool, x: int, y: int) -> int {
    if vertical {
        angular_sample(r, angle, ref_idx, luma, smooth, x, y)
    } else {
        angular_sample(r, angle, ref_idx, luma, smooth, y, x)
    }
}

/// Tap `i` is read: the four taps of luma, the two around a fractional chroma
/// displacement, else the one.
pub open spec fn tap_used(luma: bool, f: int, i: int) -> bool {
    if luma {
        0 <= i <= 3
    } else if f != 0 {
        1 <= i <= 2
    } else {
        i == 1
    }
}

/// The index of tap `i` of the prediction at (x, y).
pub open spec fn tap_pos(vertical: bool, angle: int, ref_idx: int, x: int, y: int, i: int) -> int {
    if vertical {
        x + tap_base(angle, ref_idx, y) + i
    } else {
        y + tap_base(angle, ref_idx, x) + i
    }
}

/// Every tap that the prediction of a `tw` by `th` block reads lies in a reference
/// array of `len` elements, counted from its start or, when negative, its end.
pub open spec fn taps_ok(len: int, vertical: bool, angle: int, ref_idx: int, luma: bool, tw: int, th: int) -> bool {
    forall|x: int, y: int, i: int|
        0 <= x < tw && 0 <= y < th && tap_used(luma, tap_frac(angle, ref_idx, if vertical { y } else { x }), i) ==> -len
            <= #[trigger] tap_pos(vertical, angle, ref_idx, x, y, i) < len
}

/// `p` divided by 32, rounded down.
fn floor_div32(p: i64) -> (q: i64)
    requires
        -1_000_000_000 <= p <= 1_000_000_000,
    ensures
        q == p / 32,
        -40_000_000 <= q <= 40_000_000,
{
    if p >= 0 {
        (p as u64 / 32) as i64
    } else {
        let m = (-p) as u64;
        let t = ((m + 31) / 32) as i64;
        proof {
            assert(-t == p / 32) by (nonlinear_arith)
                requires
                    t == (m + 31) / 32,
                    m == -p,
                    p < 0,
            ;
        }
        -t
    }
}

/// Element `k` of `r`, a negative `k` counting from the end.
fn tap_of(r: &Vec<i16>, k: i64) -> (v: i64)
    requires
        -(r@.len() as int) <= k < r@.len(),
        r@.len() <= 1_000_000,
    ensures
        v == tap(r@, k as int),
{
    let idx = if k < 0 {
        (r.len() as i64 + k) as usize
    } else {
        k as usize
    };
    r[idx] as i64
}

/// The predicted sample at position `pos` of line `line`.
fn sample_at(r: &Vec<i16>, angle: i64, ref_idx: usize, luma: bool, smooth: bool, pos: usize, line: usize) -> (v: i64)
    requires
        -32 <= angle <= 512,
        ref_idx <= 128,
        pos < 64 && line < 64,
        r@.len() <= 1_000_000,
        forall|i: int|
            tap_used(luma, tap_frac(angle as int, ref_idx as int, line as int), i) ==> -(r@.len() as int) <= pos
                + tap_base(angle as int, ref_idx as int, line as int) + i < r@.len(),
    ensures
        v == angular_sample(r@, angle as int, ref_idx as int, luma, smooth, pos as int, line as int),
{
    let n: i64 = line as i64 + 1 + ref_idx as i64;
    proof {
        assert(-32 * 193 <= n * angle <= 512 * 193) by (nonlinear_arith)
            requires 1 <= n <= 193, -32 <= angle <= 512;
    }
    let p: i64 = n * angle;
    let q = floor_div32(p);
    let f = p - 32 * q;
    let b = pos as i64 + q + ref_idx as i64;
    proof {
        assert(f == p % 32);
        assert(0 <= f < 32);
        assert(q + ref_idx == tap_base(angle as int, ref_idx as int, line as int));
        assert(f == tap_frac(angle as int, ref_idx as int, line as int));
    }
    if luma {
        proof {
            assert(tap_used(luma, f as int, 0) && tap_used(luma, f as int, 1));
            assert(tap_used(luma, f as int, 2) && tap_used(luma, f as int, 3));
        }
        let (c0, c1, c2, c3) = luma_coeffs(smooth, f);
        let t0 = tap_of(r, b);
        let t1 = tap_of(r, b + 1);
        let t2 = tap_of(r, b + 2);
        let t3 = tap_of(r, b + 3);
        proof {
            assert(-64 * 32768 <= c0 * t0 <= 64 * 32768) by (nonlinear_arith)
                requires -64 <= c0 <= 64, -32768 <= t0 <= 32767;
            assert(-64 * 32768 <= c1 * t1 <= 64 * 32768) by (nonlinear_arith)
                requires -64 <= c1 <= 64, -32768 <= t1 <= 32767;
            assert(-64 * 32768 <= c2 * t2 <= 64 * 32768) by (nonlinear_arith)
                requires -64 <= c2 <= 64, -32768 <= t2 <= 32767;
            assert(-64 * 32768 <= c3 * t3 <= 64 * 32768) by (nonlinear_arith)
                requires -64 <= c3 <= 64, -32768 <= t3 <= 32767;
        }
        let v = c0 * t0 + c1 * t1 + c2 * t2 + c3 * t3 + 32;
        if v < 0 {
            0
        } else {
            let d = (v as u64 / 64) as i64;
            if d > 255 {
                255
            } else {
                d
            }
        }
    } else if f != 0 {
        proof {
            assert(tap_used(luma, f as int, 1) && tap_used(luma, f as int, 2));
        }
        let t1 = tap_of(r, b + 1);
        let t2 = tap_of(r, b + 2);
        proof {
            assert(-32 * 32768 <= (32 - f) * t1 <= 32 * 32768) by (nonlinear_arith)
                requires 0 < f < 32, -32768 <= t1 <= 32767;
            assert(-32 * 32768 <= f * t2 <= 32 * 32768) by (nonlinear_arith)
                requires 0 < f < 32, -32768 <= t2 <= 32767;
        }
        floor_div32((32 - f) * t1 + f * t2 + 16)
    } else {
        proof {
            assert(tap_used(luma, f as int, 1));
        }
        tap_of(r, b + 1)
    }
}

/// The reference array has at most this many elements.
proof fn lemma_refs_len_bound(vertical: bool, angle: int, ref_idx: int, tw: int, th: int, ref_w: int, ref_h: int)
    requires
        angular_sizes_ok(ref_idx, tw, th, ref_w, ref_h),
    ensures
        refs_len(vertical, angle, ref_idx, tw, th, ref_w, ref_h) <= 10000,
{
    let q1 = if tw / th > 1 { tw / th } else { 1 };
    let q2 = if th / tw > 1 { th / tw } else { 1 };
    assert(tw / th <= 64 && th / tw <= 64) by (nonlinear_arith)
        requires 1 <= tw <= 64, 1 <= th <= 64;
    assert(q1 * ref_idx <= 64 * 128 && q2 * ref_idx <= 64 * 128) by (nonlinear_arith)
        requires 1 <= q1 <= 64, 1 <= q2 <= 64, 0 <= ref_idx <= 128;
}

impl IntraPredictor {
    /// Writes the angular prediction of mode `mode` (after the wide-angle mapping, -14
    /// to 80) of the `tw` by `th` block of component `c_idx` at (tx, ty) of `pred`,
    /// from the left references `left` (the corner first) and the above ones `above`
    /// of reference line `ref_idx`, `ref_w` above and `ref_h` left ones long; luma is
    /// interpolated with the smoothing filter when `smooth` is set.
    pub fn angular_block(
        &self,
        left: &[i16],
        above: &[i16],
        mode: isize,
        c_idx: usize,
        ref_idx: usize,
        ref_w: usize,
        ref_h: usize,
        smooth: bool,
        tw: usize,
        th: usize,
        tx: usize,
        ty: usize,
        pred: &mut Vec2d<u8>,
    )
        requires
            -14 <= mode <= 80,
            angular_sizes_ok(ref_idx as int, tw as int, th as int, ref_w as int, ref_h as int),
            refs_readable(
                left@.len() as int,
                above@.len() as int,
                mode >= 34,
                intra_pred_angle(mode as int),
                ref_idx as int,
                tw as int,
                th as int,
                ref_w as int,
                ref_h as int,
            ),
            taps_ok(
                refs_len(mode >= 34, intra_pred_angle(mode as int), ref_idx as int, tw as int, th as int, ref_w as int, ref_h as int),
                mode >= 34,
                intra_pred_angle(mode as int),
                ref_idx as int,
                c_idx == 0,
                tw as int,
                th as int,
            ),
            block_inside(*old(pred), tx, ty, tw, th),
        ensures
            block_written(
                *old(pred),
                *final(pred),
                tx as int,
                ty as int,
                tw as int,
                th as int,
                |x: int, y: int|
                    angular_value(
                        angular_refs(
                            left@,
                            above@,
                            mode >= 34,
                            intra_pred_angle(mode as int),
                            ref_idx as int,
                            tw as int,
                            th as int,
                            ref_w as int,
                            ref_h as int,
                        ),
                        mode >= 34,
                        intra_pred_angle(mode as int),
                        ref_idx as int,
                        c_idx == 0,
                        smooth,
                        x,
                        y,
                    ) as u8,
            ),
    {
        let vertical = mode >= 34;
        let angle = angle_of(mode);
        let luma = c_idx == 0;
        let r = build_refs(left, above, vertical, angle, ref_idx, tw, th, ref_w, ref_h);
        proof {
            lemma_refs_len_bound(vertical, angle as int, ref_idx as int, tw as int, th as int, ref_w as int, ref_h as int);
        }
        let ghost p0 = *pred;
        let ghost f = |x: int, y: int| angular_value(r@, vertical, angle as int, ref_idx as int, luma, smooth, x, y) as u8;
        let mut y: usize = 0;
        while y < th
            invariant
                y <= th,
                angular_sizes_ok(ref_idx as int, tw as int, th as int, ref_w as int, ref_h as int),
                -32 <= angle <= 512,
                r@.len() <= 10000,
                taps_ok(r@.len() as int, vertical, angle as int, ref_idx as int, luma, tw as int, th as int),
                block_inside(p0, tx, ty, tw, th),
                f == (|x: int, y: int| angular_value(r@, vertical, angle as int, ref_idx as int, luma, smooth, x, y) as u8),
                block_written(p0, *pred, tx as int, ty as int, tw as int, y as int, f),
            decreases th - y,
        {
            let mut x: usize = 0;
            while x < tw
                invariant
                    x <= tw,
                    y < th,
                    angular_sizes_ok(ref_idx as int, tw as int, th as int, ref_w as int, ref_h as int),
                    -32 <= angle <= 512,
                    r@.len() <= 10000,
                    taps_ok(r@.len() as int, vertical, angle as int, ref_idx as int, luma, tw as int, th as int),
                    block_inside(p0, tx, ty, tw, th),
                    f == (|x: int, y: int| angular_value(r@, vertical, angle as int, ref_idx as int, luma, smooth, x, y) as u8),
                    forall|rr: int, c: int|
                        0 <= rr < pred.height && 0 <= c < pred.width ==> #[trigger] pred.at(rr, c) == if (ty <= rr < ty + y
                            && tx <= c < tx + tw) || (rr == ty + y && tx <= c < tx + x) {
                            f(c - tx, rr - ty)
                        } else {
                            p0.at(rr, c)
                        },
                    pred.wf(),
                    pred.width == p0.width && pred.height == p0.height && pred.log2_stride == p0.log2_stride,
                decreases tw - x,
            {
                let (pos, line) = if vertical {
                    (x, y)
                } else {
                    (y, x)
                };
                proof {
                    assert forall|i: int|
                        tap_used(luma, tap_frac(angle as int, ref_idx as int, line as int), i) implies -(r@.len() as int)
                            <= pos + tap_base(angle as int, ref_idx as int, line as int) + i < r@.len() by {
                        assert(tap_pos(vertical, angle as int, ref_idx as int, x as int, y as int, i) == pos + tap_base(
                            angle as int,
                            ref_idx as int,
                            line as int,
                        ) + i);
                    }
                }
                let v = sample_at(&r, angle, ref_idx, luma, smooth, pos, line);
                let ghost before = *pred;
                pred.set(ty + y, tx + x, v as u8);
                proof {
                    law_vec2d_read_after_write(before, *pred, (ty + y) as int, (tx + x) as int, v as u8);
                    assert(v as u8 == f(x as int, y as int));
                }
                x += 1;
            }
            y += 1;
        }
    }
}

} // verus!
