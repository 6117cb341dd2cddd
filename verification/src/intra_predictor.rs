//! Intra prediction: the reference sample buffers and the planar and DC predictions
//! of a block from its reference samples.
use crate::common::{law_vec2d_read_after_write, Vec2d};
use vstd::prelude::*;

verus! {

/// The planar prediction at (x, y) of a `tw` by `th` block from the above reference
/// samples `a` (`a[tw]` above-right) and the left ones `l` (`l[th]` below-left): the
/// rounded mean of the vertical and horizontal linear interpolations.
pub open spec fn planar_value(a: Seq<i16>, l: Seq<i16>, tw: int, th: int, x: int, y: int) -> int {
    let v = (th - 1 - y) * a[x] + (y + 1) * l[th];
    let h = (tw - 1 - x) * l[y] + (x + 1) * a[tw];
    (v * tw + h * th + tw * th) / (2 * tw * th)
}

/// The sum of the first `n` entries of `s`.
pub open spec fn sum_first(s: Seq<i16>, n: int) -> int
    decreases n,
{
    if n <= 0 {
        0
    } else {
        sum_first(s, n - 1) + s[n - 1]
    }
}

/// The DC prediction of a `tw` by `th` block: the rounded mean of the above and left
/// reference samples for a square block, else of those along its longer side.
pub open spec fn dc_value(a: Seq<i16>, l: Seq<i16>, tw: int, th: int) -> int {
    if tw == th {
        (sum_first(a, tw) + sum_first(l, th) + tw) / (2 * tw)
    } else if tw > th {
        (sum_first(a, tw) + tw / 2) / tw
    } else {
        (sum_first(l, th) + th / 2) / th
    }
}

/// A block side intra prediction handles: a power of two from 1 to 64.
pub open spec fn side_ok(n: usize) -> bool {
    n == 1 || n == 2 || n == 4 || n == 8 || n == 16 || n == 32 || n == 64
}

/// The first `n` samples of `s` are 8-bit sample values.
pub open spec fn samples_ok(s: Seq<i16>, n: int) -> bool {
    n <= s.len() && forall|i: int| 0 <= i < n ==> 0 <= #[trigger] s[i] <= 255
}

/// Every element of `new` inside the `tw` by `th` block at (tx, ty) is `f` at its
/// position in the block; every other element is that of `old`.
pub open spec fn block_written(old: Vec2d<u8>, new: Vec2d<u8>, tx: int, ty: int, tw: int, th: int, f: spec_fn(int, int) -> u8) -> bool {
    &&& new.wf()
    &&& new.width == old.width && new.height == old.height && new.log2_stride == old.log2_stride
    &&& forall|r: int, c: int|
        0 <= r < new.height && 0 <= c < new.width ==> #[trigger] new.at(r, c) == if ty <= r < ty + th && tx <= c < tx + tw {
            f(c - tx, r - ty)
        } else {
            old.at(r, c)
        }
}

/// The block of `tw` by `th` at (tx, ty) lies inside `p`.
pub open spec fn block_inside(p: Vec2d<u8>, tx: usize, ty: usize, tw: usize, th: usize) -> bool {
    &&& p.wf()
    &&& tx + tw <= p.width
    &&& ty + th <= p.height
}

proof fn lemma_div_lt(n: int, d: int, k: int)
    requires
        d > 0,
        0 <= n < k * d,
    ensures
        n / d < k,
{
    vstd::arithmetic::div_mod::lemma_fundamental_div_mod(n, d);
    vstd::arithmetic::div_mod::lemma_mod_pos_bound(n, d);
    if n / d >= k {
        assert(n >= k * d) by (nonlinear_arith)
            requires
                n == d * (n / d) + n % d,
                n % d >= 0,
                n / d >= k,
                d > 0,
        ;
    }
}

proof fn lemma_sum_flat(s: Seq<i16>, n: int, v: i16)
    requires
        0 <= n <= s.len(),
        forall|i: int| 0 <= i < n ==> s[i] == v,
    ensures
        sum_first(s, n) == n * v,
    decreases n,
{
    if n > 0 {
        lemma_sum_flat(s, n - 1, v);
        assert(s[n - 1] == v);
        assert(sum_first(s, n) == sum_first(s, n - 1) + s[n - 1]);
        assert((n - 1) * v + v == n * v) by (nonlinear_arith);
    } else {
        assert(n * v == 0) by (nonlinear_arith)
            requires
                n == 0,
        ;
    }
}

/// Flat references predict a flat block: when every reference sample is `v`, the
/// planar prediction is `v` everywhere in the block and so is the DC prediction.
pub proof fn law_flat_references_predict_flat(a: Seq<i16>, l: Seq<i16>, tw: usize, th: usize, v: i16)
    requires
        side_ok(tw) && side_ok(th),
        tw < a.len(),
        th < l.len(),
        forall|i: int| 0 <= i <= tw ==> a[i] == v,
        forall|i: int| 0 <= i <= th ==> l[i] == v,
    ensures
        forall|x: int, y: int| 0 <= x < tw && 0 <= y < th ==> #[trigger] planar_value(a, l, tw as int, th as int, x, y) == v,
        dc_value(a, l, tw as int, th as int) == v,
{
    let w = tw as int;
    let h = th as int;
    let m = w * h;
    assert(m > 0) by (nonlinear_arith)
        requires
            w > 0,
            h > 0,
            m == w * h,
    ;
    assert forall|x: int, y: int| 0 <= x < tw && 0 <= y < th implies #[trigger] planar_value(a, l, w, h, x, y) == v by {
        let n = ((h - 1 - y) * v + (y + 1) * v) * w + ((w - 1 - x) * v + (x + 1) * v) * h + w * h;
        assert(n == v * (2 * m) + m) by (nonlinear_arith)
            requires
                n == ((h - 1 - y) * v + (y + 1) * v) * w + ((w - 1 - x) * v + (x + 1) * v) * h + w * h,
                m == w * h,
        ;
        assert(2 * w * h == 2 * m) by (nonlinear_arith)
            requires
                m == w * h,
        ;
        vstd::arithmetic::div_mod::lemma_fundamental_div_mod_converse(n, 2 * m, v as int, m);
    }
    lemma_sum_flat(a, w, v);
    lemma_sum_flat(l, h, v);
    if tw == th {
        assert(w * v + h * v + w == v * (2 * w) + w) by (nonlinear_arith)
            requires
                w == h,
        ;
        vstd::arithmetic::div_mod::lemma_fundamental_div_mod_converse(w * v + h * v + w, 2 * w, v as int, w);
    } else if tw > th {
        assert(w * v + w / 2 == v * w + w / 2) by (nonlinear_arith);
        vstd::arithmetic::div_mod::lemma_fundamental_div_mod_converse(w * v + w / 2, w, v as int, w / 2);
    } else {
        assert(h * v + h / 2 == v * h + h / 2) by (nonlinear_arith);
        vstd::arithmetic::div_mod::lemma_fundamental_div_mod_converse(h * v + h / 2, h, v as int, h / 2);
    }
}

/// The working buffers of intra prediction: 64 by 64 arrays for the weighted
/// references and the two planar predictions, and the left (with the corner) and
/// above reference samples, unfiltered and filtered.
pub struct IntraPredictor {
    pub ref_l: Vec2d<i16>,
    pub ref_t: Vec2d<i16>,
    pub left_ref_samples: [i16; 130],
    pub above_ref_samples: [i16; 129],
    pub left_ref_filtered_samples: [i16; 130],
    pub above_ref_filtered_samples: [i16; 129],
    pub pred_v: Vec2d<i16>,
    pub pred_h: Vec2d<i16>,
}

/// A 64 by 64 buffer of zeros, rows 64 apart in 4096 elements.
pub open spec fn zero_block(b: Vec2d<i16>) -> bool {
    &&& b.wf()
    &&& b.width == 64 && b.height == 64
    &&& b.log2_stride == 6
    &&& b.data@.len() == 4096
    &&& forall|i: int| 0 <= i < b.data@.len() ==> b.data@[i] == 0
}

/// The sum of the first `n` samples of `s`.
fn sum_samples(s: &[i16], n: usize) -> (r: u32)
    requires
        samples_ok(s@, n as int),
        n <= 64,
    ensures
        r == sum_first(s@, n as int),
        r <= 255 * n,
{
    let mut total: u32 = 0;
    let mut i: usize = 0;
    while i < n
        invariant
            i <= n <= 64,
            samples_ok(s@, n as int),
            total == sum_first(s@, i as int),
            total <= 255 * i,
        decreases n - i,
    {
        total = total + s[i] as u32;
        i += 1;
    }
    total
}

/// A fresh 64 by 64 buffer of zeros.
fn zero_buffer() -> (b: Vec2d<i16>)
    ensures
        zero_block(b),
{
    let b = Vec2d::new(0i16, 64, 64);
    proof {
        let k = b.log2_stride as nat;
        vstd::arithmetic::power2::lemma2_to64();
        if k <= 5 {
            if k < 5 { vstd::arithmetic::power2::lemma_pow2_strictly_increases(k, 5); }
        } else if k >= 7 {
            if k > 7 { vstd::arithmetic::power2::lemma_pow2_strictly_increases(7, k); }
        }
    }
    b
}

impl IntraPredictor {
    /// A predictor with every buffer zero.
    pub fn new() -> (p: IntraPredictor)
        ensures
            zero_block(p.ref_l),
            zero_block(p.ref_t),
            zero_block(p.pred_v),
            zero_block(p.pred_h),
            forall|i: int| 0 <= i < 130 ==> p.left_ref_samples@[i] == 0 && p.left_ref_filtered_samples@[i] == 0,
            forall|i: int| 0 <= i < 129 ==> p.above_ref_samples@[i] == 0 && p.above_ref_filtered_samples@[i] == 0,
    {
        IntraPredictor {
            ref_l: zero_buffer(),
            ref_t: zero_buffer(),
            left_ref_samples: [0; 130],
            above_ref_samples: [0; 129],
            left_ref_filtered_samples: [0; 130],
            above_ref_filtered_samples: [0; 129],
            pred_v: zero_buffer(),
            pred_h: zero_buffer(),
        }
    }

    /// Writes the planar prediction of the `tw` by `th` block at (tx, ty) of `pred`
    /// from the above reference samples `above` (`tw + 1` of them) and the left ones
    /// `left` (`th + 1`), each prediction cut to its low eight bits. Non-square blocks
    /// are limited to sizes whose 16-bit intermediate sums do not overflow.
    pub fn planar_block(
        &self,
        above: &[i16],
        left: &[i16],
        tw: usize,
        th: usize,
        tx: usize,
        ty: usize,
        pred: &mut Vec2d<u8>,
    )
        requires
            side_ok(tw) && side_ok(th),
            samples_ok(above@, tw + 1),
            samples_ok(left@, th + 1),
            tw == th || 511 * tw * th <= 32767,
            block_inside(*old(pred), tx, ty, tw, th),
        ensures
            block_written(
                *old(pred),
                *final(pred),
                tx as int,
                ty as int,
                tw as int,
                th as int,
                |x: int, y: int| planar_value(above@, left@, tw as int, th as int, x, y) as u8,
            ),
    {
        let ghost p0 = *pred;
        let ghost f = |x: int, y: int| planar_value(above@, left@, tw as int, th as int, x, y) as u8;
        let a_r: u32 = above[tw] as u32;
        let l_b: u32 = left[th] as u32;
        let tw32 = tw as u32;
        let th32 = th as u32;
        let mut y: usize = 0;
        while y < th
            invariant
                y <= th,
                side_ok(tw) && side_ok(th),
                samples_ok(above@, tw + 1),
                samples_ok(left@, th + 1),
                block_inside(p0, tx, ty, tw, th),
                a_r == above@[tw as int] && l_b == left@[th as int],
                tw32 == tw && th32 == th,
                f == (|x: int, y: int| planar_value(above@, left@, tw as int, th as int, x, y) as u8),
                block_written(p0, *pred, tx as int, ty as int, tw as int, y as int, f),
            decreases th - y,
        {
            let l_y: u32 = left[y] as u32;
            let mut x: usize = 0;
            while x < tw
                invariant
                    x <= tw,
                    y < th,
                    side_ok(tw) && side_ok(th),
                    samples_ok(above@, tw + 1),
                    samples_ok(left@, th + 1),
                    block_inside(p0, tx, ty, tw, th),
                    a_r == above@[tw as int] && l_b == left@[th as int],
                    l_y == left@[y as int],
                    tw32 == tw && th32 == th,
                    f == (|x: int, y: int| planar_value(above@, left@, tw as int, th as int, x, y) as u8),
                    forall|r: int, c: int|
                        0 <= r < pred.height && 0 <= c < pred.width ==> #[trigger] pred.at(r, c) == if (ty <= r < ty + y && tx <= c < tx + tw) || (r == ty + y && tx <= c < tx + x) {
                            f(c - tx, r - ty)
                        } else {
                            p0.at(r, c)
                        },
                    pred.wf(),
                    pred.width == p0.width && pred.height == p0.height && pred.log2_stride == p0.log2_stride,
                decreases tw - x,
            {
                let a_x: u32 = above[x] as u32;
                let y32 = y as u32;
                let x32 = x as u32;
                proof {
                    assert((th32 - 1 - y32) * a_x <= 64 * 255 && (y32 + 1) * l_b <= 64 * 255) by (nonlinear_arith)
                        requires
                            y32 < th32 <= 64,
                            a_x <= 255,
                            l_b <= 255,
                    ;
                    assert((tw32 - 1 - x32) * l_y <= 64 * 255 && (x32 + 1) * a_r <= 64 * 255) by (nonlinear_arith)
                        requires
                            x32 < tw32 <= 64,
                            l_y <= 255,
                            a_r <= 255,
                    ;
                }
                let v: u32 = (th32 - 1 - y32) * a_x + (y32 + 1) * l_b;
                let h: u32 = (tw32 - 1 - x32) * l_y + (x32 + 1) * a_r;
                proof {
                    assert(v <= 255 * th32 && h <= 255 * tw32) by (nonlinear_arith)
                        requires
                            v == (th32 - 1 - y32) * a_x + (y32 + 1) * l_b,
                            h == (tw32 - 1 - x32) * l_y + (x32 + 1) * a_r,
                            y32 < th32,
                            x32 < tw32,
                            a_x <= 255 && l_b <= 255 && l_y <= 255 && a_r <= 255,
                    ;
                    assert(v * tw32 <= 255 * (tw32 * th32) && h * th32 <= 255 * (tw32 * th32)) by (nonlinear_arith)
                        requires
                            v <= 255 * th32,
                            h <= 255 * tw32,
                    ;
                    assert(1 <= tw32 * th32 <= 4096) by (nonlinear_arith)
                        requires
                            1 <= tw32 <= 64,
                            1 <= th32 <= 64,
                    ;
                }
                let m: u32 = tw32 * th32;
                let n: u32 = v * tw32 + h * th32 + m;
                let val: u32 = n / (2 * m);
                proof {
                    lemma_div_lt(n as int, 2 * m as int, 256);
                    let ai = above@[x as int] as int;
                    let li = left@[y as int] as int;
                    assert(v as int == (th - 1 - y) * ai + (y + 1) * left@[th as int]);
                    assert(h as int == (tw - 1 - x) * li + (x + 1) * above@[tw as int]);
                    assert(2 * (tw * th) == 2 * tw * th) by (nonlinear_arith);
                    assert(val == planar_value(above@, left@, tw as int, th as int, x as int, y as int));
                }
                let ghost before = *pred;
                pred.set(ty + y, tx + x, val as u8);
                proof {
                    law_vec2d_read_after_write(before, *pred, (ty + y) as int, (tx + x) as int, val as u8);
                }
                x += 1;
            }
            y += 1;
        }
    }

    /// Fills the `tw` by `th` block at (tx, ty) of `pred` with the DC prediction from
    /// the above reference samples `above` and the left ones `left`.
    pub fn dc_block(
        &self,
        above: &[i16],
        left: &[i16],
        tw: usize,
        th: usize,
        tx: usize,
        ty: usize,
        pred: &mut Vec2d<u8>,
    )
        requires
            side_ok(tw) && side_ok(th),
            samples_ok(above@, tw as int),
            samples_ok(left@, th as int),
            block_inside(*old(pred), tx, ty, tw, th),
        ensures
            block_written(
                *old(pred),
                *final(pred),
                tx as int,
                ty as int,
                tw as int,
                th as int,
                |x: int, y: int| dc_value(above@, left@, tw as int, th as int) as u8,
            ),
    {
        let sa = sum_samples(above, tw);
        let sl = sum_samples(left, th);
        let tw32 = tw as u32;
        let th32 = th as u32;
        let dc: u32 = if tw == th {
            (sa + sl + tw32) / (2 * tw32)
        } else if tw > th {
            (sa + tw32 / 2) / tw32
        } else {
            (sl + th32 / 2) / th32
        };
        proof {
            if tw == th {
                lemma_div_lt((sa + sl + tw32) as int, 2 * tw32 as int, 256);
            } else if tw > th {
                lemma_div_lt((sa + tw32 / 2) as int, tw32 as int, 256);
            } else {
                lemma_div_lt((sl + th32 / 2) as int, th32 as int, 256);
            }
        }
        let v = dc as u8;
        let ghost p0 = *pred;
        let ghost f = |x: int, y: int| dc_value(above@, left@, tw as int, th as int) as u8;
        let mut y: usize = 0;
        while y < th
            invariant
                y <= th,
                block_inside(p0, tx, ty, tw, th),
                v == dc_value(above@, left@, tw as int, th as int) as u8,
                f == (|x: int, y: int| dc_value(above@, left@, tw as int, th as int) as u8),
                block_written(p0, *pred, tx as int, ty as int, tw as int, y as int, f),
            decreases th - y,
        {
            let mut x: usize = 0;
            while x < tw
                invariant
                    x <= tw,
                    y < th,
                    block_inside(p0, tx, ty, tw, th),
                    v == dc_value(above@, left@, tw as int, th as int) as u8,
                    f == (|x: int, y: int| dc_value(above@, left@, tw as int, th as int) as u8),
                    forall|r: int, c: int|
                        0 <= r < pred.height && 0 <= c < pred.width ==> #[trigger] pred.at(r, c) == if (ty <= r < ty + y && tx <= c < tx + tw) || (r == ty + y && tx <= c < tx + x) {
                            f(c - tx, r - ty)
                        } else {
                            p0.at(r, c)
                        },
                    pred.wf(),
                    pred.width == p0.width && pred.height == p0.height && pred.log2_stride == p0.log2_stride,
                decreases tw - x,
            {
                let ghost before = *pred;
                pred.set(ty + y, tx + x, v);
                proof {
                    law_vec2d_read_after_write(before, *pred, (ty + y) as int, (tx + x) as int, v);
                }
                x += 1;
            }
            y += 1;
        }
    }
}

} // verus!
