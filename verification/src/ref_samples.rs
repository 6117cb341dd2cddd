//! The reference samples of intra prediction: marking which neighbouring samples
//! are available, substituting the unavailable ones, and smoothing them.
use crate::common::{IntraPredMode, Vec2d};
use crate::ctu::TransformUnit;
use crate::encoder_context::{spec_neighbour_available, EncoderContext};
use crate::intra_predictor::IntraPredictor;
use crate::neighbour_ctx::{block_ok, PictureGeometry};
use vstd::prelude::*;

verus! {

/// The left reference column read bottom to top, then the above row left to right:
/// the order in which unavailable samples take the value of the one before.
pub open spec fn scan_order(l: Seq<i16>, a: Seq<i16>) -> Seq<i16> {
    Seq::new(l.len() + a.len(), |k: int| if k < l.len() { l[l.len() - 1 - k] } else { a[k - l.len()] })
}

/// The first position from `k` on whose sample is available (not negative), or the
/// length when there is none.
pub open spec fn first_avail(s: Seq<i16>, k: int) -> int
    decreases s.len() - k,
{
    if k >= s.len() {
        k
    } else if s[k] >= 0 {
        k
    } else {
        first_avail(s, k + 1)
    }
}

/// The sample at scan position `k` after substitution: an available sample keeps its
/// value; an unavailable one takes that of the last available sample before it, or of
/// the first available one when none comes before.
pub open spec fn filled(s: Seq<i16>, k: int) -> i16
    decreases k,
{
    if 0 <= k < s.len() && s[k] >= 0 {
        s[k]
    } else if k <= 0 {
        s[first_avail(s, 0)]
    } else {
        filled(s, k - 1)
    }
}

/// The reference samples in scan order after substitution: all 128 when none is
/// available.
pub open spec fn substituted(s: Seq<i16>) -> Seq<i16> {
    if forall|k: int| 0 <= k < s.len() ==> s[k] < 0 {
        Seq::new(s.len(), |k: int| 128i16)
    } else {
        Seq::new(s.len(), |k: int| filled(s, k))
    }
}

/// Every sample is unavailable (-1) or an 8-bit value.
pub open spec fn samples_in_range(s: Seq<i16>) -> bool {
    forall|k: int| 0 <= k < s.len() ==> -1 <= #[trigger] s[k] <= 255
}

proof fn lemma_first_avail_skip(s: Seq<i16>, a: int, b: int)
    requires
        0 <= a <= b <= s.len(),
        forall|j: int| a <= j < b ==> s[j] < 0,
    ensures
        first_avail(s, a) == first_avail(s, b),
    decreases b - a,
{
    if a < b {
        lemma_first_avail_skip(s, a + 1, b);
    }
}

proof fn lemma_first_avail_found(s: Seq<i16>, k: int)
    requires
        0 <= k < s.len(),
        exists|j: int| k <= j < s.len() && s[j] >= 0,
    ensures
        k <= first_avail(s, k) < s.len(),
        s[first_avail(s, k)] >= 0,
    decreases s.len() - k,
{
    if s[k] < 0 {
        let j = choose|j: int| k <= j < s.len() && s[j] >= 0;
        assert(j != k);
        lemma_first_avail_found(s, k + 1);
    }
}

/// A substituted sample is one of the available samples.
proof fn lemma_filled_in_range(s: Seq<i16>, k: int)
    requires
        0 <= k < s.len(),
        samples_in_range(s),
        exists|j: int| 0 <= j < s.len() && s[j] >= 0,
    ensures
        0 <= filled(s, k) <= 255,
    decreases k,
{
    if s[k] < 0 {
        if k <= 0 {
            lemma_first_avail_found(s, 0);
        } else {
            lemma_filled_in_range(s, k - 1);
        }
    }
}

impl IntraPredictor {
    /// Substitutes the unavailable (negative) samples among the first `nl` left and
    /// `na` above reference samples, in scan order.
    fn substitute_ref_samples(left: &mut [i16; 130], above: &mut [i16; 129], nl: usize, na: usize)
        requires
            1 <= nl <= 130,
            1 <= na <= 129,
        ensures
            final(left)@.take(nl as int) == left_substituted(old(left)@.take(nl as int), old(above)@.take(na as int)),
            final(above)@.take(na as int) == above_substituted(old(left)@.take(nl as int), old(above)@.take(na as int)),
            forall|i: int| nl <= i < 130 ==> #[trigger] final(left)@[i] == old(left)@[i],
            forall|i: int| na <= i < 129 ==> #[trigger] final(above)@[i] == old(above)@[i],
    {
        let ghost ol = *left;
        let ghost oa = *above;
        let ghost s = scan_order(ol@.take(nl as int), oa@.take(na as int));
        assert(forall|k: int| 0 <= k < nl ==> #[trigger] s[k] == ol@[nl - 1 - k]);
        assert(forall|k: int| nl <= k < nl + na ==> #[trigger] s[k] == oa@[k - nl]);
        assert(s.len() == nl + na);
        let mut left_all = true;
        let mut i: usize = 0;
        while i < nl
            invariant
                i <= nl <= 130,
                *left == ol,
                left_all == (forall|j: int| 0 <= j < i ==> ol@[j] < 0),
            decreases nl - i,
        {
            left_all = left_all && left[i] < 0;
            i += 1;
        }
        let mut above_all = true;
        let mut i: usize = 0;
        while i < na
            invariant
                i <= na <= 129,
                *above == oa,
                above_all == (forall|j: int| 0 <= j < i ==> oa@[j] < 0),
            decreases na - i,
        {
            above_all = above_all && above[i] < 0;
            i += 1;
        }
        let ghost none = forall|k: int| 0 <= k < s.len() ==> s[k] < 0;
        proof {
            if left_all && above_all {
                assert forall|k: int| 0 <= k < s.len() implies s[k] < 0 by {
                    if k < nl {
                        assert(s[k] == ol@[nl - 1 - k]);
                    } else {
                        assert(s[k] == oa@[k - nl]);
                    }
                }
            }
            if none {
                assert forall|j: int| 0 <= j < nl implies ol@[j] < 0 by {
                    assert(s[nl - 1 - j] == ol@[j]);
                }
                assert forall|j: int| 0 <= j < na implies oa@[j] < 0 by {
                    assert(s[nl + j] == oa@[j]);
                }
            }
            assert((left_all && above_all) == none);
        }
        if left_all && above_all {
            let mut i: usize = 0;
            while i < nl
                invariant
                    i <= nl <= 130,
                    forall|j: int| 0 <= j < i ==> left@[j] == 128,
                    forall|j: int| i <= j < 130 ==> left@[j] == ol@[j],
                    *above == oa,
                decreases nl - i,
            {
                left[i] = 128;
                i += 1;
            }
            let mut i: usize = 0;
            while i < na
                invariant
                    i <= na <= 129,
                    forall|j: int| 0 <= j < i ==> above@[j] == 128,
                    forall|j: int| i <= j < 129 ==> above@[j] == oa@[j],
                decreases na - i,
            {
                above[i] = 128;
                i += 1;
            }
        } else {
            proof {
                let k = choose|k: int| 0 <= k < s.len() && s[k] >= 0;
                lemma_first_avail_found(s, 0);
            }
            if left[nl - 1] < 0 {
                let mut found = false;
                let mut i: usize = nl - 1;
                while i > 0
                    invariant_except_break
                        0 <= i <= nl - 1,
                        !found,
                        *left == ol,
                        forall|j: int| i <= j < nl ==> ol@[j] < 0,
                    invariant
                        1 <= nl <= 130,
                        *above == oa,
                        s == scan_order(ol@.take(nl as int), oa@.take(na as int)),
                        found ==> left@[nl - 1] == s[first_avail(s, 0)] && forall|j: int|
                            0 <= j < 130 && j != nl - 1 ==> left@[j] == ol@[j],
                    ensures
                        found || (*left == ol && forall|j: int| 0 <= j < nl ==> ol@[j] < 0),
                    decreases i,
                {
                    i -= 1;
                    if left[i] >= 0 {
                        proof {
                            let k = (nl - 1 - i) as int;
                            assert forall|j: int| 0 <= j < k implies s[j] < 0 by {
                                assert(s[j] == ol@[nl - 1 - j]);
                            }
                            lemma_first_avail_skip(s, 0, k);
                            assert(s[k] == ol@[i as int]);
                        }
                        let v = left[i];
                        left[nl - 1] = v;
                        found = true;
                        break;
                    }
                }
                if !found {
                    let mut x: usize = 0;
                    while x < na
                        invariant_except_break
                            x <= na <= 129,
                            !found,
                            *left == ol,
                            forall|j: int| 0 <= j < x ==> oa@[j] < 0,
                        invariant
                            1 <= nl <= 130,
                            *above == oa,
                            s == scan_order(ol@.take(nl as int), oa@.take(na as int)),
                            forall|j: int| 0 <= j < nl ==> ol@[j] < 0,
                            found ==> left@[nl - 1] == s[first_avail(s, 0)] && forall|j: int|
                                0 <= j < 130 && j != nl - 1 ==> left@[j] == ol@[j],
                            exists|k: int| 0 <= k < s.len() && s[k] >= 0,
                        ensures
                            found,
                        decreases na - x,
                    {
                        if above[x] >= 0 {
                            proof {
                                let k = (nl + x) as int;
                                assert forall|j: int| 0 <= j < k implies s[j] < 0 by {
                                    if j < nl {
                                        assert(s[j] == ol@[nl - 1 - j]);
                                    } else {
                                        assert(s[j] == oa@[j - nl]);
                                    }
                                }
                                lemma_first_avail_skip(s, 0, k);
                                assert(s[k] == oa@[x as int]);
                            }
                            let v = above[x];
                            left[nl - 1] = v;
                            found = true;
                            break;
                        }
                        x += 1;
                    }
                }
            }
            proof {
                assert(s[0] == ol@[nl - 1]);
                assert(left@[nl - 1] == filled(s, 0));
            }
            let mut y: usize = nl - 1;
            while y > 0
                invariant
                    0 <= y <= nl - 1,
                    1 <= nl <= 130,
                    *above == oa,
                    s == scan_order(ol@.take(nl as int), oa@.take(na as int)),
                    forall|j: int| y <= j < nl ==> #[trigger] left@[j] == filled(s, nl - 1 - j),
                    forall|j: int| 0 <= j < y ==> left@[j] == ol@[j],
                    forall|j: int| nl <= j < 130 ==> left@[j] == ol@[j],
                decreases y,
            {
                y -= 1;
                proof {
                    let k = (nl - 1 - y) as int;
                    assert(s[k] == ol@[y as int]);
                    assert(left@[y + 1] == filled(s, k - 1));
                }
                if left[y] < 0 {
                    let v = left[y + 1];
                    left[y] = v;
                }
            }
        }
        let ghost done = *left;
        proof {
            assert forall|i: int| 0 <= i < nl implies #[trigger] left@[i] == substituted(s)[nl - 1 - i] by {
            }
        }
        if above[0] < 0 {
            let v = left[0];
            above[0] = v;
        }
        proof {
            assert(s[nl as int] == oa@[0]);
            if !none {
                assert(above@[0] == filled(s, nl as int));
            }
        }
        let mut x: usize = 1;
        while x < na
            invariant
                1 <= x <= na <= 129,
                1 <= nl <= 130,
                *left == done,
                s == scan_order(ol@.take(nl as int), oa@.take(na as int)),
                none == (forall|k: int| 0 <= k < s.len() ==> s[k] < 0),
                forall|j: int| 0 <= j < x ==> #[trigger] above@[j] == substituted(s)[nl + j],
                forall|j: int| x <= j < 129 ==> above@[j] == (if none && j < na { 128 } else { oa@[j] }),
                none ==> forall|j: int| 0 <= j < na ==> oa@[j] < 0,
            decreases na - x,
        {
            proof {
                assert(s[nl + x] == oa@[x as int]);
            }
            if above[x] < 0 {
                let v = above[x - 1];
                above[x] = v;
            }
            x += 1;
        }
        proof {
            assert(left@.take(nl as int) =~= left_substituted(ol@.take(nl as int), oa@.take(na as int)));
            assert(above@.take(na as int) =~= above_substituted(ol@.take(nl as int), oa@.take(na as int)));
        }
    }
}

/// The (width, height) of component `c_idx` of `tu`: chroma has half the luma size.
pub open spec fn tu_comp_size(tu: TransformUnit, c_idx: usize) -> (int, int) {
    if c_idx == 0 {
        (tu.width as int, tu.height as int)
    } else {
        ((tu.width / 2) as int, (tu.height / 2) as int)
    }
}

/// The (x, y) of component `c_idx` of `tu`: chroma at half the luma position.
pub open spec fn tu_comp_pos(tu: TransformUnit, c_idx: usize) -> (int, int) {
    if c_idx == 0 {
        (tu.x as int, tu.y as int)
    } else {
        ((tu.x / 2) as int, (tu.y / 2) as int)
    }
}

/// The lengths (ref_w, ref_h) of the above row and the left column of reference
/// samples of component `c_idx` of `tu`: twice the block's sides, or for luma intra
/// sub-partitions the coding block's side plus the partition's.
pub open spec fn ref_dims(tu: TransformUnit, c_idx: usize) -> (int, int) {
    let (tw, th) = tu_comp_size(tu, c_idx);
    let (cw, ch) = tu.cu_size[c_idx as int];
    if !tu.cu_intra_subpartitions_mode_flag || c_idx != 0 {
        (2 * tw, 2 * th)
    } else {
        (cw + tw, ch + th)
    }
}

/// Coordinate `v` of component `c_idx` in luma samples: doubled for chroma.
pub open spec fn to_luma(c_idx: usize, v: int) -> int {
    if c_idx != 0 { 2 * v } else { v }
}

/// The left sample `i` whose availability decides that of sample `i`: availability
/// is looked up at the first sample and at every sample on a row that is a multiple
/// of 4 (sample `i` lies on row `i - 1 - ref_idx` of the block).
pub open spec fn left_anchor(i: int, ref_idx: int) -> int
    decreases i,
{
    if i <= 0 || (i - 1 - ref_idx) % 4 == 0 {
        i
    } else {
        left_anchor(i - 1, ref_idx)
    }
}

/// The above sample whose availability decides that of sample `i` (on column
/// `i - ref_idx` of the block).
pub open spec fn above_anchor(i: int, ref_idx: int) -> int
    decreases i,
{
    if i <= 0 || (i - ref_idx) % 4 == 0 {
        i
    } else {
        above_anchor(i - 1, ref_idx)
    }
}

/// The neighbouring location (x, y) of component `c_idx` of `tu`, scaled to luma, is
/// available, given the unit's above-right and below-left availability.
#[verifier::opaque]
pub open spec fn ref_available(
    tu: TransformUnit,
    c_idx: usize,
    x: int,
    y: int,
    ar: bool,
    bl: bool,
    e: EncoderContext,
    g: PictureGeometry,
) -> bool {
    spec_neighbour_available(
        e,
        tu.x,
        tu.y,
        to_luma(c_idx, x) as isize,
        to_luma(c_idx, y) as isize,
        tu.width,
        tu.height,
        ar,
        bl,
        false,
        g.pic_width_in_luma_samples,
        g.pic_height_in_luma_samples,
        g.entropy_coding_sync_enabled_flag,
    )
}

/// Left reference sample `i` (on row `i - 1 - ref_idx` of the block, in the column
/// `1 + ref_idx` left of it) is available.
pub open spec fn left_available(
    tu: TransformUnit,
    c_idx: usize,
    ref_idx: usize,
    i: int,
    ar: bool,
    bl: bool,
    e: EncoderContext,
    g: PictureGeometry,
) -> bool {
    let (xc, yc) = tu_comp_pos(tu, c_idx);
    ref_available(tu, c_idx, xc - 1 - ref_idx, yc + left_anchor(i, ref_idx as int) - 1 - ref_idx, ar, bl, e, g)
}

/// Above reference sample `i` (on column `i - ref_idx` of the block, in the row
/// `1 + ref_idx` above it) is available.
pub open spec fn above_available(
    tu: TransformUnit,
    c_idx: usize,
    ref_idx: usize,
    i: int,
    ar: bool,
    bl: bool,
    e: EncoderContext,
    g: PictureGeometry,
) -> bool {
    let (xc, yc) = tu_comp_pos(tu, c_idx);
    ref_available(tu, c_idx, xc + above_anchor(i, ref_idx as int) - ref_idx, yc - 1 - ref_idx, ar, bl, e, g)
}

/// The left reference samples as marked: the reconstructed sample where available,
/// -1 elsewhere.
#[verifier::opaque]
pub open spec fn left_marked(
    tu: TransformUnit,
    c_idx: usize,
    ref_idx: usize,
    p: Vec2d<u8>,
    ar: bool,
    bl: bool,
    e: EncoderContext,
    g: PictureGeometry,
) -> Seq<i16> {
    let (xc, yc) = tu_comp_pos(tu, c_idx);
    let n = ref_dims(tu, c_idx).1 + ref_idx + 1;
    Seq::new(
        n as nat,
        |i: int|
            if left_available(tu, c_idx, ref_idx, i, ar, bl, e, g) {
                p.at(yc + i - 1 - ref_idx, xc - 1 - ref_idx) as i16
            } else {
                -1i16
            },
    )
}

/// The above reference samples as marked: the reconstructed sample where available,
/// -1 elsewhere.
#[verifier::opaque]
pub open spec fn above_marked(
    tu: TransformUnit,
    c_idx: usize,
    ref_idx: usize,
    p: Vec2d<u8>,
    ar: bool,
    bl: bool,
    e: EncoderContext,
    g: PictureGeometry,
) -> Seq<i16> {
    let (xc, yc) = tu_comp_pos(tu, c_idx);
    let n = ref_dims(tu, c_idx).0 + ref_idx;
    let row = if yc - 1 - ref_idx >= 0 { yc - 1 - ref_idx } else { 0 };
    Seq::new(
        n as nat,
        |i: int|
            if above_available(tu, c_idx, ref_idx, i, ar, bl, e, g) {
                p.at(row, xc + i - ref_idx) as i16
            } else {
                -1i16
            },
    )
}

/// The reconstructed samples that marking reads lie in `p`, and the row of the
/// above samples exists.
pub open spec fn reads_ok(
    tu: TransformUnit,
    c_idx: usize,
    ref_idx: usize,
    p: Vec2d<u8>,
    ar: bool,
    bl: bool,
    e: EncoderContext,
    g: PictureGeometry,
) -> bool {
    let (xc, yc) = tu_comp_pos(tu, c_idx);
    let (rw, rh) = ref_dims(tu, c_idx);
    &&& p.wf()
    &&& (if yc - 1 - ref_idx >= 0 { yc - 1 - ref_idx } else { 0 }) < p.height
    &&& forall|i: int|
        0 <= i < rh + ref_idx + 1 && #[trigger] left_available(tu, c_idx, ref_idx, i, ar, bl, e, g) ==> 0 <= yc + i - 1
            - ref_idx < p.height && 0 <= xc - 1 - ref_idx < p.width
    &&& forall|i: int|
        0 <= i < rw + ref_idx && #[trigger] above_available(tu, c_idx, ref_idx, i, ar, bl, e, g) ==> 0 <= xc + i - ref_idx
            < p.width
}

/// The [1 2 1] smoothing of the left column `l` (`ref_h + 1` samples, the corner
/// first, smoothed with the above row `a`).
pub open spec fn smoothed_left(l: Seq<i16>, a: Seq<i16>, ref_h: int) -> Seq<i16> {
    Seq::new(
        (ref_h + 1) as nat,
        |i: int|
            if i == 0 {
                ((l[1] + 2 * l[0] + a[0] + 2) / 4) as i16
            } else if i < ref_h {
                ((l[i + 1] + 2 * l[i] + l[i - 1] + 2) / 4) as i16
            } else {
                l[ref_h]
            },
    )
}

/// The [1 2 1] smoothing of the above row `a` (`ref_w` samples, the first smoothed
/// with the corner of the left column `l`).
pub open spec fn smoothed_above(l: Seq<i16>, a: Seq<i16>, ref_w: int) -> Seq<i16> {
    Seq::new(
        ref_w as nat,
        |i: int|
            if i == 0 {
                ((l[0] + 2 * a[0] + a[1] + 2) / 4) as i16
            } else if i < ref_w - 1 {
                ((a[i - 1] + 2 * a[i] + a[i + 1] + 2) / 4) as i16
            } else {
                a[ref_w - 1]
            },
    )
}

/// The reference samples of component `c_idx` of `tu` are smoothed: for luma
/// blocks of more than 32 samples on the nearest reference line, without intra
/// sub-partitions, in planar mode or the diagonal and vertical/horizontal-diagonal
/// angular modes 2, 34 and 66 (and the wide angles 72 to 80).
pub open spec fn ref_filter_flag(tu: TransformUnit, c_idx: usize, ref_idx: usize) -> bool {
    let (tw, th) = tu_comp_size(tu, c_idx);
    let m = tu.cu_intra_pred_mode[c_idx as int].spec_value();
    &&& ref_idx == 0
    &&& tw * th > 32
    &&& c_idx == 0
    &&& !tu.cu_intra_subpartitions_mode_flag
    &&& (m == 0 || m == 2 || m == 34 || m == 66 || m == 72 || m == 76 || m == 78 || m == 80)
}

/// The reference sample lengths of component `c_idx` of `tu` fit the buffers, and
/// its position and size keep the neighbour arithmetic in range.
pub open spec fn ref_geometry_ok(tu: TransformUnit, c_idx: usize, ref_idx: usize, e: EncoderContext) -> bool {
    let (rw, rh) = ref_dims(tu, c_idx);
    let (tw, th) = tu_comp_size(tu, c_idx);
    &&& c_idx < 3
    &&& 1 <= tw && 1 <= th
    &&& rh + ref_idx + 1 <= 130
    &&& rw + ref_idx <= 129
    &&& tw * th <= usize::MAX
    &&& tu.x <= 0x1000_0000 && tu.y <= 0x1000_0000
    &&& block_ok(e, tu.x, tu.y, tu.width, tu.height)
}

impl IntraPredictor {
    /// Marks the first `n` left reference samples of component `c_idx` of `tu`.
    #[verifier::spinoff_prover]
    #[verifier::rlimit(40)]
    fn mark_left_ref_samples(
        left: &mut [i16; 130],
        tu: &TransformUnit,
        c_idx: usize,
        ref_idx: usize,
        ar: bool,
        bl: bool,
        tile_reconst_pixels: &Vec2d<u8>,
        geometry: PictureGeometry,
        ectx: &EncoderContext,
    )
        requires
            ref_geometry_ok(*tu, c_idx, ref_idx, *ectx),
            reads_ok(*tu, c_idx, ref_idx, *tile_reconst_pixels, ar, bl, *ectx, geometry),
        ensures
            ({
                let n = ref_dims(*tu, c_idx).1 + ref_idx + 1;
                &&& final(left)@.take(n) == left_marked(*tu, c_idx, ref_idx, *tile_reconst_pixels, ar, bl, *ectx, geometry)
                &&& marks_ok(final(left)@.take(n))
                &&& forall|i: int| n <= i < 130 ==> #[trigger] final(left)@[i] == old(left)@[i]
            }),
    {
        let ghost l0 = *left;
        let ghost lm = left_marked(*tu, c_idx, ref_idx, *tile_reconst_pixels, ar, bl, *ectx, geometry);
        proof {
            reveal(left_marked);
        }
        let (x_tb_comp, y_tb_comp) = tu.get_component_pos(c_idx);
        let (n_tb_w, n_tb_h) = tu.get_component_size(c_idx);
        let (n_cb_w, n_cb_h) = tu.cu_size[c_idx];
        let ref_h = if !tu.cu_intra_subpartitions_mode_flag || c_idx != 0 {
            n_tb_h * 2
        } else {
            n_cb_h + n_tb_h
        };
        let n = ref_h + ref_idx + 1;
        let x_nb_comp: isize = x_tb_comp as isize - 1 - ref_idx as isize;
        let x_nb_y: isize = if c_idx != 0 { x_nb_comp * 2 } else { x_nb_comp };
        let c: usize = (1 + ref_idx) % 4;
        let mut available = true;
        let mut i: usize = 0;
        while i < n
            invariant
                i <= n <= 130,
                n == ref_dims(*tu, c_idx).1 + ref_idx + 1,
                block_ok(*ectx, tu.x, tu.y, tu.width, tu.height),
                tu.x <= 0x1000_0000 && tu.y <= 0x1000_0000,
                tile_reconst_pixels.wf(),
                forall|j: int|
                    0 <= j < n && #[trigger] left_available(*tu, c_idx, ref_idx, j, ar, bl, *ectx, geometry) ==> 0
                        <= y_tb_comp + j - 1 - ref_idx < tile_reconst_pixels.height && 0 <= x_tb_comp - 1 - ref_idx
                        < tile_reconst_pixels.width,
                lm == left_marked(*tu, c_idx, ref_idx, *tile_reconst_pixels, ar, bl, *ectx, geometry),
                (x_tb_comp as int, y_tb_comp as int) == tu_comp_pos(*tu, c_idx),
                x_tb_comp <= tu.x && y_tb_comp <= tu.y,
                x_nb_comp == x_tb_comp - 1 - ref_idx,
                x_nb_y == to_luma(c_idx, x_nb_comp as int),
                c == (1 + ref_idx) % 4,
                i > 0 ==> available == left_available(*tu, c_idx, ref_idx, i - 1, ar, bl, *ectx, geometry),
                forall|j: int| 0 <= j < i ==> left@[j] == lm[j],
                forall|j: int| 0 <= j < i ==> -1 <= #[trigger] left@[j] <= 255,
                forall|j: int| n <= j < 130 ==> left@[j] == l0@[j],
            decreases n - i,
        {
            let y_nb_comp: isize = y_tb_comp as isize + i as isize - 1 - ref_idx as isize;
            let y_nb_y: isize = if c_idx != 0 { y_nb_comp * 2 } else { y_nb_comp };
            proof {
                assert((i as int - 1 - ref_idx) % 4 == 0 <==> i as int % 4 == c as int);
                assert(to_luma(c_idx, x_tb_comp - 1 - ref_idx) as isize == x_nb_y);
                assert(to_luma(c_idx, y_tb_comp + i - 1 - ref_idx) as isize == y_nb_y);
            }
            if i == 0 || i % 4 == c {
                available = ectx.derive_neighbouring_block_availability(
                    tu.x,
                    tu.y,
                    x_nb_y,
                    y_nb_y,
                    tu.width,
                    tu.height,
                    ar,
                    bl,
                    false,
                    geometry.pic_width_in_luma_samples,
                    geometry.pic_height_in_luma_samples,
                    geometry.entropy_coding_sync_enabled_flag,
                );
                proof {
                    assert(left_anchor(i as int, ref_idx as int) == i);
                    reveal(ref_available);
                }
            } else {
                proof {
                    assert(left_anchor(i - 1, ref_idx as int) == left_anchor(i as int, ref_idx as int));
                }
            }
            assert(available == left_available(*tu, c_idx, ref_idx, i as int, ar, bl, *ectx, geometry));
            let v: i16 = if available {
                tile_reconst_pixels.get(y_nb_comp as usize, x_nb_comp as usize) as i16
            } else {
                -1
            };
            assert(lm[i as int] == v) by {
                reveal(left_marked);
            }
            left[i] = v;
            i += 1;
        }
        proof {
            assert(left@.take(n as int) =~= lm);
        }
    }
}

impl IntraPredictor {
    /// Marks the first `n` above reference samples of component `c_idx` of `tu`.
    #[verifier::spinoff_prover]
    #[verifier::rlimit(40)]
    fn mark_above_ref_samples(
        above: &mut [i16; 129],
        tu: &TransformUnit,
        c_idx: usize,
        ref_idx: usize,
        ar: bool,
        bl: bool,
        tile_reconst_pixels: &Vec2d<u8>,
        geometry: PictureGeometry,
        ectx: &EncoderContext,
    )
        requires
            ref_geometry_ok(*tu, c_idx, ref_idx, *ectx),
            reads_ok(*tu, c_idx, ref_idx, *tile_reconst_pixels, ar, bl, *ectx, geometry),
        ensures
            ({
                let n = ref_dims(*tu, c_idx).0 + ref_idx;
                &&& final(above)@.take(n) == above_marked(*tu, c_idx, ref_idx, *tile_reconst_pixels, ar, bl, *ectx, geometry)
                &&& marks_ok(final(above)@.take(n))
                &&& forall|i: int| n <= i < 129 ==> #[trigger] final(above)@[i] == old(above)@[i]
            }),
    {
        let ghost a0 = *above;
        let ghost am = above_marked(*tu, c_idx, ref_idx, *tile_reconst_pixels, ar, bl, *ectx, geometry);
        proof {
            reveal(above_marked);
        }
        let (x_tb_comp, y_tb_comp) = tu.get_component_pos(c_idx);
        let (n_tb_w, n_tb_h) = tu.get_component_size(c_idx);
        let (n_cb_w, n_cb_h) = tu.cu_size[c_idx];
        let ref_w = if !tu.cu_intra_subpartitions_mode_flag || c_idx != 0 {
            n_tb_w * 2
        } else {
            n_cb_w + n_tb_w
        };
        let n = ref_w + ref_idx;
        let y_nb_comp: isize = y_tb_comp as isize - 1 - ref_idx as isize;
        let y_nb_y: isize = if c_idx != 0 { y_nb_comp * 2 } else { y_nb_comp };
        let row: usize = if y_nb_comp >= 0 { y_nb_comp as usize } else { 0 };
        let c: usize = ref_idx % 4;
        let mut available = true;
        let mut i: usize = 0;
        while i < n
            invariant
                i <= n <= 129,
                n == ref_dims(*tu, c_idx).0 + ref_idx,
                block_ok(*ectx, tu.x, tu.y, tu.width, tu.height),
                tu.x <= 0x1000_0000 && tu.y <= 0x1000_0000,
                tile_reconst_pixels.wf(),
                row < tile_reconst_pixels.height,
                row == (if y_tb_comp - 1 - ref_idx >= 0 { y_tb_comp - 1 - ref_idx } else { 0 }),
                forall|j: int|
                    0 <= j < n && #[trigger] above_available(*tu, c_idx, ref_idx, j, ar, bl, *ectx, geometry) ==> 0
                        <= x_tb_comp + j - ref_idx < tile_reconst_pixels.width,
                am == above_marked(*tu, c_idx, ref_idx, *tile_reconst_pixels, ar, bl, *ectx, geometry),
                (x_tb_comp as int, y_tb_comp as int) == tu_comp_pos(*tu, c_idx),
                x_tb_comp <= tu.x && y_tb_comp <= tu.y,
                y_nb_comp == y_tb_comp - 1 - ref_idx,
                y_nb_y == to_luma(c_idx, y_nb_comp as int),
                c == ref_idx % 4,
                i > 0 ==> available == above_available(*tu, c_idx, ref_idx, i - 1, ar, bl, *ectx, geometry),
                forall|j: int| 0 <= j < i ==> above@[j] == am[j],
                forall|j: int| 0 <= j < i ==> -1 <= #[trigger] above@[j] <= 255,
                forall|j: int| n <= j < 129 ==> above@[j] == a0@[j],
            decreases n - i,
        {
            let x_nb_comp: isize = x_tb_comp as isize + i as isize - ref_idx as isize;
            let x_nb_y: isize = if c_idx != 0 { x_nb_comp * 2 } else { x_nb_comp };
            proof {
                assert((i as int - ref_idx) % 4 == 0 <==> i as int % 4 == c as int);
                assert(to_luma(c_idx, x_tb_comp + i - ref_idx) as isize == x_nb_y);
                assert(to_luma(c_idx, y_tb_comp - 1 - ref_idx) as isize == y_nb_y);
            }
            if i == 0 || i % 4 == c {
                available = ectx.derive_neighbouring_block_availability(
                    tu.x,
                    tu.y,
                    x_nb_y,
                    y_nb_y,
                    tu.width,
                    tu.height,
                    ar,
                    bl,
                    false,
                    geometry.pic_width_in_luma_samples,
                    geometry.pic_height_in_luma_samples,
                    geometry.entropy_coding_sync_enabled_flag,
                );
                proof {
                    assert(above_anchor(i as int, ref_idx as int) == i);
                    reveal(ref_available);
                }
            } else {
                proof {
                    assert(above_anchor(i - 1, ref_idx as int) == above_anchor(i as int, ref_idx as int));
                }
            }
            assert(available == above_available(*tu, c_idx, ref_idx, i as int, ar, bl, *ectx, geometry));
            let v: i16 = if available {
                tile_reconst_pixels.get(row, x_nb_comp as usize) as i16
            } else {
                -1
            };
            assert(am[i as int] == v) by {
                reveal(above_marked);
            }
            above[i] = v;
            i += 1;
        }
        proof {
            assert(above@.take(n as int) =~= am);
        }
    }
}

/// The left reference samples `l` (nearest row first) after substitution, given the
/// above samples `a`.
pub open spec fn left_substituted(l: Seq<i16>, a: Seq<i16>) -> Seq<i16> {
    let r = substituted(scan_order(l, a));
    Seq::new(l.len(), |i: int| r[l.len() - 1 - i])
}

/// The above reference samples `a` after substitution, given the left samples `l`.
pub open spec fn above_substituted(l: Seq<i16>, a: Seq<i16>) -> Seq<i16> {
    let r = substituted(scan_order(l, a));
    Seq::new(a.len(), |i: int| r[l.len() + i])
}

/// Marked samples are 8-bit values or -1 (unavailable).
pub open spec fn marks_ok(l: Seq<i16>) -> bool {
    forall|i: int| 0 <= i < l.len() ==> -1 <= #[trigger] l[i] <= 255
}

proof fn lemma_marked_in_range(l: Seq<i16>, a: Seq<i16>)
    requires
        marks_ok(l),
        marks_ok(a),
    ensures
        samples_in_range(scan_order(l, a)),
{
    let s = scan_order(l, a);
    assert forall|k: int| 0 <= k < s.len() implies -1 <= #[trigger] s[k] <= 255 by {
        if k < l.len() {
            assert(s[k] == l[l.len() - 1 - k]);
        } else {
            assert(s[k] == a[k - l.len()]);
        }
    }
}

/// After substitution of marked samples every reference sample is an 8-bit value.
proof fn lemma_substituted_views_in_range(l: Seq<i16>, a: Seq<i16>)
    requires
        marks_ok(l),
        marks_ok(a),
    ensures
        forall|i: int| 0 <= i < l.len() ==> 0 <= #[trigger] left_substituted(l, a)[i] <= 255,
        forall|i: int| 0 <= i < a.len() ==> 0 <= #[trigger] above_substituted(l, a)[i] <= 255,
{
    let s = scan_order(l, a);
    lemma_marked_in_range(l, a);
    lemma_substituted_in_range(s);
    assert forall|i: int| 0 <= i < l.len() implies 0 <= #[trigger] left_substituted(l, a)[i] <= 255 by {
        assert(left_substituted(l, a)[i] == substituted(s)[l.len() - 1 - i]);
    }
    assert forall|i: int| 0 <= i < a.len() implies 0 <= #[trigger] above_substituted(l, a)[i] <= 255 by {
        assert(above_substituted(l, a)[i] == substituted(s)[l.len() + i]);
    }
}

/// Substitution leaves only 8-bit samples.
proof fn lemma_substituted_in_range(s: Seq<i16>)
    requires
        samples_in_range(s),
    ensures
        forall|k: int| 0 <= k < s.len() ==> 0 <= #[trigger] substituted(s)[k] <= 255,
{
    if !(forall|k: int| 0 <= k < s.len() ==> s[k] < 0) {
        assert forall|k: int| 0 <= k < s.len() implies 0 <= #[trigger] substituted(s)[k] <= 255 by {
            lemma_filled_in_range(s, k);
        }
    }
}

/// The reference buffers of `new` are those of `old` prepared for component `c_idx`
/// of `tu` on reference line `ref_idx`: the marked samples substituted in the
/// unfiltered buffers, and smoothed (when `ref_filter_flag` holds) or copied in the
/// filtered ones, all 8-bit; the rest of each buffer and the other buffers are kept.
pub open spec fn refs_prepared(
    old: IntraPredictor,
    new: IntraPredictor,
    tu: TransformUnit,
    c_idx: usize,
    ref_idx: usize,
    p: Vec2d<u8>,
    ar: bool,
    bl: bool,
    e: EncoderContext,
    g: PictureGeometry,
) -> bool {
    let (rw, rh) = ref_dims(tu, c_idx);
    let nl = rh + ref_idx + 1;
    let na = rw + ref_idx;
    let lm = left_marked(tu, c_idx, ref_idx, p, ar, bl, e, g);
    let am = above_marked(tu, c_idx, ref_idx, p, ar, bl, e, g);
    let ls = left_substituted(lm, am);
    let abs = above_substituted(lm, am);
    &&& new.left_ref_samples@.take(nl) == ls
    &&& new.above_ref_samples@.take(na) == abs
    &&& forall|i: int| nl <= i < 130 ==> #[trigger] new.left_ref_samples@[i] == old.left_ref_samples@[i]
    &&& forall|i: int| na <= i < 129 ==> #[trigger] new.above_ref_samples@[i] == old.above_ref_samples@[i]
    &&& if ref_filter_flag(tu, c_idx, ref_idx) {
        &&& new.left_ref_filtered_samples@.take(nl) == smoothed_left(ls, abs, rh)
        &&& new.above_ref_filtered_samples@.take(na) == smoothed_above(ls, abs, rw)
    } else {
        &&& new.left_ref_filtered_samples@.take(nl) == ls
        &&& new.above_ref_filtered_samples@.take(na) == abs
    }
    &&& forall|i: int| nl <= i < 130 ==> #[trigger] new.left_ref_filtered_samples@[i] == old.left_ref_filtered_samples@[i]
    &&& forall|i: int| na <= i < 129 ==> #[trigger] new.above_ref_filtered_samples@[i] == old.above_ref_filtered_samples@[i]
    &&& forall|i: int| 0 <= i < nl ==> 0 <= #[trigger] new.left_ref_filtered_samples@[i] <= 255
    &&& forall|i: int| 0 <= i < na ==> 0 <= #[trigger] new.above_ref_filtered_samples@[i] <= 255
    &&& new.ref_l == old.ref_l
    &&& new.ref_t == old.ref_t
    &&& new.pred_v == old.pred_v
    &&& new.pred_h == old.pred_h
}

/// The filtered references of a prepared block are the [1 2 1] smoothing of its
/// references exactly for a luma block of more than 32 samples on the nearest
/// reference line, without intra sub-partitions, in mode 0, 2, 34, 66, 72, 76, 78
/// or 80: each inner sample becomes `(previous + 2 * itself + next + 2) / 4`, the
/// corner and the first above sample are smoothed across the corner, and the far
/// ends stay.
/// Otherwise they are the references unchanged.
pub proof fn law_references_are_smoothed_for_the_listed_modes(
    old: IntraPredictor,
    new: IntraPredictor,
    tu: TransformUnit,
    c_idx: usize,
    ref_idx: usize,
    p: Vec2d<u8>,
    ar: bool,
    bl: bool,
    e: EncoderContext,
    g: PictureGeometry,
)
    requires
        ref_geometry_ok(tu, c_idx, ref_idx, e),
        refs_prepared(old, new, tu, c_idx, ref_idx, p, ar, bl, e, g),
    ensures
        ({
            let (rw, rh) = ref_dims(tu, c_idx);
            let nl = rh + ref_idx + 1;
            let na = rw + ref_idx;
            let l = new.left_ref_samples@;
            let a = new.above_ref_samples@;
            let lf = new.left_ref_filtered_samples@;
            let af = new.above_ref_filtered_samples@;
            let m = tu.cu_intra_pred_mode[c_idx as int].spec_value();
            let smooth = ref_idx == 0 && c_idx == 0 && !tu.cu_intra_subpartitions_mode_flag && tu.width * tu.height > 32 && (
            m == 0 || m == 2 || m == 34 || m == 66 || m == 72 || m == 76 || m == 78 || m == 80);
            &&& smooth ==> lf[0] == ((l[1] + 2 * l[0] + a[0] + 2) / 4) as i16 && lf[rh] == l[rh]
            &&& smooth ==> af[0] == ((l[0] + 2 * a[0] + a[1] + 2) / 4) as i16 && af[rw - 1] == a[rw - 1]
            &&& smooth ==> forall|i: int| 0 < i < rh ==> #[trigger] lf[i] == ((l[i - 1] + 2 * l[i] + l[i + 1] + 2) / 4) as i16
            &&& smooth ==> forall|i: int| 0 < i < rw - 1 ==> #[trigger] af[i] == ((a[i - 1] + 2 * a[i] + a[i + 1] + 2) / 4) as i16
            &&& !smooth ==> forall|i: int| 0 <= i < nl ==> #[trigger] lf[i] == l[i]
            &&& !smooth ==> forall|i: int| 0 <= i < na ==> #[trigger] af[i] == a[i]
        }),
{
    let (rw, rh) = ref_dims(tu, c_idx);
    let nl = rh + ref_idx + 1;
    let na = rw + ref_idx;
    let l = new.left_ref_samples@;
    let a = new.above_ref_samples@;
    let lf = new.left_ref_filtered_samples@;
    let af = new.above_ref_filtered_samples@;
    let ls = l.take(nl);
    let abs = a.take(na);
    assert(l.len() == 130 && lf.len() == 130 && a.len() == 129 && af.len() == 129);
    if ref_filter_flag(tu, c_idx, ref_idx) {
        assert(lf[0] == lf.take(nl)[0] && lf[rh] == lf.take(nl)[rh]);
        assert(af[0] == af.take(na)[0] && af[rw - 1] == af.take(na)[rw - 1]);
        assert(ls[0] == l[0] && ls[1] == l[1] && ls[rh] == l[rh]);
        assert(abs[0] == a[0] && abs[1] == a[1] && abs[rw - 1] == a[rw - 1]);
        assert forall|i: int| 0 < i < rh implies #[trigger] lf[i] == ((l[i - 1] + 2 * l[i] + l[i + 1] + 2) / 4) as i16 by {
            assert(lf[i] == lf.take(nl)[i]);
            assert(lf.take(nl)[i] == smoothed_left(ls, abs, rh)[i]);
            assert(ls[i - 1] == l[i - 1] && ls[i] == l[i] && ls[i + 1] == l[i + 1]);
        }
        assert forall|i: int| 0 < i < rw - 1 implies #[trigger] af[i] == ((a[i - 1] + 2 * a[i] + a[i + 1] + 2) / 4) as i16 by {
            assert(af[i] == af.take(na)[i]);
            assert(af.take(na)[i] == smoothed_above(ls, abs, rw)[i]);
            assert(abs[i - 1] == a[i - 1] && abs[i] == a[i] && abs[i + 1] == a[i + 1]);
        }
    } else {
        assert forall|i: int| 0 <= i < nl implies #[trigger] lf[i] == l[i] by {
            assert(lf[i] == lf.take(nl)[i]);
            assert(l[i] == l.take(nl)[i]);
        }
        assert forall|i: int| 0 <= i < na implies #[trigger] af[i] == a[i] by {
            assert(af[i] == af.take(na)[i]);
            assert(a[i] == a.take(na)[i]);
        }
    }
}

impl IntraPredictor {
    /// Smooths the first `rh + 1` left and `rw` above samples into `lf` and `af`.
    fn smooth_ref_samples(
        left: &[i16; 130],
        above: &[i16; 129],
        lf: &mut [i16; 130],
        af: &mut [i16; 129],
        rh: usize,
        rw: usize,
    )
        requires
            2 <= rh <= 129,
            2 <= rw <= 129,
            forall|j: int| 0 <= j <= rh ==> 0 <= #[trigger] left@[j] <= 255,
            forall|j: int| 0 <= j < rw ==> 0 <= #[trigger] above@[j] <= 255,
        ensures
            final(lf)@.take(rh + 1) == smoothed_left(left@.take(rh + 1), above@.take(rw as int), rh as int),
            final(af)@.take(rw as int) == smoothed_above(left@.take(rh + 1), above@.take(rw as int), rw as int),
            forall|j: int| rh < j < 130 ==> #[trigger] final(lf)@[j] == old(lf)@[j],
            forall|j: int| rw <= j < 129 ==> #[trigger] final(af)@[j] == old(af)@[j],
            forall|j: int| 0 <= j <= rh ==> 0 <= #[trigger] final(lf)@[j] <= 255,
            forall|j: int| 0 <= j < rw ==> 0 <= #[trigger] final(af)@[j] <= 255,
    {
        let ghost lf0 = *lf;
        let ghost af0 = *af;
        lf[0] = (left[1] + 2 * left[0] + above[0] + 2) / 4;
        let mut i: usize = 1;
        while i < rh
            invariant
                1 <= i <= rh <= 129,
                forall|j: int| 0 <= j <= rh ==> 0 <= #[trigger] left@[j] <= 255,
                forall|j: int| 0 <= j < i ==> #[trigger] lf@[j] == smoothed_left(left@, above@, rh as int)[j],
                forall|j: int| 0 <= j < i ==> 0 <= #[trigger] lf@[j] <= 255,
                0 <= above@[0] <= 255,
                forall|j: int| rh <= j < 130 ==> #[trigger] lf@[j] == lf0@[j],
            decreases rh - i,
        {
            lf[i] = (left[i + 1] + 2 * left[i] + left[i - 1] + 2) / 4;
            i += 1;
        }
        lf[rh] = left[rh];
        af[0] = (left[0] + 2 * above[0] + above[1] + 2) / 4;
        let mut i: usize = 1;
        while i < rw - 1
            invariant
                1 <= i <= rw - 1,
                2 <= rw <= 129,
                forall|j: int| 0 <= j < rw ==> 0 <= #[trigger] above@[j] <= 255,
                forall|j: int| 0 <= j < i ==> #[trigger] af@[j] == smoothed_above(left@, above@, rw as int)[j],
                forall|j: int| 0 <= j < i ==> 0 <= #[trigger] af@[j] <= 255,
                forall|j: int| 0 <= j <= rh ==> 0 <= #[trigger] lf@[j] <= 255,
                forall|j: int| rh < j < 130 ==> #[trigger] lf@[j] == lf0@[j],
                forall|j: int| rw - 1 <= j < 129 ==> #[trigger] af@[j] == af0@[j],
            decreases rw - 1 - i,
        {
            af[i] = (above[i - 1] + 2 * above[i] + above[i + 1] + 2) / 4;
            i += 1;
        }
        af[rw - 1] = above[rw - 1];
        proof {
            assert(lf@.take(rh + 1) =~= smoothed_left(left@.take(rh + 1), above@.take(rw as int), rh as int));
            assert(af@.take(rw as int) =~= smoothed_above(left@.take(rh + 1), above@.take(rw as int), rw as int));
        }
    }

    /// Prepares the reference samples of component `c_idx` of `tu` on reference line
    /// `ref_idx`: marks the neighbouring reconstructed samples that are available,
    /// substitutes the others, and stores them smoothed when the prediction mode asks
    /// for it (unsmoothed otherwise) in the filtered buffers. `is_above_right_available`
    /// and `is_below_left_available` are the unit's own neighbour availabilities.
    #[verifier::spinoff_prover]
    #[verifier::rlimit(50)]
    pub fn set_left_and_above_ref_samples(
        &mut self,
        tu: &TransformUnit,
        c_idx: usize,
        ref_idx: usize,
        tile_reconst_pixels: &Vec2d<u8>,
        is_above_right_available: bool,
        is_below_left_available: bool,
        geometry: PictureGeometry,
        ectx: &EncoderContext,
    )
        requires
            ref_geometry_ok(*tu, c_idx, ref_idx, *ectx),
            reads_ok(*tu, c_idx, ref_idx, *tile_reconst_pixels, is_above_right_available, is_below_left_available, *ectx, geometry),
        ensures
            refs_prepared(*old(self), *final(self), *tu, c_idx, ref_idx, *tile_reconst_pixels, is_above_right_available, is_below_left_available, *ectx, geometry),
    {
        let ghost lm = left_marked(*tu, c_idx, ref_idx, *tile_reconst_pixels, is_above_right_available, is_below_left_available, *ectx, geometry);
        let ghost am = above_marked(*tu, c_idx, ref_idx, *tile_reconst_pixels, is_above_right_available, is_below_left_available, *ectx, geometry);
        let (n_tb_w, n_tb_h) = tu.get_component_size(c_idx);
        let (n_cb_w, n_cb_h) = tu.cu_size[c_idx];
        let isp = tu.cu_intra_subpartitions_mode_flag;
        let (ref_w, ref_h) = if !isp || c_idx != 0 {
            (n_tb_w * 2, n_tb_h * 2)
        } else {
            (n_cb_w + n_tb_w, n_cb_h + n_tb_h)
        };
        let nl = ref_h + ref_idx + 1;
        let na = ref_w + ref_idx;
        let mut left = self.left_ref_samples;
        let mut above = self.above_ref_samples;
        let ghost l0 = left;
        let ghost a0 = above;
        Self::mark_left_ref_samples(&mut left, tu, c_idx, ref_idx, is_above_right_available, is_below_left_available, tile_reconst_pixels, geometry, ectx);
        Self::mark_above_ref_samples(&mut above, tu, c_idx, ref_idx, is_above_right_available, is_below_left_available, tile_reconst_pixels, geometry, ectx);
        let ghost lmk = left;
        let ghost amk = above;
        Self::substitute_ref_samples(&mut left, &mut above, nl, na);
        proof {
            lemma_substituted_views_in_range(lm, am);
        }
        self.left_ref_samples = left;
        self.above_ref_samples = above;
        let m = tu.cu_intra_pred_mode[c_idx].value();
        let mode_filtered = m == 0 || m == 2 || m == 34 || m == 66 || m == 72 || m == 76 || m == 78 || m == 80;
        let filter_flag = ref_idx == 0 && n_tb_w * n_tb_h > 32 && c_idx == 0 && !isp && mode_filtered;
        let mut lf = self.left_ref_filtered_samples;
        let mut af = self.above_ref_filtered_samples;
        let ghost lf0 = lf;
        let ghost af0 = af;
        if filter_flag {
            proof {
                assert forall|j: int| 0 <= j <= ref_h implies 0 <= #[trigger] left@[j] <= 255 by {
                    assert(left@[j] == left@.take(nl as int)[j]);
                }
                assert forall|j: int| 0 <= j < ref_w implies 0 <= #[trigger] above@[j] <= 255 by {
                    assert(above@[j] == above@.take(na as int)[j]);
                }
            }
            Self::smooth_ref_samples(&left, &above, &mut lf, &mut af, ref_h, ref_w);
        } else {
            let mut i: usize = 0;
            while i < nl
                invariant
                    i <= nl <= 130,
                    forall|j: int| 0 <= j < i ==> #[trigger] lf@[j] == left@[j],
                    forall|j: int| nl <= j < 130 ==> #[trigger] lf@[j] == lf0@[j],
                decreases nl - i,
            {
                lf[i] = left[i];
                i += 1;
            }
            let mut i: usize = 0;
            while i < na
                invariant
                    i <= na <= 129,
                    forall|j: int| 0 <= j < i ==> #[trigger] af@[j] == above@[j],
                    forall|j: int| na <= j < 129 ==> #[trigger] af@[j] == af0@[j],
                decreases na - i,
            {
                af[i] = above[i];
                i += 1;
            }
            proof {
                assert(lf@.take(nl as int) =~= left@.take(nl as int));
                assert(af@.take(na as int) =~= above@.take(na as int));
                assert forall|j: int| 0 <= j < nl implies 0 <= #[trigger] lf@[j] <= 255 by {
                    assert(lf@[j] == left@.take(nl as int)[j]);
                }
                assert forall|j: int| 0 <= j < na implies 0 <= #[trigger] af@[j] <= 255 by {
                    assert(af@[j] == above@.take(na as int)[j]);
                }
            }
        }
        self.left_ref_filtered_samples = lf;
        self.above_ref_filtered_samples = af;
    }
}

} // verus!
