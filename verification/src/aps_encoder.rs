//! Writing adaptation parameter sets as bits.
use crate::aps::{AdaptationParameterSet, AlfData, LmcsData, ScalingListData};
use crate::bins::{appended, lemma_appended_nothing, lemma_appended_trans, Bins};
use crate::bits::{fits, repeat_bit, word_bits};
use crate::bool_coder::{se_code, ue_bits, BoolCoder};
use crate::common::ApsParamsType;
use vstd::arithmetic::power2::pow2;
use vstd::prelude::*;

verus! {

/// `f(0) + f(1) + ... + f(n - 1)`.
pub open spec fn rows(f: spec_fn(int) -> Seq<bool>, n: int) -> Seq<bool>
    decreases n,
{
    if n <= 0 {
        Seq::empty()
    } else {
        rows(f, n - 1) + f(n - 1)
    }
}

/// `f(a) + f(a + 1) + ... + f(b - 1)`.
pub open spec fn rows_from(f: spec_fn(int) -> Seq<bool>, a: int, b: int) -> Seq<bool>
    decreases b - a,
{
    if b <= a {
        Seq::empty()
    } else {
        rows_from(f, a, b - 1) + f(b - 1)
    }
}

/// A coefficient as an Exp-Golomb magnitude followed, when nonzero, by its sign.
pub open spec fn coeff_ue(abs: usize, sign: bool) -> Seq<bool> {
    ue_bits(abs as u64) + if abs > 0 {
        seq![sign]
    } else {
        Seq::empty()
    }
}

/// A coefficient as an `n`-bit magnitude followed, when nonzero, by its sign.
pub open spec fn coeff_fl(abs: usize, sign: bool, n: nat) -> Seq<bool> {
    word_bits(abs as u64, n) + if abs > 0 {
        seq![sign]
    } else {
        Seq::empty()
    }
}

/// The first `n` coefficients of a row, Exp-Golomb coded.
pub open spec fn ue_coeff_row(abs: Seq<usize>, sign: Seq<bool>, n: int) -> Seq<bool> {
    rows(|j: int| coeff_ue(abs[j], sign[j]), n)
}

/// The first `n` coefficients of a row, with 3-bit magnitudes.
pub open spec fn fl3_coeff_row(abs: Seq<usize>, sign: Seq<bool>, n: int) -> Seq<bool> {
    rows(|j: int| coeff_fl(abs[j], sign[j], 3), n)
}

/// The first `n` values of a row, 2 bits each.
pub open spec fn fl2_row(v: Seq<usize>, n: int) -> Seq<bool> {
    rows(|j: int| word_bits(v[j] as u64, 2), n)
}

/// The least `n` with `2^n >= v`: the bits needed for an index below `v`.
pub open spec fn ceil_log2(v: nat) -> nat {
    clog2_from(v, 1)
}

/// The luma filters of adaptive loop filter data.
#[verifier::opaque]
pub open spec fn alf_luma_part(alf: AlfData, num_alf_filters: nat) -> Seq<bool> {
    let luma_n = alf.luma_num_filters_signalled as int;
    if alf.luma_filter_signal_flag {
        seq![alf.luma_ciip_flag] + ue_bits((luma_n - 1) as u64) + (if luma_n > 1 {
            rows(
                |f: int| word_bits(alf.luma_coeff_delta_idx@[f] as u64, ceil_log2(luma_n as nat)),
                num_alf_filters as int,
            )
        } else {
            Seq::empty()
        }) + rows(|sf: int| ue_coeff_row(alf.luma_coeff_abs@[sf]@, alf.luma_coeff_sign@[sf]@, 12), luma_n)
            + (if alf.luma_ciip_flag {
            rows(|sf: int| fl2_row(alf.luma_ciip_idx@[sf]@, 12), luma_n)
        } else {
            Seq::empty()
        })
    } else {
        Seq::empty()
    }
}

/// The chroma filters of adaptive loop filter data.
#[verifier::opaque]
pub open spec fn alf_chroma_part(alf: AlfData) -> Seq<bool> {
    let chroma_n = alf.chroma_num_alt_filters as int;
    if alf.chroma_filter_signal_flag {
        seq![alf.chroma_ciip_flag] + ue_bits((chroma_n - 1) as u64) + rows(
            |a: int|
                ue_coeff_row(alf.chroma_coeff_abs@[a]@, alf.chroma_coeff_sign@[a]@, 6) + if alf.chroma_ciip_flag {
                    fl2_row(alf.chroma_ciip_idx@[a]@, 6)
                } else {
                    Seq::empty()
                },
            chroma_n,
        )
    } else {
        Seq::empty()
    }
}

/// The cross-component filters of one chroma component.
#[verifier::opaque]
pub open spec fn alf_cc_part(flag: bool, n: usize, abs: Seq<Vec<usize>>, sign: Seq<Vec<bool>>) -> Seq<bool> {
    if flag {
        ue_bits((n - 1) as u64) + rows(|k: int| fl3_coeff_row(abs[k]@, sign[k]@, 7), n as int)
    } else {
        Seq::empty()
    }
}

/// The coded adaptive loop filter data.
#[verifier::opaque]
pub open spec fn alf_bits(alf: AlfData, chroma_present_flag: bool, num_alf_filters: nat) -> Seq<bool> {
    seq![alf.luma_filter_signal_flag] + (if chroma_present_flag {
        seq![alf.chroma_filter_signal_flag, alf.cc_cb_filter_signal_flag, alf.cc_cr_filter_signal_flag]
    } else {
        Seq::empty()
    }) + alf_luma_part(alf, num_alf_filters) + alf_chroma_part(alf) + alf_cc_part(
        alf.cc_cb_filter_signal_flag,
        alf.cc_cb_filters_signalled,
        alf.cc_cb_mapped_coeff_abs@,
        alf.cc_cb_coeff_sign@,
    ) + alf_cc_part(
        alf.cc_cr_filter_signal_flag,
        alf.cc_cr_filters_signalled,
        alf.cc_cr_mapped_coeff_abs@,
        alf.cc_cr_coeff_sign@,
    )
}

/// The coded luma mapping data.
#[verifier::opaque]
pub open spec fn lmcs_bits(lmcs: LmcsData, chroma_present_flag: bool) -> Seq<bool> {
    ue_bits(lmcs.min_bin_idx as u64) + ue_bits((15 - lmcs.max_bin_idx) as u64) + ue_bits(
        (lmcs.delta_cw_prec - 1) as u64,
    ) + rows_from(
        |i: int| coeff_fl(lmcs.delta_abs_cw@[i], lmcs.delta_sign_cw_flag@[i], lmcs.delta_cw_prec as nat),
        lmcs.min_bin_idx as int,
        lmcs.max_bin_idx + 1,
    ) + if chroma_present_flag {
        coeff_fl(lmcs.delta_abs_crs, lmcs.delta_sign_crs_flag, 3)
    } else {
        Seq::empty()
    }
}

/// The rows up to `j` are no longer than the rows up to `n`.
pub proof fn lemma_rows_mono(f: spec_fn(int) -> Seq<bool>, j: int, n: int)
    requires
        0 <= j <= n,
    ensures
        rows(f, j).len() <= rows(f, n).len(),
    decreases n - j,
{
    if j < n {
        lemma_rows_mono(f, j, n - 1);
    }
}

/// The rows from `a` up to `j` are no longer than those from `a` up to `n`.
pub proof fn lemma_rows_from_mono(f: spec_fn(int) -> Seq<bool>, a: int, j: int, n: int)
    requires
        a <= j <= n,
    ensures
        rows_from(f, a, j).len() <= rows_from(f, a, n).len(),
    decreases n - j,
{
    if j < n {
        lemma_rows_from_mono(f, a, j, n - 1);
    }
}

/// Room for `n` more bins, and the sequence can be appended to.
pub open spec fn open_bins(b: Bins, n: nat) -> bool {
    &&& b.wf()
    &&& b.num_bins > 0
    &&& b.num_bins + n <= usize::MAX
}

/// Every magnitude of the first `n` entries has a code and every nonzero one a sign.
pub open spec fn row_ok(abs: Seq<usize>, sign: Seq<bool>, n: int) -> bool {
    &&& abs.len() >= n
    &&& forall|j: int| 0 <= j < n ==> (#[trigger] abs[j] as u64) < u64::MAX
    &&& forall|j: int| 0 <= j < n && abs[j] > 0 ==> j < sign.len()
}

/// Every magnitude of the first `n` entries fits in `k` bits and every nonzero one has a sign.
pub open spec fn fl_row_ok(abs: Seq<usize>, sign: Seq<bool>, n: int, k: nat) -> bool {
    &&& abs.len() >= n
    &&& forall|j: int| 0 <= j < n ==> fits(#[trigger] abs[j] as u64, k)
    &&& forall|j: int| 0 <= j < n && abs[j] > 0 ==> j < sign.len()
}

fn push_coeff_ue(coder: &mut BoolCoder, bins: &mut Bins, abs: usize, sign: bool)
    requires
        open_bins(*old(bins), coeff_ue(abs, sign).len() + 130),
        (abs as u64) < u64::MAX,
    ensures
        appended(*old(bins), *final(bins), coeff_ue(abs, sign)),
        *final(coder) == *old(coder),
{
    let ghost b0 = *bins;
    coder.encode_unsigned_exp_golomb(bins, abs as u64);
    let ghost b1 = *bins;
    if abs > 0 {
        bins.push_bin(sign);
        proof {
            lemma_appended_trans(b0, b1, *bins, ue_bits(abs as u64), seq![sign]);
        }
    } else {
        proof {
            lemma_appended_nothing(b1);
            lemma_appended_trans(b0, b1, *bins, ue_bits(abs as u64), Seq::empty());
        }
    }
}

fn push_coeff_fl(bins: &mut Bins, abs: usize, sign: bool, k: usize)
    requires
        open_bins(*old(bins), coeff_fl(abs, sign, k as nat).len() + 130),
        k < 64,
        fits(abs as u64, k as nat),
    ensures
        appended(*old(bins), *final(bins), coeff_fl(abs, sign, k as nat)),
{
    let ghost b0 = *bins;
    bins.push_bins_with_size(abs as u64, k);
    let ghost b1 = *bins;
    if abs > 0 {
        bins.push_bin(sign);
        proof {
            lemma_appended_trans(b0, b1, *bins, word_bits(abs as u64, k as nat), seq![sign]);
        }
    } else {
        proof {
            lemma_appended_nothing(b1);
            lemma_appended_trans(b0, b1, *bins, word_bits(abs as u64, k as nat), Seq::empty());
        }
    }
}

fn push_ue_coeff_row(coder: &mut BoolCoder, bins: &mut Bins, abs: &Vec<usize>, sign: &Vec<bool>, n: usize)
    requires
        open_bins(*old(bins), ue_coeff_row(abs@, sign@, n as int).len() + 130),
        row_ok(abs@, sign@, n as int),
    ensures
        appended(*old(bins), *final(bins), ue_coeff_row(abs@, sign@, n as int)),
        *final(coder) == *old(coder),
{
    let ghost b0 = *bins;
    let ghost f = |j: int| coeff_ue(abs@[j], sign@[j]);
    proof {
        lemma_appended_nothing(b0);
    }
    let mut j: usize = 0;
    while j < n
        invariant
            j <= n,
            open_bins(b0, rows(f, n as int).len() + 130),
            row_ok(abs@, sign@, n as int),
            f == (|j: int| coeff_ue(abs@[j], sign@[j])),
            appended(b0, *bins, rows(f, j as int)),
            *coder == *old(coder),
        decreases n - j,
    {
        let ghost b1 = *bins;
        proof {
            lemma_rows_mono(f, j + 1, n as int);
            assert(rows(f, j + 1) == rows(f, j as int) + f(j as int));
        }
        let s = if abs[j] > 0 {
            sign[j]
        } else {
            false
        };
        proof {
            assert(abs[j as int] > 0 ==> s == sign@[j as int]);
            assert(coeff_ue(abs@[j as int], s) == f(j as int));
        }
        push_coeff_ue(coder, bins, abs[j], s);
        proof {
            lemma_appended_trans(b0, b1, *bins, rows(f, j as int), f(j as int));
        }
        j += 1;
    }
}

fn push_fl3_coeff_row(bins: &mut Bins, abs: &Vec<usize>, sign: &Vec<bool>, n: usize)
    requires
        open_bins(*old(bins), fl3_coeff_row(abs@, sign@, n as int).len() + 130),
        fl_row_ok(abs@, sign@, n as int, 3),
    ensures
        appended(*old(bins), *final(bins), fl3_coeff_row(abs@, sign@, n as int)),
{
    let ghost b0 = *bins;
    let ghost f = |j: int| coeff_fl(abs@[j], sign@[j], 3);
    proof {
        lemma_appended_nothing(b0);
    }
    let mut j: usize = 0;
    while j < n
        invariant
            j <= n,
            open_bins(b0, rows(f, n as int).len() + 130),
            fl_row_ok(abs@, sign@, n as int, 3),
            f == (|j: int| coeff_fl(abs@[j], sign@[j], 3)),
            appended(b0, *bins, rows(f, j as int)),
        decreases n - j,
    {
        let ghost b1 = *bins;
        proof {
            lemma_rows_mono(f, j + 1, n as int);
            assert(rows(f, j + 1) == rows(f, j as int) + f(j as int));
        }
        let s = if abs[j] > 0 {
            sign[j]
        } else {
            false
        };
        proof {
            assert(coeff_fl(abs@[j as int], s, 3) == f(j as int));
        }
        push_coeff_fl(bins, abs[j], s, 3);
        proof {
            lemma_appended_trans(b0, b1, *bins, rows(f, j as int), f(j as int));
        }
        j += 1;
    }
}

fn push_fl2_row(bins: &mut Bins, v: &Vec<usize>, n: usize)
    requires
        open_bins(*old(bins), fl2_row(v@, n as int).len() + 130),
        v@.len() >= n,
        forall|j: int| 0 <= j < n ==> fits(#[trigger] v@[j] as u64, 2),
    ensures
        appended(*old(bins), *final(bins), fl2_row(v@, n as int)),
{
    let ghost b0 = *bins;
    let ghost f = |j: int| word_bits(v@[j] as u64, 2);
    proof {
        lemma_appended_nothing(b0);
    }
    let mut j: usize = 0;
    while j < n
        invariant
            j <= n,
            open_bins(b0, rows(f, n as int).len() + 130),
            v@.len() >= n,
            forall|j: int| 0 <= j < n ==> fits(#[trigger] v@[j] as u64, 2),
            f == (|j: int| word_bits(v@[j] as u64, 2)),
            appended(b0, *bins, rows(f, j as int)),
        decreases n - j,
    {
        let ghost b1 = *bins;
        proof {
            lemma_rows_mono(f, j + 1, n as int);
            assert(rows(f, j + 1) == rows(f, j as int) + f(j as int));
        }
        bins.push_bins_with_size(v[j] as u64, 2);
        proof {
            lemma_appended_trans(b0, b1, *bins, rows(f, j as int), f(j as int));
        }
        j += 1;
    }
}

/// Rows agreeing entry by entry are equal.
pub proof fn lemma_rows_ext(f: spec_fn(int) -> Seq<bool>, g: spec_fn(int) -> Seq<bool>, n: int)
    requires
        forall|j: int| 0 <= j < n ==> #[trigger] f(j) == g(j),
    ensures
        rows(f, n) == rows(g, n),
    decreases n,
{
    if n > 0 {
        lemma_rows_ext(f, g, n - 1);
    }
}

/// A table of coefficient rows: `n` rows of `m` coefficients, each with a code,
/// signs present where a magnitude is nonzero.
pub open spec fn ue_table_ok(abs: Seq<Vec<usize>>, sign: Seq<Vec<bool>>, n: int, m: int) -> bool {
    &&& abs.len() >= n
    &&& forall|r: int| 0 <= r < n ==> row_ok(#[trigger] abs[r]@, if r < sign.len() { sign[r]@ } else { Seq::empty() }, m)
}

/// As `ue_table_ok`, with magnitudes of at most `k` bits.
pub open spec fn fl_table_ok(abs: Seq<Vec<usize>>, sign: Seq<Vec<bool>>, n: int, m: int, k: nat) -> bool {
    &&& abs.len() >= n
    &&& forall|r: int|
        0 <= r < n ==> fl_row_ok(#[trigger] abs[r]@, if r < sign.len() { sign[r]@ } else { Seq::empty() }, m, k)
}

/// `n` rows of `m` values of 2 bits.
pub open spec fn fl2_table_ok(v: Seq<Vec<usize>>, n: int, m: int) -> bool {
    &&& v.len() >= n
    &&& forall|r: int| 0 <= r < n ==> #[trigger] v[r]@.len() >= m && forall|j: int|
        0 <= j < m ==> fits(#[trigger] v[r]@[j] as u64, 2)
}

proof fn lemma_sign_row_irrelevant(abs: Seq<usize>, s1: Seq<bool>, s2: Seq<bool>, m: int)
    requires
        row_ok(abs, s1, m),
        forall|j: int| 0 <= j < m && abs[j] > 0 ==> s1[j] == s2[j],
    ensures
        ue_coeff_row(abs, s1, m) == ue_coeff_row(abs, s2, m),
{
    let f = |j: int| coeff_ue(abs[j], s1[j]);
    let g = |j: int| coeff_ue(abs[j], s2[j]);
    assert forall|j: int| 0 <= j < m implies #[trigger] f(j) == g(j) by {
        if abs[j] > 0 {
            assert(s1[j] == s2[j]);
        }
    }
    lemma_rows_ext(f, g, m);
}

proof fn lemma_sign_row_irrelevant_fl(abs: Seq<usize>, s1: Seq<bool>, s2: Seq<bool>, m: int)
    requires
        forall|j: int| 0 <= j < m && abs[j] > 0 ==> s1[j] == s2[j],
    ensures
        fl3_coeff_row(abs, s1, m) == fl3_coeff_row(abs, s2, m),
{
    let f = |j: int| coeff_fl(abs[j], s1[j], 3);
    let g = |j: int| coeff_fl(abs[j], s2[j], 3);
    assert forall|j: int| 0 <= j < m implies #[trigger] f(j) == g(j) by {
        if abs[j] > 0 {
            assert(s1[j] == s2[j]);
        }
    }
    lemma_rows_ext(f, g, m);
}

/// Appends `n` Exp-Golomb coefficient rows of `m` coefficients.
fn push_ue_table(
    coder: &mut BoolCoder,
    bins: &mut Bins,
    abs: &Vec<Vec<usize>>,
    sign: &Vec<Vec<bool>>,
    n: usize,
    m: usize,
)
    requires
        open_bins(*old(bins), rows(|r: int| ue_coeff_row(abs@[r]@, sign@[r]@, m as int), n as int).len() + 130),
        ue_table_ok(abs@, sign@, n as int, m as int),
    ensures
        appended(*old(bins), *final(bins), rows(|r: int| ue_coeff_row(abs@[r]@, sign@[r]@, m as int), n as int)),
        *final(coder) == *old(coder),
{
    let ghost b0 = *bins;
    let ghost f = |r: int| ue_coeff_row(abs@[r]@, sign@[r]@, m as int);
    proof {
        lemma_appended_nothing(b0);
    }
    let empty: Vec<bool> = Vec::new();
    let mut r: usize = 0;
    while r < n
        invariant
            r <= n,
            open_bins(b0, rows(f, n as int).len() + 130),
            ue_table_ok(abs@, sign@, n as int, m as int),
            f == (|r: int| ue_coeff_row(abs@[r]@, sign@[r]@, m as int)),
            empty@ == Seq::<bool>::empty(),
            appended(b0, *bins, rows(f, r as int)),
            *coder == *old(coder),
        decreases n - r,
    {
        let ghost b1 = *bins;
        proof {
            lemma_rows_mono(f, r + 1, n as int);
            assert(rows(f, r + 1) == rows(f, r as int) + f(r as int));
        }
        let srow = if r < sign.len() {
            &sign[r]
        } else {
            &empty
        };
        proof {
            assert(row_ok(abs@[r as int]@, srow@, m as int));
            lemma_sign_row_irrelevant(abs@[r as int]@, srow@, sign@[r as int]@, m as int);
        }
        push_ue_coeff_row(coder, bins, &abs[r], srow, m);
        proof {
            lemma_appended_trans(b0, b1, *bins, rows(f, r as int), f(r as int));
        }
        r += 1;
    }
}

/// Appends `n` rows of `m` coefficients with 3-bit magnitudes.
fn push_fl3_table(bins: &mut Bins, abs: &Vec<Vec<usize>>, sign: &Vec<Vec<bool>>, n: usize, m: usize)
    requires
        open_bins(*old(bins), rows(|r: int| fl3_coeff_row(abs@[r]@, sign@[r]@, m as int), n as int).len() + 130),
        fl_table_ok(abs@, sign@, n as int, m as int, 3),
    ensures
        appended(*old(bins), *final(bins), rows(|r: int| fl3_coeff_row(abs@[r]@, sign@[r]@, m as int), n as int)),
{
    let ghost b0 = *bins;
    let ghost f = |r: int| fl3_coeff_row(abs@[r]@, sign@[r]@, m as int);
    proof {
        lemma_appended_nothing(b0);
    }
    let empty: Vec<bool> = Vec::new();
    let mut r: usize = 0;
    while r < n
        invariant
            r <= n,
            open_bins(b0, rows(f, n as int).len() + 130),
            fl_table_ok(abs@, sign@, n as int, m as int, 3),
            f == (|r: int| fl3_coeff_row(abs@[r]@, sign@[r]@, m as int)),
            empty@ == Seq::<bool>::empty(),
            appended(b0, *bins, rows(f, r as int)),
        decreases n - r,
    {
        let ghost b1 = *bins;
        proof {
            lemma_rows_mono(f, r + 1, n as int);
            assert(rows(f, r + 1) == rows(f, r as int) + f(r as int));
        }
        let srow = if r < sign.len() {
            &sign[r]
        } else {
            &empty
        };
        proof {
            assert(fl_row_ok(abs@[r as int]@, srow@, m as int, 3));
            lemma_sign_row_irrelevant_fl(abs@[r as int]@, srow@, sign@[r as int]@, m as int);
        }
        push_fl3_coeff_row(bins, &abs[r], srow, m);
        proof {
            lemma_appended_trans(b0, b1, *bins, rows(f, r as int), f(r as int));
        }
        r += 1;
    }
}

/// Appends `n` rows of `m` values of 2 bits.
fn push_fl2_table(bins: &mut Bins, v: &Vec<Vec<usize>>, n: usize, m: usize)
    requires
        open_bins(*old(bins), rows(|r: int| fl2_row(v@[r]@, m as int), n as int).len() + 130),
        fl2_table_ok(v@, n as int, m as int),
    ensures
        appended(*old(bins), *final(bins), rows(|r: int| fl2_row(v@[r]@, m as int), n as int)),
{
    let ghost b0 = *bins;
    let ghost f = |r: int| fl2_row(v@[r]@, m as int);
    proof {
        lemma_appended_nothing(b0);
    }
    let mut r: usize = 0;
    while r < n
        invariant
            r <= n,
            open_bins(b0, rows(f, n as int).len() + 130),
            fl2_table_ok(v@, n as int, m as int),
            f == (|r: int| fl2_row(v@[r]@, m as int)),
            appended(b0, *bins, rows(f, r as int)),
        decreases n - r,
    {
        let ghost b1 = *bins;
        proof {
            lemma_rows_mono(f, r + 1, n as int);
            assert(rows(f, r + 1) == rows(f, r as int) + f(r as int));
        }
        push_fl2_row(bins, &v[r], m);
        proof {
            lemma_appended_trans(b0, b1, *bins, rows(f, r as int), f(r as int));
        }
        r += 1;
    }
}

/// The bits for an index below `v`.
pub fn ceil_log2_exec(v: usize) -> (r: usize)
    ensures
        r == ceil_log2(v as nat),
        r <= 64,
{
    let mut n: usize = 0;
    let mut p: u128 = 1;
    proof {
        assert(ceil_log2(v as nat) == clog2_from(v as nat, 1));
        vstd::arithmetic::power2::lemma2_to64();
    }
    while p < v as u128
        invariant
            1 <= p <= 0x1_0000_0000_0000_0000,
            n <= 64,
            p == pow2(n as nat),
            n + clog2_from(v as nat, p as nat) == ceil_log2(v as nat),
        decreases 0x1_0000_0000_0000_0000 - p,
    {
        proof {
            vstd::arithmetic::power2::lemma_pow2_unfold((n + 1) as nat);
            vstd::arithmetic::power2::lemma2_to64_rest();
            if n >= 64 {
                crate::bits::lemma_pow2_le(64, n as nat);
            }
            crate::bits::lemma_pow2_le((n + 1) as nat, 64);
        }
        p = p * 2;
        n = n + 1;
    }
    n
}

/// The steps from `p` on, doubling, until `v` is reached.
pub open spec fn clog2_from(v: nat, p: nat) -> nat
    decreases (if p < v {
        v - p
    } else {
        0
    }),
{
    if p == 0 || p >= v {
        0
    } else {
        1 + clog2_from(v, 2 * p)
    }
}

/// The data an adaptive loop filter set must hold to be written: at least one filter
/// of each kind signalled, every listed row present, every field within its width.
#[verifier::opaque]
pub open spec fn alf_ok(alf: AlfData, num_alf_filters: nat) -> bool {
    let luma_n = alf.luma_num_filters_signalled as int;
    let chroma_n = alf.chroma_num_alt_filters as int;
    &&& alf.luma_filter_signal_flag ==> {
        &&& luma_n >= 1
        &&& (luma_n > 1 ==> ceil_log2(luma_n as nat) < 64 && alf.luma_coeff_delta_idx@.len() >= num_alf_filters && forall|f: int|
            0 <= f < num_alf_filters ==> fits(
                #[trigger] alf.luma_coeff_delta_idx@[f] as u64,
                ceil_log2(luma_n as nat),
            ))
        &&& ue_table_ok(alf.luma_coeff_abs@, alf.luma_coeff_sign@, luma_n, 12)
        &&& (alf.luma_ciip_flag ==> fl2_table_ok(alf.luma_ciip_idx@, luma_n, 12))
    }
    &&& alf.chroma_filter_signal_flag ==> {
        &&& chroma_n >= 1
        &&& ue_table_ok(alf.chroma_coeff_abs@, alf.chroma_coeff_sign@, chroma_n, 6)
        &&& (alf.chroma_ciip_flag ==> fl2_table_ok(alf.chroma_ciip_idx@, chroma_n, 6))
    }
    &&& alf.cc_cb_filter_signal_flag ==> alf.cc_cb_filters_signalled >= 1 && fl_table_ok(
        alf.cc_cb_mapped_coeff_abs@,
        alf.cc_cb_coeff_sign@,
        alf.cc_cb_filters_signalled as int,
        7,
        3,
    )
    &&& alf.cc_cr_filter_signal_flag ==> alf.cc_cr_filters_signalled >= 1 && fl_table_ok(
        alf.cc_cr_mapped_coeff_abs@,
        alf.cc_cr_coeff_sign@,
        alf.cc_cr_filters_signalled as int,
        7,
        3,
    )
}

fn push_chroma_alt_filters(coder: &mut BoolCoder, bins: &mut Bins, alf: &AlfData)
    requires
        open_bins(
            *old(bins),
            rows(
                |a: int|
                    ue_coeff_row(alf.chroma_coeff_abs@[a]@, alf.chroma_coeff_sign@[a]@, 6) + if alf.chroma_ciip_flag {
                        fl2_row(alf.chroma_ciip_idx@[a]@, 6)
                    } else {
                        Seq::empty()
                    },
                alf.chroma_num_alt_filters as int,
            ).len() + 130,
        ),
        ue_table_ok(alf.chroma_coeff_abs@, alf.chroma_coeff_sign@, alf.chroma_num_alt_filters as int, 6),
        alf.chroma_ciip_flag ==> fl2_table_ok(alf.chroma_ciip_idx@, alf.chroma_num_alt_filters as int, 6),
    ensures
        appended(
            *old(bins),
            *final(bins),
            rows(
                |a: int|
                    ue_coeff_row(alf.chroma_coeff_abs@[a]@, alf.chroma_coeff_sign@[a]@, 6) + if alf.chroma_ciip_flag {
                        fl2_row(alf.chroma_ciip_idx@[a]@, 6)
                    } else {
                        Seq::empty()
                    },
                alf.chroma_num_alt_filters as int,
            ),
        ),
        *final(coder) == *old(coder),
{
    let ghost b0 = *bins;
    let ghost f = |a: int|
        ue_coeff_row(alf.chroma_coeff_abs@[a]@, alf.chroma_coeff_sign@[a]@, 6) + if alf.chroma_ciip_flag {
            fl2_row(alf.chroma_ciip_idx@[a]@, 6)
        } else {
            Seq::empty()
        };
    let n = alf.chroma_num_alt_filters;
    proof {
        lemma_appended_nothing(b0);
    }
    let empty: Vec<bool> = Vec::new();
    let mut a: usize = 0;
    while a < n
        invariant
            a <= n,
            n == alf.chroma_num_alt_filters,
            open_bins(b0, rows(f, n as int).len() + 130),
            ue_table_ok(alf.chroma_coeff_abs@, alf.chroma_coeff_sign@, n as int, 6),
            alf.chroma_ciip_flag ==> fl2_table_ok(alf.chroma_ciip_idx@, n as int, 6),
            f == (|a: int|
                ue_coeff_row(alf.chroma_coeff_abs@[a]@, alf.chroma_coeff_sign@[a]@, 6) + if alf.chroma_ciip_flag {
                    fl2_row(alf.chroma_ciip_idx@[a]@, 6)
                } else {
                    Seq::empty()
                }),
            empty@ == Seq::<bool>::empty(),
            appended(b0, *bins, rows(f, a as int)),
            *coder == *old(coder),
        decreases n - a,
    {
        let ghost b1 = *bins;
        let ghost coeffs = ue_coeff_row(alf.chroma_coeff_abs@[a as int]@, alf.chroma_coeff_sign@[a as int]@, 6);
        proof {
            lemma_rows_mono(f, a + 1, n as int);
            assert(rows(f, a + 1) == rows(f, a as int) + f(a as int));
        }
        let srow = if a < alf.chroma_coeff_sign.len() {
            &alf.chroma_coeff_sign[a]
        } else {
            &empty
        };
        proof {
            assert(row_ok(alf.chroma_coeff_abs@[a as int]@, srow@, 6));
            lemma_sign_row_irrelevant(alf.chroma_coeff_abs@[a as int]@, srow@, alf.chroma_coeff_sign@[a as int]@, 6);
        }
        push_ue_coeff_row(coder, bins, &alf.chroma_coeff_abs[a], srow, 6);
        let ghost b2 = *bins;
        proof {
            lemma_appended_trans(b0, b1, b2, rows(f, a as int), coeffs);
        }
        if alf.chroma_ciip_flag {
            proof {
                assert(alf.chroma_ciip_idx@[a as int]@.len() >= 6);
            }
            push_fl2_row(bins, &alf.chroma_ciip_idx[a], 6);
            proof {
                lemma_appended_trans(b0, b2, *bins, rows(f, a as int) + coeffs, fl2_row(alf.chroma_ciip_idx@[a as int]@, 6));
                assert(rows(f, a as int) + coeffs + fl2_row(alf.chroma_ciip_idx@[a as int]@, 6) =~= rows(f, a + 1));
            }
        } else {
            proof {
                assert(rows(f, a as int) + coeffs =~= rows(f, a + 1));
            }
        }
        a += 1;
    }
}

fn push_delta_idx(bins: &mut Bins, alf: &AlfData, num_alf_filters: usize, n: usize)
    requires
        n < 64,
        n == ceil_log2(alf.luma_num_filters_signalled as nat),
        open_bins(
            *old(bins),
            rows(|f: int| word_bits(alf.luma_coeff_delta_idx@[f] as u64, n as nat), num_alf_filters as int).len()
                + 130,
        ),
        alf.luma_coeff_delta_idx@.len() >= num_alf_filters,
        forall|f: int|
            0 <= f < num_alf_filters ==> fits(#[trigger] alf.luma_coeff_delta_idx@[f] as u64, n as nat),
    ensures
        appended(
            *old(bins),
            *final(bins),
            rows(|f: int| word_bits(alf.luma_coeff_delta_idx@[f] as u64, n as nat), num_alf_filters as int),
        ),
{
    let ghost b0 = *bins;
    let ghost g = |f: int| word_bits(alf.luma_coeff_delta_idx@[f] as u64, n as nat);
    proof {
        lemma_appended_nothing(b0);
    }
    let mut f: usize = 0;
    while f < num_alf_filters
        invariant
            f <= num_alf_filters,
            n < 64,
            open_bins(b0, rows(g, num_alf_filters as int).len() + 130),
            alf.luma_coeff_delta_idx@.len() >= num_alf_filters,
            forall|f: int|
                0 <= f < num_alf_filters ==> fits(#[trigger] alf.luma_coeff_delta_idx@[f] as u64, n as nat),
            g == (|f: int| word_bits(alf.luma_coeff_delta_idx@[f] as u64, n as nat)),
            appended(b0, *bins, rows(g, f as int)),
        decreases num_alf_filters - f,
    {
        let ghost b1 = *bins;
        proof {
            lemma_rows_mono(g, f + 1, num_alf_filters as int);
            assert(rows(g, f + 1) == rows(g, f as int) + g(f as int));
            assert(bins.wf() && bins.num_bins > 0);
        }
        bins.push_bins_with_size(alf.luma_coeff_delta_idx[f] as u64, n);
        proof {
            lemma_appended_trans(b0, b1, *bins, rows(g, f as int), g(f as int));
        }
        f += 1;
    }
}

/// Appends a single flag to an open sequence, extending what was appended since `b0` by it.
pub fn push_flag(bins: &mut Bins, b: bool, Ghost(b0): Ghost<Bins>, Ghost(acc): Ghost<Seq<bool>>)
    requires
        appended(b0, *old(bins), acc),
        open_bins(*old(bins), 1),
    ensures
        appended(b0, *final(bins), acc.push(b)),
        final(bins).wf() && final(bins).num_bins > 0,
{
    let ghost prev = *bins;
    bins.push_bin(b);
    proof {
        lemma_appended_trans(b0, prev, *bins, acc, seq![b]);
        assert(acc + seq![b] =~= acc.push(b));
    }
}

fn push_alf_luma(coder: &mut BoolCoder, bins: &mut Bins, alf: &AlfData, num_alf_filters: usize)
    requires
        open_bins(*old(bins), alf_luma_part(*alf, num_alf_filters as nat).len() + 130),
        alf_ok(*alf, num_alf_filters as nat),
        alf.luma_filter_signal_flag,
    ensures
        appended(*old(bins), *final(bins), alf_luma_part(*alf, num_alf_filters as nat)),
        *final(coder) == *old(coder),
{
    reveal(alf_ok);
    reveal(alf_luma_part);
    let ghost b0 = *bins;
    let luma_n = alf.luma_num_filters_signalled;
    let ghost delta_rows = rows(
        |f: int| word_bits(alf.luma_coeff_delta_idx@[f] as u64, ceil_log2(luma_n as nat)),
        num_alf_filters as int,
    );
    let ghost luma_coeffs = rows(
        |sf: int| ue_coeff_row(alf.luma_coeff_abs@[sf]@, alf.luma_coeff_sign@[sf]@, 12),
        luma_n as int,
    );
    let ghost luma_ciip = rows(|sf: int| fl2_row(alf.luma_ciip_idx@[sf]@, 12), luma_n as int);
    proof {
        lemma_appended_nothing(b0);
    }
    push_flag(bins, alf.luma_ciip_flag, Ghost(b0), Ghost(Seq::empty()));
    let ghost prev = *bins;
    coder.encode_unsigned_exp_golomb(bins, luma_n as u64 - 1);
    let ghost mut acc = seq![alf.luma_ciip_flag] + ue_bits((luma_n - 1) as u64);
    proof {
        assert(Seq::<bool>::empty().push(alf.luma_ciip_flag) =~= seq![alf.luma_ciip_flag]);
        lemma_appended_trans(b0, prev, *bins, seq![alf.luma_ciip_flag], ue_bits((luma_n - 1) as u64));
    }
    if luma_n > 1 {
        let n = ceil_log2_exec(luma_n);
        let ghost prev = *bins;
        push_delta_idx(bins, alf, num_alf_filters, n);
        proof {
            lemma_appended_trans(b0, prev, *bins, acc, delta_rows);
            acc = acc + delta_rows;
        }
    } else {
        proof {
            assert(acc + Seq::<bool>::empty() =~= acc);
        }
    }
    let ghost prev = *bins;
    push_ue_table(coder, bins, &alf.luma_coeff_abs, &alf.luma_coeff_sign, luma_n, 12);
    proof {
        lemma_appended_trans(b0, prev, *bins, acc, luma_coeffs);
        acc = acc + luma_coeffs;
    }
    if alf.luma_ciip_flag {
        let ghost prev = *bins;
        push_fl2_table(bins, &alf.luma_ciip_idx, luma_n, 12);
        proof {
            lemma_appended_trans(b0, prev, *bins, acc, luma_ciip);
            acc = acc + luma_ciip;
        }
    }
    proof {
        assert(acc =~= alf_luma_part(*alf, num_alf_filters as nat));
    }
}

fn push_alf_chroma(coder: &mut BoolCoder, bins: &mut Bins, alf: &AlfData)
    requires
        open_bins(*old(bins), alf_chroma_part(*alf).len() + 130),
        alf_ok(*alf, 0),
        alf.chroma_filter_signal_flag,
    ensures
        appended(*old(bins), *final(bins), alf_chroma_part(*alf)),
        *final(coder) == *old(coder),
{
    reveal(alf_ok);
    reveal(alf_chroma_part);
    let ghost b0 = *bins;
    let chroma_n = alf.chroma_num_alt_filters;
    proof {
        lemma_appended_nothing(b0);
    }
    push_flag(bins, alf.chroma_ciip_flag, Ghost(b0), Ghost(Seq::empty()));
    let ghost prev = *bins;
    coder.encode_unsigned_exp_golomb(bins, chroma_n as u64 - 1);
    proof {
        assert(Seq::<bool>::empty().push(alf.chroma_ciip_flag) =~= seq![alf.chroma_ciip_flag]);
        lemma_appended_trans(b0, prev, *bins, seq![alf.chroma_ciip_flag], ue_bits((chroma_n - 1) as u64));
    }
    let ghost prev = *bins;
    push_chroma_alt_filters(coder, bins, alf);
    proof {
        let chroma_rows = rows(
            |a: int|
                ue_coeff_row(alf.chroma_coeff_abs@[a]@, alf.chroma_coeff_sign@[a]@, 6) + if alf.chroma_ciip_flag {
                    fl2_row(alf.chroma_ciip_idx@[a]@, 6)
                } else {
                    Seq::empty()
                },
            chroma_n as int,
        );
        lemma_appended_trans(
            b0,
            prev,
            *bins,
            seq![alf.chroma_ciip_flag] + ue_bits((chroma_n - 1) as u64),
            chroma_rows,
        );
    }
}

fn push_alf_cc(
    coder: &mut BoolCoder,
    bins: &mut Bins,
    flag: bool,
    n: usize,
    abs: &Vec<Vec<usize>>,
    sign: &Vec<Vec<bool>>,
)
    requires
        open_bins(*old(bins), alf_cc_part(flag, n, abs@, sign@).len() + 130),
        flag ==> n >= 1 && fl_table_ok(abs@, sign@, n as int, 7, 3),
    ensures
        appended(*old(bins), *final(bins), alf_cc_part(flag, n, abs@, sign@)),
        *final(coder) == *old(coder),
{
    reveal(alf_cc_part);
    let ghost b0 = *bins;
    if flag {
        coder.encode_unsigned_exp_golomb(bins, n as u64 - 1);
        let ghost prev = *bins;
        push_fl3_table(bins, abs, sign, n, 7);
        proof {
            lemma_appended_trans(
                b0,
                prev,
                *bins,
                ue_bits((n - 1) as u64),
                rows(|k: int| fl3_coeff_row(abs@[k]@, sign@[k]@, 7), n as int),
            );
        }
    } else {
        proof {
            lemma_appended_nothing(b0);
        }
    }
}

fn push_alf(coder: &mut BoolCoder, bins: &mut Bins, alf: &AlfData, chroma_present_flag: bool, num_alf_filters: usize)
    requires
        open_bins(*old(bins), alf_bits(*alf, chroma_present_flag, num_alf_filters as nat).len() + 130),
        alf_ok(*alf, num_alf_filters as nat),
    ensures
        appended(*old(bins), *final(bins), alf_bits(*alf, chroma_present_flag, num_alf_filters as nat)),
        *final(coder) == *old(coder),
{
    reveal(alf_bits);
    reveal(alf_ok);
    let ghost b0 = *bins;
    let ghost chroma_flags = if chroma_present_flag {
        seq![alf.chroma_filter_signal_flag, alf.cc_cb_filter_signal_flag, alf.cc_cr_filter_signal_flag]
    } else {
        Seq::empty()
    };
    let ghost luma_part = alf_luma_part(*alf, num_alf_filters as nat);
    let ghost chroma_part = alf_chroma_part(*alf);
    let ghost cb_part = alf_cc_part(
        alf.cc_cb_filter_signal_flag,
        alf.cc_cb_filters_signalled,
        alf.cc_cb_mapped_coeff_abs@,
        alf.cc_cb_coeff_sign@,
    );
    let ghost cr_part = alf_cc_part(
        alf.cc_cr_filter_signal_flag,
        alf.cc_cr_filters_signalled,
        alf.cc_cr_mapped_coeff_abs@,
        alf.cc_cr_coeff_sign@,
    );
    proof {
        lemma_appended_nothing(b0);
    }
    push_flag(bins, alf.luma_filter_signal_flag, Ghost(b0), Ghost(Seq::empty()));
    let ghost mut acc: Seq<bool> = seq![alf.luma_filter_signal_flag];
    proof {
        assert(Seq::<bool>::empty().push(alf.luma_filter_signal_flag) =~= acc);
    }
    if chroma_present_flag {
        push_flag(bins, alf.chroma_filter_signal_flag, Ghost(b0), Ghost(acc));
        push_flag(bins, alf.cc_cb_filter_signal_flag, Ghost(b0), Ghost(acc.push(alf.chroma_filter_signal_flag)));
        push_flag(
            bins,
            alf.cc_cr_filter_signal_flag,
            Ghost(b0),
            Ghost(acc.push(alf.chroma_filter_signal_flag).push(alf.cc_cb_filter_signal_flag)),
        );
        proof {
            assert(acc.push(alf.chroma_filter_signal_flag).push(alf.cc_cb_filter_signal_flag).push(
                alf.cc_cr_filter_signal_flag,
            ) =~= acc + chroma_flags);
        }
    } else {
        proof {
            assert(acc + chroma_flags =~= acc);
        }
    }
    proof {
        acc = acc + chroma_flags;
    }
    let ghost prev = *bins;
    if alf.luma_filter_signal_flag {
        push_alf_luma(coder, bins, alf, num_alf_filters);
    } else {
        proof {
            reveal(alf_luma_part);
            lemma_appended_nothing(prev);
        }
    }
    proof {
        lemma_appended_trans(b0, prev, *bins, acc, luma_part);
        acc = acc + luma_part;
    }
    let ghost prev = *bins;
    if alf.chroma_filter_signal_flag {
        push_alf_chroma(coder, bins, alf);
    } else {
        proof {
            reveal(alf_chroma_part);
            lemma_appended_nothing(prev);
        }
    }
    proof {
        lemma_appended_trans(b0, prev, *bins, acc, chroma_part);
        acc = acc + chroma_part;
    }
    let ghost prev = *bins;
    push_alf_cc(
        coder,
        bins,
        alf.cc_cb_filter_signal_flag,
        alf.cc_cb_filters_signalled,
        &alf.cc_cb_mapped_coeff_abs,
        &alf.cc_cb_coeff_sign,
    );
    proof {
        lemma_appended_trans(b0, prev, *bins, acc, cb_part);
        acc = acc + cb_part;
    }
    let ghost prev = *bins;
    push_alf_cc(
        coder,
        bins,
        alf.cc_cr_filter_signal_flag,
        alf.cc_cr_filters_signalled,
        &alf.cc_cr_mapped_coeff_abs,
        &alf.cc_cr_coeff_sign,
    );
    proof {
        lemma_appended_trans(b0, prev, *bins, acc, cr_part);
        assert(acc + cr_part =~= alf_bits(*alf, chroma_present_flag, num_alf_filters as nat));
    }
}

/// The data a luma mapping set must hold to be written.
#[verifier::opaque]
pub open spec fn lmcs_ok(lmcs: LmcsData, chroma_present_flag: bool) -> bool {
    &&& lmcs.max_bin_idx <= 15
    &&& 1 <= lmcs.delta_cw_prec < 64
    &&& (lmcs.min_bin_idx as u64) < u64::MAX
    &&& forall|i: int|
        lmcs.min_bin_idx <= i <= lmcs.max_bin_idx ==> i < lmcs.delta_abs_cw@.len() && fits(
            #[trigger] lmcs.delta_abs_cw@[i] as u64,
            lmcs.delta_cw_prec as nat,
        ) && (lmcs.delta_abs_cw@[i] > 0 ==> i < lmcs.delta_sign_cw_flag@.len())
    &&& chroma_present_flag ==> fits(lmcs.delta_abs_crs as u64, 3)
}

fn push_lmcs(coder: &mut BoolCoder, bins: &mut Bins, lmcs: &LmcsData, chroma_present_flag: bool)
    requires
        open_bins(*old(bins), lmcs_bits(*lmcs, chroma_present_flag).len() + 130),
        lmcs_ok(*lmcs, chroma_present_flag),
    ensures
        appended(*old(bins), *final(bins), lmcs_bits(*lmcs, chroma_present_flag)),
        *final(coder) == *old(coder),
{
    reveal(lmcs_bits);
    reveal(lmcs_ok);
    let ghost b0 = *bins;
    let ghost f = |i: int| coeff_fl(lmcs.delta_abs_cw@[i], lmcs.delta_sign_cw_flag@[i], lmcs.delta_cw_prec as nat);
    let ghost head = ue_bits(lmcs.min_bin_idx as u64) + ue_bits((15 - lmcs.max_bin_idx) as u64) + ue_bits(
        (lmcs.delta_cw_prec - 1) as u64,
    );
    let ghost body = rows_from(f, lmcs.min_bin_idx as int, lmcs.max_bin_idx + 1);
    let ghost tail = if chroma_present_flag {
        coeff_fl(lmcs.delta_abs_crs, lmcs.delta_sign_crs_flag, 3)
    } else {
        Seq::empty()
    };
    proof {
        assert(lmcs_bits(*lmcs, chroma_present_flag) == head + body + tail);
    }
    coder.encode_unsigned_exp_golomb(bins, lmcs.min_bin_idx as u64);
    let ghost p1 = *bins;
    coder.encode_unsigned_exp_golomb(bins, lmcs.delta_max_bin_idx() as u64);
    let ghost p2 = *bins;
    coder.encode_unsigned_exp_golomb(bins, lmcs.delta_cw_prec as u64 - 1);
    proof {
        lemma_appended_trans(b0, p1, p2, ue_bits(lmcs.min_bin_idx as u64), ue_bits((15 - lmcs.max_bin_idx) as u64));
        lemma_appended_trans(
            b0,
            p2,
            *bins,
            ue_bits(lmcs.min_bin_idx as u64) + ue_bits((15 - lmcs.max_bin_idx) as u64),
            ue_bits((lmcs.delta_cw_prec - 1) as u64),
        );
    }
    let mut i = lmcs.min_bin_idx;
    while i <= lmcs.max_bin_idx
        invariant
            lmcs.min_bin_idx <= i <= lmcs.max_bin_idx + 1 || (i == lmcs.min_bin_idx && i > lmcs.max_bin_idx),
            lmcs.max_bin_idx <= 15,
            lmcs_ok(*lmcs, chroma_present_flag),
            open_bins(b0, (head + body + tail).len() + 130),
            f == (|i: int| coeff_fl(lmcs.delta_abs_cw@[i], lmcs.delta_sign_cw_flag@[i], lmcs.delta_cw_prec as nat)),
            body == rows_from(f, lmcs.min_bin_idx as int, lmcs.max_bin_idx + 1),
            appended(b0, *bins, head + rows_from(f, lmcs.min_bin_idx as int, i as int)),
            *coder == *old(coder),
        decreases lmcs.max_bin_idx + 1 - i,
    {
        proof {
            reveal(lmcs_ok);
        }
        let ghost prev = *bins;
        proof {
            lemma_rows_from_mono(f, lmcs.min_bin_idx as int, i + 1, lmcs.max_bin_idx + 1);
            assert(rows_from(f, lmcs.min_bin_idx as int, i + 1) == rows_from(f, lmcs.min_bin_idx as int, i as int)
                + f(i as int));
        }
        let s = if lmcs.delta_abs_cw[i] > 0 {
            lmcs.delta_sign_cw_flag[i]
        } else {
            false
        };
        proof {
            assert(coeff_fl(lmcs.delta_abs_cw@[i as int], s, lmcs.delta_cw_prec as nat) == f(i as int));
        }
        push_coeff_fl(bins, lmcs.delta_abs_cw[i], s, lmcs.delta_cw_prec);
        proof {
            lemma_appended_trans(b0, prev, *bins, head + rows_from(f, lmcs.min_bin_idx as int, i as int), f(i as int));
            assert(head + rows_from(f, lmcs.min_bin_idx as int, i as int) + f(i as int) =~= head + rows_from(
                f,
                lmcs.min_bin_idx as int,
                i + 1,
            ));
        }
        i += 1;
    }
    proof {
        if lmcs.min_bin_idx > lmcs.max_bin_idx {
            assert(rows_from(f, lmcs.min_bin_idx as int, lmcs.min_bin_idx as int) =~= Seq::<bool>::empty());
        }
        assert(rows_from(f, lmcs.min_bin_idx as int, i as int) == body);
    }
    let ghost prev = *bins;
    if chroma_present_flag {
        push_coeff_fl(bins, lmcs.delta_abs_crs, lmcs.delta_sign_crs_flag, 3);
    } else {
        proof {
            lemma_appended_nothing(prev);
        }
    }
    proof {
        lemma_appended_trans(b0, prev, *bins, head + body, tail);
    }
}

/// The side of scaling matrix `id`: 2, 4 or 8.
pub open spec fn sl_size(id: int) -> int {
    if id < 2 {
        2
    } else if id < 8 {
        4
    } else {
        8
    }
}

/// Matrix `id` is written: with chroma present every matrix, else the luma ones.
pub open spec fn sl_listed(id: int, chroma_present_flag: bool) -> bool {
    chroma_present_flag || id % 3 == 2 || id == 27
}

/// Coefficient `i` of matrix `id` is not coded: the bottom-right quarter of the
/// 64-sample matrices, by position `scan[i]` in the diagonal scan.
pub open spec fn sl_skipped(id: int, i: int, scan: Seq<(usize, usize)>) -> bool {
    id > 25 && i < scan.len() && scan[i].0 >= 4 && scan[i].1 >= 4
}

/// The first `n` coded coefficient deltas of matrix `id`.
pub open spec fn sl_delta_bits(sl: ScalingListData, id: int, scan: Seq<(usize, usize)>, n: int) -> Seq<bool> {
    rows(
        |i: int|
            if sl_skipped(id, i, scan) {
                Seq::empty()
            } else {
                ue_bits(se_code(sl.delta_coef[id]@[i] as i64))
            },
        n,
    )
}

/// The coded scaling matrix `id`.
pub open spec fn sl_list_bits(sl: ScalingListData, id: int, chroma_present_flag: bool, scan: Seq<(usize, usize)>) -> Seq<bool> {
    let copy = sl.copy_mode_flag[id];
    let pred = sl.pred_mode_flag[id];
    if !sl_listed(id, chroma_present_flag) {
        Seq::empty()
    } else {
        seq![copy] + (if !copy {
            seq![pred]
        } else {
            Seq::empty()
        }) + (if (copy || pred) && id != 0 && id != 2 && id != 8 {
            ue_bits(sl.pred_id_delta[id] as u64)
        } else {
            Seq::empty()
        }) + (if !copy {
            (if id > 13 {
                ue_bits(se_code(sl.dc_coef[id - 14] as i64))
            } else {
                Seq::empty()
            }) + sl_delta_bits(sl, id, scan, sl_size(id) * sl_size(id))
        } else {
            Seq::empty()
        })
    }
}

/// The coded scaling list data.
#[verifier::opaque]
pub open spec fn sl_bits(sl: ScalingListData, chroma_present_flag: bool, scan: Seq<(usize, usize)>) -> Seq<bool> {
    rows(|id: int| sl_list_bits(sl, id, chroma_present_flag, scan), 28)
}

/// The sum of the coded deltas among the first `n` coefficients of matrix `id`.
pub open spec fn sl_delta_sum(sl: ScalingListData, id: int, scan: Seq<(usize, usize)>, n: int) -> int
    decreases n,
{
    if n <= 0 {
        0
    } else {
        sl_delta_sum(sl, id, scan, n - 1) + if sl_skipped(id, n - 1, scan) {
            0
        } else {
            sl.delta_coef[id]@[n - 1] as int
        }
    }
}

/// The value of coefficient `i` of matrix `id`: the DC value (for the 16x16 and
/// larger matrices) plus the coded deltas up to and including `i`.
pub open spec fn sl_coef(sl: ScalingListData, id: int, scan: Seq<(usize, usize)>, i: int) -> int {
    (if id > 13 {
        sl.dc_coef[id - 14] as int
    } else {
        0
    }) + sl_delta_sum(sl, id, scan, i + 1)
}

/// Matrix `id` is written with its own coefficients.
pub open spec fn sl_explicit(sl: ScalingListData, id: int, chroma_present_flag: bool) -> bool {
    sl_listed(id, chroma_present_flag) && !sl.copy_mode_flag[id]
}

/// The data scaling lists must hold to be written, with the table the matrix
/// values go to: every coded value has a code, every explicit matrix its deltas
/// and its row in `table`, and every running sum fits an `isize`.
#[verifier::opaque]
pub open spec fn sl_ok(sl: ScalingListData, chroma_present_flag: bool, scan: Seq<(usize, usize)>, table: Seq<Vec<isize>>) -> bool {
    forall|id: int|
        0 <= id < 28 && sl_listed(id, chroma_present_flag) ==> {
            &&& (#[trigger] sl.pred_id_delta[id] as u64) < u64::MAX
            &&& (!sl.copy_mode_flag[id] ==> {
                &&& sl.delta_coef[id]@.len() >= sl_size(id) * sl_size(id)
                &&& id < table.len() && table[id]@.len() >= sl_size(id) * sl_size(id)
                &&& (id > 13 ==> sl.dc_coef[id - 14] as i64 > i64::MIN)
                &&& forall|i: int|
                    0 <= i < sl_size(id) * sl_size(id) ==> sl.delta_coef[id]@[i] as i64 > i64::MIN
                        && isize::MIN <= #[trigger] sl_coef(sl, id, scan, i) <= isize::MAX
                        && isize::MIN <= sl_coef(sl, id, scan, i) - (if sl_skipped(id, i, scan) { 0 } else { sl.delta_coef[id]@[i] as int }) <= isize::MAX
            })
        }
}

/// `b` is `a` with the first `size(id)^2` values of each explicit matrix's row set
/// to the matrix values, for the matrices before `upto`.
pub open spec fn sl_table_set(
    a: Seq<Vec<isize>>,
    b: Seq<Vec<isize>>,
    sl: ScalingListData,
    chroma_present_flag: bool,
    scan: Seq<(usize, usize)>,
    upto: int,
) -> bool {
    &&& b.len() == a.len()
    &&& forall|r: int| 0 <= r < a.len() ==> (#[trigger] b[r])@.len() == a[r]@.len()
    &&& forall|r: int, j: int|
        0 <= r < a.len() && 0 <= j < a[r]@.len() ==> #[trigger] b[r]@[j] == if r < upto && 0 <= r < 28
            && sl_explicit(sl, r, chroma_present_flag) && j < sl_size(r) * sl_size(r) {
            sl_coef(sl, r, scan, j) as isize
        } else {
            a[r]@[j]
        }
}

fn push_sl_deltas(
    coder: &mut BoolCoder,
    bins: &mut Bins,
    sl: &ScalingListData,
    id: usize,
    scan: &Vec<(usize, usize)>,
    table: &mut Vec<Vec<isize>>,
    Ghost(chroma_present_flag): Ghost<bool>,
)
    requires
        id < 28,
        sl_explicit(*sl, id as int, chroma_present_flag),
        sl_ok(*sl, chroma_present_flag, scan@, old(table)@),
        open_bins(
            *old(bins),
            ((if id > 13 {
                ue_bits(se_code(sl.dc_coef[id - 14] as i64))
            } else {
                Seq::empty()
            }) + sl_delta_bits(*sl, id as int, scan@, sl_size(id as int) * sl_size(id as int))).len() + 130,
        ),
    ensures
        appended(
            *old(bins),
            *final(bins),
            (if id > 13 {
                ue_bits(se_code(sl.dc_coef[id - 14] as i64))
            } else {
                Seq::empty()
            }) + sl_delta_bits(*sl, id as int, scan@, sl_size(id as int) * sl_size(id as int)),
        ),
        *final(coder) == *old(coder),
        final(table)@.len() == old(table)@.len(),
        forall|r: int| 0 <= r < old(table)@.len() ==> (#[trigger] final(table)@[r])@.len() == old(table)@[r]@.len(),
        forall|r: int, j: int|
            0 <= r < old(table)@.len() && 0 <= j < old(table)@[r]@.len() ==> #[trigger] final(table)@[r]@[j]
                == if r == id && j < sl_size(r) * sl_size(r) {
                sl_coef(*sl, r, scan@, j) as isize
            } else {
                old(table)@[r]@[j]
            },
{
    reveal(sl_ok);
    let ghost b0 = *bins;
    let ghost t0 = table@;
    let n: usize = if id < 2 {
        4
    } else if id < 8 {
        16
    } else {
        64
    };
    proof {
        assert(sl_ok(*sl, chroma_present_flag, scan@, t0));
        assert((sl.pred_id_delta[id as int] as u64) < u64::MAX);
        assert(n == sl_size(id as int) * sl_size(id as int));
    }
    let ghost bounded = sl.delta_coef[id as int]@.len() >= n && id < t0.len() && t0[id as int]@.len() >= n
        && forall|k: int|
        0 <= k < n ==> sl.delta_coef[id as int]@[k] as i64 > i64::MIN && isize::MIN <= #[trigger] sl_coef(
            *sl,
            id as int,
            scan@,
            k,
        ) <= isize::MAX;
    proof {
        assert(sl_listed(id as int, chroma_present_flag) && !sl.copy_mode_flag[id as int]);
        assert((sl.pred_id_delta[id as int] as u64) < u64::MAX);
        assert(sl.delta_coef[id as int]@.len() >= n);
        assert(id < t0.len() && t0[id as int]@.len() >= n);
        assert forall|k: int| 0 <= k < n implies sl.delta_coef[id as int]@[k] as i64 > i64::MIN && isize::MIN
            <= #[trigger] sl_coef(*sl, id as int, scan@, k) <= isize::MAX by {
            assert(isize::MIN <= sl_coef(*sl, id as int, scan@, k) <= isize::MAX);
        }
        assert(bounded);
    }
    let ghost f = |i: int|
        if sl_skipped(id as int, i, scan@) {
            Seq::empty()
        } else {
            ue_bits(se_code(sl.delta_coef[id as int]@[i] as i64))
        };
    let ghost dc = if id > 13 {
        ue_bits(se_code(sl.dc_coef[id - 14] as i64))
    } else {
        Seq::empty()
    };
    let mut next_coef: isize = 0;
    if id > 13 {
        coder.encode_signed_exp_golomb(bins, sl.dc_coef[id - 14] as i64);
        next_coef = sl.dc_coef[id - 14];
    } else {
        proof {
            lemma_appended_nothing(b0);
        }
    }
    let mut i: usize = 0;
    while i < n
        invariant
            id < 28,
            i <= n,
            n == sl_size(id as int) * sl_size(id as int),
            sl_explicit(*sl, id as int, chroma_present_flag),
            bounded,
            bounded == (sl.delta_coef[id as int]@.len() >= n && id < t0.len() && t0[id as int]@.len() >= n
                && forall|k: int|
                0 <= k < n ==> sl.delta_coef[id as int]@[k] as i64 > i64::MIN && isize::MIN <= #[trigger] sl_coef(
                    *sl,
                    id as int,
                    scan@,
                    k,
                ) <= isize::MAX),
            open_bins(b0, (dc + rows(f, n as int)).len() + 130),
            f == (|i: int|
                if sl_skipped(id as int, i, scan@) {
                    Seq::empty()
                } else {
                    ue_bits(se_code(sl.delta_coef[id as int]@[i] as i64))
                }),
            dc == (if id > 13 {
                ue_bits(se_code(sl.dc_coef[id - 14] as i64))
            } else {
                Seq::<bool>::empty()
            }),
            appended(b0, *bins, dc + rows(f, i as int)),
            next_coef == (if id > 13 {
                sl.dc_coef[id - 14] as int
            } else {
                0
            }) + sl_delta_sum(*sl, id as int, scan@, i as int),
            table@.len() == t0.len(),
            forall|r: int| 0 <= r < t0.len() ==> (#[trigger] table@[r])@.len() == t0[r]@.len(),
            forall|r: int, j: int|
                0 <= r < t0.len() && 0 <= j < t0[r]@.len() ==> #[trigger] table@[r]@[j] == if r == id && j < i {
                    sl_coef(*sl, r, scan@, j) as isize
                } else {
                    t0[r]@[j]
                },
            *coder == *old(coder),
        decreases n - i,
    {
        let ghost prev = *bins;
        proof {
            lemma_rows_mono(f, i + 1, n as int);
            assert(rows(f, i + 1) == rows(f, i as int) + f(i as int));
            assert(isize::MIN <= sl_coef(*sl, id as int, scan@, i as int) <= isize::MAX);
        }
        let (x, y) = if i < scan.len() {
            scan[i]
        } else {
            (0, 0)
        };
        if !(id > 25 && x >= 4 && y >= 4) {
            coder.encode_signed_exp_golomb(bins, sl.delta_coef[id][i] as i64);
            next_coef = next_coef + sl.delta_coef[id][i];
        } else {
            proof {
                lemma_appended_nothing(prev);
            }
        }
        proof {
            lemma_appended_trans(b0, prev, *bins, dc + rows(f, i as int), f(i as int));
            assert(dc + rows(f, i as int) + f(i as int) =~= dc + rows(f, i + 1));
        }
        let ghost before = table@;
        table[id][i] = next_coef;
        proof {
            assert forall|r: int| 0 <= r < t0.len() implies (#[trigger] table@[r])@.len() == t0[r]@.len() by {
                assert(before[r]@.len() == t0[r]@.len());
            }
            assert forall|r: int, j: int| 0 <= r < t0.len() && 0 <= j < t0[r]@.len() implies #[trigger] table@[r]@[j]
                == if r == id && j < i + 1 {
                sl_coef(*sl, r, scan@, j) as isize
            } else {
                t0[r]@[j]
            } by {
                assert(before[r]@.len() == t0[r]@.len());
            }
        }
        i += 1;
    }
}

fn push_sl_list(
    coder: &mut BoolCoder,
    bins: &mut Bins,
    sl: &ScalingListData,
    id: usize,
    chroma_present_flag: bool,
    scan: &Vec<(usize, usize)>,
    table: &mut Vec<Vec<isize>>,
)
    requires
        id < 28,
        sl_listed(id as int, chroma_present_flag),
        sl_ok(*sl, chroma_present_flag, scan@, old(table)@),
        open_bins(*old(bins), sl_list_bits(*sl, id as int, chroma_present_flag, scan@).len() + 130),
    ensures
        appended(*old(bins), *final(bins), sl_list_bits(*sl, id as int, chroma_present_flag, scan@)),
        *final(coder) == *old(coder),
        final(table)@.len() == old(table)@.len(),
        forall|r: int| 0 <= r < old(table)@.len() ==> (#[trigger] final(table)@[r])@.len() == old(table)@[r]@.len(),
        forall|r: int, j: int|
            0 <= r < old(table)@.len() && 0 <= j < old(table)@[r]@.len() ==> #[trigger] final(table)@[r]@[j]
                == if r == id && sl_explicit(*sl, r, chroma_present_flag) && j < sl_size(r) * sl_size(r) {
                sl_coef(*sl, r, scan@, j) as isize
            } else {
                old(table)@[r]@[j]
            },
{
    reveal(sl_ok);
    let ghost b0 = *bins;
    let copy = sl.copy_mode_flag[id];
    let pred = sl.pred_mode_flag[id];
    proof {
        lemma_appended_nothing(b0);
        assert((sl.pred_id_delta[id as int] as u64) < u64::MAX);
    }
    push_flag(bins, copy, Ghost(b0), Ghost(Seq::empty()));
    let ghost mut acc: Seq<bool> = seq![copy];
    proof {
        assert(Seq::<bool>::empty().push(copy) =~= acc);
    }
    if !copy {
        push_flag(bins, pred, Ghost(b0), Ghost(acc));
        proof {
            acc = acc.push(pred);
        }
    }
    let ghost mid = acc;
    if (copy || pred) && id != 0 && id != 2 && id != 8 {
        let ghost prev = *bins;
        coder.encode_unsigned_exp_golomb(bins, sl.pred_id_delta[id] as u64);
        proof {
            lemma_appended_trans(b0, prev, *bins, acc, ue_bits(sl.pred_id_delta[id as int] as u64));
            acc = acc + ue_bits(sl.pred_id_delta[id as int] as u64);
        }
    }
    if !copy {
        let ghost prev = *bins;
        push_sl_deltas(coder, bins, sl, id, scan, table, Ghost(chroma_present_flag));
        proof {
            let tail = (if id > 13 {
                ue_bits(se_code(sl.dc_coef[id - 14] as i64))
            } else {
                Seq::empty()
            }) + sl_delta_bits(*sl, id as int, scan@, sl_size(id as int) * sl_size(id as int));
            lemma_appended_trans(b0, prev, *bins, acc, tail);
            acc = acc + tail;
        }
    }
    proof {
        assert(acc =~= sl_list_bits(*sl, id as int, chroma_present_flag, scan@));
    }
}

fn push_scaling_lists(
    coder: &mut BoolCoder,
    bins: &mut Bins,
    sl: &ScalingListData,
    chroma_present_flag: bool,
    scan: &Vec<(usize, usize)>,
    table: &mut Vec<Vec<isize>>,
)
    requires
        sl_ok(*sl, chroma_present_flag, scan@, old(table)@),
        open_bins(*old(bins), sl_bits(*sl, chroma_present_flag, scan@).len() + 130),
    ensures
        appended(*old(bins), *final(bins), sl_bits(*sl, chroma_present_flag, scan@)),
        *final(coder) == *old(coder),
        sl_table_set(old(table)@, final(table)@, *sl, chroma_present_flag, scan@, 28),
{
    reveal(sl_bits);
    let ghost b0 = *bins;
    let ghost t0 = table@;
    let ghost f = |id: int| sl_list_bits(*sl, id, chroma_present_flag, scan@);
    proof {
        lemma_appended_nothing(b0);
    }
    let mut id: usize = 0;
    while id < 28
        invariant
            id <= 28,
            sl_ok(*sl, chroma_present_flag, scan@, t0),
            open_bins(b0, rows(f, 28).len() + 130),
            f == (|id: int| sl_list_bits(*sl, id, chroma_present_flag, scan@)),
            appended(b0, *bins, rows(f, id as int)),
            sl_table_set(t0, table@, *sl, chroma_present_flag, scan@, id as int),
            *coder == *old(coder),
        decreases 28 - id,
    {
        let ghost prev = *bins;
        let ghost tprev = table@;
        proof {
            lemma_rows_mono(f, id + 1, 28);
            assert(rows(f, id + 1) == rows(f, id as int) + f(id as int));
            lemma_sl_ok_frame(*sl, chroma_present_flag, scan@, t0, tprev, id as int);
        }
        if chroma_present_flag || id % 3 == 2 || id == 27 {
            push_sl_list(coder, bins, sl, id, chroma_present_flag, scan, table);
        } else {
            proof {
                lemma_appended_nothing(prev);
                assert(f(id as int) =~= Seq::<bool>::empty());
            }
        }
        proof {
            lemma_appended_trans(b0, prev, *bins, rows(f, id as int), f(id as int));
            assert forall|r: int, j: int|
                0 <= r < t0.len() && 0 <= j < t0[r]@.len() implies #[trigger] table@[r]@[j] == if r < id + 1 && 0 <= r < 28
                && sl_explicit(*sl, r, chroma_present_flag) && j < sl_size(r) * sl_size(r) {
                sl_coef(*sl, r, scan@, j) as isize
            } else {
                t0[r]@[j]
            } by {
                assert(tprev[r]@.len() == t0[r]@.len());
                assert(table@[r]@.len() == t0[r]@.len());
            }
            assert forall|r: int| 0 <= r < t0.len() implies (#[trigger] table@[r])@.len() == t0[r]@.len() by {
                assert(tprev[r]@.len() == t0[r]@.len());
            }
        }
        id += 1;
    }
}

/// The requirements on the table hold as long as its shape is kept.
proof fn lemma_sl_ok_frame(
    sl: ScalingListData,
    chroma_present_flag: bool,
    scan: Seq<(usize, usize)>,
    a: Seq<Vec<isize>>,
    b: Seq<Vec<isize>>,
    upto: int,
)
    requires
        sl_ok(sl, chroma_present_flag, scan, a),
        sl_table_set(a, b, sl, chroma_present_flag, scan, upto),
    ensures
        sl_ok(sl, chroma_present_flag, scan, b),
{
    reveal(sl_ok);
    assert forall|id: int| 0 <= id < 28 && sl_listed(id, chroma_present_flag) implies {
        &&& (#[trigger] sl.pred_id_delta[id] as u64) < u64::MAX
        &&& (!sl.copy_mode_flag[id] ==> {
            &&& sl.delta_coef[id]@.len() >= sl_size(id) * sl_size(id)
            &&& id < b.len() && b[id]@.len() >= sl_size(id) * sl_size(id)
            &&& (id > 13 ==> sl.dc_coef[id - 14] as i64 > i64::MIN)
            &&& forall|i: int|
                0 <= i < sl_size(id) * sl_size(id) ==> sl.delta_coef[id]@[i] as i64 > i64::MIN
                    && isize::MIN <= #[trigger] sl_coef(sl, id, scan, i) <= isize::MAX
                    && isize::MIN <= sl_coef(sl, id, scan, i) - (if sl_skipped(id, i, scan) { 0 } else { sl.delta_coef[id]@[i] as int }) <= isize::MAX
        })
    } by {
        assert((sl.pred_id_delta[id] as u64) < u64::MAX);
        if !sl.copy_mode_flag[id] {
            assert(b[id]@.len() == a[id]@.len());
        }
    }
}

/// The parameters an adaptation parameter set carries, coded.
#[verifier::opaque]
pub open spec fn aps_body(aps: AdaptationParameterSet, num_alf_filters: nat, scan: Seq<(usize, usize)>) -> Seq<bool> {
    match aps.params_type {
        ApsParamsType::ALF_APS => alf_bits(aps.alf_data.unwrap(), aps.chroma_present_flag, num_alf_filters),
        ApsParamsType::LMCS_APS => lmcs_bits(aps.lmcs_data.unwrap(), aps.chroma_present_flag),
        ApsParamsType::SCALING_APS => sl_bits(aps.scaling_list_data.unwrap(), aps.chroma_present_flag, scan),
    }
}

/// The syntax of `aps` after its type: identifier, chroma flag, parameters,
/// extension and stop bit.
pub open spec fn aps_rest(aps: AdaptationParameterSet, num_alf_filters: nat, scan: Seq<(usize, usize)>) -> Seq<bool> {
    word_bits(aps.id as u64, 5) + seq![aps.chroma_present_flag] + aps_body(aps, num_alf_filters, scan) + seq![
        aps.extension_data@.len() > 0,
    ] + aps.extension_data@ + seq![true]
}

/// The syntax of an adaptation parameter set up to its stop bit, with `scan` the
/// 8x8 diagonal scan.
pub open spec fn aps_payload(aps: AdaptationParameterSet, num_alf_filters: nat, scan: Seq<(usize, usize)>) -> Seq<bool> {
    word_bits(aps.params_type.spec_value(), 3) + aps_rest(aps, num_alf_filters, scan)
}

/// The coded adaptation parameter set: its syntax, byte aligned with zero bits.
pub open spec fn aps_bits(aps: AdaptationParameterSet, num_alf_filters: nat, scan: Seq<(usize, usize)>) -> Seq<bool> {
    let p = aps_payload(aps, num_alf_filters, scan);
    p + repeat_bit(false, ((8 - p.len() % 8) % 8) as nat)
}

/// The data an adaptation parameter set must hold to be written with the encoder's
/// filter count and scaling table.
pub open spec fn aps_ok(aps: AdaptationParameterSet, num_alf_filters: nat, scan: Seq<(usize, usize)>, table: Seq<Vec<isize>>) -> bool {
    &&& fits(aps.id as u64, 5)
    &&& aps_data_ok(aps, num_alf_filters, scan, table)
    &&& aps_bits(aps, num_alf_filters, scan).len() + 200 <= usize::MAX
    &&& !(aps_bits(aps, num_alf_filters, scan).len() > 64 && aps_bits(aps, num_alf_filters, scan).len() % 64 == 0)
}

/// The parameters of `aps` are present and can be written.
#[verifier::opaque]
pub open spec fn aps_data_ok(aps: AdaptationParameterSet, num_alf_filters: nat, scan: Seq<(usize, usize)>, table: Seq<Vec<isize>>) -> bool {
    match aps.params_type {
        ApsParamsType::ALF_APS => aps.alf_data is Some && alf_ok(aps.alf_data.unwrap(), num_alf_filters),
        ApsParamsType::LMCS_APS => aps.lmcs_data is Some && lmcs_ok(aps.lmcs_data.unwrap(), aps.chroma_present_flag),
        ApsParamsType::SCALING_APS => aps.scaling_list_data is Some && sl_ok(
            aps.scaling_list_data.unwrap(),
            aps.chroma_present_flag,
            scan,
            table,
        ),
    }
}

/// The 8x8 diagonal scan.
pub open spec fn scan8() -> Seq<(usize, usize)> {
    crate::ctu::diag_scan(8, 8, 15)
}

/// Writes adaptation parameter sets, with the filter count and the scaling matrices
/// of the encoder.
pub struct ApsEncoder {
    pub num_alf_filters: usize,
    pub scaling_list: Vec<Vec<isize>>,
}

impl ApsEncoder {
    /// An encoder with `num_alf_filters` luma filter classes writing matrix values to `scaling_list`.
    pub fn _new(num_alf_filters: usize, scaling_list: Vec<Vec<isize>>) -> (e: ApsEncoder)
        ensures
            e.num_alf_filters == num_alf_filters,
            e.scaling_list == scaling_list,
    {
        ApsEncoder { num_alf_filters, scaling_list }
    }

    /// The bits of `aps`; the values of explicitly coded scaling matrices go to the
    /// encoder's scaling table.
    pub fn _encode(&mut self, coder: &mut BoolCoder, aps: &AdaptationParameterSet) -> (r: Vec<bool>)
        requires
            aps_ok(*aps, old(self).num_alf_filters as nat, scan8(), old(self).scaling_list@),
        ensures
            r@ == aps_bits(*aps, old(self).num_alf_filters as nat, scan8()),
            *final(coder) == *old(coder),
            final(self).num_alf_filters == old(self).num_alf_filters,
            aps.params_type == ApsParamsType::SCALING_APS ==> sl_table_set(
                old(self).scaling_list@,
                final(self).scaling_list@,
                aps.scaling_list_data.unwrap(),
                aps.chroma_present_flag,
                scan8(),
                28,
            ),
            aps.params_type != ApsParamsType::SCALING_APS ==> final(self).scaling_list == old(self).scaling_list,
    {
        let scan = crate::ctu::diag_scan_order(3, 3);
        proof {
            vstd::arithmetic::power2::lemma2_to64();
            assert(scan@ == scan8());
        }
        let mut bins = Bins::new();
        bins.push_initial_bins_with_size(aps.params_type.value(), 3);
        proof {
            assert(fits(aps.params_type.spec_value(), 3)) by {
                assert(aps.params_type.spec_value() < 8);
                assert(1u64 << 3u64 == 8) by (bit_vector);
            }
        }
        let ghost b1 = bins;
        let ghost rest = aps_rest(*aps, self.num_alf_filters as nat, scan8());
        push_aps_rest(coder, &mut bins, aps, self.num_alf_filters, &scan, &mut self.scaling_list);
        let ghost prev = bins;
        bins.byte_align();
        proof {
            lemma_appended_trans(b1, prev, bins, rest, repeat_bit(false, ((8 - prev.num_bins % 8) % 8) as nat));
            assert(bins@ =~= aps_bits(*aps, self.num_alf_filters as nat, scan8()));
        }
        bins.collect()
    }
}

fn push_aps_rest(
    coder: &mut BoolCoder,
    bins: &mut Bins,
    aps: &AdaptationParameterSet,
    num_alf_filters: usize,
    scan: &Vec<(usize, usize)>,
    table: &mut Vec<Vec<isize>>,
)
    requires
        aps_ok(*aps, num_alf_filters as nat, scan@, old(table)@),
        old(bins).wf(),
        old(bins).num_bins == 3,
    ensures
        appended(*old(bins), *final(bins), aps_rest(*aps, num_alf_filters as nat, scan@)),
        *final(coder) == *old(coder),
        aps.params_type == ApsParamsType::SCALING_APS ==> sl_table_set(
            old(table)@,
            final(table)@,
            aps.scaling_list_data.unwrap(),
            aps.chroma_present_flag,
            scan@,
            28,
        ),
        aps.params_type != ApsParamsType::SCALING_APS ==> *final(table) == *old(table),
{
    let ghost b0 = *bins;
    let ghost payload = aps_payload(*aps, num_alf_filters as nat, scan@);
    let ghost body = aps_body(*aps, num_alf_filters as nat, scan@);
    bins.push_bins_with_size(aps.id as u64, 5);
    let ghost mut acc = word_bits(aps.id as u64, 5);
    push_flag(bins, aps.chroma_present_flag, Ghost(b0), Ghost(acc));
    proof {
        acc = acc.push(aps.chroma_present_flag);
    }
    let ghost prev = *bins;
    match aps.params_type {
        ApsParamsType::ALF_APS => {
            proof {
                reveal(aps_data_ok);
                reveal(aps_body);
            }
            let alf = match &aps.alf_data {
                Some(a) => a,
                None => {
                    proof {
                        assert(false);
                    }
                    return ;
                },
            };
            push_alf(coder, bins, alf, aps.chroma_present_flag, num_alf_filters);
        },
        ApsParamsType::LMCS_APS => {
            proof {
                reveal(aps_data_ok);
                reveal(aps_body);
            }
            let lmcs = match &aps.lmcs_data {
                Some(l) => l,
                None => {
                    proof {
                        assert(false);
                    }
                    return ;
                },
            };
            push_lmcs(coder, bins, lmcs, aps.chroma_present_flag);
        },
        ApsParamsType::SCALING_APS => {
            proof {
                reveal(aps_data_ok);
                reveal(aps_body);
            }
            let sl = match &aps.scaling_list_data {
                Some(s) => s,
                None => {
                    proof {
                        assert(false);
                    }
                    return ;
                },
            };
            push_scaling_lists(coder, bins, sl, aps.chroma_present_flag, scan, table);
        },
    }
    proof {
        lemma_appended_trans(b0, prev, *bins, acc, body);
        acc = acc + body;
    }
    let aps_extension_flag = aps.extension_data.len() > 0;
    push_flag(bins, aps_extension_flag, Ghost(b0), Ghost(acc));
    proof {
        acc = acc.push(aps_extension_flag);
    }
    let mut k: usize = 0;
    while k < aps.extension_data.len()
        invariant
            k <= aps.extension_data@.len(),
            appended(b0, *bins, acc + aps.extension_data@.subrange(0, k as int)),
            b0.wf() && b0.num_bins == 3,
            acc.len() + aps.extension_data@.len() + 1 <= payload.len(),
            payload.len() + 200 <= usize::MAX,
        decreases aps.extension_data@.len() - k,
    {
        push_flag(bins, aps.extension_data[k], Ghost(b0), Ghost(acc + aps.extension_data@.subrange(0, k as int)));
        proof {
            assert((acc + aps.extension_data@.subrange(0, k as int)).push(aps.extension_data@[k as int]) =~= acc
                + aps.extension_data@.subrange(0, k + 1));
        }
        k += 1;
    }
    proof {
        assert(aps.extension_data@.subrange(0, k as int) =~= aps.extension_data@);
    }
    push_flag(bins, true, Ghost(b0), Ghost(acc + aps.extension_data@));
    proof {
        assert((acc + aps.extension_data@).push(true) =~= aps_rest(*aps, num_alf_filters as nat, scan@));
    }
}

} // verus!
