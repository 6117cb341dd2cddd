//! Context increments chosen by the blocks left of and above the current one.
use crate::bool_coder::BoolCoder;
use crate::cabac_contexts::{CabacContext, CtxInc};
use crate::common::ModeType;
use crate::ctu::{CodingTree, CodingUnit};
use crate::encoder_context::{spec_neighbour_available, EncoderContext};
use vstd::prelude::*;

verus! {

/// The picture size and entropy coding sync setting the availability of a
/// neighbour depends on.
#[derive(Clone, Copy, Debug)]
pub struct PictureGeometry {
    pub pic_width_in_luma_samples: usize,
    pub pic_height_in_luma_samples: usize,
    pub entropy_coding_sync_enabled_flag: bool,
}

/// The left (x0 - 1, y0) and above (x0, y0 - 1) neighbours of a `w` by `h` block
/// at (x0, y0) are available.
pub open spec fn left_above_available(e: EncoderContext, x0: usize, y0: usize, w: usize, h: usize, g: PictureGeometry) -> (bool, bool) {
    (
        spec_neighbour_available(
            e,
            x0,
            y0,
            (x0 - 1) as isize,
            y0 as isize,
            w,
            h,
            false,
            false,
            false,
            g.pic_width_in_luma_samples,
            g.pic_height_in_luma_samples,
            g.entropy_coding_sync_enabled_flag,
        ),
        spec_neighbour_available(
            e,
            x0,
            y0,
            x0 as isize,
            (y0 - 1) as isize,
            w,
            h,
            false,
            false,
            false,
            g.pic_width_in_luma_samples,
            g.pic_height_in_luma_samples,
            g.entropy_coding_sync_enabled_flag,
        ),
    )
}

/// A block whose neighbours can be looked up: the encoder state is well formed and
/// the block's far edges fit an `isize`.
pub open spec fn block_ok(e: EncoderContext, x0: usize, y0: usize, w: usize, h: usize) -> bool {
    &&& e.wf()
    &&& x0 + w <= isize::MAX
    &&& y0 + h <= isize::MAX
}

/// `1` for true.
pub open spec fn b2i(b: bool) -> int {
    if b { 1 } else { 0 }
}

/// The recorded size of channel `ch_type` at (x, y) is a nonzero entry of `t`.
pub open spec fn size_entry_ok(t: Seq<Vec<Vec<usize>>>, ch_type: usize, x: int, y: int) -> bool {
    &&& ch_type < t.len()
    &&& 0 <= x < t[ch_type as int]@.len()
    &&& 0 <= y < t[ch_type as int]@[x]@.len()
    &&& t[ch_type as int]@[x]@[y] > 0
}

/// The context increment of `mtt_split_cu_vertical_flag`: 4 when more vertical than
/// horizontal splits are allowed, 3 when fewer; else 0 unless both neighbours are
/// available and the block's width over the above block's width differs from its
/// height over the left block's height, then 1 when the former is smaller and 2
/// otherwise.
pub open spec fn vertical_flag_ctx(
    e: EncoderContext,
    x0: usize,
    y0: usize,
    ch_type: usize,
    w: usize,
    h: usize,
    bt_ver: bool,
    bt_hor: bool,
    tt_ver: bool,
    tt_hor: bool,
    g: PictureGeometry,
) -> usize {
    let (available_l, available_a) = left_above_available(e, x0, y0, w, h, g);
    let v = b2i(bt_ver) + b2i(tt_ver);
    let hz = b2i(bt_hor) + b2i(tt_hor);
    if v > hz {
        4
    } else if v < hz {
        3
    } else {
        let d_a = w / (if available_a { e.cb_width@[ch_type as int]@[x0 as int]@[y0 - 1] } else { 1 });
        let d_l = h / (if available_l { e.cb_height@[ch_type as int]@[x0 - 1]@[y0 as int] } else { 1 });
        if d_a == d_l || !available_a || !available_l {
            0
        } else if d_a < d_l {
            1
        } else {
            2
        }
    }
}

/// The context increment of `split_qt_flag` or `split_cu_flag` (`ctx`), from the
/// available neighbouring nodes `left` and `above`: for the quadtree flag, the
/// neighbours below the root quadtree level plus 3 from quadtree depth 2; for the
/// split flag, the neighbours smaller across the block plus 3 for each pair of
/// allowed splits. `non_inter_flag` takes 1 when an available neighbour is intra
/// by the mode of `above_cu`.
pub open spec fn ct_neighbour_ctx(
    ctx: CabacContext,
    available_l: bool,
    available_a: bool,
    left: Option<CodingTree>,
    above: Option<CodingTree>,
    above_cu: Option<CodingUnit>,
    cqt_depth: usize,
    w: usize,
    h: usize,
    allowed: int,
) -> usize {
    match ctx {
        CabacContext::SplitQtFlag => (b2i(available_l && left.unwrap().cqt_depth > 0) + b2i(
            available_a && above.unwrap().cqt_depth > 0,
        ) + 3 * b2i(cqt_depth >= 2)) as usize,
        CabacContext::SplitCuFlag => (b2i(available_l && left.unwrap().height < h) + b2i(
            available_a && above.unwrap().width < w,
        ) + 3 * ((allowed - 1) / 2)) as usize,
        _ => {
            let intra = above_cu.unwrap().mode_type == ModeType::MODE_INTRA;
            b2i((intra && available_l) || (intra && available_a)) as usize
        },
    }
}

/// The neighbour property a coding unit flag `ctx` counts: its skip flag, intra
/// block copy mode, matrix intra prediction, or (for the subblock merge and affine
/// flags) subblock merge or affine inter prediction.
pub open spec fn cu_cond(ctx: CabacContext, cu: CodingUnit) -> bool {
    match ctx {
        CabacContext::CuSkipFlag => cu.skip_flag,
        CabacContext::PredModeIbcFlag => cu.mode_type == ModeType::MODE_IBC,
        CabacContext::IntraMipFlag => cu.intra_mip_flag,
        _ => cu.merge_data.unwrap().merge_subblock_flag || cu.inter_affine_flag,
    }
}

/// The context increment of coding unit flag `ctx` from the available neighbouring
/// units `left_cu` and `above_cu`: the count of neighbours with its property; for
/// `pred_mode_flag`, 1 when an available neighbour is intra by the mode of
/// `left_cu`.
pub open spec fn cu_neighbour_ctx(
    ctx: CabacContext,
    available_l: bool,
    available_a: bool,
    left_cu: Option<CodingUnit>,
    above_cu: Option<CodingUnit>,
) -> usize {
    match ctx {
        CabacContext::PredModeFlag => {
            let intra = left_cu.unwrap().mode_type == ModeType::MODE_INTRA;
            b2i((intra && available_l) || (intra && available_a)) as usize
        },
        _ => (b2i(available_l && cu_cond(ctx, left_cu.unwrap())) + b2i(available_a && cu_cond(ctx, above_cu.unwrap()))) as usize,
    }
}

/// A flag whose context comes from the left and above coding units.
pub open spec fn is_cu_neighbour_flag(ctx: CabacContext) -> bool {
    ||| ctx == CabacContext::CuSkipFlag
    ||| ctx == CabacContext::PredModeIbcFlag
    ||| ctx == CabacContext::IntraMipFlag
    ||| ctx == CabacContext::MergeSubblockFlag
    ||| ctx == CabacContext::InterAffineFlag
    ||| ctx == CabacContext::PredModeFlag
}

/// The neighbouring units a coding unit flag reads are there: the available ones,
/// with merge data for the subblock merge and affine flags, and the left one
/// always for `pred_mode_flag`.
pub open spec fn cu_neighbours_ok(ctx: CabacContext, available_l: bool, available_a: bool, left_cu: Option<CodingUnit>, above_cu: Option<CodingUnit>) -> bool {
    if ctx == CabacContext::PredModeFlag {
        left_cu is Some
    } else {
        &&& available_l ==> left_cu is Some && (cu_needs_merge(ctx) ==> left_cu.unwrap().merge_data is Some)
        &&& available_a ==> above_cu is Some && (cu_needs_merge(ctx) ==> above_cu.unwrap().merge_data is Some)
    }
}

/// The flag reads the merge data of its neighbours.
pub open spec fn cu_needs_merge(ctx: CabacContext) -> bool {
    ctx == CabacContext::MergeSubblockFlag || ctx == CabacContext::InterAffineFlag
}

impl BoolCoder {
    /// Whether the left and above neighbours of a `w` by `h` block at (x0, y0) are
    /// available.
    fn left_and_above_available(ectx: &EncoderContext, x0: usize, y0: usize, w: usize, h: usize, g: PictureGeometry) -> (r: (
        bool,
        bool,
    ))
        requires
            block_ok(*ectx, x0, y0, w, h),
        ensures
            r == left_above_available(*ectx, x0, y0, w, h, g),
    {
        let available_l = ectx.derive_neighbouring_block_availability(
            x0,
            y0,
            x0 as isize - 1,
            y0 as isize,
            w,
            h,
            false,
            false,
            false,
            g.pic_width_in_luma_samples,
            g.pic_height_in_luma_samples,
            g.entropy_coding_sync_enabled_flag,
        );
        let available_a = ectx.derive_neighbouring_block_availability(
            x0,
            y0,
            x0 as isize,
            y0 as isize - 1,
            w,
            h,
            false,
            false,
            false,
            g.pic_width_in_luma_samples,
            g.pic_height_in_luma_samples,
            g.entropy_coding_sync_enabled_flag,
        );
        (available_l, available_a)
    }

    /// The context increment of `mtt_split_cu_vertical_flag` of a `cb_width` by
    /// `cb_height` node at (x0, y0) of channel type `ch_type`, given which binary and
    /// ternary splits it allows.
    pub fn derive_ctx_inc_for_mtt_split_cu_vertical_flag(
        &self,
        x0: usize,
        y0: usize,
        ch_type: usize,
        cb_width: usize,
        cb_height: usize,
        allow_split_bt_ver: bool,
        allow_split_bt_hor: bool,
        allow_split_tt_ver: bool,
        allow_split_tt_hor: bool,
        geometry: PictureGeometry,
        ectx: &EncoderContext,
    ) -> (r: CtxInc)
        requires
            block_ok(*ectx, x0, y0, cb_width, cb_height),
            left_above_available(*ectx, x0, y0, cb_width, cb_height, geometry).1 ==> size_entry_ok(
                ectx.cb_width@,
                ch_type,
                x0 as int,
                y0 - 1,
            ),
            left_above_available(*ectx, x0, y0, cb_width, cb_height, geometry).0 ==> size_entry_ok(
                ectx.cb_height@,
                ch_type,
                x0 - 1,
                y0 as int,
            ),
        ensures
            r == CtxInc::Number(
                vertical_flag_ctx(
                    *ectx,
                    x0,
                    y0,
                    ch_type,
                    cb_width,
                    cb_height,
                    allow_split_bt_ver,
                    allow_split_bt_hor,
                    allow_split_tt_ver,
                    allow_split_tt_hor,
                    geometry,
                ),
            ),
    {
        let (available_l, available_a) = Self::left_and_above_available(ectx, x0, y0, cb_width, cb_height, geometry);
        let v: usize = (if allow_split_bt_ver {
            1
        } else {
            0
        }) + (if allow_split_tt_ver {
            1
        } else {
            0
        });
        let hz: usize = (if allow_split_bt_hor {
            1
        } else {
            0
        }) + (if allow_split_tt_hor {
            1
        } else {
            0
        });
        if v > hz {
            CtxInc::Number(4)
        } else if v < hz {
            CtxInc::Number(3)
        } else {
            let d_a = cb_width / if available_a {
                ectx.cb_width[ch_type][x0][y0 - 1]
            } else {
                1
            };
            let d_l = cb_height / if available_l {
                ectx.cb_height[ch_type][x0 - 1][y0]
            } else {
                1
            };
            if d_a == d_l || !available_a || !available_l {
                CtxInc::Number(0)
            } else if d_a < d_l {
                CtxInc::Number(1)
            } else {
                CtxInc::Number(2)
            }
        }
    }

    /// The context increment of `split_qt_flag`, `split_cu_flag` or
    /// `non_inter_flag` (`cabac_context`) of a `cb_width` by `cb_height` node at
    /// (x0, y0) at quadtree depth `cqt_depth`, given the allowed splits and the
    /// coding tree nodes `left_ct` and `above_ct` holding its left and above
    /// neighbours (with `above_cu` the first unit of the above node).
    pub fn derive_ctx_inc_using_left_and_above_ct(
        &self,
        cabac_context: CabacContext,
        left_ct: Option<&CodingTree>,
        above_ct: Option<&CodingTree>,
        above_cu: Option<&CodingUnit>,
        x0: usize,
        y0: usize,
        cqt_depth: usize,
        cb_width: usize,
        cb_height: usize,
        allow_split_bt_ver: bool,
        allow_split_bt_hor: bool,
        allow_split_tt_ver: bool,
        allow_split_tt_hor: bool,
        allow_split_qt: bool,
        geometry: PictureGeometry,
        ectx: &EncoderContext,
    ) -> (r: CtxInc)
        requires
            block_ok(*ectx, x0, y0, cb_width, cb_height),
            cabac_context == CabacContext::SplitQtFlag || cabac_context == CabacContext::SplitCuFlag || cabac_context
                == CabacContext::NonInterFlag,
            cabac_context != CabacContext::NonInterFlag ==> {
                let (available_l, available_a) = left_above_available(*ectx, x0, y0, cb_width, cb_height, geometry);
                (available_l ==> left_ct is Some) && (available_a ==> above_ct is Some)
            },
            cabac_context == CabacContext::SplitCuFlag ==> allow_split_bt_ver || allow_split_bt_hor || allow_split_tt_ver
                || allow_split_tt_hor || allow_split_qt,
            cabac_context == CabacContext::NonInterFlag ==> above_cu is Some,
        ensures
            ({
                let (available_l, available_a) = left_above_available(*ectx, x0, y0, cb_width, cb_height, geometry);
                let allowed = b2i(allow_split_bt_ver) + b2i(allow_split_bt_hor) + b2i(allow_split_tt_ver) + b2i(
                    allow_split_tt_hor,
                ) + 2 * b2i(allow_split_qt);
                r == CtxInc::Number(
                    ct_neighbour_ctx(
                        cabac_context,
                        available_l,
                        available_a,
                        match left_ct {
                            Some(c) => Some(*c),
                            None => None,
                        },
                        match above_ct {
                            Some(c) => Some(*c),
                            None => None,
                        },
                        match above_cu {
                            Some(c) => Some(*c),
                            None => None,
                        },
                        cqt_depth,
                        cb_width,
                        cb_height,
                        allowed,
                    ),
                )
            }),
    {
        let (available_l, available_a) = Self::left_and_above_available(ectx, x0, y0, cb_width, cb_height, geometry);
        match cabac_context {
            CabacContext::SplitQtFlag => {
                let cond_l = if available_l {
                    left_ct.unwrap().cqt_depth > 0
                } else {
                    false
                };
                let cond_a = if available_a {
                    above_ct.unwrap().cqt_depth > 0
                } else {
                    false
                };
                let ctx_set_idx: usize = if cqt_depth >= 2 {
                    1
                } else {
                    0
                };
                CtxInc::Number(
                    (if cond_l && available_l {
                        1usize
                    } else {
                        0
                    }) + (if cond_a && available_a {
                        1usize
                    } else {
                        0
                    }) + ctx_set_idx * 3,
                )
            },
            CabacContext::SplitCuFlag => {
                let cond_l = if available_l {
                    left_ct.unwrap().height < cb_height
                } else {
                    false
                };
                let cond_a = if available_a {
                    above_ct.unwrap().width < cb_width
                } else {
                    false
                };
                let allowed: usize = (if allow_split_bt_ver {
                    1
                } else {
                    0
                }) + (if allow_split_bt_hor {
                    1
                } else {
                    0
                }) + (if allow_split_tt_ver {
                    1
                } else {
                    0
                }) + (if allow_split_tt_hor {
                    1
                } else {
                    0
                }) + 2 * (if allow_split_qt {
                    1
                } else {
                    0
                });
                let ctx_set_idx = (allowed - 1) / 2;
                CtxInc::Number(
                    (if cond_l && available_l {
                        1usize
                    } else {
                        0
                    }) + (if cond_a && available_a {
                        1usize
                    } else {
                        0
                    }) + ctx_set_idx * 3,
                )
            },
            _ => {
                let intra = above_cu.unwrap().mode_type == ModeType::MODE_INTRA;
                CtxInc::Number(
                    if (intra && available_l) || (intra && available_a) {
                        1
                    } else {
                        0
                    },
                )
            },
        }
    }

    /// The context increment of coding unit flag `cabac_context` of a `cb_width` by
    /// `cb_height` unit at (x0, y0), from the units `left_cu` and `above_cu` first in
    /// the coding tree nodes holding its left and above neighbours.
    pub fn derive_ctx_inc_using_left_and_above_cu(
        &self,
        cabac_context: CabacContext,
        left_cu: Option<&CodingUnit>,
        above_cu: Option<&CodingUnit>,
        x0: usize,
        y0: usize,
        cb_width: usize,
        cb_height: usize,
        geometry: PictureGeometry,
        ectx: &EncoderContext,
    ) -> (r: CtxInc)
        requires
            block_ok(*ectx, x0, y0, cb_width, cb_height),
            is_cu_neighbour_flag(cabac_context),
            ({
                let (available_l, available_a) = left_above_available(*ectx, x0, y0, cb_width, cb_height, geometry);
                cu_neighbours_ok(
                    cabac_context,
                    available_l,
                    available_a,
                    match left_cu {
                        Some(c) => Some(*c),
                        None => None,
                    },
                    match above_cu {
                        Some(c) => Some(*c),
                        None => None,
                    },
                )
            }),
        ensures
            ({
                let (available_l, available_a) = left_above_available(*ectx, x0, y0, cb_width, cb_height, geometry);
                r == CtxInc::Number(
                    cu_neighbour_ctx(
                        cabac_context,
                        available_l,
                        available_a,
                        match left_cu {
                            Some(c) => Some(*c),
                            None => None,
                        },
                        match above_cu {
                            Some(c) => Some(*c),
                            None => None,
                        },
                    ),
                )
            }),
    {
        let (available_l, available_a) = Self::left_and_above_available(ectx, x0, y0, cb_width, cb_height, geometry);
        match cabac_context {
            CabacContext::PredModeFlag => {
                let intra = left_cu.unwrap().mode_type == ModeType::MODE_INTRA;
                CtxInc::Number(
                    if (intra && available_l) || (intra && available_a) {
                        1
                    } else {
                        0
                    },
                )
            },
            _ => {
                let cond_l = if available_l {
                    Self::cu_neighbour_cond(cabac_context, left_cu.unwrap())
                } else {
                    false
                };
                let cond_a = if available_a {
                    Self::cu_neighbour_cond(cabac_context, above_cu.unwrap())
                } else {
                    false
                };
                CtxInc::Number(
                    (if cond_l && available_l {
                        1usize
                    } else {
                        0
                    }) + (if cond_a && available_a {
                        1usize
                    } else {
                        0
                    }),
                )
            },
        }
    }

    /// The neighbour property coding unit flag `ctx` counts, of `cu`.
    fn cu_neighbour_cond(ctx: CabacContext, cu: &CodingUnit) -> (r: bool)
        requires
            is_cu_neighbour_flag(ctx),
            ctx != CabacContext::PredModeFlag,
            cu_needs_merge(ctx) ==> cu.merge_data is Some,
        ensures
            r == cu_cond(ctx, *cu),
    {
        match ctx {
            CabacContext::CuSkipFlag => cu.skip_flag,
            CabacContext::PredModeIbcFlag => cu.mode_type == ModeType::MODE_IBC,
            CabacContext::IntraMipFlag => cu.intra_mip_flag,
            _ => {
                let merge_data = cu.merge_data.unwrap();
                merge_data.merge_subblock_flag || cu.inter_affine_flag
            },
        }
    }
}

} // verus!
