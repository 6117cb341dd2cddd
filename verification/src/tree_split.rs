//! Splitting a coding tree node into its children.
use crate::bits::bit_length;
use crate::common::{ChromaFormat, ModeType, MttSplitMode, SliceType, TreeType};
use crate::ctu::{log2_size_ok, tile_ok, CodingTree, CodingTreeUnit};
use vstd::arithmetic::power2::pow2;
use vstd::prelude::*;

verus! {

/// The base-2 logarithm of `v`, rounded down.
pub open spec fn log2_of(v: usize) -> usize {
    (bit_length(v as nat) - 1) as usize
}

/// A binary split.
pub open spec fn bt(m: MttSplitMode) -> bool {
    m == MttSplitMode::SPLIT_BT_VER || m == MttSplitMode::SPLIT_BT_HOR
}

/// A ternary split.
pub open spec fn tt(m: MttSplitMode) -> bool {
    m == MttSplitMode::SPLIT_TT_VER || m == MttSplitMode::SPLIT_TT_HOR
}

/// The mode type condition of splitting a `width` by `height` node of mode type
/// `mode_type` by `split_mode` (a quadtree split where `split_qt_flag`): 0 in an
/// intra slice with separate luma and chroma trees, below a node already
/// restricted, or without subsampled chroma; 1 (children intra only) where the
/// split leaves luma blocks of 16 samples; for the splits that leave chroma blocks
/// too small in 4:2:0, 1 in an intra slice and 2 (signalled) elsewhere; else 0.
pub open spec fn spec_mode_type_condition(
    slice_type: SliceType,
    qtbtt_dual_tree_intra_flag: bool,
    mode_type: ModeType,
    chroma_format: ChromaFormat,
    width: usize,
    height: usize,
    split_qt_flag: bool,
    split_mode: MttSplitMode,
) -> usize {
    let area = width * height;
    if (slice_type == SliceType::I && qtbtt_dual_tree_intra_flag) || mode_type != ModeType::MODE_TYPE_ALL || chroma_format
        == ChromaFormat::Monochrome || chroma_format == ChromaFormat::YCbCr444 {
        0
    } else if (area == 64 && split_qt_flag) || (!split_qt_flag && tt(split_mode)) || (area == 32 && bt(split_mode)) {
        1
    } else if (area == 64 && bt(split_mode) && chroma_format == ChromaFormat::YCbCr420) || (area == 128 && tt(split_mode)
        && chroma_format == ChromaFormat::YCbCr420) || (width == 8 && split_mode == MttSplitMode::SPLIT_BT_VER && chroma_format
        == ChromaFormat::YCbCr420) || (width == 16 && !split_qt_flag && split_mode == MttSplitMode::SPLIT_TT_VER) {
        if slice_type != SliceType::I { 2 } else { 1 }
    } else {
        0
    }
}

/// The mode type condition of a split: see `spec_mode_type_condition`.
pub fn mode_type_condition(
    slice_type: SliceType,
    qtbtt_dual_tree_intra_flag: bool,
    mode_type: ModeType,
    chroma_format: ChromaFormat,
    width: usize,
    height: usize,
    split_qt_flag: bool,
    split_mode: MttSplitMode,
) -> (r: usize)
    requires
        width * height <= usize::MAX,
    ensures
        r == spec_mode_type_condition(
            slice_type,
            qtbtt_dual_tree_intra_flag,
            mode_type,
            chroma_format,
            width,
            height,
            split_qt_flag,
            split_mode,
        ),
{
    let area = width * height;
    if (slice_type == SliceType::I && qtbtt_dual_tree_intra_flag) || mode_type != ModeType::MODE_TYPE_ALL || chroma_format
        == ChromaFormat::Monochrome || chroma_format == ChromaFormat::YCbCr444 {
        0
    } else if (area == 64 && split_qt_flag) || (!split_qt_flag && split_mode.is_tt()) || (area == 32 && split_mode.is_bt()) {
        1
    } else if (area == 64 && split_mode.is_bt() && chroma_format == ChromaFormat::YCbCr420) || (area == 128
        && split_mode.is_tt() && chroma_format == ChromaFormat::YCbCr420) || (width == 8 && split_mode
        == MttSplitMode::SPLIT_BT_VER && chroma_format == ChromaFormat::YCbCr420) || (width == 16 && !split_qt_flag
        && split_mode == MttSplitMode::SPLIT_TT_VER) {
        if slice_type != SliceType::I {
            2
        } else {
            1
        }
    } else {
        0
    }
}

/// The mode type of the children of `node` under mode type condition `cond`: intra
/// for 1; for 2, intra or inter by the node's non-inter flag; the node's own
/// otherwise.
pub open spec fn split_mode_type(node: CodingTree, cond: usize) -> ModeType {
    if cond == 1 {
        ModeType::MODE_TYPE_INTRA
    } else if cond == 2 {
        if node.non_inter_flag {
            ModeType::MODE_TYPE_INTRA
        } else {
            ModeType::MODE_TYPE_INTER
        }
    } else {
        node.mode_type
    }
}

/// The tree type of the children of `node`: luma only under an intra mode type,
/// the node's own otherwise.
pub open spec fn split_tree_type(node: CodingTree, cond: usize) -> TreeType {
    if split_mode_type(node, cond) == ModeType::MODE_TYPE_INTRA {
        TreeType::DUAL_TREE_LUMA
    } else {
        node.tree_type
    }
}

/// A quadtree split of `node` also adds a chroma tree of its size: the node allows
/// every mode and its children are intra only.
pub open spec fn adds_chroma_tree(node: CodingTree, cond: usize) -> bool {
    node.mode_type == ModeType::MODE_TYPE_ALL && split_mode_type(node, cond) == ModeType::MODE_TYPE_INTRA
}

/// Node `t` of `ctu` can be split by `split_mode` under mode type condition `cond`:
/// its sides are powers of two, a split 8x8 node does not keep a single tree, and a
/// quadtree split leaves children of an accepted size whose positions fit.
pub open spec fn split_ok(ctu: CodingTreeUnit, t: usize, split_mode: MttSplitMode, cond: usize) -> bool {
    let node = ctu.coding_trees@[t as int];
    let lw = log2_of(node.width);
    let lh = log2_of(node.height);
    &&& ctu.wf()
    &&& t < ctu.coding_trees@.len()
    &&& split_mode != MttSplitMode::SPLIT_NONE
    &&& node.width > 0 && node.height > 0
    &&& node.width == pow2(lw as nat) && node.height == pow2(lh as nat)
    &&& !(node.width == 8 && node.height == 8 && split_tree_type(node, cond) == TreeType::SINGLE_TREE)
    &&& tile_ok(node.tile)
    &&& split_mode == MttSplitMode::SPLIT_QT ==> {
        &&& lw >= 2 && lh >= 2
        &&& log2_size_ok((lw - 1) as usize, (lh - 1) as usize)
        &&& adds_chroma_tree(node, cond) ==> log2_size_ok(lw, lh)
        &&& node.x + node.width <= usize::MAX && node.y + node.height <= usize::MAX
        &&& node.depth + 1 <= usize::MAX && node.cqt_depth + 1 <= usize::MAX
    }
}

/// Node `n` of `after` is the new child `i` of a quadtree split of `node` (node `t`
/// of `before`).
pub open spec fn qt_child(before: CodingTreeUnit, after: CodingTreeUnit, t: usize, cond: usize, i: int) -> bool {
    let node = before.coding_trees@[t as int];
    let n = before.coding_trees@.len();
    let lw = log2_of(node.width);
    let lh = log2_of(node.height);
    after.coding_trees@[n + i].initialized(
        (node.x + (i % 2) * (node.width / 2)) as usize,
        (node.y + (i / 2) * (node.height / 2)) as usize,
        (lw - 1) as usize,
        (lh - 1) as usize,
        (node.depth + 1) as usize,
        (node.cqt_depth + 1) as usize,
        node.depth_offset,
        i as usize,
        node.qg_on_y,
        node.qg_on_c,
        Some(t),
        MttSplitMode::SPLIT_NONE,
        split_tree_type(node, cond),
        split_mode_type(node, cond),
        node.tile,
        (before.coding_units@.len() + i) as usize,
    )
}

/// The number of nodes a split of `node` by `split_mode` adds.
pub open spec fn split_added(node: CodingTree, split_mode: MttSplitMode, cond: usize) -> int {
    if split_mode == MttSplitMode::SPLIT_QT {
        if adds_chroma_tree(node, cond) { 5 } else { 4 }
    } else {
        0
    }
}

/// `after` is `before` with node `t` split by `split_mode` under mode type
/// condition `cond`: the node records the split and drops its coding units; a
/// quadtree split appends four children (quadrants in raster order, one level
/// deeper) and, where it adds one, a chroma tree of the node's size, and makes them
/// the node's children; other splits add nothing; every other node stays.
pub open spec fn split_done(before: CodingTreeUnit, after: CodingTreeUnit, t: usize, split_mode: MttSplitMode, cond: usize) -> bool {
    let node = before.coding_trees@[t as int];
    let n = before.coding_trees@.len();
    let k = before.coding_units@.len();
    let added = split_added(node, split_mode, cond);
    let new_node = after.coding_trees@[t as int];
    &&& after.wf()
    &&& after.same_unit(before)
    &&& after.coding_trees@.len() == n + added
    &&& forall|j: int| 0 <= j < n && j != t ==> after.coding_trees@[j] == before.coding_trees@[j]
    &&& new_node.split_mode == split_mode
    &&& new_node.cus@.len() == 0
    &&& new_node.cts@ == if split_mode == MttSplitMode::SPLIT_QT {
        Seq::new(added as nat, |i: int| (n + i) as usize)
    } else {
        node.cts@
    }
    &&& new_node.x == node.x && new_node.y == node.y && new_node.width == node.width && new_node.height == node.height
    &&& new_node.depth == node.depth && new_node.cqt_depth == node.cqt_depth
    &&& new_node.tree_type == node.tree_type && new_node.mode_type == node.mode_type
    &&& new_node.parent == node.parent && new_node.part_idx == node.part_idx && new_node.tile == node.tile
    &&& split_mode == MttSplitMode::SPLIT_QT ==> forall|i: int| 0 <= i < 4 ==> #[trigger] qt_child(before, after, t, cond, i)
    &&& split_mode == MttSplitMode::SPLIT_QT && adds_chroma_tree(node, cond) ==> after.coding_trees@[n + 4int].initialized(
        node.x,
        node.y,
        log2_of(node.width),
        log2_of(node.height),
        node.depth,
        node.cqt_depth,
        node.depth_offset,
        0,
        node.qg_on_y,
        node.qg_on_c,
        Some(t),
        MttSplitMode::SPLIT_NONE,
        TreeType::DUAL_TREE_CHROMA,
        split_mode_type(node, cond),
        node.tile,
        (k + 4) as usize,
    )
}

impl CodingTree {
    /// Splits node `t` of `ctu` by `split_mode` under mode type condition
    /// `mode_type_condition` (0 none, 1 intra only, 2 by the non-inter flag), the
    /// children taking QP `fixed_qp`: see `split_done`.
    pub fn split(ctu: &mut CodingTreeUnit, t: usize, split_mode: MttSplitMode, mode_type_condition: usize, fixed_qp: Option<usize>)
        requires
            split_ok(*old(ctu), t, split_mode, mode_type_condition),
        ensures
            split_done(*old(ctu), *final(ctu), t, split_mode, mode_type_condition),
    {
        let ghost before = *ctu;
        let ghost node = ctu.coding_trees@[t as int];
        let n = ctu.coding_trees.len();
        let (x, y, width, height, depth, cqt_depth, depth_offset, part_idx) = {
            let c = &ctu.coding_trees[t];
            (c.x, c.y, c.width, c.height, c.depth, c.cqt_depth, c.depth_offset, c.part_idx)
        };
        let (qg_on_y, qg_on_c, parent, tile, non_inter_flag, node_mode_type, node_tree_type) = {
            let c = &ctu.coding_trees[t];
            (c.qg_on_y, c.qg_on_c, c.parent, c.tile, c.non_inter_flag, c.mode_type, c.tree_type)
        };
        let (mtt_split_cu_binary_flag, above_right_available, below_left_available, x_tile, y_tile, width_tile, height_tile) = {
            let c = &ctu.coding_trees[t];
            (c.mtt_split_cu_binary_flag, c.above_right_available, c.below_left_available, c.x_tile, c.y_tile, c.width_tile, c.height_tile)
        };
        let lw = crate::bits::ilog2(width) as usize;
        let lh = crate::bits::ilog2(height) as usize;
        let mode_type = if mode_type_condition == 1 {
            ModeType::MODE_TYPE_INTRA
        } else if mode_type_condition == 2 {
            if non_inter_flag {
                ModeType::MODE_TYPE_INTRA
            } else {
                ModeType::MODE_TYPE_INTER
            }
        } else {
            node_mode_type
        };
        let tree_type = match mode_type {
            ModeType::MODE_TYPE_INTRA => TreeType::DUAL_TREE_LUMA,
            _ => node_tree_type,
        };
        let adds_chroma = match (node_mode_type, mode_type) {
            (ModeType::MODE_TYPE_ALL, ModeType::MODE_TYPE_INTRA) => true,
            _ => false,
        };
        let is_qt = match split_mode {
            MttSplitMode::SPLIT_QT => true,
            _ => false,
        };
        proof {
            assert(mode_type == split_mode_type(node, mode_type_condition));
            assert(tree_type == split_tree_type(node, mode_type_condition));
            assert(adds_chroma == adds_chroma_tree(node, mode_type_condition));
            assert(lw == log2_of(width) && lh == log2_of(height));
        }
        let mut cts: Vec<usize> = Vec::new();
        if is_qt {
            let mut i: usize = 0;
            while i < 4
                invariant
                    i <= 4,
                    ctu.wf(),
                    ctu.same_unit(before),
                    ctu.coding_trees@.len() == n + i,
                    ctu.coding_units@.len() == before.coding_units@.len() + i,
                    forall|j: int| 0 <= j < n ==> ctu.coding_trees@[j] == before.coding_trees@[j],
                    forall|j: int| 0 <= j < i ==> #[trigger] qt_child(before, *ctu, t, mode_type_condition, j),
                    cts@ == Seq::new(i as nat, |j: int| (n + j) as usize),
                    n == before.coding_trees@.len(),
                    t < n,
                    node == before.coding_trees@[t as int],
                    split_ok(before, t, split_mode, mode_type_condition),
                    split_mode == MttSplitMode::SPLIT_QT,
                    lw == log2_of(width) && lh == log2_of(height),
                    width == node.width && height == node.height && x == node.x && y == node.y,
                    depth == node.depth && cqt_depth == node.cqt_depth && depth_offset == node.depth_offset,
                    qg_on_y == node.qg_on_y && qg_on_c == node.qg_on_c && tile == node.tile,
                    mode_type == split_mode_type(node, mode_type_condition),
                    tree_type == split_tree_type(node, mode_type_condition),
                decreases 4 - i,
            {
                let ghost prev = *ctu;
                assert((i % 2) * (width / 2) <= width && (i / 2) * (height / 2) <= height) by (nonlinear_arith)
                    requires
                        i < 4,
                ;
                let c = CodingTree::new_arc_mutex(
                    ctu,
                    x + (i % 2) * (width / 2),
                    y + (i / 2) * (height / 2),
                    lw - 1,
                    lh - 1,
                    depth + 1,
                    cqt_depth + 1,
                    depth_offset,
                    i,
                    qg_on_y,
                    qg_on_c,
                    Some(t),
                    fixed_qp,
                    MttSplitMode::SPLIT_NONE,
                    tree_type,
                    mode_type,
                    tile,
                );
                cts.push(c);
                proof {
                    assert forall|j: int| 0 <= j < n implies ctu.coding_trees@[j] == before.coding_trees@[j] by {
                        assert(ctu.coding_trees@[j] == prev.coding_trees@[j]);
                    }
                    assert forall|j: int| 0 <= j < i + 1 implies #[trigger] qt_child(before, *ctu, t, mode_type_condition, j) by {
                        if j < i {
                            assert(qt_child(before, prev, t, mode_type_condition, j));
                            assert(ctu.coding_trees@[n + j] == prev.coding_trees@[n + j]);
                        }
                    }
                    assert(cts@ =~= Seq::new((i + 1) as nat, |j: int| (n + j) as usize));
                }
                i += 1;
            }
            let len4 = ctu.coding_trees.len();
            assert(ctu.coding_trees@.len() == n + 4 && cts@.len() == 4 && n + 4 == len4);
            assert(forall|j: int| 0 <= j < 4 ==> #[trigger] cts@[j] == n + j);
            if adds_chroma {
                let ghost prev = *ctu;
                let c = CodingTree::new_arc_mutex(
                    ctu,
                    x,
                    y,
                    lw,
                    lh,
                    depth,
                    cqt_depth,
                    depth_offset,
                    0,
                    qg_on_y,
                    qg_on_c,
                    Some(t),
                    fixed_qp,
                    MttSplitMode::SPLIT_NONE,
                    TreeType::DUAL_TREE_CHROMA,
                    mode_type,
                    tile,
                );
                cts.push(c);
                let len5 = ctu.coding_trees.len();
                proof {
                    assert(n + 5 == len5);
                    assert forall|j: int| 0 <= j < n implies ctu.coding_trees@[j] == before.coding_trees@[j] by {
                        assert(ctu.coding_trees@[j] == prev.coding_trees@[j]);
                    }
                    assert forall|j: int| 0 <= j < 4 implies #[trigger] qt_child(before, *ctu, t, mode_type_condition, j) by {
                        assert(qt_child(before, prev, t, mode_type_condition, j));
                        assert(ctu.coding_trees@[n + j] == prev.coding_trees@[n + j]);
                    }
                    assert(cts@ =~= Seq::new(5, |j: int| (n + j) as usize));
                    assert(ctu.coding_trees@.len() == n + 5);
                    assert(forall|j: int| 0 <= j < 5 ==> #[trigger] cts@[j] == n + j);
                }
            }
            assert(cts@.len() + n == ctu.coding_trees@.len());
            assert(forall|j: int| 0 <= j < cts@.len() ==> #[trigger] cts@[j] == n + j);
        } else {
            let len = ctu.coding_trees[t].cts.len();
            let mut j: usize = 0;
            while j < len
                invariant
                    j <= len,
                    t < ctu.coding_trees@.len(),
                    len == ctu.coding_trees@[t as int].cts@.len(),
                    cts@ == ctu.coding_trees@[t as int].cts@.take(j as int),
                decreases len - j,
            {
                let c = ctu.coding_trees[t].cts[j];
                cts.push(c);
                proof {
                    assert(cts@ =~= ctu.coding_trees@[t as int].cts@.take(j + 1));
                }
                j += 1;
            }
            proof {
                assert(cts@ =~= ctu.coding_trees@[t as int].cts@);
            }
        }
        proof {
            if is_qt {
                assert(forall|j: int| 0 <= j < cts@.len() ==> n <= #[trigger] cts@[j] < ctu.coding_trees@.len());
            } else {
                assert(ctu.ct_ok(t as int));
            }
        }
        let ghost mid = *ctu;
        let new_node = CodingTree {
            mtt_split_cu_binary_flag,
            non_inter_flag,
            cts,
            cus: Vec::new(),
            width,
            height,
            depth,
            cqt_depth,
            tree_type: node_tree_type,
            mode_type: node_mode_type,
            x,
            y,
            depth_offset,
            part_idx,
            split_mode,
            qg_on_y,
            qg_on_c,
            parent,
            tile,
            above_right_available,
            below_left_available,
            x_tile,
            y_tile,
            width_tile,
            height_tile,
        };
        ctu.coding_trees.set(t, new_node);
        proof {
            let c = *ctu;
            assert(mid.ct_ok(t as int));
            assert forall|i2: int| 0 <= i2 < c.coding_trees@.len() implies #[trigger] c.ct_ok(i2) by {
                if i2 != t {
                    assert(mid.ct_ok(i2));
                } else {
                    let cc = c.coding_trees@[t as int].cts@;
                    assert(cc == cts@);
                    assert forall|j: int| 0 <= j < cc.len() implies t < #[trigger] cc[j] < c.coding_trees@.len() by {
                        if !is_qt {
                            assert(cc[j] == mid.coding_trees@[t as int].cts@[j]);
                        }
                    }
                }
            }
            assert forall|k2: int| 0 <= k2 < c.coding_units@.len() implies #[trigger] c.cu_ok(k2) by {
                assert(mid.cu_ok(k2));
            }
            assert forall|t2: int| 0 <= t2 < c.transform_trees@.len() implies #[trigger] c.tt_ok(t2) by {
                assert(mid.tt_ok(t2));
            }
            assert forall|u: int| 0 <= u < c.transform_units@.len() implies #[trigger] c.tu_ok(u) by {
                assert(mid.tu_ok(u));
            }
            assert forall|d: int| 0 <= d < c.dtiqs_nodes@.len() implies #[trigger] c.dtiqs_ok(d) by {
                assert(mid.dtiqs_ok(d));
            }
            if is_qt {
                assert forall|i: int| 0 <= i < 4 implies #[trigger] qt_child(before, c, t, mode_type_condition, i) by {
                    assert(qt_child(before, mid, t, mode_type_condition, i));
                    assert(c.coding_trees@[n + i] == mid.coding_trees@[n + i]);
                }
            }
        }
    }
}

} // verus!
