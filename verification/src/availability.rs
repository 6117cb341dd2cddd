//! Availability of the below-left and above-right neighbours of the nodes of a
//! coding tree unit, with the result of each node cached in the node.
//!
//! Each query walks up the tree: a node at the bottom (right) edge of its tile has no
//! below-left (above-right) neighbour, a node whose neighbour lies inside its parent
//! decides from its position, and the others ask their parent. Every node on the way
//! records its answer; a query on a node that already holds one returns it.
use crate::ctu::{CodingTree, CodingTreeUnit, CodingUnit, TransformTree, TransformUnit};
use crate::common::MttSplitMode;
use vstd::prelude::*;

verus! {

/// The sums a node's neighbour tests compute fit a `usize`.
pub open spec fn geom_ok(x: usize, y: usize, w: usize, h: usize, xt: usize, yt: usize, wt: usize, ht: usize) -> bool {
    &&& x + w <= usize::MAX
    &&& y + h <= usize::MAX
    &&& xt + wt <= usize::MAX
    &&& yt + ht <= usize::MAX
}

/// Coding tree nodes whose parents come before them, with sums that fit, and whose
/// parents with several children record how they were split.
pub open spec fn cts_ok(c: Seq<CodingTree>) -> bool {
    forall|i: int|
        0 <= i < c.len() ==> {
            let n = #[trigger] c[i];
            &&& geom_ok(n.x, n.y, n.width, n.height, n.x_tile, n.y_tile, n.width_tile, n.height_tile)
            &&& (n.parent matches Some(p) ==> p < i && (c[p as int].cts@.len() > 1 ==> c[p as int].split_mode
                != MttSplitMode::SPLIT_NONE))
        }
}

/// Coding units whose parents exist, with sums that fit.
pub open spec fn cus_ok(u: Seq<CodingUnit>, c: Seq<CodingTree>) -> bool {
    forall|k: int|
        0 <= k < u.len() ==> {
            let n = #[trigger] u[k];
            &&& geom_ok(n.x, n.y, n.width, n.height, n.x_tile, n.y_tile, n.width_tile, n.height_tile)
            &&& n.parent < c.len()
        }
}

/// Transform tree nodes whose parents come before them and whose coding units exist,
/// with sums that fit.
pub open spec fn tts_ok(t: Seq<TransformTree>, u: Seq<CodingUnit>) -> bool {
    forall|i: int|
        0 <= i < t.len() ==> {
            let n = #[trigger] t[i];
            &&& geom_ok(n.x, n.y, n.width, n.height, n.x_tile, n.y_tile, n.width_tile, n.height_tile)
            &&& (n.parent matches Some(p) ==> p < i)
            &&& n.cu < u.len()
        }
}

/// Transform units whose parents exist, with sums that fit.
pub open spec fn tus_ok(s: Seq<TransformUnit>, t: Seq<TransformTree>) -> bool {
    forall|i: int|
        0 <= i < s.len() ==> {
            let n = #[trigger] s[i];
            &&& geom_ok(n.x, n.y, n.width, n.height, n.x_tile, n.y_tile, n.width_tile, n.height_tile)
            &&& n.parent < t.len()
        }
}

/// The nodes of `ctu` satisfy what the availability queries need.
pub open spec fn availability_ok(ctu: CodingTreeUnit) -> bool {
    &&& ctu.cu_below_left_available@.len() == ctu.coding_units@.len()
    &&& ctu.cu_above_right_available@.len() == ctu.coding_units@.len()
    &&& cts_ok(ctu.coding_trees@)
    &&& cus_ok(ctu.coding_units@, ctu.coding_trees@)
    &&& tts_ok(ctu.transform_trees@, ctu.coding_units@)
    &&& tus_ok(ctu.transform_units@, ctu.transform_trees@)
}

// Recording an answer in a node.

pub open spec fn ct_set_bl(c: Seq<CodingTree>, i: int, v: bool) -> Seq<CodingTree> {
    c.update(i, CodingTree { below_left_available: Some(v), ..c[i] })
}

pub open spec fn ct_set_ar(c: Seq<CodingTree>, i: int, v: bool) -> Seq<CodingTree> {
    c.update(i, CodingTree { above_right_available: Some(v), ..c[i] })
}



pub open spec fn tt_set_bl(t: Seq<TransformTree>, i: int, v: bool) -> Seq<TransformTree> {
    t.update(i, TransformTree { below_left_available: Some(v), ..t[i] })
}

pub open spec fn tt_set_ar(t: Seq<TransformTree>, i: int, v: bool) -> Seq<TransformTree> {
    t.update(i, TransformTree { above_right_available: Some(v), ..t[i] })
}

pub open spec fn tu_set_bl(s: Seq<TransformUnit>, i: int, v: bool) -> Seq<TransformUnit> {
    s.update(i, TransformUnit { below_left_available: Some(v), ..s[i] })
}

pub open spec fn tu_set_ar(s: Seq<TransformUnit>, i: int, v: bool) -> Seq<TransformUnit> {
    s.update(i, TransformUnit { above_right_available: Some(v), ..s[i] })
}

/// The below-left query on coding tree node `i`: the answer and the nodes afterwards.
pub open spec fn ct_bl_run(c: Seq<CodingTree>, i: int) -> (bool, Seq<CodingTree>)
    decreases i,
{
    let n = c[i];
    match n.below_left_available {
        Some(a) => (a, c),
        None => if n.y + n.height >= n.y_tile + n.height_tile {
            (false, ct_set_bl(c, i, false))
        } else {
            match n.parent {
                Some(p) => if 0 <= p < i {
                    let pn = c[p as int];
                    if pn.cts@.len() > 1 && pn.x < n.x {
                        (false, ct_set_bl(c, i, false))
                    } else if pn.cts@.len() > 1 && n.y + n.height < pn.y + pn.height {
                        (n.x_tile < n.x, ct_set_bl(c, i, n.x_tile < n.x))
                    } else {
                        let (a, c2) = ct_bl_run(c, p as int);
                        (a, ct_set_bl(c2, i, a))
                    }
                } else {
                    (false, c)
                },
                None => (false, ct_set_bl(c, i, false)),
            }
        },
    }
}

/// The above-right query on coding tree node `i`: the answer and the nodes afterwards.
pub open spec fn ct_ar_run(c: Seq<CodingTree>, i: int) -> (bool, Seq<CodingTree>)
    decreases i,
{
    let n = c[i];
    match n.above_right_available {
        Some(a) => (a, c),
        None => if n.x + n.width >= n.x_tile + n.width_tile {
            (false, ct_set_ar(c, i, false))
        } else {
            match n.parent {
                Some(p) => if 0 <= p < i {
                    let pn = c[p as int];
                    let up = ct_ar_run(c, p as int);
                    let inside = n.y_tile < n.y;
                    if n.width == pn.width && n.height == pn.height || pn.cts@.len() <= 1 {
                        (up.0, ct_set_ar(up.1, i, up.0))
                    } else if (pn.split_mode == MttSplitMode::SPLIT_BT_VER || pn.split_mode == MttSplitMode::SPLIT_TT_VER) {
                        if n.x + n.width < pn.x + pn.width {
                            (inside, ct_set_ar(c, i, inside))
                        } else {
                            (up.0, ct_set_ar(up.1, i, up.0))
                        }
                    } else if (pn.split_mode == MttSplitMode::SPLIT_BT_HOR || pn.split_mode == MttSplitMode::SPLIT_TT_HOR) {
                        if n.y == pn.y {
                            (up.0, ct_set_ar(up.1, i, up.0))
                        } else {
                            (false, ct_set_ar(c, i, false))
                        }
                    } else {
                        if n.x == pn.x && n.y == pn.y {
                            (inside, ct_set_ar(c, i, inside))
                        } else if n.y == pn.y {
                            (up.0, ct_set_ar(up.1, i, up.0))
                        } else {
                            (n.x == pn.x, ct_set_ar(c, i, n.x == pn.x))
                        }
                    }
                } else {
                    (false, c)
                },
                None => {
                    let a = n.y_tile < n.y && n.x + n.width < n.x_tile + n.width_tile;
                    (a, ct_set_ar(c, i, a))
                },
            }
        },
    }
}


/// The below-left query on coding unit `k`: the answer and the units and coding tree
/// nodes afterwards. A unit whose neighbour lies inside its parent records `false`
/// whatever it answers.
pub open spec fn cu_bl_run(m: Seq<Option<bool>>, u: Seq<CodingUnit>, c: Seq<CodingTree>, k: int) -> (bool, Seq<Option<bool>>, Seq<CodingTree>) {
    let n = u[k];
    let p = n.parent as int;
    match m[k] {
        Some(a) => (a, m, c),
        None => if n.y + n.height >= n.y_tile + n.height_tile {
            (false, m.update(k, Some(false)), c)
        } else if 0 <= p < c.len() {
            let pn = c[p];
            if pn.cus@.len() > 1 && pn.x < n.x {
                (false, m.update(k, Some(false)), c)
            } else if pn.cus@.len() > 1 && n.y + n.height < pn.y + pn.height {
                (n.x_tile < n.x, m.update(k, Some(false)), c)
            } else {
                let (a, c2) = ct_bl_run(c, p);
                (a, m.update(k, Some(a)), c2)
            }
        } else {
            (false, m, c)
        },
    }
}

/// The above-right query on coding unit `k`: the answer and the units and coding tree
/// nodes afterwards.
pub open spec fn cu_ar_run(m: Seq<Option<bool>>, u: Seq<CodingUnit>, c: Seq<CodingTree>, k: int) -> (bool, Seq<Option<bool>>, Seq<CodingTree>) {
    let n = u[k];
    let p = n.parent as int;
    match m[k] {
        Some(a) => (a, m, c),
        None => if n.x + n.width >= n.x_tile + n.width_tile {
            (false, m.update(k, Some(false)), c)
        } else if 0 <= p < c.len() {
            let pn = c[p];
            let up = ct_ar_run(c, p);
            if pn.cus@.len() > 1 && pn.width > pn.height && n.x + n.width < pn.x + pn.width {
                (n.y_tile < n.y, m.update(k, Some(n.y_tile < n.y)), c)
            } else if pn.cus@.len() > 1 && pn.width <= pn.height && n.y != pn.y {
                (false, m.update(k, Some(false)), c)
            } else {
                (up.0, m.update(k, Some(up.0)), up.1)
            }
        } else {
            (false, m, c)
        },
    }
}

/// The below-left query on transform tree node `i`: the answer and the transform tree
/// nodes, cached coding unit answers and coding tree nodes afterwards; the root asks its coding unit.
pub open spec fn tt_bl_run(t: Seq<TransformTree>, m: Seq<Option<bool>>, u: Seq<CodingUnit>, c: Seq<CodingTree>, i: int) -> (
    bool,
    Seq<TransformTree>,
    Seq<Option<bool>>,
    Seq<CodingTree>,
)
    decreases i,
{
    let n = t[i];
    match n.below_left_available {
        Some(a) => (a, t, m, c),
        None => if n.y + n.height >= n.y_tile + n.height_tile {
            (false, tt_set_bl(t, i, false), m, c)
        } else {
            match n.parent {
                Some(p) => if 0 <= p < i {
                    let pn = t[p as int];
                    if pn.tts@.len() > 1 && pn.x < n.x {
                        (false, tt_set_bl(t, i, false), m, c)
                    } else if pn.tts@.len() > 1 && n.y + n.height < pn.y + pn.height {
                        (n.x_tile < n.x, tt_set_bl(t, i, false), m, c)
                    } else {
                        let r = tt_bl_run(t, m, u, c, p as int);
                        (r.0, tt_set_bl(r.1, i, r.0), r.2, r.3)
                    }
                } else {
                    (false, t, m, c)
                },
                None => if 0 <= n.cu < u.len() {
                    let r = cu_bl_run(m, u, c, n.cu as int);
                    (r.0, tt_set_bl(t, i, r.0), r.1, r.2)
                } else {
                    (false, t, m, c)
                },
            }
        },
    }
}

/// The above-right query on transform tree node `i`: the answer and the transform
/// tree nodes, cached coding unit answers and coding tree nodes afterwards.
pub open spec fn tt_ar_run(t: Seq<TransformTree>, m: Seq<Option<bool>>, u: Seq<CodingUnit>, c: Seq<CodingTree>, i: int) -> (
    bool,
    Seq<TransformTree>,
    Seq<Option<bool>>,
    Seq<CodingTree>,
)
    decreases i,
{
    let n = t[i];
    match n.above_right_available {
        Some(a) => (a, t, m, c),
        None => if n.x + n.width >= n.x_tile + n.width_tile {
            (false, tt_set_ar(t, i, false), m, c)
        } else {
            match n.parent {
                Some(p) => if 0 <= p < i {
                    let pn = t[p as int];
                    if pn.width > pn.height && n.x + n.width < pn.x + pn.width {
                        (n.y_tile < n.y, tt_set_ar(t, i, n.y_tile < n.y), m, c)
                    } else if pn.width <= pn.height && n.y != pn.y {
                        (false, tt_set_ar(t, i, false), m, c)
                    } else {
                        let r = tt_ar_run(t, m, u, c, p as int);
                        (r.0, tt_set_ar(r.1, i, r.0), r.2, r.3)
                    }
                } else {
                    (false, t, m, c)
                },
                None => if 0 <= n.cu < u.len() {
                    let r = cu_ar_run(m, u, c, n.cu as int);
                    (r.0, tt_set_ar(t, i, r.0), r.1, r.2)
                } else {
                    (false, t, m, c)
                },
            }
        },
    }
}

/// The below-left query on transform unit `i`: the answer and all four kinds of nodes
/// afterwards. A unit whose neighbour lies inside its transform tree node records
/// `false` whatever it answers.
pub open spec fn tu_bl_run(s: Seq<TransformUnit>, t: Seq<TransformTree>, m: Seq<Option<bool>>, u: Seq<CodingUnit>, c: Seq<CodingTree>, i: int) -> (
    bool,
    Seq<TransformUnit>,
    Seq<TransformTree>,
    Seq<Option<bool>>,
    Seq<CodingTree>,
) {
    let n = s[i];
    let p = n.parent as int;
    match n.below_left_available {
        Some(a) => (a, s, t, m, c),
        None => if n.y + n.height >= n.y_tile + n.height_tile {
            (false, tu_set_bl(s, i, false), t, m, c)
        } else if 0 <= p < t.len() {
            let pn = t[p];
            if pn.tus@.len() > 1 && pn.x < n.x {
                (false, tu_set_bl(s, i, false), t, m, c)
            } else if pn.tus@.len() > 1 && n.y + n.height < pn.y + pn.height {
                (n.x_tile < n.x, tu_set_bl(s, i, false), t, m, c)
            } else {
                let r = tt_bl_run(t, m, u, c, p);
                (r.0, tu_set_bl(s, i, r.0), r.1, r.2, r.3)
            }
        } else {
            (false, s, t, m, c)
        },
    }
}

/// The above-right query on transform unit `i`: the answer and all four kinds of
/// nodes afterwards.
pub open spec fn tu_ar_run(s: Seq<TransformUnit>, t: Seq<TransformTree>, m: Seq<Option<bool>>, u: Seq<CodingUnit>, c: Seq<CodingTree>, i: int) -> (
    bool,
    Seq<TransformUnit>,
    Seq<TransformTree>,
    Seq<Option<bool>>,
    Seq<CodingTree>,
) {
    let n = s[i];
    let p = n.parent as int;
    match n.above_right_available {
        Some(a) => (a, s, t, m, c),
        None => if n.x + n.width >= n.x_tile + n.width_tile {
            (false, tu_set_ar(s, i, false), t, m, c)
        } else if 0 <= p < t.len() {
            let pn = t[p];
            if pn.tus@.len() > 1 && pn.width > pn.height && n.x + n.width < pn.x + pn.width {
                (n.y_tile < n.y, tu_set_ar(s, i, n.y_tile < n.y), t, m, c)
            } else if pn.tus@.len() > 1 && pn.width <= pn.height && n.y != pn.y {
                (false, tu_set_ar(s, i, false), t, m, c)
            } else {
                let r = tt_ar_run(t, m, u, c, p);
                (r.0, tu_set_ar(s, i, r.0), r.1, r.2, r.3)
            }
        } else {
            (false, s, t, m, c)
        },
    }
}

proof fn lemma_ct_bl_len(c: Seq<CodingTree>, i: int)
    requires
        0 <= i < c.len(),
    ensures
        ct_bl_run(c, i).1.len() == c.len(),
    decreases i,
{
    if let Some(p) = c[i].parent {
        if 0 <= p < i {
            lemma_ct_bl_len(c, p as int);
        }
    }
}

proof fn lemma_ct_ar_len(c: Seq<CodingTree>, i: int)
    requires
        0 <= i < c.len(),
    ensures
        ct_ar_run(c, i).1.len() == c.len(),
    decreases i,
{
    if let Some(p) = c[i].parent {
        if 0 <= p < i {
            lemma_ct_ar_len(c, p as int);
        }
    }
}

fn ct_below_left(c: &mut Vec<CodingTree>, i: usize) -> (r: bool)
    requires
        cts_ok(old(c)@),
        i < old(c)@.len(),
    ensures
        (r, final(c)@) == ct_bl_run(old(c)@, i as int),
    decreases i,
{
    if let Some(a) = c[i].below_left_available {
        return a;
    }
    proof {
        assert(geom_ok(c@[i as int].x, c@[i as int].y, c@[i as int].width, c@[i as int].height, c@[i as int].x_tile, c@[i as int].y_tile, c@[i as int].width_tile, c@[i as int].height_tile));
    }
    if c[i].y + c[i].height >= c[i].y_tile + c[i].height_tile {
        c[i].below_left_available = Some(false);
        return false;
    }
    match c[i].parent {
        Some(p) => {
            proof {
                assert(geom_ok(c@[p as int].x, c@[p as int].y, c@[p as int].width, c@[p as int].height, c@[p as int].x_tile, c@[p as int].y_tile, c@[p as int].width_tile, c@[p as int].height_tile));
            }
            let several = c[p].cts.len() > 1;
            if several && c[p].x < c[i].x {
                c[i].below_left_available = Some(false);
                false
            } else if several && c[i].y + c[i].height < c[p].y + c[p].height {
                let available = c[i].x_tile < c[i].x;
                c[i].below_left_available = Some(available);
                available
            } else {
                proof {
                    lemma_ct_bl_len(c@, p as int);
                }
                let available = ct_below_left(c, p);
                c[i].below_left_available = Some(available);
                available
            }
        },
        None => {
            c[i].below_left_available = Some(false);
            false
        },
    }
}

fn ct_above_right(c: &mut Vec<CodingTree>, i: usize) -> (r: bool)
    requires
        cts_ok(old(c)@),
        i < old(c)@.len(),
    ensures
        (r, final(c)@) == ct_ar_run(old(c)@, i as int),
    decreases i,
{
    if let Some(a) = c[i].above_right_available {
        return a;
    }
    proof {
        let n = c@[i as int];
        assert(geom_ok(n.x, n.y, n.width, n.height, n.x_tile, n.y_tile, n.width_tile, n.height_tile));
    }
    if c[i].x + c[i].width >= c[i].x_tile + c[i].width_tile {
        c[i].above_right_available = Some(false);
        return false;
    }
    match c[i].parent {
        Some(p) => {
            proof {
                let n = c@[p as int];
                assert(geom_ok(n.x, n.y, n.width, n.height, n.x_tile, n.y_tile, n.width_tile, n.height_tile));
                lemma_ct_ar_len(c@, p as int);
            }
            let inside = c[i].y_tile < c[i].y;
            if (c[i].width == c[p].width && c[i].height == c[p].height) || c[p].cts.len() <= 1 {
                let available = ct_above_right(c, p);
                c[i].above_right_available = Some(available);
                available
            } else {
                match c[p].split_mode {
                    MttSplitMode::SPLIT_BT_VER | MttSplitMode::SPLIT_TT_VER => {
                        if c[i].x + c[i].width < c[p].x + c[p].width {
                            c[i].above_right_available = Some(inside);
                            inside
                        } else {
                            let available = ct_above_right(c, p);
                            c[i].above_right_available = Some(available);
                            available
                        }
                    },
                    MttSplitMode::SPLIT_BT_HOR | MttSplitMode::SPLIT_TT_HOR => {
                        if c[i].y == c[p].y {
                            let available = ct_above_right(c, p);
                            c[i].above_right_available = Some(available);
                            available
                        } else {
                            c[i].above_right_available = Some(false);
                            false
                        }
                    },
                    _ => {
                        if c[i].x == c[p].x && c[i].y == c[p].y {
                            c[i].above_right_available = Some(inside);
                            inside
                        } else if c[i].y == c[p].y {
                            let available = ct_above_right(c, p);
                            c[i].above_right_available = Some(available);
                            available
                        } else {
                            let available = c[i].x == c[p].x;
                            c[i].above_right_available = Some(available);
                            available
                        }
                    },
                }
            }
        },
        None => {
            let available = c[i].y_tile < c[i].y && c[i].x + c[i].width < c[i].x_tile + c[i].width_tile;
            c[i].above_right_available = Some(available);
            available
        },
    }
}

fn cu_below_left(m: &mut Vec<Option<bool>>, u: &Vec<CodingUnit>, c: &mut Vec<CodingTree>, k: usize) -> (r: bool)
    requires
        cts_ok(old(c)@),
        cus_ok(u@, old(c)@),
        k < u@.len(),
        old(m)@.len() == u@.len(),
    ensures
        (r, final(m)@, final(c)@) == cu_bl_run(old(m)@, u@, old(c)@, k as int),
{
    if let Some(a) = m[k] {
        return a;
    }
    proof {
        let n = u@[k as int];
        assert(geom_ok(n.x, n.y, n.width, n.height, n.x_tile, n.y_tile, n.width_tile, n.height_tile));
    }
    if u[k].y + u[k].height >= u[k].y_tile + u[k].height_tile {
        m.set(k, Some(false));
        return false;
    }
    let p = u[k].parent;
    proof {
        let n = c@[p as int];
        assert(geom_ok(n.x, n.y, n.width, n.height, n.x_tile, n.y_tile, n.width_tile, n.height_tile));
    }
    let several = c[p].cus.len() > 1;
    if several && c[p].x < u[k].x {
        m.set(k, Some(false));
        false
    } else if several && u[k].y + u[k].height < c[p].y + c[p].height {
        let available = u[k].x_tile < u[k].x;
        m.set(k, Some(false));
        available
    } else {
        let available = ct_below_left(c, p);
        m.set(k, Some(available));
        available
    }
}

fn cu_above_right(m: &mut Vec<Option<bool>>, u: &Vec<CodingUnit>, c: &mut Vec<CodingTree>, k: usize) -> (r: bool)
    requires
        cts_ok(old(c)@),
        cus_ok(u@, old(c)@),
        k < u@.len(),
        old(m)@.len() == u@.len(),
    ensures
        (r, final(m)@, final(c)@) == cu_ar_run(old(m)@, u@, old(c)@, k as int),
{
    if let Some(a) = m[k] {
        return a;
    }
    proof {
        let n = u@[k as int];
        assert(geom_ok(n.x, n.y, n.width, n.height, n.x_tile, n.y_tile, n.width_tile, n.height_tile));
    }
    if u[k].x + u[k].width >= u[k].x_tile + u[k].width_tile {
        m.set(k, Some(false));
        return false;
    }
    let p = u[k].parent;
    proof {
        let n = c@[p as int];
        assert(geom_ok(n.x, n.y, n.width, n.height, n.x_tile, n.y_tile, n.width_tile, n.height_tile));
    }
    let several = c[p].cus.len() > 1;
    if several && c[p].width > c[p].height && u[k].x + u[k].width < c[p].x + c[p].width {
        let available = u[k].y_tile < u[k].y;
        m.set(k, Some(available));
        available
    } else if several && c[p].width <= c[p].height && u[k].y != c[p].y {
        m.set(k, Some(false));
        false
    } else {
        let available = ct_above_right(c, p);
        m.set(k, Some(available));
        available
    }
}

proof fn lemma_tt_bl_len(t: Seq<TransformTree>, m: Seq<Option<bool>>, u: Seq<CodingUnit>, c: Seq<CodingTree>, i: int)
    requires
        0 <= i < t.len(),
    ensures
        tt_bl_run(t, m, u, c, i).1.len() == t.len(),
    decreases i,
{
    if let Some(p) = t[i].parent {
        if 0 <= p < i {
            lemma_tt_bl_len(t, m, u, c, p as int);
        }
    }
}

proof fn lemma_tt_ar_len(t: Seq<TransformTree>, m: Seq<Option<bool>>, u: Seq<CodingUnit>, c: Seq<CodingTree>, i: int)
    requires
        0 <= i < t.len(),
    ensures
        tt_ar_run(t, m, u, c, i).1.len() == t.len(),
    decreases i,
{
    if let Some(p) = t[i].parent {
        if 0 <= p < i {
            lemma_tt_ar_len(t, m, u, c, p as int);
        }
    }
}

fn tt_below_left(t: &mut Vec<TransformTree>, m: &mut Vec<Option<bool>>, u: &Vec<CodingUnit>, c: &mut Vec<CodingTree>, i: usize) -> (r: bool)
    requires
        cts_ok(old(c)@),
        cus_ok(u@, old(c)@),
        tts_ok(old(t)@, u@),
        old(m)@.len() == u@.len(),
        i < old(t)@.len(),
    ensures
        (r, final(t)@, final(m)@, final(c)@) == tt_bl_run(old(t)@, old(m)@, u@, old(c)@, i as int),
    decreases i,
{
    if let Some(a) = t[i].below_left_available {
        return a;
    }
    proof {
        let n = t@[i as int];
        assert(geom_ok(n.x, n.y, n.width, n.height, n.x_tile, n.y_tile, n.width_tile, n.height_tile));
    }
    if t[i].y + t[i].height >= t[i].y_tile + t[i].height_tile {
        t[i].below_left_available = Some(false);
        return false;
    }
    match t[i].parent {
        Some(p) => {
            proof {
                let n = t@[p as int];
                assert(geom_ok(n.x, n.y, n.width, n.height, n.x_tile, n.y_tile, n.width_tile, n.height_tile));
                lemma_tt_bl_len(t@, m@, u@, c@, p as int);
            }
            let several = t[p].tts.len() > 1;
            if several && t[p].x < t[i].x {
                t[i].below_left_available = Some(false);
                false
            } else if several && t[i].y + t[i].height < t[p].y + t[p].height {
                let available = t[i].x_tile < t[i].x;
                t[i].below_left_available = Some(false);
                available
            } else {
                let available = tt_below_left(t, m, u, c, p);
                t[i].below_left_available = Some(available);
                available
            }
        },
        None => {
            let k = t[i].cu;
            let available = cu_below_left(m, u, c, k);
            t[i].below_left_available = Some(available);
            available
        },
    }
}

fn tt_above_right(t: &mut Vec<TransformTree>, m: &mut Vec<Option<bool>>, u: &Vec<CodingUnit>, c: &mut Vec<CodingTree>, i: usize) -> (r: bool)
    requires
        cts_ok(old(c)@),
        cus_ok(u@, old(c)@),
        tts_ok(old(t)@, u@),
        old(m)@.len() == u@.len(),
        i < old(t)@.len(),
    ensures
        (r, final(t)@, final(m)@, final(c)@) == tt_ar_run(old(t)@, old(m)@, u@, old(c)@, i as int),
    decreases i,
{
    if let Some(a) = t[i].above_right_available {
        return a;
    }
    proof {
        let n = t@[i as int];
        assert(geom_ok(n.x, n.y, n.width, n.height, n.x_tile, n.y_tile, n.width_tile, n.height_tile));
    }
    if t[i].x + t[i].width >= t[i].x_tile + t[i].width_tile {
        t[i].above_right_available = Some(false);
        return false;
    }
    match t[i].parent {
        Some(p) => {
            proof {
                let n = t@[p as int];
                assert(geom_ok(n.x, n.y, n.width, n.height, n.x_tile, n.y_tile, n.width_tile, n.height_tile));
                lemma_tt_ar_len(t@, m@, u@, c@, p as int);
            }
            if t[p].width > t[p].height && t[i].x + t[i].width < t[p].x + t[p].width {
                let available = t[i].y_tile < t[i].y;
                t[i].above_right_available = Some(available);
                available
            } else if t[p].width <= t[p].height && t[i].y != t[p].y {
                t[i].above_right_available = Some(false);
                false
            } else {
                let available = tt_above_right(t, m, u, c, p);
                t[i].above_right_available = Some(available);
                available
            }
        },
        None => {
            let k = t[i].cu;
            let available = cu_above_right(m, u, c, k);
            t[i].above_right_available = Some(available);
            available
        },
    }
}

fn tu_below_left(
    s: &mut Vec<TransformUnit>,
    t: &mut Vec<TransformTree>,
    m: &mut Vec<Option<bool>>,
    u: &Vec<CodingUnit>,
    c: &mut Vec<CodingTree>,
    i: usize,
) -> (r: bool)
    requires
        cts_ok(old(c)@),
        cus_ok(u@, old(c)@),
        tts_ok(old(t)@, u@),
        tus_ok(old(s)@, old(t)@),
        old(m)@.len() == u@.len(),
        i < old(s)@.len(),
    ensures
        (r, final(s)@, final(t)@, final(m)@, final(c)@) == tu_bl_run(old(s)@, old(t)@, old(m)@, u@, old(c)@, i as int),
{
    if let Some(a) = s[i].below_left_available {
        return a;
    }
    proof {
        let n = s@[i as int];
        assert(geom_ok(n.x, n.y, n.width, n.height, n.x_tile, n.y_tile, n.width_tile, n.height_tile));
    }
    if s[i].y + s[i].height >= s[i].y_tile + s[i].height_tile {
        s[i].below_left_available = Some(false);
        return false;
    }
    let p = s[i].parent;
    proof {
        let n = t@[p as int];
        assert(geom_ok(n.x, n.y, n.width, n.height, n.x_tile, n.y_tile, n.width_tile, n.height_tile));
    }
    let several = t[p].tus.len() > 1;
    if several && t[p].x < s[i].x {
        s[i].below_left_available = Some(false);
        false
    } else if several && s[i].y + s[i].height < t[p].y + t[p].height {
        let available = s[i].x_tile < s[i].x;
        s[i].below_left_available = Some(false);
        available
    } else {
        let available = tt_below_left(t, m, u, c, p);
        s[i].below_left_available = Some(available);
        available
    }
}

fn tu_above_right(
    s: &mut Vec<TransformUnit>,
    t: &mut Vec<TransformTree>,
    m: &mut Vec<Option<bool>>,
    u: &Vec<CodingUnit>,
    c: &mut Vec<CodingTree>,
    i: usize,
) -> (r: bool)
    requires
        cts_ok(old(c)@),
        cus_ok(u@, old(c)@),
        tts_ok(old(t)@, u@),
        tus_ok(old(s)@, old(t)@),
        old(m)@.len() == u@.len(),
        i < old(s)@.len(),
    ensures
        (r, final(s)@, final(t)@, final(m)@, final(c)@) == tu_ar_run(old(s)@, old(t)@, old(m)@, u@, old(c)@, i as int),
{
    if let Some(a) = s[i].above_right_available {
        return a;
    }
    proof {
        let n = s@[i as int];
        assert(geom_ok(n.x, n.y, n.width, n.height, n.x_tile, n.y_tile, n.width_tile, n.height_tile));
    }
    if s[i].x + s[i].width >= s[i].x_tile + s[i].width_tile {
        s[i].above_right_available = Some(false);
        return false;
    }
    let p = s[i].parent;
    proof {
        let n = t@[p as int];
        assert(geom_ok(n.x, n.y, n.width, n.height, n.x_tile, n.y_tile, n.width_tile, n.height_tile));
    }
    let several = t[p].tus.len() > 1;
    if several && t[p].width > t[p].height && s[i].x + s[i].width < t[p].x + t[p].width {
        let available = s[i].y_tile < s[i].y;
        s[i].above_right_available = Some(available);
        available
    } else if several && t[p].width <= t[p].height && s[i].y != t[p].y {
        s[i].above_right_available = Some(false);
        false
    } else {
        let available = tt_above_right(t, m, u, c, p);
        s[i].above_right_available = Some(available);
        available
    }
}

#[verifier::spinoff_prover]
#[verifier::rlimit(40)]
proof fn lemma_ct_bl_cached(c: Seq<CodingTree>, i: int)
    requires
        cts_ok(c),
        0 <= i < c.len(),
    ensures
        ct_bl_run(c, i).1.len() == c.len(),
        ct_bl_run(c, i).1[i].below_left_available == Some(ct_bl_run(c, i).0),
{
    lemma_ct_bl_len(c, i);
    if let Some(p) = c[i].parent {
        lemma_ct_bl_len(c, p as int);
    }
}

#[verifier::spinoff_prover]
#[verifier::rlimit(40)]
proof fn lemma_ct_ar_cached(c: Seq<CodingTree>, i: int)
    requires
        cts_ok(c),
        0 <= i < c.len(),
    ensures
        ct_ar_run(c, i).1.len() == c.len(),
        ct_ar_run(c, i).1[i].above_right_available == Some(ct_ar_run(c, i).0),
{
    lemma_ct_ar_len(c, i);
    if let Some(p) = c[i].parent {
        lemma_ct_ar_len(c, p as int);
    }
}

/// A coding tree node remembers its answers: asking a node again after a query
/// gives the same answer and changes nothing more.
pub proof fn law_coding_tree_answers_are_cached(c: Seq<CodingTree>, i: int)
    requires
        cts_ok(c),
        0 <= i < c.len(),
    ensures
        ct_bl_run(ct_bl_run(c, i).1, i) == ct_bl_run(c, i),
        ct_ar_run(ct_ar_run(c, i).1, i) == ct_ar_run(c, i),
{
    lemma_ct_bl_cached(c, i);
    lemma_ct_ar_cached(c, i);
}

/// The one case in which a transform unit records an answer other than the one it
/// gives: inside a split transform tree node, with its below-left neighbour inside
/// the node, it answers whether it lies right of the tile's left edge (true here)
/// but records `false`.
pub open spec fn tu_bl_recorded_differs(s: Seq<TransformUnit>, t: Seq<TransformTree>, i: int) -> bool {
    let n = s[i];
    let p = n.parent as int;
    &&& n.below_left_available is None
    &&& n.y + n.height < n.y_tile + n.height_tile
    &&& 0 <= p < t.len()
    &&& t[p].tus@.len() > 1
    &&& !(t[p].x < n.x)
    &&& n.y + n.height < t[p].y + t[p].height
    &&& n.x_tile < n.x
}

/// A transform unit remembers its answers: asking it again right after a query gives
/// the same answer and changes nothing more (for the below-left query, except in the
/// case where it records another answer than it gives); and a unit that had no answer
/// yet never finds a neighbour below the bottom edge of its tile.
pub proof fn law_transform_unit_answers_are_cached(
    s: Seq<TransformUnit>,
    t: Seq<TransformTree>,
    m: Seq<Option<bool>>,
    u: Seq<CodingUnit>,
    c: Seq<CodingTree>,
    i: int,
)
    requires
        0 <= i < s.len(),
    ensures
        ({
            let r = tu_ar_run(s, t, m, u, c, i);
            tu_ar_run(r.1, r.2, r.3, u, r.4, i) == r
        }),
        !tu_bl_recorded_differs(s, t, i) ==> ({
            let r = tu_bl_run(s, t, m, u, c, i);
            tu_bl_run(r.1, r.2, r.3, u, r.4, i) == r
        }),
        s[i].below_left_available is None && tu_bl_run(s, t, m, u, c, i).0 ==> s[i].y + s[i].height < s[i].y_tile
            + s[i].height_tile,
        s[i].above_right_available is None && tu_ar_run(s, t, m, u, c, i).0 ==> s[i].x + s[i].width < s[i].x_tile
            + s[i].width_tile,
{
}

impl CodingTree {
    /// Whether the below-left neighbour of coding tree node `i` of `ctu` is available;
    /// records the answers on the way.
    pub fn is_below_left_available(ctu: &mut CodingTreeUnit, i: usize) -> (r: bool)
        requires
            availability_ok(*old(ctu)),
            i < old(ctu).coding_trees@.len(),
        ensures
            (r, final(ctu).coding_trees@) == ct_bl_run(old(ctu).coding_trees@, i as int),
            *final(ctu) == (CodingTreeUnit { coding_trees: final(ctu).coding_trees, ..*old(ctu) }),
    {
        ct_below_left(&mut ctu.coding_trees, i)
    }

    /// Whether the above-right neighbour of coding tree node `i` of `ctu` is
    /// available; records the answers on the way.
    pub fn is_above_right_available(ctu: &mut CodingTreeUnit, i: usize) -> (r: bool)
        requires
            availability_ok(*old(ctu)),
            i < old(ctu).coding_trees@.len(),
        ensures
            (r, final(ctu).coding_trees@) == ct_ar_run(old(ctu).coding_trees@, i as int),
            *final(ctu) == (CodingTreeUnit { coding_trees: final(ctu).coding_trees, ..*old(ctu) }),
    {
        ct_above_right(&mut ctu.coding_trees, i)
    }
}

impl CodingUnit {
    /// Whether the below-left neighbour of coding unit `k` of `ctu` is available;
    /// records the answers on the way.
    pub fn is_below_left_available(ctu: &mut CodingTreeUnit, k: usize) -> (r: bool)
        requires
            availability_ok(*old(ctu)),
            k < old(ctu).coding_units@.len(),
        ensures
            (r, final(ctu).cu_below_left_available@, final(ctu).coding_trees@) == cu_bl_run(
                old(ctu).cu_below_left_available@,
                old(ctu).coding_units@,
                old(ctu).coding_trees@,
                k as int,
            ),
            *final(ctu) == (CodingTreeUnit {
                coding_trees: final(ctu).coding_trees,
                cu_below_left_available: final(ctu).cu_below_left_available,
                ..*old(ctu)
            }),
    {
        cu_below_left(&mut ctu.cu_below_left_available, &ctu.coding_units, &mut ctu.coding_trees, k)
    }

    /// Whether the above-right neighbour of coding unit `k` of `ctu` is available;
    /// records the answers on the way.
    pub fn is_above_right_available(ctu: &mut CodingTreeUnit, k: usize) -> (r: bool)
        requires
            availability_ok(*old(ctu)),
            k < old(ctu).coding_units@.len(),
        ensures
            (r, final(ctu).cu_above_right_available@, final(ctu).coding_trees@) == cu_ar_run(
                old(ctu).cu_above_right_available@,
                old(ctu).coding_units@,
                old(ctu).coding_trees@,
                k as int,
            ),
            *final(ctu) == (CodingTreeUnit {
                coding_trees: final(ctu).coding_trees,
                cu_above_right_available: final(ctu).cu_above_right_available,
                ..*old(ctu)
            }),
    {
        cu_above_right(&mut ctu.cu_above_right_available, &ctu.coding_units, &mut ctu.coding_trees, k)
    }
}

impl TransformTree {
    /// Whether the below-left neighbour of transform tree node `t` of `ctu` is
    /// available; records the answers on the way.
    pub fn is_below_left_available(ctu: &mut CodingTreeUnit, t: usize) -> (r: bool)
        requires
            availability_ok(*old(ctu)),
            t < old(ctu).transform_trees@.len(),
        ensures
            (r, final(ctu).transform_trees@, final(ctu).cu_below_left_available@, final(ctu).coding_trees@)
                == tt_bl_run(
                old(ctu).transform_trees@,
                old(ctu).cu_below_left_available@,
                old(ctu).coding_units@,
                old(ctu).coding_trees@,
                t as int,
            ),
            *final(ctu) == (CodingTreeUnit {
                coding_trees: final(ctu).coding_trees,
                cu_below_left_available: final(ctu).cu_below_left_available,
                transform_trees: final(ctu).transform_trees,
                ..*old(ctu)
            }),
    {
        tt_below_left(
            &mut ctu.transform_trees,
            &mut ctu.cu_below_left_available,
            &ctu.coding_units,
            &mut ctu.coding_trees,
            t,
        )
    }

    /// Whether the above-right neighbour of transform tree node `t` of `ctu` is
    /// available; records the answers on the way.
    pub fn is_above_right_available(ctu: &mut CodingTreeUnit, t: usize) -> (r: bool)
        requires
            availability_ok(*old(ctu)),
            t < old(ctu).transform_trees@.len(),
        ensures
            (r, final(ctu).transform_trees@, final(ctu).cu_above_right_available@, final(ctu).coding_trees@)
                == tt_ar_run(
                old(ctu).transform_trees@,
                old(ctu).cu_above_right_available@,
                old(ctu).coding_units@,
                old(ctu).coding_trees@,
                t as int,
            ),
            *final(ctu) == (CodingTreeUnit {
                coding_trees: final(ctu).coding_trees,
                cu_above_right_available: final(ctu).cu_above_right_available,
                transform_trees: final(ctu).transform_trees,
                ..*old(ctu)
            }),
    {
        tt_above_right(
            &mut ctu.transform_trees,
            &mut ctu.cu_above_right_available,
            &ctu.coding_units,
            &mut ctu.coding_trees,
            t,
        )
    }
}

impl TransformUnit {
    /// Whether the below-left neighbour of transform unit `u` of `ctu` is available;
    /// records the answers on the way.
    pub fn is_below_left_available(ctu: &mut CodingTreeUnit, u: usize) -> (r: bool)
        requires
            availability_ok(*old(ctu)),
            u < old(ctu).transform_units@.len(),
        ensures
            (
                r,
                final(ctu).transform_units@,
                final(ctu).transform_trees@,
                final(ctu).cu_below_left_available@,
                final(ctu).coding_trees@,
            ) == tu_bl_run(
                old(ctu).transform_units@,
                old(ctu).transform_trees@,
                old(ctu).cu_below_left_available@,
                old(ctu).coding_units@,
                old(ctu).coding_trees@,
                u as int,
            ),
            *final(ctu) == (CodingTreeUnit {
                coding_trees: final(ctu).coding_trees,
                cu_below_left_available: final(ctu).cu_below_left_available,
                transform_trees: final(ctu).transform_trees,
                transform_units: final(ctu).transform_units,
                ..*old(ctu)
            }),
    {
        tu_below_left(
            &mut ctu.transform_units,
            &mut ctu.transform_trees,
            &mut ctu.cu_below_left_available,
            &ctu.coding_units,
            &mut ctu.coding_trees,
            u,
        )
    }

    /// Whether the above-right neighbour of transform unit `u` of `ctu` is available;
    /// records the answers on the way.
    pub fn is_above_right_available(ctu: &mut CodingTreeUnit, u: usize) -> (r: bool)
        requires
            availability_ok(*old(ctu)),
            u < old(ctu).transform_units@.len(),
        ensures
            (
                r,
                final(ctu).transform_units@,
                final(ctu).transform_trees@,
                final(ctu).cu_above_right_available@,
                final(ctu).coding_trees@,
            ) == tu_ar_run(
                old(ctu).transform_units@,
                old(ctu).transform_trees@,
                old(ctu).cu_above_right_available@,
                old(ctu).coding_units@,
                old(ctu).coding_trees@,
                u as int,
            ),
            *final(ctu) == (CodingTreeUnit {
                coding_trees: final(ctu).coding_trees,
                cu_above_right_available: final(ctu).cu_above_right_available,
                transform_trees: final(ctu).transform_trees,
                transform_units: final(ctu).transform_units,
                ..*old(ctu)
            }),
    {
        tu_above_right(
            &mut ctu.transform_units,
            &mut ctu.transform_trees,
            &mut ctu.cu_above_right_available,
            &ctu.coding_units,
            &mut ctu.coding_trees,
            u,
        )
    }
}

} // verus!
