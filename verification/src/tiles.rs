//! Placing the nodes of a coding tree unit in a tile: each node records the tile and
//! its bounds in luma samples.
use crate::ctu::{CodingTree, CodingTreeUnit, CodingUnit, TileGeometry, TransformTree, TransformUnit, DTIQS};
use vstd::prelude::*;

verus! {

/// `n` placed in `tile`.
pub open spec fn tu_tiled(n: TransformUnit, tile: TileGeometry) -> TransformUnit {
    let (x, y, w, h) = tile.spec_bounds();
    TransformUnit { tile: Some(tile), x_tile: x, y_tile: y, width_tile: w, height_tile: h, ..n }
}

impl TransformUnit {
    /// Places this unit in `tile`.
    pub fn set_tile(&mut self, tile: TileGeometry)
        requires
            tile.log2_ctu_size < usize::BITS,
        ensures
            *final(self) == tu_tiled(*old(self), tile),
    {
        let (x, y, w, h) = tile.bounds();
        self.x_tile = x;
        self.y_tile = y;
        self.width_tile = w;
        self.height_tile = h;
        self.tile = Some(tile);
    }
}

/// `n` placed in `tile`.
pub open spec fn cu_tiled(n: CodingUnit, tile: TileGeometry) -> CodingUnit {
    let (x, y, w, h) = tile.spec_bounds();
    CodingUnit { tile: Some(tile), x_tile: x, y_tile: y, width_tile: w, height_tile: h, ..n }
}

impl CodingUnit {
    /// Places this unit in `tile`.
    pub fn set_tile(&mut self, tile: TileGeometry)
        requires
            tile.log2_ctu_size < usize::BITS,
        ensures
            *final(self) == cu_tiled(*old(self), tile),
    {
        let (x, y, w, h) = tile.bounds();
        self.x_tile = x;
        self.y_tile = y;
        self.width_tile = w;
        self.height_tile = h;
        self.tile = Some(tile);
    }
}

/// `n` placed in `tile`.
pub open spec fn tt_tiled(n: TransformTree, tile: TileGeometry) -> TransformTree {
    let (x, y, w, h) = tile.spec_bounds();
    TransformTree { tile: Some(tile), x_tile: x, y_tile: y, width_tile: w, height_tile: h, ..n }
}

impl TransformTree {
    /// Places this node in `tile`.
    pub fn set_tile(&mut self, tile: TileGeometry)
        requires
            tile.log2_ctu_size < usize::BITS,
        ensures
            *final(self) == tt_tiled(*old(self), tile),
    {
        let (x, y, w, h) = tile.bounds();
        self.x_tile = x;
        self.y_tile = y;
        self.width_tile = w;
        self.height_tile = h;
        self.tile = Some(tile);
    }
}

/// `n` placed in `tile`.
pub open spec fn ct_tiled(n: CodingTree, tile: TileGeometry) -> CodingTree {
    let (x, y, w, h) = tile.spec_bounds();
    CodingTree { tile: Some(tile), x_tile: x, y_tile: y, width_tile: w, height_tile: h, ..n }
}

impl CodingTree {
    /// Places this node in `tile`.
    pub fn set_tile(&mut self, tile: TileGeometry)
        requires
            tile.log2_ctu_size < usize::BITS,
        ensures
            *final(self) == ct_tiled(*old(self), tile),
    {
        let (x, y, w, h) = tile.bounds();
        self.x_tile = x;
        self.y_tile = y;
        self.width_tile = w;
        self.height_tile = h;
        self.tile = Some(tile);
    }
}

impl DTIQS {
    /// Places this node in `tile`.
    pub fn set_tile(&mut self, tile: TileGeometry)
        ensures
            *final(self) == (DTIQS { tile: Some(tile), ..*old(self) }),
    {
        self.tile = Some(tile);
    }
}

/// `c` with its own fields placed in `tile` and every node of its arenas placed
/// there too.
pub open spec fn ctu_tiled(old: CodingTreeUnit, new: CodingTreeUnit, tile: TileGeometry) -> bool {
    let (x, y, w, h) = tile.spec_bounds();
    &&& new.tile == Some(tile)
    &&& new.x_tile == x && new.y_tile == y && new.width_tile == w && new.height_tile == h
    &&& new.transform_units@ == old.transform_units@.map_values(|n: TransformUnit| tu_tiled(n, tile))
    &&& new.transform_trees@ == old.transform_trees@.map_values(|n: TransformTree| tt_tiled(n, tile))
    &&& new.coding_units@ == old.coding_units@.map_values(|n: CodingUnit| cu_tiled(n, tile))
    &&& new.coding_trees@ == old.coding_trees@.map_values(|n: CodingTree| ct_tiled(n, tile))
    &&& new.dtiqs_nodes@ == old.dtiqs_nodes@.map_values(|n: DTIQS| DTIQS { tile: Some(tile), ..n })
    &&& new == (CodingTreeUnit {
        tile: new.tile,
        x_tile: new.x_tile,
        y_tile: new.y_tile,
        width_tile: new.width_tile,
        height_tile: new.height_tile,
        transform_units: new.transform_units,
        transform_trees: new.transform_trees,
        coding_units: new.coding_units,
        coding_trees: new.coding_trees,
        dtiqs_nodes: new.dtiqs_nodes,
        ..old
    })
}

impl CodingTreeUnit {
    /// Places this unit and every node of its trees in `tile`.
    pub fn set_tile(&mut self, tile: TileGeometry)
        requires
            tile.log2_ctu_size < usize::BITS,
        ensures
            ctu_tiled(*old(self), *final(self), tile),
    {
        let ghost s0 = *self;
        let mut i: usize = 0;
        while i < self.dtiqs_nodes.len()
            invariant
                i <= self.dtiqs_nodes@.len() == s0.dtiqs_nodes@.len(),
                forall|j: int| 0 <= j < i ==> self.dtiqs_nodes@[j] == (DTIQS { tile: Some(tile), ..s0.dtiqs_nodes@[j] }),
                forall|j: int| i <= j < self.dtiqs_nodes@.len() ==> self.dtiqs_nodes@[j] == s0.dtiqs_nodes@[j],
                *self == (CodingTreeUnit { dtiqs_nodes: self.dtiqs_nodes, ..s0 }),
            decreases s0.dtiqs_nodes@.len() - i,
        {
            self.dtiqs_nodes[i].set_tile(tile);
            i += 1;
        }
        let ghost s1 = *self;
        let mut i: usize = 0;
        while i < self.coding_trees.len()
            invariant
                tile.log2_ctu_size < usize::BITS,
                i <= self.coding_trees@.len() == s1.coding_trees@.len(),
                forall|j: int| 0 <= j < i ==> self.coding_trees@[j] == ct_tiled(s1.coding_trees@[j], tile),
                forall|j: int| i <= j < self.coding_trees@.len() ==> self.coding_trees@[j] == s1.coding_trees@[j],
                *self == (CodingTreeUnit { coding_trees: self.coding_trees, ..s1 }),
            decreases s1.coding_trees@.len() - i,
        {
            self.coding_trees[i].set_tile(tile);
            i += 1;
        }
        let ghost s2 = *self;
        let mut i: usize = 0;
        while i < self.coding_units.len()
            invariant
                tile.log2_ctu_size < usize::BITS,
                i <= self.coding_units@.len() == s2.coding_units@.len(),
                forall|j: int| 0 <= j < i ==> self.coding_units@[j] == cu_tiled(s2.coding_units@[j], tile),
                forall|j: int| i <= j < self.coding_units@.len() ==> self.coding_units@[j] == s2.coding_units@[j],
                *self == (CodingTreeUnit { coding_units: self.coding_units, ..s2 }),
            decreases s2.coding_units@.len() - i,
        {
            self.coding_units[i].set_tile(tile);
            i += 1;
        }
        let ghost s3 = *self;
        let mut i: usize = 0;
        while i < self.transform_trees.len()
            invariant
                tile.log2_ctu_size < usize::BITS,
                i <= self.transform_trees@.len() == s3.transform_trees@.len(),
                forall|j: int| 0 <= j < i ==> self.transform_trees@[j] == tt_tiled(s3.transform_trees@[j], tile),
                forall|j: int| i <= j < self.transform_trees@.len() ==> self.transform_trees@[j] == s3.transform_trees@[j],
                *self == (CodingTreeUnit { transform_trees: self.transform_trees, ..s3 }),
            decreases s3.transform_trees@.len() - i,
        {
            self.transform_trees[i].set_tile(tile);
            i += 1;
        }
        let ghost s4 = *self;
        let mut i: usize = 0;
        while i < self.transform_units.len()
            invariant
                tile.log2_ctu_size < usize::BITS,
                i <= self.transform_units@.len() == s4.transform_units@.len(),
                forall|j: int| 0 <= j < i ==> self.transform_units@[j] == tu_tiled(s4.transform_units@[j], tile),
                forall|j: int| i <= j < self.transform_units@.len() ==> self.transform_units@[j] == s4.transform_units@[j],
                *self == (CodingTreeUnit { transform_units: self.transform_units, ..s4 }),
            decreases s4.transform_units@.len() - i,
        {
            self.transform_units[i].set_tile(tile);
            i += 1;
        }
        let (x, y, w, h) = tile.bounds();
        self.x_tile = x;
        self.y_tile = y;
        self.width_tile = w;
        self.height_tile = h;
        self.tile = Some(tile);
        proof {
            assert(self.transform_units@ =~= s0.transform_units@.map_values(|n: TransformUnit| tu_tiled(n, tile)));
            assert(self.transform_trees@ =~= s0.transform_trees@.map_values(|n: TransformTree| tt_tiled(n, tile)));
            assert(self.coding_units@ =~= s0.coding_units@.map_values(|n: CodingUnit| cu_tiled(n, tile)));
            assert(self.coding_trees@ =~= s0.coding_trees@.map_values(|n: CodingTree| ct_tiled(n, tile)));
            assert(self.dtiqs_nodes@ =~= s0.dtiqs_nodes@.map_values(|n: DTIQS| DTIQS { tile: Some(tile), ..n }));
        }
    }
}

proof fn lemma_transform_units_twice(a: Seq<TransformUnit>, b: Seq<TransformUnit>, c: Seq<TransformUnit>, tile: TileGeometry)
    requires
        b == a.map_values(|n: TransformUnit| tu_tiled(n, tile)),
        c == b.map_values(|n: TransformUnit| tu_tiled(n, tile)),
    ensures
        c == a.map_values(|n: TransformUnit| tu_tiled(n, tile)),
{
    assert forall|j: int| 0 <= j < c.len() implies #[trigger] c[j] == tu_tiled(a[j], tile) by {
        assert(c[j] == tu_tiled(b[j], tile));
        assert(b[j] == tu_tiled(a[j], tile));
    }
    assert(c =~= a.map_values(|n: TransformUnit| tu_tiled(n, tile)));
}

proof fn lemma_transform_trees_twice(a: Seq<TransformTree>, b: Seq<TransformTree>, c: Seq<TransformTree>, tile: TileGeometry)
    requires
        b == a.map_values(|n: TransformTree| tt_tiled(n, tile)),
        c == b.map_values(|n: TransformTree| tt_tiled(n, tile)),
    ensures
        c == a.map_values(|n: TransformTree| tt_tiled(n, tile)),
{
    assert forall|j: int| 0 <= j < c.len() implies #[trigger] c[j] == tt_tiled(a[j], tile) by {
        assert(c[j] == tt_tiled(b[j], tile));
        assert(b[j] == tt_tiled(a[j], tile));
    }
    assert(c =~= a.map_values(|n: TransformTree| tt_tiled(n, tile)));
}

proof fn lemma_coding_units_twice(a: Seq<CodingUnit>, b: Seq<CodingUnit>, c: Seq<CodingUnit>, tile: TileGeometry)
    requires
        b == a.map_values(|n: CodingUnit| cu_tiled(n, tile)),
        c == b.map_values(|n: CodingUnit| cu_tiled(n, tile)),
    ensures
        c == a.map_values(|n: CodingUnit| cu_tiled(n, tile)),
{
    assert forall|j: int| 0 <= j < c.len() implies #[trigger] c[j] == cu_tiled(a[j], tile) by {
        assert(c[j] == cu_tiled(b[j], tile));
        assert(b[j] == cu_tiled(a[j], tile));
    }
    assert(c =~= a.map_values(|n: CodingUnit| cu_tiled(n, tile)));
}

proof fn lemma_coding_trees_twice(a: Seq<CodingTree>, b: Seq<CodingTree>, c: Seq<CodingTree>, tile: TileGeometry)
    requires
        b == a.map_values(|n: CodingTree| ct_tiled(n, tile)),
        c == b.map_values(|n: CodingTree| ct_tiled(n, tile)),
    ensures
        c == a.map_values(|n: CodingTree| ct_tiled(n, tile)),
{
    assert forall|j: int| 0 <= j < c.len() implies #[trigger] c[j] == ct_tiled(a[j], tile) by {
        assert(c[j] == ct_tiled(b[j], tile));
        assert(b[j] == ct_tiled(a[j], tile));
    }
    assert(c =~= a.map_values(|n: CodingTree| ct_tiled(n, tile)));
}

proof fn lemma_dtiqs_nodes_twice(a: Seq<DTIQS>, b: Seq<DTIQS>, c: Seq<DTIQS>, tile: TileGeometry)
    requires
        b == a.map_values(|n: DTIQS| DTIQS { tile: Some(tile), ..n }),
        c == b.map_values(|n: DTIQS| DTIQS { tile: Some(tile), ..n }),
    ensures
        c == a.map_values(|n: DTIQS| DTIQS { tile: Some(tile), ..n }),
{
    assert(c =~= a.map_values(|n: DTIQS| DTIQS { tile: Some(tile), ..n }));
}

/// Placing a unit in a tile twice is the same as placing it once.
pub proof fn law_set_tile_twice_is_once(a: CodingTreeUnit, b: CodingTreeUnit, c: CodingTreeUnit, tile: TileGeometry)
    requires
        ctu_tiled(a, b, tile),
        ctu_tiled(b, c, tile),
    ensures
        ctu_tiled(a, c, tile),
{
    lemma_transform_units_twice(a.transform_units@, b.transform_units@, c.transform_units@, tile);
    lemma_transform_trees_twice(a.transform_trees@, b.transform_trees@, c.transform_trees@, tile);
    lemma_coding_units_twice(a.coding_units@, b.coding_units@, c.coding_units@, tile);
    lemma_coding_trees_twice(a.coding_trees@, b.coding_trees@, c.coding_trees@, tile);
    lemma_dtiqs_nodes_twice(a.dtiqs_nodes@, b.dtiqs_nodes@, c.dtiqs_nodes@, tile);
}

} // verus!
