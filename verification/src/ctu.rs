//! Coding tree units and the trees of coding and transform units inside them.
//!
//! The nodes of a coding tree unit live in arenas owned by the unit; a node names
//! its parent and children by their positions in those arenas.
use crate::bits::ilog2;
use crate::common::{ChromaFormat, IntraPredMode, ModeType, MttSplitMode, SliceType, TreeType, Vec2d};
use vstd::arithmetic::power2::pow2;
use vstd::prelude::*;

verus! {

/// Sample adaptive offset parameters of a coding tree unit.
#[allow(non_camel_case_types)]
pub struct SAO {
    pub merge_left_flag: bool,
    pub merge_up_flag: bool,
    pub type_idx_luma: usize,
    pub type_idx_chroma: usize,
    pub offset_abs: Vec<Vec<Vec<Vec<usize>>>>,
    pub offset_sign_flag: Vec<Vec<Vec<Vec<bool>>>>,
    pub band_position: Vec<Vec<Vec<usize>>>,
    pub eo_class_luma: usize,
    pub eo_class_chroma: usize,
}

impl SAO {
    /// Offsets off for every component.
    pub fn new() -> (r: SAO)
        ensures
            !r.merge_left_flag,
            !r.merge_up_flag,
            r.type_idx_luma == 0,
            r.type_idx_chroma == 0,
            r.offset_abs@.len() == 0,
            r.offset_sign_flag@.len() == 0,
            r.band_position@.len() == 0,
            r.eo_class_luma == 0,
            r.eo_class_chroma == 0,
    {
        SAO {
            merge_left_flag: false,
            merge_up_flag: false,
            type_idx_luma: 0,
            type_idx_chroma: 0,
            offset_abs: Vec::new(),
            offset_sign_flag: Vec::new(),
            band_position: Vec::new(),
            eo_class_luma: 0,
            eo_class_chroma: 0,
        }
    }
}

/// Adaptive loop filter parameters of a coding tree unit.
#[allow(non_camel_case_types)]
pub struct ALF {
    pub ctb_flag: Vec<bool>,
    pub use_aps_flag: bool,
    pub luma_prev_filter_idx: usize,
    pub luma_fixed_filter_idx: usize,
    pub ctb_filter_alt_idx: Vec<usize>,
    pub ctb_cc_cb_idc: usize,
    pub ctb_cc_cr_idc: usize,
}

impl ALF {
    /// The filter off for every component.
    pub fn new() -> (r: ALF)
        ensures
            r.ctb_flag@.len() == 0,
            !r.use_aps_flag,
            r.luma_prev_filter_idx == 0,
            r.luma_fixed_filter_idx == 0,
            r.ctb_filter_alt_idx@.len() == 0,
            r.ctb_cc_cb_idc == 0,
            r.ctb_cc_cr_idc == 0,
    {
        ALF {
            ctb_flag: Vec::new(),
            use_aps_flag: false,
            luma_prev_filter_idx: 0,
            luma_fixed_filter_idx: 0,
            ctb_filter_alt_idx: Vec::new(),
            ctb_cc_cb_idc: 0,
            ctb_cc_cr_idc: 0,
        }
    }
}

/// The position of a tile in the picture, in coding tree units.
#[derive(Clone, Copy)]
pub struct TileGeometry {
    pub ctu_col: usize,
    pub ctu_row: usize,
    pub num_ctu_cols: usize,
    pub num_ctu_rows: usize,
    pub log2_ctu_size: usize,
}

impl TileGeometry {
    /// The tile's (x, y, width, height) in luma samples.
    pub open spec fn spec_bounds(self) -> (usize, usize, usize, usize) {
        (
            self.ctu_col << self.log2_ctu_size,
            self.ctu_row << self.log2_ctu_size,
            self.num_ctu_cols << self.log2_ctu_size,
            self.num_ctu_rows << self.log2_ctu_size,
        )
    }

    /// The tile's (x, y, width, height) in luma samples.
    pub fn bounds(&self) -> (r: (usize, usize, usize, usize))
        requires
            self.log2_ctu_size < usize::BITS,
        ensures
            r == self.spec_bounds(),
    {
        (
            self.ctu_col << self.log2_ctu_size,
            self.ctu_row << self.log2_ctu_size,
            self.num_ctu_cols << self.log2_ctu_size,
            self.num_ctu_rows << self.log2_ctu_size,
        )
    }
}

/// The tile bounds a node records: those of its tile, or zeros without one.
pub open spec fn tile_bounds_of(tile: Option<TileGeometry>) -> (usize, usize, usize, usize) {
    match tile {
        Some(t) => t.spec_bounds(),
        None => (0, 0, 0, 0),
    }
}

/// A tile is usable when its size shift fits a `usize`.
pub open spec fn tile_ok(tile: Option<TileGeometry>) -> bool {
    tile matches Some(t) ==> t.log2_ctu_size < usize::BITS
}

fn tile_bounds(tile: &Option<TileGeometry>) -> (r: (usize, usize, usize, usize))
    requires
        tile_ok(*tile),
    ensures
        r == tile_bounds_of(*tile),
{
    match tile {
        Some(t) => t.bounds(),
        None => (0, 0, 0, 0),
    }
}

/// Palette coding syntax of a coding unit.
pub struct PaletteCoding {
    pub palette_predictor_run: Vec<usize>,
    pub num_signalled_palette_entries: usize,
    pub new_palette_entries: Vec<Vec<usize>>,
    pub palette_escape_val_present_flag: bool,
    pub palette_transpose_flag: bool,
    pub cu_qp_delta_abs: usize,
    pub cu_qp_delta_sign_flag: bool,
    pub cu_chroma_qp_offset_flag: bool,
    pub cu_chroma_qp_offset_idx: usize,
    pub run_copy_flag: Vec<Vec<bool>>,
    pub copy_above_palette_indices_flag: Vec<Vec<bool>>,
    pub palette_idx_idc: Vec<Vec<usize>>,
    pub palette_escape_val: Vec<usize>,
}

/// Merge data syntax of a coding unit.
#[derive(Clone, Copy, PartialEq, Eq, Structural, Debug)]
pub struct MergeData {
    pub merge_idx: usize,
    pub merge_subblock_flag: bool,
    pub merge_subblock_idx: usize,
    pub regular_merge_flag: bool,
    pub mmvd_merge_flag: bool,
    pub mmvd_cand_flag: bool,
    pub mmvd_distance_idx: usize,
    pub mmvd_direction_idx: usize,
    pub ciip_flag: bool,
    pub merge_gpm_partition_idx: usize,
    pub merge_gpm_idx0: usize,
    pub merge_gpm_idx1: usize,
}

/// Motion vector difference syntax, for the two components.
#[derive(Clone, Copy, Debug)]
pub struct MvdCoding {
    pub abs_mvd_greater0_flag: [bool; 2],
    pub abs_mvd_greater1_flag: [bool; 2],
    pub abs_mvd: [usize; 2],
    pub sign_flag: [bool; 2],
}

/// A transform unit: its position, its coefficients for each component and the
/// properties of its coding unit it is coded with. `parent` and `cu` are positions
/// in the arenas of its coding tree unit.
pub struct TransformUnit {
    pub qp: usize,
    pub cu_chroma_qp_offset_flag: bool,
    pub cu_chroma_qp_offset_idx: usize,
    pub joint_cbcr_residual_flag: bool,
    pub transform_skip_flag: [bool; 3],
    pub x: usize,
    pub y: usize,
    pub width: usize,
    pub height: usize,
    pub log2_tb_width: usize,
    pub log2_tb_height: usize,
    pub parent: usize,
    pub sub_tu_index: usize,
    pub tree_type: TreeType,
    pub ch_type: usize,
    pub quantized_transformed_coeffs: Vec<Vec2d<i16>>,
    pub dequantized_transformed_coeffs: Vec<Vec2d<i16>>,
    pub transformed_coeffs: Vec<Vec2d<i16>>,
    pub itransformed_coeffs: Vec<Vec2d<i16>>,
    pub residuals: Vec<Vec2d<i16>>,
    pub tile: Option<TileGeometry>,
    pub cu: usize,
    pub above_right_available: Option<bool>,
    pub below_left_available: Option<bool>,
    pub x_tile: usize,
    pub y_tile: usize,
    pub width_tile: usize,
    pub height_tile: usize,
    pub bd_shift_cache: [Option<usize>; 3],
    pub derive_qp_cache: Option<(usize, usize, usize, usize)>,
    pub cu_bdpcm_flag: [bool; 3],
    pub cu_intra_luma_ref_idx: usize,
    pub cu_intra_subpartitions_mode_flag: bool,
    pub cu_intra_subpartitions_split_flag: bool,
    pub cu_intra_pred_mode: [IntraPredMode; 3],
    pub cu_size: [(usize, usize); 3],
    pub cu_pos: [(usize, usize); 3],
    pub cu_pred_mode_flag: bool,
    pub cu_act_enabled_flag: bool,
    pub log2_component_tb_size: [(usize, usize); 3],
}

/// A transform tree node: either split into `tts` or holding its transform units `tus`.
pub struct TransformTree {
    pub x: usize,
    pub y: usize,
    pub width: usize,
    pub height: usize,
    pub tts: Vec<usize>,
    pub tus: Vec<usize>,
    pub parent: Option<usize>,
    pub part_idx: usize,
    pub cu: usize,
    pub tile: Option<TileGeometry>,
    pub above_right_available: Option<bool>,
    pub below_left_available: Option<bool>,
    pub x_tile: usize,
    pub y_tile: usize,
    pub width_tile: usize,
    pub height_tile: usize,
    pub tree_type: TreeType,
}

/// A coding unit with its prediction syntax and its transform tree.
pub struct CodingUnit {
    pub skip_flag: bool,
    pub pred_mode: [ModeType; 2],
    pub pred_mode_flag: bool,
    pub pred_mode_ibc_flag: bool,
    pub pred_mode_plt_flag: bool,
    pub act_enabled_flag: bool,
    pub palette_coding: Vec<PaletteCoding>,
    pub intra_bdpcm_luma_flag: bool,
    pub intra_bdpcm_luma_dir_flag: bool,
    pub intra_mip_flag: bool,
    pub intra_mip_transposed_flag: bool,
    pub intra_mip_mode: usize,
    pub intra_luma_ref_idx: usize,
    pub intra_subpartitions_mode_flag: bool,
    pub intra_subpartitions_split_flag: bool,
    pub intra_luma_mpm_flag: bool,
    pub intra_luma_mpm_idx: usize,
    pub intra_luma_mpm_remainer: usize,
    pub intra_bdpcm_chroma_flag: bool,
    pub intra_bdpcm_chroma_dir_flag: bool,
    pub intra_chroma_pred_mode: usize,
    pub general_merge_flag: bool,
    pub merge_data: Option<MergeData>,
    pub mvd_coding: Vec<Vec<MvdCoding>>,
    pub mvp_l0_flag: bool,
    pub mvp_l1_flag: bool,
    pub amvr_precision_idx: usize,
    pub inter_pred_idc: usize,
    pub inter_affine_flag: bool,
    pub affine_type_flag: bool,
    pub sym_mvd_flag: bool,
    pub ref_idx: [usize; 2],
    pub amvr_flag: bool,
    pub bcw_idx: usize,
    pub coded_flag: bool,
    pub sbt_flag: bool,
    pub sbt_quad_flag: bool,
    pub sbt_horizontal_flag: bool,
    pub sbt_pos_flag: bool,
    pub transform_tree: Option<usize>,
    pub lfnst_idx: usize,
    pub mts_idx: usize,
    pub width: usize,
    pub height: usize,
    pub idx: usize,
    pub x: usize,
    pub y: usize,
    pub mode_type: ModeType,
    pub tree_type: TreeType,
    pub parent: usize,
    pub intra_pred_mode: [IntraPredMode; 3],
    pub qp_y: usize,
    pub tile: Option<TileGeometry>,
    pub x_tile: usize,
    pub y_tile: usize,
    pub width_tile: usize,
    pub height_tile: usize,
}

/// A coding tree node: either split into `cts` or holding its coding units `cus`.
pub struct CodingTree {
    pub mtt_split_cu_binary_flag: bool,
    pub non_inter_flag: bool,
    pub cts: Vec<usize>,
    pub cus: Vec<usize>,
    pub width: usize,
    pub height: usize,
    pub depth: usize,
    pub cqt_depth: usize,
    pub tree_type: TreeType,
    pub mode_type: ModeType,
    pub x: usize,
    pub y: usize,
    pub depth_offset: usize,
    pub part_idx: usize,
    pub split_mode: MttSplitMode,
    pub qg_on_y: bool,
    pub qg_on_c: bool,
    pub parent: Option<usize>,
    pub tile: Option<TileGeometry>,
    pub above_right_available: Option<bool>,
    pub below_left_available: Option<bool>,
    pub x_tile: usize,
    pub y_tile: usize,
    pub width_tile: usize,
    pub height_tile: usize,
}

/// A node of the dual-tree implicit quadtree split, over coding trees.
#[allow(non_camel_case_types)]
pub struct DTIQS {
    pub x: usize,
    pub y: usize,
    pub width: usize,
    pub height: usize,
    pub dtiqss: Vec<usize>,
    pub cts: Vec<usize>,
    pub parent: Option<usize>,
    pub tile: Option<TileGeometry>,
}

/// A coding tree unit and the arenas holding every node of its trees, with the
/// cached neighbour availability of each coding unit beside its arena.
pub struct CodingTreeUnit {
    pub x: usize,
    pub y: usize,
    pub width: usize,
    pub height: usize,
    pub pixels: Vec<Vec2d<u8>>,
    pub sao: SAO,
    pub alf: ALF,
    pub dtiqs: Vec<usize>,
    pub ct: Vec<usize>,
    pub tile: Option<TileGeometry>,
    pub x_tile: usize,
    pub y_tile: usize,
    pub width_tile: usize,
    pub height_tile: usize,
    pub coding_trees: Vec<CodingTree>,
    pub coding_units: Vec<CodingUnit>,
    pub cu_below_left_available: Vec<Option<bool>>,
    pub cu_above_right_available: Vec<Option<bool>>,
    pub transform_trees: Vec<TransformTree>,
    pub transform_units: Vec<TransformUnit>,
    pub dtiqs_nodes: Vec<DTIQS>,
}

impl CodingTreeUnit {
    /// Coding tree node `i` links to a parent before it, children after it and
    /// coding units that exist.
    pub open spec fn ct_ok(self, i: int) -> bool {
        let ct = self.coding_trees@[i];
        &&& (ct.parent matches Some(p) ==> p < i)
        &&& forall|j: int|
            0 <= j < ct.cts@.len() ==> i < #[trigger] ct.cts@[j] < self.coding_trees@.len()
        &&& forall|j: int| 0 <= j < ct.cus@.len() ==> #[trigger] ct.cus@[j] < self.coding_units@.len()
    }

    /// Coding unit `k` links to coding and transform tree nodes that exist.
    pub open spec fn cu_ok(self, k: int) -> bool {
        let cu = self.coding_units@[k];
        &&& cu.parent < self.coding_trees@.len()
        &&& (cu.transform_tree matches Some(t) ==> t < self.transform_trees@.len())
    }

    /// Transform tree node `t` links to a parent before it, children after it and
    /// transform and coding units that exist.
    pub open spec fn tt_ok(self, t: int) -> bool {
        let tt = self.transform_trees@[t];
        &&& (tt.parent matches Some(p) ==> p < t)
        &&& forall|j: int|
            0 <= j < tt.tts@.len() ==> t < #[trigger] tt.tts@[j] < self.transform_trees@.len()
        &&& forall|j: int|
            0 <= j < tt.tus@.len() ==> #[trigger] tt.tus@[j] < self.transform_units@.len()
        &&& tt.cu < self.coding_units@.len()
    }

    /// Transform unit `u` links to nodes that exist.
    pub open spec fn tu_ok(self, u: int) -> bool {
        let tu = self.transform_units@[u];
        &&& tu.parent < self.transform_trees@.len()
        &&& tu.cu < self.coding_units@.len()
    }

    /// Dual-tree node `d` links to a parent before it, children after it and coding trees that exist.
    pub open spec fn dtiqs_ok(self, d: int) -> bool {
        let n = self.dtiqs_nodes@[d];
        &&& (n.parent matches Some(p) ==> p < d)
        &&& forall|j: int|
            0 <= j < n.dtiqss@.len() ==> d < #[trigger] n.dtiqss@[j] < self.dtiqs_nodes@.len()
        &&& forall|j: int| 0 <= j < n.cts@.len() ==> #[trigger] n.cts@[j] < self.coding_trees@.len()
    }

    /// Every link in the arenas names an existing node, parents come before their children.
    pub open spec fn wf(self) -> bool {
        &&& forall|i: int| 0 <= i < self.coding_trees@.len() ==> #[trigger] self.ct_ok(i)
        &&& forall|k: int| 0 <= k < self.coding_units@.len() ==> #[trigger] self.cu_ok(k)
        &&& forall|t: int| 0 <= t < self.transform_trees@.len() ==> #[trigger] self.tt_ok(t)
        &&& forall|u: int| 0 <= u < self.transform_units@.len() ==> #[trigger] self.tu_ok(u)
        &&& forall|d: int| 0 <= d < self.dtiqs_nodes@.len() ==> #[trigger] self.dtiqs_ok(d)
        &&& forall|j: int| 0 <= j < self.ct@.len() ==> #[trigger] self.ct@[j] < self.coding_trees@.len()
        &&& forall|j: int| 0 <= j < self.dtiqs@.len() ==> #[trigger] self.dtiqs@[j] < self.dtiqs_nodes@.len()
    }
}

impl CodingUnit {
    /// The BDPCM flag of component `c_idx`.
    pub open spec fn spec_bdpcm_flag(&self, c_idx: usize) -> bool {
        if c_idx == 0 {
            self.intra_bdpcm_luma_flag
        } else {
            self.intra_bdpcm_chroma_flag
        }
    }

    /// The BDPCM flag of component `c_idx`.
    #[verifier::when_used_as_spec(spec_bdpcm_flag)]
    pub fn get_bdpcm_flag(&self, c_idx: usize) -> (r: bool)
        ensures
            r == self.spec_bdpcm_flag(c_idx),
    {
        if c_idx == 0 {
            self.intra_bdpcm_luma_flag
        } else {
            self.intra_bdpcm_chroma_flag
        }
    }

    /// The BDPCM direction flag of component `c_idx`.
    pub fn get_bdpcm_dir(&self, c_idx: usize) -> (r: bool)
        ensures
            r == if c_idx == 0 {
                self.intra_bdpcm_luma_dir_flag
            } else {
                self.intra_bdpcm_chroma_dir_flag
            },
    {
        if c_idx == 0 {
            self.intra_bdpcm_luma_dir_flag
        } else {
            self.intra_bdpcm_chroma_dir_flag
        }
    }

    /// The (width, height) of component `c_idx`; chroma has half the luma size.
    pub open spec fn spec_component_size(&self, c_idx: usize) -> (usize, usize) {
        if c_idx == 0 {
            (self.width, self.height)
        } else {
            ((self.width / 2) as usize, (self.height / 2) as usize)
        }
    }

    /// The (width, height) of component `c_idx`; chroma has half the luma size.
    #[verifier::when_used_as_spec(spec_component_size)]
    pub fn get_component_size(&self, c_idx: usize) -> (r: (usize, usize))
        ensures
            r == self.spec_component_size(c_idx),
    {
        if c_idx == 0 {
            (self.width, self.height)
        } else {
            (self.width / 2, self.height / 2)
        }
    }

    /// The (x, y) of component `c_idx`; chroma at half the luma position.
    pub open spec fn spec_component_pos(&self, c_idx: usize) -> (usize, usize) {
        if c_idx == 0 {
            (self.x, self.y)
        } else {
            ((self.x / 2) as usize, (self.y / 2) as usize)
        }
    }

    /// The (x, y) of component `c_idx`; chroma at half the luma position.
    #[verifier::when_used_as_spec(spec_component_pos)]
    pub fn get_component_pos(&self, c_idx: usize) -> (r: (usize, usize))
        ensures
            r == self.spec_component_pos(c_idx),
    {
        if c_idx == 0 {
            (self.x, self.y)
        } else {
            (self.x / 2, self.y / 2)
        }
    }

    /// The chroma mode is one of the cross-component linear model modes.
    pub open spec fn spec_cclm_mode_flag(&self) -> bool {
        ||| self.intra_pred_mode[1] == IntraPredMode::LT_CCLM
        ||| self.intra_pred_mode[1] == IntraPredMode::T_CCLM
        ||| self.intra_pred_mode[1] == IntraPredMode::L_CCLM
    }

    /// The chroma mode is one of the cross-component linear model modes.
    #[verifier::when_used_as_spec(spec_cclm_mode_flag)]
    pub fn get_cclm_mode_flag(&self) -> (r: bool)
        ensures
            r == self.spec_cclm_mode_flag(),
    {
        match self.intra_pred_mode[1] {
            IntraPredMode::LT_CCLM | IntraPredMode::T_CCLM | IntraPredMode::L_CCLM => true,
            _ => false,
        }
    }

    /// The position of the chroma mode among LT_CCLM, L_CCLM and T_CCLM; 0 otherwise.
    pub open spec fn spec_cclm_mode_idx(&self) -> usize {
        if self.spec_cclm_mode_flag() {
            (self.intra_pred_mode[1].spec_value() - 81) as usize
        } else {
            0
        }
    }

    /// The position of the chroma mode among LT_CCLM, L_CCLM and T_CCLM; 0 otherwise.
    #[verifier::when_used_as_spec(spec_cclm_mode_idx)]
    pub fn get_cclm_mode_idx(&self) -> (r: usize)
        ensures
            r == self.spec_cclm_mode_idx(),
            r < 3,
    {
        if self.get_cclm_mode_flag() {
            self.intra_pred_mode[1].value() - 81
        } else {
            0
        }
    }

    /// The luma mode is not the planar mode.
    pub fn get_intra_luma_not_planar_flag(&self) -> (r: bool)
        ensures
            r == (self.intra_pred_mode[0] != IntraPredMode::PLANAR),
    {
        self.intra_pred_mode[0] != IntraPredMode::PLANAR
    }
}

impl CodingTree {
    /// The (width, height) of component `c_idx`; chroma has half the luma size.
    pub fn get_component_size(&self, c_idx: usize) -> (r: (usize, usize))
        ensures
            r == if c_idx == 0 {
                (self.width, self.height)
            } else {
                ((self.width / 2) as usize, (self.height / 2) as usize)
            },
    {
        if c_idx == 0 {
            (self.width, self.height)
        } else {
            (self.width / 2, self.height / 2)
        }
    }

    /// The (x, y) of component `c_idx`; chroma at half the luma position.
    pub fn get_component_pos(&self, c_idx: usize) -> (r: (usize, usize))
        ensures
            r == if c_idx == 0 {
                (self.x, self.y)
            } else {
                ((self.x / 2) as usize, (self.y / 2) as usize)
            },
    {
        if c_idx == 0 {
            (self.x, self.y)
        } else {
            (self.x / 2, self.y / 2)
        }
    }

    /// The node is split.
    pub fn get_split_cu_flag(&self) -> (r: bool)
        ensures
            r == (self.split_mode != MttSplitMode::SPLIT_NONE),
    {
        self.split_mode != MttSplitMode::SPLIT_NONE
    }

    /// The node is split in four.
    pub open spec fn spec_split_qt_flag(&self) -> bool {
        self.split_mode == MttSplitMode::SPLIT_QT
    }

    /// The node is split in four.
    #[verifier::when_used_as_spec(spec_split_qt_flag)]
    pub fn get_split_qt_flag(&self) -> (r: bool)
        ensures
            r == self.spec_split_qt_flag(),
    {
        self.split_mode == MttSplitMode::SPLIT_QT
    }

    /// The channel type: 1 for a chroma tree, 0 otherwise.
    pub fn ch_type(&self) -> (r: usize)
        ensures
            r == if self.tree_type == TreeType::DUAL_TREE_CHROMA {
                1usize
            } else {
                0usize
            },
    {
        if self.tree_type == TreeType::DUAL_TREE_CHROMA {
            1
        } else {
            0
        }
    }

    /// The multi-type split is vertical.
    pub fn mtt_split_cu_vertical_flag(&self) -> (r: bool)
        ensures
            r == (self.split_mode == MttSplitMode::SPLIT_BT_VER || self.split_mode
                == MttSplitMode::SPLIT_TT_VER),
    {
        self.split_mode == MttSplitMode::SPLIT_BT_VER || self.split_mode == MttSplitMode::SPLIT_TT_VER
    }

    /// The multi-type split is binary.
    pub fn mtt_split_cu_binary_flag(&self) -> (r: bool)
        ensures
            r == (self.split_mode == MttSplitMode::SPLIT_BT_VER || self.split_mode
                == MttSplitMode::SPLIT_BT_HOR),
    {
        self.split_mode == MttSplitMode::SPLIT_BT_VER || self.split_mode == MttSplitMode::SPLIT_BT_HOR
    }

    /// The mode type condition (`modeTypeCondition`) of this node for a slice of type
    /// `slice_type`, given the dual-tree flag and chroma format of the sequence.
    pub open spec fn spec_mode_type_condition(
        self,
        slice_is_intra: bool,
        qtbtt_dual_tree_intra_flag: bool,
        chroma_format: ChromaFormat,
    ) -> usize {
        let area = self.width * self.height;
        let qt = self.spec_split_qt_flag();
        let bt = self.split_mode == MttSplitMode::SPLIT_BT_HOR || self.split_mode
            == MttSplitMode::SPLIT_BT_VER;
        let tt = self.split_mode == MttSplitMode::SPLIT_TT_HOR || self.split_mode
            == MttSplitMode::SPLIT_TT_VER;
        if (slice_is_intra && qtbtt_dual_tree_intra_flag) || self.mode_type
            != ModeType::MODE_TYPE_ALL || chroma_format == ChromaFormat::Monochrome || chroma_format
            == ChromaFormat::YCbCr444 {
            0
        } else if (area == 64 && qt) || (area == 64 && !qt && tt) || (area == 32 && bt) {
            1
        } else if (area == 64 && bt && chroma_format == ChromaFormat::YCbCr420) || (area == 128
            && tt && chroma_format == ChromaFormat::YCbCr420) || (self.width == 8
            && self.split_mode == MttSplitMode::SPLIT_BT_VER) || (self.width == 16 && !qt
            && self.split_mode == MttSplitMode::SPLIT_TT_VER) {
            if slice_is_intra {
                1
            } else {
                2
            }
        } else {
            0
        }
    }

    /// The mode type condition (`modeTypeCondition`) of this node.
    pub fn get_mode_type_condition(
        &self,
        slice_type: SliceType,
        qtbtt_dual_tree_intra_flag: bool,
        chroma_format: ChromaFormat,
    ) -> (r: usize)
        requires
            self.width * self.height <= usize::MAX,
        ensures
            r == self.spec_mode_type_condition(
                slice_type == SliceType::I,
                qtbtt_dual_tree_intra_flag,
                chroma_format,
            ),
    {
        let area = self.width * self.height;
        if (slice_type == SliceType::I && qtbtt_dual_tree_intra_flag) || self.mode_type
            != ModeType::MODE_TYPE_ALL || chroma_format == ChromaFormat::Monochrome || chroma_format
            == ChromaFormat::YCbCr444 {
            0
        } else if (area == 64 && self.get_split_qt_flag()) || (area == 64 && !self.get_split_qt_flag()
            && (self.split_mode == MttSplitMode::SPLIT_TT_HOR || self.split_mode
            == MttSplitMode::SPLIT_TT_VER)) || (area == 32 && (self.split_mode
            == MttSplitMode::SPLIT_BT_HOR || self.split_mode == MttSplitMode::SPLIT_BT_VER)) {
            1
        } else if (area == 64 && (self.split_mode == MttSplitMode::SPLIT_BT_HOR || self.split_mode
            == MttSplitMode::SPLIT_BT_VER) && chroma_format == ChromaFormat::YCbCr420) || (area == 128
            && (self.split_mode == MttSplitMode::SPLIT_TT_HOR || self.split_mode
            == MttSplitMode::SPLIT_TT_VER) && chroma_format == ChromaFormat::YCbCr420) || (self.width
            == 8 && self.split_mode == MttSplitMode::SPLIT_BT_VER) || (self.width == 16
            && !self.get_split_qt_flag() && self.split_mode == MttSplitMode::SPLIT_TT_VER) {
            if slice_type != SliceType::I {
                2
            } else {
                1
            }
        } else {
            0
        }
    }
}

impl TransformUnit {
    /// Component `c_idx` is coded in this unit's tree.
    pub fn is_component_active(&self, c_idx: usize) -> (r: bool)
        ensures
            r == match self.tree_type {
                TreeType::DUAL_TREE_LUMA => c_idx == 0,
                TreeType::DUAL_TREE_CHROMA => c_idx != 0,
                _ => true,
            },
    {
        match self.tree_type {
            TreeType::DUAL_TREE_LUMA => c_idx == 0,
            TreeType::DUAL_TREE_CHROMA => c_idx != 0,
            _ => true,
        }
    }

    /// The (width, height) of component `c_idx`; chroma has half the luma size.
    pub fn get_component_size(&self, c_idx: usize) -> (r: (usize, usize))
        ensures
            r == if c_idx == 0 {
                (self.width, self.height)
            } else {
                ((self.width / 2) as usize, (self.height / 2) as usize)
            },
    {
        if c_idx == 0 {
            (self.width, self.height)
        } else {
            (self.width / 2, self.height / 2)
        }
    }

    /// The (x, y) of component `c_idx`; chroma at half the luma position.
    pub fn get_component_pos(&self, c_idx: usize) -> (r: (usize, usize))
        ensures
            r == if c_idx == 0 {
                (self.x, self.y)
            } else {
                ((self.x / 2) as usize, (self.y / 2) as usize)
            },
    {
        if c_idx == 0 {
            (self.x, self.y)
        } else {
            (self.x / 2, self.y / 2)
        }
    }

    /// The coding unit this transform unit belongs to.
    pub fn get_cu(&self) -> (r: usize)
        ensures
            r == self.cu,
    {
        self.cu
    }

    /// The tile this transform unit lies in.
    pub fn get_tile(&self) -> (r: TileGeometry)
        requires
            self.tile is Some,
        ensures
            Some(r) == self.tile,
    {
        match self.tile {
            Some(t) => t,
            None => TileGeometry { ctu_col: 0, ctu_row: 0, num_ctu_cols: 0, num_ctu_rows: 0, log2_ctu_size: 0 },
        }
    }

    /// The log2 (width, height) of the transform block of component `c_idx`.
    pub open spec fn spec_log2_tb_size(&self, c_idx: usize) -> (usize, usize) {
        self.log2_component_tb_size[c_idx as int]
    }

    /// The log2 (width, height) of the transform block of component `c_idx`.
    #[verifier::when_used_as_spec(spec_log2_tb_size)]
    pub fn get_log2_tb_size(&self, c_idx: usize) -> (r: (usize, usize))
        requires
            c_idx < 3,
        ensures
            r == self.spec_log2_tb_size(c_idx),
    {
        self.log2_component_tb_size[c_idx]
    }

    /// The log2 (width, height) of the block of component `c_idx` that can hold
    /// nonzero coefficients: at most 32 samples wide and high, 16 for a 32-sample
    /// side of a luma block under a sub-block transform when `mts_enabled_flag`.
    pub fn get_log2_zo_tb_size(&self, mts_enabled_flag: bool, sbt_flag: bool, c_idx: usize) -> (r: (usize, usize))
        requires
            c_idx < 3,
        ensures
            ({
                let (w, h) = self.spec_log2_tb_size(c_idx);
                r == (
                    if mts_enabled_flag && sbt_flag && c_idx == 0 && w == 5 && h < 6 {
                        4usize
                    } else {
                        min_usize(w, 5)
                    },
                    if mts_enabled_flag && sbt_flag && c_idx == 0 && h == 5 && w < 6 {
                        4usize
                    } else {
                        min_usize(h, 5)
                    },
                )
            }),
    {
        let (w, h) = self.get_log2_tb_size(c_idx);
        let log2_tb_width: usize = if mts_enabled_flag && sbt_flag && c_idx == 0 && w == 5 && h < 6 {
            4
        } else if w < 5 {
            w
        } else {
            5
        };
        let log2_tb_height: usize = if mts_enabled_flag && sbt_flag && c_idx == 0 && h == 5 && w < 6 {
            4
        } else if h < 5 {
            h
        } else {
            5
        };
        (log2_tb_width, log2_tb_height)
    }

    /// The log2 (width, height) of the coefficient sub-blocks of component `c_idx`.
    pub fn get_log2_sb_size(&self, c_idx: usize) -> (r: (usize, usize))
        requires
            c_idx < 3,
            self.spec_log2_tb_size(c_idx).0 + self.spec_log2_tb_size(c_idx).1 <= usize::MAX,
        ensures
            r == sb_size(self.spec_log2_tb_size(c_idx).0, self.spec_log2_tb_size(c_idx).1),
    {
        let (log2_tb_width, log2_tb_height) = self.get_log2_tb_size(c_idx);
        log2_sb_size(log2_tb_width, log2_tb_height)
    }

    /// The log2 (width, height) of the coefficient sub-blocks of the block of
    /// component `c_idx` that can hold nonzero coefficients.
    pub fn get_log2_zo_sb_size(&self, mts_enabled_flag: bool, sbt_flag: bool, c_idx: usize) -> (r: (usize, usize))
        requires
            c_idx < 3,
        ensures
            ({
                let (w, h) = self.spec_log2_tb_size(c_idx);
                let zw = if mts_enabled_flag && sbt_flag && c_idx == 0 && w == 5 && h < 6 {
                    4usize
                } else {
                    min_usize(w, 5)
                };
                let zh = if mts_enabled_flag && sbt_flag && c_idx == 0 && h == 5 && w < 6 {
                    4usize
                } else {
                    min_usize(h, 5)
                };
                r == sb_size(zw, zh)
            }),
    {
        let (log2_tb_width, log2_tb_height) = self.get_log2_zo_tb_size(mts_enabled_flag, sbt_flag, c_idx);
        log2_sb_size(log2_tb_width, log2_tb_height)
    }

    /// The coefficient of component `c_idx` at (x_c, y_c) is nonzero.
    pub fn get_sig_coeff_flag(&self, c_idx: usize, x_c: usize, y_c: usize) -> (r: bool)
        requires
            c_idx < self.quantized_transformed_coeffs@.len(),
            self.quantized_transformed_coeffs@[c_idx as int].wf(),
            y_c < self.quantized_transformed_coeffs@[c_idx as int].height,
            x_c < self.quantized_transformed_coeffs@[c_idx as int].width,
        ensures
            r == (self.quantized_transformed_coeffs@[c_idx as int].at(y_c as int, x_c as int) != 0),
    {
        self.quantized_transformed_coeffs[c_idx].get(y_c, x_c) != 0
    }
}

/// The smaller of two sizes.
pub open spec fn min_usize(a: usize, b: usize) -> usize {
    if a < b {
        a
    } else {
        b
    }
}

/// The log2 (width, height) of the coefficient sub-blocks of a block with log2
/// size (w, h): 4x4, or 2x2 for blocks narrower than 4, and 16 coefficients for
/// blocks with a side below 4 and more than 8 samples.
pub open spec fn sb_size(w: usize, h: usize) -> (usize, usize) {
    let base: usize = if min_usize(w, h) < 2 {
        1
    } else {
        2
    };
    if w + h > 3 {
        if w < 2 {
            (w, (4 - w) as usize)
        } else if h < 2 {
            ((4 - h) as usize, h)
        } else {
            (base, base)
        }
    } else {
        (base, base)
    }
}

fn log2_sb_size(log2_tb_width: usize, log2_tb_height: usize) -> (r: (usize, usize))
    requires
        log2_tb_width + log2_tb_height <= usize::MAX,
    ensures
        r == sb_size(log2_tb_width, log2_tb_height),
{
    let mut log2_sb_w: usize = if (if log2_tb_width < log2_tb_height {
        log2_tb_width
    } else {
        log2_tb_height
    }) < 2 {
        1
    } else {
        2
    };
    let mut log2_sb_h = log2_sb_w;
    if log2_tb_width + log2_tb_height > 3 {
        if log2_tb_width < 2 {
            log2_sb_w = log2_tb_width;
            log2_sb_h = 4 - log2_sb_w;
        } else if log2_tb_height < 2 {
            log2_sb_h = log2_tb_height;
            log2_sb_w = 4 - log2_sb_h;
        }
    }
    (log2_sb_w, log2_sb_h)
}

/// Coefficient planes as a new transform unit holds them: luma and both chroma
/// planes of a single tree, luma alone, or a 1x1 placeholder and both chroma planes
/// of a chroma tree; chroma at half the luma size; every coefficient zero.
pub open spec fn planes_init(planes: Seq<Vec2d<i16>>, tree_type: TreeType, lw: usize, lh: usize) -> bool {
    let luma = |p: Vec2d<i16>| p.wf() && p.width == pow2(lw as nat) && p.height == pow2(lh as nat);
    let chroma = |p: Vec2d<i16>|
        p.wf() && p.width == pow2((lw - 1) as nat) && p.height == pow2((lh - 1) as nat);
    &&& planes.len() == match tree_type {
        TreeType::DUAL_TREE_LUMA => 1int,
        _ => 3int,
    }
    &&& forall|c: int| 0 <= c < planes.len() ==> forall|i: int|
        0 <= i < #[trigger] planes[c].data@.len() ==> planes[c].data@[i] == 0i16
    &&& match tree_type {
        TreeType::SINGLE_TREE => luma(planes[0]) && chroma(planes[1]) && chroma(planes[2]),
        TreeType::DUAL_TREE_LUMA => luma(planes[0]),
        TreeType::DUAL_TREE_CHROMA => planes[0].wf() && planes[0].width == 1 && planes[0].height == 1
            && chroma(planes[1]) && chroma(planes[2]),
    }
}

/// The log2 sizes accepted for a new block: from 2 to 2^15 samples a side.
pub open spec fn log2_size_ok(lw: usize, lh: usize) -> bool {
    1 <= lw <= 15 && 1 <= lh <= 15
}

fn new_plane(height: usize, width: usize) -> (p: Vec2d<i16>)
    requires
        1 <= width <= 0x8000,
        height <= 0x8000,
    ensures
        p.wf(),
        p.height == height,
        p.width == width,
        forall|i: int| 0 <= i < p.data@.len() ==> #[trigger] p.data@[i] == 0i16,
{
    assert(2 * width * height <= 0x8000_0000) by (nonlinear_arith)
        requires
            width <= 0x8000,
            height <= 0x8000,
    ;
    Vec2d::new(0i16, height, width)
}

fn new_planes(tree_type: TreeType, log2_tb_width: usize, log2_tb_height: usize) -> (v: Vec<Vec2d<i16>>)
    requires
        log2_size_ok(log2_tb_width, log2_tb_height),
    ensures
        planes_init(v@, tree_type, log2_tb_width, log2_tb_height),
{
    proof {
        crate::bits::lemma_usize_shl_one(log2_tb_width);
        crate::bits::lemma_usize_shl_one(log2_tb_height);
        crate::bits::lemma_usize_shl_one((log2_tb_width - 1) as usize);
        crate::bits::lemma_usize_shl_one((log2_tb_height - 1) as usize);
        crate::bits::lemma_pow2_le(log2_tb_width as nat, 15);
        crate::bits::lemma_pow2_le(log2_tb_height as nat, 15);
        vstd::arithmetic::power2::lemma2_to64();
        vstd::arithmetic::power2::lemma_pow2_pos((log2_tb_width - 1) as nat);
        crate::bits::lemma_pow2_le((log2_tb_width - 1) as nat, 15);
        crate::bits::lemma_pow2_le((log2_tb_height - 1) as nat, 15);
    }
    let luma_width: usize = 1 << log2_tb_width;
    let luma_height: usize = 1 << log2_tb_height;
    let chroma_width: usize = 1 << (log2_tb_width - 1);
    let chroma_height: usize = 1 << (log2_tb_height - 1);
    let mut v: Vec<Vec2d<i16>> = Vec::new();
    match tree_type {
        TreeType::SINGLE_TREE => {
            v.push(new_plane(luma_height, luma_width));
            v.push(new_plane(chroma_height, chroma_width));
            v.push(new_plane(chroma_height, chroma_width));
        },
        TreeType::DUAL_TREE_LUMA => {
            v.push(new_plane(luma_height, luma_width));
        },
        TreeType::DUAL_TREE_CHROMA => {
            v.push(new_plane(1, 1));
            v.push(new_plane(chroma_height, chroma_width));
            v.push(new_plane(chroma_height, chroma_width));
        },
    }
    v
}

impl TransformUnit {
    /// `self` is the transform unit built at (x, y) with log2 size (lw, lh) in coding
    /// unit `cu` (at position `cu_idx`) under transform tree node `parent`.
    pub open spec fn initialized(
        self,
        cu: CodingUnit,
        x: usize,
        y: usize,
        lw: usize,
        lh: usize,
        ch_type: usize,
        parent: usize,
        fixed_qp: Option<usize>,
        tree_type: TreeType,
        tile: Option<TileGeometry>,
        cu_idx: usize,
    ) -> bool {
        &&& self.qp == match fixed_qp {
            Some(q) => q,
            None => 26,
        }
        &&& !self.cu_chroma_qp_offset_flag && self.cu_chroma_qp_offset_idx == 0
        &&& !self.joint_cbcr_residual_flag
        &&& self.transform_skip_flag == [false, false, false]
        &&& self.x == x && self.y == y
        &&& self.width == pow2(lw as nat) && self.height == pow2(lh as nat)
        &&& self.log2_tb_width == lw && self.log2_tb_height == lh
        &&& self.parent == parent && self.sub_tu_index == 0
        &&& self.tree_type == tree_type && self.ch_type == ch_type
        &&& planes_init(self.quantized_transformed_coeffs@, tree_type, lw, lh)
        &&& planes_init(self.dequantized_transformed_coeffs@, tree_type, lw, lh)
        &&& planes_init(self.transformed_coeffs@, tree_type, lw, lh)
        &&& planes_init(self.itransformed_coeffs@, tree_type, lw, lh)
        &&& planes_init(self.residuals@, tree_type, lw, lh)
        &&& self.tile == tile
        &&& (self.x_tile, self.y_tile, self.width_tile, self.height_tile) == tile_bounds_of(tile)
        &&& self.cu == cu_idx
        &&& self.above_right_available is None && self.below_left_available is None
        &&& self.bd_shift_cache == [None::<usize>, None, None]
        &&& self.derive_qp_cache is None
        &&& self.cu_bdpcm_flag == [cu.spec_bdpcm_flag(0), cu.spec_bdpcm_flag(1), cu.spec_bdpcm_flag(2)]
        &&& self.cu_intra_luma_ref_idx == cu.intra_luma_ref_idx
        &&& self.cu_intra_subpartitions_mode_flag == cu.intra_subpartitions_mode_flag
        &&& self.cu_intra_subpartitions_split_flag == cu.intra_subpartitions_split_flag
        &&& self.cu_intra_pred_mode == cu.intra_pred_mode
        &&& self.cu_size == [cu.spec_component_size(0), cu.spec_component_size(1), cu.spec_component_size(2)]
        &&& self.cu_pos == [cu.spec_component_pos(0), cu.spec_component_pos(1), cu.spec_component_pos(2)]
        &&& self.cu_pred_mode_flag == cu.pred_mode_flag
        &&& self.cu_act_enabled_flag == cu.act_enabled_flag
        &&& self.log2_component_tb_size == [(lw, lh), ((lw - 1) as usize, (lh - 1) as usize), ((lw - 1) as usize, (lh - 1) as usize)]
    }

    fn build(
        cu: &CodingUnit,
        x: usize,
        y: usize,
        log2_tb_width: usize,
        log2_tb_height: usize,
        ch_type: usize,
        parent: usize,
        fixed_qp: Option<usize>,
        tree_type: TreeType,
        tile: Option<TileGeometry>,
        cu_idx: usize,
    ) -> (tu: TransformUnit)
        requires
            log2_size_ok(log2_tb_width, log2_tb_height),
            tile_ok(tile),
        ensures
            tu.initialized(*cu, x, y, log2_tb_width, log2_tb_height, ch_type, parent, fixed_qp, tree_type, tile, cu_idx),
    {
        let qp = match fixed_qp {
            Some(q) => q,
            None => 26,
        };
        proof {
            crate::bits::lemma_usize_shl_one(log2_tb_width);
            crate::bits::lemma_usize_shl_one(log2_tb_height);
        }
        let (x_tile, y_tile, width_tile, height_tile) = tile_bounds(&tile);
        TransformUnit {
            width: 1 << log2_tb_width,
            height: 1 << log2_tb_height,
            qp,
            cu_chroma_qp_offset_flag: false,
            cu_chroma_qp_offset_idx: 0,
            joint_cbcr_residual_flag: false,
            transform_skip_flag: [false, false, false],
            x,
            y,
            log2_tb_width,
            log2_tb_height,
            parent,
            sub_tu_index: 0,
            tree_type,
            ch_type,
            quantized_transformed_coeffs: new_planes(tree_type, log2_tb_width, log2_tb_height),
            dequantized_transformed_coeffs: new_planes(tree_type, log2_tb_width, log2_tb_height),
            transformed_coeffs: new_planes(tree_type, log2_tb_width, log2_tb_height),
            itransformed_coeffs: new_planes(tree_type, log2_tb_width, log2_tb_height),
            residuals: new_planes(tree_type, log2_tb_width, log2_tb_height),
            tile,
            cu: cu_idx,
            above_right_available: None,
            below_left_available: None,
            x_tile,
            y_tile,
            width_tile,
            height_tile,
            bd_shift_cache: [None, None, None],
            derive_qp_cache: None,
            cu_bdpcm_flag: [cu.get_bdpcm_flag(0), cu.get_bdpcm_flag(1), cu.get_bdpcm_flag(2)],
            cu_intra_luma_ref_idx: cu.intra_luma_ref_idx,
            cu_intra_subpartitions_mode_flag: cu.intra_subpartitions_mode_flag,
            cu_intra_subpartitions_split_flag: cu.intra_subpartitions_split_flag,
            cu_intra_pred_mode: cu.intra_pred_mode,
            cu_size: [cu.get_component_size(0), cu.get_component_size(1), cu.get_component_size(2)],
            cu_pos: [cu.get_component_pos(0), cu.get_component_pos(1), cu.get_component_pos(2)],
            cu_pred_mode_flag: cu.pred_mode_flag,
            cu_act_enabled_flag: cu.act_enabled_flag,
            log2_component_tb_size: [
                (log2_tb_width, log2_tb_height),
                (log2_tb_width - 1, log2_tb_height - 1),
                (log2_tb_width - 1, log2_tb_height - 1),
            ],
        }
    }

    /// Adds a transform unit of coding unit `cu` under transform tree node `parent`
    /// to the arenas of `ctu`; returns its position.
    pub fn new_rc_refcell(
        ctu: &mut CodingTreeUnit,
        x: usize,
        y: usize,
        log2_tb_width: usize,
        log2_tb_height: usize,
        ch_type: usize,
        parent: usize,
        fixed_qp: Option<usize>,
        tree_type: TreeType,
        tile: Option<TileGeometry>,
        cu: usize,
    ) -> (u: usize)
        requires
            old(ctu).wf(),
            parent < old(ctu).transform_trees@.len(),
            cu < old(ctu).coding_units@.len(),
            log2_size_ok(log2_tb_width, log2_tb_height),
            tile_ok(tile),
        ensures
            final(ctu).wf(),
            u == old(ctu).transform_units@.len(),
            final(ctu).transform_units@ == old(ctu).transform_units@.push(final(ctu).transform_units@[u as int]),
            final(ctu).transform_units@[u as int].initialized(
                old(ctu).coding_units@[cu as int],
                x,
                y,
                log2_tb_width,
                log2_tb_height,
                ch_type,
                parent,
                fixed_qp,
                tree_type,
                tile,
                cu,
            ),
            final(ctu).coding_trees == old(ctu).coding_trees,
            final(ctu).coding_units == old(ctu).coding_units,
            final(ctu).transform_trees == old(ctu).transform_trees,
            final(ctu).same_unit(*old(ctu)),
    {
        let tu = TransformUnit::build(
            &ctu.coding_units[cu],
            x,
            y,
            log2_tb_width,
            log2_tb_height,
            ch_type,
            parent,
            fixed_qp,
            tree_type,
            tile,
            cu,
        );
        let u = ctu.transform_units.len();
        ctu.transform_units.push(tu);
        proof {
            let c = *ctu;
            let o = *old(ctu);
            assert forall|t: int| 0 <= t < c.transform_trees@.len() implies #[trigger] c.tt_ok(t) by {
                assert(o.tt_ok(t));
            }
            assert forall|k: int| 0 <= k < c.transform_units@.len() implies #[trigger] c.tu_ok(k) by {
                if k < o.transform_units@.len() {
                    assert(o.tu_ok(k));
                }
            }
            assert forall|i: int| 0 <= i < c.coding_trees@.len() implies #[trigger] c.ct_ok(i) by {
                assert(o.ct_ok(i));
            }
            assert forall|k: int| 0 <= k < c.coding_units@.len() implies #[trigger] c.cu_ok(k) by {
                assert(o.cu_ok(k));
            }
            assert forall|d: int| 0 <= d < c.dtiqs_nodes@.len() implies #[trigger] c.dtiqs_ok(d) by {
                assert(o.dtiqs_ok(d));
            }
        }
        u
    }
}

impl CodingTreeUnit {
    /// `self` and `other` agree on everything but the arenas of tree nodes.
    pub open spec fn same_unit(self, other: CodingTreeUnit) -> bool {
        &&& self.x == other.x && self.y == other.y
        &&& self.width == other.width && self.height == other.height
        &&& self.pixels == other.pixels && self.sao == other.sao && self.alf == other.alf
        &&& self.dtiqs == other.dtiqs && self.ct == other.ct
        &&& self.tile == other.tile
        &&& self.x_tile == other.x_tile && self.y_tile == other.y_tile
        &&& self.width_tile == other.width_tile && self.height_tile == other.height_tile
        &&& self.dtiqs_nodes == other.dtiqs_nodes
    }
}

/// Growing the arenas keeps the links of the existing nodes valid.
proof fn lemma_wf_extend(o: CodingTreeUnit, c: CodingTreeUnit)
    requires
        o.wf(),
        c.coding_trees@.len() >= o.coding_trees@.len(),
        c.coding_units@.len() >= o.coding_units@.len(),
        c.transform_trees@.len() >= o.transform_trees@.len(),
        c.transform_units@.len() >= o.transform_units@.len(),
        c.dtiqs_nodes@ == o.dtiqs_nodes@,
        forall|i: int| 0 <= i < o.coding_trees@.len() ==> #[trigger] c.coding_trees@[i] == o.coding_trees@[i],
        forall|i: int| 0 <= i < o.coding_units@.len() ==> #[trigger] c.coding_units@[i] == o.coding_units@[i],
        forall|i: int|
            0 <= i < o.transform_trees@.len() ==> #[trigger] c.transform_trees@[i] == o.transform_trees@[i],
        forall|i: int|
            0 <= i < o.transform_units@.len() ==> #[trigger] c.transform_units@[i] == o.transform_units@[i],
        forall|i: int| o.coding_trees@.len() <= i < c.coding_trees@.len() ==> #[trigger] c.ct_ok(i),
        forall|i: int| o.coding_units@.len() <= i < c.coding_units@.len() ==> #[trigger] c.cu_ok(i),
        forall|i: int| o.transform_trees@.len() <= i < c.transform_trees@.len() ==> #[trigger] c.tt_ok(i),
        forall|i: int| o.transform_units@.len() <= i < c.transform_units@.len() ==> #[trigger] c.tu_ok(i),
        forall|j: int| 0 <= j < c.ct@.len() ==> #[trigger] c.ct@[j] < c.coding_trees@.len(),
        c.dtiqs@ == o.dtiqs@,
    ensures
        c.wf(),
{
    assert forall|i: int| 0 <= i < c.coding_trees@.len() implies #[trigger] c.ct_ok(i) by {
        if i < o.coding_trees@.len() {
            assert(o.ct_ok(i));
        }
    }
    assert forall|k: int| 0 <= k < c.coding_units@.len() implies #[trigger] c.cu_ok(k) by {
        if k < o.coding_units@.len() {
            assert(o.cu_ok(k));
        }
    }
    assert forall|t: int| 0 <= t < c.transform_trees@.len() implies #[trigger] c.tt_ok(t) by {
        if t < o.transform_trees@.len() {
            assert(o.tt_ok(t));
        }
    }
    assert forall|u: int| 0 <= u < c.transform_units@.len() implies #[trigger] c.tu_ok(u) by {
        if u < o.transform_units@.len() {
            assert(o.tu_ok(u));
        }
    }
    assert forall|d: int| 0 <= d < c.dtiqs_nodes@.len() implies #[trigger] c.dtiqs_ok(d) by {
        assert(o.dtiqs_ok(d));
    }
    assert forall|j: int| 0 <= j < c.dtiqs@.len() implies #[trigger] c.dtiqs@[j] < c.dtiqs_nodes@.len() by {
        assert(o.dtiqs@[j] < o.dtiqs_nodes@.len());
    }
}

impl TransformTree {
    /// `self` is the transform tree node built at (x, y) with log2 size (lw, lh) for
    /// coding unit `cu`, holding the one transform unit at position `u`.
    pub open spec fn initialized(
        self,
        x: usize,
        y: usize,
        lw: usize,
        lh: usize,
        parent: Option<usize>,
        cu: usize,
        tree_type: TreeType,
        tile: Option<TileGeometry>,
        u: usize,
    ) -> bool {
        &&& self.x == x && self.y == y
        &&& self.width == pow2(lw as nat) && self.height == pow2(lh as nat)
        &&& self.tts@.len() == 0 && self.tus@ == seq![u]
        &&& self.parent == parent && self.part_idx == 0 && self.cu == cu
        &&& self.tile == tile
        &&& (self.x_tile, self.y_tile, self.width_tile, self.height_tile) == tile_bounds_of(tile)
        &&& self.above_right_available is None && self.below_left_available is None
        &&& self.tree_type == tree_type
    }

    fn build(
        x: usize,
        y: usize,
        log2_width: usize,
        log2_height: usize,
        parent: Option<usize>,
        cu: usize,
        tree_type: TreeType,
        tile: Option<TileGeometry>,
        u: usize,
    ) -> (tt: TransformTree)
        requires
            log2_size_ok(log2_width, log2_height),
            tile_ok(tile),
        ensures
            tt.initialized(x, y, log2_width, log2_height, parent, cu, tree_type, tile, u),
    {
        proof {
            crate::bits::lemma_usize_shl_one(log2_width);
            crate::bits::lemma_usize_shl_one(log2_height);
        }
        let (x_tile, y_tile, width_tile, height_tile) = tile_bounds(&tile);
        let mut tus: Vec<usize> = Vec::new();
        tus.push(u);
        assert(tus@ =~= seq![u]);
        TransformTree {
            x,
            y,
            width: 1 << log2_width,
            height: 1 << log2_height,
            tts: Vec::new(),
            tus,
            parent,
            part_idx: 0,
            cu,
            tile,
            above_right_available: None,
            below_left_available: None,
            x_tile,
            y_tile,
            width_tile,
            height_tile,
            tree_type,
        }
    }

    /// Adds a transform tree node for coding unit `cu`, with one transform unit
    /// covering it, to the arenas of `ctu`; returns the node's position.
    pub fn new_arc_mutex(
        ctu: &mut CodingTreeUnit,
        x: usize,
        y: usize,
        log2_width: usize,
        log2_height: usize,
        ch_type: usize,
        parent: Option<usize>,
        cu: usize,
        fixed_qp: Option<usize>,
        tree_type: TreeType,
        tile: Option<TileGeometry>,
    ) -> (t: usize)
        requires
            old(ctu).wf(),
            parent matches Some(p) ==> p < old(ctu).transform_trees@.len(),
            cu < old(ctu).coding_units@.len(),
            log2_size_ok(log2_width, log2_height),
            tile_ok(tile),
        ensures
            final(ctu).wf(),
            t == old(ctu).transform_trees@.len(),
            final(ctu).transform_trees@ == old(ctu).transform_trees@.push(final(ctu).transform_trees@[t as int]),
            final(ctu).transform_units@ == old(ctu).transform_units@.push(
                final(ctu).transform_units@[old(ctu).transform_units@.len() as int],
            ),
            final(ctu).transform_trees@[t as int].initialized(
                x,
                y,
                log2_width,
                log2_height,
                parent,
                cu,
                tree_type,
                tile,
                old(ctu).transform_units@.len() as usize,
            ),
            final(ctu).transform_units@[old(ctu).transform_units@.len() as int].initialized(
                old(ctu).coding_units@[cu as int],
                x,
                y,
                log2_width,
                log2_height,
                ch_type,
                t,
                fixed_qp,
                tree_type,
                tile,
                cu,
            ),
            final(ctu).coding_trees == old(ctu).coding_trees,
            final(ctu).coding_units == old(ctu).coding_units,
            final(ctu).same_unit(*old(ctu)),
    {
        let t = ctu.transform_trees.len();
        let u = ctu.transform_units.len();
        let tt = TransformTree::build(x, y, log2_width, log2_height, parent, cu, tree_type, tile, u);
        let tu = TransformUnit::build(
            &ctu.coding_units[cu],
            x,
            y,
            log2_width,
            log2_height,
            ch_type,
            t,
            fixed_qp,
            tree_type,
            tile,
            cu,
        );
        ctu.transform_trees.push(tt);
        ctu.transform_units.push(tu);
        proof {
            let c = *ctu;
            assert(c.tt_ok(t as int));
            assert(c.tu_ok(u as int));
            lemma_wf_extend(*old(ctu), c);
        }
        t
    }
}

impl CodingUnit {
    /// `self` is the coding unit built at (x, y) with log2 size (lw, lh) under coding
    /// tree node `parent`, its transform tree at position `tt`: intra, planar, no
    /// tool enabled.
    pub open spec fn initialized(
        self,
        x: usize,
        y: usize,
        lw: usize,
        lh: usize,
        parent: usize,
        fixed_qp: Option<usize>,
        tree_type: TreeType,
        tile: Option<TileGeometry>,
        tt: usize,
    ) -> bool {
        &&& !self.skip_flag
        &&& self.pred_mode == [ModeType::MODE_INTRA, ModeType::MODE_INTRA]
        &&& self.pred_mode_flag && !self.pred_mode_ibc_flag && !self.pred_mode_plt_flag
        &&& !self.act_enabled_flag
        &&& self.palette_coding@.len() == 0
        &&& !self.intra_bdpcm_luma_flag && !self.intra_bdpcm_luma_dir_flag
        &&& !self.intra_mip_flag && !self.intra_mip_transposed_flag && self.intra_mip_mode == 0
        &&& self.intra_luma_ref_idx == 0
        &&& !self.intra_subpartitions_mode_flag && !self.intra_subpartitions_split_flag
        &&& self.intra_luma_mpm_flag && self.intra_luma_mpm_idx == 0 && self.intra_luma_mpm_remainer == 0
        &&& !self.intra_bdpcm_chroma_flag && !self.intra_bdpcm_chroma_dir_flag
        &&& self.intra_chroma_pred_mode == 4
        &&& !self.general_merge_flag && self.merge_data is None
        &&& self.mvd_coding@.len() == 0
        &&& !self.mvp_l0_flag && !self.mvp_l1_flag
        &&& self.amvr_precision_idx == 0 && self.inter_pred_idc == 0
        &&& !self.inter_affine_flag && !self.affine_type_flag && !self.sym_mvd_flag
        &&& self.ref_idx == [0usize, 1]
        &&& !self.amvr_flag && self.bcw_idx == 0 && self.coded_flag
        &&& !self.sbt_flag && !self.sbt_quad_flag && !self.sbt_horizontal_flag && !self.sbt_pos_flag
        &&& self.transform_tree == Some(tt)
        &&& self.lfnst_idx == 0 && self.mts_idx == 0
        &&& self.width == pow2(lw as nat) && self.height == pow2(lh as nat)
        &&& self.idx == 0 && self.x == x && self.y == y
        &&& self.mode_type == ModeType::MODE_INTRA
        &&& self.tree_type == tree_type
        &&& self.parent == parent
        &&& self.intra_pred_mode == [IntraPredMode::PLANAR, IntraPredMode::PLANAR, IntraPredMode::PLANAR]
        &&& self.qp_y == match fixed_qp {
            Some(q) => q,
            None => 26,
        }
        &&& self.tile == tile
        &&& (self.x_tile, self.y_tile, self.width_tile, self.height_tile) == tile_bounds_of(tile)
    }

    fn build(
        x: usize,
        y: usize,
        log2_width: usize,
        log2_height: usize,
        parent: usize,
        fixed_qp: Option<usize>,
        tree_type: TreeType,
        tile: Option<TileGeometry>,
        tt: usize,
    ) -> (cu: CodingUnit)
        requires
            log2_size_ok(log2_width, log2_height),
            tile_ok(tile),
        ensures
            cu.initialized(x, y, log2_width, log2_height, parent, fixed_qp, tree_type, tile, tt),
    {
        let qp = match fixed_qp {
            Some(q) => q,
            None => 26,
        };
        proof {
            crate::bits::lemma_usize_shl_one(log2_width);
            crate::bits::lemma_usize_shl_one(log2_height);
        }
        let (x_tile, y_tile, width_tile, height_tile) = tile_bounds(&tile);
        CodingUnit {
            skip_flag: false,
            pred_mode: [ModeType::MODE_INTRA, ModeType::MODE_INTRA],
            pred_mode_flag: true,
            pred_mode_ibc_flag: false,
            pred_mode_plt_flag: false,
            act_enabled_flag: false,
            palette_coding: Vec::new(),
            intra_bdpcm_luma_flag: false,
            intra_bdpcm_luma_dir_flag: false,
            intra_mip_flag: false,
            intra_mip_transposed_flag: false,
            intra_mip_mode: 0,
            intra_luma_ref_idx: 0,
            intra_subpartitions_mode_flag: false,
            intra_subpartitions_split_flag: false,
            intra_luma_mpm_flag: true,
            intra_luma_mpm_idx: 0,
            intra_luma_mpm_remainer: 0,
            intra_bdpcm_chroma_flag: false,
            intra_bdpcm_chroma_dir_flag: false,
            intra_chroma_pred_mode: 4,
            general_merge_flag: false,
            merge_data: None,
            mvd_coding: Vec::new(),
            mvp_l0_flag: false,
            mvp_l1_flag: false,
            amvr_precision_idx: 0,
            inter_pred_idc: 0,
            inter_affine_flag: false,
            affine_type_flag: false,
            sym_mvd_flag: false,
            ref_idx: [0, 1],
            amvr_flag: false,
            bcw_idx: 0,
            coded_flag: true,
            sbt_flag: false,
            sbt_quad_flag: false,
            sbt_horizontal_flag: false,
            sbt_pos_flag: false,
            transform_tree: Some(tt),
            lfnst_idx: 0,
            mts_idx: 0,
            width: 1 << log2_width,
            height: 1 << log2_height,
            idx: 0,
            x,
            y,
            mode_type: ModeType::MODE_INTRA,
            tree_type,
            parent,
            intra_pred_mode: [IntraPredMode::PLANAR, IntraPredMode::PLANAR, IntraPredMode::PLANAR],
            qp_y: qp,
            tile,
            x_tile,
            y_tile,
            width_tile,
            height_tile,
        }
    }

    /// Adds a coding unit under coding tree node `parent`, with its transform tree
    /// and one transform unit, to the arenas of `ctu`; returns the unit's position.
    pub fn new_arc_mutex(
        ctu: &mut CodingTreeUnit,
        x: usize,
        y: usize,
        log2_width: usize,
        log2_height: usize,
        ch_type: usize,
        parent: usize,
        fixed_qp: Option<usize>,
        tree_type: TreeType,
        tile: Option<TileGeometry>,
    ) -> (k: usize)
        requires
            old(ctu).wf(),
            parent < old(ctu).coding_trees@.len(),
            log2_size_ok(log2_width, log2_height),
            tile_ok(tile),
        ensures
            final(ctu).wf(),
            k == old(ctu).coding_units@.len(),
            final(ctu).coding_units@ == old(ctu).coding_units@.push(final(ctu).coding_units@[k as int]),
            final(ctu).cu_below_left_available@ == old(ctu).cu_below_left_available@.push(None),
            final(ctu).cu_above_right_available@ == old(ctu).cu_above_right_available@.push(None),
            final(ctu).transform_trees@ == old(ctu).transform_trees@.push(
                final(ctu).transform_trees@[old(ctu).transform_trees@.len() as int],
            ),
            final(ctu).transform_units@ == old(ctu).transform_units@.push(
                final(ctu).transform_units@[old(ctu).transform_units@.len() as int],
            ),
            final(ctu).coding_units@[k as int].initialized(
                x,
                y,
                log2_width,
                log2_height,
                parent,
                fixed_qp,
                tree_type,
                tile,
                old(ctu).transform_trees@.len() as usize,
            ),
            final(ctu).transform_trees@[old(ctu).transform_trees@.len() as int].initialized(
                x,
                y,
                log2_width,
                log2_height,
                None,
                k,
                tree_type,
                tile,
                old(ctu).transform_units@.len() as usize,
            ),
            final(ctu).transform_units@[old(ctu).transform_units@.len() as int].initialized(
                final(ctu).coding_units@[k as int],
                x,
                y,
                log2_width,
                log2_height,
                ch_type,
                old(ctu).transform_trees@.len() as usize,
                fixed_qp,
                tree_type,
                tile,
                k,
            ),
            final(ctu).coding_trees == old(ctu).coding_trees,
            final(ctu).same_unit(*old(ctu)),
    {
        let k = ctu.coding_units.len();
        let t = ctu.transform_trees.len();
        let u = ctu.transform_units.len();
        let cu = CodingUnit::build(x, y, log2_width, log2_height, parent, fixed_qp, tree_type, tile, t);
        let tt = TransformTree::build(x, y, log2_width, log2_height, None, k, tree_type, tile, u);
        let tu = TransformUnit::build(
            &cu,
            x,
            y,
            log2_width,
            log2_height,
            ch_type,
            t,
            fixed_qp,
            tree_type,
            tile,
            k,
        );
        ctu.coding_units.push(cu);
        ctu.cu_below_left_available.push(None);
        ctu.cu_above_right_available.push(None);
        ctu.transform_trees.push(tt);
        ctu.transform_units.push(tu);
        proof {
            let c = *ctu;
            assert(c.cu_ok(k as int));
            assert(c.tt_ok(t as int));
            assert(c.tu_ok(u as int));
            lemma_wf_extend(*old(ctu), c);
        }
        k
    }
}

impl CodingTree {
    /// `self` is the coding tree node built at (x, y) with log2 size (lw, lh),
    /// unsplit apart from `split_mode`, holding the one coding unit at position `k`.
    pub open spec fn initialized(
        self,
        x: usize,
        y: usize,
        lw: usize,
        lh: usize,
        depth: usize,
        cqt_depth: usize,
        depth_offset: usize,
        part_idx: usize,
        qg_on_y: bool,
        qg_on_c: bool,
        parent: Option<usize>,
        split_mode: MttSplitMode,
        tree_type: TreeType,
        mode_type: ModeType,
        tile: Option<TileGeometry>,
        k: usize,
    ) -> bool {
        &&& !self.mtt_split_cu_binary_flag && !self.non_inter_flag
        &&& self.cts@.len() == 0 && self.cus@ == seq![k]
        &&& self.width == pow2(lw as nat) && self.height == pow2(lh as nat)
        &&& self.depth == depth && self.cqt_depth == cqt_depth
        &&& self.tree_type == tree_type && self.mode_type == mode_type
        &&& self.x == x && self.y == y
        &&& self.depth_offset == depth_offset && self.part_idx == part_idx
        &&& self.split_mode == split_mode
        &&& self.qg_on_y == qg_on_y && self.qg_on_c == qg_on_c
        &&& self.parent == parent
        &&& self.tile == tile
        &&& self.above_right_available is None && self.below_left_available is None
        &&& (self.x_tile, self.y_tile, self.width_tile, self.height_tile) == tile_bounds_of(tile)
    }

    /// Adds a coding tree node with one coding unit covering it (with its transform
    /// tree and transform unit) to the arenas of `ctu`; returns the node's position.
    pub fn new_arc_mutex(
        ctu: &mut CodingTreeUnit,
        x: usize,
        y: usize,
        log2_width: usize,
        log2_height: usize,
        depth: usize,
        cqt_depth: usize,
        depth_offset: usize,
        part_idx: usize,
        qg_on_y: bool,
        qg_on_c: bool,
        parent: Option<usize>,
        fixed_qp: Option<usize>,
        split_mode: MttSplitMode,
        tree_type: TreeType,
        mode_type: ModeType,
        tile: Option<TileGeometry>,
    ) -> (i: usize)
        requires
            old(ctu).wf(),
            parent matches Some(p) ==> p < old(ctu).coding_trees@.len(),
            log2_size_ok(log2_width, log2_height),
            tile_ok(tile),
        ensures
            final(ctu).wf(),
            i == old(ctu).coding_trees@.len(),
            final(ctu).coding_trees@ == old(ctu).coding_trees@.push(final(ctu).coding_trees@[i as int]),
            final(ctu).coding_units@ == old(ctu).coding_units@.push(
                final(ctu).coding_units@[old(ctu).coding_units@.len() as int],
            ),
            final(ctu).coding_trees@[i as int].initialized(
                x,
                y,
                log2_width,
                log2_height,
                depth,
                cqt_depth,
                depth_offset,
                part_idx,
                qg_on_y,
                qg_on_c,
                parent,
                split_mode,
                tree_type,
                mode_type,
                tile,
                old(ctu).coding_units@.len() as usize,
            ),
            final(ctu).coding_units@[old(ctu).coding_units@.len() as int].initialized(
                x,
                y,
                log2_width,
                log2_height,
                i,
                fixed_qp,
                tree_type,
                tile,
                old(ctu).transform_trees@.len() as usize,
            ),
            final(ctu).transform_trees@.len() == old(ctu).transform_trees@.len() + 1,
            final(ctu).transform_units@.len() == old(ctu).transform_units@.len() + 1,
            final(ctu).same_unit(*old(ctu)),
    {
        let i = ctu.coding_trees.len();
        let k = ctu.coding_units.len();
        let ct = CodingTree::build(
            x,
            y,
            log2_width,
            log2_height,
            depth,
            cqt_depth,
            depth_offset,
            part_idx,
            qg_on_y,
            qg_on_c,
            parent,
            split_mode,
            tree_type,
            mode_type,
            tile,
            Vec::new(),
        );
        let ghost o = *ctu;
        ctu.coding_trees.push(ct);
        proof {
            let c = *ctu;
            lemma_wf_extend(o, c);
        }
        let ch_type: usize = if tree_type == TreeType::DUAL_TREE_CHROMA {
            1
        } else {
            0
        };
        CodingUnit::new_arc_mutex(ctu, x, y, log2_width, log2_height, ch_type, i, fixed_qp, tree_type, tile);
        let mut cus: Vec<usize> = Vec::new();
        cus.push(k);
        assert(cus@ =~= seq![k]);
        let ct = CodingTree::build(
            x,
            y,
            log2_width,
            log2_height,
            depth,
            cqt_depth,
            depth_offset,
            part_idx,
            qg_on_y,
            qg_on_c,
            parent,
            split_mode,
            tree_type,
            mode_type,
            tile,
            cus,
        );
        let ghost before = *ctu;
        ctu.coding_trees.set(i, ct);
        proof {
            let c = *ctu;
            assert forall|i2: int| 0 <= i2 < c.coding_trees@.len() implies #[trigger] c.ct_ok(i2) by {
                if i2 != i {
                    assert(before.ct_ok(i2));
                }
            }
            assert forall|k2: int| 0 <= k2 < c.coding_units@.len() implies #[trigger] c.cu_ok(k2) by {
                assert(before.cu_ok(k2));
            }
            assert forall|t: int| 0 <= t < c.transform_trees@.len() implies #[trigger] c.tt_ok(t) by {
                assert(before.tt_ok(t));
            }
            assert forall|u: int| 0 <= u < c.transform_units@.len() implies #[trigger] c.tu_ok(u) by {
                assert(before.tu_ok(u));
            }
            assert forall|d: int| 0 <= d < c.dtiqs_nodes@.len() implies #[trigger] c.dtiqs_ok(d) by {
                assert(before.dtiqs_ok(d));
            }
        }
        i
    }

    fn build(
        x: usize,
        y: usize,
        log2_width: usize,
        log2_height: usize,
        depth: usize,
        cqt_depth: usize,
        depth_offset: usize,
        part_idx: usize,
        qg_on_y: bool,
        qg_on_c: bool,
        parent: Option<usize>,
        split_mode: MttSplitMode,
        tree_type: TreeType,
        mode_type: ModeType,
        tile: Option<TileGeometry>,
        cus: Vec<usize>,
    ) -> (ct: CodingTree)
        requires
            log2_size_ok(log2_width, log2_height),
            tile_ok(tile),
        ensures
            !ct.mtt_split_cu_binary_flag && !ct.non_inter_flag,
            ct.cts@.len() == 0 && ct.cus == cus,
            ct.width == pow2(log2_width as nat) && ct.height == pow2(log2_height as nat),
            ct.depth == depth && ct.cqt_depth == cqt_depth,
            ct.tree_type == tree_type && ct.mode_type == mode_type,
            ct.x == x && ct.y == y,
            ct.depth_offset == depth_offset && ct.part_idx == part_idx,
            ct.split_mode == split_mode,
            ct.qg_on_y == qg_on_y && ct.qg_on_c == qg_on_c,
            ct.parent == parent,
            ct.tile == tile,
            ct.above_right_available is None && ct.below_left_available is None,
            (ct.x_tile, ct.y_tile, ct.width_tile, ct.height_tile) == tile_bounds_of(tile),
    {
        proof {
            crate::bits::lemma_usize_shl_one(log2_width);
            crate::bits::lemma_usize_shl_one(log2_height);
        }
        let (x_tile, y_tile, width_tile, height_tile) = tile_bounds(&tile);
        CodingTree {
            mtt_split_cu_binary_flag: false,
            non_inter_flag: false,
            cts: Vec::new(),
            cus,
            width: 1 << log2_width,
            height: 1 << log2_height,
            depth,
            cqt_depth,
            tree_type,
            mode_type,
            x,
            y,
            depth_offset,
            part_idx,
            split_mode,
            qg_on_y,
            qg_on_c,
            parent,
            tile,
            above_right_available: None,
            below_left_available: None,
            x_tile,
            y_tile,
            width_tile,
            height_tile,
        }
    }
}

impl CodingTreeUnit {
    /// A coding tree unit at (x, y) with log2 size (lw, lh), its coding tree a single
    /// unsplit node at position 0 covering it.
    pub fn new_arc_mutex(
        x: usize,
        y: usize,
        log2_width: usize,
        log2_height: usize,
        tile: Option<TileGeometry>,
        fixed_qp: Option<usize>,
    ) -> (ctu: CodingTreeUnit)
        requires
            log2_size_ok(log2_width, log2_height),
            tile_ok(tile),
        ensures
            ctu.wf(),
            ctu.x == x && ctu.y == y,
            ctu.width == pow2(log2_width as nat) && ctu.height == pow2(log2_height as nat),
            ctu.pixels@.len() == 0,
            ctu.dtiqs@.len() == 0 && ctu.dtiqs_nodes@.len() == 0,
            ctu.ct@ == seq![0usize],
            ctu.tile == tile,
            (ctu.x_tile, ctu.y_tile, ctu.width_tile, ctu.height_tile) == tile_bounds_of(tile),
            ctu.coding_trees@.len() == 1 && ctu.coding_units@.len() == 1,
            ctu.transform_trees@.len() == 1 && ctu.transform_units@.len() == 1,
            ctu.coding_trees@[0].initialized(
                x,
                y,
                log2_width,
                log2_height,
                0,
                0,
                0,
                0,
                true,
                true,
                None,
                MttSplitMode::SPLIT_NONE,
                TreeType::SINGLE_TREE,
                ModeType::MODE_TYPE_ALL,
                tile,
                0,
            ),
            ctu.coding_units@[0].initialized(
                x,
                y,
                log2_width,
                log2_height,
                0,
                fixed_qp,
                TreeType::SINGLE_TREE,
                tile,
                0,
            ),
    {
        proof {
            crate::bits::lemma_usize_shl_one(log2_width);
            crate::bits::lemma_usize_shl_one(log2_height);
        }
        let (x_tile, y_tile, width_tile, height_tile) = tile_bounds(&tile);
        let mut ctu = CodingTreeUnit {
            x,
            y,
            width: 1 << log2_width,
            height: 1 << log2_height,
            pixels: Vec::new(),
            sao: SAO::new(),
            alf: ALF::new(),
            dtiqs: Vec::new(),
            ct: Vec::new(),
            tile,
            x_tile,
            y_tile,
            width_tile,
            height_tile,
            coding_trees: Vec::new(),
            coding_units: Vec::new(),
            cu_below_left_available: Vec::new(),
            cu_above_right_available: Vec::new(),
            transform_trees: Vec::new(),
            transform_units: Vec::new(),
            dtiqs_nodes: Vec::new(),
        };
        let ct = CodingTree::new_arc_mutex(
            &mut ctu,
            x,
            y,
            log2_width,
            log2_height,
            0,
            0,
            0,
            0,
            true,
            true,
            None,
            fixed_qp,
            MttSplitMode::SPLIT_NONE,
            TreeType::SINGLE_TREE,
            ModeType::MODE_TYPE_ALL,
            tile,
        );
        let ghost before = ctu;
        ctu.ct.push(ct);
        assert(ctu.ct@ =~= seq![0usize]);
        proof {
            lemma_wf_extend(before, ctu);
        }
        ctu
    }
}

/// The transform unit reached by following first children down from transform
/// tree node `t`; `None` where a node on the way has neither children nor units.
pub open spec fn first_tu_of(c: CodingTreeUnit, t: int) -> Option<int>
    decreases c.transform_trees@.len() - t,
{
    if 0 <= t < c.transform_trees@.len() {
        let tt = c.transform_trees@[t];
        if tt.tts@.len() > 0 {
            let ch = tt.tts@[0] as int;
            if t < ch < c.transform_trees@.len() {
                first_tu_of(c, ch)
            } else {
                None
            }
        } else if tt.tus@.len() > 0 {
            Some(tt.tus@[0] as int)
        } else {
            None
        }
    } else {
        None
    }
}

/// The transform unit reached by following last children down from transform
/// tree node `t` (the first unit of the node reached); `None` where a node on the
/// way has neither children nor units.
pub open spec fn last_tu_of(c: CodingTreeUnit, t: int) -> Option<int>
    decreases c.transform_trees@.len() - t,
{
    if 0 <= t < c.transform_trees@.len() {
        let tt = c.transform_trees@[t];
        if tt.tts@.len() > 0 {
            let ch = tt.tts@.last() as int;
            if t < ch < c.transform_trees@.len() {
                last_tu_of(c, ch)
            } else {
                None
            }
        } else if tt.tus@.len() > 0 {
            Some(tt.tus@[0] as int)
        } else {
            None
        }
    } else {
        None
    }
}

/// Looking up the transform unit before node `t` reaches no dead end.
pub open spec fn prev_tu_ok(c: CodingTreeUnit, t: int) -> bool
    decreases t,
{
    if 0 <= t < c.transform_trees@.len() {
        let tt = c.transform_trees@[t];
        match tt.parent {
            Some(p) => {
                let parent = c.transform_trees@[p as int];
                if 0 <= p < t {
                    if tt.part_idx > 0 {
                        tt.part_idx - 1 < parent.tts@.len() && last_tu_of(
                            c,
                            parent.tts@[tt.part_idx - 1] as int,
                        ) is Some
                    } else {
                        prev_tu_ok(c, p as int)
                    }
                } else {
                    false
                }
            },
            None => true,
        }
    } else {
        false
    }
}

/// The transform unit just before transform tree node `t` in its coding unit: the
/// last unit of the previous sibling, or of the parent's previous sibling, and so
/// on; `None` for the first node.
pub open spec fn prev_tu_of(c: CodingTreeUnit, t: int) -> Option<int>
    decreases t,
{
    if 0 <= t < c.transform_trees@.len() {
        let tt = c.transform_trees@[t];
        match tt.parent {
            Some(p) => {
                let parent = c.transform_trees@[p as int];
                if 0 <= p < t {
                    if tt.part_idx > 0 {
                        last_tu_of(c, parent.tts@[tt.part_idx - 1] as int)
                    } else {
                        prev_tu_of(c, p as int)
                    }
                } else {
                    None
                }
            },
            None => None,
        }
    } else {
        None
    }
}

impl TransformTree {
    /// The first transform unit of node `t`.
    pub fn first_tu(ctu: &CodingTreeUnit, t: usize) -> (u: usize)
        requires
            ctu.wf(),
            first_tu_of(*ctu, t as int) is Some,
        ensures
            Some(u as int) == first_tu_of(*ctu, t as int),
            u < ctu.transform_units@.len(),
        decreases ctu.transform_trees@.len() - t,
    {
        proof {
            assert(ctu.tt_ok(t as int));
        }
        let tt = &ctu.transform_trees[t];
        if tt.tts.len() > 0 {
            TransformTree::first_tu(ctu, tt.tts[0])
        } else {
            tt.tus[0]
        }
    }

    /// The last transform unit of node `t`.
    pub fn last_tu(ctu: &CodingTreeUnit, t: usize) -> (u: usize)
        requires
            ctu.wf(),
            last_tu_of(*ctu, t as int) is Some,
        ensures
            Some(u as int) == last_tu_of(*ctu, t as int),
            u < ctu.transform_units@.len(),
        decreases ctu.transform_trees@.len() - t,
    {
        proof {
            assert(ctu.tt_ok(t as int));
        }
        let tt = &ctu.transform_trees[t];
        if tt.tts.len() > 0 {
            let n = tt.tts.len();
            TransformTree::last_tu(ctu, tt.tts[n - 1])
        } else {
            tt.tus[0]
        }
    }

    /// The transform unit just before node `t` in its coding unit, if any.
    pub fn prev_tu(ctu: &CodingTreeUnit, t: usize) -> (r: Option<usize>)
        requires
            ctu.wf(),
            t < ctu.transform_trees@.len(),
            prev_tu_ok(*ctu, t as int),
        ensures
            r matches Some(u) ==> prev_tu_of(*ctu, t as int) == Some(u as int),
            r is None ==> prev_tu_of(*ctu, t as int) is None,
        decreases t,
    {
        proof {
            assert(ctu.tt_ok(t as int));
        }
        let tt = &ctu.transform_trees[t];
        match tt.parent {
            Some(p) => {
                proof {
                    assert(ctu.tt_ok(p as int));
                }
                let parent = &ctu.transform_trees[p];
                if tt.part_idx > 0 {
                    Some(TransformTree::last_tu(ctu, parent.tts[tt.part_idx - 1]))
                } else {
                    TransformTree::prev_tu(ctu, p)
                }
            },
            None => None,
        }
    }
}

impl TransformUnit {
    /// The transform unit before unit `u` in its coding unit, if any.
    pub fn prev_tu_in_cu(ctu: &CodingTreeUnit, u: usize) -> (r: Option<usize>)
        requires
            ctu.wf(),
            u < ctu.transform_units@.len(),
            prev_tu_ok(*ctu, ctu.transform_units@[u as int].parent as int),
        ensures
            r matches Some(p) ==> prev_tu_of(*ctu, ctu.transform_units@[u as int].parent as int) == Some(p as int),
            r is None ==> prev_tu_of(*ctu, ctu.transform_units@[u as int].parent as int) is None,
    {
        proof {
            assert(ctu.tu_ok(u as int));
        }
        TransformTree::prev_tu(ctu, ctu.transform_units[u].parent)
    }

    /// Unit `u` is the first transform unit of its coding unit.
    pub fn first_in_cu(ctu: &CodingTreeUnit, u: usize) -> (r: bool)
        requires
            ctu.wf(),
            u < ctu.transform_units@.len(),
            prev_tu_ok(*ctu, ctu.transform_units@[u as int].parent as int),
        ensures
            r == prev_tu_of(*ctu, ctu.transform_units@[u as int].parent as int) is None,
    {
        TransformUnit::prev_tu_in_cu(ctu, u).is_none()
    }
}

/// (x, y) lies in the `w` by `h` rectangle at (rx, ry).
pub open spec fn rect_contains(rx: usize, ry: usize, w: usize, h: usize, x: usize, y: usize) -> bool {
    rx <= x < rx + w && ry <= y < ry + h
}

/// Coding tree node `i` exists and covers (x, y).
pub open spec fn ct_contains(c: CodingTreeUnit, i: int, x: usize, y: usize) -> bool {
    0 <= i < c.coding_trees@.len() && {
        let ct = c.coding_trees@[i];
        rect_contains(ct.x, ct.y, ct.width, ct.height, x, y)
    }
}

/// Coding unit `k` exists and covers (x, y).
pub open spec fn cu_contains(c: CodingTreeUnit, k: int, x: usize, y: usize) -> bool {
    0 <= k < c.coding_units@.len() && {
        let cu = c.coding_units@[k];
        rect_contains(cu.x, cu.y, cu.width, cu.height, x, y)
    }
}

/// The first position from `j` on in `kids` of a coding tree node covering (x, y).
pub open spec fn first_ct_from(c: CodingTreeUnit, kids: Seq<usize>, x: usize, y: usize, j: int) -> Option<int>
    decreases kids.len() - j,
{
    if j < 0 || j >= kids.len() {
        None
    } else if ct_contains(c, kids[j] as int, x, y) {
        Some(j)
    } else {
        first_ct_from(c, kids, x, y, j + 1)
    }
}

/// The first position from `j` on in `units` of a coding unit covering (x, y).
pub open spec fn first_cu_from(c: CodingTreeUnit, units: Seq<usize>, x: usize, y: usize, j: int) -> Option<int>
    decreases units.len() - j,
{
    if j < 0 || j >= units.len() {
        None
    } else if cu_contains(c, units[j] as int, x, y) {
        Some(j)
    } else {
        first_cu_from(c, units, x, y, j + 1)
    }
}

/// Looking up (x, y) from coding tree node `i` never meets a split node none of
/// whose children, or a leaf none of whose coding units, covers the point.
pub open spec fn ct_get_cu_ok(c: CodingTreeUnit, i: int, x: usize, y: usize) -> bool
    decreases c.coding_trees@.len() - i,
{
    if !(0 <= i < c.coding_trees@.len()) {
        false
    } else if !ct_contains(c, i, x, y) {
        true
    } else {
        let ct = c.coding_trees@[i];
        if ct.cts@.len() > 0 {
            match first_ct_from(c, ct.cts@, x, y, 0) {
                Some(j) => {
                    let ch = ct.cts@[j] as int;
                    i < ch < c.coding_trees@.len() && ct_get_cu_ok(c, ch, x, y)
                },
                None => false,
            }
        } else {
            first_cu_from(c, ct.cus@, x, y, 0) is Some
        }
    }
}

/// The coding unit covering (x, y) found from coding tree node `i`: through the
/// first child covering it, down to the first coding unit covering it; `None`
/// outside node `i`.
pub open spec fn ct_get_cu(c: CodingTreeUnit, i: int, x: usize, y: usize) -> Option<int>
    decreases c.coding_trees@.len() - i,
{
    if !ct_contains(c, i, x, y) {
        None
    } else {
        let ct = c.coding_trees@[i];
        if ct.cts@.len() > 0 {
            match first_ct_from(c, ct.cts@, x, y, 0) {
                Some(j) => {
                    let ch = ct.cts@[j] as int;
                    if i < ch < c.coding_trees@.len() {
                        ct_get_cu(c, ch, x, y)
                    } else {
                        None
                    }
                },
                None => None,
            }
        } else {
            match first_cu_from(c, ct.cus@, x, y, 0) {
                Some(j) => Some(ct.cus@[j] as int),
                None => None,
            }
        }
    }
}

proof fn lemma_first_cu_from_covers(c: CodingTreeUnit, units: Seq<usize>, x: usize, y: usize, j: int)
    ensures
        first_cu_from(c, units, x, y, j) matches Some(k) ==> j <= k < units.len() && cu_contains(c, units[k] as int, x, y),
    decreases units.len() - j,
{
    if 0 <= j < units.len() && !cu_contains(c, units[j] as int, x, y) {
        lemma_first_cu_from_covers(c, units, x, y, j + 1);
    }
}

/// The coding unit found for a point covers it: when looking (x, y) up from coding
/// tree node `i` finds coding unit `k`, both node `i` and unit `k` cover (x, y).
pub proof fn law_found_coding_unit_covers_the_point(c: CodingTreeUnit, i: int, x: usize, y: usize)
    ensures
        ct_get_cu(c, i, x, y) matches Some(k) ==> ct_contains(c, i, x, y) && cu_contains(c, k, x, y),
    decreases c.coding_trees@.len() - i,
{
    if ct_contains(c, i, x, y) {
        let ct = c.coding_trees@[i];
        if ct.cts@.len() > 0 {
            if let Some(j) = first_ct_from(c, ct.cts@, x, y, 0) {
                let ch = ct.cts@[j] as int;
                if i < ch < c.coding_trees@.len() {
                    law_found_coding_unit_covers_the_point(c, ch, x, y);
                }
            }
        } else {
            lemma_first_cu_from_covers(c, ct.cus@, x, y, 0);
        }
    }
}

impl CodingTreeUnit {
    /// No node's rectangle reaches past the largest `usize`.
    pub open spec fn coords_ok(self) -> bool {
        &&& self.x + self.width <= usize::MAX && self.y + self.height <= usize::MAX
        &&& forall|i: int|
            0 <= i < self.coding_trees@.len() ==> #[trigger] self.coding_trees@[i].x + self.coding_trees@[i].width
                <= usize::MAX && self.coding_trees@[i].y + self.coding_trees@[i].height <= usize::MAX
        &&& forall|k: int|
            0 <= k < self.coding_units@.len() ==> #[trigger] self.coding_units@[k].x + self.coding_units@[k].width
                <= usize::MAX && self.coding_units@[k].y + self.coding_units@[k].height <= usize::MAX
    }
}

proof fn lemma_first_ct_skip(c: CodingTreeUnit, kids: Seq<usize>, x: usize, y: usize, j: int)
    requires
        0 <= j < kids.len(),
        !ct_contains(c, kids[j] as int, x, y),
    ensures
        first_ct_from(c, kids, x, y, j) == first_ct_from(c, kids, x, y, j + 1),
{
}

impl CodingTree {
    /// The coding unit covering (x, y) found from coding tree node `i`.
    pub fn get_cu(ctu: &CodingTreeUnit, i: usize, x: usize, y: usize) -> (r: Option<usize>)
        requires
            ctu.wf(),
            ctu.coords_ok(),
            ct_get_cu_ok(*ctu, i as int, x, y),
        ensures
            r matches Some(k) ==> ct_get_cu(*ctu, i as int, x, y) == Some(k as int),
            r is None ==> ct_get_cu(*ctu, i as int, x, y) is None,
        decreases ctu.coding_trees@.len() - i,
    {
        proof {
            assert(ctu.ct_ok(i as int));
        }
        let ct = &ctu.coding_trees[i];
        if x < ct.x || x >= ct.x + ct.width || y < ct.y || y >= ct.y + ct.height {
            None
        } else if ct.cts.len() > 0 {
            let mut j: usize = 0;
            while j < ct.cts.len()
                invariant
                    ctu.wf(),
                    ctu.coords_ok(),
                    ct == ctu.coding_trees@[i as int],
                    i < ctu.coding_trees@.len(),
                    ct.cts@.len() > 0,
                    ct_contains(*ctu, i as int, x, y),
                    ct_get_cu_ok(*ctu, i as int, x, y),
                    j <= ct.cts@.len(),
                    first_ct_from(*ctu, ct.cts@, x, y, 0) == first_ct_from(*ctu, ct.cts@, x, y, j as int),
                decreases ct.cts@.len() - j,
            {
                let ch = ct.cts[j];
                proof {
                    assert(ctu.ct_ok(i as int));
                    assert(ctu.coding_trees@[ch as int].x + ctu.coding_trees@[ch as int].width <= usize::MAX);
                }
                let child = &ctu.coding_trees[ch];
                if x >= child.x && x < child.x + child.width && y >= child.y && y < child.y + child.height {
                    return CodingTree::get_cu(ctu, ch, x, y);
                }
                proof {
                    lemma_first_ct_skip(*ctu, ct.cts@, x, y, j as int);
                }
                j += 1;
            }
            None
        } else {
            let mut j: usize = 0;
            while j < ct.cus.len()
                invariant
                    ctu.wf(),
                    ctu.coords_ok(),
                    ct == ctu.coding_trees@[i as int],
                    i < ctu.coding_trees@.len(),
                    ct.cts@.len() == 0,
                    ct_contains(*ctu, i as int, x, y),
                    ct_get_cu_ok(*ctu, i as int, x, y),
                    j <= ct.cus@.len(),
                    first_cu_from(*ctu, ct.cus@, x, y, 0) == first_cu_from(*ctu, ct.cus@, x, y, j as int),
                decreases ct.cus@.len() - j,
            {
                let k = ct.cus[j];
                proof {
                    assert(ctu.ct_ok(i as int));
                    assert(ctu.coding_units@[k as int].x + ctu.coding_units@[k as int].width <= usize::MAX);
                }
                let cu = &ctu.coding_units[k];
                if x >= cu.x && x < cu.x + cu.width && y >= cu.y && y < cu.y + cu.height {
                    return Some(k);
                }
                j += 1;
            }
            None
        }
    }
}

/// Looking up (x, y) from dual-tree node `d`: a coding tree covering it exists and
/// the lookup from the first one does not fail.
pub open spec fn dtiqs_get_cu_ok(c: CodingTreeUnit, d: int, x: usize, y: usize) -> bool {
    0 <= d < c.dtiqs_nodes@.len() && match first_ct_from(c, c.dtiqs_nodes@[d].cts@, x, y, 0) {
        Some(j) => ct_get_cu_ok(c, c.dtiqs_nodes@[d].cts@[j] as int, x, y),
        None => false,
    }
}

/// The coding unit covering (x, y) found from the first coding tree of dual-tree
/// node `d` that covers the point.
pub open spec fn dtiqs_get_cu(c: CodingTreeUnit, d: int, x: usize, y: usize) -> Option<int> {
    match first_ct_from(c, c.dtiqs_nodes@[d].cts@, x, y, 0) {
        Some(j) => ct_get_cu(c, c.dtiqs_nodes@[d].cts@[j] as int, x, y),
        None => None,
    }
}

/// Looking up (x, y) in the whole unit does not fail.
pub open spec fn ctu_get_cu_ok(c: CodingTreeUnit, x: usize, y: usize) -> bool {
    if !rect_contains(c.x, c.y, c.width, c.height, x, y) {
        true
    } else if c.dtiqs@.len() > 0 {
        dtiqs_get_cu_ok(c, c.dtiqs@[0] as int, x, y)
    } else {
        c.ct@.len() > 0 && ct_get_cu_ok(c, c.ct@[0] as int, x, y)
    }
}

/// The coding unit of the unit covering (x, y): looked up from the first dual-tree
/// node if there is one, else from the first coding tree; `None` outside the unit.
pub open spec fn ctu_get_cu(c: CodingTreeUnit, x: usize, y: usize) -> Option<int> {
    if !rect_contains(c.x, c.y, c.width, c.height, x, y) {
        None
    } else if c.dtiqs@.len() > 0 {
        dtiqs_get_cu(c, c.dtiqs@[0] as int, x, y)
    } else {
        ct_get_cu(c, c.ct@[0] as int, x, y)
    }
}

impl DTIQS {
    /// The coding unit covering (x, y) found from dual-tree node `d`.
    pub fn get_cu(ctu: &CodingTreeUnit, d: usize, x: usize, y: usize) -> (r: Option<usize>)
        requires
            ctu.wf(),
            ctu.coords_ok(),
            dtiqs_get_cu_ok(*ctu, d as int, x, y),
        ensures
            r matches Some(k) ==> dtiqs_get_cu(*ctu, d as int, x, y) == Some(k as int),
            r is None ==> dtiqs_get_cu(*ctu, d as int, x, y) is None,
    {
        let node = &ctu.dtiqs_nodes[d];
        let mut j: usize = 0;
        while j < node.cts.len()
            invariant
                ctu.wf(),
                ctu.coords_ok(),
                d < ctu.dtiqs_nodes@.len(),
                node == ctu.dtiqs_nodes@[d as int],
                dtiqs_get_cu_ok(*ctu, d as int, x, y),
                j <= node.cts@.len(),
                first_ct_from(*ctu, node.cts@, x, y, 0) == first_ct_from(*ctu, node.cts@, x, y, j as int),
            decreases node.cts@.len() - j,
        {
            let ch = node.cts[j];
            proof {
                assert(ctu.dtiqs_ok(d as int));
                assert(ctu.coding_trees@[ch as int].x + ctu.coding_trees@[ch as int].width <= usize::MAX);
            }
            let ct = &ctu.coding_trees[ch];
            if x >= ct.x && x < ct.x + ct.width && y >= ct.y && y < ct.y + ct.height {
                return CodingTree::get_cu(ctu, ch, x, y);
            }
            proof {
                lemma_first_ct_skip(*ctu, node.cts@, x, y, j as int);
            }
            j += 1;
        }
        None
    }
}

impl CodingTreeUnit {
    /// The coding unit of this unit covering (x, y), if any.
    pub fn get_cu(&self, x: usize, y: usize) -> (r: Option<usize>)
        requires
            self.wf(),
            self.coords_ok(),
            ctu_get_cu_ok(*self, x, y),
        ensures
            r matches Some(k) ==> ctu_get_cu(*self, x, y) == Some(k as int),
            r is None ==> ctu_get_cu(*self, x, y) is None,
    {
        if x < self.x || x >= self.x + self.width || y < self.y || y >= self.y + self.height {
            None
        } else if self.dtiqs.len() > 0 {
            DTIQS::get_cu(self, self.dtiqs[0], x, y)
        } else {
            CodingTree::get_cu(self, self.ct[0], x, y)
        }
    }
}

/// The five most probable luma modes from the candidate modes of the left and the
/// above neighbour.
pub open spec fn mpm_list(left: usize, above: usize) -> Seq<usize> {
    if left == above && left > 1 {
        seq![
            left,
            (2 + (left + 61) % 64) as usize,
            (2 + (left - 1) % 64) as usize,
            (2 + (left + 60) % 64) as usize,
            (2 + left % 64) as usize,
        ]
    } else if left != above && (left > 1 || above > 1) {
        let mn = if left < above {
            left
        } else {
            above
        };
        let mx = if left < above {
            above
        } else {
            left
        };
        if mn > 1 {
            let d = mx - mn;
            if d == 1 {
                seq![
                    left,
                    above,
                    (2 + (mn + 61) % 64) as usize,
                    (2 + (mx - 1) % 64) as usize,
                    (2 + (mn + 60) % 64) as usize,
                ]
            } else if d >= 62 {
                seq![
                    left,
                    above,
                    (2 + (mn - 1) % 64) as usize,
                    (2 + (mx + 61) % 64) as usize,
                    (2 + mn % 64) as usize,
                ]
            } else if d == 2 {
                seq![
                    left,
                    above,
                    (2 + (mn - 1) % 64) as usize,
                    (2 + (mn + 61) % 64) as usize,
                    (2 + (mx - 1) % 64) as usize,
                ]
            } else {
                seq![
                    left,
                    above,
                    (2 + (mn + 61) % 64) as usize,
                    (2 + (mn - 1) % 64) as usize,
                    (2 + (mx + 61) % 64) as usize,
                ]
            }
        } else {
            seq![
                mx,
                (2 + (mx + 61) % 64) as usize,
                (2 + (mx - 1) % 64) as usize,
                (2 + (mx + 60) % 64) as usize,
                (2 + mx % 64) as usize,
            ]
        }
    } else {
        seq![1usize, 50, 18, 46, 54]
    }
}

/// The number of entries of `s` below `m`.
pub open spec fn count_below(s: Seq<usize>, m: usize) -> nat
    decreases s.len(),
{
    if s.len() == 0 {
        0
    } else {
        count_below(s.drop_last(), m) + if s.last() < m {
            1nat
        } else {
            0nat
        }
    }
}

/// The candidate mode a neighbouring coding unit contributes: its luma mode when it
/// is intra coded without matrix prediction, planar otherwise.
pub open spec fn neighbour_cand_mode(cu: Option<CodingUnit>) -> usize {
    match cu {
        Some(c) => if c.pred_mode[0] != ModeType::MODE_INTRA || c.intra_mip_flag {
            0
        } else {
            c.intra_pred_mode[0].spec_value()
        },
        None => 0,
    }
}

/// `intra_luma_mpm_flag`, `intra_luma_mpm_idx` and `intra_luma_mpm_remainder` for
/// luma mode `mode` with candidate modes `left` and `above`.
pub open spec fn mpm_syntax(mode: usize, left: usize, above: usize) -> (bool, usize, usize) {
    let l = mpm_list(left, above);
    if mode == 0 {
        (true, 0, 0)
    } else if l.contains(mode) {
        (true, l.index_of(mode) as usize, 0)
    } else {
        (false, 0, (mode - 1 - count_below(l, mode)) as usize)
    }
}

/// A luma intra mode: planar, DC or one of the angular modes.
pub open spec fn luma_mode_ok(m: usize) -> bool {
    m <= 66
}

/// Five values, pairwise distinct, each from 1 to 66.
pub open spec fn distinct_modes(a: int, b: int, c: int, d: int, e: int) -> bool {
    &&& a != b && a != c && a != d && a != e
    &&& b != c && b != d && b != e
    &&& c != d && c != e
    &&& d != e
    &&& 1 <= a <= 66 && 1 <= b <= 66 && 1 <= c <= 66 && 1 <= d <= 66 && 1 <= e <= 66
}

/// For a mode `m` from 2 to 66: (m + 61) % 64, (m - 1) % 64, (m + 60) % 64 and m % 64.
proof fn lemma_mod64(m: int)
    requires
        2 <= m <= 66,
    ensures
        (m + 61) % 64 == if m >= 3 { m - 3 } else { m + 61 },
        (m - 1) % 64 == if m <= 64 { m - 1 } else { m - 65 },
        (m + 60) % 64 == if m >= 4 { m - 4 } else { m + 60 },
        m % 64 == if m < 64 { m } else { m - 64 },
{
}

proof fn lemma_mpm_same(l: int)
    requires
        2 <= l <= 66,
    ensures
        distinct_modes(l, 2 + (l + 61) % 64, 2 + (l - 1) % 64, 2 + (l + 60) % 64, 2 + l % 64),
{
    lemma_mod64(l);
}

proof fn lemma_mpm_two(l: int, a: int, mn: int, mx: int)
    requires
        2 <= l <= 66,
        2 <= a <= 66,
        l != a,
        mn == if l < a { l } else { a },
        mx == if l < a { a } else { l },
    ensures
        mx - mn == 1 ==> distinct_modes(l, a, 2 + (mn + 61) % 64, 2 + (mx - 1) % 64, 2 + (mn + 60) % 64),
        mx - mn >= 62 ==> distinct_modes(l, a, 2 + (mn - 1) % 64, 2 + (mx + 61) % 64, 2 + mn % 64),
        mx - mn == 2 ==> distinct_modes(l, a, 2 + (mn - 1) % 64, 2 + (mn + 61) % 64, 2 + (mx - 1) % 64),
        (mx - mn != 1 && mx - mn < 62 && mx - mn != 2) ==> distinct_modes(
            l,
            a,
            2 + (mn + 61) % 64,
            2 + (mn - 1) % 64,
            2 + (mx + 61) % 64,
        ),
{
    lemma_mod64(mn);
    lemma_mod64(mx);
}

proof fn lemma_mpm_one(mx: int)
    requires
        2 <= mx <= 66,
    ensures
        distinct_modes(mx, 2 + (mx + 61) % 64, 2 + (mx - 1) % 64, 2 + (mx + 60) % 64, 2 + mx % 64),
{
    lemma_mod64(mx);
}

proof fn lemma_mpm_list_shape(left: usize, above: usize)
    requires
        luma_mode_ok(left),
        luma_mode_ok(above),
    ensures
        mpm_list(left, above).len() == 5,
        distinct_modes(
            mpm_list(left, above)[0] as int,
            mpm_list(left, above)[1] as int,
            mpm_list(left, above)[2] as int,
            mpm_list(left, above)[3] as int,
            mpm_list(left, above)[4] as int,
        ),
{
    let l = left as int;
    let a = above as int;
    if left == above && left > 1 {
        lemma_mpm_same(l);
    } else if left != above && (left > 1 || above > 1) {
        let mn = if l < a { l } else { a };
        let mx = if l < a { a } else { l };
        if mn > 1 {
            lemma_mpm_two(l, a, mn, mx);
        } else {
            lemma_mpm_one(mx);
        }
    }
}

proof fn lemma_count_below_bound(s: Seq<usize>, m: usize)
    requires
        s.len() == 5,
        m >= 1,
        distinct_modes(s[0] as int, s[1] as int, s[2] as int, s[3] as int, s[4] as int),
        !s.contains(m),
    ensures
        count_below(s, m) <= m - 1,
        count_below(s, m) <= 5,
{
    let a = s[0];
    let b = s[1];
    let c = s[2];
    let d = s[3];
    let e = s[4];
    assert(s[0] != m && s[1] != m && s[2] != m && s[3] != m && s[4] != m);
    assert(s.drop_last().drop_last().drop_last().drop_last().drop_last().len() == 0);
    assert(count_below(s, m) == (if a < m { 1nat } else { 0nat }) + (if b < m { 1nat } else { 0nat }) + (if c
        < m { 1nat } else { 0nat }) + (if d < m { 1nat } else { 0nat }) + (if e < m { 1nat } else { 0nat }))
        by {
        reveal_with_fuel(count_below, 6);
        assert(s.drop_last().last() == d);
        assert(s.drop_last().drop_last().last() == c);
        assert(s.drop_last().drop_last().drop_last().last() == b);
        assert(s.drop_last().drop_last().drop_last().drop_last().last() == a);
    }
}

impl CodingUnit {
    /// `intra_luma_mpm_flag`, `intra_luma_mpm_idx` and `intra_luma_mpm_remainder` of
    /// this unit's luma mode, given the coding units left of its bottom-left sample
    /// and above its top-right sample and the coding tree unit size; the above
    /// neighbour counts only within the same coding tree unit row.
    #[verifier::loop_isolation(false)]
    pub fn get_intra_luma_mpm_flag_and_idx_and_remainder(
        &self,
        left_cu: Option<&CodingUnit>,
        above_cu: Option<&CodingUnit>,
        log2_ctu_size: usize,
    ) -> (r: (bool, usize, usize))
        requires
            log2_ctu_size < usize::BITS,
            luma_mode_ok(self.intra_pred_mode[0].spec_value()),
            left_cu matches Some(c) ==> luma_mode_ok(c.intra_pred_mode[0].spec_value()),
            above_cu matches Some(c) ==> luma_mode_ok(c.intra_pred_mode[0].spec_value()),
        ensures
            ({
                let left = neighbour_cand_mode(
                    match left_cu {
                        Some(c) => Some(*c),
                        None => None,
                    },
                );
                let above = if self.y <= ((self.y >> log2_ctu_size) << log2_ctu_size) {
                    0
                } else {
                    neighbour_cand_mode(
                        match above_cu {
                            Some(c) => Some(*c),
                            None => None,
                        },
                    )
                };
                r == mpm_syntax(self.intra_pred_mode[0].spec_value(), left, above)
            }),
    {
        if self.intra_pred_mode[0] == IntraPredMode::PLANAR {
            return (true, 0, 0);
        }
        let left: usize = match left_cu {
            Some(cu) => if cu.pred_mode[0] != ModeType::MODE_INTRA || cu.intra_mip_flag {
                0
            } else {
                cu.intra_pred_mode[0].value()
            },
            None => 0,
        };
        let row_top = (self.y >> log2_ctu_size) << log2_ctu_size;
        let above: usize = if self.y <= row_top {
            0
        } else {
            match above_cu {
                Some(cu) => if cu.pred_mode[0] != ModeType::MODE_INTRA || cu.intra_mip_flag {
                    0
                } else {
                    cu.intra_pred_mode[0].value()
                },
                None => 0,
            }
        };
        let cand = mpm_cand_list(left, above);
        let mode = self.intra_pred_mode[0].value();
        proof {
            lemma_mpm_list_shape(left, above);
        }
        let mut i: usize = 0;
        while i < 5
            invariant
                i <= 5,
                cand@ == mpm_list(left, above),
                forall|j: int| 0 <= j < i ==> cand@[j] != mode,
            decreases 5 - i,
        {
            if cand[i] == mode {
                proof {
                    assert(cand@[i as int] == mode);
                    assert(cand@.contains(mode));
                    let j = cand@.index_of(mode);
                    assert(cand@[j] == mode);
                    assert(j == i);
                }
                return (true, i, 0);
            }
            i += 1;
        }
        proof {
            assert(!cand@.contains(mode));
            lemma_count_below_bound(cand@, mode);
        }
        let mut count: usize = 0;
        let mut k: usize = 0;
        while k < 5
            invariant
                k <= 5,
                cand@ == mpm_list(left, above),
                count == count_below(cand@.subrange(0, k as int), mode),
                count <= k,
            decreases 5 - k,
        {
            proof {
                assert(cand@.subrange(0, k + 1).drop_last() =~= cand@.subrange(0, k as int));
            }
            if cand[k] < mode {
                count += 1;
            }
            k += 1;
        }
        proof {
            assert(cand@.subrange(0, 5) =~= cand@);
        }
        (false, 0, mode - 1 - count)
    }
}

fn mpm_cand_list(left: usize, above: usize) -> (r: Vec<usize>)
    requires
        luma_mode_ok(left),
        luma_mode_ok(above),
    ensures
        r@ == mpm_list(left, above),
{
    let r = if left == above && left > 1 {
        vec![left, 2 + (left + 61) % 64, 2 + (left - 1) % 64, 2 + (left + 60) % 64, 2 + left % 64]
    } else if left != above && (left > 1 || above > 1) {
        let mn = if left < above {
            left
        } else {
            above
        };
        let mx = if left < above {
            above
        } else {
            left
        };
        if mn > 1 {
            let d = mx - mn;
            if d == 1 {
                vec![left, above, 2 + (mn + 61) % 64, 2 + (mx - 1) % 64, 2 + (mn + 60) % 64]
            } else if d >= 62 {
                vec![left, above, 2 + (mn - 1) % 64, 2 + (mx + 61) % 64, 2 + mn % 64]
            } else if d == 2 {
                vec![left, above, 2 + (mn - 1) % 64, 2 + (mn + 61) % 64, 2 + (mx - 1) % 64]
            } else {
                vec![left, above, 2 + (mn + 61) % 64, 2 + (mn - 1) % 64, 2 + (mx + 61) % 64]
            }
        } else {
            vec![mx, 2 + (mx + 61) % 64, 2 + (mx - 1) % 64, 2 + (mx + 60) % 64, 2 + mx % 64]
        }
    } else {
        vec![1, 50, 18, 46, 54]
    };
    assert(r@ =~= mpm_list(left, above));
    r
}

/// The luma mode the chroma mode derivation starts from, for `cu` with luma mode
/// `luma`: planar for matrix prediction, DC for intra block copy and palette units,
/// `luma` otherwise.
pub open spec fn chroma_base_luma_mode(cu: CodingUnit, luma: IntraPredMode) -> IntraPredMode {
    if cu.intra_mip_flag {
        IntraPredMode::PLANAR
    } else if cu.pred_mode[0] == ModeType::MODE_IBC || cu.pred_mode[0] == ModeType::MODE_PLT {
        IntraPredMode::DC
    } else {
        luma
    }
}

/// The number of the chroma intra mode (Table 20) of `cu` with intra modes `modes`:
/// the luma mode under adaptive colour transform, horizontal or vertical for BDPCM,
/// the CCLM mode `modes[1]`, or `intra_chroma_pred_mode` mapped against the luma
/// mode (66 where they coincide).
pub open spec fn chroma_mode_value(cu: CodingUnit, modes: [IntraPredMode; 3]) -> usize {
    let x = chroma_base_luma_mode(cu, modes[0]).spec_value();
    let m1 = modes[1].spec_value();
    if cu.act_enabled_flag {
        x
    } else if cu.spec_bdpcm_flag(1) {
        if cu.intra_bdpcm_chroma_dir_flag {
            50
        } else {
            18
        }
    } else if 81 <= m1 <= 83 {
        m1
    } else if cu.intra_chroma_pred_mode == 0 {
        if x == 0 {
            66
        } else {
            0
        }
    } else if cu.intra_chroma_pred_mode == 1 {
        if x == 50 {
            66
        } else {
            50
        }
    } else if cu.intra_chroma_pred_mode == 2 {
        if x == 18 {
            66
        } else {
            18
        }
    } else if cu.intra_chroma_pred_mode == 3 {
        if x == 1 {
            66
        } else {
            1
        }
    } else {
        x
    }
}

/// The chroma mode of `cu` were its intra modes `modes`.
fn chroma_mode_for(cu: &CodingUnit, modes: [IntraPredMode; 3]) -> (r: IntraPredMode)
    requires
        cu.intra_chroma_pred_mode <= 4,
    ensures
        r.spec_value() == chroma_mode_value(*cu, modes),
{
    let intra_luma_pred_mode = if cu.intra_mip_flag {
        IntraPredMode::PLANAR
    } else if cu.pred_mode[0] == ModeType::MODE_IBC || cu.pred_mode[0] == ModeType::MODE_PLT {
        IntraPredMode::DC
    } else {
        modes[0]
    };
    proof {
        lemma_mode_value_valid(intra_luma_pred_mode);
    }
    if cu.act_enabled_flag {
        intra_luma_pred_mode
    } else if cu.get_bdpcm_flag(1) {
        if cu.get_bdpcm_dir(1) {
            IntraPredMode::ANGULAR50
        } else {
            IntraPredMode::ANGULAR18
        }
    } else {
        let x = intra_luma_pred_mode.value();
        let m1 = modes[1].value();
        let pred_mode_idx: usize = if 81 <= m1 && m1 <= 83 {
            m1
        } else {
            match cu.intra_chroma_pred_mode {
                0 => if x == 0 {
                    66
                } else {
                    0
                },
                1 => if x == 50 {
                    66
                } else {
                    50
                },
                2 => if x == 18 {
                    66
                } else {
                    18
                },
                3 => if x == 1 {
                    66
                } else {
                    1
                },
                _ => x,
            }
        };
        match IntraPredMode::from_usize(pred_mode_idx) {
            Some(m) => m,
            None => IntraPredMode::PLANAR,
        }
    }
}

proof fn lemma_mode_value_valid(m: IntraPredMode)
    ensures
        m.spec_value() <= 66 || 81 <= m.spec_value() <= 83,
{
}

impl CodingUnit {
    /// The chroma intra mode of this unit and whether it is the direct mode of a
    /// matrix-predicted unit (never, here).
    pub fn get_intra_chroma_pred_mode_and_mip_chroma_direct_mode_flag(&self) -> (r: (IntraPredMode, bool))
        requires
            self.intra_chroma_pred_mode <= 4,
        ensures
            r.0.spec_value() == chroma_mode_value(*self, self.intra_pred_mode),
            !r.1,
    {
        let mip_chroma_direct_mode_flag = false;
        (chroma_mode_for(self, self.intra_pred_mode), mip_chroma_direct_mode_flag)
    }
}

/// Transform unit `u` is reached from transform tree node `t` through children
/// down to a node without children that lists it.
pub open spec fn tt_covers_tu(c: CodingTreeUnit, t: int, u: int) -> bool
    decreases c.transform_trees@.len() - t,
{
    if 0 <= t < c.transform_trees@.len() {
        let tt = c.transform_trees@[t];
        if tt.tts@.len() == 0 {
            tt.tus@.contains(u as usize)
        } else {
            exists|j: int|
                0 <= j < tt.tts@.len() && t < #[trigger] tt.tts@[j] < c.transform_trees@.len()
                    && tt_covers_tu(c, tt.tts@[j] as int, u)
        }
    } else {
        false
    }
}

/// The arenas of `b` are those of `a` with the coding unit properties held by the
/// transform units covered from node `t` set to `modes`.
pub open spec fn tu_modes_set(a: CodingTreeUnit, b: CodingTreeUnit, t: int, modes: [IntraPredMode; 3]) -> bool {
    &&& b.transform_units@.len() == a.transform_units@.len()
    &&& forall|u: int|
        0 <= u < a.transform_units@.len() ==> #[trigger] b.transform_units@[u] == if tt_covers_tu(a, t, u) {
            TransformUnit { cu_intra_pred_mode: modes, ..a.transform_units@[u] }
        } else {
            a.transform_units@[u]
        }
    &&& b.coding_trees == a.coding_trees
    &&& b.coding_units == a.coding_units
    &&& b.transform_trees == a.transform_trees
    &&& b.same_unit(a)
}

impl TransformTree {
    /// Sets the coding unit's intra modes held by every transform unit under node `t`.
    pub fn set_cu_intra_pred_mode(ctu: &mut CodingTreeUnit, t: usize, intra_pred_mode: [IntraPredMode; 3])
        requires
            old(ctu).wf(),
            t < old(ctu).transform_trees@.len(),
        ensures
            final(ctu).wf(),
            tu_modes_set(*old(ctu), *final(ctu), t as int, intra_pred_mode),
        decreases old(ctu).transform_trees@.len() - t,
    {
        proof {
            assert(ctu.tt_ok(t as int));
        }
        let ghost o = *ctu;
        let n_tts = ctu.transform_trees[t].tts.len();
        if n_tts == 0 {
            let n = ctu.transform_trees[t].tus.len();
            let mut j: usize = 0;
            while j < n
                invariant
                    o.wf(),
                    t < o.transform_trees@.len(),
                    o.transform_trees@[t as int].tts@.len() == 0,
                    n == o.transform_trees@[t as int].tus@.len(),
                    j <= n,
                    ctu.wf(),
                    ctu.coding_trees == o.coding_trees,
                    ctu.coding_units == o.coding_units,
                    ctu.transform_trees == o.transform_trees,
                    ctu.same_unit(o),
                    ctu.transform_units@.len() == o.transform_units@.len(),
                    forall|u: int|
                        0 <= u < o.transform_units@.len() ==> #[trigger] ctu.transform_units@[u]
                            == if exists|w: int| 0 <= w < j && #[trigger] o.transform_trees@[t as int].tus@[w] == u as usize {
                            TransformUnit { cu_intra_pred_mode: intra_pred_mode, ..o.transform_units@[u] }
                        } else {
                            o.transform_units@[u]
                        },
                decreases n - j,
            {
                let u = ctu.transform_trees[t].tus[j];
                proof {
                    assert(o.tt_ok(t as int));
                }
                let ghost before = *ctu;
                ctu.transform_units[u].cu_intra_pred_mode = intra_pred_mode;
                proof {
                    let tus = o.transform_trees@[t as int].tus@;
                    assert forall|u2: int| 0 <= u2 < o.transform_units@.len() implies #[trigger] ctu.transform_units@[u2]
                        == if exists|w: int| 0 <= w < j + 1 && #[trigger] tus[w] == u2 as usize {
                        TransformUnit { cu_intra_pred_mode: intra_pred_mode, ..o.transform_units@[u2] }
                    } else {
                        o.transform_units@[u2]
                    } by {
                        assert(tus[j as int] == u as usize);
                        assert(0 <= u2 < usize::MAX) by {
                            assert(ctu.transform_units.len() == ctu.transform_units@.len());
                        }
                        if u2 == u {
                            assert(tus[j as int] == u2 as usize);
                        } else {
                            if exists|w: int| 0 <= w < j + 1 && #[trigger] tus[w] == u2 as usize {
                                let w = choose|w: int| 0 <= w < j + 1 && #[trigger] tus[w] == u2 as usize;
                                assert(w < j);
                            }
                        }
                    }
                    assert forall|u2: int| 0 <= u2 < ctu.transform_units@.len() implies #[trigger] ctu.tu_ok(u2) by {
                        assert(before.tu_ok(u2));
                    }
                    assert forall|t2: int| 0 <= t2 < ctu.transform_trees@.len() implies #[trigger] ctu.tt_ok(t2) by {
                        assert(before.tt_ok(t2));
                    }
                    assert forall|i2: int| 0 <= i2 < ctu.coding_trees@.len() implies #[trigger] ctu.ct_ok(i2) by {
                        assert(before.ct_ok(i2));
                    }
                    assert forall|k2: int| 0 <= k2 < ctu.coding_units@.len() implies #[trigger] ctu.cu_ok(k2) by {
                        assert(before.cu_ok(k2));
                    }
                    assert forall|d: int| 0 <= d < ctu.dtiqs_nodes@.len() implies #[trigger] ctu.dtiqs_ok(d) by {
                        assert(before.dtiqs_ok(d));
                    }
                }
                j += 1;
            }
            proof {
                let tus = o.transform_trees@[t as int].tus@;
                assert forall|u: int| 0 <= u < o.transform_units@.len() implies tt_covers_tu(o, t as int, u)
                    == exists|w: int| 0 <= w < n && #[trigger] tus[w] == u as usize by {
                    if tus.contains(u as usize) {
                        let w = choose|w: int| 0 <= w < tus.len() && tus[w] == u as usize;
                        assert(tus[w] == u as usize);
                    }
                }
            }
        } else {
            let mut j: usize = 0;
            while j < n_tts
                invariant
                    o.wf(),
                    t < o.transform_trees@.len(),
                    n_tts == o.transform_trees@[t as int].tts@.len(),
                    n_tts > 0,
                    o.transform_trees@.len() == old(ctu).transform_trees@.len(),
                    j <= n_tts,
                    ctu.wf(),
                    ctu.coding_trees == o.coding_trees,
                    ctu.coding_units == o.coding_units,
                    ctu.transform_trees == o.transform_trees,
                    ctu.same_unit(o),
                    ctu.transform_units@.len() == o.transform_units@.len(),
                    forall|u: int|
                        0 <= u < o.transform_units@.len() ==> #[trigger] ctu.transform_units@[u] == if exists|w: int|
                            0 <= w < j && tt_covers_tu(o, #[trigger] o.transform_trees@[t as int].tts@[w] as int, u) {
                            TransformUnit { cu_intra_pred_mode: intra_pred_mode, ..o.transform_units@[u] }
                        } else {
                            o.transform_units@[u]
                        },
                decreases n_tts - j,
            {
                let ch = ctu.transform_trees[t].tts[j];
                proof {
                    assert(o.tt_ok(t as int));
                }
                let ghost before = *ctu;
                proof {
                    assert(t < ch < o.transform_trees@.len());
                }
                TransformTree::set_cu_intra_pred_mode(ctu, ch, intra_pred_mode);
                proof {
                    let kids = o.transform_trees@[t as int].tts@;
                    assert forall|u: int| 0 <= u < o.transform_units@.len() implies #[trigger] ctu.transform_units@[u]
                        == if exists|w: int| 0 <= w < j + 1 && tt_covers_tu(o, #[trigger] kids[w] as int, u) {
                        TransformUnit { cu_intra_pred_mode: intra_pred_mode, ..o.transform_units@[u] }
                    } else {
                        o.transform_units@[u]
                    } by {
                        assert(before.transform_units@[u] == ctu.transform_units@[u] || tt_covers_tu(
                            before,
                            ch as int,
                            u,
                        ));
                        lemma_covers_same(before, o, ch as int, u);
                        if tt_covers_tu(o, ch as int, u) {
                            assert(kids[j as int] == ch);
                        }
                        if exists|w: int| 0 <= w < j + 1 && tt_covers_tu(o, #[trigger] kids[w] as int, u) {
                            if !tt_covers_tu(o, ch as int, u) {
                                let w = choose|w: int| 0 <= w < j + 1 && tt_covers_tu(o, #[trigger] kids[w] as int, u);
                                assert(w < j);
                            }
                        }
                    }
                }
                j += 1;
            }
            proof {
                let kids = o.transform_trees@[t as int].tts@;
                assert forall|u: int| 0 <= u < o.transform_units@.len() implies tt_covers_tu(o, t as int, u)
                    == exists|w: int| 0 <= w < n_tts && tt_covers_tu(o, #[trigger] kids[w] as int, u) by {
                    assert(o.tt_ok(t as int));
                    if tt_covers_tu(o, t as int, u) {
                        let w = choose|w: int|
                            0 <= w < kids.len() && t < #[trigger] kids[w] < o.transform_trees@.len()
                                && tt_covers_tu(o, kids[w] as int, u);
                        assert(tt_covers_tu(o, kids[w] as int, u));
                    }
                    if exists|w: int| 0 <= w < n_tts && tt_covers_tu(o, #[trigger] kids[w] as int, u) {
                        let w = choose|w: int| 0 <= w < n_tts && tt_covers_tu(o, #[trigger] kids[w] as int, u);
                        assert(t < kids[w] < o.transform_trees@.len());
                    }
                }
            }
        }
    }
}

/// Coverage depends only on the transform tree arena.
proof fn lemma_covers_same(a: CodingTreeUnit, b: CodingTreeUnit, t: int, u: int)
    requires
        a.transform_trees == b.transform_trees,
    ensures
        tt_covers_tu(a, t, u) == tt_covers_tu(b, t, u),
    decreases a.transform_trees@.len() - t,
{
    if 0 <= t < a.transform_trees@.len() {
        let tt = a.transform_trees@[t];
        if tt.tts@.len() > 0 {
            assert forall|j: int| 0 <= j < tt.tts@.len() && t < #[trigger] tt.tts@[j] < a.transform_trees@.len()
                implies tt_covers_tu(a, tt.tts@[j] as int, u) == tt_covers_tu(b, tt.tts@[j] as int, u) by {
                lemma_covers_same(a, b, tt.tts@[j] as int, u);
            }
        }
    }
}

impl CodingUnit {
    /// Sets the intra modes of coding unit `k`: luma and the chroma mode derived from
    /// it, and `intra_pred_mode` as given for the transform units of its tree.
    pub fn set_intra_pred_mode(ctu: &mut CodingTreeUnit, k: usize, intra_pred_mode: [IntraPredMode; 3])
        requires
            old(ctu).wf(),
            k < old(ctu).coding_units@.len(),
            old(ctu).coding_units@[k as int].transform_tree is Some,
            old(ctu).coding_units@[k as int].intra_chroma_pred_mode <= 4,
        ensures
            final(ctu).wf(),
            ({
                let cu = final(ctu).coding_units@[k as int];
                &&& cu.intra_pred_mode[0] == intra_pred_mode[0]
                &&& cu.intra_pred_mode[1] == cu.intra_pred_mode[2]
                &&& cu.intra_pred_mode[1].spec_value() == chroma_mode_value(
                    old(ctu).coding_units@[k as int],
                    intra_pred_mode,
                )
                &&& cu.parent == old(ctu).coding_units@[k as int].parent
                &&& cu.transform_tree == old(ctu).coding_units@[k as int].transform_tree
            }),
            final(ctu).coding_units@ == old(ctu).coding_units@.update(k as int, final(ctu).coding_units@[k as int]),
            tu_modes_set(
                old(ctu).with_coding_units(final(ctu).coding_units),
                *final(ctu),
                old(ctu).coding_units@[k as int].transform_tree.unwrap() as int,
                intra_pred_mode,
            ),
    {
        proof {
            assert(ctu.cu_ok(k as int));
        }
        let ghost o = *ctu;
        let chroma = chroma_mode_for(&ctu.coding_units[k], intra_pred_mode);
        let t = match ctu.coding_units[k].transform_tree {
            Some(t) => t,
            None => 0,
        };
        ctu.coding_units[k].intra_pred_mode = [intra_pred_mode[0], chroma, chroma];
        proof {
            lemma_wf_cu_replaced(o, *ctu, k as int);
            assert(ctu.coding_units@ =~= o.coding_units@.update(k as int, ctu.coding_units@[k as int]));
        }
        let ghost mid = *ctu;
        TransformTree::set_cu_intra_pred_mode(ctu, t, intra_pred_mode);
        proof {
            assert(mid == o.with_coding_units(mid.coding_units));
        }
    }
}

impl CodingTreeUnit {
    /// This unit with coding unit arena `cus`.
    pub open spec fn with_coding_units(self, cus: Vec<CodingUnit>) -> CodingTreeUnit {
        CodingTreeUnit { coding_units: cus, ..self }
    }
}

/// Replacing a coding unit by one with the same links keeps the arenas well formed.
proof fn lemma_wf_cu_replaced(o: CodingTreeUnit, c: CodingTreeUnit, k: int)
    requires
        o.wf(),
        0 <= k < o.coding_units@.len(),
        c.coding_units@.len() == o.coding_units@.len(),
        forall|k2: int| 0 <= k2 < o.coding_units@.len() && k2 != k ==> #[trigger] c.coding_units@[k2] == o.coding_units@[k2],
        c.coding_units@[k].parent == o.coding_units@[k].parent,
        c.coding_units@[k].transform_tree == o.coding_units@[k].transform_tree,
        c.coding_trees == o.coding_trees,
        c.transform_trees == o.transform_trees,
        c.transform_units == o.transform_units,
        c.same_unit(o),
    ensures
        c.wf(),
{
    assert forall|i2: int| 0 <= i2 < c.coding_trees@.len() implies #[trigger] c.ct_ok(i2) by {
        assert(o.ct_ok(i2));
    }
    assert forall|k2: int| 0 <= k2 < c.coding_units@.len() implies #[trigger] c.cu_ok(k2) by {
        assert(o.cu_ok(k2));
    }
    assert forall|t2: int| 0 <= t2 < c.transform_trees@.len() implies #[trigger] c.tt_ok(t2) by {
        assert(o.tt_ok(t2));
    }
    assert forall|u2: int| 0 <= u2 < c.transform_units@.len() implies #[trigger] c.tu_ok(u2) by {
        assert(o.tu_ok(u2));
    }
    assert forall|d: int| 0 <= d < c.dtiqs_nodes@.len() implies #[trigger] c.dtiqs_ok(d) by {
        assert(o.dtiqs_ok(d));
    }
}

impl CodingTree {
    /// `CbSubdiv` of this node: the number of halvings of the width and the height
    /// from the coding tree unit's size (`ctu_width` by `ctu_height`).
    pub fn get_cb_subdiv(&self, ctu_width: usize, ctu_height: usize) -> (r: usize)
        requires
            0 < self.width <= ctu_width,
            0 < self.height <= ctu_height,
        ensures
            r == (crate::bits::bit_length(ctu_width as nat) - crate::bits::bit_length(self.width as nat))
                + (crate::bits::bit_length(ctu_height as nat) - crate::bits::bit_length(self.height as nat)),
    {
        proof {
            crate::bits::lemma_bit_length_bounds(ctu_width as nat);
            crate::bits::lemma_bit_length_bounds(self.width as nat);
            crate::bits::lemma_bit_length_bounds(ctu_height as nat);
            crate::bits::lemma_bit_length_bounds(self.height as nat);
            crate::bits::lemma_bit_length_mono(self.width as nat, ctu_width as nat);
            crate::bits::lemma_bit_length_mono(self.height as nat, ctu_height as nat);
        }
        ((ilog2(ctu_width) - ilog2(self.width)) + (ilog2(ctu_height) - ilog2(self.height))) as usize
    }

    /// The coding tree node of the coding unit found left of this node's top-left
    /// sample, given that unit.
    pub fn left_ct(&self, left_cu: Option<&CodingUnit>) -> (r: Option<usize>)
        ensures
            r == match left_cu {
                Some(cu) => Some(cu.parent),
                None => None,
            },
    {
        match left_cu {
            Some(cu) => Some(cu.parent),
            None => None,
        }
    }

    /// The coding tree node of the coding unit found above this node's top-left
    /// sample, given that unit.
    pub fn above_ct(&self, above_cu: Option<&CodingUnit>) -> (r: Option<usize>)
        ensures
            r == match above_cu {
                Some(cu) => Some(cu.parent),
                None => None,
            },
    {
        match above_cu {
            Some(cu) => Some(cu.parent),
            None => None,
        }
    }
}

/// Some coefficient of `p` in rows `y0..y1` and columns `x0..x1` (the latter
/// limited to the plane's width) is nonzero.
pub open spec fn any_nonzero(p: Vec2d<i16>, y0: int, y1: int, x0: int, x1: int) -> bool {
    exists|y: int, x: int|
        y0 <= y < y1 && x0 <= x < x1 && x < p.width && #[trigger] p.at(y, x) != 0
}

/// Scans rows `y0..y1`, columns `x0..x1` of `p` for a nonzero coefficient.
fn plane_has_nonzero(p: &Vec2d<i16>, y0: usize, y1: usize, x0: usize, x1: usize) -> (r: bool)
    requires
        p.wf(),
        y1 <= p.height,
    ensures
        r == any_nonzero(*p, y0 as int, y1 as int, x0 as int, x1 as int),
{
    let xe = if x1 < p.width {
        x1
    } else {
        p.width
    };
    let mut y = y0;
    while y < y1
        invariant
            p.wf(),
            y1 <= p.height,
            y0 <= y,
            xe == min_usize(x1, p.width),
            !any_nonzero(*p, y0 as int, y as int, x0 as int, x1 as int),
        decreases y1 - y,
    {
        let mut x = x0;
        while x < xe
            invariant
                p.wf(),
                y < y1 <= p.height,
                y0 <= y,
                xe == min_usize(x1, p.width),
                x0 <= x,
                !any_nonzero(*p, y0 as int, y as int, x0 as int, x1 as int),
                forall|x2: int| x0 <= x2 < x ==> #[trigger] p.at(y as int, x2) == 0,
            decreases xe - x,
        {
            if p.get(y, x) != 0 {
                assert(y0 <= y < y1 && x0 <= x < x1 && x < p.width && p.at(y as int, x as int) != 0);
                assert(any_nonzero(*p, y0 as int, y1 as int, x0 as int, x1 as int));
                return true;
            }
            x += 1;
        }
        proof {
            assert forall|y2: int, x2: int|
                y0 <= y2 < y + 1 && x0 <= x2 < x1 && x2 < p.width implies #[trigger] p.at(y2, x2) == 0 by {
                if y2 < y {
                    if p.at(y2, x2) != 0 {
                        assert(any_nonzero(*p, y0 as int, y as int, x0 as int, x1 as int));
                    }
                }
            }
        }
        y += 1;
    }
    false
}

impl TransformUnit {
    /// Some coefficient of the luma block is nonzero (never for a chroma tree).
    pub fn get_y_coded_flag(&self) -> (r: bool)
        requires
            self.tree_type != TreeType::DUAL_TREE_CHROMA ==> self.quantized_transformed_coeffs@.len() > 0
                && self.quantized_transformed_coeffs@[0].wf() && self.height
                <= self.quantized_transformed_coeffs@[0].height,
        ensures
            r == (self.tree_type != TreeType::DUAL_TREE_CHROMA && any_nonzero(
                self.quantized_transformed_coeffs@[0],
                0,
                self.height as int,
                0,
                self.width as int,
            )),
    {
        if self.tree_type == TreeType::DUAL_TREE_CHROMA {
            return false;
        }
        plane_has_nonzero(&self.quantized_transformed_coeffs[0], 0, self.height, 0, self.width)
    }

    /// Some coefficient of the Cb block is nonzero (never for a luma tree).
    pub fn get_cb_coded_flag(&self) -> (r: bool)
        requires
            self.tree_type != TreeType::DUAL_TREE_LUMA ==> self.quantized_transformed_coeffs@.len() > 1
                && self.quantized_transformed_coeffs@[1].wf() && self.height / 2
                <= self.quantized_transformed_coeffs@[1].height,
        ensures
            r == (self.tree_type != TreeType::DUAL_TREE_LUMA && any_nonzero(
                self.quantized_transformed_coeffs@[1],
                0,
                (self.height / 2) as int,
                0,
                (self.width / 2) as int,
            )),
    {
        if self.tree_type == TreeType::DUAL_TREE_LUMA {
            return false;
        }
        plane_has_nonzero(&self.quantized_transformed_coeffs[1], 0, self.height / 2, 0, self.width / 2)
    }

    /// Some coefficient of the Cr block is nonzero (never for a luma tree).
    pub fn get_cr_coded_flag(&self) -> (r: bool)
        requires
            self.tree_type != TreeType::DUAL_TREE_LUMA ==> self.quantized_transformed_coeffs@.len() > 2
                && self.quantized_transformed_coeffs@[2].wf() && self.height / 2
                <= self.quantized_transformed_coeffs@[2].height,
        ensures
            r == (self.tree_type != TreeType::DUAL_TREE_LUMA && any_nonzero(
                self.quantized_transformed_coeffs@[2],
                0,
                (self.height / 2) as int,
                0,
                (self.width / 2) as int,
            )),
    {
        if self.tree_type == TreeType::DUAL_TREE_LUMA {
            return false;
        }
        plane_has_nonzero(&self.quantized_transformed_coeffs[2], 0, self.height / 2, 0, self.width / 2)
    }

    /// Some coefficient of sub-block (x_s, y_s) of component `c_idx` is nonzero.
    pub fn get_sb_coded_flag(&self, c_idx: usize, x_s: usize, y_s: usize) -> (r: bool)
        requires
            c_idx < 3,
            c_idx < self.quantized_transformed_coeffs@.len(),
            self.quantized_transformed_coeffs@[c_idx as int].wf(),
            self.spec_log2_tb_size(c_idx).0 + self.spec_log2_tb_size(c_idx).1 <= usize::MAX,
            ({
                let (lw, lh) = sb_size(self.spec_log2_tb_size(c_idx).0, self.spec_log2_tb_size(c_idx).1);
                (y_s + 1) * pow2(lh as nat) <= self.quantized_transformed_coeffs@[c_idx as int].height
                    && (x_s + 1) * pow2(lw as nat) <= usize::MAX
            }),
        ensures
            ({
                let (lw, lh) = sb_size(self.spec_log2_tb_size(c_idx).0, self.spec_log2_tb_size(c_idx).1);
                r == any_nonzero(
                    self.quantized_transformed_coeffs@[c_idx as int],
                    y_s * pow2(lh as nat),
                    (y_s + 1) * pow2(lh as nat),
                    x_s * pow2(lw as nat),
                    (x_s + 1) * pow2(lw as nat),
                )
            }),
    {
        let (log2_w_s, log2_h_s) = self.get_log2_sb_size(c_idx);
        proof {
            assert(log2_w_s <= 4 && log2_h_s <= 4);
            vstd::arithmetic::power2::lemma2_to64();
            crate::bits::lemma_pow2_le(log2_w_s as nat, 4);
            crate::bits::lemma_pow2_le(log2_h_s as nat, 4);
            crate::bits::lemma_usize_shl_one(log2_w_s);
            crate::bits::lemma_usize_shl_one(log2_h_s);
            assert(y_s * pow2(log2_h_s as nat) <= (y_s + 1) * pow2(log2_h_s as nat)) by (nonlinear_arith);
            assert(x_s * pow2(log2_w_s as nat) <= (x_s + 1) * pow2(log2_w_s as nat)) by (nonlinear_arith);
            vstd::bits::lemma_usize_shl_is_mul(y_s, log2_h_s);
            vstd::bits::lemma_usize_shl_is_mul(x_s, log2_w_s);
        }
        let w_s: usize = 1 << log2_w_s;
        let h_s: usize = 1 << log2_h_s;
        let y0 = y_s << log2_h_s;
        let x0 = x_s << log2_w_s;
        proof {
            assert((y_s + 1) * pow2(log2_h_s as nat) == y_s * pow2(log2_h_s as nat) + pow2(log2_h_s as nat))
                by (nonlinear_arith);
            assert((x_s + 1) * pow2(log2_w_s as nat) == x_s * pow2(log2_w_s as nat) + pow2(log2_w_s as nat))
                by (nonlinear_arith);
        }
        plane_has_nonzero(&self.quantized_transformed_coeffs[c_idx], y0, y0 + h_s, x0, x0 + w_s)
    }
}

/// The positions (x, y) of anti-diagonal `d` of a `w` by `h` block, from `x` on,
/// bottom-left first.
pub open spec fn diag_line_from(w: int, h: int, d: int, x: int) -> Seq<(usize, usize)>
    decreases d + 1 - x,
{
    if x > d || x < 0 {
        Seq::empty()
    } else {
        let rest = diag_line_from(w, h, d, x + 1);
        if x < w && d - x < h {
            seq![(x as usize, (d - x) as usize)] + rest
        } else {
            rest
        }
    }
}

/// The up-right diagonal scan of a `w` by `h` block over its first `n` anti-diagonals.
pub open spec fn diag_scan(w: int, h: int, n: int) -> Seq<(usize, usize)>
    decreases n,
{
    if n <= 0 {
        Seq::empty()
    } else {
        diag_scan(w, h, n - 1) + diag_line_from(w, h, n - 1, 0)
    }
}

/// The up-right diagonal scan order of a `2^log2_w` by `2^log2_h` block: the
/// positions (x, y) anti-diagonal by anti-diagonal, each from bottom left to top right.
pub fn diag_scan_order(log2_w: usize, log2_h: usize) -> (r: Vec<(usize, usize)>)
    requires
        log2_w <= 4,
        log2_h <= 4,
    ensures
        r@ == diag_scan(pow2(log2_w as nat) as int, pow2(log2_h as nat) as int, pow2(log2_w as nat) + pow2(log2_h as nat) - 1),
{
    proof {
        crate::bits::lemma_usize_shl_one(log2_w);
        crate::bits::lemma_usize_shl_one(log2_h);
        crate::bits::lemma_pow2_le(log2_w as nat, 4);
        crate::bits::lemma_pow2_le(log2_h as nat, 4);
        vstd::arithmetic::power2::lemma2_to64();
    }
    let w: usize = 1 << log2_w;
    let h: usize = 1 << log2_h;
    let mut order: Vec<(usize, usize)> = Vec::new();
    let mut d: usize = 0;
    while d < w + h - 1
        invariant
            1 <= w <= 16,
            1 <= h <= 16,
            d <= w + h - 1,
            order@ == diag_scan(w as int, h as int, d as int),
        decreases w + h - 1 - d,
    {
        let ghost before = order@;
        let mut x: usize = 0;
        while x <= d
            invariant
                1 <= w <= 16,
                1 <= h <= 16,
                d < w + h - 1,
                x <= d + 1,
                order@ + diag_line_from(w as int, h as int, d as int, x as int) == before + diag_line_from(
                    w as int,
                    h as int,
                    d as int,
                    0,
                ),
            decreases d + 1 - x,
        {
            let y = d - x;
            if x < w && y < h {
                order.push((x, y));
            }
            proof {
                let rest = diag_line_from(w as int, h as int, d as int, x + 1);
                if x < w && y < h {
                    assert(order@ + rest =~= order@.drop_last() + (seq![(x, y)] + rest));
                }
            }
            x += 1;
        }
        proof {
            assert(diag_line_from(w as int, h as int, d as int, x as int) =~= Seq::<(usize, usize)>::empty());
            assert(order@ =~= before + diag_line_from(w as int, h as int, d as int, 0));
        }
        d += 1;
    }
    order
}

} // verus!
