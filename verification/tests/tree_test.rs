use vvcenc::common::{ChromaFormat, ModeType, MttSplitMode, SliceType};
use vvcenc::tree_split::mode_type_condition;
use vvcenc::ctu::{CodingTree, CodingTreeUnit, CodingUnit, TileGeometry, TransformTree, TransformUnit};

fn tile() -> TileGeometry {
    TileGeometry { ctu_col: 0, ctu_row: 0, num_ctu_cols: 2, num_ctu_rows: 2, log2_ctu_size: 4 }
}

#[test]
fn placing_in_a_tile_sets_every_node() {
    let mut ctu = CodingTreeUnit::new_arc_mutex(16, 0, 4, 4, None, None);
    assert_eq!(ctu.width_tile, 0);
    let t = TileGeometry { ctu_col: 1, ctu_row: 2, num_ctu_cols: 3, num_ctu_rows: 4, log2_ctu_size: 4 };
    ctu.set_tile(t);
    assert_eq!((ctu.x_tile, ctu.y_tile, ctu.width_tile, ctu.height_tile), (16, 32, 48, 64));
    assert_eq!(ctu.coding_trees[0].width_tile, 48);
    assert_eq!(ctu.coding_units[0].height_tile, 64);
    assert_eq!(ctu.transform_trees[0].x_tile, 16);
    assert_eq!(ctu.transform_units[0].y_tile, 32);
    assert!(ctu.transform_units[0].tile.is_some());
    // Placing twice changes nothing more.
    ctu.set_tile(t);
    assert_eq!((ctu.x_tile, ctu.y_tile, ctu.width_tile, ctu.height_tile), (16, 32, 48, 64));
    assert_eq!(ctu.coding_units[0].x_tile, 16);
}

#[test]
fn node_placement() {
    let mut ctu = CodingTreeUnit::new_arc_mutex(0, 0, 4, 4, None, None);
    ctu.transform_units[0].set_tile(tile());
    assert_eq!(ctu.transform_units[0].width_tile, 32);
    assert_eq!(ctu.transform_trees[0].width_tile, 0);
    ctu.coding_units[0].set_tile(tile());
    assert_eq!(ctu.coding_units[0].height_tile, 32);
    ctu.coding_trees[0].set_tile(tile());
    ctu.transform_trees[0].set_tile(tile());
    assert_eq!(ctu.coding_trees[0].x_tile, 0);
    assert_eq!(ctu.transform_trees[0].height_tile, 32);
}

#[test]
fn no_neighbours_at_the_top_left_of_a_tile() {
    let mut ctu = CodingTreeUnit::new_arc_mutex(0, 0, 4, 4, Some(tile()), None);
    assert!(!TransformUnit::is_below_left_available(&mut ctu, 0));
    assert!(!TransformUnit::is_above_right_available(&mut ctu, 0));
    // Every node on the way records its answer.
    assert_eq!(ctu.transform_units[0].below_left_available, Some(false));
    assert_eq!(ctu.transform_trees[0].below_left_available, Some(false));
    assert_eq!(ctu.cu_below_left_available[0], Some(false));
    assert_eq!(ctu.coding_trees[0].below_left_available, Some(false));
    assert_eq!(ctu.coding_trees[0].above_right_available, Some(false));
}

#[test]
fn above_right_inside_the_tile() {
    let mut ctu = CodingTreeUnit::new_arc_mutex(0, 16, 4, 4, Some(tile()), None);
    assert!(TransformUnit::is_above_right_available(&mut ctu, 0));
    assert!(CodingTree::is_above_right_available(&mut ctu, 0));
    assert!(CodingUnit::is_above_right_available(&mut ctu, 0));
    assert!(TransformTree::is_above_right_available(&mut ctu, 0));
    // The bottom edge of the tile has nothing below.
    assert!(!CodingTree::is_below_left_available(&mut ctu, 0));
    assert!(!CodingUnit::is_below_left_available(&mut ctu, 0));
    assert!(!TransformTree::is_below_left_available(&mut ctu, 0));
}

#[test]
fn right_edge_of_the_tile() {
    let mut ctu = CodingTreeUnit::new_arc_mutex(16, 16, 4, 4, Some(tile()), None);
    assert!(!TransformUnit::is_above_right_available(&mut ctu, 0));
    assert_eq!(ctu.transform_units[0].above_right_available, Some(false));
    assert_eq!(ctu.transform_trees[0].above_right_available, None);
}

#[test]
fn a_second_query_on_a_coding_tree_node_repeats_the_answer() {
    let mut ctu = CodingTreeUnit::new_arc_mutex(0, 16, 4, 4, Some(tile()), None);
    let first = CodingTree::is_above_right_available(&mut ctu, 0);
    let second = CodingTree::is_above_right_available(&mut ctu, 0);
    assert_eq!(first, second);
    let first = CodingTree::is_below_left_available(&mut ctu, 0);
    let second = CodingTree::is_below_left_available(&mut ctu, 0);
    assert_eq!(first, second);
}

#[test]
fn transform_unit_answers_are_remembered() {
    let mut ctu = CodingTreeUnit::new_arc_mutex(0, 16, 4, 4, Some(tile()), None);
    let first = TransformUnit::is_above_right_available(&mut ctu, 0);
    assert_eq!(ctu.transform_units[0].above_right_available, Some(first));
    assert_eq!(TransformUnit::is_above_right_available(&mut ctu, 0), first);
    let first = TransformUnit::is_below_left_available(&mut ctu, 0);
    assert_eq!(ctu.transform_units[0].below_left_available, Some(first));
    assert_eq!(TransformUnit::is_below_left_available(&mut ctu, 0), first);
}

#[test]
fn quadtree_split_appends_four_quadrants() {
    let mut ctu = vvcenc::ctu::CodingTreeUnit::new_arc_mutex(0, 0, 4, 4, None, None);
    let n = ctu.coding_trees.len();
    let root = ctu.ct[0];
    vvcenc::ctu::CodingTree::split(&mut ctu, root, vvcenc::common::MttSplitMode::SPLIT_QT, 0, None);
    assert_eq!(ctu.coding_trees.len(), n + 4);
    assert_eq!(ctu.coding_trees[root].cts, vec![n, n + 1, n + 2, n + 3]);
    assert!(ctu.coding_trees[root].cus.is_empty());
    assert!(ctu.coding_trees[root].split_mode == vvcenc::common::MttSplitMode::SPLIT_QT);
    let pos: Vec<(usize, usize, usize, usize)> =
        (0..4).map(|i| { let c = &ctu.coding_trees[n + i]; (c.x, c.y, c.width, c.part_idx) }).collect();
    assert_eq!(pos, vec![(0, 0, 8, 0), (8, 0, 8, 1), (0, 8, 8, 2), (8, 8, 8, 3)]);
    assert!(ctu.coding_trees[n + 3].parent == Some(root));
    assert_eq!(ctu.coding_trees[n + 3].depth, ctu.coding_trees[root].depth + 1);
    // An intra-only split of an 8x8 node of a tree open to every mode adds luma
    // quadrants and a chroma tree of the node's size.
    let child = n + 1;
    let m = ctu.coding_trees.len();
    vvcenc::ctu::CodingTree::split(&mut ctu, child, vvcenc::common::MttSplitMode::SPLIT_QT, 1, None);
    assert_eq!(ctu.coding_trees[child].cts, vec![m, m + 1, m + 2, m + 3, m + 4]);
    assert!(ctu.coding_trees[m].tree_type == vvcenc::common::TreeType::DUAL_TREE_LUMA);
    assert_eq!((ctu.coding_trees[m + 1].x, ctu.coding_trees[m + 1].y, ctu.coding_trees[m + 1].width), (12, 0, 4));
    assert!(ctu.coding_trees[m + 4].tree_type == vvcenc::common::TreeType::DUAL_TREE_CHROMA);
    assert_eq!((ctu.coding_trees[m + 4].x, ctu.coding_trees[m + 4].width), (8, 8));
}

#[test]
fn split_mode_type_conditions() {
    let all = ModeType::MODE_TYPE_ALL;
    let qt = MttSplitMode::SPLIT_QT;
    // Separate intra trees, a restricted node or no subsampled chroma: none.
    assert_eq!(mode_type_condition(SliceType::I, true, all, ChromaFormat::YCbCr420, 8, 8, true, qt), 0);
    assert_eq!(mode_type_condition(SliceType::P, false, ModeType::MODE_TYPE_INTRA, ChromaFormat::YCbCr420, 8, 8, true, qt), 0);
    assert_eq!(mode_type_condition(SliceType::P, false, all, ChromaFormat::Monochrome, 8, 8, true, qt), 0);
    assert_eq!(mode_type_condition(SliceType::P, false, all, ChromaFormat::YCbCr444, 8, 8, true, qt), 0);
    // 4x4 luma quadrants, or 4x4 halves of 4x8: intra only.
    assert_eq!(mode_type_condition(SliceType::P, false, all, ChromaFormat::YCbCr420, 8, 8, true, qt), 1);
    assert_eq!(mode_type_condition(SliceType::B, false, all, ChromaFormat::YCbCr420, 4, 8, false, MttSplitMode::SPLIT_BT_HOR), 1);
    // Halves of 8x8 in 4:2:0: signalled outside intra slices.
    assert_eq!(mode_type_condition(SliceType::P, false, all, ChromaFormat::YCbCr420, 8, 8, false, MttSplitMode::SPLIT_BT_VER), 2);
    assert_eq!(mode_type_condition(SliceType::I, false, all, ChromaFormat::YCbCr420, 8, 8, false, MttSplitMode::SPLIT_BT_VER), 1);
    assert_eq!(mode_type_condition(SliceType::P, false, all, ChromaFormat::YCbCr422, 8, 8, false, MttSplitMode::SPLIT_BT_HOR), 0);
    // Large blocks: none.
    assert_eq!(mode_type_condition(SliceType::P, false, all, ChromaFormat::YCbCr420, 32, 32, false, MttSplitMode::SPLIT_BT_HOR), 0);
}
