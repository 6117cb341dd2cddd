use vvcenc::common::Vec2d;
use vvcenc::angular::{angular_filter_flag, wide_angle_mode};
use vvcenc::intra_predictor::IntraPredictor;

#[test]
fn new_predictor_is_zeroed() {
    let p = IntraPredictor::new();
    assert_eq!(p.ref_l.width, 64);
    assert_eq!(p.pred_v.height, 64);
    assert!(p.pred_h.data.iter().all(|v| *v == 0));
    assert!(p.left_ref_samples.iter().all(|v| *v == 0));
    assert!(p.above_ref_filtered_samples.iter().all(|v| *v == 0));
}

#[test]
fn planar_prediction_of_a_small_block() {
    let p = IntraPredictor::new();
    let mut pred = Vec2d::new(0u8, 4, 4);
    p.planar_block(&[10, 20, 30], &[40, 50, 60], 2, 2, 1, 1, &mut pred);
    assert_eq!(pred.get(1, 1), 35);
    assert_eq!(pred.get(1, 2), 35);
    assert_eq!(pred.get(2, 1), 50);
    assert_eq!(pred.get(2, 2), 45);
    assert_eq!(pred.get(0, 0), 0);
    assert_eq!(pred.get(3, 3), 0);
}

#[test]
fn planar_prediction_of_a_wide_block() {
    let p = IntraPredictor::new();
    let mut pred = Vec2d::new(0u8, 2, 4);
    // 4x2: ((1 - y) * a[x] + (y + 1) * l[2]) * 4 + ((3 - x) * l[y] + (x + 1) * a[4]) * 2 + 8, over 16.
    p.planar_block(&[0, 0, 0, 0, 16], &[0, 0, 32], 4, 2, 0, 0, &mut pred);
    assert_eq!(pred.get(0, 0), ((32 * 4 + 16 * 2 + 8) / 16) as u8);
    assert_eq!(pred.get(1, 3), ((64 * 4 + 64 * 2 + 8) / 16) as u8);
}

#[test]
fn dc_prediction() {
    let p = IntraPredictor::new();
    let mut pred = Vec2d::new(7u8, 4, 4);
    p.dc_block(&[10, 20], &[40, 50], 2, 2, 0, 0, &mut pred);
    assert_eq!(pred.get(0, 0), 30);
    assert_eq!(pred.get(1, 1), 30);
    assert_eq!(pred.get(2, 2), 7);
    let mut pred = Vec2d::new(0u8, 2, 4);
    p.dc_block(&[1, 2, 3, 4], &[200, 200], 4, 2, 0, 0, &mut pred);
    assert_eq!(pred.get(1, 3), 3);
    let mut pred = Vec2d::new(0u8, 4, 2);
    p.dc_block(&[200, 200], &[1, 2, 3, 4], 2, 4, 0, 0, &mut pred);
    assert_eq!(pred.get(3, 1), 3);
}

#[test]
fn flat_references_predict_flat_blocks() {
    let p = IntraPredictor::new();
    let flat = vec![77i16; 65];
    for (tw, th) in [(4usize, 4usize), (8, 8), (16, 16), (8, 4), (4, 16), (64, 64)] {
        let mut pred = Vec2d::new(0u8, th, tw);
        p.planar_block(&flat[..tw + 1], &flat[..th + 1], tw, th, 0, 0, &mut pred);
        for y in 0..th {
            for x in 0..tw {
                assert_eq!(pred.get(y, x), 77);
            }
        }
        let mut pred = Vec2d::new(0u8, th, tw);
        p.dc_block(&flat[..tw], &flat[..th], tw, th, 0, 0, &mut pred);
        assert_eq!(pred.get(th - 1, tw - 1), 77);
    }
}

#[test]
fn vec2d_reads_back_what_was_written() {
    let mut v = Vec2d::new(0i16, 3, 5);
    v.set(2, 4, -7);
    v.set(0, 1, 3);
    assert_eq!(v.get(2, 4), -7);
    assert_eq!(v.get(0, 1), 3);
    assert_eq!(v.get(2, 3), 0);
    assert_eq!(v.get(1, 4), 0);
}

fn flat_block(v: u8, n: usize) -> Vec2d<u8> {
    Vec2d::new(v, n, n)
}

fn refs(f: fn(usize) -> i16, n: usize) -> Vec<i16> {
    (0..n).map(f).collect()
}

#[test]
fn pure_vertical_and_horizontal_modes_copy_the_references() {
    let p = IntraPredictor::new();
    let left = refs(|i| (10 + 3 * i) as i16, 130);
    let above = refs(|i| (100 + 5 * i) as i16, 129);
    // Mode 50 (vertical): every row repeats the above references.
    let mut pred = flat_block(0, 8);
    p.angular_block(&left, &above, 50, 0, 0, 16, 16, false, 8, 8, 0, 0, &mut pred);
    for y in 0..8 {
        for x in 0..8 {
            assert_eq!(pred.get(y, x) as i16, above[x]);
        }
    }
    // Mode 18 (horizontal): every column repeats the left references below the corner.
    let mut pred = flat_block(0, 8);
    p.angular_block(&left, &above, 18, 0, 0, 16, 16, false, 8, 8, 0, 0, &mut pred);
    for y in 0..8 {
        for x in 0..8 {
            assert_eq!(pred.get(y, x) as i16, left[y + 1]);
        }
    }
}

#[test]
fn diagonal_modes_follow_the_diagonal() {
    let p = IntraPredictor::new();
    let left = refs(|i| (10 + 3 * i) as i16, 130);
    let above = refs(|i| (100 + 5 * i) as i16, 129);
    // Mode 66 (top-right diagonal), chroma: sample (x, y) is above reference x + y + 1.
    let mut pred = flat_block(0, 4);
    p.angular_block(&left, &above, 66, 1, 0, 8, 8, false, 4, 4, 0, 0, &mut pred);
    for y in 0..4 {
        for x in 0..4 {
            assert_eq!(pred.get(y, x) as i16, above[x + y + 1]);
        }
    }
    // Mode 2 (bottom-left diagonal), luma: sample (x, y) is left reference x + y + 2.
    let mut pred = flat_block(0, 4);
    p.angular_block(&left, &above, 2, 0, 0, 8, 8, false, 4, 4, 0, 0, &mut pred);
    for y in 0..4 {
        for x in 0..4 {
            assert_eq!(pred.get(y, x) as i16, left[x + y + 2]);
        }
    }
}

#[test]
fn flat_references_predict_flat_blocks_at_every_angle() {
    let p = IntraPredictor::new();
    let left = vec![77i16; 130];
    let above = vec![77i16; 129];
    for mode in [2isize, 10, 18, 27, 34, 35, 45, 50, 55, 66] {
        for c_idx in [0usize, 1] {
            for smooth in [false, true] {
                let mut pred = flat_block(0, 8);
                p.angular_block(&left, &above, mode, c_idx, 0, 16, 16, smooth, 8, 8, 0, 0, &mut pred);
                assert!(pred.data.iter().all(|v| *v == 77), "mode {} c_idx {}", mode, c_idx);
            }
        }
    }
    // Only the block is written.
    let mut pred = flat_block(9, 16);
    p.angular_block(&left, &above, 30, 0, 0, 8, 8, false, 4, 4, 4, 8, &mut pred);
    assert_eq!(pred.get(8, 4), 77);
    assert_eq!(pred.get(7, 4), 9);
    assert_eq!(pred.get(8, 8), 9);
}

#[test]
fn wide_angle_mapping_and_filter_choice() {
    // A 16x4 block (ratio 2): modes below 12 move past 66.
    assert_eq!(wide_angle_mode(5, 16, 4), 70);
    assert_eq!(wide_angle_mode(12, 16, 4), 12);
    // A 4x16 block: modes above 56 move below 2.
    assert_eq!(wide_angle_mode(60, 4, 16), -7);
    assert_eq!(wide_angle_mode(56, 4, 16), 56);
    // A 8x4 block (ratio 1): modes 2 to 7.
    assert_eq!(wide_angle_mode(7, 8, 4), 72);
    assert_eq!(wide_angle_mode(30, 8, 8), 30);
    // 16x16: far from horizontal and vertical modes the smoothing filter is used.
    assert!(angular_filter_flag(10, 0, false, 16, 16));
    assert!(!angular_filter_flag(18, 0, false, 16, 16));
    assert!(!angular_filter_flag(2, 0, false, 16, 16));
    assert!(!angular_filter_flag(10, 1, false, 16, 16));
    assert!(!angular_filter_flag(10, 0, true, 16, 16));
    // 4x4: only beyond 24 modes of distance.
    assert!(!angular_filter_flag(10, 0, false, 4, 4));
}

#[test]
fn position_dependent_filter_blends_in_the_references() {
    let p = IntraPredictor::new();
    let above = vec![0i16; 8];
    let left = vec![200i16; 8];
    let mut pred = flat_block(100, 8);
    // DC mode on a 4x4 block: scale 0, weights 32, 8, 2, 0.
    p.pdpc_block(&above, &left, 50, 1, 4, 4, 0, 0, &mut pred);
    let w = [32i64, 8, 2, 0];
    for y in 0..4 {
        for x in 0..4 {
            let v = (200 * w[x] + 0 * w[y] + (64 - w[x] - w[y]) * 100 + 32) / 64;
            assert_eq!(pred.get(y, x) as i64, v.clamp(0, 255));
        }
    }
    assert_eq!(pred.get(0, 0), 100);
    assert_eq!(pred.get(0, 1), 63);
    assert_eq!(pred.get(4, 4), 100);
    // Vertical mode: only the left references count, against the corner.
    let mut pred = flat_block(100, 8);
    p.pdpc_block(&above, &left, 50, 50, 4, 4, 0, 0, &mut pred);
    assert_eq!(pred.get(0, 0) as i64, ((200 - 50 + 100) * 32i64 + 32 * 100 + 32) / 64);
    assert_eq!(pred.get(0, 3), 100);
    // Flat references and prediction stay flat.
    let mut pred = flat_block(90, 8);
    p.pdpc_block(&vec![90i16; 8], &vec![90i16; 8], 90, 0, 8, 8, 0, 0, &mut pred);
    assert!(pred.data.iter().all(|v| *v == 90));
}
