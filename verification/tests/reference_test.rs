use vvcenc::common::{IntraPredMode, ModeType, MttSplitMode, Vec2d};
use vvcenc::ctu::CodingTreeUnit;
use vvcenc::encoder_context::EncoderContext;
use vvcenc::intra_predictor::IntraPredictor;
use vvcenc::neighbour_ctx::PictureGeometry;

fn ectx() -> EncoderContext {
    EncoderContext {
        ctb_log2_size_y: 7,
        min_qt_size_y: 8,
        min_qt_size_c: 4,
        min_bt_size_y: 4,
        min_tt_size_y: 4,
        max_bt_size_y: 128,
        max_bt_size_c: 64,
        max_tt_size_y: 64,
        max_tt_size_c: 32,
        max_mtt_depth_y: 3,
        max_mtt_depth_c: 3,
        sub_width_c: 2,
        sub_height_c: 2,
        mtt_split_mode: vec![vec![vec![MttSplitMode::SPLIT_NONE]]],
        cu_pred_mode: vec![vec![vec![ModeType::MODE_INTRA; 64]; 64]],
        cb_width: vec![vec![vec![8usize; 64]; 64]; 2],
        cb_height: vec![vec![vec![8usize; 64]; 64]; 2],
        bit_depth: 8,
        num_ref_idx_active: [2, 2],
        max_num_merge_cand: 6,
        max_num_subblock_merge_cand: 5,
        max_num_ibc_merge_cand: 6,
        max_num_gpm_merge_cand: 6,
        no_backward_pred_flag: false,
    }
}

fn geometry() -> PictureGeometry {
    PictureGeometry { pic_width_in_luma_samples: 1920, pic_height_in_luma_samples: 1080, entropy_coding_sync_enabled_flag: false }
}

fn picture(f: fn(usize, usize) -> u8) -> Vec2d<u8> {
    let mut p = Vec2d::new(0u8, 64, 64);
    for y in 0..64 {
        for x in 0..64 {
            p.set(y, x, f(y, x));
        }
    }
    p
}

/// A coding tree unit whose transform unit is a luma block of `size` at (`x`, `y`).
fn unit(x: usize, y: usize, size: usize, mode: IntraPredMode) -> CodingTreeUnit {
    let mut ctu = CodingTreeUnit::new_arc_mutex(0, 0, 4, 4, None, None);
    let tu = &mut ctu.transform_units[0];
    tu.x = x;
    tu.y = y;
    tu.width = size;
    tu.height = size;
    tu.cu_size = [(size, size), (size / 2, size / 2), (size / 2, size / 2)];
    tu.cu_intra_subpartitions_mode_flag = false;
    tu.cu_intra_pred_mode = [mode, mode, mode];
    ctu
}

#[test]
fn unavailable_reference_samples_take_the_nearest_available_one() {
    let ctu = unit(8, 8, 4, IntraPredMode::PLANAR);
    let p = picture(|y, x| (y * 10 + x) as u8);
    let mut ip = IntraPredictor::new();
    ip.set_left_and_above_ref_samples(&ctu.transform_units[0], 0, 0, &p, false, false, geometry(), &ectx());
    // The corner and the four rows beside the block are available; the four below are
    // not (no below-left neighbour) and repeat the last available one.
    assert_eq!(&ip.left_ref_samples[..9], &[77, 87, 97, 107, 117, 117, 117, 117, 117]);
    // The four samples right of the block are not available (no above-right neighbour).
    assert_eq!(&ip.above_ref_samples[..8], &[78, 79, 80, 81, 81, 81, 81, 81]);
    // A 4x4 block is not smoothed: the filtered buffers hold the same samples.
    assert_eq!(&ip.left_ref_filtered_samples[..9], &ip.left_ref_samples[..9]);
    assert_eq!(&ip.above_ref_filtered_samples[..8], &ip.above_ref_samples[..8]);
    // Beyond the reference lengths nothing changes.
    assert!(ip.left_ref_samples[9..].iter().all(|v| *v == 0));
    assert!(ip.above_ref_samples[8..].iter().all(|v| *v == 0));
}

#[test]
fn no_available_neighbour_gives_mid_grey() {
    let ctu = unit(0, 0, 4, IntraPredMode::DC);
    let p = picture(|y, x| (y + x) as u8);
    let mut ip = IntraPredictor::new();
    ip.set_left_and_above_ref_samples(&ctu.transform_units[0], 0, 0, &p, true, true, geometry(), &ectx());
    assert!(ip.left_ref_samples[..9].iter().all(|v| *v == 128));
    assert!(ip.above_ref_samples[..8].iter().all(|v| *v == 128));
    assert!(ip.left_ref_filtered_samples[..9].iter().all(|v| *v == 128));
}

fn smooth(prev: i16, cur: i16, next: i16) -> i16 {
    (prev + 2 * cur + next + 2) / 4
}

#[test]
fn planar_reference_samples_of_large_blocks_are_smoothed() {
    let ctu = unit(8, 8, 8, IntraPredMode::PLANAR);
    let p = picture(|y, x| ((y * 7 + x * x * 13) % 251) as u8);
    let mut ip = IntraPredictor::new();
    ip.set_left_and_above_ref_samples(&ctu.transform_units[0], 0, 0, &p, true, true, geometry(), &ectx());
    let l: Vec<i16> = (0..17).map(|i| p.get(7 + i, 7) as i16).collect();
    let a: Vec<i16> = (0..16).map(|i| p.get(7, 8 + i) as i16).collect();
    // Every neighbour is available: the samples are the reconstructed ones.
    assert_eq!(&ip.left_ref_samples[..17], &l[..]);
    assert_eq!(&ip.above_ref_samples[..16], &a[..]);
    let lf = &ip.left_ref_filtered_samples;
    let af = &ip.above_ref_filtered_samples;
    assert_eq!(lf[0], smooth(l[1], l[0], a[0]));
    for i in 1..16 {
        assert_eq!(lf[i], smooth(l[i - 1], l[i], l[i + 1]));
    }
    assert_eq!(lf[16], l[16]);
    assert_eq!(af[0], smooth(l[0], a[0], a[1]));
    for i in 1..15 {
        assert_eq!(af[i], smooth(a[i - 1], a[i], a[i + 1]));
    }
    assert_eq!(af[15], a[15]);
    assert_ne!(&lf[..17], &l[..]);
}

#[test]
fn other_modes_and_chroma_are_not_smoothed() {
    let p = picture(|y, x| ((y * 7 + x * x * 13) % 251) as u8);
    let ctu = unit(8, 8, 8, IntraPredMode::DC);
    let mut ip = IntraPredictor::new();
    ip.set_left_and_above_ref_samples(&ctu.transform_units[0], 0, 0, &p, true, true, geometry(), &ectx());
    assert_eq!(&ip.left_ref_filtered_samples[..17], &ip.left_ref_samples[..17]);
    assert_eq!(&ip.above_ref_filtered_samples[..16], &ip.above_ref_samples[..16]);
    // Chroma of a 16x16 unit at (16, 16): an 8x8 block at (8, 8) of the chroma plane.
    let ctu = unit(16, 16, 16, IntraPredMode::PLANAR);
    let mut ip = IntraPredictor::new();
    ip.set_left_and_above_ref_samples(&ctu.transform_units[0], 1, 0, &p, true, true, geometry(), &ectx());
    let l: Vec<i16> = (0..17).map(|i| p.get(7 + i, 7) as i16).collect();
    assert_eq!(&ip.left_ref_samples[..17], &l[..]);
    assert_eq!(&ip.left_ref_filtered_samples[..17], &l[..]);
}

#[test]
fn dc_prediction_is_the_mean_filtered_at_the_edges() {
    let ctu = unit(8, 8, 8, IntraPredMode::DC);
    let p = picture(|y, x| ((y * 7 + x * 3) % 200) as u8);
    let mut pred = Vec2d::new(0u8, 64, 64);
    let mut ip = IntraPredictor::new();
    ip.predict_dc(&ctu.transform_units[0], 0, 0, &mut pred, &p, true, true, geometry(), &ectx());
    let a: Vec<i64> = (0..8).map(|i| ip.above_ref_filtered_samples[i] as i64).collect();
    let l: Vec<i64> = (1..9).map(|i| ip.left_ref_filtered_samples[i] as i64).collect();
    let dc = (a.iter().sum::<i64>() + l.iter().sum::<i64>() + 8) / 16;
    // Scale 1: weights 32, 16, 8, 4, 2, 1, 0, 0.
    let w = [32i64, 16, 8, 4, 2, 1, 0, 0];
    for y in 0..8 {
        for x in 0..8 {
            let v = (l[y] * w[x] + a[x] * w[y] + (64 - w[x] - w[y]) * dc + 32) / 64;
            assert_eq!(pred.get(8 + y, 8 + x) as i64, v);
        }
    }
    assert_eq!(pred.get(15, 15) as i64, dc);
    assert_eq!(pred.get(7, 8), 0);
}

#[test]
fn planar_prediction_of_flat_references_is_flat() {
    let ctu = unit(8, 8, 8, IntraPredMode::PLANAR);
    let p = picture(|_, _| 123);
    let mut pred = Vec2d::new(0u8, 64, 64);
    let mut ip = IntraPredictor::new();
    ip.predict_planar(&ctu.transform_units[0], 0, 0, &mut pred, &p, true, true, geometry(), &ectx());
    for y in 8..16 {
        for x in 8..16 {
            assert_eq!(pred.get(y, x), 123);
        }
    }
    assert_eq!(pred.get(16, 16), 0);
}

#[test]
fn angular_prediction_of_flat_references_is_flat() {
    let p = picture(|_, _| 60);
    for mode in [IntraPredMode::ANGULAR2, IntraPredMode::ANGULAR18, IntraPredMode::ANGULAR34, IntraPredMode::ANGULAR50, IntraPredMode::ANGULAR66] {
        let ctu = unit(8, 8, 8, mode);
        let mut pred = Vec2d::new(0u8, 64, 64);
        let mut ip = IntraPredictor::new();
        ip.predict_angular(&ctu.transform_units[0], 0, 0, &mut pred, &p, true, true, false, geometry(), &ectx());
        for y in 8..16 {
            for x in 8..16 {
                assert_eq!(pred.get(y, x), 60);
            }
        }
        assert_eq!(pred.get(16, 8), 0);
    }
}

#[test]
fn vertical_prediction_copies_the_row_above() {
    let p = picture(|y, x| ((x * 9 + y) % 200) as u8);
    let ctu = unit(8, 8, 8, IntraPredMode::ANGULAR50);
    let mut pred = Vec2d::new(0u8, 64, 64);
    let mut ip = IntraPredictor::new();
    ip.predict_angular(&ctu.transform_units[0], 0, 0, &mut pred, &p, true, true, false, geometry(), &ectx());
    // The first column is then filtered against the left references and the corner.
    let corner = ip.left_ref_filtered_samples[0] as i64;
    for y in 0..8 {
        for x in 0..8 {
            let above = p.get(7, 8 + x) as i64;
            let w = [32i64, 16, 8, 4, 2, 1, 0, 0][x];
            let left = p.get(8 + y, 7) as i64;
            let v = ((left - corner + above) * w + (64 - w) * above + 32) / 64;
            assert_eq!(pred.get(8 + y, 8 + x) as i64, v.clamp(0, 255));
        }
    }
}

#[test]
fn prediction_leaves_the_residual_of_the_source() {
    let p = picture(|_, _| 100);
    let source = picture(|y, x| ((y * 3 + x) % 250) as u8);
    for mode in [IntraPredMode::PLANAR, IntraPredMode::DC, IntraPredMode::ANGULAR50] {
        let ctu = unit(8, 8, 8, mode);
        let mut pred = Vec2d::new(0u8, 64, 64);
        let mut residual_pixels = Vec2d::new(0i16, 64, 64);
        let mut residuals = Vec2d::new(0i16, 8, 8);
        let mut ip = IntraPredictor::new();
        ip.predict(&ctu.transform_units[0], 0, &mut pred, &p, &source, &mut residual_pixels, &mut residuals, true, true, false, geometry(), &ectx());
        for y in 0..8 {
            for x in 0..8 {
                assert_eq!(pred.get(8 + y, 8 + x), 100);
                let r = source.get(8 + y, 8 + x) as i16 - 100;
                assert_eq!(residuals.get(y, x), r);
                assert_eq!(residual_pixels.get(8 + y, 8 + x), r);
            }
        }
        assert_eq!(residual_pixels.get(7, 8), 0);
    }
}
