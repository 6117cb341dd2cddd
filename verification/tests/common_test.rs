use rand::{prelude::StdRng, Rng, SeedableRng};
use vvcenc::common::{
    msum_16x1_i16_le_i9, msum_16x2_i16_le_i9, msum_16x4_i16_le_i9, msum_8_i16_le_i9,
    msum_8x1_i16_i32_le_i9_i17, msum_8x2_i16_i32_le_i9_i17, msum_8x4_i16_i32_le_i9_i17,
    msum_8x8_i16_i32_le_i9_i17, IntraPredMode, MttSplitMode, Vec2d, WindowOffset,
};

#[test]
fn msum_8_i16_le_i9_works() {
    let mut rng: StdRng = SeedableRng::seed_from_u64(2);
    let mut v0: Vec<i16> = vec![0; 8];
    let mut v1: Vec<i16> = vec![0; 8];
    rng.fill(&mut v0[..]);
    rng.fill(&mut v1[..]);
    v0.iter_mut().for_each(|x| *x %= 0b111111111);
    v1.iter_mut().for_each(|x| *x %= 0b111111111);
    let dut = msum_8_i16_le_i9(&v0[..], &v1[..]);
    let gt = (0..8).map(|i| v0[i] as i32 * v1[i] as i32).sum();
    assert_eq!(dut, gt);
}

#[test]
fn msum_16x1_i16_le_i9_works() {
    let mut rng: StdRng = SeedableRng::seed_from_u64(2);
    let mut v0: Vec<i16> = vec![0; 16];
    let mut v1: Vec<i16> = vec![0; 16];
    rng.fill(&mut v0[..]);
    rng.fill(&mut v1[..]);
    v0.iter_mut().for_each(|x| *x %= 0b111111111);
    v1.iter_mut().for_each(|x| *x %= 0b111111111);
    let dut = msum_16x1_i16_le_i9(&v0[..], &v1[..]);
    let gt = (0..16).map(|i| v0[i] as i32 * v1[i] as i32).sum();
    assert_eq!(dut, gt);
}

#[test]
fn msum_16x2_i16_le_i9_works() {
    let mut rng: StdRng = SeedableRng::seed_from_u64(2);
    let mut v0: Vec<i16> = vec![0; 32];
    let mut v1: Vec<i16> = vec![0; 32];
    rng.fill(&mut v0[..]);
    rng.fill(&mut v1[..]);
    v0.iter_mut().for_each(|x| *x %= 0b111111111);
    v1.iter_mut().for_each(|x| *x %= 0b111111111);
    let dut = msum_16x2_i16_le_i9(&v0[..], &v1[..]);
    let gt = (0..32).map(|i| v0[i] as i32 * v1[i] as i32).sum();
    assert_eq!(dut, gt);
}

#[test]
fn msum_16x4_i16_le_i9_works() {
    let mut rng: StdRng = SeedableRng::seed_from_u64(2);
    let mut v0: Vec<i16> = vec![0; 64];
    let mut v1: Vec<i16> = vec![0; 64];
    rng.fill(&mut v0[..]);
    rng.fill(&mut v1[..]);
    v0.iter_mut().for_each(|x| *x %= 0b111111111);
    v1.iter_mut().for_each(|x| *x %= 0b111111111);
    let dut = msum_16x4_i16_le_i9(&v0[..], &v1[..]);
    let gt = (0..64).map(|i| v0[i] as i32 * v1[i] as i32).sum();
    assert_eq!(dut, gt);
}

#[test]
fn msum_8x1_i16_i32_le_i9_i17_works() {
    let mut rng: StdRng = SeedableRng::seed_from_u64(2);
    let mut v0: Vec<i16> = vec![0; 8];
    let mut v1: Vec<i32> = vec![0; 8];
    rng.fill(&mut v0[..]);
    rng.fill(&mut v1[..]);
    v0.iter_mut().for_each(|x| *x %= 0b111111111);
    v1.iter_mut().for_each(|x| *x %= 0b11111111111111111);
    let dut = msum_8x1_i16_i32_le_i9_i17(&v0[..], &v1[..]);
    let gt = (0..8).map(|i| v0[i] as i32 * v1[i]).sum();
    assert_eq!(dut, gt);
}

#[test]
fn msum_8x2_i16_i32_le_i9_i17_works() {
    let mut rng: StdRng = SeedableRng::seed_from_u64(2);
    let mut v0: Vec<i16> = vec![0; 16];
    let mut v1: Vec<i32> = vec![0; 16];
    rng.fill(&mut v0[..]);
    rng.fill(&mut v1[..]);
    v0.iter_mut().for_each(|x| *x %= 0b111111111);
    v1.iter_mut().for_each(|x| *x %= 0b11111111111111111);
    let dut = msum_8x2_i16_i32_le_i9_i17(&v0[..], &v1[..]);
    let gt = (0..16).map(|i| v0[i] as i32 * v1[i]).sum();
    assert_eq!(dut, gt);
}

#[test]
fn msum_8x4_i16_i32_le_i9_i17_works() {
    let mut rng: StdRng = SeedableRng::seed_from_u64(2);
    let mut v0: Vec<i16> = vec![0; 32];
    let mut v1: Vec<i32> = vec![0; 32];
    rng.fill(&mut v0[..]);
    rng.fill(&mut v1[..]);
    v0.iter_mut().for_each(|x| *x %= 0b111111111);
    v1.iter_mut().for_each(|x| *x %= 0b11111111111111111);
    let dut = msum_8x4_i16_i32_le_i9_i17(&v0[..], &v1[..]);
    let gt = (0..32).map(|i| v0[i] as i32 * v1[i]).sum();
    assert_eq!(dut, gt);
}

#[test]
fn msum_8x8_i16_i32_le_i9_i17_works() {
    let mut rng: StdRng = SeedableRng::seed_from_u64(2);
    let mut v0: Vec<i16> = vec![0; 64];
    let mut v1: Vec<i32> = vec![0; 64];
    rng.fill(&mut v0[..]);
    rng.fill(&mut v1[..]);
    v0.iter_mut().for_each(|x| *x %= 0b111111111);
    v1.iter_mut().for_each(|x| *x %= 0b11111111111111111);
    let dut = msum_8x8_i16_i32_le_i9_i17(&v0[..], &v1[..]);
    let gt = (0..64).map(|i| v0[i] as i32 * v1[i]).sum();
    assert_eq!(dut, gt);
}

#[test]
fn msum_wraps_in_32_bits() {
    let v0: Vec<i16> = vec![i16::MIN; 8];
    let v1: Vec<i16> = vec![i16::MIN; 8];
    let expected = (8i64 * (i16::MIN as i64) * (i16::MIN as i64)) as i32;
    assert_eq!(msum_8_i16_le_i9(&v0, &v1), expected);
}

#[test]
fn vec2d_rows_start_at_power_of_two_strides() {
    let mut v: Vec2d<i16> = Vec2d::new(7, 3, 5);
    assert_eq!(v.log2_stride, 3);
    assert_eq!(v.data.len(), 24);
    assert_eq!(v.get(2, 4), 7);
    v.set(1, 2, -4);
    assert_eq!(v.get(1, 2), -4);
    assert_eq!(v.data[8 + 2], -4);
    v._fill(1);
    assert!(v.data.iter().all(|x| *x == 1));
}

#[test]
fn split_mode_classes() {
    assert!(MttSplitMode::SPLIT_BT_VER.is_bt());
    assert!(!MttSplitMode::SPLIT_BT_VER.is_tt());
    assert!(MttSplitMode::SPLIT_TT_HOR.is_tt());
    assert!(MttSplitMode::SPLIT_TT_VER._is_ver());
    assert!(MttSplitMode::SPLIT_BT_HOR._is_hor());
    assert!(!MttSplitMode::SPLIT_QT.is_bt());
}

#[test]
fn intra_pred_mode_numbers() {
    assert_eq!(IntraPredMode::from_usize(50), Some(IntraPredMode::ANGULAR50));
    assert_eq!(IntraPredMode::from_usize(82), Some(IntraPredMode::L_CCLM));
    assert_eq!(IntraPredMode::from_usize(70), None);
    assert_eq!(IntraPredMode::T_CCLM.value(), 83);
}

#[test]
fn window_offset_is_empty() {
    let w = WindowOffset::new();
    assert_eq!((w.left_offset, w.right_offset, w.top_offset, w.bottom_offset), (0, 0, 0, 0));
}
