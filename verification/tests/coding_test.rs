use vvcenc::bins::Bins;
use vvcenc::binary_writer::BinaryWriter;
use vvcenc::bool_coder::{init_ctx_state, BoolCoder};
use vvcenc::cabac_contexts::CabacContext;
use vvcenc::common::SliceType;

fn bits(s: &str) -> Vec<bool> {
    s.chars().filter(|c| *c == '0' || *c == '1').map(|c| c == '1').collect()
}

fn start() -> Bins {
    let mut b = Bins::new();
    b.push_initial_bin(true);
    b
}

fn after_start(b: Bins) -> Vec<bool> {
    let v = b.collect();
    assert!(v[0]);
    v[1..].to_vec()
}

#[test]
fn bins_push_and_collect() {
    let mut b = Bins::new();
    b.push_bin(true);
    b.push_bin(false);
    b.push_bin(true);
    b.push_bins_with_size(0b1101, 4);
    assert_eq!(b.num_bins, 7);
    assert_eq!(b.collect(), bits("1011101"));
}

#[test]
fn bins_cross_a_word() {
    let mut b = start();
    for i in 0..70 {
        b.push_bin(i % 3 == 0);
    }
    let v = b.collect();
    assert_eq!(v.len(), 71);
    for i in 0..70 {
        assert_eq!(v[i + 1], i % 3 == 0);
    }
}

#[test]
fn bins_byte_align_pads_zeros() {
    let mut b = start();
    b.push_bin(true);
    b.push_bin(true);
    b.byte_align();
    assert_eq!(b.num_bins, 8);
    assert_eq!(b.collect(), bits("11100000"));
    let mut b = start();
    for _ in 0..7 {
        b.push_bin(false);
    }
    b.byte_align();
    assert_eq!(b.num_bins, 8);
}

#[test]
fn binary_writer_packs_bits_msb_first() {
    let mut w = BinaryWriter::standard();
    w.write_bits(&bits("10100101 11"));
    w._byte_align();
    let out = w.take_output();
    assert_eq!(out, vec![0xa5, 0xc0]);
}

#[test]
fn exp_golomb_codes() {
    let mut c = BoolCoder::new();
    let cases: [(u64, &str); 5] = [(0, "1"), (1, "010"), (2, "011"), (3, "00100"), (7, "0001000")];
    for (v, code) in cases.iter() {
        let mut b = start();
        c.encode_unsigned_exp_golomb(&mut b, *v);
        assert_eq!(after_start(b), bits(code));
    }
    let signed: [(i64, &str); 4] = [(0, "1"), (1, "010"), (-1, "011"), (2, "00100")];
    for (v, code) in signed.iter() {
        let mut b = start();
        c.encode_signed_exp_golomb(&mut b, *v);
        assert_eq!(after_start(b), bits(code));
    }
}

#[test]
fn exp_golomb_codes_of_distinct_values_differ() {
    let mut c = BoolCoder::new();
    let mut seen: Vec<Vec<bool>> = vec![];
    for v in 0..64u64 {
        let mut b = start();
        c.encode_unsigned_exp_golomb(&mut b, v);
        let code = after_start(b);
        assert!(!seen.contains(&code));
        seen.push(code);
    }
}

#[test]
fn fixed_length_and_truncated_codes() {
    let c = BoolCoder::new();
    let mut b = start();
    c.encode_fixed_length(&mut b, 5, 7);
    assert_eq!(after_start(b), bits("101"));
    let mut b = start();
    c.encode_trancated_rice(&mut b, 3, 4, 0);
    assert_eq!(after_start(b), bits("1110"));
    let mut b = start();
    c.encode_trancated_rice(&mut b, 4, 4, 0);
    assert_eq!(after_start(b), bits("1111"));
    let mut b = start();
    c.encode_trancated_rice(&mut b, 5, 8, 1);
    assert_eq!(after_start(b), bits("1101"));
    assert_eq!(c.encode_trancated_rice_to_vec(5, 8, 1), bits("1101"));
    let tb: [(usize, &str); 3] = [(2, "10"), (3, "110"), (4, "111")];
    for (v, code) in tb.iter() {
        let mut b = start();
        c.encode_trancated_binary(&mut b, *v, 4);
        assert_eq!(after_start(b), bits(code));
    }
}

#[test]
fn kth_order_exp_golomb_codes() {
    let c = BoolCoder::new();
    let mut b = start();
    c.encode_kth_order_exp_golomb(&mut b, 3, 1);
    assert_eq!(after_start(b), bits("1001"));
    let mut b = start();
    c.encode_kth_order_exp_golomb(&mut b, 0, 0);
    assert_eq!(after_start(b), bits("0"));
    assert_eq!(c.encode_limited_kth_order_exp_golomb_to_vec(0, 1, 11, 15), bits("00"));
    assert_eq!(c.encode_limited_kth_order_exp_golomb_to_vec(5, 1, 11, 15), bits("1011"));
}

#[test]
fn small_binarizations() {
    let c = BoolCoder::new();
    let mut b = start();
    c.encode_intra_chroma_pred_mode(&mut b, 4);
    c.encode_intra_chroma_pred_mode(&mut b, 2);
    assert_eq!(after_start(b), bits("0110"));
    let mut b = start();
    c.encode_inter_pred_idc(&mut b, 1, 8, 8);
    c.encode_inter_pred_idc(&mut b, 1, 4, 8);
    c.encode_inter_pred_idc(&mut b, 2, 8, 8);
    assert_eq!(after_start(b), bits("01 1 1"));
    let mut b = start();
    c.encode_cu_qp_delta_abs(&mut b, 3);
    assert_eq!(after_start(b), bits("1110"));
    let mut b = start();
    c.encode_cu_qp_delta_abs(&mut b, 6);
    assert_eq!(after_start(b), bits("11111 100"));
}

#[test]
fn init_types_follow_slice_type() {
    assert_eq!(BoolCoder::get_init_type(SliceType::I, false), 0);
    assert_eq!(BoolCoder::get_init_type(SliceType::I, true), 0);
    assert_eq!(BoolCoder::get_init_type(SliceType::P, false), 1);
    assert_eq!(BoolCoder::get_init_type(SliceType::P, true), 2);
    assert_eq!(BoolCoder::get_init_type(SliceType::B, false), 2);
    assert_eq!(BoolCoder::get_init_type(SliceType::B, true), 1);
}

#[test]
fn context_state_initialization() {
    // initValue 35: slope 4 - 4 = 0, offset 3 * 18 + 1 = 55: state 55 whatever the QP.
    assert_eq!(init_ctx_state(35, 32), [55 << 3, 55 << 7]);
    assert_eq!(init_ctx_state(35, 0), [55 << 3, 55 << 7]);
    // initValue 63: slope 3, offset 7 * 18 + 1 = 127; QP 37 gives 127 + (3 * 21 >> 1), capped at 127.
    assert_eq!(init_ctx_state(63, 37), [127 << 3, 127 << 7]);
    // initValue 0: slope -4, offset 1; QP 63 gives 1 + (-4 * 47 >> 1) = -93, raised to 1.
    assert_eq!(init_ctx_state(0, 63), [1 << 3, 1 << 7]);
}

#[test]
fn bypass_bins_after_engine_start() {
    let mut c = BoolCoder::new();
    c.init_arithmetic_engine();
    assert_eq!(c.cabac_ivl_curr_range, 510);
    assert_eq!(c.cabac_ivl_offset, 0);
    let mut b = start();
    c.encode_cabac_bypass(&mut b, false);
    assert_eq!(b.num_bins, 1);
    c.encode_cabac_bypass(&mut b, true);
    c.encode_cabac_bypass(&mut b, true);
    assert_eq!(after_start(b), bits("01"));
    assert_eq!(c.cabac_ivl_offset, 506);
}

#[test]
fn terminating_one_flushes_the_engine() {
    let mut c = BoolCoder::new();
    c.init_arithmetic_engine();
    let mut b = start();
    c.encode_arithmetic_stop_one_bit(&mut b, true);
    assert_eq!(after_start(b), bits("1111111 01"));
    assert!(c.cabac_first_bit_flag);
    assert_eq!(c.cabac_bits_outstanding, 0);
}

#[test]
fn context_coded_bins_move_the_state_toward_the_bin() {
    let mut c = BoolCoder::new();
    c.init_ctx_table(26);
    c.init_arithmetic_engine();
    let ctx = CabacContext::SplitCuFlag;
    let before = c.cabac_p_state_idx[ctx.index()][0][0];
    let mut b = start();
    for _ in 0..20 {
        c.encode_arithmetic(&mut b, true, ctx, 0, false, 0);
    }
    let after = c.cabac_p_state_idx[ctx.index()][0][0];
    assert!(after[0] >= before[0] && after[1] >= before[1]);
    assert!(c.cabac_ivl_curr_range >= 256 && c.cabac_ivl_curr_range <= 510);
}

#[test]
fn stored_states_come_back_on_sync() {
    let mut c = BoolCoder::new();
    c.init_ctx_table(30);
    c.storage_ctx_table();
    let stored = c.cabac_p_state_idx.clone();
    c.init_arithmetic_engine();
    let mut b = start();
    for i in 0..10 {
        c.encode_arithmetic(&mut b, i % 2 == 0, CabacContext::SplitCuFlag, 1, false, 0);
    }
    assert_ne!(c.cabac_p_state_idx, stored);
    c.sync_ctx_table();
    assert_eq!(c.cabac_p_state_idx, stored);
}

#[test]
fn syntax_element_with_bypass_bins() {
    let mut c = BoolCoder::new();
    c.init_arithmetic_engine();
    let mut b = start();
    // Truncated binary of 5 below 16: 0101, all four bins in bypass mode.
    c._encode_cabac(&mut b, 5, CabacContext::AlfLumaFixedFilterIdx, SliceType::I, false);
    assert_eq!(after_start(b), bits("010"));
    assert_eq!(c.cabac_ivl_offset, 502);
}

#[test]
fn context_and_bypass_selection() {
    let c = BoolCoder::new();
    assert_eq!(c.derive_context_and_bypass_flag(0, CabacContext::AlfLumaFixedFilterIdx, SliceType::I, false), (0, true));
    assert_eq!(c.derive_context_and_bypass_flag(0, CabacContext::AlfUseApsFlag, SliceType::I, false), (0, false));
    // A P slice counts from the second initialization type's contexts.
    assert_eq!(c.derive_context_and_bypass_flag(0, CabacContext::AlfUseApsFlag, SliceType::P, false), (1, false));
}

#[test]
fn syntax_element_with_a_context_coded_bin() {
    let mut c = BoolCoder::new();
    c.init_ctx_table(26);
    c.init_arithmetic_engine();
    let before = c.cabac_p_state_idx[CabacContext::AlfUseApsFlag.index()][0][0];
    let mut b = start();
    c._encode_cabac(&mut b, 1, CabacContext::AlfUseApsFlag, SliceType::I, false);
    let after = c.cabac_p_state_idx[CabacContext::AlfUseApsFlag.index()][0][0];
    assert_ne!(before, after);
    assert!(c.cabac_ivl_curr_range >= 256 && c.cabac_ivl_curr_range <= 510);
}

#[test]
fn written_bits_pack_into_bytes_most_significant_first() {
    let bits = [true, false, true, true, false, false, false, true, true, true, false, false, true, false, true, false, true, true, false];
    let mut w = BinaryWriter::standard();
    for (n, b) in bits.iter().enumerate() {
        w.write_bit(*b);
        // A byte completes with every eighth bit, and only then.
        assert_eq!(w.output.len(), (n + 1) / 8);
        assert_eq!(w.index, (n + 1) % 8);
    }
    assert_eq!(w.output, vec![0b1011_0001, 0b1100_1010]);
    let out = w.take_output();
    assert_eq!(out, vec![0b1011_0001, 0b1100_1010]);
    assert!(w.output.is_empty());
    assert_eq!(w.index, 3);
}
