//! The range coder: its state tables, the decoder on fixed bytes, and bits
//! and symbols written by the encoder read back by the decoder.

use directx_shader_translate::range_coder::{
    get_symbol, one_state, put_symbol, try_get_symbol, zero_state, RangeDecoderCpu, RangeEncoderCpu,
    DEFAULT_STATE_TRANSITION,
};

#[test]
fn zero_state_and_one_state_satisfy_the_rfc_symmetry_relation() {
    let one = one_state();
    let zero = zero_state();
    for i in 1..256usize {
        let expected = (256u16 - one[256 - i] as u16) as u8;
        assert_eq!(zero[i], expected, "mismatch at i={i}");
    }
    assert_eq!(zero[0], 0);
}

#[test]
fn get_rac_produces_a_deterministic_bit_sequence_from_a_fixed_byte_stream() {
    let bytes = [0x5Au8, 0xA3, 0x12, 0x9F, 0x00, 0xFF, 0x77, 0x88, 0x3C, 0x64];
    let one = one_state();
    let zero = zero_state();
    let mut dec = RangeDecoderCpu::new(&bytes);
    let mut state = 128u8;
    let mut bits = Vec::new();
    for _ in 0..16 {
        bits.push(dec.get_rac(&mut state, &one, &zero));
    }
    let mut dec2 = RangeDecoderCpu::new(&bytes);
    let mut state2 = 128u8;
    let mut bits2 = Vec::new();
    for _ in 0..16 {
        bits2.push(dec2.get_rac(&mut state2, &one, &zero));
    }
    assert_eq!(bits, bits2);
}

#[test]
fn one_state_is_the_default_transition_table() {
    assert_eq!(one_state(), DEFAULT_STATE_TRANSITION);
    assert_eq!(one_state()[128], DEFAULT_STATE_TRANSITION[128]);
}

#[test]
fn zero_state_at_one_is_256_minus_the_last_one_state() {
    let one = one_state();
    assert_eq!(zero_state()[1], (256u16 - one[255] as u16) as u8);
    assert_eq!(zero_state()[128], (256u16 - one[128] as u16) as u8);
}

#[test]
fn get_rac_on_a_fixed_stream_gives_these_bits() {
    // Worked by hand from the decoder's definition: low = 0x5AA3, range =
    // 0xFF00, state 128 splits the range in halves.
    let bytes = [0x5Au8, 0xA3, 0x12, 0x9F];
    let one = one_state();
    let zero = zero_state();
    let mut dec = RangeDecoderCpu::new(&bytes);
    let mut state = 128u8;
    let first = dec.get_rac(&mut state, &one, &zero);
    assert_eq!(first, 0);
    assert_eq!(state, zero[128]);
}

#[test]
fn bits_put_with_one_state_each_are_read_back() {
    let bits = [true, false, false, true, true, true, false, true, false, false, false, true];
    let mut enc = RangeEncoderCpu::new();
    let mut state = 128u8;
    for &b in bits.iter() {
        enc.put_rac(&mut state, b);
    }
    let bytes = enc.finish();
    let one = one_state();
    let zero = zero_state();
    let mut dec = RangeDecoderCpu::new(&bytes);
    let mut state = 128u8;
    for &b in bits.iter() {
        assert_eq!(dec.get_rac(&mut state, &one, &zero), if b { 1 } else { 0 });
    }
}

#[test]
fn long_biased_bit_runs_are_read_back() {
    let mut bits = Vec::new();
    for i in 0..400u32 {
        bits.push(i % 13 == 0 || i % 7 == 3);
    }
    let mut enc = RangeEncoderCpu::new();
    let mut states = [128u8, 10u8, 240u8];
    for (i, &b) in bits.iter().enumerate() {
        enc.put_rac(&mut states[i % 3], b);
    }
    let bytes = enc.finish();
    let one = one_state();
    let zero = zero_state();
    let mut dec = RangeDecoderCpu::new(&bytes);
    let mut states = [128u8, 10u8, 240u8];
    for (i, &b) in bits.iter().enumerate() {
        assert_eq!(dec.get_rac(&mut states[i % 3], &one, &zero), if b { 1 } else { 0 }, "bit {i}");
    }
}

#[test]
fn symbols_put_are_read_back() {
    let values = [0i32, 1, -1, 7, -8, 255, -256, 100000, -100000, 2147483647, -2147483647, 3];
    let mut enc = RangeEncoderCpu::new();
    let mut state = [128u8; 32];
    for &v in values.iter() {
        put_symbol(&mut enc, &mut state, v, true);
    }
    let bytes = enc.finish();
    let mut dec = RangeDecoderCpu::new(&bytes);
    let mut state = [128u8; 32];
    for &v in values.iter() {
        assert_eq!(get_symbol(&mut dec, &mut state, true), v);
    }
}

#[test]
fn unsigned_symbols_put_are_read_back() {
    let values = [0i32, 5, 1, 0, 65535, 9, 0, 0, 1];
    let mut enc = RangeEncoderCpu::new();
    let mut state = [128u8; 32];
    for &v in values.iter() {
        put_symbol(&mut enc, &mut state, v, false);
    }
    let bytes = enc.finish();
    let mut dec = RangeDecoderCpu::new(&bytes);
    let mut state = [128u8; 32];
    for &v in values.iter() {
        assert_eq!(get_symbol(&mut dec, &mut state, false), v);
    }
}

#[test]
fn an_empty_encoding_is_the_single_byte_zero() {
    // low + 0xFF = 0xFF is shifted out as the held-back byte 0, which the
    // second shift writes; the rest the decoder reads as zeros past the end.
    let enc = RangeEncoderCpu::new();
    let bytes = enc.finish();
    assert_eq!(bytes, vec![0u8]);
}

#[test]
fn the_decoder_stays_in_its_window_and_checked_reads_agree() {
    let bytes = [0x5Au8, 0xA3, 0x12, 0x9F, 0x00, 0xFF, 0x77, 0x88, 0x3C, 0x64];
    let one = one_state();
    let zero = zero_state();
    let mut dec = RangeDecoderCpu::new(&bytes);
    let mut state = 128u8;
    for _ in 0..40 {
        assert!(dec.in_window());
        assert!(dec.rac_fits(state));
        dec.get_rac(&mut state, &one, &zero);
    }
    assert!(!RangeDecoderCpu::new(&[0xFF, 0xFF, 0, 0]).in_window());

    let mut enc = RangeEncoderCpu::new();
    let mut st = [128u8; 32];
    for v in [0, 3, -7, 100000, i32::MIN] {
        put_symbol(&mut enc, &mut st, v, true);
    }
    let mut out = enc.finish();
    out.extend_from_slice(&[0, 0, 0, 0]);
    let mut d1 = RangeDecoderCpu::new(&out);
    let mut d2 = RangeDecoderCpu::new(&out);
    let mut s1 = [128u8; 32];
    let mut s2 = [128u8; 32];
    for v in [0, 3, -7, 100000, i32::MIN] {
        assert_eq!(get_symbol(&mut d1, &mut s1, true), v);
        assert_eq!(try_get_symbol(&mut d2, &mut s2, true), Some(v));
    }
}

#[test]
fn a_run_of_get_rac_calls_reads_what_single_calls_read() {
    let bytes = [0x5Au8, 0xA3, 0x12, 0x9F, 0x00, 0xFF, 0x77, 0x88, 0x3C, 0x64];
    let one = one_state();
    let zero = zero_state();
    let mut single = RangeDecoderCpu::new(&bytes);
    let mut s1 = 128u8;
    let singles: Vec<u32> = (0..16).map(|_| single.get_rac(&mut s1, &one, &zero)).collect();
    let mut a = RangeDecoderCpu::new(&bytes);
    let mut b = RangeDecoderCpu::new(&bytes);
    let mut sa = 128u8;
    let mut sb = 128u8;
    let run_a = a.get_rac_run(&mut sa, &one, &zero, 16);
    let run_b = b.get_rac_run(&mut sb, &one, &zero, 16);
    assert_eq!(run_a, singles);
    assert_eq!(run_a, run_b);
    assert_eq!(sa, s1);
    assert_eq!(sa, sb);
}
