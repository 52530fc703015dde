//! Number formats, bit by bit.

use rvllm::formats::{
    bf16_to_f32_bits, bf16_to_f32_bits_quiet, f16_plus_one, f16_to_f32_bits, f32_to_bf16_bits,
    f32_to_f16_bits, f32_to_f16_bits_with_payload, f64_to_f32_bits, fp8_e4m3_encode,
    narrow_to_bf16, widen_from_bf16,
};
use rvllm::runtime::gemma4_drafter::load::bf16_to_f16_bytes;
use rvllm::weight_bytes::{
    bf16_bytes_to_f16_bytes, bf16_bytes_to_f32_bytes, bytes_to_wide_words, bytes_to_words,
    f16_bytes_plus_one, f32_bytes_to_f16_bytes, words_to_bytes,
};

fn samples() -> Vec<u32> {
    let mut v = vec![
        0, 1, 0x007f_ffff, 0x0080_0000, 0x3380_0000, 0x3300_0000, 0x3300_0001, 0x387f_e000,
        0x387f_f000, 0x3f80_0000, 0x3f80_1000, 0x3f80_3000, 0x477f_e000, 0x477f_efff, 0x477f_f000,
        0x7f80_0000,
    ];
    let mut x: u32 = 0x1234_5678;
    for _ in 0..20_000 {
        x = x.wrapping_mul(1_664_525).wrapping_add(1_013_904_223);
        if (x & 0x7fff_ffff) <= 0x7f80_0000 {
            v.push(x);
        }
    }
    let neg: Vec<u32> = v.iter().map(|b| b | 0x8000_0000).collect();
    v.extend(neg);
    v
}

#[test]
fn bf16_to_f16_roundtrip_known_values() {
    let raw = vec![0x80, 0x3F, 0x00, 0xC0];
    let out = bf16_to_f16_bytes(&raw);
    assert_eq!(out.len(), 4);
    let v0 = half::f16::from_le_bytes([out[0], out[1]]).to_f32();
    let v1 = half::f16::from_le_bytes([out[2], out[3]]).to_f32();
    assert_eq!(v0, 1.0_f32);
    assert_eq!(v1, -2.0_f32);
}

#[test]
fn half_rounding_agrees_with_the_half_crate() {
    for b in samples() {
        let want = half::f16::from_f32(f32::from_bits(b)).to_bits();
        assert_eq!(f32_to_f16_bits(b), want, "{b:#x}");
        assert_eq!(f32_to_f16_bits_with_payload(b), want, "{b:#x}");
    }
}

#[test]
fn half_keeps_nans() {
    for b in [0x7fc0_0000u32, 0x7f80_0001, 0xffff_ffff, 0x7fa5_1234] {
        let h = f32_to_f16_bits(b);
        assert!(half::f16::from_bits(h).is_nan());
        let p = f32_to_f16_bits_with_payload(b);
        assert_eq!(p, half::f16::from_f32(f32::from_bits(b)).to_bits(), "{b:#x}");
    }
}

#[test]
fn half_widens_exactly() {
    for h in 0..=0xffffu16 {
        let f = half::f16::from_bits(h);
        let got = f16_to_f32_bits(h);
        if f.is_nan() {
            assert!(f32::from_bits(got).is_nan());
        } else {
            assert_eq!(got, f.to_f32().to_bits(), "{h:#x}");
            assert_eq!(f32_to_f16_bits(got), h);
        }
    }
}

#[test]
fn one_more_in_half_precision() {
    for h in 0..=0xffffu16 {
        let f = half::f16::from_bits(h);
        if !f.is_nan() {
            let want = half::f16::from_f32(f.to_f32() + 1.0).to_bits();
            assert_eq!(f16_plus_one(h), want, "{h:#x}");
        }
    }
    assert_eq!(f16_plus_one(0), 0x3c00);
    assert_eq!(f16_plus_one(0xbc00), 0);
    assert_eq!(f16_plus_one(0x7c00), 0x7c00);
}

#[test]
fn bf16_rounding_agrees_with_the_half_crate() {
    for b in samples() {
        let want = half::bf16::from_f32(f32::from_bits(b)).to_bits();
        assert_eq!(f32_to_bf16_bits(b), want, "{b:#x}");
    }
    for h in 0..=0xffffu16 {
        assert_eq!(bf16_to_f32_bits(h), (h as u32) << 16);
        let f = half::bf16::from_bits(h).to_f32();
        assert_eq!(bf16_to_f32_bits_quiet(h), f.to_bits(), "{h:#x}");
    }
}

#[test]
fn lists_of_bf16() {
    let xs = [1.0f32.to_bits(), (-2.5f32).to_bits(), 3.140_625f32.to_bits()];
    let narrow = narrow_to_bf16(&xs);
    assert_eq!(narrow, vec![0x3f80, 0xc020, 0x4049]);
    assert_eq!(widen_from_bf16(&narrow), vec![0x3f80_0000, 0xc020_0000, 0x4049_0000]);
    assert_eq!(words_to_bytes(&narrow), vec![0x80, 0x3f, 0x20, 0xc0, 0x49, 0x40]);
}

#[test]
fn double_to_single_rounds_as_a_cast() {
    let values = [
        0.0f64, -0.0, 1.0, 0.001, 1e-6, 8000.0, 1e-45, 7e-46, 1e-50, 3.5e38, -3.5e38,
        f64::INFINITY, 3.402_823_47e38, 1.000_000_059_604_644_8, 1.175_494_35e-38, 2.5e-40,
        16_777_217.0,
    ];
    for v in values {
        assert_eq!(f64_to_f32_bits(v.to_bits()), (v as f32).to_bits(), "{v}");
    }
    let mut x: u64 = 0x9e37_79b9_7f4a_7c15;
    for _ in 0..20_000 {
        x = x.wrapping_mul(6_364_136_223_846_793_005).wrapping_add(1_442_695_040_888_963_407);
        let exp = 0x360 + (x >> 20) % 0x120;
        let bits = (x & 0x800f_ffff_ffff_ffff) | (exp << 52);
        let v = f64::from_bits(bits);
        assert_eq!(f64_to_f32_bits(bits), (v as f32).to_bits(), "{bits:#x}");
    }
}

fn e4m3_value(c: u8) -> f32 {
    let s = if c >= 0x80 { -1.0 } else { 1.0 };
    let e = ((c >> 3) & 0xf) as i32;
    let m = (c & 7) as f32;
    if e == 0 {
        s * m / 8.0 * 2f32.powi(-6)
    } else {
        s * (1.0 + m / 8.0) * 2f32.powi(e - 7)
    }
}

#[test]
fn e4m3_known_codes() {
    assert_eq!(fp8_e4m3_encode(1.0f32.to_bits()), 0x38);
    assert_eq!(fp8_e4m3_encode((-1.5f32).to_bits()), 0xbc);
    assert_eq!(fp8_e4m3_encode(448.0f32.to_bits()), 0x7e);
    assert_eq!(fp8_e4m3_encode(1e9f32.to_bits()), 0x7e);
    assert_eq!(fp8_e4m3_encode((-1e9f32).to_bits()), 0xfe);
    assert_eq!(fp8_e4m3_encode(f32::NAN.to_bits()), 0x7f);
    assert_eq!(fp8_e4m3_encode(0), 0);
    assert_eq!(fp8_e4m3_encode(0x8000_0000), 0);
    assert_eq!(fp8_e4m3_encode((2f32.powi(-9)).to_bits()), 1);
    assert_eq!(fp8_e4m3_encode((2f32.powi(-10)).to_bits()), 0);
    assert_eq!(fp8_e4m3_encode((2f32.powi(-18)).to_bits()), 0);
    assert_eq!(fp8_e4m3_encode((-2f32.powi(-40)).to_bits()), 0x80);
    assert_eq!(fp8_e4m3_encode(1), 0);
}

#[test]
fn e4m3_codes_come_back() {
    for c in 0..=255u8 {
        if c & 0x7f != 0x7f && c != 0x80 {
            let b = e4m3_value(c).to_bits();
            assert_eq!(fp8_e4m3_encode(b), c, "{c:#x}");
        }
    }
}

#[test]
fn byte_conversions() {
    let raw = [0x80u8, 0x3f, 0x00, 0xc0, 0x7f];
    assert_eq!(bf16_bytes_to_f16_bytes(&raw), vec![0x00, 0x3c, 0x00, 0xc0]);
    assert_eq!(bf16_bytes_to_f32_bytes(&raw), vec![0, 0, 0x80, 0x3f, 0, 0, 0x00, 0xc0]);
    let single: Vec<u8> = 0.5f32.to_le_bytes().iter().chain(&(-3.0f32).to_le_bytes()).copied().collect();
    assert_eq!(f32_bytes_to_f16_bytes(&single), vec![0x00, 0x38, 0x00, 0xc2]);
    assert_eq!(f16_bytes_plus_one(&[0x00, 0x3c, 0x00, 0x00]), vec![0x00, 0x40, 0x00, 0x3c]);
}

#[test]
fn bytes_and_words() {
    assert_eq!(bytes_to_words(&[1, 2, 3, 4, 5]), vec![0x0201, 0x0403]);
    assert_eq!(bytes_to_wide_words(&[1, 2, 3, 0x84, 5, 6]), vec![0x8403_0201]);
    let words = vec![0, 1, 0x00ff, 0xff00, 0xffff];
    assert_eq!(bytes_to_words(&words_to_bytes(&words)), words);
}
