//! Framing of audio.

use rvllm::runtime::audio_preprocess::{MelConfig, MelExtractor};

const PROCESSOR: &str = r#"{
  "feature_extractor": {
    "feature_size": 128,
    "fft_length": 512,
    "frame_length": 320,
    "hop_length": 160,
    "input_scale_factor": 1.0,
    "max_frequency": 8000.0,
    "mel_floor": 0.001,
    "min_frequency": 0.0,
    "preemphasis": 0.0,
    "sampling_rate": 16000
  }
}"#;

#[test]
fn config_from_real_processor_config() {
    let cfg = MelConfig::from_processor_config(PROCESSOR.as_bytes())
        .expect("parse E4B processor_config");
    assert_eq!(cfg.sampling_rate, 16_000);
    assert_eq!(cfg.n_fft, 512);
    assert_eq!(cfg.frame_length, 320);
    assert_eq!(cfg.hop_length, 160);
    assert_eq!(cfg.n_mels, 128);
    assert_eq!(f32::from_bits(cfg.min_frequency_bits), 0.0);
    assert_eq!(f32::from_bits(cfg.max_frequency_bits), 8_000.0);
    assert!((f32::from_bits(cfg.mel_floor_bits) - 0.001).abs() < 1e-9);
}

#[test]
fn built_in_config_is_the_parsed_one() {
    let a = MelConfig::from_processor_config(PROCESSOR.as_bytes()).unwrap();
    let b = MelConfig::gemma4_e4b();
    assert_eq!(a.mel_floor_bits, b.mel_floor_bits);
    assert_eq!(a.max_frequency_bits, b.max_frequency_bits);
    assert_eq!(a.input_scale_factor_bits, b.input_scale_factor_bits);
    assert_eq!(f32::from_bits(b.mel_floor_bits), 0.001f32);
}

#[test]
fn config_needs_every_entry_but_the_scale() {
    let no_scale = PROCESSOR.replace("\"input_scale_factor\": 1.0,", "");
    let cfg = MelConfig::from_processor_config(no_scale.as_bytes()).unwrap();
    assert_eq!(f32::from_bits(cfg.input_scale_factor_bits), 1.0);
    for key in ["hop_length", "mel_floor", "preemphasis", "sampling_rate", "feature_extractor"] {
        let bad = PROCESSOR.replace(key, "other");
        assert!(MelConfig::from_processor_config(bad.as_bytes()).is_none(), "{key}");
    }
    assert!(MelConfig::from_processor_config(b"[1, 2").is_none());
    let wrong_type = PROCESSOR.replace("\"hop_length\": 160", "\"hop_length\": -1");
    assert!(MelConfig::from_processor_config(wrong_type.as_bytes()).is_none());
}

#[test]
fn num_frames_matches_hop() {
    let extr = MelExtractor::new(MelConfig::gemma4_e4b());
    assert_eq!(extr.num_frames(16_000), 99);
    assert_eq!(extr.num_frames(100), 0);
    assert_eq!(extr.num_frames(320), 1);
}

#[test]
fn frames_stay_in_the_samples() {
    let extr = MelExtractor::new(MelConfig::gemma4_e4b());
    assert_eq!(extr.n_mels(), 128);
    for n in [0, 319, 320, 479, 480, 481, 16_000] {
        let t = extr.num_frames(n);
        if t > 0 {
            assert!((t - 1) * 160 + 320 <= n);
            assert!(t * 160 + 320 > n);
        }
    }
}
