//! Framing of audio for the mel spectrogram: configuration, frame count and
//! which sample goes where.

use crate::formats::{f64_to_f32_bits, single_bits};
use crate::json::{
    double_member, double_of, json_document, json_get, member, parse_json,
    unsigned_member, unsigned_of, JsonTree,
};
use vstd::prelude::*;

verus! {

/// Parameters of the feature extractor. Frequencies and factors are 32-bit
/// numbers, held as bit patterns.
#[derive(Debug, Clone, Copy)]
pub struct MelConfig {
    pub sampling_rate: u32,
    pub n_fft: usize,
    pub frame_length: usize,
    pub hop_length: usize,
    pub n_mels: usize,
    pub min_frequency_bits: u32,
    pub max_frequency_bits: u32,
    pub mel_floor_bits: u32,
    pub preemphasis_bits: u32,
    pub input_scale_factor_bits: u32,
}

/// The entries of a `feature_extractor` section that are read, each `None`
/// where it is absent or of another type. Numbers with a fraction are bit
/// patterns of 64-bit numbers.
#[derive(Debug, Clone, Copy)]
pub struct FeatureExtractorFields {
    pub sampling_rate: Option<u64>,
    pub fft_length: Option<u64>,
    pub frame_length: Option<u64>,
    pub hop_length: Option<u64>,
    pub feature_size: Option<u64>,
    pub min_frequency: Option<u64>,
    pub max_frequency: Option<u64>,
    pub mel_floor: Option<u64>,
    pub preemphasis: Option<u64>,
    pub input_scale_factor: Option<u64>,
}

/// The bit pattern of `1.0` in 64 bits.
pub const ONE_F64_BITS: u64 = 0x3ff0_0000_0000_0000;

/// The section of a document.
pub open spec fn fields_of(t: JsonTree) -> FeatureExtractorFields {
    FeatureExtractorFields {
        sampling_rate: unsigned_of(member(t, "sampling_rate"@)),
        fft_length: unsigned_of(member(t, "fft_length"@)),
        frame_length: unsigned_of(member(t, "frame_length"@)),
        hop_length: unsigned_of(member(t, "hop_length"@)),
        feature_size: unsigned_of(member(t, "feature_size"@)),
        min_frequency: double_of(member(t, "min_frequency"@)),
        max_frequency: double_of(member(t, "max_frequency"@)),
        mel_floor: double_of(member(t, "mel_floor"@)),
        preemphasis: double_of(member(t, "preemphasis"@)),
        input_scale_factor: double_of(member(t, "input_scale_factor"@)),
    }
}

/// The configuration that a section describes, if it has every entry but the
/// scale factor, which is one where absent.
pub open spec fn mel_config_of(f: FeatureExtractorFields) -> Option<MelConfig> {
    if f.sampling_rate is Some && f.fft_length is Some && f.frame_length is Some && f.hop_length
        is Some && f.feature_size is Some && f.min_frequency is Some && f.max_frequency is Some
        && f.mel_floor is Some && f.preemphasis is Some {
        Some(
            MelConfig {
                sampling_rate: f.sampling_rate->0 as u32,
                n_fft: f.fft_length->0 as usize,
                frame_length: f.frame_length->0 as usize,
                hop_length: f.hop_length->0 as usize,
                n_mels: f.feature_size->0 as usize,
                min_frequency_bits: single_bits(f.min_frequency->0) as u32,
                max_frequency_bits: single_bits(f.max_frequency->0) as u32,
                mel_floor_bits: single_bits(f.mel_floor->0) as u32,
                preemphasis_bits: single_bits(f.preemphasis->0) as u32,
                input_scale_factor_bits: single_bits(
                    match f.input_scale_factor {
                        Some(x) => x,
                        None => ONE_F64_BITS,
                    },
                ) as u32,
            },
        )
    } else {
        None
    }
}

/// What a processor configuration describes: nothing where the bytes are no
/// JSON document or it has no such section.
pub open spec fn mel_config_in(doc: Result<JsonTree, Seq<char>>) -> Option<MelConfig> {
    match doc {
        Ok(t) => match member(t, "feature_extractor"@) {
            Some(fe) => mel_config_of(fields_of(fe)),
            None => None,
        },
        Err(_) => None,
    }
}

impl MelConfig {
    /// Gemma 4 E4B: 16 kHz, 512-point transform of 320-sample windows every
    /// 160 samples, 128 mel bands from 0 to 8000 Hz, floor 0.001.
    pub fn gemma4_e4b() -> (r: MelConfig)
        ensures
            r == (MelConfig {
                sampling_rate: 16_000,
                n_fft: 512,
                frame_length: 320,
                hop_length: 160,
                n_mels: 128,
                min_frequency_bits: 0,
                max_frequency_bits: 0x45fa_0000,
                mel_floor_bits: 0x3a83_126f,
                preemphasis_bits: 0,
                input_scale_factor_bits: 0x3f80_0000,
            }),
    {
        MelConfig {
            sampling_rate: 16_000,
            n_fft: 512,
            frame_length: 320,
            hop_length: 160,
            n_mels: 128,
            min_frequency_bits: 0,
            max_frequency_bits: 0x45fa_0000,
            mel_floor_bits: 0x3a83_126f,
            preemphasis_bits: 0,
            input_scale_factor_bits: 0x3f80_0000,
        }
    }

    /// The configuration that the entries of a section describe.
    pub fn from_fields(f: &FeatureExtractorFields) -> (r: Option<MelConfig>)
        ensures
            r == mel_config_of(*f),
    {
        let scale: u64 = match f.input_scale_factor {
            Some(x) => x,
            None => ONE_F64_BITS,
        };
        match (
            f.sampling_rate,
            f.fft_length,
            f.frame_length,
            f.hop_length,
            f.feature_size,
            f.min_frequency,
            f.max_frequency,
            f.mel_floor,
            f.preemphasis,
        ) {
            (
                Some(sampling_rate),
                Some(fft_length),
                Some(frame_length),
                Some(hop_length),
                Some(feature_size),
                Some(min_frequency),
                Some(max_frequency),
                Some(mel_floor),
                Some(preemphasis),
            ) => Some(
                MelConfig {
                    sampling_rate: sampling_rate as u32,
                    n_fft: fft_length as usize,
                    frame_length: frame_length as usize,
                    hop_length: hop_length as usize,
                    n_mels: feature_size as usize,
                    min_frequency_bits: f64_to_f32_bits(min_frequency),
                    max_frequency_bits: f64_to_f32_bits(max_frequency),
                    mel_floor_bits: f64_to_f32_bits(mel_floor),
                    preemphasis_bits: f64_to_f32_bits(preemphasis),
                    input_scale_factor_bits: f64_to_f32_bits(scale),
                },
            ),
            _ => None,
        }
    }

    /// Reads the configuration out of the bytes of a processor configuration;
    /// nothing on any structural failure.
    pub fn from_processor_config(json_bytes: &[u8]) -> (r: Option<MelConfig>)
        ensures
            r == mel_config_in(json_document(json_bytes@)),
    {
        let v = match parse_json(json_bytes) {
            Ok(v) => v,
            Err(_) => {
                return None;
            },
        };
        let fe = match json_get(&v, "feature_extractor") {
            Some(fe) => fe,
            None => {
                return None;
            },
        };
        let f = FeatureExtractorFields {
            sampling_rate: unsigned_member(fe, "sampling_rate"),
            fft_length: unsigned_member(fe, "fft_length"),
            frame_length: unsigned_member(fe, "frame_length"),
            hop_length: unsigned_member(fe, "hop_length"),
            feature_size: unsigned_member(fe, "feature_size"),
            min_frequency: double_member(fe, "min_frequency"),
            max_frequency: double_member(fe, "max_frequency"),
            mel_floor: double_member(fe, "mel_floor"),
            preemphasis: double_member(fe, "preemphasis"),
            input_scale_factor: double_member(fe, "input_scale_factor"),
        };
        MelConfig::from_fields(&f)
    }
}

/// Number of windows of `frame` samples, `hop` apart, in `n` samples.
pub open spec fn frame_count(n: nat, frame: nat, hop: nat) -> nat {
    if n < frame {
        0
    } else {
        (n - frame) as nat / hop + 1
    }
}

/// Frames audio for a configuration.
#[derive(Debug, Clone, Copy)]
pub struct MelExtractor {
    pub cfg: MelConfig,
}

impl MelExtractor {
    /// An extractor for a configuration.
    pub fn new(cfg: MelConfig) -> (r: MelExtractor)
        ensures
            r.cfg == cfg,
    {
        MelExtractor { cfg }
    }

    /// Number of mel bands.
    pub fn n_mels(&self) -> (r: usize)
        ensures
            r == self.cfg.n_mels,
    {
        self.cfg.n_mels
    }

    /// Number of frames that a number of samples gives.
    pub fn num_frames(&self, n_samples: usize) -> (r: usize)
        requires
            n_samples >= self.cfg.frame_length ==> self.cfg.hop_length > 0,
            n_samples == usize::MAX && self.cfg.frame_length == 0 ==> self.cfg.hop_length > 1,
        ensures
            r == frame_count(
                n_samples as nat,
                self.cfg.frame_length as nat,
                self.cfg.hop_length as nat,
            ),
    {
        if n_samples < self.cfg.frame_length {
            0
        } else {
            let q: usize = (n_samples - self.cfg.frame_length) / self.cfg.hop_length;
            assert(q < usize::MAX) by (nonlinear_arith)
                requires
                    q == (n_samples - self.cfg.frame_length) / self.cfg.hop_length as int,
                    self.cfg.hop_length > 0,
                    n_samples == usize::MAX && self.cfg.frame_length == 0 ==> self.cfg.hop_length
                        > 1,
                    n_samples >= self.cfg.frame_length,
                    n_samples <= usize::MAX,
            ;
            q + 1
        }
    }

    /// The sample that fills a place of the transform of a frame; `None`
    /// where the place is padding.
    pub fn frame_sample(&self, n_samples: usize, frame: usize, place: usize) -> (r: Option<usize>)
        requires
            self.cfg.hop_length > 0,
            frame < frame_count(
                n_samples as nat,
                self.cfg.frame_length as nat,
                self.cfg.hop_length as nat,
            ),
            place < self.cfg.n_fft,
        ensures
            r == (if place < self.cfg.frame_length {
                Some((frame * self.cfg.hop_length + place) as usize)
            } else {
                None
            }),
            r matches Some(i) ==> i < n_samples && i == frame * self.cfg.hop_length + place,
    {
        proof {
            law_frames_fit(
                n_samples as nat,
                self.cfg.frame_length as nat,
                self.cfg.hop_length as nat,
                frame as nat,
            );
        }
        if place < self.cfg.frame_length {
            Some(frame * self.cfg.hop_length + place)
        } else {
            None
        }
    }
}

/// Every counted frame lies within the samples, and no further one does.
pub proof fn law_frames_fit(n: nat, frame: nat, hop: nat, k: nat)
    requires
        hop > 0,
    ensures
        k < frame_count(n, frame, hop) <==> k * hop + frame <= n,
{
    if n >= frame {
        let room = (n - frame) as nat;
        vstd::arithmetic::div_mod::lemma_fundamental_div_mod(room as int, hop as int);
        let q = room / hop;
        assert(k <= q <==> k * hop <= room) by (nonlinear_arith)
            requires
                room == hop * q + room % hop,
                0 <= room % hop < hop,
                hop > 0,
        ;
    } else {
        assert(k * hop >= 0) by (nonlinear_arith);
    }
}

/// More samples never give fewer frames.
pub proof fn law_frames_monotone(n: nat, m: nat, frame: nat, hop: nat)
    requires
        hop > 0,
        n <= m,
    ensures
        frame_count(n, frame, hop) <= frame_count(m, frame, hop),
{
    if n >= frame {
        vstd::arithmetic::div_mod::lemma_div_is_ordered(n - frame, m - frame, hop as int);
    }
}

/// Whether a 32-bit pattern is the number of an entry, rounded.
pub open spec fn is_rounded_entry(bits: u32, entry: Option<JsonTree>) -> bool {
    entry matches Some(JsonTree::Number { double: Some(d), .. }) && bits == single_bits(d) as u32
}

/// Every number of a configuration is that of the entry of its name in the
/// section; the scale factor is one where the section has none.
pub proof fn law_mel_entries(t: JsonTree, c: MelConfig)
    requires
        mel_config_in(Ok(t)) == Some(c),
    ensures
        ({
            let s = member(t, "feature_extractor"@)->Some_0;
            &&& member(t, "feature_extractor"@) is Some
            &&& unsigned_of(member(s, "sampling_rate"@)) matches Some(u) && c.sampling_rate
                == u as u32
            &&& unsigned_of(member(s, "fft_length"@)) matches Some(u) && c.n_fft == u as usize
            &&& unsigned_of(member(s, "frame_length"@)) matches Some(u) && c.frame_length
                == u as usize
            &&& unsigned_of(member(s, "hop_length"@)) matches Some(u) && c.hop_length == u as usize
            &&& unsigned_of(member(s, "feature_size"@)) matches Some(u) && c.n_mels == u as usize
            &&& is_rounded_entry(c.min_frequency_bits, member(s, "min_frequency"@))
            &&& is_rounded_entry(c.max_frequency_bits, member(s, "max_frequency"@))
            &&& is_rounded_entry(c.mel_floor_bits, member(s, "mel_floor"@))
            &&& is_rounded_entry(c.preemphasis_bits, member(s, "preemphasis"@))
            &&& is_rounded_entry(c.input_scale_factor_bits, member(s, "input_scale_factor"@))
                || double_of(member(s, "input_scale_factor"@)) is None
                && c.input_scale_factor_bits == single_bits(0x3ff0_0000_0000_0000) as u32
        }),
{
}

/// A window more than the last does not fit: the frames are all that there
/// are.
pub proof fn law_frames_are_all(n: nat, frame: nat, hop: nat)
    requires
        hop > 0,
    ensures
        frame_count(n, frame, hop) * hop + frame > n,
{
    if n >= frame {
        let k = (n - frame) as nat / hop;
        vstd::arithmetic::div_mod::lemma_fundamental_div_mod((n - frame) as int, hop as int);
        assert((k + 1) * hop > n - frame) by (nonlinear_arith)
            requires
                n - frame == hop * k + (n - frame) as int % hop as int,
                0 <= (n - frame) as int % hop as int,
                (n - frame) as int % (hop as int) < hop,
                hop > 0,
        ;
    } else {
        assert(0 * hop == 0);
    }
}

} // verus!
