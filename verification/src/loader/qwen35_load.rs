//! Uploading a Qwen 3.5 dense model: which bytes of which shard go to the
//! device, converted how and in which order, and what the loaded model holds.
//!
//! A model is a list of requests. A request for half precision gives one
//! upload; one for FP8 gives three, the elements, the scales of their blocks
//! and a unit scale; one for the FP8 head gives two.

use crate::formats::{half_bits_with_payload, half_plus_one};
use crate::loader::qwen35_weights::{
    Qwen35DenseMlpBlock, Qwen35FullAttnLayer, Qwen35Layer, Qwen35LayerAttn, Qwen35LinearAttnLayer,
    Qwen35LoadedModel, Qwen35LoadedOutside,
};
use crate::loader::qwen36_weights::{
    Qwen36PatchMerger, Qwen36Vision, Qwen36VisionBlock, Qwen36VisionPatchEmbed,
};
use crate::loader::shards::{entry_ok, law_merged_is_found, ShardPool};
use crate::loader::weights::{F16Weight, Fp8Weight, ONE_F32_BITS};
use crate::tensor::{copy_shape, DType, LoaderError, LoaderFault, TensorEntry, TensorView};
use crate::text::{cat, cat_num, decimal};
use crate::weight_bytes::{
    bf16_bytes_to_f16_bytes, bf16_bytes_to_f32_bytes, f16_bytes_plus_one, f32_bytes_to_f16_bytes,
    word16, word32,
};
use vstd::prelude::*;
use vstd::string::*;

verus! {

/// Attention class of a layer.
#[derive(Clone, Copy, Debug, PartialEq, Eq, Structural)]
pub enum LayerAttnType {
    Full,
    Linear,
    SlidingAttention,
}

/// How the bytes of a tensor become those of an upload.
#[derive(Clone, Copy, Debug, PartialEq, Eq, Structural)]
pub enum Conversion {
    AsIs,
    Bf16ToHalf,
    SingleToHalf,
    Bf16ToSingle,
}

/// What goes to a region of the device.
#[allow(inconsistent_fields)]
#[derive(Clone, Copy, Debug, PartialEq, Eq, Structural)]
pub enum Source {
    /// A tensor, where wanted with one added to every element.
    Tensor { shard: usize, offset: usize, bytes: usize, conversion: Conversion, plus_one: bool },
    /// The 32-bit number one.
    One,
    /// A tensor in half precision, quantized to FP8.
    QuantizedHead { shard: usize, offset: usize, bytes: usize, conversion: Conversion },
    /// The 32-bit scale of that quantization.
    HeadScale,
}

/// An upload.
#[derive(Clone, Copy, Debug)]
pub struct QwenUpload {
    pub region: &'static str,
    pub bytes: usize,
    pub align: usize,
    pub source: Source,
}

/// What a tensor is wanted for.
#[derive(Clone, Copy, Debug, PartialEq, Eq, Structural)]
pub enum RequestKind {
    /// In half precision.
    Half,
    /// In half precision, with one added to every element.
    HalfPlusOne,
    /// In FP8, with the scales of its blocks.
    Fp8Blocks,
    /// In FP8, quantized on the host.
    Fp8Head,
    /// Only to be there.
    Presence,
}

/// A tensor that is wanted.
#[derive(Debug)]
pub struct Request {
    pub region: &'static str,
    pub name: String,
    pub kind: RequestKind,
}

/// What a [`Request`] stands for.
#[verifier::ext_equal]
pub struct RequestView {
    pub region: &'static str,
    pub name: Seq<char>,
    pub kind: RequestKind,
}

impl View for Request {
    type V = RequestView;

    open spec fn view(&self) -> RequestView {
        RequestView { region: self.region, name: self.name@, kind: self.kind }
    }
}

/// What a list of requests stands for.
pub open spec fn request_views(v: Seq<Request>) -> Seq<RequestView> {
    v.map_values(|r: Request| r@)
}

/// Uploads in order, and what to report after them, if anything.
#[derive(Debug)]
pub struct QwenPlan {
    pub uploads: Vec<QwenUpload>,
    pub failure: Option<LoaderError>,
}

/// What a [`QwenPlan`] stands for.
#[verifier::ext_equal]
pub struct QwenPlanView {
    pub uploads: Seq<QwenUpload>,
    pub failure: Option<LoaderFault>,
}

impl View for QwenPlan {
    type V = QwenPlanView;

    open spec fn view(&self) -> QwenPlanView {
        QwenPlanView {
            uploads: self.uploads@,
            failure: match self.failure {
                Some(e) => Some(e@),
                None => None,
            },
        }
    }
}

impl QwenPlanView {
    /// One list after another; a report ends both.
    pub open spec fn followed_by(self, next: QwenPlanView) -> QwenPlanView {
        if self.failure is Some {
            self
        } else {
            QwenPlanView { uploads: self.uploads + next.uploads, failure: next.failure }
        }
    }
}

impl QwenPlan {
    fn followed_by(self, next: QwenPlan) -> (r: QwenPlan)
        ensures
            r@ == self@.followed_by(next@),
    {
        if self.failure.is_some() {
            return self;
        }
        let mut uploads = self.uploads;
        let mut rest = next.uploads;
        uploads.append(&mut rest);
        QwenPlan { uploads, failure: next.failure }
    }
}

/// Nothing but uploads.
pub open spec fn sends(uploads: Seq<QwenUpload>) -> QwenPlanView {
    QwenPlanView { uploads, failure: None }
}

/// Uploads, and a report behind them.
pub open spec fn stops(uploads: Seq<QwenUpload>, f: LoaderFault) -> QwenPlanView {
    QwenPlanView { uploads, failure: Some(f) }
}

/// How a tensor becomes half precision; none where its element type does not.
pub open spec fn half_conversion(d: DType) -> Option<Conversion> {
    match d {
        DType::F16 => Some(Conversion::AsIs),
        DType::Bf16 => Some(Conversion::Bf16ToHalf),
        DType::F32 => Some(Conversion::SingleToHalf),
        _ => None,
    }
}

/// How the scales of blocks become 32-bit numbers; none where their element
/// type does not.
pub open spec fn scale_conversion(d: DType) -> Option<Conversion> {
    match d {
        DType::Bf16 => Some(Conversion::Bf16ToSingle),
        DType::F32 => Some(Conversion::AsIs),
        _ => None,
    }
}

/// Bytes that a conversion makes of `n` bytes.
pub open spec fn converted_len(c: Conversion, n: nat) -> nat {
    match c {
        Conversion::AsIs => n,
        Conversion::Bf16ToHalf => 2 * (n / 2),
        Conversion::SingleToHalf => 2 * (n / 4),
        Conversion::Bf16ToSingle => 4 * (n / 2),
    }
}

/// Whether bytes are what a conversion makes of others.
pub open spec fn converts(c: Conversion, src: Seq<u8>, out: Seq<u8>) -> bool {
    &&& out.len() == converted_len(c, src.len())
    &&& match c {
        Conversion::AsIs => out == src,
        Conversion::Bf16ToHalf => forall|i: int|
            0 <= i < src.len() / 2 ==> #[trigger] word16(out, i) == half_bits_with_payload(
                (0x1_0000 * word16(src, i)) as u32,
            ),
        Conversion::SingleToHalf => forall|i: int|
            0 <= i < src.len() / 4 ==> #[trigger] word16(out, i) == half_bits_with_payload(
                word32(src, i) as u32,
            ),
        Conversion::Bf16ToSingle => forall|i: int|
            0 <= i < src.len() / 2 ==> #[trigger] word32(out, i) == 0x1_0000 * word16(src, i),
    }
}

/// An element type that does not fit.
pub open spec fn mismatch(e: TensorView, want: DType) -> LoaderFault {
    LoaderFault::DtypeMismatch { tensor: e.name, expected: want, got: e.dtype }
}

fn mismatch_err(e: &TensorEntry, want: DType) -> (r: LoaderError)
    ensures
        r@ == mismatch(e@, want),
{
    LoaderError::DtypeMismatch { tensor: e.name.clone(), expected: want, got: e.dtype }
}

fn copy_bytes(raw: &[u8]) -> (r: Vec<u8>)
    ensures
        r@ == raw@,
{
    let mut r: Vec<u8> = Vec::new();
    let mut i: usize = 0;
    while i < raw.len()
        invariant
            i <= raw@.len(),
            r@ =~= raw@.take(i as int),
        decreases raw@.len() - i,
    {
        r.push(raw[i]);
        i = i + 1;
    }
    assert(r@ =~= raw@);
    r
}

/// What a conversion makes of bytes.
pub fn convert(c: Conversion, raw: &[u8]) -> (r: Vec<u8>)
    requires
        c == Conversion::Bf16ToSingle ==> 2 * raw@.len() <= usize::MAX,
    ensures
        converts(c, raw@, r@),
{
    match c {
        Conversion::AsIs => copy_bytes(raw),
        Conversion::Bf16ToHalf => bf16_bytes_to_f16_bytes(raw),
        Conversion::SingleToHalf => f32_bytes_to_f16_bytes(raw),
        Conversion::Bf16ToSingle => bf16_bytes_to_f32_bytes(raw),
    }
}

fn plan_half_conversion(d: DType) -> (r: Option<Conversion>)
    ensures
        r == half_conversion(d),
{
    match d {
        DType::F16 => Some(Conversion::AsIs),
        DType::Bf16 => Some(Conversion::Bf16ToHalf),
        DType::F32 => Some(Conversion::SingleToHalf),
        _ => None,
    }
}

/// The bytes of a tensor in half precision; refused for an element type that
/// is no 16- or 32-bit number.
pub fn tensor_to_f16_bytes(e: &TensorEntry, raw: &[u8]) -> (r: Result<Vec<u8>, LoaderError>)
    ensures
        match r {
            Ok(out) => half_conversion(e.dtype) matches Some(c) && converts(c, raw@, out@),
            Err(f) => half_conversion(e.dtype) is None && f@ == mismatch(e@, DType::F16),
        },
{
    match plan_half_conversion(e.dtype) {
        Some(c) => Ok(convert(c, raw)),
        None => Err(mismatch_err(e, DType::F16)),
    }
}

/// Bytes that a conversion makes of `n` bytes.
fn plan_converted_len(c: Conversion, n: usize) -> (r: usize)
    requires
        2 * n <= usize::MAX,
    ensures
        r == converted_len(c, n as nat),
{
    match c {
        Conversion::AsIs => n,
        Conversion::Bf16ToHalf => 2 * (n / 2),
        Conversion::SingleToHalf => 2 * (n / 4),
        Conversion::Bf16ToSingle => 4 * (n / 2),
    }
}

/// A tensor in half precision.
pub open spec fn half_plan(
    pool: &ShardPool,
    region: &'static str,
    name: Seq<char>,
    plus_one: bool,
) -> QwenPlanView {
    match pool.found(name) {
        None => stops(Seq::empty(), LoaderFault::MissingTensor { name }),
        Some((si, e)) => match half_conversion(e.dtype) {
            None => stops(Seq::empty(), mismatch(e, DType::F16)),
            Some(c) => sends(
                seq![
                    QwenUpload {
                        region,
                        bytes: converted_len(c, e.nbytes as nat) as usize,
                        align: 16,
                        source: Source::Tensor {
                            shard: si as usize,
                            offset: e.file_offset as usize,
                            bytes: e.nbytes as usize,
                            conversion: c,
                            plus_one,
                        },
                    },
                ],
            ),
        },
    }
}

/// A tensor in FP8 with the scales of its blocks and a unit scale. The scales
/// are looked up once the elements went.
pub open spec fn fp8_plan(pool: &ShardPool, region: &'static str, name: Seq<char>) -> QwenPlanView {
    match pool.found(name) {
        None => stops(Seq::empty(), LoaderFault::MissingTensor { name }),
        Some((si, e)) => if e.dtype != DType::Fp8E4M3 {
            stops(Seq::empty(), mismatch(e, DType::Fp8E4M3))
        } else {
            let elements = QwenUpload {
                region,
                bytes: e.nbytes as usize,
                align: 16,
                source: Source::Tensor {
                    shard: si as usize,
                    offset: e.file_offset as usize,
                    bytes: e.nbytes as usize,
                    conversion: Conversion::AsIs,
                    plus_one: false,
                },
            };
            let scale_name = name + "_scale_inv"@;
            match pool.found(scale_name) {
                None => stops(seq![elements], LoaderFault::MissingTensor { name: scale_name }),
                Some((sj, f)) => match scale_conversion(f.dtype) {
                    None => stops(seq![elements], mismatch(f, DType::F32)),
                    Some(c) => sends(
                        seq![
                            elements,
                            QwenUpload {
                                region: "qwen35_fp8_blockscale",
                                bytes: converted_len(c, f.nbytes as nat) as usize,
                                align: 16,
                                source: Source::Tensor {
                                    shard: sj as usize,
                                    offset: f.file_offset as usize,
                                    bytes: f.nbytes as usize,
                                    conversion: c,
                                    plus_one: false,
                                },
                            },
                            QwenUpload {
                                region: "qwen35_fp8_scale",
                                bytes: 4,
                                align: 4,
                                source: Source::One,
                            },
                        ],
                    ),
                },
            }
        },
    }
}

/// The head in FP8: a byte for each of its half-precision elements, and one
/// 32-bit scale.
pub open spec fn head_plan(pool: &ShardPool, region: &'static str, name: Seq<char>) -> QwenPlanView {
    match pool.found(name) {
        None => stops(Seq::empty(), LoaderFault::MissingTensor { name }),
        Some((si, e)) => match half_conversion(e.dtype) {
            None => stops(Seq::empty(), mismatch(e, DType::F16)),
            Some(c) => sends(
                seq![
                    QwenUpload {
                        region,
                        bytes: (converted_len(c, e.nbytes as nat) / 2) as usize,
                        align: 16,
                        source: Source::QuantizedHead {
                            shard: si as usize,
                            offset: e.file_offset as usize,
                            bytes: e.nbytes as usize,
                            conversion: c,
                        },
                    },
                    QwenUpload {
                        region: "qwen35_lm_head_fp8_scale",
                        bytes: 4,
                        align: 4,
                        source: Source::HeadScale,
                    },
                ],
            ),
        },
    }
}

/// The uploads of a request.
pub open spec fn request_plan(pool: &ShardPool, r: RequestView) -> QwenPlanView {
    match r.kind {
        RequestKind::Half => half_plan(pool, r.region, r.name, false),
        RequestKind::HalfPlusOne => half_plan(pool, r.region, r.name, true),
        RequestKind::Fp8Blocks => fp8_plan(pool, r.region, r.name),
        RequestKind::Fp8Head => head_plan(pool, r.region, r.name),
        RequestKind::Presence => if pool.found(r.name) is Some {
            sends(Seq::empty())
        } else {
            stops(Seq::empty(), LoaderFault::MissingTensor { name: r.name })
        },
    }
}

/// The uploads of the first `n` requests.
pub open spec fn requests_plan(pool: &ShardPool, list: Seq<RequestView>, n: nat) -> QwenPlanView
    decreases n,
{
    if n == 0 {
        sends(Seq::empty())
    } else {
        requests_plan(pool, list, (n - 1) as nat).followed_by(request_plan(pool, list[n - 1]))
    }
}

/// Whether what every tensor becomes can be counted.
pub open spec fn pool_counts(pool: &ShardPool) -> bool {
    forall|i: int| 0 <= i < pool.mmaps@.len() ==> 2 * (#[trigger] pool.mmaps@[i])@.len() <= usize::MAX
}

fn stop(uploads: Vec<QwenUpload>, e: LoaderError) -> (r: QwenPlan)
    ensures
        r@ == stops(uploads@, e@),
{
    QwenPlan { uploads, failure: Some(e) }
}

fn send(uploads: Vec<QwenUpload>) -> (r: QwenPlan)
    ensures
        r@ == sends(uploads@),
{
    QwenPlan { uploads, failure: None }
}

/// A tensor in half precision, where wanted with one added to every element.
pub fn upload_f16(pool: &ShardPool, region: &'static str, name: &String, plus_one: bool) -> (r:
    QwenPlan)
    requires
        pool.wf(),
        pool_counts(pool),
    ensures
        r@ == half_plan(pool, region, name@, plus_one),
{
    let (si, e) = match pool.must_get(name.as_str()) {
        Ok(x) => x,
        Err(f) => {
            return stop(Vec::new(), f);
        },
    };
    let c = match plan_half_conversion(e.dtype) {
        Some(c) => c,
        None => {
            return stop(Vec::new(), mismatch_err(e, DType::F16));
        },
    };
    assert(2 * pool.mmaps@[si as int]@.len() <= usize::MAX);
    let n: usize = e.nbytes as usize;
    let r = send(
        vec![
            QwenUpload {
                region,
                bytes: plan_converted_len(c, n),
                align: 16,
                source: Source::Tensor {
                    shard: si,
                    offset: e.file_offset as usize,
                    bytes: n,
                    conversion: c,
                    plus_one,
                },
            },
        ],
    );
    assert(r@ =~= half_plan(pool, region, name@, plus_one));
    r
}

/// A tensor in FP8 with the scales of its blocks and a unit scale.
pub fn upload_fp8_blockwise(pool: &ShardPool, region: &'static str, name: &String) -> (r: QwenPlan)
    requires
        pool.wf(),
        pool_counts(pool),
    ensures
        r@ == fp8_plan(pool, region, name@),
{
    let (si, e) = match pool.must_get(name.as_str()) {
        Ok(x) => x,
        Err(f) => {
            return stop(Vec::new(), f);
        },
    };
    if e.dtype != DType::Fp8E4M3 {
        return stop(Vec::new(), mismatch_err(e, DType::Fp8E4M3));
    }
    let elements = QwenUpload {
        region,
        bytes: e.nbytes as usize,
        align: 16,
        source: Source::Tensor {
            shard: si,
            offset: e.file_offset as usize,
            bytes: e.nbytes as usize,
            conversion: Conversion::AsIs,
            plus_one: false,
        },
    };
    let scale_name = cat(name.clone(), "_scale_inv");
    let (sj, f) = match pool.must_get(scale_name.as_str()) {
        Ok(x) => x,
        Err(f) => {
            let r = stop(vec![elements], f);
            assert(r@ =~= fp8_plan(pool, region, name@));
            return r;
        },
    };
    let c = match f.dtype {
        DType::Bf16 => Conversion::Bf16ToSingle,
        DType::F32 => Conversion::AsIs,
        _ => {
            let r = stop(vec![elements], mismatch_err(f, DType::F32));
            assert(r@ =~= fp8_plan(pool, region, name@));
            return r;
        },
    };
    assert(2 * pool.mmaps@[sj as int]@.len() <= usize::MAX);
    let n: usize = f.nbytes as usize;
    let scales = QwenUpload {
        region: "qwen35_fp8_blockscale",
        bytes: plan_converted_len(c, n),
        align: 16,
        source: Source::Tensor {
            shard: sj,
            offset: f.file_offset as usize,
            bytes: n,
            conversion: c,
            plus_one: false,
        },
    };
    let one = QwenUpload {
        region: "qwen35_fp8_scale",
        bytes: 4,
        align: 4,
        source: Source::One,
    };
    let r = send(vec![elements, scales, one]);
    assert(r@ =~= fp8_plan(pool, region, name@));
    r
}

/// The head in FP8, quantized on the host.
pub fn upload_lm_head_fp8(pool: &ShardPool, region: &'static str, name: &String) -> (r: QwenPlan)
    requires
        pool.wf(),
        pool_counts(pool),
    ensures
        r@ == head_plan(pool, region, name@),
{
    let (si, e) = match pool.must_get(name.as_str()) {
        Ok(x) => x,
        Err(f) => {
            return stop(Vec::new(), f);
        },
    };
    let c = match plan_half_conversion(e.dtype) {
        Some(c) => c,
        None => {
            return stop(Vec::new(), mismatch_err(e, DType::F16));
        },
    };
    assert(2 * pool.mmaps@[si as int]@.len() <= usize::MAX);
    let n: usize = e.nbytes as usize;
    let head = QwenUpload {
        region,
        bytes: plan_converted_len(c, n) / 2,
        align: 16,
        source: Source::QuantizedHead {
            shard: si,
            offset: e.file_offset as usize,
            bytes: n,
            conversion: c,
        },
    };
    let scale = QwenUpload {
        region: "qwen35_lm_head_fp8_scale",
        bytes: 4,
        align: 4,
        source: Source::HeadScale,
    };
    let r = send(vec![head, scale]);
    assert(r@ =~= head_plan(pool, region, name@));
    r
}

fn plan_request(pool: &ShardPool, q: &Request) -> (r: QwenPlan)
    requires
        pool.wf(),
        pool_counts(pool),
    ensures
        r@ == request_plan(pool, q@),
{
    match q.kind {
        RequestKind::Half => upload_f16(pool, q.region, &q.name, false),
        RequestKind::HalfPlusOne => upload_f16(pool, q.region, &q.name, true),
        RequestKind::Fp8Blocks => upload_fp8_blockwise(pool, q.region, &q.name),
        RequestKind::Fp8Head => upload_lm_head_fp8(pool, q.region, &q.name),
        RequestKind::Presence => match pool.must_get(q.name.as_str()) {
            Ok(_) => send(Vec::new()),
            Err(f) => stop(Vec::new(), f),
        },
    }
}

/// The uploads of a list of requests.
pub fn plan_requests(pool: &ShardPool, list: &Vec<Request>) -> (r: QwenPlan)
    requires
        pool.wf(),
        pool_counts(pool),
    ensures
        r@ == requests_plan(pool, request_views(list@), list@.len()),
{
    let mut r = send(Vec::new());
    let n: usize = list.len();
    let mut i: usize = 0;
    assert(r@ =~= requests_plan(pool, request_views(list@), 0));
    while i < n
        invariant
            pool.wf(),
            pool_counts(pool),
            n == list@.len(),
            i <= n,
            r@ == requests_plan(pool, request_views(list@), i as nat),
        decreases n - i,
    {
        assert(request_views(list@)[i as int] == list@[i as int]@);
        r = r.followed_by(plan_request(pool, &list[i]));
        i = i + 1;
    }
    r
}

/// Whether bytes are what goes to the device of an upload: those of a tensor
/// as the conversion makes them, where wanted with one added to every element,
/// and nothing for what the host computes.
pub open spec fn sent(u: QwenUpload, pool: &ShardPool, out: Seq<u8>) -> bool {
    match u.source {
        Source::Tensor { shard, offset, bytes, conversion, plus_one } => {
            let src = pool.mmaps@[shard as int]@.subrange(offset as int, offset + bytes);
            if plus_one {
                exists|half: Seq<u8>| #[trigger]
                    converts(conversion, src, half) && is_plus_one(half, out)
            } else {
                converts(conversion, src, out)
            }
        },
        _ => out.len() == 0,
    }
}

impl QwenUpload {
    /// What goes to the device of a tensor upload: its bytes as the conversion
    /// makes them, where wanted with one added to every element. Nothing for
    /// what the host computes.
    pub fn device_bytes(&self, pool: &ShardPool) -> (r: Vec<u8>)
        requires
            self.source matches Source::Tensor { shard, offset, bytes, .. } ==> shard
                < pool.mmaps@.len() && offset + bytes <= pool.mmaps@[shard as int]@.len() && 2
                * bytes <= usize::MAX,
        ensures
            sent(*self, pool, r@),
    {
        match self.source {
            Source::Tensor { shard, offset, bytes, conversion, plus_one } => {
                let mm = pool.mmaps[shard];
                let len: usize = mm.len();
                assert(offset + bytes <= len);
                let raw = vstd::slice::slice_subrange(mm, offset, offset + bytes);
                let half = convert(conversion, raw);
                if plus_one {
                    let r = f16_bytes_plus_one(half.as_slice());
                    assert(is_plus_one(half@, r@));
                    r
                } else {
                    half
                }
            },
            _ => Vec::new(),
        }
    }
}

/// Whether every half-precision element is one more than in other bytes.
pub open spec fn is_plus_one(half: Seq<u8>, out: Seq<u8>) -> bool {
    &&& out.len() == half.len()
    &&& half.len() % 2 == 1 ==> out.last() == half.last()
    &&& forall|i: int|
        0 <= i < half.len() / 2 ==> #[trigger] word16(out, i) == half_plus_one(
            word16(half, i) as u16,
        )
}

/// A tensor that is wanted.
pub open spec fn wanted(region: &'static str, name: Seq<char>, kind: RequestKind) -> RequestView {
    RequestView { region, name, kind }
}

fn want(region: &'static str, name: String, kind: RequestKind) -> (r: Request)
    ensures
        r@ == wanted(region, name@, kind),
{
    Request { region, name, kind }
}

/// The name of a tensor of a layer.
pub open spec fn layer_name(l: nat, s: Seq<char>) -> Seq<char> {
    "model.language_model.layers."@ + decimal(l) + "."@ + s
}

fn name_in_layer(l: usize, s: &str) -> (r: String)
    ensures
        r@ == layer_name(l as nat, s@),
{
    cat(cat(cat_num("model.language_model.layers.".to_string(), l as u64), "."), s)
}

/// The name of a tensor of a block of the vision tower.
pub open spec fn block_name(l: nat, s: Seq<char>) -> Seq<char> {
    "model.visual.blocks."@ + decimal(l) + "."@ + s
}

fn name_in_block(l: usize, s: &str) -> (r: String)
    ensures
        r@ == block_name(l as nat, s@),
{
    cat(cat(cat_num("model.visual.blocks.".to_string(), l as u64), "."), s)
}

/// The name of a tensor of the merger of the vision tower.
pub open spec fn merger_name(s: Seq<char>) -> Seq<char> {
    "model.visual.merger."@ + s
}

fn name_in_merger(s: &str) -> (r: String)
    ensures
        r@ == merger_name(s@),
{
    cat("model.visual.merger.".to_string(), s)
}

/// The tensors outside the layers. The final norm is stored without its one.
pub open spec fn outside_requests() -> Seq<RequestView> {
    seq![
        wanted("qwen35_embedding", "model.language_model.embed_tokens.weight"@, RequestKind::Half),
        wanted("qwen35_final_norm", "model.language_model.norm.weight"@, RequestKind::HalfPlusOne),
        wanted("qwen35_lm_head", "lm_head.weight"@, RequestKind::Half),
        wanted("qwen35_lm_head_fp8", "lm_head.weight"@, RequestKind::Fp8Head),
    ]
}

fn plan_outside_requests() -> (r: Vec<Request>)
    ensures
        request_views(r@) == outside_requests(),
{
    let r = vec![
        want(
            "qwen35_embedding",
            "model.language_model.embed_tokens.weight".to_string(),
            RequestKind::Half,
        ),
        want(
            "qwen35_final_norm",
            "model.language_model.norm.weight".to_string(),
            RequestKind::HalfPlusOne,
        ),
        want("qwen35_lm_head", "lm_head.weight".to_string(), RequestKind::Half),
        want("qwen35_lm_head_fp8", "lm_head.weight".to_string(), RequestKind::Fp8Head),
    ];
    assert(request_views(r@) =~= outside_requests());
    r
}

/// The tensors of full attention. Its norms are stored without their one.
pub open spec fn full_attn_requests(l: nat) -> Seq<RequestView> {
    seq![
        wanted(
            "qwen35_input_ln",
            layer_name(l, "input_layernorm.weight"@),
            RequestKind::HalfPlusOne,
        ),
        wanted(
            "qwen35_post_attn_ln",
            layer_name(l, "post_attention_layernorm.weight"@),
            RequestKind::HalfPlusOne,
        ),
        wanted(
            "qwen35_q_norm",
            layer_name(l, "self_attn.q_norm.weight"@),
            RequestKind::HalfPlusOne,
        ),
        wanted(
            "qwen35_k_norm",
            layer_name(l, "self_attn.k_norm.weight"@),
            RequestKind::HalfPlusOne,
        ),
        wanted("qwen35_q_proj", layer_name(l, "self_attn.q_proj.weight"@), RequestKind::Fp8Blocks),
        wanted("qwen35_k_proj", layer_name(l, "self_attn.k_proj.weight"@), RequestKind::Fp8Blocks),
        wanted("qwen35_v_proj", layer_name(l, "self_attn.v_proj.weight"@), RequestKind::Fp8Blocks),
        wanted("qwen35_o_proj", layer_name(l, "self_attn.o_proj.weight"@), RequestKind::Fp8Blocks),
    ]
}

fn plan_full_attn_requests(l: usize) -> (r: Vec<Request>)
    ensures
        request_views(r@) == full_attn_requests(l as nat),
{
    let r = vec![
        want(
            "qwen35_input_ln",
            name_in_layer(l, "input_layernorm.weight"),
            RequestKind::HalfPlusOne,
        ),
        want(
            "qwen35_post_attn_ln",
            name_in_layer(l, "post_attention_layernorm.weight"),
            RequestKind::HalfPlusOne,
        ),
        want(
            "qwen35_q_norm",
            name_in_layer(l, "self_attn.q_norm.weight"),
            RequestKind::HalfPlusOne,
        ),
        want(
            "qwen35_k_norm",
            name_in_layer(l, "self_attn.k_norm.weight"),
            RequestKind::HalfPlusOne,
        ),
        want("qwen35_q_proj", name_in_layer(l, "self_attn.q_proj.weight"), RequestKind::Fp8Blocks),
        want("qwen35_k_proj", name_in_layer(l, "self_attn.k_proj.weight"), RequestKind::Fp8Blocks),
        want("qwen35_v_proj", name_in_layer(l, "self_attn.v_proj.weight"), RequestKind::Fp8Blocks),
        want("qwen35_o_proj", name_in_layer(l, "self_attn.o_proj.weight"), RequestKind::Fp8Blocks),
    ];
    assert(request_views(r@) =~= full_attn_requests(l as nat));
    r
}

/// The tensors of linear attention. The norms of the layer are stored without
/// their one, the gated norm with it.
pub open spec fn linear_attn_requests(l: nat) -> Seq<RequestView> {
    seq![
        wanted(
            "qwen35_input_ln",
            layer_name(l, "input_layernorm.weight"@),
            RequestKind::HalfPlusOne,
        ),
        wanted(
            "qwen35_post_attn_ln",
            layer_name(l, "post_attention_layernorm.weight"@),
            RequestKind::HalfPlusOne,
        ),
        wanted("qwen35_a_log", layer_name(l, "linear_attn.A_log"@), RequestKind::Half),
        wanted("qwen35_dt_bias", layer_name(l, "linear_attn.dt_bias"@), RequestKind::Half),
        wanted("qwen35_conv1d", layer_name(l, "linear_attn.conv1d.weight"@), RequestKind::Half),
        wanted(
            "qwen35_in_proj_a",
            layer_name(l, "linear_attn.in_proj_a.weight"@),
            RequestKind::Half,
        ),
        wanted(
            "qwen35_in_proj_b",
            layer_name(l, "linear_attn.in_proj_b.weight"@),
            RequestKind::Half,
        ),
        wanted("qwen35_la_norm", layer_name(l, "linear_attn.norm.weight"@), RequestKind::Half),
        wanted(
            "qwen35_la_in_qkv",
            layer_name(l, "linear_attn.in_proj_qkv.weight"@),
            RequestKind::Fp8Blocks,
        ),
        wanted(
            "qwen35_la_in_z",
            layer_name(l, "linear_attn.in_proj_z.weight"@),
            RequestKind::Fp8Blocks,
        ),
        wanted(
            "qwen35_la_out",
            layer_name(l, "linear_attn.out_proj.weight"@),
            RequestKind::Fp8Blocks,
        ),
    ]
}

fn plan_linear_attn_requests(l: usize) -> (r: Vec<Request>)
    ensures
        request_views(r@) == linear_attn_requests(l as nat),
{
    let r = vec![
        want(
            "qwen35_input_ln",
            name_in_layer(l, "input_layernorm.weight"),
            RequestKind::HalfPlusOne,
        ),
        want(
            "qwen35_post_attn_ln",
            name_in_layer(l, "post_attention_layernorm.weight"),
            RequestKind::HalfPlusOne,
        ),
        want("qwen35_a_log", name_in_layer(l, "linear_attn.A_log"), RequestKind::Half),
        want("qwen35_dt_bias", name_in_layer(l, "linear_attn.dt_bias"), RequestKind::Half),
        want("qwen35_conv1d", name_in_layer(l, "linear_attn.conv1d.weight"), RequestKind::Half),
        want(
            "qwen35_in_proj_a",
            name_in_layer(l, "linear_attn.in_proj_a.weight"),
            RequestKind::Half,
        ),
        want(
            "qwen35_in_proj_b",
            name_in_layer(l, "linear_attn.in_proj_b.weight"),
            RequestKind::Half,
        ),
        want("qwen35_la_norm", name_in_layer(l, "linear_attn.norm.weight"), RequestKind::Half),
        want(
            "qwen35_la_in_qkv",
            name_in_layer(l, "linear_attn.in_proj_qkv.weight"),
            RequestKind::Fp8Blocks,
        ),
        want(
            "qwen35_la_in_z",
            name_in_layer(l, "linear_attn.in_proj_z.weight"),
            RequestKind::Fp8Blocks,
        ),
        want(
            "qwen35_la_out",
            name_in_layer(l, "linear_attn.out_proj.weight"),
            RequestKind::Fp8Blocks,
        ),
    ];
    assert(request_views(r@) =~= linear_attn_requests(l as nat));
    r
}

/// The tensors of the MLP of a layer.
pub open spec fn mlp_requests(l: nat) -> Seq<RequestView> {
    seq![
        wanted("qwen35_gate_proj", layer_name(l, "mlp.gate_proj.weight"@), RequestKind::Fp8Blocks),
        wanted("qwen35_up_proj", layer_name(l, "mlp.up_proj.weight"@), RequestKind::Fp8Blocks),
        wanted("qwen35_down_proj", layer_name(l, "mlp.down_proj.weight"@), RequestKind::Fp8Blocks),
    ]
}

fn plan_mlp_requests(l: usize) -> (r: Vec<Request>)
    ensures
        request_views(r@) == mlp_requests(l as nat),
{
    let r = vec![
        want("qwen35_gate_proj", name_in_layer(l, "mlp.gate_proj.weight"), RequestKind::Fp8Blocks),
        want("qwen35_up_proj", name_in_layer(l, "mlp.up_proj.weight"), RequestKind::Fp8Blocks),
        want("qwen35_down_proj", name_in_layer(l, "mlp.down_proj.weight"), RequestKind::Fp8Blocks),
    ];
    assert(request_views(r@) =~= mlp_requests(l as nat));
    r
}

/// The tensors of the vision tower in front of its blocks. Those of the patch
/// embedding are looked up before anything goes.
pub open spec fn vision_entry_requests() -> Seq<RequestView> {
    seq![
        wanted("", "model.visual.patch_embed.proj.weight"@, RequestKind::Presence),
        wanted("", "model.visual.patch_embed.proj.bias"@, RequestKind::Presence),
        wanted("qwen35_vis_pe_w", "model.visual.patch_embed.proj.weight"@, RequestKind::Half),
        wanted("qwen35_vis_pe_b", "model.visual.patch_embed.proj.bias"@, RequestKind::Half),
        wanted("qwen35_vis_pos_embed", "model.visual.pos_embed.weight"@, RequestKind::Half),
    ]
}

fn plan_vision_entry_requests() -> (r: Vec<Request>)
    ensures
        request_views(r@) == vision_entry_requests(),
{
    let r = vec![
        want("", "model.visual.patch_embed.proj.weight".to_string(), RequestKind::Presence),
        want("", "model.visual.patch_embed.proj.bias".to_string(), RequestKind::Presence),
        want(
            "qwen35_vis_pe_w",
            "model.visual.patch_embed.proj.weight".to_string(),
            RequestKind::Half,
        ),
        want(
            "qwen35_vis_pe_b",
            "model.visual.patch_embed.proj.bias".to_string(),
            RequestKind::Half,
        ),
        want(
            "qwen35_vis_pos_embed",
            "model.visual.pos_embed.weight".to_string(),
            RequestKind::Half,
        ),
    ];
    assert(request_views(r@) =~= vision_entry_requests());
    r
}

/// The tensors of a block of the vision tower.
pub open spec fn vision_block_requests(l: nat) -> Seq<RequestView> {
    seq![
        wanted("qwen35_vis_n1w", block_name(l, "norm1.weight"@), RequestKind::Half),
        wanted("qwen35_vis_n1b", block_name(l, "norm1.bias"@), RequestKind::Half),
        wanted("qwen35_vis_qkv_w", block_name(l, "attn.qkv.weight"@), RequestKind::Half),
        wanted("qwen35_vis_qkv_b", block_name(l, "attn.qkv.bias"@), RequestKind::Half),
        wanted("qwen35_vis_o_w", block_name(l, "attn.proj.weight"@), RequestKind::Half),
        wanted("qwen35_vis_o_b", block_name(l, "attn.proj.bias"@), RequestKind::Half),
        wanted("qwen35_vis_n2w", block_name(l, "norm2.weight"@), RequestKind::Half),
        wanted("qwen35_vis_n2b", block_name(l, "norm2.bias"@), RequestKind::Half),
        wanted("qwen35_vis_fc1w", block_name(l, "mlp.linear_fc1.weight"@), RequestKind::Half),
        wanted("qwen35_vis_fc1b", block_name(l, "mlp.linear_fc1.bias"@), RequestKind::Half),
        wanted("qwen35_vis_fc2w", block_name(l, "mlp.linear_fc2.weight"@), RequestKind::Half),
        wanted("qwen35_vis_fc2b", block_name(l, "mlp.linear_fc2.bias"@), RequestKind::Half),
    ]
}

fn plan_vision_block_requests(l: usize) -> (r: Vec<Request>)
    ensures
        request_views(r@) == vision_block_requests(l as nat),
{
    let r = vec![
        want("qwen35_vis_n1w", name_in_block(l, "norm1.weight"), RequestKind::Half),
        want("qwen35_vis_n1b", name_in_block(l, "norm1.bias"), RequestKind::Half),
        want("qwen35_vis_qkv_w", name_in_block(l, "attn.qkv.weight"), RequestKind::Half),
        want("qwen35_vis_qkv_b", name_in_block(l, "attn.qkv.bias"), RequestKind::Half),
        want("qwen35_vis_o_w", name_in_block(l, "attn.proj.weight"), RequestKind::Half),
        want("qwen35_vis_o_b", name_in_block(l, "attn.proj.bias"), RequestKind::Half),
        want("qwen35_vis_n2w", name_in_block(l, "norm2.weight"), RequestKind::Half),
        want("qwen35_vis_n2b", name_in_block(l, "norm2.bias"), RequestKind::Half),
        want("qwen35_vis_fc1w", name_in_block(l, "mlp.linear_fc1.weight"), RequestKind::Half),
        want("qwen35_vis_fc1b", name_in_block(l, "mlp.linear_fc1.bias"), RequestKind::Half),
        want("qwen35_vis_fc2w", name_in_block(l, "mlp.linear_fc2.weight"), RequestKind::Half),
        want("qwen35_vis_fc2b", name_in_block(l, "mlp.linear_fc2.bias"), RequestKind::Half),
    ];
    assert(request_views(r@) =~= vision_block_requests(l as nat));
    r
}

/// The tensors of the merger of the vision tower.
pub open spec fn merger_requests() -> Seq<RequestView> {
    seq![
        wanted("qwen35_vis_mg_nw", merger_name("norm.weight"@), RequestKind::Half),
        wanted("qwen35_vis_mg_nb", merger_name("norm.bias"@), RequestKind::Half),
        wanted("qwen35_vis_mg_fc1w", merger_name("linear_fc1.weight"@), RequestKind::Half),
        wanted("qwen35_vis_mg_fc1b", merger_name("linear_fc1.bias"@), RequestKind::Half),
        wanted("qwen35_vis_mg_fc2w", merger_name("linear_fc2.weight"@), RequestKind::Half),
        wanted("qwen35_vis_mg_fc2b", merger_name("linear_fc2.bias"@), RequestKind::Half),
    ]
}

fn plan_merger_requests() -> (r: Vec<Request>)
    ensures
        request_views(r@) == merger_requests(),
{
    let r = vec![
        want("qwen35_vis_mg_nw", name_in_merger("norm.weight"), RequestKind::Half),
        want("qwen35_vis_mg_nb", name_in_merger("norm.bias"), RequestKind::Half),
        want("qwen35_vis_mg_fc1w", name_in_merger("linear_fc1.weight"), RequestKind::Half),
        want("qwen35_vis_mg_fc1b", name_in_merger("linear_fc1.bias"), RequestKind::Half),
        want("qwen35_vis_mg_fc2w", name_in_merger("linear_fc2.weight"), RequestKind::Half),
        want("qwen35_vis_mg_fc2b", name_in_merger("linear_fc2.bias"), RequestKind::Half),
    ];
    assert(request_views(r@) =~= merger_requests());
    r
}

/// Every FP8 tensor has rows, and its blocks of 128 can be counted.
pub open spec fn blocks_count(pool: &ShardPool) -> bool {
    forall|i: int, name: Seq<char>|
        0 <= i < pool.shards@.len() && #[trigger] pool.shards@[i]@.contains_key(name)
            && pool.shards@[i]@[name].dtype == DType::Fp8E4M3 ==> blocks_of(
            pool.shards@[i]@[name].shape,
        )
}

/// Whether the blocks of 128 of a shape can be counted.
pub open spec fn blocks_of(shape: Seq<usize>) -> bool {
    &&& shape.len() >= 1
    &&& shape[0] + 127 <= usize::MAX
    &&& shape.len() >= 2 ==> shape[1] + 127 <= usize::MAX
}

/// A weight in half precision on the device.
pub open spec fn is_half(w: F16Weight, pool: &ShardPool, name: Seq<char>, ptr: u64) -> bool {
    &&& w.offset_bytes == ptr
    &&& pool.found(name) matches Some((si, e)) && w.shape@ == e.shape
}

/// A weight in FP8 on the device: its elements, the scales of its blocks and
/// its unit scale lie at three addresses in a row.
pub open spec fn is_fp8(
    w: Fp8Weight,
    pool: &ShardPool,
    name: Seq<char>,
    ptrs: Seq<u64>,
    at: int,
) -> bool {
    &&& w.offset_bytes == ptrs[at]
    &&& w.blockscale_ptr == Some(ptrs[at + 1])
    &&& w.scale_ptr == ptrs[at + 2]
    &&& w.scale_bits == ONE_F32_BITS
    &&& w.clamp_ppm_bits == 0
    &&& w.dtype == DType::Fp8E4M3
    &&& w.channelscale_ptr is None
    &&& pool.found(name) matches Some((si, e)) && {
        &&& w.shape@ == e.shape
        &&& w.blockscale_n_blocks == ((e.shape[0] + 127) / 128) as u32
        &&& w.blockscale_k_blocks == if e.shape.len() >= 2 {
            ((e.shape[1] + 127) / 128) as u32
        } else {
            0
        }
    }
}

fn half_weight(pool: &ShardPool, name: &String, ptr: u64) -> (r: F16Weight)
    requires
        pool.wf(),
        pool.found(name@) is Some,
    ensures
        is_half(r, pool, name@, ptr),
{
    match pool.lookup(name.as_str()) {
        Some((_, e)) => F16Weight { offset_bytes: ptr, shape: copy_shape(&e.shape) },
        None => F16Weight { offset_bytes: ptr, shape: Vec::new() },
    }
}

fn fp8_weight(pool: &ShardPool, name: &String, ptrs: &Vec<u64>, at: usize) -> (r: Fp8Weight)
    requires
        pool.wf(),
        blocks_count(pool),
        pool.found(name@) matches Some((si, e)) && e.dtype == DType::Fp8E4M3,
        at + 3 <= ptrs@.len(),
    ensures
        is_fp8(r, pool, name@, ptrs@, at as int),
{
    assert(ptrs.len() <= usize::MAX);
    proof {
        law_merged_is_found(pool.shards@, pool.shards@.len(), name@);
    }
    let (shape, n, k) = match pool.lookup(name.as_str()) {
        Some((_, e)) => {
            let k: u32 = if e.shape.len() >= 2 {
                #[verifier::truncate]
                (((e.shape[1] + 127) / 128) as u32)
            } else {
                0
            };
            let n: u32 = #[verifier::truncate]
            (((e.shape[0] + 127) / 128) as u32);
            (copy_shape(&e.shape), n, k)
        },
        None => (Vec::new(), 0, 0),
    };
    Fp8Weight {
        offset_bytes: ptrs[at],
        scale_ptr: ptrs[at + 2],
        shape,
        scale_bits: ONE_F32_BITS,
        clamp_ppm_bits: 0,
        dtype: DType::Fp8E4M3,
        channelscale_ptr: None,
        blockscale_ptr: Some(ptrs[at + 1]),
        blockscale_n_blocks: n,
        blockscale_k_blocks: k,
    }
}

/// Where a list of requests is fulfilled, every one of them is.
proof fn lemma_all_found(pool: &ShardPool, list: Seq<RequestView>, n: nat)
    requires
        requests_plan(pool, list, n).failure is None,
    ensures
        forall|i: int| 0 <= i < n ==> (#[trigger] request_plan(pool, list[i])).failure is None,
    decreases n,
{
    if n > 0 {
        lemma_all_found(pool, list, (n - 1) as nat);
    }
}

/// Full attention on the device, its uploads at consecutive addresses.
pub open spec fn is_full_attn(w: Qwen35FullAttnLayer, pool: &ShardPool, l: nat, ptrs: Seq<u64>, at: int) -> bool {
    &&& is_half(w.input_layernorm, pool, layer_name(l, "input_layernorm.weight"@), ptrs[at])
    &&& is_half(w.post_attention_layernorm, pool, layer_name(l, "post_attention_layernorm.weight"@), ptrs[at + 1])
    &&& is_half(w.q_norm, pool, layer_name(l, "self_attn.q_norm.weight"@), ptrs[at + 2])
    &&& is_half(w.k_norm, pool, layer_name(l, "self_attn.k_norm.weight"@), ptrs[at + 3])
    &&& is_fp8(w.q_proj, pool, layer_name(l, "self_attn.q_proj.weight"@), ptrs, at + 4)
    &&& is_fp8(w.k_proj, pool, layer_name(l, "self_attn.k_proj.weight"@), ptrs, at + 7)
    &&& is_fp8(w.v_proj, pool, layer_name(l, "self_attn.v_proj.weight"@), ptrs, at + 10)
    &&& is_fp8(w.o_proj, pool, layer_name(l, "self_attn.o_proj.weight"@), ptrs, at + 13)
}

fn finish_full_attn(pool: &ShardPool, l: usize, ptrs: &Vec<u64>, at: usize) -> (r: Qwen35FullAttnLayer)
    requires
        pool.wf(),
        blocks_count(pool),
        requests_plan(pool, full_attn_requests(l as nat), 8).failure is None,
        at + 16 <= ptrs@.len(),
    ensures
        is_full_attn(r, pool, l as nat, ptrs@, at as int),
{
    assert(ptrs.len() <= usize::MAX);
    proof {
        lemma_all_found(pool, full_attn_requests(l as nat), 8);
        assert(request_plan(pool, full_attn_requests(l as nat)[0]).failure is None);
        assert(request_plan(pool, full_attn_requests(l as nat)[1]).failure is None);
        assert(request_plan(pool, full_attn_requests(l as nat)[2]).failure is None);
        assert(request_plan(pool, full_attn_requests(l as nat)[3]).failure is None);
        assert(request_plan(pool, full_attn_requests(l as nat)[4]).failure is None);
        assert(request_plan(pool, full_attn_requests(l as nat)[5]).failure is None);
        assert(request_plan(pool, full_attn_requests(l as nat)[6]).failure is None);
        assert(request_plan(pool, full_attn_requests(l as nat)[7]).failure is None);
    }
    Qwen35FullAttnLayer {
        input_layernorm: half_weight(pool, &name_in_layer(l, "input_layernorm.weight"), ptrs[at]),
        post_attention_layernorm: half_weight(
            pool,
            &name_in_layer(l, "post_attention_layernorm.weight"),
            ptrs[at + 1],
        ),
        q_norm: half_weight(pool, &name_in_layer(l, "self_attn.q_norm.weight"), ptrs[at + 2]),
        k_norm: half_weight(pool, &name_in_layer(l, "self_attn.k_norm.weight"), ptrs[at + 3]),
        q_proj: fp8_weight(pool, &name_in_layer(l, "self_attn.q_proj.weight"), ptrs, at + 4),
        k_proj: fp8_weight(pool, &name_in_layer(l, "self_attn.k_proj.weight"), ptrs, at + 7),
        v_proj: fp8_weight(pool, &name_in_layer(l, "self_attn.v_proj.weight"), ptrs, at + 10),
        o_proj: fp8_weight(pool, &name_in_layer(l, "self_attn.o_proj.weight"), ptrs, at + 13),
    }
}

/// Linear attention on the device, its uploads at consecutive addresses.
pub open spec fn is_linear_attn(w: Qwen35LinearAttnLayer, pool: &ShardPool, l: nat, ptrs: Seq<u64>, at: int) -> bool {
    &&& is_half(w.input_layernorm, pool, layer_name(l, "input_layernorm.weight"@), ptrs[at])
    &&& is_half(w.post_attention_layernorm, pool, layer_name(l, "post_attention_layernorm.weight"@), ptrs[at + 1])
    &&& is_half(w.a_log, pool, layer_name(l, "linear_attn.A_log"@), ptrs[at + 2])
    &&& is_half(w.dt_bias, pool, layer_name(l, "linear_attn.dt_bias"@), ptrs[at + 3])
    &&& is_half(w.conv1d, pool, layer_name(l, "linear_attn.conv1d.weight"@), ptrs[at + 4])
    &&& is_half(w.in_proj_a, pool, layer_name(l, "linear_attn.in_proj_a.weight"@), ptrs[at + 5])
    &&& is_half(w.in_proj_b, pool, layer_name(l, "linear_attn.in_proj_b.weight"@), ptrs[at + 6])
    &&& is_half(w.norm, pool, layer_name(l, "linear_attn.norm.weight"@), ptrs[at + 7])
    &&& is_fp8(w.in_proj_qkv, pool, layer_name(l, "linear_attn.in_proj_qkv.weight"@), ptrs, at + 8)
    &&& is_fp8(w.in_proj_z, pool, layer_name(l, "linear_attn.in_proj_z.weight"@), ptrs, at + 11)
    &&& is_fp8(w.out_proj, pool, layer_name(l, "linear_attn.out_proj.weight"@), ptrs, at + 14)
}

fn finish_linear_attn(pool: &ShardPool, l: usize, ptrs: &Vec<u64>, at: usize) -> (r: Qwen35LinearAttnLayer)
    requires
        pool.wf(),
        blocks_count(pool),
        requests_plan(pool, linear_attn_requests(l as nat), 11).failure is None,
        at + 17 <= ptrs@.len(),
    ensures
        is_linear_attn(r, pool, l as nat, ptrs@, at as int),
{
    assert(ptrs.len() <= usize::MAX);
    proof {
        lemma_all_found(pool, linear_attn_requests(l as nat), 11);
        assert(request_plan(pool, linear_attn_requests(l as nat)[0]).failure is None);
        assert(request_plan(pool, linear_attn_requests(l as nat)[1]).failure is None);
        assert(request_plan(pool, linear_attn_requests(l as nat)[2]).failure is None);
        assert(request_plan(pool, linear_attn_requests(l as nat)[3]).failure is None);
        assert(request_plan(pool, linear_attn_requests(l as nat)[4]).failure is None);
        assert(request_plan(pool, linear_attn_requests(l as nat)[5]).failure is None);
        assert(request_plan(pool, linear_attn_requests(l as nat)[6]).failure is None);
        assert(request_plan(pool, linear_attn_requests(l as nat)[7]).failure is None);
        assert(request_plan(pool, linear_attn_requests(l as nat)[8]).failure is None);
        assert(request_plan(pool, linear_attn_requests(l as nat)[9]).failure is None);
        assert(request_plan(pool, linear_attn_requests(l as nat)[10]).failure is None);
    }
    Qwen35LinearAttnLayer {
        input_layernorm: half_weight(pool, &name_in_layer(l, "input_layernorm.weight"), ptrs[at]),
        post_attention_layernorm: half_weight(
            pool,
            &name_in_layer(l, "post_attention_layernorm.weight"),
            ptrs[at + 1],
        ),
        a_log: half_weight(pool, &name_in_layer(l, "linear_attn.A_log"), ptrs[at + 2]),
        dt_bias: half_weight(pool, &name_in_layer(l, "linear_attn.dt_bias"), ptrs[at + 3]),
        conv1d: half_weight(pool, &name_in_layer(l, "linear_attn.conv1d.weight"), ptrs[at + 4]),
        in_proj_a: half_weight(
            pool,
            &name_in_layer(l, "linear_attn.in_proj_a.weight"),
            ptrs[at + 5],
        ),
        in_proj_b: half_weight(
            pool,
            &name_in_layer(l, "linear_attn.in_proj_b.weight"),
            ptrs[at + 6],
        ),
        norm: half_weight(pool, &name_in_layer(l, "linear_attn.norm.weight"), ptrs[at + 7]),
        in_proj_qkv: fp8_weight(
            pool,
            &name_in_layer(l, "linear_attn.in_proj_qkv.weight"),
            ptrs,
            at + 8,
        ),
        in_proj_z: fp8_weight(
            pool,
            &name_in_layer(l, "linear_attn.in_proj_z.weight"),
            ptrs,
            at + 11,
        ),
        out_proj: fp8_weight(pool, &name_in_layer(l, "linear_attn.out_proj.weight"), ptrs, at + 14),
    }
}

/// The MLP of a layer on the device, its uploads at consecutive addresses.
pub open spec fn is_mlp(w: Qwen35DenseMlpBlock, pool: &ShardPool, l: nat, ptrs: Seq<u64>, at: int) -> bool {
    &&& is_fp8(w.gate_proj, pool, layer_name(l, "mlp.gate_proj.weight"@), ptrs, at)
    &&& is_fp8(w.up_proj, pool, layer_name(l, "mlp.up_proj.weight"@), ptrs, at + 3)
    &&& is_fp8(w.down_proj, pool, layer_name(l, "mlp.down_proj.weight"@), ptrs, at + 6)
}

fn finish_mlp(pool: &ShardPool, l: usize, ptrs: &Vec<u64>, at: usize) -> (r: Qwen35DenseMlpBlock)
    requires
        pool.wf(),
        blocks_count(pool),
        requests_plan(pool, mlp_requests(l as nat), 3).failure is None,
        at + 9 <= ptrs@.len(),
    ensures
        is_mlp(r, pool, l as nat, ptrs@, at as int),
{
    assert(ptrs.len() <= usize::MAX);
    proof {
        lemma_all_found(pool, mlp_requests(l as nat), 3);
        assert(request_plan(pool, mlp_requests(l as nat)[0]).failure is None);
        assert(request_plan(pool, mlp_requests(l as nat)[1]).failure is None);
        assert(request_plan(pool, mlp_requests(l as nat)[2]).failure is None);
    }
    Qwen35DenseMlpBlock {
        gate_proj: fp8_weight(pool, &name_in_layer(l, "mlp.gate_proj.weight"), ptrs, at),
        up_proj: fp8_weight(pool, &name_in_layer(l, "mlp.up_proj.weight"), ptrs, at + 3),
        down_proj: fp8_weight(pool, &name_in_layer(l, "mlp.down_proj.weight"), ptrs, at + 6),
    }
}

/// A block of the vision tower on the device, its uploads at consecutive
/// addresses.
pub open spec fn is_vision_block(w: Qwen36VisionBlock, pool: &ShardPool, l: nat, ptrs: Seq<u64>, at: int) -> bool {
    &&& is_half(w.norm1_w, pool, block_name(l, "norm1.weight"@), ptrs[at])
    &&& is_half(w.norm1_b, pool, block_name(l, "norm1.bias"@), ptrs[at + 1])
    &&& is_half(w.qkv_w, pool, block_name(l, "attn.qkv.weight"@), ptrs[at + 2])
    &&& is_half(w.qkv_b, pool, block_name(l, "attn.qkv.bias"@), ptrs[at + 3])
    &&& is_half(w.proj_w, pool, block_name(l, "attn.proj.weight"@), ptrs[at + 4])
    &&& is_half(w.proj_b, pool, block_name(l, "attn.proj.bias"@), ptrs[at + 5])
    &&& is_half(w.norm2_w, pool, block_name(l, "norm2.weight"@), ptrs[at + 6])
    &&& is_half(w.norm2_b, pool, block_name(l, "norm2.bias"@), ptrs[at + 7])
    &&& is_half(w.fc1_w, pool, block_name(l, "mlp.linear_fc1.weight"@), ptrs[at + 8])
    &&& is_half(w.fc1_b, pool, block_name(l, "mlp.linear_fc1.bias"@), ptrs[at + 9])
    &&& is_half(w.fc2_w, pool, block_name(l, "mlp.linear_fc2.weight"@), ptrs[at + 10])
    &&& is_half(w.fc2_b, pool, block_name(l, "mlp.linear_fc2.bias"@), ptrs[at + 11])
}

fn finish_vision_block(pool: &ShardPool, l: usize, ptrs: &Vec<u64>, at: usize) -> (r: Qwen36VisionBlock)
    requires
        pool.wf(),
        blocks_count(pool),
        requests_plan(pool, vision_block_requests(l as nat), 12).failure is None,
        at + 12 <= ptrs@.len(),
    ensures
        is_vision_block(r, pool, l as nat, ptrs@, at as int),
{
    assert(ptrs.len() <= usize::MAX);
    proof {
        lemma_all_found(pool, vision_block_requests(l as nat), 12);
        assert(request_plan(pool, vision_block_requests(l as nat)[0]).failure is None);
        assert(request_plan(pool, vision_block_requests(l as nat)[1]).failure is None);
        assert(request_plan(pool, vision_block_requests(l as nat)[2]).failure is None);
        assert(request_plan(pool, vision_block_requests(l as nat)[3]).failure is None);
        assert(request_plan(pool, vision_block_requests(l as nat)[4]).failure is None);
        assert(request_plan(pool, vision_block_requests(l as nat)[5]).failure is None);
        assert(request_plan(pool, vision_block_requests(l as nat)[6]).failure is None);
        assert(request_plan(pool, vision_block_requests(l as nat)[7]).failure is None);
        assert(request_plan(pool, vision_block_requests(l as nat)[8]).failure is None);
        assert(request_plan(pool, vision_block_requests(l as nat)[9]).failure is None);
        assert(request_plan(pool, vision_block_requests(l as nat)[10]).failure is None);
        assert(request_plan(pool, vision_block_requests(l as nat)[11]).failure is None);
    }
    Qwen36VisionBlock {
        norm1_w: half_weight(pool, &name_in_block(l, "norm1.weight"), ptrs[at]),
        norm1_b: half_weight(pool, &name_in_block(l, "norm1.bias"), ptrs[at + 1]),
        qkv_w: half_weight(pool, &name_in_block(l, "attn.qkv.weight"), ptrs[at + 2]),
        qkv_b: half_weight(pool, &name_in_block(l, "attn.qkv.bias"), ptrs[at + 3]),
        proj_w: half_weight(pool, &name_in_block(l, "attn.proj.weight"), ptrs[at + 4]),
        proj_b: half_weight(pool, &name_in_block(l, "attn.proj.bias"), ptrs[at + 5]),
        norm2_w: half_weight(pool, &name_in_block(l, "norm2.weight"), ptrs[at + 6]),
        norm2_b: half_weight(pool, &name_in_block(l, "norm2.bias"), ptrs[at + 7]),
        fc1_w: half_weight(pool, &name_in_block(l, "mlp.linear_fc1.weight"), ptrs[at + 8]),
        fc1_b: half_weight(pool, &name_in_block(l, "mlp.linear_fc1.bias"), ptrs[at + 9]),
        fc2_w: half_weight(pool, &name_in_block(l, "mlp.linear_fc2.weight"), ptrs[at + 10]),
        fc2_b: half_weight(pool, &name_in_block(l, "mlp.linear_fc2.bias"), ptrs[at + 11]),
    }
}

/// The merger of the vision tower on the device, its uploads at consecutive
/// addresses.
pub open spec fn is_merger(w: Qwen36PatchMerger, pool: &ShardPool, ptrs: Seq<u64>, at: int) -> bool {
    &&& is_half(w.norm_w, pool, merger_name("norm.weight"@), ptrs[at])
    &&& is_half(w.norm_b, pool, merger_name("norm.bias"@), ptrs[at + 1])
    &&& is_half(w.fc1_w, pool, merger_name("linear_fc1.weight"@), ptrs[at + 2])
    &&& is_half(w.fc1_b, pool, merger_name("linear_fc1.bias"@), ptrs[at + 3])
    &&& is_half(w.fc2_w, pool, merger_name("linear_fc2.weight"@), ptrs[at + 4])
    &&& is_half(w.fc2_b, pool, merger_name("linear_fc2.bias"@), ptrs[at + 5])
}

fn finish_merger(pool: &ShardPool, ptrs: &Vec<u64>, at: usize) -> (r: Qwen36PatchMerger)
    requires
        pool.wf(),
        blocks_count(pool),
        requests_plan(pool, merger_requests(), 6).failure is None,
        at + 6 <= ptrs@.len(),
    ensures
        is_merger(r, pool, ptrs@, at as int),
{
    assert(ptrs.len() <= usize::MAX);
    proof {
        lemma_all_found(pool, merger_requests(), 6);
        assert(request_plan(pool, merger_requests()[0]).failure is None);
        assert(request_plan(pool, merger_requests()[1]).failure is None);
        assert(request_plan(pool, merger_requests()[2]).failure is None);
        assert(request_plan(pool, merger_requests()[3]).failure is None);
        assert(request_plan(pool, merger_requests()[4]).failure is None);
        assert(request_plan(pool, merger_requests()[5]).failure is None);
    }
    Qwen36PatchMerger {
        norm_w: half_weight(pool, &name_in_merger("norm.weight"), ptrs[at]),
        norm_b: half_weight(pool, &name_in_merger("norm.bias"), ptrs[at + 1]),
        fc1_w: half_weight(pool, &name_in_merger("linear_fc1.weight"), ptrs[at + 2]),
        fc1_b: half_weight(pool, &name_in_merger("linear_fc1.bias"), ptrs[at + 3]),
        fc2_w: half_weight(pool, &name_in_merger("linear_fc2.weight"), ptrs[at + 4]),
        fc2_b: half_weight(pool, &name_in_merger("linear_fc2.bias"), ptrs[at + 5]),
    }
}

/// The attention tensors of a layer. Everything but full attention is linear.
pub open spec fn attn_requests(ty: LayerAttnType, l: nat) -> Seq<RequestView> {
    match ty {
        LayerAttnType::Full => full_attn_requests(l),
        _ => linear_attn_requests(l),
    }
}

/// The tensors of the outside and of the first `n` layers.
pub open spec fn model_requests(types: Seq<LayerAttnType>, n: nat) -> Seq<RequestView>
    decreases n,
{
    if n == 0 {
        outside_requests()
    } else {
        model_requests(types, (n - 1) as nat) + attn_requests(types[n - 1], (n - 1) as nat)
            + mlp_requests((n - 1) as nat)
    }
}

/// The tensors of the vision tower up to its first `n` blocks.
pub open spec fn vision_requests_to(n: nat) -> Seq<RequestView>
    decreases n,
{
    if n == 0 {
        vision_entry_requests()
    } else {
        vision_requests_to((n - 1) as nat) + vision_block_requests((n - 1) as nat)
    }
}

/// The tensors of the vision tower, which has 27 blocks.
pub open spec fn vision_requests() -> Seq<RequestView> {
    vision_requests_to(27) + merger_requests()
}

/// The uploads of all of a list of requests.
pub open spec fn list_plan(pool: &ShardPool, list: Seq<RequestView>) -> QwenPlanView {
    requests_plan(pool, list, list.len())
}

fn joined_requests(a: Vec<Request>, b: Vec<Request>) -> (r: Vec<Request>)
    ensures
        request_views(r@) == request_views(a@) + request_views(b@),
{
    let mut r = a;
    let mut rest = b;
    r.append(&mut rest);
    assert(request_views(r@) =~= request_views(a@) + request_views(b@));
    r
}

/// The uploads of the tensors outside the layers.
pub fn load_qwen35_outside(pool: &ShardPool) -> (r: QwenPlan)
    requires
        pool.wf(),
        pool_counts(pool),
    ensures
        r@ == list_plan(pool, outside_requests()),
{
    plan_requests(pool, &plan_outside_requests())
}

/// The uploads of a model. The vision tower comes last, and a model without
/// one, or with one that cannot be loaded, is whole.
#[derive(Debug)]
pub struct QwenModelPlan {
    pub text: QwenPlan,
    pub vision: QwenPlan,
}

/// The uploads of a model: the outside, every layer with its MLP, and the
/// vision tower.
pub fn load_qwen35_model(pool: &ShardPool, layer_types: &[LayerAttnType]) -> (r: QwenModelPlan)
    requires
        pool.wf(),
        pool_counts(pool),
    ensures
        r.text@ == list_plan(pool, model_requests(layer_types@, layer_types@.len())),
        r.vision@ == list_plan(pool, vision_requests()),
{
    let mut list = plan_outside_requests();
    let n: usize = layer_types.len();
    let mut l: usize = 0;
    while l < n
        invariant
            n == layer_types@.len(),
            l <= n,
            request_views(list@) == model_requests(layer_types@, l as nat),
        decreases n - l,
    {
        let attn = match layer_types[l] {
            LayerAttnType::Full => plan_full_attn_requests(l),
            _ => plan_linear_attn_requests(l),
        };
        list = joined_requests(joined_requests(list, attn), plan_mlp_requests(l));
        l = l + 1;
    }
    let text = plan_requests(pool, &list);
    assert(request_views(list@).len() == list@.len());
    QwenModelPlan { text, vision: load_qwen35_vision(pool) }
}

/// The uploads of the vision tower.
pub fn load_qwen35_vision(pool: &ShardPool) -> (r: QwenPlan)
    requires
        pool.wf(),
        pool_counts(pool),
    ensures
        r@ == list_plan(pool, vision_requests()),
{
    let mut list = plan_vision_entry_requests();
    let mut i: usize = 0;
    while i < 27
        invariant
            i <= 27,
            request_views(list@) == vision_requests_to(i as nat),
        decreases 27 - i,
    {
        list = joined_requests(list, plan_vision_block_requests(i));
        i = i + 1;
    }
    list = joined_requests(list, plan_merger_requests());
    assert(request_views(list@).len() == list@.len());
    plan_requests(pool, &list)
}

/// The uploads of a request that is fulfilled.
pub open spec fn uploads_of(kind: RequestKind) -> nat {
    match kind {
        RequestKind::Half | RequestKind::HalfPlusOne => 1,
        RequestKind::Fp8Blocks => 3,
        RequestKind::Fp8Head => 2,
        RequestKind::Presence => 0,
    }
}

/// The uploads of the first `n` requests, where they are fulfilled.
pub open spec fn upload_count(list: Seq<RequestView>, n: nat) -> nat
    decreases n,
{
    if n == 0 {
        0
    } else {
        upload_count(list, (n - 1) as nat) + uploads_of(list[n - 1].kind)
    }
}

proof fn lemma_upload_count(pool: &ShardPool, list: Seq<RequestView>, n: nat)
    requires
        requests_plan(pool, list, n).failure is None,
    ensures
        requests_plan(pool, list, n).uploads.len() == upload_count(list, n),
    decreases n,
{
    if n > 0 {
        lemma_upload_count(pool, list, (n - 1) as nat);
    }
}

proof fn lemma_same_beginning(pool: &ShardPool, a: Seq<RequestView>, b: Seq<RequestView>, n: nat)
    requires
        forall|i: int| 0 <= i < n ==> a[i] == b[i],
    ensures
        requests_plan(pool, a, n) == requests_plan(pool, b, n),
        upload_count(a, n) == upload_count(b, n),
    decreases n,
{
    if n > 0 {
        lemma_same_beginning(pool, a, b, (n - 1) as nat);
    }
}

proof fn lemma_joined_to(pool: &ShardPool, a: Seq<RequestView>, b: Seq<RequestView>, m: nat)
    requires
        m <= b.len(),
    ensures
        requests_plan(pool, a + b, a.len() + m) == list_plan(pool, a).followed_by(
            requests_plan(pool, b, m),
        ),
        upload_count(a + b, a.len() + m) == upload_count(a, a.len()) + upload_count(b, m),
    decreases m,
{
    if m == 0 {
        lemma_same_beginning(pool, a + b, a, a.len());
        assert(requests_plan(pool, a + b, a.len() + m) =~= list_plan(pool, a).followed_by(
            requests_plan(pool, b, m),
        ));
    } else {
        lemma_joined_to(pool, a, b, (m - 1) as nat);
        assert((a + b)[a.len() + m - 1] == b[m - 1]);
        assert(requests_plan(pool, a + b, a.len() + m) =~= list_plan(pool, a).followed_by(
            requests_plan(pool, b, m),
        ));
    }
}

/// Two lists of requests in a row are loaded as the first and, where all of it
/// is there, the second.
pub proof fn law_joined_requests(pool: &ShardPool, a: Seq<RequestView>, b: Seq<RequestView>)
    ensures
        list_plan(pool, a + b) == list_plan(pool, a).followed_by(list_plan(pool, b)),
        upload_count(a + b, (a + b).len()) == upload_count(a, a.len()) + upload_count(b, b.len()),
{
    lemma_joined_to(pool, a, b, b.len());
}

/// Where the uploads of layer `l` start: behind the five of the outside and
/// those of the layers in front of it.
pub open spec fn layer_base(types: Seq<LayerAttnType>, l: nat) -> nat
    decreases l,
{
    if l == 0 {
        5
    } else {
        layer_base(types, (l - 1) as nat) + if types[l - 1] == LayerAttnType::Full {
            25nat
        } else {
            26nat
        }
    }
}

/// Uploads of each list of requests.
pub proof fn lemma_counts(l: nat)
    ensures
        upload_count(outside_requests(), 4) == 5,
        upload_count(full_attn_requests(l), 8) == 16,
        upload_count(linear_attn_requests(l), 11) == 17,
        upload_count(mlp_requests(l), 3) == 9,
        upload_count(vision_entry_requests(), 5) == 3,
        upload_count(vision_block_requests(l), 12) == 12,
        upload_count(merger_requests(), 6) == 6,
{
    reveal_with_fuel(upload_count, 13);
}

/// Uploads of the first `n` layers.
pub proof fn lemma_model_count(pool: &ShardPool, types: Seq<LayerAttnType>, n: nat)
    ensures
        upload_count(model_requests(types, n), model_requests(types, n).len()) == layer_base(
            types,
            n,
        ),
    decreases n,
{
    lemma_counts((n - 1) as nat);
    if n > 0 {
        let l = (n - 1) as nat;
        lemma_model_count(pool, types, l);
        let front = model_requests(types, l);
        let attn = attn_requests(types[l as int], l);
        law_joined_requests(pool, front, attn);
        law_joined_requests(pool, front + attn, mlp_requests(l));
    }
}

proof fn lemma_base_grows(types: Seq<LayerAttnType>, a: nat, b: nat)
    requires
        a < b,
    ensures
        layer_base(types, a) + (if types[a as int] == LayerAttnType::Full {
            25nat
        } else {
            26nat
        }) <= layer_base(types, b),
    decreases b,
{
    if a + 1 < b {
        lemma_base_grows(types, a, (b - 1) as nat);
    }
}

/// A model that is all there gives five uploads, 25 more for every layer of
/// full attention and 26 more for every other.
pub proof fn law_model_upload_count(pool: &ShardPool, types: Seq<LayerAttnType>)
    requires
        list_plan(pool, model_requests(types, types.len())).failure is None,
    ensures
        list_plan(pool, model_requests(types, types.len())).uploads.len() == layer_base(
            types,
            types.len(),
        ),
{
    let list = model_requests(types, types.len());
    lemma_model_count(pool, types, types.len());
    lemma_upload_count(pool, list, list.len());
}

/// Where a model is all there, its outside and each of its layers are.
proof fn lemma_model_parts(pool: &ShardPool, types: Seq<LayerAttnType>, n: nat)
    requires
        list_plan(pool, model_requests(types, n)).failure is None,
    ensures
        list_plan(pool, outside_requests()).failure is None,
        forall|l: nat|
            l < n ==> list_plan(pool, #[trigger] attn_requests(types[l as int], l)).failure is None
                && list_plan(pool, mlp_requests(l)).failure is None,
    decreases n,
{
    if n > 0 {
        let l = (n - 1) as nat;
        let front = model_requests(types, l);
        let attn = attn_requests(types[l as int], l);
        law_joined_requests(pool, front, attn);
        law_joined_requests(pool, front + attn, mlp_requests(l));
        lemma_model_parts(pool, types, l);
    }
}

proof fn lemma_vision_parts(pool: &ShardPool, n: nat)
    requires
        list_plan(pool, vision_requests_to(n)).failure is None,
    ensures
        list_plan(pool, vision_entry_requests()).failure is None,
        forall|i: nat|
            i < n ==> list_plan(pool, #[trigger] vision_block_requests(i)).failure is None,
    decreases n,
{
    if n > 0 {
        let l = (n - 1) as nat;
        law_joined_requests(pool, vision_requests_to(l), vision_block_requests(l));
        lemma_vision_parts(pool, l);
    }
}

/// Uploads of the first `n` blocks.
pub proof fn lemma_vision_count(pool: &ShardPool, n: nat)
    ensures
        upload_count(vision_requests_to(n), vision_requests_to(n).len()) == 3 + 12 * n,
    decreases n,
{
    lemma_counts((n - 1) as nat);
    if n > 0 {
        let l = (n - 1) as nat;
        lemma_vision_count(pool, l);
        law_joined_requests(pool, vision_requests_to(l), vision_block_requests(l));
    }
}

/// A vision tower that is all there gives 333 uploads.
pub proof fn law_vision_upload_count(pool: &ShardPool)
    requires
        list_plan(pool, vision_requests()).failure is None,
    ensures
        list_plan(pool, vision_requests()).uploads.len() == 333,
{
    lemma_counts(0);
    lemma_vision_count(pool, 27);
    law_joined_requests(pool, vision_requests_to(27), merger_requests());
    lemma_upload_count(pool, vision_requests(), vision_requests().len());
}

/// Whether what an upload takes lies in the shard that it takes it from.
pub open spec fn upload_in_bounds(pool: &ShardPool, u: QwenUpload) -> bool {
    match u.source {
        Source::Tensor { shard, offset, bytes, .. } => {
            &&& shard < pool.mmaps@.len()
            &&& offset + bytes <= pool.mmaps@[shard as int]@.len()
            &&& 2 * bytes <= usize::MAX
        },
        Source::QuantizedHead { shard, offset, bytes, .. } => {
            &&& shard < pool.mmaps@.len()
            &&& offset + bytes <= pool.mmaps@[shard as int]@.len()
            &&& 2 * bytes <= usize::MAX
        },
        _ => true,
    }
}

/// Every upload takes bytes that its shard has, and its region has the size
/// of what the conversion makes of them.
pub proof fn law_uploads_in_bounds(pool: &ShardPool, list: Seq<RequestView>, n: nat)
    requires
        pool.wf(),
        pool_counts(pool),
    ensures
        forall|i: int|
            0 <= i < requests_plan(pool, list, n).uploads.len() ==> upload_in_bounds(
                pool,
                #[trigger] requests_plan(pool, list, n).uploads[i],
            ) && match requests_plan(pool, list, n).uploads[i].source {
                Source::Tensor { bytes, conversion, .. } => requests_plan(
                    pool,
                    list,
                    n,
                ).uploads[i].bytes == converted_len(conversion, bytes as nat),
                Source::QuantizedHead { bytes, conversion, .. } => requests_plan(
                    pool,
                    list,
                    n,
                ).uploads[i].bytes == converted_len(conversion, bytes as nat) / 2,
                _ => requests_plan(pool, list, n).uploads[i].bytes == 4,
            },
    decreases n,
{
    if n > 0 {
        law_uploads_in_bounds(pool, list, (n - 1) as nat);
        let q = list[n - 1];
        let before = requests_plan(pool, list, (n - 1) as nat);
        let own = request_plan(pool, q);
        assert(pool.mmaps.len() <= usize::MAX);
        law_merged_is_found(pool.shards@, pool.shards@.len(), q.name);
        law_merged_is_found(pool.shards@, pool.shards@.len(), q.name + "_scale_inv"@);
        assert forall|i: int| 0 <= i < own.uploads.len() implies upload_in_bounds(
            pool,
            #[trigger] own.uploads[i],
        ) && match own.uploads[i].source {
            Source::Tensor { bytes, conversion, .. } => own.uploads[i].bytes == converted_len(
                conversion,
                bytes as nat,
            ),
            Source::QuantizedHead { bytes, conversion, .. } => own.uploads[i].bytes
                == converted_len(conversion, bytes as nat) / 2,
            _ => own.uploads[i].bytes == 4,
        } by {
            if let Some((si, e)) = pool.found(q.name) {
                assert(entry_ok(pool.mmaps@[si]@, e));
                assert(2 * pool.mmaps@[si]@.len() <= usize::MAX);
            }
            if let Some((si, e)) = pool.found(q.name + "_scale_inv"@) {
                assert(entry_ok(pool.mmaps@[si]@, e));
                assert(2 * pool.mmaps@[si]@.len() <= usize::MAX);
            }
        }
        let all = requests_plan(pool, list, n).uploads;
        assert forall|i: int| 0 <= i < all.len() implies all[i] == (if i < before.uploads.len() {
            before.uploads[i]
        } else {
            own.uploads[i - before.uploads.len()]
        }) by {}
    }
}

/// Bytes that a tensor takes in half precision.
pub open spec fn half_len(pool: &ShardPool, name: Seq<char>) -> nat {
    let e = (pool.found(name)->0).1;
    converted_len(half_conversion(e.dtype)->0, e.nbytes as nat)
}

fn half_bytes(pool: &ShardPool, name: &str) -> (r: u64)
    requires
        pool.wf(),
        pool_counts(pool),
        pool.found(name@) matches Some((si, e)) && half_conversion(e.dtype) is Some,
    ensures
        r == half_len(pool, name@),
{
    if let Some((si, e)) = pool.lookup(name) {
        assert(2 * pool.mmaps@[si as int]@.len() <= usize::MAX);
        if let Some(c) = plan_half_conversion(e.dtype) {
            return plan_converted_len(c, e.nbytes as usize) as u64;
        }
    }
    0
}

/// What lies outside the layers, on the device.
pub open spec fn is_outside(
    w: Qwen35LoadedOutside,
    pool: &ShardPool,
    ptrs: Seq<u64>,
    scale_bits: u32,
    clamp_ppm_bits: u32,
) -> bool {
    &&& is_half(w.embed_tokens, pool, "model.language_model.embed_tokens.weight"@, ptrs[0])
    &&& is_half(w.final_norm, pool, "model.language_model.norm.weight"@, ptrs[1])
    &&& is_half(w.lm_head, pool, "lm_head.weight"@, ptrs[2])
    &&& w.lm_head_fp8.offset_bytes == ptrs[3]
    &&& w.lm_head_fp8.scale_ptr == ptrs[4]
    &&& w.lm_head_fp8.shape@ == w.lm_head.shape@
    &&& w.lm_head_fp8.scale_bits == scale_bits
    &&& w.lm_head_fp8.clamp_ppm_bits == clamp_ppm_bits
    &&& w.lm_head_fp8.dtype == DType::Fp8E4M3
    &&& w.lm_head_fp8.channelscale_ptr is None
    &&& w.lm_head_fp8.blockscale_ptr is None
    &&& w.lm_head_fp8.blockscale_n_blocks == 0
    &&& w.lm_head_fp8.blockscale_k_blocks == 0
    &&& w.embed_tokens_bytes == half_len(pool, "model.language_model.embed_tokens.weight"@)
    &&& w.final_norm_bytes == half_len(pool, "model.language_model.norm.weight"@)
    &&& w.lm_head_bytes == half_len(pool, "lm_head.weight"@)
    &&& w.lm_head_fp8_bytes == half_len(pool, "lm_head.weight"@) / 2
}

/// What lies outside the layers once its uploads were made, `ptrs` being their
/// addresses in order, and `scale_bits` and `clamp_ppm_bits` what the
/// quantization of the head came to.
pub fn outside_from_uploads(
    pool: &ShardPool,
    ptrs: &Vec<u64>,
    scale_bits: u32,
    clamp_ppm_bits: u32,
) -> (r: Qwen35LoadedOutside)
    requires
        pool.wf(),
        pool_counts(pool),
        list_plan(pool, outside_requests()).failure is None,
        ptrs@.len() >= 5,
    ensures
        is_outside(r, pool, ptrs@, scale_bits, clamp_ppm_bits),
{
    proof {
        lemma_all_found(pool, outside_requests(), 4);
        assert(request_plan(pool, outside_requests()[0]).failure is None);
        assert(request_plan(pool, outside_requests()[1]).failure is None);
        assert(request_plan(pool, outside_requests()[2]).failure is None);
    }
    let embed = "model.language_model.embed_tokens.weight".to_string();
    let norm = "model.language_model.norm.weight".to_string();
    let head = "lm_head.weight".to_string();
    let lm_head = half_weight(pool, &head, ptrs[2]);
    let lm_head_bytes: u64 = half_bytes(pool, "lm_head.weight");
    let lm_head_fp8 = Fp8Weight {
        offset_bytes: ptrs[3],
        scale_ptr: ptrs[4],
        shape: copy_shape(&lm_head.shape),
        scale_bits,
        clamp_ppm_bits,
        dtype: DType::Fp8E4M3,
        channelscale_ptr: None,
        blockscale_ptr: None,
        blockscale_n_blocks: 0,
        blockscale_k_blocks: 0,
    };
    Qwen35LoadedOutside {
        embed_tokens: half_weight(pool, &embed, ptrs[0]),
        final_norm: half_weight(pool, &norm, ptrs[1]),
        lm_head,
        lm_head_fp8,
        embed_tokens_bytes: half_bytes(pool, "model.language_model.embed_tokens.weight"),
        final_norm_bytes: half_bytes(pool, "model.language_model.norm.weight"),
        lm_head_bytes,
        lm_head_fp8_bytes: lm_head_bytes / 2,
    }
}

/// A layer on the device.
pub open spec fn is_layer(
    w: Qwen35Layer,
    pool: &ShardPool,
    ty: LayerAttnType,
    l: nat,
    ptrs: Seq<u64>,
    at: int,
) -> bool {
    match w.attn {
        Qwen35LayerAttn::Full(a) => {
            &&& ty == LayerAttnType::Full
            &&& is_full_attn(a, pool, l, ptrs, at)
            &&& is_mlp(w.mlp, pool, l, ptrs, at + 16)
        },
        Qwen35LayerAttn::Linear(a) => {
            &&& ty != LayerAttnType::Full
            &&& is_linear_attn(a, pool, l, ptrs, at)
            &&& is_mlp(w.mlp, pool, l, ptrs, at + 17)
        },
    }
}

/// The layers once the uploads of the model were made, `ptrs` being their
/// addresses in order.
pub fn layers_from_uploads(
    pool: &ShardPool,
    layer_types: &[LayerAttnType],
    ptrs: &Vec<u64>,
) -> (r: Vec<Qwen35Layer>)
    requires
        pool.wf(),
        blocks_count(pool),
        list_plan(pool, model_requests(layer_types@, layer_types@.len())).failure is None,
        ptrs@.len() == list_plan(
            pool,
            model_requests(layer_types@, layer_types@.len()),
        ).uploads.len(),
    ensures
        r@.len() == layer_types@.len(),
        forall|l: int|
            0 <= l < r@.len() ==> is_layer(
                #[trigger] r@[l],
                pool,
                layer_types@[l],
                l as nat,
                ptrs@,
                layer_base(layer_types@, l as nat) as int,
            ),
{
    proof {
        law_model_upload_count(pool, layer_types@);
        lemma_model_parts(pool, layer_types@, layer_types@.len());
    }
    assert(ptrs.len() <= usize::MAX);
    let mut r: Vec<Qwen35Layer> = Vec::new();
    let n: usize = layer_types.len();
    let mut l: usize = 0;
    let mut at: usize = 5;
    while l < n
        invariant
            pool.wf(),
            blocks_count(pool),
            n == layer_types@.len(),
            l <= n,
            at == layer_base(layer_types@, l as nat),
            ptrs@.len() == layer_base(layer_types@, n as nat),
            ptrs@.len() <= usize::MAX,
            forall|i: nat|
                i < n ==> list_plan(
                    pool,
                    #[trigger] attn_requests(layer_types@[i as int], i),
                ).failure is None && list_plan(pool, mlp_requests(i)).failure is None,
            r@.len() == l,
            forall|i: int|
                0 <= i < l ==> is_layer(
                    #[trigger] r@[i],
                    pool,
                    layer_types@[i],
                    i as nat,
                    ptrs@,
                    layer_base(layer_types@, i as nat) as int,
                ),
        decreases n - l,
    {
        proof {
            lemma_base_grows(layer_types@, l as nat, n as nat);
            assert(list_plan(pool, attn_requests(layer_types@[l as int], l as nat)).failure
                is None);
        }
        let ty = layer_types[l];
        let ghost before = r@;
        if ty == LayerAttnType::Full {
            let attn = finish_full_attn(pool, l, ptrs, at);
            let mlp = finish_mlp(pool, l, ptrs, at + 16);
            r.push(Qwen35Layer { attn: Qwen35LayerAttn::Full(attn), mlp });
            at = at + 25;
        } else {
            let attn = finish_linear_attn(pool, l, ptrs, at);
            let mlp = finish_mlp(pool, l, ptrs, at + 17);
            r.push(Qwen35Layer { attn: Qwen35LayerAttn::Linear(attn), mlp });
            at = at + 26;
        }
        assert(forall|i: int| 0 <= i < l ==> r@[i] == before[i]);
        l = l + 1;
    }
    r
}

/// The vision tower on the device.
pub open spec fn is_vision(w: Qwen36Vision, pool: &ShardPool, ptrs: Seq<u64>) -> bool {
    &&& is_half(
        w.patch_embed.proj_weight,
        pool,
        "model.visual.patch_embed.proj.weight"@,
        ptrs[0],
    )
    &&& is_half(w.patch_embed.proj_bias, pool, "model.visual.patch_embed.proj.bias"@, ptrs[1])
    &&& is_half(w.pos_embed, pool, "model.visual.pos_embed.weight"@, ptrs[2])
    &&& w.blocks@.len() == 27
    &&& forall|i: int|
        0 <= i < 27 ==> is_vision_block(
            #[trigger] w.blocks@[i],
            pool,
            i as nat,
            ptrs,
            3 + 12 * i,
        )
    &&& is_merger(w.merger, pool, ptrs, 327)
}

/// The vision tower once its uploads were made, `ptrs` being their addresses
/// in order.
pub fn vision_from_uploads(pool: &ShardPool, ptrs: &Vec<u64>) -> (r: Qwen36Vision)
    requires
        pool.wf(),
        blocks_count(pool),
        list_plan(pool, vision_requests()).failure is None,
        ptrs@.len() == list_plan(pool, vision_requests()).uploads.len(),
    ensures
        is_vision(r, pool, ptrs@),
{
    proof {
        law_vision_upload_count(pool);
        law_joined_requests(pool, vision_requests_to(27), merger_requests());
        lemma_vision_parts(pool, 27);
        lemma_all_found(pool, vision_entry_requests(), 5);
        assert(request_plan(pool, vision_entry_requests()[2]).failure is None);
        assert(request_plan(pool, vision_entry_requests()[3]).failure is None);
        assert(request_plan(pool, vision_entry_requests()[4]).failure is None);
    }
    let mut blocks: Vec<Qwen36VisionBlock> = Vec::new();
    let mut i: usize = 0;
    while i < 27
        invariant
            pool.wf(),
            blocks_count(pool),
            i <= 27,
            ptrs@.len() == 333,
            forall|j: nat|
                j < 27 ==> list_plan(pool, #[trigger] vision_block_requests(j)).failure is None,
            blocks@.len() == i,
            forall|j: int|
                0 <= j < i ==> is_vision_block(
                    #[trigger] blocks@[j],
                    pool,
                    j as nat,
                    ptrs@,
                    3 + 12 * j,
                ),
        decreases 27 - i,
    {
        assert(list_plan(pool, vision_block_requests(i as nat)).failure is None);
        let ghost before = blocks@;
        blocks.push(finish_vision_block(pool, i, ptrs, 3 + 12 * i));
        assert(forall|j: int| 0 <= j < i ==> blocks@[j] == before[j]);
        i = i + 1;
    }
    let proj_weight = half_weight(
        pool,
        &"model.visual.patch_embed.proj.weight".to_string(),
        ptrs[0],
    );
    let proj_bias = half_weight(pool, &"model.visual.patch_embed.proj.bias".to_string(), ptrs[1]);
    let pos_embed = half_weight(pool, &"model.visual.pos_embed.weight".to_string(), ptrs[2]);
    Qwen36Vision {
        patch_embed: Qwen36VisionPatchEmbed { proj_weight, proj_bias },
        pos_embed,
        blocks,
        merger: finish_merger(pool, ptrs, 327),
    }
}

/// The model once the uploads of its text were made, with the vision tower
/// where that was loaded.
pub fn model_from_uploads(
    pool: &ShardPool,
    layer_types: &[LayerAttnType],
    ptrs: &Vec<u64>,
    scale_bits: u32,
    clamp_ppm_bits: u32,
    vision: Option<Qwen36Vision>,
) -> (r: Qwen35LoadedModel)
    requires
        pool.wf(),
        pool_counts(pool),
        blocks_count(pool),
        list_plan(pool, model_requests(layer_types@, layer_types@.len())).failure is None,
        ptrs@.len() == list_plan(
            pool,
            model_requests(layer_types@, layer_types@.len()),
        ).uploads.len(),
    ensures
        is_outside(r.outside, pool, ptrs@, scale_bits, clamp_ppm_bits),
        r.layers@.len() == layer_types@.len(),
        forall|l: int|
            0 <= l < r.layers@.len() ==> is_layer(
                #[trigger] r.layers@[l],
                pool,
                layer_types@[l],
                l as nat,
                ptrs@,
                layer_base(layer_types@, l as nat) as int,
            ),
        r.vision == vision,
{
    proof {
        law_model_upload_count(pool, layer_types@);
        lemma_model_parts(pool, layer_types@, layer_types@.len());
        if layer_types@.len() > 0 {
            lemma_base_grows(layer_types@, 0, layer_types@.len());
        }
    }
    Qwen35LoadedModel {
        outside: outside_from_uploads(pool, ptrs, scale_bits, clamp_ppm_bits),
        layers: layers_from_uploads(pool, layer_types, ptrs),
        vision,
    }
}

} // verus!
