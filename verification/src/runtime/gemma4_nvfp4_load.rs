//! Uploading the NVFP4 text model: which bytes of which shard go to the
//! device, in which order, and what the loaded model holds.

use crate::loader::gemma4_arch::{Gemma4Arch, Gemma4LayerType};
use crate::loader::gemma4_nvfp4_weights::{
    inventory_fault, is_scalar_shape, kind_at, linear_base, validate_gemma4_nvfp4_inventory,
    Gemma4Nvfp4LayerLoaded, Gemma4Nvfp4LinearLoaded, Gemma4Nvfp4LoadedModel, Gemma4Nvfp4MlpKind,
    Gemma4Nvfp4OutsideText,
};
use crate::loader::shards::{count_elems, elems, law_merged_is_found, merged_view, ShardPool};
use crate::loader::weights::{F16Weight, Nvfp4LinearShape};
use crate::tensor::{
    cat_dtype, copy_shape, corrupt, dtype_text, same_shape, DType, LoaderError, LoaderFault,
    TensorMap, TensorView,
};
use crate::text::{cat, cat_list, cat_num, decimal, list_text};
use crate::weight_bytes::word32;
use vstd::prelude::*;
use vstd::slice::slice_subrange;
use vstd::string::*;

verus! {

/// Bytes of a shard that go to a region of the device.
#[derive(Clone, Copy, Debug)]
pub struct Upload {
    pub region: &'static str,
    pub align: usize,
    pub shard: usize,
    pub offset: usize,
    pub bytes: usize,
    /// Whether the bytes are a 32-bit number of which the inverse goes.
    pub inverse: bool,
}

/// Uploads in order, and what to report after them, if anything.
#[derive(Debug)]
pub struct UploadPlan {
    pub uploads: Vec<Upload>,
    pub failure: Option<LoaderError>,
}

/// What an [`UploadPlan`] stands for.
#[verifier::ext_equal]
pub struct UploadView {
    pub uploads: Seq<Upload>,
    pub failure: Option<LoaderFault>,
}

impl View for UploadPlan {
    type V = UploadView;

    open spec fn view(&self) -> UploadView {
        UploadView {
            uploads: self.uploads@,
            failure: match self.failure {
                Some(e) => Some(e@),
                None => None,
            },
        }
    }
}

/// Nothing goes, nothing is reported.
pub open spec fn no_upload() -> UploadView {
    UploadView { uploads: Seq::empty(), failure: None }
}

/// One upload.
pub open spec fn one_upload(u: Upload) -> UploadView {
    UploadView { uploads: seq![u], failure: None }
}

/// Nothing but a report.
pub open spec fn report(f: LoaderFault) -> UploadView {
    UploadView { uploads: Seq::empty(), failure: Some(f) }
}

impl UploadView {
    /// One list after another; a report ends both.
    pub open spec fn followed_by(self, next: UploadView) -> UploadView {
        if self.failure is Some {
            self
        } else {
            UploadView { uploads: self.uploads + next.uploads, failure: next.failure }
        }
    }
}

impl UploadPlan {
    fn one(u: Upload) -> (r: UploadPlan)
        ensures
            r@ == one_upload(u),
    {
        let r = UploadPlan { uploads: vec![u], failure: None };
        assert(r@ =~= one_upload(u));
        r
    }

    fn nothing() -> (r: UploadPlan)
        ensures
            r@ == no_upload(),
    {
        let r = UploadPlan { uploads: Vec::new(), failure: None };
        assert(r@ =~= no_upload());
        r
    }

    fn report(e: LoaderError) -> (r: UploadPlan)
        ensures
            r@ == report(e@),
    {
        let r = UploadPlan { uploads: Vec::new(), failure: Some(e) };
        assert(r@ =~= report(e@));
        r
    }

    fn followed_by(self, next: UploadPlan) -> (r: UploadPlan)
        ensures
            r@ == self@.followed_by(next@),
    {
        if self.failure.is_some() {
            return self;
        }
        let mut uploads = self.uploads;
        let mut rest = next.uploads;
        uploads.append(&mut rest);
        UploadPlan { uploads, failure: next.failure }
    }
}

fn cat_text(a: &String, b: &str) -> (r: String)
    ensures
        r@ == a@ + b@,
{
    cat(a.clone(), b)
}

/// The report of an element type that was not expected.
pub open spec fn expected_dtype(name: Seq<char>, want: DType, got: DType) -> LoaderFault {
    LoaderFault::Corrupt {
        detail: name + ": expected "@ + dtype_text(want) + ", got "@ + dtype_text(got),
    }
}

fn expected_dtype_err(name: &String, want: DType, got: DType) -> (r: LoaderError)
    ensures
        r@ == expected_dtype(name@, want, got),
{
    let s = cat_dtype(cat_text(name, ": expected "), want);
    corrupt(cat_dtype(cat(s, ", got "), got))
}

/// A matrix of a linear, of an element type of one byte: refused where it is
/// absent, of another element type or shape, or of another length than its
/// shape gives.
pub open spec fn matrix_upload(
    pool: &ShardPool,
    region: &'static str,
    name: Seq<char>,
    dtype: DType,
    shape: Seq<usize>,
) -> UploadView {
    match pool.found(name) {
        None => report(LoaderFault::MissingTensor { name }),
        Some((si, e)) => if e.dtype != dtype {
            report(expected_dtype(name, dtype, e.dtype))
        } else if e.shape != shape {
            report(
                LoaderFault::Corrupt {
                    detail: name + ": expected shape "@ + list_text(shape) + ", got "@ + list_text(
                        e.shape,
                    ),
                },
            )
        } else if e.nbytes != elems(shape) {
            report(
                LoaderFault::Corrupt {
                    detail: name + ": expected "@ + decimal(elems(shape)) + " bytes, got "@
                        + decimal(e.nbytes as nat),
                },
            )
        } else {
            one_upload(
                Upload {
                    region,
                    align: 16,
                    shard: si as usize,
                    offset: e.file_offset as usize,
                    bytes: e.nbytes as usize,
                    inverse: false,
                },
            )
        },
    }
}

fn plan_matrix(
    pool: &ShardPool,
    region: &'static str,
    name: String,
    dtype: DType,
    rows: usize,
    cols: usize,
) -> (r: UploadPlan)
    requires
        pool.wf(),
    ensures
        r@ == matrix_upload(pool, region, name@, dtype, seq![rows, cols]),
{
    let (si, e) = match pool.must_get(name.as_str()) {
        Ok(x) => x,
        Err(e) => {
            return UploadPlan::report(e);
        },
    };
    if e.dtype != dtype {
        return UploadPlan::report(expected_dtype_err(&name, dtype, e.dtype));
    }
    let want: Vec<usize> = vec![rows, cols];
    assert(want@ =~= seq![rows, cols]);
    if !same_shape(e.shape.as_slice(), want.as_slice()) {
        let s = cat_list(cat_text(&name, ": expected shape "), want.as_slice());
        let s = cat_list(cat(s, ", got "), e.shape.as_slice());
        return UploadPlan::report(corrupt(s));
    }
    let expect: usize = count_elems(&e.shape);
    if e.nbytes != expect as u64 {
        let s = cat_num(cat_text(&name, ": expected "), expect as u64);
        return UploadPlan::report(corrupt(cat_num(cat(s, " bytes, got "), e.nbytes)));
    }
    UploadPlan::one(
        Upload {
            region,
            align: 16,
            shard: si,
            offset: e.file_offset as usize,
            bytes: e.nbytes as usize,
            inverse: false,
        },
    )
}

/// Whether a 32-bit number has an inverse to send: it is finite and not zero.
pub open spec fn invertible(bits: nat) -> bool {
    0 < bits % 0x8000_0000 < 0x7f80_0000
}

/// The bytes of a tensor.
pub open spec fn tensor_bytes(pool: &ShardPool, si: int, e: TensorView) -> Seq<u8> {
    pool.mmaps@[si]@.subrange(e.file_offset as int, e.file_offset + e.nbytes)
}

/// A 32-bit scalar of a linear, as it is or inverted. One that is not finite,
/// or zero, goes as it is.
pub open spec fn scalar_upload(
    pool: &ShardPool,
    region: &'static str,
    name: Seq<char>,
    invert: bool,
) -> UploadView {
    match pool.found(name) {
        None => report(LoaderFault::MissingTensor { name }),
        Some((si, e)) => if e.dtype != DType::F32 {
            report(expected_dtype(name, DType::F32, e.dtype))
        } else if !is_scalar_shape(e.shape) {
            report(
                LoaderFault::Corrupt {
                    detail: name + ": expected scalar shape ([] or [1]), got "@ + list_text(
                        e.shape,
                    ),
                },
            )
        } else if e.nbytes != 4 {
            report(
                LoaderFault::Corrupt {
                    detail: name + ": expected 4 bytes (F32 scalar), got "@ + decimal(
                        e.nbytes as nat,
                    ),
                },
            )
        } else {
            one_upload(
                Upload {
                    region,
                    align: 4,
                    shard: si as usize,
                    offset: e.file_offset as usize,
                    bytes: 4,
                    inverse: invert && invertible(word32(tensor_bytes(pool, si, e), 0)),
                },
            )
        },
    }
}

fn plan_scalar(
    pool: &ShardPool,
    region: &'static str,
    name: String,
    invert: bool,
) -> (r: UploadPlan)
    requires
        pool.wf(),
    ensures
        r@ == scalar_upload(pool, region, name@, invert),
{
    let (si, e) = match pool.must_get(name.as_str()) {
        Ok(x) => x,
        Err(e) => {
            return UploadPlan::report(e);
        },
    };
    if e.dtype != DType::F32 {
        return UploadPlan::report(expected_dtype_err(&name, DType::F32, e.dtype));
    }
    if !(e.shape.len() == 0 || (e.shape.len() == 1 && e.shape[0] == 1)) {
        let s = cat_text(&name, ": expected scalar shape ([] or [1]), got ");
        return UploadPlan::report(corrupt(cat_list(s, e.shape.as_slice())));
    }
    if e.nbytes != 4 {
        let s = cat_text(&name, ": expected 4 bytes (F32 scalar), got ");
        return UploadPlan::report(corrupt(cat_num(s, e.nbytes)));
    }
    let raw = pool.bytes_of(si, e);
    let bits: u32 = raw[0] as u32 + 0x100 * (raw[1] as u32) + 0x1_0000 * (raw[2] as u32)
        + 0x100_0000 * (raw[3] as u32);
    let magnitude: u32 = bits % 0x8000_0000;
    let inverse = invert && 0 < magnitude && magnitude < 0x7f80_0000;
    UploadPlan::one(
        Upload {
            region,
            align: 4,
            shard: si,
            offset: e.file_offset as usize,
            bytes: 4,
            inverse,
        },
    )
}

/// The four tensors of a linear: packed weights, microscales, the inverse of
/// the global scale and the input scale.
pub open spec fn linear_upload(
    pool: &ShardPool,
    base: Seq<char>,
    shape: Nvfp4LinearShape,
) -> UploadView {
    matrix_upload(
        pool,
        "gemma4_nvfp4_w_packed",
        base + ".weight"@,
        DType::U8,
        seq![shape.n, shape.k / 2],
    ).followed_by(
        matrix_upload(
            pool,
            "gemma4_nvfp4_w_sfb_natural",
            base + ".weight_scale"@,
            DType::Fp8E4M3,
            seq![shape.n, shape.k / 16],
        ),
    ).followed_by(
        scalar_upload(pool, "gemma4_nvfp4_w_global_scale", base + ".weight_scale_2"@, true),
    ).followed_by(
        scalar_upload(pool, "gemma4_nvfp4_w_input_scale", base + ".input_scale"@, false),
    )
}

/// The uploads of a linear.
pub fn upload_gemma4_nvfp4_linear(
    pool: &ShardPool,
    base: &String,
    shape: Nvfp4LinearShape,
) -> (r: UploadPlan)
    requires
        pool.wf(),
    ensures
        r@ == linear_upload(pool, base@, shape),
{
    let packed = plan_matrix(
        pool,
        "gemma4_nvfp4_w_packed",
        cat_text(base, ".weight"),
        DType::U8,
        shape.n,
        shape.packed_cols(),
    );
    let scales = plan_matrix(
        pool,
        "gemma4_nvfp4_w_sfb_natural",
        cat_text(base, ".weight_scale"),
        DType::Fp8E4M3,
        shape.n,
        shape.scale_cols(),
    );
    let global = plan_scalar(
        pool,
        "gemma4_nvfp4_w_global_scale",
        cat_text(base, ".weight_scale_2"),
        true,
    );
    let input = plan_scalar(
        pool,
        "gemma4_nvfp4_w_input_scale",
        cat_text(base, ".input_scale"),
        false,
    );
    packed.followed_by(scales).followed_by(global).followed_by(input)
}

/// An uploaded linear: its packed weight has a byte for two elements.
pub open spec fn linear_loaded(shape: Nvfp4LinearShape, ptrs: Seq<u64>) -> Gemma4Nvfp4LinearLoaded {
    Gemma4Nvfp4LinearLoaded {
        shape,
        packed_ptr: ptrs[0],
        sfb_natural_ptr: ptrs[1],
        sfb_cutlass_ptr: 0,
        global_scale_ptr: ptrs[2],
        input_scale_ptr: ptrs[3],
        packed_bytes: (shape.n * (shape.k / 2)) as usize,
        sfb_bytes: 0,
        bf16_ptr: 0,
    }
}

/// Elements of a matrix.
proof fn lemma_matrix_elems(rows: usize, cols: usize)
    ensures
        elems(seq![rows, cols]) == rows * cols,
{
    reveal_with_fuel(elems, 3);
    assert(seq![rows, cols].drop_last() =~= seq![rows]);
    assert(1 * rows == rows && elems(seq![rows]) == rows);
}

/// An uploaded linear, from the addresses that its four uploads got.
pub fn linear_from_uploads(
    pool: &ShardPool,
    base: &String,
    shape: Nvfp4LinearShape,
    ptrs: &[u64],
) -> (r: Gemma4Nvfp4LinearLoaded)
    requires
        pool.wf(),
        linear_upload(pool, base@, shape).failure is None,
        ptrs@.len() >= 4,
    ensures
        r == linear_loaded(shape, ptrs@),
{
    proof {
        lemma_matrix_elems(shape.n, shape.k / 2);
    }
    let bytes: usize = match pool.lookup(cat_text(base, ".weight").as_str()) {
        Some((_, e)) => e.nbytes as usize,
        None => {
            assert(false);
            0
        },
    };
    Gemma4Nvfp4LinearLoaded {
        shape,
        packed_ptr: ptrs[0],
        sfb_natural_ptr: ptrs[1],
        sfb_cutlass_ptr: 0,
        global_scale_ptr: ptrs[2],
        input_scale_ptr: ptrs[3],
        packed_bytes: bytes,
        sfb_bytes: 0,
        bf16_ptr: 0,
    }
}

/// The three linears of a layer's MLP: gate, up, down.
pub open spec fn mlp_upload(pool: &ShardPool, arch: &Gemma4Arch, layer: nat) -> UploadView {
    mlp_part(pool, arch, layer, 0).followed_by(mlp_part(pool, arch, layer, 1)).followed_by(
        mlp_part(pool, arch, layer, 2),
    )
}

/// One linear of a layer's MLP.
pub open spec fn mlp_part(
    pool: &ShardPool,
    arch: &Gemma4Arch,
    layer: nat,
    i: int,
) -> UploadView {
    linear_upload(
        pool,
        linear_base(arch.weight_prefix@, layer, kind_at(i)),
        kind_at(i).shape_in(arch),
    )
}

fn mlp_base(arch: &Gemma4Arch, layer: usize, kind: Gemma4Nvfp4MlpKind) -> (r: String)
    ensures
        r@ == linear_base(arch.weight_prefix@, layer as nat, kind),
{
    let s = cat_num(cat_text(&arch.weight_prefix, ".layers."), layer as u64);
    cat(cat(s, "."), kind.name())
}

/// The uploads of a layer's MLP, in the order gate, up, down.
pub fn upload_gemma4_nvfp4_layer_mlp(
    pool: &ShardPool,
    arch: &Gemma4Arch,
    layer_idx: usize,
) -> (r: UploadPlan)
    requires
        pool.wf(),
    ensures
        r@ == mlp_upload(pool, arch, layer_idx as nat),
{
    let gate = Gemma4Nvfp4MlpKind::GateProj;
    let up = Gemma4Nvfp4MlpKind::UpProj;
    let down = Gemma4Nvfp4MlpKind::DownProj;
    let a = upload_gemma4_nvfp4_linear(
        pool,
        &mlp_base(arch, layer_idx, gate),
        gate.shape_for(arch),
    );
    let b = upload_gemma4_nvfp4_linear(pool, &mlp_base(arch, layer_idx, up), up.shape_for(arch));
    let c = upload_gemma4_nvfp4_linear(
        pool,
        &mlp_base(arch, layer_idx, down),
        down.shape_for(arch),
    );
    a.followed_by(b).followed_by(c)
}

/// Bytes of an element that a typed upload takes.
pub open spec fn element_bytes(d: DType) -> Option<nat> {
    match d {
        DType::Bf16 => Some(2),
        DType::F16 => Some(2),
        DType::F32 => Some(4),
        DType::Fp8E4M3 => Some(1),
        DType::U8 => Some(1),
        DType::I64 => None,
    }
}

fn plan_element_bytes(d: DType) -> (r: Option<usize>)
    ensures
        match r {
            Some(n) => element_bytes(d) == Some(n as nat) && n <= 4,
            None => element_bytes(d) is None,
        },
{
    match d {
        DType::Bf16 => Some(2),
        DType::F16 => Some(2),
        DType::F32 => Some(4),
        DType::Fp8E4M3 => Some(1),
        DType::U8 => Some(1),
        DType::I64 => None,
    }
}

/// A tensor that goes as it is, of an element type and where wanted a shape.
pub open spec fn typed_upload(
    pool: &ShardPool,
    region: &'static str,
    name: Seq<char>,
    dtype: DType,
    shape: Option<Seq<usize>>,
) -> UploadView {
    match pool.found(name) {
        None => report(LoaderFault::MissingTensor { name }),
        Some((si, e)) => match element_bytes(dtype) {
            None => report(
                LoaderFault::Corrupt {
                    detail: "upload_typed_tensor: dtype "@ + dtype_text(dtype)
                        + " not supported for "@ + name,
                },
            ),
            Some(width) => if e.dtype != dtype {
                report(
                    LoaderFault::Corrupt {
                        detail: name + ": dtype="@ + dtype_text(e.dtype)
                            + " but loader expected "@ + dtype_text(dtype),
                    },
                )
            } else if shape is Some && e.shape != shape->Some_0 {
                report(
                    LoaderFault::Corrupt {
                        detail: name + ": shape="@ + list_text(e.shape)
                            + " but loader expected "@ + list_text(shape->Some_0),
                    },
                )
            } else if e.nbytes != elems(e.shape) * width {
                report(
                    LoaderFault::Corrupt {
                        detail: name + ": mmap len="@ + decimal(e.nbytes as nat) + " but shape="@
                            + list_text(e.shape) + " × "@ + decimal(width) + " = "@ + decimal(
                            elems(e.shape) * width,
                        ) + " bytes"@,
                    },
                )
            } else {
                one_upload(
                    Upload {
                        region,
                        align: 16,
                        shard: si as usize,
                        offset: e.file_offset as usize,
                        bytes: e.nbytes as usize,
                        inverse: false,
                    },
                )
            },
        },
    }
}

/// The shape wanted of a tensor, if any.
pub open spec fn wanted(shape: Option<&[usize]>) -> Option<Seq<usize>> {
    match shape {
        Some(s) => Some(s@),
        None => None,
    }
}

/// A tensor that goes as it is: refused where it is absent, of another element
/// type or shape, or of another length than its shape gives.
pub fn upload_typed_tensor(
    pool: &ShardPool,
    region_name: &'static str,
    tensor_name: &String,
    expected_dtype: DType,
    expected_shape: Option<&[usize]>,
) -> (r: UploadPlan)
    requires
        pool.wf(),
    ensures
        r@ == typed_upload(
            pool,
            region_name,
            tensor_name@,
            expected_dtype,
            wanted(expected_shape),
        ),
{
    let (si, e) = match pool.must_get(tensor_name.as_str()) {
        Ok(x) => x,
        Err(e) => {
            return UploadPlan::report(e);
        },
    };
    let width: usize = match plan_element_bytes(expected_dtype) {
        Some(w) => w,
        None => {
            let s = cat_dtype(String::from_str("upload_typed_tensor: dtype "), expected_dtype);
            return UploadPlan::report(
                corrupt(cat(cat(s, " not supported for "), tensor_name.as_str())),
            );
        },
    };
    if e.dtype != expected_dtype {
        let s = cat_dtype(cat_text(tensor_name, ": dtype="), e.dtype);
        return UploadPlan::report(
            corrupt(cat_dtype(cat(s, " but loader expected "), expected_dtype)),
        );
    }
    if let Some(want) = expected_shape {
        if !same_shape(e.shape.as_slice(), want) {
            let s = cat_list(cat_text(tensor_name, ": shape="), e.shape.as_slice());
            return UploadPlan::report(corrupt(cat_list(cat(s, " but loader expected "), want)));
        }
    }
    let count: usize = count_elems(&e.shape);
    assert(count * width <= 4 * count) by (nonlinear_arith)
        requires
            width <= 4,
    ;
    let expect: usize = count * width;
    if e.nbytes != expect as u64 {
        let s = cat_num(cat_text(tensor_name, ": mmap len="), e.nbytes);
        let s = cat_list(cat(s, " but shape="), e.shape.as_slice());
        let s = cat_num(cat(s, " × "), width as u64);
        let s = cat(cat_num(cat(s, " = "), expect as u64), " bytes");
        return UploadPlan::report(corrupt(s));
    }
    UploadPlan::one(
        Upload {
            region: region_name,
            align: 16,
            shard: si,
            offset: e.file_offset as usize,
            bytes: e.nbytes as usize,
            inverse: false,
        },
    )
}

/// A bf16 tensor that a layer wants.
pub struct Wanted {
    pub region: &'static str,
    pub name: String,
    /// Length of its only dimension, where it is known.
    pub length: Option<usize>,
}

/// What a [`Wanted`] stands for.
pub struct WantedView {
    pub region: &'static str,
    pub name: Seq<char>,
    pub length: Option<usize>,
}

impl View for Wanted {
    type V = WantedView;

    open spec fn view(&self) -> WantedView {
        WantedView { region: self.region, name: self.name@, length: self.length }
    }
}

/// Name of a layer's tensor.
pub open spec fn tensor_in_layer(prefix: Seq<char>, layer: nat, t: Seq<char>) -> Seq<char> {
    prefix + ".layers."@ + decimal(layer) + t
}

/// The tensors of a layer before its value projection.
pub open spec fn head_tensors(arch: &Gemma4Arch, layer: nat) -> Seq<WantedView> {
    let p = arch.weight_prefix@;
    let h = Some(arch.hidden_size);
    seq![
        WantedView {
            region: "gemma4n_input_ln",
            name: tensor_in_layer(p, layer, ".input_layernorm.weight"@),
            length: h,
        },
        WantedView {
            region: "gemma4n_post_attn_ln",
            name: tensor_in_layer(p, layer, ".post_attention_layernorm.weight"@),
            length: h,
        },
        WantedView {
            region: "gemma4n_pre_ff_ln",
            name: tensor_in_layer(p, layer, ".pre_feedforward_layernorm.weight"@),
            length: h,
        },
        WantedView {
            region: "gemma4n_post_ff_ln",
            name: tensor_in_layer(p, layer, ".post_feedforward_layernorm.weight"@),
            length: h,
        },
        WantedView {
            region: "gemma4n_layer_scalar",
            name: tensor_in_layer(p, layer, ".layer_scalar"@),
            length: Some(1),
        },
        WantedView {
            region: "gemma4n_q_norm",
            name: tensor_in_layer(p, layer, ".self_attn.q_norm.weight"@),
            length: None,
        },
        WantedView {
            region: "gemma4n_k_norm",
            name: tensor_in_layer(p, layer, ".self_attn.k_norm.weight"@),
            length: None,
        },
        WantedView {
            region: "gemma4n_q_proj",
            name: tensor_in_layer(p, layer, ".self_attn.q_proj.weight"@),
            length: None,
        },
        WantedView {
            region: "gemma4n_k_proj",
            name: tensor_in_layer(p, layer, ".self_attn.k_proj.weight"@),
            length: None,
        },
    ]
}

/// The upload of a bf16 tensor.
pub open spec fn wanted_upload(pool: &ShardPool, w: WantedView) -> UploadView {
    typed_upload(
        pool,
        w.region,
        w.name,
        DType::Bf16,
        match w.length {
            Some(n) => Some(seq![n]),
            None => None,
        },
    )
}

/// The uploads of the first `n` tensors of a list.
pub open spec fn wanted_uploads(
    pool: &ShardPool,
    list: Seq<WantedView>,
    n: nat,
) -> UploadView
    decreases n,
{
    if n == 0 {
        no_upload()
    } else {
        wanted_uploads(pool, list, (n - 1) as nat).followed_by(wanted_upload(pool, list[n - 1]))
    }
}

/// The value projection of a layer: a global layer can do without one.
pub open spec fn value_upload(
    pool: &ShardPool,
    arch: &Gemma4Arch,
    layer: nat,
) -> UploadView {
    let name = tensor_in_layer(arch.weight_prefix@, layer, ".self_attn.v_proj.weight"@);
    if pool.found(name) is Some {
        wanted_upload(pool, WantedView { region: "gemma4n_v_proj", name, length: None })
    } else if layer < arch.layer_types@.len() && arch.is_global(layer as int) {
        no_upload()
    } else {
        report(
            LoaderFault::Corrupt {
                detail: "v_proj absent on layer "@ + decimal(layer)
                    + " but layer_type is not GlobalAttention"@,
            },
        )
    }
}

/// The output projection of a layer.
pub open spec fn output_tensor(arch: &Gemma4Arch, layer: nat) -> WantedView {
    WantedView {
        region: "gemma4n_o_proj",
        name: tensor_in_layer(arch.weight_prefix@, layer, ".self_attn.o_proj.weight"@),
        length: None,
    }
}

/// The uploads of a layer.
pub open spec fn layer_upload(
    pool: &ShardPool,
    arch: &Gemma4Arch,
    layer: nat,
) -> UploadView {
    wanted_uploads(pool, head_tensors(arch, layer), 9).followed_by(
        value_upload(pool, arch, layer),
    ).followed_by(wanted_upload(pool, output_tensor(arch, layer))).followed_by(
        mlp_upload(pool, arch, layer),
    )
}

fn layer_tensor_name(arch: &Gemma4Arch, layer: usize, t: &str) -> (r: String)
    ensures
        r@ == tensor_in_layer(arch.weight_prefix@, layer as nat, t@),
{
    cat(cat_num(cat_text(&arch.weight_prefix, ".layers."), layer as u64), t)
}

fn plan_wanted(pool: &ShardPool, w: &Wanted) -> (r: UploadPlan)
    requires
        pool.wf(),
    ensures
        r@ == wanted_upload(pool, w@),
{
    match w.length {
        Some(n) => {
            let shape: Vec<usize> = vec![n];
            assert(shape@ =~= seq![n]);
            upload_typed_tensor(pool, w.region, &w.name, DType::Bf16, Some(shape.as_slice()))
        },
        None => upload_typed_tensor(pool, w.region, &w.name, DType::Bf16, None),
    }
}

fn plan_head_tensors(arch: &Gemma4Arch, layer: usize) -> (r: Vec<Wanted>)
    ensures
        r@.len() == 9,
        forall|i: int|
            0 <= i < 9 ==> (#[trigger] r@[i])@ == head_tensors(arch, layer as nat)[i],
{
    let h: Option<usize> = Some(arch.hidden_size);
    vec![
        Wanted {
            region: "gemma4n_input_ln",
            name: layer_tensor_name(arch, layer, ".input_layernorm.weight"),
            length: h,
        },
        Wanted {
            region: "gemma4n_post_attn_ln",
            name: layer_tensor_name(arch, layer, ".post_attention_layernorm.weight"),
            length: h,
        },
        Wanted {
            region: "gemma4n_pre_ff_ln",
            name: layer_tensor_name(arch, layer, ".pre_feedforward_layernorm.weight"),
            length: h,
        },
        Wanted {
            region: "gemma4n_post_ff_ln",
            name: layer_tensor_name(arch, layer, ".post_feedforward_layernorm.weight"),
            length: h,
        },
        Wanted {
            region: "gemma4n_layer_scalar",
            name: layer_tensor_name(arch, layer, ".layer_scalar"),
            length: Some(1),
        },
        Wanted {
            region: "gemma4n_q_norm",
            name: layer_tensor_name(arch, layer, ".self_attn.q_norm.weight"),
            length: None,
        },
        Wanted {
            region: "gemma4n_k_norm",
            name: layer_tensor_name(arch, layer, ".self_attn.k_norm.weight"),
            length: None,
        },
        Wanted {
            region: "gemma4n_q_proj",
            name: layer_tensor_name(arch, layer, ".self_attn.q_proj.weight"),
            length: None,
        },
        Wanted {
            region: "gemma4n_k_proj",
            name: layer_tensor_name(arch, layer, ".self_attn.k_proj.weight"),
            length: None,
        },
    ]
}

fn plan_value(pool: &ShardPool, arch: &Gemma4Arch, layer: usize) -> (r: UploadPlan)
    requires
        pool.wf(),
    ensures
        r@ == value_upload(pool, arch, layer as nat),
{
    let name = layer_tensor_name(arch, layer, ".self_attn.v_proj.weight");
    if pool.lookup(name.as_str()).is_some() {
        return plan_wanted(pool, &Wanted { region: "gemma4n_v_proj", name, length: None });
    }
    let global = layer < arch.layer_types.len() && match arch.layer_types[layer] {
        Gemma4LayerType::GlobalAttention => true,
        Gemma4LayerType::SlidingAttention => false,
    };
    if global {
        UploadPlan::nothing()
    } else {
        let s = cat_num(String::from_str("v_proj absent on layer "), layer as u64);
        UploadPlan::report(corrupt(cat(s, " but layer_type is not GlobalAttention")))
    }
}

/// The uploads of a layer: norms, scalar and projections in bf16, then the
/// linears of the MLP.
pub fn upload_gemma4_nvfp4_layer(
    pool: &ShardPool,
    arch: &Gemma4Arch,
    layer_idx: usize,
) -> (r: UploadPlan)
    requires
        pool.wf(),
    ensures
        r@ == layer_upload(pool, arch, layer_idx as nat),
{
    let list = plan_head_tensors(arch, layer_idx);
    let mut r = UploadPlan::nothing();
    let mut i: usize = 0;
    while i < 9
        invariant
            pool.wf(),
            i <= 9,
            list@.len() == 9,
            forall|j: int|
                0 <= j < 9 ==> (#[trigger] list@[j])@ == head_tensors(arch, layer_idx as nat)[j],
            r@ == wanted_uploads(pool, head_tensors(arch, layer_idx as nat), i as nat),
        decreases 9 - i,
    {
        r = r.followed_by(plan_wanted(pool, &list[i]));
        i = i + 1;
    }
    let output = Wanted {
        region: "gemma4n_o_proj",
        name: layer_tensor_name(arch, layer_idx, ".self_attn.o_proj.weight"),
        length: None,
    };
    r.followed_by(plan_value(pool, arch, layer_idx)).followed_by(
        plan_wanted(pool, &output),
    ).followed_by(upload_gemma4_nvfp4_layer_mlp(pool, arch, layer_idx))
}

/// The weight of a tensor at an address.
pub open spec fn is_weight(
    pool: &ShardPool,
    name: Seq<char>,
    ptr: u64,
    w: F16Weight,
) -> bool {
    &&& w.offset_bytes == ptr
    &&& w.shape@ == (pool.found(name)->Some_0).1.shape
}

fn weight_at(pool: &ShardPool, name: &String, ptr: u64) -> (r: F16Weight)
    requires
        pool.wf(),
        pool.found(name@) is Some,
    ensures
        is_weight(pool, name@, ptr, r),
{
    match pool.lookup(name.as_str()) {
        Some((_, e)) => F16Weight { offset_bytes: ptr, shape: copy_shape(&e.shape) },
        None => {
            assert(false);
            F16Weight { offset_bytes: ptr, shape: Vec::new() }
        },
    }
}

/// Where nothing is reported, every tensor of a list is there, and each has an
/// upload of its own.
proof fn lemma_all_there(pool: &ShardPool, list: Seq<WantedView>, n: nat)
    requires
        n <= list.len(),
        wanted_uploads(pool, list, n).failure is None,
    ensures
        wanted_uploads(pool, list, n).uploads.len() == n,
        forall|i: int| 0 <= i < n ==> pool.found((#[trigger] list[i]).name) is Some,
    decreases n,
{
    if n > 0 {
        lemma_all_there(pool, list, (n - 1) as nat);
    }
}

/// Whether a layer has a value projection of its own.
pub open spec fn has_value(pool: &ShardPool, arch: &Gemma4Arch, layer: nat) -> bool {
    pool.found(tensor_in_layer(arch.weight_prefix@, layer, ".self_attn.v_proj.weight"@)) is Some
}

/// Number of uploads of a layer.
pub open spec fn layer_upload_count(
    pool: &ShardPool,
    arch: &Gemma4Arch,
    layer: nat,
) -> nat {
    if has_value(pool, arch, layer) {
        23
    } else {
        22
    }
}

proof fn lemma_linear_count(pool: &ShardPool, base: Seq<char>, shape: Nvfp4LinearShape)
    requires
        linear_upload(pool, base, shape).failure is None,
    ensures
        linear_upload(pool, base, shape).uploads.len() == 4,
{
}

/// A layer without a report has an upload for each of its tensors.
pub proof fn law_layer_upload_count(pool: &ShardPool, arch: &Gemma4Arch, layer: nat)
    requires
        layer_upload(pool, arch, layer).failure is None,
    ensures
        layer_upload(pool, arch, layer).uploads.len() == layer_upload_count(pool, arch, layer),
{
    lemma_all_there(pool, head_tensors(arch, layer), 9);
    let prefix = arch.weight_prefix@;
    lemma_linear_count(
        pool,
        linear_base(prefix, layer, kind_at(0)),
        kind_at(0).shape_in(arch),
    );
    lemma_linear_count(
        pool,
        linear_base(prefix, layer, kind_at(1)),
        kind_at(1).shape_in(arch),
    );
    lemma_linear_count(
        pool,
        linear_base(prefix, layer, kind_at(2)),
        kind_at(2).shape_in(arch),
    );
    assert(mlp_upload(pool, arch, layer).uploads.len() == 12);
}

/// Whether a loaded layer holds the tensors of a layer at the addresses from
/// `o` on.
pub open spec fn is_layer(
    pool: &ShardPool,
    arch: &Gemma4Arch,
    layer: nat,
    ptrs: Seq<u64>,
    o: int,
    r: Gemma4Nvfp4LayerLoaded,
) -> bool {
    let p = arch.weight_prefix@;
    let v: int = if has_value(pool, arch, layer) {
        1
    } else {
        0
    };
    let m = o + 10 + v;
    &&& is_weight(pool, tensor_in_layer(p, layer, ".input_layernorm.weight"@), ptrs[o], r.input_layernorm)
    &&& is_weight(
        pool,
        tensor_in_layer(p, layer, ".post_attention_layernorm.weight"@),
        ptrs[o + 1],
        r.post_attention_layernorm,
    )
    &&& is_weight(
        pool,
        tensor_in_layer(p, layer, ".pre_feedforward_layernorm.weight"@),
        ptrs[o + 2],
        r.pre_feedforward_layernorm,
    )
    &&& is_weight(
        pool,
        tensor_in_layer(p, layer, ".post_feedforward_layernorm.weight"@),
        ptrs[o + 3],
        r.post_feedforward_layernorm,
    )
    &&& is_weight(pool, tensor_in_layer(p, layer, ".layer_scalar"@), ptrs[o + 4], r.layer_scalar)
    &&& is_weight(pool, tensor_in_layer(p, layer, ".self_attn.q_norm.weight"@), ptrs[o + 5], r.q_norm)
    &&& is_weight(pool, tensor_in_layer(p, layer, ".self_attn.k_norm.weight"@), ptrs[o + 6], r.k_norm)
    &&& is_weight(pool, tensor_in_layer(p, layer, ".self_attn.q_proj.weight"@), ptrs[o + 7], r.q_proj)
    &&& is_weight(pool, tensor_in_layer(p, layer, ".self_attn.k_proj.weight"@), ptrs[o + 8], r.k_proj)
    &&& match r.v_proj {
        Some(w) => has_value(pool, arch, layer) && is_weight(
            pool,
            tensor_in_layer(p, layer, ".self_attn.v_proj.weight"@),
            ptrs[o + 9],
            w,
        ),
        None => !has_value(pool, arch, layer),
    }
    &&& is_weight(
        pool,
        tensor_in_layer(p, layer, ".self_attn.o_proj.weight"@),
        ptrs[o + 9 + v],
        r.o_proj,
    )
    &&& r.gate_proj == linear_loaded(kind_at(0).shape_in(arch), ptrs.subrange(m, m + 4))
    &&& r.up_proj == linear_loaded(kind_at(1).shape_in(arch), ptrs.subrange(m + 4, m + 8))
    &&& r.down_proj == linear_loaded(kind_at(2).shape_in(arch), ptrs.subrange(m + 8, m + 12))
}

/// The loaded layer, from the addresses that its uploads got, the first of
/// them at `o`.
#[verifier::spinoff_prover]
#[verifier::rlimit(60)]
pub fn layer_from_uploads(
    pool: &ShardPool,
    arch: &Gemma4Arch,
    layer_idx: usize,
    ptrs: &[u64],
    o: usize,
) -> (r: Gemma4Nvfp4LayerLoaded)
    requires
        pool.wf(),
        layer_upload(pool, arch, layer_idx as nat).failure is None,
        o + layer_upload_count(pool, arch, layer_idx as nat) <= ptrs@.len(),
    ensures
        is_layer(pool, arch, layer_idx as nat, ptrs@, o as int, r),
{
    let ghost list = head_tensors(arch, layer_idx as nat);
    proof {
        lemma_all_there(pool, list, 9);
        assert(pool.found(list[0].name) is Some && pool.found(list[1].name) is Some && pool.found(
            list[2].name,
        ) is Some && pool.found(list[3].name) is Some && pool.found(list[4].name) is Some
            && pool.found(list[5].name) is Some && pool.found(list[6].name) is Some && pool.found(
            list[7].name,
        ) is Some && pool.found(list[8].name) is Some);
    }
    let n: usize = ptrs.len();
    assert(o + 22 <= n);
    let input_layernorm = weight_at(
        pool,
        &layer_tensor_name(arch, layer_idx, ".input_layernorm.weight"),
        ptrs[o],
    );
    let post_attention_layernorm = weight_at(
        pool,
        &layer_tensor_name(arch, layer_idx, ".post_attention_layernorm.weight"),
        ptrs[o + 1],
    );
    let pre_feedforward_layernorm = weight_at(
        pool,
        &layer_tensor_name(arch, layer_idx, ".pre_feedforward_layernorm.weight"),
        ptrs[o + 2],
    );
    let post_feedforward_layernorm = weight_at(
        pool,
        &layer_tensor_name(arch, layer_idx, ".post_feedforward_layernorm.weight"),
        ptrs[o + 3],
    );
    let layer_scalar = weight_at(
        pool,
        &layer_tensor_name(arch, layer_idx, ".layer_scalar"),
        ptrs[o + 4],
    );
    let q_norm = weight_at(
        pool,
        &layer_tensor_name(arch, layer_idx, ".self_attn.q_norm.weight"),
        ptrs[o + 5],
    );
    let k_norm = weight_at(
        pool,
        &layer_tensor_name(arch, layer_idx, ".self_attn.k_norm.weight"),
        ptrs[o + 6],
    );
    let q_proj = weight_at(
        pool,
        &layer_tensor_name(arch, layer_idx, ".self_attn.q_proj.weight"),
        ptrs[o + 7],
    );
    let k_proj = weight_at(
        pool,
        &layer_tensor_name(arch, layer_idx, ".self_attn.k_proj.weight"),
        ptrs[o + 8],
    );
    let v_name = layer_tensor_name(arch, layer_idx, ".self_attn.v_proj.weight");
    let has_v = pool.lookup(v_name.as_str()).is_some();
    let (v_proj, m): (Option<F16Weight>, usize) = if has_v {
        (Some(weight_at(pool, &v_name, ptrs[o + 9])), o + 11)
    } else {
        (None, o + 10)
    };
    let o_proj = weight_at(
        pool,
        &layer_tensor_name(arch, layer_idx, ".self_attn.o_proj.weight"),
        ptrs[m - 1],
    );
    let gate = Gemma4Nvfp4MlpKind::GateProj;
    let up = Gemma4Nvfp4MlpKind::UpProj;
    let down = Gemma4Nvfp4MlpKind::DownProj;
    assert(mlp_part(pool, arch, layer_idx as nat, 0).failure is None);
    assert(mlp_part(pool, arch, layer_idx as nat, 1).failure is None);
    assert(mlp_part(pool, arch, layer_idx as nat, 2).failure is None);
    let gate_proj = linear_from_uploads(
        pool,
        &mlp_base(arch, layer_idx, gate),
        gate.shape_for(arch),
        slice_subrange(ptrs, m, m + 4),
    );
    let up_proj = linear_from_uploads(
        pool,
        &mlp_base(arch, layer_idx, up),
        up.shape_for(arch),
        slice_subrange(ptrs, m + 4, m + 8),
    );
    let down_proj = linear_from_uploads(
        pool,
        &mlp_base(arch, layer_idx, down),
        down.shape_for(arch),
        slice_subrange(ptrs, m + 8, m + 12),
    );
    Gemma4Nvfp4LayerLoaded {
        input_layernorm,
        post_attention_layernorm,
        pre_feedforward_layernorm,
        post_feedforward_layernorm,
        layer_scalar,
        q_norm,
        k_norm,
        q_proj,
        k_proj,
        v_proj,
        o_proj,
        gate_proj,
        up_proj,
        down_proj,
    }
}

/// The uploads outside the layers: embedding and final norm.
pub open spec fn outside_upload(pool: &ShardPool, arch: &Gemma4Arch) -> UploadView {
    let p = arch.weight_prefix@;
    typed_upload(
        pool,
        "gemma4n_embed_tokens",
        p + ".embed_tokens.weight"@,
        DType::Bf16,
        Some(seq![arch.vocab_size, arch.hidden_size]),
    ).followed_by(
        typed_upload(
            pool,
            "gemma4n_final_norm",
            p + ".norm.weight"@,
            DType::Bf16,
            Some(seq![arch.hidden_size]),
        ),
    )
}

/// The uploads outside the layers. The head shares the embedding.
pub fn upload_gemma4_nvfp4_outside_text(pool: &ShardPool, arch: &Gemma4Arch) -> (r:
    UploadPlan)
    requires
        pool.wf(),
    ensures
        r@ == outside_upload(pool, arch),
{
    let table: Vec<usize> = vec![arch.vocab_size, arch.hidden_size];
    assert(table@ =~= seq![arch.vocab_size, arch.hidden_size]);
    let row: Vec<usize> = vec![arch.hidden_size];
    assert(row@ =~= seq![arch.hidden_size]);
    let a = upload_typed_tensor(
        pool,
        "gemma4n_embed_tokens",
        &cat_text(&arch.weight_prefix, ".embed_tokens.weight"),
        DType::Bf16,
        Some(table.as_slice()),
    );
    let b = upload_typed_tensor(
        pool,
        "gemma4n_final_norm",
        &cat_text(&arch.weight_prefix, ".norm.weight"),
        DType::Bf16,
        Some(row.as_slice()),
    );
    a.followed_by(b)
}

/// The uploads of the first `n` layers behind those outside the layers.
pub open spec fn text_uploads(
    pool: &ShardPool,
    arch: &Gemma4Arch,
    n: nat,
) -> UploadView
    decreases n,
{
    if n == 0 {
        outside_upload(pool, arch)
    } else {
        text_uploads(pool, arch, (n - 1) as nat).followed_by(
            layer_upload(pool, arch, (n - 1) as nat),
        )
    }
}

/// The uploads of the text model. The inventory of the merged directory comes
/// first: a checkpoint that it refuses uploads nothing.
pub fn load_gemma4_nvfp4_text(
    pool: &ShardPool,
    arch: &Gemma4Arch,
    entries: &TensorMap,
) -> (r: UploadPlan)
    requires
        pool.wf(),
        entries.wf(),
        entries@ == merged_view(pool.shards@, pool.shards@.len()),
        3 * arch.num_hidden_layers <= usize::MAX,
    ensures
        r@ == (match inventory_fault(arch, arch.weight_prefix@, entries) {
            Some(f) => report(f),
            None => text_uploads(pool, arch, arch.num_hidden_layers as nat),
        }),
{
    if let Err(e) = validate_gemma4_nvfp4_inventory(arch, arch.weight_prefix.as_str(), entries) {
        return UploadPlan::report(e);
    }
    let mut r = upload_gemma4_nvfp4_outside_text(pool, arch);
    let n: usize = arch.num_hidden_layers;
    let mut l: usize = 0;
    while l < n
        invariant
            pool.wf(),
            l <= n,
            r@ == text_uploads(pool, arch, l as nat),
        decreases n - l,
    {
        r = r.followed_by(upload_gemma4_nvfp4_layer(pool, arch, l));
        l = l + 1;
    }
    r
}

/// Place of a layer's first upload.
pub open spec fn layer_start(pool: &ShardPool, arch: &Gemma4Arch, layer: nat) -> nat
    decreases layer,
{
    if layer == 0 {
        2
    } else {
        layer_start(pool, arch, (layer - 1) as nat) + layer_upload_count(
            pool,
            arch,
            (layer - 1) as nat,
        )
    }
}

/// The uploads of the layers stand one layer behind another.
#[verifier::spinoff_prover]
#[verifier::rlimit(40)]
pub proof fn law_text_upload_count(pool: &ShardPool, arch: &Gemma4Arch, n: nat)
    requires
        text_uploads(pool, arch, n).failure is None,
    ensures
        text_uploads(pool, arch, n).uploads.len() == layer_start(pool, arch, n),
        outside_upload(pool, arch).failure is None,
        forall|l: nat| l < n ==> (#[trigger] layer_upload(pool, arch, l)).failure is None,
    decreases n,
{
    if n > 0 {
        let last = (n - 1) as nat;
        lemma_parts(text_uploads(pool, arch, last), layer_upload(pool, arch, last));
        law_text_upload_count(pool, arch, last);
        law_layer_upload_count(pool, arch, last);
        assert forall|l: nat| l < n implies (#[trigger] layer_upload(pool, arch, l)).failure is None by {
            if l == last {
            }
        }
    } else {
        lemma_outside_count(pool, arch);
    }
}

/// Both parts of a list without a report are without one.
proof fn lemma_parts(a: UploadView, b: UploadView)
    requires
        a.followed_by(b).failure is None,
    ensures
        a.failure is None,
        b.failure is None,
        a.followed_by(b).uploads.len() == a.uploads.len() + b.uploads.len(),
{
}

proof fn lemma_outside_count(pool: &ShardPool, arch: &Gemma4Arch)
    requires
        outside_upload(pool, arch).failure is None,
    ensures
        outside_upload(pool, arch).uploads.len() == 2,
{
}

proof fn lemma_layer_start_grows(pool: &ShardPool, arch: &Gemma4Arch, a: nat, b: nat)
    requires
        a <= b,
    ensures
        layer_start(pool, arch, a) <= layer_start(pool, arch, b),
    decreases b,
{
    if a < b {
        lemma_layer_start_grows(pool, arch, a, (b - 1) as nat);
    }
}

/// The loaded text model, from the addresses that its uploads got.
pub fn text_from_uploads(pool: &ShardPool, arch: &Gemma4Arch, ptrs: &[u64]) -> (r:
    Gemma4Nvfp4LoadedModel)
    requires
        pool.wf(),
        text_uploads(pool, arch, arch.num_hidden_layers as nat).failure is None,
        ptrs@.len() == text_uploads(pool, arch, arch.num_hidden_layers as nat).uploads.len(),
    ensures
        is_weight(
            pool,
            arch.weight_prefix@ + ".embed_tokens.weight"@,
            ptrs@[0],
            r.outside.embed_tokens,
        ),
        is_weight(pool, arch.weight_prefix@ + ".norm.weight"@, ptrs@[1], r.outside.final_norm),
        r.layers@.len() == arch.num_hidden_layers,
        forall|l: int|
            0 <= l < arch.num_hidden_layers ==> is_layer(
                pool,
                arch,
                l as nat,
                ptrs@,
                layer_start(pool, arch, l as nat) as int,
                #[trigger] r.layers@[l],
            ),
{
    let n: usize = arch.num_hidden_layers;
    proof {
        law_text_upload_count(pool, arch, n as nat);
        lemma_layer_start_grows(pool, arch, 0, n as nat);
    }
    let outside = Gemma4Nvfp4OutsideText {
        embed_tokens: weight_at(
            pool,
            &cat_text(&arch.weight_prefix, ".embed_tokens.weight"),
            ptrs[0],
        ),
        final_norm: weight_at(pool, &cat_text(&arch.weight_prefix, ".norm.weight"), ptrs[1]),
    };
    let mut layers: Vec<Gemma4Nvfp4LayerLoaded> = Vec::new();
    let total: usize = ptrs.len();
    let mut l: usize = 0;
    let mut o: usize = 2;
    while l < n
        invariant
            pool.wf(),
            n == arch.num_hidden_layers,
            l <= n,
            total == ptrs@.len(),
            total == layer_start(pool, arch, n as nat),
            o == layer_start(pool, arch, l as nat),
            forall|i: nat| i < n ==> (#[trigger] layer_upload(pool, arch, i)).failure is None,
            layers@.len() == l,
            forall|i: int|
                0 <= i < l ==> is_layer(
                    pool,
                    arch,
                    i as nat,
                    ptrs@,
                    layer_start(pool, arch, i as nat) as int,
                    #[trigger] layers@[i],
                ),
        decreases n - l,
    {
        proof {
            lemma_layer_start_grows(pool, arch, (l + 1) as nat, n as nat);
            assert(layer_upload(pool, arch, l as nat).failure is None);
        }
        layers.push(layer_from_uploads(pool, arch, l, ptrs, o));
        let v_name = layer_tensor_name(arch, l, ".self_attn.v_proj.weight");
        if pool.lookup(v_name.as_str()).is_some() {
            o = o + 23;
        } else {
            o = o + 22;
        }
        l = l + 1;
    }
    Gemma4Nvfp4LoadedModel { outside, layers }
}

/// What goes of a linear has the bytes that its shape gives: a packed byte for
/// two elements, a microscale for sixteen, and two 32-bit scalars.
pub proof fn law_linear_bytes(pool: &ShardPool, base: Seq<char>, shape: Nvfp4LinearShape)
    requires
        pool.wf(),
        linear_upload(pool, base, shape).failure is None,
    ensures
        ({
            let u = linear_upload(pool, base, shape).uploads;
            &&& u.len() == 4
            &&& u[0].bytes == shape.n * (shape.k / 2)
            &&& u[1].bytes == shape.n * (shape.k / 16)
            &&& u[2].bytes == 4
            &&& u[3].bytes == 4
        }),
{
    lemma_matrix_elems(shape.n, shape.k / 2);
    lemma_matrix_elems(shape.n, shape.k / 16);
    lemma_found_fits(pool, base + ".weight"@);
    lemma_found_fits(pool, base + ".weight_scale"@);
}

/// The elements of a tensor that is found can be counted.
proof fn lemma_found_fits(pool: &ShardPool, name: Seq<char>)
    requires
        pool.wf(),
    ensures
        pool.found(name) matches Some((si, e)) ==> elems(e.shape) <= usize::MAX,
{
    law_merged_is_found(pool.shards@, pool.shards@.len(), name);
    if let Some((si, e)) = pool.found(name) {
        assert(pool.shards@[si]@.contains_key(name));
        assert(e.shape.take(e.shape.len() as int) =~= e.shape);
    }
}

/// A layer that passed the inventory has uploads for its MLP: the shapes and
/// element types that an upload wants are those that the inventory wants, so
/// that only the lengths of the tensors can be reported.
pub proof fn law_inventory_covers_linears(
    pool: &ShardPool,
    arch: &Gemma4Arch,
    layer: nat,
    kind: Gemma4Nvfp4MlpKind,
)
    requires
        crate::loader::gemma4_nvfp4_weights::linear_fault(
            arch,
            arch.weight_prefix@,
            merged_view(pool.shards@, pool.shards@.len()),
            layer,
            kind,
        ) is None,
        ({
            let base = linear_base(arch.weight_prefix@, layer, kind);
            let shape = kind.shape_in(arch);
            &&& (pool.found(base + ".weight"@)->Some_0).1.nbytes == shape.n * (shape.k / 2)
            &&& (pool.found(base + ".weight_scale"@)->Some_0).1.nbytes == shape.n * (shape.k / 16)
            &&& (pool.found(base + ".weight_scale_2"@)->Some_0).1.nbytes == 4
            &&& (pool.found(base + ".input_scale"@)->Some_0).1.nbytes == 4
        }),
    ensures
        linear_upload(
            pool,
            linear_base(arch.weight_prefix@, layer, kind),
            kind.shape_in(arch),
        ).failure is None,
{
    let base = linear_base(arch.weight_prefix@, layer, kind);
    let n = pool.shards@.len();
    let shape = kind.shape_in(arch);
    lemma_matrix_elems(shape.n, shape.k / 2);
    lemma_matrix_elems(shape.n, shape.k / 16);
    law_merged_is_found(pool.shards@, n, base + ".weight"@);
    law_merged_is_found(pool.shards@, n, base + ".weight_scale"@);
    law_merged_is_found(pool.shards@, n, base + ".weight_scale_2"@);
    law_merged_is_found(pool.shards@, n, base + ".input_scale"@);
}

} // verus!
