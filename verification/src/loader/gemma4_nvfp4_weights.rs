//! Inventory of a Gemma 4 checkpoint whose MLP linears are NVFP4.
//!
//! Each MLP linear is stored as packed 4-bit weights, one E4M3 microscale per
//! sixteen elements, a 32-bit global scale and a 32-bit static input scale.
//! The attention projections stay in 16 bits; a checkpoint in which one of
//! them is quantized is refused.

use crate::loader::gemma4_arch::Gemma4Arch;
use crate::loader::weights::{F16Weight, Nvfp4LinearShape};
use crate::tensor::{
    cat_dtype, corrupt, dtype_text, law_name_order_irreflexive, law_name_order_transitive,
    missing, name_lt, same_shape, DType, LoaderError, LoaderFault, TensorEntry, TensorMap,
    TensorView,
};
use crate::text::{
    cat, cat_list, cat_num, chars_of, decimal, has_infix, has_infix_exec, has_prefix, has_suffix,
    lemma_decimal_prefix, list_text, occurs_at_exec,
};
use vstd::prelude::*;
use vstd::string::*;

verus! {

/// One NVFP4 linear of a layer, by its directory entries.
#[derive(Clone, Debug)]
pub struct Gemma4Nvfp4LinearWeight {
    pub shape: Nvfp4LinearShape,
    /// `U8 [n, k/2]`.
    pub weight: TensorEntry,
    /// `Fp8E4M3 [n, k/16]`.
    pub weight_scale: TensorEntry,
    /// `F32`, a scalar.
    pub weight_scale_2: TensorEntry,
    /// `F32`, a scalar.
    pub input_scale: TensorEntry,
}

/// The MLP projections of a layer that are stored as NVFP4.
#[derive(Copy, Clone, Debug, PartialEq, Eq, Hash, Structural)]
pub enum Gemma4Nvfp4MlpKind {
    GateProj,
    UpProj,
    DownProj,
}

impl Gemma4Nvfp4MlpKind {
    /// All projections, in the order in which inventories hold them.
    pub const ALL: [Gemma4Nvfp4MlpKind; 3] = [
        Gemma4Nvfp4MlpKind::GateProj,
        Gemma4Nvfp4MlpKind::UpProj,
        Gemma4Nvfp4MlpKind::DownProj,
    ];

    /// Place of the projection in a layer's tensor names.
    pub open spec fn name_text(self) -> Seq<char> {
        match self {
            Gemma4Nvfp4MlpKind::GateProj => "mlp.gate_proj"@,
            Gemma4Nvfp4MlpKind::UpProj => "mlp.up_proj"@,
            Gemma4Nvfp4MlpKind::DownProj => "mlp.down_proj"@,
        }
    }

    /// The variant's own name.
    pub open spec fn variant_text(self) -> Seq<char> {
        match self {
            Gemma4Nvfp4MlpKind::GateProj => "GateProj"@,
            Gemma4Nvfp4MlpKind::UpProj => "UpProj"@,
            Gemma4Nvfp4MlpKind::DownProj => "DownProj"@,
        }
    }

    /// Output and input width: gate and up widen from the hidden size, down
    /// narrows back to it.
    pub open spec fn shape_in(self, arch: &Gemma4Arch) -> Nvfp4LinearShape {
        match self {
            Gemma4Nvfp4MlpKind::DownProj => Nvfp4LinearShape {
                n: arch.hidden_size,
                k: arch.intermediate_size,
            },
            _ => Nvfp4LinearShape { n: arch.intermediate_size, k: arch.hidden_size },
        }
    }

    /// Place of the projection in a layer's tensor names.
    pub fn name(self) -> (r: &'static str)
        ensures
            r@ == self.name_text(),
    {
        match self {
            Gemma4Nvfp4MlpKind::GateProj => "mlp.gate_proj",
            Gemma4Nvfp4MlpKind::UpProj => "mlp.up_proj",
            Gemma4Nvfp4MlpKind::DownProj => "mlp.down_proj",
        }
    }

    fn variant_name(self) -> (r: &'static str)
        ensures
            r@ == self.variant_text(),
    {
        match self {
            Gemma4Nvfp4MlpKind::GateProj => "GateProj",
            Gemma4Nvfp4MlpKind::UpProj => "UpProj",
            Gemma4Nvfp4MlpKind::DownProj => "DownProj",
        }
    }

    /// Output and input width of the projection.
    pub fn shape_for(self, arch: &Gemma4Arch) -> (r: Nvfp4LinearShape)
        ensures
            r == self.shape_in(arch),
    {
        match self {
            Gemma4Nvfp4MlpKind::DownProj => Nvfp4LinearShape {
                n: arch.hidden_size,
                k: arch.intermediate_size,
            },
            _ => Nvfp4LinearShape { n: arch.intermediate_size, k: arch.hidden_size },
        }
    }
}

/// How many tensors of each sort an inventory has seen.
#[derive(Copy, Clone, Debug, Default, PartialEq, Eq, Structural)]
pub struct Gemma4Nvfp4TensorCounts {
    pub weight: usize,
    pub weight_scale: usize,
    pub weight_scale_2: usize,
    pub input_scale: usize,
    /// Attention weights found in 16 bits.
    pub attn_bf16: usize,
}

/// What a checkpoint holds.
#[derive(Clone, Debug)]
pub struct Gemma4Nvfp4Inventory {
    pub num_layers: usize,
    /// For each layer its gate, up and down projection.
    pub layers: Vec<[Gemma4Nvfp4LinearWeight; 3]>,
    pub counts: Gemma4Nvfp4TensorCounts,
    pub weight_prefix: String,
}

/// What a [`Gemma4Nvfp4LinearWeight`] stands for.
pub struct LinearView {
    pub shape: Nvfp4LinearShape,
    pub weight: TensorView,
    pub weight_scale: TensorView,
    pub weight_scale_2: TensorView,
    pub input_scale: TensorView,
}

impl View for Gemma4Nvfp4LinearWeight {
    type V = LinearView;

    open spec fn view(&self) -> LinearView {
        LinearView {
            shape: self.shape,
            weight: self.weight@,
            weight_scale: self.weight_scale@,
            weight_scale_2: self.weight_scale_2@,
            input_scale: self.input_scale@,
        }
    }
}

/// The projection at a place in a layer.
pub open spec fn kind_at(i: int) -> Gemma4Nvfp4MlpKind {
    if i == 0 {
        Gemma4Nvfp4MlpKind::GateProj
    } else if i == 1 {
        Gemma4Nvfp4MlpKind::UpProj
    } else {
        Gemma4Nvfp4MlpKind::DownProj
    }
}

/// Common part of the tensor names of one projection.
pub open spec fn linear_base(prefix: Seq<char>, layer: nat, kind: Gemma4Nvfp4MlpKind) -> Seq<char> {
    prefix + ".layers."@ + decimal(layer) + "."@ + kind.name_text()
}

/// What is wrong with the element type of a tensor.
pub open spec fn dtype_fault(name: Seq<char>, got: DType, want: DType) -> LoaderFault {
    LoaderFault::Corrupt {
        detail: "Gemma 4 NVFP4 tensor "@ + name + ": dtype mismatch (got "@ + dtype_text(got)
            + ", expected "@ + dtype_text(want) + ")"@,
    }
}

/// Why a tensor is not the one wanted: absent, of another element type, or
/// of another shape, in this order.
pub open spec fn tensor_fault(
    tensors: Map<Seq<char>, TensorView>,
    name: Seq<char>,
    dtype: DType,
    shape: Seq<usize>,
) -> Option<LoaderFault> {
    if !tensors.contains_key(name) {
        Some(LoaderFault::MissingTensor { name })
    } else if tensors[name].dtype != dtype {
        Some(dtype_fault(name, tensors[name].dtype, dtype))
    } else if tensors[name].shape != shape {
        Some(
            LoaderFault::Corrupt {
                detail: "Gemma 4 NVFP4 tensor "@ + name + ": shape mismatch (got "@ + list_text(
                    tensors[name].shape,
                ) + ", expected "@ + list_text(shape) + ")"@,
            },
        )
    } else {
        None
    }
}

/// A scalar has no dimension, or one of length one.
pub open spec fn is_scalar_shape(shape: Seq<usize>) -> bool {
    shape.len() == 0 || (shape.len() == 1 && shape[0] == 1)
}

/// Why a tensor is not the scalar wanted.
pub open spec fn scalar_fault(
    tensors: Map<Seq<char>, TensorView>,
    name: Seq<char>,
    dtype: DType,
) -> Option<LoaderFault> {
    if !tensors.contains_key(name) {
        Some(LoaderFault::MissingTensor { name })
    } else if tensors[name].dtype != dtype {
        Some(dtype_fault(name, tensors[name].dtype, dtype))
    } else if !is_scalar_shape(tensors[name].shape) {
        Some(
            LoaderFault::Corrupt {
                detail: "Gemma 4 NVFP4 tensor "@ + name
                    + ": expected scalar shape ([] or [1]), got "@ + list_text(
                    tensors[name].shape,
                ),
            },
        )
    } else {
        None
    }
}

/// The first thing wrong with one projection of one layer.
pub open spec fn linear_fault(
    arch: &Gemma4Arch,
    prefix: Seq<char>,
    tensors: Map<Seq<char>, TensorView>,
    layer: nat,
    kind: Gemma4Nvfp4MlpKind,
) -> Option<LoaderFault> {
    let shape = kind.shape_in(arch);
    let base = linear_base(prefix, layer, kind);
    if shape.k % 16 != 0 {
        Some(
            LoaderFault::Corrupt {
                detail: "Gemma 4 NVFP4 layer "@ + decimal(layer) + " "@ + kind.variant_text()
                    + ": K="@ + decimal(shape.k as nat) + " not divisible by group_size=16"@,
            },
        )
    } else if let Some(f) = tensor_fault(
        tensors,
        base + ".weight"@,
        DType::U8,
        seq![shape.n, shape.k / 2],
    ) {
        Some(f)
    } else if let Some(f) = tensor_fault(
        tensors,
        base + ".weight_scale"@,
        DType::Fp8E4M3,
        seq![shape.n, shape.k / 16],
    ) {
        Some(f)
    } else if let Some(f) = scalar_fault(tensors, base + ".weight_scale_2"@, DType::F32) {
        Some(f)
    } else {
        scalar_fault(tensors, base + ".input_scale"@, DType::F32)
    }
}

/// The directory entries of one projection.
pub open spec fn linear_of(
    arch: &Gemma4Arch,
    prefix: Seq<char>,
    tensors: Map<Seq<char>, TensorView>,
    layer: nat,
    kind: Gemma4Nvfp4MlpKind,
) -> LinearView {
    let base = linear_base(prefix, layer, kind);
    LinearView {
        shape: kind.shape_in(arch),
        weight: tensors[base + ".weight"@],
        weight_scale: tensors[base + ".weight_scale"@],
        weight_scale_2: tensors[base + ".weight_scale_2"@],
        input_scale: tensors[base + ".input_scale"@],
    }
}

/// The first thing wrong with the first `n` projections, counted layer by
/// layer.
pub open spec fn mlp_fault(
    arch: &Gemma4Arch,
    prefix: Seq<char>,
    tensors: Map<Seq<char>, TensorView>,
    n: nat,
) -> Option<LoaderFault>
    decreases n,
{
    if n == 0 {
        None
    } else if let Some(f) = mlp_fault(arch, prefix, tensors, (n - 1) as nat) {
        Some(f)
    } else {
        linear_fault(arch, prefix, tensors, ((n - 1) / 3) as nat, kind_at((n - 1) % 3))
    }
}

/// A weight of an attention block under the prefix.
pub open spec fn is_attention_weight(prefix: Seq<char>, name: Seq<char>) -> bool {
    has_prefix(name, prefix) && has_infix(name, ".self_attn."@) && has_suffix(name, ".weight"@)
}

/// 16-bit element types.
pub open spec fn is_16_bit(d: DType) -> bool {
    d == DType::Bf16 || d == DType::F16
}

/// What is wrong with a quantized attention weight.
pub open spec fn attention_fault(name: Seq<char>, got: DType) -> LoaderFault {
    LoaderFault::Corrupt {
        detail: "Gemma 4 NVFP4 attention tensor "@ + name + " is NOT bf16/f16 (got "@ + dtype_text(
            got,
        )
            + "); checkpoint quant_config says self_attn must stay unquantized — refusing to load."@,
    }
}

/// The first quantized attention weight among the first `n` tensors in the
/// order of names.
pub open spec fn sweep_fault(
    prefix: Seq<char>,
    keys: Seq<Seq<char>>,
    values: Seq<TensorView>,
    n: nat,
) -> Option<LoaderFault>
    decreases n,
{
    if n == 0 {
        None
    } else if let Some(f) = sweep_fault(prefix, keys, values, (n - 1) as nat) {
        Some(f)
    } else if is_attention_weight(prefix, keys[n - 1]) && !is_16_bit(values[n - 1].dtype) {
        Some(attention_fault(keys[n - 1], values[n - 1].dtype))
    } else {
        None
    }
}

/// Number of attention weights among the first `n` tensors.
pub open spec fn attention_count(prefix: Seq<char>, keys: Seq<Seq<char>>, n: nat) -> nat
    decreases n,
{
    if n == 0 {
        0
    } else {
        attention_count(prefix, keys, (n - 1) as nat) + if is_attention_weight(
            prefix,
            keys[n - 1],
        ) {
            1nat
        } else {
            0
        }
    }
}

/// The first thing wrong with a checkpoint: its MLP linears layer by layer,
/// then its attention weights in the order of names.
pub open spec fn inventory_fault(
    arch: &Gemma4Arch,
    prefix: Seq<char>,
    tensors: &TensorMap,
) -> Option<LoaderFault> {
    if let Some(f) = mlp_fault(arch, prefix, tensors@, 3 * arch.num_hidden_layers as nat) {
        Some(f)
    } else {
        sweep_fault(prefix, tensors.keys(), tensors.values(), tensors.keys().len())
    }
}

fn require_tensor(
    tensors: &TensorMap,
    name: &str,
    expected_dtype: DType,
    expected_shape: &[usize],
) -> (r: Result<TensorEntry, LoaderError>)
    requires
        tensors.wf(),
    ensures
        match r {
            Ok(e) => tensor_fault(tensors@, name@, expected_dtype, expected_shape@) is None && e@
                == tensors@[name@],
            Err(e) => tensor_fault(tensors@, name@, expected_dtype, expected_shape@) == Some(e@),
        },
{
    let e = match tensors.get(name) {
        Some(e) => e,
        None => {
            return Err(missing(name));
        },
    };
    if e.dtype != expected_dtype {
        return Err(dtype_mismatch(name, e.dtype, expected_dtype));
    }
    if !same_shape(e.shape.as_slice(), expected_shape) {
        let s = cat(String::from_str("Gemma 4 NVFP4 tensor "), name);
        let s = cat_list(cat(s, ": shape mismatch (got "), e.shape.as_slice());
        let s = cat_list(cat(s, ", expected "), expected_shape);
        return Err(corrupt(cat(s, ")")));
    }
    Ok(e.dup())
}

fn dtype_mismatch(name: &str, got: DType, want: DType) -> (r: LoaderError)
    ensures
        r@ == dtype_fault(name@, got, want),
{
    let s = cat(String::from_str("Gemma 4 NVFP4 tensor "), name);
    let s = cat_dtype(cat(s, ": dtype mismatch (got "), got);
    let s = cat_dtype(cat(s, ", expected "), want);
    corrupt(cat(s, ")"))
}

fn require_scalar(tensors: &TensorMap, name: &str, expected_dtype: DType) -> (r: Result<
    TensorEntry,
    LoaderError,
>)
    requires
        tensors.wf(),
    ensures
        match r {
            Ok(e) => scalar_fault(tensors@, name@, expected_dtype) is None && e@
                == tensors@[name@],
            Err(e) => scalar_fault(tensors@, name@, expected_dtype) == Some(e@),
        },
{
    let e = match tensors.get(name) {
        Some(e) => e,
        None => {
            return Err(missing(name));
        },
    };
    if e.dtype != expected_dtype {
        return Err(dtype_mismatch(name, e.dtype, expected_dtype));
    }
    if !(e.shape.len() == 0 || (e.shape.len() == 1 && e.shape[0] == 1)) {
        let s = cat(String::from_str("Gemma 4 NVFP4 tensor "), name);
        let s = cat(s, ": expected scalar shape ([] or [1]), got ");
        return Err(corrupt(cat_list(s, e.shape.as_slice())));
    }
    Ok(e.dup())
}

fn suffixed(base: &String, suffix: &str) -> (r: String)
    ensures
        r@ == base@ + suffix@,
{
    cat(base.clone(), suffix)
}

fn require_linear(
    arch: &Gemma4Arch,
    weight_prefix: &str,
    tensors: &TensorMap,
    layer_idx: usize,
    kind: Gemma4Nvfp4MlpKind,
) -> (r: Result<Gemma4Nvfp4LinearWeight, LoaderError>)
    requires
        tensors.wf(),
    ensures
        match r {
            Ok(w) => linear_fault(arch, weight_prefix@, tensors@, layer_idx as nat, kind) is None
                && w@ == linear_of(arch, weight_prefix@, tensors@, layer_idx as nat, kind),
            Err(e) => linear_fault(arch, weight_prefix@, tensors@, layer_idx as nat, kind) == Some(
                e@,
            ),
        },
{
    let shape = kind.shape_for(arch);
    if shape.k % 16 != 0 {
        let s = cat_num(String::from_str("Gemma 4 NVFP4 layer "), layer_idx as u64);
        let s = cat(cat(s, " "), kind.variant_name());
        let s = cat_num(cat(s, ": K="), shape.k as u64);
        return Err(corrupt(cat(s, " not divisible by group_size=16")));
    }
    let s = cat(String::from_str(weight_prefix), ".layers.");
    let base = cat(cat(cat_num(s, layer_idx as u64), "."), kind.name());
    let dims: [usize; 2] = [shape.n, shape.packed_cols()];
    assert(dims@ =~= seq![shape.n, shape.k / 2]);
    let weight = match require_tensor(
        tensors,
        suffixed(&base, ".weight").as_str(),
        DType::U8,
        dims.as_slice(),
    ) {
        Ok(e) => e,
        Err(e) => {
            return Err(e);
        },
    };
    let dims: [usize; 2] = [shape.n, shape.scale_cols()];
    assert(dims@ =~= seq![shape.n, shape.k / 16]);
    let weight_scale = match require_tensor(
        tensors,
        suffixed(&base, ".weight_scale").as_str(),
        DType::Fp8E4M3,
        dims.as_slice(),
    ) {
        Ok(e) => e,
        Err(e) => {
            return Err(e);
        },
    };
    let weight_scale_2 = match require_scalar(
        tensors,
        suffixed(&base, ".weight_scale_2").as_str(),
        DType::F32,
    ) {
        Ok(e) => e,
        Err(e) => {
            return Err(e);
        },
    };
    let input_scale = match require_scalar(
        tensors,
        suffixed(&base, ".input_scale").as_str(),
        DType::F32,
    ) {
        Ok(e) => e,
        Err(e) => {
            return Err(e);
        },
    };
    Ok(Gemma4Nvfp4LinearWeight { shape, weight, weight_scale, weight_scale_2, input_scale })
}

fn attention_weight(prefix: &Vec<char>, infix: &Vec<char>, suffix: &Vec<char>, name: &str) -> (r:
    bool)
    requires
        infix@ == ".self_attn."@,
        suffix@ == ".weight"@,
    ensures
        r == is_attention_weight(prefix@, name@),
{
    let chars = chars_of(name);
    if !occurs_at_exec(&chars, prefix, 0) || suffix.len() > chars.len() {
        return false;
    }
    has_infix_exec(&chars, infix) && occurs_at_exec(&chars, suffix, chars.len() - suffix.len())
}

fn quantized_attention(name: &str, got: DType) -> (r: LoaderError)
    ensures
        r@ == attention_fault(name@, got),
{
    let s = cat(String::from_str("Gemma 4 NVFP4 attention tensor "), name);
    let s = cat_dtype(cat(s, " is NOT bf16/f16 (got "), got);
    corrupt(
        cat(
            s,
            "); checkpoint quant_config says self_attn must stay unquantized — refusing to load.",
        ),
    )
}

/// Number of attention weights, or the first quantized one.
fn sweep_attention(weight_prefix: &str, tensors: &TensorMap) -> (r: Result<usize, LoaderError>)
    ensures
        match r {
            Ok(n) => sweep_fault(
                weight_prefix@,
                tensors.keys(),
                tensors.values(),
                tensors.keys().len(),
            ) is None && n == attention_count(
                weight_prefix@,
                tensors.keys(),
                tensors.keys().len(),
            ),
            Err(e) => sweep_fault(
                weight_prefix@,
                tensors.keys(),
                tensors.values(),
                tensors.keys().len(),
            ) == Some(e@),
        },
{
    let prefix = chars_of(weight_prefix);
    let infix = chars_of(".self_attn.");
    let suffix = chars_of(".weight");
    let mut count: usize = 0;
    let mut i: usize = 0;
    let n: usize = tensors.len();
    while i < n
        invariant
            i <= n,
            n == tensors.keys().len(),
            prefix@ == weight_prefix@,
            infix@ == ".self_attn."@,
            suffix@ == ".weight"@,
            count <= i,
            sweep_fault(weight_prefix@, tensors.keys(), tensors.values(), i as nat) is None,
            count == attention_count(weight_prefix@, tensors.keys(), i as nat),
        decreases n - i,
    {
        let name = tensors.key_at(i);
        let dtype = tensors.value_at(i).dtype;
        if attention_weight(&prefix, &infix, &suffix, name.as_str()) {
            if dtype != DType::Bf16 && dtype != DType::F16 {
                proof {
                    lemma_sweep_stops(
                        weight_prefix@,
                        tensors.keys(),
                        tensors.values(),
                        (i + 1) as nat,
                        n as nat,
                    );
                }
                return Err(quantized_attention(name.as_str(), dtype));
            }
            count = count + 1;
        }
        i = i + 1;
    }
    Ok(count)
}

/// What the sweep reports early it still reports at the end.
proof fn lemma_sweep_stops(
    prefix: Seq<char>,
    keys: Seq<Seq<char>>,
    values: Seq<TensorView>,
    m: nat,
    n: nat,
)
    requires
        m <= n,
        sweep_fault(prefix, keys, values, m) is Some,
    ensures
        sweep_fault(prefix, keys, values, n) == sweep_fault(prefix, keys, values, m),
    decreases n,
{
    if m < n {
        lemma_sweep_stops(prefix, keys, values, m, (n - 1) as nat);
    }
}

/// What is wrong with the first projections is what is wrong first.
proof fn lemma_mlp_stops(
    arch: &Gemma4Arch,
    prefix: Seq<char>,
    tensors: Map<Seq<char>, TensorView>,
    m: nat,
    n: nat,
)
    requires
        m <= n,
        mlp_fault(arch, prefix, tensors, m) is Some,
    ensures
        mlp_fault(arch, prefix, tensors, n) == mlp_fault(arch, prefix, tensors, m),
    decreases n,
{
    if m < n {
        lemma_mlp_stops(arch, prefix, tensors, m, (n - 1) as nat);
    }
}

/// One more projection adds what is wrong with it, unless something was wrong
/// before.
proof fn lemma_mlp_step(
    arch: &Gemma4Arch,
    prefix: Seq<char>,
    tensors: Map<Seq<char>, TensorView>,
    l: nat,
    i: nat,
)
    requires
        i < 3,
        mlp_fault(arch, prefix, tensors, (3 * l + i) as nat) is None,
    ensures
        mlp_fault(arch, prefix, tensors, (3 * l + i + 1) as nat) == linear_fault(
            arch,
            prefix,
            tensors,
            l,
            kind_at(i as int),
        ),
{
    let n = 3 * l + i + 1;
    assert((n - 1) / 3 == l && (n - 1) % 3 == i);
}

/// The three projections of one layer.
#[verifier::spinoff_prover]
#[verifier::rlimit(40)]
fn require_layer(
    arch: &Gemma4Arch,
    weight_prefix: &str,
    tensors: &TensorMap,
    layer_idx: usize,
) -> (r: Result<[Gemma4Nvfp4LinearWeight; 3], LoaderError>)
    requires
        tensors.wf(),
        mlp_fault(arch, weight_prefix@, tensors@, 3 * layer_idx as nat) is None,
    ensures
        match r {
            Ok(w) => {
                &&& mlp_fault(arch, weight_prefix@, tensors@, (3 * layer_idx + 3) as nat) is None
                &&& forall|i: int|
                    0 <= i < 3 ==> (#[trigger] w@[i])@ == linear_of(
                        arch,
                        weight_prefix@,
                        tensors@,
                        layer_idx as nat,
                        kind_at(i),
                    )
            },
            Err(e) => mlp_fault(arch, weight_prefix@, tensors@, (3 * layer_idx + 3) as nat)
                == Some(e@),
        },
{
    proof {
        lemma_mlp_step(arch, weight_prefix@, tensors@, layer_idx as nat, 0);
    }
    let gate = match require_linear(
        arch,
        weight_prefix,
        tensors,
        layer_idx,
        Gemma4Nvfp4MlpKind::GateProj,
    ) {
        Ok(w) => w,
        Err(e) => {
            proof {
                lemma_mlp_stops(arch, weight_prefix@, tensors@, (3 * layer_idx + 1) as nat, (3 * layer_idx + 3) as nat);
            }
            return Err(e);
        },
    };
    proof {
        lemma_mlp_step(arch, weight_prefix@, tensors@, layer_idx as nat, 1);
    }
    let up = match require_linear(arch, weight_prefix, tensors, layer_idx, Gemma4Nvfp4MlpKind::UpProj) {
        Ok(w) => w,
        Err(e) => {
            proof {
                lemma_mlp_stops(arch, weight_prefix@, tensors@, (3 * layer_idx + 2) as nat, (3 * layer_idx + 3) as nat);
            }
            return Err(e);
        },
    };
    proof {
        lemma_mlp_step(arch, weight_prefix@, tensors@, layer_idx as nat, 2);
    }
    let down = match require_linear(
        arch,
        weight_prefix,
        tensors,
        layer_idx,
        Gemma4Nvfp4MlpKind::DownProj,
    ) {
        Ok(w) => w,
        Err(e) => {
            proof {
                lemma_mlp_stops(arch, weight_prefix@, tensors@, (3 * layer_idx + 3) as nat, (3 * layer_idx + 3) as nat);
            }
            return Err(e);
        },
    };
    Ok([gate, up, down])
}

/// Walks the directory of a checkpoint, checks its NVFP4 MLP linears and its
/// 16-bit attention weights, and gathers the linears' entries.
pub fn validate_gemma4_nvfp4_inventory(
    arch: &Gemma4Arch,
    weight_prefix: &str,
    tensors: &TensorMap,
) -> (r: Result<Gemma4Nvfp4Inventory, LoaderError>)
    requires
        tensors.wf(),
        3 * arch.num_hidden_layers <= usize::MAX,
    ensures
        match r {
            Ok(inv) => {
                &&& inventory_fault(arch, weight_prefix@, tensors) is None
                &&& inv.num_layers == arch.num_hidden_layers
                &&& inv.layers@.len() == arch.num_hidden_layers
                &&& forall|l: int, i: int|
                    0 <= l < inv.layers@.len() && 0 <= i < 3 ==> (#[trigger] inv.layers@[l]@[i])@
                        == linear_of(arch, weight_prefix@, tensors@, l as nat, kind_at(i))
                &&& inv.counts.weight == 3 * arch.num_hidden_layers
                &&& inv.counts.weight_scale == 3 * arch.num_hidden_layers
                &&& inv.counts.weight_scale_2 == 3 * arch.num_hidden_layers
                &&& inv.counts.input_scale == 3 * arch.num_hidden_layers
                &&& inv.counts.attn_bf16 == attention_count(
                    weight_prefix@,
                    tensors.keys(),
                    tensors.keys().len(),
                )
                &&& inv.weight_prefix@ == weight_prefix@
            },
            Err(e) => inventory_fault(arch, weight_prefix@, tensors) == Some(e@),
        },
{
    let mut layers: Vec<[Gemma4Nvfp4LinearWeight; 3]> = Vec::new();
    let mut l: usize = 0;
    while l < arch.num_hidden_layers
        invariant
            l <= arch.num_hidden_layers,
            tensors.wf(),
            layers@.len() == l,
            mlp_fault(arch, weight_prefix@, tensors@, 3 * l as nat) is None,
            forall|k: int, i: int|
                0 <= k < l && 0 <= i < 3 ==> (#[trigger] layers@[k]@[i])@ == linear_of(
                    arch,
                    weight_prefix@,
                    tensors@,
                    k as nat,
                    kind_at(i),
                ),
        decreases arch.num_hidden_layers - l,
    {
        let linears = match require_layer(arch, weight_prefix, tensors, l) {
            Ok(w) => w,
            Err(e) => {
                proof {
                    lemma_mlp_stops(
                        arch,
                        weight_prefix@,
                        tensors@,
                        (3 * l + 3) as nat,
                        3 * arch.num_hidden_layers as nat,
                    );
                }
                return Err(e);
            },
        };
        layers.push(linears);
        l = l + 1;
    }
    let attn_bf16: usize = match sweep_attention(weight_prefix, tensors) {
        Ok(n) => n,
        Err(e) => {
            return Err(e);
        },
    };
    let n: usize = 3 * arch.num_hidden_layers;
    Ok(
        Gemma4Nvfp4Inventory {
            num_layers: arch.num_hidden_layers,
            layers,
            counts: Gemma4Nvfp4TensorCounts {
                weight: n,
                weight_scale: n,
                weight_scale_2: n,
                input_scale: n,
                attn_bf16,
            },
            weight_prefix: String::from_str(weight_prefix),
        },
    )
}

/// One NVFP4 linear after upload; all pointers are device addresses.
#[derive(Debug, Clone, Copy)]
pub struct Gemma4Nvfp4LinearLoaded {
    pub shape: Nvfp4LinearShape,
    /// `[n, k/2]` packed weight.
    pub packed_ptr: u64,
    /// `[n, k/16]` microscales, row-major.
    pub sfb_natural_ptr: u64,
    /// Interleaved microscales, `0` where the tensor-core path is not used.
    pub sfb_cutlass_ptr: u64,
    /// One 32-bit number, the inverse of the global weight scale.
    pub global_scale_ptr: u64,
    /// One 32-bit number, the static input scale.
    pub input_scale_ptr: u64,
    pub packed_bytes: usize,
    pub sfb_bytes: usize,
    /// `[n, k]` dequantized weight, `0` until it is filled.
    pub bf16_ptr: u64,
}

/// One layer after upload.
#[derive(Debug)]
pub struct Gemma4Nvfp4LayerLoaded {
    pub input_layernorm: F16Weight,
    pub post_attention_layernorm: F16Weight,
    pub pre_feedforward_layernorm: F16Weight,
    pub post_feedforward_layernorm: F16Weight,
    pub layer_scalar: F16Weight,
    pub q_norm: F16Weight,
    pub k_norm: F16Weight,
    pub q_proj: F16Weight,
    pub k_proj: F16Weight,
    /// `None` where the values are the keys.
    pub v_proj: Option<F16Weight>,
    pub o_proj: F16Weight,
    pub gate_proj: Gemma4Nvfp4LinearLoaded,
    pub up_proj: Gemma4Nvfp4LinearLoaded,
    pub down_proj: Gemma4Nvfp4LinearLoaded,
}

impl Gemma4Nvfp4LayerLoaded {
    /// The linears in the order gate, up, down.
    pub fn nvfp4_linears(&self) -> (r: [&Gemma4Nvfp4LinearLoaded; 3])
        ensures
            *r@[0] == self.gate_proj,
            *r@[1] == self.up_proj,
            *r@[2] == self.down_proj,
    {
        [&self.gate_proj, &self.up_proj, &self.down_proj]
    }
}

/// Text weights outside the layer stack. The head of the language model
/// shares the embedding.
#[derive(Debug)]
pub struct Gemma4Nvfp4OutsideText {
    /// `[vocab, hidden]`.
    pub embed_tokens: F16Weight,
    /// `[hidden]`.
    pub final_norm: F16Weight,
}

/// The text model after upload.
#[derive(Debug)]
pub struct Gemma4Nvfp4LoadedModel {
    pub outside: Gemma4Nvfp4OutsideText,
    pub layers: Vec<Gemma4Nvfp4LayerLoaded>,
}

/// Two linears share the common part of their tensor names only if they are
/// the same projection of the same layer.
pub proof fn law_linear_names_distinct(
    prefix: Seq<char>,
    l1: nat,
    k1: Gemma4Nvfp4MlpKind,
    l2: nat,
    k2: Gemma4Nvfp4MlpKind,
)
    requires
        linear_base(prefix, l1, k1) == linear_base(prefix, l2, k2),
    ensures
        l1 == l2,
        k1 == k2,
{
    reveal_strlit(".");
    reveal_strlit("mlp.gate_proj");
    reveal_strlit("mlp.up_proj");
    reveal_strlit("mlp.down_proj");
    let head = prefix + ".layers."@;
    let (x, y) = ("."@ + k1.name_text(), "."@ + k2.name_text());
    let (s, t) = (linear_base(prefix, l1, k1), linear_base(prefix, l2, k2));
    assert(s.skip(head.len() as int) =~= decimal(l1) + x);
    assert(t.skip(head.len() as int) =~= decimal(l2) + y);
    lemma_decimal_prefix(l1, l2, x, y);
    assert(x.skip(1) =~= k1.name_text());
    assert(y.skip(1) =~= k2.name_text());
    assert(k1.name_text()[4] == k2.name_text()[4]);
}

/// Nothing is wrong with the first `n` projections exactly if nothing is
/// wrong with any of them.
proof fn lemma_mlp_fault_none(
    arch: &Gemma4Arch,
    prefix: Seq<char>,
    tensors: Map<Seq<char>, TensorView>,
    n: nat,
)
    ensures
        mlp_fault(arch, prefix, tensors, n) is None <==> forall|j: int|
            0 <= j < n ==> #[trigger] linear_fault(
                arch,
                prefix,
                tensors,
                (j / 3) as nat,
                kind_at(j % 3),
            ) is None,
    decreases n,
{
    if n > 0 {
        lemma_mlp_fault_none(arch, prefix, tensors, (n - 1) as nat);
    }
}

proof fn lemma_sweep_none(
    prefix: Seq<char>,
    keys: Seq<Seq<char>>,
    values: Seq<TensorView>,
    n: nat,
)
    ensures
        sweep_fault(prefix, keys, values, n) is None <==> forall|i: int|
            0 <= i < n && is_attention_weight(prefix, #[trigger] keys[i]) ==> is_16_bit(
                values[i].dtype,
            ),
    decreases n,
{
    if n > 0 {
        lemma_sweep_none(prefix, keys, values, (n - 1) as nat);
    }
}

/// A checkpoint is accepted exactly if every MLP linear of every layer is as
/// it should be and every attention weight under the prefix is in 16 bits.
pub proof fn law_inventory_accepts(arch: &Gemma4Arch, prefix: Seq<char>, tensors: &TensorMap)
    requires
        tensors.wf(),
    ensures
        inventory_fault(arch, prefix, tensors) is None <==> {
            &&& forall|l: int, i: int|
                0 <= l < arch.num_hidden_layers && 0 <= i < 3 ==> #[trigger] linear_fault(
                    arch,
                    prefix,
                    tensors@,
                    l as nat,
                    kind_at(i),
                ) is None
            &&& forall|name: Seq<char>| #[trigger]
                tensors@.contains_key(name) && is_attention_weight(prefix, name) ==> is_16_bit(
                    tensors@[name].dtype,
                )
        },
{
    let n = 3 * arch.num_hidden_layers as nat;
    let (keys, values) = (tensors.keys(), tensors.values());
    lemma_mlp_fault_none(arch, prefix, tensors@, n);
    lemma_sweep_none(prefix, keys, values, keys.len());
    tensors.law_walk();
    if mlp_fault(arch, prefix, tensors@, n) is None {
        assert forall|l: int, i: int|
            0 <= l < arch.num_hidden_layers && 0 <= i < 3 implies #[trigger] linear_fault(
            arch,
            prefix,
            tensors@,
            l as nat,
            kind_at(i),
        ) is None by {
            let j = 3 * l + i;
            assert(j / 3 == l && j % 3 == i);
            assert(linear_fault(arch, prefix, tensors@, (j / 3) as nat, kind_at(j % 3)) is None);
        }
    }
    if sweep_fault(prefix, keys, values, keys.len()) is None {
        assert forall|name: Seq<char>| #[trigger]
            tensors@.contains_key(name) && is_attention_weight(prefix, name) implies is_16_bit(
            tensors@[name].dtype,
        ) by {
            let i = choose|i: int| 0 <= i < keys.len() && #[trigger] keys[i] == name;
            assert(is_attention_weight(prefix, keys[i]));
        }
    }
    if (forall|l: int, i: int|
        0 <= l < arch.num_hidden_layers && 0 <= i < 3 ==> #[trigger] linear_fault(
            arch,
            prefix,
            tensors@,
            l as nat,
            kind_at(i),
        ) is None) {
        assert forall|j: int| 0 <= j < n implies #[trigger] linear_fault(
            arch,
            prefix,
            tensors@,
            (j / 3) as nat,
            kind_at(j % 3),
        ) is None by {
            assert(0 <= j / 3 < arch.num_hidden_layers);
        }
    }
    if (forall|name: Seq<char>| #[trigger]
        tensors@.contains_key(name) && is_attention_weight(prefix, name) ==> is_16_bit(
            tensors@[name].dtype,
        )) {
        assert forall|i: int|
            0 <= i < keys.len() && is_attention_weight(prefix, #[trigger] keys[i]) implies is_16_bit(
        values[i].dtype) by {
            assert(tensors@.contains_key(keys[i]));
        }
    }
}

/// An attention weight under the prefix that is not in 16 bits.
spec fn is_bad(prefix: Seq<char>, name: Seq<char>, e: TensorView) -> bool {
    is_attention_weight(prefix, name) && !is_16_bit(e.dtype)
}

/// The sweep reports the first of them.
proof fn lemma_sweep_first(
    prefix: Seq<char>,
    keys: Seq<Seq<char>>,
    values: Seq<TensorView>,
    n: nat,
) -> (i: int)
    requires
        sweep_fault(prefix, keys, values, n) is Some,
    ensures
        0 <= i < n,
        is_bad(prefix, keys[i], values[i]),
        forall|j: int| 0 <= j < i ==> !is_bad(prefix, #[trigger] keys[j], values[j]),
        sweep_fault(prefix, keys, values, n) == Some(attention_fault(keys[i], values[i].dtype)),
    decreases n,
{
    if sweep_fault(prefix, keys, values, (n - 1) as nat) is Some {
        lemma_sweep_first(prefix, keys, values, (n - 1) as nat)
    } else {
        lemma_sweep_none(prefix, keys, values, (n - 1) as nat);
        n - 1
    }
}

/// The sweep reports something where one of them is in the directory.
proof fn lemma_sweep_reports(prefix: Seq<char>, t: &TensorMap, name: Seq<char>)
    requires
        t.wf(),
        t@.contains_key(name),
        is_bad(prefix, name, t@[name]),
    ensures
        sweep_fault(prefix, t.keys(), t.values(), t.keys().len()) is Some,
{
    t.law_walk();
    let (keys, values) = (t.keys(), t.values());
    let at = choose|i: int| 0 <= i < keys.len() && #[trigger] keys[i] == name;
    lemma_sweep_none(prefix, keys, values, keys.len());
    assert(is_attention_weight(prefix, keys[at]));
}

/// What the sweep reports is in the directory.
proof fn lemma_sweep_found(prefix: Seq<char>, t: &TensorMap) -> (k: Seq<char>)
    requires
        t.wf(),
        sweep_fault(prefix, t.keys(), t.values(), t.keys().len()) is Some,
    ensures
        t@.contains_key(k),
        is_bad(prefix, k, t@[k]),
        sweep_fault(prefix, t.keys(), t.values(), t.keys().len()) == Some(
            attention_fault(k, t@[k].dtype),
        ),
        forall|name: Seq<char>| #[trigger]
            t@.contains_key(name) && is_bad(prefix, name, t@[name]) ==> k == name || name_lt(k, name),
{
    t.law_walk();
    let (keys, values) = (t.keys(), t.values());
    let i = lemma_sweep_first(prefix, keys, values, keys.len());
    assert(t@.contains_key(keys[i]));
    assert forall|name: Seq<char>| #[trigger]
        t@.contains_key(name) && is_bad(prefix, name, t@[name]) implies keys[i] == name || name_lt(
        keys[i],
        name,
    ) by {
        let at = choose|j: int| 0 <= j < keys.len() && #[trigger] keys[j] == name;
        assert(is_bad(prefix, keys[at], values[at]));
        if i < at {
            assert(name_lt(keys[i], keys[at]));
        }
    }
    keys[i]
}

/// Names of the attention weights among the first `n` tensors.
spec fn attention_names(prefix: Seq<char>, keys: Seq<Seq<char>>, n: nat) -> Set<Seq<char>>
    decreases n,
{
    if n == 0 {
        Set::empty()
    } else if is_attention_weight(prefix, keys[n - 1]) {
        attention_names(prefix, keys, (n - 1) as nat).insert(keys[n - 1])
    } else {
        attention_names(prefix, keys, (n - 1) as nat)
    }
}

/// There are as many names as are counted.
proof fn lemma_count_names(prefix: Seq<char>, keys: Seq<Seq<char>>, n: nat)
    requires
        n <= keys.len(),
        forall|i: int, j: int|
            0 <= i < j < keys.len() ==> name_lt(#[trigger] keys[i], #[trigger] keys[j]),
    ensures
        attention_names(prefix, keys, n).finite(),
        attention_names(prefix, keys, n).len() == attention_count(prefix, keys, n),
        forall|k: Seq<char>| #[trigger]
            attention_names(prefix, keys, n).contains(k) <==> is_attention_weight(prefix, k)
                && exists|i: int| 0 <= i < n && #[trigger] keys[i] == k,
    decreases n,
{
    if n > 0 {
        let m = (n - 1) as nat;
        lemma_count_names(prefix, keys, m);
        let before = attention_names(prefix, keys, m);
        let last = keys[m as int];
        if before.contains(last) {
            let i = choose|i: int| 0 <= i < m && #[trigger] keys[i] == last;
            assert(name_lt(keys[i], keys[m as int]));
            law_name_order_irreflexive(last);
        }
        assert forall|k: Seq<char>| #[trigger]
            attention_names(prefix, keys, n).contains(k) <==> is_attention_weight(prefix, k)
                && exists|i: int| 0 <= i < n && #[trigger] keys[i] == k by {
            if is_attention_weight(prefix, k) && exists|i: int| 0 <= i < n && #[trigger] keys[i] == k {
                let i = choose|i: int| 0 <= i < n && #[trigger] keys[i] == k;
                if i < m {
                    assert(before.contains(k));
                }
            }
            if before.contains(k) {
                let i = choose|i: int| 0 <= i < m && #[trigger] keys[i] == k;
                assert(0 <= i < n && keys[i] == k);
            }
            if k == last {
                assert(0 <= m < n && keys[m as int] == k);
            }
        }
    }
}

/// Linears see only tensors under the prefix.
proof fn lemma_linear_outside(
    arch: &Gemma4Arch,
    prefix: Seq<char>,
    a: Map<Seq<char>, TensorView>,
    name: Seq<char>,
    e: TensorView,
    layer: nat,
    kind: Gemma4Nvfp4MlpKind,
)
    requires
        !has_prefix(name, prefix),
    ensures
        linear_fault(arch, prefix, a.insert(name, e), layer, kind) == linear_fault(
            arch,
            prefix,
            a,
            layer,
            kind,
        ),
        linear_of(arch, prefix, a.insert(name, e), layer, kind) == linear_of(
            arch,
            prefix,
            a,
            layer,
            kind,
        ),
{
    let base = linear_base(prefix, layer, kind);
    assert forall|t: Seq<char>| #[trigger] has_prefix(base + t, prefix) by {
        assert((base + t).subrange(0, prefix.len() as int) =~= prefix);
    }
    assert(has_prefix(base + ".weight"@, prefix));
    assert(has_prefix(base + ".weight_scale"@, prefix));
    assert(has_prefix(base + ".weight_scale_2"@, prefix));
    assert(has_prefix(base + ".input_scale"@, prefix));
}

proof fn lemma_mlp_outside(
    arch: &Gemma4Arch,
    prefix: Seq<char>,
    a: Map<Seq<char>, TensorView>,
    name: Seq<char>,
    e: TensorView,
    n: nat,
)
    requires
        !has_prefix(name, prefix),
    ensures
        mlp_fault(arch, prefix, a.insert(name, e), n) == mlp_fault(arch, prefix, a, n),
    decreases n,
{
    if n > 0 {
        lemma_mlp_outside(arch, prefix, a, name, e, (n - 1) as nat);
        lemma_linear_outside(
            arch,
            prefix,
            a,
            name,
            e,
            ((n - 1) / 3) as nat,
            kind_at((n - 1) % 3),
        );
    }
}

/// A further tensor outside the prefix, of whatever type and shape, changes
/// nothing: the same is reported, or the same linears and counts are gathered.
pub proof fn law_inventory_outside_prefix(
    arch: &Gemma4Arch,
    prefix: Seq<char>,
    t: &TensorMap,
    more: &TensorMap,
    name: Seq<char>,
    e: TensorView,
)
    requires
        t.wf(),
        more.wf(),
        !has_prefix(name, prefix),
        more@ == t@.insert(name, e),
    ensures
        inventory_fault(arch, prefix, more) == inventory_fault(arch, prefix, t),
        attention_count(prefix, more.keys(), more.keys().len()) == attention_count(
            prefix,
            t.keys(),
            t.keys().len(),
        ),
        forall|l: nat, i: int| #[trigger]
            linear_of(arch, prefix, more@, l, kind_at(i)) == linear_of(
                arch,
                prefix,
                t@,
                l,
                kind_at(i),
            ),
{
    lemma_mlp_outside(arch, prefix, t@, name, e, 3 * arch.num_hidden_layers as nat);
    assert forall|l: nat, i: int| #[trigger]
        linear_of(arch, prefix, more@, l, kind_at(i)) == linear_of(
            arch,
            prefix,
            t@,
            l,
            kind_at(i),
        ) by {
        lemma_linear_outside(arch, prefix, t@, name, e, l, kind_at(i));
    }
    lemma_sweep_outside(prefix, t, more, name, e);
    t.law_walk();
    more.law_walk();
    let (a, b) = (t.keys(), more.keys());
    lemma_count_names(prefix, a, a.len());
    lemma_count_names(prefix, b, b.len());
    let (na, nb) = (attention_names(prefix, a, a.len()), attention_names(prefix, b, b.len()));
    assert forall|k: Seq<char>| na.contains(k) <==> nb.contains(k) by {
        if na.contains(k) {
            let i = choose|i: int| 0 <= i < a.len() && #[trigger] a[i] == k;
            assert(t@.contains_key(a[i]));
            assert(more@.contains_key(k));
        }
        if nb.contains(k) {
            let i = choose|i: int| 0 <= i < b.len() && #[trigger] b[i] == k;
            assert(more@.contains_key(b[i]));
            assert(t@.contains_key(k));
        }
    }
    assert(na =~= nb);
}

proof fn lemma_sweep_outside(
    prefix: Seq<char>,
    t: &TensorMap,
    more: &TensorMap,
    name: Seq<char>,
    e: TensorView,
)
    requires
        t.wf(),
        more.wf(),
        !has_prefix(name, prefix),
        more@ == t@.insert(name, e),
    ensures
        sweep_fault(prefix, more.keys(), more.values(), more.keys().len()) == sweep_fault(
            prefix,
            t.keys(),
            t.values(),
            t.keys().len(),
        ),
{
    let fa = sweep_fault(prefix, t.keys(), t.values(), t.keys().len());
    let fb = sweep_fault(prefix, more.keys(), more.values(), more.keys().len());
    if fa is Some {
        let k = lemma_sweep_found(prefix, t);
        assert(more@.contains_key(k) && is_bad(prefix, k, more@[k]));
        lemma_sweep_reports(prefix, more, k);
    }
    if fb is Some {
        let k = lemma_sweep_found(prefix, more);
        assert(t@.contains_key(k) && is_bad(prefix, k, t@[k]));
        lemma_sweep_reports(prefix, t, k);
    }
    if fa is Some && fb is Some {
        let k = lemma_sweep_found(prefix, t);
        let j = lemma_sweep_found(prefix, more);
        assert(t@.contains_key(j) && is_bad(prefix, j, t@[j]));
        assert(more@.contains_key(k) && is_bad(prefix, k, more@[k]));
        if k != j {
            law_name_order_transitive(k, j, k);
            law_name_order_irreflexive(k);
        }
    }
}

} // verus!
