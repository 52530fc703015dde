//! Which checkpoints the NVFP4 text model is loaded from.

use crate::loader::gemma4_arch::Gemma4Arch;
use crate::loader::gemma4_nvfp4_weights::{kind_at, linear_base, Gemma4Nvfp4MlpKind};
use crate::loader::shards::{elems, ShardPool};
use crate::loader::weights::Nvfp4LinearShape;
use crate::runtime::gemma4_nvfp4_load::{
    head_tensors, layer_upload, linear_upload, mlp_upload, outside_upload, output_tensor,
    tensor_in_layer, text_uploads, typed_upload, value_upload, wanted_upload, wanted_uploads,
    WantedView,
};
use crate::tensor::{DType, LoaderFault};
use vstd::prelude::*;

verus! {

/// Whether the shards hold a tensor of an element type, with as many bytes as
/// its shape gives at `width` bytes to an element.
pub open spec fn has_tensor(pool: &ShardPool, name: Seq<char>, dtype: DType, width: nat) -> bool {
    pool.found(name) matches Some((_, e)) && e.dtype == dtype && e.nbytes == elems(e.shape) * width
}

/// Whether the shards hold a tensor under a name with a shape.
pub open spec fn has_shape(pool: &ShardPool, name: Seq<char>, shape: Seq<usize>) -> bool {
    pool.found(name) matches Some((_, e)) && e.shape == shape
}

/// Whether the shards hold a bf16 tensor.
pub open spec fn has_bf16(pool: &ShardPool, name: Seq<char>) -> bool {
    has_tensor(pool, name, DType::Bf16, 2)
}

/// Whether the shards hold a list of `n` bf16 numbers.
pub open spec fn has_norm(pool: &ShardPool, name: Seq<char>, n: usize) -> bool {
    has_bf16(pool, name) && has_shape(pool, name, seq![n])
}

/// Whether the shards hold a 32-bit number: one entry or a list of one.
pub open spec fn has_number(pool: &ShardPool, name: Seq<char>) -> bool {
    pool.found(name) matches Some((_, e)) && e.dtype == DType::F32 && e.nbytes == 4 && (
    e.shape.len() == 0 || e.shape == seq![1usize])
}

/// Whether the shards hold the four tensors of a linear of `n` rows and `k`
/// columns: two weights to a byte and a scale for sixteen weights.
pub open spec fn has_linear(pool: &ShardPool, base: Seq<char>, n: usize, k: usize) -> bool {
    &&& has_tensor(pool, base + ".weight"@, DType::U8, 1)
    &&& has_shape(pool, base + ".weight"@, seq![n, k / 2])
    &&& has_tensor(pool, base + ".weight_scale"@, DType::Fp8E4M3, 1)
    &&& has_shape(pool, base + ".weight_scale"@, seq![n, k / 16])
    &&& has_number(pool, base + ".weight_scale_2"@)
    &&& has_number(pool, base + ".input_scale"@)
}

/// A tensor goes to the device exactly if the shards hold it in the element
/// type and shape that are asked for, with no byte too few or too many. One
/// that the shards do not hold is named in the report.
pub proof fn law_tensor_is_taken(
    pool: &ShardPool,
    region: &'static str,
    name: Seq<char>,
    dtype: DType,
    shape: Option<Seq<usize>>,
)
    ensures
        typed_upload(pool, region, name, dtype, shape).failure is None <==> {
            &&& shape is Some ==> has_shape(pool, name, shape->Some_0)
            &&& match dtype {
                DType::Bf16 | DType::F16 => has_tensor(pool, name, dtype, 2),
                DType::F32 => has_tensor(pool, name, dtype, 4),
                DType::Fp8E4M3 | DType::U8 => has_tensor(pool, name, dtype, 1),
                DType::I64 => false,
            }
        },
        pool.found(name) is None ==> typed_upload(pool, region, name, dtype, shape).failure
            == Some(LoaderFault::MissingTensor { name }),
        typed_upload(pool, region, name, dtype, shape).failure is Some ==> typed_upload(
            pool,
            region,
            name,
            dtype,
            shape,
        ).uploads.len() == 0,
{
}

/// A linear goes to the device exactly if the shards hold its packed weights,
/// its microscales and its two scales as the shape asks.
pub proof fn law_linear_is_taken(pool: &ShardPool, base: Seq<char>, shape: Nvfp4LinearShape)
    ensures
        linear_upload(pool, base, shape).failure is None <==> has_linear(
            pool,
            base,
            shape.n,
            shape.k,
        ),
{
    match pool.found(base + ".weight_scale_2"@) {
        Some((_, e)) => {
            assert(e.shape.len() == 1 && e.shape[0] == 1 ==> e.shape =~= seq![1usize]);
        },
        None => {},
    }
    match pool.found(base + ".input_scale"@) {
        Some((_, e)) => {
            assert(e.shape.len() == 1 && e.shape[0] == 1 ==> e.shape =~= seq![1usize]);
        },
        None => {},
    }
}

/// Whether the shards hold all the tensors of a layer. Only a layer of global
/// attention may be without values of its own.
pub open spec fn has_layer(pool: &ShardPool, arch: &Gemma4Arch, layer: nat) -> bool {
    let p = arch.weight_prefix@;
    let h = arch.hidden_size;
    let i = arch.intermediate_size;
    let values = tensor_in_layer(p, layer, ".self_attn.v_proj.weight"@);
    &&& has_norm(pool, tensor_in_layer(p, layer, ".input_layernorm.weight"@), h)
    &&& has_norm(pool, tensor_in_layer(p, layer, ".post_attention_layernorm.weight"@), h)
    &&& has_norm(pool, tensor_in_layer(p, layer, ".pre_feedforward_layernorm.weight"@), h)
    &&& has_norm(pool, tensor_in_layer(p, layer, ".post_feedforward_layernorm.weight"@), h)
    &&& has_bf16(pool, tensor_in_layer(p, layer, ".self_attn.q_norm.weight"@))
    &&& has_bf16(pool, tensor_in_layer(p, layer, ".self_attn.k_norm.weight"@))
    &&& has_bf16(pool, tensor_in_layer(p, layer, ".self_attn.q_proj.weight"@))
    &&& has_bf16(pool, tensor_in_layer(p, layer, ".self_attn.k_proj.weight"@))
    &&& has_bf16(pool, tensor_in_layer(p, layer, ".self_attn.o_proj.weight"@))
    &&& has_norm(pool, tensor_in_layer(p, layer, ".layer_scalar"@), 1)
    &&& has_bf16(pool, values) || (pool.found(values) is None && layer < arch.layer_types@.len()
        && arch.is_global(layer as int))
    &&& has_linear(pool, linear_base(p, layer, Gemma4Nvfp4MlpKind::GateProj), i, h)
    &&& has_linear(pool, linear_base(p, layer, Gemma4Nvfp4MlpKind::UpProj), i, h)
    &&& has_linear(pool, linear_base(p, layer, Gemma4Nvfp4MlpKind::DownProj), h, i)
}

/// Whether a bf16 tensor goes to the device.
#[verifier::opaque]
spec fn goes(pool: &ShardPool, w: WantedView) -> bool {
    wanted_upload(pool, w).failure is None
}

/// Whether a bf16 tensor is there in the length that is wanted.
#[verifier::opaque]
spec fn is_there(pool: &ShardPool, name: Seq<char>, length: Option<usize>) -> bool {
    has_bf16(pool, name) && (length is Some ==> has_shape(pool, name, seq![length->Some_0]))
}

proof fn lemma_goes(pool: &ShardPool, w: WantedView)
    ensures
        goes(pool, w) <==> is_there(pool, w.name, w.length),
{
    reveal(goes);
    reveal(is_there);
}

proof fn lemma_all_go(pool: &ShardPool, list: Seq<WantedView>, n: nat)
    requires
        n <= list.len(),
    ensures
        wanted_uploads(pool, list, n).failure is None <==> forall|i: int|
            0 <= i < n ==> goes(pool, #[trigger] list[i]),
    decreases n,
{
    if n > 0 {
        lemma_all_go(pool, list, (n - 1) as nat);
        assert(goes(pool, list[n - 1]) <==> wanted_upload(pool, list[n - 1]).failure is None) by {
            reveal(goes);
        }
    }
}

/// Whether the tensors of a layer before its values are there.
proof fn lemma_head_goes(pool: &ShardPool, arch: &Gemma4Arch, layer: nat)
    ensures
        wanted_uploads(pool, head_tensors(arch, layer), 9).failure is None <==> {
            let p = arch.weight_prefix@;
            let h = Some(arch.hidden_size);
            &&& is_there(pool, tensor_in_layer(p, layer, ".input_layernorm.weight"@), h)
            &&& is_there(pool, tensor_in_layer(p, layer, ".post_attention_layernorm.weight"@), h)
            &&& is_there(pool, tensor_in_layer(p, layer, ".pre_feedforward_layernorm.weight"@), h)
            &&& is_there(pool, tensor_in_layer(p, layer, ".post_feedforward_layernorm.weight"@), h)
            &&& is_there(pool, tensor_in_layer(p, layer, ".layer_scalar"@), Some(1))
            &&& is_there(pool, tensor_in_layer(p, layer, ".self_attn.q_norm.weight"@), None)
            &&& is_there(pool, tensor_in_layer(p, layer, ".self_attn.k_norm.weight"@), None)
            &&& is_there(pool, tensor_in_layer(p, layer, ".self_attn.q_proj.weight"@), None)
            &&& is_there(pool, tensor_in_layer(p, layer, ".self_attn.k_proj.weight"@), None)
        },
{
    let list = head_tensors(arch, layer);
    lemma_all_go(pool, list, 9);
    assert forall|i: int| 0 <= i < 9 implies goes(pool, #[trigger] list[i]) == is_there(
        pool,
        list[i].name,
        list[i].length,
    ) by {
        lemma_goes(pool, list[i]);
    }
    assert(goes(pool, list[0]) == is_there(pool, list[0].name, list[0].length));
    assert(goes(pool, list[1]) == is_there(pool, list[1].name, list[1].length));
    assert(goes(pool, list[2]) == is_there(pool, list[2].name, list[2].length));
    assert(goes(pool, list[3]) == is_there(pool, list[3].name, list[3].length));
    assert(goes(pool, list[4]) == is_there(pool, list[4].name, list[4].length));
    assert(goes(pool, list[5]) == is_there(pool, list[5].name, list[5].length));
    assert(goes(pool, list[6]) == is_there(pool, list[6].name, list[6].length));
    assert(goes(pool, list[7]) == is_there(pool, list[7].name, list[7].length));
    assert(goes(pool, list[8]) == is_there(pool, list[8].name, list[8].length));
}

proof fn lemma_value_goes(pool: &ShardPool, arch: &Gemma4Arch, layer: nat)
    ensures
        value_upload(pool, arch, layer).failure is None <==> {
            let values = tensor_in_layer(
                arch.weight_prefix@,
                layer,
                ".self_attn.v_proj.weight"@,
            );
            has_bf16(pool, values) || (pool.found(values) is None && layer
                < arch.layer_types@.len() && arch.is_global(layer as int))
        },
{
}

proof fn lemma_mlp_goes(pool: &ShardPool, arch: &Gemma4Arch, layer: nat)
    ensures
        mlp_upload(pool, arch, layer).failure is None <==> {
            let p = arch.weight_prefix@;
            let h = arch.hidden_size;
            let i = arch.intermediate_size;
            &&& has_linear(pool, linear_base(p, layer, Gemma4Nvfp4MlpKind::GateProj), i, h)
            &&& has_linear(pool, linear_base(p, layer, Gemma4Nvfp4MlpKind::UpProj), i, h)
            &&& has_linear(pool, linear_base(p, layer, Gemma4Nvfp4MlpKind::DownProj), h, i)
        },
{
    let p = arch.weight_prefix@;
    law_linear_is_taken(pool, linear_base(p, layer, kind_at(0)), kind_at(0).shape_in(arch));
    law_linear_is_taken(pool, linear_base(p, layer, kind_at(1)), kind_at(1).shape_in(arch));
    law_linear_is_taken(pool, linear_base(p, layer, kind_at(2)), kind_at(2).shape_in(arch));
}

/// A layer goes to the device exactly if the shards hold all its tensors.
pub proof fn law_layer_is_taken(pool: &ShardPool, arch: &Gemma4Arch, layer: nat)
    ensures
        layer_upload(pool, arch, layer).failure is None <==> has_layer(pool, arch, layer),
{
    lemma_head_goes(pool, arch, layer);
    lemma_value_goes(pool, arch, layer);
    lemma_mlp_goes(pool, arch, layer);
    lemma_goes(pool, output_tensor(arch, layer));
    assert(goes(pool, output_tensor(arch, layer)) <==> wanted_upload(
        pool,
        output_tensor(arch, layer),
    ).failure is None) by {
        reveal(goes);
    }
    reveal(is_there);
}

/// The text model is loaded exactly if the shards hold the embedding with a
/// row for each token, the final norm and all the tensors of each layer.
pub proof fn law_model_is_taken(pool: &ShardPool, arch: &Gemma4Arch, n: nat)
    ensures
        text_uploads(pool, arch, n).failure is None <==> {
            let embedding = arch.weight_prefix@ + ".embed_tokens.weight"@;
            let norm = arch.weight_prefix@ + ".norm.weight"@;
            &&& has_bf16(pool, embedding)
            &&& has_shape(pool, embedding, seq![arch.vocab_size, arch.hidden_size])
            &&& has_bf16(pool, norm)
            &&& has_shape(pool, norm, seq![arch.hidden_size])
            &&& forall|l: int| 0 <= l < n ==> #[trigger] has_layer(pool, arch, l as nat)
        },
    decreases n,
{
    if n == 0 {
        assert(outside_upload(pool, arch) == text_uploads(pool, arch, 0));
    } else {
        let m = (n - 1) as nat;
        law_model_is_taken(pool, arch, m);
        law_layer_is_taken(pool, arch, m);
        assert(text_uploads(pool, arch, n) == text_uploads(pool, arch, m).followed_by(
            layer_upload(pool, arch, m),
        ));
        if forall|l: int| 0 <= l < n ==> #[trigger] has_layer(pool, arch, l as nat) {
            assert(has_layer(pool, arch, (n - 1) as nat));
        }
        assert forall|l: int|
            text_uploads(pool, arch, n).failure is None && 0 <= l < n implies #[trigger] has_layer(
            pool,
            arch,
            l as nat,
        ) by {
            if l == n - 1 {
                assert(l as nat == m);
            }
        }
    }
}

} // verus!
