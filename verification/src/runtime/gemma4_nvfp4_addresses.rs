//! Which tensor of the checkpoint lies at each address of the loaded NVFP4
//! text model.

use crate::loader::gemma4_arch::Gemma4Arch;
use crate::loader::gemma4_nvfp4_weights::{
    kind_at, linear_base, Gemma4Nvfp4LayerLoaded, Gemma4Nvfp4LinearLoaded, Gemma4Nvfp4LoadedModel,
};
use crate::loader::shards::ShardPool;
use crate::loader::weights::{F16Weight, Nvfp4LinearShape};
use crate::runtime::gemma4_nvfp4_load::{
    has_value, head_tensors, is_layer, is_weight, layer_start, layer_upload, law_linear_bytes,
    law_text_upload_count, linear_loaded, linear_upload, mlp_part, mlp_upload, outside_upload,
    output_tensor, tensor_bytes, tensor_in_layer, text_uploads, value_upload, wanted_upload,
    wanted_uploads, Upload, UploadView, WantedView,
};
use crate::tensor::DType;
use crate::text::decimal;
use crate::weight_bytes::word32;
use vstd::prelude::*;
use vstd::string::*;

verus! {

/// Whether an upload sends the bytes of a tensor of an element type, or the
/// inverse of the number that they are.
pub open spec fn sends(
    pool: &ShardPool,
    u: Upload,
    name: Seq<char>,
    dtype: DType,
    inverse: bool,
) -> bool {
    pool.found(name) matches Some((shard, e)) && {
        &&& e.dtype == dtype
        &&& u.shard == shard as usize
        &&& u.offset == e.file_offset as usize
        &&& u.bytes == e.nbytes as usize
        &&& u.inverse == inverse
    }
}

/// Whether the upload at an address sends a tensor.
#[verifier::opaque]
pub open spec fn holds(
    pool: &ShardPool,
    u: Seq<Upload>,
    ptrs: Seq<u64>,
    ptr: u64,
    name: Seq<char>,
    dtype: DType,
    inverse: bool,
) -> bool {
    exists|i: int|
        0 <= i < u.len() && #[trigger] ptrs[i] == ptr && sends(pool, u[i], name, dtype, inverse)
}

/// Whether a weight is a bf16 tensor: the one at its address, with its shape.
pub open spec fn holds_weight(
    pool: &ShardPool,
    u: Seq<Upload>,
    ptrs: Seq<u64>,
    w: F16Weight,
    name: Seq<char>,
) -> bool {
    &&& holds(pool, u, ptrs, w.offset_bytes, name, DType::Bf16, false)
    &&& w.shape@ == (pool.found(name)->Some_0).1.shape
}

/// Whether a 32-bit number is finite and not zero: its exponent is not all
/// ones, and something beside the sign is set.
pub open spec fn finite_and_not_zero(bits: nat) -> bool {
    bits / 0x80_0000 % 0x100 != 0xff && bits % 0x8000_0000 != 0
}

/// Whether a linear is the one of a name: packed weights, microscales and
/// input scale as they are, and the inverse of the weights' scale where it has
/// one.
pub open spec fn holds_linear(
    pool: &ShardPool,
    u: Seq<Upload>,
    ptrs: Seq<u64>,
    w: Gemma4Nvfp4LinearLoaded,
    base: Seq<char>,
    n: usize,
    k: usize,
) -> bool {
    let scale = pool.found(base + ".weight_scale_2"@)->Some_0;
    &&& w.shape == (Nvfp4LinearShape { n, k })
    &&& holds(pool, u, ptrs, w.packed_ptr, base + ".weight"@, DType::U8, false)
    &&& holds(
        pool,
        u,
        ptrs,
        w.sfb_natural_ptr,
        base + ".weight_scale"@,
        DType::Fp8E4M3,
        false,
    )
    &&& holds(
        pool,
        u,
        ptrs,
        w.global_scale_ptr,
        base + ".weight_scale_2"@,
        DType::F32,
        finite_and_not_zero(word32(tensor_bytes(pool, scale.0, scale.1), 0)),
    )
    &&& holds(pool, u, ptrs, w.input_scale_ptr, base + ".input_scale"@, DType::F32, false)
    &&& w.packed_bytes == n * (k / 2)
    &&& (pool.found(base + ".weight"@)->Some_0).1.shape == seq![n, (k / 2) as usize]
    &&& (pool.found(base + ".weight_scale"@)->Some_0).1.shape == seq![n, (k / 16) as usize]
}

/// Whether every weight of a layer is the tensor of its name.
#[verifier::opaque]
pub open spec fn holds_layer(
    pool: &ShardPool,
    arch: &Gemma4Arch,
    u: Seq<Upload>,
    ptrs: Seq<u64>,
    l: nat,
    r: Gemma4Nvfp4LayerLoaded,
) -> bool {
    let p = arch.weight_prefix@ + ".layers."@ + decimal(l);
    &&& holds_weight(pool, u, ptrs, r.input_layernorm, p + ".input_layernorm.weight"@)
    &&& holds_weight(
        pool,
        u,
        ptrs,
        r.post_attention_layernorm,
        p + ".post_attention_layernorm.weight"@,
    )
    &&& holds_weight(
        pool,
        u,
        ptrs,
        r.pre_feedforward_layernorm,
        p + ".pre_feedforward_layernorm.weight"@,
    )
    &&& holds_weight(
        pool,
        u,
        ptrs,
        r.post_feedforward_layernorm,
        p + ".post_feedforward_layernorm.weight"@,
    )
    &&& holds_weight(pool, u, ptrs, r.layer_scalar, p + ".layer_scalar"@)
    &&& holds_weight(pool, u, ptrs, r.q_norm, p + ".self_attn.q_norm.weight"@)
    &&& holds_weight(pool, u, ptrs, r.k_norm, p + ".self_attn.k_norm.weight"@)
    &&& holds_weight(pool, u, ptrs, r.q_proj, p + ".self_attn.q_proj.weight"@)
    &&& holds_weight(pool, u, ptrs, r.k_proj, p + ".self_attn.k_proj.weight"@)
    &&& match r.v_proj {
        Some(w) => holds_weight(pool, u, ptrs, w, p + ".self_attn.v_proj.weight"@),
        None => pool.found(p + ".self_attn.v_proj.weight"@) is None,
    }
    &&& holds_weight(pool, u, ptrs, r.o_proj, p + ".self_attn.o_proj.weight"@)
    &&& holds_linear(
        pool,
        u,
        ptrs,
        r.gate_proj,
        p + "."@ + "mlp.gate_proj"@,
        arch.intermediate_size,
        arch.hidden_size,
    )
    &&& holds_linear(
        pool,
        u,
        ptrs,
        r.up_proj,
        p + "."@ + "mlp.up_proj"@,
        arch.intermediate_size,
        arch.hidden_size,
    )
    &&& holds_linear(
        pool,
        u,
        ptrs,
        r.down_proj,
        p + "."@ + "mlp.down_proj"@,
        arch.hidden_size,
        arch.intermediate_size,
    )
}

proof fn lemma_wanted(pool: &ShardPool, w: WantedView)
    requires
        wanted_upload(pool, w).failure is None,
    ensures
        wanted_upload(pool, w).uploads.len() == 1,
        sends(pool, wanted_upload(pool, w).uploads[0], w.name, DType::Bf16, false),
{
}

proof fn lemma_wanted_list(pool: &ShardPool, list: Seq<WantedView>, n: nat)
    requires
        n <= list.len(),
        wanted_uploads(pool, list, n).failure is None,
    ensures
        wanted_uploads(pool, list, n).uploads.len() == n,
        forall|i: int|
            0 <= i < n ==> sends(
                pool,
                #[trigger] wanted_uploads(pool, list, n).uploads[i],
                list[i].name,
                DType::Bf16,
                false,
            ),
    decreases n,
{
    if n > 0 {
        let k = (n - 1) as nat;
        lemma_wanted_list(pool, list, k);
        lemma_wanted(pool, list[k as int]);
        let a = wanted_uploads(pool, list, k).uploads;
        assert forall|i: int| 0 <= i < n implies sends(
            pool,
            #[trigger] wanted_uploads(pool, list, n).uploads[i],
            list[i].name,
            DType::Bf16,
            false,
        ) by {
            if i < k {
                assert(wanted_uploads(pool, list, n).uploads[i] == a[i]);
            }
        }
    }
}

/// The four uploads of a linear, in their order.
#[verifier::spinoff_prover]
proof fn lemma_linear(pool: &ShardPool, base: Seq<char>, shape: Nvfp4LinearShape)
    requires
        pool.wf(),
        linear_upload(pool, base, shape).failure is None,
    ensures
        ({
            let u = linear_upload(pool, base, shape).uploads;
            let scale = pool.found(base + ".weight_scale_2"@)->Some_0;
            &&& u.len() == 4
            &&& sends(pool, u[0], base + ".weight"@, DType::U8, false)
            &&& sends(pool, u[1], base + ".weight_scale"@, DType::Fp8E4M3, false)
            &&& sends(
                pool,
                u[2],
                base + ".weight_scale_2"@,
                DType::F32,
                finite_and_not_zero(word32(tensor_bytes(pool, scale.0, scale.1), 0)),
            )
            &&& sends(pool, u[3], base + ".input_scale"@, DType::F32, false)
            &&& (pool.found(base + ".weight"@)->Some_0).1.shape == seq![
                shape.n,
                (shape.k / 2) as usize,
            ]
            &&& (pool.found(base + ".weight_scale"@)->Some_0).1.shape == seq![
                shape.n,
                (shape.k / 16) as usize,
            ]
            &&& u[0].bytes == shape.n * (shape.k / 2)
        }),
{
    law_linear_bytes(pool, base, shape);
    let scale = pool.found(base + ".weight_scale_2"@)->Some_0;
    let b = word32(tensor_bytes(pool, scale.0, scale.1), 0);
    assert(b < 0x1_0000_0000);
}

/// An uploaded linear holds the tensors of its name: at the address of its
/// global scale lies the inverse of the weights' scale, at that of its input
/// scale the input scale, and its packed weights and microscales at theirs.
pub proof fn law_linear_addresses(
    pool: &ShardPool,
    base: Seq<char>,
    shape: Nvfp4LinearShape,
    ptrs: Seq<u64>,
    r: Gemma4Nvfp4LinearLoaded,
)
    requires
        pool.wf(),
        linear_upload(pool, base, shape).failure is None,
        ptrs.len() == 4,
        r == linear_loaded(shape, ptrs),
    ensures
        holds_linear(
            pool,
            linear_upload(pool, base, shape).uploads,
            ptrs,
            r,
            base,
            shape.n,
            shape.k,
        ),
{
    lemma_linear(pool, base, shape);
    reveal(holds);
    let u = linear_upload(pool, base, shape).uploads;
    assert(ptrs[0] == r.packed_ptr && ptrs[1] == r.sfb_natural_ptr && ptrs[2]
        == r.global_scale_ptr && ptrs[3] == r.input_scale_ptr);
}

/// What is held among some uploads is held among more of them.
proof fn lemma_held_in_more(
    pool: &ShardPool,
    u: Seq<Upload>,
    ptrs: Seq<u64>,
    all: Seq<Upload>,
    all_ptrs: Seq<u64>,
    o: int,
    ptr: u64,
    name: Seq<char>,
    dtype: DType,
    inverse: bool,
)
    requires
        holds(pool, u, ptrs, ptr, name, dtype, inverse),
        0 <= o,
        o + u.len() <= all.len(),
        u == all.subrange(o, o + u.len()),
        ptrs.len() >= u.len(),
        all_ptrs.len() >= all.len(),
        forall|i: int| 0 <= i < u.len() ==> ptrs[i] == #[trigger] all_ptrs[o + i],
    ensures
        holds(pool, all, all_ptrs, ptr, name, dtype, inverse),
{
    reveal(holds);
    let i = choose|i: int|
        0 <= i < u.len() && #[trigger] ptrs[i] == ptr && sends(pool, u[i], name, dtype, inverse);
    assert(all_ptrs[o + i] == ptr);
    assert(all[o + i] == u[i]);
}

proof fn lemma_linear_in_more(
    pool: &ShardPool,
    base: Seq<char>,
    shape: Nvfp4LinearShape,
    all: Seq<Upload>,
    all_ptrs: Seq<u64>,
    o: int,
    r: Gemma4Nvfp4LinearLoaded,
)
    requires
        pool.wf(),
        linear_upload(pool, base, shape).failure is None,
        0 <= o,
        o + 4 <= all.len(),
        all.len() <= all_ptrs.len(),
        linear_upload(pool, base, shape).uploads == all.subrange(o, o + 4),
        r == linear_loaded(shape, all_ptrs.subrange(o, o + 4)),
    ensures
        holds_linear(pool, all, all_ptrs, r, base, shape.n, shape.k),
{
    let u = linear_upload(pool, base, shape).uploads;
    let ptrs = all_ptrs.subrange(o, o + 4);
    law_linear_addresses(pool, base, shape, ptrs, r);
    let scale = pool.found(base + ".weight_scale_2"@)->Some_0;
    let inverse = finite_and_not_zero(word32(tensor_bytes(pool, scale.0, scale.1), 0));
    lemma_held_in_more(
        pool,
        u,
        ptrs,
        all,
        all_ptrs,
        o,
        r.packed_ptr,
        base + ".weight"@,
        DType::U8,
        false,
    );
    lemma_held_in_more(
        pool,
        u,
        ptrs,
        all,
        all_ptrs,
        o,
        r.sfb_natural_ptr,
        base + ".weight_scale"@,
        DType::Fp8E4M3,
        false,
    );
    lemma_held_in_more(
        pool,
        u,
        ptrs,
        all,
        all_ptrs,
        o,
        r.global_scale_ptr,
        base + ".weight_scale_2"@,
        DType::F32,
        inverse,
    );
    lemma_held_in_more(
        pool,
        u,
        ptrs,
        all,
        all_ptrs,
        o,
        r.input_scale_ptr,
        base + ".input_scale"@,
        DType::F32,
        false,
    );
}

proof fn lemma_at(
    pool: &ShardPool,
    u: Seq<Upload>,
    ptrs: Seq<u64>,
    i: int,
    name: Seq<char>,
    w: F16Weight,
)
    requires
        0 <= i < u.len(),
        sends(pool, u[i], name, DType::Bf16, false),
        is_weight(pool, name, ptrs[i], w),
    ensures
        holds_weight(pool, u, ptrs, w, name),
{
    reveal(holds);
    assert(ptrs[i] == w.offset_bytes);
}

/// Where the uploads of a layer stand in it: nine tensors, the value
/// projection where there is one, the output projection, and the linears.
#[verifier::spinoff_prover]
#[verifier::rlimit(60)]
proof fn lemma_layer_places(pool: &ShardPool, arch: &Gemma4Arch, l: nat)
    requires
        pool.wf(),
        layer_upload(pool, arch, l).failure is None,
    ensures
        ({
            let own = layer_upload(pool, arch, l).uploads;
            let list = head_tensors(arch, l);
            let v: int = if has_value(pool, arch, l) {
                1
            } else {
                0
            };
            &&& own.len() == 22 + v
            &&& forall|i: int|
                0 <= i < 9 ==> sends(pool, #[trigger] own[i], list[i].name, DType::Bf16, false)
            &&& v == 1 ==> sends(
                pool,
                own[9],
                tensor_in_layer(arch.weight_prefix@, l, ".self_attn.v_proj.weight"@),
                DType::Bf16,
                false,
            )
            &&& sends(pool, own[9 + v], output_tensor(arch, l).name, DType::Bf16, false)
            &&& mlp_part(pool, arch, l, 0).failure is None
            &&& mlp_part(pool, arch, l, 1).failure is None
            &&& mlp_part(pool, arch, l, 2).failure is None
            &&& mlp_part(pool, arch, l, 0).uploads =~= own.subrange(10 + v, 14 + v)
            &&& mlp_part(pool, arch, l, 1).uploads =~= own.subrange(14 + v, 18 + v)
            &&& mlp_part(pool, arch, l, 2).uploads =~= own.subrange(18 + v, 22 + v)
        }),
{
    let own = layer_upload(pool, arch, l).uploads;
    let list = head_tensors(arch, l);
    lemma_wanted_list(pool, list, 9);
    let a = wanted_uploads(pool, list, 9).uploads;
    let value = value_upload(pool, arch, l);
    let output = output_tensor(arch, l);
    lemma_wanted(pool, output);
    let c = wanted_upload(pool, output).uploads;
    let d = mlp_upload(pool, arch, l).uploads;
    let prefix = arch.weight_prefix@;
    lemma_linear(pool, linear_base(prefix, l, kind_at(0)), kind_at(0).shape_in(arch));
    lemma_linear(pool, linear_base(prefix, l, kind_at(1)), kind_at(1).shape_in(arch));
    lemma_linear(pool, linear_base(prefix, l, kind_at(2)), kind_at(2).shape_in(arch));
    if has_value(pool, arch, l) {
        let name = tensor_in_layer(prefix, l, ".self_attn.v_proj.weight"@);
        lemma_wanted(pool, WantedView { region: "gemma4n_v_proj", name, length: None });
    }
    assert(own == a + value.uploads + c + d);
    assert forall|i: int| 0 <= i < 9 implies sends(
        pool,
        #[trigger] own[i],
        list[i].name,
        DType::Bf16,
        false,
    ) by {
        assert(own[i] == a[i]);
    }
}

/// The places of a linear's uploads in a longer list.
proof fn lemma_sub(own: Seq<Upload>, u: Seq<Upload>, o: int, a: int)
    requires
        0 <= o,
        0 <= a,
        a + 4 <= own.len(),
        o + own.len() <= u.len(),
        own == u.subrange(o, o + own.len()),
    ensures
        own.subrange(a, a + 4) == u.subrange(o + a, o + a + 4),
{
    assert(own.subrange(a, a + 4) =~= u.subrange(o + a, o + a + 4));
}

/// A loaded layer holds the tensors of its names, where its uploads stand at
/// `o` in a list.
#[verifier::spinoff_prover]
#[verifier::rlimit(60)]
pub proof fn law_layer_addresses(
    pool: &ShardPool,
    arch: &Gemma4Arch,
    l: nat,
    u: Seq<Upload>,
    ptrs: Seq<u64>,
    o: int,
    r: Gemma4Nvfp4LayerLoaded,
)
    requires
        pool.wf(),
        layer_upload(pool, arch, l).failure is None,
        0 <= o,
        o + layer_upload(pool, arch, l).uploads.len() <= u.len(),
        u.len() == ptrs.len(),
        layer_upload(pool, arch, l).uploads == u.subrange(
            o,
            o + layer_upload(pool, arch, l).uploads.len(),
        ),
        is_layer(pool, arch, l, ptrs, o, r),
    ensures
        holds_layer(pool, arch, u, ptrs, l, r),
{
    reveal(holds_layer);
    let own = layer_upload(pool, arch, l).uploads;
    let list = head_tensors(arch, l);
    lemma_layer_places(pool, arch, l);
    let v: int = if has_value(pool, arch, l) {
        1
    } else {
        0
    };
    let m = o + 10 + v;
    let prefix = arch.weight_prefix@;
    lemma_sub(own, u, o, 10 + v);
    lemma_sub(own, u, o, 14 + v);
    lemma_sub(own, u, o, 18 + v);
    lemma_linear_in_more(
        pool,
        linear_base(prefix, l, kind_at(0)),
        kind_at(0).shape_in(arch),
        u,
        ptrs,
        m,
        r.gate_proj,
    );
    lemma_linear_in_more(
        pool,
        linear_base(prefix, l, kind_at(1)),
        kind_at(1).shape_in(arch),
        u,
        ptrs,
        m + 4,
        r.up_proj,
    );
    lemma_linear_in_more(
        pool,
        linear_base(prefix, l, kind_at(2)),
        kind_at(2).shape_in(arch),
        u,
        ptrs,
        m + 8,
        r.down_proj,
    );
    assert(own[0] == u[o] && own[1] == u[o + 1] && own[2] == u[o + 2] && own[3] == u[o + 3]
        && own[4] == u[o + 4] && own[5] == u[o + 5] && own[6] == u[o + 6] && own[7] == u[o + 7]
        && own[8] == u[o + 8] && own[9] == u[o + 9] && own[9 + v] == u[o + 9 + v]);
    lemma_at(pool, u, ptrs, o, list[0].name, r.input_layernorm);
    lemma_at(pool, u, ptrs, o + 1, list[1].name, r.post_attention_layernorm);
    lemma_at(pool, u, ptrs, o + 2, list[2].name, r.pre_feedforward_layernorm);
    lemma_at(pool, u, ptrs, o + 3, list[3].name, r.post_feedforward_layernorm);
    lemma_at(pool, u, ptrs, o + 4, list[4].name, r.layer_scalar);
    lemma_at(pool, u, ptrs, o + 5, list[5].name, r.q_norm);
    lemma_at(pool, u, ptrs, o + 6, list[6].name, r.k_norm);
    lemma_at(pool, u, ptrs, o + 7, list[7].name, r.q_proj);
    lemma_at(pool, u, ptrs, o + 8, list[8].name, r.k_proj);
    if v == 1 {
        let name = tensor_in_layer(prefix, l, ".self_attn.v_proj.weight"@);
        lemma_at(pool, u, ptrs, o + 9, name, r.v_proj->Some_0);
    }
    lemma_at(pool, u, ptrs, o + 9 + v, output_tensor(arch, l).name, r.o_proj);
}

/// The uploads of a layer stand behind those of the layers before it.
proof fn lemma_layer_place(pool: &ShardPool, arch: &Gemma4Arch, n: nat, l: nat)
    requires
        text_uploads(pool, arch, n).failure is None,
        l < n,
    ensures
        ({
            let u = text_uploads(pool, arch, n).uploads;
            let o = layer_start(pool, arch, l) as int;
            let own = layer_upload(pool, arch, l).uploads;
            &&& o + own.len() <= u.len()
            &&& own =~= u.subrange(o, o + own.len())
        }),
    decreases n,
{
    let k = (n - 1) as nat;
    law_text_upload_count(pool, arch, n);
    assert(text_uploads(pool, arch, k).failure is None);
    law_text_upload_count(pool, arch, k);
    let u = text_uploads(pool, arch, n).uploads;
    let before = text_uploads(pool, arch, k).uploads;
    assert(u == before + layer_upload(pool, arch, k).uploads);
    if l < k {
        lemma_layer_place(pool, arch, k, l);
        let o = layer_start(pool, arch, l) as int;
        let own = layer_upload(pool, arch, l).uploads;
        assert(u.subrange(o, o + own.len()) =~= before.subrange(o, o + own.len()));
    }
}

proof fn lemma_layer_in_text(
    pool: &ShardPool,
    arch: &Gemma4Arch,
    n: nat,
    l: nat,
    ptrs: Seq<u64>,
    r: Gemma4Nvfp4LayerLoaded,
)
    requires
        pool.wf(),
        l < n,
        text_uploads(pool, arch, n).failure is None,
        ptrs.len() == text_uploads(pool, arch, n).uploads.len(),
        is_layer(pool, arch, l, ptrs, layer_start(pool, arch, l) as int, r),
    ensures
        holds_layer(pool, arch, text_uploads(pool, arch, n).uploads, ptrs, l, r),
{
    law_text_upload_count(pool, arch, n);
    lemma_layer_place(pool, arch, n, l);
    assert(layer_upload(pool, arch, l).failure is None);
    law_layer_addresses(
        pool,
        arch,
        l,
        text_uploads(pool, arch, n).uploads,
        ptrs,
        layer_start(pool, arch, l) as int,
        r,
    );
}

/// The loaded text model holds, at every address, the tensor of the checkpoint
/// that its place in the model names.
#[verifier::spinoff_prover]
#[verifier::rlimit(60)]
pub proof fn law_text_addresses(
    pool: &ShardPool,
    arch: &Gemma4Arch,
    ptrs: Seq<u64>,
    r: Gemma4Nvfp4LoadedModel,
)
    requires
        pool.wf(),
        text_uploads(pool, arch, arch.num_hidden_layers as nat).failure is None,
        ptrs.len() == text_uploads(pool, arch, arch.num_hidden_layers as nat).uploads.len(),
        is_weight(
            pool,
            arch.weight_prefix@ + ".embed_tokens.weight"@,
            ptrs[0],
            r.outside.embed_tokens,
        ),
        is_weight(pool, arch.weight_prefix@ + ".norm.weight"@, ptrs[1], r.outside.final_norm),
        r.layers@.len() == arch.num_hidden_layers,
        forall|l: int|
            0 <= l < arch.num_hidden_layers ==> is_layer(
                pool,
                arch,
                l as nat,
                ptrs,
                layer_start(pool, arch, l as nat) as int,
                #[trigger] r.layers@[l],
            ),
    ensures
        ({
            let u = text_uploads(pool, arch, arch.num_hidden_layers as nat).uploads;
            let p = arch.weight_prefix@;
            &&& holds_weight(
                pool,
                u,
                ptrs,
                r.outside.embed_tokens,
                p + ".embed_tokens.weight"@,
            )
            &&& r.outside.embed_tokens.shape@ == seq![arch.vocab_size, arch.hidden_size]
            &&& holds_weight(pool, u, ptrs, r.outside.final_norm, p + ".norm.weight"@)
            &&& forall|l: int|
                0 <= l < arch.num_hidden_layers ==> holds_layer(
                    pool,
                    arch,
                    u,
                    ptrs,
                    l as nat,
                    #[trigger] r.layers@[l],
                )
        }),
{
    let n = arch.num_hidden_layers as nat;
    let u = text_uploads(pool, arch, n).uploads;
    law_text_upload_count(pool, arch, n);
    lemma_outside(pool, arch);
    lemma_outside_first(pool, arch, n);
    let p = arch.weight_prefix@;
    lemma_at(pool, u, ptrs, 0, p + ".embed_tokens.weight"@, r.outside.embed_tokens);
    lemma_at(pool, u, ptrs, 1, p + ".norm.weight"@, r.outside.final_norm);
    assert forall|l: int| 0 <= l < arch.num_hidden_layers implies holds_layer(
        pool,
        arch,
        u,
        ptrs,
        l as nat,
        #[trigger] r.layers@[l],
    ) by {
        lemma_layer_in_text(pool, arch, n, l as nat, ptrs, r.layers@[l]);
    }
}

proof fn lemma_front(a: UploadView, b: UploadView)
    requires
        a.followed_by(b).failure is None,
        a.uploads.len() >= 2,
    ensures
        a.failure is None,
        a.followed_by(b).uploads.len() >= 2,
        a.followed_by(b).uploads[0] == a.uploads[0],
        a.followed_by(b).uploads[1] == a.uploads[1],
{
}

#[verifier::spinoff_prover]
proof fn lemma_outside(pool: &ShardPool, arch: &Gemma4Arch)
    requires
        outside_upload(pool, arch).failure is None,
    ensures
        ({
            let u = outside_upload(pool, arch).uploads;
            let p = arch.weight_prefix@;
            &&& u.len() == 2
            &&& sends(pool, u[0], p + ".embed_tokens.weight"@, DType::Bf16, false)
            &&& sends(pool, u[1], p + ".norm.weight"@, DType::Bf16, false)
            &&& (pool.found(p + ".embed_tokens.weight"@)->Some_0).1.shape == seq![
                arch.vocab_size,
                arch.hidden_size,
            ]
        }),
{
}

#[verifier::spinoff_prover]
#[verifier::rlimit(60)]
proof fn lemma_outside_first(pool: &ShardPool, arch: &Gemma4Arch, n: nat)
    requires
        text_uploads(pool, arch, n).failure is None,
        outside_upload(pool, arch).uploads.len() == 2,
    ensures
        text_uploads(pool, arch, n).uploads.len() >= 2,
        text_uploads(pool, arch, n).uploads[0] == outside_upload(pool, arch).uploads[0],
        text_uploads(pool, arch, n).uploads[1] == outside_upload(pool, arch).uploads[1],
    decreases n,
{
    if n > 0 {
        let k = (n - 1) as nat;
        assert(text_uploads(pool, arch, k).failure is None);
        lemma_outside_first(pool, arch, k);
        lemma_front(text_uploads(pool, arch, k), layer_upload(pool, arch, k));
    }
}

} // verus!
