//! What the programs of the forward path leave alone: where they write in
//! memory that is not their own.

use crate::loader::gemma4_nvfp4_weights::Gemma4Nvfp4LayerLoaded;
use crate::runtime::footprint::{law_writes_only_joins, writes, writes_only};
use crate::runtime::gemma4_nvfp4_bring_up::attention::{
    batch_names, dev_names, head_norm_steps, host_names, narrow_regions, narrowing_steps,
    projection_steps, AttnNames,
};
use crate::runtime::gemma4_nvfp4_bring_up::kv_state::Gemma4Nvfp4KvState;
use crate::runtime::gemma4_nvfp4_bring_up::launches::{
    decode_spec, fill_spec, narrow_spec, rope_write_spec, HeadPlan,
};
use crate::runtime::gemma4_nvfp4_bring_up::model::{Gemma4Nvfp4Bringup, ProjPlan};
use crate::runtime::gemma4_nvfp4_bring_up::post_attn::{
    mlp_dev, mlp_host, mlp_rows, post_attn_dev_steps, post_attn_host_steps, MlpDevNames, MlpNames,
    PostAttnNames,
};
use crate::runtime::gemma4_nvfp4_ops::mlp_spec;
use crate::runtime::step::{Buf, OnFail, Step};
use vstd::prelude::*;

verus! {

/// The cache of a layer and the metadata of the tokens in flight.
pub open spec fn cache_of(kv: &Gemma4Nvfp4KvState, l: int) -> Set<u64> {
    set![
        kv.positions_ptr,
        kv.slot_mapping_ptr,
        kv.context_lens_ptr,
        kv.k_packed_layer_ptrs@[l],
        kv.v_packed_layer_ptrs@[l],
        kv.k_scale_layer_ptrs@[l],
        kv.v_scale_layer_ptrs@[l],
    ]
}

proof fn lemma_projections_write(
    names: AttnNames,
    p: ProjPlan,
    layer: &Gemma4Nvfp4LayerLoaded,
    hidden: u32,
    n: u32,
    label: &'static str,
    g: HeadPlan,
    eps: u32,
    allowed: Set<u64>,
)
    ensures
        writes_only(projection_steps(names, p, layer, hidden, n, label), allowed),
        writes_only(narrow_regions(names, p, n), allowed),
        writes_only(narrowing_steps(p, n), allowed),
        writes_only(head_norm_steps(g, layer, n, eps), allowed),
{
    reveal(writes_only);
    let a = narrow_spec(Buf::start(4), Buf::start(1), (n * p.n_q) as u32);
    let b = narrow_spec(Buf::start(5), Buf::start(2), (n * p.n_kv) as u32);
    let c = narrow_spec(Buf::start(6), Buf::start(3), (n * p.n_v) as u32);
    assert(writes_only(a, allowed));
    assert(writes_only(b, allowed));
    assert(writes_only(c, allowed));
    law_writes_only_joins(a, b, allowed);
    law_writes_only_joins(a + b, c, allowed);
}

proof fn lemma_dev_head_writes(
    b: &Gemma4Nvfp4Bringup,
    names: AttnNames,
    l: int,
    n: u32,
    residual: u64,
    residual_label: &'static str,
    value_label: &'static str,
    allowed: Set<u64>,
)
    ensures
        writes_only(
            b.dev_attn_head(names, l, n, residual, residual_label, value_label),
            allowed,
        ),
{
    let layer = &b.model.layers@[l];
    let hidden = b.arch.hidden_size as u32;
    let eps = b.arch.rms_norm_eps_bits;
    let p = b.proj(l);
    let g = b.heads(l);
    let s = b.dev_attn_head(names, l, n, residual, residual_label, value_label);
    let first = s.take(3);
    let x = projection_steps(names, p, layer, hidden, n, value_label);
    let y = narrow_regions(names, p, n);
    let z = narrowing_steps(p, n);
    let w = head_norm_steps(g, layer, n, eps);
    lemma_projections_write(names, p, layer, hidden, n, value_label, g, eps, allowed);
    assert(writes_only(first, allowed)) by {
        reveal(writes_only);
        assert(writes(first[0]) =~= Set::empty());
        assert(writes(first[1]) =~= Set::empty());
        assert(writes(first[2]) =~= Set::empty());
    }
    law_writes_only_joins(first, x, allowed);
    law_writes_only_joins(first + x, y, allowed);
    law_writes_only_joins(first + x + y, z, allowed);
    law_writes_only_joins(first + x + y + z, w, allowed);
    assert(s =~= first + x + y + z + w);
}

proof fn lemma_two_write(a: Step, b: Step, allowed: Set<u64>)
    requires
        writes(a).subset_of(allowed),
        writes(b).subset_of(allowed),
    ensures
        writes_only(seq![a, b], allowed),
{
    reveal(writes_only);
}

proof fn lemma_decode_writes(
    g: HeadPlan,
    kv: &Gemma4Nvfp4KvState,
    l: int,
    output: Buf,
    label: &'static str,
    allowed: Set<u64>,
)
    requires
        output matches Buf::At(p) ==> allowed.contains(p),
    ensures
        writes_only(decode_spec(g, kv, l, output, Buf::start(7), label), allowed),
{
    reveal(writes_only);
}

proof fn lemma_rope_writes(
    g: HeadPlan,
    kv: &Gemma4Nvfp4KvState,
    l: int,
    n: u32,
    policies: (i32, i32),
    allowed: Set<u64>,
)
    requires
        cache_of(kv, l).subset_of(allowed),
    ensures
        writes(
            rope_write_spec(
                g,
                kv,
                l,
                n,
                Buf::start(4),
                Buf::start(5),
                Buf::start(6),
                Buf::start(7),
                policies,
            ),
        ).subset_of(allowed),
{
    assert(cache_of(kv, l).contains(kv.k_packed_layer_ptrs@[l]));
    assert(cache_of(kv, l).contains(kv.v_packed_layer_ptrs@[l]));
    assert(cache_of(kv, l).contains(kv.k_scale_layer_ptrs@[l]));
    assert(cache_of(kv, l).contains(kv.v_scale_layer_ptrs@[l]));
}

proof fn lemma_fill_writes(
    kv: &Gemma4Nvfp4KvState,
    l: int,
    position: i32,
    n: i32,
    allowed: Set<u64>,
)
    requires
        cache_of(kv, l).subset_of(allowed),
    ensures
        fill_spec(kv, position, position, n) matches Ok(fill) ==> writes(fill).subset_of(allowed),
{
    assert(cache_of(kv, l).contains(kv.positions_ptr));
    assert(cache_of(kv, l).contains(kv.slot_mapping_ptr));
    assert(cache_of(kv, l).contains(kv.context_lens_ptr));
}

/// The attention of one token on the device writes the layer's cache, the
/// metadata and the output, and nothing else of the caller's: the residual and
/// the other layers stay as they are.
pub proof fn law_dev_attention_writes(
    b: &Gemma4Nvfp4Bringup,
    l: int,
    residual: u64,
    position: u32,
    kv: &Gemma4Nvfp4KvState,
    attn_out: u64,
    policies: (i32, i32),
)
    ensures
        writes_only(
            b.dev_attn(l, residual, position, kv, attn_out, policies).steps,
            cache_of(kv, l).insert(attn_out),
        ),
{
    let allowed = cache_of(kv, l).insert(attn_out);
    let g = b.heads(l);
    let (first, second) = (
        "forward_layer_attn_from_residual_dev: residual DtoD copy",
        "forward_layer_attn_from_residual_dev: k_eq_v DtoD",
    );
    let head = b.dev_attn_head(dev_names(), l, 1, residual, first, second);
    lemma_dev_head_writes(b, dev_names(), l, 1, residual, first, second, allowed);
    lemma_no_steps(allowed);
    lemma_fill_writes(kv, l, position as i32, 1, allowed);
    if let Ok(fill) = fill_spec(kv, position as i32, position as i32, 1) {
        let rope = rope_write_spec(
            g,
            kv,
            l,
            1,
            Buf::start(4),
            Buf::start(5),
            Buf::start(6),
            Buf::start(7),
            policies,
        );
        lemma_rope_writes(g, kv, l, 1, policies, allowed);
        lemma_two_write(fill, rope, allowed);
        let label = "forward_layer_attn_from_residual_dev: cuFuncSetAttribute";
        let decode = decode_spec(g, kv, l, Buf::At(attn_out), Buf::start(7), label);
        lemma_decode_writes(g, kv, l, Buf::At(attn_out), label, allowed);
        law_writes_only_joins(head, seq![fill, rope], allowed);
        law_writes_only_joins(head + seq![fill, rope], decode, allowed);
    }
}

proof fn lemma_no_steps(allowed: Set<u64>)
    ensures
        writes_only(Seq::empty(), allowed),
{
    reveal(writes_only);
}

/// The attention of a prompt chunk writes the layer's cache, the metadata and
/// the output, and nothing else of the caller's.
pub proof fn law_batched_attention_writes(
    b: &Gemma4Nvfp4Bringup,
    l: int,
    num_tokens: u32,
    residual: u64,
    position_start: u32,
    kv: &Gemma4Nvfp4KvState,
    attn_out: u64,
    policies: (i32, i32),
    block_m: u32,
)
    ensures
        writes_only(
            b.batched_attn(
                l,
                num_tokens,
                residual,
                position_start,
                kv,
                attn_out,
                policies,
                block_m,
            ).steps,
            cache_of(kv, l).insert(attn_out),
        ),
{
    let allowed = cache_of(kv, l).insert(attn_out);
    let g = b.heads(l);
    let all = b.batched_attn(
        l,
        num_tokens,
        residual,
        position_start,
        kv,
        attn_out,
        policies,
        block_m,
    ).steps;
    let (first, second) = ("batched: residual DtoD", "batched: k_eq_v DtoD");
    let head = b.dev_attn_head(batch_names(), l, num_tokens, residual, first, second);
    lemma_dev_head_writes(b, batch_names(), l, num_tokens, residual, first, second, allowed);
    lemma_no_steps(allowed);
    lemma_fill_writes(kv, l, position_start as i32, num_tokens as i32, allowed);
    lemma_rope_writes(g, kv, l, num_tokens, policies, allowed);
    if b.batched_attn_fault(l, num_tokens, position_start, kv) is None {
        if let Ok(fill) = fill_spec(
            kv,
            position_start as i32,
            position_start as i32,
            num_tokens as i32,
        ) {
            let tail = all.subrange(head.len() as int, (head.len() + 8) as int);
            assert(all =~= head + tail);
            assert(tail[0] == fill);
            assert(tail[6] == rope_write_spec(
                g,
                kv,
                l,
                num_tokens,
                Buf::start(4),
                Buf::start(5),
                Buf::start(6),
                Buf::start(7),
                policies,
            ));
            assert(writes_only(tail, allowed)) by {
                reveal(writes_only);
                assert(cache_of(kv, l).contains(kv.context_lens_ptr));
                assert forall|i: int, p: u64|
                    0 <= i < tail.len() && #[trigger] writes(
                        tail[i],
                    ).contains(p) implies allowed.contains(p) by {
                    if i == 0 || i == 6 {
                        assert(writes(tail[i]).subset_of(allowed));
                    }
                }
            }
            law_writes_only_joins(head, tail, allowed);
        }
    }
}

/// The output projection of tokens on the device writes the residual, and
/// nothing else of the caller's.
pub proof fn law_dev_post_attention_writes(
    single: &'static str,
    bf16: &'static str,
    layer: &Gemma4Nvfp4LayerLoaded,
    hidden: u32,
    eps_bits: u32,
    n: u32,
    attn_out: u64,
    residual: u64,
)
    ensures
        writes_only(
            post_attn_dev_steps(single, bf16, layer, hidden, eps_bits, n, attn_out, residual),
            set![residual],
        ),
{
    reveal(writes_only);
}

/// The output projection of a token whose residual the host holds writes
/// nothing of the caller's.
pub proof fn law_host_post_attention_writes(
    names: PostAttnNames,
    narrow_label: Option<&'static str>,
    layer: &Gemma4Nvfp4LayerLoaded,
    hidden: u32,
    eps_bits: u32,
)
    ensures
        writes_only(
            post_attn_host_steps(names, narrow_label, layer, hidden, eps_bits),
            Set::empty(),
        ),
{
    reveal(writes_only);
}

proof fn lemma_mlp_writes(
    act: Buf,
    out: Buf,
    layer: &Gemma4Nvfp4LayerLoaded,
    scratch: usize,
    allowed: Set<u64>,
)
    requires
        out is In,
    ensures
        writes_only(
            mlp_spec(
                act,
                out,
                &layer.gate_proj,
                &layer.up_proj,
                &layer.down_proj,
                Buf::start(scratch),
            ).steps,
            allowed,
        ),
{
    reveal(writes_only);
}

/// The MLP of a token whose residual the host holds writes nothing of the
/// caller's.
pub proof fn law_host_mlp_writes(
    names: MlpNames,
    layer: &Gemma4Nvfp4LayerLoaded,
    hidden: u32,
    intermediate: u32,
    eps_bits: u32,
)
    ensures
        writes_only(mlp_host(names, layer, hidden, intermediate, eps_bits).steps, Set::empty()),
{
    let all = mlp_host(names, layer, hidden, intermediate, eps_bits);
    let allowed = Set::<u64>::empty();
    let row = mlp_spec(
        Buf::start(1),
        Buf::start(3),
        &layer.gate_proj,
        &layer.up_proj,
        &layer.down_proj,
        Buf::start(2),
    );
    lemma_mlp_writes(Buf::start(1), Buf::start(3), layer, 2, allowed);
    let a = all.steps.take(7);
    assert(writes_only(a, allowed)) by {
        reveal(writes_only);
    }
    law_writes_only_joins(a, row.steps, allowed);
    if row.failure is None {
        let c = all.steps.subrange(10, 18);
        assert(writes_only(c, allowed)) by {
            reveal(writes_only);
        }
        law_writes_only_joins(a + row.steps, c, allowed);
        assert(all.steps =~= a + row.steps + c);
    } else {
        assert(all.steps =~= a + row.steps);
    }
}

proof fn lemma_mlp_rows_write(
    layer: &Gemma4Nvfp4LayerLoaded,
    hidden: u32,
    n: nat,
    allowed: Set<u64>,
)
    ensures
        writes_only(mlp_rows(layer, hidden, n).steps, allowed),
    decreases n,
{
    if n == 0 {
        lemma_no_steps(allowed);
    } else {
        let m = (n - 1) as nat;
        lemma_mlp_rows_write(layer, hidden, m, allowed);
        let off = (m * (2 * hidden)) as u64;
        let act = Buf::start(0).plus(off);
        let out = Buf::start(2).plus(off);
        lemma_mlp_writes(act, out, layer, 1, allowed);
        let row = mlp_spec(
            act,
            out,
            &layer.gate_proj,
            &layer.up_proj,
            &layer.down_proj,
            Buf::start(1),
        );
        law_writes_only_joins(mlp_rows(layer, hidden, m).steps, row.steps, allowed);
    }
}

/// The MLP of tokens on the device writes the residual, and nothing else of
/// the caller's.
pub proof fn law_dev_mlp_writes(
    names: MlpDevNames,
    layer: &Gemma4Nvfp4LayerLoaded,
    hidden: u32,
    intermediate: u32,
    eps_bits: u32,
    n: u32,
    residual: u64,
)
    ensures
        writes_only(
            mlp_dev(names, layer, hidden, intermediate, eps_bits, n, residual).steps,
            set![residual],
        ),
{
    let all = mlp_dev(names, layer, hidden, intermediate, eps_bits, n, residual);
    let allowed = set![residual];
    let rows = mlp_rows(layer, hidden, n as nat);
    lemma_mlp_rows_write(layer, hidden, n as nat, allowed);
    let a = all.steps.take(5);
    assert(writes_only(a, allowed)) by {
        reveal(writes_only);
    }
    law_writes_only_joins(a, rows.steps, allowed);
    if rows.failure is None {
        let c = all.steps.subrange((5 + rows.steps.len()) as int, all.steps.len() as int);
        assert(all.steps =~= a + rows.steps + c);
        assert(writes_only(c, allowed)) by {
            reveal(writes_only);
        }
        law_writes_only_joins(a + rows.steps, c, allowed);
    } else {
        assert(all.steps =~= a + rows.steps);
    }
}

/// The head writes the buffer of the last hidden state, where there is one,
/// and nothing else of the caller's.
pub proof fn law_final_writes(b: &Gemma4Nvfp4Bringup, residual_len: usize)
    ensures
        writes_only(b.final_to_token(residual_len).steps, set![b.base_last_hidden_ptr]),
        writes_only(
            b.final_to_token_with_dump(residual_len).steps,
            set![b.base_last_hidden_ptr],
        ),
{
    reveal(writes_only);
}

/// The attention of one token whose residual the host holds writes the layer's
/// cache and the metadata, and nothing else of the caller's.
pub proof fn law_host_attention_writes(
    b: &Gemma4Nvfp4Bringup,
    l: int,
    residual_len: usize,
    position: u32,
    kv: &Gemma4Nvfp4KvState,
    policies: (i32, i32),
)
    ensures
        writes_only(
            b.host_attn(l, residual_len, position, kv, policies).steps,
            cache_of(kv, l),
        ),
{
    let allowed = cache_of(kv, l);
    let g = b.heads(l);
    let head = b.host_attn_head(l);
    lemma_host_head_writes(b, l, allowed);
    lemma_no_steps(allowed);
    lemma_fill_writes(kv, l, position as i32, 1, allowed);
    if let Ok(fill) = fill_spec(kv, position as i32, position as i32, 1) {
        let rope = rope_write_spec(
            g,
            kv,
            l,
            1,
            Buf::start(4),
            Buf::start(5),
            Buf::start(6),
            Buf::start(7),
            policies,
        );
        lemma_rope_writes(g, kv, l, 1, policies, allowed);
        lemma_two_write(fill, rope, allowed);
        let label = "forward_layer_attn_from_residual: cuFuncSetAttribute(MAX_DYNAMIC_SHARED_SIZE)";
        let decode = decode_spec(g, kv, l, Buf::start(8), Buf::start(7), label);
        lemma_decode_writes(g, kv, l, Buf::start(8), label, allowed);
        let read = seq![
            Step::Fence,
            Step::Read {
                src: Buf::start(8),
                bytes: (g.num_q_heads * g.head_dim * 2) as usize,
                on_fail: OnFail::Memcpy("forward_layer_attn_from_residual: attn_out DtoH"),
            },
            Step::Release,
        ];
        assert(writes_only(read, allowed)) by {
            reveal(writes_only);
        }
        law_writes_only_joins(head, seq![fill, rope], allowed);
        law_writes_only_joins(head + seq![fill, rope], decode, allowed);
        law_writes_only_joins(head + seq![fill, rope] + decode, read, allowed);
    }
}

proof fn lemma_host_head_writes(b: &Gemma4Nvfp4Bringup, l: int, allowed: Set<u64>)
    ensures
        writes_only(b.host_attn_head(l), allowed),
{
    let layer = &b.model.layers@[l];
    let hidden = b.arch.hidden_size as u32;
    let eps = b.arch.rms_norm_eps_bits;
    let p = b.proj(l);
    let g = b.heads(l);
    let s = b.host_attn_head(l);
    let label = "forward_layer_attn_from_residual: k_eq_v DtoD copy";
    let first = s.take(3);
    let x = projection_steps(host_names(), p, layer, hidden, 1, label);
    let y = narrow_regions(host_names(), p, 1);
    let room = seq![s[13]];
    let z = narrowing_steps(p, 1);
    let w = head_norm_steps(g, layer, 1, eps);
    lemma_projections_write(host_names(), p, layer, hidden, 1, label, g, eps, allowed);
    assert(writes_only(first, allowed)) by {
        reveal(writes_only);
    }
    assert(writes_only(room, allowed)) by {
        reveal(writes_only);
    }
    law_writes_only_joins(first, x, allowed);
    law_writes_only_joins(first + x, y, allowed);
    law_writes_only_joins(first + x + y, room, allowed);
    law_writes_only_joins(first + x + y + room, z, allowed);
    law_writes_only_joins(first + x + y + room + z, w, allowed);
    assert(s =~= first + x + y + room + z + w);
}

} // verus!
