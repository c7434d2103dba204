//! That a model that is loaded has all its tensors, each of the type and the shape that its
//! role asks for.

use vstd::prelude::*;

use crate::format::dtype::Dtype;
use crate::model;
use crate::model::layers;
use crate::model::layers::Need;
use crate::model::meaning::network;
use crate::model::meaning::network::Role;
use crate::model::mtp;
use crate::model::runner;
use crate::model::weights;
use crate::model::weights::SlotTable;
use crate::text;

verus! {

/// There is a tensor of a name, of this type and this shape.
pub open spec fn has_tensor(
    table: SlotTable,
    name: Seq<char>,
    dtype: Dtype,
    shape: Seq<u64>,
) -> bool {
    match weights::lookup(table, name) {
        Some(slot) => slot.dtype == dtype && slot.shape == shape,
        None => false,
    }
}

/// There is a linear map of a name, from `input` numbers to `output`: four bits for each
/// weight, eight of which make a word, and a scale and a bias for each sixty-four.
pub open spec fn has_map(table: SlotTable, name: Seq<char>, input: u32, output: u32) -> bool {
    let groups = seq![output as u64, (input / 64) as u64];
    &&& has_tensor(
        table,
        name + ".weight"@,
        Dtype::U32,
        seq![output as u64, (input / 8) as u64],
    )
    &&& has_tensor(table, name + ".scales"@, Dtype::BF16, groups)
    &&& has_tensor(table, name + ".biases"@, Dtype::BF16, groups)
}

/// There is the linear map of a role in a layer.
pub open spec fn has_map_of(table: SlotTable, layer: Seq<char>, role: Role) -> bool {
    has_map(table, layer + network::suffix(role), network::dims(role).0, network::dims(role).1)
}

/// There is the tensor of a role in a layer, of this shape.
pub open spec fn has_vector_of(
    table: SlotTable,
    layer: Seq<char>,
    role: Role,
    shape: Seq<u64>,
) -> bool {
    has_tensor(table, layer + network::suffix(role), Dtype::BF16, shape)
}

/// What every layer has is there.
pub open spec fn has_common(table: SlotTable, layer: Seq<char>) -> bool {
    &&& has_vector_of(table, layer, Role::InputNorm, seq![5120])
    &&& has_vector_of(table, layer, Role::PostNorm, seq![5120])
    &&& has_map_of(table, layer, Role::Gate)
    &&& has_map_of(table, layer, Role::Up)
    &&& has_map_of(table, layer, Role::Down)
}

/// An attention branch is there.
pub open spec fn has_attention(table: SlotTable, layer: Seq<char>) -> bool {
    &&& has_map_of(table, layer, Role::Query)
    &&& has_map_of(table, layer, Role::Key)
    &&& has_map_of(table, layer, Role::Value)
    &&& has_map_of(table, layer, Role::AttentionOutput)
    &&& has_vector_of(table, layer, Role::QueryNorm, seq![256])
    &&& has_vector_of(table, layer, Role::KeyNorm, seq![256])
}

/// A recurrent branch is there.
pub open spec fn has_recurrence(table: SlotTable, layer: Seq<char>) -> bool {
    &&& has_map_of(table, layer, Role::RecurrentQkv)
    &&& has_map_of(table, layer, Role::RecurrentZ)
    &&& has_map_of(table, layer, Role::RecurrentA)
    &&& has_map_of(table, layer, Role::RecurrentB)
    &&& has_map_of(table, layer, Role::RecurrentOutput)
    &&& has_vector_of(table, layer, Role::RecurrentConv, seq![10_240, 4, 1])
    &&& has_vector_of(table, layer, Role::RecurrentRate, seq![48])
    &&& has_vector_of(table, layer, Role::RecurrentBias, seq![48])
    &&& has_vector_of(table, layer, Role::RecurrentNorm, seq![128])
}

/// Where nothing is wrong with two lists of tensors, nothing is with either.
proof fn both_are_sound(table: SlotTable, a: Seq<Need>, b: Seq<Need>)
    requires
        layers::first_fault(table, a + b) is None,
    ensures
        layers::first_fault(table, a) is None,
        layers::first_fault(table, b) is None,
{
    layers::first_fault_of_both(table, a, b);
}

/// A tensor with which nothing is wrong is there.
proof fn sound_vector(table: SlotTable, name: Seq<char>, shape: Seq<u64>)
    requires
        layers::first_fault(table, layers::bf16_need(name, shape)) is None,
    ensures
        has_tensor(table, name, Dtype::BF16, shape),
{
    reveal_with_fuel(layers::first_fault, 2);
    let needs = layers::bf16_need(name, shape);
    assert(needs.drop_last() =~= Seq::empty());
    assert(layers::fault(table, needs.last()) is None);
}

/// A linear map with which nothing is wrong is there.
proof fn sound_map(table: SlotTable, name: Seq<char>, input: u32, output: u32)
    requires
        layers::first_fault(table, layers::q4_needs(name, input as int, output as int)) is None,
    ensures
        has_map(table, name, input, output),
{
    reveal_with_fuel(layers::first_fault, 4);
    let needs = layers::q4_needs(name, input as int, output as int);
    assert(needs.drop_last() =~= seq![needs[0], needs[1]]);
    assert(needs.drop_last().drop_last() =~= seq![needs[0]]);
    assert(needs.drop_last().drop_last().drop_last() =~= Seq::empty());
    assert(layers::fault(table, needs[0]) is None);
    assert(layers::fault(table, needs[1]) is None);
    assert(layers::fault(table, needs[2]) is None);
}

proof fn sound_mlp(table: SlotTable, layer: Seq<char>)
    requires
        layers::first_fault(table, layers::mlp_needs(layer)) is None,
    ensures
        has_map_of(table, layer, Role::Gate),
        has_map_of(table, layer, Role::Up),
        has_map_of(table, layer, Role::Down),
{
    let gate = layers::q4_needs(layer + ".mlp.gate_proj"@, 5120, 17_408);
    let up = layers::q4_needs(layer + ".mlp.up_proj"@, 5120, 17_408);
    let down = layers::q4_needs(layer + ".mlp.down_proj"@, 17_408, 5120);
    both_are_sound(table, gate + up, down);
    both_are_sound(table, gate, up);
    sound_map(table, layer + ".mlp.gate_proj"@, 5120, 17_408);
    sound_map(table, layer + ".mlp.up_proj"@, 5120, 17_408);
    sound_map(table, layer + ".mlp.down_proj"@, 17_408, 5120);
}

proof fn sound_common(table: SlotTable, layer: Seq<char>)
    requires
        layers::first_fault(table, layers::common_needs(layer)) is None,
    ensures
        has_common(table, layer),
{
    let input = layers::bf16_need(layer + ".input_layernorm.weight"@, seq![5120]);
    let post = layers::bf16_need(layer + ".post_attention_layernorm.weight"@, seq![5120]);
    assert(layers::common_needs(layer) =~= input + post + layers::mlp_needs(layer));
    both_are_sound(table, input + post, layers::mlp_needs(layer));
    both_are_sound(table, input, post);
    sound_vector(table, layer + ".input_layernorm.weight"@, seq![5120]);
    sound_vector(table, layer + ".post_attention_layernorm.weight"@, seq![5120]);
    sound_mlp(table, layer);
}

/// Endings come one behind the other.
proof fn endings(layer: Seq<char>, part: Seq<char>, name: Seq<char>)
    ensures
        layer + part + name == layer + (part + name),
{
    assert(layer + part + name =~= layer + (part + name));
}

proof fn sound_attention(table: SlotTable, layer: Seq<char>)
    requires
        layers::first_fault(table, layers::attention_needs(layer + ".self_attn"@)) is None,
    ensures
        has_attention(table, layer),
{
    let p = layer + ".self_attn"@;
    let q = layers::q4_needs(p + ".q_proj"@, 5120, 12_288);
    let k = layers::q4_needs(p + ".k_proj"@, 5120, 1024);
    let v = layers::q4_needs(p + ".v_proj"@, 5120, 1024);
    let o = layers::q4_needs(p + ".o_proj"@, 6144, 5120);
    let qn = layers::bf16_need(p + ".q_norm.weight"@, seq![256]);
    let kn = layers::bf16_need(p + ".k_norm.weight"@, seq![256]);
    assert(layers::attention_needs(p) =~= q + k + v + o + qn + kn);
    both_are_sound(table, q + k + v + o + qn, kn);
    both_are_sound(table, q + k + v + o, qn);
    both_are_sound(table, q + k + v, o);
    both_are_sound(table, q + k, v);
    both_are_sound(table, q, k);
    sound_map(table, p + ".q_proj"@, 5120, 12_288);
    sound_map(table, p + ".k_proj"@, 5120, 1024);
    sound_map(table, p + ".v_proj"@, 5120, 1024);
    sound_map(table, p + ".o_proj"@, 6144, 5120);
    sound_vector(table, p + ".q_norm.weight"@, seq![256]);
    sound_vector(table, p + ".k_norm.weight"@, seq![256]);
    let part = ".self_attn"@;
    endings(layer, part, ".q_proj"@);
    endings(layer, part, ".k_proj"@);
    endings(layer, part, ".v_proj"@);
    endings(layer, part, ".o_proj"@);
    endings(layer, part, ".q_norm.weight"@);
    endings(layer, part, ".k_norm.weight"@);
}

proof fn sound_recurrence(table: SlotTable, layer: Seq<char>)
    requires
        layers::first_fault(table, layers::gdn_needs(layer + ".linear_attn"@)) is None,
    ensures
        has_recurrence(table, layer),
{
    let p = layer + ".linear_attn"@;
    let qkv = layers::q4_needs(p + ".in_proj_qkv"@, 5120, 10_240);
    let z = layers::q4_needs(p + ".in_proj_z"@, 5120, 6144);
    let a = layers::q4_needs(p + ".in_proj_a"@, 5120, 48);
    let b = layers::q4_needs(p + ".in_proj_b"@, 5120, 48);
    let o = layers::q4_needs(p + ".out_proj"@, 6144, 5120);
    let conv = layers::bf16_need(p + ".conv1d.weight"@, seq![10_240, 4, 1]);
    let rate = layers::bf16_need(p + ".A_log"@, seq![48]);
    let bias = layers::bf16_need(p + ".dt_bias"@, seq![48]);
    let norm = layers::bf16_need(p + ".norm.weight"@, seq![128]);
    assert(layers::gdn_needs(p) =~= qkv + z + a + b + o + conv + rate + bias + norm);
    both_are_sound(table, qkv + z + a + b + o + conv + rate + bias, norm);
    both_are_sound(table, qkv + z + a + b + o + conv + rate, bias);
    both_are_sound(table, qkv + z + a + b + o + conv, rate);
    both_are_sound(table, qkv + z + a + b + o, conv);
    both_are_sound(table, qkv + z + a + b, o);
    both_are_sound(table, qkv + z + a, b);
    both_are_sound(table, qkv + z, a);
    both_are_sound(table, qkv, z);
    sound_map(table, p + ".in_proj_qkv"@, 5120, 10_240);
    sound_map(table, p + ".in_proj_z"@, 5120, 6144);
    sound_map(table, p + ".in_proj_a"@, 5120, 48);
    sound_map(table, p + ".in_proj_b"@, 5120, 48);
    sound_map(table, p + ".out_proj"@, 6144, 5120);
    sound_vector(table, p + ".conv1d.weight"@, seq![10_240, 4, 1]);
    sound_vector(table, p + ".A_log"@, seq![48]);
    sound_vector(table, p + ".dt_bias"@, seq![48]);
    sound_vector(table, p + ".norm.weight"@, seq![128]);
    let part = ".linear_attn"@;
    endings(layer, part, ".in_proj_qkv"@);
    endings(layer, part, ".in_proj_z"@);
    endings(layer, part, ".in_proj_a"@);
    endings(layer, part, ".in_proj_b"@);
    endings(layer, part, ".out_proj"@);
    endings(layer, part, ".conv1d.weight"@);
    endings(layer, part, ".A_log"@);
    endings(layer, part, ".dt_bias"@);
    endings(layer, part, ".norm.weight"@);
}

/// Where nothing is wrong with the first layers, nothing is with each of them.
proof fn sound_layer(table: SlotTable, n: int, i: int)
    requires
        0 <= i < n,
        layers::first_fault(table, layers::layers_needs(n)) is None,
    ensures
        layers::first_fault(table, layers::layer_needs(i)) is None,
    decreases n,
{
    both_are_sound(table, layers::layers_needs(n - 1), layers::layer_needs(n - 1));
    if i < n - 1 {
        sound_layer(table, n - 1, i);
    }
}

/// A target that can be loaded has the tensors of every role in each of its layers: every
/// fourth layer an attention branch, the others a recurrent one.
pub proof fn loaded_layers_are_complete(table: SlotTable, capacity: int, i: int)
    requires
        runner::load_error(table, capacity) is None,
        0 <= i < 64,
    ensures
        ({
            let layer = "language_model.model.layers."@ + text::decimal(i as nat);
            &&& has_common(table, layer)
            &&& i % 4 == 3 ==> has_attention(table, layer)
            &&& i % 4 != 3 ==> has_recurrence(table, layer)
        }),
{
    let layer = "language_model.model.layers."@ + text::decimal(i as nat);
    assert(layers::first_fault(table, runner::target_needs()) is None);
    let all = layers::layers_needs(64);
    let embed = layers::q4_needs("language_model.model.embed_tokens"@, 5120, 248_320);
    let norm = layers::bf16_need("language_model.model.norm.weight"@, seq![5120]);
    let head = layers::q4_needs("language_model.lm_head"@, 5120, 248_320);
    assert(runner::target_needs() =~= all + embed + norm + head);
    both_are_sound(table, all + embed + norm, head);
    both_are_sound(table, all + embed, norm);
    both_are_sound(table, all, embed);
    sound_layer(table, 64, i);
    let common = layers::common_needs(layer);
    if i % 4 == 3 {
        assert(model::kind_of(i) is Attention);
        both_are_sound(table, common, layers::attention_needs(layer + ".self_attn"@));
        sound_attention(table, layer);
    } else {
        assert(model::kind_of(i) is Gdn);
        both_are_sound(table, common, layers::gdn_needs(layer + ".linear_attn"@));
        sound_recurrence(table, layer);
    }
    sound_common(table, layer);
}

/// A target that can be loaded has an embedding, a last norm and a language head.
pub proof fn loaded_ends_are_complete(table: SlotTable, capacity: int)
    requires
        runner::load_error(table, capacity) is None,
    ensures
        has_map(table, "language_model.model.embed_tokens"@, 5120, 248_320),
        has_tensor(table, "language_model.model.norm.weight"@, Dtype::BF16, seq![5120]),
        has_map(table, "language_model.lm_head"@, 5120, 248_320),
{
    let all = layers::layers_needs(64);
    let embed = layers::q4_needs("language_model.model.embed_tokens"@, 5120, 248_320);
    let norm = layers::bf16_need("language_model.model.norm.weight"@, seq![5120]);
    let head = layers::q4_needs("language_model.lm_head"@, 5120, 248_320);
    assert(layers::first_fault(table, runner::target_needs()) is None);
    assert(runner::target_needs() =~= all + embed + norm + head);
    both_are_sound(table, all + embed + norm, head);
    both_are_sound(table, all + embed, norm);
    both_are_sound(table, all, embed);
    sound_map(table, "language_model.model.embed_tokens"@, 5120, 248_320);
    sound_vector(table, "language_model.model.norm.weight"@, seq![5120]);
    sound_map(table, "language_model.lm_head"@, 5120, 248_320);
}

/// A drafter that can be loaded has all its tensors, and no other.
pub proof fn loaded_drafters_are_complete(table: SlotTable, capacity: int)
    requires
        mtp::load_error(table, capacity) is None,
    ensures
        table.len() == 31,
        has_tensor(table, "pre_fc_norm_embedding.weight"@, Dtype::BF16, seq![5120]),
        has_tensor(table, "pre_fc_norm_hidden.weight"@, Dtype::BF16, seq![5120]),
        has_map(table, "fc"@, 10_240, 5120),
        has_common(table, "layers.0"@),
        has_attention(table, "layers.0"@),
        has_tensor(table, "norm.weight"@, Dtype::BF16, seq![5120]),
{
    let layer = "layers.0"@;
    let wide: Seq<u64> = seq![5120];
    let embedding = layers::bf16_need("pre_fc_norm_embedding.weight"@, wide);
    let hidden = layers::bf16_need("pre_fc_norm_hidden.weight"@, wide);
    let fc = layers::q4_needs("fc"@, 10_240, 5120);
    let input = layers::bf16_need(layer + ".input_layernorm.weight"@, wide);
    let attention = layers::attention_needs(layer + ".self_attn"@);
    let post = layers::bf16_need(layer + ".post_attention_layernorm.weight"@, wide);
    let mlp = layers::mlp_needs(layer);
    let norm = layers::bf16_need("norm.weight"@, wide);
    assert(layers::first_fault(table, layers::mtp_needs()) is None);
    assert(layers::mtp_needs() =~= embedding + hidden + fc + input + attention + post + mlp + norm);
    both_are_sound(table, embedding + hidden + fc + input + attention + post + mlp, norm);
    both_are_sound(table, embedding + hidden + fc + input + attention + post, mlp);
    both_are_sound(table, embedding + hidden + fc + input + attention, post);
    both_are_sound(table, embedding + hidden + fc + input, attention);
    both_are_sound(table, embedding + hidden + fc, input);
    both_are_sound(table, embedding + hidden, fc);
    both_are_sound(table, embedding, hidden);
    sound_vector(table, "pre_fc_norm_embedding.weight"@, wide);
    sound_vector(table, "pre_fc_norm_hidden.weight"@, wide);
    sound_map(table, "fc"@, 10_240, 5120);
    sound_vector(table, layer + ".input_layernorm.weight"@, wide);
    sound_attention(table, layer);
    sound_vector(table, layer + ".post_attention_layernorm.weight"@, wide);
    sound_mlp(table, layer);
    sound_vector(table, "norm.weight"@, wide);
}

} // verus!
