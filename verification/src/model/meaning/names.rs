//! That each tensor is used as what its name says it is.

use vstd::prelude::*;

use crate::model;
use crate::model::command::{Arg, BufferId, Owner};
use crate::model::layers;
use crate::model::layers::BranchWeights;
use crate::model::meaning::network;
use crate::model::meaning::network::Tensors;
use crate::model::meaning::steps;
use crate::model::meaning::Cells;
use crate::model::mtp;
use crate::model::mtp::MtpView;
use crate::model::runner;
use crate::model::runner::RunnerView;
use crate::model::weights;
use crate::model::weights::SlotTable;
use crate::model::LayerKind;
use crate::text;

verus! {

/// The address of the tensor of a name: where its slot lies in its shard.
pub open spec fn address(table: SlotTable, owner: Owner, name: Seq<char>) -> Arg {
    let slot = weights::lookup(table, name)->0;
    Arg::Buffer { buffer: BufferId::Shard(owner, slot.shard as usize), offset: slot.offset as u64 }
}

/// What the tensors of a checkpoint are in memory, each under its name.
pub open spec fn tensors_at<T>(m: Cells<T>, table: SlotTable, owner: Owner) -> Tensors<T> {
    |name: Seq<char>| m[address(table, owner, name)]
}

/// The address of a tensor is that of the slot that has its name.
pub proof fn address_is_of_the_name(table: SlotTable, owner: Owner, i: int)
    requires
        0 <= i < table.len(),
        weights::distinct(table),
    ensures
        address(table, owner, table[i].0) == (Arg::Buffer {
            buffer: BufferId::Shard(owner, table[i].1.shard as usize),
            offset: table[i].1.offset as u64,
        }),
{
    found_by_name(table, i);
}

/// The slot that is found under a name is the one that has it.
proof fn found_by_name(table: SlotTable, i: int)
    requires
        0 <= i < table.len(),
        weights::distinct(table),
    ensures
        weights::lookup(table, table[i].0) == Some(table[i].1),
    decreases table.len(),
{
    if i < table.len() - 1 {
        let front = table.drop_last();
        assert(weights::distinct(front));
        assert(table[i].0 != table.last().0);
        found_by_name(front, i);
    }
}

/// `r` is the target model of these tensors, whatever it has been fed.
#[verifier::opaque]
pub open spec fn is_target_of(r: RunnerView, table: SlotTable) -> bool {
    runner::is_loaded(RunnerView { position: 0, verify_base: None, ..r }, table, r.capacity)
}

/// `r` is the drafter of these tensors for a target of those, whatever it has been fed.
pub open spec fn is_drafter_of(r: MtpView, table: SlotTable, target: SlotTable) -> bool {
    exists|t: RunnerView|
        is_target_of(t, target) && #[trigger] mtp::is_loaded(
            MtpView { position: 0, ..r },
            t,
            table,
            r.capacity,
        )
}

/// Endings come one behind the other.
proof fn endings(layer: Seq<char>, part: Seq<char>, name: Seq<char>)
    ensures
        layer + part + name == layer + (part + name),
{
    assert(layer + part + name =~= layer + (part + name));
}

/// The feed-forward part that is bound under a layer's name: the activation goes on
/// the projection whose name says that it gates.
proof fn feed_forward_by_name<T>(m: Cells<T>, table: SlotTable, owner: Owner, layer: Seq<char>)
    ensures
        steps::feed_forward_at(m, owner, layers::mlp_at(table, layer)) == network::feed_forward_of(
            tensors_at(m, table, owner),
            layer,
        ),
        steps::plain_mlp(layers::mlp_at(table, layer)),
{
}

/// The attention branch that is bound under a layer's name.
#[verifier::rlimit(40)]
proof fn attending_by_name<T>(
    m: Cells<T>,
    table: SlotTable,
    owner: Owner,
    layer: Seq<char>,
    index: usize,
)
    ensures
        ({
            let w = layers::attention_at(table, layer + ".self_attn"@, index);
            &&& steps::attending_at(m, owner, w) == network::attending_of(
                tensors_at(m, table, owner),
                layer,
            )
            &&& steps::plain_attention(w)
        }),
{
    let part = ".self_attn"@;
    endings(layer, part, ".q_proj"@);
    endings(layer, part, ".k_proj"@);
    endings(layer, part, ".v_proj"@);
    endings(layer, part, ".o_proj"@);
    endings(layer, part, ".q_norm.weight"@);
    endings(layer, part, ".k_norm.weight"@);
}

/// The recurrent branch that is bound under a layer's name.
#[verifier::rlimit(40)]
proof fn recurrent_by_name<T>(
    m: Cells<T>,
    table: SlotTable,
    owner: Owner,
    layer: Seq<char>,
    index: usize,
)
    ensures
        ({
            let w = layers::gdn_at(table, layer + ".linear_attn"@, index);
            &&& steps::recurrent_at(m, owner, w) == network::recurrent_of(
                tensors_at(m, table, owner),
                layer,
            )
            &&& steps::plain_gdn(w)
        }),
{
    let part = ".linear_attn"@;
    endings(layer, part, ".in_proj_qkv"@);
    endings(layer, part, ".in_proj_z"@);
    endings(layer, part, ".in_proj_a"@);
    endings(layer, part, ".in_proj_b"@);
    endings(layer, part, ".out_proj"@);
    endings(layer, part, ".conv1d.weight"@);
    endings(layer, part, ".A_log"@);
    endings(layer, part, ".dt_bias"@);
    endings(layer, part, ".norm.weight"@);
}

/// What is bound in each layer of the target are the tensors that the checkpoint names so:
/// for each role the one of the role's name in that layer, of the role's dimensions. The
/// `i`th layer of its kind has the `i`th state or the `i`th part of the caches.
#[verifier::rlimit(40)]
pub proof fn layers_are_bound_by_name<T>(m: Cells<T>, r: RunnerView, table: SlotTable, i: int)
    requires
        is_target_of(r, table),
        0 <= i < 64,
    ensures
        r.layers.len() == 64,
        steps::layer_at(m, r.layers[i]) == network::target_layers(
            tensors_at(m, table, Owner::Target),
        )[i],
        steps::plain_layer(r.layers[i]),
        match r.layers[i].branch {
            BranchWeights::Gdn(w) => i % 4 != 3 && w.state_index == i - i / 4,
            BranchWeights::Attention(w) => i % 4 == 3 && w.cache_index == i / 4,
        },
{
    reveal(is_target_of);
    reveal(network::layer_of);
    let owner = Owner::Target;
    let layer = "language_model.model.layers."@ + text::decimal(i as nat);
    assert(r.layers[i] == layers::layer_at(table, i));
    feed_forward_by_name(m, table, owner, layer);
    match model::kind_of(i) {
        LayerKind::Gdn => {
            recurrent_by_name(m, table, owner, layer, (i - i / 4) as usize);
        },
        LayerKind::Attention => {
            attending_by_name(m, table, owner, layer, (i / 4) as usize);
        },
    }
}

/// The embedding, the last norm and the language head of the target are the tensors that
/// the checkpoint names so.
pub proof fn ends_are_bound_by_name<T>(m: Cells<T>, r: RunnerView, table: SlotTable)
    requires
        is_target_of(r, table),
    ensures
        r.head.output == 248_320,
        ({
            let t = tensors_at(m, table, Owner::Target);
            &&& steps::matrix_at(m, Owner::Target, r.embed) == network::matrix(
                t,
                "language_model.model.embed_tokens"@,
                5120,
                248_320,
            )
            &&& steps::vector_at(m, Owner::Target, r.final_norm) == t(
                "language_model.model.norm.weight"@,
            )
            &&& steps::matrix_at(m, Owner::Target, r.head) == network::matrix(
                t,
                "language_model.lm_head"@,
                5120,
                248_320,
            )
        }),
{
    reveal(is_target_of);
}

/// What is bound in the drafter are the tensors that its checkpoint names so; its embedding
/// and its language head are those of the target.
#[verifier::rlimit(40)]
pub proof fn drafter_is_bound_by_name<T>(
    m: Cells<T>,
    r: MtpView,
    table: SlotTable,
    target: SlotTable,
)
    requires
        is_drafter_of(r, table, target),
    ensures
        steps::drafter_at(m, r.weights) == network::drafter_of(tensors_at(m, table, Owner::Mtp)),
        steps::plain_attention(r.weights.attention),
        steps::plain_mlp(r.weights.mlp),
        r.weights.fc.input == 10_240,
        r.weights.fc.output == 5120,
        r.head.output == 248_320,
        ({
            let t = tensors_at(m, target, Owner::Target);
            &&& steps::matrix_at(m, Owner::Target, r.embed) == network::matrix(
                t,
                "language_model.model.embed_tokens"@,
                5120,
                248_320,
            )
            &&& steps::matrix_at(m, Owner::Target, r.head) == network::matrix(
                t,
                "language_model.lm_head"@,
                5120,
                248_320,
            )
        }),
{
    reveal(network::layer_of);
    let loaded = choose|t: RunnerView|
        is_target_of(t, target) && #[trigger] mtp::is_loaded(
            MtpView { position: 0, ..r },
            t,
            table,
            r.capacity,
        );
    ends_are_bound_by_name(m, loaded, target);
    feed_forward_by_name(m, table, Owner::Mtp, "layers.0"@);
    attending_by_name(m, table, Owner::Mtp, "layers.0"@, 0);
}

} // verus!
