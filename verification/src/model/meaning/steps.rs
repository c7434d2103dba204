//! What single runs come to, over the tensors that they are given.

use vstd::prelude::*;

use crate::model::branch;
use crate::model::branch::{AttentionCache, AttentionMode, AttentionPlaces, AttentionWeights};
use crate::model::branch::{GdnWeights, MlpWeights};
use crate::model::command;
use crate::model::command::{Arg, BufferId, Owner};
use crate::model::dispatch;
use crate::model::dispatch::{Projections, Q4Linear, TensorRef};
use crate::model::layers::{BranchWeights, LayerWeights, MtpWeights};
use crate::model::layout::ScratchLayout;
use crate::model::meaning;
use crate::model::meaning::network;
use crate::model::meaning::network::{
    Attending, Drafter, FeedForward, Layer, Matrix, Mixer, Recurrent,
};
use crate::model::meaning::{Cells, Kernels, Recurrence, Span};

verus! {

// ---------------------------------------------------------------------------
// Weights in memory
// ---------------------------------------------------------------------------

/// The tensor at a place among the weights.
pub open spec fn vector_at<T>(m: Cells<T>, owner: Owner, tensor: TensorRef) -> T {
    m[dispatch::weight(owner, tensor)]
}

/// The linear map at a place among the weights.
pub open spec fn matrix_at<T>(m: Cells<T>, owner: Owner, linear: Q4Linear) -> Matrix<T> {
    Matrix {
        weight: vector_at(m, owner, linear.weight),
        scales: vector_at(m, owner, linear.scales),
        biases: vector_at(m, owner, linear.biases),
        input: linear.input as u32,
        output: linear.output as u32,
    }
}

/// The feed-forward part that is bound.
pub open spec fn feed_forward_at<T>(m: Cells<T>, owner: Owner, w: MlpWeights) -> FeedForward<T> {
    FeedForward {
        gate: matrix_at(m, owner, w.gate),
        up: matrix_at(m, owner, w.up),
        down: matrix_at(m, owner, w.down),
    }
}

/// The recurrent branch that is bound.
pub open spec fn recurrent_at<T>(m: Cells<T>, owner: Owner, w: GdnWeights) -> Recurrent<T> {
    Recurrent {
        qkv: matrix_at(m, owner, w.qkv),
        z: matrix_at(m, owner, w.z),
        a: matrix_at(m, owner, w.a),
        b: matrix_at(m, owner, w.b),
        out: matrix_at(m, owner, w.output),
        conv: vector_at(m, owner, w.conv_weight),
        a_log: vector_at(m, owner, w.a_log),
        dt_bias: vector_at(m, owner, w.dt_bias),
        norm: vector_at(m, owner, w.norm),
    }
}

/// The attention branch that is bound.
pub open spec fn attending_at<T>(m: Cells<T>, owner: Owner, w: AttentionWeights) -> Attending<T> {
    Attending {
        q: matrix_at(m, owner, w.q),
        k: matrix_at(m, owner, w.k),
        v: matrix_at(m, owner, w.v),
        o: matrix_at(m, owner, w.output),
        q_norm: vector_at(m, owner, w.q_norm),
        k_norm: vector_at(m, owner, w.k_norm),
    }
}

/// The layer that is bound.
pub open spec fn layer_at<T>(m: Cells<T>, w: LayerWeights) -> Layer<T> {
    Layer {
        input_norm: vector_at(m, Owner::Target, w.common.input_norm),
        mixer: match w.branch {
            BranchWeights::Gdn(w) => Mixer::Recurrent(recurrent_at(m, Owner::Target, w)),
            BranchWeights::Attention(w) => Mixer::Attending(attending_at(m, Owner::Target, w)),
        },
        post_norm: vector_at(m, Owner::Target, w.common.post_norm),
        feed_forward: feed_forward_at(m, Owner::Target, w.common.mlp),
    }
}

/// The drafter that is bound.
pub open spec fn drafter_at<T>(m: Cells<T>, w: MtpWeights) -> Drafter<T> {
    Drafter {
        embedding_norm: vector_at(m, Owner::Mtp, w.pre_fc_norm_embedding),
        hidden_norm: vector_at(m, Owner::Mtp, w.pre_fc_norm_hidden),
        fc: matrix_at(m, Owner::Mtp, w.fc),
        layer: Layer {
            input_norm: vector_at(m, Owner::Mtp, w.input_norm),
            mixer: Mixer::Attending(attending_at(m, Owner::Mtp, w.attention)),
            post_norm: vector_at(m, Owner::Mtp, w.post_norm),
            feed_forward: feed_forward_at(m, Owner::Mtp, w.mlp),
        },
        final_norm: vector_at(m, Owner::Mtp, w.final_norm),
    }
}

/// Where the history and the state of the recurrent layer of an index lie.
pub open spec fn history_place(index: int) -> Arg {
    command::at(BufferId::ConvState, index * branch::CONV_BYTES)
}

pub open spec fn state_place(index: int) -> Arg {
    command::at(BufferId::GdnState, index * branch::STATE_BYTES)
}

/// Where the keys and the values of an attention layer lie.
pub open spec fn keys_place(offset: int) -> Arg {
    command::at(BufferId::KeyCache, offset)
}

pub open spec fn values_place(offset: int) -> Arg {
    command::at(BufferId::ValueCache, offset)
}

/// Rows of one tensor go into the map, not rows of two side by side, and how many numbers
/// come out can be told.
pub open spec fn is_plain(linear: Q4Linear) -> bool {
    linear.input as u32 != 10_240 && linear.output <= u32::MAX
}

/// Maps of the model's dimensions.
pub open spec fn plain_mlp(w: MlpWeights) -> bool {
    &&& is_plain(w.gate) && is_plain(w.up) && is_plain(w.down)
    &&& w.gate.input == w.up.input
    &&& w.gate.output == w.up.output == 17_408
    &&& w.down.output == 5120
}

pub open spec fn plain_gdn(w: GdnWeights) -> bool {
    &&& is_plain(w.qkv) && is_plain(w.z) && is_plain(w.a) && is_plain(w.b) && is_plain(w.output)
    &&& w.qkv.input == w.z.input == w.a.input == w.b.input
    &&& w.qkv.output == 10_240
    &&& w.z.output == 6144
    &&& w.a.output == w.b.output == 48
    &&& w.output.output == 5120
}

pub open spec fn plain_attention(w: AttentionWeights) -> bool {
    &&& is_plain(w.q) && is_plain(w.k) && is_plain(w.v) && is_plain(w.output)
    &&& w.q.input == w.k.input == w.v.input
    &&& w.q.output == 12_288
    &&& w.k.output == w.v.output == 1024
    &&& w.output.output == 5120
}

pub open spec fn plain_layer(w: LayerWeights) -> bool {
    &&& plain_mlp(w.common.mlp)
    &&& match w.branch {
        BranchWeights::Gdn(w) => plain_gdn(w),
        BranchWeights::Attention(w) => plain_attention(w),
    }
}

// ---------------------------------------------------------------------------
// Linear maps
// ---------------------------------------------------------------------------

/// A linear map of one row, or three.
pub proof fn step_qmv<T>(
    k: Kernels<T>,
    m: Cells<T>,
    scratch: BufferId,
    owner: Owner,
    input: int,
    linear: Q4Linear,
    output: int,
    rows: int,
)
    ensures
        meaning::step(k, m, dispatch::qmv(scratch, owner, input, linear, output, rows))
            == m.insert(
            command::at(scratch, output),
            network::apply(
                k,
                matrix_at(m, owner, linear),
                meaning::rows_at(k, m, command::at(scratch, input), linear.input as u32),
            ),
        ),
{
    reveal(meaning::step);
}

/// A linear map of many rows.
pub proof fn step_gemm<T>(
    k: Kernels<T>,
    m: Cells<T>,
    scratch: BufferId,
    owner: Owner,
    rows: int,
    input: int,
    linear: Q4Linear,
    output: int,
)
    ensures
        meaning::step(k, m, dispatch::gemm(scratch, owner, rows, input, linear, output))
            == m.insert(
            command::at(scratch, output),
            network::apply(
                k,
                matrix_at(m, owner, linear),
                meaning::rows_at(k, m, command::at(scratch, input), linear.input as u32),
            ),
        ),
{
    reveal(meaning::step);
}

/// The operands of several linear maps at once, one map behind the other.
pub proof fn fused_operands(scratch: BufferId, owner: Owner, maps: Projections, i: int)
    requires
        0 <= i < maps.len(),
    ensures
        dispatch::fused_args(scratch, owner, maps).len() == 4 * maps.len(),
        dispatch::fused_args(scratch, owner, maps)[4 * i] == dispatch::weight(
            owner,
            maps[i].0.weight,
        ),
        dispatch::fused_args(scratch, owner, maps)[4 * i + 1] == dispatch::weight(
            owner,
            maps[i].0.scales,
        ),
        dispatch::fused_args(scratch, owner, maps)[4 * i + 2] == dispatch::weight(
            owner,
            maps[i].0.biases,
        ),
        dispatch::fused_args(scratch, owner, maps)[4 * i + 3] == command::at(
            scratch,
            maps[i].1 as int,
        ),
    decreases maps.len(),
{
    if maps.len() == 1 {
        assert(dispatch::fused_args(scratch, owner, maps.drop_last()).len() == 0);
    } else {
        fused_operands(
            scratch,
            owner,
            maps.drop_last(),
            if i < maps.len() - 1 {
                i
            } else {
                0
            },
        );
    }
}

/// Two linear maps of the same rows at once.
pub proof fn step_fused2<T>(
    k: Kernels<T>,
    m: Cells<T>,
    scratch: BufferId,
    owner: Owner,
    input: int,
    a: (Q4Linear, usize),
    b: (Q4Linear, usize),
    rows: int,
)
    requires
        is_plain(a.0),
        a.0.input == b.0.input,
    ensures
        meaning::step(k, m, dispatch::qmv_fused(scratch, owner, input, seq![a, b], rows))
            == m.insert(
            command::at(scratch, a.1 as int),
            network::apply(k, matrix_at(m, owner, a.0), m[command::at(scratch, input)]),
        ).insert(
            command::at(scratch, b.1 as int),
            network::apply(k, matrix_at(m, owner, b.0), m[command::at(scratch, input)]),
        ),
{
    reveal(meaning::step);
    let maps = seq![a, b];
    fused_operands(scratch, owner, maps, 0);
    fused_operands(scratch, owner, maps, 1);
    let d = dispatch::qmv_fused(scratch, owner, input, maps, rows);
    let inner = dispatch::fused_args(scratch, owner, maps);
    assert forall|i: int| 0 <= i < 8 implies d.args[i + 1] == #[trigger] inner[i] by {}
    assert(d.args[9] == dispatch::fused_dims(maps));
}

/// Three linear maps of the same rows at once.
#[verifier::rlimit(40)]
pub proof fn step_fused3<T>(
    k: Kernels<T>,
    m: Cells<T>,
    scratch: BufferId,
    owner: Owner,
    input: int,
    a: (Q4Linear, usize),
    b: (Q4Linear, usize),
    c: (Q4Linear, usize),
    rows: int,
)
    requires
        is_plain(a.0),
        a.0.input == b.0.input == c.0.input,
    ensures
        meaning::step(k, m, dispatch::qmv_fused(scratch, owner, input, seq![a, b, c], rows))
            == m.insert(
            command::at(scratch, a.1 as int),
            network::apply(k, matrix_at(m, owner, a.0), m[command::at(scratch, input)]),
        ).insert(
            command::at(scratch, b.1 as int),
            network::apply(k, matrix_at(m, owner, b.0), m[command::at(scratch, input)]),
        ).insert(
            command::at(scratch, c.1 as int),
            network::apply(k, matrix_at(m, owner, c.0), m[command::at(scratch, input)]),
        ),
{
    reveal(meaning::step);
    let maps = seq![a, b, c];
    fused_operands(scratch, owner, maps, 0);
    fused_operands(scratch, owner, maps, 1);
    fused_operands(scratch, owner, maps, 2);
    let d = dispatch::qmv_fused(scratch, owner, input, maps, rows);
    let inner = dispatch::fused_args(scratch, owner, maps);
    assert forall|i: int| 0 <= i < 12 implies d.args[i + 1] == #[trigger] inner[i] by {}
    assert(d.args[13] == dispatch::fused_dims(maps));
}

/// Four linear maps of the same rows at once.
#[verifier::rlimit(40)]
pub proof fn step_fused4<T>(
    k: Kernels<T>,
    m: Cells<T>,
    scratch: BufferId,
    owner: Owner,
    input: int,
    a: (Q4Linear, usize),
    b: (Q4Linear, usize),
    c: (Q4Linear, usize),
    e: (Q4Linear, usize),
    rows: int,
)
    requires
        is_plain(a.0),
        a.0.input == b.0.input == c.0.input == e.0.input,
    ensures
        meaning::step(k, m, dispatch::qmv_fused(scratch, owner, input, seq![a, b, c, e], rows))
            == m.insert(
            command::at(scratch, a.1 as int),
            network::apply(k, matrix_at(m, owner, a.0), m[command::at(scratch, input)]),
        ).insert(
            command::at(scratch, b.1 as int),
            network::apply(k, matrix_at(m, owner, b.0), m[command::at(scratch, input)]),
        ).insert(
            command::at(scratch, c.1 as int),
            network::apply(k, matrix_at(m, owner, c.0), m[command::at(scratch, input)]),
        ).insert(
            command::at(scratch, e.1 as int),
            network::apply(k, matrix_at(m, owner, e.0), m[command::at(scratch, input)]),
        ),
{
    reveal(meaning::step);
    let maps = seq![a, b, c, e];
    fused_operands(scratch, owner, maps, 0);
    fused_operands(scratch, owner, maps, 1);
    fused_operands(scratch, owner, maps, 2);
    fused_operands(scratch, owner, maps, 3);
    let d = dispatch::qmv_fused(scratch, owner, input, maps, rows);
    let inner = dispatch::fused_args(scratch, owner, maps);
    assert forall|i: int| 0 <= i < 16 implies d.args[i + 1] == #[trigger] inner[i] by {}
    assert(d.args[17] == dispatch::fused_dims(maps));
}

// ---------------------------------------------------------------------------
// The rest of a layer
// ---------------------------------------------------------------------------

/// The embedding, whose table is the target's.
pub proof fn step_embed<T>(
    k: Kernels<T>,
    m: Cells<T>,
    scratch: BufferId,
    tokens: int,
    table: Q4Linear,
    output: int,
    rows: int,
)
    ensures
        meaning::step(k, m, dispatch::embed(scratch, tokens, table, output, rows)) == m.insert(
            command::at(scratch, output),
            (k.embed)(
                m[command::at(scratch, tokens)],
                vector_at(m, Owner::Target, table.weight),
                vector_at(m, Owner::Target, table.scales),
                vector_at(m, Owner::Target, table.biases),
            ),
        ),
{
    reveal(meaning::step);
}

/// A norm.
pub proof fn step_norm<T>(
    k: Kernels<T>,
    m: Cells<T>,
    scratch: BufferId,
    owner: Owner,
    input: int,
    scale: TensorRef,
    output: int,
    rows: int,
)
    ensures
        meaning::step(k, m, dispatch::norm(scratch, owner, input, scale, output, rows))
            == m.insert(
            command::at(scratch, output),
            network::normed(k, m[command::at(scratch, input)], vector_at(m, owner, scale)),
        ),
{
    reveal(meaning::step);
}

/// A norm into one half of rows that are as wide as two hidden states.
pub proof fn step_norm_half<T>(
    k: Kernels<T>,
    m: Cells<T>,
    scratch: BufferId,
    owner: Owner,
    input: int,
    scale: TensorRef,
    output: int,
    column: int,
    rows: int,
)
    requires
        0 <= column <= 5120,
        0 <= output <= usize::MAX - 10_240,
    ensures
        meaning::step(
            k,
            m,
            dispatch::norm_half(scratch, owner, input, scale, output, column, rows),
        ) == m.insert(
            command::at(scratch, output + 2 * column),
            network::normed(k, m[command::at(scratch, input)], vector_at(m, owner, scale)),
        ),
{
    reveal(meaning::step);
}

/// A sum.
pub proof fn step_residual<T>(
    k: Kernels<T>,
    m: Cells<T>,
    scratch: BufferId,
    input: int,
    branch: int,
    output: int,
    rows: int,
)
    ensures
        meaning::step(k, m, dispatch::residual(scratch, input, branch, output, rows)) == m.insert(
            command::at(scratch, output),
            (k.sum)(m[command::at(scratch, input)], m[command::at(scratch, branch)]),
        ),
{
    reveal(meaning::step);
}

/// The activation.
pub proof fn step_silu<T>(
    k: Kernels<T>,
    m: Cells<T>,
    scratch: BufferId,
    gate: int,
    up: int,
    active: int,
    rows: int,
)
    ensures
        meaning::step(k, m, dispatch::silu(scratch, gate, up, active, rows)) == m.insert(
            command::at(scratch, active),
            (k.activate)(m[command::at(scratch, gate)], m[command::at(scratch, up)]),
        ),
{
    reveal(meaning::step);
}

/// The cut to half the size.
pub proof fn step_cast<T>(
    k: Kernels<T>,
    m: Cells<T>,
    scratch: BufferId,
    input: int,
    output: int,
    len: int,
)
    ensures
        meaning::step(k, m, dispatch::cast(scratch, input, output, len)) == m.insert(
            command::at(scratch, output),
            (k.narrow)(m[command::at(scratch, input)]),
        ),
{
    reveal(meaning::step);
}

/// The search for the largest logit.
pub proof fn step_argmax<T>(k: Kernels<T>, m: Cells<T>, scratch: BufferId, input: int, base: int)
    ensures
        meaning::step(k, m, dispatch::argmax(scratch, input, base)) == m.insert(
            command::at(scratch, base),
            (k.largest)(m[command::at(scratch, input)]),
        ).insert(
            command::at(scratch, base + 970 * 4),
            (k.largest_at)(m[command::at(scratch, input)]),
        ),
{
    reveal(meaning::step);
}

// ---------------------------------------------------------------------------
// The recurrent branch between its linear maps
// ---------------------------------------------------------------------------

/// The convolution and the gates.
#[verifier::rlimit(40)]
pub proof fn step_gdn_conv<T>(
    k: Kernels<T>,
    m: Cells<T>,
    scratch: BufferId,
    s: ScratchLayout,
    w: GdnWeights,
    rows: int,
)
    ensures
        ({
            let qkv = m[command::at(scratch, s.projection as int)];
            let conv = vector_at(m, Owner::Target, w.conv_weight);
            let history = m[history_place(w.state_index as int)];
            let told = Arg::Word(rows as u32);
            meaning::step(k, m, branch::gdn_conv(scratch, s, w, rows)) == m.insert(
                command::at(scratch, s.conv_output as int),
                (k.convolve)(qkv, conv, history, network::heads(), told),
            ).insert(
                command::at(scratch, s.q_norm as int),
                (k.conv_query)(
                    qkv,
                    conv,
                    history,
                    network::heads(),
                    network::head_scales(),
                    told,
                ),
            ).insert(
                command::at(scratch, s.k_norm as int),
                (k.conv_key)(qkv, conv, history, network::heads(), network::head_scales(), told),
            ).insert(
                command::at(scratch, s.beta as int),
                (k.write_gate)(m[command::at(scratch, s.small1 as int)]),
            ).insert(
                command::at(scratch, s.decay as int),
                (k.decay)(
                    m[command::at(scratch, s.small0 as int)],
                    vector_at(m, Owner::Target, w.a_log),
                    vector_at(m, Owner::Target, w.dt_bias),
                ),
            )
        }),
{
    reveal(meaning::step);
}

/// The history behind the rows.
pub proof fn step_gdn_update<T>(
    k: Kernels<T>,
    m: Cells<T>,
    scratch: BufferId,
    s: ScratchLayout,
    w: GdnWeights,
    rows: int,
    capture: bool,
)
    ensures
        ({
            let qkv = m[command::at(scratch, s.projection as int)];
            let history = m[history_place(w.state_index as int)];
            let told = Arg::Word(rows as u32);
            let after = m.insert(
                history_place(w.state_index as int),
                (k.remember)(history, qkv, told),
            );
            meaning::step(k, m, branch::gdn_update_conv(scratch, s, w, rows, capture)) == if capture {
                after.insert(
                    command::at(
                        BufferId::VerifyConvSlots,
                        w.state_index * branch::CONV_BYTES,
                    ),
                    (k.histories)(history, qkv, told),
                )
            } else {
                after
            }
        }),
{
    reveal(meaning::step);
    assert(branch::CONV_SLOT == 1_474_560) by (nonlinear_arith);
}

/// What a recurrence reads.
pub open spec fn recurrence_at<T>(
    m: Cells<T>,
    scratch: BufferId,
    s: ScratchLayout,
    w: GdnWeights,
    rows: int,
) -> Recurrence<T> {
    Recurrence {
        input: m[command::at(scratch, s.conv_output as int)],
        query: m[command::at(scratch, s.q_norm as int)],
        key: m[command::at(scratch, s.k_norm as int)],
        write_gate: m[command::at(scratch, s.beta as int)],
        decay: m[command::at(scratch, s.decay as int)],
        state: m[state_place(w.state_index as int)],
        dims: Arg::Words4(48, 128, 128, 3),
        rows: Arg::Word(rows as u32),
    }
}

/// The recurrence.
#[verifier::rlimit(40)]
pub proof fn step_gdn_recurrence<T>(
    k: Kernels<T>,
    m: Cells<T>,
    scratch: BufferId,
    s: ScratchLayout,
    w: GdnWeights,
    rows: int,
    capture: bool,
)
    ensures
        ({
            let read = recurrence_at(m, scratch, s, w, rows);
            let after = m.insert(
                command::at(scratch, s.state_output as int),
                (k.recur)(read),
            ).insert(state_place(w.state_index as int), (k.learn)(read));
            meaning::step(k, m, branch::gdn_recurrence(scratch, s, w, rows, capture)) == if capture {
                after.insert(
                    command::at(
                        BufferId::VerifyGdnSlots,
                        w.state_index * branch::STATE_BYTES,
                    ),
                    (k.states)(read),
                )
            } else {
                after
            }
        }),
{
    reveal(meaning::step);
    assert(branch::STATE_SLOT == 37_748_736) by (nonlinear_arith);
}

/// The gating of the recurrence.
pub proof fn step_gdn_gate<T>(
    k: Kernels<T>,
    m: Cells<T>,
    scratch: BufferId,
    s: ScratchLayout,
    w: GdnWeights,
    rows: int,
)
    ensures
        meaning::step(k, m, branch::gdn_gate(scratch, s, w, rows)) == m.insert(
            command::at(scratch, s.gated as int),
            (k.gate_recurrence)(
                m[command::at(scratch, s.state_output as int)],
                m[command::at(scratch, s.aux0 as int)],
                vector_at(m, Owner::Target, w.norm),
                0x3586_37bd,
            ),
        ),
{
    reveal(meaning::step);
}

// ---------------------------------------------------------------------------
// The attention branch between its linear maps
// ---------------------------------------------------------------------------

/// The kernels of a mode take so many rows.
pub open spec fn takes(mode: AttentionMode, rows: int) -> bool {
    match mode {
        AttentionMode::Decode => rows == 1,
        AttentionMode::Block3 => rows == 3,
        AttentionMode::Prefill => 0 <= rows <= 64,
    }
}

/// The span that some rows are.
pub open spec fn span_of(cache: AttentionCache, rows: int) -> Span {
    Span { before: cache.position as int, rows, capacity: cache.capacity as int }
}

/// The queries and what gates them.
pub proof fn step_attention_query<T>(
    k: Kernels<T>,
    m: Cells<T>,
    mode: AttentionMode,
    scratch: BufferId,
    owner: Owner,
    p: AttentionPlaces,
    w: AttentionWeights,
    cache: AttentionCache,
    rows: int,
)
    ensures
        meaning::step(
            k,
            m,
            branch::attention_query(mode, scratch, owner, p, w, cache, rows),
        ) == m.insert(
            command::at(scratch, p.query as int),
            (k.query)(
                m[command::at(scratch, p.projection as int)],
                vector_at(m, owner, w.q_norm),
                cache.position as u32,
                0x3586_37bd,
            ),
        ).insert(
            command::at(scratch, p.gate as int),
            (k.query_gate)(m[command::at(scratch, p.projection as int)]),
        ),
{
    reveal(meaning::step);
}

/// The way of the keys and values into the caches.
#[verifier::rlimit(40)]
pub proof fn step_attention_store<T>(
    k: Kernels<T>,
    m: Cells<T>,
    mode: AttentionMode,
    scratch: BufferId,
    owner: Owner,
    p: AttentionPlaces,
    w: AttentionWeights,
    cache: AttentionCache,
    rows: int,
)
    requires
        takes(mode, rows),
        cache.position < u32::MAX,
        cache.capacity <= u32::MAX,
    ensures
        meaning::step(
            k,
            m,
            branch::attention_store(mode, scratch, owner, p, w, cache, rows),
        ) == m.insert(
            keys_place(cache.offset as int),
            (k.store_keys)(
                m[keys_place(cache.offset as int)],
                m[command::at(scratch, p.key as int)],
                vector_at(m, owner, w.k_norm),
                span_of(cache, rows),
            ),
        ).insert(
            values_place(cache.offset as int),
            (k.store_values)(
                m[values_place(cache.offset as int)],
                m[command::at(scratch, p.value as int)],
                span_of(cache, rows),
            ),
        ),
{
    reveal(meaning::step);
}

/// The attention.
#[verifier::rlimit(40)]
pub proof fn step_attention_scores<T>(
    k: Kernels<T>,
    m: Cells<T>,
    mode: AttentionMode,
    scratch: BufferId,
    p: AttentionPlaces,
    cache: AttentionCache,
    rows: int,
)
    requires
        takes(mode, rows),
        cache.position < u32::MAX,
        cache.capacity <= u32::MAX,
    ensures
        meaning::step(k, m, branch::attention_scores(mode, scratch, p, cache, rows)) == m.insert(
            command::at(scratch, p.output as int),
            (k.attend)(
                m[command::at(scratch, p.query as int)],
                m[keys_place(cache.offset as int)],
                m[values_place(cache.offset as int)],
                span_of(cache, rows),
            ),
        ),
{
    reveal(meaning::step);
}

/// The gating of the attention.
pub proof fn step_attention_gate<T>(
    k: Kernels<T>,
    m: Cells<T>,
    scratch: BufferId,
    p: AttentionPlaces,
    rows: int,
)
    ensures
        meaning::step(k, m, branch::attention_gate(scratch, p, rows)) == m.insert(
            command::at(scratch, p.gated as int),
            (k.gate_attention)(
                m[command::at(scratch, p.output as int)],
                m[command::at(scratch, p.gate as int)],
            ),
        ),
{
    reveal(meaning::step);
}

} // verus!
