//! What the model computes, over the functions that the kernels compute and the tensors of
//! a checkpoint.

use vstd::prelude::*;

use crate::model::command::Arg;
use crate::model::meaning::{Kernels, Recurrence, Span};
use crate::text;

verus! {

/// A linear map: its weights, scales and biases, and how many numbers go in and come out.
pub struct Matrix<T> {
    pub weight: T,
    pub scales: T,
    pub biases: T,
    pub input: u32,
    pub output: u32,
}

pub struct FeedForward<T> {
    pub gate: Matrix<T>,
    pub up: Matrix<T>,
    pub down: Matrix<T>,
}

pub struct Recurrent<T> {
    pub qkv: Matrix<T>,
    pub z: Matrix<T>,
    pub a: Matrix<T>,
    pub b: Matrix<T>,
    pub out: Matrix<T>,
    pub conv: T,
    pub a_log: T,
    pub dt_bias: T,
    pub norm: T,
}

pub struct Attending<T> {
    pub q: Matrix<T>,
    pub k: Matrix<T>,
    pub v: Matrix<T>,
    pub o: Matrix<T>,
    pub q_norm: T,
    pub k_norm: T,
}

/// What a layer mixes positions with.
pub enum Mixer<T> {
    Recurrent(Recurrent<T>),
    Attending(Attending<T>),
}

pub struct Layer<T> {
    pub input_norm: T,
    pub mixer: Mixer<T>,
    pub post_norm: T,
    pub feed_forward: FeedForward<T>,
}

/// What a layer has of the positions before: a history and a state, or keys and values.
pub struct Past<T> {
    pub first: T,
    pub second: T,
}

/// The drafter.
pub struct Drafter<T> {
    pub embedding_norm: T,
    pub hidden_norm: T,
    pub fc: Matrix<T>,
    pub layer: Layer<T>,
    pub final_norm: T,
}

// ---------------------------------------------------------------------------
// Layers
// ---------------------------------------------------------------------------

/// A linear map of `x`.
pub open spec fn apply<T>(k: Kernels<T>, map: Matrix<T>, x: T) -> T {
    (k.linear)(x, map.weight, map.scales, map.biases, map.input, map.output)
}

/// The norm of a hidden state, which is 5120 numbers wide; epsilon is a millionth.
pub open spec fn normed<T>(k: Kernels<T>, x: T, scale: T) -> T {
    (k.norm)(x, scale, 5120, 0x3586_37bd)
}

/// The feed-forward part: the activation goes on the projection that gates the other one.
pub open spec fn forward<T>(k: Kernels<T>, w: FeedForward<T>, x: T) -> T {
    apply(k, w.down, (k.activate)(apply(k, w.gate, x), apply(k, w.up, x)))
}

/// Sixteen key heads and forty-eight value heads, all of 128 numbers.
pub open spec fn heads() -> Arg {
    Arg::Words4(16, 48, 128, 128)
}

/// The scales of the keys and the queries.
pub open spec fn head_scales() -> Arg {
    Arg::Words2(0x3bff_ffff, 0x3db5_04f3)
}

/// What the recurrence reads, given what the convolution sees of the positions before.
pub open spec fn recurrence<T>(
    k: Kernels<T>,
    w: Recurrent<T>,
    x: T,
    past: Past<T>,
    rows: int,
) -> Recurrence<T> {
    let rows = Arg::Word(rows as u32);
    let qkv = apply(k, w.qkv, x);
    Recurrence {
        input: (k.convolve)(qkv, w.conv, past.first, heads(), rows),
        query: (k.conv_query)(qkv, w.conv, past.first, heads(), head_scales(), rows),
        key: (k.conv_key)(qkv, w.conv, past.first, heads(), head_scales(), rows),
        write_gate: (k.write_gate)(apply(k, w.b, x)),
        decay: (k.decay)(apply(k, w.a, x), w.a_log, w.dt_bias),
        state: past.second,
        dims: Arg::Words4(48, 128, 128, 3),
        rows,
    }
}

/// The recurrent branch.
pub open spec fn recurred<T>(
    k: Kernels<T>,
    w: Recurrent<T>,
    x: T,
    past: Past<T>,
    rows: int,
) -> T {
    apply(
        k,
        w.out,
        (k.gate_recurrence)(
            (k.recur)(recurrence(k, w, x, past, rows)),
            apply(k, w.z, x),
            w.norm,
            0x3586_37bd,
        ),
    )
}

/// The history and the state behind the recurrent branch.
pub open spec fn past_of_recurrence<T>(
    k: Kernels<T>,
    w: Recurrent<T>,
    x: T,
    past: Past<T>,
    rows: int,
) -> Past<T> {
    Past {
        first: (k.remember)(past.first, apply(k, w.qkv, x), Arg::Word(rows as u32)),
        second: (k.learn)(recurrence(k, w, x, past, rows)),
    }
}

/// The keys and values behind the attention branch, with those of the rows in them.
pub open spec fn past_of_attention<T>(
    k: Kernels<T>,
    w: Attending<T>,
    x: T,
    past: Past<T>,
    span: Span,
) -> Past<T> {
    Past {
        first: (k.store_keys)(past.first, apply(k, w.k, x), w.k_norm, span),
        second: (k.store_values)(past.second, apply(k, w.v, x), span),
    }
}

/// The attention branch: each row sees the ones before it, and itself.
pub open spec fn attended<T>(
    k: Kernels<T>,
    w: Attending<T>,
    x: T,
    past: Past<T>,
    span: Span,
) -> T {
    let q = apply(k, w.q, x);
    let seen = past_of_attention(k, w, x, past, span);
    apply(
        k,
        w.o,
        (k.gate_attention)(
            (k.attend)(
                (k.query)(q, w.q_norm, span.before as u32, 0x3586_37bd),
                seen.first,
                seen.second,
                span,
            ),
            (k.query_gate)(q),
        ),
    )
}

/// The branch of a layer.
pub open spec fn mixed<T>(k: Kernels<T>, w: Mixer<T>, x: T, past: Past<T>, span: Span) -> T {
    match w {
        Mixer::Recurrent(w) => recurred(k, w, x, past, span.rows),
        Mixer::Attending(w) => attended(k, w, x, past, span),
    }
}

/// What a layer has of the positions up to these rows.
pub open spec fn past_of_mixer<T>(
    k: Kernels<T>,
    w: Mixer<T>,
    x: T,
    past: Past<T>,
    span: Span,
) -> Past<T> {
    match w {
        Mixer::Recurrent(w) => past_of_recurrence(k, w, x, past, span.rows),
        Mixer::Attending(w) => past_of_attention(k, w, x, past, span),
    }
}

/// A layer adds to the hidden state what its branch makes of its norm, and then what its
/// feed-forward part makes of the norm of the sum.
pub open spec fn layer_output<T>(
    k: Kernels<T>,
    w: Layer<T>,
    h: T,
    past: Past<T>,
    span: Span,
) -> T {
    let sum = (k.sum)(h, mixed(k, w.mixer, normed(k, h, w.input_norm), past, span));
    (k.sum)(sum, forward(k, w.feed_forward, normed(k, sum, w.post_norm)))
}

/// What a layer has of the positions up to these rows.
pub open spec fn layer_past<T>(
    k: Kernels<T>,
    w: Layer<T>,
    h: T,
    past: Past<T>,
    span: Span,
) -> Past<T> {
    past_of_mixer(k, w.mixer, normed(k, h, w.input_norm), past, span)
}

/// The hidden state behind the first `n` layers.
pub open spec fn hidden_behind<T>(
    k: Kernels<T>,
    layers: Seq<Layer<T>>,
    pasts: Seq<Past<T>>,
    embedded: T,
    span: Span,
    n: int,
) -> T
    decreases n,
{
    if n <= 0 {
        embedded
    } else {
        layer_output(
            k,
            layers[n - 1],
            hidden_behind(k, layers, pasts, embedded, span, n - 1),
            pasts[n - 1],
            span,
        )
    }
}

/// What the drafter's layer is given: the normed embedding of the token followed by the
/// normed hidden state of the target, through the first linear map.
pub open spec fn drafter_input<T>(k: Kernels<T>, w: Drafter<T>, embedded: T, hidden: T) -> T {
    (k.narrow)(
        apply(
            k,
            w.fc,
            (k.beside)(
                normed(k, embedded, w.embedding_norm),
                normed(k, hidden, w.hidden_norm),
            ),
        ),
    )
}

/// The hidden state that the drafter comes to.
pub open spec fn drafter_output<T>(
    k: Kernels<T>,
    w: Drafter<T>,
    embedded: T,
    hidden: T,
    past: Past<T>,
    span: Span,
) -> T {
    normed(
        k,
        layer_output(k, w.layer, drafter_input(k, w, embedded, hidden), past, span),
        w.final_norm,
    )
}

// ---------------------------------------------------------------------------
// Names
// ---------------------------------------------------------------------------

/// What a tensor is in a layer.
pub enum Role {
    InputNorm,
    PostNorm,
    Gate,
    Up,
    Down,
    Query,
    Key,
    Value,
    AttentionOutput,
    QueryNorm,
    KeyNorm,
    RecurrentQkv,
    RecurrentZ,
    RecurrentA,
    RecurrentB,
    RecurrentOutput,
    RecurrentConv,
    RecurrentRate,
    RecurrentBias,
    RecurrentNorm,
}

/// How a checkpoint names the tensor of a role, behind the name of the layer. A linear map
/// has three tensors, which have an ending more.
pub open spec fn suffix(role: Role) -> Seq<char> {
    match role {
        Role::InputNorm => ".input_layernorm.weight"@,
        Role::PostNorm => ".post_attention_layernorm.weight"@,
        Role::Gate => ".mlp.gate_proj"@,
        Role::Up => ".mlp.up_proj"@,
        Role::Down => ".mlp.down_proj"@,
        Role::Query => ".self_attn"@ + ".q_proj"@,
        Role::Key => ".self_attn"@ + ".k_proj"@,
        Role::Value => ".self_attn"@ + ".v_proj"@,
        Role::AttentionOutput => ".self_attn"@ + ".o_proj"@,
        Role::QueryNorm => ".self_attn"@ + ".q_norm.weight"@,
        Role::KeyNorm => ".self_attn"@ + ".k_norm.weight"@,
        Role::RecurrentQkv => ".linear_attn"@ + ".in_proj_qkv"@,
        Role::RecurrentZ => ".linear_attn"@ + ".in_proj_z"@,
        Role::RecurrentA => ".linear_attn"@ + ".in_proj_a"@,
        Role::RecurrentB => ".linear_attn"@ + ".in_proj_b"@,
        Role::RecurrentOutput => ".linear_attn"@ + ".out_proj"@,
        Role::RecurrentConv => ".linear_attn"@ + ".conv1d.weight"@,
        Role::RecurrentRate => ".linear_attn"@ + ".A_log"@,
        Role::RecurrentBias => ".linear_attn"@ + ".dt_bias"@,
        Role::RecurrentNorm => ".linear_attn"@ + ".norm.weight"@,
    }
}

/// How many numbers go into the linear map of a role, and how many come out.
pub open spec fn dims(role: Role) -> (u32, u32) {
    match role {
        Role::Gate => (5120, 17_408),
        Role::Up => (5120, 17_408),
        Role::Down => (17_408, 5120),
        Role::Query => (5120, 12_288),
        Role::Key => (5120, 1024),
        Role::Value => (5120, 1024),
        Role::AttentionOutput => (6144, 5120),
        Role::RecurrentQkv => (5120, 10_240),
        Role::RecurrentZ => (5120, 6144),
        Role::RecurrentA => (5120, 48),
        Role::RecurrentB => (5120, 48),
        Role::RecurrentOutput => (6144, 5120),
        _ => (0, 0),
    }
}

/// What the tensors of a checkpoint are, each under its name.
pub type Tensors<T> = spec_fn(Seq<char>) -> T;

/// The linear map of a name.
pub open spec fn matrix<T>(t: Tensors<T>, name: Seq<char>, input: u32, output: u32) -> Matrix<T> {
    Matrix {
        weight: t(name + ".weight"@),
        scales: t(name + ".scales"@),
        biases: t(name + ".biases"@),
        input,
        output,
    }
}

/// The linear map that has a role in a layer.
pub open spec fn map_of<T>(t: Tensors<T>, layer: Seq<char>, role: Role) -> Matrix<T> {
    matrix(t, layer + suffix(role), dims(role).0, dims(role).1)
}

/// The tensor that has a role in a layer.
pub open spec fn vector_of<T>(t: Tensors<T>, layer: Seq<char>, role: Role) -> T {
    t(layer + suffix(role))
}

/// The feed-forward part of a layer.
pub open spec fn feed_forward_of<T>(t: Tensors<T>, layer: Seq<char>) -> FeedForward<T> {
    FeedForward {
        gate: map_of(t, layer, Role::Gate),
        up: map_of(t, layer, Role::Up),
        down: map_of(t, layer, Role::Down),
    }
}

/// The recurrent branch of a layer.
pub open spec fn recurrent_of<T>(t: Tensors<T>, layer: Seq<char>) -> Recurrent<T> {
    Recurrent {
        qkv: map_of(t, layer, Role::RecurrentQkv),
        z: map_of(t, layer, Role::RecurrentZ),
        a: map_of(t, layer, Role::RecurrentA),
        b: map_of(t, layer, Role::RecurrentB),
        out: map_of(t, layer, Role::RecurrentOutput),
        conv: vector_of(t, layer, Role::RecurrentConv),
        a_log: vector_of(t, layer, Role::RecurrentRate),
        dt_bias: vector_of(t, layer, Role::RecurrentBias),
        norm: vector_of(t, layer, Role::RecurrentNorm),
    }
}

/// The attention branch of a layer.
pub open spec fn attending_of<T>(t: Tensors<T>, layer: Seq<char>) -> Attending<T> {
    Attending {
        q: map_of(t, layer, Role::Query),
        k: map_of(t, layer, Role::Key),
        v: map_of(t, layer, Role::Value),
        o: map_of(t, layer, Role::AttentionOutput),
        q_norm: vector_of(t, layer, Role::QueryNorm),
        k_norm: vector_of(t, layer, Role::KeyNorm),
    }
}

/// The layer of a name.
#[verifier::opaque]
pub open spec fn layer_of<T>(t: Tensors<T>, layer: Seq<char>, attention: bool) -> Layer<T> {
    Layer {
        input_norm: vector_of(t, layer, Role::InputNorm),
        mixer: if attention {
            Mixer::Attending(attending_of(t, layer))
        } else {
            Mixer::Recurrent(recurrent_of(t, layer))
        },
        post_norm: vector_of(t, layer, Role::PostNorm),
        feed_forward: feed_forward_of(t, layer),
    }
}

/// The layers of the target: the fourth, the eighth and so on are attention layers.
pub open spec fn target_layers<T>(t: Tensors<T>) -> Seq<Layer<T>> {
    Seq::new(
        64,
        |i: int|
            layer_of(
                t,
                "language_model.model.layers."@ + text::decimal(i as nat),
                i % 4 == 3,
            ),
    )
}

/// The drafter of a checkpoint.
pub open spec fn drafter_of<T>(t: Tensors<T>) -> Drafter<T> {
    Drafter {
        embedding_norm: t("pre_fc_norm_embedding.weight"@),
        hidden_norm: t("pre_fc_norm_hidden.weight"@),
        fc: matrix(t, "fc"@, 10_240, 5120),
        layer: layer_of(t, "layers.0"@, true),
        final_norm: t("norm.weight"@),
    }
}

} // verus!
