//! The parts of a layer: the recurrent branch, the attention branch and the feed-forward
//! part, each as the runs of kernels it takes.

use vstd::prelude::*;

use crate::model::command;
use crate::model::command::{
    buffer_at, in_groups, in_threads, push_dispatch, Arg, BufferId, Dispatch, DispatchView, Extent,
    Kernel, MTLSize, Owner,
};
use crate::model::dispatch;
use crate::model::dispatch::{
    push_gemm, push_qmv, push_qmv_fused, push_silu, weight_arg, Q4Linear, TensorRef, EPS_BITS,
};
use crate::model::layout::ScratchLayout;
use crate::model::{
    ATTN_HEAD_DIM, ATTN_KV_HEADS, ATTN_OUT, GDN_CONV_DIM, GDN_LAYERS, GDN_STATE_ELEMENTS,
    PREFILL_BATCH,
};

verus! {

/// The weights of a feed-forward part.
#[derive(Debug, Clone, Copy, PartialEq, Eq, Structural)]
pub struct MlpWeights {
    pub gate: Q4Linear,
    pub up: Q4Linear,
    pub down: Q4Linear,
}

/// The weights of a recurrent branch, and which recurrent layer it is.
#[derive(Debug, Clone, Copy, PartialEq, Eq, Structural)]
pub struct GdnWeights {
    pub qkv: Q4Linear,
    pub z: Q4Linear,
    pub a: Q4Linear,
    pub b: Q4Linear,
    pub output: Q4Linear,
    pub conv_weight: TensorRef,
    pub a_log: TensorRef,
    pub dt_bias: TensorRef,
    pub norm: TensorRef,
    pub state_index: usize,
}

/// The weights of an attention branch, and which attention layer it is.
#[derive(Debug, Clone, Copy, PartialEq, Eq, Structural)]
pub struct AttentionWeights {
    pub q: Q4Linear,
    pub k: Q4Linear,
    pub v: Q4Linear,
    pub output: Q4Linear,
    pub q_norm: TensorRef,
    pub k_norm: TensorRef,
    pub cache_index: usize,
}

/// What the history of a recurrent layer's convolution takes.
pub const CONV_BYTES: usize = 3 * GDN_CONV_DIM * 2;

/// What the state of a recurrent layer takes.
pub const STATE_BYTES: usize = GDN_STATE_ELEMENTS * 4;

/// How many numbers the histories of all recurrent layers are, and their states.
#[verifier::nonlinear]
pub const CONV_SLOT: usize = GDN_LAYERS * 3 * GDN_CONV_DIM;

pub const STATE_SLOT: usize = GDN_LAYERS * GDN_STATE_ELEMENTS;

/// The square of 128^(-1/2), and 128^(-1/2), in single precision, as bits.
pub const KEY_SCALE_BITS: u32 = 0x3bff_ffff;

pub const QUERY_SCALE_BITS: u32 = 0x3db5_04f3;

// ---------------------------------------------------------------------------
// The recurrent branch
// ---------------------------------------------------------------------------

/// The convolution over the last projections, and the gates.
pub open spec fn gdn_conv(
    scratch: BufferId,
    s: ScratchLayout,
    weights: GdnWeights,
    rows: int,
) -> DispatchView {
    DispatchView {
        kernel: Kernel::GdnConv,
        args: seq![
            command::at(scratch, s.projection as int),
            command::at(scratch, s.small1 as int),
            command::at(scratch, s.small0 as int),
            dispatch::weight(Owner::Target, weights.conv_weight),
            command::at(BufferId::ConvState, weights.state_index * CONV_BYTES),
            dispatch::weight(Owner::Target, weights.a_log),
            dispatch::weight(Owner::Target, weights.dt_bias),
            command::at(scratch, s.conv_output as int),
            command::at(scratch, s.q_norm as int),
            command::at(scratch, s.k_norm as int),
            command::at(scratch, s.beta as int),
            command::at(scratch, s.decay as int),
            Arg::Words4(16, 48, 128, 128),
            Arg::Words2(KEY_SCALE_BITS, QUERY_SCALE_BITS),
            Arg::Word(rows as u32),
        ],
        extent: command::groups(48, rows, 32),
    }
}

/// The update of the convolution's history, which comes behind the convolution. A batch
/// that is being verified leaves the history after each of its rows.
pub open spec fn gdn_update_conv(
    scratch: BufferId,
    s: ScratchLayout,
    weights: GdnWeights,
    rows: int,
    capture: bool,
) -> DispatchView {
    let offset = weights.state_index * CONV_BYTES;
    DispatchView {
        kernel: Kernel::GdnUpdateConv,
        args: seq![
            command::at(scratch, s.projection as int),
            command::at(BufferId::ConvState, offset),
            Arg::Word(GDN_CONV_DIM as u32),
            Arg::Word(rows as u32),
            if capture {
                command::at(BufferId::VerifyConvSlots, offset)
            } else {
                command::at(BufferId::ConvState, offset)
            },
            if capture {
                Arg::Word(CONV_SLOT as u32)
            } else {
                Arg::Word(0)
            },
        ],
        extent: command::threads(GDN_CONV_DIM as int, 1, 256),
    }
}

/// The recurrence. A batch that is being verified leaves the state after each of its rows.
pub open spec fn gdn_recurrence(
    scratch: BufferId,
    s: ScratchLayout,
    weights: GdnWeights,
    rows: int,
    capture: bool,
) -> DispatchView {
    let offset = weights.state_index * STATE_BYTES;
    DispatchView {
        kernel: Kernel::GdnRecurrence,
        args: seq![
            command::at(scratch, s.conv_output as int),
            command::at(scratch, s.q_norm as int),
            command::at(scratch, s.k_norm as int),
            command::at(scratch, s.beta as int),
            command::at(scratch, s.decay as int),
            command::at(BufferId::GdnState, offset),
            command::at(scratch, s.state_output as int),
            Arg::Words4(48, 128, 128, 3),
            Arg::Word(rows as u32),
            if capture {
                command::at(BufferId::VerifyGdnSlots, offset)
            } else {
                command::at(BufferId::GdnState, offset)
            },
            if capture {
                Arg::Word(STATE_SLOT as u32)
            } else {
                Arg::Word(0)
            },
        ],
        extent: Extent::Threads {
            grid: MTLSize { width: 32, height: 128, depth: 48 },
            group: command::flat(32, 1),
        },
    }
}

/// The norm and the gating of the recurrence's output.
pub open spec fn gdn_gate(
    scratch: BufferId,
    s: ScratchLayout,
    weights: GdnWeights,
    rows: int,
) -> DispatchView {
    DispatchView {
        kernel: Kernel::GdnGate,
        args: seq![
            command::at(scratch, s.state_output as int),
            command::at(scratch, s.aux0 as int),
            dispatch::weight(Owner::Target, weights.norm),
            command::at(scratch, s.gated as int),
            Arg::Words3(48, 128, rows as u32),
            Arg::Word(EPS_BITS),
        ],
        extent: command::groups(48, rows, 32),
    }
}

/// What the recurrent branch does between its linear maps.
pub open spec fn gdn_core(
    scratch: BufferId,
    s: ScratchLayout,
    weights: GdnWeights,
    rows: int,
    capture: bool,
) -> Seq<DispatchView> {
    seq![
        gdn_conv(scratch, s, weights, rows),
        gdn_update_conv(scratch, s, weights, rows, capture),
        gdn_recurrence(scratch, s, weights, rows, capture),
        gdn_gate(scratch, s, weights, rows),
    ]
}

/// The recurrent branch when decoding: four linear maps at once, the core, and the map
/// back.
pub open spec fn gdn(
    s: ScratchLayout,
    weights: GdnWeights,
    rows: int,
    capture: bool,
) -> Seq<DispatchView> {
    seq![
        dispatch::qmv_fused(
            BufferId::Scratch,
            Owner::Target,
            s.normalized as int,
            seq![
                (weights.qkv, s.projection),
                (weights.z, s.aux0),
                (weights.a, s.small0),
                (weights.b, s.small1),
            ],
            rows,
        ),
    ] + gdn_core(BufferId::Scratch, s, weights, rows, capture) + seq![
        dispatch::qmv(
            BufferId::Scratch,
            Owner::Target,
            s.gated as int,
            weights.output,
            s.branch_output as int,
            rows,
        ),
    ]
}

/// The recurrent branch when prefilling.
pub open spec fn prefill_gdn(s: ScratchLayout, weights: GdnWeights, rows: int) -> Seq<
    DispatchView,
> {
    let scratch = BufferId::PrefillScratch;
    let input = s.normalized as int;
    seq![
        dispatch::gemm(scratch, Owner::Target, rows, input, weights.qkv, s.projection as int),
        dispatch::gemm(scratch, Owner::Target, rows, input, weights.z, s.aux0 as int),
        dispatch::gemm(scratch, Owner::Target, rows, input, weights.a, s.small0 as int),
        dispatch::gemm(scratch, Owner::Target, rows, input, weights.b, s.small1 as int),
    ] + gdn_core(scratch, s, weights, rows, false) + seq![
        dispatch::gemm(
            scratch,
            Owner::Target,
            rows,
            s.gated as int,
            weights.output,
            s.branch_output as int,
        ),
    ]
}

/// Appends what the recurrent branch does between its linear maps.
fn push_gdn_core(
    plan: &mut Vec<Dispatch>,
    scratch: BufferId,
    s: &ScratchLayout,
    weights: &GdnWeights,
    rows: usize,
    capture: bool,
)
    requires
        weights.state_index < GDN_LAYERS,
    ensures
        command::plan_view(final(plan)@) == command::plan_view(old(plan)@) + gdn_core(
            scratch,
            *s,
            *weights,
            rows as int,
            capture,
        ),
{
    proof {
        let index = weights.state_index;
        assert(index * CONV_BYTES <= GDN_LAYERS * CONV_BYTES && index * STATE_BYTES <= GDN_LAYERS
            * STATE_BYTES) by (nonlinear_arith)
            requires
                index < GDN_LAYERS,
        ;
    }
    let conv_offset: usize = weights.state_index * CONV_BYTES;
    let state_offset: usize = weights.state_index * STATE_BYTES;
    let args: Vec<Arg> = vec![
        buffer_at(scratch, s.projection),
        buffer_at(scratch, s.small1),
        buffer_at(scratch, s.small0),
        weight_arg(Owner::Target, weights.conv_weight),
        buffer_at(BufferId::ConvState, conv_offset),
        weight_arg(Owner::Target, weights.a_log),
        weight_arg(Owner::Target, weights.dt_bias),
        buffer_at(scratch, s.conv_output),
        buffer_at(scratch, s.q_norm),
        buffer_at(scratch, s.k_norm),
        buffer_at(scratch, s.beta),
        buffer_at(scratch, s.decay),
        Arg::Words4(16, 48, 128, 128),
        Arg::Words2(KEY_SCALE_BITS, QUERY_SCALE_BITS),
        Arg::Word(rows as u32),
    ];
    assert(args@ =~= gdn_conv(scratch, *s, *weights, rows as int).args);
    push_dispatch(plan, Kernel::GdnConv, args, in_groups(48, rows as u64, 32));
    let args: Vec<Arg> = vec![
        buffer_at(scratch, s.projection),
        buffer_at(BufferId::ConvState, conv_offset),
        Arg::Word(GDN_CONV_DIM as u32),
        Arg::Word(rows as u32),
        if capture {
            buffer_at(BufferId::VerifyConvSlots, conv_offset)
        } else {
            buffer_at(BufferId::ConvState, conv_offset)
        },
        if capture {
            Arg::Word(CONV_SLOT as u32)
        } else {
            Arg::Word(0)
        },
    ];
    assert(args@ =~= gdn_update_conv(scratch, *s, *weights, rows as int, capture).args);
    push_dispatch(plan, Kernel::GdnUpdateConv, args, in_threads(GDN_CONV_DIM as u64, 1, 256));
    let args: Vec<Arg> = vec![
        buffer_at(scratch, s.conv_output),
        buffer_at(scratch, s.q_norm),
        buffer_at(scratch, s.k_norm),
        buffer_at(scratch, s.beta),
        buffer_at(scratch, s.decay),
        buffer_at(BufferId::GdnState, state_offset),
        buffer_at(scratch, s.state_output),
        Arg::Words4(48, 128, 128, 3),
        Arg::Word(rows as u32),
        if capture {
            buffer_at(BufferId::VerifyGdnSlots, state_offset)
        } else {
            buffer_at(BufferId::GdnState, state_offset)
        },
        if capture {
            Arg::Word(STATE_SLOT as u32)
        } else {
            Arg::Word(0)
        },
    ];
    assert(args@ =~= gdn_recurrence(scratch, *s, *weights, rows as int, capture).args);
    let extent = Extent::Threads {
        grid: MTLSize { width: 32, height: 128, depth: 48 },
        group: MTLSize { width: 32, height: 1, depth: 1 },
    };
    push_dispatch(plan, Kernel::GdnRecurrence, args, extent);
    let args: Vec<Arg> = vec![
        buffer_at(scratch, s.state_output),
        buffer_at(scratch, s.aux0),
        weight_arg(Owner::Target, weights.norm),
        buffer_at(scratch, s.gated),
        Arg::Words3(48, 128, rows as u32),
        Arg::Word(EPS_BITS),
    ];
    assert(args@ =~= gdn_gate(scratch, *s, *weights, rows as int).args);
    push_dispatch(plan, Kernel::GdnGate, args, in_groups(48, rows as u64, 32));
    assert(command::plan_view(plan@) =~= command::plan_view(old(plan)@) + gdn_core(
        scratch,
        *s,
        *weights,
        rows as int,
        capture,
    ));
}

/// Appends the recurrent branch when decoding.
pub fn encode_gdn(
    plan: &mut Vec<Dispatch>,
    s: &ScratchLayout,
    weights: &GdnWeights,
    rows: usize,
    capture: bool,
)
    requires
        weights.state_index < GDN_LAYERS,
    ensures
        command::plan_view(final(plan)@) == command::plan_view(old(plan)@) + gdn(
            *s,
            *weights,
            rows as int,
            capture,
        ),
{
    let maps: Vec<(Q4Linear, usize)> = vec![
        (weights.qkv, s.projection),
        (weights.z, s.aux0),
        (weights.a, s.small0),
        (weights.b, s.small1),
    ];
    assert(maps@ =~= seq![
        (weights.qkv, s.projection),
        (weights.z, s.aux0),
        (weights.a, s.small0),
        (weights.b, s.small1),
    ]);
    push_qmv_fused(plan, BufferId::Scratch, Owner::Target, s.normalized, &maps, rows);
    push_gdn_core(plan, BufferId::Scratch, s, weights, rows, capture);
    push_qmv(
        plan,
        BufferId::Scratch,
        Owner::Target,
        s.gated,
        &weights.output,
        s.branch_output,
        rows,
    );
    assert(command::plan_view(plan@) =~= command::plan_view(old(plan)@) + gdn(
        *s,
        *weights,
        rows as int,
        capture,
    ));
}

/// Appends the recurrent branch when prefilling.
pub fn encode_prefill_gdn(
    plan: &mut Vec<Dispatch>,
    s: &ScratchLayout,
    weights: &GdnWeights,
    rows: usize,
)
    requires
        weights.state_index < GDN_LAYERS,
        rows <= PREFILL_BATCH,
    ensures
        command::plan_view(final(plan)@) == command::plan_view(old(plan)@) + prefill_gdn(
            *s,
            *weights,
            rows as int,
        ),
{
    let scratch = BufferId::PrefillScratch;
    push_gemm(plan, scratch, Owner::Target, rows, s.normalized, &weights.qkv, s.projection);
    push_gemm(plan, scratch, Owner::Target, rows, s.normalized, &weights.z, s.aux0);
    push_gemm(plan, scratch, Owner::Target, rows, s.normalized, &weights.a, s.small0);
    push_gemm(plan, scratch, Owner::Target, rows, s.normalized, &weights.b, s.small1);
    push_gdn_core(plan, scratch, s, weights, rows, false);
    push_gemm(plan, scratch, Owner::Target, rows, s.gated, &weights.output, s.branch_output);
    assert(command::plan_view(plan@) =~= command::plan_view(old(plan)@) + prefill_gdn(
        *s,
        *weights,
        rows as int,
    ));
}

// ---------------------------------------------------------------------------
// The attention branch
// ---------------------------------------------------------------------------

/// How an attention branch is run.
#[derive(Debug, Clone, Copy, PartialEq, Eq, Structural)]
pub enum AttentionMode {
    /// One row.
    Decode,
    /// Three rows, each of which sees the ones before it.
    Block3,
    /// Many rows, each of which sees the ones before it.
    Prefill,
}

/// Where the tensors of an attention branch lie.
#[derive(Debug, Clone, Copy, PartialEq, Eq, Structural)]
pub struct AttentionPlaces {
    pub projection: usize,
    pub key: usize,
    pub value: usize,
    pub query: usize,
    pub gate: usize,
    pub output: usize,
    pub gated: usize,
}

/// Where an attention branch stands: at which position, in which part of a cache of which
/// capacity.
#[derive(Debug, Clone, Copy, PartialEq, Eq, Structural)]
pub struct AttentionCache {
    pub position: usize,
    pub capacity: usize,
    pub offset: usize,
}

/// What one layer takes of a cache of keys, or of values, for so many positions.
pub open spec fn layer_cache_bytes(capacity: int) -> int {
    ATTN_KV_HEADS * capacity * ATTN_HEAD_DIM * 2
}

/// The place of the target's attention tensors.
pub open spec fn target_places(s: ScratchLayout) -> AttentionPlaces {
    AttentionPlaces {
        projection: s.projection,
        key: s.aux0,
        value: s.aux1,
        query: s.query,
        gate: s.attention_gate,
        output: s.attention_output,
        gated: s.gated,
    }
}

/// The number of rows, where the kernel is told it.
pub open spec fn told_rows(mode: AttentionMode, rows: int) -> Seq<Arg> {
    if mode is Prefill {
        seq![Arg::Word(rows as u32)]
    } else {
        Seq::empty()
    }
}

/// The norm and the rotation of the queries, with what gates them.
pub open spec fn attention_query(
    mode: AttentionMode,
    scratch: BufferId,
    owner: Owner,
    p: AttentionPlaces,
    weights: AttentionWeights,
    cache: AttentionCache,
    rows: int,
) -> DispatchView {
    DispatchView {
        kernel: match mode {
            AttentionMode::Decode => Kernel::AttnQ,
            AttentionMode::Block3 => Kernel::AttnQBlock3,
            AttentionMode::Prefill => Kernel::AttnQPrefill,
        },
        args: seq![
            command::at(scratch, p.projection as int),
            dispatch::weight(owner, weights.q_norm),
            command::at(scratch, p.query as int),
            command::at(scratch, p.gate as int),
            Arg::Word(cache.position as u32),
            Arg::Word(EPS_BITS),
        ] + told_rows(mode, rows),
        extent: command::groups(24, rows, 256),
    }
}

/// The norm and the rotation of the keys, and their way into the cache with the values.
pub open spec fn attention_store(
    mode: AttentionMode,
    scratch: BufferId,
    owner: Owner,
    p: AttentionPlaces,
    weights: AttentionWeights,
    cache: AttentionCache,
    rows: int,
) -> DispatchView {
    DispatchView {
        kernel: match mode {
            AttentionMode::Decode => Kernel::AttnStore,
            AttentionMode::Block3 => Kernel::AttnStoreBlock3,
            AttentionMode::Prefill => Kernel::AttnStorePrefill,
        },
        args: seq![
            command::at(scratch, p.key as int),
            command::at(scratch, p.value as int),
            dispatch::weight(owner, weights.k_norm),
            command::at(BufferId::KeyCache, cache.offset as int),
            command::at(BufferId::ValueCache, cache.offset as int),
            Arg::Word(cache.position as u32),
            Arg::Word(cache.capacity as u32),
            Arg::Word(EPS_BITS),
        ] + told_rows(mode, rows),
        extent: command::groups(4, rows, 256),
    }
}

/// The attention over the cache. A single row is told how many positions it sees, with
/// itself; several rows are told how many come before the first of them.
pub open spec fn attention_scores(
    mode: AttentionMode,
    scratch: BufferId,
    p: AttentionPlaces,
    cache: AttentionCache,
    rows: int,
) -> DispatchView {
    DispatchView {
        kernel: match mode {
            AttentionMode::Decode => Kernel::AttnSdpa,
            AttentionMode::Block3 => Kernel::AttnSdpaBlock3,
            AttentionMode::Prefill => Kernel::AttnSdpaPrefill,
        },
        args: seq![
            command::at(scratch, p.query as int),
            command::at(BufferId::KeyCache, cache.offset as int),
            command::at(BufferId::ValueCache, cache.offset as int),
            command::at(scratch, p.output as int),
            if mode is Decode {
                Arg::Word((cache.position + 1) as u32)
            } else {
                Arg::Word(cache.position as u32)
            },
            Arg::Word(cache.capacity as u32),
        ] + told_rows(mode, rows),
        extent: command::groups(24, rows, 32),
    }
}

/// The gating of the attention's output.
pub open spec fn attention_gate(scratch: BufferId, p: AttentionPlaces, rows: int) -> DispatchView {
    DispatchView {
        kernel: Kernel::AttnGate,
        args: seq![
            command::at(scratch, p.output as int),
            command::at(scratch, p.gate as int),
            command::at(scratch, p.gated as int),
            Arg::Word((rows * ATTN_OUT) as u32),
        ],
        extent: command::threads(rows * ATTN_OUT, 1, 256),
    }
}

/// What the attention branch does between its linear maps.
pub open spec fn attention_core(
    mode: AttentionMode,
    scratch: BufferId,
    owner: Owner,
    p: AttentionPlaces,
    weights: AttentionWeights,
    cache: AttentionCache,
    rows: int,
) -> Seq<DispatchView> {
    seq![
        attention_query(mode, scratch, owner, p, weights, cache, rows),
        attention_store(mode, scratch, owner, p, weights, cache, rows),
        attention_scores(mode, scratch, p, cache, rows),
        attention_gate(scratch, p, rows),
    ]
}

/// The attention branch when decoding one row, or three.
pub open spec fn attention(
    owner: Owner,
    p: AttentionPlaces,
    normalized: usize,
    branch_output: usize,
    weights: AttentionWeights,
    cache: AttentionCache,
    rows: int,
) -> Seq<DispatchView> {
    let scratch = BufferId::Scratch;
    let mode = if rows == 3 {
        AttentionMode::Block3
    } else {
        AttentionMode::Decode
    };
    seq![
        dispatch::qmv_fused(
            scratch,
            owner,
            normalized as int,
            seq![(weights.q, p.projection), (weights.k, p.key), (weights.v, p.value)],
            rows,
        ),
    ] + attention_core(mode, scratch, owner, p, weights, cache, rows) + seq![
        dispatch::qmv(
            scratch,
            owner,
            p.gated as int,
            weights.output,
            branch_output as int,
            rows,
        ),
    ]
}

/// The attention branch when prefilling.
pub open spec fn prefill_attention(
    owner: Owner,
    p: AttentionPlaces,
    normalized: usize,
    branch_output: usize,
    weights: AttentionWeights,
    cache: AttentionCache,
    rows: int,
) -> Seq<DispatchView> {
    let scratch = BufferId::PrefillScratch;
    let input = normalized as int;
    seq![
        dispatch::gemm(scratch, owner, rows, input, weights.q, p.projection as int),
        dispatch::gemm(scratch, owner, rows, input, weights.k, p.key as int),
        dispatch::gemm(scratch, owner, rows, input, weights.v, p.value as int),
    ] + attention_core(AttentionMode::Prefill, scratch, owner, p, weights, cache, rows) + seq![
        dispatch::gemm(
            scratch,
            owner,
            rows,
            p.gated as int,
            weights.output,
            branch_output as int,
        ),
    ]
}

/// Appends what the attention branch does between its linear maps.
fn push_attention_core(
    plan: &mut Vec<Dispatch>,
    mode: AttentionMode,
    scratch: BufferId,
    owner: Owner,
    p: &AttentionPlaces,
    weights: &AttentionWeights,
    cache: &AttentionCache,
    rows: usize,
)
    requires
        cache.position < u32::MAX,
        rows <= PREFILL_BATCH,
    ensures
        command::plan_view(final(plan)@) == command::plan_view(old(plan)@) + attention_core(
            mode,
            scratch,
            owner,
            *p,
            *weights,
            *cache,
            rows as int,
        ),
{
    let (query_kernel, store_kernel, score_kernel) = match mode {
        AttentionMode::Decode => (Kernel::AttnQ, Kernel::AttnStore, Kernel::AttnSdpa),
        AttentionMode::Block3 => (
            Kernel::AttnQBlock3,
            Kernel::AttnStoreBlock3,
            Kernel::AttnSdpaBlock3,
        ),
        AttentionMode::Prefill => (
            Kernel::AttnQPrefill,
            Kernel::AttnStorePrefill,
            Kernel::AttnSdpaPrefill,
        ),
    };
    let told = matches!(mode, AttentionMode::Prefill);
    let mut args: Vec<Arg> = vec![
        buffer_at(scratch, p.projection),
        weight_arg(owner, weights.q_norm),
        buffer_at(scratch, p.query),
        buffer_at(scratch, p.gate),
        Arg::Word(cache.position as u32),
        Arg::Word(EPS_BITS),
    ];
    if told {
        args.push(Arg::Word(rows as u32));
    }
    assert(args@ =~= attention_query(
        mode,
        scratch,
        owner,
        *p,
        *weights,
        *cache,
        rows as int,
    ).args);
    push_dispatch(plan, query_kernel, args, in_groups(24, rows as u64, 256));
    let mut args: Vec<Arg> = vec![
        buffer_at(scratch, p.key),
        buffer_at(scratch, p.value),
        weight_arg(owner, weights.k_norm),
        buffer_at(BufferId::KeyCache, cache.offset),
        buffer_at(BufferId::ValueCache, cache.offset),
        Arg::Word(cache.position as u32),
        Arg::Word(cache.capacity as u32),
        Arg::Word(EPS_BITS),
    ];
    if told {
        args.push(Arg::Word(rows as u32));
    }
    assert(args@ =~= attention_store(
        mode,
        scratch,
        owner,
        *p,
        *weights,
        *cache,
        rows as int,
    ).args);
    push_dispatch(plan, store_kernel, args, in_groups(4, rows as u64, 256));
    let context: usize = match mode {
        AttentionMode::Decode => cache.position + 1,
        _ => cache.position,
    };
    let mut args: Vec<Arg> = vec![
        buffer_at(scratch, p.query),
        buffer_at(BufferId::KeyCache, cache.offset),
        buffer_at(BufferId::ValueCache, cache.offset),
        buffer_at(scratch, p.output),
        Arg::Word(context as u32),
        Arg::Word(cache.capacity as u32),
    ];
    if told {
        args.push(Arg::Word(rows as u32));
    }
    assert(args@ =~= attention_scores(mode, scratch, *p, *cache, rows as int).args);
    push_dispatch(plan, score_kernel, args, in_groups(24, rows as u64, 32));
    let args: Vec<Arg> = vec![
        buffer_at(scratch, p.output),
        buffer_at(scratch, p.gate),
        buffer_at(scratch, p.gated),
        Arg::Word((rows * ATTN_OUT) as u32),
    ];
    assert(args@ =~= attention_gate(scratch, *p, rows as int).args);
    push_dispatch(plan, Kernel::AttnGate, args, in_threads((rows * ATTN_OUT) as u64, 1, 256));
    assert(command::plan_view(plan@) =~= command::plan_view(old(plan)@) + attention_core(
        mode,
        scratch,
        owner,
        *p,
        *weights,
        *cache,
        rows as int,
    ));
}

/// Appends the attention branch when decoding one row, or three.
pub fn encode_attention(
    plan: &mut Vec<Dispatch>,
    owner: Owner,
    p: &AttentionPlaces,
    normalized: usize,
    branch_output: usize,
    weights: &AttentionWeights,
    cache: &AttentionCache,
    rows: usize,
)
    requires
        cache.position < u32::MAX,
        rows <= 3,
    ensures
        command::plan_view(final(plan)@) == command::plan_view(old(plan)@) + attention(
            owner,
            *p,
            normalized,
            branch_output,
            *weights,
            *cache,
            rows as int,
        ),
{
    let maps: Vec<(Q4Linear, usize)> = vec![
        (weights.q, p.projection),
        (weights.k, p.key),
        (weights.v, p.value),
    ];
    assert(maps@ =~= seq![(weights.q, p.projection), (weights.k, p.key), (weights.v, p.value)]);
    push_qmv_fused(plan, BufferId::Scratch, owner, normalized, &maps, rows);
    let mode = if rows == 3 {
        AttentionMode::Block3
    } else {
        AttentionMode::Decode
    };
    push_attention_core(plan, mode, BufferId::Scratch, owner, p, weights, cache, rows);
    push_qmv(plan, BufferId::Scratch, owner, p.gated, &weights.output, branch_output, rows);
    assert(command::plan_view(plan@) =~= command::plan_view(old(plan)@) + attention(
        owner,
        *p,
        normalized,
        branch_output,
        *weights,
        *cache,
        rows as int,
    ));
}

/// Appends the attention branch when prefilling.
pub fn encode_prefill_attention(
    plan: &mut Vec<Dispatch>,
    owner: Owner,
    p: &AttentionPlaces,
    normalized: usize,
    branch_output: usize,
    weights: &AttentionWeights,
    cache: &AttentionCache,
    rows: usize,
)
    requires
        cache.position < u32::MAX,
        rows <= PREFILL_BATCH,
    ensures
        command::plan_view(final(plan)@) == command::plan_view(old(plan)@) + prefill_attention(
            owner,
            *p,
            normalized,
            branch_output,
            *weights,
            *cache,
            rows as int,
        ),
{
    let scratch = BufferId::PrefillScratch;
    push_gemm(plan, scratch, owner, rows, normalized, &weights.q, p.projection);
    push_gemm(plan, scratch, owner, rows, normalized, &weights.k, p.key);
    push_gemm(plan, scratch, owner, rows, normalized, &weights.v, p.value);
    push_attention_core(
        plan,
        AttentionMode::Prefill,
        scratch,
        owner,
        p,
        weights,
        cache,
        rows,
    );
    push_gemm(plan, scratch, owner, rows, p.gated, &weights.output, branch_output);
    assert(command::plan_view(plan@) =~= command::plan_view(old(plan)@) + prefill_attention(
        owner,
        *p,
        normalized,
        branch_output,
        *weights,
        *cache,
        rows as int,
    ));
}

// ---------------------------------------------------------------------------
// The feed-forward part
// ---------------------------------------------------------------------------

/// Where the tensors of a feed-forward part lie.
#[derive(Debug, Clone, Copy, PartialEq, Eq, Structural)]
pub struct MlpPlaces {
    pub input: usize,
    pub gate: usize,
    pub up: usize,
    pub active: usize,
    pub output: usize,
}

/// The feed-forward part when decoding one row, or three.
pub open spec fn mlp(owner: Owner, p: MlpPlaces, weights: MlpWeights, rows: int) -> Seq<
    DispatchView,
> {
    let scratch = BufferId::Scratch;
    seq![
        dispatch::qmv_fused(
            scratch,
            owner,
            p.input as int,
            seq![(weights.gate, p.gate), (weights.up, p.up)],
            rows,
        ),
        dispatch::silu(scratch, p.gate as int, p.up as int, p.active as int, rows),
        dispatch::qmv(scratch, owner, p.active as int, weights.down, p.output as int, rows),
    ]
}

/// The feed-forward part when prefilling.
pub open spec fn prefill_mlp(owner: Owner, p: MlpPlaces, weights: MlpWeights, rows: int) -> Seq<
    DispatchView,
> {
    let scratch = BufferId::PrefillScratch;
    seq![
        dispatch::gemm(scratch, owner, rows, p.input as int, weights.gate, p.gate as int),
        dispatch::gemm(scratch, owner, rows, p.input as int, weights.up, p.up as int),
        dispatch::silu(scratch, p.gate as int, p.up as int, p.active as int, rows),
        dispatch::gemm(scratch, owner, rows, p.active as int, weights.down, p.output as int),
    ]
}

/// Appends the feed-forward part when decoding one row, or three.
pub fn encode_mlp(
    plan: &mut Vec<Dispatch>,
    owner: Owner,
    p: &MlpPlaces,
    weights: &MlpWeights,
    rows: usize,
)
    requires
        rows <= 3,
    ensures
        command::plan_view(final(plan)@) == command::plan_view(old(plan)@) + mlp(
            owner,
            *p,
            *weights,
            rows as int,
        ),
{
    let maps: Vec<(Q4Linear, usize)> = vec![(weights.gate, p.gate), (weights.up, p.up)];
    assert(maps@ =~= seq![(weights.gate, p.gate), (weights.up, p.up)]);
    push_qmv_fused(plan, BufferId::Scratch, owner, p.input, &maps, rows);
    push_silu(plan, BufferId::Scratch, p.gate, p.up, p.active, rows);
    push_qmv(plan, BufferId::Scratch, owner, p.active, &weights.down, p.output, rows);
    assert(command::plan_view(plan@) =~= command::plan_view(old(plan)@) + mlp(
        owner,
        *p,
        *weights,
        rows as int,
    ));
}

/// Appends the feed-forward part when prefilling.
pub fn encode_prefill_mlp(
    plan: &mut Vec<Dispatch>,
    owner: Owner,
    p: &MlpPlaces,
    weights: &MlpWeights,
    rows: usize,
)
    requires
        rows <= PREFILL_BATCH,
    ensures
        command::plan_view(final(plan)@) == command::plan_view(old(plan)@) + prefill_mlp(
            owner,
            *p,
            *weights,
            rows as int,
        ),
{
    let scratch = BufferId::PrefillScratch;
    push_gemm(plan, scratch, owner, rows, p.input, &weights.gate, p.gate);
    push_gemm(plan, scratch, owner, rows, p.input, &weights.up, p.up);
    push_silu(plan, scratch, p.gate, p.up, p.active, rows);
    push_gemm(plan, scratch, owner, rows, p.active, &weights.down, p.output);
    assert(command::plan_view(plan@) =~= command::plan_view(old(plan)@) + prefill_mlp(
        owner,
        *p,
        *weights,
        rows as int,
    ));
}

} // verus!
