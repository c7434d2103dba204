//! What the parts of a layer come to: its branch and its feed-forward part.

use vstd::prelude::*;

use crate::model::branch;
use crate::model::branch::{
    AttentionCache, AttentionMode, AttentionPlaces, AttentionWeights, GdnWeights, MlpPlaces,
    MlpWeights,
};
use crate::model::command;
use crate::model::command::{Arg, BufferId, DispatchView, Owner};
use crate::model::dispatch;
use crate::model::dispatch::TensorRef;
use crate::model::layout::ScratchLayout;
use crate::model::meaning;
use crate::model::meaning::network;
use crate::model::meaning::network::{Layer, Mixer, Past};
use crate::model::meaning::places;
use crate::model::meaning::steps;
use crate::model::meaning::{Cells, Kernels, Recurrence, Span};

verus! {

/// Whether a buffer is scratch memory.
pub open spec fn is_scratch(buffer: BufferId) -> bool {
    buffer is Scratch || buffer is PrefillScratch
}

/// Whether an address is one of the weights, of the recurrent states or of the caches.
pub open spec fn is_lasting(key: Arg) -> bool {
    match key {
        Arg::Buffer { buffer, .. } => buffer is Shard || buffer is ConvState || buffer is GdnState
            || buffer is KeyCache || buffer is ValueCache,
        _ => false,
    }
}

/// Whether an address is one of the recurrent states or of the caches.
pub open spec fn is_past(key: Arg) -> bool {
    match key {
        Arg::Buffer { buffer, .. } => buffer is ConvState || buffer is GdnState || buffer is KeyCache
            || buffer is ValueCache,
        _ => false,
    }
}

/// Two memories have the same under all addresses that last, but for two of them.
pub open spec fn same_but<T>(a: Cells<T>, b: Cells<T>, first: Arg, second: Arg) -> bool {
    forall|key: Arg|
        is_lasting(key) && key != first && key != second ==> #[trigger] a[key] == b[key]
}

// ---------------------------------------------------------------------------
// The recurrent branch
// ---------------------------------------------------------------------------

/// What a recurrent layer has of the positions before.
pub open spec fn recurrent_past<T>(m: Cells<T>, index: int) -> Past<T> {
    Past { first: m[steps::history_place(index)], second: m[steps::state_place(index)] }
}

/// What the recurrence reads, given the projections.
pub open spec fn recurrence_over<T>(
    k: Kernels<T>,
    m: Cells<T>,
    scratch: BufferId,
    s: ScratchLayout,
    w: GdnWeights,
    rows: int,
) -> Recurrence<T> {
    let told = Arg::Word(rows as u32);
    let qkv = m[command::at(scratch, s.projection as int)];
    let conv = steps::vector_at(m, Owner::Target, w.conv_weight);
    let history = m[steps::history_place(w.state_index as int)];
    Recurrence {
        input: (k.convolve)(qkv, conv, history, network::heads(), told),
        query: (k.conv_query)(qkv, conv, history, network::heads(), network::head_scales(), told),
        key: (k.conv_key)(qkv, conv, history, network::heads(), network::head_scales(), told),
        write_gate: (k.write_gate)(m[command::at(scratch, s.small1 as int)]),
        decay: (k.decay)(
            m[command::at(scratch, s.small0 as int)],
            steps::vector_at(m, Owner::Target, w.a_log),
            steps::vector_at(m, Owner::Target, w.dt_bias),
        ),
        state: m[steps::state_place(w.state_index as int)],
        dims: Arg::Words4(48, 128, 128, 3),
        rows: told,
    }
}

/// The recurrent branch between its linear maps.
#[verifier::rlimit(40)]
proof fn gdn_core_runs<T>(
    k: Kernels<T>,
    m: Cells<T>,
    scratch: BufferId,
    s: ScratchLayout,
    w: GdnWeights,
    rows: int,
    capture: bool,
)
    requires
        places::in_order(s),
        is_scratch(scratch),
    ensures
        ({
            let after = meaning::run(k, m, branch::gdn_core(scratch, s, w, rows, capture));
            let read = recurrence_over(k, m, scratch, s, w, rows);
            let index = w.state_index as int;
            let qkv = m[command::at(scratch, s.projection as int)];
            &&& after[command::at(scratch, s.gated as int)] == (k.gate_recurrence)(
                (k.recur)(read),
                m[command::at(scratch, s.aux0 as int)],
                steps::vector_at(m, Owner::Target, w.norm),
                0x3586_37bd,
            )
            &&& after[steps::history_place(index)] == (k.remember)(
                m[steps::history_place(index)],
                qkv,
                Arg::Word(rows as u32),
            )
            &&& after[steps::state_place(index)] == (k.learn)(read)
            &&& capture ==> after[command::at(
                BufferId::VerifyConvSlots,
                index * branch::CONV_BYTES,
            )] == (k.histories)(m[steps::history_place(index)], qkv, Arg::Word(rows as u32))
            &&& capture ==> after[command::at(
                BufferId::VerifyGdnSlots,
                index * branch::STATE_BYTES,
            )] == (k.states)(read)
            &&& after[command::at(scratch, s.hidden as int)] == m[command::at(
                scratch,
                s.hidden as int,
            )]
            &&& same_but(after, m, steps::history_place(index), steps::state_place(index))
        }),
{
    let plan = branch::gdn_core(scratch, s, w, rows, capture);
    assert(plan.take(0) =~= Seq::empty());
    assert(plan.take(4) =~= plan);
    meaning::run_of_front(k, m, plan, 0);
    meaning::run_of_front(k, m, plan, 1);
    meaning::run_of_front(k, m, plan, 2);
    meaning::run_of_front(k, m, plan, 3);
    steps::step_gdn_conv(k, m, scratch, s, w, rows);
    let m1 = meaning::run(k, m, plan.take(1));
    steps::step_gdn_update(k, m1, scratch, s, w, rows, capture);
    let m2 = meaning::run(k, m, plan.take(2));
    steps::step_gdn_recurrence(k, m2, scratch, s, w, rows, capture);
    let m3 = meaning::run(k, m, plan.take(3));
    steps::step_gdn_gate(k, m3, scratch, s, w, rows);
    assert(steps::recurrence_at(m2, scratch, s, w, rows) == recurrence_over(
        k,
        m,
        scratch,
        s,
        w,
        rows,
    ));
}

/// The recurrent branch when decoding: it makes of the normed rows, of the history and of the
/// state what the model makes of them, and leaves the history and the state behind the rows.
#[verifier::rlimit(40)]
pub proof fn gdn_runs<T>(
    k: Kernels<T>,
    m: Cells<T>,
    s: ScratchLayout,
    w: GdnWeights,
    rows: int,
    capture: bool,
)
    requires
        places::in_order(s),
        steps::plain_gdn(w),
    ensures
        ({
            let after = meaning::run(k, m, branch::gdn(s, w, rows, capture));
            let net = steps::recurrent_at(m, Owner::Target, w);
            let x = m[command::at(BufferId::Scratch, s.normalized as int)];
            let index = w.state_index as int;
            let past = recurrent_past(m, index);
            &&& after[command::at(BufferId::Scratch, s.branch_output as int)] == network::recurred(
                k,
                net,
                x,
                past,
                rows,
            )
            &&& recurrent_past(after, index) == network::past_of_recurrence(
                k,
                net,
                x,
                past,
                rows,
            )
            &&& capture ==> after[command::at(
                BufferId::VerifyConvSlots,
                index * branch::CONV_BYTES,
            )] == (k.histories)(
                past.first,
                network::apply(k, net.qkv, x),
                Arg::Word(rows as u32),
            )
            &&& capture ==> after[command::at(
                BufferId::VerifyGdnSlots,
                index * branch::STATE_BYTES,
            )] == (k.states)(network::recurrence(k, net, x, past, rows))
            &&& after[command::at(BufferId::Scratch, s.hidden as int)] == m[command::at(
                BufferId::Scratch,
                s.hidden as int,
            )]
            &&& same_but(after, m, steps::history_place(index), steps::state_place(index))
        }),
{
    let scratch = BufferId::Scratch;
    let core = branch::gdn_core(scratch, s, w, rows, capture);
    let maps = seq![
        dispatch::qmv_fused(
            scratch,
            Owner::Target,
            s.normalized as int,
            seq![(w.qkv, s.projection), (w.z, s.aux0), (w.a, s.small0), (w.b, s.small1)],
            rows,
        ),
    ];
    let last = dispatch::qmv(
        scratch,
        Owner::Target,
        s.gated as int,
        w.output,
        s.branch_output as int,
        rows,
    );
    meaning::run_of_one(k, m, maps[0]);
    steps::step_fused4(
        k,
        m,
        scratch,
        Owner::Target,
        s.normalized as int,
        (w.qkv, s.projection),
        (w.z, s.aux0),
        (w.a, s.small0),
        (w.b, s.small1),
        rows,
    );
    let m1 = meaning::run(k, m, maps);
    gdn_core_runs(k, m1, scratch, s, w, rows, capture);
    let m2 = meaning::run(k, m1, core);
    meaning::run_of_one(k, m2, last);
    steps::step_qmv(
        k,
        m2,
        scratch,
        Owner::Target,
        s.gated as int,
        w.output,
        s.branch_output as int,
        rows,
    );
    meaning::run_of_both(k, m, maps, core);
    meaning::run_of_both(k, m, maps + core, seq![last]);
    assert(branch::gdn(s, w, rows, capture) =~= maps + core + seq![last]);
    let net = steps::recurrent_at(m, Owner::Target, w);
    let x = m[command::at(scratch, s.normalized as int)];
    assert(m1[command::at(scratch, s.projection as int)] == network::apply(k, net.qkv, x));
    assert(m1[command::at(scratch, s.aux0 as int)] == network::apply(k, net.z, x));
    assert(m1[command::at(scratch, s.small0 as int)] == network::apply(k, net.a, x));
    assert(m1[command::at(scratch, s.small1 as int)] == network::apply(k, net.b, x));
    assert(recurrence_over(k, m1, scratch, s, w, rows) == network::recurrence(
        k,
        net,
        x,
        recurrent_past(m, w.state_index as int),
        rows,
    ));
    assert(steps::matrix_at(m2, Owner::Target, w.output) == net.out);
}

/// The recurrent branch when prefilling: it makes of the normed rows, of the history and of the
/// state what the model makes of them, and leaves the history and the state behind the rows.
#[verifier::rlimit(40)]
pub proof fn prefill_gdn_runs<T>(
    k: Kernels<T>,
    m: Cells<T>,
    s: ScratchLayout,
    w: GdnWeights,
    rows: int,
)
    requires
        places::in_order(s),
        steps::plain_gdn(w),
    ensures
        ({
            let after = meaning::run(k, m, branch::prefill_gdn(s, w, rows));
            let net = steps::recurrent_at(m, Owner::Target, w);
            let x = m[command::at(BufferId::PrefillScratch, s.normalized as int)];
            let index = w.state_index as int;
            let past = recurrent_past(m, index);
            &&& after[command::at(BufferId::PrefillScratch, s.branch_output as int)] == network::recurred(
                k,
                net,
                x,
                past,
                rows,
            )
            &&& recurrent_past(after, index) == network::past_of_recurrence(
                k,
                net,
                x,
                past,
                rows,
            )
            &&& after[command::at(BufferId::PrefillScratch, s.hidden as int)] == m[command::at(
                BufferId::PrefillScratch,
                s.hidden as int,
            )]
            &&& same_but(after, m, steps::history_place(index), steps::state_place(index))
        }),
{
    let scratch = BufferId::PrefillScratch;
    let core = branch::gdn_core(scratch, s, w, rows, false);
    let input = s.normalized as int;
    let maps = seq![
        dispatch::gemm(scratch, Owner::Target, rows, input, w.qkv, s.projection as int),
        dispatch::gemm(scratch, Owner::Target, rows, input, w.z, s.aux0 as int),
        dispatch::gemm(scratch, Owner::Target, rows, input, w.a, s.small0 as int),
        dispatch::gemm(scratch, Owner::Target, rows, input, w.b, s.small1 as int),
    ];
    let last = dispatch::gemm(
        scratch,
        Owner::Target,
        rows,
        s.gated as int,
        w.output,
        s.branch_output as int,
    );
    assert(maps.take(0) =~= Seq::empty());
    assert(maps.take(4) =~= maps);
    meaning::run_of_front(k, m, maps, 0);
    meaning::run_of_front(k, m, maps, 1);
    meaning::run_of_front(k, m, maps, 2);
    meaning::run_of_front(k, m, maps, 3);
    steps::step_gemm(k, m, scratch, Owner::Target, rows, input, w.qkv, s.projection as int);
    let a1 = meaning::run(k, m, maps.take(1));
    steps::step_gemm(k, a1, scratch, Owner::Target, rows, input, w.z, s.aux0 as int);
    let a2 = meaning::run(k, m, maps.take(2));
    steps::step_gemm(k, a2, scratch, Owner::Target, rows, input, w.a, s.small0 as int);
    let a3 = meaning::run(k, m, maps.take(3));
    steps::step_gemm(k, a3, scratch, Owner::Target, rows, input, w.b, s.small1 as int);
    let m1 = meaning::run(k, m, maps);
    gdn_core_runs(k, m1, scratch, s, w, rows, false);
    let m2 = meaning::run(k, m1, core);
    meaning::run_of_one(k, m2, last);
    steps::step_gemm(
        k,
        m2,
        scratch,
        Owner::Target,
        rows,
        s.gated as int,
        w.output,
        s.branch_output as int,
    );
    meaning::run_of_both(k, m, maps, core);
    meaning::run_of_both(k, m, maps + core, seq![last]);
    assert(branch::prefill_gdn(s, w, rows) =~= maps + core + seq![last]);
    let net = steps::recurrent_at(m, Owner::Target, w);
    let x = m[command::at(scratch, s.normalized as int)];
    assert(m1[command::at(scratch, s.projection as int)] == network::apply(k, net.qkv, x));
    assert(m1[command::at(scratch, s.aux0 as int)] == network::apply(k, net.z, x));
    assert(m1[command::at(scratch, s.small0 as int)] == network::apply(k, net.a, x));
    assert(m1[command::at(scratch, s.small1 as int)] == network::apply(k, net.b, x));
    assert(recurrence_over(k, m1, scratch, s, w, rows) == network::recurrence(
        k,
        net,
        x,
        recurrent_past(m, w.state_index as int),
        rows,
    ));
    assert(steps::matrix_at(m2, Owner::Target, w.output) == net.out);
}

// ---------------------------------------------------------------------------
// The attention branch
// ---------------------------------------------------------------------------

/// The tensors of an attention branch lie one behind the other.
pub open spec fn attention_in_order(
    p: AttentionPlaces,
    hidden: usize,
    normalized: usize,
    output: usize,
) -> bool {
    &&& hidden < normalized < output < p.projection < p.key < p.value
    &&& p.value < p.query < p.gate < p.output < p.gated
}

/// What an attention layer has of the positions before.
pub open spec fn attention_past<T>(m: Cells<T>, offset: int) -> Past<T> {
    Past { first: m[steps::keys_place(offset)], second: m[steps::values_place(offset)] }
}

/// The attention branch between its linear maps.
#[verifier::rlimit(40)]
proof fn attention_core_runs<T>(
    k: Kernels<T>,
    m: Cells<T>,
    mode: AttentionMode,
    scratch: BufferId,
    owner: Owner,
    p: AttentionPlaces,
    hidden: usize,
    normalized: usize,
    output: usize,
    w: AttentionWeights,
    cache: AttentionCache,
    rows: int,
)
    requires
        attention_in_order(p, hidden, normalized, output),
        is_scratch(scratch),
        steps::takes(mode, rows),
        cache.position < u32::MAX,
        cache.capacity <= u32::MAX,
    ensures
        ({
            let after = meaning::run(
                k,
                m,
                branch::attention_core(mode, scratch, owner, p, w, cache, rows),
            );
            let span = steps::span_of(cache, rows);
            let offset = cache.offset as int;
            let keys = (k.store_keys)(
                m[steps::keys_place(offset)],
                m[command::at(scratch, p.key as int)],
                steps::vector_at(m, owner, w.k_norm),
                span,
            );
            let values = (k.store_values)(
                m[steps::values_place(offset)],
                m[command::at(scratch, p.value as int)],
                span,
            );
            let q = m[command::at(scratch, p.projection as int)];
            &&& after[command::at(scratch, p.gated as int)] == (k.gate_attention)(
                (k.attend)(
                    (k.query)(
                        q,
                        steps::vector_at(m, owner, w.q_norm),
                        cache.position as u32,
                        0x3586_37bd,
                    ),
                    keys,
                    values,
                    span,
                ),
                (k.query_gate)(q),
            )
            &&& after[steps::keys_place(offset)] == keys
            &&& after[steps::values_place(offset)] == values
            &&& after[command::at(scratch, hidden as int)] == m[command::at(
                scratch,
                hidden as int,
            )]
            &&& same_but(after, m, steps::keys_place(offset), steps::values_place(offset))
        }),
{
    let plan = branch::attention_core(mode, scratch, owner, p, w, cache, rows);
    assert(plan.take(0) =~= Seq::empty());
    assert(plan.take(4) =~= plan);
    meaning::run_of_front(k, m, plan, 0);
    meaning::run_of_front(k, m, plan, 1);
    meaning::run_of_front(k, m, plan, 2);
    meaning::run_of_front(k, m, plan, 3);
    steps::step_attention_query(k, m, mode, scratch, owner, p, w, cache, rows);
    let m1 = meaning::run(k, m, plan.take(1));
    steps::step_attention_store(k, m1, mode, scratch, owner, p, w, cache, rows);
    let m2 = meaning::run(k, m, plan.take(2));
    steps::step_attention_scores(k, m2, mode, scratch, p, cache, rows);
    let m3 = meaning::run(k, m, plan.take(3));
    steps::step_attention_gate(k, m3, scratch, p, rows);
}

/// The attention branch when decoding: it makes of the normed rows, of the keys and of the
/// values what the model makes of them, and leaves the keys and values of the rows as well.
#[verifier::rlimit(40)]
pub proof fn attention_runs<T>(
    k: Kernels<T>,
    m: Cells<T>,
    owner: Owner,
    p: AttentionPlaces,
    hidden: usize,
    normalized: usize,
    output: usize,
    w: AttentionWeights,
    cache: AttentionCache,
    rows: int,
)
    requires
        attention_in_order(p, hidden, normalized, output),
        steps::plain_attention(w),
        rows == 1 || rows == 3,
        cache.position < u32::MAX,
        cache.capacity <= u32::MAX,
    ensures
        ({
            let after = meaning::run(
                k,
                m,
                branch::attention(owner, p, normalized, output, w, cache, rows),
            );
            let net = steps::attending_at(m, owner, w);
            let x = m[command::at(BufferId::Scratch, normalized as int)];
            let past = attention_past(m, cache.offset as int);
            let span = steps::span_of(cache, rows);
            &&& after[command::at(BufferId::Scratch, output as int)] == network::attended(
                k,
                net,
                x,
                past,
                span,
            )
            &&& attention_past(after, cache.offset as int) == network::past_of_attention(
                k,
                net,
                x,
                past,
                span,
            )
            &&& after[command::at(BufferId::Scratch, hidden as int)] == m[command::at(
                BufferId::Scratch,
                hidden as int,
            )]
            &&& same_but(
                after,
                m,
                steps::keys_place(cache.offset as int),
                steps::values_place(cache.offset as int),
            )
        }),
{
    let scratch = BufferId::Scratch;
    let mode = if rows == 3 {
        AttentionMode::Block3
    } else {
        AttentionMode::Decode
    };
    let core = branch::attention_core(mode, scratch, owner, p, w, cache, rows);
    let maps = seq![
        dispatch::qmv_fused(
            scratch,
            owner,
            normalized as int,
            seq![(w.q, p.projection), (w.k, p.key), (w.v, p.value)],
            rows,
        ),
    ];
    let last = dispatch::qmv(scratch, owner, p.gated as int, w.output, output as int, rows);
    meaning::run_of_one(k, m, maps[0]);
    steps::step_fused3(
        k,
        m,
        scratch,
        owner,
        normalized as int,
        (w.q, p.projection),
        (w.k, p.key),
        (w.v, p.value),
        rows,
    );
    let m1 = meaning::run(k, m, maps);
    attention_core_runs(k, m1, mode, scratch, owner, p, hidden, normalized, output, w, cache, rows);
    let m2 = meaning::run(k, m1, core);
    meaning::run_of_one(k, m2, last);
    steps::step_qmv(k, m2, scratch, owner, p.gated as int, w.output, output as int, rows);
    meaning::run_of_both(k, m, maps, core);
    meaning::run_of_both(k, m, maps + core, seq![last]);
    assert(branch::attention(owner, p, normalized, output, w, cache, rows) =~= maps + core
        + seq![last]);
    let net = steps::attending_at(m, owner, w);
    let x = m[command::at(scratch, normalized as int)];
    assert(m1[command::at(scratch, p.projection as int)] == network::apply(k, net.q, x));
    assert(m1[command::at(scratch, p.key as int)] == network::apply(k, net.k, x));
    assert(m1[command::at(scratch, p.value as int)] == network::apply(k, net.v, x));
    assert(attention_past(m2, cache.offset as int) == network::past_of_attention(
        k,
        net,
        x,
        attention_past(m, cache.offset as int),
        steps::span_of(cache, rows),
    ));
    assert(steps::matrix_at(m2, owner, w.output) == net.o);
}

/// The attention branch when prefilling: it makes of the normed rows, of the keys and of the
/// values what the model makes of them, and leaves the keys and values of the rows as well.
#[verifier::rlimit(40)]
pub proof fn prefill_attention_runs<T>(
    k: Kernels<T>,
    m: Cells<T>,
    owner: Owner,
    p: AttentionPlaces,
    hidden: usize,
    normalized: usize,
    output: usize,
    w: AttentionWeights,
    cache: AttentionCache,
    rows: int,
)
    requires
        attention_in_order(p, hidden, normalized, output),
        steps::plain_attention(w),
        0 <= rows <= 64,
        cache.position < u32::MAX,
        cache.capacity <= u32::MAX,
    ensures
        ({
            let after = meaning::run(
                k,
                m,
                branch::prefill_attention(owner, p, normalized, output, w, cache, rows),
            );
            let net = steps::attending_at(m, owner, w);
            let x = m[command::at(BufferId::PrefillScratch, normalized as int)];
            let past = attention_past(m, cache.offset as int);
            let span = steps::span_of(cache, rows);
            &&& after[command::at(BufferId::PrefillScratch, output as int)] == network::attended(
                k,
                net,
                x,
                past,
                span,
            )
            &&& attention_past(after, cache.offset as int) == network::past_of_attention(
                k,
                net,
                x,
                past,
                span,
            )
            &&& after[command::at(BufferId::PrefillScratch, hidden as int)] == m[command::at(
                BufferId::PrefillScratch,
                hidden as int,
            )]
            &&& same_but(
                after,
                m,
                steps::keys_place(cache.offset as int),
                steps::values_place(cache.offset as int),
            )
        }),
{
    let scratch = BufferId::PrefillScratch;
    let core = branch::attention_core(AttentionMode::Prefill, scratch, owner, p, w, cache, rows);
    let input = normalized as int;
    let maps = seq![
        dispatch::gemm(scratch, owner, rows, input, w.q, p.projection as int),
        dispatch::gemm(scratch, owner, rows, input, w.k, p.key as int),
        dispatch::gemm(scratch, owner, rows, input, w.v, p.value as int),
    ];
    let last = dispatch::gemm(scratch, owner, rows, p.gated as int, w.output, output as int);
    assert(maps.take(0) =~= Seq::empty());
    assert(maps.take(3) =~= maps);
    meaning::run_of_front(k, m, maps, 0);
    meaning::run_of_front(k, m, maps, 1);
    meaning::run_of_front(k, m, maps, 2);
    steps::step_gemm(k, m, scratch, owner, rows, input, w.q, p.projection as int);
    let a1 = meaning::run(k, m, maps.take(1));
    steps::step_gemm(k, a1, scratch, owner, rows, input, w.k, p.key as int);
    let a2 = meaning::run(k, m, maps.take(2));
    steps::step_gemm(k, a2, scratch, owner, rows, input, w.v, p.value as int);
    let m1 = meaning::run(k, m, maps);
    attention_core_runs(
        k,
        m1,
        AttentionMode::Prefill,
        scratch,
        owner,
        p,
        hidden,
        normalized,
        output,
        w,
        cache,
        rows,
    );
    let m2 = meaning::run(k, m1, core);
    meaning::run_of_one(k, m2, last);
    steps::step_gemm(k, m2, scratch, owner, rows, p.gated as int, w.output, output as int);
    meaning::run_of_both(k, m, maps, core);
    meaning::run_of_both(k, m, maps + core, seq![last]);
    assert(branch::prefill_attention(owner, p, normalized, output, w, cache, rows) =~= maps + core
        + seq![last]);
    let net = steps::attending_at(m, owner, w);
    let x = m[command::at(scratch, normalized as int)];
    assert(m1[command::at(scratch, p.projection as int)] == network::apply(k, net.q, x));
    assert(m1[command::at(scratch, p.key as int)] == network::apply(k, net.k, x));
    assert(m1[command::at(scratch, p.value as int)] == network::apply(k, net.v, x));
    assert(attention_past(m2, cache.offset as int) == network::past_of_attention(
        k,
        net,
        x,
        attention_past(m, cache.offset as int),
        steps::span_of(cache, rows),
    ));
    assert(steps::matrix_at(m2, owner, w.output) == net.o);
}

// ---------------------------------------------------------------------------
// The feed-forward part
// ---------------------------------------------------------------------------

/// The tensors of a feed-forward part lie one behind the other, and behind the hidden state.
pub open spec fn mlp_in_order(p: MlpPlaces, hidden: usize, residual: usize) -> bool {
    hidden < p.output < residual < p.input < p.gate < p.up < p.active
}

/// What a feed-forward part comes to: the model's of its input, and nothing else changes
/// but where it works.
pub open spec fn went_forward<T>(
    k: Kernels<T>,
    m: Cells<T>,
    after: Cells<T>,
    scratch: BufferId,
    owner: Owner,
    p: MlpPlaces,
    hidden: usize,
    residual: usize,
    w: MlpWeights,
) -> bool {
    &&& after[command::at(scratch, p.output as int)] == network::forward(
        k,
        steps::feed_forward_at(m, owner, w),
        m[command::at(scratch, p.input as int)],
    )
    &&& after[command::at(scratch, residual as int)] == m[command::at(scratch, residual as int)]
    &&& after[command::at(scratch, hidden as int)] == m[command::at(scratch, hidden as int)]
    &&& forall|key: Arg| is_lasting(key) ==> #[trigger] after[key] == m[key]
}

/// The feed-forward part when decoding.
#[verifier::rlimit(40)]
pub proof fn mlp_runs<T>(
    k: Kernels<T>,
    m: Cells<T>,
    owner: Owner,
    p: MlpPlaces,
    hidden: usize,
    residual: usize,
    w: MlpWeights,
    rows: int,
)
    requires
        mlp_in_order(p, hidden, residual),
        steps::plain_mlp(w),
    ensures
        went_forward(
            k,
            m,
            meaning::run(k, m, branch::mlp(owner, p, w, rows)),
            BufferId::Scratch,
            owner,
            p,
            hidden,
            residual,
            w,
        ),
{
    let scratch = BufferId::Scratch;
    let plan = branch::mlp(owner, p, w, rows);
    assert(plan.take(0) =~= Seq::empty());
    assert(plan.take(3) =~= plan);
    meaning::run_of_front(k, m, plan, 0);
    meaning::run_of_front(k, m, plan, 1);
    meaning::run_of_front(k, m, plan, 2);
    steps::step_fused2(
        k,
        m,
        scratch,
        owner,
        p.input as int,
        (w.gate, p.gate),
        (w.up, p.up),
        rows,
    );
    let m1 = meaning::run(k, m, plan.take(1));
    steps::step_silu(k, m1, scratch, p.gate as int, p.up as int, p.active as int, rows);
    let m2 = meaning::run(k, m, plan.take(2));
    steps::step_qmv(k, m2, scratch, owner, p.active as int, w.down, p.output as int, rows);
    assert(steps::matrix_at(m2, owner, w.down) == steps::matrix_at(m, owner, w.down));
}

/// The feed-forward part when prefilling.
#[verifier::rlimit(40)]
pub proof fn prefill_mlp_runs<T>(
    k: Kernels<T>,
    m: Cells<T>,
    owner: Owner,
    p: MlpPlaces,
    hidden: usize,
    residual: usize,
    w: MlpWeights,
    rows: int,
)
    requires
        mlp_in_order(p, hidden, residual),
        steps::plain_mlp(w),
    ensures
        went_forward(
            k,
            m,
            meaning::run(k, m, branch::prefill_mlp(owner, p, w, rows)),
            BufferId::PrefillScratch,
            owner,
            p,
            hidden,
            residual,
            w,
        ),
{
    let scratch = BufferId::PrefillScratch;
    let plan = branch::prefill_mlp(owner, p, w, rows);
    assert(plan.take(0) =~= Seq::empty());
    assert(plan.take(4) =~= plan);
    meaning::run_of_front(k, m, plan, 0);
    meaning::run_of_front(k, m, plan, 1);
    meaning::run_of_front(k, m, plan, 2);
    meaning::run_of_front(k, m, plan, 3);
    steps::step_gemm(k, m, scratch, owner, rows, p.input as int, w.gate, p.gate as int);
    let m1 = meaning::run(k, m, plan.take(1));
    steps::step_gemm(k, m1, scratch, owner, rows, p.input as int, w.up, p.up as int);
    let m2 = meaning::run(k, m, plan.take(2));
    steps::step_silu(k, m2, scratch, p.gate as int, p.up as int, p.active as int, rows);
    let m3 = meaning::run(k, m, plan.take(3));
    steps::step_gemm(k, m3, scratch, owner, rows, p.active as int, w.down, p.output as int);
    assert(steps::matrix_at(m1, owner, w.up) == steps::matrix_at(m, owner, w.up));
    assert(steps::matrix_at(m3, owner, w.down) == steps::matrix_at(m, owner, w.down));
}

// ---------------------------------------------------------------------------
// A layer of its parts
// ---------------------------------------------------------------------------

/// Where the tensors between the parts of a layer lie.
pub struct LayerPlaces {
    pub hidden: usize,
    pub normalized: usize,
    pub output: usize,
    pub residual: usize,
    pub post_norm: usize,
}

/// A branch has been run: its output is the model's, what the layer has of the positions is
/// that up to these rows, and the hidden state is still there.
pub open spec fn was_mixed<T>(
    k: Kernels<T>,
    m: Cells<T>,
    after: Cells<T>,
    scratch: BufferId,
    p: LayerPlaces,
    mixer: Mixer<T>,
    first: Arg,
    second: Arg,
    span: Span,
) -> bool {
    let x = m[command::at(scratch, p.normalized as int)];
    let past = Past { first: m[first], second: m[second] };
    &&& after[command::at(scratch, p.output as int)] == network::mixed(k, mixer, x, past, span)
    &&& (Past { first: after[first], second: after[second] }) == network::past_of_mixer(
        k,
        mixer,
        x,
        past,
        span,
    )
    &&& after[command::at(scratch, p.hidden as int)] == m[command::at(scratch, p.hidden as int)]
    &&& same_but(after, m, first, second)
}

/// A norm, a branch, a sum, a norm, a feed-forward part and a sum.
pub open spec fn layer_plan(
    scratch: BufferId,
    owner: Owner,
    p: LayerPlaces,
    norms: (TensorRef, TensorRef),
    mixing: Seq<DispatchView>,
    mlp: Seq<DispatchView>,
    rows: int,
) -> Seq<DispatchView> {
    seq![
        dispatch::norm(scratch, owner, p.hidden as int, norms.0, p.normalized as int, rows),
    ] + mixing + seq![
        dispatch::residual(scratch, p.hidden as int, p.output as int, p.residual as int, rows),
        dispatch::norm(scratch, owner, p.residual as int, norms.1, p.post_norm as int, rows),
    ] + mlp + seq![
        dispatch::residual(scratch, p.residual as int, p.output as int, p.hidden as int, rows),
    ]
}

/// A norm, a branch, a sum, a norm, a feed-forward part and a sum make a layer: both what
/// the branch and what the feed-forward part give are in what comes out.
#[verifier::rlimit(40)]
pub proof fn layer_runs<T>(
    k: Kernels<T>,
    m: Cells<T>,
    scratch: BufferId,
    owner: Owner,
    p: LayerPlaces,
    norms: (TensorRef, TensorRef),
    mlp_places: MlpPlaces,
    mlp_weights: MlpWeights,
    net: Layer<T>,
    first: Arg,
    second: Arg,
    span: Span,
    mixing: Seq<DispatchView>,
    mlp: Seq<DispatchView>,
)
    requires
        is_scratch(scratch),
        is_past(first),
        is_past(second),
        p.hidden < p.normalized < p.output < p.residual < p.post_norm,
        mlp_places.input == p.post_norm,
        mlp_places.output == p.output,
        net.input_norm == steps::vector_at(m, owner, norms.0),
        net.post_norm == steps::vector_at(m, owner, norms.1),
        net.feed_forward == steps::feed_forward_at(m, owner, mlp_weights),
        ({
            let normed = m.insert(
                command::at(scratch, p.normalized as int),
                network::normed(
                    k,
                    m[command::at(scratch, p.hidden as int)],
                    steps::vector_at(m, owner, norms.0),
                ),
            );
            was_mixed(
                k,
                normed,
                meaning::run(k, normed, mixing),
                scratch,
                p,
                net.mixer,
                first,
                second,
                span,
            )
        }),
        forall|before: Cells<T>|
            went_forward(
                k,
                before,
                #[trigger] meaning::run(k, before, mlp),
                scratch,
                owner,
                mlp_places,
                p.hidden,
                p.residual,
                mlp_weights,
            ),
    ensures
        ({
            let after = meaning::run(
                k,
                m,
                layer_plan(scratch, owner, p, norms, mixing, mlp, span.rows),
            );
            let h = m[command::at(scratch, p.hidden as int)];
            let past = Past { first: m[first], second: m[second] };
            &&& after[command::at(scratch, p.hidden as int)] == network::layer_output(
                k,
                net,
                h,
                past,
                span,
            )
            &&& (Past { first: after[first], second: after[second] }) == network::layer_past(
                k,
                net,
                h,
                past,
                span,
            )
            &&& same_but(after, m, first, second)
        }),
{
    let rows = span.rows;
    let d0 = dispatch::norm(
        scratch,
        owner,
        p.hidden as int,
        norms.0,
        p.normalized as int,
        rows,
    );
    let d1 = dispatch::residual(
        scratch,
        p.hidden as int,
        p.output as int,
        p.residual as int,
        rows,
    );
    let d2 = dispatch::norm(
        scratch,
        owner,
        p.residual as int,
        norms.1,
        p.post_norm as int,
        rows,
    );
    let d3 = dispatch::residual(
        scratch,
        p.residual as int,
        p.output as int,
        p.hidden as int,
        rows,
    );
    meaning::run_of_both(k, m, seq![d0], mixing);
    meaning::run_of_both(k, m, seq![d0] + mixing, seq![d1, d2]);
    meaning::run_of_both(k, m, seq![d0] + mixing + seq![d1, d2], mlp);
    meaning::run_of_both(k, m, seq![d0] + mixing + seq![d1, d2] + mlp, seq![d3]);
    meaning::run_of_one(k, m, d0);
    steps::step_norm(
        k,
        m,
        scratch,
        owner,
        p.hidden as int,
        norms.0,
        p.normalized as int,
        rows,
    );
    let m1 = meaning::run(k, m, seq![d0]);
    let m2 = meaning::run(k, m1, mixing);
    assert(seq![d1, d2] =~= seq![d1] + seq![d2]);
    meaning::run_of_both(k, m2, seq![d1], seq![d2]);
    meaning::run_of_one(k, m2, d1);
    steps::step_residual(
        k,
        m2,
        scratch,
        p.hidden as int,
        p.output as int,
        p.residual as int,
        rows,
    );
    let m3 = meaning::run(k, m2, seq![d1]);
    meaning::run_of_one(k, m3, d2);
    steps::step_norm(
        k,
        m3,
        scratch,
        owner,
        p.residual as int,
        norms.1,
        p.post_norm as int,
        rows,
    );
    let m4 = meaning::run(k, m3, seq![d2]);
    let m5 = meaning::run(k, m4, mlp);
    meaning::run_of_one(k, m5, d3);
    steps::step_residual(
        k,
        m5,
        scratch,
        p.residual as int,
        p.output as int,
        p.hidden as int,
        rows,
    );
    assert(went_forward(
        k,
        m4,
        m5,
        scratch,
        owner,
        mlp_places,
        p.hidden,
        p.residual,
        mlp_weights,
    ));
    assert(steps::feed_forward_at(m4, owner, mlp_weights) == net.feed_forward);
    assert(steps::vector_at(m3, owner, norms.1) == net.post_norm);
}

} // verus!
