//! That every run of a pass has room for what it writes: it stays in the region of the
//! scratch memory whose tensor it writes, and so leaves the other tensors alone.

use vstd::prelude::*;

use crate::model::branch;
use crate::model::branch::{
    AttentionCache, AttentionMode, AttentionPlaces, AttentionWeights, GdnWeights, MlpPlaces,
    MlpWeights,
};
use crate::model::command::{Arg, BufferId, DispatchView, Kernel, Owner};
use crate::model::dispatch;
use crate::model::dispatch::{Q4Linear, TensorRef};
use crate::model::layers::{BranchWeights, LayerWeights};
use crate::model::layout;
use crate::model::layout::{MtpScratchLayout, ScratchLayout};
use crate::model::meaning;
use crate::model::meaning::names;
use crate::model::meaning::rows;
use crate::model::meaning::steps;
use crate::model::mtp;
use crate::model::mtp::MtpView;
use crate::model::readback;
use crate::model::runner;
use crate::model::runner::prefill;
use crate::model::runner::{RunnerView, Stages};
use crate::model::weights::SlotTable;

verus! {

/// Where the tensors of a scratch memory start, and how long they are.
pub struct Regions {
    pub buffer: BufferId,
    pub starts: Seq<int>,
    pub sizes: Seq<int>,
}

/// So many bytes from an offset on lie in one region.
#[verifier::opaque]
pub open spec fn is_room(g: Regions, offset: int, bytes: int) -> bool {
    exists|i: int|
        0 <= i < g.starts.len() && #[trigger] g.starts[i] <= offset && offset + bytes <= g.starts[i]
            + g.sizes[i]
}

/// What a run writes into scratch memory, by address and number of bytes. A hidden state,
/// an activation, a query and a gated output have two bytes a number; what comes out of a
/// linear map, of the convolution, of the recurrence and of attention has four.
pub open spec fn writes(d: DispatchView, rows: int) -> Seq<(Arg, int)> {
    let args = d.args;
    match d.kernel {
        Kernel::Embed => seq![(args[4], rows * 10_240)],
        Kernel::Rms => seq![(args[2], rows * 10_240)],
        Kernel::RmsStride => seq![(args[2], rows * 20_480)],
        Kernel::Residual | Kernel::Silu | Kernel::AttnGate => seq![
            (args[2], 2 * meaning::word(args[3], 0)),
        ],
        Kernel::CastBf16 => seq![(args[1], 2 * meaning::word(args[2], 0))],
        Kernel::Qmv | Kernel::QmvWide3 => seq![(args[4], rows * (4 * meaning::word(args[5], 0)))],
        Kernel::Q4Gemm => seq![
            (args[4], meaning::word(args[5], 2) * (4 * meaning::word(args[5], 0))),
        ],
        Kernel::QmvFused2 | Kernel::QmvFused2Wide3 => seq![
            (args[4], rows * (4 * meaning::word(args[9], 0))),
            (args[8], rows * (4 * meaning::word(args[9], 1))),
        ],
        Kernel::QmvFused3 | Kernel::QmvFused3Wide3 => seq![
            (args[4], rows * (4 * meaning::word(args[13], 0))),
            (args[8], rows * (4 * meaning::word(args[13], 1))),
            (args[12], rows * (4 * meaning::word(args[13], 2))),
        ],
        Kernel::QmvFused4 | Kernel::QmvFused4Wide3 => seq![
            (args[4], rows * (4 * meaning::word(args[17], 0))),
            (args[8], rows * (4 * meaning::word(args[17], 1))),
            (args[12], rows * (4 * meaning::word(args[17], 2))),
            (args[16], rows * (4 * meaning::word(args[17], 3))),
        ],
        Kernel::GdnConv => seq![
            (args[7], rows * 40_960),
            (args[8], rows * 8192),
            (args[9], rows * 8192),
            (args[10], rows * 192),
            (args[11], rows * 192),
        ],
        Kernel::GdnRecurrence => seq![(args[6], rows * 24_576)],
        Kernel::GdnGate => seq![(args[3], rows * 12_288)],
        Kernel::AttnQ | Kernel::AttnQBlock3 | Kernel::AttnQPrefill => seq![
            (args[2], rows * 12_288),
            (args[3], rows * 24_576),
        ],
        Kernel::AttnSdpa | Kernel::AttnSdpaBlock3 | Kernel::AttnSdpaPrefill => seq![
            (args[3], rows * 24_576),
        ],
        Kernel::Argmax => seq![(args[1], 3880), (args[2], 3880)],
        _ => Seq::empty(),
    }
}

/// What is written to an address stays in its region.
pub open spec fn stays(g: Regions, write: (Arg, int)) -> bool {
    match write.0 {
        Arg::Buffer { buffer, offset } => buffer == g.buffer && is_room(g, offset as int, write.1),
        _ => false,
    }
}

/// What a run writes into scratch memory stays in the regions.
#[verifier::opaque]
pub open spec fn fits(g: Regions, d: DispatchView, rows: int) -> bool {
    forall|i: int| 0 <= i < writes(d, rows).len() ==> stays(g, #[trigger] writes(d, rows)[i])
}

/// What some runs write into scratch memory stays in the regions.
pub open spec fn all_fit(g: Regions, plan: Seq<DispatchView>, rows: int) -> bool {
    forall|i: int| 0 <= i < plan.len() ==> fits(g, #[trigger] plan[i], rows)
}

/// How many rows a linear map of many rows gives: as many, up to a multiple of sixteen.
pub open spec fn padded(rows: int) -> int {
    (rows + 15) / 16 * 16
}

// ---------------------------------------------------------------------------
// Single runs
// ---------------------------------------------------------------------------

proof fn norm_fits(
    g: Regions,
    owner: Owner,
    input: int,
    scale: TensorRef,
    output: usize,
    rows: int,
)
    requires
        is_room(g, output as int, rows * 10_240),
    ensures
        fits(g, dispatch::norm(g.buffer, owner, input, scale, output as int, rows), rows),
{
    reveal(fits);
}

proof fn norm_half_fits(
    g: Regions,
    owner: Owner,
    input: int,
    scale: TensorRef,
    output: usize,
    column: int,
    rows: int,
)
    requires
        is_room(g, output as int, rows * 20_480),
    ensures
        fits(
            g,
            dispatch::norm_half(g.buffer, owner, input, scale, output as int, column, rows),
            rows,
        ),
{
    reveal(fits);
}

proof fn residual_fits(g: Regions, a: int, b: int, output: usize, rows: int)
    requires
        1 <= rows <= 64,
    ensures
        is_room(g, output as int, rows * 10_240) ==> fits(
            g,
            dispatch::residual(g.buffer, a, b, output as int, rows),
            rows,
        ),
        is_room(g, output as int, rows * 34_816) ==> fits(
            g,
            dispatch::silu(g.buffer, a, b, output as int, rows),
            rows,
        ),
        is_room(g, output as int, rows * 10_240) ==> fits(
            g,
            dispatch::cast(g.buffer, a, output as int, rows * 5120),
            rows,
        ),
{
    reveal(fits);
}

proof fn embed_fits(g: Regions, tokens: int, table: Q4Linear, output: usize, rows: int)
    requires
        is_room(g, output as int, rows * 10_240),
    ensures
        fits(g, dispatch::embed(g.buffer, tokens, table, output as int, rows), rows),
{
    reveal(fits);
}

proof fn argmax_fits(g: Regions, input: int, base: int, rows: int)
    requires
        0 <= base <= usize::MAX - 3880,
        is_room(g, base, 3880),
        is_room(g, base + 3880, 3880),
    ensures
        fits(g, dispatch::argmax(g.buffer, input, base), rows),
{
    reveal(fits);
}

proof fn qmv_fits(g: Regions, owner: Owner, input: int, linear: Q4Linear, output: usize, rows: int)
    requires
        rows::is_sized(linear),
        is_room(g, output as int, rows * (4 * linear.output)),
    ensures
        fits(g, dispatch::qmv(g.buffer, owner, input, linear, output as int, rows), rows),
{
    reveal(fits);
}

proof fn gemm_fits(g: Regions, owner: Owner, rows: int, input: int, linear: Q4Linear, output: usize)
    requires
        rows::is_sized(linear),
        1 <= rows <= 64,
        is_room(g, output as int, padded(rows) * (4 * linear.output)),
    ensures
        fits(g, dispatch::gemm(g.buffer, owner, rows, input, linear, output as int), rows),
{
    reveal(fits);
}

proof fn fused2_fits(
    g: Regions,
    owner: Owner,
    input: int,
    a: (Q4Linear, usize),
    b: (Q4Linear, usize),
    rows: int,
)
    requires
        rows::is_sized(a.0) && rows::is_sized(b.0),
        is_room(g, a.1 as int, rows * (4 * a.0.output)),
        is_room(g, b.1 as int, rows * (4 * b.0.output)),
    ensures
        fits(g, dispatch::qmv_fused(g.buffer, owner, input, seq![a, b], rows), rows),
{
    reveal(fits);
    let maps = seq![a, b];
    steps::fused_operands(g.buffer, owner, maps, 0);
    steps::fused_operands(g.buffer, owner, maps, 1);
    let d = dispatch::qmv_fused(g.buffer, owner, input, maps, rows);
    let inner = dispatch::fused_args(g.buffer, owner, maps);
    assert forall|i: int| 0 <= i < 8 implies d.args[i + 1] == #[trigger] inner[i] by {}
    assert(d.args[9] == dispatch::fused_dims(maps));
}

#[verifier::rlimit(40)]
proof fn fused3_fits(
    g: Regions,
    owner: Owner,
    input: int,
    a: (Q4Linear, usize),
    b: (Q4Linear, usize),
    c: (Q4Linear, usize),
    rows: int,
)
    requires
        rows::is_sized(a.0) && rows::is_sized(b.0) && rows::is_sized(c.0),
        is_room(g, a.1 as int, rows * (4 * a.0.output)),
        is_room(g, b.1 as int, rows * (4 * b.0.output)),
        is_room(g, c.1 as int, rows * (4 * c.0.output)),
    ensures
        fits(g, dispatch::qmv_fused(g.buffer, owner, input, seq![a, b, c], rows), rows),
{
    reveal(fits);
    let maps = seq![a, b, c];
    steps::fused_operands(g.buffer, owner, maps, 0);
    steps::fused_operands(g.buffer, owner, maps, 1);
    steps::fused_operands(g.buffer, owner, maps, 2);
    let d = dispatch::qmv_fused(g.buffer, owner, input, maps, rows);
    let inner = dispatch::fused_args(g.buffer, owner, maps);
    assert forall|i: int| 0 <= i < 12 implies d.args[i + 1] == #[trigger] inner[i] by {}
    assert(d.args[13] == dispatch::fused_dims(maps));
}

#[verifier::rlimit(40)]
proof fn fused4_fits(
    g: Regions,
    owner: Owner,
    input: int,
    a: (Q4Linear, usize),
    b: (Q4Linear, usize),
    c: (Q4Linear, usize),
    e: (Q4Linear, usize),
    rows: int,
)
    requires
        rows::is_sized(a.0) && rows::is_sized(b.0) && rows::is_sized(c.0) && rows::is_sized(e.0),
        is_room(g, a.1 as int, rows * (4 * a.0.output)),
        is_room(g, b.1 as int, rows * (4 * b.0.output)),
        is_room(g, c.1 as int, rows * (4 * c.0.output)),
        is_room(g, e.1 as int, rows * (4 * e.0.output)),
    ensures
        fits(g, dispatch::qmv_fused(g.buffer, owner, input, seq![a, b, c, e], rows), rows),
{
    reveal(fits);
    let maps = seq![a, b, c, e];
    steps::fused_operands(g.buffer, owner, maps, 0);
    steps::fused_operands(g.buffer, owner, maps, 1);
    steps::fused_operands(g.buffer, owner, maps, 2);
    steps::fused_operands(g.buffer, owner, maps, 3);
    let d = dispatch::qmv_fused(g.buffer, owner, input, maps, rows);
    let inner = dispatch::fused_args(g.buffer, owner, maps);
    assert forall|i: int| 0 <= i < 16 implies d.args[i + 1] == #[trigger] inner[i] by {}
    assert(d.args[17] == dispatch::fused_dims(maps));
}

// ---------------------------------------------------------------------------
// The parts of a layer
// ---------------------------------------------------------------------------

/// There is room for the tensors of a recurrent branch of so many rows, of which its linear
/// maps give up to `given`.
pub open spec fn gdn_room(g: Regions, s: ScratchLayout, rows: int, given: int) -> bool {
    &&& is_room(g, s.projection as int, given * 40_960)
    &&& is_room(g, s.aux0 as int, given * 24_576)
    &&& is_room(g, s.small0 as int, given * 192)
    &&& is_room(g, s.small1 as int, given * 192)
    &&& is_room(g, s.conv_output as int, rows * 40_960)
    &&& is_room(g, s.q_norm as int, rows * 8192)
    &&& is_room(g, s.k_norm as int, rows * 8192)
    &&& is_room(g, s.beta as int, rows * 192)
    &&& is_room(g, s.decay as int, rows * 192)
    &&& is_room(g, s.state_output as int, rows * 24_576)
    &&& is_room(g, s.gated as int, rows * 12_288)
    &&& is_room(g, s.branch_output as int, given * 20_480)
}

/// There is room for the tensors of an attention branch.
pub open spec fn attention_room(
    g: Regions,
    p: AttentionPlaces,
    output: usize,
    rows: int,
    given: int,
) -> bool {
    &&& is_room(g, p.projection as int, given * 49_152)
    &&& is_room(g, p.key as int, given * 4096)
    &&& is_room(g, p.value as int, given * 4096)
    &&& is_room(g, p.query as int, rows * 12_288)
    &&& is_room(g, p.gate as int, rows * 24_576)
    &&& is_room(g, p.output as int, rows * 24_576)
    &&& is_room(g, p.gated as int, rows * 12_288)
    &&& is_room(g, output as int, given * 20_480)
}

/// There is room for the tensors of a feed-forward part.
pub open spec fn mlp_room(g: Regions, p: MlpPlaces, rows: int, given: int) -> bool {
    &&& is_room(g, p.gate as int, given * 69_632)
    &&& is_room(g, p.up as int, given * 69_632)
    &&& is_room(g, p.active as int, rows * 34_816)
    &&& is_room(g, p.output as int, given * 20_480)
}

#[verifier::rlimit(40)]
proof fn gdn_core_fits(
    g: Regions,
    s: ScratchLayout,
    w: GdnWeights,
    rows: int,
    given: int,
    capture: bool,
)
    requires
        gdn_room(g, s, rows, given),
    ensures
        all_fit(g, branch::gdn_core(g.buffer, s, w, rows, capture), rows),
{
    reveal(fits);
    let plan = branch::gdn_core(g.buffer, s, w, rows, capture);
    assert(fits(g, plan[0], rows));
    assert(fits(g, plan[1], rows));
    assert(fits(g, plan[2], rows));
    assert(fits(g, plan[3], rows));
}

proof fn gdn_fits(g: Regions, s: ScratchLayout, w: GdnWeights, rows: int, capture: bool)
    requires
        g.buffer is Scratch,
        steps::plain_gdn(w),
        gdn_room(g, s, rows, rows),
    ensures
        all_fit(g, branch::gdn(s, w, rows, capture), rows),
{
    let input = s.normalized as int;
    fused4_fits(
        g,
        Owner::Target,
        input,
        (w.qkv, s.projection),
        (w.z, s.aux0),
        (w.a, s.small0),
        (w.b, s.small1),
        rows,
    );
    gdn_core_fits(g, s, w, rows, rows, capture);
    qmv_fits(g, Owner::Target, s.gated as int, w.output, s.branch_output, rows);
}

proof fn prefill_gdn_fits(g: Regions, s: ScratchLayout, w: GdnWeights, rows: int)
    requires
        g.buffer is PrefillScratch,
        steps::plain_gdn(w),
        1 <= rows <= 64,
        gdn_room(g, s, rows, padded(rows)),
    ensures
        all_fit(g, branch::prefill_gdn(s, w, rows), rows),
{
    let input = s.normalized as int;
    gemm_fits(g, Owner::Target, rows, input, w.qkv, s.projection);
    gemm_fits(g, Owner::Target, rows, input, w.z, s.aux0);
    gemm_fits(g, Owner::Target, rows, input, w.a, s.small0);
    gemm_fits(g, Owner::Target, rows, input, w.b, s.small1);
    gdn_core_fits(g, s, w, rows, padded(rows), false);
    gemm_fits(g, Owner::Target, rows, s.gated as int, w.output, s.branch_output);
}

#[verifier::rlimit(40)]
proof fn attention_core_fits(
    g: Regions,
    mode: AttentionMode,
    owner: Owner,
    p: AttentionPlaces,
    output: usize,
    w: AttentionWeights,
    cache: AttentionCache,
    rows: int,
    given: int,
)
    requires
        attention_room(g, p, output, rows, given),
        1 <= rows <= 64,
    ensures
        all_fit(
            g,
            branch::attention_core(mode, g.buffer, owner, p, w, cache, rows),
            rows,
        ),
{
    reveal(fits);
    let plan = branch::attention_core(mode, g.buffer, owner, p, w, cache, rows);
    assert(fits(g, plan[0], rows));
    assert(fits(g, plan[1], rows));
    assert(fits(g, plan[2], rows));
    assert(fits(g, plan[3], rows));
}

proof fn attention_fits(
    g: Regions,
    owner: Owner,
    p: AttentionPlaces,
    normalized: usize,
    output: usize,
    w: AttentionWeights,
    cache: AttentionCache,
    rows: int,
)
    requires
        g.buffer is Scratch,
        steps::plain_attention(w),
        rows == 1 || rows == 3,
        attention_room(g, p, output, rows, rows),
    ensures
        all_fit(g, branch::attention(owner, p, normalized, output, w, cache, rows), rows),
{
    let mode = if rows == 3 {
        AttentionMode::Block3
    } else {
        AttentionMode::Decode
    };
    let input = normalized as int;
    fused3_fits(
        g,
        owner,
        input,
        (w.q, p.projection),
        (w.k, p.key),
        (w.v, p.value),
        rows,
    );
    attention_core_fits(g, mode, owner, p, output, w, cache, rows, rows);
    qmv_fits(g, owner, p.gated as int, w.output, output, rows);
}

proof fn prefill_attention_fits(
    g: Regions,
    owner: Owner,
    p: AttentionPlaces,
    normalized: usize,
    output: usize,
    w: AttentionWeights,
    cache: AttentionCache,
    rows: int,
)
    requires
        g.buffer is PrefillScratch,
        steps::plain_attention(w),
        1 <= rows <= 64,
        attention_room(g, p, output, rows, padded(rows)),
    ensures
        all_fit(
            g,
            branch::prefill_attention(owner, p, normalized, output, w, cache, rows),
            rows,
        ),
{
    let input = normalized as int;
    gemm_fits(g, owner, rows, input, w.q, p.projection);
    gemm_fits(g, owner, rows, input, w.k, p.key);
    gemm_fits(g, owner, rows, input, w.v, p.value);
    attention_core_fits(
        g,
        AttentionMode::Prefill,
        owner,
        p,
        output,
        w,
        cache,
        rows,
        padded(rows),
    );
    gemm_fits(g, owner, rows, p.gated as int, w.output, output);
}

proof fn mlp_fits(g: Regions, owner: Owner, p: MlpPlaces, w: MlpWeights, rows: int)
    requires
        g.buffer is Scratch,
        steps::plain_mlp(w),
        1 <= rows <= 3,
        mlp_room(g, p, rows, rows),
    ensures
        all_fit(g, branch::mlp(owner, p, w, rows), rows),
{
    fused2_fits(g, owner, p.input as int, (w.gate, p.gate), (w.up, p.up), rows);
    residual_fits(g, p.gate as int, p.up as int, p.active, rows);
    qmv_fits(g, owner, p.active as int, w.down, p.output, rows);
}

proof fn prefill_mlp_fits(g: Regions, owner: Owner, p: MlpPlaces, w: MlpWeights, rows: int)
    requires
        g.buffer is PrefillScratch,
        steps::plain_mlp(w),
        1 <= rows <= 64,
        mlp_room(g, p, rows, padded(rows)),
    ensures
        all_fit(g, branch::prefill_mlp(owner, p, w, rows), rows),
{
    gemm_fits(g, owner, rows, p.input as int, w.gate, p.gate);
    gemm_fits(g, owner, rows, p.input as int, w.up, p.up);
    residual_fits(g, p.gate as int, p.up as int, p.active, rows);
    gemm_fits(g, owner, rows, p.active as int, w.down, p.output);
}

// ---------------------------------------------------------------------------
// The target
// ---------------------------------------------------------------------------

/// The regions of a scratch memory of the target.
pub open spec fn regions_of(s: ScratchLayout, buffer: BufferId, batch: int) -> Regions {
    Regions { buffer, starts: s.starts(), sizes: layout::times(layout::scratch_rows(), batch) }
}

/// A region has room for no more than its rows.
proof fn region_is_room(g: Regions, row_sizes: Seq<int>, batch: int, i: int, count: int, each: int)
    requires
        g.sizes == layout::times(row_sizes, batch),
        g.starts.len() == g.sizes.len(),
        0 <= i < row_sizes.len(),
        0 <= count <= batch,
        0 <= each <= row_sizes[i],
    ensures
        is_room(g, g.starts[i], count * each),
{
    reveal(is_room);
    let size = row_sizes[i];
    assert(count * each <= batch * size) by (nonlinear_arith)
        requires
            0 <= count <= batch,
            0 <= each <= size,
    ;
    assert(g.sizes[i] == batch * size);
}

/// There is room for all tensors of a layer of the target.
pub open spec fn layer_room(g: Regions, s: ScratchLayout, rows: int, given: int) -> bool {
    &&& gdn_room(g, s, rows, given)
    &&& attention_room(g, branch::target_places(s), s.branch_output, rows, given)
    &&& mlp_room(g, runner::mlp_places(s), rows, given)
    &&& is_room(g, s.hidden as int, rows * 10_240)
    &&& is_room(g, s.normalized as int, rows * 10_240)
    &&& is_room(g, s.residual as int, rows * 10_240)
    &&& is_room(g, s.post_norm as int, rows * 10_240)
    &&& is_room(g, s.logits as int, given * 993_280)
}

/// The scratch memory of the target has room for all tensors of a layer.
#[verifier::rlimit(40)]
proof fn layers_have_room(s: ScratchLayout, buffer: BufferId, batch: int, rows: int, given: int)
    requires
        0 <= rows <= given <= batch,
    ensures
        layer_room(regions_of(s, buffer, batch), s, rows, given),
{
    let g = regions_of(s, buffer, batch);
    let z = layout::scratch_rows();
    region_is_room(g, z, batch, 1, rows, 10_240);
    region_is_room(g, z, batch, 2, rows, 10_240);
    region_is_room(g, z, batch, 3, given, 20_480);
    region_is_room(g, z, batch, 4, rows, 10_240);
    region_is_room(g, z, batch, 5, rows, 10_240);
    region_is_room(g, z, batch, 6, given, 69_632);
    region_is_room(g, z, batch, 7, given, 69_632);
    region_is_room(g, z, batch, 8, rows, 34_816);
    region_is_room(g, z, batch, 9, given, 40_960);
    region_is_room(g, z, batch, 9, given, 49_152);
    region_is_room(g, z, batch, 10, given, 24_576);
    region_is_room(g, z, batch, 10, given, 4096);
    region_is_room(g, z, batch, 11, given, 4096);
    region_is_room(g, z, batch, 12, given, 192);
    region_is_room(g, z, batch, 13, given, 192);
    region_is_room(g, z, batch, 14, rows, 40_960);
    region_is_room(g, z, batch, 15, rows, 8192);
    region_is_room(g, z, batch, 16, rows, 8192);
    region_is_room(g, z, batch, 17, rows, 192);
    region_is_room(g, z, batch, 18, rows, 192);
    region_is_room(g, z, batch, 19, rows, 24_576);
    region_is_room(g, z, batch, 20, rows, 12_288);
    region_is_room(g, z, batch, 21, rows, 24_576);
    region_is_room(g, z, batch, 22, rows, 24_576);
    region_is_room(g, z, batch, 23, rows, 12_288);
    region_is_room(g, z, batch, 24, given, 993_280);
}

#[verifier::rlimit(40)]
proof fn decode_layer_fits(
    g: Regions,
    r: RunnerView,
    layer: LayerWeights,
    rows: int,
    capture: bool,
    stages: Stages,
)
    requires
        g.buffer is Scratch,
        layer_room(g, r.scratch, rows, rows),
        steps::plain_layer(layer),
        rows == 1 || rows == 3,
    ensures
        all_fit(g, runner::decode_layer(r, layer, rows, capture, stages), rows),
{
    let s = r.scratch;
    let owner = Owner::Target;
    let common = layer.common;
    match layer.branch {
        BranchWeights::Gdn(w) => {
            gdn_fits(g, s, w, rows, capture);
        },
        BranchWeights::Attention(w) => {
            attention_fits(
                g,
                owner,
                branch::target_places(s),
                s.normalized,
                s.branch_output,
                w,
                r.cache(w.cache_index as int),
                rows,
            );
        },
    }
    mlp_fits(g, owner, runner::mlp_places(s), common.mlp, rows);
    norm_fits(g, owner, s.hidden as int, common.input_norm, s.normalized, rows);
    norm_fits(g, owner, s.residual as int, common.post_norm, s.post_norm, rows);
    residual_fits(g, s.hidden as int, s.branch_output as int, s.residual, rows);
    residual_fits(g, s.residual as int, s.branch_output as int, s.hidden, rows);
}

#[verifier::rlimit(40)]
proof fn prefill_layer_fits(g: Regions, r: RunnerView, layer: LayerWeights, rows: int)
    requires
        g.buffer is PrefillScratch,
        layer_room(g, r.prefill, rows, padded(rows)),
        steps::plain_layer(layer),
        1 <= rows <= 64,
    ensures
        all_fit(g, prefill::prefill_layer(r, layer, rows), rows),
{
    let s = r.prefill;
    let owner = Owner::Target;
    let common = layer.common;
    match layer.branch {
        BranchWeights::Gdn(w) => {
            prefill_gdn_fits(g, s, w, rows);
        },
        BranchWeights::Attention(w) => {
            prefill_attention_fits(
                g,
                owner,
                branch::target_places(s),
                s.normalized,
                s.branch_output,
                w,
                r.cache(w.cache_index as int),
                rows,
            );
        },
    }
    prefill_mlp_fits(g, owner, runner::mlp_places(s), common.mlp, rows);
    norm_fits(g, owner, s.hidden as int, common.input_norm, s.normalized, rows);
    norm_fits(g, owner, s.residual as int, common.post_norm, s.post_norm, rows);
    residual_fits(g, s.hidden as int, s.branch_output as int, s.residual, rows);
    residual_fits(g, s.residual as int, s.branch_output as int, s.hidden, rows);
}

proof fn decode_layers_fit(
    g: Regions,
    r: RunnerView,
    table: SlotTable,
    n: int,
    rows: int,
    capture: bool,
    stages: Stages,
)
    requires
        g.buffer is Scratch,
        layer_room(g, r.scratch, rows, rows),
        names::is_target_of(r, table),
        0 <= n <= 64,
        rows == 1 || rows == 3,
    ensures
        all_fit(g, runner::decode_layers(r, n, rows, capture, stages), rows),
    decreases n,
{
    if n > 0 {
        decode_layers_fit(g, r, table, n - 1, rows, capture, stages);
        names::layers_are_bound_by_name(Map::<Arg, int>::empty(), r, table, n - 1);
        decode_layer_fits(g, r, r.layers[n - 1], rows, capture, stages);
    }
}

proof fn prefill_layers_fit(g: Regions, r: RunnerView, table: SlotTable, n: int, rows: int)
    requires
        g.buffer is PrefillScratch,
        layer_room(g, r.prefill, rows, padded(rows)),
        names::is_target_of(r, table),
        0 <= n <= 64,
        1 <= rows <= 64,
    ensures
        all_fit(g, prefill::prefill_layers(r, n, rows), rows),
    decreases n,
{
    if n > 0 {
        prefill_layers_fit(g, r, table, n - 1, rows);
        names::layers_are_bound_by_name(Map::<Arg, int>::empty(), r, table, n - 1);
        prefill_layer_fits(g, r, r.layers[n - 1], rows);
    }
}

/// The results of a search stay in their region.
proof fn search_fits(
    g: Regions,
    row_sizes: Seq<int>,
    batch: int,
    i: int,
    input: int,
    row: int,
    rows: int,
)
    requires
        g.sizes == layout::times(row_sizes, batch),
        g.starts.len() == g.sizes.len(),
        0 <= i < row_sizes.len(),
        row_sizes[i] == 7760,
        0 <= row < batch <= 64,
        0 <= g.starts[i],
        g.starts[i] + batch * 7760 <= usize::MAX,
    ensures
        fits(g, dispatch::argmax(g.buffer, input, g.starts[i] + row * 7760), rows),
{
    let base = g.starts[i] + row * 7760;
    readback::row_fits(row, batch, 7760);
    assert(g.sizes[i] == batch * 7760);
    assert(is_room(g, base, 3880) && is_room(g, base + 3880, 3880)) by {
        reveal(is_room);
    }
    argmax_fits(g, input, base, rows);
}

/// In a pass over one row, or three, every run stays in the region of the tensor that it
/// writes, whichever parts of the pass are run.
#[verifier::rlimit(40)]
pub proof fn decoding_stays_in_its_regions(
    r: RunnerView,
    table: SlotTable,
    rows: int,
    capture: bool,
    stages: Stages,
    argmax: bool,
)
    requires
        r.well_formed(),
        names::is_target_of(r, table),
        rows == 1 || rows == 3,
    ensures
        all_fit(
            regions_of(r.scratch, BufferId::Scratch, 3),
            runner::decode_plan(r, rows, capture, stages, argmax),
            rows,
        ),
{
    let s = r.scratch;
    let g = regions_of(s, BufferId::Scratch, 3);
    names::layers_are_bound_by_name(Map::<Arg, int>::empty(), r, table, 0);
    names::ends_are_bound_by_name(Map::<Arg, int>::empty(), r, table);
    layers_have_room(s, BufferId::Scratch, 3, rows, rows);
    embed_fits(g, s.token as int, r.embed, s.hidden, rows);
    decode_layers_fit(g, r, table, 64, rows, capture, stages);
    norm_fits(g, Owner::Target, s.hidden as int, r.final_norm, s.normalized, rows);
    qmv_fits(g, Owner::Target, s.normalized as int, r.head, s.logits, rows);
    layout::scratch_bounds(s, 3);
    let searches = runner::argmax_rows(BufferId::Scratch, s, rows);
    assert forall|i: int| 0 <= i < searches.len() implies fits(g, #[trigger] searches[i], rows) by {
        assert(g.starts[25] == s.argmax_partial);
        search_fits(g, layout::scratch_rows(), 3, 25, s.logits + i * 993_280, i, rows);
    }
}

/// In a pass over the tokens of a prompt, every run stays in the region of the tensor that
/// it writes.
#[verifier::rlimit(40)]
pub proof fn prefilling_stays_in_its_regions(r: RunnerView, table: SlotTable, rows: int)
    requires
        r.well_formed(),
        names::is_target_of(r, table),
        1 <= rows <= 64,
    ensures
        all_fit(
            regions_of(r.prefill, BufferId::PrefillScratch, 64),
            prefill::prefill_plan(r, rows),
            rows,
        ),
{
    let s = r.prefill;
    let g = regions_of(s, BufferId::PrefillScratch, 64);
    names::layers_are_bound_by_name(Map::<Arg, int>::empty(), r, table, 0);
    names::ends_are_bound_by_name(Map::<Arg, int>::empty(), r, table);
    layers_have_room(s, BufferId::PrefillScratch, 64, rows, padded(rows));
    embed_fits(g, s.token as int, r.embed, s.hidden, rows);
    prefill_layers_fit(g, r, table, 64, rows);
    norm_fits(g, Owner::Target, s.hidden as int, r.final_norm, s.normalized, rows);
    gemm_fits(g, Owner::Target, rows, s.normalized as int, r.head, s.logits);
    layout::scratch_bounds(s, 64);
    let searches = runner::argmax_rows(BufferId::PrefillScratch, s, rows);
    assert forall|i: int| 0 <= i < searches.len() implies fits(g, #[trigger] searches[i], rows) by {
        assert(g.starts[25] == s.argmax_partial);
        search_fits(g, layout::scratch_rows(), 64, 25, s.logits + i * 993_280, i, rows);
    }
}

// ---------------------------------------------------------------------------
// The drafter
// ---------------------------------------------------------------------------

/// The regions of a scratch memory of the drafter.
pub open spec fn mtp_regions_of(s: MtpScratchLayout, buffer: BufferId, batch: int) -> Regions {
    Regions {
        buffer,
        starts: s.starts(),
        sizes: layout::times(layout::mtp_scratch_rows(), batch),
    }
}

/// There is room for all tensors of the drafter.
pub open spec fn mtp_room(g: Regions, s: MtpScratchLayout, rows: int, given: int) -> bool {
    &&& attention_room(g, mtp::attention_places(s), s.branch_output, rows, given)
    &&& mlp_room(g, mtp::mlp_places(s), rows, given)
    &&& is_room(g, s.token_embed as int, rows * 10_240)
    &&& is_room(g, s.pre_fc as int, rows * 10_240)
    &&& is_room(g, s.pre_fc_hidden as int, rows * 10_240)
    &&& is_room(g, s.fc_input as int, rows * 20_480)
    &&& is_room(g, s.fc_output as int, given * 20_480)
    &&& is_room(g, s.hidden as int, rows * 10_240)
    &&& is_room(g, s.normalized as int, rows * 10_240)
    &&& is_room(g, s.residual as int, rows * 10_240)
    &&& is_room(g, s.post_norm as int, rows * 10_240)
    &&& is_room(g, s.logits as int, given * 993_280)
}

/// The scratch memory of the drafter has room for all its tensors.
#[verifier::rlimit(40)]
proof fn drafter_has_room(s: MtpScratchLayout, buffer: BufferId, batch: int, rows: int, given: int)
    requires
        0 <= rows <= given <= batch,
    ensures
        mtp_room(mtp_regions_of(s, buffer, batch), s, rows, given),
{
    let g = mtp_regions_of(s, buffer, batch);
    let z = layout::mtp_scratch_rows();
    region_is_room(g, z, batch, 1, rows, 10_240);
    region_is_room(g, z, batch, 3, rows, 10_240);
    region_is_room(g, z, batch, 4, rows, 10_240);
    region_is_room(g, z, batch, 5, rows, 20_480);
    region_is_room(g, z, batch, 6, given, 20_480);
    region_is_room(g, z, batch, 7, rows, 10_240);
    region_is_room(g, z, batch, 8, rows, 10_240);
    region_is_room(g, z, batch, 9, given, 20_480);
    region_is_room(g, z, batch, 10, rows, 10_240);
    region_is_room(g, z, batch, 11, rows, 10_240);
    region_is_room(g, z, batch, 12, given, 69_632);
    region_is_room(g, z, batch, 13, given, 69_632);
    region_is_room(g, z, batch, 14, rows, 34_816);
    region_is_room(g, z, batch, 15, given, 49_152);
    region_is_room(g, z, batch, 16, given, 4096);
    region_is_room(g, z, batch, 17, given, 4096);
    region_is_room(g, z, batch, 18, rows, 12_288);
    region_is_room(g, z, batch, 19, rows, 24_576);
    region_is_room(g, z, batch, 20, rows, 24_576);
    region_is_room(g, z, batch, 21, rows, 12_288);
    region_is_room(g, z, batch, 22, given, 993_280);
}

/// In a pass of the drafter over one position, every run stays in the region of the tensor
/// that it writes.
#[verifier::rlimit(40)]
pub proof fn drafting_stays_in_its_regions(
    r: MtpView,
    table: SlotTable,
    target: SlotTable,
    argmax: bool,
)
    requires
        r.well_formed(),
        names::is_drafter_of(r, table, target),
    ensures
        all_fit(
            mtp_regions_of(r.scratch, BufferId::Scratch, 1),
            mtp::draft_plan(r, argmax),
            1,
        ),
{
    let s = r.scratch;
    let w = r.weights;
    let g = mtp_regions_of(s, BufferId::Scratch, 1);
    let owner = Owner::Mtp;
    names::drafter_is_bound_by_name(Map::<Arg, int>::empty(), r, table, target);
    drafter_has_room(s, BufferId::Scratch, 1, 1, 1);
    embed_fits(g, s.token as int, r.embed, s.token_embed, 1);
    norm_fits(g, owner, s.token_embed as int, w.pre_fc_norm_embedding, s.pre_fc, 1);
    norm_fits(g, owner, s.target_hidden as int, w.pre_fc_norm_hidden, s.pre_fc_hidden, 1);
    qmv_fits(g, owner, s.pre_fc as int, w.fc, s.fc_output, 1);
    residual_fits(g, s.fc_output as int, 0, s.hidden, 1);
    norm_fits(g, owner, s.hidden as int, w.input_norm, s.normalized, 1);
    attention_fits(
        g,
        owner,
        mtp::attention_places(s),
        s.normalized,
        s.branch_output,
        w.attention,
        r.cache(),
        1,
    );
    mlp_fits(g, owner, mtp::mlp_places(s), w.mlp, 1);
    residual_fits(g, s.hidden as int, s.branch_output as int, s.residual, 1);
    residual_fits(g, s.residual as int, s.branch_output as int, s.hidden, 1);
    norm_fits(g, owner, s.residual as int, w.post_norm, s.post_norm, 1);
    norm_fits(g, owner, s.hidden as int, w.final_norm, s.normalized, 1);
    qmv_fits(g, Owner::Target, s.normalized as int, r.head, s.logits, 1);
    layout::mtp_scratch_bounds(s, 1);
    assert(g.starts[23] == s.argmax_partial);
    search_fits(g, layout::mtp_scratch_rows(), 1, 23, s.logits as int, 0, 1);
}

/// In a pass of the drafter over many positions, every run stays in the region of the tensor
/// that it writes.
#[verifier::rlimit(40)]
pub proof fn drafter_prefilling_stays_in_its_regions(
    r: MtpView,
    table: SlotTable,
    target: SlotTable,
    rows: int,
)
    requires
        r.well_formed(),
        names::is_drafter_of(r, table, target),
        1 <= rows <= 64,
    ensures
        all_fit(
            mtp_regions_of(r.prefill, BufferId::PrefillScratch, 64),
            mtp::prefill_plan(r, rows),
            rows,
        ),
{
    let s = r.prefill;
    let w = r.weights;
    let g = mtp_regions_of(s, BufferId::PrefillScratch, 64);
    let owner = Owner::Mtp;
    names::drafter_is_bound_by_name(Map::<Arg, int>::empty(), r, table, target);
    drafter_has_room(s, BufferId::PrefillScratch, 64, rows, padded(rows));
    embed_fits(g, s.token as int, r.embed, s.token_embed, rows);
    let (e, t) = (s.token_embed as int, s.target_hidden as int);
    norm_half_fits(g, owner, e, w.pre_fc_norm_embedding, s.fc_input, 0, rows);
    norm_half_fits(g, owner, t, w.pre_fc_norm_hidden, s.fc_input, 5120, rows);
    gemm_fits(g, owner, rows, s.fc_input as int, w.fc, s.fc_output);
    residual_fits(g, s.fc_output as int, 0, s.hidden, rows);
    norm_fits(g, owner, s.hidden as int, w.input_norm, s.normalized, rows);
    prefill_attention_fits(
        g,
        owner,
        mtp::attention_places(s),
        s.normalized,
        s.branch_output,
        w.attention,
        r.cache(),
        rows,
    );
    prefill_mlp_fits(g, owner, mtp::mlp_places(s), w.mlp, rows);
    residual_fits(g, s.hidden as int, s.branch_output as int, s.residual, rows);
    residual_fits(g, s.residual as int, s.branch_output as int, s.hidden, rows);
    norm_fits(g, owner, s.residual as int, w.post_norm, s.post_norm, rows);
    norm_fits(g, owner, s.hidden as int, w.final_norm, s.normalized, rows);
    gemm_fits(g, Owner::Target, rows, s.normalized as int, r.head, s.logits);
    layout::mtp_scratch_bounds(s, 64);
    let searches = mtp::argmax_rows(s, rows);
    assert forall|i: int| 0 <= i < searches.len() implies fits(g, #[trigger] searches[i], rows) by {
        assert(g.starts[23] == s.argmax_partial);
        search_fits(g, layout::mtp_scratch_rows(), 64, 23, s.logits + i * 993_280, i, rows);
    }
}

} // verus!
