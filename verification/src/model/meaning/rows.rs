//! That every run of a pass takes all of its rows, and all numbers of each.

use vstd::prelude::*;

use crate::model::branch;
use crate::model::branch::{
    AttentionCache, AttentionMode, AttentionPlaces, AttentionWeights, GdnWeights, MlpPlaces,
    MlpWeights,
};
use crate::model::command::{
    Arg, BufferId, DispatchView, Extent, Kernel, MTLSize, Owner,
};
use crate::model::dispatch;
use crate::model::dispatch::{Projections, Q4Linear};
use crate::model::layers::{BranchWeights, LayerWeights, MtpWeights};
use crate::model::layout::{MtpScratchLayout, ScratchLayout};
use crate::model::meaning;
use crate::model::meaning::names;
use crate::model::meaning::steps;
use crate::model::mtp;
use crate::model::mtp::MtpView;
use crate::model::runner;
use crate::model::runner::prefill;
use crate::model::runner::{RunnerView, Stages};
use crate::model::weights::SlotTable;

verus! {

/// So many threads, or more, side by side, on so many lines, in groups of so many.
pub open spec fn has_threads(d: DispatchView, width: int, height: int, group: int) -> bool {
    match d.extent {
        Extent::Threads { grid, group: each } => grid.width >= width && grid.height == height
            && grid.depth == 1 && is_line(each, group),
        Extent::Groups { .. } => false,
    }
}

/// So many groups side by side, on so many lines, each of so many threads.
pub open spec fn has_groups(d: DispatchView, width: int, height: int, group: int) -> bool {
    match d.extent {
        Extent::Threads { .. } => false,
        Extent::Groups { grid, group: each } => grid.width == width && grid.height == height
            && grid.depth == 1 && is_line(each, group),
    }
}

/// Groups side by side for all items, so many items each, on so many lines, each of so many
/// threads.
pub open spec fn has_groups_for(
    d: DispatchView,
    items: int,
    each: int,
    height: int,
    group: int,
) -> bool {
    match d.extent {
        Extent::Threads { .. } => false,
        Extent::Groups { grid, group: threads } => grid.width * each >= items && grid.height
            == height && grid.depth == 1 && is_line(threads, group),
    }
}

/// So many threads in a line.
pub open spec fn is_line(size: MTLSize, width: int) -> bool {
    size.width == width && size.height == 1 && size.depth == 1
}

/// A run of a kernel takes `rows` rows, and all numbers of each. A kernel that goes number
/// by number has a thread for each and is told how many they are; one that goes row by row
/// has a group of threads, or a line of them, for each; one that multiplies has a group for
/// each sixteen numbers that come out, for a fixed number of rows or for each sixteen rows.
/// How many threads work together in a group is the kernel's.
#[verifier::opaque]
pub open spec fn takes_rows(d: DispatchView, rows: int) -> bool {
    let args = d.args;
    match d.kernel {
        Kernel::Embed => meaning::word(args[5], 0) == 5120 && has_threads(d, 5120, rows, 256),
        Kernel::Rms => meaning::word(args[3], 0) == 5120 && has_groups(d, rows, 1, 256),
        Kernel::RmsStride => meaning::word(args[3], 0) == 5120 && meaning::word(args[5], 0)
            == 10_240 && has_groups(d, rows, 1, 256),
        Kernel::Residual => meaning::word(args[3], 0) == rows * 5120 && has_threads(
            d,
            rows * 5120,
            1,
            1024,
        ),
        Kernel::Silu => meaning::word(args[3], 0) == rows * 17_408 && has_threads(
            d,
            rows * 17_408,
            1,
            1024,
        ),
        Kernel::CastBf16 => meaning::word(args[2], 0) == rows * 5120 && has_threads(
            d,
            rows * 5120,
            1,
            256,
        ),
        Kernel::AttnGate => meaning::word(args[3], 0) == rows * 6144 && has_threads(
            d,
            rows * 6144,
            1,
            256,
        ),
        Kernel::Qmv => rows == 1 && has_groups_for(d, meaning::word(args[5], 0) as int, 16, 1, 128),
        Kernel::QmvWide3 => rows == 3 && has_groups_for(
            d,
            meaning::word(args[5], 0) as int,
            16,
            1,
            128,
        ),
        Kernel::QmvFused2 => rows == 1 && gives_all(d, args.len() - 1, 2),
        Kernel::QmvFused3 => rows == 1 && gives_all(d, args.len() - 1, 3),
        Kernel::QmvFused4 => rows == 1 && gives_all(d, args.len() - 1, 4),
        Kernel::QmvFused2Wide3 => rows == 3 && gives_all(d, args.len() - 1, 2),
        Kernel::QmvFused3Wide3 => rows == 3 && gives_all(d, args.len() - 1, 3),
        Kernel::QmvFused4Wide3 => rows == 3 && gives_all(d, args.len() - 1, 4),
        Kernel::Q4Gemm => {
            let padded = meaning::word(args[5], 2);
            &&& padded % 16 == 0
            &&& rows <= padded < rows + 16
            &&& match d.extent {
                Extent::Threads { .. } => false,
                Extent::Groups { grid, group } => grid.width * 16 == padded && grid.height * 32
                    >= meaning::word(args[5], 0) && grid.depth == 1 && is_line(group, 32),
            }
        },
        Kernel::GdnConv => meaning::word(args[14], 0) == rows && has_groups(d, 48, rows, 32),
        Kernel::GdnUpdateConv => meaning::word(args[2], 0) == 10_240 && meaning::word(args[3], 0)
            == rows && has_threads(d, 10_240, 1, 256),
        Kernel::GdnRecurrence => meaning::word(args[8], 0) == rows && match d.extent {
            Extent::Threads { grid, group } => grid.width == 32 && grid.height == 128 && grid.depth
                == 48 && is_line(group, 32),
            Extent::Groups { .. } => false,
        },
        Kernel::GdnGate => meaning::word(args[4], 0) == 48 && meaning::word(args[4], 1) == 128
            && meaning::word(args[4], 2) == rows && has_groups(d, 48, rows, 32),
        Kernel::AttnQ => rows == 1 && has_groups(d, 24, 1, 256),
        Kernel::AttnQBlock3 => rows == 3 && has_groups(d, 24, 3, 256),
        Kernel::AttnQPrefill => meaning::word(args[6], 0) == rows && has_groups(d, 24, rows, 256),
        Kernel::AttnStore => rows == 1 && has_groups(d, 4, 1, 256),
        Kernel::AttnStoreBlock3 => rows == 3 && has_groups(d, 4, 3, 256),
        Kernel::AttnStorePrefill => meaning::word(args[8], 0) == rows && has_groups(d, 4, rows, 256),
        Kernel::AttnSdpa => rows == 1 && has_groups(d, 24, 1, 32),
        Kernel::AttnSdpaBlock3 => rows == 3 && has_groups(d, 24, 3, 32),
        Kernel::AttnSdpaPrefill => meaning::word(args[6], 0) == rows && has_groups(d, 24, rows, 32),
        Kernel::Argmax => meaning::word(args[3], 0) == 248_320 && has_groups_for(
            d,
            248_320,
            256,
            1,
            256,
        ),
        Kernel::Clear | Kernel::CopyBytes => true,
    }
}

/// There is a group of threads for each sixteen numbers that come out of each of some linear
/// maps.
pub open spec fn gives_all(d: DispatchView, dims: int, count: int) -> bool {
    forall|i: int|
        0 <= i < count ==> has_groups_for(
            d,
            #[trigger] meaning::word(d.args[dims], i) as int,
            16,
            count,
            128,
        )
}

/// Every run of a list takes all rows.
pub open spec fn all_take_rows(plan: Seq<DispatchView>, rows: int) -> bool {
    forall|i: int| 0 <= i < plan.len() ==> takes_rows(#[trigger] plan[i], rows)
}

/// The map's numbers can be told.
pub open spec fn is_sized(linear: Q4Linear) -> bool {
    linear.output <= u32::MAX
}

proof fn sixteens_suffice(n: int)
    requires
        0 <= n,
    ensures
        dispatch::sixteens(n) * 16 >= n,
        dispatch::sixteens(n) * 16 < n + 16,
{
}

proof fn norm_takes_rows(
    scratch: BufferId,
    owner: Owner,
    input: int,
    scale: dispatch::TensorRef,
    output: int,
    column: int,
    rows: int,
)
    requires
        1 <= rows <= 64,
    ensures
        takes_rows(dispatch::norm(scratch, owner, input, scale, output, rows), rows),
        takes_rows(dispatch::norm_half(scratch, owner, input, scale, output, column, rows), rows),
{
    reveal(takes_rows);
}

proof fn residual_takes_rows(scratch: BufferId, a: int, b: int, c: int, rows: int)
    requires
        1 <= rows <= 64,
    ensures
        takes_rows(dispatch::residual(scratch, a, b, c, rows), rows),
        takes_rows(dispatch::silu(scratch, a, b, c, rows), rows),
        takes_rows(dispatch::cast(scratch, a, b, rows * 5120), rows),
        takes_rows(dispatch::argmax(scratch, a, b), rows),
{
    reveal(takes_rows);
}

proof fn embed_takes_rows(scratch: BufferId, tokens: int, table: Q4Linear, output: int, rows: int)
    requires
        1 <= rows <= 64,
    ensures
        takes_rows(dispatch::embed(scratch, tokens, table, output, rows), rows),
{
    reveal(takes_rows);
}

proof fn qmv_takes_rows(
    scratch: BufferId,
    owner: Owner,
    input: int,
    linear: Q4Linear,
    output: int,
    rows: int,
)
    requires
        is_sized(linear),
        rows == 1 || rows == 3,
    ensures
        takes_rows(dispatch::qmv(scratch, owner, input, linear, output, rows), rows),
{
    reveal(takes_rows);
    sixteens_suffice(linear.output as int);
}

proof fn gemm_takes_rows(
    scratch: BufferId,
    owner: Owner,
    rows: int,
    input: int,
    linear: Q4Linear,
    output: int,
)
    requires
        is_sized(linear),
        1 <= rows <= 64,
    ensures
        takes_rows(dispatch::gemm(scratch, owner, rows, input, linear, output), rows),
{
    reveal(takes_rows);
    sixteens_suffice(rows);
}

/// The widest of some linear maps is as wide as each.
proof fn widest_is_widest(maps: Projections, i: int)
    requires
        0 <= i < maps.len(),
    ensures
        maps[i].0.output <= dispatch::widest(maps) <= usize::MAX,
    decreases maps.len(),
{
    if maps.len() > 1 {
        widest_is_widest(maps.drop_last(), 0);
        if i < maps.len() - 1 {
            widest_is_widest(maps.drop_last(), i);
        }
    } else {
        assert(dispatch::widest(maps.drop_last()) == 0);
    }
}

proof fn fused_len(scratch: BufferId, owner: Owner, maps: Projections)
    ensures
        dispatch::fused_args(scratch, owner, maps).len() == 4 * maps.len(),
    decreases maps.len(),
{
    if maps.len() > 0 {
        fused_len(scratch, owner, maps.drop_last());
    }
}

#[verifier::rlimit(40)]
proof fn fused_takes_rows(
    scratch: BufferId,
    owner: Owner,
    input: int,
    maps: Projections,
    rows: int,
)
    requires
        2 <= maps.len() <= 4,
        forall|i: int| 0 <= i < maps.len() ==> is_sized((#[trigger] maps[i]).0),
        rows == 1 || rows == 3,
    ensures
        takes_rows(dispatch::qmv_fused(scratch, owner, input, maps, rows), rows),
{
    reveal(takes_rows);
    let d = dispatch::qmv_fused(scratch, owner, input, maps, rows);
    let n = maps.len() as int;
    fused_len(scratch, owner, maps);
    assert(d.args[d.args.len() - 1] == dispatch::fused_dims(maps));
    let wide = dispatch::widest(maps);
    widest_is_widest(maps, 0);
    sixteens_suffice(wide);
    assert forall|i: int| 0 <= i < n implies has_groups_for(
        d,
        #[trigger] meaning::word(d.args[d.args.len() - 1], i) as int,
        16,
        n,
        128,
    ) by {
        widest_is_widest(maps, i);
        assert(is_sized(maps[i].0));
        assert(meaning::word(d.args[d.args.len() - 1], i) == maps[i].0.output as u32);
    }
}

// ---------------------------------------------------------------------------
// The parts of a layer
// ---------------------------------------------------------------------------

#[verifier::rlimit(40)]
proof fn gdn_core_takes_rows(
    scratch: BufferId,
    s: ScratchLayout,
    w: GdnWeights,
    rows: int,
    capture: bool,
)
    requires
        1 <= rows <= 64,
    ensures
        all_take_rows(branch::gdn_core(scratch, s, w, rows, capture), rows),
{
    reveal(takes_rows);
}

#[verifier::rlimit(40)]
proof fn attention_core_takes_rows(
    mode: AttentionMode,
    scratch: BufferId,
    owner: Owner,
    p: AttentionPlaces,
    w: AttentionWeights,
    cache: AttentionCache,
    rows: int,
)
    requires
        steps::takes(mode, rows),
        1 <= rows <= 64,
    ensures
        all_take_rows(branch::attention_core(mode, scratch, owner, p, w, cache, rows), rows),
{
    reveal(takes_rows);
    let plan = branch::attention_core(mode, scratch, owner, p, w, cache, rows);
    assert(takes_rows(plan[0], rows));
    assert(takes_rows(plan[1], rows));
    assert(takes_rows(plan[2], rows));
    assert(takes_rows(plan[3], rows));
}

#[verifier::rlimit(40)]
proof fn gdn_takes_rows(s: ScratchLayout, w: GdnWeights, rows: int, capture: bool)
    requires
        steps::plain_gdn(w),
        rows == 1 || rows == 3,
    ensures
        all_take_rows(branch::gdn(s, w, rows, capture), rows),
{
    let scratch = BufferId::Scratch;
    let maps = seq![(w.qkv, s.projection), (w.z, s.aux0), (w.a, s.small0), (w.b, s.small1)];
    fused_takes_rows(scratch, Owner::Target, s.normalized as int, maps, rows);
    gdn_core_takes_rows(scratch, s, w, rows, capture);
    qmv_takes_rows(
        scratch,
        Owner::Target,
        s.gated as int,
        w.output,
        s.branch_output as int,
        rows,
    );
}

#[verifier::rlimit(40)]
proof fn prefill_gdn_takes_rows(s: ScratchLayout, w: GdnWeights, rows: int)
    requires
        steps::plain_gdn(w),
        1 <= rows <= 64,
    ensures
        all_take_rows(branch::prefill_gdn(s, w, rows), rows),
{
    let scratch = BufferId::PrefillScratch;
    let owner = Owner::Target;
    let input = s.normalized as int;
    gemm_takes_rows(scratch, owner, rows, input, w.qkv, s.projection as int);
    gemm_takes_rows(scratch, owner, rows, input, w.z, s.aux0 as int);
    gemm_takes_rows(scratch, owner, rows, input, w.a, s.small0 as int);
    gemm_takes_rows(scratch, owner, rows, input, w.b, s.small1 as int);
    gdn_core_takes_rows(scratch, s, w, rows, false);
    gemm_takes_rows(scratch, owner, rows, s.gated as int, w.output, s.branch_output as int);
}

#[verifier::rlimit(40)]
proof fn attention_takes_rows(
    owner: Owner,
    p: AttentionPlaces,
    normalized: usize,
    output: usize,
    w: AttentionWeights,
    cache: AttentionCache,
    rows: int,
)
    requires
        steps::plain_attention(w),
        rows == 1 || rows == 3,
    ensures
        all_take_rows(
            branch::attention(owner, p, normalized, output, w, cache, rows),
            rows,
        ),
{
    let scratch = BufferId::Scratch;
    let mode = if rows == 3 {
        AttentionMode::Block3
    } else {
        AttentionMode::Decode
    };
    let maps = seq![(w.q, p.projection), (w.k, p.key), (w.v, p.value)];
    fused_takes_rows(scratch, owner, normalized as int, maps, rows);
    attention_core_takes_rows(mode, scratch, owner, p, w, cache, rows);
    qmv_takes_rows(scratch, owner, p.gated as int, w.output, output as int, rows);
}

#[verifier::rlimit(40)]
proof fn prefill_attention_takes_rows(
    owner: Owner,
    p: AttentionPlaces,
    normalized: usize,
    output: usize,
    w: AttentionWeights,
    cache: AttentionCache,
    rows: int,
)
    requires
        steps::plain_attention(w),
        1 <= rows <= 64,
    ensures
        all_take_rows(
            branch::prefill_attention(owner, p, normalized, output, w, cache, rows),
            rows,
        ),
{
    let scratch = BufferId::PrefillScratch;
    let input = normalized as int;
    gemm_takes_rows(scratch, owner, rows, input, w.q, p.projection as int);
    gemm_takes_rows(scratch, owner, rows, input, w.k, p.key as int);
    gemm_takes_rows(scratch, owner, rows, input, w.v, p.value as int);
    attention_core_takes_rows(AttentionMode::Prefill, scratch, owner, p, w, cache, rows);
    gemm_takes_rows(scratch, owner, rows, p.gated as int, w.output, output as int);
}

#[verifier::rlimit(40)]
proof fn mlp_takes_rows(owner: Owner, p: MlpPlaces, w: MlpWeights, rows: int)
    requires
        steps::plain_mlp(w),
        1 <= rows <= 64,
    ensures
        rows == 1 || rows == 3 ==> all_take_rows(branch::mlp(owner, p, w, rows), rows),
        all_take_rows(branch::prefill_mlp(owner, p, w, rows), rows),
{
    let many = BufferId::PrefillScratch;
    gemm_takes_rows(many, owner, rows, p.input as int, w.gate, p.gate as int);
    gemm_takes_rows(many, owner, rows, p.input as int, w.up, p.up as int);
    gemm_takes_rows(many, owner, rows, p.active as int, w.down, p.output as int);
    residual_takes_rows(many, p.gate as int, p.up as int, p.active as int, rows);
    if rows == 1 || rows == 3 {
        let few = BufferId::Scratch;
        let maps = seq![(w.gate, p.gate), (w.up, p.up)];
        fused_takes_rows(few, owner, p.input as int, maps, rows);
        residual_takes_rows(few, p.gate as int, p.up as int, p.active as int, rows);
        qmv_takes_rows(few, owner, p.active as int, w.down, p.output as int, rows);
    }
}

#[verifier::rlimit(40)]
proof fn decode_layer_takes_rows(
    r: RunnerView,
    layer: LayerWeights,
    rows: int,
    capture: bool,
    stages: Stages,
)
    requires
        steps::plain_layer(layer),
        rows == 1 || rows == 3,
    ensures
        all_take_rows(runner::decode_layer(r, layer, rows, capture, stages), rows),
{
    let s = r.scratch;
    let scratch = BufferId::Scratch;
    let owner = Owner::Target;
    let common = layer.common;
    match layer.branch {
        BranchWeights::Gdn(w) => {
            gdn_takes_rows(s, w, rows, capture);
        },
        BranchWeights::Attention(w) => {
            attention_takes_rows(
                owner,
                branch::target_places(s),
                s.normalized,
                s.branch_output,
                w,
                r.cache(w.cache_index as int),
                rows,
            );
        },
    }
    mlp_takes_rows(owner, runner::mlp_places(s), common.mlp, rows);
    norm_takes_rows(
        scratch,
        owner,
        s.hidden as int,
        common.input_norm,
        s.normalized as int,
        0,
        rows,
    );
    norm_takes_rows(
        scratch,
        owner,
        s.residual as int,
        common.post_norm,
        s.post_norm as int,
        0,
        rows,
    );
    let (h, b, sum) = (s.hidden as int, s.branch_output as int, s.residual as int);
    residual_takes_rows(scratch, h, b, sum, rows);
    residual_takes_rows(scratch, sum, b, h, rows);
}

#[verifier::rlimit(40)]
proof fn prefill_layer_takes_rows(r: RunnerView, layer: LayerWeights, rows: int)
    requires
        steps::plain_layer(layer),
        1 <= rows <= 64,
    ensures
        all_take_rows(prefill::prefill_layer(r, layer, rows), rows),
{
    let s = r.prefill;
    let scratch = BufferId::PrefillScratch;
    let owner = Owner::Target;
    let common = layer.common;
    match layer.branch {
        BranchWeights::Gdn(w) => {
            prefill_gdn_takes_rows(s, w, rows);
        },
        BranchWeights::Attention(w) => {
            prefill_attention_takes_rows(
                owner,
                branch::target_places(s),
                s.normalized,
                s.branch_output,
                w,
                r.cache(w.cache_index as int),
                rows,
            );
        },
    }
    mlp_takes_rows(owner, runner::mlp_places(s), common.mlp, rows);
    norm_takes_rows(
        scratch,
        owner,
        s.hidden as int,
        common.input_norm,
        s.normalized as int,
        0,
        rows,
    );
    norm_takes_rows(
        scratch,
        owner,
        s.residual as int,
        common.post_norm,
        s.post_norm as int,
        0,
        rows,
    );
    let (h, b, sum) = (s.hidden as int, s.branch_output as int, s.residual as int);
    residual_takes_rows(scratch, h, b, sum, rows);
    residual_takes_rows(scratch, sum, b, h, rows);
}

proof fn decode_layers_take_rows(
    r: RunnerView,
    table: SlotTable,
    n: int,
    rows: int,
    capture: bool,
    stages: Stages,
)
    requires
        names::is_target_of(r, table),
        0 <= n <= 64,
        rows == 1 || rows == 3,
    ensures
        all_take_rows(runner::decode_layers(r, n, rows, capture, stages), rows),
    decreases n,
{
    if n > 0 {
        decode_layers_take_rows(r, table, n - 1, rows, capture, stages);
        names::layers_are_bound_by_name(Map::<Arg, int>::empty(), r, table, n - 1);
        decode_layer_takes_rows(r, r.layers[n - 1], rows, capture, stages);
    }
}

proof fn prefill_layers_take_rows(r: RunnerView, table: SlotTable, n: int, rows: int)
    requires
        names::is_target_of(r, table),
        0 <= n <= 64,
        1 <= rows <= 64,
    ensures
        all_take_rows(prefill::prefill_layers(r, n, rows), rows),
    decreases n,
{
    if n > 0 {
        prefill_layers_take_rows(r, table, n - 1, rows);
        names::layers_are_bound_by_name(Map::<Arg, int>::empty(), r, table, n - 1);
        prefill_layer_takes_rows(r, r.layers[n - 1], rows);
    }
}

// ---------------------------------------------------------------------------
// Whole passes
// ---------------------------------------------------------------------------

/// Every run of a pass over one row, or three, takes all of them, whichever parts of the
/// pass are run.
#[verifier::rlimit(40)]
pub proof fn decoding_takes_all_rows(
    r: RunnerView,
    table: SlotTable,
    rows: int,
    capture: bool,
    stages: Stages,
    argmax: bool,
)
    requires
        names::is_target_of(r, table),
        rows == 1 || rows == 3,
    ensures
        all_take_rows(runner::decode_plan(r, rows, capture, stages, argmax), rows),
        argmax ==> runner::argmax_rows(BufferId::Scratch, r.scratch, rows).len() == rows,
{
    let s = r.scratch;
    let scratch = BufferId::Scratch;
    names::layers_are_bound_by_name(Map::<Arg, int>::empty(), r, table, 0);
    names::ends_are_bound_by_name(Map::<Arg, int>::empty(), r, table);
    embed_takes_rows(scratch, s.token as int, r.embed, s.hidden as int, rows);
    decode_layers_take_rows(r, table, 64, rows, capture, stages);
    norm_takes_rows(
        scratch,
        Owner::Target,
        s.hidden as int,
        r.final_norm,
        s.normalized as int,
        0,
        rows,
    );
    qmv_takes_rows(
        scratch,
        Owner::Target,
        s.normalized as int,
        r.head,
        s.logits as int,
        rows,
    );
    searches_take_rows(scratch, s, rows);
}

/// The searches go through all logits of a row.
proof fn searches_take_rows(scratch: BufferId, s: ScratchLayout, rows: int)
    requires
        1 <= rows <= 64,
    ensures
        all_take_rows(runner::argmax_rows(scratch, s, rows), rows),
{
    let searches = runner::argmax_rows(scratch, s, rows);
    assert forall|i: int| 0 <= i < searches.len() implies takes_rows(
        #[trigger] searches[i],
        rows,
    ) by {
        let (input, base) = (s.logits + i * 993_280, s.argmax_partial + i * 7760);
        residual_takes_rows(scratch, input, base, 0, rows);
    }
}

/// Every run of a pass over the tokens of a prompt takes all of them.
#[verifier::rlimit(40)]
pub proof fn prefilling_takes_all_rows(r: RunnerView, table: SlotTable, rows: int)
    requires
        names::is_target_of(r, table),
        1 <= rows <= 64,
    ensures
        all_take_rows(prefill::prefill_plan(r, rows), rows),
        runner::argmax_rows(BufferId::PrefillScratch, r.prefill, rows).len() == rows,
{
    let s = r.prefill;
    let scratch = BufferId::PrefillScratch;
    names::layers_are_bound_by_name(Map::<Arg, int>::empty(), r, table, 0);
    names::ends_are_bound_by_name(Map::<Arg, int>::empty(), r, table);
    embed_takes_rows(scratch, s.token as int, r.embed, s.hidden as int, rows);
    prefill_layers_take_rows(r, table, 64, rows);
    norm_takes_rows(
        scratch,
        Owner::Target,
        s.hidden as int,
        r.final_norm,
        s.normalized as int,
        0,
        rows,
    );
    gemm_takes_rows(
        scratch,
        Owner::Target,
        rows,
        s.normalized as int,
        r.head,
        s.logits as int,
    );
    searches_take_rows(scratch, s, rows);
}

/// What a pass of the drafter does behind its attention branch.
#[verifier::rlimit(40)]
proof fn behind_attention_takes_rows(
    scratch: BufferId,
    s: MtpScratchLayout,
    w: MtpWeights,
    mlp: Seq<DispatchView>,
    rows: int,
)
    requires
        all_take_rows(mlp, rows),
        1 <= rows <= 64,
    ensures
        all_take_rows(mtp::behind_attention(scratch, s, w, mlp, rows), rows),
{
    let owner = Owner::Mtp;
    let (h, b, sum) = (s.hidden as int, s.branch_output as int, s.residual as int);
    residual_takes_rows(scratch, h, b, sum, rows);
    residual_takes_rows(scratch, sum, b, h, rows);
    norm_takes_rows(scratch, owner, sum, w.post_norm, s.post_norm as int, 0, rows);
    norm_takes_rows(scratch, owner, h, w.final_norm, s.normalized as int, 0, rows);
}

/// Every run of a pass of the drafter over one position takes it whole.
#[verifier::rlimit(40)]
pub proof fn drafting_takes_the_row(
    r: MtpView,
    table: SlotTable,
    target: SlotTable,
    argmax: bool,
)
    requires
        names::is_drafter_of(r, table, target),
    ensures
        all_take_rows(mtp::draft_plan(r, argmax), 1),
{
    let s = r.scratch;
    let w = r.weights;
    let scratch = BufferId::Scratch;
    let owner = Owner::Mtp;
    names::drafter_is_bound_by_name(Map::<Arg, int>::empty(), r, table, target);
    embed_takes_rows(scratch, s.token as int, r.embed, s.token_embed as int, 1);
    let (e, t) = (s.token_embed as int, s.target_hidden as int);
    norm_takes_rows(scratch, owner, e, w.pre_fc_norm_embedding, s.pre_fc as int, 0, 1);
    norm_takes_rows(scratch, owner, t, w.pre_fc_norm_hidden, s.pre_fc_hidden as int, 0, 1);
    qmv_takes_rows(scratch, owner, s.pre_fc as int, w.fc, s.fc_output as int, 1);
    residual_takes_rows(scratch, s.fc_output as int, s.hidden as int, 0, 1);
    norm_takes_rows(scratch, owner, s.hidden as int, w.input_norm, s.normalized as int, 0, 1);
    attention_takes_rows(
        owner,
        mtp::attention_places(s),
        s.normalized,
        s.branch_output,
        w.attention,
        r.cache(),
        1,
    );
    mlp_takes_rows(owner, mtp::mlp_places(s), w.mlp, 1);
    let mlp = branch::mlp(owner, mtp::mlp_places(s), w.mlp, 1);
    behind_attention_takes_rows(scratch, s, w, mlp, 1);
    qmv_takes_rows(scratch, Owner::Target, s.normalized as int, r.head, s.logits as int, 1);
    residual_takes_rows(scratch, s.logits as int, s.argmax_partial as int, 0, 1);
}

/// Every run of a pass of the drafter over many positions takes all of them.
#[verifier::rlimit(40)]
pub proof fn drafter_prefilling_takes_all_rows(
    r: MtpView,
    table: SlotTable,
    target: SlotTable,
    rows: int,
)
    requires
        names::is_drafter_of(r, table, target),
        1 <= rows <= 64,
    ensures
        all_take_rows(mtp::prefill_plan(r, rows), rows),
        mtp::argmax_rows(r.prefill, rows).len() == rows,
{
    let s = r.prefill;
    let w = r.weights;
    let scratch = BufferId::PrefillScratch;
    let owner = Owner::Mtp;
    names::drafter_is_bound_by_name(Map::<Arg, int>::empty(), r, table, target);
    embed_takes_rows(scratch, s.token as int, r.embed, s.token_embed as int, rows);
    let (e, t, f) = (s.token_embed as int, s.target_hidden as int, s.fc_input as int);
    norm_takes_rows(scratch, owner, e, w.pre_fc_norm_embedding, f, 0, rows);
    norm_takes_rows(scratch, owner, t, w.pre_fc_norm_hidden, f, 5120, rows);
    gemm_takes_rows(scratch, owner, rows, f, w.fc, s.fc_output as int);
    residual_takes_rows(scratch, s.fc_output as int, s.hidden as int, 0, rows);
    norm_takes_rows(scratch, owner, s.hidden as int, w.input_norm, s.normalized as int, 0, rows);
    prefill_attention_takes_rows(
        owner,
        mtp::attention_places(s),
        s.normalized,
        s.branch_output,
        w.attention,
        r.cache(),
        rows,
    );
    mlp_takes_rows(owner, mtp::mlp_places(s), w.mlp, rows);
    let mlp = branch::prefill_mlp(owner, mtp::mlp_places(s), w.mlp, rows);
    behind_attention_takes_rows(scratch, s, w, mlp, rows);
    gemm_takes_rows(scratch, Owner::Target, rows, s.normalized as int, r.head, s.logits as int);
    let searches = mtp::argmax_rows(s, rows);
    assert forall|i: int| 0 <= i < searches.len() implies takes_rows(
        #[trigger] searches[i],
        rows,
    ) by {
        let (input, base) = (s.logits + i * 993_280, s.argmax_partial + i * 7760);
        residual_takes_rows(scratch, input, base, 0, rows);
    }
}

// ---------------------------------------------------------------------------
// Bytes
// ---------------------------------------------------------------------------

/// How many threads a run has in all.
pub open spec fn thread_count(d: DispatchView) -> int {
    match d.extent {
        Extent::Threads { grid, .. } => grid.width * grid.height * grid.depth,
        Extent::Groups { .. } => 0,
    }
}

/// A run that clears has a thread for each byte, and one that copies a thread for each
/// sixteen, and both are told how many bytes they are.
pub proof fn bytes_are_cleared_and_copied_to_the_last(
    input: BufferId,
    offset: int,
    output: BufferId,
    len: usize,
)
    ensures
        ({
            let clear = dispatch::clear(output, len as int);
            let copy = dispatch::copy(input, offset, output, len as int);
            &&& clear.args[0] == (Arg::Buffer { buffer: output, offset: 0 })
            &&& clear.args[1] == Arg::Long(len as u64)
            &&& thread_count(clear) >= len
            &&& copy.args[1] == (Arg::Buffer { buffer: output, offset: 0 })
            &&& copy.args[2] == Arg::Long(len as u64)
            &&& 16 * thread_count(copy) >= len
        }),
{
    enough_threads(len as int);
    sixteens_suffice(len as int);
    enough_threads(dispatch::sixteens(len as int));
}

/// Rows of threads are enough for all of them.
proof fn enough_threads(count: int)
    requires
        0 <= count <= u64::MAX,
    ensures
        match dispatch::rows_of_threads(count) {
            Extent::Threads { grid, .. } => grid.width * grid.height * grid.depth >= count,
            Extent::Groups { .. } => false,
        },
{
    let row = 0x4000_0000int;
    let height = (count + row - 1) / row;
    assert(height * row >= count) by (nonlinear_arith)
        requires
            height == (count + row - 1) / row,
            row == 0x4000_0000,
    ;
    assert(0 <= height <= u64::MAX);
    if count < row {
        assert(count > 0 ==> height == 1);
        assert(count == 0 ==> height == 0);
    }
    let width = if count < row {
        count
    } else {
        row
    };
    assert(width * height * 1 >= count) by (nonlinear_arith)
        requires
            height * row >= count,
            count < row ==> width == count && (count > 0 ==> height == 1) && (count == 0
                ==> height == 0),
            count >= row ==> width == row,
            0 <= count,
    ;
}

} // verus!
