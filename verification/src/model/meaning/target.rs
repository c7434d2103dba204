//! What the passes of the target model compute.

use vstd::prelude::*;

use crate::model::branch;
use crate::model::command;
use crate::model::command::{Arg, BufferId, Owner};
use crate::model::layers::{BranchWeights, LayerWeights};
use crate::model::layout::ScratchLayout;
use crate::model::meaning;
use crate::model::meaning::network;
use crate::model::meaning::network::Past;
use crate::model::meaning::parts;
use crate::model::meaning::parts::LayerPlaces;
use crate::model::meaning::places;
use crate::model::meaning::steps;
use crate::model::meaning::{Cells, Kernels, Span};
use crate::model::runner;
use crate::model::runner::prefill;
use crate::model::runner::RunnerView;

verus! {

// ---------------------------------------------------------------------------
// Layers
// ---------------------------------------------------------------------------

/// Where a layer keeps what it has of the positions before.
pub open spec fn past_places(r: RunnerView, layer: LayerWeights) -> (Arg, Arg) {
    match layer.branch {
        BranchWeights::Gdn(w) => (
            steps::history_place(w.state_index as int),
            steps::state_place(w.state_index as int),
        ),
        BranchWeights::Attention(w) => (
            steps::keys_place(r.cache_offset(w.cache_index as int)),
            steps::values_place(r.cache_offset(w.cache_index as int)),
        ),
    }
}

/// What a layer has of the positions before.
pub open spec fn past_at<T>(m: Cells<T>, r: RunnerView, layer: LayerWeights) -> Past<T> {
    Past { first: m[past_places(r, layer).0], second: m[past_places(r, layer).1] }
}

/// The rows that come next.
pub open spec fn next_rows(r: RunnerView, rows: int) -> Span {
    Span { before: r.position, rows, capacity: r.capacity }
}

/// A layer has been run: the hidden state is the layer's of the one before, what it has of
/// the positions is that up to these rows, and no weight and nothing that another layer has
/// is changed.
pub open spec fn layer_ran<T>(
    k: Kernels<T>,
    m: Cells<T>,
    after: Cells<T>,
    hidden: Arg,
    r: RunnerView,
    layer: LayerWeights,
    rows: int,
) -> bool {
    let net = steps::layer_at(m, layer);
    let past = past_at(m, r, layer);
    &&& after[hidden] == network::layer_output(k, net, m[hidden], past, next_rows(r, rows))
    &&& past_at(after, r, layer) == network::layer_past(
        k,
        net,
        m[hidden],
        past,
        next_rows(r, rows),
    )
    &&& parts::same_but(after, m, past_places(r, layer).0, past_places(r, layer).1)
}

/// The offset of a cache is an offset.
pub proof fn cache_offset_fits(r: RunnerView, index: int)
    requires
        r.well_formed(),
        0 <= index < 16,
    ensures
        0 <= r.cache_offset(index) <= usize::MAX,
        r.cache_offset(index) == index * (2048 * r.capacity),
{
    runner::state_sizes();
    let c = r.capacity;
    assert(branch::layer_cache_bytes(c) == 2048 * c) by (nonlinear_arith)
        requires
            branch::layer_cache_bytes(c) == 4 * c * 256 * 2,
    ;
    assert(0 <= index * (2048 * c) <= c * 32_768) by (nonlinear_arith)
        requires
            0 <= index < 16,
            0 < c,
    ;
}

/// Where the tensors between the parts of a layer lie.
pub open spec fn layer_places(s: ScratchLayout) -> LayerPlaces {
    LayerPlaces {
        hidden: s.hidden,
        normalized: s.normalized,
        output: s.branch_output,
        residual: s.residual,
        post_norm: s.post_norm,
    }
}

/// A layer takes the hidden state to itself, plus the branch's of its norm, plus the
/// feed-forward part's of the norm of that sum, when decoding one row, or three.
#[verifier::rlimit(40)]
pub proof fn decoding_runs_the_layer<T>(
    k: Kernels<T>,
    m: Cells<T>,
    r: RunnerView,
    layer: LayerWeights,
    rows: int,
    capture: bool,
)
    requires
        r.well_formed(),
        runner::has_its_place(layer),
        steps::plain_layer(layer),
        rows == 1 || rows == 3,
        r.position + rows <= r.capacity,
    ensures
        layer_ran(
            k,
            m,
            meaning::run(
                k,
                m,
                runner::decode_layer(r, layer, rows, capture, runner::every_stage()),
            ),
            command::at(BufferId::Scratch, r.scratch.hidden as int),
            r,
            layer,
            rows,
        ),
{
    let s = r.scratch;
    let scratch = BufferId::Scratch;
    let target = Owner::Target;
    let mlp_weights = layer.common.mlp;
    places::scratch_in_order(s, 3);
    let mixing = match layer.branch {
        BranchWeights::Gdn(w) => branch::gdn(s, w, rows, capture),
        BranchWeights::Attention(w) => branch::attention(
            target,
            branch::target_places(s),
            s.normalized,
            s.branch_output,
            w,
            r.cache(w.cache_index as int),
            rows,
        ),
    };
    let mlp = branch::mlp(target, runner::mlp_places(s), mlp_weights, rows);
    let net = steps::layer_at(m, layer);
    let normed = m.insert(
        command::at(scratch, s.normalized as int),
        network::normed(k, m[command::at(scratch, s.hidden as int)], net.input_norm),
    );
    match layer.branch {
        BranchWeights::Gdn(w) => {
            parts::gdn_runs(k, normed, s, w, rows, capture);
        },
        BranchWeights::Attention(w) => {
            cache_offset_fits(r, w.cache_index as int);
            parts::attention_runs(
                k,
                normed,
                target,
                branch::target_places(s),
                s.hidden,
                s.normalized,
                s.branch_output,
                w,
                r.cache(w.cache_index as int),
                rows,
            );
        },
    }
    assert(steps::layer_at(normed, layer) == net);
    let p = layer_places(s);
    let mlp_places = runner::mlp_places(s);
    assert forall|before: Cells<T>|
        parts::went_forward(
            k,
            before,
            #[trigger] meaning::run(k, before, mlp),
            scratch,
            target,
            mlp_places,
            p.hidden,
            p.residual,
            mlp_weights,
        ) by {
        parts::mlp_runs(k, before, target, mlp_places, p.hidden, p.residual, mlp_weights, rows);
    }
    parts::layer_runs(
        k,
        m,
        scratch,
        target,
        p,
        (layer.common.input_norm, layer.common.post_norm),
        mlp_places,
        mlp_weights,
        net,
        past_places(r, layer).0,
        past_places(r, layer).1,
        next_rows(r, rows),
        mixing,
        mlp,
    );
}

/// A layer takes the hidden state to itself, plus the branch's of its norm, plus the
/// feed-forward part's of the norm of that sum, when prefilling.
#[verifier::rlimit(40)]
pub proof fn prefilling_runs_the_layer<T>(
    k: Kernels<T>,
    m: Cells<T>,
    r: RunnerView,
    layer: LayerWeights,
    rows: int,
)
    requires
        r.well_formed(),
        runner::has_its_place(layer),
        steps::plain_layer(layer),
        1 <= rows <= 64,
        r.position + rows <= r.capacity,
    ensures
        layer_ran(
            k,
            m,
            meaning::run(
                k,
                m,
                prefill::prefill_layer(r, layer, rows),
            ),
            command::at(BufferId::PrefillScratch, r.prefill.hidden as int),
            r,
            layer,
            rows,
        ),
{
    let s = r.prefill;
    let scratch = BufferId::PrefillScratch;
    let target = Owner::Target;
    let mlp_weights = layer.common.mlp;
    places::scratch_in_order(s, 64);
    let mixing = match layer.branch {
        BranchWeights::Gdn(w) => branch::prefill_gdn(s, w, rows),
        BranchWeights::Attention(w) => branch::prefill_attention(
            target,
            branch::target_places(s),
            s.normalized,
            s.branch_output,
            w,
            r.cache(w.cache_index as int),
            rows,
        ),
    };
    let mlp = branch::prefill_mlp(target, runner::mlp_places(s), mlp_weights, rows);
    let net = steps::layer_at(m, layer);
    let normed = m.insert(
        command::at(scratch, s.normalized as int),
        network::normed(k, m[command::at(scratch, s.hidden as int)], net.input_norm),
    );
    match layer.branch {
        BranchWeights::Gdn(w) => {
            parts::prefill_gdn_runs(k, normed, s, w, rows);
        },
        BranchWeights::Attention(w) => {
            cache_offset_fits(r, w.cache_index as int);
            parts::prefill_attention_runs(
                k,
                normed,
                target,
                branch::target_places(s),
                s.hidden,
                s.normalized,
                s.branch_output,
                w,
                r.cache(w.cache_index as int),
                rows,
            );
        },
    }
    assert(steps::layer_at(normed, layer) == net);
    let p = layer_places(s);
    let mlp_places = runner::mlp_places(s);
    assert forall|before: Cells<T>|
        parts::went_forward(
            k,
            before,
            #[trigger] meaning::run(k, before, mlp),
            scratch,
            target,
            mlp_places,
            p.hidden,
            p.residual,
            mlp_weights,
        ) by {
        parts::prefill_mlp_runs(
            k,
            before,
            target,
            mlp_places,
            p.hidden,
            p.residual,
            mlp_weights,
            rows,
        );
    }
    parts::layer_runs(
        k,
        m,
        scratch,
        target,
        p,
        (layer.common.input_norm, layer.common.post_norm),
        mlp_places,
        mlp_weights,
        net,
        past_places(r, layer).0,
        past_places(r, layer).1,
        next_rows(r, rows),
        mixing,
        mlp,
    );
}

} // verus!
