//! What the layers of the target model compute, one after the other.

use vstd::prelude::*;

use crate::model::branch;
use crate::model::command;
use crate::model::command::{Arg, BufferId, Owner};
use crate::model::layers::BranchWeights;
use crate::model::meaning;
use crate::model::meaning::names;
use crate::model::meaning::network;
use crate::model::meaning::network::Past;
use crate::model::meaning::parts;
use crate::model::meaning::steps;
use crate::model::meaning::target;
use crate::model::meaning::{Cells, Kernels};
use crate::model::runner;
use crate::model::runner::prefill;
use crate::model::runner::RunnerView;
use crate::model::weights::SlotTable;

verus! {

// ---------------------------------------------------------------------------
// All layers
// ---------------------------------------------------------------------------

/// What the layers have of the positions before.
pub open spec fn pasts_at<T>(m: Cells<T>, r: RunnerView) -> Seq<Past<T>> {
    Seq::new(r.layers.len(), |i: int| target::past_at(m, r, r.layers[i]))
}

/// What two layers have of the positions before lies at different places.
#[verifier::rlimit(40)]
pub proof fn pasts_are_apart(r: RunnerView, table: SlotTable, i: int, j: int)
    requires
        r.well_formed(),
        names::is_target_of(r, table),
        0 <= i < 64,
        0 <= j < 64,
        i != j,
    ensures
        ({
            let a = target::past_places(r, r.layers[i]);
            let b = target::past_places(r, r.layers[j]);
            &&& a.0 != b.0
            &&& a.0 != b.1
            &&& a.1 != b.0
            &&& a.1 != b.1
        }),
{
    names::layers_are_bound_by_name(Cells::<int>::empty(), r, table, i);
    names::layers_are_bound_by_name(Cells::<int>::empty(), r, table, j);
    assert(runner::has_its_place(r.layers[i]) && runner::has_its_place(r.layers[j]));
    match (r.layers[i].branch, r.layers[j].branch) {
        (BranchWeights::Gdn(a), BranchWeights::Gdn(b)) => {
            let (x, y) = (a.state_index as int, b.state_index as int);
            assert(x != y);
            assert(branch::CONV_BYTES == 61_440);
            assert(branch::STATE_BYTES == 3_145_728) by (nonlinear_arith);
            assert(x * branch::CONV_BYTES == 61_440 * x && y * branch::CONV_BYTES == 61_440 * y);
            assert(x * branch::STATE_BYTES == 3_145_728 * x && y * branch::STATE_BYTES == 3_145_728
                * y);
        },
        (BranchWeights::Attention(a), BranchWeights::Attention(b)) => {
            let (x, y) = (a.cache_index as int, b.cache_index as int);
            let c = r.capacity;
            assert(x != y);
            target::cache_offset_fits(r, x);
            target::cache_offset_fits(r, y);
            assert(x * (2048 * c) != y * (2048 * c)) by (nonlinear_arith)
                requires
                    x != y,
                    c > 0,
            ;
        },
        _ => {},
    }
}

/// The hidden state behind the first `n` layers, given the tensors of a checkpoint.
pub open spec fn hidden_at<T>(
    k: Kernels<T>,
    m: Cells<T>,
    r: RunnerView,
    table: SlotTable,
    embedded: T,
    rows: int,
    n: int,
) -> T {
    network::hidden_behind(
        k,
        network::target_layers(names::tensors_at(m, table, Owner::Target)),
        pasts_at(m, r),
        embedded,
        target::next_rows(r, rows),
        n,
    )
}

/// What a layer has of the positions up to these rows, given the tensors of a checkpoint.
pub open spec fn next_past<T>(
    k: Kernels<T>,
    m: Cells<T>,
    r: RunnerView,
    table: SlotTable,
    embedded: T,
    rows: int,
    i: int,
) -> Past<T> {
    network::layer_past(
        k,
        network::target_layers(names::tensors_at(m, table, Owner::Target))[i],
        hidden_at(k, m, r, table, embedded, rows, i),
        pasts_at(m, r)[i],
        target::next_rows(r, rows),
    )
}

/// The first `n` layers have been run.
pub open spec fn layers_ran<T>(
    k: Kernels<T>,
    m: Cells<T>,
    after: Cells<T>,
    hidden: Arg,
    r: RunnerView,
    table: SlotTable,
    rows: int,
    n: int,
) -> bool {
    &&& after[hidden] == hidden_at(k, m, r, table, m[hidden], rows, n)
    &&& forall|i: int|
        0 <= i < n ==> #[trigger] pasts_at(after, r)[i] == next_past(
            k,
            m,
            r,
            table,
            m[hidden],
            rows,
            i,
        )
    &&& forall|i: int| n <= i < 64 ==> #[trigger] pasts_at(after, r)[i] == pasts_at(m, r)[i]
    &&& same_weights(after, m)
}

/// No weight is changed.
pub open spec fn same_weights<T>(a: Cells<T>, b: Cells<T>) -> bool {
    forall|shard: usize, owner: Owner, offset: u64|
        #[trigger] a[Arg::Buffer { buffer: BufferId::Shard(owner, shard), offset }]
            == b[Arg::Buffer { buffer: BufferId::Shard(owner, shard), offset }]
}

/// One more layer.
#[verifier::rlimit(40)]
proof fn layers_and_one_more<T>(
    k: Kernels<T>,
    m: Cells<T>,
    before: Cells<T>,
    after: Cells<T>,
    hidden: Arg,
    r: RunnerView,
    table: SlotTable,
    rows: int,
    n: int,
)
    requires
        r.well_formed(),
        names::is_target_of(r, table),
        0 <= n < 64,
        layers_ran(k, m, before, hidden, r, table, rows, n),
        target::layer_ran(k, before, after, hidden, r, r.layers[n], rows),
    ensures
        layers_ran(k, m, after, hidden, r, table, rows, n + 1),
{
    names::layers_are_bound_by_name(m, r, table, n);
    let layer = r.layers[n];
    assert(steps::layer_at(before, layer) == steps::layer_at(m, layer)) by {
        assert(same_weights(before, m));
    }
    assert(target::past_at(before, r, layer) == pasts_at(before, r)[n]);
    assert(pasts_at(before, r)[n] == pasts_at(m, r)[n]);
    assert(pasts_at(after, r)[n] == target::past_at(after, r, layer));
    assert forall|i: int| 0 <= i < 64 && i != n implies #[trigger] pasts_at(after, r)[i]
        == pasts_at(before, r)[i] by {
        pasts_are_apart(r, table, i, n);
        names::layers_are_bound_by_name(m, r, table, i);
        assert(parts::is_lasting(target::past_places(r, r.layers[i]).0));
        assert(parts::is_lasting(target::past_places(r, r.layers[i]).1));
    }
    assert(same_weights(after, m)) by {
        assert forall|shard: usize, owner: Owner, offset: u64|
            #[trigger] after[Arg::Buffer { buffer: BufferId::Shard(owner, shard), offset }]
                == m[Arg::Buffer { buffer: BufferId::Shard(owner, shard), offset }] by {
            let key = Arg::Buffer { buffer: BufferId::Shard(owner, shard), offset };
            assert(parts::is_lasting(key));
            assert(after[key] == before[key]);
            assert(before[key] == m[key]);
        }
    }
}

/// The layers, one after the other, when decoding.
#[verifier::rlimit(40)]
pub proof fn decoding_runs_the_layers<T>(
    k: Kernels<T>,
    m: Cells<T>,
    r: RunnerView,
    table: SlotTable,
    rows: int,
    capture: bool,
    n: int,
)
    requires
        r.well_formed(),
        names::is_target_of(r, table),
        rows == 1 || rows == 3,
        r.position + rows <= r.capacity,
        0 <= n <= 64,
    ensures
        layers_ran(
            k,
            m,
            meaning::run(
                k,
                m,
                runner::decode_layers(r, n, rows, capture, runner::every_stage()),
            ),
            command::at(BufferId::Scratch, r.scratch.hidden as int),
            r,
            table,
            rows,
            n,
        ),
    decreases n,
{
    if n > 0 {
        let stages = runner::every_stage();
        let front = runner::decode_layers(r, n - 1, rows, capture, stages);
        let layer = r.layers[n - 1];
        let last = runner::decode_layer(r, layer, rows, capture, stages);
        let before = meaning::run(k, m, front);
        decoding_runs_the_layers(k, m, r, table, rows, capture, n - 1);
        names::layers_are_bound_by_name(m, r, table, n - 1);
        assert(runner::has_its_place(layer));
        target::decoding_runs_the_layer(k, before, r, layer, rows, capture);
        meaning::run_of_both(k, m, front, last);
        layers_and_one_more(
            k,
            m,
            before,
            meaning::run(k, m, front + last),
            command::at(BufferId::Scratch, r.scratch.hidden as int),
            r,
            table,
            rows,
            n - 1,
        );
    }
}

/// The layers, one after the other, when prefilling.
#[verifier::rlimit(40)]
pub proof fn prefilling_runs_the_layers<T>(
    k: Kernels<T>,
    m: Cells<T>,
    r: RunnerView,
    table: SlotTable,
    rows: int,
    n: int,
)
    requires
        r.well_formed(),
        names::is_target_of(r, table),
        1 <= rows <= 64,
        r.position + rows <= r.capacity,
        0 <= n <= 64,
    ensures
        layers_ran(
            k,
            m,
            meaning::run(k, m, prefill::prefill_layers(r, n, rows)),
            command::at(BufferId::PrefillScratch, r.prefill.hidden as int),
            r,
            table,
            rows,
            n,
        ),
    decreases n,
{
    if n > 0 {
        let front = prefill::prefill_layers(r, n - 1, rows);
        let layer = r.layers[n - 1];
        let last = prefill::prefill_layer(r, layer, rows);
        let before = meaning::run(k, m, front);
        prefilling_runs_the_layers(k, m, r, table, rows, n - 1);
        names::layers_are_bound_by_name(m, r, table, n - 1);
        assert(runner::has_its_place(layer));
        target::prefilling_runs_the_layer(k, before, r, layer, rows);
        meaning::run_of_both(k, m, front, last);
        layers_and_one_more(
            k,
            m,
            before,
            meaning::run(k, m, front + last),
            command::at(BufferId::PrefillScratch, r.prefill.hidden as int),
            r,
            table,
            rows,
            n - 1,
        );
    }
}

} // verus!
