//! What holds of the target model across its operations.

use vstd::prelude::*;

use crate::model;
use crate::model::branch;
use crate::model::command;
use crate::model::command::{Arg, BufferId, DispatchView};
use crate::model::layers;
use crate::model::layers::BranchWeights;
use crate::model::readback;
use crate::model::runner;
use crate::model::runner::{RunnerView, CACHE_ROW_BYTES, CONV_STATE_BYTES, GDN_BYTES};
use crate::model::weights::SlotTable;
use crate::model::{LayerKind, ATTN_LAYERS, LAYERS};

verus! {

// ---------------------------------------------------------------------------
// Layers
// ---------------------------------------------------------------------------

/// The kind of a layer's branch.
pub open spec fn branch_kind(branch: BranchWeights) -> LayerKind {
    match branch {
        BranchWeights::Gdn(_) => LayerKind::Gdn,
        BranchWeights::Attention(_) => LayerKind::Attention,
    }
}

/// The layers of a loaded model are of the kinds that the schedule gives them.
pub proof fn layers_follow_the_schedule(r: RunnerView, table: SlotTable, capacity: int, i: int)
    requires
        runner::is_loaded(r, table, capacity),
        0 <= i < LAYERS,
    ensures
        r.layers.len() == LAYERS,
        branch_kind(r.layers[i].branch) == model::kind_of(i),
{
    assert(r.layers[i] == layers::layer_at(table, i));
}

/// No two layers of a loaded model share a state or a part of the caches.
pub proof fn layers_share_no_state(
    r: RunnerView,
    table: SlotTable,
    capacity: int,
    i: int,
    j: int,
)
    requires
        runner::is_loaded(r, table, capacity),
        0 <= i < j < LAYERS,
    ensures
        match (r.layers[i].branch, r.layers[j].branch) {
            (BranchWeights::Gdn(a), BranchWeights::Gdn(b)) => a.state_index < b.state_index,
            (BranchWeights::Attention(a), BranchWeights::Attention(b)) => a.cache_index
                < b.cache_index,
            _ => true,
        },
{
    assert(r.layers[i] == layers::layer_at(table, i));
    assert(r.layers[j] == layers::layer_at(table, j));
}

/// The parts of the caches that two attention layers have lie apart, and within the whole.
pub proof fn caches_are_apart(r: RunnerView, a: int, b: int)
    requires
        r.well_formed(),
        0 <= a < b < ATTN_LAYERS,
    ensures
        0 <= r.cache_offset(a),
        r.cache_offset(a) + branch::layer_cache_bytes(r.capacity) <= r.cache_offset(b),
        r.cache_offset(b) + branch::layer_cache_bytes(r.capacity) <= r.capacity * CACHE_ROW_BYTES,
{
    let part = branch::layer_cache_bytes(r.capacity);
    assert(part == 2048 * r.capacity) by (nonlinear_arith)
        requires
            part == 4 * r.capacity * 256 * 2,
    ;
    readback::row_fits(a, b, part);
    readback::row_fits(b, 16, part);
    runner::state_sizes();
    assert(r.capacity * CACHE_ROW_BYTES == 16 * part) by (nonlinear_arith)
        requires
            CACHE_ROW_BYTES == 32_768,
            part == 2048 * r.capacity,
    ;
}

// ---------------------------------------------------------------------------
// States
// ---------------------------------------------------------------------------

/// What the buffers hold.
pub type Memory = Map<BufferId, Seq<u8>>;

/// What the buffers hold after a copy has been run: the front of the output is what the
/// input holds from the offset on.
pub open spec fn after_copy(memory: Memory, copy: DispatchView) -> Memory {
    match (copy.args[0], copy.args[1], copy.args[2]) {
        (
            Arg::Buffer { buffer: input, offset },
            Arg::Buffer { buffer: output, .. },
            Arg::Long(len),
        ) => memory.insert(
            output,
            memory[input].subrange(offset as int, offset + len) + memory[output].skip(len as int),
        ),
        _ => memory,
    }
}

/// What the buffers hold after some copies have been run, one after the other.
pub open spec fn after_copies(memory: Memory, copies: Seq<DispatchView>) -> Memory
    decreases copies.len(),
{
    if copies.len() == 0 {
        memory
    } else {
        after_copy(after_copies(memory, copies.drop_last()), copies.last())
    }
}

/// The buffers for states are as large as the states.
pub open spec fn has_room(memory: Memory) -> bool {
    &&& memory[BufferId::GdnState].len() == GDN_BYTES
    &&& memory[BufferId::ConvState].len() == CONV_STATE_BYTES
    &&& memory[BufferId::SavedGdnState].len() == GDN_BYTES
    &&& memory[BufferId::SavedConvState].len() == CONV_STATE_BYTES
    &&& memory[BufferId::VerifyGdnSlots].len() == 3 * GDN_BYTES
    &&& memory[BufferId::VerifyConvSlots].len() == 3 * CONV_STATE_BYTES
}

/// What two copies do.
proof fn after_two(memory: Memory, first: DispatchView, second: DispatchView)
    ensures
        after_copies(memory, seq![first, second]) == after_copy(
            after_copy(memory, first),
            second,
        ),
{
    let both = seq![first, second];
    assert(both.drop_last() =~= seq![first]);
    assert(seq![first].drop_last() =~= Seq::empty());
    assert(after_copies(memory, Seq::empty()) == memory);
    assert(after_copies(memory, seq![first]) == after_copy(memory, first));
}

/// Restoring gives back the recurrent state that was saved, whatever has been run since, as
/// long as what was saved is untouched.
pub proof fn restoring_gives_back_the_state(memory: Memory, later: Memory)
    requires
        has_room(memory),
        has_room(later),
        later[BufferId::SavedGdnState] == after_copies(
            memory,
            runner::checkpoint_plan(),
        )[BufferId::SavedGdnState],
        later[BufferId::SavedConvState] == after_copies(
            memory,
            runner::checkpoint_plan(),
        )[BufferId::SavedConvState],
    ensures
        after_copies(later, runner::restore_plan())[BufferId::GdnState]
            == memory[BufferId::GdnState],
        after_copies(later, runner::restore_plan())[BufferId::ConvState]
            == memory[BufferId::ConvState],
{
    runner::state_sizes();
    let saving = runner::checkpoint_plan();
    let restoring = runner::restore_plan();
    after_two(memory, saving[0], saving[1]);
    after_two(later, restoring[0], restoring[1]);
    assert(saving =~= seq![saving[0], saving[1]]);
    assert(restoring =~= seq![restoring[0], restoring[1]]);
    assert(later[BufferId::SavedGdnState] =~= memory[BufferId::GdnState]);
    assert(later[BufferId::SavedConvState] =~= memory[BufferId::ConvState]);
    let restored = after_copies(later, restoring);
    assert(restored[BufferId::GdnState] =~= memory[BufferId::GdnState]);
    assert(restored[BufferId::ConvState] =~= memory[BufferId::ConvState]);
}

/// Committing a part of a batch puts the recurrent state to what the batch left in the slot
/// of the last row that stays. Committing all of it leaves the state.
pub proof fn committing_takes_the_slot(memory: Memory, rows: int)
    requires
        has_room(memory),
        1 <= rows <= 3,
    ensures
        rows < 3 ==> {
            let after = after_copies(memory, runner::commit_plan(rows));
            &&& after[BufferId::GdnState] == memory[BufferId::VerifyGdnSlots].subrange(
                (rows - 1) * GDN_BYTES,
                rows * GDN_BYTES,
            )
            &&& after[BufferId::ConvState] == memory[BufferId::VerifyConvSlots].subrange(
                (rows - 1) * CONV_STATE_BYTES,
                rows * CONV_STATE_BYTES,
            )
        },
        rows == 3 ==> after_copies(memory, runner::commit_plan(rows)) == memory,
{
    runner::state_sizes();
    if rows < 3 {
        let plan = runner::commit_plan(rows);
        after_two(memory, plan[0], plan[1]);
        assert(plan =~= seq![plan[0], plan[1]]);
        let after = after_copies(memory, plan);
        assert(after[BufferId::GdnState] =~= memory[BufferId::VerifyGdnSlots].subrange(
            (rows - 1) * GDN_BYTES,
            rows * GDN_BYTES,
        ));
        assert(after[BufferId::ConvState] =~= memory[BufferId::VerifyConvSlots].subrange(
            (rows - 1) * CONV_STATE_BYTES,
            rows * CONV_STATE_BYTES,
        ));
    }
}

// ---------------------------------------------------------------------------
// Results
// ---------------------------------------------------------------------------

/// The partial results of a row's search for the largest logit are read where the search
/// leaves them, and it searches the logits of that row.
pub proof fn results_are_read_where_they_are_left(
    r: RunnerView,
    scratch: BufferId,
    rows: int,
    row: int,
)
    requires
        r.well_formed(),
        0 <= row < rows <= 3,
    ensures
        ({
            let places = runner::target_row(r.scratch, row);
            let search = runner::argmax_rows(scratch, r.scratch, rows)[row];
            &&& search.args[0] == command::at(scratch, places.logits as int)
            &&& search.args[1] == command::at(scratch, places.maxes as int)
            &&& search.args[2] == command::at(scratch, places.indices as int)
        }),
{
    model::layout::scratch_bounds(r.scratch, 3);
    readback::row_fits(row, 3, 993_280);
    readback::row_fits(row, 3, 7_760);
}

} // verus!
