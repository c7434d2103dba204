//! What is left of a pass when parts of it are left out.

use vstd::prelude::*;

use crate::model::branch;
use crate::model::command;
use crate::model::command::{Arg, BufferId, DispatchView, Kernel};
use crate::model::layers::{BranchWeights, LayerWeights};
use crate::model::layout::ScratchLayout;
use crate::model::meaning;
use crate::model::meaning::names;
use crate::model::branch::GdnWeights;
use crate::model::runner;
use crate::model::runner::{RunnerView, Stages};
use crate::model::weights::SlotTable;

verus! {

/// A part of a pass.
pub enum Part {
    Recurrence,
    Attention,
    FeedForward,
}

/// Whether a kernel is run in a part, and nowhere else.
pub open spec fn belongs(kernel: Kernel, part: Part) -> bool {
    match part {
        Part::Recurrence => kernel is GdnConv || kernel is GdnUpdateConv || kernel is GdnRecurrence
            || kernel is GdnGate,
        Part::Attention => kernel is AttnQ || kernel is AttnQBlock3 || kernel is AttnStore
            || kernel is AttnStoreBlock3 || kernel is AttnSdpa || kernel is AttnSdpaBlock3
            || kernel is AttnGate,
        Part::FeedForward => kernel is Silu,
    }
}

/// Whether a part is run.
pub open spec fn is_run(stages: Stages, part: Part) -> bool {
    match part {
        Part::Recurrence => stages.gdn,
        Part::Attention => stages.attention,
        Part::FeedForward => stages.mlp,
    }
}

/// No run of a list is one of a part.
pub open spec fn lacks(plan: Seq<DispatchView>, part: Part) -> bool {
    forall|i: int| 0 <= i < plan.len() ==> !belongs((#[trigger] plan[i]).kernel, part)
}

/// A layer lacks what is left out.
#[verifier::rlimit(40)]
proof fn layer_lacks(
    r: RunnerView,
    layer: LayerWeights,
    rows: int,
    capture: bool,
    stages: Stages,
    part: Part,
)
    requires
        !is_run(stages, part),
    ensures
        lacks(runner::decode_layer(r, layer, rows, capture, stages), part),
{
    match layer.branch {
        BranchWeights::Gdn(w) => {
            assert(part is Attention || part is FeedForward ==> lacks(
                branch::gdn(r.scratch, w, rows, capture),
                part,
            ));
        },
        BranchWeights::Attention(w) => {
            assert(part is Recurrence || part is FeedForward ==> lacks(
                branch::attention(
                    command::Owner::Target,
                    branch::target_places(r.scratch),
                    r.scratch.normalized,
                    r.scratch.branch_output,
                    w,
                    r.cache(w.cache_index as int),
                    rows,
                ),
                part,
            ));
        },
    }
}

proof fn layers_lack(
    r: RunnerView,
    n: int,
    rows: int,
    capture: bool,
    stages: Stages,
    part: Part,
)
    requires
        !is_run(stages, part),
    ensures
        lacks(runner::decode_layers(r, n, rows, capture, stages), part),
    decreases n,
{
    if n > 0 {
        layers_lack(r, n - 1, rows, capture, stages, part);
        layer_lacks(r, r.layers[n - 1], rows, capture, stages, part);
    }
}

/// A part that is left out is not run.
#[verifier::rlimit(40)]
pub proof fn parts_are_left_out(
    r: RunnerView,
    rows: int,
    capture: bool,
    stages: Stages,
    argmax: bool,
    part: Part,
)
    requires
        !is_run(stages, part),
    ensures
        lacks(runner::decode_plan(r, rows, capture, stages, argmax), part),
{
    layers_lack(r, r.layers.len() as int, rows, capture, stages, part);
}

/// One or none.
pub open spec fn one_if(told: bool) -> int {
    if told {
        1
    } else {
        0
    }
}

/// How many runs the first layers take.
#[verifier::rlimit(40)]
proof fn runs_of_layers(
    r: RunnerView,
    table: SlotTable,
    n: int,
    rows: int,
    capture: bool,
    stages: Stages,
)
    requires
        names::is_target_of(r, table),
        0 <= n <= 64,
    ensures
        runner::decode_layers(r, n, rows, capture, stages).len() == n * 4 + (n - n / 4) * 6 * one_if(
            stages.gdn,
        ) + n / 4 * 6 * one_if(stages.attention) + n * 3 * one_if(stages.mlp),
    decreases n,
{
    if n > 0 {
        let i = n - 1;
        runs_of_layers(r, table, i, rows, capture, stages);
        names::layers_are_bound_by_name(Map::<Arg, int>::empty(), r, table, i);
        let layer = runner::decode_layer(r, r.layers[i], rows, capture, stages);
        if i % 4 == 3 {
            assert(layer.len() == 4 + 6 * one_if(stages.attention) + 3 * one_if(stages.mlp));
            assert(n / 4 == i / 4 + 1);
        } else {
            assert(layer.len() == 4 + 6 * one_if(stages.gdn) + 3 * one_if(stages.mlp));
            assert(n / 4 == i / 4);
        }
    }
}

/// What is not left out is run, all of it: four runs in each of the sixty-four layers, six
/// more in each branch and three more in each feed-forward part, where they are run; the
/// embedding, the last norm, the language head where it is run, and a search for each row.
#[verifier::rlimit(40)]
pub proof fn other_parts_are_run(
    r: RunnerView,
    table: SlotTable,
    rows: int,
    capture: bool,
    stages: Stages,
    argmax: bool,
)
    requires
        names::is_target_of(r, table),
        0 <= rows,
    ensures
        runner::decode_plan(r, rows, capture, stages, argmax).len() == 258 + 288 * one_if(
            stages.gdn,
        ) + 96 * one_if(stages.attention) + 192 * one_if(stages.mlp) + one_if(stages.lm_head)
            + rows * one_if(argmax),
{
    names::layers_are_bound_by_name(Map::<Arg, int>::empty(), r, table, 0);
    runs_of_layers(r, table, 64, rows, capture, stages);
}

/// Each bit of a mask leaves out its part: the lowest the recurrent branches, the next the
/// attention branches, the third the feed-forward parts and the fourth the language head.
pub proof fn masks_name_the_parts(mask: u32)
    ensures
        runner::stages_of(mask).gdn == (mask % 2 == 0),
        runner::stages_of(mask).attention == (mask / 2 % 2 == 0),
        runner::stages_of(mask).mlp == (mask / 4 % 2 == 0),
        runner::stages_of(mask).lm_head == (mask / 8 % 2 == 0),
        runner::stages_of(0) == runner::every_stage(),
{
    assert(mask & 1 == 0 <==> mask % 2 == 0) by (bit_vector);
    assert(mask & 2 == 0 <==> mask / 2 % 2 == 0) by (bit_vector);
    assert(mask & 4 == 0 <==> mask / 4 % 2 == 0) by (bit_vector);
    assert(mask & 8 == 0 <==> mask / 8 % 2 == 0) by (bit_vector);
    assert(0u32 & 1 == 0 && 0u32 & 2 == 0 && 0u32 & 4 == 0 && 0u32 & 8 == 0) by (bit_vector);
}

/// A batch that is verified leaves the histories and states behind its rows in slots, and
/// what is committed is copied from there: the slots are as far apart as the sizes of all
/// histories, of two bytes a number, and of all states, of four bytes a number; and within a
/// slot each layer has the place that it has among all.
#[verifier::rlimit(40)]
pub proof fn slots_are_committed_from_where_they_are_left(
    s: ScratchLayout,
    w: GdnWeights,
    rows: int,
)
    requires
        1 <= rows < 3,
        w.state_index < 48,
    ensures
        ({
            let update = branch::gdn_update_conv(BufferId::Scratch, s, w, 3, true);
            let recurrence = branch::gdn_recurrence(BufferId::Scratch, s, w, 3, true);
            let commit = runner::commit_plan(rows);
            let history = 2 * meaning::word(update.args[5], 0);
            let state = 4 * meaning::word(recurrence.args[10], 0);
            &&& commit.len() == 2
            &&& commit[0].args[0] == command::at(BufferId::VerifyGdnSlots, (rows - 1) * state)
            &&& commit[0].args[1] == command::at(BufferId::GdnState, 0)
            &&& commit[0].args[2] == Arg::Long(state as u64)
            &&& commit[1].args[0] == command::at(BufferId::VerifyConvSlots, (rows - 1) * history)
            &&& commit[1].args[1] == command::at(BufferId::ConvState, 0)
            &&& commit[1].args[2] == Arg::Long(history as u64)
            &&& update.args[1] == command::at(BufferId::ConvState, w.state_index * 61_440)
            &&& update.args[4] == command::at(BufferId::VerifyConvSlots, w.state_index * 61_440)
            &&& w.state_index * 61_440 + 61_440 <= history
            &&& recurrence.args[5] == command::at(BufferId::GdnState, w.state_index * 3_145_728)
            &&& recurrence.args[9] == command::at(
                BufferId::VerifyGdnSlots,
                w.state_index * 3_145_728,
            )
            &&& w.state_index * 3_145_728 + 3_145_728 <= state
        }),
{
    runner::state_sizes();
    assert(branch::CONV_SLOT == 1_474_560) by (nonlinear_arith);
    assert(branch::STATE_SLOT == 37_748_736) by (nonlinear_arith);
    assert(branch::CONV_BYTES == 61_440);
    assert(branch::STATE_BYTES == 3_145_728) by (nonlinear_arith);
}

} // verus!
