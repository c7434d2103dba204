//! That a pass computes on what is written for it, and leaves its results where they are
//! read.

use vstd::prelude::*;

use crate::model::branch;
use crate::model::command;
use crate::model::command::{Arg, BufferId, DispatchView, Owner};
use crate::model::layers::BranchWeights;
use crate::model::layout;
use crate::model::layout::ScratchLayout;
use crate::model::meaning;
use crate::model::meaning::drafter;
use crate::model::meaning::names;
use crate::model::meaning::network;
use crate::model::meaning::passes;
use crate::model::meaning::stack;
use crate::model::meaning::steps;
use crate::model::meaning::target;
use crate::model::meaning::{Cells, Kernels};
use crate::model::mtp;
use crate::model::mtp::{MtpPass, MtpView};
use crate::model::readback;
use crate::model::readback::RowPlaces;
use crate::model::runner;
use crate::model::runner::prefill;
use crate::model::runner::{Pass, RunnerView};
use crate::model::weights::SlotTable;

verus! {

// ---------------------------------------------------------------------------
// Where results are read
// ---------------------------------------------------------------------------

/// The results of a row are where the rows before it end: each has a hidden state of 5120
/// numbers of two bytes, 248320 logits of four bytes, and twice 970 partial results of four
/// bytes.
pub proof fn rows_follow_one_another(s: ScratchLayout, batch: int, row: int)
    requires
        1 <= batch <= 64,
        s.is_for(batch),
        0 <= row < batch,
    ensures
        ({
            let first = runner::target_row(s, 0);
            let places = runner::target_row(s, row);
            &&& places.hidden == first.hidden + row * 10_240
            &&& places.logits == first.logits + row * 993_280
            &&& places.maxes == first.maxes + row * 7760
            &&& places.indices == places.maxes + 3880
        }),
{
    layout::scratch_bounds(s, batch);
    readback::row_fits(row, batch, 10_240);
    readback::row_fits(row, batch, 993_280);
    readback::row_fits(row, batch, 7760);
}

/// The results of a pass are where they are read: the hidden states and the logits of all
/// rows from the first row's on, and for each row the partial results of its logits.
pub open spec fn results_are_at<T>(
    k: Kernels<T>,
    after: Cells<T>,
    buffer: BufferId,
    first: RowPlaces,
    hidden: T,
    logits: T,
) -> bool {
    &&& after[command::at(buffer, first.hidden as int)] == hidden
    &&& after[command::at(buffer, first.logits as int)] == logits
}

/// The partial results that are read of a row are those of its logits.
pub open spec fn partials_are_at<T>(
    k: Kernels<T>,
    after: Cells<T>,
    buffer: BufferId,
    places: RowPlaces,
) -> bool {
    let logits = after[command::at(buffer, places.logits as int)];
    &&& after[command::at(buffer, places.maxes as int)] == (k.largest)(logits)
    &&& after[command::at(buffer, places.indices as int)] == (k.largest_at)(logits)
}

// ---------------------------------------------------------------------------
// The target
// ---------------------------------------------------------------------------

/// A pass over one row, or three, takes the tokens from where they are written, at the front
/// of its buffer, and leaves the model's hidden states and logits of them, and the partial
/// results for each row, where they are read.
#[verifier::rlimit(40)]
pub proof fn decoded_results_are_read<T>(
    k: Kernels<T>,
    m: Cells<T>,
    pass: Pass,
    r: RunnerView,
    table: SlotTable,
    tokens: Seq<u32>,
    capture: bool,
    argmax: bool,
)
    requires
        r.well_formed(),
        names::is_target_of(r, table),
        tokens.len() == 1 || tokens.len() == 3,
        r.position + tokens.len() <= r.capacity,
        runner::is_decode_pass(pass, r, tokens, capture, runner::every_stage(), argmax),
    ensures
        readback::words_in(pass.input@) == tokens,
        pass.rows == tokens.len(),
        ({
            let after = meaning::run(k, m, command::plan_view(pass.plan@));
            let rows = tokens.len() as int;
            let embedded = passes::embedded_at(k, m, command::at(pass.buffer, 0), table);
            let h = stack::hidden_at(k, m, r, table, embedded, rows, 64);
            &&& results_are_at(
                k,
                after,
                pass.buffer,
                runner::target_row(r.scratch, 0),
                h,
                passes::logits_from(k, m, table, h),
            )
            &&& argmax ==> forall|row: int|
                0 <= row < rows ==> partials_are_at(
                    k,
                    after,
                    pass.buffer,
                    #[trigger] runner::target_row(r.scratch, row),
                )
        }),
{
    let rows = tokens.len() as int;
    let s = r.scratch;
    let scratch = BufferId::Scratch;
    let after = meaning::run(k, m, command::plan_view(pass.plan@));
    readback::words_survive_bytes(tokens);
    passes::decoding_computes_the_model(k, m, r, table, rows, capture, argmax);
    layout::scratch_bounds(s, 3);
    rows_follow_one_another(s, 3, 0);
    if argmax {
        assert forall|row: int| 0 <= row < rows implies partials_are_at(
            k,
            after,
            pass.buffer,
            #[trigger] runner::target_row(s, row),
        ) by {
            rows_follow_one_another(s, 3, row);
            let logits = after[passes::logits_of(scratch, s, row)];
            assert(after[command::at(scratch, s.argmax_partial + row * 7760)] == (k.largest)(
                logits,
            ));
        }
    }
}

/// A pass over the tokens of a prompt takes them from where they are written, at the front
/// of its buffer, and leaves the model's hidden states and logits of them, and the partial
/// results for each row, where they are read.
#[verifier::rlimit(40)]
pub proof fn prefilled_results_are_read<T>(
    k: Kernels<T>,
    m: Cells<T>,
    pass: Pass,
    r: RunnerView,
    table: SlotTable,
    tokens: Seq<u32>,
    base: int,
)
    requires
        r.well_formed(),
        names::is_target_of(r, table),
        0 <= base < tokens.len(),
        r.position + (tokens.len() - base) <= r.capacity,
        prefill::is_prefill_pass(pass, r, tokens, base),
    ensures
        readback::words_in(pass.input@) == tokens.subrange(base, base + pass.rows),
        1 <= pass.rows <= 64,
        ({
            let after = meaning::run(k, m, command::plan_view(pass.plan@));
            let rows = pass.rows as int;
            let embedded = passes::embedded_at(k, m, command::at(pass.buffer, 0), table);
            let h = stack::hidden_at(k, m, r, table, embedded, rows, 64);
            &&& results_are_at(
                k,
                after,
                pass.buffer,
                runner::target_row(r.prefill, 0),
                h,
                passes::logits_from(k, m, table, h),
            )
            &&& forall|row: int|
                0 <= row < rows ==> partials_are_at(
                    k,
                    after,
                    pass.buffer,
                    #[trigger] runner::target_row(r.prefill, row),
                )
        }),
{
    let rows = prefill::chunk_len(tokens.len() as int, base);
    let s = r.prefill;
    let scratch = BufferId::PrefillScratch;
    let after = meaning::run(k, m, command::plan_view(pass.plan@));
    readback::words_survive_bytes(tokens.subrange(base, base + rows));
    passes::prefilling_computes_the_model(k, m, r, table, rows);
    layout::scratch_bounds(s, 64);
    rows_follow_one_another(s, 64, 0);
    assert forall|row: int| 0 <= row < rows implies partials_are_at(
        k,
        after,
        pass.buffer,
        #[trigger] runner::target_row(s, row),
    ) by {
        rows_follow_one_another(s, 64, row);
        let logits = after[passes::logits_of(scratch, s, row)];
        assert(after[command::at(scratch, s.argmax_partial + row * 7760)] == (k.largest)(logits));
    }
}

// ---------------------------------------------------------------------------
// The drafter
// ---------------------------------------------------------------------------

/// What the drafter comes to, given where its tokens and hidden states are.
pub open spec fn drafted<T>(
    k: Kernels<T>,
    m: Cells<T>,
    r: MtpView,
    table: SlotTable,
    target: SlotTable,
    tokens: Arg,
    hidden: Arg,
    rows: int,
) -> T {
    network::drafter_output(
        k,
        network::drafter_of(names::tensors_at(m, table, Owner::Mtp)),
        passes::embedded_at(k, m, tokens, target),
        m[hidden],
        drafter::past_at(m),
        drafter::next_rows(r, rows),
    )
}

/// The logits of what the drafter comes to.
pub open spec fn drafted_logits<T>(k: Kernels<T>, m: Cells<T>, target: SlotTable, h: T) -> T {
    let t = names::tensors_at(m, target, Owner::Target);
    network::apply(k, network::matrix(t, "language_model.lm_head"@, 5120, 248_320), h)
}

/// A pass over one position takes the token and the target's hidden state from where they
/// are written, and leaves what the drafter comes to, and its logits, where they are read.
#[verifier::rlimit(40)]
pub proof fn drafted_results_are_read<T>(
    k: Kernels<T>,
    m: Cells<T>,
    pass: MtpPass,
    r: MtpView,
    table: SlotTable,
    target: SlotTable,
    token: u32,
    hidden: Seq<u32>,
    argmax: bool,
)
    requires
        r.well_formed(),
        names::is_drafter_of(r, table, target),
        r.position < r.capacity,
        mtp::is_draft_pass(pass, r, token, hidden, argmax),
    ensures
        readback::words_in(pass.tokens@) == seq![token],
        pass.rows == 1,
        ({
            let after = meaning::run(k, m, command::plan_view(pass.plan@));
            let h = drafted(
                k,
                m,
                r,
                table,
                target,
                command::at(pass.buffer, 0),
                command::at(pass.buffer, pass.hidden_at as int),
                1,
            );
            &&& results_are_at(
                k,
                after,
                pass.buffer,
                mtp::mtp_row(r.scratch, 0),
                h,
                drafted_logits(k, m, target, h),
            )
            &&& argmax ==> partials_are_at(k, after, pass.buffer, mtp::mtp_row(r.scratch, 0))
        }),
{
    readback::words_survive_bytes(seq![token]);
    drafter::drafting_computes_the_drafter(k, m, r, table, target, argmax);
    layout::mtp_scratch_bounds(r.scratch, 1);
}

/// A pass over many positions takes the tokens and the target's hidden states from where
/// they are written, and leaves what the drafter comes to, and its logits, where they are
/// read.
#[verifier::rlimit(40)]
pub proof fn drafted_batches_are_read<T>(
    k: Kernels<T>,
    m: Cells<T>,
    pass: MtpPass,
    r: MtpView,
    table: SlotTable,
    target: SlotTable,
    positions: Seq<(u32, &[u32])>,
    base: int,
)
    requires
        r.well_formed(),
        names::is_drafter_of(r, table, target),
        0 <= base < positions.len(),
        r.position + (positions.len() - base) <= r.capacity,
        mtp::is_prefill_pass(pass, r, positions, base),
    ensures
        1 <= pass.rows <= 64,
        readback::words_in(pass.tokens@) == mtp::tokens_of(
            positions.subrange(base, base + pass.rows),
        ),
        ({
            let after = meaning::run(k, m, command::plan_view(pass.plan@));
            let h = drafted(
                k,
                m,
                r,
                table,
                target,
                command::at(pass.buffer, 0),
                command::at(pass.buffer, pass.hidden_at as int),
                pass.rows as int,
            );
            &&& results_are_at(
                k,
                after,
                pass.buffer,
                mtp::mtp_row(r.prefill, 0),
                h,
                drafted_logits(k, m, target, h),
            )
            &&& forall|row: int|
                0 <= row < pass.rows ==> partials_are_at(
                    k,
                    after,
                    pass.buffer,
                    #[trigger] mtp::mtp_row(r.prefill, row),
                )
        }),
{
    let s = r.prefill;
    let scratch = BufferId::PrefillScratch;
    let rows = prefill::chunk_len(positions.len() as int, base);
    let after = meaning::run(k, m, command::plan_view(pass.plan@));
    readback::words_survive_bytes(mtp::tokens_of(positions.subrange(base, base + rows)));
    drafter::prefilling_computes_the_drafter(k, m, r, table, target, rows);
    layout::mtp_scratch_bounds(s, 64);
    assert forall|row: int| 0 <= row < rows implies partials_are_at(
        k,
        after,
        pass.buffer,
        #[trigger] mtp::mtp_row(s, row),
    ) by {
        readback::row_fits(row, 64, 10_240);
        readback::row_fits(row, 64, 993_280);
        readback::row_fits(row, 64, 7760);
        let logits = after[drafter::logits_of(s, row)];
        assert(after[command::at(scratch, s.argmax_partial + row * 7760)] == (k.largest)(logits));
    }
}

/// The numbers of a hidden state are written one behind the other, each as the upper half of
/// its bits, the lower byte first.
pub proof fn hidden_numbers_are_halved(numbers: Seq<u32>, j: int)
    requires
        0 <= j < numbers.len(),
    ensures
        mtp::half_bytes(numbers).len() == 2 * numbers.len(),
        mtp::half_bytes(numbers)[2 * j] + 0x100 * mtp::half_bytes(numbers)[2 * j + 1]
            == numbers[j] / 0x1_0000,
    decreases numbers.len(),
{
    mtp::half_bytes_are_two_each(numbers.drop_last());
    if j < numbers.len() - 1 {
        hidden_numbers_are_halved(numbers.drop_last(), j);
    }
}

/// The hidden state of each position is written in the row of that position.
pub proof fn hidden_states_are_in_their_rows(positions: Seq<(u32, &[u32])>, i: int)
    requires
        0 <= i < positions.len(),
        forall|j: int|
            0 <= j < positions.len() ==> (#[trigger] positions[j]).1@.len() == 5120,
    ensures
        mtp::hidden_bytes(positions).len() == positions.len() * 10_240,
        mtp::hidden_bytes(positions).subrange(i * 10_240, (i + 1) * 10_240) == mtp::half_bytes(
            positions[i].1@,
        ),
    decreases positions.len(),
{
    let front = positions.drop_last();
    let last = positions.last().1@;
    assert(last.len() == 5120);
    mtp::half_bytes_are_two_each(last);
    reveal_with_fuel(mtp::hidden_bytes, 2);
    if positions.len() > 1 {
        hidden_states_are_in_their_rows(
            front,
            if i < front.len() {
                i
            } else {
                0
            },
        );
    }
    assert(mtp::hidden_bytes(front).len() == (positions.len() - 1) * 10_240);
    assert(mtp::hidden_bytes(positions) == mtp::hidden_bytes(front) + mtp::half_bytes(last));
    if i < front.len() {
        assert(mtp::hidden_bytes(front).subrange(i * 10_240, (i + 1) * 10_240)
            == mtp::half_bytes(positions[i].1@));
    }
    assert(mtp::hidden_bytes(positions).subrange(i * 10_240, (i + 1) * 10_240)
        =~= mtp::half_bytes(positions[i].1@));
}

// ---------------------------------------------------------------------------
// Resetting
// ---------------------------------------------------------------------------

/// Whether some runs clear so many bytes of a buffer from an offset on.
pub open spec fn clears(plan: Seq<DispatchView>, key: Arg, len: int) -> bool {
    exists|i: int|
        0 <= i < plan.len() && #[trigger] plan[i].kernel is Clear && match (
            plan[i].args[0],
            plan[i].args[1],
            key,
        ) {
            (
                Arg::Buffer { buffer, offset },
                Arg::Long(count),
                Arg::Buffer { buffer: wanted, offset: from },
            ) => buffer == wanted && offset <= from && from + len <= offset + count,
            _ => false,
        }
}

/// How many bytes a layer has of the positions: its history and its state, or its keys and
/// its values. A history is three times 10240 numbers of two bytes, and a state 48 times 128
/// times 128 numbers of four bytes.
pub open spec fn past_bytes(branch: BranchWeights, capacity: int) -> (int, int) {
    match branch {
        BranchWeights::Gdn(_) => (61_440, 3_145_728),
        BranchWeights::Attention(_) => (4 * capacity * 256 * 2, 4 * capacity * 256 * 2),
    }
}

/// Resetting clears all that every layer has of the positions before.
#[verifier::rlimit(40)]
pub proof fn resetting_clears_every_past(r: RunnerView, table: SlotTable, i: int)
    requires
        r.well_formed(),
        names::is_target_of(r, table),
        0 <= i < 64,
    ensures
        ({
            let plan = runner::reset_plan(r.capacity);
            let at = target::past_places(r, r.layers[i]);
            let len = past_bytes(r.layers[i].branch, r.capacity);
            clears(plan, at.0, len.0) && clears(plan, at.1, len.1)
        }),
{
    let plan = runner::reset_plan(r.capacity);
    let c = r.capacity;
    names::layers_are_bound_by_name(Map::<Arg, int>::empty(), r, table, i);
    assert(runner::has_its_place(r.layers[i]));
    runner::state_sizes();
    match r.layers[i].branch {
        BranchWeights::Gdn(w) => {
            let x = w.state_index as int;
            assert(branch::CONV_BYTES == 61_440);
            assert(branch::STATE_BYTES == 3_145_728) by (nonlinear_arith);
            assert(x * branch::CONV_BYTES == 61_440 * x && x * branch::STATE_BYTES == 3_145_728
                * x);
            assert(plan[0].kernel is Clear && plan[1].kernel is Clear);
        },
        BranchWeights::Attention(w) => {
            let x = w.cache_index as int;
            target::cache_offset_fits(r, x);
            assert(x * (2048 * c) + 2048 * c <= c * 32_768) by (nonlinear_arith)
                requires
                    0 <= x < 16,
                    0 < c,
            ;
            assert(4 * c * 256 * 2 == 2048 * c) by (nonlinear_arith);
            assert(plan[2].kernel is Clear && plan[3].kernel is Clear);
        },
    }
}

/// Resetting clears all keys and values of the drafter.
pub proof fn resetting_clears_the_drafter(r: MtpView)
    requires
        r.well_formed(),
    ensures
        ({
            let plan = mtp::reset_plan(r.capacity);
            let len = 4 * r.capacity * 256 * 2;
            clears(plan, steps::keys_place(0), len) && clears(plan, steps::values_place(0), len)
        }),
{
    let plan = mtp::reset_plan(r.capacity);
    let c = r.capacity;
    assert(4 * c * 256 * 2 == 2048 * c) by (nonlinear_arith);
    assert(plan[0].kernel is Clear && plan[1].kernel is Clear);
}

} // verus!
