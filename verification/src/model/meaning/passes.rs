//! What whole passes of the target model compute.

use vstd::prelude::*;

use crate::model::command;
use crate::model::command::{Arg, BufferId, DispatchView, Owner};
use crate::model::dispatch;
use crate::model::layout;
use crate::model::layout::ScratchLayout;
use crate::model::meaning;
use crate::model::meaning::names;
use crate::model::meaning::network;
use crate::model::meaning::parts;
use crate::model::meaning::places;
use crate::model::meaning::stack;
use crate::model::meaning::steps;
use crate::model::meaning::target;
use crate::model::meaning::{Cells, Kernels};
use crate::model::readback;
use crate::model::runner;
use crate::model::runner::prefill;
use crate::model::runner::RunnerView;
use crate::model::weights::SlotTable;

verus! {

// ---------------------------------------------------------------------------
// Whole passes
// ---------------------------------------------------------------------------

/// Whether an address is in front of the results of the search for the largest logits.
pub open spec fn is_in_front(key: Arg, scratch: BufferId, s: ScratchLayout) -> bool {
    match key {
        Arg::Buffer { buffer, offset } => buffer == scratch ==> offset < s.argmax_partial,
        _ => true,
    }
}

/// The largest logits of the first `n` rows have been searched for: the results of a row
/// are those of the row's logits, and nothing in front of them is changed.
pub open spec fn rows_searched<T>(
    k: Kernels<T>,
    m: Cells<T>,
    after: Cells<T>,
    scratch: BufferId,
    s: ScratchLayout,
    n: int,
) -> bool {
    &&& forall|key: Arg| is_in_front(key, scratch, s) ==> #[trigger] after[key] == m[key]
    &&& forall|row: int|
        0 <= row < n ==> {
            let logits = m[#[trigger] logits_of(scratch, s, row)];
            &&& after[command::at(scratch, s.argmax_partial + row * 7760)] == (k.largest)(logits)
            &&& after[command::at(scratch, s.argmax_partial + row * 7760 + 3880)] == (
            k.largest_at)(logits)
        }
}

/// Where the logits of a row lie: each is 248320 numbers of four bytes.
pub open spec fn logits_of(scratch: BufferId, s: ScratchLayout, row: int) -> Arg {
    command::at(scratch, s.logits + row * 993_280)
}

/// The searches for the largest logits, one row after the other.
#[verifier::rlimit(40)]
proof fn searching_the_rows<T>(
    k: Kernels<T>,
    m: Cells<T>,
    scratch: BufferId,
    s: ScratchLayout,
    batch: int,
    n: int,
)
    requires
        s.is_for(batch),
        0 <= n <= batch <= 64,
        1 <= batch,
    ensures
        rows_searched(
            k,
            m,
            meaning::run(k, m, runner::argmax_rows(scratch, s, n)),
            scratch,
            s,
            n,
        ),
    decreases n,
{
    if n > 0 {
        let all = runner::argmax_rows(scratch, s, n);
        let row = n - 1;
        searching_the_rows(k, m, scratch, s, batch, row);
        assert(all.drop_last() =~= runner::argmax_rows(scratch, s, row));
        let before = meaning::run(k, m, all.drop_last());
        steps::step_argmax(
            k,
            before,
            scratch,
            s.logits + row * 993_280,
            s.argmax_partial + row * 7760,
        );
        layout::scratch_bounds(s, batch);
        readback::row_fits(row, batch, 993_280);
        readback::row_fits(row, batch, 7760);
        let after = meaning::run(k, m, all);
        assert(is_in_front(logits_of(scratch, s, row), scratch, s));
        assert forall|i: int| 0 <= i < row implies {
            let logits = m[#[trigger] logits_of(scratch, s, i)];
            &&& after[command::at(scratch, s.argmax_partial + i * 7760)] == (k.largest)(logits)
            &&& after[command::at(scratch, s.argmax_partial + i * 7760 + 3880)] == (k.largest_at)(
                logits,
            )
        } by {
            readback::row_fits(i, batch, 7760);
            assert(before[command::at(scratch, s.argmax_partial + i * 7760)] == (k.largest)(
                m[logits_of(scratch, s, i)],
            ));
        }
    }
}

/// A pass has been run over `rows` rows: the hidden state is that of all layers on the
/// embeddings of the tokens, the logits are the language head's of its last norm, the
/// layers have what they have up to these rows, and no weight is changed. All tensors go by
/// their names in the checkpoint.
pub open spec fn pass_ran<T>(
    k: Kernels<T>,
    m: Cells<T>,
    after: Cells<T>,
    scratch: BufferId,
    s: ScratchLayout,
    r: RunnerView,
    table: SlotTable,
    rows: int,
) -> bool {
    let embedded = embedded_at(k, m, command::at(scratch, s.token as int), table);
    let h = stack::hidden_at(k, m, r, table, embedded, rows, 64);
    &&& after[command::at(scratch, s.hidden as int)] == h
    &&& after[command::at(scratch, s.logits as int)] == logits_from(k, m, table, h)
    &&& forall|i: int|
        0 <= i < 64 ==> #[trigger] stack::pasts_at(after, r)[i] == stack::next_past(
            k,
            m,
            r,
            table,
            embedded,
            rows,
            i,
        )
    &&& stack::same_weights(after, m)
}

/// The embeddings of tokens.
pub open spec fn embedded_at<T>(k: Kernels<T>, m: Cells<T>, tokens: Arg, table: SlotTable) -> T {
    let t = names::tensors_at(m, table, Owner::Target);
    let embedding = network::matrix(t, "language_model.model.embed_tokens"@, 5120, 248_320);
    (k.embed)(m[tokens], embedding.weight, embedding.scales, embedding.biases)
}

/// The logits that a hidden state gives.
pub open spec fn logits_from<T>(k: Kernels<T>, m: Cells<T>, table: SlotTable, hidden: T) -> T {
    let t = names::tensors_at(m, table, Owner::Target);
    network::apply(
        k,
        network::matrix(t, "language_model.lm_head"@, 5120, 248_320),
        network::normed(k, hidden, t("language_model.model.norm.weight"@)),
    )
}

/// The results of the search are those of the logits.
pub open spec fn results_left<T>(
    k: Kernels<T>,
    after: Cells<T>,
    scratch: BufferId,
    s: ScratchLayout,
    rows: int,
) -> bool {
    forall|row: int|
        0 <= row < rows ==> {
            let logits = after[#[trigger] logits_of(scratch, s, row)];
            &&& after[command::at(scratch, s.argmax_partial + row * 7760)] == (k.largest)(logits)
            &&& after[command::at(scratch, s.argmax_partial + row * 7760 + 3880)] == (
            k.largest_at)(logits)
        }
}

/// A search leaves what a pass has come to.
#[verifier::rlimit(40)]
proof fn searching_keeps_the_pass<T>(
    k: Kernels<T>,
    m: Cells<T>,
    before: Cells<T>,
    scratch: BufferId,
    s: ScratchLayout,
    r: RunnerView,
    table: SlotTable,
    batch: int,
    rows: int,
)
    requires
        r.well_formed(),
        names::is_target_of(r, table),
        parts::is_scratch(scratch),
        s.is_for(batch),
        1 <= rows <= batch <= 64,
        pass_ran(k, m, before, scratch, s, r, table, rows),
    ensures
        ({
            let after = meaning::run(k, before, runner::argmax_rows(scratch, s, rows));
            pass_ran(k, m, after, scratch, s, r, table, rows) && results_left(
                k,
                after,
                scratch,
                s,
                rows,
            )
        }),
{
    let after = meaning::run(k, before, runner::argmax_rows(scratch, s, rows));
    searching_the_rows(k, before, scratch, s, batch, rows);
    places::scratch_in_order(s, batch);
    layout::scratch_bounds(s, batch);
    assert(is_in_front(command::at(scratch, s.hidden as int), scratch, s));
    assert(is_in_front(command::at(scratch, s.logits as int), scratch, s));
    assert forall|i: int| 0 <= i < 64 implies #[trigger] stack::pasts_at(after, r)[i] == stack::pasts_at(
        before,
        r,
    )[i] by {
        names::layers_are_bound_by_name(m, r, table, i);
        assert(is_in_front(target::past_places(r, r.layers[i]).0, scratch, s));
        assert(is_in_front(target::past_places(r, r.layers[i]).1, scratch, s));
    }
    assert(stack::same_weights(after, m)) by {
        assert forall|shard: usize, owner: Owner, offset: u64|
            #[trigger] after[Arg::Buffer { buffer: BufferId::Shard(owner, shard), offset }]
                == m[Arg::Buffer { buffer: BufferId::Shard(owner, shard), offset }] by {
            let key = Arg::Buffer { buffer: BufferId::Shard(owner, shard), offset };
            assert(is_in_front(key, scratch, s));
            assert(after[key] == before[key]);
            assert(before[key] == m[key]);
        }
    }
    assert forall|row: int| 0 <= row < rows implies {
        let logits = after[#[trigger] logits_of(scratch, s, row)];
        &&& after[command::at(scratch, s.argmax_partial + row * 7760)] == (k.largest)(logits)
        &&& after[command::at(scratch, s.argmax_partial + row * 7760 + 3880)] == (k.largest_at)(
            logits,
        )
    } by {
        readback::row_fits(row, batch, 993_280);
        assert(is_in_front(logits_of(scratch, s, row), scratch, s));
    }
}

/// The embedding, the layers, the last norm and the language head make a pass.
#[verifier::rlimit(60)]
proof fn ends_make_the_pass<T>(
    k: Kernels<T>,
    m: Cells<T>,
    scratch: BufferId,
    s: ScratchLayout,
    r: RunnerView,
    table: SlotTable,
    rows: int,
    between: Seq<DispatchView>,
    head: DispatchView,
)
    requires
        r.well_formed(),
        names::is_target_of(r, table),
        parts::is_scratch(scratch),
        places::in_order(s),
        head == dispatch::qmv(
            scratch,
            Owner::Target,
            s.normalized as int,
            r.head,
            s.logits as int,
            rows,
        ) || head == dispatch::gemm(
            scratch,
            Owner::Target,
            rows,
            s.normalized as int,
            r.head,
            s.logits as int,
        ),
        forall|before: Cells<T>|
            stack::layers_ran(
                k,
                before,
                #[trigger] meaning::run(k, before, between),
                command::at(scratch, s.hidden as int),
                r,
                table,
                rows,
                64,
            ),
    ensures
        pass_ran(
            k,
            m,
            meaning::run(
                k,
                m,
                seq![
                    dispatch::embed(scratch, s.token as int, r.embed, s.hidden as int, rows),
                ] + between + seq![
                    dispatch::norm(
                        scratch,
                        Owner::Target,
                        s.hidden as int,
                        r.final_norm,
                        s.normalized as int,
                        rows,
                    ),
                    head,
                ],
            ),
            scratch,
            s,
            r,
            table,
            rows,
        ),
{
    let d0 = dispatch::embed(scratch, s.token as int, r.embed, s.hidden as int, rows);
    let d1 = dispatch::norm(
        scratch,
        Owner::Target,
        s.hidden as int,
        r.final_norm,
        s.normalized as int,
        rows,
    );
    meaning::run_of_both(k, m, seq![d0], between);
    meaning::run_of_both(k, m, seq![d0] + between, seq![d1, head]);
    meaning::run_of_one(k, m, d0);
    steps::step_embed(k, m, scratch, s.token as int, r.embed, s.hidden as int, rows);
    names::ends_are_bound_by_name(m, r, table);
    let m1 = meaning::run(k, m, seq![d0]);
    let m2 = meaning::run(k, m1, between);
    let hidden = command::at(scratch, s.hidden as int);
    let embedded = embedded_at(k, m, command::at(scratch, s.token as int), table);
    assert(m1[hidden] == embedded);
    assert(stack::layers_ran(k, m1, m2, hidden, r, table, rows, 64));
    assert(stack::same_weights(m1, m));
    assert(stack::same_weights(m2, m));
    same_tensors(m1, m, table, Owner::Target);
    assert forall|i: int| 0 <= i < 64 implies #[trigger] stack::pasts_at(m1, r)[i] == stack::pasts_at(m, r)[i] by {
        names::layers_are_bound_by_name(m, r, table, i);
    }
    names::layers_are_bound_by_name(m, r, table, 0);
    assert(stack::pasts_at(m1, r) =~= stack::pasts_at(m, r));
    assert(seq![d1, head] =~= seq![d1] + seq![head]);
    meaning::run_of_both(k, m2, seq![d1], seq![head]);
    meaning::run_of_one(k, m2, d1);
    steps::step_norm(
        k,
        m2,
        scratch,
        Owner::Target,
        s.hidden as int,
        r.final_norm,
        s.normalized as int,
        rows,
    );
    let m3 = meaning::run(k, m2, seq![d1]);
    meaning::run_of_one(k, m3, head);
    steps::step_qmv(
        k,
        m3,
        scratch,
        Owner::Target,
        s.normalized as int,
        r.head,
        s.logits as int,
        rows,
    );
    steps::step_gemm(
        k,
        m3,
        scratch,
        Owner::Target,
        rows,
        s.normalized as int,
        r.head,
        s.logits as int,
    );
    let m4 = meaning::run(k, m3, seq![head]);
    assert(steps::matrix_at(m3, Owner::Target, r.head) == steps::matrix_at(
        m,
        Owner::Target,
        r.head,
    ));
    assert(steps::vector_at(m2, Owner::Target, r.final_norm) == steps::vector_at(
        m,
        Owner::Target,
        r.final_norm,
    ));
    assert forall|i: int| 0 <= i < 64 implies #[trigger] stack::pasts_at(m4, r)[i] == stack::pasts_at(
        m2,
        r,
    )[i] by {
        names::layers_are_bound_by_name(m, r, table, i);
    }
    assert(stack::same_weights(m4, m));
}

/// Where no weight is changed, the tensors of a checkpoint are the same.
pub proof fn same_tensors<T>(a: Cells<T>, b: Cells<T>, table: SlotTable, owner: Owner)
    requires
        stack::same_weights(a, b),
    ensures
        names::tensors_at(a, table, owner) == names::tensors_at(b, table, owner),
{
    assert(names::tensors_at(a, table, owner) =~= names::tensors_at(b, table, owner));
}

/// A pass over one row, or three, computes the model's logits of the tokens, and leaves in
/// the layers what they have up to these rows.
#[verifier::rlimit(40)]
pub proof fn decoding_computes_the_model<T>(
    k: Kernels<T>,
    m: Cells<T>,
    r: RunnerView,
    table: SlotTable,
    rows: int,
    capture: bool,
    argmax: bool,
)
    requires
        r.well_formed(),
        names::is_target_of(r, table),
        rows == 1 || rows == 3,
        r.position + rows <= r.capacity,
    ensures
        ({
            let after = meaning::run(
                k,
                m,
                runner::decode_plan(r, rows, capture, runner::every_stage(), argmax),
            );
            &&& pass_ran(k, m, after, BufferId::Scratch, r.scratch, r, table, rows)
            &&& argmax ==> results_left(k, after, BufferId::Scratch, r.scratch, rows)
        }),
{
    let stages = runner::every_stage();
    let s = r.scratch;
    let scratch = BufferId::Scratch;
    let between = runner::decode_layers(r, 64, rows, capture, stages);
    places::scratch_in_order(s, 3);
    names::layers_are_bound_by_name(m, r, table, 0);
    assert forall|before: Cells<T>|
        stack::layers_ran(
            k,
            before,
            #[trigger] meaning::run(k, before, between),
            command::at(scratch, s.hidden as int),
            r,
            table,
            rows,
            64,
        ) by {
        stack::decoding_runs_the_layers(k, before, r, table, rows, capture, 64);
    }
    let head = dispatch::qmv(
        scratch,
        Owner::Target,
        s.normalized as int,
        r.head,
        s.logits as int,
        rows,
    );
    ends_make_the_pass(k, m, scratch, s, r, table, rows, between, head);
    let front = seq![runner::decode_embed(r, rows)] + between + runner::decode_head(
        r,
        rows,
        stages,
    );
    assert(front =~= seq![
        dispatch::embed(scratch, s.token as int, r.embed, s.hidden as int, rows),
    ] + between + seq![
        dispatch::norm(
            scratch,
            Owner::Target,
            s.hidden as int,
            r.final_norm,
            s.normalized as int,
            rows,
        ),
        head,
    ]);
    if argmax {
        let search = runner::argmax_rows(scratch, s, rows);
        meaning::run_of_both(k, m, front, search);
        searching_keeps_the_pass(
            k,
            m,
            meaning::run(k, m, front),
            scratch,
            s,
            r,
            table,
            3,
            rows,
        );
    } else {
        assert(front + Seq::<DispatchView>::empty() =~= front);
    }
}

/// A pass over the tokens of a prompt computes the model's logits of them, and leaves in
/// the layers what they have up to them.
#[verifier::rlimit(40)]
pub proof fn prefilling_computes_the_model<T>(
    k: Kernels<T>,
    m: Cells<T>,
    r: RunnerView,
    table: SlotTable,
    rows: int,
)
    requires
        r.well_formed(),
        names::is_target_of(r, table),
        1 <= rows <= 64,
        r.position + rows <= r.capacity,
    ensures
        ({
            let after = meaning::run(k, m, prefill::prefill_plan(r, rows));
            &&& pass_ran(k, m, after, BufferId::PrefillScratch, r.prefill, r, table, rows)
            &&& results_left(k, after, BufferId::PrefillScratch, r.prefill, rows)
        }),
{
    let s = r.prefill;
    let scratch = BufferId::PrefillScratch;
    let between = prefill::prefill_layers(r, 64, rows);
    places::scratch_in_order(s, 64);
    names::layers_are_bound_by_name(m, r, table, 0);
    assert forall|before: Cells<T>|
        stack::layers_ran(
            k,
            before,
            #[trigger] meaning::run(k, before, between),
            command::at(scratch, s.hidden as int),
            r,
            table,
            rows,
            64,
        ) by {
        stack::prefilling_runs_the_layers(k, before, r, table, rows, 64);
    }
    let head = dispatch::gemm(
        scratch,
        Owner::Target,
        rows,
        s.normalized as int,
        r.head,
        s.logits as int,
    );
    ends_make_the_pass(k, m, scratch, s, r, table, rows, between, head);
    let front = seq![
        dispatch::embed(scratch, s.token as int, r.embed, s.hidden as int, rows),
    ] + between + seq![
        dispatch::norm(
            scratch,
            Owner::Target,
            s.hidden as int,
            r.final_norm,
            s.normalized as int,
            rows,
        ),
        head,
    ];
    let search = runner::argmax_rows(scratch, s, rows);
    assert(prefill::prefill_plan(r, rows) =~= front + search);
    meaning::run_of_both(k, m, front, search);
    searching_keeps_the_pass(k, m, meaning::run(k, m, front), scratch, s, r, table, 64, rows);
}

/// The same rows come to the same hidden states and logits, and leave the layers with the
/// same, whether they are decoded or prefilled.
#[verifier::rlimit(40)]
pub proof fn decoding_and_prefilling_agree<T>(
    k: Kernels<T>,
    m: Cells<T>,
    other: Cells<T>,
    r: RunnerView,
    table: SlotTable,
    rows: int,
    capture: bool,
    argmax: bool,
)
    requires
        r.well_formed(),
        names::is_target_of(r, table),
        rows == 1 || rows == 3,
        r.position + rows <= r.capacity,
        stack::same_weights(other, m),
        stack::pasts_at(other, r) == stack::pasts_at(m, r),
        other[command::at(BufferId::PrefillScratch, r.prefill.token as int)] == m[command::at(
            BufferId::Scratch,
            r.scratch.token as int,
        )],
    ensures
        ({
            let decoded = meaning::run(
                k,
                m,
                runner::decode_plan(r, rows, capture, runner::every_stage(), argmax),
            );
            let prefilled = meaning::run(k, other, prefill::prefill_plan(r, rows));
            &&& decoded[command::at(BufferId::Scratch, r.scratch.hidden as int)]
                == prefilled[command::at(BufferId::PrefillScratch, r.prefill.hidden as int)]
            &&& decoded[command::at(BufferId::Scratch, r.scratch.logits as int)]
                == prefilled[command::at(BufferId::PrefillScratch, r.prefill.logits as int)]
            &&& stack::pasts_at(decoded, r) == stack::pasts_at(prefilled, r)
        }),
{
    decoding_computes_the_model(k, m, r, table, rows, capture, argmax);
    prefilling_computes_the_model(k, other, r, table, rows);
    same_tensors(other, m, table, Owner::Target);
    names::layers_are_bound_by_name(m, r, table, 0);
    let decoded = meaning::run(
        k,
        m,
        runner::decode_plan(r, rows, capture, runner::every_stage(), argmax),
    );
    let prefilled = meaning::run(k, other, prefill::prefill_plan(r, rows));
    assert(stack::pasts_at(decoded, r) =~= stack::pasts_at(prefilled, r));
}

} // verus!
