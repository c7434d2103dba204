//! What the passes of the drafter compute.

use vstd::prelude::*;

use crate::model::branch;
use crate::model::command;
use crate::model::command::{Arg, BufferId, DispatchView, Owner};
use crate::model::dispatch;
use crate::model::layout;
use crate::model::layout::MtpScratchLayout;
use crate::model::meaning;
use crate::model::meaning::names;
use crate::model::meaning::network;
use crate::model::meaning::network::{Layer, Past};
use crate::model::meaning::parts;
use crate::model::meaning::parts::LayerPlaces;
use crate::model::meaning::passes;
use crate::model::meaning::places;
use crate::model::meaning::stack;
use crate::model::meaning::steps;
use crate::model::meaning::{Cells, Kernels, Span};
use crate::model::mtp;
use crate::model::mtp::MtpView;
use crate::model::readback;
use crate::model::weights::SlotTable;

verus! {

/// The positions that come next.
pub open spec fn next_rows(r: MtpView, rows: int) -> Span {
    Span { before: r.position, rows, capacity: r.capacity }
}

/// Where the tensors between the parts of the layer lie.
pub open spec fn layer_places(s: MtpScratchLayout) -> LayerPlaces {
    LayerPlaces {
        hidden: s.hidden,
        normalized: s.normalized,
        output: s.branch_output,
        residual: s.residual,
        post_norm: s.post_norm,
    }
}

/// The keys and values that the drafter has of the positions before.
pub open spec fn past_at<T>(m: Cells<T>) -> Past<T> {
    parts::attention_past(m, 0)
}

/// A pass has been run over `rows` positions: what its first linear map is given is the
/// normed embedding of the token followed by the normed hidden state of the target; both
/// what the attention and what the feed-forward part give are in the hidden state that it
/// comes to; the logits are the target's language head's of it; and the keys and values of
/// these positions are added to those before. All tensors go by their names in the
/// checkpoints.
pub open spec fn pass_ran<T>(
    k: Kernels<T>,
    m: Cells<T>,
    after: Cells<T>,
    scratch: BufferId,
    s: MtpScratchLayout,
    r: MtpView,
    table: SlotTable,
    target: SlotTable,
    rows: int,
) -> bool {
    let net = network::drafter_of(names::tensors_at(m, table, Owner::Mtp));
    let t = names::tensors_at(m, target, Owner::Target);
    let embedded = passes::embedded_at(k, m, command::at(scratch, s.token as int), target);
    let hidden = m[command::at(scratch, s.target_hidden as int)];
    let span = next_rows(r, rows);
    let h = network::drafter_output(k, net, embedded, hidden, past_at(m), span);
    &&& after[command::at(scratch, s.normalized as int)] == h
    &&& after[command::at(scratch, s.logits as int)] == network::apply(
        k,
        network::matrix(t, "language_model.lm_head"@, 5120, 248_320),
        h,
    )
    &&& past_at(after) == network::layer_past(
        k,
        net.layer,
        network::drafter_input(k, net, embedded, hidden),
        past_at(m),
        span,
    )
}

/// The part of a pass behind its first linear map.
pub open spec fn rest_ran<T>(
    k: Kernels<T>,
    m: Cells<T>,
    after: Cells<T>,
    scratch: BufferId,
    s: MtpScratchLayout,
    layer: Layer<T>,
    span: Span,
) -> bool {
    let h = m[command::at(scratch, s.hidden as int)];
    &&& after[command::at(scratch, s.hidden as int)] == network::layer_output(
        k,
        layer,
        h,
        past_at(m),
        span,
    )
    &&& past_at(after) == network::layer_past(k, layer, h, past_at(m), span)
    &&& parts::same_but(after, m, steps::keys_place(0), steps::values_place(0))
}

/// The layer of the drafter, when decoding one position.
#[verifier::rlimit(40)]
proof fn drafting_runs_the_layer<T>(k: Kernels<T>, m: Cells<T>, r: MtpView)
    requires
        r.well_formed(),
        steps::plain_attention(r.weights.attention),
        steps::plain_mlp(r.weights.mlp),
        r.position < r.capacity,
    ensures
        rest_ran(
            k,
            m,
            meaning::run(k, m, draft_layer(r)),
            BufferId::Scratch,
            r.scratch,
            steps::drafter_at(m, r.weights).layer,
            next_rows(r, 1),
        ),
{
    let s = r.scratch;
    let w = r.weights;
    let scratch = BufferId::Scratch;
    places::mtp_scratch_in_order(s, 1);
    let mixing = branch::attention(
        Owner::Mtp,
        mtp::attention_places(s),
        s.normalized,
        s.branch_output,
        w.attention,
        r.cache(),
        1,
    );
    let mlp_places = mtp::mlp_places(s);
    let mlp = branch::mlp(Owner::Mtp, mlp_places, w.mlp, 1);
    let net = steps::drafter_at(m, w).layer;
    let normed = m.insert(
        command::at(scratch, s.normalized as int),
        network::normed(k, m[command::at(scratch, s.hidden as int)], net.input_norm),
    );
    parts::attention_runs(
        k,
        normed,
        Owner::Mtp,
        mtp::attention_places(s),
        s.hidden,
        s.normalized,
        s.branch_output,
        w.attention,
        r.cache(),
        1,
    );
    assert(steps::attending_at(normed, Owner::Mtp, w.attention) == steps::attending_at(
        m,
        Owner::Mtp,
        w.attention,
    ));
    assert forall|before: Cells<T>|
        parts::went_forward(
            k,
            before,
            #[trigger] meaning::run(k, before, mlp),
            scratch,
            Owner::Mtp,
            mlp_places,
            s.hidden,
            s.residual,
            w.mlp,
        ) by {
        parts::mlp_runs(k, before, Owner::Mtp, mlp_places, s.hidden, s.residual, w.mlp, 1);
    }
    parts::layer_runs(
        k,
        m,
        scratch,
        Owner::Mtp,
        layer_places(s),
        (w.input_norm, w.post_norm),
        mlp_places,
        w.mlp,
        net,
        steps::keys_place(0),
        steps::values_place(0),
        next_rows(r, 1),
        mixing,
        mlp,
    );
}

/// The layer of the drafter, when running many positions.
#[verifier::rlimit(40)]
proof fn prefilling_runs_the_layer<T>(k: Kernels<T>, m: Cells<T>, r: MtpView, rows: int)
    requires
        r.well_formed(),
        steps::plain_attention(r.weights.attention),
        steps::plain_mlp(r.weights.mlp),
        1 <= rows <= 64,
        r.position + rows <= r.capacity,
    ensures
        rest_ran(
            k,
            m,
            meaning::run(k, m, prefill_layer(r, rows)),
            BufferId::PrefillScratch,
            r.prefill,
            steps::drafter_at(m, r.weights).layer,
            next_rows(r, rows),
        ),
{
    let s = r.prefill;
    let w = r.weights;
    let scratch = BufferId::PrefillScratch;
    places::mtp_scratch_in_order(s, 64);
    let mixing = branch::prefill_attention(
        Owner::Mtp,
        mtp::attention_places(s),
        s.normalized,
        s.branch_output,
        w.attention,
        r.cache(),
        rows,
    );
    let mlp_places = mtp::mlp_places(s);
    let mlp = branch::prefill_mlp(Owner::Mtp, mlp_places, w.mlp, rows);
    let net = steps::drafter_at(m, w).layer;
    let normed = m.insert(
        command::at(scratch, s.normalized as int),
        network::normed(k, m[command::at(scratch, s.hidden as int)], net.input_norm),
    );
    parts::prefill_attention_runs(
        k,
        normed,
        Owner::Mtp,
        mtp::attention_places(s),
        s.hidden,
        s.normalized,
        s.branch_output,
        w.attention,
        r.cache(),
        rows,
    );
    assert(steps::attending_at(normed, Owner::Mtp, w.attention) == steps::attending_at(
        m,
        Owner::Mtp,
        w.attention,
    ));
    assert forall|before: Cells<T>|
        parts::went_forward(
            k,
            before,
            #[trigger] meaning::run(k, before, mlp),
            scratch,
            Owner::Mtp,
            mlp_places,
            s.hidden,
            s.residual,
            w.mlp,
        ) by {
        parts::prefill_mlp_runs(
            k,
            before,
            Owner::Mtp,
            mlp_places,
            s.hidden,
            s.residual,
            w.mlp,
            rows,
        );
    }
    parts::layer_runs(
        k,
        m,
        scratch,
        Owner::Mtp,
        layer_places(s),
        (w.input_norm, w.post_norm),
        mlp_places,
        w.mlp,
        net,
        steps::keys_place(0),
        steps::values_place(0),
        next_rows(r, rows),
        mixing,
        mlp,
    );
}

/// The runs of the drafter's layer, when decoding one position.
spec fn draft_layer(r: MtpView) -> Seq<DispatchView> {
    let s = r.scratch;
    let w = r.weights;
    parts::layer_plan(
        BufferId::Scratch,
        Owner::Mtp,
        layer_places(s),
        (w.input_norm, w.post_norm),
        branch::attention(
            Owner::Mtp,
            mtp::attention_places(s),
            s.normalized,
            s.branch_output,
            w.attention,
            r.cache(),
            1,
        ),
        branch::mlp(Owner::Mtp, mtp::mlp_places(s), w.mlp, 1),
        1,
    )
}

/// The runs of the drafter's layer, when running many positions.
spec fn prefill_layer(r: MtpView, rows: int) -> Seq<DispatchView> {
    let s = r.prefill;
    let w = r.weights;
    parts::layer_plan(
        BufferId::PrefillScratch,
        Owner::Mtp,
        layer_places(s),
        (w.input_norm, w.post_norm),
        branch::prefill_attention(
            Owner::Mtp,
            mtp::attention_places(s),
            s.normalized,
            s.branch_output,
            w.attention,
            r.cache(),
            rows,
        ),
        branch::prefill_mlp(Owner::Mtp, mtp::mlp_places(s), w.mlp, rows),
        rows,
    )
}

/// The first linear map of a pass over one position is given the normed embedding of the
/// token followed by the normed hidden state of the target.
#[verifier::rlimit(40)]
proof fn drafting_joins_token_and_hidden<T>(
    k: Kernels<T>,
    m: Cells<T>,
    r: MtpView,
    front: Seq<DispatchView>,
)
    requires
        r.well_formed(),
        r.weights.fc.input == 10_240,
        front == mtp::draft_plan(r, false).take(5),
    ensures
        input_joined(k, m, meaning::run(k, m, front), BufferId::Scratch, r.scratch, r),
{
    let s = r.scratch;
    let w = r.weights;
    let scratch = BufferId::Scratch;
    places::mtp_scratch_in_order(s, 1);
    layout::mtp_scratch_bounds(s, 1);
    assert(front.take(0) =~= Seq::empty());
    assert(front.take(5) =~= front);
    meaning::run_of_front(k, m, front, 0);
    meaning::run_of_front(k, m, front, 1);
    meaning::run_of_front(k, m, front, 2);
    meaning::run_of_front(k, m, front, 3);
    meaning::run_of_front(k, m, front, 4);
    steps::step_embed(k, m, scratch, s.token as int, r.embed, s.token_embed as int, 1);
    let m1 = meaning::run(k, m, front.take(1));
    steps::step_norm(
        k,
        m1,
        scratch,
        Owner::Mtp,
        s.token_embed as int,
        w.pre_fc_norm_embedding,
        s.pre_fc as int,
        1,
    );
    let m2 = meaning::run(k, m, front.take(2));
    steps::step_norm(
        k,
        m2,
        scratch,
        Owner::Mtp,
        s.target_hidden as int,
        w.pre_fc_norm_hidden,
        s.pre_fc_hidden as int,
        1,
    );
    let m3 = meaning::run(k, m, front.take(3));
    steps::step_qmv(k, m3, scratch, Owner::Mtp, s.pre_fc as int, w.fc, s.fc_output as int, 1);
    let m4 = meaning::run(k, m, front.take(4));
    steps::step_cast(k, m4, scratch, s.fc_output as int, s.hidden as int, 5120);
    assert(meaning::behind(command::at(scratch, s.pre_fc as int), 10_240) == command::at(
        scratch,
        s.pre_fc_hidden as int,
    ));
    assert(steps::matrix_at(m3, Owner::Mtp, w.fc) == steps::matrix_at(m, Owner::Mtp, w.fc));
}

/// The same of a pass over many positions: the two norms each fill one half of the rows of
/// the map's input.
#[verifier::rlimit(40)]
proof fn prefilling_joins_token_and_hidden<T>(
    k: Kernels<T>,
    m: Cells<T>,
    r: MtpView,
    rows: int,
    front: Seq<DispatchView>,
)
    requires
        r.well_formed(),
        r.weights.fc.input == 10_240,
        front == mtp::prefill_plan(r, rows).take(5),
    ensures
        input_joined(k, m, meaning::run(k, m, front), BufferId::PrefillScratch, r.prefill, r),
{
    let s = r.prefill;
    let w = r.weights;
    let scratch = BufferId::PrefillScratch;
    places::mtp_scratch_in_order(s, 64);
    layout::mtp_scratch_bounds(s, 64);
    assert(front.take(0) =~= Seq::empty());
    assert(front.take(5) =~= front);
    meaning::run_of_front(k, m, front, 0);
    meaning::run_of_front(k, m, front, 1);
    meaning::run_of_front(k, m, front, 2);
    meaning::run_of_front(k, m, front, 3);
    meaning::run_of_front(k, m, front, 4);
    steps::step_embed(k, m, scratch, s.token as int, r.embed, s.token_embed as int, rows);
    let m1 = meaning::run(k, m, front.take(1));
    steps::step_norm_half(
        k,
        m1,
        scratch,
        Owner::Mtp,
        s.token_embed as int,
        w.pre_fc_norm_embedding,
        s.fc_input as int,
        0,
        rows,
    );
    let m2 = meaning::run(k, m, front.take(2));
    steps::step_norm_half(
        k,
        m2,
        scratch,
        Owner::Mtp,
        s.target_hidden as int,
        w.pre_fc_norm_hidden,
        s.fc_input as int,
        5120,
        rows,
    );
    let m3 = meaning::run(k, m, front.take(3));
    steps::step_gemm(
        k,
        m3,
        scratch,
        Owner::Mtp,
        rows,
        s.fc_input as int,
        w.fc,
        s.fc_output as int,
    );
    let m4 = meaning::run(k, m, front.take(4));
    steps::step_cast(k, m4, scratch, s.fc_output as int, s.hidden as int, rows * 5120);
    assert(meaning::behind(command::at(scratch, s.fc_input as int), 10_240) == command::at(
        scratch,
        s.fc_input + 10_240,
    ));
    assert(steps::matrix_at(m3, Owner::Mtp, w.fc) == steps::matrix_at(m, Owner::Mtp, w.fc));
}

/// The input of the layer is there, and nothing that lasts is changed.
pub open spec fn input_joined<T>(
    k: Kernels<T>,
    m: Cells<T>,
    after: Cells<T>,
    scratch: BufferId,
    s: MtpScratchLayout,
    r: MtpView,
) -> bool {
    let embedding = steps::matrix_at(m, Owner::Target, r.embed);
    &&& after[command::at(scratch, s.hidden as int)] == network::drafter_input(
        k,
        steps::drafter_at(m, r.weights),
        (k.embed)(
            m[command::at(scratch, s.token as int)],
            embedding.weight,
            embedding.scales,
            embedding.biases,
        ),
        m[command::at(scratch, s.target_hidden as int)],
    )
    &&& forall|key: Arg| parts::is_lasting(key) ==> #[trigger] after[key] == m[key]
}

/// The first linear map, the layer, the last norm and the language head make a pass.
#[verifier::rlimit(60)]
proof fn parts_make_the_pass<T>(
    k: Kernels<T>,
    m: Cells<T>,
    scratch: BufferId,
    s: MtpScratchLayout,
    r: MtpView,
    table: SlotTable,
    target: SlotTable,
    rows: int,
    front: Seq<DispatchView>,
    between: Seq<DispatchView>,
    head: DispatchView,
)
    requires
        r.well_formed(),
        names::is_drafter_of(r, table, target),
        parts::is_scratch(scratch),
        places::mtp_in_order(s),
        input_joined(k, m, meaning::run(k, m, front), scratch, s, r),
        rest_ran(
            k,
            meaning::run(k, m, front),
            meaning::run(k, meaning::run(k, m, front), between),
            scratch,
            s,
            steps::drafter_at(meaning::run(k, m, front), r.weights).layer,
            next_rows(r, rows),
        ),
        head == dispatch::qmv(
            scratch,
            Owner::Target,
            s.normalized as int,
            r.head,
            s.logits as int,
            rows,
        ) || head == dispatch::gemm(
            scratch,
            Owner::Target,
            rows,
            s.normalized as int,
            r.head,
            s.logits as int,
        ),
    ensures
        pass_ran(
            k,
            m,
            meaning::run(
                k,
                m,
                front + between + seq![
                    dispatch::norm(
                        scratch,
                        Owner::Mtp,
                        s.hidden as int,
                        r.weights.final_norm,
                        s.normalized as int,
                        rows,
                    ),
                    head,
                ],
            ),
            scratch,
            s,
            r,
            table,
            target,
            rows,
        ),
{
    let w = r.weights;
    let d1 = dispatch::norm(
        scratch,
        Owner::Mtp,
        s.hidden as int,
        w.final_norm,
        s.normalized as int,
        rows,
    );
    names::drafter_is_bound_by_name(m, r, table, target);
    let m1 = meaning::run(k, m, front);
    let m2 = meaning::run(k, m1, between);
    meaning::run_of_both(k, m, front, between);
    meaning::run_of_both(k, m, front + between, seq![d1, head]);
    assert(seq![d1, head] =~= seq![d1] + seq![head]);
    meaning::run_of_both(k, m2, seq![d1], seq![head]);
    meaning::run_of_one(k, m2, d1);
    steps::step_norm(
        k,
        m2,
        scratch,
        Owner::Mtp,
        s.hidden as int,
        w.final_norm,
        s.normalized as int,
        rows,
    );
    let m3 = meaning::run(k, m2, seq![d1]);
    meaning::run_of_one(k, m3, head);
    steps::step_qmv(
        k,
        m3,
        scratch,
        Owner::Target,
        s.normalized as int,
        r.head,
        s.logits as int,
        rows,
    );
    steps::step_gemm(
        k,
        m3,
        scratch,
        Owner::Target,
        rows,
        s.normalized as int,
        r.head,
        s.logits as int,
    );
    assert(steps::drafter_at(m1, w) == steps::drafter_at(m, w));
    assert(past_at(m1) == past_at(m));
    assert(steps::matrix_at(m3, Owner::Target, r.head) == steps::matrix_at(
        m,
        Owner::Target,
        r.head,
    ));
    assert(steps::vector_at(m2, Owner::Mtp, w.final_norm) == steps::vector_at(
        m,
        Owner::Mtp,
        w.final_norm,
    ));
}

/// A pass over one position computes what the drafter guesses from the token and the hidden
/// state, and adds the position to the keys and values.
#[verifier::rlimit(40)]
pub proof fn drafting_computes_the_drafter<T>(
    k: Kernels<T>,
    m: Cells<T>,
    r: MtpView,
    table: SlotTable,
    target: SlotTable,
    argmax: bool,
)
    requires
        r.well_formed(),
        names::is_drafter_of(r, table, target),
        r.position < r.capacity,
    ensures
        ({
            let s = r.scratch;
            let after = meaning::run(k, m, mtp::draft_plan(r, argmax));
            let logits = after[command::at(BufferId::Scratch, s.logits as int)];
            &&& pass_ran(k, m, after, BufferId::Scratch, s, r, table, target, 1)
            &&& argmax ==> after[command::at(BufferId::Scratch, s.argmax_partial as int)] == (
            k.largest)(logits)
            &&& argmax ==> after[command::at(BufferId::Scratch, s.argmax_partial + 3880)] == (
            k.largest_at)(logits)
        }),
{
    let s = r.scratch;
    let scratch = BufferId::Scratch;
    let plan = mtp::draft_plan(r, false);
    let front = plan.take(5);
    let between = draft_layer(r);
    names::drafter_is_bound_by_name(m, r, table, target);
    places::mtp_scratch_in_order(s, 1);
    layout::mtp_scratch_bounds(s, 1);
    drafting_joins_token_and_hidden(k, m, r, front);
    drafting_runs_the_layer(k, meaning::run(k, m, front), r);
    let head = dispatch::qmv(
        scratch,
        Owner::Target,
        s.normalized as int,
        r.head,
        s.logits as int,
        1,
    );
    parts_make_the_pass(k, m, scratch, s, r, table, target, 1, front, between, head);
    assert(plan =~= front + between + seq![
        dispatch::norm(
            scratch,
            Owner::Mtp,
            s.hidden as int,
            r.weights.final_norm,
            s.normalized as int,
            1,
        ),
        head,
    ]);
    if argmax {
        let search = dispatch::argmax(scratch, s.logits as int, s.argmax_partial as int);
        let before = meaning::run(k, m, plan);
        assert(mtp::draft_plan(r, true) =~= plan + seq![search]);
        meaning::run_of_both(k, m, plan, seq![search]);
        meaning::run_of_one(k, before, search);
        steps::step_argmax(k, before, scratch, s.logits as int, s.argmax_partial as int);
    }
}

/// A pass over many positions computes what the drafter guesses from the tokens and the
/// hidden states, and adds the positions to the keys and values.
#[verifier::rlimit(40)]
pub proof fn prefilling_computes_the_drafter<T>(
    k: Kernels<T>,
    m: Cells<T>,
    r: MtpView,
    table: SlotTable,
    target: SlotTable,
    rows: int,
)
    requires
        r.well_formed(),
        names::is_drafter_of(r, table, target),
        1 <= rows <= 64,
        r.position + rows <= r.capacity,
    ensures
        ({
            let s = r.prefill;
            let after = meaning::run(k, m, mtp::prefill_plan(r, rows));
            &&& pass_ran(k, m, after, BufferId::PrefillScratch, s, r, table, target, rows)
            &&& rows_searched(k, after, after, s, rows)
        }),
{
    let s = r.prefill;
    let scratch = BufferId::PrefillScratch;
    let plan = mtp::prefill_plan(r, rows);
    let front = plan.take(5);
    let between = prefill_layer(r, rows);
    names::drafter_is_bound_by_name(m, r, table, target);
    places::mtp_scratch_in_order(s, 64);
    layout::mtp_scratch_bounds(s, 64);
    prefilling_joins_token_and_hidden(k, m, r, rows, front);
    prefilling_runs_the_layer(k, meaning::run(k, m, front), r, rows);
    let head = dispatch::gemm(
        scratch,
        Owner::Target,
        rows,
        s.normalized as int,
        r.head,
        s.logits as int,
    );
    let search = mtp::argmax_rows(s, rows);
    let main = front + between + seq![
        dispatch::norm(
            scratch,
            Owner::Mtp,
            s.hidden as int,
            r.weights.final_norm,
            s.normalized as int,
            rows,
        ),
        head,
    ];
    parts_make_the_pass(k, m, scratch, s, r, table, target, rows, front, between, head);
    assert(plan =~= main + search);
    let before = meaning::run(k, m, main);
    meaning::run_of_both(k, m, main, search);
    searching_the_rows(k, before, s, rows);
    assert(is_in_front(command::at(scratch, s.normalized as int), s));
    assert(is_in_front(command::at(scratch, s.logits as int), s));
    assert(is_in_front(steps::keys_place(0), s) && is_in_front(steps::values_place(0), s));
    let after = meaning::run(k, before, search);
    assert forall|row: int| 0 <= row < rows implies after[#[trigger] logits_of(s, row)]
        == before[logits_of(s, row)] by {
        readback::row_fits(row, 64, 993_280);
        assert(is_in_front(logits_of(s, row), s));
    }
}

/// Whether an address is in front of the results of the search for the largest logits.
pub open spec fn is_in_front(key: Arg, s: MtpScratchLayout) -> bool {
    match key {
        Arg::Buffer { buffer, offset } => buffer is PrefillScratch ==> offset < s.argmax_partial,
        _ => true,
    }
}

/// Where the logits of a row lie: each is 248320 numbers of four bytes.
pub open spec fn logits_of(s: MtpScratchLayout, row: int) -> Arg {
    command::at(BufferId::PrefillScratch, s.logits + row * 993_280)
}

/// The results of the search in a row are those of the row's logits.
pub open spec fn rows_searched<T>(
    k: Kernels<T>,
    m: Cells<T>,
    after: Cells<T>,
    s: MtpScratchLayout,
    n: int,
) -> bool {
    forall|row: int|
        0 <= row < n ==> {
            let logits = m[#[trigger] logits_of(s, row)];
            let base = s.argmax_partial + row * 7760;
            &&& after[command::at(BufferId::PrefillScratch, base)] == (k.largest)(logits)
            &&& after[command::at(BufferId::PrefillScratch, base + 3880)] == (k.largest_at)(logits)
        }
}

/// The searches for the largest logits, one row after the other.
#[verifier::rlimit(40)]
proof fn searching_the_rows<T>(k: Kernels<T>, m: Cells<T>, s: MtpScratchLayout, n: int)
    requires
        s.is_for(64),
        0 <= n <= 64,
    ensures
        rows_searched(k, m, meaning::run(k, m, mtp::argmax_rows(s, n)), s, n),
        forall|key: Arg|
            is_in_front(key, s) ==> #[trigger] meaning::run(k, m, mtp::argmax_rows(s, n))[key]
                == m[key],
    decreases n,
{
    let scratch = BufferId::PrefillScratch;
    if n > 0 {
        let all = mtp::argmax_rows(s, n);
        let row = n - 1;
        searching_the_rows(k, m, s, row);
        assert(all.drop_last() =~= mtp::argmax_rows(s, row));
        let before = meaning::run(k, m, all.drop_last());
        steps::step_argmax(
            k,
            before,
            scratch,
            s.logits + row * 993_280,
            s.argmax_partial + row * 7760,
        );
        layout::mtp_scratch_bounds(s, 64);
        readback::row_fits(row, 64, 993_280);
        readback::row_fits(row, 64, 7760);
        let after = meaning::run(k, m, all);
        assert(is_in_front(logits_of(s, row), s));
        assert forall|i: int| 0 <= i < row implies {
            let logits = m[#[trigger] logits_of(s, i)];
            let base = s.argmax_partial + i * 7760;
            &&& after[command::at(scratch, base)] == (k.largest)(logits)
            &&& after[command::at(scratch, base + 3880)] == (k.largest_at)(logits)
        } by {
            readback::row_fits(i, 64, 7760);
            assert(before[command::at(scratch, s.argmax_partial + i * 7760)] == (k.largest)(
                m[logits_of(s, i)],
            ));
        }
    }
}

/// A pass over one position computes what a pass over many computes for that one position
/// alone: the same hidden state, the same logits and the same keys and values.
#[verifier::rlimit(40)]
pub proof fn drafting_and_prefilling_agree<T>(
    k: Kernels<T>,
    m: Cells<T>,
    other: Cells<T>,
    r: MtpView,
    table: SlotTable,
    target: SlotTable,
    argmax: bool,
)
    requires
        r.well_formed(),
        names::is_drafter_of(r, table, target),
        r.position < r.capacity,
        stack::same_weights(other, m),
        past_at(other) == past_at(m),
        other[command::at(BufferId::PrefillScratch, r.prefill.token as int)] == m[command::at(
            BufferId::Scratch,
            r.scratch.token as int,
        )],
        other[command::at(BufferId::PrefillScratch, r.prefill.target_hidden as int)]
            == m[command::at(BufferId::Scratch, r.scratch.target_hidden as int)],
    ensures
        ({
            let one = meaning::run(k, m, mtp::draft_plan(r, argmax));
            let many = meaning::run(k, other, mtp::prefill_plan(r, 1));
            &&& one[command::at(BufferId::Scratch, r.scratch.normalized as int)]
                == many[command::at(BufferId::PrefillScratch, r.prefill.normalized as int)]
            &&& one[command::at(BufferId::Scratch, r.scratch.logits as int)]
                == many[command::at(BufferId::PrefillScratch, r.prefill.logits as int)]
            &&& past_at(one) == past_at(many)
        }),
{
    drafting_computes_the_drafter(k, m, r, table, target, argmax);
    prefilling_computes_the_drafter(k, other, r, table, target, 1);
    passes::same_tensors(other, m, table, Owner::Mtp);
    passes::same_tensors(other, m, target, Owner::Target);
}

} // verus!
