//! What a generation costs, and what the drafter is given.

use vstd::prelude::*;

use crate::speculative::block3;
use crate::speculative::block3::{Block3Action, Block3Event, Block3View, Condition, Phase};
use crate::speculative::laws;
use crate::speculative::laws::{Run, TargetModel};

verus! {

// ---------------------------------------------------------------------------
// Costs
// ---------------------------------------------------------------------------

/// A block has been verified, and its tokens are still to be handed out.
pub open spec fn is_pending(phase: Phase) -> bool {
    phase is Settling || phase is Replaying
}

/// While a generation is under way there is one token from the prompt, one for each forward
/// pass of the target and one for each accepted draft, but for a block that is pending. Of a
/// generation that ended at the stop token, what its last pass gave was not handed out whole.
pub open spec fn is_paid_for(v: Block3View) -> bool {
    &&& v.phase !is Finished ==> v.tokens.len() + (if is_pending(v.phase) {
        1int
    } else {
        0int
    }) == 1 + v.target_forwards + v.accepted_drafts
    &&& v.phase is Finished ==> v.target_forwards + v.accepted_drafts <= v.tokens.len()
        <= v.target_forwards + v.accepted_drafts + 2
}

/// A step is paid for.
#[verifier::rlimit(40)]
proof fn step_is_paid_for(v: Block3View, event: Block3Event)
    requires
        v.well_formed(),
        v.expects(event),
        is_paid_for(v),
    ensures
        is_paid_for(v.next(event).after),
{
    match (v.phase, event) {
        (Phase::Settling { t0, t1, t2, accepted }, Block3Event::Token(seed)) => {
            let block = seq![t0, t1, t2].take(accepted + 1);
            let emitted = block3::until(block, v.eos);
            laws::until_is_a_prefix(block, v.eos);
            assert((v.tokens + emitted).len() == v.tokens.len() + emitted.len());
        },
        _ => {},
    }
}

/// Every accepted draft saves a forward pass of the target: a generation under way has
/// handed out one token from the prompt, one for each pass and one for each accepted draft;
/// each round drafted two tokens; and no more drafts were accepted than drafted.
pub proof fn accepted_drafts_save_passes(
    model: TargetModel,
    prompt: Seq<u32>,
    seed: Option<u32>,
    alone: bool,
    max_tokens: int,
    eos: Option<u32>,
    drafts: Seq<u32>,
)
    requires
        0 <= max_tokens,
        max_tokens * 4 <= isize::MAX,
    ensures
        ({
            let v = laws::run(model, prompt, seed, alone, max_tokens, eos, drafts).loop_view;
            &&& is_paid_for(v)
            &&& v.drafted_tokens == 2 * v.rounds
            &&& v.accepted_drafts <= v.drafted_tokens
        }),
    decreases drafts.len(),
{
    laws::honest_answers_are_expected(
        model,
        prompt,
        seed,
        alone,
        max_tokens,
        eos,
        drafts,
        0,
    );
    if drafts.len() > 0 {
        let earlier = drafts.drop_last();
        accepted_drafts_save_passes(model, prompt, seed, alone, max_tokens, eos, earlier);
        laws::honest_answers_are_expected(
            model,
            prompt,
            seed,
            alone,
            max_tokens,
            eos,
            earlier,
            drafts.last(),
        );
        let before = laws::run(model, prompt, seed, alone, max_tokens, eos, earlier);
        if before.action !is Finished {
            let event = laws::perform(model, before.target, before.action, drafts.last()).1;
            step_is_paid_for(before.loop_view, event);
        }
    }
}

// ---------------------------------------------------------------------------
// What the drafter is given
// ---------------------------------------------------------------------------

/// What the target answered to each row of its last pass, and what the drafter answered
/// last.
pub struct Sources {
    pub rows: Seq<u32>,
    pub draft: Option<u32>,
}

/// The answers once an action was carried out on a target that answers by `model`, with
/// `draft` as the answer of the drafter.
pub open spec fn answered(model: TargetModel, before: Run, s: Sources, draft: u32) -> Sources {
    let fed = before.target.fed;
    match before.action {
        Block3Action::Decode { token } => Sources { rows: seq![model(fed.push(token))], ..s },
        Block3Action::Verify { bonus, first, second } => Sources {
            rows: seq![
                model(fed.push(bonus)),
                model(fed.push(bonus).push(first)),
                model(fed.push(bonus).push(first).push(second)),
            ],
            ..s
        },
        Block3Action::Draft { .. } => Sources { draft: Some(draft), ..s },
        Block3Action::Settle { .. } => Sources { draft: Some(draft), ..s },
        Block3Action::Finished => s,
    }
}

/// The answers after `drafts.len()` steps. The pass over the prompt has one row that
/// matters, the last.
pub open spec fn sources(
    model: TargetModel,
    prompt: Seq<u32>,
    seed: Option<u32>,
    alone: bool,
    max_tokens: int,
    eos: Option<u32>,
    drafts: Seq<u32>,
) -> Sources
    decreases drafts.len(),
{
    if drafts.len() == 0 {
        Sources { rows: seq![model(prompt)], draft: seed }
    } else {
        let earlier = drafts.drop_last();
        answered(
            model,
            laws::run(model, prompt, seed, alone, max_tokens, eos, earlier),
            sources(model, prompt, seed, alone, max_tokens, eos, earlier),
            drafts.last(),
        )
    }
}

/// A token that the drafter is to run comes with the hidden state that it came from.
pub open spec fn is_conditioned(action: Block3Action, s: Sources) -> bool {
    match action {
        Block3Action::Draft { token, condition } => match condition {
            Condition::TargetRow(row) => row < s.rows.len() && s.rows[row as int] == token,
            Condition::Own => s.draft == Some(token),
        },
        Block3Action::Settle { token, row, .. } => row < s.rows.len() && s.rows[row as int]
            == token,
        _ => true,
    }
}

/// The link between the loop and the answers.
spec fn is_linked(v: Block3View, action: Block3Action, s: Sources) -> bool {
    match v.phase {
        Phase::Tail => action is Decode,
        Phase::FirstDraft => action is Draft,
        Phase::SecondDraft { .. } => action is Draft,
        Phase::Verifying { first, second, .. } => action == (Block3Action::Verify {
            bonus: v.bonus,
            first,
            second,
        }),
        Phase::Replaying { t0, t1, t2 } => action is Settle && s.rows == seq![t0, t1, t2],
        Phase::Settling { t0, t1, t2, .. } => (action is Settle || action is Draft) && s.rows
            == seq![t0, t1, t2],
        Phase::Finished => action is Finished,
    }
}

/// Whatever token the drafter is given, it is given with the hidden state from which that
/// token was predicted: one of the target's, at the row of its last pass whose answer the
/// token is; or the drafter's own, where the token is its last draft.
pub proof fn drafts_come_from_their_hidden_states(
    model: TargetModel,
    prompt: Seq<u32>,
    seed: Option<u32>,
    alone: bool,
    max_tokens: int,
    eos: Option<u32>,
    drafts: Seq<u32>,
)
    requires
        0 <= max_tokens,
        max_tokens * 4 <= isize::MAX,
    ensures
        is_conditioned(
            laws::run(model, prompt, seed, alone, max_tokens, eos, drafts).action,
            sources(model, prompt, seed, alone, max_tokens, eos, drafts),
        ),
{
    linked(model, prompt, seed, alone, max_tokens, eos, drafts);
}

/// The loop and the answers stay linked.
proof fn linked(
    model: TargetModel,
    prompt: Seq<u32>,
    seed: Option<u32>,
    alone: bool,
    max_tokens: int,
    eos: Option<u32>,
    drafts: Seq<u32>,
)
    requires
        0 <= max_tokens,
        max_tokens * 4 <= isize::MAX,
    ensures
        ({
            let now = laws::run(model, prompt, seed, alone, max_tokens, eos, drafts);
            let s = sources(model, prompt, seed, alone, max_tokens, eos, drafts);
            is_conditioned(now.action, s) && is_linked(now.loop_view, now.action, s)
        }),
    decreases drafts.len(),
{
    if drafts.len() > 0 {
        let earlier = drafts.drop_last();
        linked(model, prompt, seed, alone, max_tokens, eos, earlier);
        let draft = drafts.last();
        laws::honest_answers_are_expected(
            model,
            prompt,
            seed,
            alone,
            max_tokens,
            eos,
            earlier,
            draft,
        );
        let before = laws::run(model, prompt, seed, alone, max_tokens, eos, earlier);
        let s = sources(model, prompt, seed, alone, max_tokens, eos, earlier);
        if before.action !is Finished {
            step_is_linked(model, before, s, draft);
        }
    }
}

/// One step keeps the loop and the answers linked.
#[verifier::rlimit(40)]
proof fn step_is_linked(model: TargetModel, before: Run, s: Sources, draft: u32)
    requires
        before.loop_view.well_formed(),
        before.loop_view.expects(
            laws::perform(model, before.target, before.action, draft).1,
        ),
        is_conditioned(before.action, s),
        is_linked(before.loop_view, before.action, s),
        before.action !is Finished,
    ensures
        ({
            let now = laws::stepped(model, before, draft);
            let answers = answered(model, before, s, draft);
            is_conditioned(now.action, answers) && is_linked(now.loop_view, now.action, answers)
        }),
{
    let v = before.loop_view;
    let event = laws::perform(model, before.target, before.action, draft).1;
    let now = laws::stepped(model, before, draft);
    let answers = answered(model, before, s, draft);
    match v.phase {
        Phase::Tail => {
            let next = event->Token_0;
            assert(v.tokens.push(next).len() == v.tokens.len() + 1);
        },
        Phase::Settling { t0, t1, t2, accepted } => {
            let block = seq![t0, t1, t2].take(accepted + 1);
            laws::until_is_a_prefix(block, v.eos);
            assert(answers.draft == Some(draft));
        },
        _ => {},
    }
}

} // verus!
