//! What speculative generation amounts to: exactly the tokens that the target model
//! would have decoded greedily, one by one, whatever the drafter proposed.

use vstd::prelude::*;

use crate::speculative::block3;
use crate::speculative::block3::{Block3Action, Block3Event, Block3View, Condition, Phase};

verus! {

/// A target model, as far as greedy decoding goes: the token it produces after having
/// been fed a sequence of tokens.
pub type TargetModel = spec_fn(Seq<u32>) -> u32;

/// What the target holds: the tokens it was fed, and the batch that it has run but not
/// committed.
pub struct TargetState {
    pub fed: Seq<u32>,
    pub batch: Seq<u32>,
}

/// What a target that answers by `model` does on an action, with `draft` as the answer
/// of the drafter where it is the drafter that answers.
pub open spec fn perform(
    model: TargetModel,
    target: TargetState,
    action: Block3Action,
    draft: u32,
) -> (TargetState, Block3Event) {
    match action {
        Block3Action::Decode { token } => {
            let fed = target.fed.push(token);
            (TargetState { fed, ..target }, Block3Event::Token(model(fed)))
        },
        Block3Action::Draft { .. } => (target, Block3Event::Token(draft)),
        Block3Action::Verify { bonus, first, second } => (
            TargetState { batch: seq![bonus, first, second], ..target },
            Block3Event::Verified(
                model(target.fed.push(bonus)),
                model(target.fed.push(bonus).push(first)),
                model(target.fed.push(bonus).push(first).push(second)),
            ),
        ),
        Block3Action::Settle { rows, .. } => (
            TargetState {
                fed: target.fed + target.batch.take(rows as int),
                batch: Seq::empty(),
            },
            Block3Event::Token(draft),
        ),
        Block3Action::Finished => (target, Block3Event::Token(draft)),
    }
}

/// The tokens that the drafter has run, after an action.
pub open spec fn drafted(drafter: Seq<u32>, action: Block3Action) -> Seq<u32> {
    match action {
        Block3Action::Draft { token, .. } => drafter.push(token),
        Block3Action::Settle { trim, token, .. } => drafter.take(drafter.len() - trim).push(token),
        _ => drafter,
    }
}

/// Whether a loop in this phase has just opened a round with drafts.
pub open spec fn opens_round(phase: Phase) -> bool {
    match phase {
        Phase::FirstDraft => true,
        Phase::SecondDraft { appended, .. } => appended == 1,
        _ => false,
    }
}

/// A generation as far as it has gone.
pub struct Run {
    pub loop_view: Block3View,
    pub action: Block3Action,
    pub target: TargetState,
    pub emitted: Seq<u32>,
    /// The tokens that the drafter has run.
    pub drafter: Seq<u32>,
    /// How many they were when the present round began.
    pub round_began: int,
}

/// The tokens that the drafter has run before a generation: those of the prompt from the
/// second on, and the first generated one, where it has made a draft behind it.
pub open spec fn prefilled(prompt: Seq<u32>, bonus: u32, seed: Option<u32>) -> Seq<u32> {
    if seed is Some {
        prompt.push(bonus).skip(1)
    } else {
        prompt.skip(1)
    }
}

/// The generation one step on, with `draft` as the drafter's answer.
pub open spec fn stepped(model: TargetModel, before: Run, draft: u32) -> Run {
    let (target, event) = perform(model, before.target, before.action, draft);
    let step = before.loop_view.next(event);
    let drafter = drafted(before.drafter, before.action);
    Run {
        loop_view: step.after,
        action: step.action,
        target,
        emitted: before.emitted + step.emitted,
        drafter,
        round_began: if opens_round(step.after.phase) {
            drafter.len() as int
        } else {
            before.round_began
        },
    }
}

/// The generation after `drafts.len()` steps: the target was fed `prompt`, answers by
/// `model`, and the drafter's answer to step `i` is `drafts[i]`; with `alone` there is no
/// drafter. A finished generation stays as it is.
pub open spec fn run(
    model: TargetModel,
    prompt: Seq<u32>,
    seed: Option<u32>,
    alone: bool,
    max_tokens: int,
    eos: Option<u32>,
    drafts: Seq<u32>,
) -> Run
    decreases drafts.len(),
{
    if drafts.len() == 0 {
        let first = Block3View::first(model(prompt), seed, alone, max_tokens, eos);
        Run {
            loop_view: first.after,
            action: first.action,
            target: TargetState { fed: prompt, batch: Seq::empty() },
            emitted: first.emitted,
            drafter: prefilled(prompt, model(prompt), seed),
            round_began: prefilled(prompt, model(prompt), seed).len() as int,
        }
    } else {
        let before = run(model, prompt, seed, alone, max_tokens, eos, drafts.drop_last());
        if before.action is Finished {
            before
        } else {
            stepped(model, before, drafts.last())
        }
    }
}

/// `tokens` is what the target decodes greedily after `prompt`: each of them is its
/// answer to the prompt and the tokens before.
pub open spec fn is_greedy(model: TargetModel, prompt: Seq<u32>, tokens: Seq<u32>) -> bool {
    forall|i: int|
        0 <= i < tokens.len() ==> tokens[i] == model(prompt + #[trigger] tokens.take(i))
}

/// None of the tokens is the stop token.
pub open spec fn free_of(tokens: Seq<u32>, eos: Option<u32>) -> bool {
    forall|i: int| 0 <= i < tokens.len() ==> eos != Some(#[trigger] tokens[i])
}

/// A finished generation has handed out all the tokens that were asked for, or the
/// target's next token is the stop token.
pub open spec fn is_complete(
    model: TargetModel,
    prompt: Seq<u32>,
    max_tokens: int,
    eos: Option<u32>,
    emitted: Seq<u32>,
) -> bool {
    emitted.len() == max_tokens || eos == Some(model(prompt + emitted))
}

/// What the target was fed while a generation is under way: the prompt and the tokens but
/// the last; and those of the block too, once it is committed.
spec fn is_fed(prompt: Seq<u32>, run: Run) -> bool {
    let v = run.loop_view;
    match v.phase {
        Phase::Finished => true,
        Phase::Settling { t0, t1, .. } => if run.action is Draft {
            run.target.fed == (prompt + v.tokens).push(t0).push(t1)
        } else {
            prompt + v.tokens == run.target.fed.push(v.bonus)
        },
        _ => prompt + v.tokens == run.target.fed.push(v.bonus),
    }
}

/// The last action of a round: the block is committed, or it is and the drafter goes on.
spec fn is_settling(run: Run, t0: u32, t1: u32, accepted: usize) -> bool {
    let v = run.loop_view;
    if run.action is Draft {
        accepted == 2
    } else {
        &&& run.action is Settle
        &&& run.action->rows == accepted + 1
        &&& run.target.batch.len() == 3
        &&& run.target.batch[0] == v.bonus
        &&& accepted >= 1 ==> run.target.batch[1] == t0
        &&& accepted >= 2 ==> run.target.batch[2] == t1
    }
}

/// The link between the loop and the target while a generation is under way.
spec fn in_step(model: TargetModel, prompt: Seq<u32>, run: Run) -> bool {
    let v = run.loop_view;
    &&& v.well_formed()
    &&& is_greedy(model, prompt, v.tokens)
    &&& is_greedy(model, prompt, run.emitted)
    &&& free_of(run.emitted, v.eos)
    &&& run.emitted.len() <= v.max_tokens
    &&& run.emitted == v.tokens
    &&& (run.action is Finished <==> v.phase is Finished)
    &&& is_fed(prompt, run)
    &&& match v.phase {
        Phase::Tail => run.action == (Block3Action::Decode { token: v.bonus }),
        Phase::FirstDraft => run.action is Draft,
        Phase::SecondDraft { .. } => run.action is Draft,
        Phase::Verifying { first, second, .. } => run.action == (Block3Action::Verify {
            bonus: v.bonus,
            first,
            second,
        }),
        Phase::Replaying { t0, t1, t2 } => {
            &&& run.action is Settle
            &&& run.action->rows == 3
            &&& run.target.batch =~= seq![v.bonus, t0, t1]
            &&& t0 == model(prompt + v.tokens)
            &&& t1 == model((prompt + v.tokens).push(t0))
            &&& t2 == model((prompt + v.tokens).push(t0).push(t1))
        },
        Phase::Settling { t0, t1, t2, accepted } => {
            &&& is_settling(run, t0, t1, accepted)
            &&& t0 == model(prompt + v.tokens)
            &&& accepted >= 1 ==> t1 == model((prompt + v.tokens).push(t0))
            &&& accepted >= 2 ==> t2 == model((prompt + v.tokens).push(t0).push(t1))
        },
        Phase::Finished => is_complete(model, prompt, v.max_tokens, v.eos, run.emitted),
    }
}

/// What is kept is a prefix without the stop token, and ends only before it.
pub proof fn until_is_a_prefix(tokens: Seq<u32>, eos: Option<u32>)
    ensures
        block3::until(tokens, eos).len() <= tokens.len(),
        block3::until(tokens, eos) == tokens.take(block3::until(tokens, eos).len() as int),
        free_of(block3::until(tokens, eos), eos),
        block3::until(tokens, eos).len() < tokens.len() ==> eos == Some(
            tokens[block3::until(tokens, eos).len() as int],
        ),
    decreases tokens.len(),
{
    if tokens.len() > 0 && eos != Some(tokens[0]) {
        until_is_a_prefix(tokens.skip(1), eos);
        let n = block3::until(tokens.skip(1), eos).len() as int;
        assert(seq![tokens[0]] + tokens.skip(1).take(n) =~= tokens.take(n + 1));
        assert forall|i: int| 0 <= i < block3::until(tokens, eos).len() implies eos != Some(
            #[trigger] block3::until(tokens, eos)[i],
        ) by {
            if i > 0 {
                assert(block3::until(tokens, eos)[i] == block3::until(tokens.skip(1), eos)[i - 1]);
            }
        }
    } else {
        assert(block3::until(tokens, eos) =~= tokens.take(0));
    }
}

/// Greedy tokens followed by the target's answers to them are greedy tokens.
proof fn greedy_extends(model: TargetModel, prompt: Seq<u32>, tokens: Seq<u32>, more: Seq<u32>)
    requires
        is_greedy(model, prompt, tokens),
        forall|k: int|
            0 <= k < more.len() ==> more[k] == model(
                prompt + tokens + #[trigger] more.take(k),
            ),
    ensures
        is_greedy(model, prompt, tokens + more),
{
    let all = tokens + more;
    assert forall|i: int| 0 <= i < all.len() implies all[i] == model(
        prompt + #[trigger] all.take(i),
    ) by {
        if i < tokens.len() {
            assert(all.take(i) =~= tokens.take(i));
        } else {
            let k = i - tokens.len();
            assert(prompt + all.take(i) =~= prompt + tokens + more.take(k));
        }
    }
}

/// One honest step keeps the loop and the target in step.
proof fn step_keeps(model: TargetModel, prompt: Seq<u32>, before: Run, draft: u32)
    requires
        in_step(model, prompt, before),
        before.action !is Finished,
    ensures
        before.loop_view.expects(perform(model, before.target, before.action, draft).1),
        in_step(model, prompt, stepped(model, before, draft)),
{
    let v = before.loop_view;
    let (target, event) = perform(model, before.target, before.action, draft);
    let step = v.next(event);
    let after = stepped(model, before, draft);
    match v.phase {
        Phase::Tail => {
            let next = event->Token_0;
            assert(next == model(prompt + v.tokens));
            if v.eos == Some(next) {
                assert(after.emitted =~= before.emitted);
            } else {
                let more = seq![next];
                assert(prompt + v.tokens + more.take(0) =~= prompt + v.tokens);
                greedy_extends(model, prompt, v.tokens, more);
                assert(v.tokens + more =~= v.tokens.push(next));
                assert(after.emitted =~= v.tokens.push(next));
                assert(prompt + v.tokens.push(next) =~= (prompt + v.tokens).push(next));
            }
        },
        Phase::FirstDraft => {
            assert(after.emitted =~= before.emitted);
        },
        Phase::SecondDraft { .. } => {
            assert(after.emitted =~= before.emitted);
        },
        Phase::Verifying { first, second, .. } => {
            assert(after.emitted =~= before.emitted);
        },
        Phase::Replaying { t0, t1, t2 } => {
            assert(after.emitted =~= before.emitted);
            let batch = before.target.batch;
            assert(batch.take(3) =~= seq![v.bonus, t0, t1]);
            assert(before.target.fed + batch.take(3) =~= before.target.fed.push(v.bonus).push(
                t0,
            ).push(t1));
        },
        Phase::Settling { .. } => {
            settling_keeps(model, prompt, before, draft);
        },
        Phase::Finished => {},
    }
}

/// The step that settles a block keeps the loop and the target in step.
proof fn settling_keeps(model: TargetModel, prompt: Seq<u32>, before: Run, draft: u32)
    requires
        in_step(model, prompt, before),
        before.loop_view.phase is Settling,
    ensures
        in_step(model, prompt, stepped(model, before, draft)),
{
    let v = before.loop_view;
    let (target, event) = perform(model, before.target, before.action, draft);
    let step = v.next(event);
    let (t0, t1, t2, accepted) = match v.phase {
        Phase::Settling { t0, t1, t2, accepted } => (t0, t1, t2, accepted),
        _ => (0, 0, 0, 0),
    };
    let block = seq![t0, t1, t2].take(accepted + 1);
    let kept = block3::until(block, v.eos);
    until_is_a_prefix(block, v.eos);
    assert forall|k: int| 0 <= k < block.len() implies block[k] == model(
        prompt + v.tokens + #[trigger] block.take(k),
    ) by {
        if k == 0 {
            assert(prompt + v.tokens + block.take(0) =~= prompt + v.tokens);
        } else if k == 1 {
            assert(prompt + v.tokens + block.take(1) =~= (prompt + v.tokens).push(t0));
        } else {
            assert(prompt + v.tokens + block.take(2) =~= (prompt + v.tokens).push(t0).push(t1));
        }
    }
    assert forall|k: int| 0 <= k < kept.len() implies kept[k] == model(
        prompt + v.tokens + #[trigger] kept.take(k),
    ) by {
        assert(kept.take(k) =~= block.take(k));
    }
    greedy_extends(model, prompt, v.tokens, kept);
    assert(free_of(before.emitted + kept, v.eos)) by {
        assert forall|i: int| 0 <= i < (before.emitted + kept).len() implies v.eos != Some(
            #[trigger] (before.emitted + kept)[i],
        ) by {
            if i >= before.emitted.len() {
                assert((before.emitted + kept)[i] == kept[i - before.emitted.len()]);
            }
        }
    }
    if kept.len() < block.len() {
        assert(prompt + (v.tokens + kept) =~= prompt + v.tokens + block.take(kept.len() as int));
    } else {
        assert(kept =~= block);
        if before.action is Draft {
            assert(block =~= seq![t0, t1, t2]);
            assert(prompt + (v.tokens + block) =~= before.target.fed.push(t2));
        } else {
            let fed = before.target.fed + before.target.batch.take(accepted + 1);
            assert(prompt + (v.tokens + block) =~= before.target.fed.push(v.bonus) + block);
            assert(before.target.fed.push(v.bonus) + block =~= fed.push(block.last()));
        }
    }
}

/// Every honest run is in step.
proof fn run_is_in_step(
    model: TargetModel,
    prompt: Seq<u32>,
    seed: Option<u32>,
    alone: bool,
    max_tokens: int,
    eos: Option<u32>,
    drafts: Seq<u32>,
)
    requires
        0 <= max_tokens,
        max_tokens * 4 <= isize::MAX,
    ensures
        in_step(model, prompt, run(model, prompt, seed, alone, max_tokens, eos, drafts)),
        run(model, prompt, seed, alone, max_tokens, eos, drafts).loop_view.max_tokens == max_tokens,
        run(model, prompt, seed, alone, max_tokens, eos, drafts).loop_view.eos == eos,
    decreases drafts.len(),
{
    if drafts.len() == 0 {
        let bonus = model(prompt);
        let more = seq![bonus];
        let none = Seq::<u32>::empty();
        assert(prompt + none =~= prompt);
        assert(prompt + none + more.take(0) =~= prompt);
        greedy_extends(model, prompt, none, more);
        assert(none + more =~= more);
        assert(prompt + more =~= prompt.push(bonus));
    } else {
        run_is_in_step(model, prompt, seed, alone, max_tokens, eos, drafts.drop_last());
        let before = run(model, prompt, seed, alone, max_tokens, eos, drafts.drop_last());
        if before.action !is Finished {
            step_keeps(model, prompt, before, drafts.last());
        }
    }
}

/// Whatever the drafter answers, and whether there is one, at every step: the tokens of the
/// result are those handed out, and the ones the target decodes greedily by itself; none of
/// them is the stop token; there are at most `max_tokens` of them; and a finished generation
/// has handed out `max_tokens` tokens, or all those before the target's stop token.
pub proof fn speculation_is_greedy(
    model: TargetModel,
    prompt: Seq<u32>,
    seed: Option<u32>,
    alone: bool,
    max_tokens: int,
    eos: Option<u32>,
    drafts: Seq<u32>,
)
    requires
        0 <= max_tokens,
        max_tokens * 4 <= isize::MAX,
    ensures
        ({
            let now = run(model, prompt, seed, alone, max_tokens, eos, drafts);
            &&& now.loop_view.tokens == now.emitted
            &&& is_greedy(model, prompt, now.emitted)
            &&& free_of(now.emitted, eos)
            &&& now.emitted.len() <= max_tokens
            &&& now.action is Finished ==> is_complete(
                model,
                prompt,
                max_tokens,
                eos,
                now.emitted,
            )
        }),
{
    run_is_in_step(model, prompt, seed, alone, max_tokens, eos, drafts);
}

/// At every step the target answers as the loop expects, so the loop can be stepped.
pub proof fn honest_answers_are_expected(
    model: TargetModel,
    prompt: Seq<u32>,
    seed: Option<u32>,
    alone: bool,
    max_tokens: int,
    eos: Option<u32>,
    drafts: Seq<u32>,
    draft: u32,
)
    requires
        0 <= max_tokens,
        max_tokens * 4 <= isize::MAX,
    ensures
        ({
            let now = run(model, prompt, seed, alone, max_tokens, eos, drafts);
            &&& now.loop_view.well_formed()
            &&& now.action !is Finished ==> now.loop_view.expects(
                perform(model, now.target, now.action, draft).1,
            )
        }),
{
    run_is_in_step(model, prompt, seed, alone, max_tokens, eos, drafts);
    let now = run(model, prompt, seed, alone, max_tokens, eos, drafts);
    if now.action !is Finished {
        step_keeps(model, prompt, now, draft);
    }
}

/// A generation without a drafter asks for nothing but single tokens of the target, and
/// drafts nothing.
pub proof fn a_lone_target_only_decodes(
    model: TargetModel,
    prompt: Seq<u32>,
    seed: Option<u32>,
    max_tokens: int,
    eos: Option<u32>,
    drafts: Seq<u32>,
)
    requires
        0 <= max_tokens,
        max_tokens * 4 <= isize::MAX,
    ensures
        ({
            let now = run(model, prompt, seed, true, max_tokens, eos, drafts);
            &&& now.action is Decode || now.action is Finished
            &&& now.loop_view.alone
            &&& now.loop_view.drafted_tokens == 0
        }),
    decreases drafts.len(),
{
    run_is_in_step(model, prompt, seed, true, max_tokens, eos, drafts);
    if drafts.len() > 0 {
        a_lone_target_only_decodes(model, prompt, seed, max_tokens, eos, drafts.drop_last());
        run_is_in_step(model, prompt, seed, true, max_tokens, eos, drafts.drop_last());
    }
}

/// How many steps a generation can still take.
spec fn steps_left(v: Block3View) -> int {
    match v.phase {
        Phase::Finished => 0,
        Phase::Tail => 4 * v.room() - 3,
        Phase::FirstDraft => 4 * v.room(),
        Phase::SecondDraft { .. } => 4 * v.room() - 1,
        Phase::Verifying { .. } => 4 * v.room() - 2,
        Phase::Replaying { .. } => 4 * v.room() - 3,
        Phase::Settling { .. } => 4 * v.room() - 4,
    }
}

/// Each step leaves fewer, or is the last.
proof fn steps_are_used(v: Block3View, event: Block3Event)
    requires
        v.well_formed(),
        v.expects(event),
    ensures
        ({
            let after = v.next(event).after;
            after.phase !is Finished ==> 0 < steps_left(after) < steps_left(v)
        }),
{
    if let Phase::Settling { t0, t1, t2, accepted } = v.phase {
        until_is_a_prefix(seq![t0, t1, t2].take(accepted + 1), v.eos);
    }
}

/// Steps and steps left never add up to more than four for each token asked for.
proof fn steps_run_out(
    model: TargetModel,
    prompt: Seq<u32>,
    seed: Option<u32>,
    alone: bool,
    max_tokens: int,
    eos: Option<u32>,
    drafts: Seq<u32>,
)
    requires
        0 <= max_tokens,
        max_tokens * 4 <= isize::MAX,
    ensures
        ({
            let now = run(model, prompt, seed, alone, max_tokens, eos, drafts);
            now.action !is Finished ==> 0 < steps_left(now.loop_view) <= 4 * max_tokens
                - drafts.len()
        }),
    decreases drafts.len(),
{
    run_is_in_step(model, prompt, seed, alone, max_tokens, eos, drafts);
    if drafts.len() > 0 {
        let before = run(model, prompt, seed, alone, max_tokens, eos, drafts.drop_last());
        run_is_in_step(model, prompt, seed, alone, max_tokens, eos, drafts.drop_last());
        steps_run_out(model, prompt, seed, alone, max_tokens, eos, drafts.drop_last());
        if before.action !is Finished {
            step_keeps(model, prompt, before, drafts.last());
            let event = perform(model, before.target, before.action, drafts.last()).1;
            steps_are_used(before.loop_view, event);
        }
    }
}

/// A generation ends: after four steps for each token asked for it is finished.
pub proof fn generation_ends(
    model: TargetModel,
    prompt: Seq<u32>,
    seed: Option<u32>,
    alone: bool,
    max_tokens: int,
    eos: Option<u32>,
    drafts: Seq<u32>,
)
    requires
        0 <= max_tokens,
        max_tokens * 4 <= isize::MAX,
        drafts.len() >= 4 * max_tokens,
    ensures
        run(model, prompt, seed, alone, max_tokens, eos, drafts).action is Finished,
{
    steps_run_out(model, prompt, seed, alone, max_tokens, eos, drafts);
}

/// The drafter's place within a round.
spec fn is_in_place(run: Run) -> bool {
    let len = run.drafter.len();
    &&& 0 <= run.round_began
    &&& match run.loop_view.phase {
        Phase::FirstDraft => len == run.round_began,
        Phase::SecondDraft { appended, .. } => len == run.round_began + appended - 1,
        Phase::Verifying { appended, .. } => len == run.round_began + appended,
        Phase::Replaying { .. } => {
            &&& len == run.round_began + 1
            &&& run.action->trim == 0
        },
        Phase::Settling { accepted, .. } => {
            &&& run.action is Settle ==> 0 <= run.action->trim <= len
            &&& drafted(run.drafter, run.action).len() == run.round_began + accepted + 1
        },
        _ => true,
    }
}

/// One step on, the drafter is in place.
proof fn step_keeps_in_place(model: TargetModel, prompt: Seq<u32>, before: Run, draft: u32)
    requires
        in_step(model, prompt, before),
        before.action !is Finished,
        is_in_place(before),
    ensures
        is_in_place(stepped(model, before, draft)),
{
    let v = before.loop_view;
    if let Phase::Settling { t0, t1, t2, accepted } = v.phase {
        until_is_a_prefix(seq![t0, t1, t2].take(accepted + 1), v.eos);
    }
}

/// The drafter is in place all along.
proof fn the_drafter_is_in_place(
    model: TargetModel,
    prompt: Seq<u32>,
    seed: Option<u32>,
    alone: bool,
    max_tokens: int,
    eos: Option<u32>,
    drafts: Seq<u32>,
)
    requires
        0 <= max_tokens,
        max_tokens * 4 <= isize::MAX,
    ensures
        is_in_place(run(model, prompt, seed, alone, max_tokens, eos, drafts)),
    decreases drafts.len(),
{
    if drafts.len() > 0 {
        run_is_in_step(model, prompt, seed, alone, max_tokens, eos, drafts.drop_last());
        the_drafter_is_in_place(model, prompt, seed, alone, max_tokens, eos, drafts.drop_last());
        let before = run(model, prompt, seed, alone, max_tokens, eos, drafts.drop_last());
        if before.action !is Finished {
            step_keeps_in_place(model, prompt, before, drafts.last());
        }
    }
}

/// Each round moves the drafter on by as many positions as it had drafts accepted, and one,
/// from where the round began: what it drafted for nothing is dropped, and what was accepted
/// without its having run it is replayed.
pub proof fn rounds_move_the_drafter(
    model: TargetModel,
    prompt: Seq<u32>,
    seed: Option<u32>,
    alone: bool,
    max_tokens: int,
    eos: Option<u32>,
    drafts: Seq<u32>,
    draft: u32,
)
    requires
        0 <= max_tokens,
        max_tokens * 4 <= isize::MAX,
    ensures
        run(model, prompt, seed, alone, max_tokens, eos, drafts).loop_view.phase matches
            Phase::Settling { accepted, .. } ==> run(
            model,
            prompt,
            seed,
            alone,
            max_tokens,
            eos,
            drafts.push(draft),
        ).drafter.len() == run(
            model,
            prompt,
            seed,
            alone,
            max_tokens,
            eos,
            drafts,
        ).round_began + accepted + 1,
{
    run_is_in_step(model, prompt, seed, alone, max_tokens, eos, drafts);
    the_drafter_is_in_place(model, prompt, seed, alone, max_tokens, eos, drafts);
    assert(drafts.push(draft).drop_last() =~= drafts);
}

/// What the drafter has run, in a generation that it began with a draft.
spec fn keeps_up(prompt: Seq<u32>, run: Run) -> bool {
    let v = run.loop_view;
    let known = (prompt + v.tokens).skip(1);
    match v.phase {
        Phase::FirstDraft => false,
        Phase::SecondDraft { first, appended } => {
            &&& appended == 1
            &&& run.drafter == known
            &&& run.action == (Block3Action::Draft { token: first, condition: Condition::Own })
        },
        Phase::Verifying { first, appended, .. } => {
            &&& appended == 1
            &&& run.drafter == known.push(first)
            &&& run.action is Verify
        },
        Phase::Replaying { t0, t1, .. } => {
            &&& run.drafter == known.push(t0)
            &&& run.action == (Block3Action::Settle { rows: 3, trim: 0, token: t1, row: 1 })
        },
        Phase::Settling { t0, t1, t2, accepted } => {
            &&& accepted <= 2
            &&& drafted(run.drafter, run.action) == known + seq![t0, t1, t2].take(accepted + 1)
        },
        _ => true,
    }
}

/// One step on, the drafter keeps up.
proof fn step_keeps_up(model: TargetModel, prompt: Seq<u32>, before: Run, draft: u32)
    requires
        prompt.len() > 0,
        in_step(model, prompt, before),
        before.action !is Finished,
        keeps_up(prompt, before),
    ensures
        keeps_up(prompt, stepped(model, before, draft)),
{
    let v = before.loop_view;
    let known = (prompt + v.tokens).skip(1);
    let (target, event) = perform(model, before.target, before.action, draft);
    let after = stepped(model, before, draft);
    match v.phase {
        Phase::Verifying { first, second, appended } => {
            match event {
                Block3Event::Verified(t0, t1, t2) => {
                    if first != t0 {
                        assert(before.drafter.take(before.drafter.len() - 1) =~= known);
                        assert(known.push(t0) =~= known + seq![t0, t1, t2].take(1));
                    } else if second != t1 {
                        assert(before.drafter.take(before.drafter.len() - 0) =~= known.push(t0));
                        assert(known.push(t0).push(t1) =~= known + seq![t0, t1, t2].take(2));
                    }
                },
                _ => {},
            }
        },
        Phase::Replaying { t0, t1, t2 } => {
            assert(before.drafter.take(before.drafter.len() - 0) =~= known.push(t0));
            assert(known.push(t0).push(t1).push(t2) =~= known + seq![t0, t1, t2].take(3));
        },
        Phase::Settling { t0, t1, t2, accepted } => {
            let block = seq![t0, t1, t2].take(accepted + 1);
            until_is_a_prefix(block, v.eos);
            let kept = block3::until(block, v.eos);
            if kept.len() == block.len() {
                assert(kept =~= block);
                assert((prompt + (v.tokens + block)).skip(1) =~= known + block);
            }
        },
        _ => {},
    }
}

/// The drafter keeps up all along.
proof fn run_keeps_up(
    model: TargetModel,
    prompt: Seq<u32>,
    seed: u32,
    max_tokens: int,
    eos: Option<u32>,
    drafts: Seq<u32>,
)
    requires
        prompt.len() > 0,
        0 <= max_tokens,
        max_tokens * 4 <= isize::MAX,
    ensures
        keeps_up(prompt, run(model, prompt, Some(seed), false, max_tokens, eos, drafts)),
    decreases drafts.len(),
{
    if drafts.len() == 0 {
        let bonus = model(prompt);
        assert(prompt + seq![bonus] =~= prompt.push(bonus));
    } else {
        let before = run(model, prompt, Some(seed), false, max_tokens, eos, drafts.drop_last());
        run_keeps_up(model, prompt, seed, max_tokens, eos, drafts.drop_last());
        run_is_in_step(model, prompt, Some(seed), false, max_tokens, eos, drafts.drop_last());
        if before.action !is Finished {
            step_keeps_up(model, prompt, before, drafts.last());
        }
    }
}

/// In a generation that began with a draft of the drafter, it has run, whenever a round
/// begins, all the tokens of the prompt and of the result, from the second on: those that
/// it had drafted itself, where they were accepted, and the target's in the place of the
/// others.
pub proof fn the_drafter_keeps_up(
    model: TargetModel,
    prompt: Seq<u32>,
    seed: u32,
    max_tokens: int,
    eos: Option<u32>,
    drafts: Seq<u32>,
)
    requires
        prompt.len() > 0,
        0 <= max_tokens,
        max_tokens * 4 <= isize::MAX,
    ensures
        ({
            let now = run(model, prompt, Some(seed), false, max_tokens, eos, drafts);
            opens_round(now.loop_view.phase) ==> now.drafter == (prompt
                + now.loop_view.tokens).skip(1)
        }),
{
    run_keeps_up(model, prompt, seed, max_tokens, eos, drafts);
}

/// Two greedy continuations agree as far as both go.
proof fn greedy_is_unique(model: TargetModel, prompt: Seq<u32>, a: Seq<u32>, b: Seq<u32>, n: int)
    requires
        is_greedy(model, prompt, a),
        is_greedy(model, prompt, b),
        0 <= n <= a.len(),
        n <= b.len(),
    ensures
        a.take(n) == b.take(n),
    decreases n,
{
    if n > 0 {
        greedy_is_unique(model, prompt, a, b, n - 1);
        assert(a[n - 1] == model(prompt + a.take(n - 1)));
        assert(b[n - 1] == model(prompt + b.take(n - 1)));
        assert(a.take(n) =~= a.take(n - 1).push(a[n - 1]));
        assert(b.take(n) =~= b.take(n - 1).push(b[n - 1]));
    } else {
        assert(a.take(0) =~= b.take(0));
    }
}

/// The drafter has no say in the outcome: two finished generations of the same prompt
/// hand out the same tokens, whatever was drafted in either, and also where one has a
/// drafter and the other has none.
pub proof fn outcome_does_not_depend_on_the_drafter(
    model: TargetModel,
    prompt: Seq<u32>,
    max_tokens: int,
    eos: Option<u32>,
    seed: Option<u32>,
    alone: bool,
    drafts: Seq<u32>,
    other_seed: Option<u32>,
    other_alone: bool,
    other_drafts: Seq<u32>,
)
    requires
        0 <= max_tokens,
        max_tokens * 4 <= isize::MAX,
        run(model, prompt, seed, alone, max_tokens, eos, drafts).action is Finished,
        run(model, prompt, other_seed, other_alone, max_tokens, eos, other_drafts).action is Finished,
    ensures
        run(model, prompt, seed, alone, max_tokens, eos, drafts).emitted == run(
            model,
            prompt,
            other_seed,
            other_alone,
            max_tokens,
            eos,
            other_drafts,
        ).emitted,
{
    speculation_is_greedy(model, prompt, seed, alone, max_tokens, eos, drafts);
    speculation_is_greedy(model, prompt, other_seed, other_alone, max_tokens, eos, other_drafts);
    let a = run(model, prompt, seed, alone, max_tokens, eos, drafts).emitted;
    let b = run(model, prompt, other_seed, other_alone, max_tokens, eos, other_drafts).emitted;
    if a.len() < b.len() {
        greedy_is_unique(model, prompt, a, b, a.len() as int);
        assert(a.take(a.len() as int) =~= a);
        assert(b[a.len() as int] == model(prompt + b.take(a.len() as int)));
        assert(eos != Some(b[a.len() as int]));
    } else if b.len() < a.len() {
        greedy_is_unique(model, prompt, b, a, b.len() as int);
        assert(b.take(b.len() as int) =~= b);
        assert(a[b.len() as int] == model(prompt + a.take(b.len() as int)));
        assert(eos != Some(a[b.len() as int]));
    } else {
        greedy_is_unique(model, prompt, a, b, a.len() as int);
        assert(a.take(a.len() as int) =~= a);
        assert(b.take(b.len() as int) =~= b);
    }
}

} // verus!
