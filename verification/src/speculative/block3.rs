//! Greedy generation in blocks of three: two drafts and the token before them are
//! verified together, and the target keeps the prefix it agrees with. Without a drafter
//! the target decodes alone, token by token.
//!
//! The loop is a machine: it says what the models have to do next, and is told what
//! came of it.

use vstd::prelude::*;

use crate::speculative::{accept_greedy, mtp_reconcile_plan, MtpReplay};

verus! {

/// The generated tokens and what they cost.
#[derive(Debug)]
pub struct GreedyBlock3Result {
    pub tokens: Vec<u32>,
    pub rounds: usize,
    pub accepted_drafts: usize,
    pub drafted_tokens: usize,
    pub target_forwards: usize,
}

impl GreedyBlock3Result {
    /// The share of drafts that the target accepted, as accepted over drafted tokens;
    /// `None` stands for the share zero of a run that drafted nothing.
    pub fn acceptance(&self) -> (share: Option<(usize, usize)>)
        ensures
            share == (if self.drafted_tokens == 0 {
                None
            } else {
                Some((self.accepted_drafts, self.drafted_tokens))
            }),
    {
        if self.drafted_tokens == 0 {
            None
        } else {
            Some((self.accepted_drafts, self.drafted_tokens))
        }
    }
}

/// A result with no tokens yet, with room for `max_tokens` of them.
pub fn new_result(max_tokens: usize) -> (result: GreedyBlock3Result)
    requires
        max_tokens * 4 <= isize::MAX,
    ensures
        result.tokens@ == Seq::<u32>::empty(),
        result.rounds == 0,
        result.accepted_drafts == 0,
        result.drafted_tokens == 0,
        result.target_forwards == 0,
{
    GreedyBlock3Result {
        tokens: Vec::with_capacity(max_tokens),
        rounds: 0,
        accepted_drafts: 0,
        drafted_tokens: 0,
        target_forwards: 0,
    }
}

/// Which hidden state the drafter is conditioned on.
#[derive(Debug, Clone, Copy, PartialEq, Eq, Structural)]
pub enum Condition {
    /// This row of the target's last forward pass.
    TargetRow(usize),
    /// The drafter's own last hidden state.
    Own,
}

/// What the models are to do next.
#[derive(Debug, Clone, Copy, PartialEq, Eq, Structural)]
pub enum Block3Action {
    /// The target decodes one token; it answers with its next token.
    Decode { token: u32 },
    /// The drafter decodes one token; it answers with its draft.
    Draft { token: u32, condition: Condition },
    /// The target runs three tokens as one batch; it answers with its next token after
    /// each of them, and keeps the batch uncommitted.
    Verify { bonus: u32, first: u32, second: u32 },
    /// The target commits the first `rows` of the batch, the drafter drops its last
    /// `trim` positions and decodes `token`, conditioned on row `row` of the batch; it
    /// answers with its draft.
    Settle { rows: usize, trim: usize, token: u32, row: usize },
    /// Nothing: the result is complete.
    Finished,
}

/// What came of an action.
#[derive(Debug, Clone, Copy, PartialEq, Eq, Structural)]
pub enum Block3Event {
    /// One token, of the target or of the drafter.
    Token(u32),
    /// The target's next token after each token of a batch.
    Verified(u32, u32, u32),
}

/// What one step of the loop asks for: tokens to hand out, in order, and then an action.
#[derive(Debug)]
pub struct Block3Step {
    pub emitted: Vec<u32>,
    pub action: Block3Action,
}

/// Where the loop stands: which answer it waits for.
#[derive(Debug, Clone, Copy, PartialEq, Eq, Structural)]
pub enum Phase {
    Tail,
    FirstDraft,
    SecondDraft { first: u32, appended: usize },
    Verifying { first: u32, second: u32, appended: usize },
    Replaying { t0: u32, t1: u32, t2: u32 },
    Settling { t0: u32, t1: u32, t2: u32, accepted: usize },
    Finished,
}

/// A generation under way; `alone` where there is no drafter.
#[derive(Debug)]
pub struct Block3Loop {
    result: GreedyBlock3Result,
    bonus: u32,
    alone: bool,
    max_tokens: usize,
    eos: Option<u32>,
    phase: Phase,
}

/// The loop as a value.
pub struct Block3View {
    pub tokens: Seq<u32>,
    pub rounds: int,
    pub accepted_drafts: int,
    pub drafted_tokens: int,
    pub target_forwards: int,
    pub bonus: u32,
    pub alone: bool,
    pub max_tokens: int,
    pub eos: Option<u32>,
    pub phase: Phase,
}

/// A step as a value: the loop after it, the tokens handed out, the action asked for.
pub struct StepView {
    pub after: Block3View,
    pub emitted: Seq<u32>,
    pub action: Block3Action,
}

impl View for Block3Loop {
    type V = Block3View;

    closed spec fn view(&self) -> Block3View {
        Block3View {
            tokens: self.result.tokens@,
            rounds: self.result.rounds as int,
            accepted_drafts: self.result.accepted_drafts as int,
            drafted_tokens: self.result.drafted_tokens as int,
            target_forwards: self.result.target_forwards as int,
            bonus: self.bonus,
            alone: self.alone,
            max_tokens: self.max_tokens as int,
            eos: self.eos,
            phase: self.phase,
        }
    }
}

impl Block3View {
    /// What holds of every loop between two steps.
    pub open spec fn well_formed(self) -> bool {
        &&& 0 <= self.max_tokens
        &&& self.max_tokens * 4 <= isize::MAX
        &&& self.tokens.len() <= self.max_tokens
        &&& 0 <= self.rounds <= self.tokens.len()
        &&& 0 <= self.accepted_drafts <= self.drafted_tokens
        &&& self.drafted_tokens == 2 * self.rounds
        &&& 0 <= self.target_forwards
        &&& self.target_forwards <= self.tokens.len() + (if self.phase is Finished {
            1int
        } else if self.phase is Settling || self.phase is Replaying {
            1int
        } else {
            0int
        })
        &&& self.phase !is Finished ==> {
            &&& self.tokens.len() > 0
            &&& self.bonus == self.tokens.last()
        }
        &&& self.alone ==> self.phase is Tail || self.phase is Finished
        &&& match self.phase {
            Phase::Tail => 0 < self.room() && (self.alone || self.room() < 3),
            Phase::FirstDraft => self.room() >= 3,
            Phase::SecondDraft { appended, .. } => self.room() >= 3 && 1 <= appended <= 2,
            Phase::Verifying { appended, .. } => self.room() >= 3 && 1 <= appended <= 2,
            Phase::Replaying { .. } => self.room() >= 3,
            Phase::Settling { accepted, .. } => self.room() >= 3 && accepted <= 2,
            Phase::Finished => true,
        }
    }

    /// How many tokens may still be generated.
    pub open spec fn room(self) -> int {
        self.max_tokens - self.tokens.len()
    }

    /// Whether `event` is the answer that the loop waits for.
    pub open spec fn expects(self, event: Block3Event) -> bool {
        match self.phase {
            Phase::Verifying { .. } => event is Verified,
            Phase::Finished => false,
            _ => event is Token,
        }
    }

    /// Opens the next round: with room for a block, draft (from the seed, if the last
    /// round left one); with less, or without a drafter, let the target decode alone; with
    /// none, stop.
    pub open spec fn open_round(self, seed: Option<u32>, emitted: Seq<u32>) -> StepView {
        if self.room() <= 0 {
            StepView {
                after: Block3View { phase: Phase::Finished, ..self },
                emitted,
                action: Block3Action::Finished,
            }
        } else if self.alone || self.room() < 3 {
            StepView {
                after: Block3View { phase: Phase::Tail, ..self },
                emitted,
                action: Block3Action::Decode { token: self.bonus },
            }
        } else {
            match seed {
                Some(first) => StepView {
                    after: Block3View { phase: Phase::SecondDraft { first, appended: 1 }, ..self },
                    emitted,
                    action: Block3Action::Draft { token: first, condition: Condition::Own },
                },
                None => StepView {
                    after: Block3View { phase: Phase::FirstDraft, ..self },
                    emitted,
                    action: Block3Action::Draft {
                        token: self.bonus,
                        condition: Condition::TargetRow(0),
                    },
                },
            }
        }
    }

    /// The step that an answer leads to. A verified block is settled by what the plan of
    /// [`mtp_reconcile_plan`] replays: the target's last token, and before it the second
    /// draft where it was accepted and the drafter has not run it.
    pub open spec fn next(self, event: Block3Event) -> StepView {
        match (self.phase, event) {
            (Phase::Tail, Block3Event::Token(next)) => {
                let decoded = Block3View {
                    bonus: next,
                    target_forwards: self.target_forwards + 1,
                    ..self
                };
                if self.eos == Some(next) {
                    decoded.stop(Seq::empty())
                } else {
                    (Block3View { tokens: self.tokens.push(next), ..decoded }).open_round(
                        None,
                        seq![next],
                    )
                }
            },
            (Phase::FirstDraft, Block3Event::Token(draft)) => StepView {
                after: Block3View {
                    phase: Phase::SecondDraft { first: draft, appended: 2 },
                    ..self
                },
                emitted: Seq::empty(),
                action: Block3Action::Draft { token: draft, condition: Condition::Own },
            },
            (Phase::SecondDraft { first, appended }, Block3Event::Token(second)) => StepView {
                after: Block3View {
                    phase: Phase::Verifying { first, second, appended },
                    ..self
                },
                emitted: Seq::empty(),
                action: Block3Action::Verify { bonus: self.bonus, first, second },
            },
            (
                Phase::Verifying { first, second, appended },
                Block3Event::Verified(t0, t1, t2),
            ) => {
                let accepted: usize = if first != t0 {
                    0
                } else if second != t1 {
                    1
                } else {
                    2
                };
                let run = Block3View { target_forwards: self.target_forwards + 1, ..self };
                if accepted <= appended {
                    StepView {
                        after: Block3View {
                            phase: Phase::Settling { t0, t1, t2, accepted },
                            ..run
                        },
                        emitted: Seq::empty(),
                        action: Block3Action::Settle {
                            rows: (accepted + 1) as usize,
                            trim: (appended - accepted) as usize,
                            token: seq![t0, t1, t2][accepted as int],
                            row: accepted,
                        },
                    }
                } else {
                    StepView {
                        after: Block3View { phase: Phase::Replaying { t0, t1, t2 }, ..run },
                        emitted: Seq::empty(),
                        action: Block3Action::Settle { rows: 3, trim: 0, token: second, row: 1 },
                    }
                }
            },
            (Phase::Replaying { t0, t1, t2 }, Block3Event::Token(_)) => StepView {
                after: Block3View {
                    phase: Phase::Settling { t0, t1, t2, accepted: 2 },
                    ..self
                },
                emitted: Seq::empty(),
                action: Block3Action::Draft { token: t2, condition: Condition::TargetRow(2) },
            },
            (Phase::Settling { t0, t1, t2, accepted }, Block3Event::Token(seed)) => {
                let block = seq![t0, t1, t2].take(accepted + 1);
                let emitted = until(block, self.eos);
                let settled = Block3View {
                    bonus: block.last(),
                    tokens: self.tokens + emitted,
                    ..self
                };
                if emitted.len() < block.len() {
                    settled.stop(emitted)
                } else {
                    (Block3View {
                        rounds: self.rounds + 1,
                        accepted_drafts: self.accepted_drafts + accepted,
                        drafted_tokens: self.drafted_tokens + 2,
                        ..settled
                    }).open_round(Some(seed), emitted)
                }
            },
            _ => self.stop(Seq::empty()),
        }
    }

    /// The last step.
    pub open spec fn stop(self, emitted: Seq<u32>) -> StepView {
        StepView {
            after: Block3View { phase: Phase::Finished, ..self },
            emitted,
            action: Block3Action::Finished,
        }
    }

    /// The first step of a generation whose first token, `bonus`, the prefill produced.
    pub open spec fn first(
        bonus: u32,
        seed: Option<u32>,
        alone: bool,
        max_tokens: int,
        eos: Option<u32>,
    ) -> StepView {
        let empty = Block3View {
            tokens: Seq::empty(),
            rounds: 0,
            accepted_drafts: 0,
            drafted_tokens: 0,
            target_forwards: 0,
            bonus,
            alone,
            max_tokens,
            eos,
            phase: Phase::Finished,
        };
        if max_tokens == 0 || eos == Some(bonus) {
            empty.stop(Seq::empty())
        } else {
            (Block3View { tokens: seq![bonus], ..empty }).open_round(seed, seq![bonus])
        }
    }
}

/// The tokens before the first one that is `eos`.
pub open spec fn until(tokens: Seq<u32>, eos: Option<u32>) -> Seq<u32>
    decreases tokens.len(),
{
    if tokens.len() == 0 || eos == Some(tokens[0]) {
        Seq::empty()
    } else {
        seq![tokens[0]] + until(tokens.skip(1), eos)
    }
}

/// Pushes onto `out` the tokens before the first one that is `eos`, and says whether
/// none was.
fn push_until(out: &mut Vec<u32>, tokens: &[u32], eos: Option<u32>) -> (whole: bool)
    ensures
        final(out)@ == old(out)@ + until(tokens@, eos),
        whole == (until(tokens@, eos).len() == tokens@.len()),
{
    let mut i: usize = 0;
    assert(tokens@.skip(0) =~= tokens@);
    assert(out@ + until(tokens@, eos) =~= old(out)@ + until(tokens@, eos));
    while i < tokens.len()
        invariant
            i <= tokens@.len(),
            out@ + until(tokens@.skip(i as int), eos) == old(out)@ + until(tokens@, eos),
            out@.len() == old(out)@.len() + i,
        decreases tokens@.len() - i,
    {
        let ghost rest = tokens@.skip(i as int);
        let token: u32 = tokens[i];
        if let Some(stop) = eos {
            if stop == token {
                assert(until(rest, eos) =~= Seq::empty());
                assert(out@ =~= old(out)@ + until(tokens@, eos));
                return false;
            }
        }
        assert(rest.skip(1) =~= tokens@.skip(i + 1));
        assert(until(rest, eos) == seq![token] + until(tokens@.skip(i + 1), eos));
        assert(out@ + until(rest, eos) =~= out@.push(token) + until(tokens@.skip(i + 1), eos));
        out.push(token);
        i += 1;
    }
    assert(until(tokens@.skip(i as int), eos) =~= Seq::empty());
    assert(out@ =~= old(out)@ + until(tokens@, eos));
    true
}

/// No more is kept than was given.
proof fn until_is_no_longer(tokens: Seq<u32>, eos: Option<u32>)
    ensures
        until(tokens, eos).len() <= tokens.len(),
    decreases tokens.len(),
{
    if tokens.len() > 0 {
        until_is_no_longer(tokens.skip(1), eos);
    }
}

impl Block3Loop {
    /// Opens the next round.
    fn open_round(&mut self, seed: Option<u32>, emitted: Vec<u32>) -> (step: Block3Step)
        requires
            old(self)@.max_tokens * 4 <= isize::MAX,
        ensures
            final(self)@ == old(self)@.open_round(seed, emitted@).after,
            step.emitted@ == emitted@,
            step.action == old(self)@.open_round(seed, emitted@).action,
    {
        if self.result.tokens.len() >= self.max_tokens {
            self.phase = Phase::Finished;
            return Block3Step { emitted, action: Block3Action::Finished };
        }
        let remaining: usize = self.max_tokens - self.result.tokens.len();
        if self.alone || remaining < 3 {
            self.phase = Phase::Tail;
            return Block3Step { emitted, action: Block3Action::Decode { token: self.bonus } };
        }
        match seed {
            Some(first) => {
                self.phase = Phase::SecondDraft { first, appended: 1 };
                Block3Step {
                    emitted,
                    action: Block3Action::Draft { token: first, condition: Condition::Own },
                }
            },
            None => {
                self.phase = Phase::FirstDraft;
                Block3Step {
                    emitted,
                    action: Block3Action::Draft {
                        token: self.bonus,
                        condition: Condition::TargetRow(0),
                    },
                }
            },
        }
    }

    /// Takes the answer to the last action and says what comes next.
    pub fn step(&mut self, event: Block3Event) -> (step: Block3Step)
        requires
            old(self)@.well_formed(),
            old(self)@.expects(event),
        ensures
            final(self)@.well_formed(),
            final(self)@ == old(self)@.next(event).after,
            step.emitted@ == old(self)@.next(event).emitted,
            step.action == old(self)@.next(event).action,
    {
        match (self.phase, event) {
            (Phase::Tail, Block3Event::Token(next)) => {
                self.result.target_forwards += 1;
                self.bonus = next;
                if let Some(stop) = self.eos {
                    if stop == next {
                        self.phase = Phase::Finished;
                        return Block3Step { emitted: Vec::new(), action: Block3Action::Finished };
                    }
                }
                self.result.tokens.push(next);
                let mut emitted: Vec<u32> = Vec::new();
                emitted.push(next);
                assert(emitted@ =~= seq![next]);
                self.open_round(None, emitted)
            },
            (Phase::FirstDraft, Block3Event::Token(draft)) => {
                self.phase = Phase::SecondDraft { first: draft, appended: 2 };
                Block3Step {
                    emitted: Vec::new(),
                    action: Block3Action::Draft { token: draft, condition: Condition::Own },
                }
            },
            (Phase::SecondDraft { first, appended }, Block3Event::Token(second)) => {
                self.phase = Phase::Verifying { first, second, appended };
                Block3Step {
                    emitted: Vec::new(),
                    action: Block3Action::Verify { bonus: self.bonus, first, second },
                }
            },
            (
                Phase::Verifying { first, second, appended },
                Block3Event::Verified(t0, t1, t2),
            ) => self.verified(first, second, appended, t0, t1, t2),
            (Phase::Replaying { t0, t1, t2 }, Block3Event::Token(_)) => {
                self.phase = Phase::Settling { t0, t1, t2, accepted: 2 };
                Block3Step {
                    emitted: Vec::new(),
                    action: Block3Action::Draft { token: t2, condition: Condition::TargetRow(2) },
                }
            },
            (Phase::Settling { t0, t1, t2, accepted }, Block3Event::Token(seed)) => self.settled(
                t0,
                t1,
                t2,
                accepted,
                seed,
            ),
            _ => {
                self.phase = Phase::Finished;
                Block3Step { emitted: Vec::new(), action: Block3Action::Finished }
            },
        }
    }

    /// The target has run the batch.
    fn verified(
        &mut self,
        first: u32,
        second: u32,
        appended: usize,
        t0: u32,
        t1: u32,
        t2: u32,
    ) -> (step: Block3Step)
        requires
            old(self)@.well_formed(),
            old(self)@.phase == (Phase::Verifying { first, second, appended }),
        ensures
            final(self)@.well_formed(),
            final(self)@ == old(self)@.next(Block3Event::Verified(t0, t1, t2)).after,
            step.emitted@ == old(self)@.next(Block3Event::Verified(t0, t1, t2)).emitted,
            step.action == old(self)@.next(Block3Event::Verified(t0, t1, t2)).action,
    {
        self.result.target_forwards += 1;
        let drafts: [u32; 2] = [first, second];
        let target_tokens: [u32; 3] = [t0, t1, t2];
        let acceptance = accept_greedy(&drafts, &target_tokens);
        let accepted: usize = acceptance.accepted_drafts;
        assert(drafts@ =~= seq![first, second]);
        assert(target_tokens@ =~= seq![t0, t1, t2]);
        let plan = mtp_reconcile_plan(2, appended, accepted);
        let (token, row): (u32, usize) = match plan.replay[0] {
            MtpReplay::Draft(index) => {
                self.phase = Phase::Replaying { t0, t1, t2 };
                (drafts[index], index)
            },
            MtpReplay::Replacement => {
                self.phase = Phase::Settling { t0, t1, t2, accepted };
                (acceptance.emitted[acceptance.emitted.len() - 1], accepted)
            },
        };
        Block3Step {
            emitted: Vec::new(),
            action: Block3Action::Settle { rows: accepted + 1, trim: plan.trim, token, row },
        }
    }

    /// The block has been committed, and the drafter has answered with its next seed.
    fn settled(&mut self, t0: u32, t1: u32, t2: u32, accepted: usize, seed: u32) -> (step:
        Block3Step)
        requires
            old(self)@.well_formed(),
            old(self)@.phase == (Phase::Settling { t0, t1, t2, accepted }),
        ensures
            final(self)@.well_formed(),
            final(self)@ == old(self)@.next(Block3Event::Token(seed)).after,
            step.emitted@ == old(self)@.next(Block3Event::Token(seed)).emitted,
            step.action == old(self)@.next(Block3Event::Token(seed)).action,
    {
        let ghost block = seq![t0, t1, t2].take(accepted + 1);
        let mut all: Vec<u32> = vec![t0, t1, t2];
        all.truncate(accepted + 1);
        assert(all@ =~= block);
        self.bonus = all[accepted];
        let mut emitted: Vec<u32> = Vec::new();
        let whole = push_until(&mut emitted, &all, self.eos);
        assert(emitted@ =~= until(block, self.eos));
        proof {
            until_is_no_longer(block, self.eos);
            if whole {
                until_whole(block, self.eos);
            }
        }
        self.result.tokens.extend_from_slice(&emitted);
        assert(self.result.tokens@ =~= old(self)@.tokens + emitted@);
        if !whole {
            self.phase = Phase::Finished;
            return Block3Step { emitted, action: Block3Action::Finished };
        }
        self.result.rounds += 1;
        self.result.accepted_drafts += accepted;
        self.result.drafted_tokens += 2;
        self.open_round(Some(seed), emitted)
    }

    /// The result so far.
    pub fn result(&self) -> (result: &GreedyBlock3Result)
        ensures
            result.tokens@ == self@.tokens,
            result.rounds == self@.rounds,
            result.accepted_drafts == self@.accepted_drafts,
            result.drafted_tokens == self@.drafted_tokens,
            result.target_forwards == self@.target_forwards,
    {
        &self.result
    }
}

/// Where nothing is cut off, everything is kept.
proof fn until_whole(tokens: Seq<u32>, eos: Option<u32>)
    requires
        until(tokens, eos).len() == tokens.len(),
    ensures
        until(tokens, eos) == tokens,
    decreases tokens.len(),
{
    if tokens.len() > 0 {
        until_whole(tokens.skip(1), eos);
        assert(seq![tokens[0]] + tokens.skip(1) =~= tokens);
    }
}

/// Starts a generation whose first token is `bonus`.
fn begin(
    bonus: u32,
    seed: Option<u32>,
    alone: bool,
    max_tokens: usize,
    eos: Option<u32>,
) -> (begun: (Block3Loop, Block3Step))
    requires
        max_tokens * 4 <= isize::MAX,
    ensures
        begun.0@.well_formed(),
        begun.0@ == Block3View::first(bonus, seed, alone, max_tokens as int, eos).after,
        begun.1.emitted@ == Block3View::first(bonus, seed, alone, max_tokens as int, eos).emitted,
        begun.1.action == Block3View::first(bonus, seed, alone, max_tokens as int, eos).action,
{
    let result = new_result(max_tokens);
    let mut state = Block3Loop { result, bonus, alone, max_tokens, eos, phase: Phase::Finished };
    if max_tokens == 0 {
        return (state, Block3Step { emitted: Vec::new(), action: Block3Action::Finished });
    }
    if let Some(stop) = eos {
        if stop == bonus {
            return (state, Block3Step { emitted: Vec::new(), action: Block3Action::Finished });
        }
    }
    state.result.tokens.push(bonus);
    assert(state.result.tokens@ =~= seq![bonus]);
    let mut emitted: Vec<u32> = Vec::new();
    emitted.push(bonus);
    assert(emitted@ =~= seq![bonus]);
    let step = state.open_round(seed, emitted);
    (state, step)
}

/// Starts a speculative generation after a prefill. `bonus` is the first generated
/// token and `seed` the drafter's draft, both produced by the prefill; `max_tokens`
/// counts `bonus`. Every token is handed out as it is produced, and generation stops
/// as soon as `eos` is produced, which is neither handed out nor among the result's tokens.
pub fn generate_greedy_block3_prefilled_streaming(
    bonus: u32,
    seed: u32,
    max_tokens: usize,
    eos: Option<u32>,
) -> (begun: (Block3Loop, Block3Step))
    requires
        max_tokens * 4 <= isize::MAX,
    ensures
        begun.0@.well_formed(),
        begun.0@ == Block3View::first(bonus, Some(seed), false, max_tokens as int, eos).after,
        begun.1.emitted@ == Block3View::first(
            bonus,
            Some(seed),
            false,
            max_tokens as int,
            eos,
        ).emitted,
        begun.1.action == Block3View::first(
            bonus,
            Some(seed),
            false,
            max_tokens as int,
            eos,
        ).action,
{
    begin(bonus, Some(seed), false, max_tokens, eos)
}

/// Starts a speculative generation that runs to `max_tokens`, with no stop token.
pub fn generate_greedy_block3_prefilled(bonus: u32, seed: u32, max_tokens: usize) -> (begun: (
    Block3Loop,
    Block3Step,
))
    requires
        max_tokens * 4 <= isize::MAX,
    ensures
        begun.0@.well_formed(),
        begun.0@ == Block3View::first(bonus, Some(seed), false, max_tokens as int, None).after,
        begun.1.emitted@ == Block3View::first(
            bonus,
            Some(seed),
            false,
            max_tokens as int,
            None,
        ).emitted,
        begun.1.action == Block3View::first(
            bonus,
            Some(seed),
            false,
            max_tokens as int,
            None,
        ).action,
{
    generate_greedy_block3_prefilled_streaming(bonus, seed, max_tokens, None)
}

/// Starts a generation by the target alone, after a prefill that produced `bonus`. It hands
/// out and stops as a speculative one does.
pub fn generate_greedy_prefilled_streaming(bonus: u32, max_tokens: usize, eos: Option<u32>) -> (
begun: (Block3Loop, Block3Step))
    requires
        max_tokens * 4 <= isize::MAX,
    ensures
        begun.0@.well_formed(),
        begun.0@ == Block3View::first(bonus, None, true, max_tokens as int, eos).after,
        begun.1.emitted@ == Block3View::first(bonus, None, true, max_tokens as int, eos).emitted,
        begun.1.action == Block3View::first(bonus, None, true, max_tokens as int, eos).action,
{
    begin(bonus, None, true, max_tokens, eos)
}

} // verus!
