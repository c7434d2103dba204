//! The session cache: a conversation that goes on is not run through the models from its
//! start again.
//!
//! The models' state at the end of the last request's messages is kept. When the messages
//! of the next request extend those, the state is restored and only the rest is run.
//! Anything that goes wrong on the way leads back to a run from the start, so a bad cache
//! never reaches a generation.

use vstd::prelude::*;
use vstd::slice::slice_subrange;

verus! {

/// What the models are to do next for a request. `C` is a saved state of the models.
pub enum TurnAction<C> {
    /// Put the models into this state.
    Restore(C),
    /// Put the models into the state before any token.
    Reset,
    /// Run these tokens of the prompt, which is not the whole of it.
    PrefillPrefix { start: usize, end: usize },
    /// Save the state of the models.
    Checkpoint,
    /// Run the rest of the prompt, which seeds the generation.
    PrefillRest { start: usize },
    /// Generate. `cached` says whether the conversation's prefix was restored.
    Generate { cached: bool },
    /// Give up: the request fails for the reason that the last action failed for.
    Fail,
}

/// What came of an action.
pub enum TurnEvent<C> {
    Done,
    Saved(C),
    Failed,
}

/// Where a request stands: which answer it waits for.
#[derive(Debug, Clone, Copy, PartialEq, Eq, Structural)]
pub enum TurnPhase {
    Idle,
    Restoring,
    DeltaPrefill,
    Resetting,
    FullPrefill,
    Saving { cached: bool },
    RestPrefill { cached: bool },
}

/// What is kept from one request to the next, and where the present one stands.
pub struct Session<C> {
    last_msg_ids: Vec<u32>,
    last_msgs_checkpoint: Option<C>,
    msg_ids: Vec<u32>,
    checkpoint: Option<C>,
    phase: TurnPhase,
}

/// A session as a value.
#[verifier::reject_recursive_types(C)]
pub struct SessionView<C> {
    /// The messages of the last request, as tokens without the generation prompt.
    pub last_msg_ids: Seq<u32>,
    /// The state of the models at the end of those.
    pub last_msgs_checkpoint: Option<C>,
    /// The messages of the present request.
    pub msg_ids: Seq<u32>,
    /// The state of the models at the end of those, once it is saved.
    pub checkpoint: Option<C>,
    pub phase: TurnPhase,
}

impl<C> View for Session<C> {
    type V = SessionView<C>;

    closed spec fn view(&self) -> SessionView<C> {
        SessionView {
            last_msg_ids: self.last_msg_ids@,
            last_msgs_checkpoint: self.last_msgs_checkpoint,
            msg_ids: self.msg_ids@,
            checkpoint: self.checkpoint,
            phase: self.phase,
        }
    }
}

impl<C> SessionView<C> {
    /// Whether the messages extend those of the last request, whose state is at hand.
    pub open spec fn can_reuse(self, msg_ids: Seq<u32>) -> bool {
        &&& self.last_msg_ids.len() < msg_ids.len()
        &&& self.last_msg_ids.is_prefix_of(msg_ids)
        &&& self.last_msgs_checkpoint is Some
    }

    /// The first step of a request.
    pub open spec fn first(self, msg_ids: Seq<u32>) -> (SessionView<C>, TurnAction<C>) {
        if self.can_reuse(msg_ids) {
            (
                SessionView {
                    last_msgs_checkpoint: None,
                    msg_ids,
                    checkpoint: None,
                    phase: TurnPhase::Restoring,
                    ..self
                },
                TurnAction::Restore(self.last_msgs_checkpoint->0),
            )
        } else {
            (
                SessionView {
                    msg_ids,
                    checkpoint: None,
                    phase: TurnPhase::Resetting,
                    ..self
                },
                TurnAction::Reset,
            )
        }
    }

    /// Whether `event` is an answer to what was asked for last.
    pub open spec fn expects(self, event: TurnEvent<C>) -> bool {
        match self.phase {
            TurnPhase::Idle => false,
            TurnPhase::Resetting => event is Done,
            TurnPhase::Saving { .. } => event is Saved,
            _ => event is Done || event is Failed,
        }
    }

    /// The step that an answer leads to.
    pub open spec fn next(self, event: TurnEvent<C>) -> (SessionView<C>, TurnAction<C>) {
        let len = self.msg_ids.len() as usize;
        let start_over = (
            SessionView { phase: TurnPhase::Resetting, ..self },
            TurnAction::Reset,
        );
        let give_up = (SessionView { phase: TurnPhase::Idle, ..self }, TurnAction::Fail);
        match (self.phase, event) {
            (TurnPhase::Restoring, TurnEvent::Done) => (
                SessionView { phase: TurnPhase::DeltaPrefill, ..self },
                TurnAction::PrefillPrefix { start: self.last_msg_ids.len() as usize, end: len },
            ),
            (TurnPhase::Restoring, TurnEvent::Failed) => start_over,
            (TurnPhase::DeltaPrefill, TurnEvent::Done) => (
                SessionView { phase: TurnPhase::Saving { cached: true }, ..self },
                TurnAction::Checkpoint,
            ),
            (TurnPhase::DeltaPrefill, TurnEvent::Failed) => start_over,
            (TurnPhase::Resetting, TurnEvent::Done) => (
                SessionView { phase: TurnPhase::FullPrefill, ..self },
                TurnAction::PrefillPrefix { start: 0, end: len },
            ),
            (TurnPhase::FullPrefill, TurnEvent::Done) => (
                SessionView { phase: TurnPhase::Saving { cached: false }, ..self },
                TurnAction::Checkpoint,
            ),
            (TurnPhase::Saving { cached }, TurnEvent::Saved(state)) => (
                SessionView {
                    checkpoint: Some(state),
                    phase: TurnPhase::RestPrefill { cached },
                    ..self
                },
                TurnAction::PrefillRest { start: len },
            ),
            (TurnPhase::RestPrefill { cached }, TurnEvent::Done) => (
                SessionView {
                    last_msg_ids: self.msg_ids,
                    last_msgs_checkpoint: self.checkpoint,
                    msg_ids: Seq::empty(),
                    checkpoint: None,
                    phase: TurnPhase::Idle,
                },
                TurnAction::Generate { cached },
            ),
            _ => give_up,
        }
    }
}

/// What can be used again of a prompt whose first `msg_len` tokens are its messages.
pub open spec fn reusable(full_ids: Seq<u32>, msg_len: int) -> Seq<u32> {
    if msg_len < full_ids.len() {
        full_ids.take(msg_len)
    } else {
        full_ids
    }
}

/// Whether `prefix` is a prefix of `ids`.
fn is_prefix(prefix: &[u32], ids: &[u32]) -> (answer: bool)
    ensures
        answer == prefix@.is_prefix_of(ids@),
{
    if prefix.len() > ids.len() {
        return false;
    }
    let mut i: usize = 0;
    while i < prefix.len()
        invariant
            i <= prefix@.len() <= ids@.len(),
            forall|k: int| 0 <= k < i ==> prefix@[k] == ids@[k],
        decreases prefix@.len() - i,
    {
        if prefix[i] != ids[i] {
            assert(prefix@[i as int] != ids@.subrange(0, prefix@.len() as int)[i as int]);
            return false;
        }
        i += 1;
    }
    assert(prefix@ =~= ids@.subrange(0, prefix@.len() as int));
    true
}

impl<C> Session<C> {
    /// A session in which nothing has been said.
    pub fn new() -> (session: Self)
        ensures
            session@ == (SessionView::<C> {
                last_msg_ids: Seq::empty(),
                last_msgs_checkpoint: None,
                msg_ids: Seq::empty(),
                checkpoint: None,
                phase: TurnPhase::Idle,
            }),
    {
        Session {
            last_msg_ids: Vec::new(),
            last_msgs_checkpoint: None,
            msg_ids: Vec::new(),
            checkpoint: None,
            phase: TurnPhase::Idle,
        }
    }

    /// Takes up a request whose prompt is `full_ids`, the first `msg_len` of them its
    /// messages. What is remembered is what the models are fed: the tokens of the prompt,
    /// also where the messages alone would be other tokens.
    pub fn begin(&mut self, full_ids: &[u32], msg_len: usize) -> (action: TurnAction<C>)
        ensures
            final(self)@ == old(self)@.first(reusable(full_ids@, msg_len as int)).0,
            action == old(self)@.first(reusable(full_ids@, msg_len as int)).1,
    {
        let end: usize = if msg_len < full_ids.len() {
            msg_len
        } else {
            full_ids.len()
        };
        let mut msg_ids: Vec<u32> = Vec::new();
        msg_ids.extend_from_slice(slice_subrange(full_ids, 0, end));
        assert(msg_ids@ =~= reusable(full_ids@, msg_len as int));
        let extends = self.last_msg_ids.len() < msg_ids.len() && is_prefix(
            &self.last_msg_ids,
            &msg_ids,
        );
        self.msg_ids = msg_ids;
        self.checkpoint = None;
        if extends {
            if let Some(state) = self.last_msgs_checkpoint.take() {
                self.phase = TurnPhase::Restoring;
                return TurnAction::Restore(state);
            }
        }
        self.phase = TurnPhase::Resetting;
        TurnAction::Reset
    }

    /// Takes the answer to the last action and says what comes next.
    pub fn step(&mut self, event: TurnEvent<C>) -> (action: TurnAction<C>)
        requires
            old(self)@.expects(event),
        ensures
            final(self)@ == old(self)@.next(event).0,
            action == old(self)@.next(event).1,
    {
        let len: usize = self.msg_ids.len();
        match (self.phase, event) {
            (TurnPhase::Restoring, TurnEvent::Done) => {
                self.phase = TurnPhase::DeltaPrefill;
                TurnAction::PrefillPrefix { start: self.last_msg_ids.len(), end: len }
            },
            (TurnPhase::DeltaPrefill, TurnEvent::Done) => {
                self.phase = TurnPhase::Saving { cached: true };
                TurnAction::Checkpoint
            },
            (TurnPhase::Restoring, TurnEvent::Failed) | (
                TurnPhase::DeltaPrefill,
                TurnEvent::Failed,
            ) => {
                self.phase = TurnPhase::Resetting;
                TurnAction::Reset
            },
            (TurnPhase::Resetting, TurnEvent::Done) => {
                self.phase = TurnPhase::FullPrefill;
                TurnAction::PrefillPrefix { start: 0, end: len }
            },
            (TurnPhase::FullPrefill, TurnEvent::Done) => {
                self.phase = TurnPhase::Saving { cached: false };
                TurnAction::Checkpoint
            },
            (TurnPhase::Saving { cached }, TurnEvent::Saved(state)) => {
                self.checkpoint = Some(state);
                self.phase = TurnPhase::RestPrefill { cached };
                TurnAction::PrefillRest { start: len }
            },
            (TurnPhase::RestPrefill { cached }, TurnEvent::Done) => {
                let mut ids: Vec<u32> = Vec::new();
                std::mem::swap(&mut ids, &mut self.msg_ids);
                self.last_msg_ids = ids;
                self.last_msgs_checkpoint = self.checkpoint.take();
                self.phase = TurnPhase::Idle;
                TurnAction::Generate { cached }
            },
            _ => {
                self.phase = TurnPhase::Idle;
                TurnAction::Fail
            },
        }
    }
}

// ---------------------------------------------------------------------------
// Laws
// ---------------------------------------------------------------------------

/// What the models were fed when a state was saved.
pub type SavedContext<C> = spec_fn(C) -> Seq<u32>;

/// What was saved is the state at the end of the last request's messages.
pub open spec fn remembers<C>(saved: SavedContext<C>, session: SessionView<C>) -> bool {
    session.last_msgs_checkpoint matches Some(state) ==> saved(state) == session.last_msg_ids
}

/// What the models have been fed after an action on the prompt `full_ids`. An action that
/// failed may leave anything, which is `rubble`.
pub open spec fn fed_after<C>(
    saved: SavedContext<C>,
    fed: Seq<u32>,
    full_ids: Seq<u32>,
    action: TurnAction<C>,
    event: TurnEvent<C>,
    rubble: Seq<u32>,
) -> Seq<u32> {
    if event is Failed {
        rubble
    } else {
        match action {
            TurnAction::Restore(state) => saved(state),
            TurnAction::Reset => Seq::empty(),
            TurnAction::PrefillPrefix { start, end } => fed + full_ids.subrange(
                start as int,
                end as int,
            ),
            TurnAction::PrefillRest { start } => fed + full_ids.skip(start as int),
            _ => fed,
        }
    }
}

/// A request as far as it has gone.
#[verifier::reject_recursive_types(C)]
pub struct TurnRun<C> {
    pub session: SessionView<C>,
    pub action: TurnAction<C>,
    pub fed: Seq<u32>,
}

/// The request after some answers, each with what the models hold should it be a failure.
/// The models hold `before` at the start.
pub open spec fn turn<C>(
    saved: SavedContext<C>,
    session: SessionView<C>,
    before: Seq<u32>,
    full_ids: Seq<u32>,
    msg_ids: Seq<u32>,
    answers: Seq<(TurnEvent<C>, Seq<u32>)>,
) -> TurnRun<C>
    decreases answers.len(),
{
    if answers.len() == 0 {
        let (session, action) = session.first(msg_ids);
        TurnRun { session, action, fed: before }
    } else {
        let run = turn(saved, session, before, full_ids, msg_ids, answers.drop_last());
        let (event, rubble) = answers.last();
        let (session, action) = run.session.next(event);
        TurnRun {
            session,
            action,
            fed: fed_after(saved, run.fed, full_ids, run.action, event, rubble),
        }
    }
}

/// Each answer is one to what was asked for, and a saved state is the state of the models
/// when it was saved.
pub open spec fn honest<C>(
    saved: SavedContext<C>,
    session: SessionView<C>,
    before: Seq<u32>,
    full_ids: Seq<u32>,
    msg_ids: Seq<u32>,
    answers: Seq<(TurnEvent<C>, Seq<u32>)>,
) -> bool
    decreases answers.len(),
{
    answers.len() > 0 ==> {
        let run = turn(saved, session, before, full_ids, msg_ids, answers.drop_last());
        &&& honest(saved, session, before, full_ids, msg_ids, answers.drop_last())
        &&& run.session.expects(answers.last().0)
        &&& answers.last().0 matches TurnEvent::Saved(state) ==> saved(state) == run.fed
    }
}

/// The link between a request and what the models hold.
spec fn in_step<C>(
    saved: SavedContext<C>,
    full_ids: Seq<u32>,
    msg_ids: Seq<u32>,
    run: TurnRun<C>,
) -> bool {
    let session = run.session;
    let len = msg_ids.len();
    &&& session.phase is Idle || session.msg_ids == msg_ids
    &&& remembers(saved, session)
    &&& match session.phase {
        TurnPhase::Idle => run.action is Fail || (run.action is Generate && run.fed == full_ids
            && session.last_msg_ids == msg_ids && session.last_msgs_checkpoint is Some),
        TurnPhase::Restoring => {
            &&& run.action matches TurnAction::Restore(state)
            &&& saved(run.action->Restore_0) == session.last_msg_ids
            &&& session.last_msg_ids.len() <= len
            &&& session.last_msg_ids.is_prefix_of(msg_ids)
        },
        TurnPhase::DeltaPrefill => {
            &&& run.action == TurnAction::<C>::PrefillPrefix {
                start: session.last_msg_ids.len() as usize,
                end: len as usize,
            }
            &&& run.fed == session.last_msg_ids
            &&& session.last_msg_ids.is_prefix_of(msg_ids)
        },
        TurnPhase::Resetting => run.action is Reset,
        TurnPhase::FullPrefill => {
            &&& run.action == TurnAction::<C>::PrefillPrefix { start: 0, end: len as usize }
            &&& run.fed == Seq::<u32>::empty()
        },
        TurnPhase::Saving { .. } => run.action is Checkpoint && run.fed == msg_ids,
        TurnPhase::RestPrefill { .. } => {
            &&& run.action == TurnAction::<C>::PrefillRest { start: len as usize }
            &&& run.fed == msg_ids
            &&& session.checkpoint matches Some(state) && saved(state) == msg_ids
        },
    }
}

/// An honest request is in step.
proof fn turn_is_in_step<C>(
    saved: SavedContext<C>,
    session: SessionView<C>,
    before: Seq<u32>,
    full_ids: Seq<u32>,
    msg_ids: Seq<u32>,
    answers: Seq<(TurnEvent<C>, Seq<u32>)>,
)
    requires
        remembers(saved, session),
        msg_ids.is_prefix_of(full_ids),
        msg_ids.len() <= usize::MAX,
        honest(saved, session, before, full_ids, msg_ids, answers),
    ensures
        in_step(
            saved,
            full_ids,
            msg_ids,
            turn(saved, session, before, full_ids, msg_ids, answers),
        ),
    decreases answers.len(),
{
    if answers.len() > 0 {
        let run = turn(saved, session, before, full_ids, msg_ids, answers.drop_last());
        turn_is_in_step(saved, session, before, full_ids, msg_ids, answers.drop_last());
        let (event, rubble) = answers.last();
        let len = msg_ids.len() as int;
        match run.session.phase {
            TurnPhase::DeltaPrefill => {
                let last = run.session.last_msg_ids;
                assert(last + full_ids.subrange(last.len() as int, len) =~= msg_ids);
            },
            TurnPhase::FullPrefill => {
                assert(Seq::<u32>::empty() + full_ids.subrange(0, len) =~= msg_ids);
            },
            TurnPhase::RestPrefill { .. } => {
                assert(msg_ids + full_ids.skip(len) =~= full_ids);
            },
            _ => {},
        }
    }
}

/// Whether its prefix was restored or run anew, and whatever failed on the way: a request
/// that comes to generate has had the models fed exactly its prompt, and the session then
/// remembers the state at the end of its messages. (That those are the first tokens of the
/// prompt is what [`Session::begin`] sees to.)
pub proof fn generation_starts_from_the_prompt<C>(
    saved: SavedContext<C>,
    session: SessionView<C>,
    before: Seq<u32>,
    full_ids: Seq<u32>,
    msg_ids: Seq<u32>,
    answers: Seq<(TurnEvent<C>, Seq<u32>)>,
)
    requires
        remembers(saved, session),
        msg_ids.is_prefix_of(full_ids),
        msg_ids.len() <= usize::MAX,
        honest(saved, session, before, full_ids, msg_ids, answers),
        turn(saved, session, before, full_ids, msg_ids, answers).action is Generate,
    ensures
        ({
            let run = turn(saved, session, before, full_ids, msg_ids, answers);
            &&& run.fed == full_ids
            &&& run.session.last_msg_ids == msg_ids
            &&& run.session.last_msgs_checkpoint matches Some(state)
            &&& saved(state) == msg_ids
        }),
{
    turn_is_in_step(saved, session, before, full_ids, msg_ids, answers);
}

/// However a request ends, the session never holds a state that is not the one at the end
/// of the messages it remembers: a failure cannot spoil the next request.
pub proof fn sessions_stay_sound<C>(
    saved: SavedContext<C>,
    session: SessionView<C>,
    before: Seq<u32>,
    full_ids: Seq<u32>,
    msg_ids: Seq<u32>,
    answers: Seq<(TurnEvent<C>, Seq<u32>)>,
)
    requires
        remembers(saved, session),
        msg_ids.is_prefix_of(full_ids),
        msg_ids.len() <= usize::MAX,
        honest(saved, session, before, full_ids, msg_ids, answers),
    ensures
        remembers(saved, turn(saved, session, before, full_ids, msg_ids, answers).session),
{
    turn_is_in_step(saved, session, before, full_ids, msg_ids, answers);
}

/// A failure while the cache is being used only costs time: the request starts over, and
/// fails only for what fails without a cache.
pub proof fn cache_failures_start_over<C>(session: SessionView<C>)
    requires
        session.phase is Restoring || session.phase is DeltaPrefill,
    ensures
        session.next(TurnEvent::Failed).1 is Reset,
        session.next(TurnEvent::Failed).0.phase is Resetting,
{
}

} // verus!
