//! What serving amounts to: a request is answered with the tokens that the target model
//! decodes greedily from its prompt, whatever was served before it.

use vstd::prelude::*;

use crate::serve::session;
use crate::serve::session::{
    SavedContext, SessionView, TurnAction, TurnEvent, TurnPhase, TurnRun,
};
use crate::speculative::laws;
use crate::speculative::laws::TargetModel;

verus! {

/// A request, and how serving it went: what the models held when it came, and the answers
/// to what was asked of them, each with what they hold should it be a failure.
#[verifier::reject_recursive_types(C)]
pub struct Request<C> {
    pub full_ids: Seq<u32>,
    pub msg_len: usize,
    pub before: Seq<u32>,
    pub answers: Seq<(TurnEvent<C>, Seq<u32>)>,
}

/// A session in which nothing has been said.
pub open spec fn fresh<C>() -> SessionView<C> {
    SessionView {
        last_msg_ids: Seq::empty(),
        last_msgs_checkpoint: None,
        msg_ids: Seq::empty(),
        checkpoint: None,
        phase: TurnPhase::Idle,
    }
}

/// A request in a session.
pub open spec fn serve<C>(
    saved: SavedContext<C>,
    session: SessionView<C>,
    request: Request<C>,
) -> TurnRun<C> {
    session::turn(
        saved,
        session,
        request.before,
        request.full_ids,
        session::reusable(request.full_ids, request.msg_len as int),
        request.answers,
    )
}

/// The session after some requests, the first of which found it fresh.
pub open spec fn session_after<C>(
    saved: SavedContext<C>,
    history: Seq<Request<C>>,
) -> SessionView<C>
    decreases history.len(),
{
    if history.len() == 0 {
        fresh()
    } else {
        serve(saved, session_after(saved, history.drop_last()), history.last()).session
    }
}

/// A prompt that this machine can hold, and models that answered honestly.
pub open spec fn is_sound<C>(
    saved: SavedContext<C>,
    session: SessionView<C>,
    request: Request<C>,
) -> bool {
    &&& request.full_ids.len() <= usize::MAX
    &&& session::honest(
        saved,
        session,
        request.before,
        request.full_ids,
        session::reusable(request.full_ids, request.msg_len as int),
        request.answers,
    )
}

/// Every request of a history was a sound one.
pub open spec fn is_sound_history<C>(saved: SavedContext<C>, history: Seq<Request<C>>) -> bool
    decreases history.len(),
{
    history.len() > 0 ==> {
        &&& is_sound_history(saved, history.drop_last())
        &&& is_sound(saved, session_after(saved, history.drop_last()), history.last())
    }
}

/// What can be used again of a prompt are its first tokens.
proof fn reusable_is_a_prefix(full_ids: Seq<u32>, msg_len: int)
    requires
        0 <= msg_len,
    ensures
        session::reusable(full_ids, msg_len).is_prefix_of(full_ids),
        session::reusable(full_ids, msg_len).len() <= full_ids.len(),
{
    let part = session::reusable(full_ids, msg_len);
    assert(part =~= full_ids.take(part.len() as int));
}

/// A session that has served sound requests remembers the state that it says it does.
proof fn histories_are_remembered<C>(saved: SavedContext<C>, history: Seq<Request<C>>)
    requires
        is_sound_history(saved, history),
    ensures
        session::remembers(saved, session_after(saved, history)),
    decreases history.len(),
{
    if history.len() > 0 {
        let request = history.last();
        reusable_is_a_prefix(request.full_ids, request.msg_len as int);
        histories_are_remembered(saved, history.drop_last());
        session::sessions_stay_sound(
            saved,
            session_after(saved, history.drop_last()),
            request.before,
            request.full_ids,
            session::reusable(request.full_ids, request.msg_len as int),
            request.answers,
        );
    }
}

/// Whatever was served before, and whatever failed on the way: the tokens that a request is
/// answered with, from what its prefill left in the models, are the greedy continuation of
/// its prompt. None of them is the stop token, there are at most `max_tokens` of them, and
/// once the generation is finished there are as many, or the next would be the stop token.
pub proof fn completions_are_greedy<C>(
    model: TargetModel,
    saved: SavedContext<C>,
    history: Seq<Request<C>>,
    request: Request<C>,
    seed: Option<u32>,
    alone: bool,
    max_tokens: int,
    eos: Option<u32>,
    drafts: Seq<u32>,
)
    requires
        is_sound_history(saved, history),
        is_sound(saved, session_after(saved, history), request),
        serve(saved, session_after(saved, history), request).action is Generate,
        0 <= max_tokens,
        max_tokens * 4 <= isize::MAX,
    ensures
        ({
            let fed = serve(saved, session_after(saved, history), request).fed;
            let now = laws::run(model, fed, seed, alone, max_tokens, eos, drafts);
            &&& laws::is_greedy(model, request.full_ids, now.emitted)
            &&& laws::free_of(now.emitted, eos)
            &&& now.emitted.len() <= max_tokens
            &&& now.action is Finished ==> laws::is_complete(
                model,
                request.full_ids,
                max_tokens,
                eos,
                now.emitted,
            )
        }),
{
    reusable_is_a_prefix(request.full_ids, request.msg_len as int);
    histories_are_remembered(saved, history);
    session::generation_starts_from_the_prompt(
        saved,
        session_after(saved, history),
        request.before,
        request.full_ids,
        session::reusable(request.full_ids, request.msg_len as int),
        request.answers,
    );
    laws::speculation_is_greedy(
        model,
        request.full_ids,
        seed,
        alone,
        max_tokens,
        eos,
        drafts,
    );
}

/// What was served before has no say in a completion: the same prompt is answered with the
/// same tokens behind one history and behind another, the empty one among them.
pub proof fn completions_do_not_depend_on_the_history<C>(
    model: TargetModel,
    saved: SavedContext<C>,
    history: Seq<Request<C>>,
    request: Request<C>,
    seed: Option<u32>,
    alone: bool,
    drafts: Seq<u32>,
    other_history: Seq<Request<C>>,
    other: Request<C>,
    other_seed: Option<u32>,
    other_alone: bool,
    other_drafts: Seq<u32>,
    max_tokens: int,
    eos: Option<u32>,
)
    requires
        is_sound_history(saved, history),
        is_sound(saved, session_after(saved, history), request),
        serve(saved, session_after(saved, history), request).action is Generate,
        is_sound_history(saved, other_history),
        is_sound(saved, session_after(saved, other_history), other),
        serve(saved, session_after(saved, other_history), other).action is Generate,
        request.full_ids == other.full_ids,
        0 <= max_tokens,
        max_tokens * 4 <= isize::MAX,
        laws::run(
            model,
            serve(saved, session_after(saved, history), request).fed,
            seed,
            alone,
            max_tokens,
            eos,
            drafts,
        ).action is Finished,
        laws::run(
            model,
            serve(saved, session_after(saved, other_history), other).fed,
            other_seed,
            other_alone,
            max_tokens,
            eos,
            other_drafts,
        ).action is Finished,
    ensures
        laws::run(
            model,
            serve(saved, session_after(saved, history), request).fed,
            seed,
            alone,
            max_tokens,
            eos,
            drafts,
        ).emitted == laws::run(
            model,
            serve(saved, session_after(saved, other_history), other).fed,
            other_seed,
            other_alone,
            max_tokens,
            eos,
            other_drafts,
        ).emitted,
{
    reusable_is_a_prefix(request.full_ids, request.msg_len as int);
    histories_are_remembered(saved, history);
    session::generation_starts_from_the_prompt(
        saved,
        session_after(saved, history),
        request.before,
        request.full_ids,
        session::reusable(request.full_ids, request.msg_len as int),
        request.answers,
    );
    reusable_is_a_prefix(other.full_ids, other.msg_len as int);
    histories_are_remembered(saved, other_history);
    session::generation_starts_from_the_prompt(
        saved,
        session_after(saved, other_history),
        other.before,
        other.full_ids,
        session::reusable(other.full_ids, other.msg_len as int),
        other.answers,
    );
    laws::outcome_does_not_depend_on_the_drafter(
        model,
        request.full_ids,
        max_tokens,
        eos,
        seed,
        alone,
        drafts,
        other_seed,
        other_alone,
        other_drafts,
    );
}

/// A conversation that goes on does so from where it stood: where the messages of a request
/// extend those of the last one, which was served, the state at the end of those is restored,
/// and of the messages only what is new is fed.
pub proof fn longer_conversations_go_on<C>(
    saved: SavedContext<C>,
    history: Seq<Request<C>>,
    request: Request<C>,
    longer: Request<C>,
)
    requires
        is_sound_history(saved, history),
        is_sound(saved, session_after(saved, history), request),
        serve(saved, session_after(saved, history), request).action is Generate,
        longer.full_ids.len() <= usize::MAX,
        session::reusable(request.full_ids, request.msg_len as int).is_prefix_of(
            session::reusable(longer.full_ids, longer.msg_len as int),
        ),
        session::reusable(request.full_ids, request.msg_len as int).len() < session::reusable(
            longer.full_ids,
            longer.msg_len as int,
        ).len(),
    ensures
        ({
            let old_ids = session::reusable(request.full_ids, request.msg_len as int);
            let new_ids = session::reusable(longer.full_ids, longer.msg_len as int);
            let session = serve(saved, session_after(saved, history), request).session;
            let (restoring, action) = session.first(new_ids);
            &&& action matches TurnAction::Restore(state)
            &&& saved(action->Restore_0) == old_ids
            &&& restoring.next(TurnEvent::Done).1 == TurnAction::<C>::PrefillPrefix {
                start: old_ids.len() as usize,
                end: new_ids.len() as usize,
            }
        }),
{
    reusable_is_a_prefix(request.full_ids, request.msg_len as int);
    reusable_is_a_prefix(longer.full_ids, longer.msg_len as int);
    histories_are_remembered(saved, history);
    session::generation_starts_from_the_prompt(
        saved,
        session_after(saved, history),
        request.before,
        request.full_ids,
        session::reusable(request.full_ids, request.msg_len as int),
        request.answers,
    );
}

/// Where nothing fails, a request is told to have been served from the cache exactly where
/// its messages extend those whose state is at hand.
pub proof fn cache_use_is_told<C>(
    saved: SavedContext<C>,
    session: SessionView<C>,
    request: Request<C>,
)
    requires
        is_sound(saved, session, request),
        forall|i: int|
            0 <= i < request.answers.len() ==> !((#[trigger] request.answers[i]).0 is Failed),
    ensures
        serve(saved, session, request).action matches TurnAction::Generate { cached } ==> cached
            == session.can_reuse(session::reusable(request.full_ids, request.msg_len as int)),
{
    cache_use_so_far(saved, session, request);
}

/// Which way a request goes.
spec fn goes_its_way<C>(phase: TurnPhase, action: TurnAction<C>, reused: bool) -> bool {
    match phase {
        TurnPhase::Idle => action matches TurnAction::Generate { cached } ==> cached == reused,
        TurnPhase::Restoring => reused,
        TurnPhase::DeltaPrefill => reused,
        TurnPhase::Resetting => !reused,
        TurnPhase::FullPrefill => !reused,
        TurnPhase::Saving { cached } => cached == reused,
        TurnPhase::RestPrefill { cached } => cached == reused,
    }
}

/// A request without failures goes its way.
proof fn cache_use_so_far<C>(
    saved: SavedContext<C>,
    session: SessionView<C>,
    request: Request<C>,
)
    requires
        is_sound(saved, session, request),
        forall|i: int|
            0 <= i < request.answers.len() ==> !((#[trigger] request.answers[i]).0 is Failed),
    ensures
        ({
            let run = serve(saved, session, request);
            let msg_ids = session::reusable(request.full_ids, request.msg_len as int);
            goes_its_way(run.session.phase, run.action, session.can_reuse(msg_ids))
        }),
    decreases request.answers.len(),
{
    if request.answers.len() > 0 {
        let earlier = Request { answers: request.answers.drop_last(), ..request };
        assert forall|i: int| 0 <= i < earlier.answers.len() implies !((
        #[trigger] earlier.answers[i]).0 is Failed) by {
            assert(earlier.answers[i] == request.answers[i]);
        }
        cache_use_so_far(saved, session, earlier);
        assert(!(request.answers.last().0 is Failed));
    }
}

} // verus!
