//! Speculative decoding with a multi-token-prediction (MTP) drafter.
//!
//! The drafter proposes tokens, the target model verifies them in one batch, and
//! only what the target would have produced by itself is kept.

use vstd::prelude::*;

pub mod block3;
pub mod costs;
pub mod laws;
pub mod prefill;

verus! {

/// What a verified batch of drafts amounts to.
#[derive(Debug, PartialEq, Eq)]
pub struct GreedyAcceptance {
    pub accepted_drafts: usize,
    pub emitted: Vec<u32>,
    pub target_trim: usize,
}

/// Accepts the matching draft prefix, then emits the target token at the first
/// mismatch (or the target's bonus token when every draft matched).
pub fn accept_greedy(drafts: &[u32], target_tokens: &[u32]) -> (acceptance: GreedyAcceptance)
    requires
        target_tokens@.len() == drafts@.len() + 1,
    ensures
        is_matching_prefix(drafts@, target_tokens@, acceptance.accepted_drafts as int),
        acceptance.emitted@ == drafts@.take(acceptance.accepted_drafts as int).push(
            target_tokens@[acceptance.accepted_drafts as int],
        ),
        acceptance.target_trim == drafts@.len() - acceptance.accepted_drafts,
{
    let mut accepted: usize = 0;
    let mut emitted: Vec<u32> = Vec::new();
    while accepted < drafts.len() && drafts[accepted] == target_tokens[accepted]
        invariant
            accepted <= drafts@.len(),
            target_tokens@.len() == drafts@.len() + 1,
            forall|i: int| 0 <= i < accepted ==> drafts@[i] == target_tokens@[i],
            emitted@ == drafts@.take(accepted as int),
        decreases drafts@.len() - accepted,
    {
        emitted.push(drafts[accepted]);
        accepted += 1;
    }
    emitted.push(target_tokens[accepted]);
    let target_trim: usize = target_tokens.len() - emitted.len();
    GreedyAcceptance { accepted_drafts: accepted, emitted, target_trim }
}

/// `n` is how many leading drafts the target agrees with: the first `n` are equal to
/// the target's tokens, and the next one, if there is one, is not.
pub open spec fn is_matching_prefix(drafts: Seq<u32>, target_tokens: Seq<u32>, n: int) -> bool {
    &&& 0 <= n <= drafts.len()
    &&& forall|i: int| 0 <= i < n ==> drafts[i] == target_tokens[i]
    &&& n < drafts.len() ==> drafts[n] != target_tokens[n]
}

/// Whatever the drafter proposed, what is emitted is a prefix of what the target
/// produced: a wrong draft can only shorten it.
pub proof fn emitted_tokens_are_the_targets(drafts: Seq<u32>, target_tokens: Seq<u32>, n: int)
    requires
        target_tokens.len() == drafts.len() + 1,
        is_matching_prefix(drafts, target_tokens, n),
    ensures
        drafts.take(n).push(target_tokens[n]) == target_tokens.take(n + 1),
{
    assert(drafts.take(n).push(target_tokens[n]) =~= target_tokens.take(n + 1));
}

/// One token that the drafter is to run through its cache again.
#[derive(Debug, Clone, Copy, PartialEq, Eq, Structural)]
pub enum MtpReplay {
    /// The draft at this index.
    Draft(usize),
    /// The target's replacement (or bonus) token.
    Replacement,
}

/// How the drafter's cache is brought in line with what the target accepted.
#[derive(Debug, PartialEq, Eq)]
pub struct MtpReconcilePlan {
    pub trim: usize,
    pub replay: Vec<MtpReplay>,
}

/// The smaller of two numbers.
pub open spec fn min(a: int, b: int) -> int {
    if a <= b {
        a
    } else {
        b
    }
}

/// Keeps the accepted drafts that this round already appended, replays the accepted
/// drafts that are not in the cache, and appends the target's replacement or bonus
/// token to seed the next round.
pub fn mtp_reconcile_plan(draft_count: usize, round_appended: usize, accepted: usize) -> (plan:
    MtpReconcilePlan)
    requires
        accepted <= draft_count,
        round_appended <= draft_count,
    ensures
        plan.trim == round_appended - min(accepted as int, round_appended as int),
        plan.replay@ == replays(min(accepted as int, round_appended as int), accepted as int),
{
    let keep_appended: usize = if accepted <= round_appended {
        accepted
    } else {
        round_appended
    };
    let mut replay: Vec<MtpReplay> = Vec::new();
    let mut i: usize = keep_appended;
    while i < accepted
        invariant
            keep_appended <= i <= accepted,
            replay@ == Seq::new(
                (i - keep_appended) as nat,
                |k: int| MtpReplay::Draft((keep_appended + k) as usize),
            ),
        decreases accepted - i,
    {
        replay.push(MtpReplay::Draft(i));
        i += 1;
    }
    replay.push(MtpReplay::Replacement);
    MtpReconcilePlan { trim: round_appended - keep_appended, replay }
}

/// The drafts `from..to`, then the replacement token.
pub open spec fn replays(from: int, to: int) -> Seq<MtpReplay> {
    Seq::new((to - from) as nat, |k: int| MtpReplay::Draft((from + k) as usize)).push(
        MtpReplay::Replacement,
    )
}

/// After the plan, the drafter's cache holds this round's accepted drafts and the
/// replacement token, each once, and nothing else of this round: what stays of the
/// appended drafts and what is replayed make up `accepted + 1` positions.
pub proof fn reconciled_length(draft_count: nat, round_appended: nat, accepted: nat)
    requires
        accepted <= draft_count,
        round_appended <= draft_count,
    ensures
        ({
            let keep = min(accepted as int, round_appended as int);
            let trim = round_appended - keep;
            round_appended - trim + replays(keep, accepted as int).len() == accepted + 1
        }),
{
}

} // verus!
