//! What the two models are fed before generation starts.
//!
//! The target runs the prompt; the drafter runs the same positions one token ahead: at
//! each of them it is given the token that follows in the prompt, and the target's
//! hidden state there.

use vstd::prelude::*;
use vstd::string::*;

use crate::text;
use crate::text::{decimal_of, join};

verus! {

/// Segments from this length on are run in fused passes of many tokens; shorter ones
/// token by token.
pub const BATCHED_FROM: usize = 4;

/// A segment of a prompt that is to be prefilled.
#[derive(Debug)]
pub struct PrefillPlan {
    /// How many prompt tokens the models have already run.
    pub start: usize,
    /// The tokens for the target, in order.
    pub target_tokens: Vec<u32>,
    /// Whether both models run the segment in fused passes.
    pub batched: bool,
}

/// The tokens that the drafter runs for the positions `start..end` of a prompt: the one
/// that follows each position, which behind the last position is the target's `bonus`.
pub open spec fn shifted(prompt: Seq<u32>, start: int, end: int, bonus: u32) -> Seq<u32> {
    Seq::new(
        (end - start) as nat,
        |t: int|
            if start + t + 1 < prompt.len() {
                prompt[start + t + 1]
            } else {
                bonus
            },
    )
}

impl PrefillPlan {
    /// The plan for `prompt[start..end]`.
    pub open spec fn covers(&self, prompt: Seq<u32>, start: int, end: int) -> bool {
        &&& self.start == start
        &&& self.target_tokens@ == prompt.subrange(start, end)
        &&& self.batched == (end - start >= BATCHED_FROM)
    }

    /// How many prompt tokens have been processed once the target is through `done` of
    /// the segment.
    pub fn processed(&self, done: usize) -> (count: usize)
        requires
            self.start + self.target_tokens@.len() <= usize::MAX,
            done <= self.target_tokens@.len(),
        ensures
            count == self.start + done,
    {
        self.start + done
    }

    /// The drafter's tokens, one for each position of the segment, in order. `bonus` is
    /// the target's answer to the last token of the segment.
    pub fn drafter_tokens(&self, prompt: &[u32], bonus: u32) -> (tokens: Vec<u32>)
        requires
            self.start + self.target_tokens@.len() <= prompt@.len(),
        ensures
            tokens@ == shifted(
                prompt@,
                self.start as int,
                self.start + self.target_tokens@.len(),
                bonus,
            ),
    {
        let mut tokens: Vec<u32> = Vec::new();
        let len: usize = prompt.len();
        let mut t: usize = 0;
        while t < self.target_tokens.len()
            invariant
                len == prompt@.len(),
                t <= self.target_tokens@.len(),
                self.start + self.target_tokens@.len() <= prompt@.len(),
                tokens@ == shifted(prompt@, self.start as int, self.start + t, bonus),
            decreases self.target_tokens@.len() - t,
        {
            let position: usize = self.start + t;
            if position < len - 1 {
                tokens.push(prompt[position + 1]);
            } else {
                tokens.push(bonus);
            }
            t += 1;
            assert(tokens@ =~= shifted(prompt@, self.start as int, self.start + t, bonus));
        }
        tokens
    }

    /// The first generated token: the target's answer to the last token of the segment.
    pub fn bonus(&self, answers: &[u32]) -> (bonus: u32)
        requires
            answers@.len() == self.target_tokens@.len(),
        ensures
            bonus == (if answers@.len() == 0 {
                0
            } else {
                answers@.last()
            }),
    {
        if answers.len() == 0 {
            0
        } else {
            answers[answers.len() - 1]
        }
    }
}

/// A plan for `prompt[start..end]`.
fn segment(prompt: &[u32], start: usize, end: usize) -> (plan: PrefillPlan)
    requires
        start <= end <= prompt@.len(),
    ensures
        plan.covers(prompt@, start as int, end as int),
{
    let mut target_tokens: Vec<u32> = Vec::new();
    let mut i: usize = start;
    while i < end
        invariant
            start <= i <= end <= prompt@.len(),
            target_tokens@ == prompt@.subrange(start as int, i as int),
        decreases end - i,
    {
        target_tokens.push(prompt[i]);
        i += 1;
        assert(target_tokens@ =~= prompt@.subrange(start as int, i as int));
    }
    PrefillPlan { start, target_tokens, batched: end - start >= BATCHED_FROM }
}

/// The plan for a whole prompt.
pub fn prefill_prompt(prompt: &[u32]) -> (plan: Result<PrefillPlan, String>)
    ensures
        match plan {
            Ok(plan) => prompt@.len() > 0 && plan.covers(prompt@, 0, prompt@.len() as int),
            Err(message) => prompt@.len() == 0 && message@ == "cannot prefill an empty prompt"@,
        },
{
    prefill_prompt_from(prompt, 0)
}

/// What is said of a start beyond the end of the prompt.
pub open spec fn start_message(start: nat, len: nat) -> Seq<char> {
    "prefill start "@ + text::decimal(start) + " exceeds prompt length "@ + text::decimal(len)
}

/// The plan for the rest of a prompt whose first `start` tokens both models have run.
/// There must be a rest: generation is seeded from its last position.
pub fn prefill_prompt_from(prompt: &[u32], start: usize) -> (plan: Result<PrefillPlan, String>)
    requires
        prompt@.len() > 0 ==> start != prompt@.len(),
    ensures
        match plan {
            Ok(plan) => start < prompt@.len() && plan.covers(
                prompt@,
                start as int,
                prompt@.len() as int,
            ),
            Err(message) => start >= prompt@.len() && message@ == (if prompt@.len() == 0 {
                "cannot prefill an empty prompt"@
            } else {
                start_message(start as nat, prompt@.len())
            }),
        },
{
    if prompt.len() == 0 {
        return Err("cannot prefill an empty prompt".to_owned());
    }
    if start > prompt.len() {
        let mut message = join("prefill start ", decimal_of(start as u64).as_str());
        message.append(" exceeds prompt length ");
        message.append(decimal_of(prompt.len() as u64).as_str());
        return Err(message);
    }
    Ok(segment(prompt, start, prompt.len()))
}

/// What is said of a range that is no strict prefix of the prompt.
pub open spec fn range_message(start: nat, end: nat, len: nat) -> Seq<char> {
    "prefill_prefix_until: invalid range ["@ + text::decimal(start) + ", "@ + text::decimal(end)
        + "] for prompt len "@ + text::decimal(len)
}

/// The plan for `prompt[start..end]`, a segment before the end of the prompt: it leaves
/// both models at `end` and seeds nothing.
pub fn prefill_prefix_until(prompt: &[u32], start: usize, end: usize) -> (plan: Result<
    PrefillPlan,
    String,
>)
    ensures
        match plan {
            Ok(plan) => start <= end < prompt@.len() && plan.covers(
                prompt@,
                start as int,
                end as int,
            ),
            Err(message) => !(start <= end < prompt@.len()) && message@ == range_message(
                start as nat,
                end as nat,
                prompt@.len(),
            ),
        },
{
    if start > end || end >= prompt.len() {
        let mut message = join(
            "prefill_prefix_until: invalid range [",
            decimal_of(start as u64).as_str(),
        );
        message.append(", ");
        message.append(decimal_of(end as u64).as_str());
        message.append("] for prompt len ");
        message.append(decimal_of(prompt.len() as u64).as_str());
        return Err(message);
    }
    Ok(segment(prompt, start, end))
}

/// A prompt prefilled in two segments, with a stop in between, feeds both models exactly
/// what one segment feeds them: so a conversation whose prefix is already in the models
/// only needs the rest, and the outcome is that of the whole.
pub proof fn segments_add_up(
    prompt: Seq<u32>,
    start: int,
    middle: int,
    end: int,
    other: u32,
    bonus: u32,
)
    requires
        0 <= start <= middle <= end <= prompt.len(),
        middle < prompt.len(),
    ensures
        prompt.subrange(start, middle) + prompt.subrange(middle, end) == prompt.subrange(
            start,
            end,
        ),
        shifted(prompt, start, middle, other) + shifted(prompt, middle, end, bonus) == shifted(
            prompt,
            start,
            end,
            bonus,
        ),
{
    assert(prompt.subrange(start, middle) + prompt.subrange(middle, end) =~= prompt.subrange(
        start,
        end,
    ));
    assert(shifted(prompt, start, middle, other) + shifted(prompt, middle, end, bonus)
        =~= shifted(prompt, start, end, bonus));
}

/// The drafter runs the prompt without its first token, and then the bonus token.
pub proof fn drafter_runs_one_ahead(prompt: Seq<u32>, bonus: u32)
    requires
        prompt.len() > 0,
    ensures
        shifted(prompt, 0, prompt.len() as int, bonus) == prompt.skip(1).push(bonus),
{
    assert(shifted(prompt, 0, prompt.len() as int, bonus) =~= prompt.skip(1).push(bonus));
}

} // verus!
