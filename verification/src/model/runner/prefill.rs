//! Running a prompt: many tokens in one pass.

use vstd::prelude::*;
use vstd::string::*;

use crate::model::branch;
use crate::model::branch::{encode_prefill_attention, encode_prefill_gdn, encode_prefill_mlp};
use crate::model::command;
use crate::model::command::{u32_bytes, BufferId, Dispatch, DispatchView, Owner};
use crate::model::dispatch;
use crate::model::dispatch::{push_embed, push_gemm, push_norm, push_residual};
use crate::model::layers::{BranchWeights, LayerWeights};
use crate::model::runner;
use crate::model::runner::{Pass, QwenRunner, RunnerView};
use crate::model::{PREFILL_BATCH, VOCAB};
use crate::text;
use crate::text::{decimal_of, join};

verus! {

/// A layer, when prefilling `rows` rows.
pub open spec fn prefill_layer(r: RunnerView, layer: LayerWeights, rows: int) -> Seq<DispatchView> {
    let s = r.prefill;
    let scratch = BufferId::PrefillScratch;
    let target = Owner::Target;
    let branch = match layer.branch {
        BranchWeights::Gdn(weights) => branch::prefill_gdn(s, weights, rows),
        BranchWeights::Attention(weights) => branch::prefill_attention(
            target,
            branch::target_places(s),
            s.normalized,
            s.branch_output,
            weights,
            r.cache(weights.cache_index as int),
            rows,
        ),
    };
    seq![
        dispatch::norm(
            scratch,
            target,
            s.hidden as int,
            layer.common.input_norm,
            s.normalized as int,
            rows,
        ),
    ] + branch + seq![
        dispatch::residual(
            scratch,
            s.hidden as int,
            s.branch_output as int,
            s.residual as int,
            rows,
        ),
        dispatch::norm(
            scratch,
            target,
            s.residual as int,
            layer.common.post_norm,
            s.post_norm as int,
            rows,
        ),
    ] + branch::prefill_mlp(target, runner::mlp_places(s), layer.common.mlp, rows) + seq![
        dispatch::residual(
            scratch,
            s.residual as int,
            s.branch_output as int,
            s.hidden as int,
            rows,
        ),
    ]
}

/// The first `n` layers, when prefilling.
pub open spec fn prefill_layers(r: RunnerView, n: int, rows: int) -> Seq<DispatchView>
    decreases n,
{
    if n <= 0 {
        Seq::empty()
    } else {
        prefill_layers(r, n - 1, rows) + prefill_layer(r, r.layers[n - 1], rows)
    }
}

/// A pass over `rows` tokens of a prompt.
pub open spec fn prefill_plan(r: RunnerView, rows: int) -> Seq<DispatchView> {
    let s = r.prefill;
    let scratch = BufferId::PrefillScratch;
    seq![dispatch::embed(scratch, s.token as int, r.embed, s.hidden as int, rows)] + prefill_layers(
        r,
        r.layers.len() as int,
        rows,
    ) + seq![
        dispatch::norm(
            scratch,
            Owner::Target,
            s.hidden as int,
            r.final_norm,
            s.normalized as int,
            rows,
        ),
        dispatch::gemm(
            scratch,
            Owner::Target,
            rows,
            s.normalized as int,
            r.head,
            s.logits as int,
        ),
    ] + runner::argmax_rows(scratch, s, rows)
}

/// How many tokens the pass from `base` on takes.
pub open spec fn chunk_len(tokens: int, base: int) -> int {
    if tokens - base < PREFILL_BATCH {
        tokens - base
    } else {
        PREFILL_BATCH as int
    }
}

/// Whether all tokens are tokens.
pub open spec fn in_vocabulary(tokens: Seq<u32>) -> bool {
    forall|i: int| 0 <= i < tokens.len() ==> #[trigger] tokens[i] < VOCAB
}

/// What is said of a prompt that does not fit.
pub open spec fn prompt_too_long(capacity: int, tokens: int) -> Seq<char> {
    "KV capacity "@ + text::decimal(capacity as nat) + " exhausted by prefill of "@
        + text::decimal(tokens as nat) + " tokens"@
}

/// Why a prompt cannot be run from `base` on; `None` where it can.
pub open spec fn prefill_error(r: RunnerView, tokens: Seq<u32>, base: int) -> Option<Seq<char>> {
    if !in_vocabulary(tokens) {
        Some("prefill token is outside vocabulary"@)
    } else if base < tokens.len() && r.position + (tokens.len() - base) > r.capacity {
        Some(prompt_too_long(r.capacity, tokens.len() as int))
    } else {
        None
    }
}

/// `pass` feeds `tokens[base..]` to the target, as far as one pass goes.
pub open spec fn is_prefill_pass(pass: Pass, r: RunnerView, tokens: Seq<u32>, base: int) -> bool {
    let rows = chunk_len(tokens.len() as int, base);
    &&& pass.buffer == BufferId::PrefillScratch
    &&& pass.input@ == command::words_bytes(tokens.subrange(base, base + rows))
    &&& pass.rows == rows
    &&& command::plan_view(pass.plan@) == prefill_plan(r, rows)
}

/// Whether all tokens are tokens.
fn all_in_vocabulary(tokens: &[u32]) -> (answer: bool)
    ensures
        answer == in_vocabulary(tokens@),
{
    let mut i: usize = 0;
    while i < tokens.len()
        invariant
            i <= tokens@.len(),
            forall|k: int| 0 <= k < i ==> #[trigger] tokens@[k] < VOCAB,
        decreases tokens@.len() - i,
    {
        if tokens[i] as usize >= VOCAB {
            return false;
        }
        i += 1;
    }
    true
}

impl QwenRunner {
    /// Appends a layer, when prefilling.
    fn push_prefill_layer(&self, plan: &mut Vec<Dispatch>, index: usize, rows: usize)
        requires
            index < self@.layers.len(),
            rows <= PREFILL_BATCH,
            self@.position < u32::MAX,
        ensures
            command::plan_view(final(plan)@) == command::plan_view(old(plan)@) + prefill_layer(
                self@,
                self@.layers[index as int],
                rows as int,
            ),
    {
        proof {
            use_type_invariant(self);
        }
        let s = self.prefill_layout;
        let layer = self.layers[index];
        assert(runner::has_its_place(self@.layers[index as int]));
        let scratch = BufferId::PrefillScratch;
        let target = Owner::Target;
        push_norm(plan, scratch, target, s.hidden, layer.common.input_norm, s.normalized, rows);
        match layer.branch {
            BranchWeights::Gdn(weights) => {
                encode_prefill_gdn(plan, &s, &weights, rows);
            },
            BranchWeights::Attention(weights) => {
                let places = Self::attention_places(&s);
                let cache = self.cache(weights.cache_index);
                encode_prefill_attention(
                    plan,
                    target,
                    &places,
                    s.normalized,
                    s.branch_output,
                    &weights,
                    &cache,
                    rows,
                );
            },
        }
        push_residual(plan, scratch, s.hidden, s.branch_output, s.residual, rows);
        push_norm(plan, scratch, target, s.residual, layer.common.post_norm, s.post_norm, rows);
        encode_prefill_mlp(plan, target, &Self::mlp_places(&s), &layer.common.mlp, rows);
        push_residual(plan, scratch, s.residual, s.branch_output, s.hidden, rows);
        assert(command::plan_view(plan@) =~= command::plan_view(old(plan)@) + prefill_layer(
            self@,
            self@.layers[index as int],
            rows as int,
        ));
    }

    /// A pass over `rows` tokens of a prompt.
    fn prefill(&self, rows: usize) -> (plan: Vec<Dispatch>)
        requires
            rows <= PREFILL_BATCH,
            self@.position < u32::MAX,
        ensures
            command::plan_view(plan@) == prefill_plan(self@, rows as int),
    {
        proof {
            use_type_invariant(self);
        }
        let s = self.prefill_layout;
        let scratch = BufferId::PrefillScratch;
        let mut plan: Vec<Dispatch> = Vec::new();
        push_embed(&mut plan, scratch, s.token, &self.embed, s.hidden, rows);
        let ghost head = seq![
            dispatch::embed(scratch, s.token as int, self.embed, s.hidden as int, rows as int),
        ];
        let mut i: usize = 0;
        assert(command::plan_view(plan@) =~= head + prefill_layers(self@, 0, rows as int));
        while i < self.layers.len()
            invariant
                i <= self.layers@.len(),
                self.layers@ == self@.layers,
                rows <= PREFILL_BATCH,
                self@.position < u32::MAX,
                command::plan_view(plan@) == head + prefill_layers(self@, i as int, rows as int),
            decreases self.layers@.len() - i,
        {
            self.push_prefill_layer(&mut plan, i, rows);
            i += 1;
            assert(command::plan_view(plan@) =~= head + prefill_layers(
                self@,
                i as int,
                rows as int,
            ));
        }
        push_norm(
            &mut plan,
            scratch,
            Owner::Target,
            s.hidden,
            self.final_norm,
            s.normalized,
            rows,
        );
        push_gemm(
            &mut plan,
            scratch,
            Owner::Target,
            rows,
            s.normalized,
            &self.head,
            s.logits,
        );
        Self::push_argmax_rows(&mut plan, scratch, &s, Ghost(PREFILL_BATCH as int), rows);
        assert(command::plan_view(plan@) =~= prefill_plan(self@, rows as int));
        plan
    }

    /// Feeds the tokens of a prompt from `base` on, as far as one pass goes; `None` where
    /// there are none left. Called again with the base moved on by the rows of the pass, it
    /// feeds them all.
    pub fn forward_prefill(&mut self, tokens: &[u32], base: usize) -> (pass: Result<
        Option<Pass>,
        String,
    >)
        requires
            base <= tokens@.len(),
        ensures
            match pass {
                Ok(Some(pass)) => {
                    &&& prefill_error(old(self)@, tokens@, base as int) is None
                    &&& base < tokens@.len()
                    &&& is_prefill_pass(pass, old(self)@, tokens@, base as int)
                    &&& final(self)@ == (RunnerView {
                        position: old(self)@.position + pass.rows,
                        ..old(self)@
                    })
                },
                Ok(None) => {
                    &&& prefill_error(old(self)@, tokens@, base as int) is None
                    &&& base == tokens@.len()
                    &&& final(self)@ == old(self)@
                },
                Err(message) => {
                    &&& prefill_error(old(self)@, tokens@, base as int) == Some(message@)
                    &&& final(self)@ == old(self)@
                },
            },
    {
        proof {
            use_type_invariant(&*self);
        }
        if !all_in_vocabulary(tokens) {
            return Err("prefill token is outside vocabulary".to_owned());
        }
        let left: usize = tokens.len() - base;
        if left == 0 {
            return Ok(None);
        }
        if left > self.capacity - self.position {
            let mut message = join("KV capacity ", decimal_of(self.capacity as u64).as_str());
            message.append(" exhausted by prefill of ");
            message.append(decimal_of(tokens.len() as u64).as_str());
            message.append(" tokens");
            return Err(message);
        }
        let rows: usize = if left < PREFILL_BATCH {
            left
        } else {
            PREFILL_BATCH
        };
        let plan = self.prefill(rows);
        let chunk = vstd::slice::slice_subrange(tokens, base, base + rows);
        let input = u32_bytes(chunk);
        self.position = self.position + rows;
        Ok(Some(Pass { buffer: BufferId::PrefillScratch, input, plan, rows }))
    }
}

/// The tokens that passes of a prompt take: the first one, and then those of the rest.
pub open spec fn chunks(tokens: Seq<u32>, base: int) -> Seq<Seq<u32>>
    decreases tokens.len() - base,
{
    if base < 0 || base >= tokens.len() {
        Seq::empty()
    } else {
        let end = base + chunk_len(tokens.len() as int, base);
        seq![tokens.subrange(base, end)] + chunks(tokens, end)
    }
}

/// Some sequences, one after the other.
pub open spec fn joined(parts: Seq<Seq<u32>>) -> Seq<u32>
    decreases parts.len(),
{
    if parts.len() == 0 {
        Seq::empty()
    } else {
        parts[0] + joined(parts.skip(1))
    }
}

/// The passes of a prompt take all of its tokens, each once and in order, and none takes
/// more than a pass can.
pub proof fn passes_take_the_prompt(tokens: Seq<u32>, base: int)
    requires
        0 <= base <= tokens.len(),
    ensures
        joined(chunks(tokens, base)) == tokens.skip(base),
        forall|i: int|
            0 <= i < chunks(tokens, base).len() ==> 0 < (#[trigger] chunks(tokens, base)[i]).len()
                <= PREFILL_BATCH,
    decreases tokens.len() - base,
{
    if base < tokens.len() {
        let end = base + chunk_len(tokens.len() as int, base);
        passes_take_the_prompt(tokens, end);
        let all = chunks(tokens, base);
        assert(all.skip(1) =~= chunks(tokens, end));
        assert(tokens.subrange(base, end) + tokens.skip(end) =~= tokens.skip(base));
        assert forall|i: int| 0 <= i < all.len() implies 0 < (#[trigger] all[i]).len()
            <= PREFILL_BATCH by {
            if i > 0 {
                assert(all[i] == chunks(tokens, end)[i - 1]);
            }
        }
    } else {
        assert(tokens.skip(base) =~= Seq::empty());
    }
}

/// A prompt that can be run can be run to its end: when the first pass is through, the rest
/// is refused for nothing.
pub proof fn prefill_goes_through(r: RunnerView, tokens: Seq<u32>, base: int)
    requires
        r.well_formed(),
        0 <= base < tokens.len(),
        prefill_error(r, tokens, base) is None,
    ensures
        ({
            let rows = chunk_len(tokens.len() as int, base);
            prefill_error(
                RunnerView { position: r.position + rows, ..r },
                tokens,
                base + rows,
            ) is None
        }),
{
}

} // verus!
