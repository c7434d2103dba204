//! The target model: what the GPU runs for a token, for three tokens that are verified
//! together, and for the tokens of a prompt; and where in its context the model stands.
//!
//! A forward pass is a list of kernel runs. Whoever executes it writes the tokens into the
//! scratch memory first, and reads the results from there.

use vstd::prelude::*;
use vstd::string::*;

use crate::model::branch;
use crate::model::branch::{
    encode_attention, encode_gdn, encode_mlp, AttentionCache, AttentionPlaces, MlpPlaces,
};
use crate::model::command;
use crate::model::command::{u32_bytes, BufferId, Dispatch, DispatchView, Owner};
use crate::model::dispatch;
use crate::model::dispatch::{
    push_argmax, push_clear, push_copy, push_embed, push_norm, push_qmv, push_residual, Q4Linear,
    TensorRef,
};
use crate::model::layers;
use crate::model::layers::{bf16, build_layers, q4, BranchWeights, LayerWeights};
use crate::model::layout;
use crate::model::layout::{ScratchLayout, ARGMAX_PARTIALS};
use crate::model::readback;
use crate::model::readback::{places_of, RowPlaces};
use crate::model::weights::{SlotTable, WeightIndex};
use crate::model::{
    ATTN_HEAD_DIM, ATTN_KV_HEADS, ATTN_LAYERS, GDN_CONV_DIM, GDN_LAYERS,
    GDN_STATE_ELEMENTS, HIDDEN, LAYERS, PREFILL_BATCH, VOCAB,
};
use crate::text;
use crate::text::{decimal_of, join, join3};

pub mod laws;
pub mod prefill;
pub mod profile;

verus! {

/// What one position takes in the caches of all attention layers.
pub const CACHE_ROW_BYTES: usize = ATTN_LAYERS * ATTN_KV_HEADS * ATTN_HEAD_DIM * 2;

/// What the states of all recurrent layers take, and the histories of their convolutions.
#[verifier::nonlinear]
pub const GDN_BYTES: usize = GDN_LAYERS * GDN_STATE_ELEMENTS * 4;

#[verifier::nonlinear]
pub const CONV_STATE_BYTES: usize = GDN_LAYERS * 3 * GDN_CONV_DIM * 2;

/// Which parts of a pass are run: all of them, but when their costs are measured.
#[derive(Debug, Clone, Copy, PartialEq, Eq, Structural)]
pub struct Stages {
    pub gdn: bool,
    pub attention: bool,
    pub mlp: bool,
    pub lm_head: bool,
}

/// Flags for the parts that a measurement leaves out.
pub const ABLATE_GDN: u32 = 1;

pub const ABLATE_ATTENTION: u32 = 2;

pub const ABLATE_MLP: u32 = 4;

pub const ABLATE_LM_HEAD: u32 = 8;

pub const ABLATE_READBACK: u32 = 16;

/// Every part.
pub open spec fn every_stage() -> Stages {
    Stages { gdn: true, attention: true, mlp: true, lm_head: true }
}

/// The parts that a mask leaves in.
pub open spec fn stages_of(mask: u32) -> Stages {
    Stages {
        gdn: mask & ABLATE_GDN == 0,
        attention: mask & ABLATE_ATTENTION == 0,
        mlp: mask & ABLATE_MLP == 0,
        lm_head: mask & ABLATE_LM_HEAD == 0,
    }
}

/// A forward pass: the bytes that go to the front of a buffer, and what is run then.
#[derive(Debug)]
pub struct Pass {
    pub buffer: BufferId,
    pub input: Vec<u8>,
    pub plan: Vec<Dispatch>,
    pub rows: usize,
}

/// What is kept of the target in a saved state, besides the copies of its recurrent state:
/// the attention caches stay as they are, and what lies behind the position is overwritten
/// in time.
#[derive(Debug, Clone, Copy, PartialEq, Eq, Structural)]
pub struct QwenStateCheckpoint {
    position: usize,
}

impl QwenStateCheckpoint {
    /// The position at which the state was saved.
    pub closed spec fn at(self) -> int {
        self.position as int
    }

    /// The position at which the state was saved.
    pub fn position(&self) -> (position: usize)
        ensures
            position == self.at(),
    {
        self.position
    }
}

/// The target model.
#[derive(Debug)]
pub struct QwenRunner {
    layers: Vec<LayerWeights>,
    embed: Q4Linear,
    final_norm: TensorRef,
    head: Q4Linear,
    scratch_layout: ScratchLayout,
    prefill_layout: ScratchLayout,
    capacity: usize,
    position: usize,
    verify_base_position: Option<usize>,
}

/// The target model as a value.
pub struct RunnerView {
    pub layers: Seq<LayerWeights>,
    pub embed: Q4Linear,
    pub final_norm: TensorRef,
    pub head: Q4Linear,
    /// The scratch memory of decoding, which is laid out for three rows.
    pub scratch: ScratchLayout,
    /// The scratch memory of prefilling.
    pub prefill: ScratchLayout,
    pub capacity: int,
    /// How many tokens the model has been fed.
    pub position: int,
    /// The position before the batch that is being verified.
    pub verify_base: Option<int>,
}

impl View for QwenRunner {
    type V = RunnerView;

    closed spec fn view(&self) -> RunnerView {
        RunnerView {
            layers: self.layers@,
            embed: self.embed,
            final_norm: self.final_norm,
            head: self.head,
            scratch: self.scratch_layout,
            prefill: self.prefill_layout,
            capacity: self.capacity as int,
            position: self.position as int,
            verify_base: match self.verify_base_position {
                Some(base) => Some(base as int),
                None => None,
            },
        }
    }
}

/// The state of a layer has its place among those of all layers.
pub open spec fn has_its_place(layer: LayerWeights) -> bool {
    match layer.branch {
        BranchWeights::Gdn(weights) => weights.state_index < GDN_LAYERS,
        BranchWeights::Attention(weights) => weights.cache_index < ATTN_LAYERS,
    }
}

impl RunnerView {
    /// What holds of every target model.
    pub open spec fn well_formed(self) -> bool {
        &&& self.scratch.is_for(3)
        &&& self.prefill.is_for(PREFILL_BATCH as int)
        &&& 0 < self.capacity <= u32::MAX
        &&& self.capacity * CACHE_ROW_BYTES <= usize::MAX
        &&& 0 <= self.position <= self.capacity
        &&& self.verify_base matches Some(base) ==> 0 <= base && base + 3 <= self.capacity
        &&& forall|i: int| 0 <= i < self.layers.len() ==> has_its_place(#[trigger] self.layers[i])
    }

    /// Where the part of an attention layer starts in a cache.
    pub open spec fn cache_offset(self, cache_index: int) -> int {
        cache_index * branch::layer_cache_bytes(self.capacity)
    }

    /// Where an attention branch stands.
    pub open spec fn cache(self, cache_index: int) -> AttentionCache {
        AttentionCache {
            position: self.position as usize,
            capacity: self.capacity as usize,
            offset: self.cache_offset(cache_index) as usize,
        }
    }
}

/// Where the tensors of the feed-forward part lie.
pub open spec fn mlp_places(s: ScratchLayout) -> MlpPlaces {
    MlpPlaces {
        input: s.post_norm,
        gate: s.mlp_gate,
        up: s.mlp_up,
        active: s.mlp_active,
        output: s.branch_output,
    }
}

// ---------------------------------------------------------------------------
// What a pass is
// ---------------------------------------------------------------------------

/// A layer, when decoding one row, or three: its input is normed and goes through the
/// branch, whose output is added to it; the sum is normed and goes through the
/// feed-forward part, whose output is added again.
pub open spec fn decode_layer(
    r: RunnerView,
    layer: LayerWeights,
    rows: int,
    capture: bool,
    stages: Stages,
) -> Seq<DispatchView> {
    let s = r.scratch;
    let scratch = BufferId::Scratch;
    let target = Owner::Target;
    let branch = match layer.branch {
        BranchWeights::Gdn(weights) => if stages.gdn {
            branch::gdn(s, weights, rows, capture)
        } else {
            Seq::empty()
        },
        BranchWeights::Attention(weights) => if stages.attention {
            branch::attention(
                target,
                branch::target_places(s),
                s.normalized,
                s.branch_output,
                weights,
                r.cache(weights.cache_index as int),
                rows,
            )
        } else {
            Seq::empty()
        },
    };
    let mlp = if stages.mlp {
        branch::mlp(target, mlp_places(s), layer.common.mlp, rows)
    } else {
        Seq::empty()
    };
    seq![
        dispatch::norm(
            scratch,
            target,
            s.hidden as int,
            layer.common.input_norm,
            s.normalized as int,
            rows,
        ),
    ] + branch + seq![
        dispatch::residual(
            scratch,
            s.hidden as int,
            s.branch_output as int,
            s.residual as int,
            rows,
        ),
        dispatch::norm(
            scratch,
            target,
            s.residual as int,
            layer.common.post_norm,
            s.post_norm as int,
            rows,
        ),
    ] + mlp + seq![
        dispatch::residual(
            scratch,
            s.residual as int,
            s.branch_output as int,
            s.hidden as int,
            rows,
        ),
    ]
}

/// The first `n` layers, when decoding.
pub open spec fn decode_layers(
    r: RunnerView,
    n: int,
    rows: int,
    capture: bool,
    stages: Stages,
) -> Seq<DispatchView>
    decreases n,
{
    if n <= 0 {
        Seq::empty()
    } else {
        decode_layers(r, n - 1, rows, capture, stages) + decode_layer(
            r,
            r.layers[n - 1],
            rows,
            capture,
            stages,
        )
    }
}

/// The search for the largest logit of each of the first `rows` rows.
pub open spec fn argmax_rows(scratch: BufferId, s: ScratchLayout, rows: int) -> Seq<DispatchView> {
    Seq::new(
        rows as nat,
        |row: int|
            dispatch::argmax(
                scratch,
                s.logits + row * (VOCAB * 4),
                s.argmax_partial + row * (ARGMAX_PARTIALS * 2 * 4),
            ),
    )
}

/// The final norm and the language head.
pub open spec fn decode_head(r: RunnerView, rows: int, stages: Stages) -> Seq<DispatchView> {
    let s = r.scratch;
    seq![
        dispatch::norm(
            BufferId::Scratch,
            Owner::Target,
            s.hidden as int,
            r.final_norm,
            s.normalized as int,
            rows,
        ),
    ] + (if stages.lm_head {
        seq![
            dispatch::qmv(
                BufferId::Scratch,
                Owner::Target,
                s.normalized as int,
                r.head,
                s.logits as int,
                rows,
            ),
        ]
    } else {
        Seq::empty()
    })
}

/// The embedding of the tokens, when decoding.
pub open spec fn decode_embed(r: RunnerView, rows: int) -> DispatchView {
    dispatch::embed(
        BufferId::Scratch,
        r.scratch.token as int,
        r.embed,
        r.scratch.hidden as int,
        rows,
    )
}

/// A pass over one row, or three.
pub open spec fn decode_plan(
    r: RunnerView,
    rows: int,
    capture: bool,
    stages: Stages,
    argmax: bool,
) -> Seq<DispatchView> {
    seq![decode_embed(r, rows)] + decode_layers(r, r.layers.len() as int, rows, capture, stages)
        + decode_head(r, rows, stages) + (if argmax {
        argmax_rows(BufferId::Scratch, r.scratch, rows)
    } else {
        Seq::empty()
    })
}

/// `pass` feeds `tokens` to the target, one row for each.
pub open spec fn is_decode_pass(
    pass: Pass,
    r: RunnerView,
    tokens: Seq<u32>,
    capture: bool,
    stages: Stages,
    argmax: bool,
) -> bool {
    &&& pass.buffer == BufferId::Scratch
    &&& pass.input@ == command::words_bytes(tokens)
    &&& pass.rows == tokens.len()
    &&& command::plan_view(pass.plan@) == decode_plan(
        r,
        tokens.len() as int,
        capture,
        stages,
        argmax,
    )
}

// ---------------------------------------------------------------------------
// Making passes
// ---------------------------------------------------------------------------

/// What the sizes come to.
pub proof fn state_sizes()
    ensures
        CACHE_ROW_BYTES == 32_768,
        GDN_BYTES == 150_994_944,
        CONV_STATE_BYTES == 2_949_120,
{
    assert(CACHE_ROW_BYTES == 32_768 && GDN_BYTES == 150_994_944 && CONV_STATE_BYTES == 2_949_120)
        by (nonlinear_arith);
}

/// What a layer takes of a cache, in bytes.
proof fn cache_arithmetic(capacity: int, cache_index: int)
    requires
        0 <= capacity,
        0 <= cache_index < ATTN_LAYERS,
        capacity * CACHE_ROW_BYTES <= usize::MAX,
    ensures
        branch::layer_cache_bytes(capacity) == 2048 * capacity,
        2048 * capacity <= usize::MAX,
        0 <= cache_index * (2048 * capacity) <= usize::MAX,
{
    state_sizes();
    assert(branch::layer_cache_bytes(capacity) == 2048 * capacity) by (nonlinear_arith);
    assert(0 <= cache_index * (2048 * capacity) <= 16 * (2048 * capacity)) by (nonlinear_arith)
        requires
            0 <= capacity,
            0 <= cache_index < 16,
    ;
}

impl QwenRunner {
    #[verifier::type_invariant]
    closed spec fn well_formed(&self) -> bool {
        self@.well_formed()
    }

    /// Where an attention branch stands.
    fn cache(&self, cache_index: usize) -> (cache: AttentionCache)
        requires
            cache_index < ATTN_LAYERS,
        ensures
            cache == self@.cache(cache_index as int),
    {
        proof {
            use_type_invariant(self);
            cache_arithmetic(self.capacity as int, cache_index as int);
        }
        let layer_bytes: usize = 2048 * self.capacity;
        AttentionCache {
            position: self.position,
            capacity: self.capacity,
            offset: cache_index * layer_bytes,
        }
    }

    /// The place of the attention tensors.
    fn attention_places(s: &ScratchLayout) -> (places: AttentionPlaces)
        ensures
            places == branch::target_places(*s),
    {
        AttentionPlaces {
            projection: s.projection,
            key: s.aux0,
            value: s.aux1,
            query: s.query,
            gate: s.attention_gate,
            output: s.attention_output,
            gated: s.gated,
        }
    }

    /// The place of the feed-forward tensors.
    fn mlp_places(s: &ScratchLayout) -> (places: MlpPlaces)
        ensures
            places == mlp_places(*s),
    {
        MlpPlaces {
            input: s.post_norm,
            gate: s.mlp_gate,
            up: s.mlp_up,
            active: s.mlp_active,
            output: s.branch_output,
        }
    }

    /// Appends a layer, when decoding.
    fn push_decode_layer(
        &self,
        plan: &mut Vec<Dispatch>,
        index: usize,
        rows: usize,
        capture: bool,
        stages: Stages,
    )
        requires
            index < self@.layers.len(),
            rows <= 3,
            self@.position < u32::MAX,
        ensures
            command::plan_view(final(plan)@) == command::plan_view(old(plan)@) + decode_layer(
                self@,
                self@.layers[index as int],
                rows as int,
                capture,
                stages,
            ),
    {
        proof {
            use_type_invariant(self);
        }
        let s = self.scratch_layout;
        let layer = self.layers[index];
        assert(has_its_place(self@.layers[index as int]));
        let scratch = BufferId::Scratch;
        let target = Owner::Target;
        push_norm(plan, scratch, target, s.hidden, layer.common.input_norm, s.normalized, rows);
        match layer.branch {
            BranchWeights::Gdn(weights) => {
                if stages.gdn {
                    encode_gdn(plan, &s, &weights, rows, capture);
                }
            },
            BranchWeights::Attention(weights) => {
                if stages.attention {
                    let places = Self::attention_places(&s);
                    let cache = self.cache(weights.cache_index);
                    encode_attention(
                        plan,
                        target,
                        &places,
                        s.normalized,
                        s.branch_output,
                        &weights,
                        &cache,
                        rows,
                    );
                }
            },
        }
        push_residual(plan, scratch, s.hidden, s.branch_output, s.residual, rows);
        push_norm(plan, scratch, target, s.residual, layer.common.post_norm, s.post_norm, rows);
        if stages.mlp {
            encode_mlp(plan, target, &Self::mlp_places(&s), &layer.common.mlp, rows);
        }
        push_residual(plan, scratch, s.residual, s.branch_output, s.hidden, rows);
        assert(command::plan_view(plan@) =~= command::plan_view(old(plan)@) + decode_layer(
            self@,
            self@.layers[index as int],
            rows as int,
            capture,
            stages,
        ));
    }

    /// Appends the search for the largest logit of each row.
    fn push_argmax_rows(
        plan: &mut Vec<Dispatch>,
        scratch: BufferId,
        s: &ScratchLayout,
        batch: Ghost<int>,
        rows: usize,
    )
        requires
            s.is_for(batch@),
            rows <= batch@ <= PREFILL_BATCH,
        ensures
            command::plan_view(final(plan)@) == command::plan_view(old(plan)@) + argmax_rows(
                scratch,
                *s,
                rows as int,
            ),
    {
        proof {
            layout::scratch_bounds(*s, batch@);
        }
        let mut row: usize = 0;
        assert(command::plan_view(plan@) =~= command::plan_view(old(plan)@) + argmax_rows(
            scratch,
            *s,
            0,
        ));
        while row < rows
            invariant
                row <= rows <= batch@ <= PREFILL_BATCH,
                s.logits + batch@ * (VOCAB * 4) <= s.argmax_partial,
                s.argmax_partial + batch@ * (ARGMAX_PARTIALS * 2 * 4) == s.len,
                command::plan_view(plan@) == command::plan_view(old(plan)@) + argmax_rows(
                    scratch,
                    *s,
                    row as int,
                ),
            decreases rows - row,
        {
            proof {
                readback::row_fits(row as int, batch@, VOCAB * 4);
                readback::row_fits(row as int, batch@, ARGMAX_PARTIALS * 2 * 4);
            }
            let input: usize = s.logits + row * (VOCAB * 4);
            let base: usize = s.argmax_partial + row * (ARGMAX_PARTIALS * 2 * 4);
            push_argmax(plan, scratch, input, base);
            row += 1;
            assert(command::plan_view(plan@) =~= command::plan_view(old(plan)@) + argmax_rows(
                scratch,
                *s,
                row as int,
            ));
        }
    }

    /// A pass over one row, or three.
    fn decode(&self, rows: usize, capture: bool, stages: Stages, argmax: bool) -> (plan: Vec<
        Dispatch,
    >)
        requires
            rows <= 3,
            self@.position < u32::MAX,
        ensures
            command::plan_view(plan@) == decode_plan(
                self@,
                rows as int,
                capture,
                stages,
                argmax,
            ),
    {
        proof {
            use_type_invariant(self);
        }
        let s = self.scratch_layout;
        let mut plan: Vec<Dispatch> = Vec::new();
        push_embed(&mut plan, BufferId::Scratch, s.token, &self.embed, s.hidden, rows);
        let ghost head = seq![decode_embed(self@, rows as int)];
        let mut i: usize = 0;
        assert(command::plan_view(plan@) =~= head + decode_layers(
            self@,
            0,
            rows as int,
            capture,
            stages,
        ));
        while i < self.layers.len()
            invariant
                i <= self.layers@.len(),
                self.layers@ == self@.layers,
                rows <= 3,
                self@.position < u32::MAX,
                command::plan_view(plan@) == head + decode_layers(
                    self@,
                    i as int,
                    rows as int,
                    capture,
                    stages,
                ),
            decreases self.layers@.len() - i,
        {
            self.push_decode_layer(&mut plan, i, rows, capture, stages);
            i += 1;
            assert(command::plan_view(plan@) =~= head + decode_layers(
                self@,
                i as int,
                rows as int,
                capture,
                stages,
            ));
        }
        push_norm(
            &mut plan,
            BufferId::Scratch,
            Owner::Target,
            s.hidden,
            self.final_norm,
            s.normalized,
            rows,
        );
        if stages.lm_head {
            push_qmv(
                &mut plan,
                BufferId::Scratch,
                Owner::Target,
                s.normalized,
                &self.head,
                s.logits,
                rows,
            );
        }
        if argmax {
            Self::push_argmax_rows(&mut plan, BufferId::Scratch, &s, Ghost(3), rows);
        }
        assert(command::plan_view(plan@) =~= decode_plan(
            self@,
            rows as int,
            capture,
            stages,
            argmax,
        ));
        plan
    }
}

/// What is said of a token that there is not.
pub open spec fn outside_vocabulary(token: u32) -> Seq<char> {
    "token "@ + text::decimal(token as nat) + " is outside vocabulary"@
}

/// What is said of a full cache.
pub open spec fn exhausted(capacity: int) -> Seq<char> {
    "KV capacity "@ + text::decimal(capacity as nat) + " exhausted"@
}

/// Why a token cannot be fed to the target; `None` where it can.
pub open spec fn token_error(r: RunnerView, token: u32) -> Option<Seq<char>> {
    if token >= VOCAB {
        Some(outside_vocabulary(token))
    } else if r.position >= r.capacity {
        Some(exhausted(r.capacity))
    } else {
        None
    }
}

/// Why three tokens cannot be verified; `None` where they can.
pub open spec fn block_error(r: RunnerView, tokens: Seq<u32>) -> Option<Seq<char>> {
    if tokens[0] >= VOCAB || tokens[1] >= VOCAB || tokens[2] >= VOCAB {
        Some("verify token is outside vocabulary"@)
    } else if r.position + 3 > r.capacity {
        Some(exhausted(r.capacity))
    } else {
        None
    }
}

/// What is said of a full cache.
pub fn exhausted_message(capacity: usize) -> (message: String)
    ensures
        message@ == exhausted(capacity as int),
{
    join3("KV capacity ", decimal_of(capacity as u64).as_str(), " exhausted")
}

/// Every part.
fn all_stages() -> (stages: Stages)
    ensures
        stages == every_stage(),
{
    Stages { gdn: true, attention: true, mlp: true, lm_head: true }
}

impl QwenRunner {
    /// How many tokens the model has been fed.
    pub fn position(&self) -> (position: usize)
        ensures
            position == self@.position,
    {
        self.position
    }

    /// How many tokens the model can be fed.
    pub fn capacity(&self) -> (capacity: usize)
        ensures
            capacity == self@.capacity,
    {
        self.capacity
    }

    /// Why a token cannot be fed, if so.
    fn check_token(&self, token: u32) -> (checked: Result<(), String>)
        ensures
            match checked {
                Ok(_) => token_error(self@, token) is None,
                Err(message) => token_error(self@, token) == Some(message@),
            },
    {
        if token as usize >= VOCAB {
            return Err(
                join3("token ", decimal_of(token as u64).as_str(), " is outside vocabulary"),
            );
        }
        if self.position >= self.capacity {
            return Err(exhausted_message(self.capacity));
        }
        Ok(())
    }

    /// Feeds one token.
    fn feed_token(&mut self, token: u32, stages: Stages, argmax: bool) -> (pass: Result<
        Pass,
        String,
    >)
        ensures
            match pass {
                Ok(pass) => {
                    &&& token_error(old(self)@, token) is None
                    &&& is_decode_pass(pass, old(self)@, seq![token], false, stages, argmax)
                    &&& final(self)@ == (RunnerView {
                        position: old(self)@.position + 1,
                        ..old(self)@
                    })
                },
                Err(message) => token_error(old(self)@, token) == Some(message@) && final(self)@
                    == old(self)@,
            },
    {
        proof {
            use_type_invariant(&*self);
        }
        match self.check_token(token) {
            Ok(_) => {},
            Err(message) => {
                return Err(message);
            },
        }
        let plan = self.decode(1, false, stages, argmax);
        let tokens: Vec<u32> = vec![token];
        assert(tokens@ =~= seq![token]);
        let input = u32_bytes(&tokens);
        self.position = self.position + 1;
        Ok(Pass { buffer: BufferId::Scratch, input, plan, rows: 1 })
    }

    /// Feeds a token; all logits are left to be read.
    pub fn forward_token_with_hidden(&mut self, token: u32) -> (pass: Result<Pass, String>)
        ensures
            match pass {
                Ok(pass) => {
                    &&& token_error(old(self)@, token) is None
                    &&& is_decode_pass(
                        pass,
                        old(self)@,
                        seq![token],
                        false,
                        every_stage(),
                        false,
                    )
                    &&& final(self)@ == (RunnerView {
                        position: old(self)@.position + 1,
                        ..old(self)@
                    })
                },
                Err(message) => token_error(old(self)@, token) == Some(message@) && final(self)@
                    == old(self)@,
            },
    {
        self.feed_token(token, all_stages(), false)
    }

    /// Feeds a token; the largest logit is searched for on the GPU, so that the logits need not be
    /// read.
    pub fn forward_token_decode(&mut self, token: u32) -> (pass: Result<Pass, String>)
        ensures
            match pass {
                Ok(pass) => {
                    &&& token_error(old(self)@, token) is None
                    &&& is_decode_pass(
                        pass,
                        old(self)@,
                        seq![token],
                        false,
                        every_stage(),
                        true,
                    )
                    &&& final(self)@ == (RunnerView {
                        position: old(self)@.position + 1,
                        ..old(self)@
                    })
                },
                Err(message) => token_error(old(self)@, token) == Some(message@) && final(self)@
                    == old(self)@,
            },
    {
        self.feed_token(token, all_stages(), true)
    }

    /// Feeds a token, without the parts that `mask` names: what they cost is found by comparison.
    /// What comes out is of no use then.
    pub fn forward_token_ablate(&mut self, token: u32, mask: u32) -> (pass: Result<Pass, String>)
        ensures
            match pass {
                Ok(pass) => {
                    &&& token_error(old(self)@, token) is None
                    &&& is_decode_pass(
                        pass,
                        old(self)@,
                        seq![token],
                        false,
                        stages_of(mask),
                        false,
                    )
                    &&& final(self)@ == (RunnerView {
                        position: old(self)@.position + 1,
                        ..old(self)@
                    })
                },
                Err(message) => token_error(old(self)@, token) == Some(message@) && final(self)@
                    == old(self)@,
            },
    {
        self.feed_token(token, Stages {
            gdn: mask & ABLATE_GDN == 0,
            attention: mask & ABLATE_ATTENTION == 0,
            mlp: mask & ABLATE_MLP == 0,
            lm_head: mask & ABLATE_LM_HEAD == 0,
        }, false)
    }

    /// Feeds three tokens as one batch, which is then to be committed in part or whole.
    fn feed_block(&mut self, tokens: [u32; 3], argmax: bool) -> (pass: Result<Pass, String>)
        ensures
            match pass {
                Ok(pass) => {
                    &&& block_error(old(self)@, tokens@) is None
                    &&& is_decode_pass(pass, old(self)@, tokens@, true, every_stage(), argmax)
                    &&& final(self)@ == (RunnerView {
                        position: old(self)@.position + 3,
                        verify_base: Some(old(self)@.position),
                        ..old(self)@
                    })
                },
                Err(message) => block_error(old(self)@, tokens@) == Some(message@) && final(self)@
                    == old(self)@,
            },
    {
        proof {
            use_type_invariant(&*self);
        }
        if tokens[0] as usize >= VOCAB || tokens[1] as usize >= VOCAB || tokens[2] as usize
            >= VOCAB {
            return Err("verify token is outside vocabulary".to_owned());
        }
        if self.capacity - self.position < 3 {
            return Err(exhausted_message(self.capacity));
        }
        let base: usize = self.position;
        let plan = self.decode(3, true, all_stages(), argmax);
        let input = u32_bytes(&tokens);
        self.position = base + 3;
        self.verify_base_position = Some(base);
        Ok(Pass { buffer: BufferId::Scratch, input, plan, rows: 3 })
    }

    /// Verifies three consecutive tokens in one pass. [`Self::commit_verified_prefix`] is to
    /// be called with how many of them stay.
    pub fn verify_block3(&mut self, tokens: [u32; 3]) -> (pass: Result<Pass, String>)
        ensures
            match pass {
                Ok(pass) => {
                    &&& block_error(old(self)@, tokens@) is None
                    &&& is_decode_pass(pass, old(self)@, tokens@, true, every_stage(), false)
                    &&& final(self)@ == (RunnerView {
                        position: old(self)@.position + 3,
                        verify_base: Some(old(self)@.position),
                        ..old(self)@
                    })
                },
                Err(message) => block_error(old(self)@, tokens@) == Some(message@) && final(self)@
                    == old(self)@,
            },
    {
        self.feed_block(tokens, false)
    }

    /// Verifies three consecutive tokens in one pass, with the search for the largest logit
    /// of each row on the GPU.
    pub fn verify_block3_decode(&mut self, tokens: [u32; 3]) -> (pass: Result<Pass, String>)
        ensures
            match pass {
                Ok(pass) => {
                    &&& block_error(old(self)@, tokens@) is None
                    &&& is_decode_pass(pass, old(self)@, tokens@, true, every_stage(), true)
                    &&& final(self)@ == (RunnerView {
                        position: old(self)@.position + 3,
                        verify_base: Some(old(self)@.position),
                        ..old(self)@
                    })
                },
                Err(message) => block_error(old(self)@, tokens@) == Some(message@) && final(self)@
                    == old(self)@,
            },
    {
        self.feed_block(tokens, true)
    }

    /// Commits the first `rows` tokens of the batch that was verified: the recurrent state
    /// goes back to what it was after them, unless they are all there were.
    pub fn commit_verified_prefix(&mut self, rows: usize) -> (plan: Result<Vec<Dispatch>, String>)
        ensures
            match (plan, old(self)@.verify_base) {
                (Err(message), None) => {
                    &&& message@ == "no pending block-3 verification"@
                    &&& final(self)@ == old(self)@
                },
                (Ok(plan), Some(base)) => {
                    &&& 1 <= rows <= 3
                    &&& command::plan_view(plan@) == commit_plan(rows as int)
                    &&& final(self)@ == (RunnerView {
                        position: base + rows,
                        verify_base: None,
                        ..old(self)@
                    })
                },
                (Err(message), Some(base)) => {
                    &&& !(1 <= rows <= 3)
                    &&& message@ == "verified prefix must contain 1 to 3 rows"@
                    &&& final(self)@ == (RunnerView { verify_base: None, ..old(self)@ })
                },
                (Ok(_), None) => false,
            },
    {
        proof {
            use_type_invariant(&*self);
        }
        let base: usize = match self.verify_base_position {
            Some(base) => base,
            None => {
                return Err("no pending block-3 verification".to_owned());
            },
        };
        self.verify_base_position = None;
        if rows < 1 || rows > 3 {
            return Err("verified prefix must contain 1 to 3 rows".to_owned());
        }
        proof {
            state_sizes();
        }
        let mut plan: Vec<Dispatch> = Vec::new();
        if rows < 3 {
            push_copy(
                &mut plan,
                BufferId::VerifyGdnSlots,
                (rows - 1) * GDN_BYTES,
                BufferId::GdnState,
                GDN_BYTES,
            );
            push_copy(
                &mut plan,
                BufferId::VerifyConvSlots,
                (rows - 1) * CONV_STATE_BYTES,
                BufferId::ConvState,
                CONV_STATE_BYTES,
            );
        }
        assert(command::plan_view(plan@) =~= commit_plan(rows as int));
        self.position = base + rows;
        Ok(plan)
    }
}

/// What is run to commit the first `rows` of a batch: the states after the last of them are
/// copied from where the batch left them.
pub open spec fn commit_plan(rows: int) -> Seq<DispatchView> {
    if rows < 3 {
        seq![
            dispatch::copy(
                BufferId::VerifyGdnSlots,
                (rows - 1) * GDN_BYTES,
                BufferId::GdnState,
                GDN_BYTES as int,
            ),
            dispatch::copy(
                BufferId::VerifyConvSlots,
                (rows - 1) * CONV_STATE_BYTES,
                BufferId::ConvState,
                CONV_STATE_BYTES as int,
            ),
        ]
    } else {
        Seq::empty()
    }
}

// ---------------------------------------------------------------------------
// Loading, resetting, saving
// ---------------------------------------------------------------------------

/// The tensors of the target model, in the order in which they are looked for.
pub open spec fn target_needs() -> Seq<layers::Need> {
    layers::layers_needs(LAYERS as int) + layers::q4_needs(
        "language_model.model.embed_tokens"@,
        HIDDEN as int,
        VOCAB as int,
    ) + layers::bf16_need("language_model.model.norm.weight"@, layers::vector(HIDDEN))
        + layers::q4_needs("language_model.lm_head"@, HIDDEN as int, VOCAB as int)
}

/// Why a cache cannot have this capacity, as far as the number itself goes.
pub open spec fn capacity_error(capacity: int) -> Option<Seq<char>> {
    if capacity == 0 {
        Some("KV capacity must be greater than zero"@)
    } else if capacity > u32::MAX {
        Some("KV capacity exceeds the kernel index range"@)
    } else {
        None
    }
}

/// Why a target model cannot be made of these tensors; `None` where it can.
pub open spec fn load_error(table: SlotTable, capacity: int) -> Option<Seq<char>> {
    match (capacity_error(capacity), layers::first_fault(table, target_needs())) {
        (Some(message), _) => Some(message),
        (None, Some(message)) => Some(message),
        (None, None) => if capacity * CACHE_ROW_BYTES > usize::MAX {
            Some("KV capacity overflow"@)
        } else {
            None
        },
    }
}

/// `r` is the target model of these tensors, fed nothing.
pub open spec fn is_loaded(r: RunnerView, table: SlotTable, capacity: int) -> bool {
    &&& r.layers == Seq::new(LAYERS as nat, |i: int| layers::layer_at(table, i))
    &&& r.embed == layers::q4_at(table, "language_model.model.embed_tokens"@, HIDDEN, VOCAB)
    &&& r.final_norm == layers::tensor_at(table, "language_model.model.norm.weight"@)
    &&& r.head == layers::q4_at(table, "language_model.lm_head"@, HIDDEN, VOCAB)
    &&& r.scratch.is_for(3)
    &&& r.prefill.is_for(PREFILL_BATCH as int)
    &&& r.capacity == capacity
    &&& r.position == 0
    &&& r.verify_base is None
}

/// Where the results of a row of the target lie: its hidden state is the one before the
/// final norm, which is what the drafter goes on from.
pub open spec fn target_row(s: ScratchLayout, row: int) -> RowPlaces {
    readback::row_places(s.hidden as int, s.logits as int, s.argmax_partial as int, row)
}

/// What is run to put the target into the state before any token.
pub open spec fn reset_plan(capacity: int) -> Seq<DispatchView> {
    seq![
        dispatch::clear(BufferId::GdnState, GDN_BYTES as int),
        dispatch::clear(BufferId::ConvState, CONV_STATE_BYTES as int),
        dispatch::clear(BufferId::KeyCache, capacity * CACHE_ROW_BYTES),
        dispatch::clear(BufferId::ValueCache, capacity * CACHE_ROW_BYTES),
    ]
}

/// What is run to save the recurrent state.
pub open spec fn checkpoint_plan() -> Seq<DispatchView> {
    seq![
        dispatch::copy(BufferId::GdnState, 0, BufferId::SavedGdnState, GDN_BYTES as int),
        dispatch::copy(BufferId::ConvState, 0, BufferId::SavedConvState, CONV_STATE_BYTES as int),
    ]
}

/// What is run to restore the recurrent state.
pub open spec fn restore_plan() -> Seq<DispatchView> {
    seq![
        dispatch::copy(BufferId::SavedGdnState, 0, BufferId::GdnState, GDN_BYTES as int),
        dispatch::copy(BufferId::SavedConvState, 0, BufferId::ConvState, CONV_STATE_BYTES as int),
    ]
}

/// What is said of a saved state that does not fit.
pub open spec fn misfit(position: int, capacity: int) -> Seq<char> {
    "checkpoint position "@ + text::decimal(position as nat) + " exceeds KV capacity "@
        + text::decimal(capacity as nat)
}

/// Whether a cache can have this capacity, as far as the number itself goes.
pub fn check_capacity(capacity: usize) -> (checked: Result<(), String>)
    ensures
        match checked {
            Ok(_) => capacity_error(capacity as int) is None,
            Err(message) => capacity_error(capacity as int) == Some(message@),
        },
{
    if capacity == 0 {
        return Err("KV capacity must be greater than zero".to_owned());
    }
    if capacity as u64 > u32::MAX as u64 {
        return Err("KV capacity exceeds the kernel index range".to_owned());
    }
    Ok(())
}

impl QwenRunner {
    /// The target model of the tensors in an index, with caches for `capacity` tokens. What
    /// [`Self::reset_state`] gives is to be run before the first pass. Every tensor of the
    /// index lies in the data of its shard and takes the bytes that its shape says: what
    /// breaks this makes up no index.
    pub fn load(index: &WeightIndex, capacity: usize) -> (loaded: Result<Self, String>)
        ensures
            match loaded {
                Ok(runner) => {
                    &&& load_error(index.table(), capacity as int) is None
                    &&& is_loaded(runner@, index.table(), capacity as int)
                    &&& index.is_laid_out()
                },
                Err(message) => load_error(index.table(), capacity as int) == Some(message@),
            },
    {
        match check_capacity(capacity) {
            Ok(_) => {},
            Err(message) => {
                return Err(message);
            },
        }
        let ghost table = index.table();
        let ghost embed_needs = layers::q4_needs(
            "language_model.model.embed_tokens"@,
            HIDDEN as int,
            VOCAB as int,
        );
        let ghost norm_needs = layers::bf16_need(
            "language_model.model.norm.weight"@,
            layers::vector(HIDDEN),
        );
        let ghost head_needs = layers::q4_needs(
            "language_model.lm_head"@,
            HIDDEN as int,
            VOCAB as int,
        );
        proof {
            let first = layers::layers_needs(LAYERS as int);
            layers::first_fault_of_both(table, first, embed_needs);
            layers::first_fault_of_both(table, first + embed_needs, norm_needs);
            layers::first_fault_of_both(table, first + embed_needs + norm_needs, head_needs);
        }
        let layers = match build_layers(index) {
            Ok(layers) => layers,
            Err(message) => {
                return Err(message);
            },
        };
        let embed = match q4(index, "language_model.model.embed_tokens", HIDDEN, VOCAB) {
            Ok(embed) => embed,
            Err(message) => {
                return Err(message);
            },
        };
        let wide: Vec<u64> = vec![HIDDEN as u64];
        assert(wide@ =~= layers::vector(HIDDEN));
        let final_norm = match bf16(index, "language_model.model.norm.weight", &wide) {
            Ok(final_norm) => final_norm,
            Err(message) => {
                return Err(message);
            },
        };
        let head = match q4(index, "language_model.lm_head", HIDDEN, VOCAB) {
            Ok(head) => head,
            Err(message) => {
                return Err(message);
            },
        };
        proof {
            state_sizes();
        }
        if capacity > usize::MAX / CACHE_ROW_BYTES {
            return Err("KV capacity overflow".to_owned());
        }
        index.layout_was_checked();
        let scratch_layout = ScratchLayout::new(3);
        let prefill_layout = ScratchLayout::new(PREFILL_BATCH);
        assert forall|i: int| 0 <= i < layers@.len() implies has_its_place(
            #[trigger] layers@[i],
        ) by {
            assert(layers@[i] == layers::layer_at(table, i));
        }
        Ok(
            QwenRunner {
                layers,
                embed,
                final_norm,
                head,
                scratch_layout,
                prefill_layout,
                capacity,
                position: 0,
                verify_base_position: None,
            },
        )
    }

    /// The embedding and the language head, which the drafter shares.
    pub fn shared_weights(&self) -> (weights: (Q4Linear, Q4Linear))
        ensures
            weights == (self@.embed, self@.head),
    {
        (self.embed, self.head)
    }

    /// How many bytes the scratch memories of decoding and of prefilling take, and a cache
    /// of keys or of values.
    pub fn memory(&self) -> (bytes: (usize, usize, usize))
        ensures
            bytes.0 == self@.scratch.len,
            bytes.1 == self@.prefill.len,
            bytes.2 == self@.capacity * CACHE_ROW_BYTES,
    {
        proof {
            use_type_invariant(self);
        }
        (self.scratch_layout.len, self.prefill_layout.len, self.capacity * CACHE_ROW_BYTES)
    }

    /// Where the results of a row of a decoding pass lie.
    pub fn row_places(&self, row: usize) -> (places: RowPlaces)
        requires
            row < 3,
        ensures
            places == target_row(self@.scratch, row as int),
            readback::lies_within(places, self@.scratch.len as int),
    {
        proof {
            use_type_invariant(self);
            layout::scratch_bounds(self.scratch_layout, 3);
        }
        let s = self.scratch_layout;
        places_of(s.hidden, s.logits, s.argmax_partial, s.len, Ghost(3), row)
    }

    /// Where the results of a row of a prefilling pass lie.
    pub fn prefill_row_places(&self, row: usize) -> (places: RowPlaces)
        requires
            row < PREFILL_BATCH,
        ensures
            places == target_row(self@.prefill, row as int),
            readback::lies_within(places, self@.prefill.len as int),
    {
        proof {
            use_type_invariant(self);
            layout::scratch_bounds(self.prefill_layout, PREFILL_BATCH as int);
        }
        let s = self.prefill_layout;
        places_of(
            s.hidden,
            s.logits,
            s.argmax_partial,
            s.len,
            Ghost(PREFILL_BATCH as int),
            row,
        )
    }

    /// Puts the target into the state before any token.
    pub fn reset_state(&mut self) -> (plan: Vec<Dispatch>)
        ensures
            command::plan_view(plan@) == reset_plan(old(self)@.capacity),
            final(self)@ == (RunnerView { position: 0, verify_base: None, ..old(self)@ }),
    {
        proof {
            use_type_invariant(&*self);
        }
        let cache_len: usize = self.capacity * CACHE_ROW_BYTES;
        let mut plan: Vec<Dispatch> = Vec::new();
        push_clear(&mut plan, BufferId::GdnState, GDN_BYTES);
        push_clear(&mut plan, BufferId::ConvState, CONV_STATE_BYTES);
        push_clear(&mut plan, BufferId::KeyCache, cache_len);
        push_clear(&mut plan, BufferId::ValueCache, cache_len);
        assert(command::plan_view(plan@) =~= reset_plan(self@.capacity));
        self.position = 0;
        self.verify_base_position = None;
        plan
    }

    /// Saves the state of the target.
    pub fn checkpoint_state(&self) -> (saved: (QwenStateCheckpoint, Vec<Dispatch>))
        ensures
            saved.0.at() == self@.position,
            command::plan_view(saved.1@) == checkpoint_plan(),
    {
        let mut plan: Vec<Dispatch> = Vec::new();
        push_copy(&mut plan, BufferId::GdnState, 0, BufferId::SavedGdnState, GDN_BYTES);
        push_copy(&mut plan, BufferId::ConvState, 0, BufferId::SavedConvState, CONV_STATE_BYTES);
        assert(command::plan_view(plan@) =~= checkpoint_plan());
        (QwenStateCheckpoint { position: self.position }, plan)
    }

    /// Restores a saved state. What the attention caches hold behind the position stays, and
    /// is not seen.
    pub fn restore_state(&mut self, checkpoint: &QwenStateCheckpoint) -> (plan: Result<
        Vec<Dispatch>,
        String,
    >)
        ensures
            match plan {
                Ok(plan) => {
                    &&& checkpoint.at() <= old(self)@.capacity
                    &&& command::plan_view(plan@) == restore_plan()
                    &&& final(self)@ == (RunnerView {
                        position: checkpoint.at(),
                        verify_base: None,
                        ..old(self)@
                    })
                },
                Err(message) => {
                    &&& checkpoint.at() > old(self)@.capacity
                    &&& message@ == misfit(checkpoint.at(), old(self)@.capacity)
                    &&& final(self)@ == old(self)@
                },
            },
    {
        proof {
            use_type_invariant(&*self);
        }
        if checkpoint.position > self.capacity {
            let mut message = join(
                "checkpoint position ",
                decimal_of(checkpoint.position as u64).as_str(),
            );
            message.append(" exceeds KV capacity ");
            message.append(decimal_of(self.capacity as u64).as_str());
            return Err(message);
        }
        let mut plan: Vec<Dispatch> = Vec::new();
        push_copy(&mut plan, BufferId::SavedGdnState, 0, BufferId::GdnState, GDN_BYTES);
        push_copy(&mut plan, BufferId::SavedConvState, 0, BufferId::ConvState, CONV_STATE_BYTES);
        assert(command::plan_view(plan@) =~= restore_plan());
        self.position = checkpoint.position;
        self.verify_base_position = None;
        Ok(plan)
    }
}

} // verus!
