//! The drafter (MTP: multi-token prediction): one more layer, which is given a token and the
//! target's hidden state at the position before it, and guesses the next token. It has its
//! own weights, but shares the embedding and the language head of the target.

use vstd::prelude::*;
use vstd::string::*;

use crate::format::dtype::f32_to_bf16;
use crate::model::branch;
use crate::model::branch::{
    encode_attention, encode_mlp, encode_prefill_attention, encode_prefill_mlp, AttentionCache,
    AttentionPlaces, MlpPlaces,
};
use crate::model::command;
use crate::model::command::{u32_bytes, BufferId, Dispatch, DispatchView, Owner};
use crate::model::dispatch;
use crate::model::dispatch::{
    push_argmax, push_cast, push_clear, push_embed, push_gemm, push_norm, push_norm_half,
    push_qmv, push_residual, Q4Linear,
};
use crate::model::layers;
use crate::model::layers::{build_mtp_weights, MtpWeights};
use crate::model::layout;
use crate::model::layout::{MtpScratchLayout, ARGMAX_PARTIALS};
use crate::model::readback;
use crate::model::readback::{places_of, RowPlaces};
use crate::model::runner;
use crate::model::runner::prefill;
use crate::model::runner::QwenRunner;
use crate::model::weights::{SlotTable, WeightIndex};
use crate::model::{HIDDEN, PREFILL_BATCH, VOCAB};
use crate::text;
use crate::text::{decimal_of, join, join3};

verus! {

/// How many tensors the drafter has.
pub const MTP_TENSORS: usize = 31;

/// What one position takes in a cache of the drafter.
pub const MTP_CACHE_ROW_BYTES: usize = 2048;

/// A pass of the drafter: the bytes that go to the front of a buffer, those that go to a
/// place in it, and what is run then.
#[derive(Debug)]
pub struct MtpPass {
    pub buffer: BufferId,
    pub tokens: Vec<u8>,
    pub hidden: Vec<u8>,
    pub hidden_at: usize,
    pub plan: Vec<Dispatch>,
    pub rows: usize,
}

/// What is kept of the drafter in a saved state: its cache stays as it is, and what lies
/// behind the position is overwritten in time.
#[derive(Debug, Clone, Copy, PartialEq, Eq, Structural)]
pub struct MtpCheckpoint {
    position: usize,
}

impl MtpCheckpoint {
    /// The position at which the state was saved.
    pub closed spec fn at(self) -> int {
        self.position as int
    }
}

/// The drafter.
#[derive(Debug)]
pub struct MtpRunner {
    embed: Q4Linear,
    head: Q4Linear,
    weights: MtpWeights,
    scratch_layout: MtpScratchLayout,
    prefill_layout: MtpScratchLayout,
    capacity: usize,
    position: usize,
}

/// The drafter as a value.
pub struct MtpView {
    /// The embedding and the language head, which are the target's.
    pub embed: Q4Linear,
    pub head: Q4Linear,
    pub weights: MtpWeights,
    pub scratch: MtpScratchLayout,
    pub prefill: MtpScratchLayout,
    pub capacity: int,
    /// How many positions the drafter has been fed.
    pub position: int,
}

impl View for MtpRunner {
    type V = MtpView;

    closed spec fn view(&self) -> MtpView {
        MtpView {
            embed: self.embed,
            head: self.head,
            weights: self.weights,
            scratch: self.scratch_layout,
            prefill: self.prefill_layout,
            capacity: self.capacity as int,
            position: self.position as int,
        }
    }
}

impl MtpView {
    /// What holds of every drafter.
    pub open spec fn well_formed(self) -> bool {
        &&& self.scratch.is_for(1)
        &&& self.prefill.is_for(PREFILL_BATCH as int)
        &&& 0 < self.capacity <= u32::MAX
        &&& self.capacity * MTP_CACHE_ROW_BYTES <= usize::MAX
        &&& 0 <= self.position <= self.capacity
    }

    /// Where the attention branch stands.
    pub open spec fn cache(self) -> AttentionCache {
        AttentionCache {
            position: self.position as usize,
            capacity: self.capacity as usize,
            offset: 0,
        }
    }
}

/// Where the tensors of the attention branch lie.
pub open spec fn attention_places(s: MtpScratchLayout) -> AttentionPlaces {
    AttentionPlaces {
        projection: s.projection,
        key: s.key,
        value: s.value,
        query: s.query,
        gate: s.attention_gate,
        output: s.attention_output,
        gated: s.gated,
    }
}

/// Where the tensors of the feed-forward part lie.
pub open spec fn mlp_places(s: MtpScratchLayout) -> MlpPlaces {
    MlpPlaces {
        input: s.post_norm,
        gate: s.mlp_gate,
        up: s.mlp_up,
        active: s.mlp_active,
        output: s.branch_output,
    }
}

// ---------------------------------------------------------------------------
// What a pass is
// ---------------------------------------------------------------------------

/// What a pass does behind its attention branch, up to the norm before the language head.
pub open spec fn behind_attention(
    scratch: BufferId,
    s: MtpScratchLayout,
    weights: MtpWeights,
    mlp: Seq<DispatchView>,
    rows: int,
) -> Seq<DispatchView> {
    seq![
        dispatch::residual(
            scratch,
            s.hidden as int,
            s.branch_output as int,
            s.residual as int,
            rows,
        ),
        dispatch::norm(
            scratch,
            Owner::Mtp,
            s.residual as int,
            weights.post_norm,
            s.post_norm as int,
            rows,
        ),
    ] + mlp + seq![
        dispatch::residual(
            scratch,
            s.residual as int,
            s.branch_output as int,
            s.hidden as int,
            rows,
        ),
        dispatch::norm(
            scratch,
            Owner::Mtp,
            s.hidden as int,
            weights.final_norm,
            s.normalized as int,
            rows,
        ),
    ]
}

/// A pass over one position. The two norms before the first linear map leave their results
/// side by side, as its input.
pub open spec fn draft_plan(r: MtpView, argmax: bool) -> Seq<DispatchView> {
    let s = r.scratch;
    let w = r.weights;
    let scratch = BufferId::Scratch;
    let mtp = Owner::Mtp;
    seq![
        dispatch::embed(scratch, s.token as int, r.embed, s.token_embed as int, 1),
        dispatch::norm(
            scratch,
            mtp,
            s.token_embed as int,
            w.pre_fc_norm_embedding,
            s.pre_fc as int,
            1,
        ),
        dispatch::norm(
            scratch,
            mtp,
            s.target_hidden as int,
            w.pre_fc_norm_hidden,
            s.pre_fc_hidden as int,
            1,
        ),
        dispatch::qmv(scratch, mtp, s.pre_fc as int, w.fc, s.fc_output as int, 1),
        dispatch::cast(scratch, s.fc_output as int, s.hidden as int, HIDDEN as int),
        dispatch::norm(scratch, mtp, s.hidden as int, w.input_norm, s.normalized as int, 1),
    ] + branch::attention(
        mtp,
        attention_places(s),
        s.normalized,
        s.branch_output,
        w.attention,
        r.cache(),
        1,
    ) + behind_attention(scratch, s, w, branch::mlp(mtp, mlp_places(s), w.mlp, 1), 1) + seq![
        dispatch::qmv(scratch, Owner::Target, s.normalized as int, r.head, s.logits as int, 1),
    ] + (if argmax {
        seq![dispatch::argmax(scratch, s.logits as int, s.argmax_partial as int)]
    } else {
        Seq::empty()
    })
}

/// The search for the largest logit of each of the first `rows` rows.
pub open spec fn argmax_rows(s: MtpScratchLayout, rows: int) -> Seq<DispatchView> {
    Seq::new(
        rows as nat,
        |row: int|
            dispatch::argmax(
                BufferId::PrefillScratch,
                s.logits + row * (VOCAB * 4),
                s.argmax_partial + row * (ARGMAX_PARTIALS * 2 * 4),
            ),
    )
}

/// A pass over `rows` positions. The two norms before the first linear map each leave their
/// results in one half of the rows of its input.
pub open spec fn prefill_plan(r: MtpView, rows: int) -> Seq<DispatchView> {
    let s = r.prefill;
    let w = r.weights;
    let scratch = BufferId::PrefillScratch;
    let mtp = Owner::Mtp;
    seq![
        dispatch::embed(scratch, s.token as int, r.embed, s.token_embed as int, rows),
        dispatch::norm_half(
            scratch,
            mtp,
            s.token_embed as int,
            w.pre_fc_norm_embedding,
            s.fc_input as int,
            0,
            rows,
        ),
        dispatch::norm_half(
            scratch,
            mtp,
            s.target_hidden as int,
            w.pre_fc_norm_hidden,
            s.fc_input as int,
            HIDDEN as int,
            rows,
        ),
        dispatch::gemm(scratch, mtp, rows, s.fc_input as int, w.fc, s.fc_output as int),
        dispatch::cast(scratch, s.fc_output as int, s.hidden as int, rows * HIDDEN),
        dispatch::norm(scratch, mtp, s.hidden as int, w.input_norm, s.normalized as int, rows),
    ] + branch::prefill_attention(
        mtp,
        attention_places(s),
        s.normalized,
        s.branch_output,
        w.attention,
        r.cache(),
        rows,
    ) + behind_attention(
        scratch,
        s,
        w,
        branch::prefill_mlp(mtp, mlp_places(s), w.mlp, rows),
        rows,
    ) + seq![
        dispatch::gemm(
            scratch,
            Owner::Target,
            rows,
            s.normalized as int,
            r.head,
            s.logits as int,
        ),
    ] + argmax_rows(s, rows)
}

/// The bytes of single precision numbers cut to half their size, the lower byte of each
/// first. The numbers are given as their bits.
pub open spec fn half_bytes(numbers: Seq<u32>) -> Seq<u8>
    decreases numbers.len(),
{
    if numbers.len() == 0 {
        Seq::empty()
    } else {
        let half = numbers.last() / 0x1_0000;
        half_bytes(numbers.drop_last()) + seq![(half % 0x100) as u8, (half / 0x100) as u8]
    }
}

/// The bytes of several hidden states, one behind the other.
pub open spec fn hidden_bytes(positions: Seq<(u32, &[u32])>) -> Seq<u8>
    decreases positions.len(),
{
    if positions.len() == 0 {
        Seq::empty()
    } else {
        hidden_bytes(positions.drop_last()) + half_bytes(positions.last().1@)
    }
}

/// The tokens of several positions.
pub open spec fn tokens_of(positions: Seq<(u32, &[u32])>) -> Seq<u32> {
    Seq::new(positions.len(), |i: int| positions[i].0)
}

/// `pass` feeds a token and a hidden state to the drafter.
pub open spec fn is_draft_pass(
    pass: MtpPass,
    r: MtpView,
    token: u32,
    hidden: Seq<u32>,
    argmax: bool,
) -> bool {
    &&& pass.buffer == BufferId::Scratch
    &&& pass.tokens@ == command::words_bytes(seq![token])
    &&& pass.hidden@ == half_bytes(hidden)
    &&& pass.hidden_at == r.scratch.target_hidden
    &&& pass.rows == 1
    &&& command::plan_view(pass.plan@) == draft_plan(r, argmax)
}

/// `pass` feeds `positions[base..]` to the drafter, as far as one pass goes.
pub open spec fn is_prefill_pass(
    pass: MtpPass,
    r: MtpView,
    positions: Seq<(u32, &[u32])>,
    base: int,
) -> bool {
    let rows = prefill::chunk_len(positions.len() as int, base);
    let chunk = positions.subrange(base, base + rows);
    &&& pass.buffer == BufferId::PrefillScratch
    &&& pass.tokens@ == command::words_bytes(tokens_of(chunk))
    &&& pass.hidden@ == hidden_bytes(chunk)
    &&& pass.hidden_at == r.prefill.target_hidden
    &&& pass.rows == rows
    &&& command::plan_view(pass.plan@) == prefill_plan(r, rows)
}

// ---------------------------------------------------------------------------
// Making passes
// ---------------------------------------------------------------------------

/// Appends the bytes of some numbers, cut to half their size.
fn push_half_bytes(bytes: &mut Vec<u8>, numbers: &[u32])
    ensures
        final(bytes)@ == old(bytes)@ + half_bytes(numbers@),
{
    let mut i: usize = 0;
    assert(numbers@.take(0) =~= Seq::empty());
    assert(bytes@ =~= old(bytes)@ + half_bytes(numbers@.take(0)));
    while i < numbers.len()
        invariant
            i <= numbers@.len(),
            bytes@ == old(bytes)@ + half_bytes(numbers@.take(i as int)),
        decreases numbers@.len() - i,
    {
        assert(numbers@.take(i + 1).drop_last() =~= numbers@.take(i as int));
        let half: u16 = f32_to_bf16(numbers[i]);
        bytes.push((half % 0x100) as u8);
        bytes.push((half / 0x100) as u8);
        i += 1;
        assert(bytes@ =~= old(bytes)@ + half_bytes(numbers@.take(i as int)));
    }
    assert(numbers@.take(i as int) =~= numbers@);
}

/// The place of the attention tensors.
fn attention_places_of(s: &MtpScratchLayout) -> (places: AttentionPlaces)
    ensures
        places == attention_places(*s),
{
    AttentionPlaces {
        projection: s.projection,
        key: s.key,
        value: s.value,
        query: s.query,
        gate: s.attention_gate,
        output: s.attention_output,
        gated: s.gated,
    }
}

/// The place of the feed-forward tensors.
fn mlp_places_of(s: &MtpScratchLayout) -> (places: MlpPlaces)
    ensures
        places == mlp_places(*s),
{
    MlpPlaces {
        input: s.post_norm,
        gate: s.mlp_gate,
        up: s.mlp_up,
        active: s.mlp_active,
        output: s.branch_output,
    }
}

impl MtpRunner {
    #[verifier::type_invariant]
    closed spec fn well_formed(&self) -> bool {
        self@.well_formed()
    }

    /// A pass over one position.
    fn draft(&self, argmax: bool) -> (plan: Vec<Dispatch>)
        requires
            self@.position < u32::MAX,
        ensures
            command::plan_view(plan@) == draft_plan(self@, argmax),
    {
        proof {
            use_type_invariant(self);
            layout::mtp_scratch_bounds(self.scratch_layout, 1);
        }
        let s = self.scratch_layout;
        let w = self.weights;
        let scratch = BufferId::Scratch;
        let mtp = Owner::Mtp;
        let mut plan: Vec<Dispatch> = Vec::new();
        push_embed(&mut plan, scratch, s.token, &self.embed, s.token_embed, 1);
        push_norm(&mut plan, scratch, mtp, s.token_embed, w.pre_fc_norm_embedding, s.pre_fc, 1);
        push_norm(
            &mut plan,
            scratch,
            mtp,
            s.target_hidden,
            w.pre_fc_norm_hidden,
            s.pre_fc_hidden,
            1,
        );
        push_qmv(&mut plan, scratch, mtp, s.pre_fc, &w.fc, s.fc_output, 1);
        push_cast(&mut plan, scratch, s.fc_output, s.hidden, HIDDEN);
        push_norm(&mut plan, scratch, mtp, s.hidden, w.input_norm, s.normalized, 1);
        let cache = AttentionCache {
            position: self.position,
            capacity: self.capacity,
            offset: 0,
        };
        encode_attention(
            &mut plan,
            mtp,
            &attention_places_of(&s),
            s.normalized,
            s.branch_output,
            &w.attention,
            &cache,
            1,
        );
        push_residual(&mut plan, scratch, s.hidden, s.branch_output, s.residual, 1);
        push_norm(&mut plan, scratch, mtp, s.residual, w.post_norm, s.post_norm, 1);
        encode_mlp(&mut plan, mtp, &mlp_places_of(&s), &w.mlp, 1);
        push_residual(&mut plan, scratch, s.residual, s.branch_output, s.hidden, 1);
        push_norm(&mut plan, scratch, mtp, s.hidden, w.final_norm, s.normalized, 1);
        push_qmv(&mut plan, scratch, Owner::Target, s.normalized, &self.head, s.logits, 1);
        if argmax {
            push_argmax(&mut plan, scratch, s.logits, s.argmax_partial);
        }
        assert(command::plan_view(plan@) =~= draft_plan(self@, argmax));
        plan
    }

    /// Appends the search for the largest logit of each row.
    fn push_argmax_rows(&self, plan: &mut Vec<Dispatch>, rows: usize)
        requires
            rows <= PREFILL_BATCH,
        ensures
            command::plan_view(final(plan)@) == command::plan_view(old(plan)@) + argmax_rows(
                self@.prefill,
                rows as int,
            ),
    {
        proof {
            use_type_invariant(self);
            layout::mtp_scratch_bounds(self.prefill_layout, PREFILL_BATCH as int);
        }
        let s = self.prefill_layout;
        let mut row: usize = 0;
        assert(command::plan_view(plan@) =~= command::plan_view(old(plan)@) + argmax_rows(s, 0));
        while row < rows
            invariant
                row <= rows <= PREFILL_BATCH,
                s.logits + PREFILL_BATCH * (VOCAB * 4) <= s.argmax_partial,
                s.argmax_partial + PREFILL_BATCH * (ARGMAX_PARTIALS * 2 * 4) == s.len,
                command::plan_view(plan@) == command::plan_view(old(plan)@) + argmax_rows(
                    s,
                    row as int,
                ),
            decreases rows - row,
        {
            proof {
                readback::row_fits(row as int, PREFILL_BATCH as int, VOCAB * 4);
                readback::row_fits(row as int, PREFILL_BATCH as int, ARGMAX_PARTIALS * 2 * 4);
            }
            let input: usize = s.logits + row * (VOCAB * 4);
            let base: usize = s.argmax_partial + row * (ARGMAX_PARTIALS * 2 * 4);
            push_argmax(plan, BufferId::PrefillScratch, input, base);
            row += 1;
            assert(command::plan_view(plan@) =~= command::plan_view(old(plan)@) + argmax_rows(
                s,
                row as int,
            ));
        }
    }

    /// A pass over `rows` positions.
    fn prefill(&self, rows: usize) -> (plan: Vec<Dispatch>)
        requires
            rows <= PREFILL_BATCH,
            self@.position < u32::MAX,
        ensures
            command::plan_view(plan@) == prefill_plan(self@, rows as int),
    {
        proof {
            use_type_invariant(self);
        }
        let s = self.prefill_layout;
        let w = self.weights;
        let scratch = BufferId::PrefillScratch;
        let mtp = Owner::Mtp;
        let mut plan: Vec<Dispatch> = Vec::new();
        push_embed(&mut plan, scratch, s.token, &self.embed, s.token_embed, rows);
        push_norm_half(
            &mut plan,
            scratch,
            mtp,
            s.token_embed,
            w.pre_fc_norm_embedding,
            s.fc_input,
            0,
            rows,
        );
        push_norm_half(
            &mut plan,
            scratch,
            mtp,
            s.target_hidden,
            w.pre_fc_norm_hidden,
            s.fc_input,
            HIDDEN,
            rows,
        );
        push_gemm(&mut plan, scratch, mtp, rows, s.fc_input, &w.fc, s.fc_output);
        push_cast(&mut plan, scratch, s.fc_output, s.hidden, rows * HIDDEN);
        push_norm(&mut plan, scratch, mtp, s.hidden, w.input_norm, s.normalized, rows);
        let cache = AttentionCache {
            position: self.position,
            capacity: self.capacity,
            offset: 0,
        };
        encode_prefill_attention(
            &mut plan,
            mtp,
            &attention_places_of(&s),
            s.normalized,
            s.branch_output,
            &w.attention,
            &cache,
            rows,
        );
        push_residual(&mut plan, scratch, s.hidden, s.branch_output, s.residual, rows);
        push_norm(&mut plan, scratch, mtp, s.residual, w.post_norm, s.post_norm, rows);
        encode_prefill_mlp(&mut plan, mtp, &mlp_places_of(&s), &w.mlp, rows);
        push_residual(&mut plan, scratch, s.residual, s.branch_output, s.hidden, rows);
        push_norm(&mut plan, scratch, mtp, s.hidden, w.final_norm, s.normalized, rows);
        push_gemm(&mut plan, scratch, Owner::Target, rows, s.normalized, &self.head, s.logits);
        self.push_argmax_rows(&mut plan, rows);
        assert(command::plan_view(plan@) =~= prefill_plan(self@, rows as int));
        plan
    }
}

/// What is said of a hidden state of the wrong width.
pub open spec fn wrong_width(len: int) -> Seq<char> {
    "MTP target hidden has "@ + text::decimal(len as nat) + " values, expected 5120"@
}

/// What is said of a full cache.
pub open spec fn exhausted(capacity: int) -> Seq<char> {
    "MTP KV capacity "@ + text::decimal(capacity as nat) + " exhausted"@
}

/// Why a position cannot be fed to the drafter; `None` where it can.
pub open spec fn position_error(r: MtpView, token: u32, hidden: Seq<u32>) -> Option<Seq<char>> {
    if token >= VOCAB {
        Some(runner::outside_vocabulary(token))
    } else if hidden.len() != HIDDEN {
        Some(wrong_width(hidden.len() as int))
    } else if r.position >= r.capacity {
        Some(exhausted(r.capacity))
    } else {
        None
    }
}

/// Why some positions cannot be fed to the drafter from `base` on; `None` where they can.
pub open spec fn positions_error(r: MtpView, positions: int, base: int) -> Option<Seq<char>> {
    if r.position + (positions - base) > r.capacity {
        Some(
            "MTP KV capacity "@ + text::decimal(r.capacity as nat) + " exhausted by prefill of "@
                + text::decimal(positions as nat) + " positions"@,
        )
    } else {
        None
    }
}

/// What is said of a part of a history that there is not.
pub open spec fn untrimmable(count: int, position: int) -> Seq<char> {
    "cannot trim "@ + text::decimal(count as nat) + " MTP positions from "@ + text::decimal(
        position as nat,
    )
}

impl MtpRunner {
    /// How many positions the drafter has been fed.
    pub fn position(&self) -> (position: usize)
        ensures
            position == self@.position,
    {
        self.position
    }

    /// Feeds one position.
    fn feed(&mut self, token: u32, target_hidden: &[u32], argmax: bool) -> (pass: Result<
        MtpPass,
        String,
    >)
        ensures
            match pass {
                Ok(pass) => {
                    &&& position_error(old(self)@, token, target_hidden@) is None
                    &&& is_draft_pass(pass, old(self)@, token, target_hidden@, argmax)
                    &&& final(self)@ == (MtpView {
                        position: old(self)@.position + 1,
                        ..old(self)@
                    })
                },
                Err(message) => {
                    &&& position_error(old(self)@, token, target_hidden@) == Some(message@)
                    &&& final(self)@ == old(self)@
                },
            },
    {
        proof {
            use_type_invariant(&*self);
        }
        if token as usize >= VOCAB {
            return Err(
                join3("token ", decimal_of(token as u64).as_str(), " is outside vocabulary"),
            );
        }
        if target_hidden.len() != HIDDEN {
            return Err(
                join3(
                    "MTP target hidden has ",
                    decimal_of(target_hidden.len() as u64).as_str(),
                    " values, expected 5120",
                ),
            );
        }
        if self.position >= self.capacity {
            return Err(
                join3("MTP KV capacity ", decimal_of(self.capacity as u64).as_str(), " exhausted"),
            );
        }
        let plan = self.draft(argmax);
        let tokens: Vec<u32> = vec![token];
        assert(tokens@ =~= seq![token]);
        let mut hidden: Vec<u8> = Vec::new();
        push_half_bytes(&mut hidden, target_hidden);
        assert(hidden@ =~= half_bytes(target_hidden@));
        let tokens = u32_bytes(&tokens);
        self.position = self.position + 1;
        Ok(
            MtpPass {
                buffer: BufferId::Scratch,
                tokens,
                hidden,
                hidden_at: self.scratch_layout.target_hidden,
                plan,
                rows: 1,
            },
        )
    }

    /// Feeds a token and the target's hidden state before it, given as the bits of single
    /// precision numbers; all logits are left to be read.
    pub fn forward_position(&mut self, token: u32, target_hidden: &[u32]) -> (pass: Result<
        MtpPass,
        String,
    >)
        ensures
            match pass {
                Ok(pass) => {
                    &&& position_error(old(self)@, token, target_hidden@) is None
                    &&& is_draft_pass(pass, old(self)@, token, target_hidden@, false)
                    &&& final(self)@ == (MtpView {
                        position: old(self)@.position + 1,
                        ..old(self)@
                    })
                },
                Err(message) => {
                    &&& position_error(old(self)@, token, target_hidden@) == Some(message@)
                    &&& final(self)@ == old(self)@
                },
            },
    {
        self.feed(token, target_hidden, false)
    }

    /// Feeds a token and the target's hidden state before it; the largest logit is searched for
    /// on the GPU.
    pub fn forward_position_decode(&mut self, token: u32, target_hidden: &[u32]) -> (pass: Result<
        MtpPass,
        String,
    >)
        ensures
            match pass {
                Ok(pass) => {
                    &&& position_error(old(self)@, token, target_hidden@) is None
                    &&& is_draft_pass(pass, old(self)@, token, target_hidden@, true)
                    &&& final(self)@ == (MtpView {
                        position: old(self)@.position + 1,
                        ..old(self)@
                    })
                },
                Err(message) => {
                    &&& position_error(old(self)@, token, target_hidden@) == Some(message@)
                    &&& final(self)@ == old(self)@
                },
            },
    {
        self.feed(token, target_hidden, true)
    }

    /// Feeds several positions from `base` on, as far as one pass goes; `None` where there
    /// are none left. Called again with the base moved on by the rows of the pass, it feeds
    /// them all.
    pub fn forward_position_batch(&mut self, positions: &[(u32, &[u32])], base: usize) -> (pass:
        Result<Option<MtpPass>, String>)
        requires
            base <= positions@.len(),
        ensures
            match pass {
                Ok(Some(pass)) => {
                    &&& positions_error(old(self)@, positions@.len() as int, base as int) is None
                    &&& base < positions@.len()
                    &&& is_prefill_pass(pass, old(self)@, positions@, base as int)
                    &&& final(self)@ == (MtpView {
                        position: old(self)@.position + pass.rows,
                        ..old(self)@
                    })
                },
                Ok(None) => base == positions@.len() && final(self)@ == old(self)@,
                Err(message) => {
                    &&& positions_error(old(self)@, positions@.len() as int, base as int) == Some(
                        message@,
                    )
                    &&& final(self)@ == old(self)@
                },
            },
    {
        proof {
            use_type_invariant(&*self);
        }
        let count: usize = positions.len();
        let left: usize = count - base;
        if left > self.capacity - self.position {
            let mut message = join("MTP KV capacity ", decimal_of(self.capacity as u64).as_str());
            message.append(" exhausted by prefill of ");
            message.append(decimal_of(count as u64).as_str());
            message.append(" positions");
            return Err(message);
        }
        if left == 0 {
            return Ok(None);
        }
        let rows: usize = if left < PREFILL_BATCH {
            left
        } else {
            PREFILL_BATCH
        };
        let plan = self.prefill(rows);
        let ghost chunk = positions@.subrange(base as int, base + rows);
        let mut tokens: Vec<u32> = Vec::new();
        let mut hidden: Vec<u8> = Vec::new();
        let mut i: usize = 0;
        assert(chunk.take(0) =~= Seq::empty());
        while i < rows
            invariant
                i <= rows,
                base + rows <= count,
                count == positions@.len(),
                chunk == positions@.subrange(base as int, base + rows),
                tokens@ == tokens_of(chunk.take(i as int)),
                hidden@ == hidden_bytes(chunk.take(i as int)),
            decreases rows - i,
        {
            let (token, state) = positions[base + i];
            assert(chunk.take(i + 1).drop_last() =~= chunk.take(i as int));
            tokens.push(token);
            push_half_bytes(&mut hidden, state);
            i += 1;
            assert(tokens@ =~= tokens_of(chunk.take(i as int)));
        }
        assert(chunk.take(i as int) =~= chunk);
        let tokens = u32_bytes(&tokens);
        self.position = self.position + rows;
        Ok(
            Some(
                MtpPass {
                    buffer: BufferId::PrefillScratch,
                    tokens,
                    hidden,
                    hidden_at: self.prefill_layout.target_hidden,
                    plan,
                    rows,
                },
            ),
        )
    }

    /// Takes the last `count` positions back. What the cache holds of them is overwritten in
    /// time.
    pub fn trim_state(&mut self, count: usize) -> (trimmed: Result<(), String>)
        ensures
            match trimmed {
                Ok(_) => {
                    &&& count <= old(self)@.position
                    &&& final(self)@ == (MtpView {
                        position: old(self)@.position - count,
                        ..old(self)@
                    })
                },
                Err(message) => {
                    &&& count > old(self)@.position
                    &&& message@ == untrimmable(count as int, old(self)@.position)
                    &&& final(self)@ == old(self)@
                },
            },
    {
        proof {
            use_type_invariant(&*self);
        }
        if count > self.position {
            let mut message = join3(
                "cannot trim ",
                decimal_of(count as u64).as_str(),
                " MTP positions from ",
            );
            message.append(decimal_of(self.position as u64).as_str());
            return Err(message);
        }
        self.position = self.position - count;
        Ok(())
    }
}

// ---------------------------------------------------------------------------
// Loading, resetting, saving
// ---------------------------------------------------------------------------

/// Why a cache cannot have this capacity, as far as the number itself goes.
pub open spec fn capacity_error(capacity: int) -> Option<Seq<char>> {
    if capacity == 0 {
        Some("MTP KV capacity must be greater than zero"@)
    } else if capacity > u32::MAX {
        Some("MTP KV capacity exceeds the kernel index range"@)
    } else {
        None
    }
}

/// What is said of a checkpoint with the wrong number of tensors.
pub open spec fn wrong_count(count: int) -> Seq<char> {
    "invalid MTP checkpoint: found "@ + text::decimal(count as nat) + " tensors, expected 31"@
}

/// Why a drafter cannot be made of these tensors; `None` where it can.
pub open spec fn load_error(table: SlotTable, capacity: int) -> Option<Seq<char>> {
    if capacity_error(capacity) is Some {
        capacity_error(capacity)
    } else if table.len() != MTP_TENSORS {
        Some(wrong_count(table.len() as int))
    } else if layers::first_fault(table, layers::mtp_needs()) is Some {
        layers::first_fault(table, layers::mtp_needs())
    } else if capacity * MTP_CACHE_ROW_BYTES > usize::MAX {
        Some("MTP KV capacity overflow"@)
    } else {
        None
    }
}

/// `r` is the drafter of these tensors for a target, fed nothing.
pub open spec fn is_loaded(
    r: MtpView,
    target: runner::RunnerView,
    table: SlotTable,
    capacity: int,
) -> bool {
    &&& r.embed == target.embed
    &&& r.head == target.head
    &&& r.weights == layers::mtp_at(table)
    &&& r.scratch.is_for(1)
    &&& r.prefill.is_for(PREFILL_BATCH as int)
    &&& r.capacity == capacity
    &&& r.position == 0
}

/// What is run to put the drafter into the state before any position.
pub open spec fn reset_plan(capacity: int) -> Seq<DispatchView> {
    seq![
        dispatch::clear(BufferId::KeyCache, capacity * MTP_CACHE_ROW_BYTES),
        dispatch::clear(BufferId::ValueCache, capacity * MTP_CACHE_ROW_BYTES),
    ]
}

/// Where the results of a row of the drafter lie: its hidden state is the one behind the
/// final norm, which is what its next guess goes on from.
pub open spec fn mtp_row(s: MtpScratchLayout, row: int) -> RowPlaces {
    readback::row_places(s.normalized as int, s.logits as int, s.argmax_partial as int, row)
}

/// What the cache takes is what the layout of the attention branch says.
pub proof fn cache_is_the_branch_cache(capacity: int)
    ensures
        branch::layer_cache_bytes(capacity) == capacity * MTP_CACHE_ROW_BYTES,
{
    assert(branch::layer_cache_bytes(capacity) == capacity * MTP_CACHE_ROW_BYTES)
        by (nonlinear_arith);
}

impl MtpRunner {
    /// The drafter of the tensors in an index, for a target, with caches for `capacity`
    /// positions. What [`Self::reset_state`] gives is to be run before the first pass. Every
    /// tensor of the index is laid out as its header says.
    pub fn load(target: &QwenRunner, index: &WeightIndex, capacity: usize) -> (loaded: Result<
        Self,
        String,
    >)
        ensures
            match loaded {
                Ok(runner) => {
                    &&& load_error(index.table(), capacity as int) is None
                    &&& is_loaded(runner@, target@, index.table(), capacity as int)
                    &&& index.is_laid_out()
                },
                Err(message) => load_error(index.table(), capacity as int) == Some(message@),
            },
    {
        if capacity == 0 {
            return Err("MTP KV capacity must be greater than zero".to_owned());
        }
        if capacity as u64 > u32::MAX as u64 {
            return Err("MTP KV capacity exceeds the kernel index range".to_owned());
        }
        if index.len() != MTP_TENSORS {
            return Err(
                join3(
                    "invalid MTP checkpoint: found ",
                    decimal_of(index.len() as u64).as_str(),
                    " tensors, expected 31",
                ),
            );
        }
        let weights = match build_mtp_weights(index) {
            Ok(weights) => weights,
            Err(message) => {
                return Err(message);
            },
        };
        if capacity > usize::MAX / MTP_CACHE_ROW_BYTES {
            return Err("MTP KV capacity overflow".to_owned());
        }
        index.layout_was_checked();
        let (embed, head) = target.shared_weights();
        let scratch_layout = MtpScratchLayout::new(1);
        let prefill_layout = MtpScratchLayout::new(PREFILL_BATCH);
        Ok(
            MtpRunner {
                embed,
                head,
                weights,
                scratch_layout,
                prefill_layout,
                capacity,
                position: 0,
            },
        )
    }

    /// How many bytes the scratch memories of drafting and of prefilling take, and a cache
    /// of keys or of values.
    pub fn memory(&self) -> (bytes: (usize, usize, usize))
        ensures
            bytes.0 == self@.scratch.len,
            bytes.1 == self@.prefill.len,
            bytes.2 == self@.capacity * MTP_CACHE_ROW_BYTES,
    {
        proof {
            use_type_invariant(self);
        }
        (self.scratch_layout.len, self.prefill_layout.len, self.capacity * MTP_CACHE_ROW_BYTES)
    }

    /// Where the results of a pass over one position lie.
    pub fn row_places(&self) -> (places: RowPlaces)
        ensures
            places == mtp_row(self@.scratch, 0),
            readback::lies_within(places, self@.scratch.len as int),
    {
        proof {
            use_type_invariant(self);
            layout::mtp_scratch_bounds(self.scratch_layout, 1);
        }
        let s = self.scratch_layout;
        places_of(s.normalized, s.logits, s.argmax_partial, s.len, Ghost(1), 0)
    }

    /// Where the results of a row of a prefilling pass lie.
    pub fn prefill_row_places(&self, row: usize) -> (places: RowPlaces)
        requires
            row < PREFILL_BATCH,
        ensures
            places == mtp_row(self@.prefill, row as int),
            readback::lies_within(places, self@.prefill.len as int),
    {
        proof {
            use_type_invariant(self);
            layout::mtp_scratch_bounds(self.prefill_layout, PREFILL_BATCH as int);
        }
        let s = self.prefill_layout;
        places_of(
            s.normalized,
            s.logits,
            s.argmax_partial,
            s.len,
            Ghost(PREFILL_BATCH as int),
            row,
        )
    }

    /// Puts the drafter into the state before any position.
    pub fn reset_state(&mut self) -> (plan: Vec<Dispatch>)
        ensures
            command::plan_view(plan@) == reset_plan(old(self)@.capacity),
            final(self)@ == (MtpView { position: 0, ..old(self)@ }),
    {
        proof {
            use_type_invariant(&*self);
        }
        let cache_len: usize = self.capacity * MTP_CACHE_ROW_BYTES;
        let mut plan: Vec<Dispatch> = Vec::new();
        push_clear(&mut plan, BufferId::KeyCache, cache_len);
        push_clear(&mut plan, BufferId::ValueCache, cache_len);
        assert(command::plan_view(plan@) =~= reset_plan(self@.capacity));
        self.position = 0;
        plan
    }

    /// Saves the state of the drafter.
    pub fn checkpoint_state(&self) -> (saved: MtpCheckpoint)
        ensures
            saved.at() == self@.position,
    {
        MtpCheckpoint { position: self.position }
    }

    /// Restores a saved state.
    pub fn restore_state(&mut self, checkpoint: &MtpCheckpoint) -> (restored: Result<(), String>)
        ensures
            match restored {
                Ok(_) => {
                    &&& checkpoint.at() <= old(self)@.capacity
                    &&& final(self)@ == (MtpView { position: checkpoint.at(), ..old(self)@ })
                },
                Err(message) => {
                    &&& checkpoint.at() > old(self)@.capacity
                    &&& message@ == runner::misfit(checkpoint.at(), old(self)@.capacity)
                    &&& final(self)@ == old(self)@
                },
            },
    {
        proof {
            use_type_invariant(&*self);
        }
        if checkpoint.position > self.capacity {
            let mut message = join(
                "checkpoint position ",
                decimal_of(checkpoint.position as u64).as_str(),
            );
            message.append(" exceeds KV capacity ");
            message.append(decimal_of(self.capacity as u64).as_str());
            return Err(message);
        }
        self.position = checkpoint.position;
        Ok(())
    }
}

// ---------------------------------------------------------------------------
// Laws
// ---------------------------------------------------------------------------

/// A hidden state takes two bytes for each of its numbers.
pub proof fn half_bytes_are_two_each(numbers: Seq<u32>)
    ensures
        half_bytes(numbers).len() == 2 * numbers.len(),
    decreases numbers.len(),
{
    if numbers.len() > 0 {
        half_bytes_are_two_each(numbers.drop_last());
    }
}

/// The hidden states that a pass is given fit the region that is there for them, when each
/// is as wide as the model: what is written leaves the other regions alone.
pub proof fn hidden_states_fit(s: MtpScratchLayout, batch: int, positions: Seq<(u32, &[u32])>)
    requires
        s.is_for(batch),
        positions.len() <= batch,
        forall|i: int|
            0 <= i < positions.len() ==> (#[trigger] positions[i]).1@.len() == HIDDEN,
    ensures
        hidden_bytes(positions).len() == positions.len() * (HIDDEN * 2),
        s.target_hidden + hidden_bytes(positions).len() <= s.pre_fc,
{
    hidden_states_take(positions);
    layout::mtp_scratch_bounds(s, batch);
    layout::mtp_hidden_region(s, batch);
    assert(positions.len() * (HIDDEN * 2) <= batch * (HIDDEN * 2)) by (nonlinear_arith)
        requires
            positions.len() <= batch,
    ;
}

/// What the hidden states of some positions take.
proof fn hidden_states_take(positions: Seq<(u32, &[u32])>)
    requires
        forall|i: int|
            0 <= i < positions.len() ==> (#[trigger] positions[i]).1@.len() == HIDDEN,
    ensures
        hidden_bytes(positions).len() == positions.len() * (HIDDEN * 2),
    decreases positions.len(),
{
    if positions.len() > 0 {
        hidden_states_take(positions.drop_last());
        assert(positions.last().1@.len() == HIDDEN);
        half_bytes_are_two_each(positions.last().1@);
        assert((positions.len() - 1) * (HIDDEN * 2) + HIDDEN * 2 == positions.len() * (HIDDEN
            * 2)) by (nonlinear_arith);
    }
}

/// What the drafter needs is exactly the number of tensors that its checkpoint is to have.
pub proof fn needs_are_counted()
    ensures
        layers::mtp_needs().len() == MTP_TENSORS,
{
}

} // verus!
