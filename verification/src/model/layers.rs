//! The weights of the layers, found in an index: which tensors a model needs, under which
//! names, and of which types and shapes.

use vstd::prelude::*;
use vstd::string::*;

use crate::format::dtype;
use crate::format::dtype::Dtype;
use crate::model;
use crate::model::branch::{AttentionWeights, GdnWeights, MlpWeights};
use crate::model::dispatch::{Q4Linear, TensorRef};
use crate::model::weights;
use crate::model::weights::{SlotTable, WeightIndex, WeightSlot};
use crate::model::{
    layer_kind, LayerKind, ATTN_HEAD_DIM, ATTN_KV_OUT, ATTN_LAYERS, ATTN_OUT, ATTN_Q_OUT,
    GDN_CONV_DIM, GDN_HEAD_DIM, GDN_LAYERS, GDN_VALUE_DIM, GDN_VALUE_HEADS, HIDDEN, INTERMEDIATE,
    LAYERS,
};
use crate::text;
use crate::text::{decimal_of, join};

verus! {

/// What every layer has besides its branch.
#[derive(Debug, Clone, Copy, PartialEq, Eq, Structural)]
pub struct CommonLayer {
    pub input_norm: TensorRef,
    pub post_norm: TensorRef,
    pub mlp: MlpWeights,
}

/// The branch of a layer.
#[derive(Debug, Clone, Copy, PartialEq, Eq, Structural)]
pub enum BranchWeights {
    Gdn(GdnWeights),
    Attention(AttentionWeights),
}

/// The weights of a layer.
#[derive(Debug, Clone, Copy, PartialEq, Eq, Structural)]
pub struct LayerWeights {
    pub common: CommonLayer,
    pub branch: BranchWeights,
}

/// The weights of the drafter.
#[derive(Debug, Clone, Copy, PartialEq, Eq, Structural)]
pub struct MtpWeights {
    pub pre_fc_norm_embedding: TensorRef,
    pub pre_fc_norm_hidden: TensorRef,
    pub fc: Q4Linear,
    pub input_norm: TensorRef,
    pub attention: AttentionWeights,
    pub post_norm: TensorRef,
    pub mlp: MlpWeights,
    pub final_norm: TensorRef,
}

// ---------------------------------------------------------------------------
// What is needed
// ---------------------------------------------------------------------------

/// A tensor that a model needs.
pub struct Need {
    pub name: Seq<char>,
    pub dtype: Dtype,
    pub shape: Seq<u64>,
}

/// Numbers, separated by commas.
pub open spec fn listed(shape: Seq<u64>) -> Seq<char>
    decreases shape.len(),
{
    if shape.len() == 0 {
        Seq::empty()
    } else if shape.len() == 1 {
        text::decimal(shape[0] as nat)
    } else {
        listed(shape.drop_last()) + ", "@ + text::decimal(shape.last() as nat)
    }
}

/// A shape, as its `Debug` form gives it.
pub open spec fn shape_text(shape: Seq<u64>) -> Seq<char> {
    "["@ + listed(shape) + "]"@
}

/// What is wrong with a tensor that is needed; `None` where nothing is.
pub open spec fn fault(table: SlotTable, need: Need) -> Option<Seq<char>> {
    match weights::lookup(table, need.name) {
        None => Some("missing tensor "@ + need.name),
        Some(slot) => if slot.dtype == need.dtype && slot.shape == need.shape {
            None
        } else {
            Some(
                "invalid tensor "@ + need.name + ": "@ + dtype::debug_name(slot.dtype) + " "@
                    + shape_text(slot.shape) + ", expected "@ + dtype::debug_name(need.dtype) + " "@
                    + shape_text(need.shape),
            )
        },
    }
}

/// What is wrong with the first tensor with which something is.
pub open spec fn first_fault(table: SlotTable, needs: Seq<Need>) -> Option<Seq<char>>
    decreases needs.len(),
{
    if needs.len() == 0 {
        None
    } else {
        match first_fault(table, needs.drop_last()) {
            Some(fault) => Some(fault),
            None => fault(table, needs.last()),
        }
    }
}

/// The first fault of two lists is that of the first one, or else that of the second.
pub proof fn first_fault_of_both(table: SlotTable, a: Seq<Need>, b: Seq<Need>)
    ensures
        first_fault(table, a + b) == (match first_fault(table, a) {
            Some(fault) => Some(fault),
            None => first_fault(table, b),
        }),
    decreases b.len(),
{
    if b.len() == 0 {
        assert(a + b =~= a);
    } else {
        first_fault_of_both(table, a, b.drop_last());
        assert((a + b).drop_last() =~= a + b.drop_last());
    }
}

/// The place of a tensor.
pub open spec fn tensor_at(table: SlotTable, name: Seq<char>) -> TensorRef {
    let slot = weights::lookup(table, name)->0;
    TensorRef { shard: slot.shard as usize, offset: slot.offset as u64 }
}

/// The tensors of a linear map: the weights, eight to a word, and a scale and a bias for
/// each group of sixty-four.
pub open spec fn q4_needs(prefix: Seq<char>, input: int, output: int) -> Seq<Need> {
    seq![
        Need {
            name: prefix + ".weight"@,
            dtype: Dtype::U32,
            shape: seq![output as u64, (input / 8) as u64],
        },
        Need {
            name: prefix + ".scales"@,
            dtype: Dtype::BF16,
            shape: seq![output as u64, (input / 64) as u64],
        },
        Need {
            name: prefix + ".biases"@,
            dtype: Dtype::BF16,
            shape: seq![output as u64, (input / 64) as u64],
        },
    ]
}

/// The linear map of this name.
pub open spec fn q4_at(table: SlotTable, prefix: Seq<char>, input: usize, output: usize) -> Q4Linear {
    Q4Linear {
        weight: tensor_at(table, prefix + ".weight"@),
        scales: tensor_at(table, prefix + ".scales"@),
        biases: tensor_at(table, prefix + ".biases"@),
        input,
        output,
    }
}

/// A tensor of half-size numbers.
pub open spec fn bf16_need(name: Seq<char>, shape: Seq<u64>) -> Seq<Need> {
    seq![Need { name, dtype: Dtype::BF16, shape }]
}

// ---------------------------------------------------------------------------
// Finding tensors
// ---------------------------------------------------------------------------

/// A shape, as its `Debug` form gives it.
fn shape_of(shape: &[u64]) -> (s: String)
    ensures
        s@ == shape_text(shape@),
{
    let mut s = "[".to_owned();
    let mut i: usize = 0;
    assert(shape@.take(0) =~= Seq::empty());
    while i < shape.len()
        invariant
            i <= shape@.len(),
            s@ == "["@ + listed(shape@.take(i as int)),
        decreases shape@.len() - i,
    {
        assert(shape@.take(i + 1).drop_last() =~= shape@.take(i as int));
        if i > 0 {
            s.append(", ");
        }
        s.append(decimal_of(shape[i]).as_str());
        i += 1;
        assert(s@ =~= "["@ + listed(shape@.take(i as int)));
    }
    assert(shape@.take(i as int) =~= shape@);
    s.append("]");
    s
}

/// Whether two shapes are the same.
fn same_shape(a: &[u64], b: &[u64]) -> (same: bool)
    ensures
        same == (a@ == b@),
{
    if a.len() != b.len() {
        return false;
    }
    let mut i: usize = 0;
    while i < a.len()
        invariant
            i <= a@.len() == b@.len(),
            forall|k: int| 0 <= k < i ==> a@[k] == b@[k],
        decreases a@.len() - i,
    {
        if a[i] != b[i] {
            return false;
        }
        i += 1;
    }
    assert(a@ =~= b@);
    true
}

/// The place of a slot.
pub fn tensor_ref(slot: &WeightSlot) -> (tensor: TensorRef)
    ensures
        tensor == (TensorRef { shard: slot.shard, offset: slot.offset as u64 }),
{
    TensorRef { shard: slot.shard, offset: slot.offset as u64 }
}

/// The slot of a tensor that must have this type and this shape.
pub fn slot<'a>(index: &'a WeightIndex, name: &str, dtype: Dtype, shape: &[u64]) -> (found: Result<
    &'a WeightSlot,
    String,
>)
    ensures
        match found {
            Ok(slot) => {
                &&& fault(index.table(), Need { name: name@, dtype, shape: shape@ }) is None
                &&& weights::lookup(index.table(), name@) == Some(slot@)
            },
            Err(message) => fault(
                index.table(),
                Need { name: name@, dtype, shape: shape@ },
            ) == Some(message@),
        },
{
    let slot = match index.slot(name) {
        Some(slot) => slot,
        None => {
            return Err(join("missing tensor ", name));
        },
    };
    if slot.dtype != dtype || !same_shape(&slot.shape, shape) {
        let mut message = join("invalid tensor ", name);
        message.append(": ");
        message.append(slot.dtype.label());
        message.append(" ");
        message.append(shape_of(&slot.shape).as_str());
        message.append(", expected ");
        message.append(dtype.label());
        message.append(" ");
        message.append(shape_of(shape).as_str());
        return Err(message);
    }
    Ok(slot)
}

/// The place of a tensor of half-size numbers, of this shape.
pub fn bf16(index: &WeightIndex, name: &str, shape: &[u64]) -> (found: Result<TensorRef, String>)
    ensures
        match found {
            Ok(tensor) => {
                &&& first_fault(index.table(), bf16_need(name@, shape@)) is None
                &&& tensor == tensor_at(index.table(), name@)
            },
            Err(message) => first_fault(index.table(), bf16_need(name@, shape@)) == Some(
                message@,
            ),
        },
{
    proof {
        reveal_with_fuel(first_fault, 2);
        assert(bf16_need(name@, shape@).drop_last() =~= Seq::empty());
    }
    match slot(index, name, Dtype::BF16, shape) {
        Ok(slot) => Ok(tensor_ref(slot)),
        Err(message) => Err(message),
    }
}

/// The linear map of this name, from `input` numbers to `output`.
pub fn q4(index: &WeightIndex, prefix: &str, input: usize, output: usize) -> (found: Result<
    Q4Linear,
    String,
>)
    ensures
        match found {
            Ok(linear) => {
                &&& first_fault(
                    index.table(),
                    q4_needs(prefix@, input as int, output as int),
                ) is None
                &&& linear == q4_at(index.table(), prefix@, input, output)
            },
            Err(message) => first_fault(
                index.table(),
                q4_needs(prefix@, input as int, output as int),
            ) == Some(message@),
        },
{
    let ghost needs = q4_needs(prefix@, input as int, output as int);
    proof {
        reveal_with_fuel(first_fault, 4);
        assert(needs.drop_last() =~= seq![needs[0], needs[1]]);
        assert(needs.drop_last().drop_last() =~= seq![needs[0]]);
        assert(needs.drop_last().drop_last().drop_last() =~= Seq::empty());
    }
    let weight_shape: Vec<u64> = vec![output as u64, (input / 8) as u64];
    let group_shape: Vec<u64> = vec![output as u64, (input / 64) as u64];
    assert(weight_shape@ =~= needs[0].shape);
    assert(group_shape@ =~= needs[1].shape);
    assert(group_shape@ =~= needs[2].shape);
    let weight = match slot(
        index,
        join(prefix, ".weight").as_str(),
        Dtype::U32,
        &weight_shape,
    ) {
        Ok(slot) => tensor_ref(slot),
        Err(message) => {
            return Err(message);
        },
    };
    let scales = match slot(
        index,
        join(prefix, ".scales").as_str(),
        Dtype::BF16,
        &group_shape,
    ) {
        Ok(slot) => tensor_ref(slot),
        Err(message) => {
            return Err(message);
        },
    };
    let biases = match slot(
        index,
        join(prefix, ".biases").as_str(),
        Dtype::BF16,
        &group_shape,
    ) {
        Ok(slot) => tensor_ref(slot),
        Err(message) => {
            return Err(message);
        },
    };
    Ok(Q4Linear { weight, scales, biases, input, output })
}

// ---------------------------------------------------------------------------
// The layers
// ---------------------------------------------------------------------------

/// The tensors of a feed-forward part.
pub open spec fn mlp_needs(prefix: Seq<char>) -> Seq<Need> {
    q4_needs(prefix + ".mlp.gate_proj"@, HIDDEN as int, INTERMEDIATE as int) + q4_needs(
        prefix + ".mlp.up_proj"@,
        HIDDEN as int,
        INTERMEDIATE as int,
    ) + q4_needs(prefix + ".mlp.down_proj"@, INTERMEDIATE as int, HIDDEN as int)
}

/// The feed-forward part of this name.
pub open spec fn mlp_at(table: SlotTable, prefix: Seq<char>) -> MlpWeights {
    MlpWeights {
        gate: q4_at(table, prefix + ".mlp.gate_proj"@, HIDDEN, INTERMEDIATE),
        up: q4_at(table, prefix + ".mlp.up_proj"@, HIDDEN, INTERMEDIATE),
        down: q4_at(table, prefix + ".mlp.down_proj"@, INTERMEDIATE, HIDDEN),
    }
}

/// The shape of a vector.
pub open spec fn vector(len: usize) -> Seq<u64> {
    seq![len as u64]
}

/// The tensors that every layer has besides its branch.
pub open spec fn common_needs(prefix: Seq<char>) -> Seq<Need> {
    bf16_need(prefix + ".input_layernorm.weight"@, vector(HIDDEN)) + bf16_need(
        prefix + ".post_attention_layernorm.weight"@,
        vector(HIDDEN),
    ) + mlp_needs(prefix)
}

/// What a layer of this name has besides its branch.
pub open spec fn common_at(table: SlotTable, prefix: Seq<char>) -> CommonLayer {
    CommonLayer {
        input_norm: tensor_at(table, prefix + ".input_layernorm.weight"@),
        post_norm: tensor_at(table, prefix + ".post_attention_layernorm.weight"@),
        mlp: mlp_at(table, prefix),
    }
}

/// The tensors of a recurrent branch.
pub open spec fn gdn_needs(p: Seq<char>) -> Seq<Need> {
    q4_needs(p + ".in_proj_qkv"@, HIDDEN as int, GDN_CONV_DIM as int) + q4_needs(
        p + ".in_proj_z"@,
        HIDDEN as int,
        GDN_VALUE_DIM as int,
    ) + q4_needs(p + ".in_proj_a"@, HIDDEN as int, GDN_VALUE_HEADS as int) + q4_needs(
        p + ".in_proj_b"@,
        HIDDEN as int,
        GDN_VALUE_HEADS as int,
    ) + q4_needs(p + ".out_proj"@, GDN_VALUE_DIM as int, HIDDEN as int) + bf16_need(
        p + ".conv1d.weight"@,
        seq![GDN_CONV_DIM as u64, 4, 1],
    ) + bf16_need(p + ".A_log"@, vector(GDN_VALUE_HEADS)) + bf16_need(
        p + ".dt_bias"@,
        vector(GDN_VALUE_HEADS),
    ) + bf16_need(p + ".norm.weight"@, vector(GDN_HEAD_DIM))
}

/// The recurrent branch of this name, which is the `state_index`-th.
pub open spec fn gdn_at(table: SlotTable, p: Seq<char>, state_index: usize) -> GdnWeights {
    GdnWeights {
        qkv: q4_at(table, p + ".in_proj_qkv"@, HIDDEN, GDN_CONV_DIM),
        z: q4_at(table, p + ".in_proj_z"@, HIDDEN, GDN_VALUE_DIM),
        a: q4_at(table, p + ".in_proj_a"@, HIDDEN, GDN_VALUE_HEADS),
        b: q4_at(table, p + ".in_proj_b"@, HIDDEN, GDN_VALUE_HEADS),
        output: q4_at(table, p + ".out_proj"@, GDN_VALUE_DIM, HIDDEN),
        conv_weight: tensor_at(table, p + ".conv1d.weight"@),
        a_log: tensor_at(table, p + ".A_log"@),
        dt_bias: tensor_at(table, p + ".dt_bias"@),
        norm: tensor_at(table, p + ".norm.weight"@),
        state_index,
    }
}

/// The tensors of an attention branch.
pub open spec fn attention_needs(p: Seq<char>) -> Seq<Need> {
    q4_needs(p + ".q_proj"@, HIDDEN as int, ATTN_Q_OUT as int) + q4_needs(
        p + ".k_proj"@,
        HIDDEN as int,
        ATTN_KV_OUT as int,
    ) + q4_needs(p + ".v_proj"@, HIDDEN as int, ATTN_KV_OUT as int) + q4_needs(
        p + ".o_proj"@,
        ATTN_OUT as int,
        HIDDEN as int,
    ) + bf16_need(p + ".q_norm.weight"@, vector(ATTN_HEAD_DIM)) + bf16_need(
        p + ".k_norm.weight"@,
        vector(ATTN_HEAD_DIM),
    )
}

/// The attention branch of this name, which is the `cache_index`-th.
pub open spec fn attention_at(table: SlotTable, p: Seq<char>, cache_index: usize) -> AttentionWeights {
    AttentionWeights {
        q: q4_at(table, p + ".q_proj"@, HIDDEN, ATTN_Q_OUT),
        k: q4_at(table, p + ".k_proj"@, HIDDEN, ATTN_KV_OUT),
        v: q4_at(table, p + ".v_proj"@, HIDDEN, ATTN_KV_OUT),
        output: q4_at(table, p + ".o_proj"@, ATTN_OUT, HIDDEN),
        q_norm: tensor_at(table, p + ".q_norm.weight"@),
        k_norm: tensor_at(table, p + ".k_norm.weight"@),
        cache_index,
    }
}

/// The name of a layer.
pub open spec fn layer_prefix(layer: int) -> Seq<char> {
    "language_model.model.layers."@ + text::decimal(layer as nat)
}

/// The tensors of a layer.
pub open spec fn layer_needs(layer: int) -> Seq<Need> {
    common_needs(layer_prefix(layer)) + (match model::kind_of(layer) {
        LayerKind::Gdn => gdn_needs(layer_prefix(layer) + ".linear_attn"@),
        LayerKind::Attention => attention_needs(layer_prefix(layer) + ".self_attn"@),
    })
}

/// A layer. Every fourth one is an attention layer, so that a quarter of the layers before
/// it are.
pub open spec fn layer_at(table: SlotTable, layer: int) -> LayerWeights {
    LayerWeights {
        common: common_at(table, layer_prefix(layer)),
        branch: match model::kind_of(layer) {
            LayerKind::Gdn => BranchWeights::Gdn(
                gdn_at(
                    table,
                    layer_prefix(layer) + ".linear_attn"@,
                    (layer - layer / 4) as usize,
                ),
            ),
            LayerKind::Attention => BranchWeights::Attention(
                attention_at(table, layer_prefix(layer) + ".self_attn"@, (layer / 4) as usize),
            ),
        },
    }
}

/// The tensors of the first `n` layers.
pub open spec fn layers_needs(n: int) -> Seq<Need>
    decreases n,
{
    if n <= 0 {
        Seq::empty()
    } else {
        layers_needs(n - 1) + layer_needs(n - 1)
    }
}

/// The tensors of the drafter.
pub open spec fn mtp_needs() -> Seq<Need> {
    bf16_need("pre_fc_norm_embedding.weight"@, vector(HIDDEN)) + bf16_need(
        "pre_fc_norm_hidden.weight"@,
        vector(HIDDEN),
    ) + q4_needs("fc"@, HIDDEN * 2, HIDDEN as int) + bf16_need(
        "layers.0"@ + ".input_layernorm.weight"@,
        vector(HIDDEN),
    ) + attention_needs("layers.0"@ + ".self_attn"@) + bf16_need(
        "layers.0"@ + ".post_attention_layernorm.weight"@,
        vector(HIDDEN),
    ) + mlp_needs("layers.0"@) + bf16_need("norm.weight"@, vector(HIDDEN))
}

/// The drafter.
pub open spec fn mtp_at(table: SlotTable) -> MtpWeights {
    MtpWeights {
        pre_fc_norm_embedding: tensor_at(table, "pre_fc_norm_embedding.weight"@),
        pre_fc_norm_hidden: tensor_at(table, "pre_fc_norm_hidden.weight"@),
        fc: q4_at(table, "fc"@, (HIDDEN * 2) as usize, HIDDEN),
        input_norm: tensor_at(table, "layers.0"@ + ".input_layernorm.weight"@),
        attention: attention_at(table, "layers.0"@ + ".self_attn"@, 0),
        post_norm: tensor_at(table, "layers.0"@ + ".post_attention_layernorm.weight"@),
        mlp: mlp_at(table, "layers.0"@),
        final_norm: tensor_at(table, "norm.weight"@),
    }
}

/// Finds one tensor after the other, and remembers the first that is missing or wrong.
struct Finder<'a, 'b> {
    index: &'a WeightIndex<'b>,
    error: Option<String>,
    needs: Ghost<Seq<Need>>,
}

impl<'a, 'b> Finder<'a, 'b> {
    /// The error is the first fault of what was needed so far.
    spec fn sound(&self) -> bool {
        match self.error {
            Some(message) => first_fault(self.index.table(), self.needs@) == Some(message@),
            None => first_fault(self.index.table(), self.needs@) is None,
        }
    }

    fn new(index: &'a WeightIndex<'b>) -> (finder: Self)
        ensures
            finder.sound(),
            finder.index == index,
            finder.needs@ == Seq::<Need>::empty(),
    {
        Finder { index, error: None, needs: Ghost(Seq::empty()) }
    }

    fn q4(&mut self, prefix: &str, name: &str, input: usize, output: usize) -> (linear: Q4Linear)
        requires
            old(self).sound(),
        ensures
            final(self).sound(),
            final(self).index == old(self).index,
            final(self).needs@ == old(self).needs@ + q4_needs(
                prefix@ + name@,
                input as int,
                output as int,
            ),
            final(self).error is None ==> old(self).error is None && linear == q4_at(
                old(self).index.table(),
                prefix@ + name@,
                input,
                output,
            ),
    {
        let ghost more = q4_needs(prefix@ + name@, input as int, output as int);
        proof {
            first_fault_of_both(self.index.table(), self.needs@, more);
        }
        self.needs = Ghost(self.needs@ + more);
        let nowhere = TensorRef { shard: 0, offset: 0 };
        let blank = Q4Linear { weight: nowhere, scales: nowhere, biases: nowhere, input, output };
        if self.error.is_some() {
            return blank;
        }
        match q4(self.index, join(prefix, name).as_str(), input, output) {
            Ok(linear) => linear,
            Err(message) => {
                self.error = Some(message);
                blank
            },
        }
    }

    fn bf16(&mut self, prefix: &str, name: &str, shape: &[u64]) -> (tensor: TensorRef)
        requires
            old(self).sound(),
        ensures
            final(self).sound(),
            final(self).index == old(self).index,
            final(self).needs@ == old(self).needs@ + bf16_need(prefix@ + name@, shape@),
            final(self).error is None ==> old(self).error is None && tensor == tensor_at(
                old(self).index.table(),
                prefix@ + name@,
            ),
    {
        let ghost more = bf16_need(prefix@ + name@, shape@);
        proof {
            first_fault_of_both(self.index.table(), self.needs@, more);
        }
        self.needs = Ghost(self.needs@ + more);
        let nowhere = TensorRef { shard: 0, offset: 0 };
        if self.error.is_some() {
            return nowhere;
        }
        match bf16(self.index, join(prefix, name).as_str(), shape) {
            Ok(tensor) => tensor,
            Err(message) => {
                self.error = Some(message);
                nowhere
            },
        }
    }

    fn mlp(&mut self, prefix: &str) -> (mlp: MlpWeights)
        requires
            old(self).sound(),
        ensures
            final(self).sound(),
            final(self).index == old(self).index,
            final(self).needs@ == old(self).needs@ + mlp_needs(prefix@),
            final(self).error is None ==> old(self).error is None && mlp == mlp_at(
                old(self).index.table(),
                prefix@,
            ),
    {
        let gate = self.q4(prefix, ".mlp.gate_proj", HIDDEN, INTERMEDIATE);
        let up = self.q4(prefix, ".mlp.up_proj", HIDDEN, INTERMEDIATE);
        let down = self.q4(prefix, ".mlp.down_proj", INTERMEDIATE, HIDDEN);
        assert(self.needs@ =~= old(self).needs@ + mlp_needs(prefix@));
        MlpWeights { gate, up, down }
    }

    fn common(&mut self, prefix: &str) -> (common: CommonLayer)
        requires
            old(self).sound(),
        ensures
            final(self).sound(),
            final(self).index == old(self).index,
            final(self).needs@ == old(self).needs@ + common_needs(prefix@),
            final(self).error is None ==> old(self).error is None && common == common_at(
                old(self).index.table(),
                prefix@,
            ),
    {
        let wide: Vec<u64> = vec![HIDDEN as u64];
        assert(wide@ =~= vector(HIDDEN));
        let input_norm = self.bf16(prefix, ".input_layernorm.weight", &wide);
        let post_norm = self.bf16(prefix, ".post_attention_layernorm.weight", &wide);
        let mlp = self.mlp(prefix);
        assert(self.needs@ =~= old(self).needs@ + common_needs(prefix@));
        CommonLayer { input_norm, post_norm, mlp }
    }

    fn gdn(&mut self, p: &str, state_index: usize) -> (gdn: GdnWeights)
        requires
            old(self).sound(),
        ensures
            final(self).sound(),
            final(self).index == old(self).index,
            final(self).needs@ == old(self).needs@ + gdn_needs(p@),
            final(self).error is None ==> old(self).error is None && gdn == gdn_at(
                old(self).index.table(),
                p@,
                state_index,
            ),
    {
        let heads: Vec<u64> = vec![GDN_VALUE_HEADS as u64];
        let head: Vec<u64> = vec![GDN_HEAD_DIM as u64];
        let conv: Vec<u64> = vec![GDN_CONV_DIM as u64, 4, 1];
        assert(heads@ =~= vector(GDN_VALUE_HEADS));
        assert(head@ =~= vector(GDN_HEAD_DIM));
        assert(conv@ =~= seq![GDN_CONV_DIM as u64, 4, 1]);
        let qkv = self.q4(p, ".in_proj_qkv", HIDDEN, GDN_CONV_DIM);
        let z = self.q4(p, ".in_proj_z", HIDDEN, GDN_VALUE_DIM);
        let a = self.q4(p, ".in_proj_a", HIDDEN, GDN_VALUE_HEADS);
        let b = self.q4(p, ".in_proj_b", HIDDEN, GDN_VALUE_HEADS);
        let output = self.q4(p, ".out_proj", GDN_VALUE_DIM, HIDDEN);
        let conv_weight = self.bf16(p, ".conv1d.weight", &conv);
        let a_log = self.bf16(p, ".A_log", &heads);
        let dt_bias = self.bf16(p, ".dt_bias", &heads);
        let norm = self.bf16(p, ".norm.weight", &head);
        assert(self.needs@ =~= old(self).needs@ + gdn_needs(p@));
        GdnWeights { qkv, z, a, b, output, conv_weight, a_log, dt_bias, norm, state_index }
    }

    fn attention(&mut self, p: &str, cache_index: usize) -> (attention: AttentionWeights)
        requires
            old(self).sound(),
        ensures
            final(self).sound(),
            final(self).index == old(self).index,
            final(self).needs@ == old(self).needs@ + attention_needs(p@),
            final(self).error is None ==> old(self).error is None && attention == attention_at(
                old(self).index.table(),
                p@,
                cache_index,
            ),
    {
        let head: Vec<u64> = vec![ATTN_HEAD_DIM as u64];
        assert(head@ =~= vector(ATTN_HEAD_DIM));
        let q = self.q4(p, ".q_proj", HIDDEN, ATTN_Q_OUT);
        let k = self.q4(p, ".k_proj", HIDDEN, ATTN_KV_OUT);
        let v = self.q4(p, ".v_proj", HIDDEN, ATTN_KV_OUT);
        let output = self.q4(p, ".o_proj", ATTN_OUT, HIDDEN);
        let q_norm = self.bf16(p, ".q_norm.weight", &head);
        let k_norm = self.bf16(p, ".k_norm.weight", &head);
        assert(self.needs@ =~= old(self).needs@ + attention_needs(p@));
        AttentionWeights { q, k, v, output, q_norm, k_norm, cache_index }
    }
}

/// A fault among the first layers is the first of all of them.
proof fn early_fault(table: SlotTable, n: int, m: int)
    requires
        0 <= n <= m,
        first_fault(table, layers_needs(n)) is Some,
    ensures
        first_fault(table, layers_needs(m)) == first_fault(table, layers_needs(n)),
    decreases m,
{
    if n < m {
        early_fault(table, n, m - 1);
        first_fault_of_both(table, layers_needs(m - 1), layer_needs(m - 1));
    }
}

/// The weights of all layers, or what is wrong with the first tensor with which something
/// is.
pub fn build_layers(index: &WeightIndex) -> (layers: Result<Vec<LayerWeights>, String>)
    ensures
        match layers {
            Ok(layers) => {
                &&& first_fault(index.table(), layers_needs(LAYERS as int)) is None
                &&& layers@ == Seq::new(LAYERS as nat, |i: int| layer_at(index.table(), i))
            },
            Err(message) => first_fault(index.table(), layers_needs(LAYERS as int)) == Some(
                message@,
            ),
        },
{
    let mut finder = Finder::new(index);
    let mut layers: Vec<LayerWeights> = Vec::new();
    let mut gdn_index: usize = 0;
    let mut attention_index: usize = 0;
    let mut layer: usize = 0;
    assert(finder.needs@ =~= layers_needs(0));
    while layer < LAYERS
        invariant
            layer <= LAYERS,
            finder.sound(),
            finder.index == index,
            finder.needs@ == layers_needs(layer as int),
            finder.error is None,
            attention_index == layer as int / 4,
            gdn_index == layer - layer as int / 4,
            layers@.len() == layer,
            forall|k: int|
                0 <= k < layer ==> #[trigger] layers@[k] == layer_at(index.table(), k),
        decreases LAYERS - layer,
    {
        let prefix = join("language_model.model.layers.", decimal_of(layer as u64).as_str());
        let common = finder.common(prefix.as_str());
        let branch = match layer_kind(layer) {
            LayerKind::Gdn => {
                let p = join(prefix.as_str(), ".linear_attn");
                let weights = finder.gdn(p.as_str(), gdn_index);
                gdn_index += 1;
                BranchWeights::Gdn(weights)
            },
            LayerKind::Attention => {
                let p = join(prefix.as_str(), ".self_attn");
                let weights = finder.attention(p.as_str(), attention_index);
                attention_index += 1;
                BranchWeights::Attention(weights)
            },
        };
        assert(finder.needs@ =~= layers_needs(layer as int) + layer_needs(layer as int));
        assert(finder.needs@ == layers_needs(layer + 1));
        if let Some(message) = finder.error {
            proof {
                early_fault(index.table(), layer + 1, LAYERS as int);
            }
            return Err(message);
        }
        layers.push(LayerWeights { common, branch });
        layer += 1;
    }
    assert(layers@ =~= Seq::new(LAYERS as nat, |i: int| layer_at(index.table(), i)));
    if gdn_index != GDN_LAYERS || attention_index != ATTN_LAYERS {
        return Err("invalid hybrid layer schedule".to_owned());
    }
    Ok(layers)
}

/// The weights of the drafter, or what is wrong with the first tensor with which something
/// is.
pub fn build_mtp_weights(index: &WeightIndex) -> (weights: Result<MtpWeights, String>)
    ensures
        match weights {
            Ok(weights) => {
                &&& first_fault(index.table(), mtp_needs()) is None
                &&& weights == mtp_at(index.table())
            },
            Err(message) => first_fault(index.table(), mtp_needs()) == Some(message@),
        },
{
    let wide: Vec<u64> = vec![HIDDEN as u64];
    assert(wide@ =~= vector(HIDDEN));
    let mut finder = Finder::new(index);
    let attention_prefix = join("layers.0", ".self_attn");
    proof {
        reveal_strlit("");
        assert("pre_fc_norm_embedding.weight"@ + ""@ =~= "pre_fc_norm_embedding.weight"@);
        assert("pre_fc_norm_hidden.weight"@ + ""@ =~= "pre_fc_norm_hidden.weight"@);
        assert("fc"@ + ""@ =~= "fc"@);
        assert("norm.weight"@ + ""@ =~= "norm.weight"@);
    }
    let pre_fc_norm_embedding = finder.bf16("pre_fc_norm_embedding.weight", "", &wide);
    let pre_fc_norm_hidden = finder.bf16("pre_fc_norm_hidden.weight", "", &wide);
    let fc = finder.q4("fc", "", HIDDEN * 2, HIDDEN);
    let input_norm = finder.bf16("layers.0", ".input_layernorm.weight", &wide);
    let attention = finder.attention(attention_prefix.as_str(), 0);
    let post_norm = finder.bf16("layers.0", ".post_attention_layernorm.weight", &wide);
    let mlp = finder.mlp("layers.0");
    let final_norm = finder.bf16("norm.weight", "", &wide);
    assert(finder.needs@ =~= mtp_needs());
    if let Some(message) = finder.error {
        return Err(message);
    }
    Ok(
        MtpWeights {
            pre_fc_norm_embedding,
            pre_fc_norm_hidden,
            fc,
            input_norm,
            attention,
            post_norm,
            mlp,
            final_norm,
        },
    )
}

} // verus!
