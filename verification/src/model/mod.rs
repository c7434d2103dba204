//! The model: its dimensions, its layers, and what the GPU runs for a token.

use vstd::prelude::*;

pub mod branch;
pub mod command;
pub mod dispatch;
pub mod layers;
pub mod layout;
pub mod meaning;
pub mod mtp;
pub mod readback;
pub mod runner;
pub mod weights;

verus! {

/// How many layers the model has.
pub const LAYERS: usize = 64;

/// The width of the hidden state.
pub const HIDDEN: usize = 5120;

/// How many tokens there are.
pub const VOCAB: usize = 248320;

/// The width of the feed-forward part of a layer.
pub const INTERMEDIATE: usize = 17_408;

/// How many layers are recurrent (GDN: gated delta net).
pub const GDN_LAYERS: usize = 48;

/// How many layers are attention layers.
pub const ATTN_LAYERS: usize = 16;

pub const GDN_KEY_HEADS: usize = 16;

pub const GDN_VALUE_HEADS: usize = 48;

pub const GDN_HEAD_DIM: usize = 128;

pub const GDN_KEY_DIM: usize = GDN_KEY_HEADS * GDN_HEAD_DIM;

pub const GDN_VALUE_DIM: usize = GDN_VALUE_HEADS * GDN_HEAD_DIM;

pub const GDN_CONV_DIM: usize = 2 * GDN_KEY_DIM + GDN_VALUE_DIM;

pub const GDN_STATE_ELEMENTS: usize = GDN_VALUE_HEADS * GDN_HEAD_DIM * GDN_HEAD_DIM;

pub const ATTN_Q_OUT: usize = 12_288;

pub const ATTN_KV_OUT: usize = 1_024;

pub const ATTN_HEADS: usize = 24;

pub const ATTN_KV_HEADS: usize = 4;

pub const ATTN_HEAD_DIM: usize = 256;

pub const ATTN_OUT: usize = ATTN_HEADS * ATTN_HEAD_DIM;

/// How many prompt tokens one fused prefill pass takes at most. The prefill scratch is
/// laid out for so many rows, and passes with fewer use the same layout.
pub const PREFILL_BATCH: usize = 64;

/// The two kinds of layers.
#[derive(Debug, Clone, Copy, PartialEq, Eq, Structural)]
pub enum LayerKind {
    Gdn,
    Attention,
}

/// Every fourth layer is an attention layer.
pub open spec fn kind_of(index: int) -> LayerKind {
    if (index + 1) % 4 == 0 {
        LayerKind::Attention
    } else {
        LayerKind::Gdn
    }
}

/// The kind of a layer: every fourth one is an attention layer.
pub fn layer_kind(index: usize) -> (kind: LayerKind)
    requires
        index < usize::MAX,
    ensures
        kind == kind_of(index as int),
{
    if (index + 1) % 4 == 0 {
        LayerKind::Attention
    } else {
        LayerKind::Gdn
    }
}

/// How many of the first `n` layers are attention layers.
pub open spec fn attention_layers(n: nat) -> nat
    decreases n,
{
    if n == 0 {
        0
    } else {
        attention_layers((n - 1) as nat) + (if kind_of(n - 1) is Attention {
            1nat
        } else {
            0nat
        })
    }
}

/// Of the first `n` layers, a quarter are attention layers.
pub proof fn attention_layers_are_a_quarter(n: nat)
    ensures
        attention_layers(n) == n / 4,
    decreases n,
{
    if n > 0 {
        attention_layers_are_a_quarter((n - 1) as nat);
    }
}

/// The schedule gives the model its sixteen attention layers and its forty-eight
/// recurrent ones.
pub proof fn layer_schedule()
    ensures
        attention_layers(LAYERS as nat) == ATTN_LAYERS,
        LAYERS - attention_layers(LAYERS as nat) == GDN_LAYERS,
{
    attention_layers_are_a_quarter(LAYERS as nat);
}

} // verus!
