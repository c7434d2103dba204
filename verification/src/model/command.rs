//! What the GPU is asked to do: kernels, what they are run on, and over how many threads.

use vstd::prelude::*;

verus! {

/// The extent of a grid or of a thread group.
#[derive(Debug, Clone, Copy, PartialEq, Eq, Structural)]
pub struct MTLSize {
    pub width: u64,
    pub height: u64,
    pub depth: u64,
}

/// The kernels, each an entry point of a shader library.
#[derive(Debug, Clone, Copy, PartialEq, Eq, Structural)]
pub enum Kernel {
    Qmv,
    QmvFused2,
    QmvFused3,
    QmvFused4,
    QmvFused2Wide3,
    QmvFused3Wide3,
    QmvFused4Wide3,
    QmvWide3,
    Q4Gemm,
    Embed,
    Rms,
    Residual,
    Clear,
    CopyBytes,
    CastBf16,
    RmsStride,
    Silu,
    GdnConv,
    GdnUpdateConv,
    GdnRecurrence,
    GdnGate,
    AttnQ,
    AttnStore,
    AttnSdpa,
    AttnGate,
    AttnQBlock3,
    AttnStoreBlock3,
    AttnSdpaBlock3,
    AttnQPrefill,
    AttnStorePrefill,
    AttnSdpaPrefill,
    Argmax,
}

/// The shader libraries.
#[derive(Debug, Clone, Copy, PartialEq, Eq, Structural)]
pub enum Library {
    AffineU4,
    Embed,
    Norm,
    Mlp,
    Gdn,
    Attention,
}

/// The library that a kernel is in.
pub open spec fn library_of(kernel: Kernel) -> Library {
    match kernel {
        Kernel::Qmv => Library::AffineU4,
        Kernel::QmvFused2 => Library::AffineU4,
        Kernel::QmvFused3 => Library::AffineU4,
        Kernel::QmvFused4 => Library::AffineU4,
        Kernel::QmvFused2Wide3 => Library::AffineU4,
        Kernel::QmvFused3Wide3 => Library::AffineU4,
        Kernel::QmvFused4Wide3 => Library::AffineU4,
        Kernel::QmvWide3 => Library::AffineU4,
        Kernel::Q4Gemm => Library::AffineU4,
        Kernel::Embed => Library::Embed,
        Kernel::Argmax => Library::Embed,
        Kernel::Rms => Library::Norm,
        Kernel::Residual => Library::Norm,
        Kernel::Clear => Library::Norm,
        Kernel::CopyBytes => Library::Norm,
        Kernel::CastBf16 => Library::Norm,
        Kernel::RmsStride => Library::Norm,
        Kernel::Silu => Library::Mlp,
        Kernel::GdnConv => Library::Gdn,
        Kernel::GdnUpdateConv => Library::Gdn,
        Kernel::GdnRecurrence => Library::Gdn,
        Kernel::GdnGate => Library::Gdn,
        _ => Library::Attention,
    }
}

/// The name of a kernel's entry point.
pub open spec fn entry_point(kernel: Kernel) -> Seq<char> {
    match kernel {
        Kernel::Qmv => "q4_qmv_fast"@,
        Kernel::QmvFused2 => "q4_qmv_fused2"@,
        Kernel::QmvFused3 => "q4_qmv_fused3"@,
        Kernel::QmvFused4 => "q4_qmv_fused4"@,
        Kernel::QmvFused2Wide3 => "q4_qmv_fused2_wide3"@,
        Kernel::QmvFused3Wide3 => "q4_qmv_fused3_wide3"@,
        Kernel::QmvFused4Wide3 => "q4_qmv_fused4_wide3"@,
        Kernel::QmvWide3 => "q4_qmv_wide3"@,
        Kernel::Q4Gemm => "q4_gemm_nax_coop"@,
        Kernel::Embed => "affine_u4_lookup"@,
        Kernel::Rms => "rms_norm_rows"@,
        Kernel::Residual => "residual_add"@,
        Kernel::Clear => "clear_bytes"@,
        Kernel::CopyBytes => "copy_bytes"@,
        Kernel::CastBf16 => "f32_to_bf16"@,
        Kernel::RmsStride => "rms_norm_rows_stride"@,
        Kernel::Silu => "silu_mul_up"@,
        Kernel::GdnConv => "gdn_conv_norm_gates_bf16_weights"@,
        Kernel::GdnUpdateConv => "gdn_update_conv_state"@,
        Kernel::GdnRecurrence => "gdn_recurrence"@,
        Kernel::GdnGate => "gdn_rms_gate_bf16_weight"@,
        Kernel::AttnQ => "q_norm_gate_rope_decode"@,
        Kernel::AttnStore => "kv_cache_store_decode"@,
        Kernel::AttnSdpa => "sdpa_decode_streaming"@,
        Kernel::AttnGate => "gate_out_bf16"@,
        Kernel::AttnQBlock3 => "q_norm_gate_rope_block3"@,
        Kernel::AttnStoreBlock3 => "kv_cache_store_block3"@,
        Kernel::AttnSdpaBlock3 => "sdpa_decode_streaming_block3"@,
        Kernel::AttnQPrefill => "q_norm_gate_rope_prefill"@,
        Kernel::AttnStorePrefill => "kv_cache_store_prefill"@,
        Kernel::AttnSdpaPrefill => "sdpa_decode_prefill"@,
        Kernel::Argmax => "argmax_f32_partial"@,
    }
}

impl Kernel {
    /// The library that the kernel is in, and the name of its entry point.
    pub fn source(self) -> (source: (Library, &'static str))
        ensures
            source.0 == library_of(self),
            source.1@ == entry_point(self),
    {
        match self {
            Kernel::Qmv => (Library::AffineU4, "q4_qmv_fast"),
            Kernel::QmvFused2 => (Library::AffineU4, "q4_qmv_fused2"),
            Kernel::QmvFused3 => (Library::AffineU4, "q4_qmv_fused3"),
            Kernel::QmvFused4 => (Library::AffineU4, "q4_qmv_fused4"),
            Kernel::QmvFused2Wide3 => (Library::AffineU4, "q4_qmv_fused2_wide3"),
            Kernel::QmvFused3Wide3 => (Library::AffineU4, "q4_qmv_fused3_wide3"),
            Kernel::QmvFused4Wide3 => (Library::AffineU4, "q4_qmv_fused4_wide3"),
            Kernel::QmvWide3 => (Library::AffineU4, "q4_qmv_wide3"),
            Kernel::Q4Gemm => (Library::AffineU4, "q4_gemm_nax_coop"),
            Kernel::Embed => (Library::Embed, "affine_u4_lookup"),
            Kernel::Rms => (Library::Norm, "rms_norm_rows"),
            Kernel::Residual => (Library::Norm, "residual_add"),
            Kernel::Clear => (Library::Norm, "clear_bytes"),
            Kernel::CopyBytes => (Library::Norm, "copy_bytes"),
            Kernel::CastBf16 => (Library::Norm, "f32_to_bf16"),
            Kernel::RmsStride => (Library::Norm, "rms_norm_rows_stride"),
            Kernel::Silu => (Library::Mlp, "silu_mul_up"),
            Kernel::GdnConv => (Library::Gdn, "gdn_conv_norm_gates_bf16_weights"),
            Kernel::GdnUpdateConv => (Library::Gdn, "gdn_update_conv_state"),
            Kernel::GdnRecurrence => (Library::Gdn, "gdn_recurrence"),
            Kernel::GdnGate => (Library::Gdn, "gdn_rms_gate_bf16_weight"),
            Kernel::AttnQ => (Library::Attention, "q_norm_gate_rope_decode"),
            Kernel::AttnStore => (Library::Attention, "kv_cache_store_decode"),
            Kernel::AttnSdpa => (Library::Attention, "sdpa_decode_streaming"),
            Kernel::AttnGate => (Library::Attention, "gate_out_bf16"),
            Kernel::AttnQBlock3 => (Library::Attention, "q_norm_gate_rope_block3"),
            Kernel::AttnStoreBlock3 => (Library::Attention, "kv_cache_store_block3"),
            Kernel::AttnSdpaBlock3 => (Library::Attention, "sdpa_decode_streaming_block3"),
            Kernel::AttnQPrefill => (Library::Attention, "q_norm_gate_rope_prefill"),
            Kernel::AttnStorePrefill => (Library::Attention, "kv_cache_store_prefill"),
            Kernel::AttnSdpaPrefill => (Library::Attention, "sdpa_decode_prefill"),
            Kernel::Argmax => (Library::Embed, "argmax_f32_partial"),
        }
    }
}

/// Whose weights they are.
#[derive(Debug, Clone, Copy, PartialEq, Eq, Structural)]
pub enum Owner {
    Target,
    Mtp,
}

/// The buffers that kernels run on.
#[derive(Debug, Clone, Copy, PartialEq, Eq, Structural)]
pub enum BufferId {
    /// A shard of weights.
    Shard(Owner, usize),
    /// The scratch memory of decoding.
    Scratch,
    /// The scratch memory of prefilling.
    PrefillScratch,
    /// The recurrent state, and the history of its convolutions.
    GdnState,
    ConvState,
    /// The same after each row of a batch that is being verified.
    VerifyGdnSlots,
    VerifyConvSlots,
    /// The same in a saved state.
    SavedGdnState,
    SavedConvState,
    KeyCache,
    ValueCache,
}

/// What a kernel is given at one of its argument places.
#[derive(Debug, Clone, Copy, PartialEq, Eq, Structural)]
pub enum Arg {
    /// A buffer, from a byte offset on.
    Buffer { buffer: BufferId, offset: u64 },
    /// Constants, in little-endian order.
    Word(u32),
    Words2(u32, u32),
    Words3(u32, u32, u32),
    Words4(u32, u32, u32, u32),
    Words5(u32, u32, u32, u32, u32),
    Long(u64),
}

/// How the threads of a dispatch are counted.
#[derive(Debug, Clone, Copy, PartialEq, Eq, Structural)]
pub enum Extent {
    /// So many threads, in groups of the given extent.
    Threads { grid: MTLSize, group: MTLSize },
    /// So many groups of the given extent.
    Groups { grid: MTLSize, group: MTLSize },
}

/// One run of a kernel: its arguments go to the argument places in order.
#[derive(Debug)]
pub struct Dispatch {
    pub kernel: Kernel,
    pub args: Vec<Arg>,
    pub extent: Extent,
}

/// A run of a kernel as a value.
#[verifier::ext_equal]
pub struct DispatchView {
    pub kernel: Kernel,
    pub args: Seq<Arg>,
    pub extent: Extent,
}

impl View for Dispatch {
    type V = DispatchView;

    open spec fn view(&self) -> DispatchView {
        DispatchView { kernel: self.kernel, args: self.args@, extent: self.extent }
    }
}

/// A list of runs as values.
pub open spec fn plan_view(plan: Seq<Dispatch>) -> Seq<DispatchView> {
    Seq::new(plan.len(), |i: int| plan[i]@)
}

/// A flat extent.
pub open spec fn flat(width: int, height: int) -> MTLSize {
    MTLSize { width: width as u64, height: height as u64, depth: 1 }
}

/// So many threads, in groups of `group`.
pub open spec fn threads(width: int, height: int, group: int) -> Extent {
    Extent::Threads { grid: flat(width, height), group: flat(group, 1) }
}

/// So many groups of `group` threads.
pub open spec fn groups(width: int, height: int, group: int) -> Extent {
    Extent::Groups { grid: flat(width, height), group: flat(group, 1) }
}

/// So many threads, in groups of `group`.
pub fn in_threads(width: u64, height: u64, group: u64) -> (extent: Extent)
    ensures
        extent == threads(width as int, height as int, group as int),
{
    Extent::Threads {
        grid: MTLSize { width, height, depth: 1 },
        group: MTLSize { width: group, height: 1, depth: 1 },
    }
}

/// So many groups of `group` threads.
pub fn in_groups(width: u64, height: u64, group: u64) -> (extent: Extent)
    ensures
        extent == groups(width as int, height as int, group as int),
{
    Extent::Groups {
        grid: MTLSize { width, height, depth: 1 },
        group: MTLSize { width: group, height: 1, depth: 1 },
    }
}

/// A buffer from an offset on.
pub open spec fn at(buffer: BufferId, offset: int) -> Arg {
    Arg::Buffer { buffer, offset: offset as u64 }
}

/// A buffer from an offset on.
pub fn buffer_at(buffer: BufferId, offset: usize) -> (arg: Arg)
    ensures
        arg == at(buffer, offset as int),
{
    Arg::Buffer { buffer, offset: offset as u64 }
}

/// Appends a run to a list.
pub fn push_dispatch(plan: &mut Vec<Dispatch>, kernel: Kernel, args: Vec<Arg>, extent: Extent)
    ensures
        plan_view(final(plan)@) == plan_view(old(plan)@).push(
            DispatchView { kernel, args: args@, extent },
        ),
{
    plan.push(Dispatch { kernel, args, extent });
    assert(plan_view(plan@) =~= plan_view(old(plan)@).push(
        DispatchView { kernel, args: args@, extent },
    ));
}

/// The bytes of a word, the lowest first.
pub open spec fn word_bytes(word: u32) -> Seq<u8> {
    seq![
        (word % 0x100) as u8,
        (word / 0x100 % 0x100) as u8,
        (word / 0x1_0000 % 0x100) as u8,
        (word / 0x100_0000) as u8,
    ]
}

/// The bytes of some words, one word after the other.
pub open spec fn words_bytes(words: Seq<u32>) -> Seq<u8>
    decreases words.len(),
{
    if words.len() == 0 {
        Seq::empty()
    } else {
        words_bytes(words.drop_last()) + word_bytes(words.last())
    }
}

/// The bytes of some words, each with the lowest byte first.
pub fn u32_bytes(values: &[u32]) -> (bytes: Vec<u8>)
    ensures
        bytes@ == words_bytes(values@),
{
    let mut bytes: Vec<u8> = Vec::new();
    let mut i: usize = 0;
    assert(values@.take(0) =~= Seq::empty());
    while i < values.len()
        invariant
            i <= values@.len(),
            bytes@ == words_bytes(values@.take(i as int)),
        decreases values@.len() - i,
    {
        assert(values@.take(i + 1).drop_last() =~= values@.take(i as int));
        let word: u32 = values[i];
        bytes.push((word % 0x100) as u8);
        bytes.push((word / 0x100 % 0x100) as u8);
        bytes.push((word / 0x1_0000 % 0x100) as u8);
        bytes.push((word / 0x100_0000) as u8);
        i += 1;
        assert(bytes@ =~= words_bytes(values@.take(i as int)));
    }
    assert(values@.take(i as int) =~= values@);
    bytes
}

/// The words that an argument holds; `None` where it is a buffer.
pub open spec fn constant_words(arg: Arg) -> Option<Seq<u32>> {
    match arg {
        Arg::Buffer { .. } => None,
        Arg::Word(a) => Some(seq![a]),
        Arg::Words2(a, b) => Some(seq![a, b]),
        Arg::Words3(a, b, c) => Some(seq![a, b, c]),
        Arg::Words4(a, b, c, d) => Some(seq![a, b, c, d]),
        Arg::Words5(a, b, c, d, e) => Some(seq![a, b, c, d, e]),
        Arg::Long(n) => Some(seq![(n % 0x1_0000_0000) as u32, (n / 0x1_0000_0000) as u32]),
    }
}

impl Arg {
    /// The bytes of a constant, in little-endian order; `None` where the argument is a buffer.
    pub fn constant(self) -> (bytes: Option<Vec<u8>>)
        ensures
            match (bytes, constant_words(self)) {
                (Some(bytes), Some(words)) => bytes@ == words_bytes(words),
                (None, None) => true,
                _ => false,
            },
    {
        let words: Vec<u32> = match self {
            Arg::Buffer { .. } => {
                return None;
            },
            Arg::Word(a) => vec![a],
            Arg::Words2(a, b) => vec![a, b],
            Arg::Words3(a, b, c) => vec![a, b, c],
            Arg::Words4(a, b, c, d) => vec![a, b, c, d],
            Arg::Words5(a, b, c, d, e) => vec![a, b, c, d, e],
            Arg::Long(n) => vec![(n % 0x1_0000_0000) as u32, (n / 0x1_0000_0000) as u32],
        };
        assert(words@ =~= constant_words(self)->0);
        Some(u32_bytes(&words))
    }
}

} // verus!
