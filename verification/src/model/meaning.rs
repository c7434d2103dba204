//! What runs of kernels come to. Each kernel is taken as a function of what it reads; what
//! the functions are is left open, so that what is said here holds whatever they are.
//!
//! A cell stands for the tensor that starts at an address: all rows of it, as one value.

use vstd::prelude::*;

use crate::model::command;
use crate::model::command::{Arg, DispatchView, Kernel};

pub mod checkpoint;
pub mod drafter;
pub mod ends;
pub mod names;
pub mod network;
pub mod parts;
pub mod passes;
pub mod places;
pub mod room;
pub mod rows;
pub mod stack;
pub mod stages;
pub mod steps;
pub mod target;

verus! {

/// What the tensors in memory are, each under the address at which it starts.
pub type Cells<T> = Map<Arg, T>;

/// The functions that the kernels compute.
#[verifier::reject_recursive_types(T)]
pub struct Kernels<T> {
    /// The embeddings of tokens: tokens, then the weights, scales and biases of the table.
    pub embed: spec_fn(T, T, T, T) -> T,
    /// The root mean square norm of rows of the given width: rows, scale, width and epsilon.
    pub norm: spec_fn(T, T, u32, u32) -> T,
    /// A linear map: rows, weights, scales, biases, and how many numbers go in and come out.
    pub linear: spec_fn(T, T, T, T, u32, u32) -> T,
    /// Rows of which each is a row of the first followed by a row of the second.
    pub beside: spec_fn(T, T) -> T,
    /// The sum of a hidden state and what is added to it.
    pub sum: spec_fn(T, T) -> T,
    /// The activation of the first, times the second.
    pub activate: spec_fn(T, T) -> T,
    /// Numbers cut to half their size.
    pub narrow: spec_fn(T) -> T,
    /// The second with so many bytes of the first at its front, and the first with so many
    /// zeros at its front.
    pub copy: spec_fn(T, T, Arg) -> T,
    pub clear: spec_fn(T, Arg) -> T,
    /// The convolution over projections and the ones before them, whole and as the normed
    /// queries and keys: projections, weight, history and dimensions; then the scales.
    pub convolve: spec_fn(T, T, T, Arg, Arg) -> T,
    pub conv_query: spec_fn(T, T, T, Arg, Arg, Arg) -> T,
    pub conv_key: spec_fn(T, T, T, Arg, Arg, Arg) -> T,
    /// How much of the new is written into the state.
    pub write_gate: spec_fn(T) -> T,
    /// How much of the state stays: the projection, the logarithm of the rate and the bias.
    pub decay: spec_fn(T, T, T) -> T,
    /// The history behind some projections: the history before them, the projections, and
    /// how many rows they are; and all the histories behind each of them.
    pub remember: spec_fn(T, T, Arg) -> T,
    pub histories: spec_fn(T, T, Arg) -> T,
    /// What the recurrence gives, the state behind it, and the states behind each row.
    pub recur: spec_fn(Recurrence<T>) -> T,
    pub learn: spec_fn(Recurrence<T>) -> T,
    pub states: spec_fn(Recurrence<T>) -> T,
    /// The normed output of the recurrence, gated: output, gate, scale and epsilon.
    pub gate_recurrence: spec_fn(T, T, T, u32) -> T,
    /// The normed and rotated queries of a projection: projection, scale, the position of
    /// the first row and epsilon; and what gates them.
    pub query: spec_fn(T, T, u32, u32) -> T,
    pub query_gate: spec_fn(T) -> T,
    /// A cache with some rows of normed and rotated keys, or of values, in it.
    pub store_keys: spec_fn(T, T, T, Span) -> T,
    pub store_values: spec_fn(T, T, Span) -> T,
    /// Attention: queries, keys and values.
    pub attend: spec_fn(T, T, T, Span) -> T,
    /// The output of attention, gated.
    pub gate_attention: spec_fn(T, T) -> T,
    /// The largest logits of parts of the vocabulary, and which they are.
    pub largest: spec_fn(T) -> T,
    pub largest_at: spec_fn(T) -> T,
}

/// What a recurrence reads.
pub struct Recurrence<T> {
    pub input: T,
    pub query: T,
    pub key: T,
    pub write_gate: T,
    pub decay: T,
    pub state: T,
    pub dims: Arg,
    pub rows: Arg,
}

/// Which positions of a cache some rows are: how many come before the first of them, how
/// many they are, and how many the cache has room for.
pub struct Span {
    pub before: int,
    pub rows: int,
    pub capacity: int,
}

/// A word of a constant.
pub open spec fn word(arg: Arg, i: int) -> u32 {
    command::constant_words(arg)->0[i]
}

/// The address so many bytes behind another.
pub open spec fn behind(arg: Arg, bytes: int) -> Arg {
    match arg {
        Arg::Buffer { buffer, offset } => Arg::Buffer { buffer, offset: (offset + bytes) as u64 },
        _ => arg,
    }
}

/// The rows that a linear map reads from an address on. Rows as wide as two hidden states
/// are one hidden state followed by another, of two bytes a number.
pub open spec fn rows_at<T>(k: Kernels<T>, m: Cells<T>, arg: Arg, width: u32) -> T {
    if width == 10_240 {
        (k.beside)(m[arg], m[behind(arg, 10_240)])
    } else {
        m[arg]
    }
}

/// What a linear map gives whose weights, scales and biases are at argument places one
/// behind the other.
pub open spec fn product<T>(
    k: Kernels<T>,
    m: Cells<T>,
    args: Seq<Arg>,
    place: int,
    input: u32,
    output: u32,
) -> T {
    (k.linear)(
        rows_at(k, m, args[0], input),
        m[args[place]],
        m[args[place + 1]],
        m[args[place + 2]],
        input,
        output,
    )
}

/// How many rows a kernel that works on a cache takes.
pub open spec fn cached_rows(d: DispatchView, place: int) -> int {
    match d.kernel {
        Kernel::AttnStoreBlock3 | Kernel::AttnSdpaBlock3 => 3,
        Kernel::AttnStorePrefill | Kernel::AttnSdpaPrefill => word(d.args[place], 0) as int,
        _ => 1,
    }
}

/// What a run of a recurrence reads.
pub open spec fn recurrence_of<T>(m: Cells<T>, args: Seq<Arg>) -> Recurrence<T> {
    Recurrence {
        input: m[args[0]],
        query: m[args[1]],
        key: m[args[2]],
        write_gate: m[args[3]],
        decay: m[args[4]],
        state: m[args[5]],
        dims: args[7],
        rows: args[8],
    }
}

/// What the tensors are after a run of a kernel.
#[verifier::opaque]
pub open spec fn step<T>(k: Kernels<T>, m: Cells<T>, d: DispatchView) -> Cells<T> {
    let args = d.args;
    match d.kernel {
        Kernel::Qmv | Kernel::QmvWide3 | Kernel::Q4Gemm => m.insert(
            args[4],
            product(k, m, args, 1, word(args[5], 1), word(args[5], 0)),
        ),
        Kernel::QmvFused2 | Kernel::QmvFused2Wide3 => {
            let input = word(args[9], 2);
            m.insert(args[4], product(k, m, args, 1, input, word(args[9], 0))).insert(
                args[8],
                product(k, m, args, 5, input, word(args[9], 1)),
            )
        },
        Kernel::QmvFused3 | Kernel::QmvFused3Wide3 => {
            let input = word(args[13], 3);
            m.insert(args[4], product(k, m, args, 1, input, word(args[13], 0))).insert(
                args[8],
                product(k, m, args, 5, input, word(args[13], 1)),
            ).insert(args[12], product(k, m, args, 9, input, word(args[13], 2)))
        },
        Kernel::QmvFused4 | Kernel::QmvFused4Wide3 => {
            let input = word(args[17], 4);
            m.insert(args[4], product(k, m, args, 1, input, word(args[17], 0))).insert(
                args[8],
                product(k, m, args, 5, input, word(args[17], 1)),
            ).insert(args[12], product(k, m, args, 9, input, word(args[17], 2))).insert(
                args[16],
                product(k, m, args, 13, input, word(args[17], 3)),
            )
        },
        Kernel::Embed => m.insert(
            args[4],
            (k.embed)(m[args[0]], m[args[1]], m[args[2]], m[args[3]]),
        ),
        Kernel::Rms => m.insert(
            args[2],
            (k.norm)(m[args[0]], m[args[1]], word(args[3], 0), word(args[4], 0)),
        ),
        Kernel::RmsStride => m.insert(
            behind(args[2], 2 * word(args[5], 1)),
            (k.norm)(m[args[0]], m[args[1]], word(args[3], 0), word(args[4], 0)),
        ),
        Kernel::Residual => m.insert(args[2], (k.sum)(m[args[0]], m[args[1]])),
        Kernel::Silu => m.insert(args[2], (k.activate)(m[args[0]], m[args[1]])),
        Kernel::CastBf16 => m.insert(args[1], (k.narrow)(m[args[0]])),
        Kernel::CopyBytes => m.insert(args[1], (k.copy)(m[args[0]], m[args[1]], args[2])),
        Kernel::GdnConv => {
            let (p, w, h) = (m[args[0]], m[args[3]], m[args[4]]);
            let (dims, scales, rows) = (args[12], args[13], args[14]);
            m.insert(args[7], (k.convolve)(p, w, h, dims, rows)).insert(
                args[8],
                (k.conv_query)(p, w, h, dims, scales, rows),
            ).insert(args[9], (k.conv_key)(p, w, h, dims, scales, rows)).insert(
                args[10],
                (k.write_gate)(m[args[1]]),
            ).insert(args[11], (k.decay)(m[args[2]], m[args[5]], m[args[6]]))
        },
        Kernel::GdnUpdateConv => {
            let behind = m.insert(args[1], (k.remember)(m[args[1]], m[args[0]], args[3]));
            if word(args[5], 0) == 0 {
                behind
            } else {
                behind.insert(args[4], (k.histories)(m[args[1]], m[args[0]], args[3]))
            }
        },
        Kernel::GdnRecurrence => {
            let read = recurrence_of(m, args);
            let behind = m.insert(args[6], (k.recur)(read)).insert(args[5], (k.learn)(read));
            if word(args[10], 0) == 0 {
                behind
            } else {
                behind.insert(args[9], (k.states)(read))
            }
        },
        Kernel::GdnGate => m.insert(
            args[3],
            (k.gate_recurrence)(m[args[0]], m[args[1]], m[args[2]], word(args[5], 0)),
        ),
        Kernel::AttnQ | Kernel::AttnQBlock3 | Kernel::AttnQPrefill => m.insert(
            args[2],
            (k.query)(m[args[0]], m[args[1]], word(args[4], 0), word(args[5], 0)),
        ).insert(args[3], (k.query_gate)(m[args[0]])),
        Kernel::AttnStore | Kernel::AttnStoreBlock3 | Kernel::AttnStorePrefill => {
            let span = Span {
                before: word(args[5], 0) as int,
                rows: cached_rows(d, 8),
                capacity: word(args[6], 0) as int,
            };
            m.insert(args[3], (k.store_keys)(m[args[3]], m[args[0]], m[args[2]], span)).insert(
                args[4],
                (k.store_values)(m[args[4]], m[args[1]], span),
            )
        },
        Kernel::AttnSdpa | Kernel::AttnSdpaBlock3 | Kernel::AttnSdpaPrefill => {
            let span = Span {
                before: if d.kernel is AttnSdpa {
                    word(args[4], 0) - 1
                } else {
                    word(args[4], 0) as int
                },
                rows: cached_rows(d, 6),
                capacity: word(args[5], 0) as int,
            };
            m.insert(args[3], (k.attend)(m[args[0]], m[args[1]], m[args[2]], span))
        },
        Kernel::AttnGate => m.insert(args[2], (k.gate_attention)(m[args[0]], m[args[1]])),
        Kernel::Argmax => m.insert(args[1], (k.largest)(m[args[0]])).insert(
            args[2],
            (k.largest_at)(m[args[0]]),
        ),
        Kernel::Clear => m.insert(args[0], (k.clear)(m[args[0]], args[1])),
    }
}

/// What the tensors are after some runs, one after the other.
pub open spec fn run<T>(k: Kernels<T>, m: Cells<T>, plan: Seq<DispatchView>) -> Cells<T>
    decreases plan.len(),
{
    if plan.len() == 0 {
        m
    } else {
        step(k, run(k, m, plan.drop_last()), plan.last())
    }
}

/// Runs of two lists are those of the first, and then those of the second.
pub proof fn run_of_both<T>(
    k: Kernels<T>,
    m: Cells<T>,
    a: Seq<DispatchView>,
    b: Seq<DispatchView>,
)
    ensures
        run(k, m, a + b) == run(k, run(k, m, a), b),
    decreases b.len(),
{
    if b.len() == 0 {
        assert(a + b =~= a);
    } else {
        run_of_both(k, m, a, b.drop_last());
        assert((a + b).drop_last() =~= a + b.drop_last());
    }
}

/// A run of one kernel.
pub proof fn run_of_one<T>(k: Kernels<T>, m: Cells<T>, d: DispatchView)
    ensures
        run(k, m, seq![d]) == step(k, m, d),
{
    reveal_with_fuel(run, 2);
    assert(seq![d].drop_last() =~= Seq::empty());
}

/// Runs of a list are those of its front, and then the last one.
pub proof fn run_of_front<T>(k: Kernels<T>, m: Cells<T>, plan: Seq<DispatchView>, i: int)
    requires
        0 <= i < plan.len(),
    ensures
        run(k, m, plan.take(i + 1)) == step(k, run(k, m, plan.take(i)), plan[i]),
{
    assert(plan.take(i + 1).drop_last() =~= plan.take(i));
}

} // verus!
