//! The single runs of kernels that forward passes are made of.

use vstd::prelude::*;

use crate::model::command;
use crate::model::command::{
    buffer_at, in_groups, in_threads, push_dispatch, Arg, BufferId, Dispatch, DispatchView, Extent,
    Kernel, Owner,
};
use crate::model::layout::ARGMAX_PARTIALS;
use crate::model::{HIDDEN, INTERMEDIATE, VOCAB};

verus! {

/// Where a tensor lies: in which shard, and from which byte on.
#[derive(Debug, Clone, Copy, PartialEq, Eq, Structural)]
pub struct TensorRef {
    pub shard: usize,
    pub offset: u64,
}

/// A linear map with weights of four bits, scaled in groups.
#[derive(Debug, Clone, Copy, PartialEq, Eq, Structural)]
pub struct Q4Linear {
    pub weight: TensorRef,
    pub scales: TensorRef,
    pub biases: TensorRef,
    pub input: usize,
    pub output: usize,
}

/// The smallest number that norms add before they divide, 1e-6, as the bits of a single
/// precision number.
pub const EPS_BITS: u32 = 0x3586_37bd;

/// How many threads a row of a grid has at most.
pub const GRID_ROW: u64 = 0x4000_0000;

/// A tensor of a model's weights.
pub open spec fn weight(owner: Owner, tensor: TensorRef) -> Arg {
    Arg::Buffer { buffer: BufferId::Shard(owner, tensor.shard), offset: tensor.offset }
}

/// A tensor of a model's weights.
pub fn weight_arg(owner: Owner, tensor: TensorRef) -> (arg: Arg)
    ensures
        arg == weight(owner, tensor),
{
    Arg::Buffer { buffer: BufferId::Shard(owner, tensor.shard), offset: tensor.offset }
}

/// How many sixteens make up `n`.
pub open spec fn sixteens(n: int) -> int {
    (n + 15) / 16
}

/// How many sixteens make up `n`.
pub fn count_sixteens(n: usize) -> (count: usize)
    ensures
        count == sixteens(n as int),
{
    if n % 16 == 0 {
        n / 16
    } else {
        n / 16 + 1
    }
}

// ---------------------------------------------------------------------------
// Embedding and the largest logit
// ---------------------------------------------------------------------------

/// Looks the embeddings of `rows` tokens up.
pub open spec fn embed(
    scratch: BufferId,
    tokens: int,
    table: Q4Linear,
    output: int,
    rows: int,
) -> DispatchView {
    DispatchView {
        kernel: Kernel::Embed,
        args: seq![
            command::at(scratch, tokens),
            weight(Owner::Target, table.weight),
            weight(Owner::Target, table.scales),
            weight(Owner::Target, table.biases),
            command::at(scratch, output),
            Arg::Word(HIDDEN as u32),
        ],
        extent: command::threads(HIDDEN as int, rows, 256),
    }
}

/// Looks the embeddings of `rows` tokens up.
pub fn push_embed(
    plan: &mut Vec<Dispatch>,
    scratch: BufferId,
    tokens: usize,
    table: &Q4Linear,
    output: usize,
    rows: usize,
)
    ensures
        command::plan_view(final(plan)@) == command::plan_view(old(plan)@).push(
            embed(scratch, tokens as int, *table, output as int, rows as int),
        ),
{
    let args: Vec<Arg> = vec![
        buffer_at(scratch, tokens),
        weight_arg(Owner::Target, table.weight),
        weight_arg(Owner::Target, table.scales),
        weight_arg(Owner::Target, table.biases),
        buffer_at(scratch, output),
        Arg::Word(HIDDEN as u32),
    ];
    let ghost whole = embed(scratch, tokens as int, *table, output as int, rows as int);
    assert(args@ =~= whole.args);
    push_dispatch(plan, Kernel::Embed, args, in_threads(HIDDEN as u64, rows as u64, 256));
}

/// Looks for the largest of the logits at `input`: the partial results go to `base`.
pub open spec fn argmax(scratch: BufferId, input: int, base: int) -> DispatchView {
    DispatchView {
        kernel: Kernel::Argmax,
        args: seq![
            command::at(scratch, input),
            command::at(scratch, base),
            command::at(scratch, base + ARGMAX_PARTIALS * 4),
            Arg::Word(VOCAB as u32),
        ],
        extent: command::groups(ARGMAX_PARTIALS as int, 1, 256),
    }
}

/// Looks for the largest of the logits at `input`: the partial results go to `base`.
pub fn push_argmax(plan: &mut Vec<Dispatch>, scratch: BufferId, input: usize, base: usize)
    requires
        base + ARGMAX_PARTIALS * 4 <= usize::MAX,
    ensures
        command::plan_view(final(plan)@) == command::plan_view(old(plan)@).push(
            argmax(scratch, input as int, base as int),
        ),
{
    let args: Vec<Arg> = vec![
        buffer_at(scratch, input),
        buffer_at(scratch, base),
        buffer_at(scratch, base + ARGMAX_PARTIALS * 4),
        Arg::Word(VOCAB as u32),
    ];
    assert(args@ =~= argmax(scratch, input as int, base as int).args);
    push_dispatch(plan, Kernel::Argmax, args, in_groups(ARGMAX_PARTIALS as u64, 1, 256));
}

// ---------------------------------------------------------------------------
// Linear maps
// ---------------------------------------------------------------------------

/// A linear map of one row, or of three.
pub open spec fn qmv(
    scratch: BufferId,
    owner: Owner,
    input: int,
    linear: Q4Linear,
    output: int,
    rows: int,
) -> DispatchView {
    DispatchView {
        kernel: if rows == 3 {
            Kernel::QmvWide3
        } else {
            Kernel::Qmv
        },
        args: seq![
            command::at(scratch, input),
            weight(owner, linear.weight),
            weight(owner, linear.scales),
            weight(owner, linear.biases),
            command::at(scratch, output),
            Arg::Words2(linear.output as u32, linear.input as u32),
        ],
        extent: command::groups(sixteens(linear.output as int), 1, 128),
    }
}

/// A linear map of one row, or of three.
pub fn push_qmv(
    plan: &mut Vec<Dispatch>,
    scratch: BufferId,
    owner: Owner,
    input: usize,
    linear: &Q4Linear,
    output: usize,
    rows: usize,
)
    ensures
        command::plan_view(final(plan)@) == command::plan_view(old(plan)@).push(
            qmv(scratch, owner, input as int, *linear, output as int, rows as int),
        ),
{
    let args: Vec<Arg> = vec![
        buffer_at(scratch, input),
        weight_arg(owner, linear.weight),
        weight_arg(owner, linear.scales),
        weight_arg(owner, linear.biases),
        buffer_at(scratch, output),
        Arg::Words2(linear.output as u32, linear.input as u32),
    ];
    assert(args@ =~= qmv(
        scratch,
        owner,
        input as int,
        *linear,
        output as int,
        rows as int,
    ).args);
    let kernel = if rows == 3 {
        Kernel::QmvWide3
    } else {
        Kernel::Qmv
    };
    push_dispatch(plan, kernel, args, in_groups(count_sixteens(linear.output) as u64, 1, 128));
}

/// Several linear maps of the same input: each with where its output goes.
pub type Projections = Seq<(Q4Linear, usize)>;

/// The kernel for so many linear maps at once.
pub open spec fn fused_kernel(count: int, rows: int) -> Kernel {
    if rows == 3 {
        if count == 2 {
            Kernel::QmvFused2Wide3
        } else if count == 3 {
            Kernel::QmvFused3Wide3
        } else {
            Kernel::QmvFused4Wide3
        }
    } else {
        if count == 2 {
            Kernel::QmvFused2
        } else if count == 3 {
            Kernel::QmvFused3
        } else {
            Kernel::QmvFused4
        }
    }
}

/// The weights and outputs of several linear maps.
pub open spec fn fused_args(scratch: BufferId, owner: Owner, maps: Projections) -> Seq<Arg>
    decreases maps.len(),
{
    if maps.len() == 0 {
        Seq::empty()
    } else {
        let (linear, output) = maps.last();
        fused_args(scratch, owner, maps.drop_last()) + seq![
            weight(owner, linear.weight),
            weight(owner, linear.scales),
            weight(owner, linear.biases),
            command::at(scratch, output as int),
        ]
    }
}

/// The widths of several linear maps' outputs, and of their input.
pub open spec fn fused_dims(maps: Projections) -> Arg {
    if maps.len() == 2 {
        Arg::Words3(maps[0].0.output as u32, maps[1].0.output as u32, maps[0].0.input as u32)
    } else if maps.len() == 3 {
        Arg::Words4(
            maps[0].0.output as u32,
            maps[1].0.output as u32,
            maps[2].0.output as u32,
            maps[0].0.input as u32,
        )
    } else {
        Arg::Words5(
            maps[0].0.output as u32,
            maps[1].0.output as u32,
            maps[2].0.output as u32,
            maps[3].0.output as u32,
            maps[0].0.input as u32,
        )
    }
}

/// The widest output of several linear maps.
pub open spec fn widest(maps: Projections) -> int
    decreases maps.len(),
{
    if maps.len() == 0 {
        0
    } else {
        let others = widest(maps.drop_last());
        if maps.last().0.output > others {
            maps.last().0.output as int
        } else {
            others
        }
    }
}

/// Several linear maps at once, of one row, or of three.
pub open spec fn qmv_fused(
    scratch: BufferId,
    owner: Owner,
    input: int,
    maps: Projections,
    rows: int,
) -> DispatchView {
    DispatchView {
        kernel: fused_kernel(maps.len() as int, rows),
        args: seq![command::at(scratch, input)] + fused_args(scratch, owner, maps) + seq![
            fused_dims(maps),
        ],
        extent: command::groups(sixteens(widest(maps)), maps.len() as int, 128),
    }
}

/// Several linear maps at once, of one row, or of three.
pub fn push_qmv_fused(
    plan: &mut Vec<Dispatch>,
    scratch: BufferId,
    owner: Owner,
    input: usize,
    maps: &[(Q4Linear, usize)],
    rows: usize,
)
    requires
        2 <= maps@.len() <= 4,
    ensures
        command::plan_view(final(plan)@) == command::plan_view(old(plan)@).push(
            qmv_fused(scratch, owner, input as int, maps@, rows as int),
        ),
{
    let mut args: Vec<Arg> = Vec::new();
    args.push(buffer_at(scratch, input));
    let mut wide: usize = 0;
    let mut i: usize = 0;
    assert(maps@.take(0) =~= Seq::empty());
    assert(args@ =~= seq![command::at(scratch, input as int)] + fused_args(
        scratch,
        owner,
        maps@.take(0),
    ));
    while i < maps.len()
        invariant
            i <= maps@.len(),
            args@ == seq![command::at(scratch, input as int)] + fused_args(
                scratch,
                owner,
                maps@.take(i as int),
            ),
            wide == widest(maps@.take(i as int)),
        decreases maps@.len() - i,
    {
        assert(maps@.take(i + 1).drop_last() =~= maps@.take(i as int));
        let linear = maps[i].0;
        args.push(weight_arg(owner, linear.weight));
        args.push(weight_arg(owner, linear.scales));
        args.push(weight_arg(owner, linear.biases));
        args.push(buffer_at(scratch, maps[i].1));
        if linear.output > wide {
            wide = linear.output;
        }
        i += 1;
        assert(args@ =~= seq![command::at(scratch, input as int)] + fused_args(
            scratch,
            owner,
            maps@.take(i as int),
        ));
    }
    assert(maps@.take(i as int) =~= maps@);
    let shared: u32 = maps[0].0.input as u32;
    let dims = if maps.len() == 2 {
        Arg::Words3(maps[0].0.output as u32, maps[1].0.output as u32, shared)
    } else if maps.len() == 3 {
        Arg::Words4(
            maps[0].0.output as u32,
            maps[1].0.output as u32,
            maps[2].0.output as u32,
            shared,
        )
    } else {
        Arg::Words5(
            maps[0].0.output as u32,
            maps[1].0.output as u32,
            maps[2].0.output as u32,
            maps[3].0.output as u32,
            shared,
        )
    };
    args.push(dims);
    assert(args@ =~= qmv_fused(scratch, owner, input as int, maps@, rows as int).args);
    let kernel = if rows == 3 {
        if maps.len() == 2 {
            Kernel::QmvFused2Wide3
        } else if maps.len() == 3 {
            Kernel::QmvFused3Wide3
        } else {
            Kernel::QmvFused4Wide3
        }
    } else {
        if maps.len() == 2 {
            Kernel::QmvFused2
        } else if maps.len() == 3 {
            Kernel::QmvFused3
        } else {
            Kernel::QmvFused4
        }
    };
    push_dispatch(
        plan,
        kernel,
        args,
        in_groups(count_sixteens(wide) as u64, maps.len() as u64, 128),
    );
}

/// A linear map of `rows` rows, in tiles of sixteen: the last tile may be partly filled.
pub open spec fn gemm(
    scratch: BufferId,
    owner: Owner,
    rows: int,
    input: int,
    linear: Q4Linear,
    output: int,
) -> DispatchView {
    DispatchView {
        kernel: Kernel::Q4Gemm,
        args: seq![
            command::at(scratch, input),
            weight(owner, linear.weight),
            weight(owner, linear.scales),
            weight(owner, linear.biases),
            command::at(scratch, output),
            Arg::Words3(
                linear.output as u32,
                linear.input as u32,
                (sixteens(rows) * 16) as u32,
            ),
        ],
        extent: command::groups(sixteens(rows), (linear.output + 31) / 32, 32),
    }
}

/// A linear map of `rows` rows.
pub fn push_gemm(
    plan: &mut Vec<Dispatch>,
    scratch: BufferId,
    owner: Owner,
    rows: usize,
    input: usize,
    linear: &Q4Linear,
    output: usize,
)
    requires
        rows + 16 <= usize::MAX,
    ensures
        command::plan_view(final(plan)@) == command::plan_view(old(plan)@).push(
            gemm(scratch, owner, rows as int, input as int, *linear, output as int),
        ),
{
    let tiles: usize = count_sixteens(rows);
    let args: Vec<Arg> = vec![
        buffer_at(scratch, input),
        weight_arg(owner, linear.weight),
        weight_arg(owner, linear.scales),
        weight_arg(owner, linear.biases),
        buffer_at(scratch, output),
        Arg::Words3(linear.output as u32, linear.input as u32, (tiles * 16) as u32),
    ];
    assert(args@ =~= gemm(
        scratch,
        owner,
        rows as int,
        input as int,
        *linear,
        output as int,
    ).args);
    let columns: usize = if linear.output % 32 == 0 {
        linear.output / 32
    } else {
        linear.output / 32 + 1
    };
    push_dispatch(plan, Kernel::Q4Gemm, args, in_groups(tiles as u64, columns as u64, 32));
}

// ---------------------------------------------------------------------------
// Norms and elementwise work
// ---------------------------------------------------------------------------

/// Norms `rows` rows.
pub open spec fn norm(
    scratch: BufferId,
    owner: Owner,
    input: int,
    scale: TensorRef,
    output: int,
    rows: int,
) -> DispatchView {
    DispatchView {
        kernel: Kernel::Rms,
        args: seq![
            command::at(scratch, input),
            weight(owner, scale),
            command::at(scratch, output),
            Arg::Word(HIDDEN as u32),
            Arg::Word(EPS_BITS),
        ],
        extent: command::groups(rows, 1, 256),
    }
}

/// Norms `rows` rows.
pub fn push_norm(
    plan: &mut Vec<Dispatch>,
    scratch: BufferId,
    owner: Owner,
    input: usize,
    scale: TensorRef,
    output: usize,
    rows: usize,
)
    ensures
        command::plan_view(final(plan)@) == command::plan_view(old(plan)@).push(
            norm(scratch, owner, input as int, scale, output as int, rows as int),
        ),
{
    let args: Vec<Arg> = vec![
        buffer_at(scratch, input),
        weight_arg(owner, scale),
        buffer_at(scratch, output),
        Arg::Word(HIDDEN as u32),
        Arg::Word(EPS_BITS),
    ];
    assert(args@ =~= norm(
        scratch,
        owner,
        input as int,
        scale,
        output as int,
        rows as int,
    ).args);
    push_dispatch(plan, Kernel::Rms, args, in_groups(rows as u64, 1, 256));
}

/// Norms `rows` rows into columns `column..` of rows that are twice as wide.
pub open spec fn norm_half(
    scratch: BufferId,
    owner: Owner,
    input: int,
    scale: TensorRef,
    output: int,
    column: int,
    rows: int,
) -> DispatchView {
    DispatchView {
        kernel: Kernel::RmsStride,
        args: seq![
            command::at(scratch, input),
            weight(owner, scale),
            command::at(scratch, output),
            Arg::Word(HIDDEN as u32),
            Arg::Word(EPS_BITS),
            Arg::Words2((2 * HIDDEN) as u32, column as u32),
        ],
        extent: command::groups(rows, 1, 256),
    }
}

/// Norms `rows` rows into columns `column..` of rows that are twice as wide.
pub fn push_norm_half(
    plan: &mut Vec<Dispatch>,
    scratch: BufferId,
    owner: Owner,
    input: usize,
    scale: TensorRef,
    output: usize,
    column: usize,
    rows: usize,
)
    ensures
        command::plan_view(final(plan)@) == command::plan_view(old(plan)@).push(
            norm_half(
                scratch,
                owner,
                input as int,
                scale,
                output as int,
                column as int,
                rows as int,
            ),
        ),
{
    let args: Vec<Arg> = vec![
        buffer_at(scratch, input),
        weight_arg(owner, scale),
        buffer_at(scratch, output),
        Arg::Word(HIDDEN as u32),
        Arg::Word(EPS_BITS),
        Arg::Words2((2 * HIDDEN) as u32, column as u32),
    ];
    assert(args@ =~= norm_half(
        scratch,
        owner,
        input as int,
        scale,
        output as int,
        column as int,
        rows as int,
    ).args);
    push_dispatch(plan, Kernel::RmsStride, args, in_groups(rows as u64, 1, 256));
}

/// Adds the output of a branch to its input, for `rows` rows.
pub open spec fn residual(
    scratch: BufferId,
    input: int,
    branch: int,
    output: int,
    rows: int,
) -> DispatchView {
    DispatchView {
        kernel: Kernel::Residual,
        args: seq![
            command::at(scratch, input),
            command::at(scratch, branch),
            command::at(scratch, output),
            Arg::Word((rows * HIDDEN) as u32),
        ],
        extent: command::threads(rows * HIDDEN, 1, 1024),
    }
}

/// Adds the output of a branch to its input, for `rows` rows.
pub fn push_residual(
    plan: &mut Vec<Dispatch>,
    scratch: BufferId,
    input: usize,
    branch: usize,
    output: usize,
    rows: usize,
)
    requires
        rows * HIDDEN <= usize::MAX,
    ensures
        command::plan_view(final(plan)@) == command::plan_view(old(plan)@).push(
            residual(scratch, input as int, branch as int, output as int, rows as int),
        ),
{
    let args: Vec<Arg> = vec![
        buffer_at(scratch, input),
        buffer_at(scratch, branch),
        buffer_at(scratch, output),
        Arg::Word((rows * HIDDEN) as u32),
    ];
    assert(args@ =~= residual(
        scratch,
        input as int,
        branch as int,
        output as int,
        rows as int,
    ).args);
    push_dispatch(plan, Kernel::Residual, args, in_threads((rows * HIDDEN) as u64, 1, 1024));
}

/// The activation of the feed-forward part, for `rows` rows.
pub open spec fn silu(
    scratch: BufferId,
    gate: int,
    up: int,
    active: int,
    rows: int,
) -> DispatchView {
    DispatchView {
        kernel: Kernel::Silu,
        args: seq![
            command::at(scratch, gate),
            command::at(scratch, up),
            command::at(scratch, active),
            Arg::Word((rows * INTERMEDIATE) as u32),
        ],
        extent: command::threads(rows * INTERMEDIATE, 1, 1024),
    }
}

/// The activation of the feed-forward part, for `rows` rows.
pub fn push_silu(
    plan: &mut Vec<Dispatch>,
    scratch: BufferId,
    gate: usize,
    up: usize,
    active: usize,
    rows: usize,
)
    requires
        rows * INTERMEDIATE <= usize::MAX,
    ensures
        command::plan_view(final(plan)@) == command::plan_view(old(plan)@).push(
            silu(scratch, gate as int, up as int, active as int, rows as int),
        ),
{
    let args: Vec<Arg> = vec![
        buffer_at(scratch, gate),
        buffer_at(scratch, up),
        buffer_at(scratch, active),
        Arg::Word((rows * INTERMEDIATE) as u32),
    ];
    assert(args@ =~= silu(
        scratch,
        gate as int,
        up as int,
        active as int,
        rows as int,
    ).args);
    push_dispatch(plan, Kernel::Silu, args, in_threads((rows * INTERMEDIATE) as u64, 1, 1024));
}

/// Rounds `len` numbers to half their size.
pub open spec fn cast(scratch: BufferId, input: int, output: int, len: int) -> DispatchView {
    DispatchView {
        kernel: Kernel::CastBf16,
        args: seq![
            command::at(scratch, input),
            command::at(scratch, output),
            Arg::Word(len as u32),
        ],
        extent: command::threads(len, 1, 256),
    }
}

/// Rounds `len` numbers to half their size.
pub fn push_cast(
    plan: &mut Vec<Dispatch>,
    scratch: BufferId,
    input: usize,
    output: usize,
    len: usize,
)
    ensures
        command::plan_view(final(plan)@) == command::plan_view(old(plan)@).push(
            cast(scratch, input as int, output as int, len as int),
        ),
{
    let args: Vec<Arg> = vec![
        buffer_at(scratch, input),
        buffer_at(scratch, output),
        Arg::Word(len as u32),
    ];
    assert(args@ =~= cast(scratch, input as int, output as int, len as int).args);
    push_dispatch(plan, Kernel::CastBf16, args, in_threads(len as u64, 1, 256));
}

// ---------------------------------------------------------------------------
// Memory
// ---------------------------------------------------------------------------

/// A grid of `count` threads, in rows of no more than a grid row has.
pub open spec fn rows_of_threads(count: int) -> Extent {
    command::threads(
        if count < GRID_ROW {
            count
        } else {
            GRID_ROW as int
        },
        (count + GRID_ROW - 1) / (GRID_ROW as int),
        256,
    )
}

/// A grid of `count` threads, in rows of no more than a grid row has.
fn in_rows(count: usize) -> (extent: Extent)
    ensures
        extent == rows_of_threads(count as int),
{
    let count: u64 = count as u64;
    let width: u64 = if count < GRID_ROW {
        count
    } else {
        GRID_ROW
    };
    let height: u64 = if count % GRID_ROW == 0 {
        count / GRID_ROW
    } else {
        count / GRID_ROW + 1
    };
    in_threads(width, height, 256)
}

/// Clears the first `len` bytes of a buffer.
pub open spec fn clear(buffer: BufferId, len: int) -> DispatchView {
    DispatchView {
        kernel: Kernel::Clear,
        args: seq![command::at(buffer, 0), Arg::Long(len as u64)],
        extent: rows_of_threads(len),
    }
}

/// Clears the first `len` bytes of a buffer.
pub fn push_clear(plan: &mut Vec<Dispatch>, buffer: BufferId, len: usize)
    ensures
        command::plan_view(final(plan)@) == command::plan_view(old(plan)@).push(
            clear(buffer, len as int),
        ),
{
    let args: Vec<Arg> = vec![buffer_at(buffer, 0), Arg::Long(len as u64)];
    assert(args@ =~= clear(buffer, len as int).args);
    push_dispatch(plan, Kernel::Clear, args, in_rows(len));
}

/// Copies `len` bytes of one buffer, from an offset on, to the front of another.
pub open spec fn copy(input: BufferId, offset: int, output: BufferId, len: int) -> DispatchView {
    DispatchView {
        kernel: Kernel::CopyBytes,
        args: seq![command::at(input, offset), command::at(output, 0), Arg::Long(len as u64)],
        extent: rows_of_threads(sixteens(len)),
    }
}

/// Copies `len` bytes of one buffer, from an offset on, to the front of another.
pub fn push_copy(
    plan: &mut Vec<Dispatch>,
    input: BufferId,
    offset: usize,
    output: BufferId,
    len: usize,
)
    ensures
        command::plan_view(final(plan)@) == command::plan_view(old(plan)@).push(
            copy(input, offset as int, output, len as int),
        ),
{
    let args: Vec<Arg> = vec![
        buffer_at(input, offset),
        buffer_at(output, 0),
        Arg::Long(len as u64),
    ];
    assert(args@ =~= copy(input, offset as int, output, len as int).args);
    push_dispatch(plan, Kernel::CopyBytes, args, in_rows(count_sixteens(len)));
}

} // verus!
