//! How the scratch memory of a forward pass is laid out.
//!
//! One buffer holds every intermediate tensor. Each gets a region of its own, which starts
//! at a multiple of sixteen bytes.

use vstd::prelude::*;

use crate::model::{
    ATTN_KV_OUT, ATTN_OUT, ATTN_Q_OUT, GDN_CONV_DIM, GDN_KEY_DIM, GDN_VALUE_DIM, GDN_VALUE_HEADS,
    HIDDEN, INTERMEDIATE, VOCAB,
};

verus! {

/// The next multiple of sixteen.
pub open spec fn aligned(n: int) -> int {
    (n + 15) / 16 * 16
}

/// How many groups of 256 the vocabulary makes: each of them has one partial result when
/// the largest logit is looked for.
pub const ARGMAX_PARTIALS: usize = (VOCAB + 255) / 256;

/// Numbers as integers.
pub open spec fn ints(numbers: Seq<usize>) -> Seq<int> {
    Seq::new(numbers.len(), |i: int| numbers[i] as int)
}

/// Each of the numbers times `factor`.
pub open spec fn times(numbers: Seq<int>, factor: int) -> Seq<int> {
    Seq::new(numbers.len(), |i: int| factor * numbers[i])
}

/// The sum of the numbers.
pub open spec fn sum(numbers: Seq<int>) -> int
    decreases numbers.len(),
{
    if numbers.len() == 0 {
        0
    } else {
        sum(numbers.drop_last()) + numbers.last()
    }
}

/// Where the first `n` regions of these sizes end.
pub open spec fn end_of(sizes: Seq<int>, n: int) -> int
    decreases n,
{
    if n <= 0 {
        0
    } else {
        aligned(end_of(sizes, n - 1)) + sizes[n - 1]
    }
}

/// Where region `i` starts: at the next multiple of sixteen behind the ones before it.
#[verifier::opaque]
pub open spec fn start_of(sizes: Seq<int>, i: int) -> int {
    aligned(end_of(sizes, i))
}

/// Where the regions start.
pub open spec fn starts(sizes: Seq<int>) -> Seq<int> {
    Seq::new(sizes.len(), |i: int| start_of(sizes, i))
}

/// A region ends before the next one starts, and at a multiple of sixteen each starts.
proof fn region_bounds(sizes: Seq<int>, i: int)
    requires
        0 <= i < sizes.len(),
        forall|k: int| 0 <= k < sizes.len() ==> #[trigger] sizes[k] >= 0,
    ensures
        start_of(sizes, i) % 16 == 0,
        0 <= start_of(sizes, i),
        start_of(sizes, i) + sizes[i] == end_of(sizes, i + 1),
        end_of(sizes, i) <= start_of(sizes, i) <= end_of(sizes, i) + 15,
        0 <= end_of(sizes, i),
    decreases i,
{
    reveal(start_of);
    if i > 0 {
        region_bounds(sizes, i - 1);
    }
}

/// Later ends are no smaller.
proof fn ends_grow(sizes: Seq<int>, i: int, j: int)
    requires
        0 <= i <= j <= sizes.len(),
        forall|k: int| 0 <= k < sizes.len() ==> #[trigger] sizes[k] >= 0,
    ensures
        end_of(sizes, i) <= end_of(sizes, j),
    decreases j,
{
    if i < j {
        ends_grow(sizes, i, j - 1);
        region_bounds(sizes, j - 1);
    }
}

/// The regions of a layout do not overlap, each starts at a multiple of sixteen, and all
/// of them lie within the whole.
pub proof fn regions_are_apart(sizes: Seq<int>, i: int, j: int)
    requires
        0 <= i < j < sizes.len(),
        forall|k: int| 0 <= k < sizes.len() ==> #[trigger] sizes[k] >= 0,
    ensures
        starts(sizes)[i] % 16 == 0,
        starts(sizes)[j] % 16 == 0,
        0 <= starts(sizes)[i],
        starts(sizes)[i] + sizes[i] <= starts(sizes)[j],
        starts(sizes)[j] + sizes[j] <= end_of(sizes, sizes.len() as int),
{
    region_bounds(sizes, i);
    region_bounds(sizes, j);
    ends_grow(sizes, i + 1, j);
    ends_grow(sizes, j + 1, sizes.len() as int);
}

/// Lays regions out for `batch` rows: where each starts, and where the last one ends.
fn lay_out(rows: &[usize], batch: usize, row_bytes: usize) -> (layout: (Vec<usize>, usize))
    requires
        sum(ints(rows@)) == row_bytes,
        batch * row_bytes + 16 * rows@.len() <= usize::MAX,
    ensures
        ints(layout.0@) == starts(times(ints(rows@), batch as int)),
        layout.1 == end_of(times(ints(rows@), batch as int), rows@.len() as int),
{
    let ghost sizes = times(ints(rows@), batch as int);
    let mut at: Vec<usize> = Vec::new();
    let mut next: usize = 0;
    let mut i: usize = 0;
    proof {
        assert(ints(rows@).take(0) =~= Seq::empty());
        assert(batch * 0 == 0);
    }
    while i < rows.len()
        invariant
            i <= rows@.len(),
            sizes == times(ints(rows@), batch as int),
            sum(ints(rows@)) == row_bytes,
            batch * row_bytes + 16 * rows@.len() <= usize::MAX,
            at@.len() == i,
            forall|k: int| 0 <= k < i ==> at@[k] == #[trigger] start_of(sizes, k),
            next == end_of(sizes, i as int),
            next <= batch * sum(ints(rows@).take(i as int)) + 16 * i,
        decreases rows@.len() - i,
    {
        proof {
            let all = ints(rows@);
            assert(all.take(i + 1).drop_last() =~= all.take(i as int));
            prefix_sum(all, i + 1);
            assert(batch * sum(all.take(i + 1)) == batch * sum(all.take(i as int)) + batch * all[
            i as int]) by (nonlinear_arith)
                requires
                    sum(all.take(i + 1)) == sum(all.take(i as int)) + all[i as int],
            ;
            assert(batch * sum(all.take(i + 1)) <= batch * row_bytes) by (nonlinear_arith)
                requires
                    sum(all.take(i + 1)) <= row_bytes,
                    0 <= batch,
            ;
            assert(sizes[i as int] == batch * rows@[i as int]);
            assert(0 <= batch * rows@[i as int]) by (nonlinear_arith);
            reveal(start_of);
        }
        let size: usize = batch * rows[i];
        let start: usize = (next + 15) / 16 * 16;
        at.push(start);
        next = start + size;
        i += 1;
    }
    proof {
        assert(ints(at@) =~= starts(sizes));
    }
    (at, next)
}

/// Some of the numbers sum up to no more than all of them.
proof fn prefix_sum(numbers: Seq<int>, n: int)
    requires
        0 <= n <= numbers.len(),
        forall|k: int| 0 <= k < numbers.len() ==> #[trigger] numbers[k] >= 0,
    ensures
        sum(numbers.take(n)) <= sum(numbers),
    decreases numbers.len() - n,
{
    if n < numbers.len() {
        prefix_sum(numbers, n + 1);
        assert(numbers.take(n + 1).drop_last() =~= numbers.take(n));
    } else {
        assert(numbers.take(n) =~= numbers);
    }
}

/// What one row takes in the scratch memory of the target model, without alignment.
pub const SCRATCH_ROW_BYTES: usize = 1_491_412;

/// Where the tensors of a pass of the target model lie.
#[derive(Debug, Clone, Copy, PartialEq, Eq, Structural)]
pub struct ScratchLayout {
    pub token: usize,
    pub hidden: usize,
    pub normalized: usize,
    pub branch_output: usize,
    pub residual: usize,
    pub post_norm: usize,
    pub mlp_gate: usize,
    pub mlp_up: usize,
    pub mlp_active: usize,
    pub projection: usize,
    pub aux0: usize,
    pub aux1: usize,
    pub small0: usize,
    pub small1: usize,
    pub conv_output: usize,
    pub q_norm: usize,
    pub k_norm: usize,
    pub beta: usize,
    pub decay: usize,
    pub state_output: usize,
    pub query: usize,
    pub attention_gate: usize,
    pub attention_output: usize,
    pub gated: usize,
    pub logits: usize,
    pub argmax_partial: usize,
    /// The size of the whole.
    pub len: usize,
}

/// The sizes of the regions for one row, in order.
pub open spec fn scratch_rows() -> Seq<int> {
    seq![
        4 as int,
        HIDDEN * 2 as int,
        HIDDEN * 2 as int,
        HIDDEN * 4 as int,
        HIDDEN * 2 as int,
        HIDDEN * 2 as int,
        INTERMEDIATE * 4 as int,
        INTERMEDIATE * 4 as int,
        INTERMEDIATE * 2 as int,
        ATTN_Q_OUT * 4 as int,
        GDN_VALUE_DIM * 4 as int,
        GDN_VALUE_DIM * 4 as int,
        64 * 4 as int,
        64 * 4 as int,
        GDN_CONV_DIM * 4 as int,
        GDN_KEY_DIM * 4 as int,
        GDN_KEY_DIM * 4 as int,
        GDN_VALUE_HEADS * 4 as int,
        GDN_VALUE_HEADS * 4 as int,
        GDN_VALUE_DIM * 4 as int,
        ATTN_OUT * 2 as int,
        ATTN_OUT * 4 as int,
        ATTN_OUT * 4 as int,
        ATTN_OUT * 2 as int,
        VOCAB * 4 as int,
        ARGMAX_PARTIALS * 2 * 4 as int,
    ]
}

/// The sizes of the regions for one row, in order.
fn scratch_rows_vec() -> (rows: Vec<usize>)
    ensures
        ints(rows@) == scratch_rows(),
{
    let rows: Vec<usize> = vec![
        4,
        HIDDEN * 2,
        HIDDEN * 2,
        HIDDEN * 4,
        HIDDEN * 2,
        HIDDEN * 2,
        INTERMEDIATE * 4,
        INTERMEDIATE * 4,
        INTERMEDIATE * 2,
        ATTN_Q_OUT * 4,
        GDN_VALUE_DIM * 4,
        GDN_VALUE_DIM * 4,
        64 * 4,
        64 * 4,
        GDN_CONV_DIM * 4,
        GDN_KEY_DIM * 4,
        GDN_KEY_DIM * 4,
        GDN_VALUE_HEADS * 4,
        GDN_VALUE_HEADS * 4,
        GDN_VALUE_DIM * 4,
        ATTN_OUT * 2,
        ATTN_OUT * 4,
        ATTN_OUT * 4,
        ATTN_OUT * 2,
        VOCAB * 4,
        ARGMAX_PARTIALS * 2 * 4,
    ];
    assert(ints(rows@) =~= scratch_rows());
    rows
}

impl ScratchLayout {
    /// Where the regions start, in order.
    pub open spec fn starts(self) -> Seq<int> {
        seq![
            self.token as int,
            self.hidden as int,
            self.normalized as int,
            self.branch_output as int,
            self.residual as int,
            self.post_norm as int,
            self.mlp_gate as int,
            self.mlp_up as int,
            self.mlp_active as int,
            self.projection as int,
            self.aux0 as int,
            self.aux1 as int,
            self.small0 as int,
            self.small1 as int,
            self.conv_output as int,
            self.q_norm as int,
            self.k_norm as int,
            self.beta as int,
            self.decay as int,
            self.state_output as int,
            self.query as int,
            self.attention_gate as int,
            self.attention_output as int,
            self.gated as int,
            self.logits as int,
            self.argmax_partial as int,
        ]
    }

    /// The regions are those for `batch` rows, one behind the other.
    pub open spec fn is_for(self, batch: int) -> bool {
        let sizes = times(scratch_rows(), batch);
        &&& self.starts() == starts(sizes)
        &&& self.len == end_of(sizes, sizes.len() as int)
    }

    /// The layout for `batch` rows.
    pub fn new(batch: usize) -> (layout: Self)
        requires
            batch * SCRATCH_ROW_BYTES + 16 * 26 <= usize::MAX,
        ensures
            layout.is_for(batch as int),
    {
        let rows = scratch_rows_vec();
        proof {
            sum_of_scratch_rows();
        }
        let (at, len): (Vec<usize>, usize) = lay_out(&rows, batch, SCRATCH_ROW_BYTES);
        assert(ints(at@).len() == 26);
        assert forall|k: int| 0 <= k < 26 implies #[trigger] at@[k] == start_of(
            times(scratch_rows(), batch as int),
            k,
        ) by {
            assert(ints(at@)[k] == starts(times(scratch_rows(), batch as int))[k]);
        }
        let layout = ScratchLayout {
            token: at[0],
            hidden: at[1],
            normalized: at[2],
            branch_output: at[3],
            residual: at[4],
            post_norm: at[5],
            mlp_gate: at[6],
            mlp_up: at[7],
            mlp_active: at[8],
            projection: at[9],
            aux0: at[10],
            aux1: at[11],
            small0: at[12],
            small1: at[13],
            conv_output: at[14],
            q_norm: at[15],
            k_norm: at[16],
            beta: at[17],
            decay: at[18],
            state_output: at[19],
            query: at[20],
            attention_gate: at[21],
            attention_output: at[22],
            gated: at[23],
            logits: at[24],
            argmax_partial: at[25],
            len,
        };
        assert(layout.starts() =~= starts(times(scratch_rows(), batch as int)));
        layout
    }
}

/// What a row takes in all.
proof fn sum_of_scratch_rows()
    ensures
        sum(scratch_rows()) == SCRATCH_ROW_BYTES,
{
    reveal_with_fuel(sum, 27);
    let all = scratch_rows();

    assert(all.len() == 26);

    assert(all.take(26).drop_last() =~= all.take(25));
    assert(all.take(25).drop_last() =~= all.take(24));
    assert(all.take(24).drop_last() =~= all.take(23));
    assert(all.take(23).drop_last() =~= all.take(22));
    assert(all.take(22).drop_last() =~= all.take(21));
    assert(all.take(21).drop_last() =~= all.take(20));
    assert(all.take(20).drop_last() =~= all.take(19));
    assert(all.take(19).drop_last() =~= all.take(18));
    assert(all.take(18).drop_last() =~= all.take(17));
    assert(all.take(17).drop_last() =~= all.take(16));
    assert(all.take(16).drop_last() =~= all.take(15));
    assert(all.take(15).drop_last() =~= all.take(14));
    assert(all.take(14).drop_last() =~= all.take(13));
    assert(all.take(13).drop_last() =~= all.take(12));
    assert(all.take(12).drop_last() =~= all.take(11));
    assert(all.take(11).drop_last() =~= all.take(10));
    assert(all.take(10).drop_last() =~= all.take(9));
    assert(all.take(9).drop_last() =~= all.take(8));
    assert(all.take(8).drop_last() =~= all.take(7));
    assert(all.take(7).drop_last() =~= all.take(6));
    assert(all.take(6).drop_last() =~= all.take(5));
    assert(all.take(5).drop_last() =~= all.take(4));
    assert(all.take(4).drop_last() =~= all.take(3));
    assert(all.take(3).drop_last() =~= all.take(2));
    assert(all.take(2).drop_last() =~= all.take(1));
    assert(all.take(1).drop_last() =~= all.take(0));
    assert(all.take(26) =~= all);
    assert(all.take(0) =~= Seq::empty());
}

/// What one row takes in the scratch memory of the drafter, without alignment.
pub const MTP_SCRATCH_ROW_BYTES: usize = 1_449_556;

/// Where the tensors of a pass of the drafter lie.
#[derive(Debug, Clone, Copy, PartialEq, Eq, Structural)]
pub struct MtpScratchLayout {
    pub token: usize,
    pub token_embed: usize,
    pub target_hidden: usize,
    pub pre_fc: usize,
    pub pre_fc_hidden: usize,
    pub fc_input: usize,
    pub fc_output: usize,
    pub hidden: usize,
    pub normalized: usize,
    pub branch_output: usize,
    pub residual: usize,
    pub post_norm: usize,
    pub mlp_gate: usize,
    pub mlp_up: usize,
    pub mlp_active: usize,
    pub projection: usize,
    pub key: usize,
    pub value: usize,
    pub query: usize,
    pub attention_gate: usize,
    pub attention_output: usize,
    pub gated: usize,
    pub logits: usize,
    pub argmax_partial: usize,
    /// The size of the whole.
    pub len: usize,
}

/// The sizes of the regions for one row, in order.
pub open spec fn mtp_scratch_rows() -> Seq<int> {
    seq![
        4 as int,
        HIDDEN * 2 as int,
        HIDDEN * 2 as int,
        HIDDEN * 2 as int,
        HIDDEN * 2 as int,
        2 * HIDDEN * 2 as int,
        HIDDEN * 4 as int,
        HIDDEN * 2 as int,
        HIDDEN * 2 as int,
        HIDDEN * 4 as int,
        HIDDEN * 2 as int,
        HIDDEN * 2 as int,
        INTERMEDIATE * 4 as int,
        INTERMEDIATE * 4 as int,
        INTERMEDIATE * 2 as int,
        ATTN_Q_OUT * 4 as int,
        ATTN_KV_OUT * 4 as int,
        ATTN_KV_OUT * 4 as int,
        ATTN_OUT * 2 as int,
        ATTN_OUT * 4 as int,
        ATTN_OUT * 4 as int,
        ATTN_OUT * 2 as int,
        VOCAB * 4 as int,
        ARGMAX_PARTIALS * 2 * 4 as int,
    ]
}

/// The sizes of the regions for one row, in order.
fn mtp_scratch_rows_vec() -> (rows: Vec<usize>)
    ensures
        ints(rows@) == mtp_scratch_rows(),
{
    let rows: Vec<usize> = vec![
        4,
        HIDDEN * 2,
        HIDDEN * 2,
        HIDDEN * 2,
        HIDDEN * 2,
        2 * HIDDEN * 2,
        HIDDEN * 4,
        HIDDEN * 2,
        HIDDEN * 2,
        HIDDEN * 4,
        HIDDEN * 2,
        HIDDEN * 2,
        INTERMEDIATE * 4,
        INTERMEDIATE * 4,
        INTERMEDIATE * 2,
        ATTN_Q_OUT * 4,
        ATTN_KV_OUT * 4,
        ATTN_KV_OUT * 4,
        ATTN_OUT * 2,
        ATTN_OUT * 4,
        ATTN_OUT * 4,
        ATTN_OUT * 2,
        VOCAB * 4,
        ARGMAX_PARTIALS * 2 * 4,
    ];
    assert(ints(rows@) =~= mtp_scratch_rows());
    rows
}

impl MtpScratchLayout {
    /// Where the regions start, in order.
    pub open spec fn starts(self) -> Seq<int> {
        seq![
            self.token as int,
            self.token_embed as int,
            self.target_hidden as int,
            self.pre_fc as int,
            self.pre_fc_hidden as int,
            self.fc_input as int,
            self.fc_output as int,
            self.hidden as int,
            self.normalized as int,
            self.branch_output as int,
            self.residual as int,
            self.post_norm as int,
            self.mlp_gate as int,
            self.mlp_up as int,
            self.mlp_active as int,
            self.projection as int,
            self.key as int,
            self.value as int,
            self.query as int,
            self.attention_gate as int,
            self.attention_output as int,
            self.gated as int,
            self.logits as int,
            self.argmax_partial as int,
        ]
    }

    /// The regions are those for `batch` rows, one behind the other.
    pub open spec fn is_for(self, batch: int) -> bool {
        let sizes = times(mtp_scratch_rows(), batch);
        &&& self.starts() == starts(sizes)
        &&& self.len == end_of(sizes, sizes.len() as int)
    }

    /// The layout for `batch` rows.
    pub fn new(batch: usize) -> (layout: Self)
        requires
            batch * MTP_SCRATCH_ROW_BYTES + 16 * 24 <= usize::MAX,
        ensures
            layout.is_for(batch as int),
    {
        let rows = mtp_scratch_rows_vec();
        proof {
            sum_of_mtp_scratch_rows();
        }
        let (at, len): (Vec<usize>, usize) = lay_out(&rows, batch, MTP_SCRATCH_ROW_BYTES);
        assert(ints(at@).len() == 24);
        assert forall|k: int| 0 <= k < 24 implies #[trigger] at@[k] == start_of(
            times(mtp_scratch_rows(), batch as int),
            k,
        ) by {
            assert(ints(at@)[k] == starts(times(mtp_scratch_rows(), batch as int))[k]);
        }
        let layout = MtpScratchLayout {
            token: at[0],
            token_embed: at[1],
            target_hidden: at[2],
            pre_fc: at[3],
            pre_fc_hidden: at[4],
            fc_input: at[5],
            fc_output: at[6],
            hidden: at[7],
            normalized: at[8],
            branch_output: at[9],
            residual: at[10],
            post_norm: at[11],
            mlp_gate: at[12],
            mlp_up: at[13],
            mlp_active: at[14],
            projection: at[15],
            key: at[16],
            value: at[17],
            query: at[18],
            attention_gate: at[19],
            attention_output: at[20],
            gated: at[21],
            logits: at[22],
            argmax_partial: at[23],
            len,
        };
        assert(layout.starts() =~= starts(times(mtp_scratch_rows(), batch as int)));
        layout
    }
}

/// What a row takes in all.
proof fn sum_of_mtp_scratch_rows()
    ensures
        sum(mtp_scratch_rows()) == MTP_SCRATCH_ROW_BYTES,
{
    reveal_with_fuel(sum, 25);
    let all = mtp_scratch_rows();

    assert(all.len() == 24);

    assert(all.take(24).drop_last() =~= all.take(23));
    assert(all.take(23).drop_last() =~= all.take(22));
    assert(all.take(22).drop_last() =~= all.take(21));
    assert(all.take(21).drop_last() =~= all.take(20));
    assert(all.take(20).drop_last() =~= all.take(19));
    assert(all.take(19).drop_last() =~= all.take(18));
    assert(all.take(18).drop_last() =~= all.take(17));
    assert(all.take(17).drop_last() =~= all.take(16));
    assert(all.take(16).drop_last() =~= all.take(15));
    assert(all.take(15).drop_last() =~= all.take(14));
    assert(all.take(14).drop_last() =~= all.take(13));
    assert(all.take(13).drop_last() =~= all.take(12));
    assert(all.take(12).drop_last() =~= all.take(11));
    assert(all.take(11).drop_last() =~= all.take(10));
    assert(all.take(10).drop_last() =~= all.take(9));
    assert(all.take(9).drop_last() =~= all.take(8));
    assert(all.take(8).drop_last() =~= all.take(7));
    assert(all.take(7).drop_last() =~= all.take(6));
    assert(all.take(6).drop_last() =~= all.take(5));
    assert(all.take(5).drop_last() =~= all.take(4));
    assert(all.take(4).drop_last() =~= all.take(3));
    assert(all.take(3).drop_last() =~= all.take(2));
    assert(all.take(2).drop_last() =~= all.take(1));
    assert(all.take(1).drop_last() =~= all.take(0));
    assert(all.take(24) =~= all);
    assert(all.take(0) =~= Seq::empty());
}


/// The first region starts at the front.
proof fn first_region(sizes: Seq<int>)
    ensures
        start_of(sizes, 0) == 0,
{
    reveal(start_of);
}

/// Behind a region whose size is a multiple of sixteen the next one starts at once.
proof fn regions_touch(sizes: Seq<int>, i: int)
    requires
        0 <= i < sizes.len() - 1,
        forall|k: int| 0 <= k < sizes.len() ==> #[trigger] sizes[k] >= 0,
        sizes[i] % 16 == 0,
    ensures
        start_of(sizes, i + 1) == start_of(sizes, i) + sizes[i],
{
    region_bounds(sizes, i);
    reveal(start_of);
}

/// All sizes are sizes.
pub proof fn sizes_are_sizes(rows: Seq<int>, batch: int)
    requires
        0 <= batch,
        forall|k: int| 0 <= k < rows.len() ==> #[trigger] rows[k] >= 0,
    ensures
        forall|k: int| 0 <= k < rows.len() ==> #[trigger] times(rows, batch)[k] >= 0,
{
    assert forall|k: int| 0 <= k < rows.len() implies #[trigger] times(rows, batch)[k] >= 0 by {
        let row = rows[k];
        assert(batch * row >= 0) by (nonlinear_arith)
            requires
                batch >= 0,
                row >= 0,
        ;
    }
}

/// The tensors that are written and read by rows have room for all of them, within the
/// whole.
pub proof fn scratch_bounds(layout: ScratchLayout, batch: int)
    requires
        0 <= batch,
        layout.is_for(batch),
    ensures
        layout.token == 0,
        layout.hidden + batch * (HIDDEN * 2) <= layout.len,
        layout.logits + batch * (VOCAB * 4) <= layout.argmax_partial,
        layout.argmax_partial + batch * (ARGMAX_PARTIALS * 2 * 4) == layout.len,
{
    let sizes = times(scratch_rows(), batch);
    sizes_are_sizes(scratch_rows(), batch);
    let at = layout.starts();
    assert(at[0] == layout.token && at[1] == layout.hidden && at[24] == layout.logits && at[25]
        == layout.argmax_partial);
    assert(sizes[1] == batch * (HIDDEN * 2) && sizes[24] == batch * (VOCAB * 4) && sizes[25]
        == batch * (ARGMAX_PARTIALS * 2 * 4));
    regions_are_apart(sizes, 1, 24);
    regions_are_apart(sizes, 24, 25);
    region_bounds(sizes, 25);
    first_region(sizes);
}

/// The tensors that are written and read by rows have room for all of them, within the
/// whole. The two halves of the first linear map's input lie side by side.
pub proof fn mtp_scratch_bounds(layout: MtpScratchLayout, batch: int)
    requires
        0 <= batch,
        layout.is_for(batch),
    ensures
        layout.token == 0,
        layout.target_hidden + batch * (HIDDEN * 2) <= layout.len,
        layout.pre_fc_hidden == layout.pre_fc + batch * (HIDDEN * 2),
        layout.normalized + batch * (HIDDEN * 2) <= layout.len,
        layout.logits + batch * (VOCAB * 4) <= layout.argmax_partial,
        layout.argmax_partial + batch * (ARGMAX_PARTIALS * 2 * 4) == layout.len,
{
    let sizes = times(mtp_scratch_rows(), batch);
    sizes_are_sizes(mtp_scratch_rows(), batch);
    let at = layout.starts();
    assert(at[0] == layout.token && at[2] == layout.target_hidden && at[3] == layout.pre_fc && at[4]
        == layout.pre_fc_hidden && at[8] == layout.normalized && at[22] == layout.logits && at[23]
        == layout.argmax_partial);
    assert(sizes[2] == batch * (HIDDEN * 2) && sizes[3] == batch * (HIDDEN * 2) && sizes[8] == batch
        * (HIDDEN * 2) && sizes[22] == batch * (VOCAB * 4) && sizes[23] == batch * (ARGMAX_PARTIALS
        * 2 * 4));
    regions_are_apart(sizes, 2, 22);
    regions_are_apart(sizes, 8, 22);
    regions_are_apart(sizes, 22, 23);
    region_bounds(sizes, 23);
    first_region(sizes);
    assert(batch * (HIDDEN * 2) == 16 * (batch * 640)) by (nonlinear_arith);
    regions_touch(sizes, 3);
}

/// The hidden states that the drafter is given have a region of their own, before that of
/// the normed embeddings.
pub proof fn mtp_hidden_region(layout: MtpScratchLayout, batch: int)
    requires
        0 <= batch,
        layout.is_for(batch),
    ensures
        layout.target_hidden + batch * (HIDDEN * 2) <= layout.pre_fc,
{
    let sizes = times(mtp_scratch_rows(), batch);
    sizes_are_sizes(mtp_scratch_rows(), batch);
    let at = layout.starts();
    assert(at[2] == layout.target_hidden && at[3] == layout.pre_fc);
    assert(sizes[2] == batch * (HIDDEN * 2));
    regions_are_apart(sizes, 2, 3);
}

} // verus!
