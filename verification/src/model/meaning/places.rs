//! Where the tensors of a pass lie to each other.

use vstd::prelude::*;

use crate::model::layout;
use crate::model::layout::{MtpScratchLayout, ScratchLayout};

verus! {

/// The tensors of a pass of the target start one behind the other.
pub open spec fn in_order(s: ScratchLayout) -> bool {
    &&& s.token < s.hidden < s.normalized < s.branch_output < s.residual < s.post_norm
    &&& s.post_norm < s.mlp_gate < s.mlp_up < s.mlp_active < s.projection < s.aux0 < s.aux1
    &&& s.aux1 < s.small0 < s.small1 < s.conv_output < s.q_norm < s.k_norm < s.beta < s.decay
    &&& s.decay < s.state_output < s.query < s.attention_gate < s.attention_output < s.gated
    &&& s.gated < s.logits < s.argmax_partial
}

/// The tensors of a pass of the drafter start one behind the other, and there is room for a
/// second half behind the first half of a row of the first linear map's input.
pub open spec fn mtp_in_order(s: MtpScratchLayout) -> bool {
    &&& s.token < s.token_embed < s.target_hidden < s.pre_fc < s.pre_fc_hidden < s.fc_input
    &&& s.fc_input + 20_480 <= s.fc_output
    &&& s.fc_output < s.hidden < s.normalized < s.branch_output < s.residual < s.post_norm
    &&& s.post_norm < s.mlp_gate < s.mlp_up < s.mlp_active < s.projection < s.key < s.value
    &&& s.value < s.query < s.attention_gate < s.attention_output < s.gated < s.logits
    &&& s.logits < s.argmax_partial
}

/// Regions that are not empty start one behind the other.
proof fn starts_grow(rows: Seq<int>, batch: int, i: int)
    requires
        1 <= batch,
        0 <= i < rows.len() - 1,
        forall|k: int| 0 <= k < rows.len() ==> #[trigger] rows[k] > 0,
    ensures
        layout::starts(layout::times(rows, batch))[i] + rows[i] <= layout::starts(
            layout::times(rows, batch),
        )[i + 1],
{
    let sizes = layout::times(rows, batch);
    layout::sizes_are_sizes(rows, batch);
    layout::regions_are_apart(sizes, i, i + 1);
    let row = rows[i];
    assert(batch * row >= row) by (nonlinear_arith)
        requires
            batch >= 1,
            row > 0,
    ;
}

/// The tensors of a pass of the target start one behind the other.
pub proof fn scratch_in_order(s: ScratchLayout, batch: int)
    requires
        1 <= batch,
        s.is_for(batch),
    ensures
        in_order(s),
{
    let rows = layout::scratch_rows();
    assert forall|i: int| 0 <= i < 25 implies #[trigger] s.starts()[i] < s.starts()[i + 1] by {
        starts_grow(rows, batch, i);
        assert(rows[i] > 0);
    }
    let at = s.starts();
    assert(at[0] < at[1] && at[1] < at[2] && at[2] < at[3] && at[3] < at[4] && at[4] < at[5]);
    assert(at[5] < at[6] && at[6] < at[7] && at[7] < at[8] && at[8] < at[9] && at[9] < at[10]);
    assert(at[10] < at[11] && at[11] < at[12] && at[12] < at[13] && at[13] < at[14]);
    assert(at[14] < at[15] && at[15] < at[16] && at[16] < at[17] && at[17] < at[18]);
    assert(at[18] < at[19] && at[19] < at[20] && at[20] < at[21] && at[21] < at[22]);
    assert(at[22] < at[23] && at[23] < at[24] && at[24] < at[25]);
}

/// The tensors of a pass of the drafter start one behind the other.
pub proof fn mtp_scratch_in_order(s: MtpScratchLayout, batch: int)
    requires
        1 <= batch,
        s.is_for(batch),
    ensures
        mtp_in_order(s),
{
    let rows = layout::mtp_scratch_rows();
    assert forall|i: int| 0 <= i < 23 implies #[trigger] s.starts()[i] < s.starts()[i + 1] by {
        starts_grow(rows, batch, i);
        assert(rows[i] > 0);
    }
    starts_grow(rows, batch, 5);
    let at = s.starts();
    assert(at[0] < at[1] && at[1] < at[2] && at[2] < at[3] && at[3] < at[4] && at[4] < at[5]);
    assert(at[5] < at[6] && at[6] < at[7] && at[7] < at[8] && at[8] < at[9] && at[9] < at[10]);
    assert(at[10] < at[11] && at[11] < at[12] && at[12] < at[13] && at[13] < at[14]);
    assert(at[14] < at[15] && at[15] < at[16] && at[16] < at[17] && at[17] < at[18]);
    assert(at[18] < at[19] && at[19] < at[20] && at[20] < at[21] && at[21] < at[22]);
    assert(at[22] < at[23]);
}

} // verus!
