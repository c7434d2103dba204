//! What is read back from the GPU: where the results of a row lie, and which token has the
//! largest logit. Single precision numbers are taken as their bits.

use vstd::prelude::*;

use crate::model::command;
use crate::model::layout::ARGMAX_PARTIALS;
use crate::model::{HIDDEN, VOCAB};

verus! {

/// Where the results of a row lie in the scratch memory: its hidden state, its logits, and
/// the partial results of the search for the largest of them, as values and as tokens.
#[derive(Debug, Clone, Copy, PartialEq, Eq, Structural)]
pub struct RowPlaces {
    pub hidden: usize,
    pub logits: usize,
    pub maxes: usize,
    pub indices: usize,
}

/// The places of row `row` where the tensors start at the given places.
pub open spec fn row_places(hidden: int, logits: int, argmax_partial: int, row: int) -> RowPlaces {
    let partial = argmax_partial + row * (ARGMAX_PARTIALS * 2 * 4);
    RowPlaces {
        hidden: (hidden + row * (HIDDEN * 2)) as usize,
        logits: (logits + row * (VOCAB * 4)) as usize,
        maxes: partial as usize,
        indices: (partial + ARGMAX_PARTIALS * 4) as usize,
    }
}

/// All that is read of a row lies within the first `len` bytes.
pub open spec fn lies_within(places: RowPlaces, len: int) -> bool {
    &&& places.hidden + HIDDEN * 2 <= len
    &&& places.logits + VOCAB * 4 <= len
    &&& places.maxes + ARGMAX_PARTIALS * 4 == places.indices
    &&& places.indices + ARGMAX_PARTIALS * 4 <= len
}

/// The places of row `row` of `batch`.
pub(crate) fn places_of(
    hidden: usize,
    logits: usize,
    argmax_partial: usize,
    len: usize,
    batch: Ghost<int>,
    row: usize,
) -> (places: RowPlaces)
    requires
        row < batch@,
        hidden + batch@ * (HIDDEN * 2) <= len,
        logits + batch@ * (VOCAB * 4) <= len,
        argmax_partial + batch@ * (ARGMAX_PARTIALS * 2 * 4) <= len,
    ensures
        places == row_places(hidden as int, logits as int, argmax_partial as int, row as int),
        lies_within(places, len as int),
{
    proof {
        row_fits(row as int, batch@, HIDDEN * 2);
        row_fits(row as int, batch@, VOCAB * 4);
        row_fits(row as int, batch@, ARGMAX_PARTIALS * 2 * 4);
    }
    let partial: usize = argmax_partial + row * (ARGMAX_PARTIALS * 2 * 4);
    RowPlaces {
        hidden: hidden + row * (HIDDEN * 2),
        logits: logits + row * (VOCAB * 4),
        maxes: partial,
        indices: partial + ARGMAX_PARTIALS * 4,
    }
}

/// A row ends no later than all rows do.
pub proof fn row_fits(row: int, rows: int, size: int)
    requires
        0 <= row < rows,
        0 <= size,
    ensures
        0 <= row * size,
        row * size + size <= rows * size,
{
    assert(0 <= row * size && row * size + size <= rows * size) by (nonlinear_arith)
        requires
            0 <= row < rows,
            0 <= size,
    ;
}

// ---------------------------------------------------------------------------
// Words
// ---------------------------------------------------------------------------

/// The word whose bytes start at `at`, the lowest first.
pub open spec fn word_at(bytes: Seq<u8>, at: int) -> u32 {
    (bytes[at] + bytes[at + 1] * 0x100 + bytes[at + 2] * 0x1_0000 + bytes[at + 3]
        * 0x100_0000) as u32
}

/// The words that some bytes hold. Up to three bytes that make no word are left over.
pub open spec fn words_in(bytes: Seq<u8>) -> Seq<u32> {
    Seq::new(bytes.len() / 4, |i: int| word_at(bytes, 4 * i))
}

/// The words that some bytes hold.
pub fn words_of(bytes: &[u8]) -> (words: Vec<u32>)
    ensures
        words@ == words_in(bytes@),
{
    let len: usize = bytes.len();
    let count: usize = len / 4;
    let mut words: Vec<u32> = Vec::new();
    let mut i: usize = 0;
    while i < count
        invariant
            i <= count,
            len == bytes@.len(),
            count == len / 4,
            words@ == words_in(bytes@).take(i as int),
        decreases count - i,
    {
        let at: usize = 4 * i;
        let word: u32 = bytes[at] as u32 + bytes[at + 1] as u32 * 0x100 + bytes[at + 2] as u32
            * 0x1_0000 + bytes[at + 3] as u32 * 0x100_0000;
        words.push(word);
        i += 1;
        assert(words@ =~= words_in(bytes@).take(i as int));
    }
    assert(words_in(bytes@).take(count as int) =~= words_in(bytes@));
    words
}

/// Some words are read back from their bytes.
pub proof fn words_survive_bytes(words: Seq<u32>)
    ensures
        words_in(command::words_bytes(words)) == words,
    decreases words.len(),
{
    bytes_of_words(words);
    let bytes = command::words_bytes(words);
    if words.len() > 0 {
        let first = words.drop_last();
        let front = command::words_bytes(first);
        let word = words.last();
        words_survive_bytes(first);
        bytes_of_words(first);
        word_survives_bytes(word);
        assert(bytes == front + command::word_bytes(word));
        assert forall|i: int| 0 <= i < words.len() implies words_in(bytes)[i] == words[i] by {
            if i < first.len() {
                assert(words_in(front)[i] == first[i]);
                assert(word_at(bytes, 4 * i) == word_at(front, 4 * i));
            } else {
                assert(word_at(bytes, 4 * i) == word_at(command::word_bytes(word), 0));
            }
        }
    }
    assert(words_in(bytes) =~= words);
}

/// A word is read back from its bytes.
proof fn word_survives_bytes(word: u32)
    ensures
        word_at(command::word_bytes(word), 0) == word,
{
    assert(word % 0x100 + (word / 0x100 % 0x100) * 0x100 + (word / 0x1_0000 % 0x100) * 0x1_0000 + (
    word / 0x100_0000) * 0x100_0000 == word);
}

/// A word takes four bytes.
proof fn bytes_of_words(words: Seq<u32>)
    ensures
        command::words_bytes(words).len() == 4 * words.len(),
    decreases words.len(),
{
    if words.len() > 0 {
        bytes_of_words(words.drop_last());
    }
}

// ---------------------------------------------------------------------------
// Numbers by their bits
// ---------------------------------------------------------------------------

/// Where a single precision number stands in the total order of all bit patterns: by its
/// size, the negative ones mirrored below the others, and the negative zero below zero.
pub open spec fn total_rank(bits: u32) -> int {
    if bits < 0x8000_0000 {
        bits as int
    } else {
        0x7fff_ffff - bits
    }
}

/// Whether bits stand for no number.
pub open spec fn is_nan(bits: u32) -> bool {
    bits % 0x8000_0000 > 0x7f80_0000
}

/// Where a number stands among the numbers: the two zeros are one.
pub open spec fn rank(bits: u32) -> int {
    if bits < 0x8000_0000 {
        bits as int
    } else {
        0x8000_0000 - bits
    }
}

/// The bits of the negative infinity.
pub const NEGATIVE_INFINITY: u32 = 0xff80_0000;

/// Whether a number is larger than another. Nothing is, of what is no number.
pub open spec fn exceeds(a: u32, b: u32) -> bool {
    !is_nan(a) && !is_nan(b) && rank(a) > rank(b)
}

/// Where a number stands in the total order.
fn total_rank_of(bits: u32) -> (rank: i64)
    ensures
        rank == total_rank(bits),
{
    if bits < 0x8000_0000 {
        bits as i64
    } else {
        0x7fff_ffff - bits as i64
    }
}

/// Whether a number is larger than another.
fn is_above(a: u32, b: u32) -> (answer: bool)
    ensures
        answer == exceeds(a, b),
{
    if a % 0x8000_0000 > 0x7f80_0000 || b % 0x8000_0000 > 0x7f80_0000 {
        return false;
    }
    let left: i64 = if a < 0x8000_0000 {
        a as i64
    } else {
        0x8000_0000 - a as i64
    };
    let right: i64 = if b < 0x8000_0000 {
        b as i64
    } else {
        0x8000_0000 - b as i64
    };
    left > right
}

/// `i` is the last place of the largest of the values in the total order.
pub open spec fn is_last_largest(values: Seq<u32>, i: int) -> bool {
    &&& 0 <= i < values.len()
    &&& forall|k: int|
        0 <= k < values.len() ==> total_rank(#[trigger] values[k]) <= total_rank(values[i])
    &&& forall|k: int|
        i < k < values.len() ==> total_rank(#[trigger] values[k]) < total_rank(values[i])
}

/// The place of the largest logit: the last one where there are several, and the first
/// place where there are no logits.
pub fn argmax(values: &[u32]) -> (index: u32)
    requires
        values@.len() <= u32::MAX,
    ensures
        values@.len() == 0 ==> index == 0,
        values@.len() > 0 ==> is_last_largest(values@, index as int),
{
    let mut best: usize = 0;
    let mut i: usize = 1;
    if values.len() == 0 {
        return 0;
    }
    while i < values.len()
        invariant
            1 <= i <= values@.len(),
            best < i,
            forall|k: int|
                0 <= k < i ==> total_rank(#[trigger] values@[k]) <= total_rank(values@[best as int]),
            forall|k: int|
                best < k < i ==> total_rank(#[trigger] values@[k]) < total_rank(
                    values@[best as int],
                ),
        decreases values@.len() - i,
    {
        if total_rank_of(values[i]) >= total_rank_of(values[best]) {
            best = i;
        }
        i += 1;
    }
    best as u32
}

/// There is one largest value's last place.
pub proof fn last_largest_is_one(values: Seq<u32>, i: int, j: int)
    requires
        is_last_largest(values, i),
        is_last_largest(values, j),
    ensures
        i == j,
{
    assert(total_rank(values[i]) <= total_rank(values[j]));
    assert(total_rank(values[j]) <= total_rank(values[i]));
}

/// `i` is the first place of the largest of the values that are above the negative
/// infinity.
pub open spec fn is_first_largest(values: Seq<u32>, i: int) -> bool {
    &&& 0 <= i < values.len()
    &&& exceeds(values[i], NEGATIVE_INFINITY)
    &&& forall|k: int| 0 <= k < values.len() ==> !exceeds(#[trigger] values[k], values[i])
    &&& forall|k: int|
        0 <= k < i && exceeds(#[trigger] values[k], NEGATIVE_INFINITY) ==> exceeds(
            values[i],
            values[k],
        )
}

/// No value is above the negative infinity.
pub open spec fn none_above(values: Seq<u32>) -> bool {
    forall|k: int| 0 <= k < values.len() ==> !exceeds(#[trigger] values[k], NEGATIVE_INFINITY)
}

/// The token of the largest of the partial results: that of the first one where there are
/// several, and token zero where there is none.
pub fn best_partial(maxes: &[u32], indices: &[u32]) -> (token: u32)
    requires
        maxes@.len() <= indices@.len(),
    ensures
        none_above(maxes@) ==> token == 0,
        forall|i: int| is_first_largest(maxes@, i) ==> token == #[trigger] indices@[i],
        none_above(maxes@) || exists|i: int|
            is_first_largest(maxes@, i) && token == #[trigger] indices@[i],
{
    let mut best: u32 = NEGATIVE_INFINITY;
    let mut token: u32 = 0;
    let mut i: usize = 0;
    let ghost mut at: int = -1;
    while i < maxes.len()
        invariant
            i <= maxes@.len() <= indices@.len(),
            -1 <= at < i,
            at == -1 ==> best == NEGATIVE_INFINITY && token == 0 && none_above(
                maxes@.take(i as int),
            ),
            at >= 0 ==> {
                &&& best == maxes@[at]
                &&& token == indices@[at]
                &&& is_first_largest(maxes@.take(i as int), at)
            },
        decreases maxes@.len() - i,
    {
        let ghost before = maxes@.take(i as int);
        let ghost after = maxes@.take(i + 1);
        assert(forall|k: int| 0 <= k < i ==> #[trigger] after[k] == before[k]);
        if is_above(maxes[i], best) {
            best = maxes[i];
            token = indices[i];
            proof {
                at = i as int;
            }
        }
        i += 1;
    }
    assert(maxes@.take(i as int) =~= maxes@);
    proof {
        if at >= 0 {
            assert(is_first_largest(maxes@, at) && token == indices@[at]);
            assert forall|j: int| is_first_largest(maxes@, j) implies token
                == #[trigger] indices@[j] by {
                first_largest_is_one(maxes@, at, j);
            }
            assert(exceeds(maxes@[at], NEGATIVE_INFINITY));
        }
    }
    token
}

/// There is one largest value's first place.
pub proof fn first_largest_is_one(values: Seq<u32>, i: int, j: int)
    requires
        is_first_largest(values, i),
        is_first_largest(values, j),
    ensures
        i == j,
{
    if i < j {
        assert(exceeds(values[i], NEGATIVE_INFINITY));
    } else if j < i {
        assert(exceeds(values[j], NEGATIVE_INFINITY));
    }
}

} // verus!
