//! The files of a checkpoint that hold weights.

use vstd::prelude::*;
use vstd::string::*;

use crate::text;
use crate::text::{chars_of, comes_before, find_in, join};

verus! {

/// Whether a file holds weights: its name has the extension of such files.
pub open spec fn is_shard(name: Seq<char>) -> bool {
    let extension = ".safetensors"@;
    &&& name.len() > extension.len()
    &&& name.skip(name.len() - extension.len()) == extension
}

/// The files that hold weights, in the order in which they are named.
pub open spec fn shards_among(names: Seq<Seq<char>>) -> Seq<Seq<char>>
    decreases names.len(),
{
    if names.len() == 0 {
        Seq::empty()
    } else if is_shard(names.last()) {
        shards_among(names.drop_last()).push(names.last())
    } else {
        shards_among(names.drop_last())
    }
}

/// Some texts are in order.
pub open spec fn is_sorted(texts: Seq<Seq<char>>) -> bool {
    forall|i: int, j: int|
        0 <= i < j < texts.len() ==> !text::text_before(#[trigger] texts[j], #[trigger] texts[i])
}

/// Whether a file holds weights.
pub fn holds_weights(name: &str) -> (answer: bool)
    ensures
        answer == is_shard(name@),
{
    let chars = chars_of(name);
    let extension = chars_of(".safetensors");
    if chars.len() <= extension.len() {
        return false;
    }
    let start: usize = chars.len() - extension.len();
    let found = find_in(&chars, &extension, start, chars.len());
    assert(chars@.take(chars@.len() as int) =~= chars@);
    assert(name@.skip(start as int) =~= name@.subrange(start as int, start + extension@.len()));
    proof {
        reveal_with_fuel(text::find_from, 2);
    }
    found.is_some()
}

/// Whether any file holds weights.
pub fn has_safetensors(names: &[String]) -> (answer: bool)
    ensures
        answer == exists|i: int| 0 <= i < names@.len() && is_shard(#[trigger] names@[i]@),
{
    let mut i: usize = 0;
    while i < names.len()
        invariant
            i <= names@.len(),
            forall|k: int| 0 <= k < i ==> !is_shard(#[trigger] names@[k]@),
        decreases names@.len() - i,
    {
        if holds_weights(names[i].as_str()) {
            assert(is_shard(names@[i as int]@));
            return true;
        }
        i += 1;
    }
    false
}

/// Puts a text to its place among sorted ones.
fn insert_sorted(sorted: &mut Vec<String>, name: String)
    requires
        is_sorted(text::texts(old(sorted)@)),
    ensures
        is_sorted(text::texts(final(sorted)@)),
        text::texts(final(sorted)@).to_multiset() == text::texts(old(sorted)@).to_multiset().insert(
            name@,
        ),
{
    let ghost before = text::texts(sorted@);
    let mut i: usize = 0;
    while i < sorted.len() && !comes_before(name.as_str(), sorted[i].as_str())
        invariant
            i <= sorted@.len(),
            sorted@ == old(sorted)@,
            before == text::texts(sorted@),
            forall|k: int| 0 <= k < i ==> !text::text_before(name@, #[trigger] before[k]),
        decreases sorted@.len() - i,
    {
        i += 1;
    }
    let ghost word = name@;
    sorted.insert(i, name);
    proof {
        let after = text::texts(sorted@);
        assert(after =~= before.insert(i as int, word));
        assert(after.remove(i as int) =~= before);
        after.to_multiset_ensures();
        assert(after.to_multiset() =~= before.to_multiset().insert(word));
        assert forall|a: int, b: int| 0 <= a < b < after.len() implies !text::text_before(
            #[trigger] after[b],
            #[trigger] after[a],
        ) by {
            if a == i {
                let other = before[b - 1];
                let next = before[i as int];
                text::before_is_asymmetric(word, next);
                if text::text_before(other, word) {
                    text::before_is_transitive(other, word, next);
                    if b - 1 > i {
                        assert(!text::text_before(before[b - 1], before[i as int]));
                    }
                }
            } else if b == i {
                assert(!text::text_before(word, before[a]));
            } else {
                let x = if a < i {
                    a
                } else {
                    a - 1
                };
                let y = if b < i {
                    b
                } else {
                    b - 1
                };
                assert(!text::text_before(before[y], before[x]));
            }
        }
    }
}

/// The files of a directory that hold weights, in order; an error where there are none.
pub fn shard_names(directory: &str, names: &[String]) -> (shards: Result<Vec<String>, String>)
    ensures
        match shards {
            Ok(shards) => {
                &&& shards@.len() > 0
                &&& is_sorted(text::texts(shards@))
                &&& text::texts(shards@).to_multiset() == shards_among(
                    text::texts(names@),
                ).to_multiset()
            },
            Err(message) => {
                &&& shards_among(text::texts(names@)).len() == 0
                &&& message@ == "no safetensors shards in "@ + directory@
            },
        },
{
    let ghost all = text::texts(names@);
    let mut shards: Vec<String> = Vec::new();
    let mut i: usize = 0;
    assert(all.take(0) =~= Seq::empty());
    assert(text::texts(shards@) =~= Seq::empty());
    while i < names.len()
        invariant
            i <= names@.len(),
            all == text::texts(names@),
            is_sorted(text::texts(shards@)),
            text::texts(shards@).to_multiset() == shards_among(all.take(i as int)).to_multiset(),
        decreases names@.len() - i,
    {
        let ghost next = all.take(i + 1);
        assert(next.drop_last() =~= all.take(i as int));
        assert(next.last() == names@[i as int]@);
        if holds_weights(names[i].as_str()) {
            proof {
                shards_among(all.take(i as int)).to_multiset_ensures();
            }
            insert_sorted(&mut shards, names[i].clone());
        }
        i += 1;
    }
    assert(all.take(i as int) =~= all);
    proof {
        text::texts(shards@).to_multiset_ensures();
        shards_among(all).to_multiset_ensures();
    }
    if shards.len() == 0 {
        Err(join("no safetensors shards in ", directory))
    } else {
        Ok(shards)
    }
}

/// There is one order: two sorted lists of the same texts are the same.
pub proof fn sorted_lists_are_one(a: Seq<Seq<char>>, b: Seq<Seq<char>>)
    requires
        is_sorted(a),
        is_sorted(b),
        a.to_multiset() == b.to_multiset(),
    ensures
        a == b,
    decreases a.len(),
{
    a.to_multiset_ensures();
    b.to_multiset_ensures();
    assert(a.len() == b.len());
    if a.len() > 0 {
        let n = a.len() - 1;
        let x = a[n];
        let y = b[n];
        assert(a.contains(x));
        assert(b.to_multiset().count(x) > 0);
        assert(b.contains(x));
        assert(b.contains(y));
        assert(a.to_multiset().count(y) > 0);
        assert(a.contains(y));
        let i = choose|i: int| 0 <= i < b.len() && b[i] == x;
        let j = choose|j: int| 0 <= j < a.len() && a[j] == y;
        if x != y {
            text::before_is_total(x, y);
            assert(i < n && j < n);
            assert(!text::text_before(b[n], b[i]));
            assert(!text::text_before(a[n], a[j]));
        }
        assert(a.remove(n) =~= a.drop_last());
        assert(b.remove(n) =~= b.drop_last());
        sorted_lists_are_one(a.drop_last(), b.drop_last());
        assert(a =~= a.drop_last().push(x));
        assert(b =~= b.drop_last().push(y));
    }
}

} // verus!
