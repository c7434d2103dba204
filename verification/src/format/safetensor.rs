//! The safetensors container: eight bytes with the length of the header, the header in
//! JSON, and the tensors' bytes, to which the header's offsets refer.

use vstd::prelude::*;
use vstd::slice::slice_subrange;

use crate::format::dtype;
use crate::format::dtype::{find_dtype, Dtype};
use crate::json;
use crate::json::JsonView;
use crate::text::starts_with;

verus! {

/// A tensor of a shard: where its bytes lie, from the start of the file.
#[derive(Debug)]
pub struct Tensor {
    pub name: String,
    pub dtype: Dtype,
    pub shape: Vec<u64>,
    pub off: u64,
    pub len: u64,
}

/// A tensor as a value.
#[verifier::ext_equal]
pub struct TensorView {
    pub name: Seq<char>,
    pub dtype: Dtype,
    pub shape: Seq<u64>,
    pub off: u64,
    pub len: u64,
}

impl View for Tensor {
    type V = TensorView;

    open spec fn view(&self) -> TensorView {
        TensorView {
            name: self.name@,
            dtype: self.dtype,
            shape: self.shape@,
            off: self.off,
            len: self.len,
        }
    }
}

/// Several tensors as values.
pub open spec fn tensor_views(tensors: Seq<Tensor>) -> Seq<TensorView> {
    Seq::new(tensors.len(), |i: int| tensors[i]@)
}

/// A shard: the bytes of the file, and its table of tensors.
pub struct Shard<'a> {
    pub mmap: &'a [u8],
    /// Where the tensors' bytes start: at the end of the header.
    pub data_start: u64,
    /// How many they are.
    pub data_len: u64,
    pub tensors: Vec<Tensor>,
}

/// The number in eight bytes from `off` on, the lowest byte first.
pub open spec fn u64_at(bytes: Seq<u8>, off: int) -> int {
    bytes[off] + bytes[off + 1] * 0x100 + bytes[off + 2] * 0x1_0000 + bytes[off + 3] * 0x100_0000
        + bytes[off + 4] * 0x1_0000_0000 + bytes[off + 5] * 0x100_0000_0000 + bytes[off + 6]
        * 0x1_0000_0000_0000 + bytes[off + 7] * 0x100_0000_0000_0000
}

/// The number in eight bytes from `off` on, the lowest byte first.
pub fn read_u64_le(b: &[u8], off: usize) -> (number: u64)
    requires
        off + 8 <= b@.len(),
    ensures
        number == u64_at(b@, off as int),
{
    let a0: u64 = b[off] as u64;
    let a1: u64 = b[off + 1] as u64;
    let a2: u64 = b[off + 2] as u64;
    let a3: u64 = b[off + 3] as u64;
    let a4: u64 = b[off + 4] as u64;
    let a5: u64 = b[off + 5] as u64;
    let a6: u64 = b[off + 6] as u64;
    let a7: u64 = b[off + 7] as u64;
    a0 + a1 * 0x100 + a2 * 0x1_0000 + a3 * 0x100_0000 + a4 * 0x1_0000_0000 + a5 * 0x100_0000_0000
        + a6 * 0x1_0000_0000_0000 + a7 * 0x100_0000_0000_0000
}

/// A whole number that is not negative.
pub open spec fn natural(value: JsonView) -> Option<u64> {
    match value {
        JsonView::Number(Some(number), _) => if number >= 0 {
            Some(number as u64)
        } else {
            None
        },
        _ => None,
    }
}

/// Whole numbers that are not negative.
pub open spec fn naturals(values: Seq<JsonView>) -> Option<Seq<u64>>
    decreases values.len(),
{
    if values.len() == 0 {
        Some(Seq::empty())
    } else {
        match (naturals(values.drop_last()), natural(values.last())) {
            (Some(earlier), Some(last)) => Some(earlier.push(last)),
            _ => None,
        }
    }
}

/// The shape that a tensor's entry gives.
pub open spec fn shape_in(meta: JsonView) -> Option<Seq<u64>> {
    match json::json_member(meta, "shape"@) {
        Some(JsonView::Array(values)) => naturals(values),
        _ => None,
    }
}

/// The element type that a tensor's entry gives.
pub open spec fn dtype_in(meta: JsonView) -> Option<Dtype> {
    match json::json_member(meta, "dtype"@) {
        Some(JsonView::Text(name)) => dtype::dtype_named(name),
        _ => None,
    }
}

/// Where a tensor's bytes start and end, as its entry gives it.
pub open spec fn offsets_in(meta: JsonView) -> Option<(u64, u64)> {
    match json::json_member(meta, "data_offsets"@) {
        Some(JsonView::Array(values)) => if values.len() < 2 {
            None
        } else {
            match (natural(values[0]), natural(values[1])) {
                (Some(start), Some(end)) => if start <= end {
                    Some((start, end))
                } else {
                    None
                },
                _ => None,
            }
        },
        _ => None,
    }
}

/// The tensor that an entry of the header describes; `None` where it describes none.
pub open spec fn tensor_in(name: Seq<char>, meta: JsonView, data_start: u64) -> Option<TensorView> {
    match (dtype_in(meta), offsets_in(meta), shape_in(meta)) {
        (Some(dtype), Some((start, end)), Some(shape)) => if data_start + start > u64::MAX {
            None
        } else {
            Some(
                TensorView {
                    name,
                    dtype,
                    shape,
                    off: (data_start + start) as u64,
                    len: (end - start) as u64,
                },
            )
        },
        _ => None,
    }
}

/// Whether an entry is not about a tensor but about the file.
pub open spec fn is_reserved(name: Seq<char>) -> bool {
    "__"@.is_prefix_of(name)
}

/// The tensors that the entries of a header describe, in order; `None` where one of them
/// describes none.
pub open spec fn tensors_in(entries: Seq<(Seq<char>, JsonView)>, data_start: u64) -> Option<
    Seq<TensorView>,
>
    decreases entries.len(),
{
    if entries.len() == 0 {
        Some(Seq::empty())
    } else {
        let (name, meta) = entries.last();
        match (tensors_in(entries.drop_last(), data_start), tensor_in(name, meta, data_start)) {
            (None, _) => None,
            (Some(earlier), tensor) => if is_reserved(name) {
                Some(earlier)
            } else {
                match tensor {
                    Some(tensor) => Some(earlier.push(tensor)),
                    None => None,
                }
            },
        }
    }
}

/// Where the tensors' bytes start in a file, where its header fits in it.
pub open spec fn data_start_of(bytes: Seq<u8>) -> Option<u64> {
    if bytes.len() < 8 || 8 + u64_at(bytes, 0) > bytes.len() {
        None
    } else {
        Some((8 + u64_at(bytes, 0)) as u64)
    }
}

/// The table of tensors of a file; `None` where it is no such file.
pub open spec fn table_of(bytes: Seq<u8>) -> Option<Seq<TensorView>> {
    match data_start_of(bytes) {
        None => None,
        Some(data_start) => match json::json_parse_bytes(bytes.subrange(8, data_start as int)) {
            Some(JsonView::Object(entries)) => tensors_in(entries, data_start),
            _ => None,
        },
    }
}

/// `shard` is what the file holds.
pub open spec fn is_shard_of(shard: Shard, bytes: Seq<u8>) -> bool {
    &&& shard.mmap@ == bytes
    &&& data_start_of(bytes) == Some(shard.data_start)
    &&& shard.data_start + shard.data_len == bytes.len()
    &&& table_of(bytes) == Some(tensor_views(shard.tensors@))
}

/// A whole number that is not negative.
fn read_natural(value: &serde_json::Value) -> (number: Option<u64>)
    ensures
        number == natural(json::json_view(*value)),
{
    match json::as_integer(value) {
        Some(number) => if number >= 0 {
            Some(number as u64)
        } else {
            None
        },
        None => None,
    }
}

/// The shape that a tensor's entry gives.
pub fn shape_of(meta: &serde_json::Value) -> (shape: Option<Vec<u64>>)
    ensures
        match (shape, shape_in(json::json_view(*meta))) {
            (Some(shape), Some(view)) => shape@ == view,
            (None, None) => true,
            _ => false,
        },
{
    let values = match json::member(meta, "shape") {
        Some(values) => match json::as_array(values) {
            Some(values) => values,
            None => {
                return None;
            },
        },
        None => {
            return None;
        },
    };
    let ghost all = json::json_views(values@);
    let mut shape: Vec<u64> = Vec::new();
    let mut i: usize = 0;
    assert(all.take(0) =~= Seq::empty());
    while i < values.len()
        invariant
            i <= values@.len(),
            all == json::json_views(values@),
            naturals(all.take(i as int)) == Some(shape@),
            shape_in(json::json_view(*meta)) == naturals(all),
        decreases values@.len() - i,
    {
        assert(all.take(i + 1).drop_last() =~= all.take(i as int));
        match read_natural(&values[i]) {
            Some(number) => {
                shape.push(number);
            },
            None => {
                proof {
                    unnatural_stays(all, i + 1);
                }
                return None;
            },
        }
        i += 1;
    }
    assert(all.take(i as int) =~= all);
    Some(shape)
}

/// Where some of the values are no natural numbers, all of them are not.
proof fn unnatural_stays(values: Seq<JsonView>, n: int)
    requires
        0 <= n <= values.len(),
        naturals(values.take(n)) is None,
    ensures
        naturals(values) is None,
    decreases values.len() - n,
{
    if n < values.len() {
        assert(values.take(n + 1).drop_last() =~= values.take(n));
        unnatural_stays(values, n + 1);
    } else {
        assert(values.take(n) =~= values);
    }
}

/// The element type that a tensor's entry gives.
fn read_dtype(meta: &serde_json::Value) -> (dtype: Option<Dtype>)
    ensures
        dtype == dtype_in(json::json_view(*meta)),
{
    match json::member(meta, "dtype") {
        Some(value) => match json::as_text(value) {
            Some(name) => find_dtype(name),
            None => None,
        },
        None => None,
    }
}

/// Where a tensor's bytes start and end, as its entry gives it.
fn read_offsets(meta: &serde_json::Value) -> (offsets: Option<(u64, u64)>)
    ensures
        offsets == offsets_in(json::json_view(*meta)),
{
    let values = match json::member(meta, "data_offsets") {
        Some(value) => match json::as_array(value) {
            Some(values) => values,
            None => {
                return None;
            },
        },
        None => {
            return None;
        },
    };
    if values.len() < 2 {
        return None;
    }
    match (read_natural(&values[0]), read_natural(&values[1])) {
        (Some(start), Some(end)) => if start <= end {
            Some((start, end))
        } else {
            None
        },
        _ => None,
    }
}

/// The tensor that an entry of the header describes.
fn read_tensor(name: &String, meta: &serde_json::Value, data_start: u64) -> (tensor: Option<Tensor>)
    ensures
        match (tensor, tensor_in(name@, json::json_view(*meta), data_start)) {
            (Some(tensor), Some(view)) => tensor@ == view,
            (None, None) => true,
            _ => false,
        },
{
    match (read_dtype(meta), read_offsets(meta), shape_of(meta)) {
        (Some(dtype), Some((start, end)), Some(shape)) => {
            if start > u64::MAX - data_start {
                return None;
            }
            Some(Tensor { name: name.clone(), dtype, shape, off: data_start + start, len: end - start })
        },
        _ => None,
    }
}

/// Where some of the entries describe no tensors, all of them do not.
proof fn no_table_stays(entries: Seq<(Seq<char>, JsonView)>, data_start: u64, n: int)
    requires
        0 <= n <= entries.len(),
        tensors_in(entries.take(n), data_start) is None,
    ensures
        tensors_in(entries, data_start) is None,
    decreases entries.len() - n,
{
    if n < entries.len() {
        assert(entries.take(n + 1).drop_last() =~= entries.take(n));
        no_table_stays(entries, data_start, n + 1);
    } else {
        assert(entries.take(n) =~= entries);
    }
}

/// The tensors that a header describes; `None` where it is none.
pub fn parse_header(header: &[u8], data_start: u64) -> (tensors: Option<Vec<Tensor>>)
    ensures
        match (
            tensors,
            match json::json_parse_bytes(header@) {
                Some(JsonView::Object(entries)) => tensors_in(entries, data_start),
                _ => None,
            },
        ) {
            (Some(tensors), Some(views)) => tensor_views(tensors@) == views,
            (None, None) => true,
            _ => false,
        },
{
    let root = match json::parse_bytes(header) {
        Some(root) => root,
        None => {
            return None;
        },
    };
    let map = match json::as_object(&root) {
        Some(map) => map,
        None => {
            return None;
        },
    };
    let entries = json::entries(map);
    let ghost all = json::json_entries(*map);
    let mut tensors: Vec<Tensor> = Vec::new();
    let mut i: usize = 0;
    assert(all.take(0) =~= Seq::empty());
    assert(tensor_views(tensors@) =~= Seq::empty());
    while i < entries.len()
        invariant
            i <= entries@.len(),
            entries@.len() == all.len(),
            json::json_parse_bytes(header@) == Some(JsonView::Object(all)),
            forall|k: int|
                0 <= k < entries@.len() ==> (#[trigger] entries@[k]).0@ == all[k].0
                    && json::json_view(*entries@[k].1) == all[k].1,
            tensors_in(all.take(i as int), data_start) == Some(tensor_views(tensors@)),
        decreases entries@.len() - i,
    {
        assert(all.take(i + 1).drop_last() =~= all.take(i as int));
        let (name, meta): (&String, &serde_json::Value) = entries[i];
        assert(all.take(i + 1).last() == (name@, json::json_view(*meta)));
        if !starts_with(name.as_str(), "__") {
            match read_tensor(name, meta, data_start) {
                Some(tensor) => {
                    let ghost before = tensor_views(tensors@);
                    tensors.push(tensor);
                    assert(tensor_views(tensors@) =~= before.push(tensor@));
                },
                None => {
                    proof {
                        no_table_stays(all, data_start, i + 1);
                    }
                    return None;
                },
            }
        }
        i += 1;
    }
    assert(all.take(i as int) =~= all);
    Some(tensors)
}

/// Reads the table of a shard; `None` where the bytes are none.
pub fn try_open<'a>(bytes: &'a [u8]) -> (shard: Option<Shard<'a>>)
    ensures
        match shard {
            Some(shard) => is_shard_of(shard, bytes@),
            None => table_of(bytes@) is None,
        },
{
    if bytes.len() < 8 {
        return None;
    }
    let header_len: u64 = read_u64_le(bytes, 0);
    if header_len > (bytes.len() - 8) as u64 {
        return None;
    }
    let data_start: u64 = 8 + header_len;
    let header = slice_subrange(bytes, 8, data_start as usize);
    match parse_header(header, data_start) {
        Some(tensors) => Some(
            Shard { mmap: bytes, data_start, data_len: bytes.len() as u64 - data_start, tensors },
        ),
        None => None,
    }
}

/// Reads the table of a shard.
pub fn open<'a>(bytes: &'a [u8]) -> (shard: Shard<'a>)
    requires
        table_of(bytes@) is Some,
    ensures
        is_shard_of(shard, bytes@),
{
    try_open(bytes).unwrap()
}

/// The bytes of all the tensors of a shard.
pub fn data_bytes<'a>(shard: &Shard<'a>) -> (data: &'a [u8])
    requires
        shard.data_start + shard.data_len == shard.mmap@.len(),
    ensures
        data@ == shard.mmap@.skip(shard.data_start as int),
{
    let end: usize = shard.mmap.len();
    let start: usize = shard.data_start as usize;
    let data = slice_subrange(shard.mmap, start, end);
    assert(data@ =~= shard.mmap@.skip(shard.data_start as int));
    data
}

// ---------------------------------------------------------------------------
// Laws
// ---------------------------------------------------------------------------

/// Every entry of a header that is about a tensor is in the table, as what it says.
pub proof fn entries_are_in_the_table(
    entries: Seq<(Seq<char>, JsonView)>,
    data_start: u64,
    i: int,
)
    requires
        tensors_in(entries, data_start) is Some,
        0 <= i < entries.len(),
        !is_reserved(entries[i].0),
    ensures
        tensor_in(entries[i].0, entries[i].1, data_start) is Some,
        tensors_in(entries, data_start)->0.contains(
            tensor_in(entries[i].0, entries[i].1, data_start)->0,
        ),
    decreases entries.len(),
{
    let table = tensors_in(entries, data_start)->0;
    let front = entries.drop_last();
    if i < entries.len() - 1 {
        entries_are_in_the_table(front, data_start, i);
        let tensor = tensor_in(entries[i].0, entries[i].1, data_start)->0;
        let earlier = tensors_in(front, data_start)->0;
        let j = choose|j: int| 0 <= j < earlier.len() && earlier[j] == tensor;
        assert(table[j] == tensor);
    } else {
        assert(table.last() == tensor_in(entries[i].0, entries[i].1, data_start)->0);
        assert(table[table.len() - 1] == table.last());
    }
}

/// Every tensor of the table is one that an entry of the header is about.
pub proof fn tensors_are_in_the_header(
    entries: Seq<(Seq<char>, JsonView)>,
    data_start: u64,
    j: int,
) -> (i: int)
    requires
        tensors_in(entries, data_start) is Some,
        0 <= j < tensors_in(entries, data_start)->0.len(),
    ensures
        0 <= i < entries.len(),
        !is_reserved(entries[i].0),
        tensor_in(entries[i].0, entries[i].1, data_start) == Some(
            tensors_in(entries, data_start)->0[j],
        ),
    decreases entries.len(),
{
    let earlier = tensors_in(entries.drop_last(), data_start)->0;
    if j < earlier.len() {
        tensors_are_in_the_header(entries.drop_last(), data_start, j)
    } else {
        entries.len() - 1
    }
}

/// A tensor takes as many bytes as its entry's offsets are apart, and starts as far behind
/// the header as the first of them says; its element type and its shape are the entry's.
pub proof fn tensors_lie_where_the_header_says(name: Seq<char>, meta: JsonView, data_start: u64)
    requires
        tensor_in(name, meta, data_start) is Some,
    ensures
        ({
            let tensor = tensor_in(name, meta, data_start)->0;
            &&& tensor.name == name
            &&& offsets_in(meta) == Some(
                ((tensor.off - data_start) as u64, (tensor.off - data_start + tensor.len) as u64),
            )
            &&& dtype_in(meta) == Some(tensor.dtype)
            &&& shape_in(meta) == Some(tensor.shape)
        }),
{
}

} // verus!
