//! The index of all the tensors in the shards of a model.

use vstd::prelude::*;
use vstd::slice::slice_subrange;

use crate::format::dtype;
use crate::format::dtype::Dtype;
use crate::format::safetensor as st;
use crate::format::safetensor::{data_bytes, Shard, Tensor, TensorView};
use crate::json::JsonView;
use crate::text::same_text;

verus! {

/// Where a tensor's bytes lie: in which shard, and where in its data.
#[derive(Debug)]
pub struct WeightSlot {
    pub shard: usize,
    pub offset: usize,
    pub len: usize,
    pub dtype: Dtype,
    pub shape: Vec<u64>,
}

/// A slot as a value.
#[verifier::ext_equal]
pub struct SlotView {
    pub shard: int,
    pub offset: int,
    pub len: int,
    pub dtype: Dtype,
    pub shape: Seq<u64>,
}

impl View for WeightSlot {
    type V = SlotView;

    open spec fn view(&self) -> SlotView {
        SlotView {
            shard: self.shard as int,
            offset: self.offset as int,
            len: self.len as int,
            dtype: self.dtype,
            shape: self.shape@,
        }
    }
}

impl Clone for WeightSlot {
    fn clone(&self) -> (copy: Self)
        ensures
            copy@ == self@,
    {
        let shape = self.shape.clone();
        assert(shape@ =~= self.shape@);
        WeightSlot {
            shard: self.shard,
            offset: self.offset,
            len: self.len,
            dtype: self.dtype,
            shape,
        }
    }
}

/// Named slots.
pub type SlotTable = Seq<(Seq<char>, SlotView)>;

/// The slot of a tensor of the shard `shard`, whose data start at `data_start`.
pub open spec fn slot_of(tensor: TensorView, shard: int, data_start: u64) -> SlotView {
    SlotView {
        shard,
        offset: tensor.off - data_start,
        len: tensor.len as int,
        dtype: tensor.dtype,
        shape: tensor.shape,
    }
}

/// The slots of a shard's tensors.
pub open spec fn shard_slots(tensors: Seq<TensorView>, shard: int, data_start: u64) -> SlotTable {
    Seq::new(tensors.len(), |i: int| (tensors[i].name, slot_of(tensors[i], shard, data_start)))
}

/// The slots of the tensors in several files; `None` where one of them is no shard.
pub open spec fn all_slots(files: Seq<Seq<u8>>) -> Option<SlotTable>
    decreases files.len(),
{
    if files.len() == 0 {
        Some(Seq::empty())
    } else {
        match (
            all_slots(files.drop_last()),
            st::table_of(files.last()),
            st::data_start_of(files.last()),
        ) {
            (Some(earlier), Some(tensors), Some(data_start)) => Some(
                earlier + shard_slots(tensors, files.len() - 1, data_start),
            ),
            _ => None,
        }
    }
}

/// How many elements a tensor of this shape has.
pub open spec fn elements(shape: Seq<u64>) -> nat
    decreases shape.len(),
{
    if shape.len() == 0 {
        1
    } else {
        elements(shape.drop_last()) * (shape.last() as nat)
    }
}

/// A tensor lies within `data_len` bytes of data, and takes as many of them as its elements
/// do.
pub open spec fn is_laid_out(slot: SlotView, data_len: int) -> bool {
    &&& 0 <= slot.offset <= slot.offset + slot.len <= data_len
    &&& elements(slot.shape) * dtype::bits(slot.dtype) == 8 * slot.len
}

/// How many bytes of data a file has.
pub open spec fn data_len_of(file: Seq<u8>) -> int {
    file.len() - st::data_start_of(file)->0
}

/// Every tensor of some files is laid out in the data of its file.
pub open spec fn are_laid_out(slots: SlotTable, files: Seq<Seq<u8>>) -> bool {
    forall|i: int|
        0 <= i < slots.len() ==> is_laid_out(
            (#[trigger] slots[i]).1,
            data_len_of(files[slots[i].1.shard]),
        )
}

/// No byte belongs to two tensors.
pub open spec fn are_apart(a: SlotView, b: SlotView) -> bool {
    ||| a.len == 0
    ||| b.len == 0
    ||| a.offset + a.len <= b.offset
    ||| b.offset + b.len <= a.offset
}

/// A byte belongs to a tensor.
pub open spec fn holds(slot: SlotView, byte: int) -> bool {
    slot.offset <= byte < slot.offset + slot.len
}

/// A byte belongs to some tensor.
pub open spec fn is_held(slots: SlotTable, byte: int) -> bool {
    exists|i: int| 0 <= i < slots.len() && holds((#[trigger] slots[i]).1, byte)
}

/// The tensors tile the data: each byte belongs to one of them, and to no other.
pub open spec fn are_tiles(slots: SlotTable, data_len: int) -> bool {
    &&& forall|i: int, j: int|
        0 <= i < j < slots.len() ==> are_apart((#[trigger] slots[i]).1, (#[trigger] slots[j]).1)
    &&& forall|byte: int| 0 <= byte < data_len ==> #[trigger] is_held(slots, byte)
}

/// No two slots have the same name.
pub open spec fn distinct(slots: SlotTable) -> bool {
    forall|i: int, j: int|
        0 <= i < j < slots.len() ==> (#[trigger] slots[i]).0 != (#[trigger] slots[j]).0
}

/// Why files make up no index.
#[derive(Debug, Clone, Copy, PartialEq, Eq, Structural)]
pub enum IndexError {
    /// One of them is no shard.
    NoShard,
    /// A tensor does not lie in the data of its shard, or takes more or fewer bytes of them
    /// than its elements do.
    Misplaced,
    /// A tensor is in them twice.
    Duplicate,
    /// There is one file, and its tensors do not tile its data.
    Untiled,
}

impl IndexError {
    /// What is said of it.
    pub fn message(self) -> (message: &'static str)
        ensures
            message@ == complaint(self),
    {
        match self {
            IndexError::NoShard => "a file of weights is no safetensors file",
            IndexError::Misplaced => "a tensor does not fit its place in the data",
            IndexError::Duplicate => "a tensor is listed twice",
            IndexError::Untiled => "the tensors do not tile the data",
        }
    }
}

/// What is said of files that make up no index.
pub open spec fn complaint(error: IndexError) -> Seq<char> {
    match error {
        IndexError::NoShard => "a file of weights is no safetensors file"@,
        IndexError::Misplaced => "a tensor does not fit its place in the data"@,
        IndexError::Duplicate => "a tensor is listed twice"@,
        IndexError::Untiled => "the tensors do not tile the data"@,
    }
}

/// Why the files make up no index; `None` where they do.
pub open spec fn index_error(files: Seq<Seq<u8>>) -> Option<IndexError> {
    match all_slots(files) {
        None => Some(IndexError::NoShard),
        Some(slots) => if !are_laid_out(slots, files) {
            Some(IndexError::Misplaced)
        } else if !distinct(slots) {
            Some(IndexError::Duplicate)
        } else if files.len() == 1 && !are_tiles(slots, data_len_of(files[0])) {
            Some(IndexError::Untiled)
        } else {
            None
        },
    }
}

/// Whether the files make up an index: they are shards, every tensor is laid out as its
/// header says, no tensor is in them twice, and the tensors of a single file tile its data.
pub open spec fn is_indexable(files: Seq<Seq<u8>>) -> bool {
    index_error(files) is None
}

/// The slot of this name.
pub open spec fn lookup(slots: SlotTable, name: Seq<char>) -> Option<SlotView>
    decreases slots.len(),
{
    if slots.len() == 0 {
        None
    } else if slots.last().0 == name {
        Some(slots.last().1)
    } else {
        lookup(slots.drop_last(), name)
    }
}

/// Whether a tensor consists of rows, and has `count` of them from row `first` on.
pub open spec fn has_rows(slot: SlotView, first: int, count: int) -> bool {
    &&& slot.shape.len() > 0
    &&& slot.shape[0] <= usize::MAX
    &&& first + count <= slot.shape[0]
    &&& slot.len % (slot.shape[0] as int) == 0
}

/// The bytes of several files.
pub open spec fn contents(files: Seq<&[u8]>) -> Seq<Seq<u8>> {
    Seq::new(files.len(), |i: int| files[i]@)
}

/// An index of the tensors in several shards.
pub struct WeightIndex<'a> {
    shards: Vec<Shard<'a>>,
    slots: Vec<(String, WeightSlot)>,
}

/// Named slots as values.
spec fn slot_views(slots: Seq<(String, WeightSlot)>) -> SlotTable {
    Seq::new(slots.len(), |i: int| (slots[i].0@, slots[i].1@))
}

impl<'a> WeightIndex<'a> {
    /// The files that are indexed.
    pub closed spec fn files(&self) -> Seq<Seq<u8>> {
        Seq::new(self.shards@.len(), |i: int| self.shards@[i].mmap@)
    }

    /// The slots, by name.
    pub closed spec fn table(&self) -> SlotTable {
        slot_views(self.slots@)
    }

    /// The data of a shard: what comes behind its header.
    pub open spec fn data(&self, shard: int) -> Seq<u8> {
        self.files()[shard].skip(st::data_start_of(self.files()[shard])->0 as int)
    }

    #[verifier::type_invariant]
    closed spec fn well_formed(&self) -> bool {
        &&& forall|i: int|
            0 <= i < self.shards@.len() ==> st::is_shard_of(
                #[trigger] self.shards@[i],
                self.shards@[i].mmap@,
            )
        &&& all_slots(self.files()) == Some(self.table())
        &&& is_indexable(self.files())
    }

    /// Every tensor lies within the data of its shard, and takes as many bytes of them as
    /// its elements do.
    pub open spec fn is_laid_out(&self) -> bool {
        forall|i: int|
            0 <= i < self.table().len() ==> is_laid_out(
                (#[trigger] self.table()[i]).1,
                self.data(self.table()[i].1.shard).len() as int,
            )
    }

    /// Indexes the tensors of the files, whose headers are checked before any of their data
    /// is touched.
    pub fn try_open(files: &[&'a [u8]]) -> (index: Result<Self, IndexError>)
        ensures
            match index {
                Ok(index) => {
                    &&& is_indexable(contents(files@))
                    &&& index.files() == contents(files@)
                    &&& index.table() == all_slots(contents(files@))->0
                    &&& index.is_laid_out()
                },
                Err(error) => index_error(contents(files@)) == Some(error),
            },
    {
        let ghost all = contents(files@);
        let mut shards: Vec<Shard<'a>> = Vec::new();
        let mut i: usize = 0;
        assert(all.take(0) =~= Seq::empty());
        while i < files.len()
            invariant
                i <= files@.len(),
                all == contents(files@),
                shards@.len() == i,
                forall|k: int|
                    0 <= k < i ==> (#[trigger] shards@[k]).mmap@ == all[k] && st::is_shard_of(
                        shards@[k],
                        shards@[k].mmap@,
                    ),
                all_slots(all.take(i as int)) is Some,
            decreases files@.len() - i,
        {
            let ghost so_far = all.take(i + 1);
            assert(so_far.drop_last() =~= all.take(i as int));
            assert(so_far.last() == files@[i as int]@);
            match st::try_open(files[i]) {
                Some(shard) => {
                    shards.push(shard);
                },
                None => {
                    proof {
                        no_slots_stays(all, i + 1);
                    }
                    return Err(IndexError::NoShard);
                },
            }
            i += 1;
        }
        assert(all.take(i as int) =~= all);
        assert(Seq::new(shards@.len(), |k: int| shards@[k].mmap@) =~= all);
        let slots = match slots_in(&shards) {
            Some(slots) => slots,
            None => {
                return Err(IndexError::Misplaced);
            },
        };
        if !all_distinct(&slots) {
            return Err(IndexError::Duplicate);
        }
        if files.len() == 1 {
            let file_len: usize = shards[0].mmap.len();
            let data_len: usize = file_len - shards[0].data_start as usize;
            proof {
                let table = slot_views(slots@);
                shards_in_range(all);
                assert forall|k: int| 0 <= k < slots@.len() implies (#[trigger] slots@[k]).1.offset
                    + slots@[k].1.len <= data_len by {
                    assert(is_laid_out(table[k].1, data_len_of(all[table[k].1.shard])));
                }
            }
            if !all_tiles(&slots, data_len) {
                return Err(IndexError::Untiled);
            }
        }
        let index = WeightIndex { shards, slots };
        proof {
            index_is_laid_out(&index);
        }
        Ok(index)
    }

    /// Indexes the tensors of the files.
    pub fn open(files: &[&'a [u8]]) -> (index: Self)
        requires
            is_indexable(contents(files@)),
        ensures
            index.files() == contents(files@),
            index.table() == all_slots(contents(files@))->0,
            index.is_laid_out(),
    {
        Self::try_open(files).unwrap()
    }

    /// What was checked when the index was made holds of it.
    pub(crate) fn layout_was_checked(&self)
        ensures
            self.is_laid_out(),
    {
        proof {
            use_type_invariant(self);
            index_is_laid_out(self);
        }
    }

    /// The slot of a tensor.
    pub fn slot(&self, name: &str) -> (slot: Option<&WeightSlot>)
        ensures
            match (slot, lookup(self.table(), name@)) {
                (Some(slot), Some(view)) => slot@ == view,
                (None, None) => true,
                _ => false,
            },
    {
        let ghost all = slot_views(self.slots@);
        let mut i: usize = self.slots.len();
        assert(all.take(i as int) =~= all);
        while i > 0
            invariant
                i <= self.slots@.len(),
                all == slot_views(self.slots@),
                lookup(all.take(i as int), name@) == lookup(all, name@),
            decreases i,
        {
            assert(all.take(i as int).drop_last() =~= all.take(i - 1));
            if same_text(self.slots[i - 1].0.as_str(), name) {
                return Some(&self.slots[i - 1].1);
            }
            i -= 1;
        }
        None
    }

    /// The bytes of a tensor.
    pub fn bytes(&self, name: &str) -> (bytes: Option<&'a [u8]>)
        ensures
            match (bytes, lookup(self.table(), name@)) {
                (Some(bytes), Some(slot)) => {
                    &&& 0 <= slot.offset <= slot.offset + slot.len <= self.data(slot.shard).len()
                    &&& bytes@ == self.data(slot.shard).subrange(
                        slot.offset,
                        slot.offset + slot.len,
                    )
                },
                (None, None) => true,
                _ => false,
            },
    {
        proof {
            use_type_invariant(self);
        }
        match self.slot(name) {
            Some(slot) => {
                proof {
                    slot_is_in_a_shard(self.files(), name@);
                    index_is_laid_out(self);
                    found_is_in(self.table(), name@);
                }
                let data = data_bytes(&self.shards[slot.shard]);
                let end: usize = data.len();
                assert(slot.offset + slot.len <= end);
                Some(slice_subrange(data, slot.offset, slot.offset + slot.len))
            },
            None => None,
        }
    }

    /// The bytes of `count` rows of a tensor, from row `first` on; `None` where it does not
    /// have them, or does not consist of rows.
    pub fn rows(&self, name: &str, first: usize, count: usize) -> (bytes: Option<&'a [u8]>)
        requires
            lookup(self.table(), name@) matches Some(slot) ==> slot.shape.len() > 0
                && slot.shape[0] == 0 ==> first + count > 0,
        ensures
            match (bytes, lookup(self.table(), name@)) {
                (Some(bytes), Some(slot)) => {
                    let row = slot.len / (slot.shape[0] as int);
                    &&& has_rows(slot, first as int, count as int)
                    &&& bytes@ == self.data(slot.shard).subrange(
                        slot.offset + first * row,
                        slot.offset + (first + count) * row,
                    )
                },
                (None, Some(slot)) => !has_rows(slot, first as int, count as int),
                (None, None) => true,
                (Some(_), None) => false,
            },
    {
        let slot = match self.slot(name) {
            Some(slot) => slot,
            None => {
                return None;
            },
        };
        if slot.shape.len() == 0 || slot.shape[0] > usize::MAX as u64 {
            return None;
        }
        let rows: usize = slot.shape[0] as usize;
        if first > rows || count > rows - first || slot.len % rows != 0 {
            return None;
        }
        let row: usize = slot.len / rows;
        proof {
            assert(row * rows == slot.len) by (nonlinear_arith)
                requires
                    rows > 0,
                    row == slot.len / rows,
                    slot.len % rows == 0,
            ;
            assert(first * row + count * row == (first + count) * row) by (nonlinear_arith);
            assert((first + count) * row <= rows * row) by (nonlinear_arith)
                requires
                    first + count <= rows,
                    0 <= row,
            ;
            assert(row * rows == rows * row) by (nonlinear_arith);
            assert(0 <= first * row && 0 <= count * row) by (nonlinear_arith);
        }
        let start: usize = first * row;
        let end: usize = start + count * row;
        let ghost data = self.data(slot@.shard);
        match self.bytes(name) {
            Some(bytes) => {
                let part = slice_subrange(bytes, start, end);
                assert(part@ =~= data.subrange(slot.offset + start, slot.offset + end));
                Some(part)
            },
            None => None,
        }
    }

    /// How many tensors there are.
    pub fn len(&self) -> (count: usize)
        ensures
            count == self.table().len(),
    {
        self.slots.len()
    }

    /// Whether there are none.
    pub fn is_empty(&self) -> (answer: bool)
        ensures
            answer == (self.table().len() == 0),
    {
        self.slots.len() == 0
    }

    /// How many shards there are.
    pub fn shard_count(&self) -> (count: usize)
        ensures
            count == self.files().len(),
    {
        self.shards.len()
    }

    /// The data of a shard.
    pub fn shard_bytes(&self, shard: usize) -> (bytes: Option<&'a [u8]>)
        ensures
            match bytes {
                Some(bytes) => shard < self.files().len() && bytes@ == self.data(shard as int),
                None => shard >= self.files().len(),
            },
    {
        proof {
            use_type_invariant(self);
        }
        if shard < self.shards.len() {
            Some(data_bytes(&self.shards[shard]))
        } else {
            None
        }
    }
}

/// Where some files make no index, more of them make none.
proof fn no_slots_stays(files: Seq<Seq<u8>>, n: int)
    requires
        0 <= n <= files.len(),
        all_slots(files.take(n)) is None,
    ensures
        all_slots(files) is None,
    decreases files.len() - n,
{
    if n < files.len() {
        assert(files.take(n + 1).drop_last() =~= files.take(n));
        no_slots_stays(files, n + 1);
    } else {
        assert(files.take(n) =~= files);
    }
}

/// A slot that is found lies in one of the shards.
proof fn slot_is_in_a_shard(files: Seq<Seq<u8>>, name: Seq<char>)
    requires
        all_slots(files) is Some,
        lookup(all_slots(files)->0, name) is Some,
    ensures
        0 <= (lookup(all_slots(files)->0, name)->0).shard < files.len(),
{
    shards_in_range(files);
    found_is_in(all_slots(files)->0, name);
}

/// What is found is in the table.
proof fn found_is_in(slots: SlotTable, name: Seq<char>)
    requires
        lookup(slots, name) is Some,
    ensures
        exists|i: int| 0 <= i < slots.len() && (#[trigger] slots[i]).1 == lookup(slots, name)->0,
    decreases slots.len(),
{
    if slots.last().0 == name {
        assert(slots[slots.len() - 1].1 == lookup(slots, name)->0);
    } else {
        found_is_in(slots.drop_last(), name);
        let i = choose|i: int|
            0 <= i < slots.drop_last().len() && (#[trigger] slots.drop_last()[i]).1 == lookup(
                slots,
                name,
            )->0;
        assert(slots[i].1 == lookup(slots, name)->0);
    }
}

/// Every slot lies in one of the shards.
proof fn shards_in_range(files: Seq<Seq<u8>>)
    requires
        all_slots(files) is Some,
    ensures
        forall|i: int|
            0 <= i < (all_slots(files)->0).len() ==> 0 <= (
            #[trigger] (all_slots(files)->0)[i]).1.shard < files.len(),
    decreases files.len(),
{
    if files.len() > 0 {
        shards_in_range(files.drop_last());
    }
}

/// What an index holds is laid out.
proof fn index_is_laid_out(index: &WeightIndex)
    requires
        all_slots(index.files()) == Some(index.table()),
        is_indexable(index.files()),
    ensures
        index.is_laid_out(),
{
    let files = index.files();
    let slots = index.table();
    shards_in_range(files);
    all_have_data(files);
    assert forall|i: int| 0 <= i < slots.len() implies is_laid_out(
        (#[trigger] slots[i]).1,
        index.data(slots[i].1.shard).len() as int,
    ) by {
        let file = files[slots[i].1.shard];
        assert(st::data_start_of(file) is Some);
    }
}

/// Every shard has data.
proof fn all_have_data(files: Seq<Seq<u8>>)
    requires
        all_slots(files) is Some,
    ensures
        forall|i: int| 0 <= i < files.len() ==> st::data_start_of(#[trigger] files[i]) is Some,
    decreases files.len(),
{
    if files.len() > 0 {
        let first = files.drop_last();
        all_have_data(first);
        assert forall|i: int| 0 <= i < files.len() implies st::data_start_of(
            #[trigger] files[i],
        ) is Some by {
            if i < first.len() {
                assert(first[i] == files[i]);
            }
        }
    }
}

/// The slots of some files are the first of all.
proof fn slots_of_the_first(files: Seq<Seq<u8>>, n: int)
    requires
        0 <= n <= files.len(),
        all_slots(files) is Some,
    ensures
        all_slots(files.take(n)) is Some,
        (all_slots(files.take(n))->0).is_prefix_of(all_slots(files)->0),
    decreases files.len() - n,
{
    let all = all_slots(files)->0;
    if n < files.len() {
        slots_of_the_first(files, n + 1);
        assert(files.take(n + 1).drop_last() =~= files.take(n));
        let fewer = all_slots(files.take(n))->0;
        let more = all_slots(files.take(n + 1))->0;
        assert(fewer =~= more.take(fewer.len() as int));
        assert(more =~= all.take(more.len() as int));
        assert(fewer =~= all.take(fewer.len() as int));
    } else {
        assert(files.take(n) =~= files);
        assert(all =~= all.take(all.len() as int));
    }
}

/// A copy of a shape.
fn copy_shape(shape: &Vec<u64>) -> (copy: Vec<u64>)
    ensures
        copy@ == shape@,
{
    let copy = shape.clone();
    assert(copy@ =~= shape@);
    copy
}

/// With no dimension zero, a shape has no fewer elements than its first dimensions.
proof fn elements_grow(shape: Seq<u64>, n: int)
    requires
        0 <= n <= shape.len(),
        forall|i: int| 0 <= i < shape.len() ==> #[trigger] shape[i] > 0,
    ensures
        0 < elements(shape.take(n)) <= elements(shape),
    decreases shape.len(),
{
    if shape.len() > 0 {
        let first = shape.drop_last();
        let last = shape.last() as nat;
        assert(shape[shape.len() - 1] > 0);
        assert forall|i: int| 0 <= i < first.len() implies #[trigger] first[i] > 0 by {
            assert(first[i] == shape[i]);
        }
        elements_grow(first, 0);
        assert(elements(first.take(0)) == 1);
        assert(elements(first) <= elements(first) * last) by (nonlinear_arith)
            requires
                last >= 1,
        ;
        if n < shape.len() {
            elements_grow(first, n);
            assert(first.take(n) =~= shape.take(n));
        } else {
            assert(shape.take(n) =~= shape);
        }
    }
}

/// With a dimension zero, a shape has no elements.
proof fn no_elements(shape: Seq<u64>, i: int)
    requires
        0 <= i < shape.len(),
        shape[i] == 0,
    ensures
        elements(shape) == 0,
    decreases shape.len(),
{
    let first = shape.drop_last();
    let last = shape.last() as nat;
    if i < first.len() {
        no_elements(first, i);
        assert(0 * last == 0) by (nonlinear_arith);
    } else {
        assert(elements(first) * 0 == 0) by (nonlinear_arith);
    }
}

/// Whether `len` bytes are as many as the elements of a tensor take.
fn fits(shape: &[u64], dtype: Dtype, len: u64) -> (answer: bool)
    ensures
        answer == (elements(shape@) * dtype::bits(dtype) == 8 * len),
{
    let width: u64 = dtype.width();
    let mut i: usize = 0;
    while i < shape.len()
        invariant
            i <= shape@.len(),
            forall|k: int| 0 <= k < i ==> #[trigger] shape@[k] > 0,
            8 * width == dtype::bits(dtype),
            1 <= width <= 8,
        decreases shape@.len() - i,
    {
        if shape[i] == 0 {
            proof {
                no_elements(shape@, i as int);
            }
            return len == 0;
        }
        i += 1;
    }
    let mut count: u64 = 1;
    let mut k: usize = 0;
    while k < shape.len()
        invariant
            k <= shape@.len(),
            forall|j: int| 0 <= j < shape@.len() ==> #[trigger] shape@[j] > 0,
            count == elements(shape@.take(k as int)),
            8 * width == dtype::bits(dtype),
            1 <= width <= 8,
        decreases shape@.len() - k,
    {
        assert(shape@.take(k + 1).drop_last() =~= shape@.take(k as int));
        proof {
            elements_grow(shape@, k + 1);
        }
        let dim: u64 = shape[k];
        assert(elements(shape@.take(k + 1)) == count * dim);
        match count.checked_mul(dim) {
            Some(more) => {
                count = more;
            },
            None => {
                proof {
                    let all = elements(shape@);
                    assert(all * (8 * width) >= 8 * all) by (nonlinear_arith)
                        requires
                            width >= 1,
                            all >= 0,
                    ;
                }
                return false;
            },
        }
        k += 1;
    }
    assert(shape@.take(k as int) =~= shape@);
    assert(count * (8 * width) == 8 * (count * width)) by (nonlinear_arith);
    match count.checked_mul(width) {
        Some(bytes) => bytes == len,
        None => false,
    }
}

/// Whether a tensor is laid out in the data of its shard.
fn laid_out(tensor: &Tensor, data_start: u64, data_len: u64) -> (answer: bool)
    ensures
        forall|shard: int|
            answer == is_laid_out(#[trigger] slot_of(tensor@, shard, data_start), data_len as int),
{
    tensor.off >= data_start && tensor.off - data_start <= data_len && tensor.len <= data_len - (
    tensor.off - data_start) && fits(&tensor.shape, tensor.dtype, tensor.len)
}

/// The slots of the tensors in some shards; `None` where one of the tensors is not laid out
/// in the data of its shard.
fn slots_in(shards: &Vec<Shard>) -> (slots: Option<Vec<(String, WeightSlot)>>)
    requires
        forall|k: int|
            0 <= k < shards@.len() ==> st::is_shard_of(
                #[trigger] shards@[k],
                shards@[k].mmap@,
            ),
        all_slots(Seq::new(shards@.len(), |k: int| shards@[k].mmap@)) is Some,
    ensures
        ({
            let files = Seq::new(shards@.len(), |k: int| shards@[k].mmap@);
            let all = all_slots(files)->0;
            match slots {
                Some(slots) => slot_views(slots@) == all && are_laid_out(all, files),
                None => !are_laid_out(all, files),
            }
        }),
{
    let ghost files = Seq::new(shards@.len(), |k: int| shards@[k].mmap@);
    let ghost all = all_slots(files)->0;
    let mut slots: Vec<(String, WeightSlot)> = Vec::new();
    let mut i: usize = 0;
    assert(files.take(0) =~= Seq::empty());
    assert(slot_views(slots@) =~= Seq::empty());
    while i < shards.len()
        invariant
            i <= shards@.len(),
            files == Seq::new(shards@.len(), |k: int| shards@[k].mmap@),
            all_slots(files) == Some(all),
            forall|k: int|
                0 <= k < shards@.len() ==> st::is_shard_of(
                    #[trigger] shards@[k],
                    shards@[k].mmap@,
                ),
            all_slots(files.take(i as int)) == Some(slot_views(slots@)),
            are_laid_out(slot_views(slots@), files),
        decreases shards@.len() - i,
    {
        let shard = &shards[i];
        assert(shard.mmap@.len() <= usize::MAX) by {
            assert(shard.mmap.len() <= usize::MAX);
        }
        let ghost before = slot_views(slots@);
        let ghost own = shard_slots(
            st::tensor_views(shard.tensors@),
            i as int,
            shard.data_start,
        );
        proof {
            slots_of_the_first(files, i + 1);
            assert(files.take(i + 1).drop_last() =~= files.take(i as int));
            assert(files.take(i + 1).last() == shard.mmap@);
            assert(all_slots(files.take(i + 1)) == Some(before + own));
        }
        let mut k: usize = 0;
        assert(before + own.take(0) =~= before);
        while k < shard.tensors.len()
            invariant
                k <= shard.tensors@.len(),
                i < shards@.len(),
                shard.mmap@.len() <= usize::MAX,
                *shard == shards@[i as int],
                st::is_shard_of(*shard, shard.mmap@),
                files == Seq::new(shards@.len(), |j: int| shards@[j].mmap@),
                own == shard_slots(
                    st::tensor_views(shard.tensors@),
                    i as int,
                    shard.data_start,
                ),
                all_slots(files) == Some(all),
                (before + own).is_prefix_of(all),
                slot_views(slots@) == before + own.take(k as int),
                are_laid_out(slot_views(slots@), files),
            decreases shard.tensors@.len() - k,
        {
            let tensor: &Tensor = &shard.tensors[k];
            let ghost slot_view = slot_of(tensor@, i as int, shard.data_start);
            assert(own[k as int] == (tensor@.name, slot_view));
            assert(data_len_of(files[i as int]) == shard.data_len);
            if !laid_out(tensor, shard.data_start, shard.data_len) {
                proof {
                    let at = before.len() + k;
                    assert((before + own)[at] == own[k as int]);
                    assert(all[at] == all.take((before + own).len() as int)[at]);
                    assert(!is_laid_out(all[at].1, data_len_of(files[all[at].1.shard])));
                }
                return None;
            }
            let ghost old_slots = slot_views(slots@);
            let slot = WeightSlot {
                shard: i,
                offset: (tensor.off - shard.data_start) as usize,
                len: tensor.len as usize,
                dtype: tensor.dtype,
                shape: copy_shape(&tensor.shape),
            };
            slots.push((tensor.name.clone(), slot));
            proof {
                assert(slot@ == slot_view);
                assert(slot_views(slots@) =~= old_slots.push((tensor@.name, slot_view)));
                assert(own.take(k + 1) =~= own.take(k as int).push(own[k as int]));
                assert(slot_views(slots@) =~= before + own.take(k + 1));
                let now = slot_views(slots@);
                assert forall|j: int| 0 <= j < now.len() implies is_laid_out(
                    (#[trigger] now[j]).1,
                    data_len_of(files[now[j].1.shard]),
                ) by {
                    if j < old_slots.len() {
                        assert(now[j] == old_slots[j]);
                    }
                }
            }
            k += 1;
        }
        assert(own.take(k as int) =~= own);
        i += 1;
    }
    assert(files.take(i as int) =~= files);
    Some(slots)
}

/// Whether the tensors tile the data.
fn all_tiles(slots: &Vec<(String, WeightSlot)>, data_len: usize) -> (answer: bool)
    requires
        forall|i: int|
            0 <= i < slots@.len() ==> (#[trigger] slots@[i]).1.offset + slots@[i].1.len <= data_len,
    ensures
        answer == are_tiles(slot_views(slots@), data_len as int),
{
    let ghost all = slot_views(slots@);
    let mut j: usize = 0;
    while j < slots.len()
        invariant
            j <= slots@.len(),
            all == slot_views(slots@),
            forall|i: int|
                0 <= i < slots@.len() ==> (#[trigger] slots@[i]).1.offset + slots@[i].1.len
                    <= data_len,
            forall|a: int, b: int|
                0 <= a < b < j ==> are_apart((#[trigger] all[a]).1, (#[trigger] all[b]).1),
        decreases slots@.len() - j,
    {
        let mut i: usize = 0;
        while i < j
            invariant
                i <= j < slots@.len(),
                all == slot_views(slots@),
                forall|i: int|
                    0 <= i < slots@.len() ==> (#[trigger] slots@[i]).1.offset + slots@[i].1.len
                        <= data_len,
                forall|a: int| 0 <= a < i ==> are_apart((#[trigger] all[a]).1, all[j as int].1),
            decreases j - i,
        {
            let a = &slots[i].1;
            let b = &slots[j].1;
            if a.len > 0 && b.len > 0 && a.offset + a.len > b.offset && b.offset + b.len
                > a.offset {
                assert(!are_apart(all[i as int].1, all[j as int].1));
                return false;
            }
            assert(are_apart(all[i as int].1, all[j as int].1));
            i += 1;
        }
        j += 1;
    }
    let mut byte: usize = 0;
    while byte < data_len
        invariant
            byte <= data_len,
            all == slot_views(slots@),
            forall|i: int|
                0 <= i < slots@.len() ==> (#[trigger] slots@[i]).1.offset + slots@[i].1.len
                    <= data_len,
            forall|b: int| 0 <= b < byte ==> #[trigger] is_held(all, b),
        decreases data_len - byte,
    {
        match holder(slots, byte, data_len) {
            Some(i) => {
                let end: usize = slots[i].1.offset + slots[i].1.len;
                assert forall|b: int| 0 <= b < end implies #[trigger] is_held(all, b) by {
                    if b >= byte {
                        assert(holds(all[i as int].1, b));
                    }
                }
                byte = end;
            },
            None => {
                return false;
            },
        }
    }
    true
}

/// A tensor to which a byte belongs.
fn holder(slots: &Vec<(String, WeightSlot)>, byte: usize, data_len: usize) -> (found: Option<usize>)
    requires
        forall|i: int|
            0 <= i < slots@.len() ==> (#[trigger] slots@[i]).1.offset + slots@[i].1.len <= data_len,
    ensures
        match found {
            Some(i) => i < slots@.len() && holds(slots@[i as int].1@, byte as int),
            None => !is_held(slot_views(slots@), byte as int),
        },
{
    let ghost all = slot_views(slots@);
    let mut i: usize = 0;
    while i < slots.len()
        invariant
            i <= slots@.len(),
            all == slot_views(slots@),
            forall|i: int|
                0 <= i < slots@.len() ==> (#[trigger] slots@[i]).1.offset + slots@[i].1.len
                    <= data_len,
            forall|k: int| 0 <= k < i ==> !holds((#[trigger] all[k]).1, byte as int),
        decreases slots@.len() - i,
    {
        let slot = &slots[i].1;
        if slot.offset <= byte && byte < slot.offset + slot.len {
            return Some(i);
        }
        assert(!holds(all[i as int].1, byte as int));
        i += 1;
    }
    None
}

/// Whether no two slots have the same name.
fn all_distinct(slots: &Vec<(String, WeightSlot)>) -> (answer: bool)
    ensures
        answer == distinct(slot_views(slots@)),
{
    let ghost all = slot_views(slots@);
    let mut j: usize = 0;
    while j < slots.len()
        invariant
            j <= slots@.len(),
            all == slot_views(slots@),
            forall|a: int, b: int|
                0 <= a < b < j ==> (#[trigger] all[a]).0 != (#[trigger] all[b]).0,
        decreases slots@.len() - j,
    {
        let mut i: usize = 0;
        while i < j
            invariant
                i <= j < slots@.len(),
                all == slot_views(slots@),
                forall|a: int| 0 <= a < i ==> (#[trigger] all[a]).0 != all[j as int].0,
            decreases j - i,
        {
            if same_text(slots[i].0.as_str(), slots[j].0.as_str()) {
                assert(all[i as int].0 == all[j as int].0);
                return false;
            }
            i += 1;
        }
        j += 1;
    }
    true
}

// ---------------------------------------------------------------------------
// Laws
// ---------------------------------------------------------------------------

/// A tensor's slot has the offsets that the header of its shard gives: they count from the
/// end of the header.
pub proof fn slots_have_the_offsets_of_the_header(
    name: Seq<char>,
    meta: JsonView,
    shard: int,
    data_start: u64,
)
    requires
        st::tensor_in(name, meta, data_start) is Some,
    ensures
        ({
            let slot = slot_of(st::tensor_in(name, meta, data_start)->0, shard, data_start);
            &&& slot.shard == shard
            &&& st::offsets_in(meta) == Some(
                (slot.offset as u64, (slot.offset + slot.len) as u64),
            )
            &&& st::dtype_in(meta) == Some(slot.dtype)
            &&& st::shape_in(meta) == Some(slot.shape)
        }),
{
    st::tensors_lie_where_the_header_says(name, meta, data_start);
}

/// The slots of several files are those of the first ones, followed by those of the last one,
/// which name it as their shard.
pub proof fn slots_name_their_shard(files: Seq<Seq<u8>>, i: int)
    requires
        all_slots(files) is Some,
        0 <= i < all_slots(files)->0.len(),
    ensures
        0 <= (all_slots(files)->0)[i].1.shard < files.len(),
        st::table_of(files[(all_slots(files)->0)[i].1.shard]) is Some,
        exists|j: int|
            0 <= j < st::table_of(files[(all_slots(files)->0)[i].1.shard])->0.len()
                && #[trigger] st::table_of(files[(all_slots(files)->0)[i].1.shard])->0[j].name
                == (all_slots(files)->0)[i].0,
    decreases files.len(),
{
    let front = files.drop_last();
    let earlier = all_slots(front)->0;
    if i < earlier.len() {
        slots_name_their_shard(front, i);
        assert((all_slots(files)->0)[i] == earlier[i]);
        assert(files[earlier[i].1.shard] == front[earlier[i].1.shard]);
    } else {
        let tensors = st::table_of(files.last())->0;
        let j = i - earlier.len();
        assert((all_slots(files)->0)[i].0 == tensors[j].name);
        assert(files[files.len() - 1] == files.last());
        assert(tensors[j].name == (all_slots(files)->0)[i].0);
    }
}

} // verus!
