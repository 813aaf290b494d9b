use vstd::prelude::*;
use crate::hash_functions::bincode_encoding_of;
use crate::hash_functions::slot_of;
use crate::hash_functions::slot;
use crate::hash_functions::wide_digest_of;
use crate::hash_functions::CustomHasher;
use crate::hash_functions::FilterError;

verus! {

/// Whether bit `pos` (0 is the least significant) of `byte` is set.
pub open spec fn byte_bit(byte: u8, pos: nat) -> bool {
    (byte >> (pos as u8)) & 1u8 == 1u8
}

/// `bits` with the slots of the first `count` probes of `item` set.
pub open spec fn mark(bits: Seq<bool>, item: Seq<char>, count: nat) -> Seq<bool>
    decreases count,
{
    if count == 0 {
        bits
    } else {
        let prev = mark(bits, item, (count - 1) as nat);
        prev.update(slot(item, (count - 1) as nat, bits.len()) as int, true)
    }
}

/// What a filter is: its bits, how many probes each item makes, and how
/// many insertions it has seen since it was built.
pub struct FilterView {
    pub bits: Seq<bool>,
    pub num_hashes: nat,
    pub inserted: nat,
}

impl FilterView {
    pub open spec fn wf(self) -> bool {
        self.bits.len() > 0 && self.num_hashes >= 1
    }

    /// A freshly built filter: every bit clear, nothing inserted.
    pub open spec fn empty(size: nat, num_hashes: nat) -> FilterView {
        FilterView { bits: Seq::new(size, |i: int| false), num_hashes, inserted: 0 }
    }

    /// Every probe of `item` lands on a set bit: "possibly present".
    pub open spec fn admits(self, item: Seq<char>) -> bool {
        forall|i: nat| i < self.num_hashes ==> self.bits[#[trigger] slot(item, i, self.bits.len()) as int]
    }

    /// The filter after one insertion of `item` on the seeded path.
    pub open spec fn with_item(self, item: Seq<char>) -> FilterView {
        FilterView {
            bits: mark(self.bits, item, self.num_hashes),
            num_hashes: self.num_hashes,
            inserted: self.inserted + 1,
        }
    }

    /// The filter after inserting `items` in order on the seeded path.
    pub open spec fn with_items(self, items: Seq<Seq<char>>) -> FilterView
        decreases items.len(),
    {
        if items.len() == 0 {
            self
        } else {
            self.with_items(items.drop_last()).with_item(items.last())
        }
    }

    /// The one position the wide hash of `item` selects: the low 64 bits
    /// of its digest, reduced modulo the size.
    pub open spec fn wide_slot(self, item: Seq<char>) -> nat {
        ((wide_digest_of(bincode_encoding_of(item)) as u64) as nat) % self.bits.len()
    }

    /// The filter after one insertion of `item` on the wide-hash path.
    pub open spec fn with_wide_item(self, item: Seq<char>) -> FilterView {
        FilterView {
            bits: self.bits.update(self.wide_slot(item) as int, true),
            num_hashes: self.num_hashes,
            inserted: self.inserted + 1,
        }
    }
}

/// One insertion, on either path.
pub enum Insertion {
    /// `insert`: the item's seeded probes.
    Seeded(Seq<char>),
    /// `insert_with_murmur3`: the one slot of the item's wide digest.
    Wide(Seq<char>),
}

impl FilterView {
    /// The filter after one insertion.
    pub open spec fn apply(self, op: Insertion) -> FilterView {
        match op {
            Insertion::Seeded(x) => self.with_item(x),
            Insertion::Wide(x) => self.with_wide_item(x),
        }
    }

    /// The filter after the insertions `ops`, in order.
    pub open spec fn after(self, ops: Seq<Insertion>) -> FilterView
        decreases ops.len(),
    {
        if ops.len() == 0 {
            self
        } else {
            self.after(ops.drop_last()).apply(ops.last())
        }
    }
}

/// A Bloom filter over strings.
///
/// Not synchronised: writers need exclusive access, as `&mut self` demands.
pub struct BloomFilter {
    bit_array: Vec<u8>,
    size: usize,
    num_hashes: usize,
    inserted_items: usize,
}

impl View for BloomFilter {
    type V = FilterView;

    closed spec fn view(&self) -> FilterView {
        FilterView {
            bits: Seq::new(self.size as nat, |i: int| byte_bit(self.bit_array@[i / 8], (i % 8) as nat)),
            num_hashes: self.num_hashes as nat,
            inserted: self.inserted_items as nat,
        }
    }
}

proof fn lemma_set_byte_bit(b: u8, p: u8, q: u8)
    by (bit_vector)
    requires
        p < 8,
        q < 8,
    ensures
        ((b | (1u8 << p)) >> q) & 1u8 == 1u8 <==> (q == p || (b >> q) & 1u8 == 1u8),
{
}

proof fn lemma_test_byte_bit(b: u8, p: u8)
    by (bit_vector)
    requires
        p < 8,
    ensures
        (b & (1u8 << p)) != 0u8 <==> (b >> p) & 1u8 == 1u8,
{
}

proof fn lemma_zero_byte(p: u8)
    by (bit_vector)
    ensures
        (0u8 >> p) & 1u8 == 0u8,
{
}

impl BloomFilter {
    /// Internal consistency: the bytes cover every one of the `size` bits.
    pub closed spec fn wf(&self) -> bool {
        &&& self.size > 0
        &&& self.num_hashes >= 1
        &&& self.bit_array@.len() == self.size as int / 8 + 1
    }

    /// A consistent filter has a consistent view: at least one bit and one probe.
    pub proof fn lemma_view_wf(&self)
        requires
            self.wf(),
        ensures
            self@.wf(),
    {
    }

    /// An empty filter of `size` bits probed `num_hashes` times per item.
    ///
    /// Deriving these two from an expected item count and a target
    /// false-positive rate is floating-point work left to the caller.
    pub fn new(size: usize, num_hashes: usize) -> (r: Result<BloomFilter, FilterError>)
        ensures
            r is Err <==> (size == 0 || num_hashes == 0),
            r is Err ==> r->Err_0 == FilterError::InvalidParameter,
            r is Ok ==> r->Ok_0.wf(),
            r is Ok ==> r->Ok_0@ == FilterView::empty(size as nat, num_hashes as nat),
    {
        if size == 0 || num_hashes == 0 {
            return Err(FilterError::InvalidParameter);
        }
        let units = size / 8 + 1;
        let mut bit_array: Vec<u8> = Vec::new();
        while bit_array.len() < units
            invariant
                bit_array@.len() <= units,
                forall|j: int| 0 <= j < bit_array@.len() ==> bit_array@[j] == 0u8,
            decreases units - bit_array@.len(),
        {
            bit_array.push(0u8);
        }
        let f = BloomFilter { bit_array, size, num_hashes, inserted_items: 0 };
        proof {
            assert forall|i: int| 0 <= i < size implies !#[trigger] f@.bits[i] by {
                lemma_zero_byte((i % 8) as u8);
            }
            assert(f@.bits =~= FilterView::empty(size as nat, num_hashes as nat).bits);
        }
        Ok(f)
    }

    /// Sets bit `index`.
    fn set_bit(&mut self, index: usize)
        requires
            old(self).wf(),
            index < old(self).size,
        ensures
            final(self).wf(),
            final(self).size == old(self).size,
            final(self)@ == (FilterView {
                bits: old(self)@.bits.update(index as int, true),
                num_hashes: old(self)@.num_hashes,
                inserted: old(self)@.inserted,
            }),
    {
        let ghost before = self@;
        let byte_index = index / 8;
        let bit_position = index % 8;
        let old_byte = self.bit_array[byte_index];
        self.bit_array.set(byte_index, old_byte | (1u8 << (bit_position as u8)));
        proof {
            let target = before.bits.update(index as int, true);
            assert forall|j: int| 0 <= j < self.size implies #[trigger] self@.bits[j] == target[j] by {
                if j / 8 == byte_index as int {
                    lemma_set_byte_bit(old_byte, bit_position as u8, (j % 8) as u8);
                    assert(j == index as int <==> j % 8 == bit_position as int);
                }
            }
            assert(self@.bits =~= target);
        }
    }

    /// Reads bit `index`.
    fn get_bit(&self, index: usize) -> (r: bool)
        requires
            self.wf(),
            index < self.size,
        ensures
            r == self@.bits[index as int],
    {
        let byte_index = index / 8;
        let bit_position = index % 8;
        proof {
            lemma_test_byte_bit(self.bit_array@[byte_index as int], bit_position as u8);
        }
        (self.bit_array[byte_index] & (1u8 << (bit_position as u8))) != 0
    }
    /// Inserts `item`: sets the slot of each of its probes, then counts the
    /// insertion, even when the item was there already. The probes are
    /// independent of one another; a handful of hashes costs less than a
    /// hand-off to worker threads, so they are computed in turn.
    pub fn insert(&mut self, item: &str)
        requires
            old(self).wf(),
            old(self)@.inserted < usize::MAX,
        ensures
            final(self).wf(),
            final(self)@ == old(self)@.with_item(item@),
    {
        let ghost start = self@;
        let mut j: usize = 0;
        while j < self.num_hashes
            invariant
                self.wf(),
                start.num_hashes == self.num_hashes,
                start.bits.len() == self.size,
                start.inserted == self.inserted_items,
                start.inserted < usize::MAX,
                j <= self.num_hashes,
                self@.bits == mark(start.bits, item@, j as nat),
            decreases self.num_hashes - j,
        {
            let s = slot_of(item, j, self.size);
            self.set_bit(s);
            j += 1;
        }
        self.inserted_items += 1;
    }

    /// Whether `item` is possibly present: true exactly when every one of its
    /// probes lands on a set bit. Stops at the first clear bit.
    pub fn contains(&self, item: &str) -> (r: bool)
        requires
            self.wf(),
        ensures
            r == self@.admits(item@),
    {
        let mut j: usize = 0;
        while j < self.num_hashes
            invariant
                self.wf(),
                j <= self.num_hashes,
                forall|i: nat| i < j ==> self@.bits[#[trigger] slot(item@, i, self.size as nat) as int],
            decreases self.num_hashes - j,
        {
            let s = slot_of(item, j, self.size);
            if !self.get_bit(s) {
                assert(!self@.bits[slot(item@, j as nat, self@.bits.len()) as int]);
                return false;
            }
            j += 1;
        }
        true
    }

    /// Inserts `item` on the wide-hash path: encodes it with bincode, takes its
    /// 128-bit MurmurHash3 digest, and sets the one bit its low half selects.
    /// A string always encodes, so this succeeds; an encoding failure would
    /// be returned with nothing changed.
    pub fn insert_with_murmur3(&mut self, item: &str) -> (r: Result<(), FilterError>)
        requires
            old(self).wf(),
            old(self)@.inserted < usize::MAX,
        ensures
            final(self).wf(),
            r is Ok,
            final(self)@ == old(self)@.with_wide_item(item@),
    {
        let hasher = CustomHasher;
        let digest = match hasher.hash_with_murmur3(item) {
            Ok(d) => d,
            Err(e) => return Err(e),
        };
        let index = ((digest as u64) % (self.size as u64)) as usize;
        self.set_bit(index);
        self.inserted_items += 1;
        Ok(())
    }

    /// Rebuilds the filter in place with `size` bits and `num_hashes` probes.
    ///
    /// This is a reset, not a growth that keeps contents: every bit is
    /// discarded and the insertion count starts again from zero, so items
    /// inserted before must be inserted again. On an invalid parameter
    /// nothing changes.
    pub fn rebuild(&mut self, size: usize, num_hashes: usize) -> (r: Result<(), FilterError>)
        requires
            old(self).wf(),
        ensures
            final(self).wf(),
            r is Err <==> (size == 0 || num_hashes == 0),
            r is Err ==> r->Err_0 == FilterError::InvalidParameter,
            r is Err ==> final(self)@ == old(self)@,
            r is Ok ==> final(self)@ == FilterView::empty(size as nat, num_hashes as nat),
            r is Ok ==> forall|x: Seq<char>| !final(self)@.admits(x),
    {
        match BloomFilter::new(size, num_hashes) {
            Ok(fresh) => {
                *self = fresh;
                proof {
                    assert forall|x: Seq<char>| !self@.admits(x) by {
                        lemma_empty_admits_nothing(size as nat, num_hashes as nat, x);
                    }
                }
                Ok(())
            },
            Err(e) => Err(e),
        }
    }

    /// Number of bit positions.
    pub fn size(&self) -> (r: usize)
        ensures
            r == self@.bits.len(),
    {
        self.size
    }

    /// Number of probes per item.
    pub fn num_hashes(&self) -> (r: usize)
        ensures
            r == self@.num_hashes,
    {
        self.num_hashes
    }

    /// Insertions since the filter was built or last rebuilt, duplicates included.
    pub fn inserted_items(&self) -> (r: usize)
        ensures
            r == self@.inserted,
    {
        self.inserted_items
    }
}

/// An empty filter with at least one probe admits no item.
pub proof fn lemma_empty_admits_nothing(size: nat, num_hashes: nat, x: Seq<char>)
    requires
        size > 0,
        num_hashes >= 1,
    ensures
        !FilterView::empty(size, num_hashes).admits(x),
{
    let v = FilterView::empty(size, num_hashes);
    lemma_slot_in_range(x, 0, size);
    assert(!v.bits[slot(x, 0, v.bits.len()) as int]);
}

/// A probe's slot lies inside the bit array.
pub proof fn lemma_slot_in_range(item: Seq<char>, seed: nat, size: nat)
    requires
        size > 0,
    ensures
        slot(item, seed, size) < size,
{
}

/// Marking probes keeps the length, keeps every set bit set, and sets the
/// slot of each probe marked.
pub proof fn lemma_mark(bits: Seq<bool>, item: Seq<char>, count: nat)
    requires
        bits.len() > 0,
    ensures
        mark(bits, item, count).len() == bits.len(),
        forall|j: int| 0 <= j < bits.len() && bits[j] ==> #[trigger] mark(bits, item, count)[j],
        forall|i: nat| i < count ==> mark(bits, item, count)[#[trigger] slot(item, i, bits.len()) as int],
    decreases count,
{
    if count > 0 {
        lemma_mark(bits, item, (count - 1) as nat);
        lemma_slot_in_range(item, (count - 1) as nat, bits.len());
        assert forall|i: nat| i < count implies mark(bits, item, count)[#[trigger] slot(item, i, bits.len()) as int] by {
            lemma_slot_in_range(item, i, bits.len());
        }
    }
}

/// After an insertion of `x`, the filter admits `x`, and it admits every
/// item it admitted before.
pub proof fn lemma_insert_admits(v: FilterView, x: Seq<char>, y: Seq<char>)
    requires
        v.wf(),
    ensures
        v.with_item(x).wf(),
        v.with_item(x).admits(x),
        v.admits(y) ==> v.with_item(x).admits(y),
{
    lemma_mark(v.bits, x, v.num_hashes);
    let w = v.with_item(x);
    if v.admits(y) {
        assert forall|i: nat| i < w.num_hashes implies w.bits[#[trigger] slot(y, i, w.bits.len()) as int] by {
            lemma_slot_in_range(y, i, v.bits.len());
            assert(v.bits[slot(y, i, v.bits.len()) as int]);
        }
    }
}

/// After an insertion on the wide-hash path, the filter admits every item
/// it admitted before.
pub proof fn lemma_wide_insert_admits(v: FilterView, x: Seq<char>, y: Seq<char>)
    requires
        v.wf(),
        v.admits(y),
    ensures
        v.with_wide_item(x).wf(),
        v.with_wide_item(x).admits(y),
{
    let w = v.with_wide_item(x);
    assert forall|i: nat| i < w.num_hashes implies w.bits[#[trigger] slot(y, i, w.bits.len()) as int] by {
        lemma_slot_in_range(y, i, v.bits.len());
        assert(v.bits[slot(y, i, v.bits.len()) as int]);
    }
}

/// No false negatives: after a run of insertions with no rebuild between,
/// the filter admits every item of the run.
pub proof fn lemma_no_false_negatives(v: FilterView, items: Seq<Seq<char>>, x: Seq<char>)
    requires
        v.wf(),
        items.contains(x),
    ensures
        v.with_items(items).admits(x),
    decreases items.len(),
{
    lemma_dimensions_kept(v, items.drop_last());
    let before = v.with_items(items.drop_last());
    if items.last() == x {
        lemma_insert_admits(before, x, x);
    } else {
        let k = choose|k: int| 0 <= k < items.len() && items[k] == x;
        assert(items.drop_last()[k] == x);
        lemma_no_false_negatives(v, items.drop_last(), x);
        lemma_insert_admits(before, items.last(), x);
    }
}

/// A run of insertions leaves the size and the number of probes as they
/// were, and raises the insertion count by exactly the length of the run,
/// duplicates included.
pub proof fn lemma_dimensions_kept(v: FilterView, items: Seq<Seq<char>>)
    requires
        v.wf(),
    ensures
        v.with_items(items).wf(),
        v.with_items(items).bits.len() == v.bits.len(),
        v.with_items(items).num_hashes == v.num_hashes,
        v.with_items(items).inserted == v.inserted + items.len(),
    decreases items.len(),
{
    if items.len() > 0 {
        lemma_dimensions_kept(v, items.drop_last());
        lemma_mark(v.with_items(items.drop_last()).bits, items.last(), v.num_hashes);
    }
}


/// One insertion on either path keeps the filter consistent and keeps every
/// admitted item admitted.
pub proof fn lemma_apply_admits(v: FilterView, op: Insertion, y: Seq<char>)
    requires
        v.wf(),
    ensures
        v.apply(op).wf(),
        v.admits(y) ==> v.apply(op).admits(y),
{
    match op {
        Insertion::Seeded(x) => lemma_insert_admits(v, x, y),
        Insertion::Wide(x) => {
            if v.admits(y) {
                lemma_wide_insert_admits(v, x, y);
            }
        },
    }
}

/// No false negatives over runs that mix both insertion paths: with no
/// rebuild between, the filter admits every item inserted on the seeded path.
pub proof fn lemma_no_false_negatives_mixed(v: FilterView, ops: Seq<Insertion>, x: Seq<char>)
    requires
        v.wf(),
        ops.contains(Insertion::Seeded(x)),
    ensures
        v.after(ops).wf(),
        v.after(ops).admits(x),
    decreases ops.len(),
{
    lemma_after_wf(v, ops.drop_last());
    let before = v.after(ops.drop_last());
    if ops.last() == Insertion::Seeded(x) {
        lemma_insert_admits(before, x, x);
    } else {
        let k = choose|k: int| 0 <= k < ops.len() && ops[k] == Insertion::Seeded(x);
        assert(ops.drop_last()[k] == Insertion::Seeded(x));
        lemma_no_false_negatives_mixed(v, ops.drop_last(), x);
        lemma_apply_admits(before, ops.last(), x);
    }
}

/// A run of insertions on either path keeps the filter consistent.
pub proof fn lemma_after_wf(v: FilterView, ops: Seq<Insertion>)
    requires
        v.wf(),
    ensures
        v.after(ops).wf(),
    decreases ops.len(),
{
    if ops.len() > 0 {
        lemma_after_wf(v, ops.drop_last());
        lemma_apply_admits(v.after(ops.drop_last()), ops.last(), Seq::empty());
    }
}

} // verus!
