//! Bitmap slot tracker.

use vstd::prelude::*;

verus! {

use crate::allocator::Allocator;
use vstd::std_specs::bits::u64_trailing_zeros;

/// Whether bit `b` of the word `w` is set.
pub open spec fn nth_bit(w: u64, b: int) -> bool
    recommends
        0 <= b < 64,
{
    (w >> (b as u64)) & 1u64 == 1u64
}

/// Whether the bit for slot `i` is set in the bitmap.
pub open spec fn bm_bit(bm: Seq<u64>, i: int) -> bool
    recommends
        0 <= i < 64 * bm.len(),
{
    nth_bit(bm[i / 64], i % 64)
}

/// The number of 64-bit words needed for `capacity` bits.
pub open spec fn spec_num_words(capacity: int) -> int {
    (capacity + 63) / 64
}

/// A bit is set exactly when the corresponding bit of the complement is
/// clear.
proof fn lemma_complement_bit(w: u64, j: u64)
    by (bit_vector)
    requires
        j < 64,
    ensures
        ((w >> j) & 1u64 == 1u64) <==> (((!w) >> j) & 1u64 != 1u64),
{
}

/// Every bit of the all-ones word is set.
proof fn lemma_full_word_bit(j: u64)
    by (bit_vector)
    requires
        j < 64,
    ensures
        (0xffff_ffff_ffff_ffffu64 >> j) & 1u64 == 1u64,
{
}

/// No bit of the zero word is set.
proof fn lemma_zero_word_bit(j: u64)
    by (bit_vector)
    requires
        j < 64,
    ensures
        (0u64 >> j) & 1u64 != 1u64,
{
}

/// Setting bit `b` by an or-mask sets that bit and leaves every other bit
/// as it was.
proof fn lemma_or_bit(w: u64, b: u64, j: u64)
    by (bit_vector)
    requires
        b < 64,
        j < 64,
    ensures
        ((w | (1u64 << b)) >> b) & 1u64 == 1u64,
        j != b ==> ((w | (1u64 << b)) >> j) & 1u64 == (w >> j) & 1u64,
{
}

/// Clearing bit `b` by an and-mask clears that bit and leaves every other
/// bit as it was.
proof fn lemma_and_not_bit(w: u64, b: u64, j: u64)
    by (bit_vector)
    requires
        b < 64,
        j < 64,
    ensures
        ((w & !(1u64 << b)) >> b) & 1u64 != 1u64,
        j != b ==> ((w & !(1u64 << b)) >> j) & 1u64 == (w >> j) & 1u64,
{
}

/// The complement of a word below the all-ones word is not zero.
proof fn lemma_not_max_has_zero(w: u64)
    by (bit_vector)
    requires
        w != 0xffff_ffff_ffff_ffffu64,
    ensures
        !w != 0u64,
{
}

/// A bitmap tracker: one bit per slot, set while the slot is live.
///
/// Space-efficient, and a scan hint remembers the word most recently
/// touched so that claims scan from there, wrapping around; within a
/// word the lowest free bit wins.
pub struct BitmapAllocator {
    /// Bitmap where each bit records whether a slot is live (1) or free (0)
    bitmap: Vec<u64>,
    /// Total capacity (number of slots)
    capacity: usize,
    /// Number of live slots
    allocated: usize,
    /// Word index where the next scan starts
    next_free_hint: usize,
    /// The set of indices handed out and not yet returned
    live: Ghost<Set<int>>,
}

impl BitmapAllocator {
    /// The word index where the next scan starts.
    pub closed spec fn hint_word(&self) -> int {
        self.next_free_hint as int
    }

    /// Whether the stored bit for slot `index` is set.
    pub closed spec fn bit_is_set(&self, i: int) -> bool {
        bm_bit(self.bitmap@, i)
    }

    /// Creates a new bitmap tracker with the given capacity; every slot
    /// starts free and the scan hint at the first word.
    pub fn new(capacity: usize) -> (r: BitmapAllocator)
        requires
            capacity <= usize::MAX - 63,
        ensures
            r.wf(),
            r.capacity_spec() == capacity,
            r.available_spec() == capacity,
            r.hint_word() == 0,
            forall|i: int| 0 <= i < capacity ==> r.is_free(i),
    {
        let num_words = (capacity + 63) / 64;
        let mut bitmap: Vec<u64> = Vec::new();
        let mut k: usize = 0;
        while k < num_words
            invariant
                k <= num_words,
                bitmap@.len() == k,
                forall|w: int| 0 <= w < k ==> bitmap@[w] == 0u64,
            decreases num_words - k,
        {
            bitmap.push(0u64);
            k = k + 1;
        }
        let r = BitmapAllocator {
            bitmap,
            capacity,
            allocated: 0,
            next_free_hint: 0,
            live: Ghost(Set::empty()),
        };
        proof {
            assert forall|i: int| 0 <= i < 64 * r.bitmap@.len() implies !bm_bit(r.bitmap@, i) by {
                lemma_zero_word_bit((i % 64) as u64);
            }
            vstd::arithmetic::div_mod::lemma_fundamental_div_mod(capacity + 63, 64);
        }
        r
    }

    /// Returns the word index and bit position for a given slot index.
    fn word_and_bit(index: usize) -> (r: (usize, usize))
        ensures
            r.0 == index as int / 64,
            r.1 == index as int % 64,
    {
        (index / 64, index % 64)
    }

    /// Checks if a slot is live.
    pub fn is_allocated(&self, index: usize) -> (r: bool)
        requires
            self.wf(),
            index < self.capacity_spec(),
        ensures
            r == !self.is_free(index as int),
    {
        let (word_idx, bit_pos) = Self::word_and_bit(index);
        proof {
            self.lemma_word_of_index(index as int);
            let wv = self.bitmap@[word_idx as int];
            assert((wv & (1u64 << (bit_pos as u64)) != 0) == ((wv >> (bit_pos as u64)) & 1u64
                == 1u64)) by (bit_vector)
                requires
                    bit_pos < 64,
            ;
        }
        (self.bitmap[word_idx] & (1u64 << (bit_pos as u64))) != 0
    }

    /// An in-range slot index lies in an existing word.
    proof fn lemma_word_of_index(&self, i: int)
        requires
            self.wf(),
            0 <= i < self.capacity_spec(),
        ensures
            0 <= i / 64 < self.bitmap@.len(),
            0 <= i % 64 < 64,
            i < 64 * self.bitmap@.len(),
    {
        vstd::arithmetic::div_mod::lemma_fundamental_div_mod(self.capacity + 63, 64);
        vstd::arithmetic::div_mod::lemma_fundamental_div_mod(i, 64);
    }

    /// Marks a slot as live; only that bit changes.
    fn mark_allocated(&mut self, index: usize)
        requires
            old(self).wf(),
            index < old(self).capacity_spec(),
        ensures
            final(self).bitmap@.len() == old(self).bitmap@.len(),
            final(self).capacity == old(self).capacity,
            final(self).allocated == old(self).allocated,
            final(self).next_free_hint == old(self).next_free_hint,
            final(self).live == old(self).live,
            bm_bit(final(self).bitmap@, index as int),
            forall|i: int|
                0 <= i < 64 * old(self).bitmap@.len() && i != index as int ==> bm_bit(
                    final(self).bitmap@,
                    i,
                ) == bm_bit(old(self).bitmap@, i),
    {
        let (word_idx, bit_pos) = Self::word_and_bit(index);
        proof {
            self.lemma_word_of_index(index as int);
        }
        self.bitmap[word_idx] = self.bitmap[word_idx] | (1u64 << (bit_pos as u64));
        proof {
            lemma_or_bit(old(self).bitmap@[word_idx as int], bit_pos as u64, bit_pos as u64);
            assert forall|i: int|
                0 <= i < 64 * old(self).bitmap@.len() && i != index as int implies bm_bit(
                self.bitmap@,
                i,
            ) == bm_bit(old(self).bitmap@, i) by {
                vstd::arithmetic::div_mod::lemma_fundamental_div_mod(i, 64);
                if i / 64 == word_idx as int {
                    lemma_or_bit(
                        old(self).bitmap@[word_idx as int],
                        bit_pos as u64,
                        (i % 64) as u64,
                    );
                }
            }
        }
    }

    /// Marks a slot as free; only that bit changes.
    fn mark_free(&mut self, index: usize)
        requires
            old(self).wf(),
            index < old(self).capacity_spec(),
        ensures
            final(self).bitmap@.len() == old(self).bitmap@.len(),
            final(self).capacity == old(self).capacity,
            final(self).allocated == old(self).allocated,
            final(self).next_free_hint == old(self).next_free_hint,
            final(self).live == old(self).live,
            !bm_bit(final(self).bitmap@, index as int),
            forall|i: int|
                0 <= i < 64 * old(self).bitmap@.len() && i != index as int ==> bm_bit(
                    final(self).bitmap@,
                    i,
                ) == bm_bit(old(self).bitmap@, i),
    {
        let (word_idx, bit_pos) = Self::word_and_bit(index);
        proof {
            self.lemma_word_of_index(index as int);
        }
        self.bitmap[word_idx] = self.bitmap[word_idx] & !(1u64 << (bit_pos as u64));
        proof {
            lemma_and_not_bit(old(self).bitmap@[word_idx as int], bit_pos as u64, bit_pos as u64);
            assert forall|i: int|
                0 <= i < 64 * old(self).bitmap@.len() && i != index as int implies bm_bit(
                self.bitmap@,
                i,
            ) == bm_bit(old(self).bitmap@, i) by {
                vstd::arithmetic::div_mod::lemma_fundamental_div_mod(i, 64);
                if i / 64 == word_idx as int {
                    lemma_and_not_bit(
                        old(self).bitmap@[word_idx as int],
                        bit_pos as u64,
                        (i % 64) as u64,
                    );
                }
            }
        }
    }

    /// Scans one word; when it holds a free bit below the capacity,
    /// returns the lowest such bit's slot index.
    ///
    /// When it returns nothing, every slot of that word is live.
    fn scan_word(&self, w: usize) -> (r: Option<usize>)
        requires
            self.wf(),
            w < self.bitmap@.len(),
        ensures
            match r {
                Some(idx) => {
                    &&& idx < self.capacity_spec()
                    &&& idx as int / 64 == w as int
                    &&& !bm_bit(self.bitmap@, idx as int)
                    &&& forall|j: int| 64 * (w as int) <= j < idx as int ==> bm_bit(self.bitmap@, j)
                },
                None => forall|j: int|
                    64 * (w as int) <= j < 64 * (w as int) + 64 && 0 <= j < self.capacity_spec()
                        ==> bm_bit(self.bitmap@, j),
            },
    {
        let word = self.bitmap[w];
        proof {
            vstd::arithmetic::div_mod::lemma_fundamental_div_mod(self.capacity + 63, 64);
        }
        if word != u64::MAX {
            proof {
                lemma_not_max_has_zero(word);
                vstd::std_specs::bits::axiom_u64_trailing_zeros(!word);
            }
            let bit_pos = (!word).trailing_zeros() as usize;
            let index = w * 64 + bit_pos;
            proof {
                let tz = u64_trailing_zeros(!word) as int;
                lemma_complement_bit(word, tz as u64);
                assert forall|j: int| 64 * (w as int) <= j < index as int implies bm_bit(
                    self.bitmap@,
                    j,
                ) by {
                    vstd::arithmetic::div_mod::lemma_fundamental_div_mod(j, 64);
                    assert(((!word) >> ((j % 64) as u64)) & 1u64 == 0u64);
                    lemma_complement_bit(word, (j % 64) as u64);
                }
                vstd::arithmetic::div_mod::lemma_fundamental_div_mod(index as int, 64);
            }
            if index < self.capacity {
                return Some(index);
            }
            proof {
                assert forall|j: int|
                    64 * (w as int) <= j < 64 * (w as int) + 64 && 0 <= j
                        < self.capacity_spec() implies bm_bit(self.bitmap@, j) by {
                    vstd::arithmetic::div_mod::lemma_fundamental_div_mod(j, 64);
                }
            }
            None
        } else {
            proof {
                assert forall|j: int|
                    64 * (w as int) <= j < 64 * (w as int) + 64 && 0 <= j
                        < self.capacity_spec() implies bm_bit(self.bitmap@, j) by {
                    vstd::arithmetic::div_mod::lemma_fundamental_div_mod(j, 64);
                    lemma_full_word_bit((j % 64) as u64);
                }
            }
            None
        }
    }

    /// Finds a free slot, scanning words from the hint and wrapping
    /// around; within a word the lowest free bit wins. Records the found
    /// word in the hint.
    fn find_free_slot(&mut self) -> (r: Option<usize>)
        requires
            old(self).wf(),
            old(self).allocated_count() < old(self).capacity_spec(),
        ensures
            final(self).wf(),
            final(self).bitmap@ == old(self).bitmap@,
            final(self).capacity == old(self).capacity,
            final(self).allocated == old(self).allocated,
            final(self).live == old(self).live,
            r is Some,
            r matches Some(i) ==> {
                &&& (i as int) < old(self).capacity_spec()
                &&& !old(self).bit_is_set(i as int)
                &&& final(self).hint_word() == i as int / 64
                &&& forall|j: int| 64 * (i as int / 64) <= j < i as int ==> old(self).bit_is_set(j)
                &&& (i as int / 64 >= old(self).hint_word() ==> forall|j: int|
                    64 * old(self).hint_word() <= j < 64 * (i as int / 64) && 0 <= j < old(self).capacity_spec() ==> old(self).bit_is_set(j))
                &&& (i as int / 64 < old(self).hint_word() ==> (forall|j: int|
                    64 * old(self).hint_word() <= j && 0 <= j < old(self).capacity_spec() ==> old(self).bit_is_set(j)) && (forall|j: int|
                    0 <= j < 64 * (i as int / 64) && j < old(self).capacity_spec() ==> old(self).bit_is_set(j)))
            },
    {
        let num_words = self.bitmap.len();
        let start = self.next_free_hint;
        let mut w = start;
        while w < num_words
            invariant
                self.wf(),
                self == old(self),
                start == old(self).next_free_hint,
                num_words == self.bitmap@.len(),
                start <= w,
                forall|j: int|
                    64 * (start as int) <= j < 64 * (w as int) && 0 <= j < self.capacity_spec()
                        ==> bm_bit(self.bitmap@, j),
            decreases num_words - w,
        {
            match self.scan_word(w) {
                Some(index) => {
                    self.next_free_hint = w;
                    proof {
                        self.lemma_wf_after_hint(old(self));
                    }
                    return Some(index);
                },
                None => {},
            }
            w = w + 1;
        }
        let mut w2: usize = 0;
        while w2 < start
            invariant
                self.wf(),
                self == old(self),
                start == old(self).next_free_hint,
                num_words == self.bitmap@.len(),
                start <= num_words,
                w2 <= start,
                forall|j: int|
                    64 * (start as int) <= j && 0 <= j < self.capacity_spec() ==> bm_bit(
                        self.bitmap@,
                        j,
                    ),
                forall|j: int|
                    0 <= j < 64 * (w2 as int) && j < self.capacity_spec() ==> bm_bit(
                        self.bitmap@,
                        j,
                    ),
            decreases start - w2,
        {
            match self.scan_word(w2) {
                Some(index) => {
                    self.next_free_hint = w2;
                    proof {
                        self.lemma_wf_after_hint(old(self));
                    }
                    return Some(index);
                },
                None => {},
            }
            w2 = w2 + 1;
        }
        proof {
            self.lemma_all_bits_set_means_full();
        }
        None
    }

    /// Changing only the hint to an existing word keeps the tracker
    /// consistent.
    proof fn lemma_wf_after_hint(&self, prev: &BitmapAllocator)
        requires
            prev.wf(),
            self.bitmap@ == prev.bitmap@,
            self.capacity == prev.capacity,
            self.allocated == prev.allocated,
            self.live == prev.live,
            self.next_free_hint < self.bitmap@.len() || self.next_free_hint == 0,
        ensures
            self.wf(),
    {
    }

    /// If every slot's bit is set, the live set covers the whole range,
    /// so the tracker is full.
    proof fn lemma_all_bits_set_means_full(&self)
        requires
            self.wf(),
            forall|j: int| 0 <= j < self.capacity_spec() ==> bm_bit(self.bitmap@, j),
        ensures
            self.allocated_count() >= self.capacity_spec(),
    {
        let range = vstd::set_lib::set_int_range(0, self.capacity as int);
        vstd::set_lib::lemma_int_range(0, self.capacity as int);
        assert(range.subset_of(self.live@));
        vstd::set_lib::lemma_len_subset(range, self.live@);
    }

    /// The number of live slots.
    pub closed spec fn allocated_count(&self) -> nat {
        self.allocated as nat
    }

    /// Attempts to find multiple free slots at once for batch operations.
    ///
    /// The returned indices are pairwise distinct free slots. Nothing
    /// stays claimed by this call: the scanned slots are marked while
    /// they are collected, so no index is picked twice, and all marks
    /// are taken back before returning. Fails exactly when more slots
    /// are asked for than are available.
    pub fn find_free_slots(&mut self, count: usize) -> (r: Option<Vec<usize>>)
        requires
            old(self).wf(),
        ensures
            final(self).wf(),
            final(self).capacity_spec() == old(self).capacity_spec(),
            final(self).available_spec() == old(self).available_spec(),
            forall|j: int| final(self).is_free(j) == old(self).is_free(j),
            r is Some <==> count <= old(self).available_spec(),
            r matches Some(v) ==> {
                &&& v@.len() == count
                &&& forall|k: int|
                    0 <= k < v@.len() ==> old(self).is_free((#[trigger] v@[k]) as int)
                &&& forall|k1: int, k2: int|
                    0 <= k1 < v@.len() && 0 <= k2 < v@.len() && k1 != k2 ==> (#[trigger] v@[k1])
                        != (#[trigger] v@[k2])
            },
    {
        proof {
            self.lemma_available_bounded();
        }
        if count > self.available() {
            return None;
        }
        let mut indices: Vec<usize> = Vec::new();
        let mut n: usize = 0;
        while n < count
            invariant
                self.wf(),
                self.capacity_spec() == old(self).capacity_spec(),
                n <= count,
                count <= old(self).available_spec(),
                indices@.len() == n,
                self.available_spec() == old(self).available_spec() - n,
                forall|k: int|
                    0 <= k < n ==> old(self).is_free((#[trigger] indices@[k]) as int),
                forall|k: int|
                    0 <= k < n ==> !self.is_free((#[trigger] indices@[k]) as int) && (
                    indices@[k] as int) < self.capacity_spec(),
                forall|k1: int, k2: int|
                    0 <= k1 < n && 0 <= k2 < n && k1 != k2 ==> (#[trigger] indices@[k1]) != (
                    #[trigger] indices@[k2]),
                forall|j: int|
                    (forall|k: int| 0 <= k < n ==> j != (#[trigger] indices@[k]) as int)
                        ==> self.is_free(j) == old(self).is_free(j),
            decreases count - n,
        {
            let ghost pre = *self;
            let ghost pre_indices = indices@;
            let idx = match self.allocate() {
                Some(i) => i,
                None => {
                    proof {
                        assert(false);
                    }
                    return None;
                },
            };
            indices.push(idx);
            n = n + 1;
            proof {
                assert forall|k: int|
                    0 <= k < n implies old(self).is_free((#[trigger] indices@[k]) as int) by {
                    if k < n - 1 {
                        assert(indices@[k] == pre_indices[k]);
                    } else {
                        assert(indices@[k] == idx);
                        assert(pre.is_free(idx as int));
                        assert forall|kk: int|
                            0 <= kk < n - 1 implies idx as int != (
                        #[trigger] pre_indices[kk]) as int by {
                            assert(!pre.is_free(pre_indices[kk] as int));
                        }
                    }
                }
                assert forall|k1: int, k2: int|
                    0 <= k1 < n && 0 <= k2 < n && k1 != k2 implies (#[trigger] indices@[k1]) != (
                #[trigger] indices@[k2]) by {
                    if k1 < n - 1 && k2 < n - 1 {
                        assert(pre_indices[k1] != pre_indices[k2]);
                    } else if k1 == n - 1 {
                        assert(!pre.is_free(pre_indices[k2] as int));
                        assert(pre.is_free(idx as int));
                    } else {
                        assert(!pre.is_free(pre_indices[k1] as int));
                        assert(pre.is_free(idx as int));
                    }
                }
                assert forall|k: int|
                    0 <= k < n implies !self.is_free((#[trigger] indices@[k]) as int) && (
                indices@[k] as int) < self.capacity_spec() by {
                    if k < n - 1 {
                        assert(indices@[k] == pre_indices[k]);
                        assert(pre_indices[k] as int != idx as int);
                    }
                }
                assert forall|j: int|
                    (forall|k: int| 0 <= k < n ==> j != (#[trigger] indices@[k]) as int)
                        implies self.is_free(j) == old(self).is_free(j) by {
                    assert(j != indices@[n - 1] as int);
                    assert forall|k: int|
                        0 <= k < n - 1 implies j != (#[trigger] pre_indices[k]) as int by {
                        assert(pre_indices[k] == indices@[k]);
                    }
                }
            }
        }
        let mut m: usize = 0;
        while m < count
            invariant
                self.wf(),
                self.capacity_spec() == old(self).capacity_spec(),
                m <= count,
                indices@.len() == count,
                self.available_spec() == old(self).available_spec() - count + m,
                forall|k: int|
                    0 <= k < count ==> old(self).is_free((#[trigger] indices@[k]) as int) && (
                    indices@[k] as int) < self.capacity_spec(),
                forall|k1: int, k2: int|
                    0 <= k1 < count && 0 <= k2 < count && k1 != k2 ==> (#[trigger] indices@[k1])
                        != (#[trigger] indices@[k2]),
                forall|k: int| 0 <= k < m ==> self.is_free((#[trigger] indices@[k]) as int),
                forall|k: int|
                    m <= k < count ==> !self.is_free((#[trigger] indices@[k]) as int),
                forall|j: int|
                    (forall|k: int| 0 <= k < count ==> j != (#[trigger] indices@[k]) as int)
                        ==> self.is_free(j) == old(self).is_free(j),
            decreases count - m,
        {
            let idx = indices[m];
            self.free(idx);
            m = m + 1;
        }
        proof {
            assert forall|j: int| self.is_free(j) == old(self).is_free(j) by {
                if exists|k: int| 0 <= k < count && j == (#[trigger] indices@[k]) as int {
                    let k = choose|k: int|
                        0 <= k < count && j == (#[trigger] indices@[k]) as int;
                    assert(self.is_free(indices@[k] as int));
                    assert(old(self).is_free(indices@[k] as int));
                }
            }
        }
        Some(indices)
    }

    /// Extends the tracker with additional capacity; all new slots are
    /// free.
    pub fn extend(&mut self, additional: usize)
        requires
            old(self).wf(),
            old(self).capacity_spec() + additional <= usize::MAX - 63,
        ensures
            final(self).wf(),
            final(self).capacity_spec() == old(self).capacity_spec() + additional,
            final(self).available_spec() == old(self).available_spec() + additional,
            forall|j: int|
                0 <= j < old(self).capacity_spec() ==> final(self).is_free(j) == old(
                self).is_free(j),
            forall|j: int|
                old(self).capacity_spec() <= j < final(self).capacity_spec() ==> final(
                self).is_free(j),
    {
        self.capacity = self.capacity + additional;
        let new_num_words = (self.capacity + 63) / 64;
        proof {
            vstd::arithmetic::div_mod::lemma_fundamental_div_mod(self.capacity + 63, 64);
            vstd::arithmetic::div_mod::lemma_fundamental_div_mod(old(self).capacity + 63, 64);
            vstd::arithmetic::div_mod::lemma_div_is_ordered(
                old(self).capacity + 63,
                self.capacity + 63,
                64,
            );
        }
        while self.bitmap.len() < new_num_words
            invariant
                self.capacity == old(self).capacity + additional,
                self.allocated == old(self).allocated,
                self.next_free_hint == old(self).next_free_hint,
                self.live == old(self).live,
                old(self).bitmap@.len() <= self.bitmap@.len() <= new_num_words,
                self.bitmap@.take(old(self).bitmap@.len() as int) == old(self).bitmap@,
                forall|w: int|
                    old(self).bitmap@.len() <= w < self.bitmap@.len() ==> self.bitmap@[w] == 0u64,
            decreases new_num_words - self.bitmap@.len(),
        {
            self.bitmap.push(0u64);
            proof {
                assert(self.bitmap@.take(old(self).bitmap@.len() as int) =~= old(self).bitmap@);
            }
        }
        proof {
            let old_len = old(self).bitmap@.len() as int;
            assert forall|w: int| 0 <= w < old_len implies self.bitmap@[w] == old(self).bitmap@[w] by {
                assert(self.bitmap@.take(old_len)[w] == self.bitmap@[w]);
            }
            assert forall|i: int|
                0 <= i < 64 * self.bitmap@.len() implies bm_bit(self.bitmap@, i) == (i < 64
                * old_len && bm_bit(old(self).bitmap@, i)) by {
                vstd::arithmetic::div_mod::lemma_fundamental_div_mod(i, 64);
                if i / 64 >= old_len {
                    lemma_zero_word_bit((i % 64) as u64);
                }
            }
            vstd::arithmetic::div_mod::lemma_fundamental_div_mod(self.capacity + 63, 64);
        }
    }
}

impl Allocator for BitmapAllocator {
    closed spec fn capacity_spec(&self) -> nat {
        self.capacity as nat
    }

    closed spec fn is_free(&self, i: int) -> bool {
        0 <= i < self.capacity && !bm_bit(self.bitmap@, i)
    }

    closed spec fn available_spec(&self) -> nat {
        (self.capacity - self.allocated) as nat
    }

    closed spec fn wf(&self) -> bool {
        &&& self.capacity <= usize::MAX - 63
        &&& self.bitmap@.len() == spec_num_words(self.capacity as int)
        &&& forall|i: int|
            self.capacity <= i < 64 * self.bitmap@.len() ==> !bm_bit(self.bitmap@, i)
        &&& self.live@.finite()
        &&& forall|i: int| self.live@.contains(i) ==> 0 <= i < self.capacity
        &&& forall|i: int|
            0 <= i < self.capacity ==> (bm_bit(self.bitmap@, i) <==> self.live@.contains(i))
        &&& self.allocated == self.live@.len()
        &&& self.allocated <= self.capacity
        &&& (self.next_free_hint < self.bitmap@.len() || self.next_free_hint == 0)
    }

    proof fn lemma_available_bounded(&self) {
    }

    proof fn lemma_free_in_range(&self, i: int) {
    }

    proof fn lemma_all_available_all_free(&self) {
        assert forall|i: int| 0 <= i < self.capacity_spec() implies self.is_free(i) by {
            if self.live@.contains(i) {
                vstd::set::axiom_set_remove_len(self.live@, i);
            }
        }
    }

    /// Claims the slot found by the hinted scan: the lowest free bit of
    /// the first word, counted from the hint, that has one.
    fn allocate(&mut self) -> (r: Option<usize>)
        ensures
            r matches Some(i) ==> {
                &&& final(self).hint_word() == i as int / 64
                &&& forall|j: int| 64 * (i as int / 64) <= j < i as int ==> old(self).bit_is_set(j)
                &&& (i as int / 64 >= old(self).hint_word() ==> forall|j: int|
                    64 * old(self).hint_word() <= j < 64 * (i as int / 64) && 0 <= j < old(self).capacity_spec() ==> old(self).bit_is_set(j))
                &&& (i as int / 64 < old(self).hint_word() ==> (forall|j: int|
                    64 * old(self).hint_word() <= j && 0 <= j < old(self).capacity_spec() ==> old(self).bit_is_set(j)) && (forall|j: int|
                    0 <= j < 64 * (i as int / 64) && j < old(self).capacity_spec() ==> old(self).bit_is_set(j)))
            },
    {
        if self.allocated >= self.capacity {
            return None;
        }
        match self.find_free_slot() {
            Some(index) => {
                proof {
                    self.lemma_word_of_index(index as int);
                }
                self.mark_allocated(index);
                self.allocated = self.allocated + 1;
                proof {
                    self.live@ = self.live@.insert(index as int);
                }
                Some(index)
            },
            None => None,
        }
    }

    /// Clears the slot's bit and steers the next scan to its word.
    fn free(&mut self, index: usize)
        ensures
            final(self).hint_word() == index as int / 64,
    {
        proof {
            self.lemma_word_of_index(index as int);
            if self.live@.contains(index as int) {
                vstd::set::axiom_set_remove_len(self.live@, index as int);
            }
        }
        self.mark_free(index);
        self.allocated = self.allocated - 1;
        self.next_free_hint = index / 64;
        proof {
            self.live@ = self.live@.remove(index as int);
        }
    }

    fn available(&self) -> (r: usize) {
        self.capacity - self.allocated
    }

    fn capacity(&self) -> (r: usize) {
        self.capacity
    }

    fn is_full(&self) -> (r: bool) {
        self.capacity - self.allocated == 0
    }

    fn is_empty(&self) -> (r: bool) {
        self.capacity - self.allocated == self.capacity
    }
}

/// The bitmap's ordering rule: with the scan hint at the first word (as
/// in a fresh tracker), a claim returns the lowest free index. The facts
/// assumed here are exactly what `allocate` ensures of a successful claim
/// whose scan started at word zero.
pub proof fn lemma_bitmap_lowest_free(t: &BitmapAllocator, i: usize)
    requires
        forall|j: int| 64 * (i as int / 64) <= j < i as int ==> t.bit_is_set(j),
        forall|j: int| 0 <= j < 64 * (i as int / 64) && j < t.capacity_spec() ==> t.bit_is_set(j),
    ensures
        forall|j: int| t.is_free(j) ==> j >= i as int,
{
    assert forall|j: int| t.is_free(j) implies j >= i as int by {
        if j < 64 * (i as int / 64) {
            assert(t.bit_is_set(j));
        } else if j < i as int {
            assert(t.bit_is_set(j));
        }
    }
}

} // verus!
