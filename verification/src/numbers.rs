//! Smallest-free-integer allocation over the set of numbers in use.

use vstd::prelude::*;

verus! {

/// The largest number that can be allocated.
pub const MAX_NUMBER: u16 = 65535;

/// `n` is the smallest positive integer that `used` does not hold.
pub open spec fn is_smallest_free(used: Set<int>, n: int) -> bool {
    &&& n >= 1
    &&& !used.contains(n)
    &&& forall|m: int| 1 <= m < n ==> used.contains(m)
}

/// `n` is in `used` and nothing in `used` is larger.
pub open spec fn is_highest(used: Set<int>, n: int) -> bool {
    &&& used.contains(n)
    &&& forall|m: int| used.contains(m) ==> m <= n
}

/// Every number from 1 to `MAX_NUMBER` is in `used`.
pub open spec fn is_exhausted(used: Set<int>) -> bool {
    forall|m: int| 1 <= m <= MAX_NUMBER ==> used.contains(m)
}

/// The numbers currently in use, kept in strictly ascending order.
#[derive(Debug)]
pub struct NumberAllocator {
    used: Vec<u16>,
}

impl View for NumberAllocator {
    type V = Set<int>;

    closed spec fn view(&self) -> Set<int> {
        Set::new(|n: int| exists|i: int| 0 <= i < self.used@.len() && self.used@[i] as int == n)
    }
}

impl NumberAllocator {
    /// The numbers are positive and strictly ascending.
    pub closed spec fn wf(&self) -> bool {
        &&& forall|i: int| 0 <= i < self.used@.len() ==> self.used@[i] >= 1
        &&& forall|i: int, j: int| 0 <= i < j < self.used@.len() ==> self.used@[i] < self.used@[j]
    }

    /// In a well-formed allocator the entry at index `i` is at least `i + 1`.
    proof fn lemma_entry_lower_bound(&self, i: int)
        requires
            self.wf(),
            0 <= i < self.used@.len(),
        ensures
            self.used@[i] >= i + 1,
        decreases i,
    {
        if i > 0 {
            self.lemma_entry_lower_bound(i - 1);
        }
    }

    /// A well-formed allocator holds only numbers from 1 to `MAX_NUMBER`, and finitely many.
    pub proof fn lemma_view_bounds(&self)
        requires
            self.wf(),
        ensures
            forall|n: int| self@.contains(n) ==> 1 <= n <= MAX_NUMBER,
            self@.finite(),
            self@.len() <= MAX_NUMBER,
    {
        let range = Set::new(|n: int| 1 <= n <= 65535);
        assert(range =~= vstd::set_lib::set_int_range(1, 65536));
        vstd::set_lib::lemma_int_range(1, 65536);
        assert(self@.subset_of(range));
        vstd::set_lib::lemma_len_subset(self@, range);
    }

    /// An allocator with no number in use.
    pub fn new() -> (allocator: Self)
        ensures
            allocator.wf(),
            allocator@ == Set::<int>::empty(),
    {
        let allocator = NumberAllocator { used: Vec::new() };
        assert(allocator@ =~= Set::<int>::empty());
        allocator
    }

    /// How many numbers are in use.
    pub fn len(&self) -> (count: usize)
        requires
            self.wf(),
        ensures
            count == self@.len(),
    {
        proof {
            self.lemma_len();
        }
        self.used.len()
    }

    proof fn lemma_len(&self)
        requires
            self.wf(),
        ensures
            self@.finite(),
            self@.len() == self.used@.len(),
    {
        let s = self.used@.map_values(|x: u16| x as int);
        assert(s.no_duplicates());
        assert(s.to_set() =~= self@) by {
            assert forall|n: int| s.to_set().contains(n) <==> self@.contains(n) by {
                if s.to_set().contains(n) {
                    let i = choose|i: int| 0 <= i < s.len() && s[i] == n;
                    assert(self.used@[i] as int == n);
                }
                if self@.contains(n) {
                    let i = choose|i: int| 0 <= i < self.used@.len() && self.used@[i] as int == n;
                    assert(s[i] == n);
                }
            }
        }
        s.unique_seq_to_set();
    }

    /// Whether `n` is in use.
    pub fn contains(&self, n: u16) -> (found: bool)
        requires
            self.wf(),
        ensures
            found == self@.contains(n as int),
    {
        let i = self.position(n);
        i < self.used.len() && self.used[i] == n
    }

    /// The index of the first entry that is not below `n`, found by halving.
    fn position(&self, n: u16) -> (i: usize)
        requires
            self.wf(),
        ensures
            i <= self.used@.len(),
            forall|j: int| 0 <= j < i ==> self.used@[j] < n,
            i < self.used@.len() ==> self.used@[i as int] >= n,
            self@.contains(n as int) <==> (i < self.used@.len() && self.used@[i as int] == n),
    {
        let mut lo: usize = 0;
        let mut hi: usize = self.used.len();
        while lo < hi
            invariant
                self.wf(),
                lo <= hi <= self.used@.len(),
                forall|j: int| 0 <= j < lo ==> self.used@[j] < n,
                forall|j: int| hi <= j < self.used@.len() ==> self.used@[j] >= n,
            decreases hi - lo,
        {
            let mid = lo + (hi - lo) / 2;
            if self.used[mid] < n {
                lo = mid + 1;
            } else {
                hi = mid;
            }
        }
        proof {
            if self@.contains(n as int) {
                let k = choose|k: int| 0 <= k < self.used@.len() && self.used@[k] as int == n;
                if k < lo {
                    assert(self.used@[k] < n);
                }
                if k > lo {
                    assert(self.used@[lo as int] >= n);
                    assert(self.used@[lo as int] < self.used@[k]);
                }
                assert(k == lo);
            }
        }
        lo
    }

    /// The smallest positive number that is not in use, or `None` when every
    /// number up to `MAX_NUMBER` is taken. Nothing is changed.
    pub fn get_next_number(&self) -> (next: Option<u16>)
        requires
            self.wf(),
        ensures
            match next {
                Some(n) => is_smallest_free(self@, n as int),
                None => is_exhausted(self@),
            },
    {
        let mut i: usize = 0;
        while i < self.used.len() && self.used[i] as usize == i + 1
            invariant
                self.wf(),
                i <= self.used@.len(),
                forall|j: int| 0 <= j < i ==> self.used@[j] == j + 1,
            decreases self.used@.len() - i,
        {
            i += 1;
        }
        proof {
            if i < self.used@.len() {
                self.lemma_entry_lower_bound(i as int);
            }
            if self.used@.len() > 0 {
                self.lemma_entry_lower_bound(self.used@.len() - 1);
            }
            assert forall|m: int| 1 <= m < i + 1 implies self@.contains(m) by {
                assert(self.used@[m - 1] as int == m);
            }
        }
        if i >= 65535 {
            None
        } else {
            Some((i + 1) as u16)
        }
    }

    /// Takes `n` into use. Fails, changing nothing, when `n` is zero or
    /// already in use.
    pub fn add_number(&mut self, n: u16) -> (added: bool)
        requires
            old(self).wf(),
        ensures
            final(self).wf(),
            added == (n >= 1 && !old(self)@.contains(n as int)),
            added ==> final(self)@ == old(self)@.insert(n as int),
            !added ==> *final(self) == *old(self),
    {
        if n == 0 {
            proof {
                if self@.contains(0) {
                    let i = choose|i: int| 0 <= i < self.used@.len() && self.used@[i] as int == 0;
                }
            }
            return false;
        }
        let i = self.position(n);
        if i < self.used.len() && self.used[i] == n {
            return false;
        }
        let ghost before = self.used@;
        self.used.insert(i, n);
        proof {
            let after = self.used@;
            assert(after == before.insert(i as int, n));
            assert forall|m: int| self@.contains(m) <==> old(self)@.insert(n as int).contains(m) by {
                if self@.contains(m) {
                    let k = choose|k: int| 0 <= k < after.len() && after[k] as int == m;
                    if k < i {
                        assert(before[k] as int == m);
                    } else if k > i {
                        assert(before[k - 1] as int == m);
                    }
                }
                if old(self)@.contains(m) {
                    let k = choose|k: int| 0 <= k < before.len() && before[k] as int == m;
                    if k < i {
                        assert(after[k] as int == m);
                    } else {
                        assert(after[k + 1] as int == m);
                    }
                }
                if m == n {
                    assert(after[i as int] as int == m);
                }
            }
            assert(self@ =~= old(self)@.insert(n as int));
        }
        true
    }

    /// Releases `n`. A number that is not in use is left alone: nothing changes.
    pub fn remove_number(&mut self, n: u16)
        requires
            old(self).wf(),
        ensures
            final(self).wf(),
            final(self)@ == old(self)@.remove(n as int),
            !old(self)@.contains(n as int) ==> *final(self) == *old(self),
    {
        let i = self.position(n);
        if i < self.used.len() && self.used[i] == n {
            let ghost before = self.used@;
            self.used.remove(i);
            proof {
                let after = self.used@;
                assert(after == before.remove(i as int));
                assert forall|m: int| self@.contains(m) <==> old(self)@.remove(n as int).contains(m) by {
                    if self@.contains(m) {
                        let k = choose|k: int| 0 <= k < after.len() && after[k] as int == m;
                        if k < i {
                            assert(before[k] as int == m);
                        } else {
                            assert(before[k + 1] as int == m);
                        }
                    }
                    if old(self)@.contains(m) && m != n {
                        let k = choose|k: int| 0 <= k < before.len() && before[k] as int == m;
                        if k < i {
                            assert(after[k] as int == m);
                        } else {
                            assert(k > i);
                            assert(after[k - 1] as int == m);
                        }
                    }
                }
                assert(self@ =~= old(self)@.remove(n as int));
            }
        } else {
            assert(self@ =~= old(self)@.remove(n as int));
        }
    }

    /// The largest number in use, or `None` when no number is in use.
    pub fn get_highest_number(&self) -> (highest: Option<u16>)
        requires
            self.wf(),
        ensures
            match highest {
                Some(n) => is_highest(self@, n as int),
                None => self@ == Set::<int>::empty(),
            },
    {
        let len = self.used.len();
        if len == 0 {
            assert(self@ =~= Set::<int>::empty());
            None
        } else {
            let n = self.used[len - 1];
            proof {
                assert(self.used@[len - 1] as int == n);
                assert forall|m: int| self@.contains(m) implies m <= n by {
                    let k = choose|k: int| 0 <= k < self.used@.len() && self.used@[k] as int == m;
                }
            }
            Some(n)
        }
    }
}

/// Releasing a number twice leaves the same numbers in use as releasing it
/// once.
pub proof fn lemma_remove_idempotent(before: NumberAllocator, once: NumberAllocator, twice: NumberAllocator, n: u16)
    requires
        once@ == before@.remove(n as int),
        twice@ == once@.remove(n as int),
    ensures
        twice@ == once@,
{
    assert(twice@ =~= once@);
}

/// After a number was taken into use there is a highest number: the set in
/// use is not empty, and its highest number is at least the one taken.
pub proof fn lemma_highest_after_add(before: Set<int>, n: int, highest: int)
    requires
        is_highest(before.insert(n), highest),
    ensures
        before.insert(n) != Set::<int>::empty(),
        highest >= n,
{
    assert(before.insert(n).contains(n));
}

/// A set that is not exhausted has a smallest free number, and it is at
/// most `MAX_NUMBER`.
pub proof fn lemma_smallest_free_exists(used: Set<int>)
    requires
        !is_exhausted(used),
    ensures
        exists|n: int| is_smallest_free(used, n) && n <= MAX_NUMBER,
{
    let free = choose|m: int| 1 <= m <= MAX_NUMBER && !used.contains(m);
    lemma_smallest_free_below(used, free);
}

proof fn lemma_smallest_free_below(used: Set<int>, bound: int)
    requires
        1 <= bound,
        !used.contains(bound),
    ensures
        exists|n: int| is_smallest_free(used, n) && n <= bound,
    decreases bound,
{
    if forall|m: int| 1 <= m < bound ==> used.contains(m) {
        assert(is_smallest_free(used, bound));
    } else {
        let lower = choose|m: int| 1 <= m < bound && !used.contains(m);
        lemma_smallest_free_below(used, lower);
    }
}

} // verus!
