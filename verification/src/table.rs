//! A small keyed table: at most one value per key.

use vstd::prelude::*;

verus! {

/// Values filed under `u64` keys. Setting a key that is present replaces its
/// value; removing a key that is absent does nothing.
#[derive(Debug)]
pub struct Table<T> {
    keys: Vec<u64>,
    values: Vec<T>,
}

impl<T> View for Table<T> {
    type V = Map<u64, T>;

    closed spec fn view(&self) -> Map<u64, T> {
        Map::new(|key: u64| self.keys@.contains(key), |key: u64| self.values@[self.slot(key)])
    }
}

impl<T> Table<T> {
    /// Every key has one value, and no key stands twice.
    pub closed spec fn wf(&self) -> bool {
        &&& self.keys@.len() == self.values@.len()
        &&& self.keys@.no_duplicates()
    }

    spec fn slot(&self, key: u64) -> int {
        choose|i: int| 0 <= i < self.keys@.len() && self.keys@[i] == key
    }

    /// A table without entries.
    pub fn new() -> (table: Self)
        ensures
            table.wf(),
            table@ == Map::<u64, T>::empty(),
    {
        let table = Table { keys: Vec::new(), values: Vec::new() };
        assert(table@ =~= Map::<u64, T>::empty());
        table
    }

    /// The index of `key`, or the number of entries when it is absent.
    fn find(&self, key: u64) -> (i: usize)
        requires
            self.wf(),
        ensures
            i <= self.keys@.len(),
            i < self.keys@.len() ==> self.keys@[i as int] == key && self.slot(key) == i,
            i == self.keys@.len() ==> !self.keys@.contains(key),
    {
        let mut i: usize = 0;
        while i < self.keys.len()
            invariant
                self.wf(),
                i <= self.keys@.len(),
                forall|j: int| 0 <= j < i ==> self.keys@[j] != key,
            decreases self.keys@.len() - i,
        {
            if self.keys[i] == key {
                return i;
            }
            i += 1;
        }
        i
    }

    /// The value of `key`, if it has one.
    pub fn get(&self, key: u64) -> (value: Option<&T>)
        requires
            self.wf(),
        ensures
            match value {
                Some(v) => self@.dom().contains(key) && *v == self@[key],
                None => !self@.dom().contains(key),
            },
    {
        let i = self.find(key);
        if i < self.keys.len() {
            Some(&self.values[i])
        } else {
            None
        }
    }

    /// Files `value` under `key`, in place of any value it had.
    pub fn set(&mut self, key: u64, value: T)
        requires
            old(self).wf(),
        ensures
            final(self).wf(),
            final(self)@ == old(self)@.insert(key, value),
    {
        let i = self.find(key);
        if i < self.keys.len() {
            self.values.set(i, value);
            proof {
                assert forall|k: u64| self@.dom().contains(k) implies #[trigger] self@[k] == old(self)@.insert(
                    key,
                    value,
                )[k] by {
                    assert(self.slot(k) == old(self).slot(k));
                }
            }
        } else {
            self.keys.push(key);
            self.values.push(value);
            proof {
                let n = old(self).keys@.len() as int;
                assert(self.keys@[n] == key);
                assert forall|k: u64| self@.dom().contains(k) <==> #[trigger] old(self)@.insert(
                    key,
                    value,
                ).dom().contains(k) by {
                    if self.keys@.contains(k) {
                        let j = choose|j: int| 0 <= j < self.keys@.len() && self.keys@[j] == k;
                        if j < n {
                            assert(old(self).keys@[j] == k);
                        }
                    }
                    if old(self).keys@.contains(k) {
                        let j = choose|j: int| 0 <= j < old(self).keys@.len() && old(self).keys@[j] == k;
                        assert(self.keys@[j] == k);
                    }
                }
                assert forall|k: u64| self@.dom().contains(k) implies #[trigger] self@[k] == old(self)@.insert(
                    key,
                    value,
                )[k] by {
                    let j = self.slot(k);
                    if k != key {
                        assert(j < n);
                        assert(old(self).keys@[j] == k);
                        assert(old(self).slot(k) == j);
                    }
                }
            }
        }
        assert(self@ =~= old(self)@.insert(key, value));
    }

    /// Takes the value of `key` out of the table, if it has one.
    pub fn take(&mut self, key: u64) -> (value: Option<T>)
        requires
            old(self).wf(),
        ensures
            final(self).wf(),
            final(self)@ == old(self)@.remove(key),
            value == if old(self)@.dom().contains(key) {
                Some(old(self)@[key])
            } else {
                None::<T>
            },
    {
        let i = self.find(key);
        if i < self.keys.len() {
            self.keys.remove(i);
            let value = self.values.remove(i);
            proof {
                let before = old(self).keys@;
                let after = self.keys@;
                assert forall|a: int, b: int| 0 <= a < after.len() && 0 <= b < after.len() && a != b implies after[a]
                    != after[b] by {
                    let a0 = if a < i { a } else { a + 1 };
                    let b0 = if b < i { b } else { b + 1 };
                    assert(after[a] == before[a0]);
                    assert(after[b] == before[b0]);
                }
                assert forall|k: u64| self@.dom().contains(k) <==> #[trigger] old(self)@.remove(key).dom().contains(
                    k,
                ) by {
                    if after.contains(k) {
                        let j = choose|j: int| 0 <= j < after.len() && after[j] == k;
                        let j0 = if j < i { j } else { j + 1 };
                        assert(before[j0] == k);
                    }
                    if before.contains(k) && k != key {
                        let j = choose|j: int| 0 <= j < before.len() && before[j] == k;
                        let j1 = if j < i { j } else { j - 1 };
                        assert(after[j1] == k);
                    }
                }
                assert forall|k: u64| self@.dom().contains(k) implies #[trigger] self@[k] == old(self)@.remove(
                    key,
                )[k] by {
                    let j = self.slot(k);
                    let j0 = if j < i { j } else { j + 1 };
                    assert(before[j0] == k);
                    assert(old(self).slot(k) == j0);
                }
                assert(self@ =~= old(self)@.remove(key));
            }
            Some(value)
        } else {
            assert(self@ =~= old(self)@.remove(key));
            None
        }
    }
}

} // verus!
