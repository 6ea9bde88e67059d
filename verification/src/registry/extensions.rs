//! Annotations that layers attach to spans.
//!
//! A layer keeps what it wants to remember of a span under a key of its own
//! choosing, one value per key.
use vstd::prelude::*;
use crate::span::Id;

verus! {

/// A map from keys to values, for the annotations of one span or, keyed by
/// the numbers of spans, for those of all spans.
pub struct Extensions<T> {
    entries: Vec<(u64, T)>,
}

impl<T> Extensions<T> {
    spec fn keys(self) -> Seq<u64> {
        Seq::new(self.entries@.len(), |i: int| self.entries@[i].0)
    }

    spec fn position(self, key: u64, i: int) -> bool {
        0 <= i < self.entries@.len() && self.entries@[i].0 == key
    }

    /// No key occurs twice.
    pub closed spec fn wf(self) -> bool {
        forall|i: int, j: int|
            0 <= i < j < self.entries@.len() ==> self.entries@[i].0 != self.entries@[j].0
    }

    /// The values by their keys.
    pub closed spec fn view(self) -> Map<u64, T> {
        Map::new(
            |key: u64| exists|i: int| self.position(key, i),
            |key: u64| self.entries@[choose|i: int| self.position(key, i)].1,
        )
    }

    proof fn lemma_view_at(self, i: int)
        requires
            self.wf(),
            0 <= i < self.entries@.len(),
        ensures
            self.view().contains_key(self.entries@[i].0),
            self.view()[self.entries@[i].0] == self.entries@[i].1,
    {
        let key = self.entries@[i].0;
        assert(self.position(key, i));
        let c = choose|c: int| self.position(key, c);
        assert(c == i);
    }

    /// Whether this map is what `before` becomes when `value` is put under
    /// `key`.
    pub closed spec fn is_update_of(self, before: Self, key: u64, value: T) -> bool {
        self.wf() && self.view() == before.view().insert(key, value)
    }

    /// What [`Extensions::is_update_of`] says.
    pub proof fn lemma_is_update_of(self, before: Self, key: u64, value: T)
        requires
            self.is_update_of(before, key, value),
        ensures
            self.wf(),
            self.view() == before.view().insert(key, value),
    {
    }

    proof fn lemma_update(self, after: Self, i: int, value: T)
        requires
            self.wf(),
            0 <= i < self.entries@.len(),
            after.entries@ == self.entries@.update(i, (self.entries@[i].0, value)),
        ensures
            after.is_update_of(self, self.entries@[i].0, value),
    {
        let key = self.entries@[i].0;
        assert forall|k: u64, j: int| after.position(k, j) == self.position(k, j) by {}
        assert forall|a: int, b: int| 0 <= a < b < after.entries@.len() implies after.entries@[a].0
            != after.entries@[b].0 by {
            assert(after.entries@[a].0 == self.entries@[a].0);
            assert(after.entries@[b].0 == self.entries@[b].0);
        }
        assert forall|k: u64| #[trigger] after.view().contains_key(k) implies after.view()[k]
            == self.view().insert(key, value)[k] by {
            let j = choose|j: int| after.position(k, j);
            after.lemma_view_at(j);
            assert(self.position(k, j));
            self.lemma_view_at(j);
        }
        assert(self.position(key, i));
        assert(after.position(key, i));
        assert(after.view() =~= self.view().insert(key, value));
    }

    /// A map without entries.
    pub fn new() -> (r: Self)
        ensures
            r.wf(),
            r.view() == Map::<u64, T>::empty(),
    {
        let r = Extensions { entries: Vec::new() };
        assert(r.view() =~= Map::<u64, T>::empty());
        r
    }

    /// Number of entries.
    pub fn len(&self) -> (n: usize)
        requires
            self.wf(),
        ensures
            n == self.view().len(),
            self.view().dom().finite(),
    {
        proof {
            self.lemma_len();
        }
        self.entries.len()
    }

    proof fn lemma_len(self)
        requires
            self.wf(),
        ensures
            self.view().dom().finite(),
            self.view().dom().len() == self.entries@.len(),
    {
        let keys = self.keys();
        assert(keys.no_duplicates());
        keys.unique_seq_to_set();
        vstd::seq_lib::seq_to_set_is_finite(keys);
        assert(keys.to_set() =~= self.view().dom()) by {
            assert forall|k: u64| keys.to_set().contains(k) <==> self.view().dom().contains(k) by {
                if keys.to_set().contains(k) {
                    let i = choose|i: int| 0 <= i < keys.len() && keys[i] == k;
                    assert(self.position(k, i));
                }
                if self.view().dom().contains(k) {
                    let i = choose|i: int| self.position(k, i);
                    assert(keys[i] == k);
                }
            }
        }
    }

    fn find(&self, key: u64) -> (at: Option<usize>)
        ensures
            match at {
                Some(i) => self.position(key, i as int),
                None => forall|i: int| !self.position(key, i),
            },
    {
        let mut i: usize = 0;
        while i < self.entries.len()
            invariant
                i <= self.entries@.len(),
                forall|j: int| 0 <= j < i ==> !self.position(key, j),
            decreases self.entries@.len() - i,
        {
            if self.entries[i].0 == key {
                return Some(i);
            }
            i += 1;
        }
        None
    }

    /// Whether there is a value under `key`.
    pub fn contains(&self, key: u64) -> (r: bool)
        ensures
            r == self.view().contains_key(key),
    {
        self.find(key).is_some()
    }

    /// The value under `key`, if there is one.
    pub fn get(&self, key: u64) -> (r: Option<&T>)
        requires
            self.wf(),
        ensures
            match r {
                Some(v) => self.view().contains_key(key) && *v == self.view()[key],
                None => !self.view().contains_key(key),
            },
    {
        match self.find(key) {
            Some(i) => {
                proof {
                    self.lemma_view_at(i as int);
                }
                Some(&self.entries[i].1)
            },
            None => None,
        }
    }

    /// The value under `key`, to be changed in place, if there is one.
    pub fn get_mut(&mut self, key: u64) -> (r: Option<&mut T>)
        requires
            old(self).wf(),
        ensures
            match r {
                Some(v) => old(self).view().contains_key(key) && *v == old(self).view()[key]
                    && final(self).is_update_of(*old(self), key, *final(v)),
                None => !old(self).view().contains_key(key) && *final(self) == *old(self),
            },
    {
        match self.find(key) {
            Some(i) => {
                proof {
                    old(self).lemma_view_at(i as int);
                    assert forall|after: Self, value: T|
                        after.entries@ == old(self).entries@.update(
                            i as int,
                            (key, value),
                        ) implies #[trigger] after.is_update_of(*old(self), key, value) by {
                        old(self).lemma_update(after, i as int, value);
                    }
                }
                let entry = &mut self.entries[i];
                Some(&mut entry.1)
            },
            None => None,
        }
    }

    /// The value under `key`, to be changed in place; where there is none,
    /// `default` is put there first.
    pub fn entry(&mut self, key: u64, default: T) -> (r: &mut T)
        requires
            old(self).wf(),
        ensures
            *r == if old(self).view().contains_key(key) {
                old(self).view()[key]
            } else {
                default
            },
            final(self).is_update_of(*old(self), key, *final(r)),
    {
        if !self.contains(key) {
            let _ = self.replace(key, default);
        }
        let ghost mid = *self;
        proof {
            assert forall|after: Self, value: T| #[trigger]
                after.is_update_of(mid, key, value) implies after.is_update_of(
                *old(self),
                key,
                value,
            ) by {
                assert(mid.view().insert(key, value) =~= old(self).view().insert(key, value));
            }
        }
        match self.get_mut(key) {
            Some(v) => v,
            None => vstd::pervasive::unreached(),
        }
    }

    /// Puts `value` under `key` and hands back the value that was there
    /// before, if there was one.
    pub fn replace(&mut self, key: u64, value: T) -> (had: Option<T>)
        requires
            old(self).wf(),
        ensures
            final(self).wf(),
            final(self).view() == old(self).view().insert(key, value),
            match had {
                Some(v) => old(self).view().contains_key(key) && v == old(self).view()[key],
                None => !old(self).view().contains_key(key),
            },
    {
        match self.find(key) {
            Some(i) => {
                proof {
                    old(self).lemma_view_at(i as int);
                }
                let (_, had) = self.entries.remove(i);
                self.entries.insert(i, (key, value));
                proof {
                    assert(self.entries@ =~= old(self).entries@.update(i as int, (key, value)));
                    assert forall|a: int, b: int|
                        0 <= a < b < self.entries@.len() implies self.entries@[a].0
                        != self.entries@[b].0 by {
                        assert(self.entries@[a].0 == old(self).entries@[a].0);
                        assert(self.entries@[b].0 == old(self).entries@[b].0);
                    }
                    assert forall|k: u64, j: int| self.position(k, j) == old(self).position(k, j) by {}
                    assert forall|k: u64| #[trigger]
                        self.view().contains_key(k) implies self.view()[k] == old(self).view().insert(key, value)[k] by {
                        let j = choose|j: int| self.position(k, j);
                        self.lemma_view_at(j);
                        if k != key {
                            assert(old(self).position(k, j));
                            old(self).lemma_view_at(j);
                        } else {
                            assert(j == i);
                        }
                    }
                    assert(self.position(key, i as int));
                    assert(self.view() =~= old(self).view().insert(key, value));
                }
                Some(had)
            },
            None => {
                self.entries.push((key, value));
                proof {
                    let n = old(self).entries@.len() as int;
                    assert forall|a: int, b: int|
                        0 <= a < b < self.entries@.len() implies self.entries@[a].0
                        != self.entries@[b].0 by {
                        if b == n {
                            assert(!old(self).position(key, a));
                        }
                    }
                    assert(self.position(key, n));
                    assert forall|k: u64| #[trigger]
                        self.view().contains_key(k) implies self.view()[k] == old(self).view().insert(key, value)[k] && old(self).view().insert(
                        key,
                        value,
                    ).contains_key(k) by {
                        let j = choose|j: int| self.position(k, j);
                        self.lemma_view_at(j);
                        if j < n {
                            assert(old(self).position(k, j));
                            old(self).lemma_view_at(j);
                        }
                    }
                    assert forall|k: u64| #[trigger]
                        old(self).view().insert(key, value).contains_key(
                            k,
                        ) implies self.view().contains_key(k) by {
                        if k != key {
                            let j = choose|j: int| old(self).position(k, j);
                            assert(self.position(k, j));
                        }
                    }
                    assert(self.view() =~= old(self).view().insert(key, value));
                }
                None
            },
        }
    }

    /// Takes the value under `key` out of the map, if there is one.
    pub fn remove(&mut self, key: u64) -> (had: Option<T>)
        requires
            old(self).wf(),
        ensures
            final(self).wf(),
            final(self).view() == old(self).view().remove(key),
            match had {
                Some(v) => old(self).view().contains_key(key) && v == old(self).view()[key],
                None => !old(self).view().contains_key(key),
            },
    {
        match self.find(key) {
            Some(i) => {
                proof {
                    old(self).lemma_view_at(i as int);
                }
                let (_, had) = self.entries.remove(i);
                proof {
                    let before = old(self).entries@;
                    assert forall|a: int|
                        0 <= a < self.entries@.len() implies #[trigger] self.entries@[a] == (if a
                        < i {
                        before[a]
                    } else {
                        before[a + 1]
                    }) by {}
                    assert forall|a: int, b: int|
                        0 <= a < b < self.entries@.len() implies self.entries@[a].0
                        != self.entries@[b].0 by {
                        let a0 = if a < i {
                            a
                        } else {
                            a + 1
                        };
                        let b0 = if b < i {
                            b
                        } else {
                            b + 1
                        };
                        assert(before[a0].0 != before[b0].0);
                    }
                    assert forall|k: u64| #[trigger]
                        self.view().contains_key(k) implies old(self).view().remove(
                        key,
                    ).contains_key(k) && self.view()[k] == old(self).view().remove(key)[k] by {
                        let j = choose|j: int| self.position(k, j);
                        self.lemma_view_at(j);
                        let j0 = if j < i {
                            j
                        } else {
                            j + 1
                        };
                        assert(old(self).position(k, j0));
                        old(self).lemma_view_at(j0);
                        assert(before[j0].0 != before[i as int].0);
                    }
                    assert forall|k: u64| #[trigger]
                        old(self).view().remove(key).contains_key(
                            k,
                        ) implies self.view().contains_key(k) by {
                        let j0 = choose|j: int| old(self).position(k, j);
                        let j = if j0 < i {
                            j0
                        } else {
                            j0 - 1
                        };
                        assert(self.position(k, j));
                    }
                    assert(self.view() =~= old(self).view().remove(key));
                }
                Some(had)
            },
            None => {
                assert(self.view() =~= old(self).view().remove(key));
                None
            },
        }
    }

    /// Removes every entry.
    pub fn clear(&mut self)
        ensures
            final(self).wf(),
            final(self).view() == Map::<u64, T>::empty(),
    {
        self.entries.clear();
        assert(self.view() =~= Map::<u64, T>::empty());
    }
}

/// The annotations that one layer keeps of spans: for each span a map of
/// its own, from keys of the layer's choosing to values.
pub struct SpanExtensions<T> {
    by_span: Extensions<Extensions<T>>,
}

impl<T> SpanExtensions<T> {
    /// The maps of the spans, by the numbers of the spans.
    pub closed spec fn view(self) -> Map<u64, Extensions<T>> {
        self.by_span.view()
    }

    /// The store and the map of every span in it are in order.
    pub closed spec fn wf(self) -> bool {
        &&& self.by_span.wf()
        &&& forall|k: u64| #[trigger]
            self.by_span.view().contains_key(k) ==> self.by_span.view()[k].wf()
    }

    /// Whether this store is what `before` becomes when the map of the span
    /// numbered `span` is replaced by `map`.
    pub closed spec fn is_update_of(self, before: Self, span: u64, map: Extensions<T>) -> bool {
        self.by_span.is_update_of(before.by_span, span, map)
    }

    /// What [`SpanExtensions::is_update_of`] says: one map is replaced, and
    /// the store is in order again if it was before and the new map is.
    pub proof fn lemma_is_update_of(self, before: Self, span: u64, map: Extensions<T>)
        requires
            self.is_update_of(before, span, map),
        ensures
            self.view() == before.view().insert(span, map),
            before.wf() && map.wf() ==> self.wf(),
    {
        self.by_span.lemma_is_update_of(before.by_span, span, map);
    }

    /// A store without annotations.
    pub fn new() -> (r: Self)
        ensures
            r.wf(),
            r.view() == Map::<u64, Extensions<T>>::empty(),
    {
        SpanExtensions { by_span: Extensions::new() }
    }

    /// The annotations of the span `id`, if the layer keeps any.
    pub fn of(&self, id: &Id) -> (r: Option<&Extensions<T>>)
        requires
            self.wf(),
        ensures
            match r {
                Some(map) => self.view().contains_key(id.value()) && *map == self.view()[id.value()]
                    && map.wf(),
                None => !self.view().contains_key(id.value()),
            },
    {
        self.by_span.get(id.into_u64())
    }

    /// The annotations of the span `id`, to be changed in place. A span
    /// without annotations gets an empty map first.
    pub fn of_mut(&mut self, id: &Id) -> (r: &mut Extensions<T>)
        requires
            old(self).wf(),
        ensures
            r.wf(),
            old(self).view().contains_key(id.value()) ==> *r == old(self).view()[id.value()],
            !old(self).view().contains_key(id.value()) ==> r.view() == Map::<u64, T>::empty(),
            final(self).is_update_of(*old(self), id.value(), *final(r)),
    {
        self.by_span.entry(id.into_u64(), Extensions::new())
    }

    /// Forgets the annotations of the span `id`, which has closed, and hands
    /// them back.
    pub fn clear(&mut self, id: &Id) -> (had: Option<Extensions<T>>)
        requires
            old(self).wf(),
        ensures
            final(self).wf(),
            final(self).view() == old(self).view().remove(id.value()),
            match had {
                Some(map) => old(self).view().contains_key(id.value()) && map == old(self).view()[id.value()] && map.wf(),
                None => !old(self).view().contains_key(id.value()),
            },
    {
        self.by_span.remove(id.into_u64())
    }
}

} // verus!
