//! The set of registered callsites and the interest cached for each of them.
use vstd::prelude::*;
use crate::collect::{Collect, Interest};
use crate::metadata::{Identifier, Metadata};

verus! {

/// The interest of a group of collectors, given what each of them answered:
/// `Never` where all said `Never` (and where there is no collector at all),
/// `Always` where all said `Always`, and `Sometimes` otherwise.
pub open spec fn combined(answers: Seq<Interest>) -> Interest {
    if forall|i: int| 0 <= i < answers.len() ==> answers[i] == Interest::Never {
        Interest::Never
    } else if forall|i: int| 0 <= i < answers.len() ==> answers[i] == Interest::Always {
        Interest::Always
    } else {
        Interest::Sometimes
    }
}

/// Whether every one of `collectors` is in order.
pub open spec fn all_valid<C: Collect>(collectors: Seq<C>) -> bool {
    forall|i: int| 0 <= i < collectors.len() ==> (#[trigger] collectors[i]).valid()
}

/// What each of `collectors` answers for the callsite of `meta`.
pub open spec fn answers<C: Collect>(collectors: Seq<C>, meta: Metadata) -> Seq<Interest> {
    Seq::new(collectors.len(), |i: int| collectors[i].interest_in(meta))
}

/// The registrations `before` with every interest computed anew from
/// `collectors`.
pub open spec fn rebuilt<C: Collect>(
    before: Seq<(Metadata, Interest)>,
    collectors: Seq<C>,
) -> Seq<(Metadata, Interest)> {
    Seq::new(before.len(), |k: int| (before[k].0, combined(answers(collectors, before[k].0))))
}

/// The combined interest is `Never` exactly when every collector answered
/// `Never`, and `Always` exactly when there is a collector and every one
/// answered `Always`.
pub proof fn lemma_combined(given: Seq<Interest>)
    ensures
        combined(given) == Interest::Never <==> forall|i: int|
            0 <= i < given.len() ==> given[i] == Interest::Never,
        combined(given) == Interest::Always <==> given.len() > 0 && forall|i: int|
            0 <= i < given.len() ==> given[i] == Interest::Always,
{
    if given.len() > 0 && forall|i: int| 0 <= i < given.len() ==> given[i] == Interest::Always {
        assert(given[0] == Interest::Always);
    }
}

/// Computing the interests anew is idempotent: a second pass over the same
/// collectors changes nothing.
pub proof fn lemma_rebuild_idempotent<C: Collect>(
    before: Seq<(Metadata, Interest)>,
    collectors: Seq<C>,
)
    ensures
        rebuilt(rebuilt(before, collectors), collectors) == rebuilt(before, collectors),
{
    assert(rebuilt(rebuilt(before, collectors), collectors) =~= rebuilt(before, collectors));
}

/// Combines the answers of several collectors into one interest.
pub fn combine(given: &[Interest]) -> (r: Interest)
    ensures
        r == combined(given@),
{
    let mut all_never = true;
    let mut all_always = true;
    let mut i: usize = 0;
    while i < given.len()
        invariant
            i <= given@.len(),
            all_never == forall|j: int| 0 <= j < i ==> given@[j] == Interest::Never,
            all_always == forall|j: int| 0 <= j < i ==> given@[j] == Interest::Always,
        decreases given@.len() - i,
    {
        match given[i] {
            Interest::Never => {
                all_always = false;
            },
            Interest::Sometimes => {
                all_never = false;
                all_always = false;
            },
            Interest::Always => {
                all_never = false;
            },
        }
        i += 1;
    }
    if all_never {
        Interest::Never
    } else if all_always {
        Interest::Always
    } else {
        Interest::Sometimes
    }
}

/// Asks every collector for its interest in a callsite and combines the
/// answers.
pub fn poll<C: Collect>(collectors: &[C], meta: &'static Metadata) -> (r: Interest)
    requires
        all_valid(collectors@),
    ensures
        r == combined(answers(collectors@, *meta)),
        r == Interest::Never <==> forall|i: int|
            0 <= i < collectors@.len() ==> collectors@[i].interest_in(*meta) == Interest::Never,
{
    let ghost given = answers(collectors@, *meta);
    let mut all_never = true;
    let mut all_always = true;
    let mut i: usize = 0;
    while i < collectors.len()
        invariant
            i <= collectors@.len(),
            given == answers(collectors@, *meta),
            all_valid(collectors@),
            all_never == forall|j: int| 0 <= j < i ==> given[j] == Interest::Never,
            all_always == forall|j: int| 0 <= j < i ==> given[j] == Interest::Always,
        decreases collectors@.len() - i,
    {
        let answer = collectors[i].register_callsite(meta);
        assert(answer == given[i as int]);
        match answer {
            Interest::Never => {
                all_always = false;
            },
            Interest::Sometimes => {
                all_never = false;
                all_always = false;
            },
            Interest::Always => {
                all_never = false;
            },
        }
        i += 1;
    }
    proof {
        if all_never {
            assert forall|j: int| 0 <= j < collectors@.len() implies collectors@[j].interest_in(
                *meta,
            ) == Interest::Never by {
                assert(given[j] == Interest::Never);
            }
        } else {
            let j = choose|j: int| 0 <= j < given.len() && given[j] != Interest::Never;
            assert(collectors@[j].interest_in(*meta) == given[j]);
        }
    }
    if all_never {
        Interest::Never
    } else if all_always {
        Interest::Always
    } else {
        Interest::Sometimes
    }
}

struct Entry {
    meta: &'static Metadata,
    interest: Interest,
}

/// The callsites that have been registered, each with the interest that was
/// last computed for it.
///
/// A callsite is known by its [`Identifier`]: registering it a second time
/// adds nothing.
pub struct Callsites {
    entries: Vec<Entry>,
}

impl Callsites {
    /// The registrations, oldest first: each callsite's metadata and cached
    /// interest.
    pub closed spec fn registered(self) -> Seq<(Metadata, Interest)> {
        Seq::new(self.entries@.len(), |k: int| (*self.entries@[k].meta, self.entries@[k].interest))
    }

    /// No callsite is registered twice.
    pub open spec fn wf(self) -> bool {
        forall|j: int, k: int|
            0 <= j < k < self.registered().len() ==> self.registered()[j].0.spec_callsite()
                != self.registered()[k].0.spec_callsite()
    }

    /// Whether the registration at position `k` is that of callsite `id`.
    pub open spec fn is_at(self, id: Identifier, k: int) -> bool {
        0 <= k < self.registered().len() && self.registered()[k].0.spec_callsite() == id
    }

    /// Whether callsite `id` is registered.
    pub open spec fn is_registered(self, id: Identifier) -> bool {
        exists|k: int| self.is_at(id, k)
    }

    /// The interest cached for callsite `id`, if it is registered.
    pub open spec fn cached(self, id: Identifier) -> Option<Interest> {
        if self.is_registered(id) {
            Some(self.registered()[choose|k: int| self.is_at(id, k)].1)
        } else {
            None
        }
    }

    /// An empty set of callsites.
    pub fn new() -> (sites: Callsites)
        ensures
            sites.wf(),
            sites.registered() == Seq::<(Metadata, Interest)>::empty(),
    {
        let sites = Callsites { entries: Vec::new() };
        assert(sites.registered() =~= Seq::<(Metadata, Interest)>::empty());
        sites
    }

    /// Number of registered callsites.
    pub fn len(&self) -> (n: usize)
        ensures
            n == self.registered().len(),
    {
        self.entries.len()
    }

    fn find(&self, id: Identifier) -> (at: Option<usize>)
        ensures
            match at {
                Some(k) => self.is_at(id, k as int),
                None => !self.is_registered(id),
            },
    {
        let mut k: usize = 0;
        while k < self.entries.len()
            invariant
                k <= self.entries@.len(),
                self.entries@.len() == self.registered().len(),
                forall|j: int| 0 <= j < k ==> !self.is_at(id, j),
            decreases self.entries@.len() - k,
        {
            if self.entries[k].meta.callsite() == id {
                return Some(k);
            }
            k += 1;
        }
        None
    }

    /// The interest cached for callsite `id`, if it is registered.
    pub fn interest(&self, id: Identifier) -> (r: Option<Interest>)
        requires
            self.wf(),
        ensures
            r == self.cached(id),
    {
        match self.find(id) {
            Some(k) => {
                proof {
                    let c = choose|c: int| self.is_at(id, c);
                    assert(self.is_at(id, k as int));
                    assert(c == k);
                }
                Some(self.entries[k].interest)
            },
            None => None,
        }
    }

    /// Adds a callsite to the set, asks every active collector for its
    /// interest and caches the combination. For a callsite that is already
    /// registered only the cached interest is computed anew.
    pub fn register<C: Collect>(&mut self, meta: &'static Metadata, collectors: &[C]) -> (r:
        Interest)
        requires
            old(self).wf(),
            all_valid(collectors@),
        ensures
            final(self).wf(),
            r == combined(answers(collectors@, *meta)),
            r == Interest::Never <==> forall|i: int|
                0 <= i < collectors@.len() ==> collectors@[i].interest_in(*meta)
                    == Interest::Never,
            final(self).cached(meta.spec_callsite()) == Some(r),
            forall|other: Identifier|
                other != meta.spec_callsite() ==> final(self).cached(other) == old(self).cached(
                    other,
                ),
            old(self).is_registered(meta.spec_callsite()) ==> exists|k: int|
                old(self).is_at(meta.spec_callsite(), k) && final(self).registered() == old(
                    self,
                ).registered().update(k, (old(self).registered()[k].0, r)),
            !old(self).is_registered(meta.spec_callsite()) ==> final(self).registered() == old(
                self,
            ).registered().push((*meta, r)),
    {
        let id = meta.callsite();
        let interest = poll(collectors, meta);
        match self.find(id) {
            Some(k) => {
                let kept = self.entries[k].meta;
                self.entries.set(k, Entry { meta: kept, interest });
                proof {
                    let before = old(self).registered();
                    assert(self.registered() =~= before.update(k as int, (before[k as int].0, interest)));
                    assert forall|a: int, b: int| 0 <= a < b < self.registered().len() implies self.registered()[a].0.spec_callsite()
                        != self.registered()[b].0.spec_callsite() by {
                        assert(self.registered()[a].0 == before[a].0);
                        assert(self.registered()[b].0 == before[b].0);
                    }
                    assert(old(self).is_at(id, k as int));
                    assert(self.is_at(id, k as int));
                    let c = choose|c: int| self.is_at(id, c);
                    assert(c == k);
                    assert forall|other: Identifier| other != id implies self.cached(other) == old(
                        self,
                    ).cached(other) by {
                        assert forall|j: int| self.is_at(other, j) == old(self).is_at(other, j) by {}
                        if old(self).is_registered(other) {
                            let a = choose|a: int| old(self).is_at(other, a);
                            assert(self.is_at(other, a));
                            let b = choose|b: int| self.is_at(other, b);
                            assert(old(self).is_at(other, b));
                            assert(a == b);
                        } else {
                            if self.is_registered(other) {
                                let b = choose|b: int| self.is_at(other, b);
                                assert(old(self).is_at(other, b));
                            }
                        }
                    }
                }
            },
            None => {
                self.entries.push(Entry { meta, interest });
                proof {
                    let before = old(self).registered();
                    let n = before.len() as int;
                    assert(self.registered() =~= before.push((*meta, interest)));
                    assert forall|a: int, b: int| 0 <= a < b < self.registered().len() implies self.registered()[a].0.spec_callsite()
                        != self.registered()[b].0.spec_callsite() by {
                        assert(self.registered()[a].0 == before[a].0);
                        if b < n {
                            assert(self.registered()[b].0 == before[b].0);
                        } else {
                            assert(!old(self).is_at(id, a));
                        }
                    }
                    assert(self.is_at(id, n));
                    assert forall|j: int| 0 <= j < n implies !self.is_at(id, j) by {
                        assert(!old(self).is_at(id, j));
                    }
                    let c = choose|c: int| self.is_at(id, c);
                    assert(c == n);
                    assert forall|other: Identifier| other != id implies self.cached(other) == old(
                        self,
                    ).cached(other) by {
                        assert forall|j: int| self.is_at(other, j) == old(self).is_at(other, j) by {}
                        if old(self).is_registered(other) {
                            let a = choose|a: int| old(self).is_at(other, a);
                            assert(self.is_at(other, a));
                            let b = choose|b: int| self.is_at(other, b);
                            assert(old(self).is_at(other, b));
                            assert(a == b);
                        } else {
                            if self.is_registered(other) {
                                let b = choose|b: int| self.is_at(other, b);
                                assert(old(self).is_at(other, b));
                            }
                        }
                    }
                }
            },
        }
        interest
    }

    /// Computes the interest of every registered callsite anew. To be called
    /// whenever the configuration of collectors has changed.
    pub fn rebuild_interest_cache<C: Collect>(&mut self, collectors: &[C])
        requires
            old(self).wf(),
            all_valid(collectors@),
        ensures
            final(self).wf(),
            final(self).registered() == rebuilt(old(self).registered(), collectors@),
    {
        let mut k: usize = 0;
        while k < self.entries.len()
            invariant
                k <= self.entries@.len(),
                all_valid(collectors@),
                self.registered().len() == old(self).registered().len(),
                self.entries@.len() == self.registered().len(),
                forall|j: int|
                    0 <= j < k ==> self.registered()[j] == rebuilt(
                        old(self).registered(),
                        collectors@,
                    )[j],
                forall|j: int|
                    k <= j < self.registered().len() ==> self.registered()[j] == old(
                        self,
                    ).registered()[j],
            decreases self.entries@.len() - k,
        {
            let meta = self.entries[k].meta;
            let interest = poll(collectors, meta);
            let ghost prior = self.registered();
            assert(prior[k as int].0 == *meta);
            self.entries.set(k, Entry { meta, interest });
            proof {
                assert(self.registered() =~= prior.update(k as int, (*meta, interest)));
                assert forall|j: int| 0 <= j < k + 1 implies self.registered()[j] == rebuilt(
                    old(self).registered(),
                    collectors@,
                )[j] by {
                    if j < k {
                        assert(self.registered()[j] == prior[j]);
                    }
                }
            }
            k += 1;
        }
        assert(self.registered() =~= rebuilt(old(self).registered(), collectors@));
        assert forall|a: int, b: int| 0 <= a < b < self.registered().len() implies self.registered()[a].0.spec_callsite()
            != self.registered()[b].0.spec_callsite() by {
            assert(self.registered()[a].0 == old(self).registered()[a].0);
            assert(self.registered()[b].0 == old(self).registered()[b].0);
        }
    }

    /// The question that an instrumentation site asks before it does any
    /// work: is a span or event of this callsite to be recorded?
    ///
    /// A callsite that is not registered yet is registered first. Then the
    /// cached interest decides: `Never` and `Always` answer at once, and only
    /// for `Sometimes` the `current` collector is asked.
    pub fn is_enabled<C: Collect>(
        &mut self,
        meta: &'static Metadata,
        collectors: &[C],
        current: &C,
    ) -> (r: bool)
        requires
            old(self).wf(),
            all_valid(collectors@),
            current.valid(),
        ensures
            final(self).wf(),
            old(self).is_registered(meta.spec_callsite()) ==> final(self).registered() == old(
                self,
            ).registered(),
            !old(self).is_registered(meta.spec_callsite()) ==> final(self).registered() == old(
                self,
            ).registered().push((*meta, combined(answers(collectors@, *meta)))),
            r == match final(self).cached(meta.spec_callsite()) {
                Some(Interest::Never) => false,
                Some(Interest::Always) => true,
                _ => current.allows(*meta),
            },
    {
        let interest = match self.interest(meta.callsite()) {
            Some(cached) => cached,
            None => self.register(meta, collectors),
        };
        match interest {
            Interest::Never => false,
            Interest::Always => true,
            Interest::Sometimes => current.enabled(meta),
        }
    }
}

} // verus!
