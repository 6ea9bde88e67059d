//! The spans that one execution context has entered and not left yet.
use vstd::prelude::*;
use smallvec::SmallVec;
use crate::span::Id;

verus! {

/// A `smallvec::SmallVec` of span numbers: a vector that keeps its first
/// sixteen items inline. What it holds is known only through [`held`].
#[verifier::external_body]
pub struct SmallIds {
    items: SmallVec<[u64; 16]>,
}

/// The items that a small vector holds, first to last.
pub uninterp spec fn held(v: SmallIds) -> Seq<u64>;

/// How many items a small vector keeps inline. For that many items it needs
/// no memory of its own.
pub const INLINE: usize = 16;

/// Trusted: `SmallVec::new` returns a vector without items.
#[verifier::external_body]
fn small_new() -> (v: SmallIds)
    ensures
        held(v) == Seq::<u64>::empty(),
{
    SmallIds { items: SmallVec::new() }
}

/// Trusted: `SmallVec::len` returns the number of items.
#[verifier::external_body]
fn small_len(v: &SmallIds) -> (n: usize)
    ensures
        n == held(*v).len(),
{
    v.items.len()
}

/// Trusted: indexing a `SmallVec` below its length returns the item at that
/// position.
#[verifier::external_body]
fn small_get(v: &SmallIds, i: usize) -> (x: u64)
    requires
        i < held(*v).len(),
    ensures
        x == held(*v)[i as int],
{
    v.items[i]
}

/// Trusted: `SmallVec::try_reserve` fails, without changing the items, where
/// room for one more cannot be had; after it succeeded `SmallVec::push` has
/// room and appends the item. The capacity of a `SmallVec` is never below
/// the size of its inline array, so `try_reserve` succeeds, without asking
/// for memory, for a vector that holds fewer than [`INLINE`] items.
#[verifier::external_body]
fn small_push(v: &mut SmallIds, x: u64) -> (pushed: bool)
    ensures
        pushed ==> held(*final(v)) == held(*old(v)).push(x),
        !pushed ==> held(*final(v)) == held(*old(v)),
        held(*old(v)).len() < INLINE ==> pushed,
{
    if v.items.try_reserve(1).is_err() {
        return false;
    }
    v.items.push(x);
    true
}

/// Trusted: `SmallVec::truncate` drops the items from position `len` on and
/// does nothing where the vector is no longer than `len`.
#[verifier::external_body]
fn small_truncate(v: &mut SmallIds, len: usize)
    ensures
        len <= held(*old(v)).len() ==> held(*final(v)) == held(*old(v)).subrange(0, len as int),
        len > held(*old(v)).len() ==> held(*final(v)) == held(*old(v)),
{
    v.items.truncate(len)
}

/// The spans that one execution context is inside of, outermost first. The
/// last one is the current span.
pub struct SpanStack {
    stack: SmallIds,
}

/// The position of the last occurrence of `x` in `s`, or -1.
pub open spec fn last_position(s: Seq<u64>, x: u64) -> int
    decreases s.len(),
{
    if s.len() == 0 {
        -1
    } else if s.last() == x {
        s.len() - 1
    } else {
        last_position(s.drop_last(), x)
    }
}

/// The stack `s` after the span `x` has been left: cut off at the last entry
/// of `x`, or unchanged where `x` was never entered.
pub open spec fn left(s: Seq<u64>, x: u64) -> Seq<u64> {
    if last_position(s, x) >= 0 {
        s.subrange(0, last_position(s, x))
    } else {
        s
    }
}

/// Entering `a`, then `b`, makes `b` the current span; leaving `b` makes `a`
/// current again, and leaving `a` restores the stack as it was before.
pub proof fn lemma_nested_enter_exit(s: Seq<u64>, a: u64, b: u64)
    ensures
        s.push(a).push(b).last() == b,
        left(s.push(a).push(b), b) == s.push(a),
        left(s.push(a).push(b), b).last() == a,
        left(left(s.push(a).push(b), b), a) == s,
{
    let sa = s.push(a);
    let sab = sa.push(b);
    assert(last_position(sab, b) == sab.len() - 1);
    assert(sab.subrange(0, sab.len() - 1) =~= sa);
    assert(last_position(sa, a) == sa.len() - 1);
    assert(sa.subrange(0, sa.len() - 1) =~= s);
}

impl SpanStack {
    /// The numbers of the entered spans, outermost first.
    pub closed spec fn view(self) -> Seq<u64> {
        held(self.stack)
    }

    /// Every entry is the number of a span, so none is zero.
    pub open spec fn wf(self) -> bool {
        forall|i: int| 0 <= i < self.view().len() ==> self.view()[i] != 0
    }

    /// A context that is inside no span.
    pub fn new() -> (s: SpanStack)
        ensures
            s.wf(),
            s.view() == Seq::<u64>::empty(),
    {
        SpanStack { stack: small_new() }
    }

    /// How many spans the context is inside of.
    pub fn depth(&self) -> (n: usize)
        ensures
            n == self.view().len(),
    {
        small_len(&self.stack)
    }

    /// Enters `id`. Up to a depth of [`INLINE`] this always succeeds. Beyond
    /// it memory is needed: where none can be had, `false` is returned and
    /// nothing changes.
    pub fn push(&mut self, id: &Id) -> (pushed: bool)
        requires
            old(self).wf(),
        ensures
            final(self).wf(),
            pushed ==> final(self).view() == old(self).view().push(id.value()),
            !pushed ==> final(self).view() == old(self).view(),
            old(self).view().len() < INLINE ==> pushed,
    {
        let x = id.into_u64();
        let pushed = small_push(&mut self.stack, x);
        proof {
            assert forall|i: int| 0 <= i < self.view().len() implies self.view()[i] != 0 by {
                if i < old(self).view().len() {
                    assert(self.view()[i] == old(self).view()[i]);
                }
            }
        }
        pushed
    }

    /// Leaves `expected`. Where `expected` is not the innermost span, the
    /// spans entered after its last entry are left as well; where it was not
    /// entered at all, nothing changes and `false` is returned.
    pub fn pop(&mut self, expected: &Id) -> (found: bool)
        requires
            old(self).wf(),
        ensures
            final(self).wf(),
            found == (last_position(old(self).view(), expected.value()) >= 0),
            final(self).view() == left(old(self).view(), expected.value()),
    {
        let x = expected.into_u64();
        let n = small_len(&self.stack);
        let mut i: usize = n;
        let ghost all = held(self.stack);
        assert(all.subrange(0, n as int) =~= all);
        while i > 0
            invariant
                i <= n,
                n == all.len(),
                all == held(self.stack),
                all == old(self).view(),
                old(self).wf(),
                x == expected.value(),
                last_position(all, x) == last_position(all.subrange(0, i as int), x),
            decreases i,
        {
            let ghost part = all.subrange(0, i as int);
            assert(part.last() == all[i - 1]);
            assert(part.drop_last() =~= all.subrange(0, i - 1));
            if small_get(&self.stack, i - 1) == x {
                assert(last_position(part, x) == i - 1);
                small_truncate(&mut self.stack, i - 1);
                proof {
                    assert forall|k: int| 0 <= k < self.view().len() implies self.view()[k]
                        != 0 by {
                        assert(self.view()[k] == old(self).view()[k]);
                    }
                }
                return true;
            }
            i -= 1;
        }
        assert(all.subrange(0, 0).len() == 0);
        false
    }

    /// The innermost span, if the context is inside one.
    pub fn current(&self) -> (top: Option<Id>)
        requires
            self.wf(),
        ensures
            self.view().len() == 0 ==> top is None,
            self.view().len() > 0 ==> top is Some && top->0.value() == self.view().last(),
    {
        let n = small_len(&self.stack);
        if n == 0 {
            None
        } else {
            let top = small_get(&self.stack, n - 1);
            assert(top == self.view()[n - 1]);
            Some(Id::from_u64(top))
        }
    }
}

} // verus!
