//! A store of span data, split into shards of recycled slots.
use vstd::prelude::*;
use vstd::arithmetic::div_mod::{
    lemma_div_denominator,
    lemma_div_pos_is_pos,
    lemma_fundamental_div_mod,
    lemma_fundamental_div_mod_converse,
    lemma_mod_bound,
};
use crate::collect::{Call, Collect, Interest};
use crate::event::Event;
use crate::metadata::Metadata;
use crate::registry::stack::{last_position, left, SpanStack, INLINE};
use crate::registry::{LookupSpan, SpanData};
use crate::span::{Attributes, Current, Id, Parent, Record};

verus! {

/// Number of shards. A power of two.
pub const SHARDS: usize = 4;

/// Number of slots that one shard can hold.
pub const SLOT_LIMIT: usize = 0x4000_0000;

/// Number of times that one slot can be occupied.
pub const GEN_LIMIT: u64 = 0x8000_0000;

/// The number of the span in slot `sl` of shard `sh` at generation `gen`.
pub open spec fn pack(gen: int, sh: int, sl: int) -> int {
    1 + sh + 4 * sl + 0x1_0000_0000 * gen
}

/// The shard that the number of a span names.
#[verifier::opaque]
pub open spec fn shard_of(v: u64) -> int {
    (v - 1) % 4
}

/// The slot that the number of a span names.
#[verifier::opaque]
pub open spec fn slot_of(v: u64) -> int {
    ((v - 1) / 4) % 0x4000_0000
}

/// The generation that the number of a span names.
#[verifier::opaque]
pub open spec fn gen_of(v: u64) -> int {
    (v - 1) / 0x1_0000_0000
}

/// A span number names exactly the shard, slot and generation that it was
/// made of.
pub proof fn lemma_pack_unpack(gen: int, sh: int, sl: int)
    requires
        0 <= gen < GEN_LIMIT,
        0 <= sh < SHARDS,
        0 <= sl < SLOT_LIMIT,
    ensures
        0 < pack(gen, sh, sl) <= u64::MAX,
        shard_of(pack(gen, sh, sl) as u64) == sh,
        slot_of(pack(gen, sh, sl) as u64) == sl,
        gen_of(pack(gen, sh, sl) as u64) == gen,
{
    reveal(shard_of);
    reveal(slot_of);
    reveal(gen_of);
    let w = pack(gen, sh, sl) - 1;
    let hi = sl + 0x4000_0000 * gen;
    assert(w == hi * 4 + sh);
    lemma_fundamental_div_mod_converse(w, 4, hi, sh);
    assert(hi == gen * 0x4000_0000 + sl);
    lemma_fundamental_div_mod_converse(hi, 0x4000_0000, gen, sl);
    assert(w == gen * 0x1_0000_0000 + (sh + 4 * sl));
    lemma_fundamental_div_mod_converse(w, 0x1_0000_0000, gen, sh + 4 * sl);
}

/// The shard, slot and generation that a span number names give the number
/// back.
pub proof fn lemma_unpack_pack(v: u64)
    requires
        v != 0,
    ensures
        pack(gen_of(v), shard_of(v), slot_of(v)) == v,
        0 <= shard_of(v) < SHARDS,
        0 <= slot_of(v) < SLOT_LIMIT,
        0 <= gen_of(v),
{
    reveal(shard_of);
    reveal(slot_of);
    reveal(gen_of);
    let w = v - 1;
    lemma_fundamental_div_mod(w, 4);
    lemma_fundamental_div_mod(w / 4, 0x4000_0000);
    lemma_fundamental_div_mod(w, 0x1_0000_0000);
    lemma_mod_bound(w, 4);
    lemma_mod_bound(w / 4, 0x4000_0000);
    lemma_div_denominator(w, 4, 0x4000_0000);
    lemma_div_pos_is_pos(w, 4);
    lemma_div_pos_is_pos(w, 0x1_0000_0000);
}

fn pack_id(gen: u64, sh: usize, sl: usize) -> (id: Id)
    requires
        gen < GEN_LIMIT,
        sh < SHARDS,
        sl < SLOT_LIMIT,
    ensures
        id.value() == pack(gen as int, sh as int, sl as int),
        shard_of(id.value()) == sh,
        slot_of(id.value()) == sl,
        gen_of(id.value()) == gen,
{
    proof {
        lemma_pack_unpack(gen as int, sh as int, sl as int);
    }
    Id::from_u64(1 + (sh as u64) + 4 * (sl as u64) + 0x1_0000_0000 * gen)
}

fn unpack_id(id: &Id) -> (at: (u64, usize, usize))
    ensures
        at.0 == gen_of(id.value()),
        at.1 == shard_of(id.value()),
        at.2 == slot_of(id.value()),
        at.1 < SHARDS,
        at.2 < SLOT_LIMIT,
        id.value() != 0,
{
    proof {
        reveal(shard_of);
        reveal(slot_of);
        reveal(gen_of);
    }
    let w = id.into_u64() - 1;
    let sh = (w % 4) as usize;
    let sl = ((w / 4) % 0x4000_0000) as usize;
    (w / 0x1_0000_0000, sh, sl)
}

/// What the store holds of one span.
pub struct SpanModel {
    pub metadata: Metadata,
    pub parent: Option<Id>,
    /// Handles to the span that its users hold.
    pub handles: nat,
    /// Spans in the store whose parent this span is.
    pub children: nat,
    /// How many spans the store had opened before this one. A span is opened
    /// after its parent, so the spans form a forest.
    pub born: nat,
}

impl SpanModel {
    /// The reference count of the span: a span stays in the store for as long
    /// as a handle or a child refers to it.
    pub open spec fn refs(self) -> nat {
        self.handles + self.children
    }
}

#[derive(Clone, Copy)]
struct Slot {
    generation: u64,
    metadata: Option<&'static Metadata>,
    parent: Option<Id>,
    handles: usize,
    children: usize,
    kids: Ghost<Set<u64>>,
    born: Ghost<nat>,
}

struct Shard {
    slots: Vec<Slot>,
    free: Vec<usize>,
}

/// Span data shared by the layers of a collector, together with the stack of
/// spans that the execution context has entered.
///
/// A span is stored in a slot of one of [`SHARDS`] shards, and its identifier
/// names shard, slot and the generation of the slot. A slot whose span has
/// closed is handed out again under the next generation, so the identifier of
/// a closed span never comes back.
pub struct Registry {
    shards: Vec<Shard>,
    next: usize,
    stack: SpanStack,
    clock: Ghost<nat>,
    closed: Ghost<Set<u64>>,
    log: Ghost<Seq<Call>>,
}

impl Slot {
    spec fn model(self) -> SpanModel {
        SpanModel {
            metadata: *self.metadata->0,
            parent: self.parent,
            handles: self.handles as nat,
            children: self.children as nat,
            born: self.born@,
        }
    }

    spec fn shape_ok(self) -> bool {
        &&& self.generation <= GEN_LIMIT
        &&& self.metadata is Some ==> self.generation < GEN_LIMIT
        &&& self.metadata is None ==> self.handles == 0 && self.children == 0
            && self.parent is None
    }
}

impl Registry {
    spec fn size(self, sh: int) -> int {
        self.shards@[sh].slots@.len() as int
    }

    spec fn at(self, sh: int, sl: int) -> Slot {
        self.shards@[sh].slots@[sl]
    }

    spec fn slot(self, v: u64) -> Slot {
        self.at(shard_of(v), slot_of(v))
    }

    spec fn live(self, v: u64) -> bool {
        &&& v != 0
        &&& slot_of(v) < self.size(shard_of(v))
        &&& self.slot(v).metadata is Some
        &&& self.slot(v).generation == gen_of(v)
    }

    spec fn span_ok(self, v: u64, lax: Option<u64>) -> bool {
        let s = self.slot(v);
        &&& lax != Some(v) ==> s.handles + s.children > 0
        &&& s.born@ < self.clock@
        &&& s.kids@.finite()
        &&& s.kids@.len() == s.children
        &&& forall|c: u64| #[trigger]
            s.kids@.contains(c) ==> self.live(c) && self.slot(c).parent is Some && self.slot(
                c,
            ).parent->0.value() == v
        &&& s.parent is Some ==> {
            let p = s.parent->0.value();
            &&& self.live(p)
            &&& self.slot(p).kids@.contains(v)
            &&& self.slot(p).born@ < s.born@
        }
    }

    spec fn free_ok(self, sh: int) -> bool {
        let f = self.shards@[sh].free@;
        &&& forall|k: int|
            0 <= k < f.len() ==> {
                &&& (#[trigger] f[k]) < self.size(sh)
                &&& self.at(sh, f[k] as int).metadata is None
                &&& self.at(sh, f[k] as int).generation < GEN_LIMIT
            }
        &&& forall|j: int, k: int| 0 <= j < k < f.len() ==> f[j] != f[k]
    }

    spec fn inv(self, lax: Option<u64>) -> bool {
        &&& self.shards@.len() == SHARDS
        &&& self.next < SHARDS
        &&& self.stack.wf()
        &&& forall|sh: int| 0 <= sh < SHARDS ==> #[trigger] self.size(sh) <= SLOT_LIMIT
        &&& forall|sh: int, sl: int|
            0 <= sh < SHARDS && 0 <= sl < self.size(sh) ==> (#[trigger] self.at(sh, sl)).shape_ok()
        &&& forall|sh: int| 0 <= sh < SHARDS ==> #[trigger] self.free_ok(sh)
        &&& forall|v: u64| #[trigger] self.live(v) ==> self.span_ok(v, lax)
        &&& forall|v: u64| #[trigger]
            self.closed@.contains(v) ==> v != 0 && slot_of(v) < self.size(shard_of(v)) && gen_of(v)
                < self.slot(v).generation
    }

    /// The invariant of the store: every span that has a parent has it in
    /// the store, a span counts exactly the children that the store holds of
    /// it, and no span that has closed is in the store.
    pub closed spec fn wf(self) -> bool {
        self.inv(None)
    }

    /// The spans in the store, by the number of their identifier.
    pub closed spec fn spans(self) -> Map<u64, SpanModel> {
        Map::new(|v: u64| self.live(v), |v: u64| self.slot(v).model())
    }

    /// The spans that the execution context has entered and not left,
    /// outermost first.
    pub closed spec fn entered(self) -> Seq<u64> {
        self.stack.view()
    }

    /// The spans that have closed so far.
    pub closed spec fn closed_ids(self) -> Set<u64> {
        self.closed@
    }

    /// How many spans the store has opened so far.
    pub closed spec fn opened(self) -> nat {
        self.clock@
    }

    /// The callbacks that the store has received as a collector.
    pub closed spec fn calls(self) -> Seq<Call> {
        self.log@
    }

    /// Every span in the store has a handle or a child, and where it has a
    /// parent, the parent is in the store as well.
    pub proof fn lemma_parent_observable(self, v: u64)
        requires
            self.wf(),
            self.spans().contains_key(v),
        ensures
            self.spans()[v].refs() > 0,
            self.spans()[v].parent is Some ==> self.spans().contains_key(
                self.spans()[v].parent->0.value(),
            ) && self.spans()[self.spans()[v].parent->0.value()].refs() > 0
                && self.spans()[self.spans()[v].parent->0.value()].children > 0
                && self.spans()[self.spans()[v].parent->0.value()].born < self.spans()[v].born,
    {
        assert(self.live(v));
        assert(self.span_ok(v, None));
        if self.slot(v).parent is Some {
            let p = self.slot(v).parent->0.value();
            assert(self.live(p));
            assert(self.span_ok(p, None));
            assert(self.slot(p).kids@.contains(v));
            if self.slot(p).kids@.len() == 0 {
                self.slot(p).kids@.lemma_len0_is_empty();
            }
        }
    }

    /// A span that has closed is not in the store.
    pub proof fn lemma_closed_is_gone(self, v: u64)
        requires
            self.wf(),
            self.closed_ids().contains(v),
        ensures
            !self.spans().contains_key(v),
    {
    }

    /// An empty store, in a context that is inside no span.
    pub fn new() -> (r: Registry)
        ensures
            r.wf(),
            r.spans() == Map::<u64, SpanModel>::empty(),
            r.entered() == Seq::<u64>::empty(),
            r.closed_ids() == Set::<u64>::empty(),
            r.calls() == Seq::<Call>::empty(),
    {
        let mut shards: Vec<Shard> = Vec::new();
        let mut i: usize = 0;
        while i < SHARDS
            invariant
                i <= SHARDS,
                shards@.len() == i,
                forall|k: int|
                    0 <= k < i ==> (#[trigger] shards@[k]).slots@.len() == 0 && shards@[k].free@.len()
                        == 0,
            decreases SHARDS - i,
        {
            shards.push(Shard { slots: Vec::new(), free: Vec::new() });
            i += 1;
        }
        let r = Registry {
            shards,
            next: 0,
            stack: SpanStack::new(),
            clock: Ghost(0),
            closed: Ghost(Set::empty()),
            log: Ghost(Seq::empty()),
        };
        proof {
            assert forall|v: u64| !r.live(v) by {
                if v != 0 {
                    lemma_unpack_pack(v);
                }
            }
            assert(r.spans() =~= Map::<u64, SpanModel>::empty());
        }
        r
    }
}

impl Default for Registry {
    fn default() -> (r: Registry)
        ensures
            r.wf(),
            r.spans() == Map::<u64, SpanModel>::empty(),
            r.entered() == Seq::<u64>::empty(),
            r.closed_ids() == Set::<u64>::empty(),
            r.calls() == Seq::<Call>::empty(),
    {
        Registry::new()
    }
}

/// A copy of what the store holds of one span.
#[derive(Clone, Copy)]
pub struct Data {
    id: Id,
    metadata: &'static Metadata,
    parent: Option<Id>,
    handles: usize,
    children: usize,
    born: Ghost<nat>,
}

impl Data {
    /// What the copy says of the span.
    pub closed spec fn model(self) -> SpanModel {
        SpanModel {
            metadata: *self.metadata,
            parent: self.parent,
            handles: self.handles as nat,
            children: self.children as nat,
            born: self.born@,
        }
    }

    /// The reference count of the span: its handles and its children.
    pub fn ref_count(&self) -> (n: u64)
        ensures
            n == if self.model().refs() <= u64::MAX {
                self.model().refs() as u64
            } else {
                u64::MAX
            },
    {
        let h = self.handles as u64;
        let c = self.children as u64;
        if h > u64::MAX - c {
            u64::MAX
        } else {
            h + c
        }
    }
}

impl Registry {
    fn locate(&self, id: &Id) -> (at: Option<(usize, usize)>)
        requires
            self.shards@.len() == SHARDS,
        ensures
            match at {
                Some((sh, sl)) => self.live(id.value()) && sh == shard_of(id.value()) && sl
                    == slot_of(id.value()) && sh < SHARDS && sl < self.size(sh as int),
                None => !self.live(id.value()),
            },
    {
        let (gen, sh, sl) = unpack_id(id);
        if sl < self.shards[sh].slots.len() {
            let slot = &self.shards[sh].slots[sl];
            if slot.metadata.is_some() && slot.generation == gen {
                return Some((sh, sl));
            }
        }
        None
    }

    fn put(&mut self, sh: usize, sl: usize, s: Slot)
        requires
            sh < old(self).shards@.len(),
            sl < old(self).size(sh as int),
        ensures
            final(self).shards@.len() == old(self).shards@.len(),
            final(self).next == old(self).next,
            final(self).stack == old(self).stack,
            final(self).clock == old(self).clock,
            final(self).closed == old(self).closed,
            final(self).log == old(self).log,
            forall|a: int|
                0 <= a < old(self).shards@.len() && a != sh ==> final(self).shards@[a] == old(
                    self,
                ).shards@[a],
            final(self).shards@[sh as int].free == old(self).shards@[sh as int].free,
            final(self).shards@[sh as int].slots@ == old(self).shards@[sh as int].slots@.update(
                sl as int,
                s,
            ),
    {
        let shard = &mut self.shards[sh];
        shard.slots.set(sl, s);
    }

    /// What the store holds of the span `id`; `None` for a span that has
    /// closed or that the store never held.
    pub fn span_data(&self, id: &Id) -> (found: Option<Data>)
        requires
            self.wf(),
        ensures
            found == self.data_of(*id),
            match found {
                Some(d) => self.spans().contains_key(id.value()) && d.model() == self.spans()[id.value()]
                    && d.ident() == *id,
                None => !self.spans().contains_key(id.value()),
            },
            self.closed_ids().contains(id.value()) ==> found is None,
    {
        match self.locate(id) {
            Some((sh, sl)) => {
                let slot = &self.shards[sh].slots[sl];
                match slot.metadata {
                    Some(metadata) => Some(
                        Data {
                            id: *id,
                            metadata,
                            parent: slot.parent,
                            handles: slot.handles,
                            children: slot.children,
                            born: Ghost(slot.born@),
                        },
                    ),
                    None => None,
                }
            },
            None => None,
        }
    }

    /// The store after one more handle to the span `v` has been noted.
    /// Nothing changes for a span that is not in the store, nor where the
    /// count of handles cannot grow any further.
    pub open spec fn after_clone(spans: Map<u64, SpanModel>, v: u64) -> Map<u64, SpanModel> {
        if spans.contains_key(v) && spans[v].handles < usize::MAX {
            spans.insert(v, SpanModel { handles: spans[v].handles + 1, ..spans[v] })
        } else {
            spans
        }
    }

    /// Notes one more handle to the span `id` and returns `id`.
    pub fn clone_span(&mut self, id: &Id) -> (r: Id)
        requires
            old(self).wf(),
        ensures
            final(self).wf(),
            r == *id,
            final(self).entered() == old(self).entered(),
            final(self).calls() == old(self).calls(),
            final(self).closed_ids() == old(self).closed_ids(),
            final(self).opened() == old(self).opened(),
            final(self).spans() == Self::after_clone(old(self).spans(), id.value()),
    {
        match self.locate(id) {
            Some((sh, sl)) => {
                let mut slot = self.shards[sh].slots[sl];
                if slot.handles < usize::MAX {
                    slot.handles = slot.handles + 1;
                    self.put(sh, sl, slot);
                    proof {
                        let v = id.value();
                        assert forall|a: int, b: int|
                            0 <= a < SHARDS && 0 <= b < self.size(a) implies (#[trigger] self.at(
                            a,
                            b,
                        )).shape_ok() by {
                            assert(old(self).at(a, b).shape_ok());
                        }
                        assert forall|a: int| 0 <= a < SHARDS implies #[trigger] self.free_ok(
                            a,
                        ) by {
                            assert(old(self).free_ok(a));
                        }
                        assert forall|a: int| 0 <= a < SHARDS implies #[trigger] self.size(a)
                            <= SLOT_LIMIT by {
                            assert(old(self).size(a) <= SLOT_LIMIT);
                        }
                        assert forall|w: u64| self.live(w) == old(self).live(w) by {
                            if w != 0 {
                                lemma_unpack_pack(w);
                            }
                        }
                        assert forall|w: u64| #[trigger] self.live(w) implies self.span_ok(
                            w,
                            None,
                        ) by {
                            lemma_unpack_pack(w);
                            assert(old(self).live(w));
                            assert(old(self).span_ok(w, None));
                            let s0 = old(self).slot(w);
                            assert(self.slot(w).kids == s0.kids);
                            assert forall|c: u64| #[trigger]
                                self.slot(w).kids@.contains(c) implies self.live(c) && self.slot(
                                c,
                            ).parent is Some && self.slot(c).parent->0.value() == w by {
                                assert(s0.kids@.contains(c));
                                assert(old(self).live(c));
                                lemma_unpack_pack(c);
                            }
                            if s0.parent is Some {
                                lemma_unpack_pack(s0.parent->0.value());
                            }
                        }
                        assert forall|w: u64| #[trigger]
                            self.closed@.contains(w) implies w != 0 && slot_of(w) < self.size(
                            shard_of(w),
                        ) && gen_of(w) < self.slot(w).generation by {
                            assert(old(self).closed@.contains(w));
                            lemma_unpack_pack(w);
                        }
                        let target = old(self).spans().insert(
                            v,
                            SpanModel {
                                handles: old(self).spans()[v].handles + 1,
                                ..old(self).spans()[v]
                            },
                        );
                        assert forall|w: u64| #[trigger] self.live(w) implies self.slot(w).model()
                            == target[w] by {
                            lemma_unpack_pack(w);
                            lemma_unpack_pack(v);
                        }
                        assert(self.spans() =~= target);
                    }
                }
            },
            None => {},
        }
        *id
    }
}

impl Registry {
    /// Whether a slot can still be had for another span.
    pub closed spec fn has_room(self) -> bool {
        exists|sh: int| 0 <= sh < SHARDS && #[trigger] self.room_in(sh)
    }

    spec fn room_in(self, sh: int) -> bool {
        self.shards@[sh].free@.len() > 0 || self.size(sh) < SLOT_LIMIT
    }

    /// The parent that a new span gets: the span that its attributes name, or
    /// the innermost entered span where they leave the choice to the context,
    /// provided that span is in the store and can count another child.
    pub open spec fn parent_for(self, kind: Parent) -> Option<Id> {
        let candidate: Option<u64> = match kind {
            Parent::Root => None,
            Parent::Explicit(p) => Some(p.value()),
            Parent::Current => if self.entered().len() > 0 {
                Some(self.entered().last())
            } else {
                None
            },
        };
        match candidate {
            Some(v) => if self.spans().contains_key(v) && self.spans()[v].children < usize::MAX {
                Some(Id::of(v))
            } else {
                None
            },
            None => None,
        }
    }

    fn resolve_parent(&self, kind: Parent) -> (parent: Option<Id>)
        requires
            self.wf(),
        ensures
            parent == self.parent_for(kind),
            parent is Some ==> self.live(parent->0.value()) && self.slot(
                parent->0.value(),
            ).children < usize::MAX,
    {
        let candidate = match kind {
            Parent::Root => None,
            Parent::Explicit(p) => Some(p),
            Parent::Current => self.stack.current(),
        };
        match candidate {
            Some(p) => {
                proof {
                    p.lemma_of_value();
                }
                match self.locate(&p) {
                    Some((sh, sl)) => {
                        if self.shards[sh].slots[sl].children < usize::MAX {
                            Some(p)
                        } else {
                            None
                        }
                    },
                    None => None,
                }
            },
            None => None,
        }
    }

    fn pick_shard(&self) -> (picked: Option<usize>)
        requires
            self.wf(),
        ensures
            match picked {
                Some(sh) => sh < SHARDS && self.room_in(sh as int),
                None => !self.has_room(),
            },
    {
        let mut k: usize = 0;
        while k < SHARDS
            invariant
                k <= SHARDS,
                self.wf(),
                forall|j: int|
                    0 <= j < k ==> !#[trigger] self.room_in((self.next + j) % (SHARDS as int)),
            decreases SHARDS - k,
        {
            let sh = (self.next + k) % SHARDS;
            if self.shards[sh].free.len() > 0 || self.shards[sh].slots.len() < SLOT_LIMIT {
                return Some(sh);
            }
            k += 1;
        }
        proof {
            assert forall|sh: int| 0 <= sh < SHARDS implies !#[trigger] self.room_in(sh) by {
                let j = (sh - self.next + SHARDS as int) % (SHARDS as int);
                assert((self.next + j) % (SHARDS as int) == sh);
            }
        }
        None
    }

    /// Whether a slot can still be had for another span.
    pub fn can_open(&self) -> (r: bool)
        requires
            self.wf(),
        ensures
            r == self.has_room(),
    {
        self.pick_shard().is_some()
    }

    fn take_slot(&mut self, sh: usize) -> (at: (usize, u64))
        requires
            old(self).inv(None),
            sh < SHARDS,
            old(self).room_in(sh as int),
        ensures
            final(self).inv(None),
            final(self).next == old(self).next,
            final(self).stack == old(self).stack,
            final(self).clock == old(self).clock,
            final(self).closed == old(self).closed,
            final(self).log == old(self).log,
            final(self).spans() == old(self).spans(),
            forall|v: u64| final(self).live(v) == old(self).live(v),
            forall|v: u64| #[trigger] final(self).live(v) ==> final(self).slot(v) == old(self).slot(v),
            at.0 < final(self).size(sh as int),
            final(self).at(sh as int, at.0 as int).metadata is None,
            final(self).at(sh as int, at.0 as int).generation == at.1,
            at.1 < GEN_LIMIT,
            forall|k: int|
                0 <= k < final(self).shards@[sh as int].free@.len() ==> final(self).shards@[sh as int].free@[k] != at.0,
    {
        if self.shards[sh].free.len() > 0 {
            let ghost f = self.shards@[sh as int].free@;
            assert(old(self).free_ok(sh as int));
            let shard = &mut self.shards[sh];
            let sl = shard.free.pop().unwrap();
            let gen = shard.slots[sl].generation;
            proof {
                assert(f[f.len() - 1] == sl);
                assert(self.shards@[sh as int].free@ =~= f.drop_last());
                assert forall|a: int| 0 <= a < SHARDS implies #[trigger] self.size(a) == old(
                    self,
                ).size(a) by {}
                assert forall|a: int, b: int|
                    0 <= a < SHARDS && 0 <= b < self.size(a) implies #[trigger] self.at(a, b)
                    == old(self).at(a, b) by {}
                self.lemma_same_slots(*old(self));
                assert forall|a: int| 0 <= a < SHARDS implies #[trigger] self.free_ok(a) by {
                    assert(old(self).free_ok(a));
                    if a == sh {
                        let g = self.shards@[a].free@;
                        assert forall|k: int| 0 <= k < g.len() implies {
                            &&& (#[trigger] g[k]) < self.size(a)
                            &&& self.at(a, g[k] as int).metadata is None
                            &&& self.at(a, g[k] as int).generation < GEN_LIMIT
                        } by {
                            assert(g[k] == f[k]);
                        }
                    }
                }
            }
            (sl, gen)
        } else {
            let shard = &mut self.shards[sh];
            let sl = shard.slots.len();
            shard.slots.push(
                Slot {
                    generation: 0,
                    metadata: None,
                    parent: None,
                    handles: 0,
                    children: 0,
                    kids: Ghost(Set::empty()),
                    born: Ghost(0),
                },
            );
            proof {
                assert forall|a: int| 0 <= a < SHARDS && a != sh implies #[trigger] self.size(a)
                    == old(self).size(a) by {}
                assert(self.size(sh as int) == old(self).size(sh as int) + 1);
                assert forall|a: int, b: int|
                    0 <= a < SHARDS && 0 <= b < old(self).size(a) implies #[trigger] self.at(a, b)
                    == old(self).at(a, b) by {}
                assert forall|a: int, b: int|
                    0 <= a < SHARDS && 0 <= b < self.size(a) implies (#[trigger] self.at(
                    a,
                    b,
                )).shape_ok() by {
                    if b < old(self).size(a) {
                        assert(old(self).at(a, b).shape_ok());
                    }
                }
                assert forall|v: u64| self.live(v) == old(self).live(v) by {
                    if v != 0 {
                        lemma_unpack_pack(v);
                    }
                }
                assert forall|v: u64| #[trigger] self.live(v) implies self.slot(v) == old(
                    self,
                ).slot(v) by {
                    lemma_unpack_pack(v);
                }
                self.lemma_same_spans(*old(self));
                assert forall|a: int| 0 <= a < SHARDS implies #[trigger] self.free_ok(a) by {
                    assert(old(self).free_ok(a));
                }
                assert forall|v: u64| #[trigger]
                    self.closed@.contains(v) implies v != 0 && slot_of(v) < self.size(shard_of(v))
                    && gen_of(v) < self.slot(v).generation by {
                    assert(old(self).closed@.contains(v));
                    lemma_unpack_pack(v);
                }
            }
            (sl, 0)
        }
    }

    /// A store whose slots are those of `before` satisfies the invariant
    /// that `before` satisfies, apart from the free lists.
    proof fn lemma_same_slots(self, before: Registry)
        requires
            before.inv(None),
            self.shards@.len() == SHARDS,
            self.clock == before.clock,
            self.closed == before.closed,
            forall|a: int| 0 <= a < SHARDS ==> #[trigger] self.size(a) == before.size(a),
            forall|a: int, b: int|
                0 <= a < SHARDS && 0 <= b < self.size(a) ==> #[trigger] self.at(a, b) == before.at(
                    a,
                    b,
                ),
        ensures
            forall|v: u64| self.live(v) == before.live(v),
            forall|v: u64| #[trigger] self.live(v) ==> self.slot(v) == before.slot(v),
            forall|v: u64| #[trigger] self.live(v) ==> self.span_ok(v, None),
            forall|a: int| 0 <= a < SHARDS ==> #[trigger] self.size(a) <= SLOT_LIMIT,
            forall|a: int, b: int|
                0 <= a < SHARDS && 0 <= b < self.size(a) ==> (#[trigger] self.at(a, b)).shape_ok(),
            forall|v: u64| #[trigger]
                self.closed@.contains(v) ==> v != 0 && slot_of(v) < self.size(shard_of(v))
                    && gen_of(v) < self.slot(v).generation,
            self.spans() == before.spans(),
    {
        assert forall|a: int| 0 <= a < SHARDS implies #[trigger] self.size(a) <= SLOT_LIMIT by {
            assert(before.size(a) <= SLOT_LIMIT);
        }
        assert forall|a: int, b: int| 0 <= a < SHARDS && 0 <= b < self.size(a) implies (
        #[trigger] self.at(a, b)).shape_ok() by {
            assert(before.at(a, b).shape_ok());
        }
        assert forall|v: u64| self.live(v) == before.live(v) by {
            if v != 0 {
                lemma_unpack_pack(v);
            }
        }
        assert forall|v: u64| #[trigger] self.live(v) implies self.slot(v) == before.slot(v) by {
            lemma_unpack_pack(v);
        }
        self.lemma_same_spans(before);
        assert forall|v: u64| #[trigger]
            self.closed@.contains(v) implies v != 0 && slot_of(v) < self.size(shard_of(v)) && gen_of(
            v,
        ) < self.slot(v).generation by {
            assert(before.closed@.contains(v));
            lemma_unpack_pack(v);
        }
    }

    /// A store whose spans sit where they sat in `before`, unchanged, holds
    /// the same spans, and each of them is in order as it was.
    proof fn lemma_same_spans(self, before: Registry)
        requires
            before.inv(None),
            self.clock == before.clock,
            forall|v: u64| self.live(v) == before.live(v),
            forall|v: u64| #[trigger] self.live(v) ==> self.slot(v) == before.slot(v),
        ensures
            forall|v: u64| #[trigger] self.live(v) ==> self.span_ok(v, None),
            self.spans() == before.spans(),
    {
        assert forall|v: u64| #[trigger] self.live(v) implies self.span_ok(v, None) by {
            assert(before.live(v));
            assert(before.span_ok(v, None));
            let s0 = before.slot(v);
            assert forall|c: u64| #[trigger]
                self.slot(v).kids@.contains(c) implies self.live(c) && self.slot(c).parent is Some
                && self.slot(c).parent->0.value() == v by {
                assert(s0.kids@.contains(c));
                assert(before.live(c));
            }
            if s0.parent is Some {
                assert(before.live(s0.parent->0.value()));
            }
        }
        assert(self.spans() =~= before.spans());
    }
}

impl Registry {
    /// The store after a span numbered `v` has been added to `spans` with the
    /// given metadata and parent: the span has one handle and no child, and
    /// its parent counts one child more.
    pub open spec fn with_span(
        spans: Map<u64, SpanModel>,
        v: u64,
        metadata: Metadata,
        parent: Option<Id>,
        born: nat,
    ) -> Map<u64, SpanModel> {
        let adopted = match parent {
            Some(p) => spans.insert(
                p.value(),
                SpanModel { children: spans[p.value()].children + 1, ..spans[p.value()] },
            ),
            None => spans,
        };
        adopted.insert(v, SpanModel { metadata, parent, handles: 1, children: 0, born })
    }

    /// Stores a new span and returns its identifier, which no span has had
    /// before. The parent of the span is [`Registry::parent_for`] its
    /// attributes.
    ///
    /// Where no slot can be had any more, nothing is stored, and the
    /// identifier returned is that of no span.
    pub fn new_span(&mut self, attrs: &Attributes<'_>) -> (id: Id)
        requires
            old(self).wf(),
        ensures
            final(self).wf(),
            final(self).entered() == old(self).entered(),
            final(self).calls() == old(self).calls(),
            final(self).closed_ids() == old(self).closed_ids(),
            !old(self).spans().contains_key(id.value()),
            !old(self).closed_ids().contains(id.value()),
            old(self).has_room() ==> final(self).spans() == Self::with_span(
                old(self).spans(),
                id.value(),
                attrs.spec_metadata(),
                old(self).parent_for(attrs.parent_kind()),
                old(self).opened(),
            ) && final(self).opened() == old(self).opened() + 1,
            !old(self).has_room() ==> final(self).spans() == old(self).spans() && id.value()
                == u64::MAX && final(self).opened() == old(self).opened(),
    {
        let kind = match attrs.parent() {
            Some(p) => Parent::Explicit(*p),
            None => if attrs.is_root() {
                Parent::Root
            } else {
                Parent::Current
            },
        };
        assert(kind == attrs.parent_kind());
        let parent = self.resolve_parent(kind);
        let sh = match self.pick_shard() {
            Some(sh) => sh,
            None => {
                let dead = Id::from_u64(u64::MAX);
                proof {
                    lemma_dead_number();
                    if self.live(u64::MAX) {
                        assert(self.at(shard_of(u64::MAX), slot_of(u64::MAX)).shape_ok());
                    }
                    if self.closed@.contains(u64::MAX) {
                        assert(self.at(shard_of(u64::MAX), slot_of(u64::MAX)).shape_ok());
                    }
                }
                return dead;
            },
        };
        assert(self.has_room());
        let (sl, gen) = self.take_slot(sh);
        let ghost mid = *self;
        let id = pack_id(gen, sh, sl);
        let ghost v = id.value();
        let metadata = attrs.metadata();
        self.put(
            sh,
            sl,
            Slot {
                generation: gen,
                metadata: Some(metadata),
                parent,
                handles: 1,
                children: 0,
                kids: Ghost(Set::empty()),
                born: Ghost(mid.clock@),
            },
        );
        self.clock = Ghost((mid.clock@ + 1) as nat);
        self.next = (sh + 1) % SHARDS;
        match parent {
            Some(p) => {
                let (_, psh, psl) = unpack_id(&p);
                proof {
                    assert(mid.live(p.value()));
                    lemma_unpack_pack(p.value());
                }
                let mut pslot = self.shards[psh].slots[psl];
                pslot.children = pslot.children + 1;
                pslot.kids = Ghost(pslot.kids@.insert(v));
                self.put(psh, psl, pslot);
            },
            None => {},
        }
        proof {
            lemma_unpack_pack(v);
            let pv: Option<u64> = match parent {
                Some(p) => Some(p.value()),
                None => None,
            };
            if pv is Some {
                lemma_unpack_pack(pv->0);
                assert(mid.span_ok(pv->0, None));
            }
            assert forall|a: int| 0 <= a < SHARDS implies #[trigger] self.size(a) == mid.size(
                a,
            ) by {}
            // how the slots differ from those of `mid`
            assert forall|w: u64|
                w != 0 && w != v && Some(w) != pv && slot_of(w) < mid.size(shard_of(w))
                    && !(shard_of(w) == sh && slot_of(w) == sl) && !(pv is Some && shard_of(w)
                    == shard_of(pv->0) && slot_of(w) == slot_of(pv->0)) implies #[trigger] self.slot(
                w,
            ) == mid.slot(w) by {
                lemma_unpack_pack(w);
            }
            assert(self.slot(v).metadata is Some && self.slot(v).generation == gen);
            assert forall|w: u64| #[trigger] self.live(w) == (mid.live(w) || w == v) by {
                if w != 0 {
                    lemma_unpack_pack(w);
                }
            }
            assert forall|w: u64| #[trigger] mid.live(w) && Some(w) != pv implies self.slot(w)
                == mid.slot(w) by {
                lemma_unpack_pack(w);
            }
            assert(!mid.live(v));
            if mid.closed@.contains(v) {
                assert(gen_of(v) < mid.slot(v).generation);
            }
            assert forall|a: int, b: int|
                0 <= a < SHARDS && 0 <= b < self.size(a) implies (#[trigger] self.at(
                a,
                b,
            )).shape_ok() by {
                assert(mid.at(a, b).shape_ok());
            }
            assert forall|a: int| 0 <= a < SHARDS implies #[trigger] self.free_ok(a) by {
                assert(mid.free_ok(a));
                let f = self.shards@[a].free@;
                assert(f == mid.shards@[a].free@);
                assert forall|k: int| 0 <= k < f.len() implies {
                    &&& (#[trigger] f[k]) < self.size(a)
                    &&& self.at(a, f[k] as int).metadata is None
                    &&& self.at(a, f[k] as int).generation < GEN_LIMIT
                } by {
                    assert(mid.at(a, f[k] as int).metadata is None);
                }
            }
            assert forall|w: u64| #[trigger] self.live(w) implies self.span_ok(w, None) by {
                lemma_unpack_pack(w);
                if w == v {
                    assert(self.slot(v).kids@ =~= Set::<u64>::empty());
                } else if Some(w) == pv {
                    let k0 = mid.slot(w).kids@;
                    assert(self.slot(w).kids@ == k0.insert(v));
                    assert(!k0.contains(v));
                    assert forall|c: u64| #[trigger]
                        self.slot(w).kids@.contains(c) implies self.live(c) && self.slot(
                        c,
                    ).parent is Some && self.slot(c).parent->0.value() == w by {
                        if c != v {
                            assert(k0.contains(c));
                            assert(mid.live(c));
                        }
                    }
                    if mid.slot(w).parent is Some {
                        let q = mid.slot(w).parent->0.value();
                        assert(mid.live(q));
                    }
                } else {
                    assert(mid.live(w));
                    assert(mid.span_ok(w, None));
                    let s0 = mid.slot(w);
                    assert forall|c: u64| #[trigger]
                        self.slot(w).kids@.contains(c) implies self.live(c) && self.slot(
                        c,
                    ).parent is Some && self.slot(c).parent->0.value() == w by {
                        assert(s0.kids@.contains(c));
                        assert(mid.live(c));
                    }
                    if s0.parent is Some {
                        let q = s0.parent->0.value();
                        assert(mid.live(q));
                    }
                }
            }
            assert forall|w: u64| #[trigger]
                self.closed@.contains(w) implies w != 0 && slot_of(w) < self.size(shard_of(w))
                && gen_of(w) < self.slot(w).generation by {
                assert(mid.closed@.contains(w));
                lemma_unpack_pack(w);
            }
            let target = Self::with_span(
                old(self).spans(),
                v,
                attrs.spec_metadata(),
                old(self).parent_for(attrs.parent_kind()),
                old(self).opened(),
            );
            if parent is Some {
                Id::lemma_value_of(parent->0.value());
                parent->0.lemma_of_value();
            }
            assert forall|w: u64| #[trigger] self.live(w) implies self.slot(w).model()
                == target[w] by {
                lemma_unpack_pack(w);
                if w != v && Some(w) != pv {
                    assert(mid.live(w));
                }
            }
            assert(self.spans() =~= target);
        }
        id
    }
}

/// The largest number names a generation that no slot reaches.
proof fn lemma_dead_number()
    ensures
        gen_of(u64::MAX) >= GEN_LIMIT,
        0 <= shard_of(u64::MAX) < SHARDS,
        0 <= slot_of(u64::MAX) < SLOT_LIMIT,
{
    lemma_unpack_pack(u64::MAX);
    reveal(gen_of);
}

impl Registry {
    /// The store after the span `v`, which has neither handle nor child, has
    /// left `spans`: its parent counts one child less, and leaves in the same
    /// way where that was its last child and it has no handle either.
    pub open spec fn close_from(spans: Map<u64, SpanModel>, v: u64) -> Map<u64, SpanModel>
        decreases spans[v].born,
    {
        let rest = spans.remove(v);
        match spans[v].parent {
            Some(p) => {
                let pv = p.value();
                if spans.contains_key(pv) && spans[pv].born < spans[v].born && spans[pv].children
                    > 0 {
                    let pm = SpanModel {
                        children: (spans[pv].children - 1) as nat,
                        ..spans[pv]
                    };
                    let next = rest.insert(pv, pm);
                    if pm.handles == 0 && pm.children == 0 {
                        Self::close_from(next, pv)
                    } else {
                        next
                    }
                } else {
                    rest
                }
            },
            None => rest,
        }
    }

    fn push_free(&mut self, sh: usize, sl: usize)
        requires
            sh < old(self).shards@.len(),
        ensures
            final(self).shards@.len() == old(self).shards@.len(),
            final(self).next == old(self).next,
            final(self).stack == old(self).stack,
            final(self).clock == old(self).clock,
            final(self).closed == old(self).closed,
            final(self).log == old(self).log,
            forall|a: int|
                0 <= a < old(self).shards@.len() && a != sh ==> final(self).shards@[a] == old(
                    self,
                ).shards@[a],
            final(self).shards@[sh as int].slots == old(self).shards@[sh as int].slots,
            final(self).shards@[sh as int].free@ == old(self).shards@[sh as int].free@.push(sl),
    {
        let shard = &mut self.shards[sh];
        shard.free.push(sl);
    }

    fn release_one(&mut self, cur: Id) -> (next: Option<Id>)
        requires
            old(self).inv(Some(cur.value())),
            old(self).live(cur.value()),
            old(self).slot(cur.value()).handles == 0,
            old(self).slot(cur.value()).children == 0,
        ensures
            final(self).stack == old(self).stack,
            final(self).clock == old(self).clock,
            final(self).closed@ == old(self).closed@.insert(cur.value()),
            final(self).log == old(self).log,
            !final(self).live(cur.value()),
            forall|w: u64| w != cur.value() ==> final(self).live(w) == old(self).live(w),
            match next {
                Some(p) => {
                    &&& final(self).inv(Some(p.value()))
                    &&& final(self).live(p.value())
                    &&& final(self).slot(p.value()).handles == 0
                    &&& final(self).slot(p.value()).children == 0
                    &&& final(self).slot(p.value()).born@ < old(self).slot(cur.value()).born@
                    &&& Self::close_from(old(self).spans(), cur.value()) == Self::close_from(
                        final(self).spans(),
                        p.value(),
                    )
                },
                None => {
                    &&& final(self).inv(None)
                    &&& Self::close_from(old(self).spans(), cur.value()) == final(self).spans()
                },
            },
    {
        let ghost v = cur.value();
        let ghost start = *self;
        let (gen, sh, sl) = unpack_id(&cur);
        proof {
            lemma_unpack_pack(v);
            assert(start.span_ok(v, Some(v)));
            assert(start.at(sh as int, sl as int).shape_ok());
            if start.slot(v).kids@.len() == 0 {
                start.slot(v).kids@.lemma_len0_is_empty();
            }
        }
        let slot = self.shards[sh].slots[sl];
        let parent = slot.parent;
        let new_gen = slot.generation + 1;
        self.put(
            sh,
            sl,
            Slot {
                generation: new_gen,
                metadata: None,
                parent: None,
                handles: 0,
                children: 0,
                kids: Ghost(Set::empty()),
                born: Ghost(0),
            },
        );
        self.closed = Ghost(self.closed@.insert(v));
        if new_gen < GEN_LIMIT {
            self.push_free(sh, sl);
        }
        let next = match parent {
            Some(p) => {
                let (_, psh, psl) = unpack_id(&p);
                proof {
                    assert(start.live(p.value()));
                    lemma_unpack_pack(p.value());
                    assert(start.span_ok(p.value(), Some(v)));
                }
                let mut ps = self.shards[psh].slots[psl];
                ps.children = ps.children - 1;
                ps.kids = Ghost(ps.kids@.remove(v));
                self.put(psh, psl, ps);
                if ps.handles == 0 && ps.children == 0 {
                    Some(p)
                } else {
                    None
                }
            },
            None => None,
        };
        proof {
            let pv: Option<u64> = match parent {
                Some(p) => Some(p.value()),
                None => None,
            };
            let lax: Option<u64> = match next {
                Some(p) => Some(p.value()),
                None => None,
            };
            if pv is Some {
                lemma_unpack_pack(pv->0);
            }
            assert forall|a: int| 0 <= a < SHARDS implies #[trigger] self.size(a) == start.size(
                a,
            ) by {}
            assert forall|w: u64| #[trigger] self.live(w) == (start.live(w) && w != v) by {
                if w != 0 {
                    lemma_unpack_pack(w);
                }
            }
            assert forall|w: u64| #[trigger] start.live(w) && w != v && Some(w) != pv implies self.slot(
                w,
            ) == start.slot(w) by {
                lemma_unpack_pack(w);
            }
            assert forall|a: int, b: int|
                0 <= a < SHARDS && 0 <= b < self.size(a) implies (#[trigger] self.at(
                a,
                b,
            )).shape_ok() by {
                assert(start.at(a, b).shape_ok());
            }
            assert forall|a: int| 0 <= a < SHARDS implies #[trigger] self.free_ok(a) by {
                assert(start.free_ok(a));
                let f0 = start.shards@[a].free@;
                let f = self.shards@[a].free@;
                assert forall|k: int| 0 <= k < f.len() implies {
                    &&& (#[trigger] f[k]) < self.size(a)
                    &&& self.at(a, f[k] as int).metadata is None
                    &&& self.at(a, f[k] as int).generation < GEN_LIMIT
                } by {
                    if k < f0.len() {
                        assert(f[k] == f0[k]);
                        assert(start.at(a, f0[k] as int).metadata is None);
                    }
                }
                assert forall|j: int, k: int| 0 <= j < k < f.len() implies f[j] != f[k] by {
                    if k < f0.len() {
                        assert(f[j] == f0[j] && f[k] == f0[k]);
                    } else {
                        assert(f[j] == f0[j]);
                        assert(start.at(a, f0[j] as int).metadata is None);
                    }
                }
            }
            assert forall|w: u64| #[trigger] self.live(w) implies self.span_ok(w, lax) by {
                lemma_unpack_pack(w);
                assert(start.live(w));
                assert(start.span_ok(w, Some(v)));
                let s0 = start.slot(w);
                if Some(w) == pv {
                    assert(self.slot(w).kids@ == s0.kids@.remove(v));
                    assert(s0.kids@.contains(v));
                }
                assert forall|c: u64| #[trigger]
                    self.slot(w).kids@.contains(c) implies self.live(c) && self.slot(
                    c,
                ).parent is Some && self.slot(c).parent->0.value() == w by {
                    assert(s0.kids@.contains(c));
                    assert(start.live(c));
                    lemma_unpack_pack(c);
                }
                if s0.parent is Some {
                    let q = s0.parent->0.value();
                    assert(start.live(q));
                    lemma_unpack_pack(q);
                    assert(start.slot(q).kids@.contains(w));
                }
            }
            assert forall|w: u64| #[trigger]
                self.closed@.contains(w) implies w != 0 && slot_of(w) < self.size(shard_of(w))
                && gen_of(w) < self.slot(w).generation by {
                lemma_unpack_pack(w);
                if w != v {
                    assert(start.closed@.contains(w));
                }
            }
            // the model
            let m0 = start.spans();
            let rest = m0.remove(v);
            assert(m0.contains_key(v));
            match parent {
                Some(p) => {
                    let q = p.value();
                    assert(m0.contains_key(q));
                    assert(m0[q].born < m0[v].born);
                    assert(m0[q].children > 0);
                    let pm = SpanModel { children: (m0[q].children - 1) as nat, ..m0[q] };
                    let stepped = rest.insert(q, pm);
                    assert forall|w: u64| #[trigger] self.live(w) implies self.slot(w).model()
                        == stepped[w] by {
                        lemma_unpack_pack(w);
                    }
                    assert(self.spans() =~= stepped);
                },
                None => {
                    assert forall|w: u64| #[trigger] self.live(w) implies self.slot(w).model()
                        == rest[w] by {
                        lemma_unpack_pack(w);
                    }
                    assert(self.spans() =~= rest);
                },
            }
        }
        next
    }
}

impl Registry {
    /// The store after one handle to the span `v` has gone. A span that still
    /// has a handle or a child afterwards stays; one that has neither leaves
    /// the store as [`Registry::close_from`] says. Nothing changes for a span
    /// that is not in the store.
    pub open spec fn after_close(spans: Map<u64, SpanModel>, v: u64) -> Map<u64, SpanModel> {
        if spans.contains_key(v) {
            let left = if spans[v].handles > 0 {
                (spans[v].handles - 1) as nat
            } else {
                0
            };
            let dropped = spans.insert(v, SpanModel { handles: left, ..spans[v] });
            if left == 0 && spans[v].children == 0 {
                Self::close_from(dropped, v)
            } else {
                dropped
            }
        } else {
            spans
        }
    }

    /// Notes that a handle to the span `id` is gone. Returns `true` when the
    /// span has closed: it had no other handle and no child. Its parent then
    /// loses a child, and closes in turn where nothing else refers to it.
    pub fn try_close(&mut self, id: Id) -> (closed: bool)
        requires
            old(self).wf(),
        ensures
            final(self).wf(),
            final(self).entered() == old(self).entered(),
            final(self).calls() == old(self).calls(),
            final(self).opened() == old(self).opened(),
            final(self).spans() == Self::after_close(old(self).spans(), id.value()),
            closed == (old(self).spans().contains_key(id.value()) && old(
                self,
            ).spans()[id.value()].handles <= 1 && old(self).spans()[id.value()].children == 0),
            closed ==> !final(self).spans().contains_key(id.value()),
            forall|w: u64|
                #![trigger final(self).closed_ids().contains(w)]
                #![trigger old(self).spans().contains_key(w)]
                final(self).closed_ids().contains(w) <==> old(self).closed_ids().contains(w) || (
                old(self).spans().contains_key(w) && !final(self).spans().contains_key(w)),
    {
        let ghost v = id.value();
        let (sh, sl) = match self.locate(&id) {
            Some(at) => at,
            None => {
                return false;
            },
        };
        proof {
            lemma_unpack_pack(v);
            assert(self.span_ok(v, None));
        }
        let mut slot = self.shards[sh].slots[sl];
        if slot.handles > 0 {
            slot.handles = slot.handles - 1;
            self.put(sh, sl, slot);
        }
        let ghost lax: Option<u64> = if slot.handles == 0 && slot.children == 0 {
            Some(v)
        } else {
            None
        };
        let ghost left: nat = slot.handles as nat;
        let ghost dropped = old(self).spans().insert(
            v,
            SpanModel { handles: left, ..old(self).spans()[v] },
        );
        proof {
            assert forall|a: int| 0 <= a < SHARDS implies #[trigger] self.size(a) == old(
                self,
            ).size(a) by {}
            assert forall|a: int, b: int|
                0 <= a < SHARDS && 0 <= b < self.size(a) implies (#[trigger] self.at(
                a,
                b,
            )).shape_ok() by {
                assert(old(self).at(a, b).shape_ok());
            }
            assert forall|a: int| 0 <= a < SHARDS implies #[trigger] self.free_ok(a) by {
                assert(old(self).free_ok(a));
            }
            assert forall|w: u64| self.live(w) == old(self).live(w) by {
                if w != 0 {
                    lemma_unpack_pack(w);
                }
            }
            assert forall|w: u64| #[trigger] self.live(w) implies self.span_ok(w, lax) by {
                lemma_unpack_pack(w);
                assert(old(self).live(w));
                assert(old(self).span_ok(w, None));
                let s0 = old(self).slot(w);
                assert(self.slot(w).kids == s0.kids);
                assert forall|c: u64| #[trigger]
                    self.slot(w).kids@.contains(c) implies self.live(c) && self.slot(
                    c,
                ).parent is Some && self.slot(c).parent->0.value() == w by {
                    assert(s0.kids@.contains(c));
                    assert(old(self).live(c));
                    lemma_unpack_pack(c);
                }
                if s0.parent is Some {
                    lemma_unpack_pack(s0.parent->0.value());
                }
            }
            assert forall|w: u64| #[trigger]
                self.closed@.contains(w) implies w != 0 && slot_of(w) < self.size(shard_of(w))
                && gen_of(w) < self.slot(w).generation by {
                assert(old(self).closed@.contains(w));
                lemma_unpack_pack(w);
            }
            assert forall|w: u64| #[trigger] self.live(w) implies self.slot(w).model()
                == dropped[w] by {
                lemma_unpack_pack(w);
            }
            assert(self.spans() =~= dropped);
        }
        if !(slot.handles == 0 && slot.children == 0) {
            return false;
        }
        let ghost target = Self::close_from(dropped, v);
        let ghost start = *self;
        let mut cur = id;
        let mut going = true;
        while going
            invariant
                self.stack == old(self).stack,
                self.clock == old(self).clock,
                self.log == old(self).log,
                !going ==> self.inv(None) && self.spans() == target,
                going ==> {
                    &&& self.inv(Some(cur.value()))
                    &&& self.live(cur.value())
                    &&& self.slot(cur.value()).handles == 0
                    &&& self.slot(cur.value()).children == 0
                    &&& Self::close_from(self.spans(), cur.value()) == target
                },
                (going && cur.value() == v) || !self.live(v),
                forall|w: u64| self.live(w) ==> start.live(w),
                forall|w: u64|
                    #![trigger self.closed@.contains(w)]
                    #![trigger start.live(w)]
                    self.closed@.contains(w) <==> start.closed@.contains(w) || (start.live(w)
                        && !self.live(w)),
            decreases
                    (if going {
                        self.slot(cur.value()).born@ + 1
                    } else {
                        0
                    }),
        {
            let ghost before = *self;
            let ghost c = cur.value();
            match self.release_one(cur) {
                Some(p) => {
                    proof {
                        if c != v {
                            assert(self.live(v) == before.live(v));
                        }
                    }
                    cur = p;
                },
                None => {
                    proof {
                        if c != v {
                            assert(self.live(v) == before.live(v));
                        }
                    }
                    going = false;
                },
            }
            proof {
                assert forall|w: u64|
                    #![trigger self.closed@.contains(w)]
                    #![trigger start.live(w)]
                    self.closed@.contains(w) <==> start.closed@.contains(w) || (start.live(w)
                        && !self.live(w)) by {
                    assert(before.closed@.contains(w) <==> start.closed@.contains(w) || (
                    start.live(w) && !before.live(w)));
                    if w == c {
                        assert(before.live(c));
                        assert(start.live(c));
                    } else {
                        assert(self.live(w) == before.live(w));
                        assert(self.closed@.contains(w) == before.closed@.contains(w));
                    }
                }
            }
        }
        proof {
            assert forall|w: u64|
                #![trigger self.closed_ids().contains(w)]
                #![trigger old(self).spans().contains_key(w)]
                self.closed_ids().contains(w) <==> old(self).closed_ids().contains(w) || (old(
                    self,
                ).spans().contains_key(w) && !self.spans().contains_key(w)) by {
                assert(self.closed@.contains(w) <==> start.closed@.contains(w) || (start.live(w)
                    && !self.live(w)));
                assert(start.live(w) == old(self).live(w));
            }
        }
        true
    }
}

impl Registry {
    /// Noting a handle to a span and then dropping one leaves the store as
    /// it was: the span is still there, with the reference count it had.
    pub proof fn lemma_clone_then_close(self, v: u64)
        requires
            self.wf(),
            self.spans().contains_key(v),
            self.spans()[v].handles < usize::MAX,
        ensures
            Self::after_close(Self::after_clone(self.spans(), v), v) == self.spans(),
    {
        self.lemma_parent_observable(v);
        let m = self.spans();
        let cloned = Self::after_clone(m, v);
        let dropped = cloned.insert(v, SpanModel { handles: m[v].handles, ..cloned[v] });
        assert(dropped =~= m);
    }

    /// The execution context enters the span `id`, which becomes the
    /// innermost entered span. Up to a depth of [`INLINE`] this always
    /// succeeds. Beyond it memory is needed to note the span: where none can
    /// be had, `false` is returned and nothing changes.
    pub fn enter(&mut self, id: &Id) -> (entered: bool)
        requires
            old(self).wf(),
        ensures
            final(self).wf(),
            final(self).spans() == old(self).spans(),
            final(self).calls() == old(self).calls(),
            final(self).closed_ids() == old(self).closed_ids(),
            final(self).opened() == old(self).opened(),
            entered ==> final(self).entered() == old(self).entered().push(id.value()),
            !entered ==> final(self).entered() == old(self).entered(),
            old(self).entered().len() < INLINE ==> entered,
    {
        let entered = self.stack.push(id);
        proof {
            self.lemma_same_slots(*old(self));
            assert forall|a: int| 0 <= a < SHARDS implies #[trigger] self.free_ok(a) by {
                assert(old(self).free_ok(a));
            }
        }
        entered
    }

    /// The execution context leaves the span `id`, and with it the spans
    /// that it entered after `id` and has not left. Returns `false`, with
    /// nothing changed, where the context is not inside `id`.
    pub fn exit(&mut self, id: &Id) -> (found: bool)
        requires
            old(self).wf(),
        ensures
            final(self).wf(),
            final(self).spans() == old(self).spans(),
            final(self).calls() == old(self).calls(),
            final(self).closed_ids() == old(self).closed_ids(),
            final(self).opened() == old(self).opened(),
            final(self).entered() == left(old(self).entered(), id.value()),
            found == (last_position(old(self).entered(), id.value()) >= 0),
    {
        let found = self.stack.pop(id);
        proof {
            self.lemma_same_slots(*old(self));
            assert forall|a: int| 0 <= a < SHARDS implies #[trigger] self.free_ok(a) by {
                assert(old(self).free_ok(a));
            }
        }
        found
    }

    /// The innermost span that the execution context is inside of, with its
    /// metadata; none where the context is inside no span, or where that span
    /// is no longer in the store.
    pub open spec fn innermost(self) -> Option<(Id, Metadata)> {
        if self.entered().len() > 0 && self.spans().contains_key(self.entered().last()) {
            Some((Id::of(self.entered().last()), self.spans()[self.entered().last()].metadata))
        } else {
            None
        }
    }

    /// The innermost span that the execution context is inside of, with its
    /// metadata; none where the context is inside no span, or where that span
    /// is no longer in the store.
    pub fn current_span(&self) -> (current: Current)
        requires
            self.wf(),
        ensures
            current.spec_is_known(),
            current.spec_inner() == self.innermost(),
    {
        match self.stack.current() {
            Some(id) => {
                proof {
                    id.lemma_of_value();
                }
                match self.span_data(&id) {
                    Some(data) => Current::new(id, data.metadata),
                    None => Current::none(),
                }
            },
            None => Current::none(),
        }
    }
}

impl Registry {
    fn note(&mut self, Ghost(call): Ghost<Call>)
        requires
            old(self).wf(),
        ensures
            final(self).wf(),
            final(self).spans() == old(self).spans(),
            final(self).entered() == old(self).entered(),
            final(self).closed_ids() == old(self).closed_ids(),
            final(self).opened() == old(self).opened(),
            final(self).calls() == old(self).calls().push(call),
    {
        self.log = Ghost(self.log@.push(call));
        proof {
            self.lemma_same_slots(*old(self));
            assert forall|a: int| 0 <= a < SHARDS implies #[trigger] self.free_ok(a) by {
                assert(old(self).free_ok(a));
            }
        }
    }
}

impl Collect for Registry {
    open spec fn valid(&self) -> bool {
        self.wf()
    }

    open spec fn received(&self) -> Seq<Call> {
        self.calls()
    }

    open spec fn tracks_current(&self) -> bool {
        true
    }

    open spec fn current(&self) -> Option<(Id, Metadata)> {
        self.innermost()
    }

    open spec fn interest_in(&self, meta: Metadata) -> Interest {
        Interest::Always
    }

    open spec fn allows(&self, meta: Metadata) -> bool {
        true
    }

    fn register_callsite(&self, meta: &'static Metadata) -> (r: Interest) {
        Interest::always()
    }

    fn enabled(&self, meta: &Metadata) -> (r: bool) {
        true
    }

    fn new_span(&mut self, attrs: &Attributes<'_>) -> (id: Id) {
        let id = Registry::new_span(self, attrs);
        self.note(
            Ghost(
                Call::NewSpan {
                    metadata: attrs.spec_metadata(),
                    parent: attrs.parent_kind(),
                    values: attrs.spec_values().recorded(),
                    id,
                },
            ),
        );
        id
    }

    fn record(&mut self, span: &Id, values: &Record<'_>) {
        self.note(Ghost(Call::Record { span: *span, values: values.spec_values().recorded() }));
    }

    fn record_follows_from(&mut self, span: &Id, follows: &Id) {
        self.note(Ghost(Call::FollowsFrom { span: *span, follows: *follows }));
    }

    fn event(&mut self, event: &Event<'_>) {
        self.note(
            Ghost(
                Call::Event {
                    metadata: event.spec_metadata(),
                    parent: event.parent_kind(),
                    values: event.spec_fields().recorded(),
                },
            ),
        );
    }

    fn enter(&mut self, span: &Id) {
        let _ = Registry::enter(self, span);
        self.note(Ghost(Call::Enter { span: *span }));
    }

    fn exit(&mut self, span: &Id) {
        let _ = Registry::exit(self, span);
        self.note(Ghost(Call::Exit { span: *span }));
    }

    fn clone_span(&mut self, id: &Id) -> (r: Id) {
        let r = Registry::clone_span(self, id);
        self.note(Ghost(Call::CloneSpan { span: *id }));
        r
    }

    fn try_close(&mut self, id: Id) -> (closed: bool) {
        let closed = Registry::try_close(self, id);
        self.note(Ghost(Call::TryClose { span: id, closed }));
        closed
    }

    fn current_span(&self) -> (current: Current) {
        Registry::current_span(self)
    }
}

impl SpanData for Data {
    closed spec fn ident(&self) -> Id {
        self.id
    }

    closed spec fn meta(&self) -> Metadata {
        *self.metadata
    }

    closed spec fn parent_link(&self) -> Option<Id> {
        self.parent
    }

    fn id(&self) -> (r: Id) {
        self.id
    }

    fn metadata(&self) -> (r: &'static Metadata) {
        self.metadata
    }

    fn parent(&self) -> (r: Option<&Id>) {
        match &self.parent {
            Some(p) => Some(p),
            None => None,
        }
    }
}

impl Data {
    /// What the trait shows of the copy is what its model says.
    pub proof fn lemma_model(self)
        ensures
            self.meta() == self.model().metadata,
            self.parent_link() == self.model().parent,
    {
    }
}

impl LookupSpan for Registry {
    type Data = Data;

    open spec fn consistent(&self) -> bool {
        self.wf()
    }

    closed spec fn data_of(&self, id: Id) -> Option<Data> {
        if self.live(id.value()) {
            Some(
                Data {
                    id,
                    metadata: self.slot(id.value()).metadata->0,
                    parent: self.slot(id.value()).parent,
                    handles: self.slot(id.value()).handles,
                    children: self.slot(id.value()).children,
                    born: Ghost(self.slot(id.value()).born@),
                },
            )
        } else {
            None
        }
    }

    closed spec fn height(&self, id: Id) -> nat {
        self.slot(id.value()).born@
    }

    proof fn lemma_parent_lower(&self, id: Id) {
        assert(self.live(id.value()));
        assert(self.span_ok(id.value(), None));
    }

    fn span_data(&self, id: &Id) -> (r: Option<Data>) {
        Registry::span_data(self, id)
    }
}

} // verus!
