//! Dispatchers: handles to collectors, and the choice of the collector that
//! instrumentation reaches.
//!
//! One dispatcher can be installed for the whole process, once. On top of it
//! an execution context can install dispatchers for the duration of a scope;
//! scopes nest, and the innermost one wins.
use vstd::prelude::*;
use crate::callsite::{all_valid, Callsites};
use crate::collect::{Call, Collect, Interest};
use crate::event::Event;
use crate::field::ValueSet;
use crate::instrument::decided;
use crate::metadata::Metadata;
use crate::span::{Attributes, Current, Id, Parent, Record};

verus! {

/// A handle to a collector. Two handles are the same dispatcher exactly when
/// their tokens are equal.
pub struct Dispatch<C> {
    token: u64,
    collector: C,
}

impl<C: Collect> Dispatch<C> {
    /// The token that tells this dispatcher from others.
    pub closed spec fn identity(self) -> u64 {
        self.token
    }

    /// The collector behind the handle.
    pub closed spec fn target(self) -> C {
        self.collector
    }

    /// A handle to `collector`, known by `token`.
    pub fn new(token: u64, collector: C) -> (d: Self)
        ensures
            d.identity() == token,
            d.target() == collector,
    {
        Dispatch { token, collector }
    }

    /// The token that tells this dispatcher from others.
    pub fn token(&self) -> (t: u64)
        ensures
            t == self.identity(),
    {
        self.token
    }

    /// Whether `other` is this dispatcher.
    pub fn is(&self, other: &Dispatch<C>) -> (same: bool)
        ensures
            same == (self.identity() == other.identity()),
    {
        self.token == other.token
    }

    /// The collector behind the handle.
    pub fn collector(&self) -> (c: &C)
        ensures
            *c == self.target(),
    {
        &self.collector
    }

    /// The handle taken apart: its collector.
    pub fn into_collector(self) -> (c: C)
        ensures
            c == self.target(),
    {
        self.collector
    }
}

impl<C: Collect> Collect for Dispatch<C> {
    open spec fn valid(&self) -> bool {
        self.target().valid()
    }

    open spec fn received(&self) -> Seq<Call> {
        self.target().received()
    }

    open spec fn tracks_current(&self) -> bool {
        self.target().tracks_current()
    }

    open spec fn current(&self) -> Option<(Id, Metadata)> {
        self.target().current()
    }

    open spec fn interest_in(&self, meta: Metadata) -> Interest {
        self.target().interest_in(meta)
    }

    open spec fn allows(&self, meta: Metadata) -> bool {
        self.target().allows(meta)
    }

    fn register_callsite(&self, meta: &'static Metadata) -> (r: Interest) {
        self.collector.register_callsite(meta)
    }

    fn enabled(&self, meta: &Metadata) -> (r: bool) {
        self.collector.enabled(meta)
    }

    fn new_span(&mut self, attrs: &Attributes<'_>) -> (id: Id)
        ensures
            final(self).identity() == old(self).identity(),
    {
        self.collector.new_span(attrs)
    }

    fn record(&mut self, span: &Id, values: &Record<'_>)
        ensures
            final(self).identity() == old(self).identity(),
    {
        self.collector.record(span, values)
    }

    fn record_follows_from(&mut self, span: &Id, follows: &Id)
        ensures
            final(self).identity() == old(self).identity(),
    {
        self.collector.record_follows_from(span, follows)
    }

    fn event(&mut self, event: &Event<'_>)
        ensures
            final(self).identity() == old(self).identity(),
    {
        self.collector.event(event)
    }

    fn enter(&mut self, span: &Id)
        ensures
            final(self).identity() == old(self).identity(),
    {
        self.collector.enter(span)
    }

    fn exit(&mut self, span: &Id)
        ensures
            final(self).identity() == old(self).identity(),
    {
        self.collector.exit(span)
    }

    fn clone_span(&mut self, id: &Id) -> (r: Id)
        ensures
            final(self).identity() == old(self).identity(),
    {
        self.collector.clone_span(id)
    }

    fn try_close(&mut self, id: Id) -> (closed: bool)
        ensures
            final(self).identity() == old(self).identity(),
    {
        self.collector.try_close(id)
    }

    fn current_span(&self) -> (current: Current) {
        self.collector.current_span()
    }
}

/// Why a dispatcher could not be installed for the whole process.
#[derive(Clone, Copy, Debug, PartialEq, Eq, Structural)]
pub enum SetGlobalDefaultError {
    /// A dispatcher for the whole process has been installed before.
    AlreadySet,
}

/// The dispatchers that are installed: at most one for the whole process,
/// and those of the scopes that the execution context is inside of,
/// outermost first.
pub struct Defaults<C> {
    /// The dispatcher of the process, if there is one, and after it those of
    /// the open scopes.
    installed: Vec<Dispatch<C>>,
    has_global: bool,
}

impl<C: Collect> Defaults<C> {
    /// Every installed dispatcher: that of the whole process first, if there
    /// is one, then those of the open scopes, outermost first.
    pub closed spec fn all(self) -> Seq<Dispatch<C>> {
        self.installed@
    }

    /// The invariant of the defaults.
    pub closed spec fn wf(self) -> bool {
        self.has_global ==> self.installed@.len() >= 1
    }

    /// The dispatcher of the whole process, if one is installed.
    pub closed spec fn global(self) -> Option<Dispatch<C>> {
        if self.has_global {
            Some(self.installed@[0])
        } else {
            None
        }
    }

    /// The dispatchers of the open scopes, outermost first.
    pub closed spec fn scopes(self) -> Seq<Dispatch<C>> {
        if self.has_global {
            self.installed@.subrange(1, self.installed@.len() as int)
        } else {
            self.installed@
        }
    }

    /// The dispatcher that instrumentation reaches: that of the innermost
    /// scope, else that of the whole process, else none, which stands for a
    /// dispatcher that does nothing.
    pub open spec fn effective(self) -> Option<Dispatch<C>> {
        if self.scopes().len() > 0 {
            Some(self.scopes().last())
        } else {
            self.global()
        }
    }

    /// The installed dispatchers are that of the process followed by those
    /// of the scopes, and the effective one is the last of them.
    pub proof fn lemma_all(self)
        requires
            self.wf(),
        ensures
            self.all() == match self.global() {
                Some(g) => seq![g] + self.scopes(),
                None => self.scopes(),
            },
            self.effective() == if self.all().len() > 0 {
                Some(self.all().last())
            } else {
                None
            },
    {
        if self.has_global {
            assert(self.installed@ =~= seq![self.installed@[0]] + self.installed@.subrange(
                1,
                self.installed@.len() as int,
            ));
        }
    }

    /// Entering a scope with `d` makes `d` the effective dispatcher, and
    /// leaving the scope brings back the one that was effective before.
    pub proof fn lemma_scope(self, inside: Self, after: Self, d: Dispatch<C>)
        requires
            inside.global() == self.global(),
            inside.scopes() == self.scopes().push(d),
            after.global() == inside.global(),
            after.scopes() == inside.scopes().drop_last(),
        ensures
            inside.effective() == Some(d),
            after.effective() == self.effective(),
            after.scopes() == self.scopes(),
    {
        assert(self.scopes().push(d).drop_last() =~= self.scopes());
    }

    /// Nothing installed.
    pub fn new() -> (r: Self)
        ensures
            r.wf(),
            r.global() is None,
            r.scopes() == Seq::<Dispatch<C>>::empty(),
            r.all() == Seq::<Dispatch<C>>::empty(),
    {
        Defaults { installed: Vec::new(), has_global: false }
    }

    /// Installs `dispatch` for the whole process. This can be done once:
    /// later attempts fail and change nothing.
    pub fn set_global_default(&mut self, dispatch: Dispatch<C>) -> (r: Result<
        (),
        SetGlobalDefaultError,
    >)
        requires
            old(self).wf(),
        ensures
            final(self).wf(),
            final(self).scopes() == old(self).scopes(),
            old(self).global() is None ==> r is Ok && final(self).global() == Some(dispatch),
            old(self).global() is Some ==> r == Err::<(), SetGlobalDefaultError>(
                SetGlobalDefaultError::AlreadySet,
            ) && final(self).global() == old(self).global(),
    {
        if self.has_global {
            Err(SetGlobalDefaultError::AlreadySet)
        } else {
            self.installed.insert(0, dispatch);
            self.has_global = true;
            assert(self.installed@.subrange(1, self.installed@.len() as int) =~= old(self).installed@);
            Ok(())
        }
    }

    /// Opens a scope in which `dispatch` is the effective dispatcher.
    pub fn enter_scope(&mut self, dispatch: Dispatch<C>)
        requires
            old(self).wf(),
        ensures
            final(self).wf(),
            final(self).global() == old(self).global(),
            final(self).scopes() == old(self).scopes().push(dispatch),
            final(self).effective() == Some(dispatch),
    {
        self.installed.push(dispatch);
        assert(self.scopes() =~= old(self).scopes().push(dispatch));
    }

    /// Closes the innermost scope and hands back its dispatcher, so that the
    /// dispatcher that was effective before the scope is effective again.
    /// `None`, with nothing changed, where no scope is open.
    pub fn exit_scope(&mut self) -> (r: Option<Dispatch<C>>)
        requires
            old(self).wf(),
        ensures
            final(self).wf(),
            final(self).global() == old(self).global(),
            old(self).scopes().len() == 0 ==> r is None && final(self).scopes() == old(self).scopes(),
            old(self).scopes().len() > 0 ==> r == Some(old(self).scopes().last()) && final(self).scopes() == old(self).scopes().drop_last(),
    {
        let least: usize = if self.has_global {
            1
        } else {
            0
        };
        if self.installed.len() > least {
            let r = self.installed.pop();
            assert(self.scopes() =~= old(self).scopes().drop_last());
            r
        } else {
            assert(old(self).scopes().len() == 0);
            None
        }
    }

    /// The effective dispatcher: that of the innermost scope, else that of
    /// the whole process; `None` where nothing is installed.
    pub fn get_default(&self) -> (r: Option<&Dispatch<C>>)
        requires
            self.wf(),
        ensures
            match r {
                Some(d) => self.effective() == Some(*d),
                None => self.effective() is None,
            },
    {
        proof {
            self.lemma_all();
        }
        let n = self.installed.len();
        if n > 0 {
            Some(&self.installed[n - 1])
        } else {
            None
        }
    }

    /// Every installed dispatcher: the collectors whose interests are
    /// combined at the callsites.
    pub fn dispatchers(&self) -> (r: &[Dispatch<C>])
        ensures
            r@ == self.all(),
    {
        self.installed.as_slice()
    }

    /// Runs `f` in a scope in which `dispatch` is the effective dispatcher.
    /// Afterwards everything is as it was before, and the dispatcher is
    /// handed back together with what `f` returned.
    pub fn with_default<R, F: FnOnce(&Defaults<C>) -> R>(
        &mut self,
        dispatch: Dispatch<C>,
        f: F,
    ) -> (r: (Dispatch<C>, R))
        requires
            old(self).wf(),
            forall|inside: Defaults<C>|
                inside.wf() && inside.effective() == Some(dispatch) && inside.global() == old(self).global() && inside.scopes() == old(self).scopes().push(dispatch)
                    ==> f.requires((&inside,)),
        ensures
            final(self).wf(),
            final(self).global() == old(self).global(),
            final(self).scopes() == old(self).scopes(),
            final(self).effective() == old(self).effective(),
            r.0 == dispatch,
            exists|inside: Defaults<C>|
                inside.wf() && inside.effective() == Some(dispatch) && inside.global() == old(self).global() && inside.scopes() == old(self).scopes().push(dispatch) && f.ensures(
                    (&inside,),
                    r.1,
                ),
    {
        self.enter_scope(dispatch);
        let out = f(&*self);
        let back = self.exit_scope();
        assert(old(self).scopes().push(dispatch).drop_last() =~= old(self).scopes());
        match back {
            Some(d) => (d, out),
            None => vstd::pervasive::unreached(),
        }
    }

    /// A span begins at a callsite. Where the callsite is enabled, the
    /// effective dispatcher is told of the new span and the identifier it
    /// gives is returned; where it is not, or where no dispatcher is
    /// installed, nothing is told to anyone and `None` is returned.
    pub fn new_span(
        &mut self,
        sites: &mut Callsites,
        meta: &'static Metadata,
        values: &ValueSet<'_>,
    ) -> (made: Option<Id>)
        requires
            old(self).wf(),
            old(sites).wf(),
            all_valid(old(self).all()),
        ensures
            final(self).wf(),
            final(sites).wf(),
            all_valid(final(self).all()),
            final(self).all().len() == old(self).all().len(),
            old(self).all().len() == 0 ==> made is None && final(self).all() == old(self).all()
                && final(sites).registered() == old(sites).registered(),
            old(self).all().len() > 0 ==> {
                &&& made is Some <==> decided(
                    final(sites).cached(meta.spec_callsite()),
                    old(self).all().last().allows(*meta),
                )
                &&& made is None ==> final(self).all() == old(self).all()
                &&& made is Some ==> final(self).all().drop_last() == old(self).all().drop_last()
                    && final(self).all().last().received() == old(self).all().last().received().push(
                    Call::NewSpan {
                        metadata: *meta,
                        parent: Parent::Current,
                        values: values.recorded(),
                        id: made->0,
                    },
                )
            },
    {
        let n = self.installed.len();
        if n == 0 {
            return None;
        }
        let made = crate::instrument::new_span(sites, &mut self.installed, n - 1, meta, values);
        proof {
            if made is Some {
                assert(self.all().drop_last() =~= old(self).all().drop_last());
            }
        }
        made
    }

    /// An event happens at a callsite. Where the callsite is enabled, the
    /// effective dispatcher is told of it and `true` is returned; where it is
    /// not, or where no dispatcher is installed, nothing is told to anyone
    /// and `false` is returned.
    pub fn event(
        &mut self,
        sites: &mut Callsites,
        meta: &'static Metadata,
        values: &ValueSet<'_>,
    ) -> (sent: bool)
        requires
            old(self).wf(),
            old(sites).wf(),
            all_valid(old(self).all()),
        ensures
            final(self).wf(),
            final(sites).wf(),
            all_valid(final(self).all()),
            final(self).all().len() == old(self).all().len(),
            old(self).all().len() == 0 ==> !sent && final(self).all() == old(self).all() && final(sites).registered() == old(sites).registered(),
            old(self).all().len() > 0 ==> {
                &&& sent == decided(
                    final(sites).cached(meta.spec_callsite()),
                    old(self).all().last().allows(*meta),
                )
                &&& !sent ==> final(self).all() == old(self).all()
                &&& sent ==> final(self).all().drop_last() == old(self).all().drop_last() && final(self).all().last().received() == old(self).all().last().received().push(
                    Call::Event {
                        metadata: *meta,
                        parent: Parent::Current,
                        values: values.recorded(),
                    },
                )
            },
    {
        let n = self.installed.len();
        if n == 0 {
            return false;
        }
        let sent = crate::instrument::event(sites, &mut self.installed, n - 1, meta, values);
        proof {
            if sent {
                assert(self.all().drop_last() =~= old(self).all().drop_last());
            }
        }
        sent
    }
}

} // verus!
