//! A filter that can be replaced while the collector runs.
use vstd::prelude::*;
use crate::callsite::{all_valid, rebuilt, Callsites};
use crate::collect::{Collect, Interest};
use crate::filter::Filter;
use crate::metadata::Metadata;

verus! {

/// A filter behind an indirection, so that it can be replaced at run time.
///
/// The filter may change at any time, so the interest of a reloadable filter
/// in a callsite is always `Sometimes`: the filter is asked about every span
/// and event.
pub struct ReloadFilter<F> {
    inner: F,
}

/// A handle for replacing the filter of a [`ReloadFilter`]. The handle does
/// not keep the filter alive: once the collector that owns the filter is
/// gone, the handle reaches nothing.
#[derive(Clone, Copy, Debug)]
pub struct Handle {}

/// Why a filter could not be reloaded.
#[derive(Clone, Copy, Debug, PartialEq, Eq, Structural)]
pub struct Error {
    kind: ErrorKind,
}

/// The kinds of [`Error`].
#[derive(Clone, Copy, Debug, PartialEq, Eq, Structural)]
pub enum ErrorKind {
    /// The collector that owned the filter no longer exists.
    SubscriberGone,
}

impl<F: Filter> ReloadFilter<F> {
    /// The filter that decides at present.
    pub closed spec fn current(self) -> F {
        self.inner
    }

    /// A reloadable filter that begins with `f`.
    pub fn new(f: F) -> (r: Self)
        ensures
            r.current() == f,
    {
        ReloadFilter { inner: f }
    }

    /// A handle for replacing the filter.
    pub fn handle(&self) -> (h: Handle) {
        Handle {}
    }
}

impl<F: Filter> Filter for ReloadFilter<F> {
    open spec fn permits(&self, meta: Metadata) -> bool {
        self.current().permits(meta)
    }

    open spec fn interest_in(&self, meta: Metadata) -> Interest {
        Interest::Sometimes
    }

    fn callsite_enabled(&self, meta: &Metadata) -> (r: Interest) {
        Interest::sometimes()
    }

    fn enabled(&self, meta: &Metadata) -> (r: bool) {
        self.inner.enabled(meta)
    }
}

impl Handle {
    /// Replaces the filter by `new_filter`. `target` is the filter that the
    /// handle still reaches, or `None` once its collector is gone; then the
    /// reload fails.
    pub fn reload<F: Filter>(&self, target: Option<&mut ReloadFilter<F>>, new_filter: F) -> (r:
        Result<(), Error>)
        ensures
            match target {
                Some(t) => r is Ok && final(t).current() == new_filter,
                None => r is Err && r->Err_0.spec_kind() == ErrorKind::SubscriberGone,
            },
    {
        match target {
            Some(t) => {
                t.inner = new_filter;
                Ok(())
            },
            None => Err(Error { kind: ErrorKind::SubscriberGone }),
        }
    }

    /// Replaces the filter by what `f` makes of it. `target` is the filter
    /// that the handle still reaches, or `None` once its collector is gone;
    /// then nothing is called and the call fails.
    pub fn modify<F: Filter + Copy, M: FnOnce(F) -> F>(
        &self,
        target: Option<&mut ReloadFilter<F>>,
        f: M,
    ) -> (r: Result<(), Error>)
        requires
            target is Some ==> f.requires((target->0.current(),)),
        ensures
            match target {
                Some(t) => r is Ok && f.ensures((t.current(),), final(t).current()),
                None => r is Err && r->Err_0.spec_kind() == ErrorKind::SubscriberGone,
            },
    {
        match target {
            Some(t) => {
                t.inner = f(t.inner);
                Ok(())
            },
            None => Err(Error { kind: ErrorKind::SubscriberGone }),
        }
    }

    /// A copy of the filter that decides at present, or `None` once its
    /// collector is gone.
    pub fn clone_current<F: Filter + Copy>(&self, target: Option<&ReloadFilter<F>>) -> (r: Option<
        F,
    >)
        ensures
            r == match target {
                Some(t) => Some(t.current()),
                None => None,
            },
    {
        match target {
            Some(t) => Some(t.inner),
            None => None,
        }
    }
}

impl Error {
    /// The kind of the error.
    pub closed spec fn spec_kind(self) -> ErrorKind {
        self.kind
    }

    /// The kind of the error.
    pub fn kind(&self) -> (k: ErrorKind)
        ensures
            k == self.spec_kind(),
    {
        self.kind
    }

    /// Whether the reload failed because the collector was gone.
    pub fn is_dropped(&self) -> (r: bool)
        ensures
            r == (self.spec_kind() == ErrorKind::SubscriberGone),
    {
        matches!(self.kind, ErrorKind::SubscriberGone)
    }

    /// What went wrong, in words.
    pub fn description(&self) -> (text: &'static str)
        ensures
            text@ == "subscriber no longer exists"@,
    {
        match self.kind {
            ErrorKind::SubscriberGone => "subscriber no longer exists",
        }
    }
}

/// What has to follow every reload: the interests cached at the callsites
/// were computed with the filter that is gone, so all of them are computed
/// anew from the collectors as they are now.
pub fn after_reload<C: Collect>(sites: &mut Callsites, collectors: &[C])
    requires
        old(sites).wf(),
        all_valid(collectors@),
    ensures
        final(sites).wf(),
        final(sites).registered() == rebuilt(old(sites).registered(), collectors@),
{
    sites.rebuild_interest_cache(collectors)
}

} // verus!
