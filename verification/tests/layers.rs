use span_tracing::callsite::Callsites;
use span_tracing::collect::{Collect, Interest};
use span_tracing::dispatch::{Defaults, Dispatch, SetGlobalDefaultError};
use span_tracing::event::Event;
use span_tracing::field::{Field, FieldSet, Value, ValueSet};
use span_tracing::filter::reload::{after_reload, ErrorKind, Handle, ReloadFilter};
use span_tracing::filter::{Filter, Filtered, LevelFilter};
use span_tracing::instrument;
use span_tracing::layer::{Context, Layer, Layered};
use span_tracing::metadata::{Identifier, Kind, Level, Metadata};
use span_tracing::registry::sharded::Registry;
use span_tracing::registry::LookupSpan;
use span_tracing::span::{Attributes, Id, Record};
use std::cell::Cell;
use std::rc::Rc;

fn site(name: &'static str, target: &'static str, level: Level, id: u64) -> &'static Metadata {
    Box::leak(Box::new(Metadata::new(
        name,
        target,
        level,
        None,
        None,
        None,
        FieldSet::new(&[], Identifier(id)),
        Kind::EVENT,
    )))
}

fn no_values() -> ValueSet<'static> {
    let none: &'static [(Field, Option<Value<'static>>)] = &[];
    ValueSet::new(FieldSet::new(&[], Identifier(0)), none)
}

/// A layer that disables the callsites of one target.
struct Deny {
    target: &'static str,
}

impl<S: Collect> Layer<S> for Deny {
    fn interest_in(&self, _meta: Metadata) -> Interest {
        Interest::Sometimes
    }

    fn allows(&self, meta: Metadata) -> bool {
        meta.target() != self.target
    }

    fn register_callsite(&self, _meta: &'static Metadata) -> Interest {
        Interest::sometimes()
    }

    fn enabled(&self, meta: &Metadata, _ctx: Context<'_, S>) -> bool {
        meta.target() != self.target
    }

    fn new_span(&mut self, _attrs: &Attributes<'_>, _id: &Id, _ctx: Context<'_, S>) {}

    fn on_record(&mut self, _span: &Id, _values: &Record<'_>, _ctx: Context<'_, S>) {}

    fn on_follows_from(&mut self, _span: &Id, _follows: &Id, _ctx: Context<'_, S>) {}

    fn on_event(&mut self, _event: &Event<'_>, _ctx: Context<'_, S>) {}

    fn on_enter(&mut self, _id: &Id, _ctx: Context<'_, S>) {}

    fn on_exit(&mut self, _id: &Id, _ctx: Context<'_, S>) {}

    fn on_close(&mut self, _id: Id, _ctx: Context<'_, S>) {}

    fn on_id_change(&mut self, _from: &Id, _to: &Id, _ctx: Context<'_, S>) {}
}

/// A layer that writes down what it is told.
#[derive(Default)]
struct Count {
    events: Vec<&'static str>,
    spans: Vec<u64>,
    entered: Vec<u64>,
    exited: Vec<u64>,
    closed: Vec<u64>,
    parents_seen: Vec<Option<u64>>,
}

impl<S: Collect + LookupSpan> Layer<S> for Count {
    fn interest_in(&self, _meta: Metadata) -> Interest {
        Interest::Always
    }

    fn allows(&self, _meta: Metadata) -> bool {
        true
    }

    fn register_callsite(&self, _meta: &'static Metadata) -> Interest {
        Interest::always()
    }

    fn enabled(&self, _meta: &Metadata, _ctx: Context<'_, S>) -> bool {
        true
    }

    fn new_span(&mut self, _attrs: &Attributes<'_>, id: &Id, ctx: Context<'_, S>) {
        self.spans.push(id.into_u64());
        let parent = ctx.span(id).and_then(|s| s.parent_id().map(|p| p.into_u64()));
        self.parents_seen.push(parent);
    }

    fn on_record(&mut self, _span: &Id, _values: &Record<'_>, _ctx: Context<'_, S>) {}

    fn on_follows_from(&mut self, _span: &Id, _follows: &Id, _ctx: Context<'_, S>) {}

    fn on_event(&mut self, event: &Event<'_>, _ctx: Context<'_, S>) {
        self.events.push(event.metadata().target());
    }

    fn on_enter(&mut self, id: &Id, _ctx: Context<'_, S>) {
        self.entered.push(id.into_u64());
    }

    fn on_exit(&mut self, id: &Id, _ctx: Context<'_, S>) {
        self.exited.push(id.into_u64());
    }

    fn on_close(&mut self, id: Id, _ctx: Context<'_, S>) {
        self.closed.push(id.into_u64());
    }

    fn on_id_change(&mut self, _from: &Id, _to: &Id, _ctx: Context<'_, S>) {}
}

type Stack = Layered<Deny, Layered<Count, Registry>>;

fn stack() -> Stack {
    Layered::new(Deny { target: "quiet" }, Layered::new(Count::default(), Registry::new()))
}

#[test]
fn a_layer_that_denies_keeps_events_from_the_layers_below() {
    let mut sites = Callsites::new();
    let mut collectors = vec![stack()];
    let quiet = site("e", "quiet", Level::INFO, 1);
    let loud = site("e", "loud", Level::INFO, 2);
    let values = no_values();

    assert!(!instrument::event(&mut sites, &mut collectors, 0, quiet, &values));
    assert!(instrument::event(&mut sites, &mut collectors, 0, loud, &values));
    assert!(!instrument::event(&mut sites, &mut collectors, 0, quiet, &values));

    let count = collectors[0].inner().layer();
    assert_eq!(count.events, vec!["loud"]);
}

#[test]
fn a_stack_is_enabled_only_where_every_part_is() {
    let s = stack();
    assert!(!s.enabled(site("e", "quiet", Level::INFO, 1)));
    assert!(s.enabled(site("e", "loud", Level::INFO, 2)));
    // the interest of a stack is the lowest of its parts
    assert_eq!(s.register_callsite(site("e", "loud", Level::INFO, 2)), Interest::Sometimes);
    let plain = Layered::new(Count::default(), Registry::new());
    assert_eq!(plain.register_callsite(site("e", "x", Level::INFO, 3)), Interest::Always);
    let off = Layered::new(Filtered::new(LevelFilter::off()), Registry::new());
    assert_eq!(off.register_callsite(site("e", "x", Level::INFO, 3)), Interest::Never);
    assert!(!off.enabled(site("e", "x", Level::INFO, 3)));
}

#[test]
fn layers_see_the_callbacks_and_the_base_gives_the_identifiers() {
    let mut s = Layered::new(Count::default(), Registry::new());
    let m = site("span", "x", Level::INFO, 1);
    let values = no_values();
    let a = s.new_span(&Attributes::new(m, &values));
    assert_eq!(a.into_u64(), 1);
    s.enter(&a);
    let b = s.new_span(&Attributes::new(m, &values));
    s.exit(&a);
    assert_eq!(s.clone_span(&b), b);
    assert!(!s.try_close(b));
    assert!(!s.try_close(a));
    assert!(s.try_close(b));
    s.event(&Event::new(m, &values));

    let count = s.layer();
    assert_eq!(count.spans, vec![a.into_u64(), b.into_u64()]);
    // the layer finds the new span, with its parent, in the registry below
    assert_eq!(count.parents_seen, vec![None, Some(1)]);
    assert_eq!(count.entered, vec![1]);
    assert_eq!(count.exited, vec![1]);
    assert_eq!(count.closed, vec![b.into_u64()]);
    assert_eq!(count.events, vec!["x"]);
    assert!(s.inner().span_data(&a).is_none());
    assert!(s.span_data(&b).is_none());
}

#[test]
fn a_context_without_a_collector_knows_nothing() {
    let ctx: Context<'_, Registry> = Context::none();
    assert!(!ctx.current_span().is_known());
    assert!(!ctx.enabled(site("e", "x", Level::INFO, 1)));
    assert!(ctx.span(&Id::from_u64(1)).is_none());
    assert!(ctx.lookup_current().is_none());

    let mut registry = Registry::new();
    let m = site("s", "x", Level::INFO, 1);
    let values = no_values();
    let a = registry.new_span(&Attributes::new(m, &values));
    registry.enter(&a);
    let ctx = Context::new(&registry);
    assert_eq!(ctx.current_span().id(), Some(&a));
    assert!(ctx.enabled(m));
    assert_eq!(ctx.span(&a).unwrap().name(), "s");
    assert_eq!(ctx.lookup_current().unwrap().id(), a);
}

#[test]
fn level_filter_enables_up_to_its_level() {
    let info = LevelFilter::up_to(Level::INFO);
    assert!(info.enabled(site("e", "x", Level::ERROR, 1)));
    assert!(info.enabled(site("e", "x", Level::INFO, 1)));
    assert!(!info.enabled(site("e", "x", Level::DEBUG, 1)));
    assert_eq!(info.callsite_enabled(site("e", "x", Level::WARN, 1)), Interest::Always);
    assert_eq!(info.callsite_enabled(site("e", "x", Level::TRACE, 1)), Interest::Never);
    assert!(!LevelFilter::off().enabled(site("e", "x", Level::ERROR, 1)));
}

/// A filter that counts how often it is asked.
#[derive(Clone)]
struct Counted {
    answer: bool,
    calls: Rc<Cell<usize>>,
}

impl Filter for Counted {
    fn permits(&self, _meta: Metadata) -> bool {
        self.answer
    }

    fn interest_in(&self, _meta: Metadata) -> Interest {
        Interest::from_enabled(self.answer)
    }

    fn callsite_enabled(&self, meta: &Metadata) -> Interest {
        Interest::from_enabled(self.enabled(meta))
    }

    fn enabled(&self, _meta: &Metadata) -> bool {
        self.calls.set(self.calls.get() + 1);
        self.answer
    }
}

#[test]
fn reload_handle() {
    let filter1_calls = Rc::new(Cell::new(0));
    let filter2_calls = Rc::new(Cell::new(0));
    let filter1 = Counted { answer: true, calls: filter1_calls.clone() };
    let filter2 = Counted { answer: true, calls: filter2_calls.clone() };

    let reloadable = ReloadFilter::new(filter1);
    let handle = reloadable.handle();
    let mut collectors = vec![Layered::new(Filtered::new(reloadable), Registry::new())];
    let mut sites = Callsites::new();
    let meta = site("my event", "reload", Level::TRACE, 1);
    let values = no_values();

    assert_eq!(filter1_calls.get(), 0);
    assert_eq!(filter2_calls.get(), 0);

    assert!(instrument::event(&mut sites, &mut collectors, 0, meta, &values));

    assert_eq!(filter1_calls.get(), 1);
    assert_eq!(filter2_calls.get(), 0);

    handle
        .reload(Some(collectors[0].layer_mut().filter_mut()), filter2)
        .expect("should reload");
    after_reload(&mut sites, &collectors);

    assert!(instrument::event(&mut sites, &mut collectors, 0, meta, &values));

    assert_eq!(filter1_calls.get(), 1);
    assert_eq!(filter2_calls.get(), 1);
}

#[test]
fn after_a_reload_the_new_filter_decides() {
    let calls1 = Rc::new(Cell::new(0));
    let calls2 = Rc::new(Cell::new(0));
    let f1 = Counted { answer: true, calls: calls1.clone() };
    let f2 = Counted { answer: false, calls: calls2.clone() };
    let mut collectors =
        vec![Layered::new(Filtered::new(ReloadFilter::new(f1)), Layered::new(Count::default(), Registry::new()))];
    let mut sites = Callsites::new();
    let e1 = site("e1", "first", Level::INFO, 1);
    let e2 = site("e2", "second", Level::INFO, 1);
    let values = no_values();

    assert!(instrument::event(&mut sites, &mut collectors, 0, e1, &values));
    assert_eq!((calls1.get(), calls2.get()), (1, 0));

    // swap the filter in place
    let handle = collectors[0].layer().filter().handle();
    assert!(handle.reload(Some(collectors[0].layer_mut().filter_mut()), f2).is_ok());
    after_reload(&mut sites, &collectors);

    assert!(!instrument::event(&mut sites, &mut collectors, 0, e2, &values));
    assert_eq!((calls1.get(), calls2.get()), (1, 1));
    // the collector below has received exactly the first event
    assert_eq!(collectors[0].inner().layer().events, vec!["first"]);
}

#[test]
fn a_handle_without_its_collector_cannot_reload() {
    let handle = ReloadFilter::new(LevelFilter::off()).handle();
    let gone: Option<&mut ReloadFilter<LevelFilter>> = None;
    let err = handle.reload(gone, LevelFilter::up_to(Level::INFO)).unwrap_err();
    assert_eq!(err.kind(), ErrorKind::SubscriberGone);
    assert!(err.is_dropped());
    assert_eq!(err.description(), "subscriber no longer exists");
    assert!(handle.modify(None, |f: LevelFilter| f).is_err());
    assert_eq!(handle.clone_current::<LevelFilter>(None), None);
    let _copy: Handle = handle;
}

#[test]
fn a_handle_changes_the_filter_in_place() {
    let mut filter = ReloadFilter::new(LevelFilter::off());
    let handle = filter.handle();
    let m = site("e", "x", Level::INFO, 1);
    assert!(!filter.enabled(m));
    assert_eq!(filter.callsite_enabled(m), Interest::Sometimes);
    assert!(handle.reload(Some(&mut filter), LevelFilter::up_to(Level::INFO)).is_ok());
    assert!(filter.enabled(m));
    assert_eq!(handle.clone_current(Some(&filter)), Some(LevelFilter::up_to(Level::INFO)));
    assert!(handle.modify(Some(&mut filter), |_| LevelFilter::up_to(Level::ERROR)).is_ok());
    assert!(!filter.enabled(m));
    assert_eq!(filter.callsite_enabled(m), Interest::Sometimes);
}

#[test]
fn the_global_default_can_be_set_once() {
    let mut defaults: Defaults<Registry> = Defaults::new();
    assert!(defaults.get_default().is_none());
    assert!(defaults.set_global_default(Dispatch::new(1, Registry::new())).is_ok());
    assert_eq!(defaults.get_default().unwrap().token(), 1);
    let err = defaults.set_global_default(Dispatch::new(2, Registry::new())).unwrap_err();
    assert_eq!(err, SetGlobalDefaultError::AlreadySet);
    assert_eq!(defaults.get_default().unwrap().token(), 1);
}

#[test]
fn a_scoped_default_wins_and_is_undone() {
    let mut defaults: Defaults<Registry> = Defaults::new();
    defaults.set_global_default(Dispatch::new(1, Registry::new())).unwrap();

    let (back, inside) = defaults.with_default(Dispatch::new(7, Registry::new()), |d| {
        d.get_default().unwrap().token()
    });
    assert_eq!(inside, 7);
    assert_eq!(back.token(), 7);
    assert_eq!(defaults.get_default().unwrap().token(), 1);

    // scopes nest
    defaults.enter_scope(Dispatch::new(2, Registry::new()));
    assert_eq!(defaults.get_default().unwrap().token(), 2);
    defaults.enter_scope(Dispatch::new(3, Registry::new()));
    assert_eq!(defaults.get_default().unwrap().token(), 3);
    assert_eq!(defaults.exit_scope().unwrap().token(), 3);
    assert_eq!(defaults.get_default().unwrap().token(), 2);
    assert_eq!(defaults.exit_scope().unwrap().token(), 2);
    assert_eq!(defaults.get_default().unwrap().token(), 1);
    assert!(defaults.exit_scope().is_none());
    assert_eq!(defaults.get_default().unwrap().token(), 1);
}

#[test]
fn a_dispatcher_passes_everything_on() {
    let mut d = Dispatch::new(5, Registry::new());
    let m = site("s", "x", Level::INFO, 1);
    let values = no_values();
    assert!(d.enabled(m));
    assert!(d.register_callsite(m).is_always());
    let id = d.new_span(&Attributes::new(m, &values));
    d.enter(&id);
    assert_eq!(d.current_span().id(), Some(&id));
    d.exit(&id);
    assert_eq!(d.clone_span(&id), id);
    assert!(!d.try_close(id));
    assert!(d.try_close(id));
    assert!(d.is(&Dispatch::new(5, Registry::new())));
    assert!(!d.is(&Dispatch::new(6, Registry::new())));
    assert!(d.collector().span_data(&id).is_none());
    assert!(d.into_collector().can_open());
    let (layer, base) = Layered::new(Filtered::new(LevelFilter::off()), Registry::new()).into_parts();
    assert_eq!(*layer.filter(), LevelFilter::off());
    assert!(base.can_open());
}

#[test]
fn a_span_begins_only_where_its_callsite_is_enabled() {
    let mut sites = Callsites::new();
    let mut collectors = vec![stack()];
    let values = no_values();
    let quiet = site("s", "quiet", Level::INFO, 1);
    let loud = site("s", "loud", Level::INFO, 2);
    assert!(instrument::new_span(&mut sites, &mut collectors, 0, quiet, &values).is_none());
    let id = instrument::new_span(&mut sites, &mut collectors, 0, loud, &values).unwrap();
    assert_eq!(collectors[0].inner().layer().spans, vec![id.into_u64()]);
    assert!(collectors[0].inner().inner().span_data(&id).is_some());
}

#[test]
fn instrumentation_reaches_the_effective_dispatcher() {
    let mut sites = Callsites::new();
    let mut defaults: Defaults<Layered<Count, Registry>> = Defaults::new();
    let values = no_values();
    let m = site("s", "x", Level::INFO, 1);

    // nothing installed: nothing happens
    assert!(defaults.new_span(&mut sites, m, &values).is_none());
    assert!(!defaults.event(&mut sites, m, &values));
    assert_eq!(sites.len(), 0);
    assert!(defaults.dispatchers().is_empty());

    let global = Dispatch::new(1, Layered::new(Count::default(), Registry::new()));
    defaults.set_global_default(global).unwrap();
    assert!(defaults.event(&mut sites, m, &values));
    assert_eq!(defaults.get_default().unwrap().collector().layer().events, vec!["x"]);

    // a scope takes over, and only its dispatcher is told
    defaults.enter_scope(Dispatch::new(2, Layered::new(Count::default(), Registry::new())));
    assert_eq!(defaults.dispatchers().len(), 2);
    let id = defaults.new_span(&mut sites, m, &values).unwrap();
    assert!(defaults.event(&mut sites, m, &values));
    let scoped = defaults.exit_scope().unwrap();
    assert_eq!(scoped.token(), 2);
    assert_eq!(scoped.collector().layer().spans, vec![id.into_u64()]);
    assert_eq!(scoped.collector().layer().events, vec!["x"]);
    let global = defaults.get_default().unwrap();
    assert_eq!(global.token(), 1);
    assert_eq!(global.collector().layer().events, vec!["x"]);
    assert!(global.collector().layer().spans.is_empty());
    assert_eq!(sites.len(), 1);
}

#[test]
fn the_global_default_goes_below_the_open_scopes() {
    let mut defaults: Defaults<Registry> = Defaults::new();
    defaults.enter_scope(Dispatch::new(5, Registry::new()));
    assert!(defaults.set_global_default(Dispatch::new(1, Registry::new())).is_ok());
    assert_eq!(defaults.get_default().unwrap().token(), 5);
    assert_eq!(defaults.exit_scope().unwrap().token(), 5);
    assert_eq!(defaults.get_default().unwrap().token(), 1);
    assert!(defaults.exit_scope().is_none());
}
