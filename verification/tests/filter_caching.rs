use span_tracing::callsite::Callsites;
use span_tracing::collect::{Collect, Interest};
use span_tracing::event::Event;
use span_tracing::field::FieldSet;
use span_tracing::metadata::{Identifier, Kind, Level, Metadata};
use span_tracing::span::{Attributes, Current, Id, Record};
use std::sync::atomic::{AtomicUsize, Ordering};
use std::sync::Arc;

/// A collector whose filter counts how often it is evaluated.
struct Counting {
    count: Arc<AtomicUsize>,
}

impl Collect for Counting {
    fn valid(&self) -> bool {
        true
    }

    fn interest_in(&self, meta: Metadata) -> Interest {
        Interest::from_enabled(self.allows(meta))
    }

    fn allows(&self, meta: Metadata) -> bool {
        matches!(meta.name(), "emily" | "frank")
    }

    fn register_callsite(&self, meta: &'static Metadata) -> Interest {
        Interest::from_enabled(self.enabled(meta))
    }

    fn enabled(&self, meta: &Metadata) -> bool {
        match meta.name() {
            "emily" | "frank" => {
                self.count.fetch_add(1, Ordering::Relaxed);
                true
            }
            _ => false,
        }
    }

    fn new_span(&mut self, _attrs: &Attributes<'_>) -> Id {
        Id::from_u64(1)
    }

    fn record(&mut self, _span: &Id, _values: &Record<'_>) {}

    fn record_follows_from(&mut self, _span: &Id, _follows: &Id) {}

    fn event(&mut self, _event: &Event<'_>) {}

    fn enter(&mut self, _span: &Id) {}

    fn exit(&mut self, _span: &Id) {}

    fn clone_span(&mut self, id: &Id) -> Id {
        *id
    }

    fn try_close(&mut self, _id: Id) -> bool {
        false
    }

    fn current_span(&self) -> Current {
        Current::unknown()
    }
}

fn site(name: &'static str, id: u64) -> &'static Metadata {
    let fields = FieldSet::new(&[], Identifier(id));
    Box::leak(Box::new(Metadata::new(
        name,
        "filter_caching",
        Level::TRACE,
        Some("tests/filter_caching.rs"),
        Some(1),
        Some("filter_caching"),
        fields,
        Kind::SPAN,
    )))
}

#[test]
fn filter_caching_is_lexically_scoped() {
    let count = Arc::new(AtomicUsize::new(0));
    let count2 = count.clone();
    let subscriber = [Counting { count: count2 }];
    let mut sites = Callsites::new();
    let emily = site("emily", 1);
    let frank = site("frank", 2);

    let my_great_function =
        |sites: &mut Callsites| sites.is_enabled(emily, &subscriber, &subscriber[0]);
    let my_other_function =
        |sites: &mut Callsites| sites.is_enabled(frank, &subscriber, &subscriber[0]);

    // Call the function once. The filter should be re-evaluated.
    assert!(my_great_function(&mut sites));
    assert_eq!(count.load(Ordering::Relaxed), 1);

    // Call the function again. The cached result should be used.
    assert!(my_great_function(&mut sites));
    assert_eq!(count.load(Ordering::Relaxed), 1);

    assert!(my_other_function(&mut sites));
    assert_eq!(count.load(Ordering::Relaxed), 2);

    assert!(my_great_function(&mut sites));
    assert_eq!(count.load(Ordering::Relaxed), 2);

    assert!(my_other_function(&mut sites));
    assert_eq!(count.load(Ordering::Relaxed), 2);

    assert!(my_great_function(&mut sites));
    assert_eq!(count.load(Ordering::Relaxed), 2);
}
