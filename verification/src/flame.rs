//! Folded stack samples for flamegraphs.
//!
//! Every time a span is entered or left, one line is produced: the name of
//! the thread, the stack of spans from the root down, and the nanoseconds
//! that have passed since the last line of the same thread.
use vstd::prelude::*;
use crate::metadata::MetadataView;
use crate::registry::{ancestors, span, FromRoot, LookupSpan, SpanData, SpanRef};
use crate::span::Id;
use crate::text::{decimal, push_decimal, push_str};

verus! {

/// How a span shows in a folded stack: `module::name:file:line`, without the
/// parts that its metadata lacks.
pub open spec fn frame_text(meta: MetadataView) -> Seq<char> {
    let module = match meta.module {
        Some(m) => m + "::"@,
        None => Seq::empty(),
    };
    let file = match meta.file {
        Some(f) => ":"@ + f,
        None => Seq::empty(),
    };
    let line = match meta.line {
        Some(n) => ":"@ + decimal(n as nat),
        None => Seq::empty(),
    };
    module + meta.name + file + line
}

/// The name of the thread followed by the frames, each after `"; "`.
pub open spec fn joined(thread: Seq<char>, frames: Seq<Seq<char>>) -> Seq<char>
    decreases frames.len(),
{
    if frames.len() == 0 {
        thread
    } else {
        joined(thread, frames.drop_last()) + "; "@ + frames.last()
    }
}

/// One folded line, without the line break: the stack, a space, and the
/// nanoseconds in decimal.
pub open spec fn folded(thread: Seq<char>, frames: Seq<Seq<char>>, samples: nat) -> Seq<char> {
    joined(thread, frames) + " "@ + decimal(samples)
}

/// The frames of the spans `ids`, which `store` holds.
pub open spec fn frames_of<R: LookupSpan>(store: R, ids: Seq<Id>) -> Seq<Seq<char>> {
    Seq::new(ids.len(), |k: int| frame_text(store.data_of(ids[k])->0.meta()@))
}

/// Appends the frame of a span to `dest`.
pub fn write<R: LookupSpan>(dest: &mut String, span: &SpanRef<'_, R>)
    ensures
        final(dest)@ == old(dest)@ + frame_text(span.content().meta()@),
{
    let meta = span.metadata();
    let ghost start = dest@;
    let ghost view = meta@;
    match meta.module() {
        Some(module) => {
            push_str(dest, module);
            push_str(dest, "::");
        },
        None => {},
    }
    let ghost a = match view.module {
        Some(m) => m + "::"@,
        None => Seq::empty(),
    };
    assert(dest@ =~= start + a);
    push_str(dest, span.name());
    match meta.file() {
        Some(file) => {
            push_str(dest, ":");
            push_str(dest, file);
        },
        None => {},
    }
    let ghost b = match view.file {
        Some(f) => ":"@ + f,
        None => Seq::empty(),
    };
    assert(dest@ =~= start + a + view.name + b);
    match meta.line() {
        Some(line) => {
            push_str(dest, ":");
            push_decimal(dest, line as u128);
        },
        None => {},
    }
    assert(dest@ =~= start + frame_text(view));
}

/// The state of the flamegraph layer for one thread: when the thread
/// produced its last line.
pub struct FlameLayer {
    last_event: u128,
}

impl FlameLayer {
    /// The time of the last line, in nanoseconds since the start of the
    /// process.
    pub closed spec fn last(self) -> u128 {
        self.last_event
    }

    /// A layer for a thread that has produced no line yet. `start` is the
    /// time from which the first line counts, in nanoseconds.
    pub fn new(start: u128) -> (layer: FlameLayer)
        ensures
            layer.last() == start,
    {
        FlameLayer { last_event: start }
    }

    /// The nanoseconds between the last line and `now`, which becomes the
    /// time of the last line. Zero where `now` lies before the last line.
    pub fn time_since_last_event(&mut self, now: u128) -> (samples: u128)
        ensures
            final(self).last() == now,
            samples == if now >= old(self).last() {
                now - old(self).last()
            } else {
                0
            },
    {
        let prev = self.last_event;
        self.last_event = now;
        if now >= prev {
            now - prev
        } else {
            0
        }
    }

    /// The line for entering the span `id` at time `now`: the stack holds
    /// the ancestors of the span, root first, and not the span itself.
    /// `None`, with nothing changed, where `store` does not hold the span.
    pub fn on_enter<R: LookupSpan>(
        &mut self,
        id: &Id,
        store: &R,
        thread_name: &str,
        now: u128,
    ) -> (line: Option<String>)
        requires
            store.consistent(),
        ensures
            store.data_of(*id) is None ==> line is None && *final(self) == *old(self),
            store.data_of(*id) is Some ==> final(self).last() == now && line is Some && line->0@
                == folded(
                thread_name@,
                frames_of(*store, ancestors(*store, *id).reverse()),
                (if now >= old(self).last() {
                    now - old(self).last()
                } else {
                    0
                }) as nat,
            ),
    {
        let first = match span(store, id) {
            Some(first) => first,
            None => {
                return None;
            },
        };
        proof {
            store.lemma_parent_lower(*id);
        }
        let samples = self.time_since_last_event(now);
        let mut parents = first.from_root();
        let mut stack = String::new();
        push_str(&mut stack, thread_name);
        append_frames(&mut stack, &mut parents, Ghost(thread_name@));
        push_str(&mut stack, " ");
        push_decimal(&mut stack, samples);
        Some(stack)
    }

    /// The line for leaving the span `id` at time `now`: the stack holds the
    /// ancestors of the span, root first, and then the span itself. `None`,
    /// with nothing changed, where `store` does not hold the span.
    pub fn on_exit<R: LookupSpan>(
        &mut self,
        id: &Id,
        store: &R,
        thread_name: &str,
        now: u128,
    ) -> (line: Option<String>)
        requires
            store.consistent(),
        ensures
            store.data_of(*id) is None ==> line is None && *final(self) == *old(self),
            store.data_of(*id) is Some ==> final(self).last() == now && line is Some && line->0@
                == folded(
                thread_name@,
                frames_of(*store, ancestors(*store, *id).reverse().push(*id)),
                (if now >= old(self).last() {
                    now - old(self).last()
                } else {
                    0
                }) as nat,
            ),
    {
        let first = match span(store, id) {
            Some(first) => first,
            None => {
                return None;
            },
        };
        proof {
            store.lemma_parent_lower(*id);
        }
        let samples = self.time_since_last_event(now);
        let mut parents = first.from_root();
        let ghost above = ancestors(*store, *id).reverse();
        let mut stack = String::new();
        push_str(&mut stack, thread_name);
        append_frames(&mut stack, &mut parents, Ghost(thread_name@));
        push_str(&mut stack, "; ");
        write(&mut stack, &first);
        proof {
            let all = frames_of(*store, above.push(*id));
            assert(all.drop_last() =~= frames_of(*store, above));
            assert(all.last() == frame_text(first.content().meta()@));
        }
        push_str(&mut stack, " ");
        push_decimal(&mut stack, samples);
        Some(stack)
    }
}

/// Appends the frames of the spans that `parents` still has to hand out,
/// each after `"; "`.
fn append_frames<R: LookupSpan>(
    dest: &mut String,
    parents: &mut FromRoot<'_, R>,
    Ghost(thread): Ghost<Seq<char>>,
)
    requires
        old(parents).wf(),
        old(dest)@ == thread,
    ensures
        final(dest)@ == joined(thread, frames_of(old(parents).store(), old(parents).pending())),
{
    let ghost store = parents.store();
    let ghost all = parents.pending();
    let ghost done: Seq<Id> = Seq::empty();
    assert(frames_of(store, done) =~= Seq::<Seq<char>>::empty());
    loop
        invariant
            parents.wf(),
            parents.store() == store,
            done + parents.pending() == all,
            dest@ == joined(thread, frames_of(store, done)),
        ensures
            dest@ == joined(thread, frames_of(store, all)),
        decreases parents.pending().len(),
    {
        let ghost before = parents.pending();
        match parents.next() {
            Some(parent) => {
                push_str(dest, "; ");
                write(dest, &parent);
                proof {
                    let grown = done.push(before[0]);
                    assert(frames_of(store, grown).drop_last() =~= frames_of(store, done));
                    assert(frames_of(store, grown).last() == frame_text(
                        parent.content().meta()@,
                    ));
                    assert(grown + parents.pending() =~= done + before);
                    done = grown;
                }
            },
            None => {
                proof {
                    assert(done + parents.pending() =~= done);
                }
                break ;
            },
        }
    }
}

} // verus!
