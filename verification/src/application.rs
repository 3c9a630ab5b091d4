//! Application controller: ties the event store, the event bus, the layer filter and a
//! data source together.

use vstd::prelude::*;
use crate::event_bus::{EventBus, EventContext, EventSubscriber};
use crate::event_store::EventStore;
use crate::model::{same_metadata, ErrorCode, FileMetadata, Layers, Trace, TramexError};

verus! {

/// Kind of a data source, for display.
#[derive(Clone, Debug)]
pub enum DataSourceType {
    /// A capture file
    File {
        /// Path to the file
        path: String,
        /// Whether the file is fully loaded
        fully_loaded: bool,
    },
    /// A live WebSocket connection
    WebSocket {
        /// URL of the server
        url: String,
        /// Whether the connection is established
        connected: bool,
    },
}

/// Strategy for loading a file.
#[derive(Clone, Copy, PartialEq, Eq, Structural, Debug)]
pub enum FileLoadingStrategy {
    /// Load the entire file at once
    Immediate,
    /// Load a batch when the user navigates past the loaded events
    OnDemand {
        /// Number of events per batch
        batch_size: usize,
    },
    /// Load batches in the background
    Progressive {
        /// Number of events per batch
        batch_size: usize,
        /// Interval between batches, in milliseconds
        interval_ms: u64,
    },
}

/// A source of traces (a file, a WebSocket, ...). What `poll` and `request_more` return
/// depends on the outside world; the getters report the source's current state.
pub trait DataSource: Sized {
    /// What a poll that returned `r` does to the source (`self` before, `after` after).
    spec fn spec_polled(&self, after: Self, r: Result<Vec<Trace>, Vec<TramexError>>) -> bool;

    /// New events received since the last poll (non-blocking). Whether the source loads
    /// by itself does not change.
    fn poll(&mut self) -> (r: Result<Vec<Trace>, Vec<TramexError>>)
        ensures
            old(self).spec_polled(*final(self), r),
            final(self).spec_auto_loading() == old(self).spec_auto_loading(),
    ;

    /// What a request for more data, with the layer filter `layers`, that returned `r`
    /// does to the source.
    spec fn spec_requested(&self, after: Self, layers: Layers, r: Result<(), Vec<TramexError>>) -> bool;

    /// Asks for more data (next batch of a file, `log_get` request on a WebSocket).
    /// Whether the source loads by itself does not change.
    fn request_more(&mut self, layers: &Layers) -> (r: Result<(), Vec<TramexError>>)
        ensures
            old(self).spec_requested(*final(self), *layers, r),
            final(self).spec_auto_loading() == old(self).spec_auto_loading(),
    ;

    /// Whether the source loads by itself.
    spec fn spec_auto_loading(&self) -> bool;

    /// Whether the source loads by itself.
    fn is_auto_loading(&self) -> (r: bool)
        ensures
            r == self.spec_auto_loading(),
    ;

    /// What switching automatic loading does to the source.
    spec fn spec_toggled(&self, after: Self) -> bool;

    /// Switches automatic loading on or off.
    fn toggle_auto_loading(&mut self)
        ensures
            old(self).spec_toggled(*final(self)),
    ;

    /// Whether the source may still produce data.
    spec fn spec_has_more(&self) -> bool;

    /// Whether the source may still produce data.
    fn has_more(&self) -> (r: bool)
        ensures
            r == self.spec_has_more(),
    ;

    /// Kind of the source, for display.
    fn source_type(&self) -> DataSourceType;

    /// Total number of events, when the source knows it.
    fn total_count(&self) -> Option<usize>;

    /// Metadata read by the source, when it has some.
    spec fn spec_metadata(&self) -> Option<FileMetadata>;

    /// Metadata read by the source, when it has some.
    fn metadata(&self) -> (r: Option<&FileMetadata>)
        ensures
            match r {
                Some(m) => self.spec_metadata() == Some(*m),
                None => self.spec_metadata() is None,
            },
    ;
}

/// Whether an error must be reported (a layer whose parser is missing is not).
pub open spec fn is_critical(e: TramexError) -> bool {
    e.code != ErrorCode::ParsingLayerNotImplemented
}

/// The critical errors of a list, in order.
pub open spec fn critical_errors(s: Seq<TramexError>) -> Seq<TramexError>
    decreases s.len(),
{
    if s.len() == 0 {
        Seq::empty()
    } else if is_critical(s.last()) {
        critical_errors(s.drop_last()).push(s.last())
    } else {
        critical_errors(s.drop_last())
    }
}

/// Appends to `errors` the critical errors of `new_errors`, in order.
pub fn collect_errors(errors: &mut Vec<TramexError>, new_errors: Vec<TramexError>)
    ensures
        final(errors)@ == old(errors)@ + critical_errors(new_errors@),
{
    let ghost orig = new_errors@;
    let ghost start = errors@;
    let n0 = new_errors.len();
    let mut rest = new_errors;
    let mut k: usize = 0;
    while rest.len() > 0
        invariant
            rest@ == orig.skip(k as int),
            n0 == orig.len(),
            k <= orig.len(),
            errors@ == start + critical_errors(orig.take(k as int)),
        decreases rest@.len(),
    {
        let e = rest.remove(0);
        proof {
            assert(orig.take(k + 1).drop_last() =~= orig.take(k as int));
            assert(orig.take(k + 1).last() == e);
            assert(orig.skip(k + 1) =~= orig.skip(k as int).subrange(1, orig.skip(k as int).len() as int));
        }
        if e.code != ErrorCode::ParsingLayerNotImplemented {
            errors.push(e);
        }
        k = k + 1;
    }
    assert(orig.take(k as int) =~= orig);
}

/// Every error kept by [`critical_errors`] is critical.
pub proof fn lemma_critical_errors_are_critical(s: Seq<TramexError>)
    ensures
        forall|i: int| 0 <= i < critical_errors(s).len() ==> is_critical(
            #[trigger] critical_errors(s)[i],
        ),
    decreases s.len(),
{
    if s.len() > 0 {
        lemma_critical_errors_are_critical(s.drop_last());
        let rec = critical_errors(s.drop_last());
        assert forall|i: int| 0 <= i < critical_errors(s).len() implies is_critical(
            #[trigger] critical_errors(s)[i],
        ) by {
            if is_critical(s.last()) {
                if i < rec.len() {
                    assert(critical_errors(s)[i] == rec[i]);
                }
            }
        }
    }
}

/// The trace at `j` passes the layer filter.
pub open spec fn enabled_at(events: Seq<Trace>, layers: Layers, j: int) -> bool {
    layers.enabled(events[j].layer)
}

/// `ctx` is the context made of these values.
pub open spec fn context_of(
    ctx: EventContext,
    events: Seq<Trace>,
    index: usize,
    layers: Layers,
    metadata: FileMetadata,
) -> bool {
    &&& ctx.all_events@ == events
    &&& ctx.current_index == index
    &&& *ctx.layers == layers
    &&& *ctx.metadata == metadata
}

/// Every subscriber of `before` became the one at the same place in `after` by being told
/// once that the event at `index` of `events` was focused, with the context of the events,
/// that focus, the layer filter and the metadata.
pub open spec fn told_focused<S: EventSubscriber>(
    before: Seq<S>,
    after: Seq<S>,
    events: Seq<Trace>,
    index: usize,
    layers: Layers,
    metadata: FileMetadata,
) -> bool {
    &&& after.len() == before.len()
    &&& exists|ctx: EventContext|
        #[trigger] context_of(ctx, events, index, layers, metadata) && forall|k: int|
            0 <= k < before.len() ==> #[trigger] before[k].spec_focused(
                after[k],
                events[index as int],
                index,
                ctx,
            )
}

/// Every subscriber of `before` became the one at the same place in `after` by being told
/// once that the event at `index` of `events` was added, the focus being at `focus`.
pub open spec fn told_added<S: EventSubscriber>(
    before: Seq<S>,
    after: Seq<S>,
    events: Seq<Trace>,
    index: usize,
    focus: usize,
    layers: Layers,
    metadata: FileMetadata,
) -> bool {
    &&& after.len() == before.len()
    &&& exists|ctx: EventContext|
        #[trigger] context_of(ctx, events, focus, layers, metadata) && forall|k: int|
            0 <= k < before.len() ==> #[trigger] before[k].spec_added(
                after[k],
                events[index as int],
                index,
                ctx,
            )
}

/// Step `i` of `chain`: its entry `i + 1` is its entry `i` told that the event at
/// `start + i` was added.
pub open spec fn added_step<S: EventSubscriber>(
    chain: Seq<Seq<S>>,
    i: int,
    events: Seq<Trace>,
    start: int,
    focus: usize,
    layers: Layers,
    metadata: FileMetadata,
) -> bool {
    told_added(chain[i], chain[i + 1], events, (start + i) as usize, focus, layers, metadata)
}

/// `chain` goes from `before` to `after` by telling of each event of `events` from `start`
/// on, in order.
pub open spec fn is_added_chain<S: EventSubscriber>(
    chain: Seq<Seq<S>>,
    before: Seq<S>,
    after: Seq<S>,
    events: Seq<Trace>,
    start: int,
    focus: usize,
    layers: Layers,
    metadata: FileMetadata,
) -> bool {
    &&& 0 <= start <= events.len()
    &&& chain.len() == events.len() - start + 1
    &&& chain[0] == before
    &&& chain.last() == after
    &&& forall|i: int|
        0 <= i < events.len() - start ==> #[trigger] added_step(
            chain,
            i,
            events,
            start,
            focus,
            layers,
            metadata,
        )
}

/// A chain of notifications extended by one more step still tells of each event in order.
pub proof fn lemma_added_chain_push<S: EventSubscriber>(
    chain: Seq<Seq<S>>,
    after: Seq<S>,
    events: Seq<Trace>,
    start: int,
    focus: usize,
    layers: Layers,
    metadata: FileMetadata,
)
    requires
        chain.len() >= 1,
        forall|i: int|
            0 <= i < chain.len() - 1 ==> #[trigger] added_step(
                chain,
                i,
                events,
                start,
                focus,
                layers,
                metadata,
            ),
        told_added(
            chain.last(),
            after,
            events,
            (start + chain.len() - 1) as usize,
            focus,
            layers,
            metadata,
        ),
    ensures
        forall|i: int|
            0 <= i < chain.len() ==> #[trigger] added_step(
                chain.push(after),
                i,
                events,
                start,
                focus,
                layers,
                metadata,
            ),
{
    let c2 = chain.push(after);
    assert forall|i: int| 0 <= i < chain.len() implies #[trigger] added_step(
        c2,
        i,
        events,
        start,
        focus,
        layers,
        metadata,
    ) by {
        if i < chain.len() - 1 {
            assert(added_step(chain, i, events, start, focus, layers, metadata));
            assert(c2[i] == chain[i]);
            assert(c2[i + 1] == chain[i + 1]);
        } else {
            assert(c2[i] == chain.last());
            assert(c2[i + 1] == after);
        }
    }
}

/// The subscribers `before` became `after` by being told, in order, that each event of
/// `events` from `start` on was added, the focus being at `focus`.
pub open spec fn told_added_from<S: EventSubscriber>(
    before: Seq<S>,
    after: Seq<S>,
    events: Seq<Trace>,
    start: int,
    focus: usize,
    layers: Layers,
    metadata: FileMetadata,
) -> bool {
    &&& after.len() == before.len()
    &&& exists|chain: Seq<Seq<S>>|
        #[trigger] is_added_chain(chain, before, after, events, start, focus, layers, metadata)
}

/// Main controller of the event system.
pub struct Application<S: EventSubscriber, D: DataSource> {
    /// Owns all events
    pub event_store: EventStore,
    /// Dispatches notifications
    pub event_bus: EventBus<S>,
    /// Source of events
    pub data_source: Option<D>,
    /// Layer filter
    pub layers: Layers,
    /// Metadata of the capture
    pub metadata: FileMetadata,
}

impl<S: EventSubscriber, D: DataSource> Application<S, D> {
    /// The store is well formed and every subscriber keeps its invariant.
    pub open spec fn wf(self) -> bool {
        &&& self.event_store@.wf()
        &&& self.event_bus.wf()
    }

    /// An application with no data, no subscriber and no source; only RRC is shown.
    pub fn new() -> (r: Self)
        ensures
            r.wf(),
            r.event_store@.events.len() == 0,
            r.event_store@.current_index == 0,
            r.event_bus.subscribers@.len() == 0,
            r.data_source is None,
            r.layers == Layers::spec_optiniated(),
            r.metadata.technology == crate::model::Technology::Unknown,
            r.metadata.ssb_info@.len() == 0,
    {
        Application {
            event_store: EventStore::new(),
            event_bus: EventBus::new(),
            data_source: None,
            layers: Layers::new_optiniated(),
            metadata: FileMetadata::new(),
        }
    }

    /// Subscribes a panel.
    pub fn subscribe(&mut self, subscriber: S)
        requires
            old(self).wf(),
            subscriber.wf(),
        ensures
            final(self).wf(),
            final(self).event_bus.subscribers@ == old(self).event_bus.subscribers@.push(subscriber),
            final(self).event_store@ == old(self).event_store@,
            final(self).data_source == old(self).data_source,
            final(self).layers == old(self).layers,
            final(self).metadata == old(self).metadata,
    {
        self.event_bus.subscribe(subscriber);
    }

    /// Number of subscribers.
    pub fn subscriber_count(&self) -> (r: usize)
        ensures
            r == self.event_bus.subscribers@.len(),
    {
        self.event_bus.subscriber_count()
    }

    /// Replaces the data source, clearing all loaded data first.
    pub fn set_data_source(&mut self, source: D)
        requires
            old(self).wf(),
        ensures
            final(self).wf(),
            final(self).data_source == Some(source),
            final(self).event_store@.events.len() == 0,
            final(self).event_store@.current_index == 0,
            final(self).event_store@.total_count is None,
            !final(self).event_store@.is_complete,
            final(self).wf(),
            final(self).layers == old(self).layers,
            final(self).metadata == old(self).metadata,
            final(self).event_bus.subscribers@.len() == old(self).event_bus.subscribers@.len(),
            forall|k: int|
                0 <= k < old(self).event_bus.subscribers@.len()
                    ==> #[trigger] old(self).event_bus.subscribers@[k].spec_cleared(
                    final(self).event_bus.subscribers@[k],
                ),
    {
        self.clear_all();
        self.data_source = Some(source);
    }

    /// Label of the data source: `File: <path>` or `WebSocket: <url>`.
    pub fn data_source_type(&self) -> (r: Option<String>)
        ensures
            self.data_source is None <==> r is None,
    {
        match &self.data_source {
            Some(s) => Some(source_label(&s.source_type())),
            None => None,
        }
    }

    /// The layer filter.
    pub fn layers(&self) -> (r: &Layers)
        ensures
            *r == self.layers,
    {
        &self.layers
    }

    /// The layer filter, to change it.
    pub fn layers_mut(&mut self) -> (r: &mut Layers)
        ensures
            *r == old(self).layers,
            final(self).layers == *final(r),
            final(self).event_store@ == old(self).event_store@,
            final(self).event_bus == old(self).event_bus,
            final(self).data_source == old(self).data_source,
            final(self).metadata == old(self).metadata,
    {
        &mut self.layers
    }

    /// Replaces the layer filter.
    pub fn set_layers(&mut self, layers: Layers)
        ensures
            final(self).layers == layers,
            final(self).event_store@ == old(self).event_store@,
    {
        self.layers = layers;
    }

    /// What adding the batch `new` did: the events were appended, every subscriber was
    /// told of each new event in order (with the focus where it was), and, for a source
    /// that loads by itself (`auto`) and a batch that is not empty, the last event was
    /// focused and the subscribers told so.
    pub open spec fn processed_into(self, after: Self, new: Seq<Trace>, auto: bool) -> bool {
        &&& after.wf()
        &&& after.event_store@.events == self.event_store@.events + new
        &&& after.event_store@.total_count == self.event_store@.total_count
        &&& after.event_store@.is_complete == self.event_store@.is_complete
        &&& if auto && new.len() > 0 {
            after.event_store@.current_index == after.event_store@.events.len() - 1
        } else {
            after.event_store@.current_index == self.event_store@.current_index
        }
        &&& new.len() == 0 ==> after.event_store@ == self.event_store@
        &&& after.layers == self.layers
        &&& after.metadata == self.metadata
        &&& after.event_bus.subscribers@.len() == self.event_bus.subscribers@.len()
    }

    /// The notification part of `processed_into`: the subscribers were told of each new
    /// event in order, then of the focus on the last one when `auto` and `new` is not
    /// empty.
    #[verifier::opaque]
    pub open spec fn told_new(self, after: Self, new: Seq<Trace>, auto: bool) -> bool {
        exists|told: Seq<S>|
            #[trigger] told_added_from(
                self.event_bus.subscribers@,
                told,
                after.event_store@.events,
                self.event_store@.events.len() as int,
                self.event_store@.current_index,
                self.layers,
                self.metadata,
            ) && if auto && new.len() > 0 {
                told_focused(
                    told,
                    after.event_bus.subscribers@,
                    after.event_store@.events,
                    (after.event_store@.events.len() - 1) as usize,
                    self.layers,
                    self.metadata,
                )
            } else {
                after.event_bus.subscribers@ == told
            }
    }

    /// `told_new` from a witness: the subscribers after the events were told.
    pub proof fn lemma_told_new(self, after: Self, new: Seq<Trace>, auto: bool, told: Seq<S>)
        requires
            after.event_store@.events == self.event_store@.events + new,
            told_added_from(
                self.event_bus.subscribers@,
                told,
                after.event_store@.events,
                self.event_store@.events.len() as int,
                self.event_store@.current_index,
                self.layers,
                self.metadata,
            ),
            if auto && new.len() > 0 {
                told_focused(
                    told,
                    after.event_bus.subscribers@,
                    after.event_store@.events,
                    (after.event_store@.events.len() - 1) as usize,
                    self.layers,
                    self.metadata,
                )
            } else {
                after.event_bus.subscribers@ == told
            },
        ensures
            self.told_new(after, new, auto),
    {
        reveal(Application::told_new);
    }

    /// Focuses the last loaded event and tells the subscribers.
    fn focus_last_loaded(&mut self)
        requires
            old(self).wf(),
            old(self).event_store@.events.len() > 0,
        ensures
            final(self).wf(),
            final(self).event_store@.events == old(self).event_store@.events,
            final(self).event_store@.current_index == old(self).event_store@.events.len() - 1,
            final(self).event_store@.total_count == old(self).event_store@.total_count,
            final(self).event_store@.is_complete == old(self).event_store@.is_complete,
            final(self).layers == old(self).layers,
            final(self).metadata == old(self).metadata,
            final(self).data_source == old(self).data_source,
            final(self).event_bus.subscribers@.len() == old(self).event_bus.subscribers@.len(),
            told_focused(
                old(self).event_bus.subscribers@,
                final(self).event_bus.subscribers@,
                old(self).event_store@.events,
                (old(self).event_store@.events.len() - 1) as usize,
                old(self).layers,
                old(self).metadata,
            ),
    {
        let n = self.event_store.len();
        self.navigate_to(n - 1);
    }

    /// Tells every subscriber, in order, of each event from `start` on, with the focus
    /// where it is.
    fn notify_added_from(&mut self, start: usize)
        requires
            old(self).wf(),
            start <= old(self).event_store@.events.len(),
        ensures
            final(self).wf(),
            final(self).event_store@ == old(self).event_store@,
            final(self).data_source == old(self).data_source,
            final(self).layers == old(self).layers,
            final(self).metadata == old(self).metadata,
            told_added_from(
                old(self).event_bus.subscribers@,
                final(self).event_bus.subscribers@,
                old(self).event_store@.events,
                start as int,
                old(self).event_store@.current_index,
                old(self).layers,
                old(self).metadata,
            ),
    {
        let ghost subs0 = self.event_bus.subscribers@;
        let ghost all = self.event_store@.events;
        let end = self.event_store.len();
        let cur = self.event_store.current_index();
        let ghost mut chain: Seq<Seq<S>> = seq![subs0];
        let mut index = start;
        while index < end
            invariant
                self.wf(),
                self.event_store@ == old(self).event_store@,
                end == all.len(),
                all == old(self).event_store@.events,
                cur == old(self).event_store@.current_index,
                start <= index <= end,
                self.data_source == old(self).data_source,
                self.layers == old(self).layers,
                self.metadata == old(self).metadata,
                self.event_bus.subscribers@.len() == subs0.len(),
                chain.len() == index - start + 1,
                chain[0] == subs0,
                chain.last() == self.event_bus.subscribers@,
                forall|i: int|
                    0 <= i < index - start ==> #[trigger] added_step(
                        chain,
                        i,
                        all,
                        start as int,
                        cur,
                        self.layers,
                        self.metadata,
                    ),
            decreases end - index,
        {
            let events = self.event_store.events();
            let context = EventContext {
                all_events: events,
                current_index: cur,
                layers: &self.layers,
                metadata: &self.metadata,
            };
            let ghost before = self.event_bus.subscribers@;
            self.event_bus.notify_event_added(&events[index], index, &context);
            proof {
                let after = self.event_bus.subscribers@;
                assert(context_of(context, all, cur, self.layers, self.metadata));
                assert(told_added(before, after, all, index, cur, self.layers, self.metadata));
                lemma_added_chain_push(chain, after, all, start as int, cur, self.layers, self.metadata);
                chain = chain.push(after);
            }
            index = index + 1;
        }
        proof {
            assert(is_added_chain(
                chain,
                subs0,
                self.event_bus.subscribers@,
                all,
                start as int,
                cur,
                self.layers,
                self.metadata,
            ));
        }
    }

    /// Adds a batch of events, notifies the subscribers of each one in order and, for an
    /// auto-loading source, focuses the last event (see `processed_into`).
    pub fn process_new_events(&mut self, new_events: Vec<Trace>) -> (r: Result<(), Vec<TramexError>>)
        requires
            old(self).wf(),
            old(self).event_store@.events.len() + new_events@.len() <= usize::MAX,
        ensures
            r is Ok,
            old(self).processed_into(
                *final(self),
                new_events@,
                match old(self).data_source {
                    Some(s) => s.spec_auto_loading(),
                    None => false,
                },
            ),
            final(self).data_source == old(self).data_source,
    {
        let ghost subs0 = self.event_bus.subscribers@;
        let ghost ev0 = self.event_store@.events;
        if new_events.len() == 0 {
            proof {
                let chain = seq![subs0];
                assert(ev0 + new_events@ =~= ev0);
                assert(is_added_chain(
                    chain,
                    subs0,
                    subs0,
                    ev0,
                    ev0.len() as int,
                    self.event_store@.current_index,
                    self.layers,
                    self.metadata,
                ));
                assert(told_added_from(
                    subs0,
                    subs0,
                    ev0,
                    ev0.len() as int,
                    self.event_store@.current_index,
                    self.layers,
                    self.metadata,
                ));
                old(self).lemma_told_new(
                    *self,
                    new_events@,
                    match old(self).data_source {
                        Some(s) => s.spec_auto_loading(),
                        None => false,
                    },
                    subs0,
                );
            }
            return Ok(());
        }
        let range = self.event_store.add_events(new_events);
        self.notify_added_from(range.start);
        let ghost told = self.event_bus.subscribers@;
        let ghost all = self.event_store@.events;
        proof {
            assert(told_added_from(
                subs0,
                told,
                all,
                ev0.len() as int,
                old(self).event_store@.current_index,
                self.layers,
                self.metadata,
            ));
        }
        let auto = match &self.data_source {
            Some(s) => s.is_auto_loading(),
            None => false,
        };
        if auto {
            self.focus_last_loaded();
        }
        proof {
            old(self).lemma_told_new(*self, new_events@, auto, told);
        }
        Ok(())
    }

    /// What polling the source did: the source was polled once (none without a source);
    /// a batch it returned is processed (see `processed_into`; unless it is empty or would
    /// overflow the index space) and the errors it returned are the result.
    pub open spec fn polled_into(self, after: Self, r: Seq<TramexError>) -> bool {
        &&& after.wf()
        &&& self.event_store@.events.is_prefix_of(after.event_store@.events)
        &&& after.layers == self.layers
        &&& after.metadata == self.metadata
        &&& after.event_bus.subscribers@.len() == self.event_bus.subscribers@.len()
        &&& match (self.data_source, after.data_source) {
            (Some(s0), Some(s1)) => exists|p: Result<Vec<Trace>, Vec<TramexError>>|
                #[trigger] s0.spec_polled(s1, p) && match p {
                    Ok(v) => {
                        &&& r.len() == 0
                        &&& if v@.len() > 0 && self.event_store@.events.len() + v@.len() <= usize::MAX {
                            self.processed_into(after, v@, s1.spec_auto_loading())
                        } else {
                            after.event_store@ == self.event_store@ && after.event_bus == self.event_bus
                        }
                    },
                    Err(e) => r == e@ && after.event_store@ == self.event_store@ && after.event_bus
                        == self.event_bus,
                },
            (None, None) => after.event_store@ == self.event_store@ && after.event_bus
                == self.event_bus && r.len() == 0,
            _ => false,
        }
    }

    /// What a load (a poll, a request or a whole update) keeps: whether the source loads by
    /// itself; a store whose events did not change is unchanged; a source that loads by
    /// itself focuses the last event when events came, any other source keeps the focus.
    pub open spec fn loaded_into(self, after: Self) -> bool {
        &&& match self.data_source {
            Some(s0) => after.data_source matches Some(s1) && s1.spec_auto_loading()
                == s0.spec_auto_loading(),
            None => after.data_source is None,
        }
        &&& after.event_store@.events == self.event_store@.events ==> after.event_store@
            == self.event_store@
        &&& match self.data_source {
            Some(s0) => if s0.spec_auto_loading() {
                after.event_store@.events != self.event_store@.events
                    ==> after.event_store@.current_index == after.event_store@.events.len() - 1
            } else {
                after.event_store@.current_index == self.event_store@.current_index
            },
            None => true,
        }
    }

    /// Polls the data source and processes the events it returned; returns the poll's
    /// errors. A batch that would overflow the index space is dropped.
    pub fn poll_source(&mut self) -> (r: Vec<TramexError>)
        requires
            old(self).wf(),
        ensures
            old(self).polled_into(*final(self), r@),
            old(self).loaded_into(*final(self)),
    {
        let polled = match &mut self.data_source {
            Some(source) => source.poll(),
            None => Ok(Vec::new()),
        };
        let ghost after_poll = self.data_source;
        let ghost p = polled;
        match polled {
            Ok(new_events) => {
                if new_events.len() > 0 && new_events.len() <= usize::MAX - self.event_store.len() {
                    let _ = self.process_new_events(new_events);
                }
            },
            Err(e) => {
                let ghost sd = self.data_source;
                proof {
                    if let (Some(s0), Some(s1)) = (old(self).data_source, sd) {
                        assert(s0.spec_polled(s1, p));
                    }
                }
                return e;
            },
        }
        let ghost sd = self.data_source;
        proof {
            if let (Some(s0), Some(s1)) = (old(self).data_source, sd) {
                assert(sd == after_poll);
                assert(s0.spec_polled(s1, p));
            }
        }
        Vec::new()
    }

    /// What taking the source's metadata did: when the source's metadata has another
    /// technology than the current one, it becomes the current metadata and every
    /// subscriber is told; otherwise nothing changes.
    pub open spec fn synced_into(self, after: Self) -> bool {
        &&& after.wf()
        &&& after.event_store@ == self.event_store@
        &&& after.layers == self.layers
        &&& after.data_source == self.data_source
        &&& after.event_bus.subscribers@.len() == self.event_bus.subscribers@.len()
        &&& match self.data_source {
            Some(s) => match s.spec_metadata() {
                Some(m) => if m.technology != self.metadata.technology {
                    &&& same_metadata(after.metadata, m)
                    &&& forall|k: int|
                        0 <= k < self.event_bus.subscribers@.len()
                            ==> #[trigger] self.event_bus.subscribers@[k].spec_metadata_changed(
                            after.event_bus.subscribers@[k],
                            after.metadata,
                        )
                } else {
                    after.metadata == self.metadata && after.event_bus == self.event_bus
                },
                None => after.metadata == self.metadata && after.event_bus == self.event_bus,
            },
            None => after.metadata == self.metadata && after.event_bus == self.event_bus,
        }
    }

    /// Takes the source's metadata when its technology differs from the current one, and
    /// tells the subscribers (see `synced_into`).
    pub fn sync_metadata(&mut self)
        requires
            old(self).wf(),
        ensures
            old(self).synced_into(*final(self)),
    {
        let new_meta = match &self.data_source {
            Some(s) => match s.metadata() {
                Some(m) => {
                    if m.technology != self.metadata.technology {
                        Some(m.duplicate())
                    } else {
                        None
                    }
                },
                None => None,
            },
            None => None,
        };
        match new_meta {
            Some(meta) => {
                self.metadata = meta;
                self.event_bus.notify_metadata_changed(&self.metadata);
            },
            None => {},
        }
    }

    /// What asking an auto-loading source for more did: a source that loads by itself and
    /// has more was asked once with the current layers, and the critical errors of its
    /// answer are the result; any other source is left as it is.
    pub open spec fn requested_into(self, after: Self, r: Seq<TramexError>) -> bool {
        &&& after.event_store@ == self.event_store@
        &&& after.layers == self.layers
        &&& after.metadata == self.metadata
        &&& after.event_bus == self.event_bus
        &&& forall|i: int| 0 <= i < r.len() ==> is_critical(#[trigger] r[i])
        &&& match (self.data_source, after.data_source) {
            (Some(s0), Some(s1)) => if s0.spec_auto_loading() && s0.spec_has_more() {
                exists|q: Result<(), Vec<TramexError>>|
                    #[trigger] s0.spec_requested(s1, self.layers, q) && r == match q {
                        Ok(()) => Seq::<TramexError>::empty(),
                        Err(e) => critical_errors(e@),
                    }
            } else {
                s1 == s0 && r.len() == 0
            },
            (None, None) => r.len() == 0,
            _ => false,
        }
    }

    /// Asks an auto-loading source that has more data for more; returns its critical
    /// errors (see `requested_into`).
    pub fn request_if_auto_loading(&mut self) -> (r: Vec<TramexError>)
        ensures
            old(self).requested_into(*final(self), r@),
            old(self).loaded_into(*final(self)),
    {
        let mut errors: Vec<TramexError> = Vec::new();
        match &mut self.data_source {
            Some(source) => {
                if source.is_auto_loading() && source.has_more() {
                    let q = source.request_more(&self.layers);
                    let ghost gq = q;
                    match q {
                        Ok(()) => {},
                        Err(e) => {
                            proof {
                                lemma_critical_errors_are_critical(e@);
                            }
                            collect_errors(&mut errors, e);
                        },
                    }
                    proof {
                        assert(errors@ == match gq {
                            Ok(()) => Seq::<TramexError>::empty(),
                            Err(e) => critical_errors(e@),
                        });
                    }
                }
            },
            None => {},
        }
        let ghost sd = self.data_source;
        proof {
            if let (Some(s0), Some(s1)) = (old(self).data_source, sd) {
                if s0.spec_auto_loading() && s0.spec_has_more() {
                    assert(exists|q: Result<(), Vec<TramexError>>|
                        #[trigger] s0.spec_requested(s1, old(self).layers, q) && errors@ == match q {
                            Ok(()) => Seq::<TramexError>::empty(),
                            Err(e) => critical_errors(e@),
                        });
                }
            }
        }
        errors
    }

    /// What an update did: a poll (see `polled_into`), then taking the source's metadata
    /// (see `synced_into`), then a request of an auto-loading source (see
    /// `requested_into`); the result gathers the errors of the poll and of the request.
    pub open spec fn updated_into(self, after: Self, r: Result<(), Vec<TramexError>>) -> bool {
        exists|a1: Self, a2: Self, e1: Seq<TramexError>, e2: Seq<TramexError>|
            #[trigger] self.polled_into(a1, e1) && #[trigger] a1.synced_into(a2)
                && #[trigger] a2.requested_into(after, e2) && match r {
                Ok(()) => e1 + e2 == Seq::<TramexError>::empty(),
                Err(v) => v@ == e1 + e2 && v@.len() > 0,
            }
    }

    /// Polls the data source, processes what it returned, takes the source's metadata when
    /// its technology changed, and asks an auto-loading source for more data. Returns the
    /// errors of the poll and the critical errors of the request (`Ok` when there is none).
    pub fn update(&mut self) -> (r: Result<(), Vec<TramexError>>)
        requires
            old(self).wf(),
        ensures
            final(self).wf(),
            old(self).event_store@.events.is_prefix_of(final(self).event_store@.events),
            final(self).layers == old(self).layers,
            final(self).event_bus.subscribers@.len() == old(self).event_bus.subscribers@.len(),
            old(self).data_source is None ==> {
                &&& final(self).event_store@ == old(self).event_store@
                &&& final(self).metadata == old(self).metadata
                &&& r is Ok
            },
            old(self).data_source is Some <==> final(self).data_source is Some,
            old(self).loaded_into(*final(self)),
            old(self).updated_into(*final(self), r),
    {
        let mut errors = self.poll_source();
        let ghost a1 = *self;
        let ghost e1 = errors@;
        self.sync_metadata();
        let ghost a2 = *self;
        let mut more = self.request_if_auto_loading();
        let ghost e2 = more@;
        errors.append(&mut more);
        proof {
            assert(errors@ == e1 + e2);
            assert(old(self).polled_into(a1, e1));
            assert(a1.synced_into(a2));
            assert(a2.requested_into(*self, e2));
            assert(old(self).loaded_into(a1));
            assert(a2.loaded_into(*self));
        }
        if errors.len() == 0 {
            assert(e1 + e2 =~= Seq::<TramexError>::empty());
            Ok(())
        } else {
            Err(errors)
        }
    }

    /// Moves the focus to the next event whose layer is enabled, skipping the others, and
    /// notifies the subscribers; when there is none, the focus does not move.
    pub fn navigate_next(&mut self) -> (r: bool)
        requires
            old(self).wf(),
        ensures
            final(self).wf(),
            final(self).event_store@.events == old(self).event_store@.events,
            final(self).event_store@.total_count == old(self).event_store@.total_count,
            final(self).event_store@.is_complete == old(self).event_store@.is_complete,
            final(self).layers == old(self).layers,
            final(self).metadata == old(self).metadata,
            final(self).data_source == old(self).data_source,
            final(self).event_bus.subscribers@.len() == old(self).event_bus.subscribers@.len(),
            r == exists|j: int|
                old(self).event_store@.current_index < j < old(self).event_store@.events.len()
                    && #[trigger] enabled_at(old(self).event_store@.events, old(self).layers, j),
            r ==> {
                let n = final(self).event_store@.current_index as int;
                &&& old(self).event_store@.current_index < n
                &&& enabled_at(old(self).event_store@.events, old(self).layers, n)
                &&& forall|k: int|
                    old(self).event_store@.current_index < k < n ==> !#[trigger] enabled_at(
                        old(self).event_store@.events,
                        old(self).layers,
                        k,
                    )
            },
            !r ==> final(self).event_store@.current_index == old(self).event_store@.current_index,
            r ==> told_focused(
                old(self).event_bus.subscribers@,
                final(self).event_bus.subscribers@,
                old(self).event_store@.events,
                final(self).event_store@.current_index,
                old(self).layers,
                old(self).metadata,
            ),
            !r ==> final(self).event_bus == old(self).event_bus,
    {
        let ghost e = self.event_store@.events;
        let start_index = self.event_store.current_index();
        loop
            invariant
                self.event_store@.wf(),
                self.event_bus.wf(),
                self.event_store@.events == e,
                e == old(self).event_store@.events,
                start_index == old(self).event_store@.current_index,
                self.event_store@.total_count == old(self).event_store@.total_count,
                self.event_store@.is_complete == old(self).event_store@.is_complete,
                start_index <= self.event_store@.current_index,
                forall|k: int|
                    start_index < k <= self.event_store@.current_index ==> !#[trigger] enabled_at(
                        e,
                        self.layers,
                        k,
                    ),
                self.layers == old(self).layers,
                self.metadata == old(self).metadata,
                self.data_source == old(self).data_source,
                self.event_bus == old(self).event_bus,
                self.event_bus.subscribers@.len() == old(self).event_bus.subscribers@.len(),
            decreases e.len() - self.event_store@.current_index,
        {
            if !self.event_store.can_go_next() {
                self.event_store.set_current(start_index);
                proof {
                    assert forall|j: int|
                        start_index < j < e.len() implies !#[trigger] enabled_at(e, self.layers, j) by {
                    }
                }
                return false;
            }
            self.event_store.go_next();
            let index = self.event_store.current_index();
            match self.event_store.current() {
                Some(event) => {
                    if self.layers.is_layer_enabled(&event.layer) {
                        assert(enabled_at(e, self.layers, index as int));
                        let context = EventContext {
                            all_events: self.event_store.events(),
                            current_index: index,
                            layers: &self.layers,
                            metadata: &self.metadata,
                        };
                        self.event_bus.notify_event_focused(event, index, &context);
                        assert(context_of(context, e, index, self.layers, self.metadata));
                        return true;
                    }
                },
                None => {
                    self.event_store.set_current(start_index);
                    return false;
                },
            }
        }
    }

    /// Moves the focus to the previous event whose layer is enabled, skipping the others,
    /// and notifies the subscribers. When there is none, the search stops at the first
    /// event, where the focus stays.
    pub fn navigate_previous(&mut self) -> (r: bool)
        requires
            old(self).wf(),
        ensures
            final(self).wf(),
            final(self).event_store@.events == old(self).event_store@.events,
            final(self).event_store@.total_count == old(self).event_store@.total_count,
            final(self).event_store@.is_complete == old(self).event_store@.is_complete,
            final(self).layers == old(self).layers,
            final(self).metadata == old(self).metadata,
            final(self).data_source == old(self).data_source,
            final(self).event_bus.subscribers@.len() == old(self).event_bus.subscribers@.len(),
            r == exists|j: int|
                0 <= j < old(self).event_store@.current_index && #[trigger] enabled_at(
                    old(self).event_store@.events,
                    old(self).layers,
                    j,
                ),
            r ==> {
                let n = final(self).event_store@.current_index as int;
                &&& n < old(self).event_store@.current_index
                &&& enabled_at(old(self).event_store@.events, old(self).layers, n)
                &&& forall|k: int|
                    n < k < old(self).event_store@.current_index ==> !#[trigger] enabled_at(
                        old(self).event_store@.events,
                        old(self).layers,
                        k,
                    )
            },
            !r ==> final(self).event_store@.current_index == 0,
            r ==> told_focused(
                old(self).event_bus.subscribers@,
                final(self).event_bus.subscribers@,
                old(self).event_store@.events,
                final(self).event_store@.current_index,
                old(self).layers,
                old(self).metadata,
            ),
            !r ==> final(self).event_bus == old(self).event_bus,
    {
        let ghost e = self.event_store@.events;
        let start_index = self.event_store.current_index();
        loop
            invariant
                self.event_store@.wf(),
                self.event_bus.wf(),
                self.event_store@.events == e,
                e == old(self).event_store@.events,
                start_index == old(self).event_store@.current_index,
                self.event_store@.total_count == old(self).event_store@.total_count,
                self.event_store@.is_complete == old(self).event_store@.is_complete,
                self.event_store@.current_index <= start_index,
                self.event_store@.current_index < start_index ==> !enabled_at(
                    e,
                    self.layers,
                    self.event_store@.current_index as int,
                ),
                forall|k: int|
                    self.event_store@.current_index < k < start_index ==> !#[trigger] enabled_at(
                        e,
                        self.layers,
                        k,
                    ),
                self.layers == old(self).layers,
                self.metadata == old(self).metadata,
                self.data_source == old(self).data_source,
                self.event_bus == old(self).event_bus,
                self.event_bus.subscribers@.len() == old(self).event_bus.subscribers@.len(),
            decreases self.event_store@.current_index,
        {
            if !self.event_store.can_go_previous() {
                return false;
            }
            self.event_store.go_previous();
            let index = self.event_store.current_index();
            match self.event_store.current() {
                Some(event) => {
                    if self.layers.is_layer_enabled(&event.layer) {
                        proof {
                            assert(enabled_at(e, self.layers, index as int));
                        }
                        let context = EventContext {
                            all_events: self.event_store.events(),
                            current_index: index,
                            layers: &self.layers,
                            metadata: &self.metadata,
                        };
                        self.event_bus.notify_event_focused(event, index, &context);
                        assert(context_of(context, e, index, self.layers, self.metadata));
                        return true;
                    }
                },
                None => {
                    self.event_store.set_current(start_index);
                    return false;
                },
            }
        }
    }

    /// Focuses the event at `index` and notifies the subscribers, when it is loaded.
    pub fn navigate_to(&mut self, index: usize) -> (r: bool)
        requires
            old(self).wf(),
        ensures
            final(self).wf(),
            r == (index < old(self).event_store@.events.len()),
            r ==> final(self).event_store@.current_index == index,
            r ==> told_focused(
                old(self).event_bus.subscribers@,
                final(self).event_bus.subscribers@,
                old(self).event_store@.events,
                index,
                old(self).layers,
                old(self).metadata,
            ),
            !r ==> final(self).event_bus == old(self).event_bus,
            !r ==> final(self).event_store@.current_index == old(self).event_store@.current_index,
            final(self).event_store@.events == old(self).event_store@.events,
            final(self).event_store@.total_count == old(self).event_store@.total_count,
            final(self).event_store@.is_complete == old(self).event_store@.is_complete,
            final(self).layers == old(self).layers,
            final(self).metadata == old(self).metadata,
            final(self).data_source == old(self).data_source,
            final(self).event_bus.subscribers@.len() == old(self).event_bus.subscribers@.len(),
    {
        if index < self.event_store.len() {
            self.event_store.set_current(index);
            let event = &self.event_store.events()[index];
            let context = EventContext {
                all_events: self.event_store.events(),
                current_index: index,
                layers: &self.layers,
                metadata: &self.metadata,
            };
            self.event_bus.notify_event_focused(event, index, &context);
            assert(context_of(context, old(self).event_store@.events, index, self.layers, self.metadata));
            true
        } else {
            false
        }
    }

    /// Whether a loaded event follows the focused one.
    pub fn can_navigate_next(&self) -> (r: bool)
        ensures
            r == (self.event_store@.current_index + 1 < self.event_store@.events.len()),
    {
        self.event_store.can_go_next()
    }

    /// Whether the focused event is not the first.
    pub fn can_navigate_previous(&self) -> (r: bool)
        ensures
            r == (self.event_store@.current_index > 0),
    {
        self.event_store.can_go_previous()
    }

    /// Index of the focused event.
    pub fn current_index(&self) -> (r: usize)
        ensures
            r == self.event_store@.current_index,
    {
        self.event_store.current_index()
    }

    /// Number of loaded events.
    pub fn event_count(&self) -> (r: usize)
        ensures
            r == self.event_store@.events.len(),
    {
        self.event_store.len()
    }

    /// Total number of events: the source's count when it has one, else the store's.
    pub fn total_event_count(&self) -> (r: Option<usize>)
        ensures
            self.data_source is None ==> r == self.event_store@.total_count,
    {
        let from_source = match &self.data_source {
            Some(s) => s.total_count(),
            None => None,
        };
        match from_source {
            Some(n) => Some(n),
            None => self.event_store.total_count(),
        }
    }

    /// Whether the source has nothing more to give (true without a source).
    pub fn is_fully_loaded(&self) -> (r: bool)
        ensures
            r == match self.data_source {
                Some(s) => !s.spec_has_more(),
                None => true,
            },
    {
        match &self.data_source {
            Some(s) => !s.has_more(),
            None => true,
        }
    }

    /// Switches automatic loading of the source on or off.
    pub fn toggle_auto_loading(&mut self)
        ensures
            final(self).event_store@ == old(self).event_store@,
            final(self).layers == old(self).layers,
            final(self).metadata == old(self).metadata,
            final(self).event_bus == old(self).event_bus,
            match (old(self).data_source, final(self).data_source) {
                (Some(s0), Some(s1)) => s0.spec_toggled(s1),
                (None, None) => true,
                _ => false,
            },
    {
        match &mut self.data_source {
            Some(s) => s.toggle_auto_loading(),
            None => {},
        }
    }

    /// Whether the source loads by itself (false without a source).
    pub fn is_auto_loading(&self) -> (r: bool)
        ensures
            r == match self.data_source {
                Some(s) => s.spec_auto_loading(),
                None => false,
            },
    {
        match &self.data_source {
            Some(s) => s.is_auto_loading(),
            None => false,
        }
    }

    /// Whether the source may still produce data (false without a source).
    pub fn has_more_data(&self) -> (r: bool)
        ensures
            r == match self.data_source {
                Some(s) => s.spec_has_more(),
                None => false,
            },
    {
        match &self.data_source {
            Some(s) => s.has_more(),
            None => false,
        }
    }

    /// What asking the source for more did: the source was asked once with the current
    /// layers and its answer is the result; nothing else changed.
    pub open spec fn requested_more_into(self, after: Self, r: Result<(), Vec<TramexError>>) -> bool {
        &&& after.event_store@ == self.event_store@
        &&& after.layers == self.layers
        &&& after.metadata == self.metadata
        &&& after.event_bus == self.event_bus
        &&& match (self.data_source, after.data_source) {
            (Some(s0), Some(s1)) => s0.spec_requested(s1, self.layers, r)
                && s1.spec_auto_loading() == s0.spec_auto_loading(),
            (None, None) => r is Ok,
            _ => false,
        }
    }

    /// Asks the source for more data and returns its errors unfiltered; without a source,
    /// does nothing.
    pub fn request_more_data(&mut self) -> (r: Result<(), Vec<TramexError>>)
        ensures
            old(self).requested_more_into(*final(self), r),
    {
        let r = match &mut self.data_source {
            Some(source) => source.request_more(&self.layers),
            None => Ok(()),
        };
        let ghost sd = self.data_source;
        proof {
            if let (Some(s0), Some(s1)) = (old(self).data_source, sd) {
                assert(s0.spec_requested(s1, old(self).layers, r));
            }
        }
        r
    }

    /// Clears the store and notifies the subscribers.
    pub fn clear_all(&mut self)
        requires
            old(self).wf(),
        ensures
            final(self).wf(),
            final(self).event_store@.events.len() == 0,
            final(self).event_store@.current_index == 0,
            final(self).event_store@.total_count is None,
            !final(self).event_store@.is_complete,
            final(self).wf(),
            final(self).data_source == old(self).data_source,
            final(self).layers == old(self).layers,
            final(self).metadata == old(self).metadata,
            final(self).event_bus.subscribers@.len() == old(self).event_bus.subscribers@.len(),
            forall|k: int|
                0 <= k < old(self).event_bus.subscribers@.len()
                    ==> #[trigger] old(self).event_bus.subscribers@[k].spec_cleared(
                    final(self).event_bus.subscribers@[k],
                ),
    {
        self.event_store.clear();
        self.event_bus.notify_cleared();
    }

    /// The event store.
    pub fn event_store(&self) -> (r: &EventStore)
        ensures
            r@ == self.event_store@,
    {
        &self.event_store
    }

    /// The focused event.
    pub fn current_event(&self) -> (r: Option<&Trace>)
        requires
            self.wf(),
        ensures
            self.event_store@.events.len() > 0 ==> r == Some(
                &self.event_store@.events[self.event_store@.current_index as int],
            ),
            self.event_store@.events.len() == 0 ==> r is None,
    {
        self.event_store.current()
    }

    /// All loaded events.
    pub fn events(&self) -> (r: &[Trace])
        ensures
            r@ == self.event_store@.events,
    {
        self.event_store.events()
    }

    /// Whether any event is loaded.
    pub fn has_data(&self) -> (r: bool)
        ensures
            r == (self.event_store@.events.len() > 0),
    {
        !self.event_store.is_empty()
    }

    /// Whether a data source is set.
    pub fn has_data_source(&self) -> (r: bool)
        ensures
            r == (self.data_source is Some),
    {
        self.data_source.is_some()
    }

    /// The data source.
    pub fn data_source(&self) -> (r: Option<&D>)
        ensures
            r == match self.data_source {
                Some(s) => Some(&s),
                None => None,
            },
    {
        match &self.data_source {
            Some(s) => Some(s),
            None => None,
        }
    }

    /// Names of the subscribed panels.
    pub fn panel_names(&self) -> (r: Vec<&'static str>)
        ensures
            r@.len() == self.event_bus.subscribers@.len(),
            forall|i: int| 0 <= i < r@.len() ==> r@[i] == self.event_bus.subscribers@[i].spec_name(),
    {
        self.event_bus.subscriber_names()
    }

    /// Metadata of the capture.
    pub fn metadata(&self) -> (r: &FileMetadata)
        ensures
            *r == self.metadata,
    {
        &self.metadata
    }

    /// Replaces the metadata and notifies the subscribers.
    pub fn set_metadata(&mut self, metadata: FileMetadata)
        requires
            old(self).wf(),
        ensures
            final(self).wf(),
            final(self).metadata == metadata,
            final(self).event_store@ == old(self).event_store@,
            final(self).layers == old(self).layers,
            final(self).data_source == old(self).data_source,
            final(self).event_bus.subscribers@.len() == old(self).event_bus.subscribers@.len(),
            forall|k: int|
                0 <= k < old(self).event_bus.subscribers@.len()
                    ==> #[trigger] old(self).event_bus.subscribers@[k].spec_metadata_changed(
                    final(self).event_bus.subscribers@[k],
                    metadata,
                ),
    {
        self.metadata = metadata;
        self.event_bus.notify_metadata_changed(&self.metadata);
    }
}

/// Display label of a data source kind.
pub fn source_label(t: &DataSourceType) -> (r: String)
    ensures
        r@ == match t {
            DataSourceType::File { path, .. } => "File: "@ + path@,
            DataSourceType::WebSocket { url, .. } => "WebSocket: "@ + url@,
        },
{
    match t {
        DataSourceType::File { path, .. } => {
            let mut s = String::from_str("File: ");
            s.append(path.as_str());
            s
        },
        DataSourceType::WebSocket { url, .. } => {
            let mut s = String::from_str("WebSocket: ");
            s.append(url.as_str());
            s
        },
    }
}

} // verus!
