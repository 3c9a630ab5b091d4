//! Event bus: fans the notifications of the application out to its subscribers.

use vstd::prelude::*;
use crate::model::{FileMetadata, Layers, Trace};

verus! {

/// What a subscriber may read when it is notified.
pub struct EventContext<'a> {
    /// All events currently in the store
    pub all_events: &'a [Trace],
    /// Index of the focused event
    pub current_index: usize,
    /// Active layer filters
    pub layers: &'a Layers,
    /// Metadata of the capture
    pub metadata: &'a FileMetadata,
}

/// A component that wants to be told about events (typically a panel).
pub trait EventSubscriber: Sized {
    /// The subscriber's own invariant, which every notification keeps.
    spec fn wf(&self) -> bool;

    /// What adding `event` at `index` does to the subscriber (`self` before, `after` after).
    spec fn spec_added(&self, after: Self, event: Trace, index: usize, context: EventContext) -> bool;

    /// A new event was added to the store at `index`.
    fn on_event_added(&mut self, event: &Trace, index: usize, context: &EventContext)
        requires
            old(self).wf(),
        ensures
            final(self).wf(),
            old(self).spec_added(*final(self), *event, index, *context),
    ;

    /// What focusing `event` at `index` does to the subscriber.
    spec fn spec_focused(&self, after: Self, event: Trace, index: usize, context: EventContext) -> bool;

    /// The user focused the event at `index`.
    fn on_event_focused(&mut self, event: &Trace, index: usize, context: &EventContext)
        requires
            old(self).wf(),
        ensures
            final(self).wf(),
            old(self).spec_focused(*final(self), *event, index, *context),
    ;

    /// What clearing all events does to the subscriber.
    spec fn spec_cleared(&self, after: Self) -> bool;

    /// All events were cleared.
    fn on_events_cleared(&mut self)
        requires
            old(self).wf(),
        ensures
            final(self).wf(),
            old(self).spec_cleared(*final(self)),
    ;

    /// What a change of metadata does to the subscriber.
    spec fn spec_metadata_changed(&self, after: Self, metadata: FileMetadata) -> bool;

    /// The metadata of the capture changed.
    fn on_metadata_changed(&mut self, metadata: &FileMetadata)
        requires
            old(self).wf(),
        ensures
            final(self).wf(),
            old(self).spec_metadata_changed(*final(self), *metadata),
    ;

    /// Name of the subscriber, as a specification value.
    spec fn spec_name(&self) -> &'static str;

    /// Name of the subscriber (also the title of its window).
    fn name(&self) -> (r: &'static str)
        ensures
            r == self.spec_name(),
    ;
}

/// Dispatches notifications to every subscriber, in subscription order.
pub struct EventBus<S: EventSubscriber> {
    /// Subscribers
    pub subscribers: Vec<S>,
}

impl<S: EventSubscriber> EventBus<S> {
    /// Every subscriber keeps its invariant.
    pub open spec fn wf(self) -> bool {
        forall|i: int| 0 <= i < self.subscribers@.len() ==> (#[trigger] self.subscribers@[i]).wf()
    }

    /// A bus with no subscriber.
    pub fn new() -> (r: Self)
        ensures
            r.wf(),
            r.subscribers@.len() == 0,
    {
        EventBus { subscribers: Vec::new() }
    }

    /// Adds a subscriber after the existing ones.
    pub fn subscribe(&mut self, subscriber: S)
        requires
            old(self).wf(),
            subscriber.wf(),
        ensures
            final(self).wf(),
            final(self).subscribers@ == old(self).subscribers@.push(subscriber),
    {
        self.subscribers.push(subscriber);
    }

    /// Number of subscribers.
    pub fn subscriber_count(&self) -> (r: usize)
        ensures
            r == self.subscribers@.len(),
    {
        self.subscribers.len()
    }

    /// Tells every subscriber that `event` was added at `index`.
    pub fn notify_event_added(&mut self, event: &Trace, index: usize, context: &EventContext)
        requires
            old(self).wf(),
        ensures
            final(self).wf(),
            final(self).subscribers@.len() == old(self).subscribers@.len(),
            forall|k: int|
                0 <= k < old(self).subscribers@.len() ==> #[trigger] old(self).subscribers@[k].spec_added(final(self).subscribers@[k], *event, index, *context),
    {
        let n = self.subscribers.len();
        let mut i: usize = 0;
        while i < n
            invariant
                n == self.subscribers@.len(),
                i <= n,
                self.wf(),
                forall|k: int|
                    0 <= k < i ==> #[trigger] old(self).subscribers@[k].spec_added(self.subscribers@[k], *event, index, *context),
                forall|k: int| i <= k < n ==> #[trigger] self.subscribers@[k] == old(self).subscribers@[k],
            decreases n - i,
        {
            self.subscribers[i].on_event_added(event, index, context);
            i = i + 1;
        }
    }

    /// Tells every subscriber that the event at `index` was focused.
    pub fn notify_event_focused(&mut self, event: &Trace, index: usize, context: &EventContext)
        requires
            old(self).wf(),
        ensures
            final(self).wf(),
            final(self).subscribers@.len() == old(self).subscribers@.len(),
            forall|k: int|
                0 <= k < old(self).subscribers@.len() ==> #[trigger] old(self).subscribers@[k].spec_focused(final(self).subscribers@[k], *event, index, *context),
    {
        let n = self.subscribers.len();
        let mut i: usize = 0;
        while i < n
            invariant
                n == self.subscribers@.len(),
                i <= n,
                self.wf(),
                forall|k: int|
                    0 <= k < i ==> #[trigger] old(self).subscribers@[k].spec_focused(self.subscribers@[k], *event, index, *context),
                forall|k: int| i <= k < n ==> #[trigger] self.subscribers@[k] == old(self).subscribers@[k],
            decreases n - i,
        {
            self.subscribers[i].on_event_focused(event, index, context);
            i = i + 1;
        }
    }

    /// Tells every subscriber that all events were cleared.
    pub fn notify_cleared(&mut self)
        requires
            old(self).wf(),
        ensures
            final(self).wf(),
            final(self).subscribers@.len() == old(self).subscribers@.len(),
            forall|k: int|
                0 <= k < old(self).subscribers@.len() ==> #[trigger] old(self).subscribers@[k].spec_cleared(final(self).subscribers@[k]),
    {
        let n = self.subscribers.len();
        let mut i: usize = 0;
        while i < n
            invariant
                n == self.subscribers@.len(),
                i <= n,
                self.wf(),
                forall|k: int|
                    0 <= k < i ==> #[trigger] old(self).subscribers@[k].spec_cleared(self.subscribers@[k]),
                forall|k: int| i <= k < n ==> #[trigger] self.subscribers@[k] == old(self).subscribers@[k],
            decreases n - i,
        {
            self.subscribers[i].on_events_cleared();
            i = i + 1;
        }
    }

    /// Tells every subscriber that the metadata changed.
    pub fn notify_metadata_changed(&mut self, metadata: &FileMetadata)
        requires
            old(self).wf(),
        ensures
            final(self).wf(),
            final(self).subscribers@.len() == old(self).subscribers@.len(),
            forall|k: int|
                0 <= k < old(self).subscribers@.len() ==> #[trigger] old(self).subscribers@[k].spec_metadata_changed(final(self).subscribers@[k], *metadata),
    {
        let n = self.subscribers.len();
        let mut i: usize = 0;
        while i < n
            invariant
                n == self.subscribers@.len(),
                i <= n,
                self.wf(),
                forall|k: int|
                    0 <= k < i ==> #[trigger] old(self).subscribers@[k].spec_metadata_changed(self.subscribers@[k], *metadata),
                forall|k: int| i <= k < n ==> #[trigger] self.subscribers@[k] == old(self).subscribers@[k],
            decreases n - i,
        {
            self.subscribers[i].on_metadata_changed(metadata);
            i = i + 1;
        }
    }

    /// Names of the subscribers, in subscription order.
    pub fn subscriber_names(&self) -> (r: Vec<&'static str>)
        ensures
            r@.len() == self.subscribers@.len(),
            forall|i: int| 0 <= i < r@.len() ==> r@[i] == self.subscribers@[i].spec_name(),
    {
        let mut names: Vec<&'static str> = Vec::new();
        let n = self.subscribers.len();
        let mut i: usize = 0;
        while i < n
            invariant
                n == self.subscribers@.len(),
                i <= n,
                names@.len() == i,
                forall|k: int| 0 <= k < i ==> names@[k] == self.subscribers@[k].spec_name(),
            decreases n - i,
        {
            names.push(self.subscribers[i].name());
            i = i + 1;
        }
        names
    }
}

} // verus!
