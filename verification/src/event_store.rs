//! Event store: the single owner of all loaded traces and of the focused position.

use vstd::prelude::*;
use crate::model::Trace;

verus! {

/// Abstract state of an [`EventStore`].
pub struct EventStoreView {
    /// Loaded events, in arrival order
    pub events: Seq<Trace>,
    /// Index of the focused event
    pub current_index: usize,
    /// Total number of events, when known
    pub total_count: Option<usize>,
    /// Whether all data has been loaded
    pub is_complete: bool,
}

impl EventStoreView {
    /// State after moving the focus one event forward (unchanged at the last event).
    pub open spec fn stepped_next(self) -> Self {
        if self.current_index + 1 < self.events.len() {
            EventStoreView { current_index: (self.current_index + 1) as usize, ..self }
        } else {
            self
        }
    }

    /// State after moving the focus one event back (unchanged at the first event).
    pub open spec fn stepped_previous(self) -> Self {
        if self.current_index > 0 {
            EventStoreView { current_index: (self.current_index - 1) as usize, ..self }
        } else {
            self
        }
    }

    /// The focused index designates a loaded event (or is 0 on an empty store).
    pub open spec fn wf(self) -> bool {
        &&& self.events.len() <= usize::MAX
        &&& if self.events.len() == 0 {
            self.current_index == 0
        } else {
            self.current_index < self.events.len()
        }
    }
}

/// Owns all events.
pub struct EventStore {
    /// All events
    events: Vec<Trace>,
    /// Focused index
    current_index: usize,
    /// Total number of events, when known
    total_count: Option<usize>,
    /// Whether all data has been loaded
    is_complete: bool,
}

impl View for EventStore {
    type V = EventStoreView;

    closed spec fn view(&self) -> EventStoreView {
        EventStoreView {
            events: self.events@,
            current_index: self.current_index,
            total_count: self.total_count,
            is_complete: self.is_complete,
        }
    }
}

impl EventStore {
    /// An empty store.
    pub fn new() -> (r: Self)
        ensures
            r@.events.len() == 0,
            r@.current_index == 0,
            r@.total_count is None,
            !r@.is_complete,
            r@.wf(),
    {
        EventStore { events: Vec::new(), current_index: 0, total_count: None, is_complete: false }
    }

    /// Appends a batch and returns the range of indices it occupies.
    pub fn add_events(&mut self, new_events: Vec<Trace>) -> (r: core::ops::Range<usize>)
        requires
            old(self)@.events.len() + new_events@.len() <= usize::MAX,
        ensures
            final(self)@.events == old(self)@.events + new_events@,
            r.start == old(self)@.events.len(),
            r.end == final(self)@.events.len(),
            final(self)@.current_index == old(self)@.current_index,
            final(self)@.total_count == old(self)@.total_count,
            final(self)@.is_complete == old(self)@.is_complete,
            old(self)@.wf() ==> final(self)@.wf(),
    {
        let start = self.events.len();
        let mut batch = new_events;
        self.events.append(&mut batch);
        let end = self.events.len();
        start..end
    }

    /// Focuses `index` when it designates a loaded event, and returns that event.
    pub fn set_current(&mut self, index: usize) -> (r: Option<&Trace>)
        ensures
            final(self)@.events == old(self)@.events,
            final(self)@.total_count == old(self)@.total_count,
            final(self)@.is_complete == old(self)@.is_complete,
            index < old(self)@.events.len() ==> final(self)@.current_index == index && r == Some(
                &old(self)@.events[index as int],
            ),
            index >= old(self)@.events.len() ==> final(self)@.current_index == old(
                self,
            )@.current_index && r is None,
            old(self)@.wf() ==> final(self)@.wf(),
    {
        if index < self.events.len() {
            self.current_index = index;
            Some(&self.events[index])
        } else {
            None
        }
    }

    /// The focused event.
    pub fn current(&self) -> (r: Option<&Trace>)
        ensures
            self@.current_index < self@.events.len() ==> r == Some(
                &self@.events[self@.current_index as int],
            ),
            self@.current_index >= self@.events.len() ==> r is None,
    {
        if self.current_index < self.events.len() {
            Some(&self.events[self.current_index])
        } else {
            None
        }
    }

    /// Index of the focused event.
    pub fn current_index(&self) -> (r: usize)
        ensures
            r == self@.current_index,
    {
        self.current_index
    }

    /// All loaded events.
    pub fn events(&self) -> (r: &[Trace])
        ensures
            r@ == self@.events,
    {
        self.events.as_slice()
    }

    /// Number of loaded events.
    pub fn len(&self) -> (r: usize)
        ensures
            r == self@.events.len(),
    {
        self.events.len()
    }

    /// Whether no event is loaded.
    pub fn is_empty(&self) -> (r: bool)
        ensures
            r == (self@.events.len() == 0),
    {
        self.events.len() == 0
    }

    /// Whether there is a loaded event after the focused one.
    pub fn can_go_next(&self) -> (r: bool)
        ensures
            r == (self@.current_index + 1 < self@.events.len()),
    {
        self.events.len() > 0 && self.current_index < self.events.len() - 1
    }

    /// Whether the focused event is not the first.
    pub fn can_go_previous(&self) -> (r: bool)
        ensures
            r == (self@.current_index > 0),
    {
        self.current_index > 0
    }

    /// Moves the focus to the next event, when there is one.
    pub fn go_next(&mut self) -> (r: Option<&Trace>)
        ensures
            final(self)@ == old(self)@.stepped_next(),
            old(self)@.current_index + 1 < old(self)@.events.len() ==> r == Some(
                &old(self)@.events[old(self)@.current_index + 1],
            ),
            old(self)@.current_index + 1 >= old(self)@.events.len() ==> r is None,
            old(self)@.wf() ==> final(self)@.wf(),
    {
        if self.events.len() > 0 && self.current_index < self.events.len() - 1 {
            self.current_index = self.current_index + 1;
            Some(&self.events[self.current_index])
        } else {
            None
        }
    }

    /// Moves the focus to the previous event, when there is one.
    pub fn go_previous(&mut self) -> (r: Option<&Trace>)
        ensures
            final(self)@ == old(self)@.stepped_previous(),
            old(self)@.current_index > 0 && old(self)@.wf() ==> r == Some(
                &old(self)@.events[old(self)@.current_index - 1],
            ),
            old(self)@.current_index == 0 ==> r is None,
            old(self)@.wf() ==> final(self)@.wf(),
    {
        if self.can_go_previous() {
            self.current_index = self.current_index - 1;
            if self.current_index < self.events.len() {
                Some(&self.events[self.current_index])
            } else {
                None
            }
        } else {
            None
        }
    }

    /// Removes all events and resets the position and the loading state.
    pub fn clear(&mut self)
        ensures
            final(self)@.events.len() == 0,
            final(self)@.current_index == 0,
            final(self)@.total_count is None,
            !final(self)@.is_complete,
            final(self)@.wf(),
    {
        self.events.clear();
        self.current_index = 0;
        self.total_count = None;
        self.is_complete = false;
    }

    /// Records the total number of events.
    pub fn set_total_count(&mut self, count: Option<usize>)
        ensures
            final(self)@ == (EventStoreView { total_count: count, ..old(self)@ }),
    {
        self.total_count = count;
    }

    /// Total number of events, when known.
    pub fn total_count(&self) -> (r: Option<usize>)
        ensures
            r == self@.total_count,
    {
        self.total_count
    }

    /// Records whether all data is loaded.
    pub fn set_complete(&mut self, complete: bool)
        ensures
            final(self)@ == (EventStoreView { is_complete: complete, ..old(self)@ }),
    {
        self.is_complete = complete;
    }

    /// Whether all data is loaded.
    pub fn is_complete(&self) -> (r: bool)
        ensures
            r == self@.is_complete,
    {
        self.is_complete
    }
}

/// Going to the next event and back to the previous one returns to the starting
/// position, when there is a next event.
pub proof fn lemma_next_then_previous(s: EventStoreView)
    requires
        s.wf(),
        s.events.len() <= usize::MAX,
        s.current_index + 1 < s.events.len(),
    ensures
        s.stepped_next().stepped_previous() == s,
        s.stepped_next().wf(),
{
    let n = s.stepped_next();
    assert(n.current_index == s.current_index + 1);
    assert(n.current_index > 0);
    let p = n.stepped_previous();
    assert(p.current_index == s.current_index);
    assert(p.events == s.events);
}

/// Going to the previous event and back to the next one returns to the starting
/// position, when there is a previous event.
pub proof fn lemma_previous_then_next(s: EventStoreView)
    requires
        s.wf(),
        s.current_index > 0,
    ensures
        s.stepped_previous().stepped_next() == s,
        s.stepped_previous().wf(),
{
    let p = s.stepped_previous();
    assert(p.current_index == s.current_index - 1);
    let n = p.stepped_next();
    assert(n.current_index == s.current_index);
    assert(n.events == s.events);
}

} // verus!
