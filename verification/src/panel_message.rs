//! Message panel: shows the focused trace (its layer, its information and, on request,
//! its full text).

use vstd::prelude::*;
use crate::event_bus::{EventContext, EventSubscriber};
use crate::model::{FileMetadata, Trace};

verus! {

/// Message box.
pub struct MessageBox {
    /// Index in the store of the trace shown, once one was focused
    pub shown_trace: Option<usize>,
    /// Number of events in the store
    pub events_len: usize,
    /// Index of the focused event
    pub current_index: usize,
    /// The full text of the message is shown
    pub show_full: bool,
    /// Decoded lines shown under the full text
    pub save_text: Vec<String>,
}

impl MessageBox {
    /// A message box that shows nothing.
    pub fn new() -> (r: Self)
        ensures
            r.shown_trace is None,
            r.events_len == 0,
            r.current_index == 0,
            !r.show_full,
            r.save_text@.len() == 0,
    {
        MessageBox {
            shown_trace: None,
            events_len: 0,
            current_index: 0,
            show_full: false,
            save_text: Vec::new(),
        }
    }
}

impl Default for MessageBox {
    fn default() -> (r: Self)
        ensures
            r.shown_trace is None,
            r.events_len == 0,
            r.current_index == 0,
            !r.show_full,
            r.save_text@.len() == 0,
    {
        MessageBox::new()
    }
}

impl EventSubscriber for MessageBox {
    /// Every state of the panel is a valid one.
    open spec fn wf(&self) -> bool {
        true
    }

    /// Only the number of events changes.
    fn on_event_added(&mut self, event: &Trace, index: usize, context: &EventContext)
    {
        self.events_len = context.all_events.len();
    }

    /// Shows the focused event.
    fn on_event_focused(&mut self, event: &Trace, index: usize, context: &EventContext)
    {
        self.current_index = index;
        self.shown_trace = Some(index);
        self.events_len = context.all_events.len();
        self.save_text = Vec::new();
    }

    /// Shows nothing any more.
    fn on_events_cleared(&mut self)
    {
        self.shown_trace = None;
        self.events_len = 0;
        self.current_index = 0;
        self.save_text = Vec::new();
    }

    /// Nothing to do.
    fn on_metadata_changed(&mut self, metadata: &FileMetadata)
    {
    }

    open spec fn spec_name(&self) -> &'static str {
        "Messages"
    }

    fn name(&self) -> (r: &'static str) {
        "Messages"
    }

    open spec fn spec_added(&self, after: Self, event: Trace, index: usize, context: EventContext) -> bool {
        &&& (after.events_len == context.all_events@.len())
        &&& (after.shown_trace == self.shown_trace)
        &&& (after.current_index == self.current_index)
        &&& (after.show_full == self.show_full)
        &&& (after.save_text@ == self.save_text@)
    }

    open spec fn spec_focused(&self, after: Self, event: Trace, index: usize, context: EventContext) -> bool {
        &&& (after.current_index == index)
        &&& (after.shown_trace == Some(index))
        &&& (after.events_len == context.all_events@.len())
        &&& (after.show_full == self.show_full)
        &&& (after.save_text@.len() == 0)
    }

    open spec fn spec_cleared(&self, after: Self) -> bool {
        &&& (after.shown_trace is None)
        &&& (after.events_len == 0)
        &&& (after.current_index == 0)
        &&& (after.show_full == self.show_full)
        &&& (after.save_text@.len() == 0)
    }

    open spec fn spec_metadata_changed(&self, after: Self, metadata: FileMetadata) -> bool {
        &&& (after.shown_trace == self.shown_trace)
        &&& (after.events_len == self.events_len)
        &&& (after.current_index == self.current_index)
        &&& (after.show_full == self.show_full)
        &&& (after.save_text@ == self.save_text@)
    }
}

} // verus!
