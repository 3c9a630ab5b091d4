//! Examples of use of the event system.

use vstd::prelude::*;
use crate::application::{Application, DataSource};
use crate::event_bus::{EventContext, EventSubscriber};
use crate::model::{FileMetadata, Trace};

verus! {

/// Example subscriber that counts the events it receives.
pub struct ExampleSubscriber {
    /// Name of the subscriber
    pub name: String,
    /// Number of events received since the last clear
    pub event_count: usize,
}

impl ExampleSubscriber {
    /// A subscriber that has received nothing.
    pub fn new(name: String) -> (r: Self)
        ensures
            r.name == name,
            r.event_count == 0,
    {
        ExampleSubscriber { name, event_count: 0 }
    }
}

impl EventSubscriber for ExampleSubscriber {
    /// Every state of the panel is a valid one.
    open spec fn wf(&self) -> bool {
        true
    }

    /// Counts the event (the count saturates at `usize::MAX`).
    fn on_event_added(&mut self, event: &Trace, index: usize, context: &EventContext)
    {
        if self.event_count < usize::MAX {
            self.event_count = self.event_count + 1;
        }
    }

    /// Nothing to do.
    fn on_event_focused(&mut self, event: &Trace, index: usize, context: &EventContext)
    {
    }

    /// Resets the count.
    fn on_events_cleared(&mut self)
    {
        self.event_count = 0;
    }

    /// Nothing to do.
    fn on_metadata_changed(&mut self, metadata: &FileMetadata)
    {
    }

    open spec fn spec_name(&self) -> &'static str {
        "ExampleSubscriber"
    }

    fn name(&self) -> (r: &'static str) {
        "ExampleSubscriber"
    }

    open spec fn spec_added(&self, after: Self, event: Trace, index: usize, context: EventContext) -> bool {
        &&& (after.event_count == if self.event_count < usize::MAX {
            (self.event_count + 1) as usize
        } else {
            self.event_count
        })
        &&& (after.name == self.name)
    }

    open spec fn spec_focused(&self, after: Self, event: Trace, index: usize, context: EventContext) -> bool {
        &&& (after.event_count == self.event_count)
        &&& (after.name == self.name)
    }

    open spec fn spec_cleared(&self, after: Self) -> bool {
        &&& (after.event_count == 0)
        &&& (after.name == self.name)
    }

    open spec fn spec_metadata_changed(&self, after: Self, metadata: FileMetadata) -> bool {
        &&& (after.event_count == self.event_count)
        &&& (after.name == self.name)
    }
}

/// Example: the WebSocket loop needs a wake-up callback from the UI, so it is not runnable
/// on its own; the example reports it.
pub fn example_websocket_loading() -> (r: Result<(), String>)
    ensures
        r matches Err(m) && m@ == "WebSocket example not yet implemented - requires wakeup callback"@,
{
    Err(String::from_str("WebSocket example not yet implemented - requires wakeup callback"))
}

/// Example: an application with one custom subscriber named `MyPanel`.
pub fn example_custom_subscriber<D: DataSource>() -> (r: Application<ExampleSubscriber, D>)
    ensures
        r.wf(),
        r.event_bus.subscribers@.len() == 1,
        r.event_bus.subscribers@[0].name@ == "MyPanel"@,
        r.event_bus.subscribers@[0].event_count == 0,
        r.event_store@.events.len() == 0,
        r.data_source is None,
{
    let mut app: Application<ExampleSubscriber, D> = Application::new();
    app.subscribe(ExampleSubscriber::new(String::from_str("MyPanel")));
    app
}

/// Example: an application with one subscriber named `TestPanel`, to which events can be
/// fed with [`Application::process_new_events`].
pub fn example_manual_events<D: DataSource>() -> (r: Application<ExampleSubscriber, D>)
    ensures
        r.wf(),
        r.event_bus.subscribers@.len() == 1,
        r.event_bus.subscribers@[0].name@ == "TestPanel"@,
        r.event_bus.subscribers@[0].event_count == 0,
        r.event_store@.events.len() == 0,
        r.data_source is None,
{
    let mut app: Application<ExampleSubscriber, D> = Application::new();
    app.subscribe(ExampleSubscriber::new(String::from_str("TestPanel")));
    app
}

} // verus!
