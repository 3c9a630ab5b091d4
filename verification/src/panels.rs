//! The panels of the analyser, as one subscriber type, and the application that
//! notifies them all.

use vstd::prelude::*;
use crate::application::{Application, DataSource};
use crate::bst_config::BstConfig;
use crate::channels::LogicalChannels;
use crate::chronograph::Chronograph;
use crate::event_bus::{EventContext, EventSubscriber};
use crate::harq::HarqPanel;
use crate::identity::Identity;
use crate::model::{FileMetadata, Trace};
use crate::panel_message::MessageBox;
use crate::resource_blocks::ResourceBlocks;
use crate::rrc_status::RRCStatusPanel;

verus! {

/// One of the panels that follow the events.
pub enum Panel {
    /// Message sequence chart
    Chronograph(Chronograph),
    /// RRC state
    RrcStatus(RRCStatusPanel),
    /// RAN configuration
    BstConfig(BstConfig),
    /// Active logical, transport and physical channels
    LogicalChannels(LogicalChannels),
    /// Focused message
    Messages(MessageBox),
    /// Identities of the user equipment
    Identity(Identity),
    /// Resource grid
    ResourceBlocks(ResourceBlocks),
    /// HARQ processes
    Harq(HarqPanel),
}

/// Two panels of the same kind.
pub open spec fn same_kind(a: Panel, b: Panel) -> bool {
    match (a, b) {
        (Panel::Chronograph(_), Panel::Chronograph(_)) => true,
        (Panel::RrcStatus(_), Panel::RrcStatus(_)) => true,
        (Panel::BstConfig(_), Panel::BstConfig(_)) => true,
        (Panel::LogicalChannels(_), Panel::LogicalChannels(_)) => true,
        (Panel::Messages(_), Panel::Messages(_)) => true,
        (Panel::Identity(_), Panel::Identity(_)) => true,
        (Panel::ResourceBlocks(_), Panel::ResourceBlocks(_)) => true,
        (Panel::Harq(_), Panel::Harq(_)) => true,
        _ => false,
    }
}

impl EventSubscriber for Panel {
    /// The panel inside keeps its own invariant.
    open spec fn wf(&self) -> bool {
        match self {
            Panel::Chronograph(p) => EventSubscriber::wf(p),
            Panel::RrcStatus(p) => EventSubscriber::wf(p),
            Panel::BstConfig(p) => EventSubscriber::wf(p),
            Panel::LogicalChannels(p) => EventSubscriber::wf(p),
            Panel::Messages(p) => EventSubscriber::wf(p),
            Panel::Identity(p) => EventSubscriber::wf(p),
            Panel::ResourceBlocks(p) => EventSubscriber::wf(p),
            Panel::Harq(p) => EventSubscriber::wf(p),
        }
    }

    /// Notifies the panel inside.
    fn on_event_added(&mut self, event: &Trace, index: usize, context: &EventContext)
    {
        match self {
            Panel::Chronograph(p) => p.on_event_added(event, index, context),
            Panel::RrcStatus(p) => p.on_event_added(event, index, context),
            Panel::BstConfig(p) => p.on_event_added(event, index, context),
            Panel::LogicalChannels(p) => p.on_event_added(event, index, context),
            Panel::Messages(p) => p.on_event_added(event, index, context),
            Panel::Identity(p) => p.on_event_added(event, index, context),
            Panel::ResourceBlocks(p) => p.on_event_added(event, index, context),
            Panel::Harq(p) => p.on_event_added(event, index, context),
        }
    }

    /// Notifies the panel inside.
    fn on_event_focused(&mut self, event: &Trace, index: usize, context: &EventContext)
    {
        match self {
            Panel::Chronograph(p) => p.on_event_focused(event, index, context),
            Panel::RrcStatus(p) => p.on_event_focused(event, index, context),
            Panel::BstConfig(p) => p.on_event_focused(event, index, context),
            Panel::LogicalChannels(p) => p.on_event_focused(event, index, context),
            Panel::Messages(p) => p.on_event_focused(event, index, context),
            Panel::Identity(p) => p.on_event_focused(event, index, context),
            Panel::ResourceBlocks(p) => p.on_event_focused(event, index, context),
            Panel::Harq(p) => p.on_event_focused(event, index, context),
        }
    }

    /// Notifies the panel inside.
    fn on_events_cleared(&mut self)
    {
        match self {
            Panel::Chronograph(p) => p.on_events_cleared(),
            Panel::RrcStatus(p) => p.on_events_cleared(),
            Panel::BstConfig(p) => p.on_events_cleared(),
            Panel::LogicalChannels(p) => p.on_events_cleared(),
            Panel::Messages(p) => p.on_events_cleared(),
            Panel::Identity(p) => p.on_events_cleared(),
            Panel::ResourceBlocks(p) => p.on_events_cleared(),
            Panel::Harq(p) => p.on_events_cleared(),
        }
    }

    /// Notifies the panel inside.
    fn on_metadata_changed(&mut self, metadata: &FileMetadata)
    {
        match self {
            Panel::Chronograph(p) => p.on_metadata_changed(metadata),
            Panel::RrcStatus(p) => p.on_metadata_changed(metadata),
            Panel::BstConfig(p) => p.on_metadata_changed(metadata),
            Panel::LogicalChannels(p) => p.on_metadata_changed(metadata),
            Panel::Messages(p) => p.on_metadata_changed(metadata),
            Panel::Identity(p) => p.on_metadata_changed(metadata),
            Panel::ResourceBlocks(p) => p.on_metadata_changed(metadata),
            Panel::Harq(p) => p.on_metadata_changed(metadata),
        }
    }

    /// The panel inside, of the same kind after, changed as adding the event changes it.
    open spec fn spec_added(&self, after: Self, event: Trace, index: usize, context: EventContext) -> bool {
        match (*self, after) {
            (Panel::Chronograph(a), Panel::Chronograph(b)) => a.spec_added(b, event, index, context),
            (Panel::RrcStatus(a), Panel::RrcStatus(b)) => a.spec_added(b, event, index, context),
            (Panel::BstConfig(a), Panel::BstConfig(b)) => a.spec_added(b, event, index, context),
            (Panel::LogicalChannels(a), Panel::LogicalChannels(b)) => a.spec_added(b, event, index, context),
            (Panel::Messages(a), Panel::Messages(b)) => a.spec_added(b, event, index, context),
            (Panel::Identity(a), Panel::Identity(b)) => a.spec_added(b, event, index, context),
            (Panel::ResourceBlocks(a), Panel::ResourceBlocks(b)) => a.spec_added(b, event, index, context),
            (Panel::Harq(a), Panel::Harq(b)) => a.spec_added(b, event, index, context),
            _ => false,
        }
    }

    /// The panel inside, of the same kind after, changed as focusing the event changes it.
    open spec fn spec_focused(&self, after: Self, event: Trace, index: usize, context: EventContext) -> bool {
        match (*self, after) {
            (Panel::Chronograph(a), Panel::Chronograph(b)) => a.spec_focused(b, event, index, context),
            (Panel::RrcStatus(a), Panel::RrcStatus(b)) => a.spec_focused(b, event, index, context),
            (Panel::BstConfig(a), Panel::BstConfig(b)) => a.spec_focused(b, event, index, context),
            (Panel::LogicalChannels(a), Panel::LogicalChannels(b)) => a.spec_focused(b, event, index, context),
            (Panel::Messages(a), Panel::Messages(b)) => a.spec_focused(b, event, index, context),
            (Panel::Identity(a), Panel::Identity(b)) => a.spec_focused(b, event, index, context),
            (Panel::ResourceBlocks(a), Panel::ResourceBlocks(b)) => a.spec_focused(b, event, index, context),
            (Panel::Harq(a), Panel::Harq(b)) => a.spec_focused(b, event, index, context),
            _ => false,
        }
    }

    /// The panel inside, of the same kind after, changed as clearing changes it.
    open spec fn spec_cleared(&self, after: Self) -> bool {
        match (*self, after) {
            (Panel::Chronograph(a), Panel::Chronograph(b)) => a.spec_cleared(b),
            (Panel::RrcStatus(a), Panel::RrcStatus(b)) => a.spec_cleared(b),
            (Panel::BstConfig(a), Panel::BstConfig(b)) => a.spec_cleared(b),
            (Panel::LogicalChannels(a), Panel::LogicalChannels(b)) => a.spec_cleared(b),
            (Panel::Messages(a), Panel::Messages(b)) => a.spec_cleared(b),
            (Panel::Identity(a), Panel::Identity(b)) => a.spec_cleared(b),
            (Panel::ResourceBlocks(a), Panel::ResourceBlocks(b)) => a.spec_cleared(b),
            (Panel::Harq(a), Panel::Harq(b)) => a.spec_cleared(b),
            _ => false,
        }
    }

    /// The panel inside, of the same kind after, changed as new metadata changes it.
    open spec fn spec_metadata_changed(&self, after: Self, metadata: FileMetadata) -> bool {
        match (*self, after) {
            (Panel::Chronograph(a), Panel::Chronograph(b)) => a.spec_metadata_changed(b, metadata),
            (Panel::RrcStatus(a), Panel::RrcStatus(b)) => a.spec_metadata_changed(b, metadata),
            (Panel::BstConfig(a), Panel::BstConfig(b)) => a.spec_metadata_changed(b, metadata),
            (Panel::LogicalChannels(a), Panel::LogicalChannels(b)) => a.spec_metadata_changed(b, metadata),
            (Panel::Messages(a), Panel::Messages(b)) => a.spec_metadata_changed(b, metadata),
            (Panel::Identity(a), Panel::Identity(b)) => a.spec_metadata_changed(b, metadata),
            (Panel::ResourceBlocks(a), Panel::ResourceBlocks(b)) => a.spec_metadata_changed(b, metadata),
            (Panel::Harq(a), Panel::Harq(b)) => a.spec_metadata_changed(b, metadata),
            _ => false,
        }
    }

    /// The name of the panel inside.
    open spec fn spec_name(&self) -> &'static str {
        match self {
            Panel::Chronograph(p) => p.spec_name(),
            Panel::RrcStatus(p) => p.spec_name(),
            Panel::BstConfig(p) => p.spec_name(),
            Panel::LogicalChannels(p) => p.spec_name(),
            Panel::Messages(p) => p.spec_name(),
            Panel::Identity(p) => p.spec_name(),
            Panel::ResourceBlocks(p) => p.spec_name(),
            Panel::Harq(p) => p.spec_name(),
        }
    }

    fn name(&self) -> (r: &'static str) {
        match self {
            Panel::Chronograph(p) => p.name(),
            Panel::RrcStatus(p) => p.name(),
            Panel::BstConfig(p) => p.name(),
            Panel::LogicalChannels(p) => p.name(),
            Panel::Messages(p) => p.name(),
            Panel::Identity(p) => p.name(),
            Panel::ResourceBlocks(p) => p.name(),
            Panel::Harq(p) => p.name(),
        }
    }
}

/// An application with every panel subscribed: chronograph, RRC status, RAN
/// configuration, logical channels, messages, identity, resource grid and HARQ.
pub fn create_application_with_panels<D: DataSource>() -> (r: Application<Panel, D>)
    ensures
        r.wf(),
        r.event_store@.events.len() == 0,
        r.data_source is None,
        r.event_bus.subscribers@.len() == 8,
        r.event_bus.subscribers@[0] is Chronograph,
        r.event_bus.subscribers@[1] is RrcStatus,
        r.event_bus.subscribers@[2] is BstConfig,
        r.event_bus.subscribers@[3] is LogicalChannels,
        r.event_bus.subscribers@[4] is Messages,
        r.event_bus.subscribers@[5] is Identity,
        r.event_bus.subscribers@[6] is ResourceBlocks,
        r.event_bus.subscribers@[7] is Harq,
{
    let mut app: Application<Panel, D> = Application::new();
    app.subscribe(Panel::Chronograph(Chronograph::new()));
    app.subscribe(Panel::RrcStatus(RRCStatusPanel::new()));
    app.subscribe(Panel::BstConfig(BstConfig::new()));
    app.subscribe(Panel::LogicalChannels(LogicalChannels::new()));
    app.subscribe(Panel::Messages(MessageBox::new()));
    app.subscribe(Panel::Identity(Identity::new()));
    app.subscribe(Panel::ResourceBlocks(ResourceBlocks::new()));
    app.subscribe(Panel::Harq(HarqPanel::new()));
    app
}

} // verus!
