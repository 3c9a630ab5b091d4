//! Navigation decisions of the front end that may load more data on the way.

use vstd::prelude::*;
use crate::application::{collect_errors, critical_errors, enabled_at, Application, DataSource};
use crate::event_bus::EventSubscriber;
use crate::model::TramexError;

verus! {

/// Kind of connector chosen in the connector panel.
#[derive(Clone, Copy, PartialEq, Eq, Structural, Debug)]
pub enum Choice {
    /// A capture file
    File,
    /// A live WebSocket
    WebSocket,
}

/// What the connector panel reported in a frame.
#[derive(Clone, Copy, PartialEq, Eq, Structural, Debug)]
pub enum ConnectorEvent {
    /// The user asked to close the file or the connection
    CloseRequested,
    /// The panel was shown; `available` tells whether a file or a connection is ready
    Shown {
        /// A file or a connection is ready to be taken
        available: bool,
    },
    /// The connector reported an error
    Failed,
}

/// What the front end does in response to the connector panel.
#[derive(Clone, Copy, PartialEq, Eq, Structural, Debug)]
pub enum ConnectorAction {
    /// Nothing to do
    Nothing,
    /// Put a fresh connector of the same kind, clear all events and forget the source
    Reset,
    /// Take the ready file or connection as the data source; for a file the first batch
    /// is read and processed at once
    TakeSource {
        /// Read and process the first batch now
        load_first_batch: bool,
    },
    /// Report the connector's error
    ReportError,
}

/// State of the connector panel.
#[derive(Clone, Copy, PartialEq, Eq, Structural, Debug)]
pub struct ConnectorState {
    /// Kind of connector chosen
    pub choice: Choice,
    /// A connector of that kind exists
    pub has_connector: bool,
    /// The application has taken a data source from the connector
    pub source_set: bool,
}

/// Whether a connector of the chosen kind must be created: when the choice changed during
/// the frame (it was `previous`) or when there is none yet.
pub fn needs_new_connector(previous: Choice, state: ConnectorState) -> (r: bool)
    ensures
        r == (previous != state.choice || !state.has_connector),
{
    previous != state.choice || !state.has_connector
}

/// The decision of the connector panel for one frame: closing resets the connector and
/// forgets the source; a ready file or connection is taken once, while no source is set
/// (a file's first batch is then loaded); an error is reported; otherwise nothing changes.
pub fn connector_step(state: ConnectorState, event: ConnectorEvent) -> (r: (
    ConnectorState,
    ConnectorAction,
))
    ensures
        match event {
            ConnectorEvent::CloseRequested => r == (
                ConnectorState { has_connector: true, source_set: false, ..state },
                ConnectorAction::Reset,
            ),
            ConnectorEvent::Shown { available } => if available && !state.source_set {
                r == (
                    ConnectorState { source_set: true, ..state },
                    ConnectorAction::TakeSource { load_first_batch: state.choice == Choice::File },
                )
            } else {
                r == (state, ConnectorAction::Nothing)
            },
            ConnectorEvent::Failed => r == (state, ConnectorAction::ReportError),
        },
{
    match event {
        ConnectorEvent::CloseRequested => (
            ConnectorState { choice: state.choice, has_connector: true, source_set: false },
            ConnectorAction::Reset,
        ),
        ConnectorEvent::Shown { available } => {
            if available && !state.source_set {
                let is_file = match state.choice {
                    Choice::File => true,
                    Choice::WebSocket => false,
                };
                (
                    ConnectorState { choice: state.choice, has_connector: state.has_connector, source_set: true },
                    ConnectorAction::TakeSource { load_first_batch: is_file },
                )
            } else {
                (state, ConnectorAction::Nothing)
            }
        },
        ConnectorEvent::Failed => (state, ConnectorAction::ReportError),
    }
}

/// Takes `source` as the data source (clearing all loaded data and telling the
/// subscribers); with `load_first_batch`, asks it for a first batch and updates the
/// application, adding the critical errors of both answers to `errors` (the update is
/// made even when the request failed).
pub fn take_source<S: EventSubscriber, D: DataSource>(
    app: &mut Application<S, D>,
    source: D,
    load_first_batch: bool,
    errors: &mut Vec<TramexError>,
)
    requires
        old(app).wf(),
    ensures
        final(app).wf(),
        final(app).layers == old(app).layers,
        final(app).event_bus.subscribers@.len() == old(app).event_bus.subscribers@.len(),
        !load_first_batch ==> {
            &&& final(app).data_source == Some(source)
            &&& final(app).event_store@.events.len() == 0
            &&& final(errors)@ == old(errors)@
        },
        load_first_batch ==> exists|a0: Application<S, D>,
            a1: Application<S, D>,
            q: Result<(), Vec<TramexError>>,
            u: Result<(), Vec<TramexError>>|
            #[trigger] a0.requested_more_into(a1, q) && #[trigger] a1.updated_into(*final(app), u)
                && a0.data_source == Some(source) && a0.event_store@.events.len() == 0
                && a0.layers == old(app).layers && final(errors)@ == old(errors)@ + match q {
                Ok(()) => Seq::<TramexError>::empty(),
                Err(e) => critical_errors(e@),
            } + match u {
                Ok(()) => Seq::<TramexError>::empty(),
                Err(e) => critical_errors(e@),
            },
{
    app.set_data_source(source);
    if load_first_batch {
        let ghost a0 = *app;
        let ghost e0 = errors@;
        let requested = app.request_more_data();
        let ghost q = requested;
        match requested {
            Ok(()) => {},
            Err(err) => {
                collect_errors(errors, err);
            },
        }
        let ghost a1 = *app;
        let ghost e1 = errors@;
        let updated = app.update();
        let ghost u = updated;
        match updated {
            Ok(()) => {},
            Err(err) => {
                collect_errors(errors, err);
            },
        }
        proof {
            assert(a0.requested_more_into(a1, q));
            assert(a1.updated_into(*app, u));
            assert(e1 == e0 + match q {
                Ok(()) => Seq::<TramexError>::empty(),
                Err(e) => critical_errors(e@),
            });
            assert(errors@ == e0 + match q {
                Ok(()) => Seq::<TramexError>::empty(),
                Err(e) => critical_errors(e@),
            } + match u {
                Ok(()) => Seq::<TramexError>::empty(),
                Err(e) => critical_errors(e@),
            });
        }
    }
}

/// One load from `a0`: the source was asked for more with success (giving `a1`), then the
/// application was updated with the result `r` (giving `after`).
pub open spec fn loaded_once<S: EventSubscriber, D: DataSource>(
    a0: Application<S, D>,
    a1: Application<S, D>,
    after: Application<S, D>,
    r: Result<(), Vec<TramexError>>,
) -> bool {
    a0.requested_more_into(a1, Ok(())) && a1.updated_into(after, r)
}

/// A load from `a0` that failed with the errors `v`: the request for more answered them,
/// or the update that followed a successful request did.
pub open spec fn load_failed<S: EventSubscriber, D: DataSource>(
    a0: Application<S, D>,
    after: Application<S, D>,
    v: Vec<TramexError>,
) -> bool {
    ||| a0.requested_more_into(after, Err(v))
    ||| exists|a1: Application<S, D>| #[trigger] loaded_once(a0, a1, after, Err(v))
}

/// The loading stopped on errors: the last load failed, and the critical ones among its
/// errors were appended to the caller's errors (`errs0` before, `errs` after).
pub open spec fn stopped_on_errors<S: EventSubscriber, D: DataSource>(
    after: Application<S, D>,
    errs0: Seq<TramexError>,
    errs: Seq<TramexError>,
) -> bool {
    exists|a0: Application<S, D>, v: Vec<TramexError>|
        #[trigger] load_failed(a0, after, v) && errs == errs0 + critical_errors(v@)
}

/// The loading stopped on a load that succeeded and brought no event.
pub open spec fn stopped_on_empty_load<S: EventSubscriber, D: DataSource>(
    after: Application<S, D>,
) -> bool {
    exists|a0: Application<S, D>, a1: Application<S, D>|
        #[trigger] loaded_once(a0, a1, after, Ok(())) && after.event_store@.events
            == a0.event_store@.events
}

/// The source has nothing more to give (or there is no source).
pub open spec fn source_exhausted<S: EventSubscriber, D: DataSource>(a: Application<S, D>) -> bool {
    match a.data_source {
        Some(s) => !s.spec_has_more(),
        None => true,
    }
}

/// The focus of `after` is on the first enabled event after the focus of `before`.
pub open spec fn moved_to_next_enabled<S: EventSubscriber, D: DataSource>(
    before: Application<S, D>,
    after: Application<S, D>,
) -> bool {
    let n = after.event_store@.current_index as int;
    &&& before.event_store@.current_index < n
    &&& enabled_at(after.event_store@.events, before.layers, n)
    &&& forall|k: int|
        before.event_store@.current_index < k < n ==> !#[trigger] enabled_at(
            after.event_store@.events,
            before.layers,
            k,
        )
}

/// Whether the source of `a` loads by itself (false without a source).
pub open spec fn auto_loading<S: EventSubscriber, D: DataSource>(a: Application<S, D>) -> bool {
    match a.data_source {
        Some(s) => s.spec_auto_loading(),
        None => false,
    }
}

/// Goes to the next enabled event; when none is loaded, keeps loading batches from the
/// source (while it has more) and tries again. The loading stops when the source is
/// exhausted, when a load fails (its critical errors are added to `errors`), when the store
/// is still empty after a load, or after `usize::MAX` loads that brought no event.
pub fn handle_navigate_next<S: EventSubscriber, D: DataSource>(
    app: &mut Application<S, D>,
    errors: &mut Vec<TramexError>,
)
    requires
        old(app).wf(),
    ensures
        final(app).wf(),
        old(app).event_store@.events.is_prefix_of(final(app).event_store@.events),
        final(app).layers == old(app).layers,
        final(app).event_bus.subscribers@.len() == old(app).event_bus.subscribers@.len(),
        old(app).data_source is None ==> final(app).event_store@.events == old(app).event_store@.events,
        (exists|j: int|
            old(app).event_store@.current_index < j < old(app).event_store@.events.len()
                && #[trigger] enabled_at(old(app).event_store@.events, old(app).layers, j)) ==> {
            &&& final(app).event_store@.events == old(app).event_store@.events
            &&& final(app).data_source == old(app).data_source
            &&& final(errors)@ == old(errors)@
            &&& moved_to_next_enabled(*old(app), *final(app))
        },
        !(exists|j: int|
            old(app).event_store@.current_index < j < old(app).event_store@.events.len()
                && #[trigger] enabled_at(old(app).event_store@.events, old(app).layers, j))
            && old(app).data_source is None ==> {
            &&& final(app).event_store@ == old(app).event_store@
            &&& final(errors)@ == old(errors)@
        },
        moved_to_next_enabled(*old(app), *final(app)) || source_exhausted(*final(app))
            || stopped_on_errors(*final(app), old(errors)@, final(errors)@)
            || stopped_on_empty_load(*final(app)),
        final(errors)@ == old(errors)@ || stopped_on_errors(
            *final(app),
            old(errors)@,
            final(errors)@,
        ),
{
    let mut navigated = app.navigate_next();
    if navigated {
        return;
    }
    let _ = app.event_count();
    let ghost auto0 = auto_loading(*old(app));
    let mut budget: usize = usize::MAX;
    while !navigated
        invariant_except_break
            errors@ == old(errors)@,
        invariant
            app.wf(),
            old(app).event_store@.events.is_prefix_of(app.event_store@.events),
            app.event_store@.events.len() <= usize::MAX,
            app.layers == old(app).layers,
            app.event_bus.subscribers@.len() == old(app).event_bus.subscribers@.len(),
            auto0 == auto_loading(*old(app)),
            match old(app).data_source {
                Some(s0) => app.data_source matches Some(s1) && s1.spec_auto_loading()
                    == s0.spec_auto_loading(),
                None => app.data_source is None && app.event_store@ == old(app).event_store@,
            },
            !navigated ==> forall|k: int|
                app.event_store@.current_index < k < app.event_store@.events.len()
                    ==> !#[trigger] enabled_at(app.event_store@.events, app.layers, k),
            !navigated && !auto0 ==> app.event_store@.current_index
                == old(app).event_store@.current_index,
            navigated ==> moved_to_next_enabled(*old(app), *app),
        ensures
            (moved_to_next_enabled(*old(app), *app) && errors@ == old(errors)@) || (
            source_exhausted(*app) && errors@ == old(errors)@) || stopped_on_errors(
                *app,
                old(errors)@,
                errors@,
            ) || (stopped_on_empty_load(*app) && errors@ == old(errors)@),
        decreases budget, usize::MAX - app.event_store@.events.len(),
    {
        if !app.has_more_data() {
            break;
        }
        let ghost a0 = *app;
        let before = app.event_count();
        let requested = app.request_more_data();
        let ghost q = requested;
        match requested {
            Ok(()) => {},
            Err(err) => {
                let ghost v = err;
                proof {
                    assert(load_failed(a0, *app, v));
                }
                collect_errors(errors, err);
                break;
            },
        }
        let ghost a1 = *app;
        proof {
            let unit: () = q->Ok_0;
            assert(q == Ok::<(), Vec<TramexError>>(unit));
        }
        let updated = app.update();
        let ghost u = updated;
        match updated {
            Ok(()) => {},
            Err(err) => {
                let ghost v = err;
                proof {
                    assert(a1.updated_into(*app, u));
                    assert(loaded_once(a0, a1, *app, Err(v)));
                    assert(load_failed(a0, *app, v));
                }
                collect_errors(errors, err);
                break;
            },
        }
        proof {
            assert(loaded_once(a0, a1, *app, Ok(())));
        }
        let after = app.event_count();
        if after == 0 {
            assert(app.event_store@.events =~= a0.event_store@.events);
            break;
        }
        if after == before {
            assert(app.event_store@.events =~= a0.event_store@.events);
            if budget == 0 {
                break;
            }
            budget = budget - 1;
        }
        proof {
            if app.event_store@.events == a0.event_store@.events {
                assert(app.event_store@ == a0.event_store@);
            } else if auto0 {
                assert(app.event_store@.current_index == app.event_store@.events.len() - 1);
            }
        }
        let ghost pre = *app;
        navigated = app.navigate_next();
        proof {
            if navigated {
                assert(!auto0);
                assert(pre.event_store@.current_index == old(app).event_store@.current_index);
            }
        }
    }
}

/// Loads batches until the event at `target_index` is loaded, then focuses it. The loading
/// stops when the source is exhausted, when a load fails (its critical errors are added to
/// `errors`), or after `usize::MAX` loads that brought no event.
pub fn handle_goto_event<S: EventSubscriber, D: DataSource>(
    app: &mut Application<S, D>,
    target_index: usize,
    errors: &mut Vec<TramexError>,
)
    requires
        old(app).wf(),
    ensures
        final(app).wf(),
        old(app).event_store@.events.is_prefix_of(final(app).event_store@.events),
        final(app).layers == old(app).layers,
        target_index < final(app).event_store@.events.len()
            ==> final(app).event_store@.current_index == target_index,
        old(app).data_source is None ==> final(app).event_store@.events == old(app).event_store@.events,
        target_index < final(app).event_store@.events.len() || source_exhausted(*final(app))
            || stopped_on_errors(*final(app), old(errors)@, final(errors)@)
            || stopped_on_empty_load(*final(app)),
        final(errors)@ == old(errors)@ || exists|a: Application<S, D>|
            #[trigger] stopped_on_errors(a, old(errors)@, final(errors)@)
                && a.event_store@.events == final(app).event_store@.events,
{
    let mut budget: usize = usize::MAX;
    while app.event_count() <= target_index
        invariant_except_break
            errors@ == old(errors)@,
        invariant
            app.wf(),
            old(app).event_store@.events.is_prefix_of(app.event_store@.events),
            app.layers == old(app).layers,
            old(app).data_source is None ==> app.data_source is None && app.event_store@.events
                == old(app).event_store@.events,
            old(app).data_source is Some ==> app.data_source is Some,
        ensures
            (target_index < app.event_store@.events.len() && errors@ == old(errors)@) || (
            source_exhausted(*app) && errors@
                == old(errors)@) || stopped_on_errors(*app, old(errors)@, errors@) || (
            stopped_on_empty_load(*app) && errors@ == old(errors)@),
        decreases budget,
            (if app.event_store@.events.len() <= target_index {
                target_index + 1 - app.event_store@.events.len()
            } else {
                0
            }),
    {
        if !app.has_more_data() {
            break;
        }
        let ghost a0 = *app;
        let before = app.event_count();
        let requested = app.request_more_data();
        let ghost q = requested;
        match requested {
            Ok(()) => {},
            Err(err) => {
                let ghost v = err;
                proof {
                    assert(load_failed(a0, *app, v));
                }
                collect_errors(errors, err);
                break;
            },
        }
        let ghost a1 = *app;
        assert(a0.requested_more_into(a1, q));
        proof {
            assert(q is Ok);
            let unit: () = q->Ok_0;
            assert(q == Ok::<(), Vec<TramexError>>(unit));
        }
        let updated = app.update();
        let ghost u = updated;
        match updated {
            Ok(()) => {},
            Err(err) => {
                let ghost v = err;
                proof {
                    assert(a1.updated_into(*app, u));
                    assert(loaded_once(a0, a1, *app, Err(v)));
                    assert(load_failed(a0, *app, v));
                }
                collect_errors(errors, err);
                break;
            },
        }
        let after = app.event_count();
        if after == before {
            proof {
                assert(loaded_once(a0, a1, *app, Ok(())));
                assert(app.event_store@.events =~= a0.event_store@.events);
            }
            if budget == 0 {
                break;
            }
            budget = budget - 1;
        }
    }
    let ghost stopped = *app;
    if target_index < app.event_count() {
        app.navigate_to(target_index);
    }
    proof {
        if errors@ != old(errors)@ {
            assert(stopped_on_errors(stopped, old(errors)@, errors@));
        }
    }
}

} // verus!
