use tramex::frontend::{connector_step, needs_new_connector, Choice, ConnectorAction, ConnectorEvent, ConnectorState};
use tramex::application::{source_label, Application, DataSource, DataSourceType};
use tramex::event_store::EventStore;
use tramex::model::{
    AdditionalInfos, Direction, FileMetadata, Layer, Layers, RRCInfos, Trace, TraceRelation, TramexError,
};
use tramex::panels::{create_application_with_panels, Panel};
use tramex::file_source::FileSource;

struct ListSource {
    pending: Vec<Trace>,
    auto: bool,
    requests: usize,
}

impl DataSource for ListSource {
    fn spec_polled(&self, _after: Self, _r: Result<Vec<Trace>, Vec<TramexError>>) -> bool {
        true
    }
    fn spec_requested(&self, _after: Self, _layers: Layers, _r: Result<(), Vec<TramexError>>) -> bool {
        true
    }
    fn spec_toggled(&self, _after: Self) -> bool {
        true
    }
    fn spec_metadata(&self) -> Option<FileMetadata> {
        None
    }
    fn poll(&mut self) -> Result<Vec<Trace>, Vec<TramexError>> {
        Ok(std::mem::take(&mut self.pending))
    }
    fn request_more(&mut self, _layers: &Layers) -> Result<(), Vec<TramexError>> {
        self.requests += 1;
        Ok(())
    }
    fn spec_auto_loading(&self) -> bool {
        self.auto
    }
    fn is_auto_loading(&self) -> bool {
        self.auto
    }
    fn toggle_auto_loading(&mut self) {
        self.auto = !self.auto;
    }
    fn spec_has_more(&self) -> bool {
        !self.pending.is_empty()
    }
    fn has_more(&self) -> bool {
        !self.pending.is_empty()
    }
    fn source_type(&self) -> DataSourceType {
        DataSourceType::File { path: "capture.log".to_string(), fully_loaded: false }
    }
    fn total_count(&self) -> Option<usize> {
        None
    }
    fn metadata(&self) -> Option<&FileMetadata> {
        None
    }
}

fn trace(layer: Layer, msg: &str) -> Trace {
    Trace {
        timestamp: 0,
        layer,
        additional_infos: AdditionalInfos::RRCInfos(RRCInfos {
            direction: Direction::UL,
            canal: "DCCH-NR".to_string(),
            canal_msg: msg.to_string(),
        }),
        text: None,
        relation: TraceRelation::none(),
        asn1_json: None,
    }
}

fn plain(layer: Layer) -> Trace {
    Trace {
        timestamp: 0,
        layer,
        additional_infos: AdditionalInfos::Unstructured,
        text: None,
        relation: TraceRelation::none(),
        asn1_json: None,
    }
}

#[test]
fn application_has_every_panel_in_order() {
    let app: Application<Panel, ListSource> = create_application_with_panels();
    assert_eq!(app.subscriber_count(), 8);
    assert_eq!(
        app.panel_names(),
        vec![
            "Chronograph",
            "RRC Status",
            "RAN Config",
            "Logical Channels",
            "Messages",
            "Identity",
            "Resource Blocks",
            "HARQ"
        ]
    );
    assert!(!app.has_data());
    assert!(!app.has_data_source());
}

#[test]
fn navigation_skips_layers_that_are_filtered_out() {
    let mut app: Application<Panel, ListSource> = create_application_with_panels();
    // only RRC is shown at first
    let events = vec![trace(Layer::RRC, "RRC setup request"), plain(Layer::MAC), plain(Layer::PHY), trace(Layer::RRC, "RRC setup")];
    assert!(app.process_new_events(events).is_ok());
    assert_eq!(app.event_count(), 4);
    assert_eq!(app.current_index(), 0);
    assert!(app.navigate_next());
    assert_eq!(app.current_index(), 3);
    // nothing shown after the last one: the focus stays
    assert!(!app.navigate_next());
    assert_eq!(app.current_index(), 3);
    assert!(app.navigate_previous());
    assert_eq!(app.current_index(), 0);
    assert!(app.navigate_to(2));
    assert_eq!(app.current_index(), 2);
    assert!(!app.navigate_to(9));
    assert_eq!(app.current_index(), 2);
}

#[test]
fn auto_loading_source_focuses_the_newest_event() {
    let mut app: Application<Panel, ListSource> = create_application_with_panels();
    let source = ListSource { pending: vec![trace(Layer::RRC, "a"), trace(Layer::RRC, "b")], auto: true, requests: 0 };
    app.set_data_source(source);
    assert!(app.has_data_source());
    assert!(app.is_auto_loading());
    assert!(app.update().is_ok());
    assert_eq!(app.event_count(), 2);
    assert_eq!(app.current_index(), 1);
    assert_eq!(app.data_source_type().as_deref(), Some("File: capture.log"));
    app.clear_all();
    assert_eq!(app.event_count(), 0);
    assert_eq!(app.current_index(), 0);
}

#[test]
fn event_store_next_then_previous_comes_back() {
    let mut store = EventStore::new();
    let range = store.add_events(vec![plain(Layer::RRC), plain(Layer::NAS), plain(Layer::PHY)]);
    assert_eq!(range, 0..3);
    assert!(store.can_go_next());
    assert!(!store.can_go_previous());
    store.go_next();
    store.go_next();
    assert_eq!(store.current_index(), 2);
    assert!(!store.can_go_next());
    assert!(store.go_next().is_none());
    store.go_previous();
    assert_eq!(store.current_index(), 1);
    store.go_next();
    assert_eq!(store.current_index(), 2);
    assert!(store.set_current(5).is_none());
    assert_eq!(store.current_index(), 2);
    store.clear();
    assert!(store.is_empty());
}

#[test]
fn source_labels() {
    assert_eq!(
        source_label(&DataSourceType::WebSocket { url: "ws://127.0.0.1:9001".to_string(), connected: true }),
        "WebSocket: ws://127.0.0.1:9001"
    );
    assert_eq!(source_label(&DataSourceType::File { path: "a.log".to_string(), fully_loaded: true }), "File: a.log");
}

struct Batches {
    batches: Vec<Vec<Trace>>,
    fail: bool,
}

impl tramex::file_source::BatchReader for Batches {
    fn read_batch(&mut self) -> Result<(Vec<Trace>, FileMetadata, bool), Vec<TramexError>> {
        if self.fail {
            return Err(vec![TramexError {
                message: "read error".to_string(),
                code: tramex::model::ErrorCode::NotSet,
            }]);
        }
        let batch = if self.batches.is_empty() { Vec::new() } else { self.batches.remove(0) };
        let mut metadata = FileMetadata::new();
        metadata.technology = tramex::model::Technology::NR;
        Ok((batch, metadata, self.batches.is_empty()))
    }
    fn total_event_count(&self) -> Option<usize> {
        Some(3)
    }
}

#[test]
fn file_source_hands_out_batches_until_the_end() {
    let reader = Batches { batches: vec![vec![plain(Layer::RRC), plain(Layer::NAS)], vec![plain(Layer::PHY)]], fail: false };
    let mut src = FileSource::from_file(reader, "capture.log".to_string());
    assert!(src.has_more());
    assert!(!src.is_auto_loading());
    assert!(src.request_more(&Layers::new()).is_ok());
    assert_eq!(src.loaded_count, 2);
    assert_eq!(src.file_metadata().technology, tramex::model::Technology::NR);
    assert_eq!(src.poll().unwrap().len(), 2);
    assert_eq!(src.poll().unwrap().len(), 0);
    assert!(src.request_more(&Layers::new()).is_ok());
    assert_eq!(src.loaded_count, 3);
    assert!(!src.has_more());
    // read to its end: asking again reads nothing
    assert!(src.request_more(&Layers::new()).is_ok());
    assert_eq!(src.loaded_count, 3);
    assert_eq!(src.total_count(), Some(3));
    assert!(matches!(src.source_type(), DataSourceType::File { fully_loaded: true, .. }));

    let mut broken = FileSource::from_file(Batches { batches: vec![], fail: true }, "x".to_string());
    assert!(broken.request_more(&Layers::new()).is_err());
    assert_eq!(broken.loaded_count, 0);
    assert!(broken.has_more());
}

#[test]
fn application_reads_a_file_on_request() {
    let reader = Batches { batches: vec![vec![trace(Layer::RRC, "a"), trace(Layer::RRC, "b")]], fail: false };
    let mut app: Application<Panel, FileSource<Batches>> = create_application_with_panels();
    app.set_data_source(FileSource::from_file(reader, "f.log".to_string()));
    assert!(app.request_more_data().is_ok());
    assert!(app.update().is_ok());
    assert_eq!(app.event_count(), 2);
    // a file source does not move the focus by itself
    assert_eq!(app.current_index(), 0);
    assert!(!app.has_more_data());
}

fn err(code: tramex::model::ErrorCode, message: &str) -> TramexError {
    TramexError { message: message.to_string(), code }
}

#[test]
fn missing_layer_parsers_are_not_reported() {
    let mut errors = vec![err(tramex::model::ErrorCode::FileNotReady, "first")];
    tramex::application::collect_errors(
        &mut errors,
        vec![
            err(tramex::model::ErrorCode::ParsingLayerNotImplemented, "skip me"),
            err(tramex::model::ErrorCode::FileParsing, "keep me"),
            err(tramex::model::ErrorCode::ParsingLayerNotImplemented, "skip me too"),
        ],
    );
    let messages: Vec<&str> = errors.iter().map(|e| e.message.as_str()).collect();
    assert_eq!(messages, vec!["first", "keep me"]);
}

#[test]
fn goto_event_loads_batches_until_the_target_is_loaded() {
    let reader = Batches {
        batches: vec![
            vec![trace(Layer::RRC, "a"), trace(Layer::RRC, "b")],
            vec![trace(Layer::RRC, "c"), trace(Layer::RRC, "d")],
            vec![trace(Layer::RRC, "e")],
        ],
        fail: false,
    };
    let mut app: Application<Panel, FileSource<Batches>> = create_application_with_panels();
    app.set_data_source(FileSource::from_file(reader, "f.log".to_string()));
    let mut errors = Vec::new();
    tramex::frontend::handle_goto_event(&mut app, 3, &mut errors);
    assert!(errors.is_empty());
    assert_eq!(app.event_count(), 4);
    assert_eq!(app.current_index(), 3);
    assert!(app.has_more_data());
    // a target past the end: everything is read, the focus does not move
    tramex::frontend::handle_goto_event(&mut app, 10, &mut errors);
    assert!(errors.is_empty());
    assert_eq!(app.event_count(), 5);
    assert_eq!(app.current_index(), 3);
    assert!(!app.has_more_data());
}

#[test]
fn goto_event_stops_on_a_failing_reader() {
    let mut app: Application<Panel, FileSource<Batches>> = create_application_with_panels();
    app.set_data_source(FileSource::from_file(Batches { batches: vec![], fail: true }, "x".to_string()));
    let mut errors = Vec::new();
    tramex::frontend::handle_goto_event(&mut app, 0, &mut errors);
    assert_eq!(errors.len(), 1);
    assert_eq!(errors[0].message, "read error");
    assert_eq!(app.event_count(), 0);
}

#[test]
fn navigate_next_loads_until_an_enabled_event() {
    let reader = Batches {
        batches: vec![
            vec![trace(Layer::RRC, "first"), plain(Layer::MAC)],
            vec![plain(Layer::PHY)],
            vec![trace(Layer::RRC, "second")],
        ],
        fail: false,
    };
    let mut app: Application<Panel, FileSource<Batches>> = create_application_with_panels();
    app.set_data_source(FileSource::from_file(reader, "f.log".to_string()));
    assert!(app.request_more_data().is_ok());
    assert!(app.update().is_ok());
    assert_eq!(app.event_count(), 2);
    let mut errors = Vec::new();
    tramex::frontend::handle_navigate_next(&mut app, &mut errors);
    assert!(errors.is_empty());
    assert_eq!(app.event_count(), 4);
    assert_eq!(app.current_index(), 3);
    // nothing enabled after it and nothing more to read: the focus stays
    tramex::frontend::handle_navigate_next(&mut app, &mut errors);
    assert!(errors.is_empty());
    assert_eq!(app.current_index(), 3);
}

#[test]
fn connector_decisions() {
    let idle = ConnectorState { choice: Choice::File, has_connector: true, source_set: false };
    assert!(!needs_new_connector(Choice::File, idle));
    assert!(needs_new_connector(Choice::WebSocket, idle));
    assert!(needs_new_connector(Choice::File, ConnectorState { has_connector: false, ..idle }));
    // a ready file is taken once, with its first batch
    let (taken, action) = connector_step(idle, ConnectorEvent::Shown { available: true });
    assert_eq!(action, ConnectorAction::TakeSource { load_first_batch: true });
    assert!(taken.source_set);
    let (again, action) = connector_step(taken, ConnectorEvent::Shown { available: true });
    assert_eq!(action, ConnectorAction::Nothing);
    assert_eq!(again, taken);
    // a WebSocket is taken without loading
    let ws = ConnectorState { choice: Choice::WebSocket, ..idle };
    assert_eq!(connector_step(ws, ConnectorEvent::Shown { available: true }).1, ConnectorAction::TakeSource { load_first_batch: false });
    assert_eq!(connector_step(ws, ConnectorEvent::Shown { available: false }), (ws, ConnectorAction::Nothing));
    // closing forgets the source
    let (closed, action) = connector_step(taken, ConnectorEvent::CloseRequested);
    assert_eq!(action, ConnectorAction::Reset);
    assert!(!closed.source_set);
    assert_eq!(connector_step(idle, ConnectorEvent::Failed), (idle, ConnectorAction::ReportError));
}

#[test]
fn taking_a_file_source_loads_its_first_batch() {
    let reader = Batches { batches: vec![vec![trace(Layer::RRC, "a")], vec![trace(Layer::RRC, "b")]], fail: false };
    let mut app: Application<Panel, FileSource<Batches>> = create_application_with_panels();
    let mut errors = Vec::new();
    tramex::frontend::take_source(&mut app, FileSource::from_file(reader, "f.log".to_string()), true, &mut errors);
    assert!(errors.is_empty());
    assert_eq!(app.event_count(), 1);
    assert!(app.has_more_data());

    let mut broken: Application<Panel, FileSource<Batches>> = create_application_with_panels();
    tramex::frontend::take_source(
        &mut broken,
        FileSource::from_file(Batches { batches: vec![], fail: true }, "x".to_string()),
        true,
        &mut errors,
    );
    assert_eq!(errors.len(), 1);
    assert_eq!(broken.event_count(), 0);
}

#[test]
fn focusing_and_clearing_reach_every_panel() {
    let mut app: Application<Panel, ListSource> = create_application_with_panels();
    let events = vec![trace(Layer::RRC, "RRC setup request"), trace(Layer::RRC, "RRC setup complete")];
    assert!(app.process_new_events(events).is_ok());
    assert!(app.navigate_to(1));
    match &app.event_bus.subscribers[1] {
        Panel::RrcStatus(p) => {
            assert_eq!(p.current_index, 1);
            assert_eq!(p.rrc_state, tramex::rrc_status::RrcState::Connected);
        },
        _ => panic!("the second panel is the RRC status"),
    }
    assert!(!app.navigate_to(5));
    app.clear_all();
    match &app.event_bus.subscribers[1] {
        Panel::RrcStatus(p) => {
            assert_eq!(p.current_index, 0);
            assert_eq!(p.state_history.len(), 0);
        },
        _ => panic!("the second panel is the RRC status"),
    }
}
