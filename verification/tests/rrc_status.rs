use tramex::event_bus::{EventContext, EventSubscriber};
use tramex::model::{
    AdditionalInfos, Direction, FileMetadata, Layer, Layers, RRCInfos, Technology, Trace, TraceRelation,
};
use tramex::rrc_status::{line_has_bearer_id, shortcut_active_reason, RRCStatusPanel, RrcState, RrcStateMachine};

fn trace(layer: Layer, additional_infos: AdditionalInfos, text: Option<Vec<String>>) -> Trace {
    Trace { timestamp: 0, layer, additional_infos, text, relation: TraceRelation::none(), asn1_json: None }
}

fn rrc(direction: Direction, canal: &str, msg: &str) -> Trace {
    trace(
        Layer::RRC,
        AdditionalInfos::RRCInfos(RRCInfos {
            direction,
            canal: canal.to_string(),
            canal_msg: msg.to_string(),
        }),
        None,
    )
}

#[test]
fn line_has_bearer_id_detects_srb_and_drb() {
    assert!(line_has_bearer_id("10:32:29.569 [RLC] UL 0001 SRB2 D/C=1 P=1 SI=00 SN=0"));
    assert!(line_has_bearer_id("10:32:29.600 [PDCP] DL 0001 DRB2 D/C=1 SN=0"));
    assert!(!line_has_bearer_id("10:32:29.569 [RLC] UL 0001 D/C=1 P=1 SI=00 SN=0"));
    // Not a valid bearer id (no digits after the prefix)
    assert!(!line_has_bearer_id("some SRB text without a number"));
}

#[test]
fn message_is_case_insensitive() {
    assert!(RrcStateMachine::message_is("RRC setup complete", "RRC setup complete"));
    assert!(RrcStateMachine::message_is("rrc SETUP Complete", "RRC setup complete"));
    assert!(!RrcStateMachine::message_is("RRC setup", "RRC setup complete"));
}

#[test]
fn bare_setup_message_is_pertinent_but_does_not_change_state() {
    let nr = RrcStateMachine::nr();
    assert!(nr.is_pertinent_message("RRC setup"));
    assert!(!RrcStateMachine::message_is("RRC setup", nr.idle_to_connected_msg));
    assert!(!RrcStateMachine::message_is("RRC setup", nr.connection_request_msg));

    let lte = RrcStateMachine::lte();
    assert!(lte.is_pertinent_message("RRC connection setup"));
    assert!(!RrcStateMachine::message_is("RRC connection setup", lte.idle_to_connected_msg));
}

#[test]
fn shortcut_detects_dcch_traffic() {
    let event = rrc(Direction::DL, "DCCH-NR", "DL information transfer");
    assert_eq!(shortcut_active_reason(&event), Some("DCCH traffic"));
}

#[test]
fn shortcut_ignores_common_control_channel() {
    let event = rrc(Direction::UL, "CCCH-NR", "RRC setup request");
    assert_eq!(shortcut_active_reason(&event), None);
}

#[test]
fn shortcut_detects_bearer_traffic_on_rlc_and_pdcp() {
    let rlc = trace(
        Layer::RLC,
        AdditionalInfos::Unstructured,
        Some(vec!["10:32:29.629 [RLC] UL 0001 DRB2 D/C=0 CPT=0 ACK_SN=1".to_string()]),
    );
    assert_eq!(shortcut_active_reason(&rlc), Some("SRB/DRB traffic"));

    let pdcp = trace(
        Layer::PDCP,
        AdditionalInfos::Unstructured,
        Some(vec!["10:32:29.570 [PDCP] DL 0001 SRB1 SN=7".to_string()]),
    );
    assert_eq!(shortcut_active_reason(&pdcp), Some("SRB/DRB traffic"));
}

#[test]
fn shortcut_ignores_other_layers_and_missing_bearer_id() {
    let mac = trace(Layer::MAC, AdditionalInfos::Unstructured, Some(vec!["some MAC line".to_string()]));
    assert_eq!(shortcut_active_reason(&mac), None);

    let rlc_no_bearer = trace(
        Layer::RLC,
        AdditionalInfos::Unstructured,
        Some(vec!["10:32:29.629 [RLC] UL 0001 D/C=0 CPT=0 ACK_SN=1".to_string()]),
    );
    assert_eq!(shortcut_active_reason(&rlc_no_bearer), None);
}

#[test]
fn bearer_id_needs_a_whole_token() {
    assert!(!line_has_bearer_id("xSRB1 is glued"));
    assert!(!line_has_bearer_id("SRB1x"));
    assert!(line_has_bearer_id("\tDRB12\n"));
    assert!(!line_has_bearer_id(""));
}

#[test]
fn lte_connection_cycle_and_navigation_back() {
    let events = vec![
        rrc(Direction::UL, "CCCH", "RRC connection request"),
        rrc(Direction::UL, "DCCH", "RRC connection setup complete"),
        rrc(Direction::DL, "DCCH", "RRC connection release"),
    ];
    let layers = Layers::new_optiniated();
    let mut meta = FileMetadata::new();
    meta.technology = Technology::LTE;
    let mut panel = RRCStatusPanel::new();
    panel.on_metadata_changed(&meta);
    for (i, e) in events.iter().enumerate() {
        let ctx = EventContext { all_events: &events, current_index: 0, layers: &layers, metadata: &meta };
        panel.on_event_added(e, i, &ctx);
    }
    assert_eq!(panel.build_state, RrcState::Idle);
    let ctx = EventContext { all_events: &events, current_index: 1, layers: &layers, metadata: &meta };
    panel.on_event_focused(&events[1], 1, &ctx);
    assert_eq!(panel.rrc_state, RrcState::Connected);
    assert_eq!(panel.direction, Some(Direction::UL));
    panel.on_event_focused(&events[2], 2, &ctx);
    assert_eq!(panel.rrc_state, RrcState::Idle);
    assert_eq!(panel.direction, Some(Direction::DL));
    panel.on_event_focused(&events[0], 0, &ctx);
    assert_eq!(panel.rrc_state, RrcState::Idle);
    panel.on_events_cleared();
    assert_eq!(panel.state_history.len(), 0);
    assert_eq!(panel.technology, Technology::Unknown);
}

#[test]
fn nr_suspend_and_resume() {
    let events = vec![
        rrc(Direction::UL, "DCCH-NR", "RRC setup complete"),
        rrc(Direction::DL, "DCCH-NR", "RRC suspendConfig"),
        rrc(Direction::UL, "DCCH-NR", "RRC resume complete"),
    ];
    let layers = Layers::new_optiniated();
    let mut meta = FileMetadata::new();
    meta.technology = Technology::NR;
    let mut panel = RRCStatusPanel::new();
    panel.on_metadata_changed(&meta);
    let ctx = EventContext { all_events: &events, current_index: 0, layers: &layers, metadata: &meta };
    panel.on_event_added(&events[0], 0, &ctx);
    assert_eq!(panel.build_state, RrcState::Connected);
    panel.on_event_added(&events[1], 1, &ctx);
    assert_eq!(panel.build_state, RrcState::Inactive);
    panel.on_event_added(&events[2], 2, &ctx);
    assert_eq!(panel.build_state, RrcState::Connected);
    // the display stays on the focused (first) event
    assert_eq!(panel.rrc_state, RrcState::Connected);
    panel.on_event_focused(&events[1], 1, &ctx);
    assert_eq!(panel.rrc_state, RrcState::Inactive);
}

#[test]
fn focus_before_any_recorded_state_shows_idle() {
    let events = vec![
        trace(Layer::PHY, AdditionalInfos::Unstructured, None),
        rrc(Direction::UL, "DCCH", "RRC connection setup complete"),
    ];
    let layers = Layers::new_optiniated();
    let mut meta = FileMetadata::new();
    meta.technology = Technology::LTE;
    let mut panel = RRCStatusPanel::new();
    panel.on_metadata_changed(&meta);
    let ctx = EventContext { all_events: &events, current_index: 0, layers: &layers, metadata: &meta };
    panel.on_event_added(&events[0], 0, &ctx);
    panel.on_event_added(&events[1], 1, &ctx);
    panel.on_event_focused(&events[1], 1, &ctx);
    assert_eq!(panel.rrc_state, RrcState::Connected);
    assert_eq!(panel.canal_msg, Some("RRC connection setup complete".to_string()));
    panel.on_event_focused(&events[0], 0, &ctx);
    assert_eq!(panel.rrc_state, RrcState::Idle);
    assert_eq!(panel.canal, None);
    assert_eq!(panel.canal_msg, None);
    assert_eq!(panel.direction, None);
}
