use tramex::chronograph::{Chronograph, Hardware, MessageArrow};
use tramex::event_bus::{EventContext, EventSubscriber};
use tramex::harq::{compute_hfn, fmt_opt, harq_color, HarqArrow, HarqPanel, HfnTracker};
use tramex::model::{
    AdditionalInfos, Direction, FileMetadata, Layer, Layers, PHYChannelData, PHYChannelType, PHYInfos, RRCInfos,
    Trace, TraceRelation,
};
use tramex::power::{global_slot, Metric, PowerPanel, PowerSample};
use tramex::theme::Rgb;

fn phy(direction: Direction, channel_type: PHYChannelType, frame: u16, slot: u8, harq: Option<u8>, data: PHYChannelData) -> Trace {
    Trace {
        timestamp: 0,
        layer: Layer::PHY,
        additional_infos: AdditionalInfos::PHYInfos(PHYInfos {
            direction,
            channel_type,
            frame,
            slot,
            harq,
            harq_si: false,
            prb_start: 0,
            prb_length: 10,
            symb_start: 0,
            symb_length: 14,
            channel_data: data,
        }),
        text: None,
        relation: TraceRelation::none(),
        asn1_json: None,
    }
}

fn pdsch(frame: u16, slot: u8, harq: u8) -> Trace {
    phy(Direction::DL, PHYChannelType::PDSCH, frame, slot, Some(harq), PHYChannelData::Pdsch { retx: Some(0), rv_idx: Some(0) })
}

fn pusch(frame: u16, slot: u8, measured: bool) -> Trace {
    phy(
        Direction::UL,
        PHYChannelType::PUSCH,
        frame,
        slot,
        Some(1),
        PHYChannelData::Pusch { retx: None, rv_idx: Some(2), crc: Some(true), ack: Some(false), has_measurements: measured },
    )
}

fn rrc(layer: Layer, direction: Direction, msg: &str) -> Trace {
    Trace {
        timestamp: 0,
        layer,
        additional_infos: AdditionalInfos::RRCInfos(RRCInfos {
            direction,
            canal: "DCCH-NR".to_string(),
            canal_msg: msg.to_string(),
        }),
        text: None,
        relation: TraceRelation::none(),
        asn1_json: None,
    }
}

#[test]
fn harq_palette_wraps_every_sixteen() {
    assert_eq!(harq_color(0), Rgb { r: 230, g: 25, b: 75 });
    assert_eq!(harq_color(15), Rgb { r: 255, g: 215, b: 180 });
    assert_eq!(harq_color(16), harq_color(0));
    assert_eq!(harq_color(255), harq_color(15));
    assert_eq!(fmt_opt(None), "-");
    assert_eq!(fmt_opt(Some(7)), "7");
}

#[test]
fn harq_arrows_and_their_labels() {
    let pdcch = phy(
        Direction::DL,
        PHYChannelType::PDCCH,
        12,
        3,
        None,
        PHYChannelData::Pdcch { dci: "1_1".to_string(), harq_process: Some(4), ndi: Some(1), rv_idx: None },
    );
    let a = HarqArrow::from_trace(&pdcch, 9).unwrap();
    assert_eq!(a.label, "12:3 PDCCH dci=1_1 ndi=1 rv_idx=-");
    assert_eq!(a.harq, Some(4));
    assert_eq!(a.trace_index, 9);
    let u = HarqArrow::from_trace(&pusch(5, 1, false), 0).unwrap();
    assert_eq!(u.label, "5:1 PUSCH retx=- rv_idx=2 crc=OK, NACK");
    let pucch1 = phy(Direction::UL, PHYChannelType::PUCCH, 7, 8, None, PHYChannelData::Pucch { format: Some(1), ack: Some(true), has_measurements: false });
    let p = HarqArrow::from_trace(&pucch1, 0).unwrap();
    assert_eq!(p.label, "7:8 PUCCH ACK");
    assert_eq!(p.harq, None);
    // a PUCCH of another format carries no HARQ feedback
    let pucch2 = phy(Direction::UL, PHYChannelType::PUCCH, 7, 8, None, PHYChannelData::Pucch { format: Some(2), ack: None, has_measurements: false });
    assert!(HarqArrow::from_trace(&pucch2, 0).is_none());
    // a PDCCH without HARQ process (system information) is skipped
    let sib = phy(Direction::DL, PHYChannelType::PDCCH, 1, 1, None, PHYChannelData::Pdcch { dci: "1_0".to_string(), harq_process: None, ndi: None, rv_idx: None });
    assert!(HarqArrow::from_trace(&sib, 0).is_none());
    assert!(HarqArrow::from_trace(&rrc(Layer::RRC, Direction::UL, "x"), 0).is_none());
}

#[test]
fn hyper_frame_number_follows_wraps() {
    let mut t = HfnTracker { has_first_event: false, end_limit: (0, 0, 0) };
    assert_eq!(compute_hfn(&mut t, 1000, 5), 0);
    assert_eq!(compute_hfn(&mut t, 1020, 0), 0);
    // the frame number wrapped: next hyper frame
    assert_eq!(compute_hfn(&mut t, 3, 0), 1);
    assert_eq!(t.end_limit, (1, 3, 0));
    // a late event from before the wrap belongs to the previous hyper frame
    assert_eq!(compute_hfn(&mut t, 1021, 0), 0);
    assert_eq!(t.end_limit, (1, 3, 0));
    // a small step back stays in the same hyper frame
    assert_eq!(compute_hfn(&mut t, 2, 0), 1);
}

#[test]
fn harq_timeline_is_kept_in_time_order() {
    let mut panel = HarqPanel::new();
    panel.add_event(&pdsch(10, 4, 1), 0);
    panel.add_event(&pdsch(10, 2, 2), 1);
    panel.add_event(&pdsch(11, 0, 1), 2);
    // the same trace twice is recorded once
    panel.add_event(&pdsch(11, 0, 1), 2);
    let order: Vec<usize> = panel.arrows.iter().map(|a| a.trace_index).collect();
    assert_eq!(order, vec![1, 0, 2]);
    assert_eq!(panel.buffered_range(), Some((0, 2)));
    assert_eq!(panel.legend_harqs(), vec![1, 2]);
    assert_eq!(panel.displayed(), vec![0, 1, 2]);
    panel.toggle_filter(1);
    assert_eq!(panel.filter_harq, Some(1));
    assert_eq!(panel.displayed(), vec![1, 2]);
    panel.toggle_filter(1);
    assert_eq!(panel.filter_harq, None);
}

#[test]
fn harq_window_is_rebuilt_around_an_event() {
    let events: Vec<Trace> = (0..300u16).map(|i| pdsch(i, 0, (i % 8) as u8)).collect();
    let mut panel = HarqPanel::new();
    panel.rebuild_window(&events, 250);
    // fifty arrows back to the focused one, then forward to the last event
    assert_eq!(panel.arrows.len(), 99);
    assert_eq!(panel.buffered_range(), Some((201, 299)));
    assert!(panel.needs_rebuild(&events, 10));
    assert!(!panel.needs_rebuild(&events, 250));
}

#[test]
fn power_samples() {
    assert_eq!(global_slot(1, 2, 3), 20523);
    assert_eq!(global_slot(0, 0, 0), 0);
    assert_eq!(Metric::Epre.title(), "EPRE (dB)");
    assert_eq!(Metric::Csi.title(), "CSI");
    assert_eq!(PowerPanel::channel_color(PHYChannelType::PUCCH), Rgb { r: 255, g: 220, b: 0 });
    assert_eq!(PowerPanel::channel_color(PHYChannelType::PUSCH), Rgb { r: 0, g: 180, b: 180 });
    assert!(PowerSample::from_trace(&pusch(1, 1, false), 0).is_none());
    let s = PowerSample::from_trace(&pusch(3, 4, true), 6).unwrap();
    assert_eq!((s.trace_index, s.frame, s.slot, s.hfn), (6, 3, 4, 0));

    let mut panel = PowerPanel::new();
    panel.add_event(&pusch(2, 0, true), 0);
    panel.add_event(&pusch(1, 5, true), 1);
    panel.add_event(&pdsch(1, 6, 0), 2);
    let order: Vec<usize> = panel.samples.iter().map(|s| s.trace_index).collect();
    assert_eq!(order, vec![1, 0]);
    assert_eq!(panel.visible(), vec![0, 1]);
    panel.center_on(1000);
    assert_eq!(panel.start_slot, 1000 - panel.window_total_slots() / 2);
    panel.center_on(1);
    assert_eq!(panel.start_slot, 0);
    panel.shift_slots(40);
    assert_eq!(panel.start_slot, 40);
    panel.shift_slots(-100);
    assert_eq!(panel.start_slot, 0);
}

#[test]
fn chronograph_arrows_go_between_the_right_ends() {
    let a = MessageArrow::from_trace(&rrc(Layer::RRC, Direction::UL, "RRC setup request"), 3).unwrap();
    assert_eq!((a.from, a.to), (Hardware::UE, Hardware::BST));
    assert_eq!(a.message, "RRC setup request");
    let b = MessageArrow::from_trace(&rrc(Layer::NGAP, Direction::FROM, "Initial context setup"), 4).unwrap();
    assert_eq!((b.from, b.to), (Hardware::CN, Hardware::BST));
    assert!(MessageArrow::from_trace(&rrc(Layer::RRC, Direction::TO, "x"), 0).is_none());
    assert!(MessageArrow::from_trace(&pdsch(1, 1, 1), 0).is_none());

    let mut chrono = Chronograph::new();
    let events: Vec<Trace> = Vec::new();
    let layers = Layers::new();
    let metadata = FileMetadata::new();
    let ctx = EventContext { all_events: &events, current_index: 0, layers: &layers, metadata: &metadata };
    chrono.on_event_added(&rrc(Layer::RRC, Direction::UL, "first"), 0, &ctx);
    chrono.on_event_added(&pdsch(1, 1, 1), 1, &ctx);
    chrono.on_event_added(&rrc(Layer::RRC, Direction::DL, "second"), 2, &ctx);
    assert_eq!(chrono.arrows.len(), 2);
    chrono.on_event_focused(&rrc(Layer::RRC, Direction::DL, "second"), 2, &ctx);
    assert_eq!(chrono.current_position(), Some(1));
    chrono.on_events_cleared();
    assert!(chrono.arrows.is_empty());
}
