use tramex::about::AboutPanel;
use tramex::model::{Layer, LayerLogLevel, Layers as LayerFilter, AdditionalInfos, Trace, TraceRelation};
use tramex::navigation::{NavState, NavigationPanel};
use tramex::socket_manager::{is_debug_level, set_level, Layers, LogGet, NextStep, SocketManager};
use tramex::theme::{ArrowColors, ChannelColors, Rgb, ThemeColors};
use tramex::trame_manager::{is_checked, level_for, Data, TrameManager};
use tramex::utils::{set_open, StringSet};

fn plain(layer: Layer) -> Trace {
    Trace {
        timestamp: 0,
        layer,
        additional_infos: AdditionalInfos::Unstructured,
        text: None,
        relation: TraceRelation::none(),
        asn1_json: None,
    }
}

#[test]
fn layers_start_with_phy_rrc_and_nas_at_debug() {
    let l = Layers::new();
    assert_eq!(l.phy, "debug");
    assert_eq!(l.rrc, "debug");
    assert_eq!(l.nas, "debug");
    assert_eq!(l.mac, "warn");
    assert_eq!(l.trx, "warn");
    assert!(is_debug_level(&l.phy));
    assert!(!is_debug_level(&l.mac));
    let mut level = "warn".to_string();
    set_level(&mut level, true);
    assert_eq!(level, "debug");
    set_level(&mut level, false);
    assert_eq!(level, "warn");
}

#[test]
fn log_requests_number_their_messages() {
    let mut m = SocketManager::new();
    assert_eq!(m.msg_id, 1);
    let first = m.get_more_logs();
    let second = m.get_more_logs();
    assert_eq!(first.message_id, 1);
    assert_eq!(second.message_id, 2);
    assert_eq!(m.msg_id, 3);
    assert_eq!(first.message, "log_get");
    assert_eq!((first.timeout, first.min, first.max, first.headers), (1, 64, 2048, false));
    let g = LogGet::new(7, Layers::new());
    assert_eq!(g.message_id, 7);
    assert_eq!(SocketManager::next_step(5, 3), NextStep::FocusNext);
    assert_eq!(SocketManager::next_step(5, 4), NextStep::RequestMore);
    assert_eq!(SocketManager::next_step(0, 0), NextStep::RequestMore);
}

#[test]
fn open_windows_set() {
    let mut open = StringSet::new();
    set_open(&mut open, "Chronograph", true);
    set_open(&mut open, "Chronograph", true);
    assert_eq!(open.len(), 1);
    assert!(open.contains("Chronograph"));
    set_open(&mut open, "HARQ", true);
    assert_eq!(open.len(), 2);
    set_open(&mut open, "Chronograph", false);
    assert!(!open.contains("Chronograph"));
    assert!(open.contains("HARQ"));
    set_open(&mut open, "Nothing", false);
    assert_eq!(open.len(), 1);
}

#[test]
fn theme_palettes() {
    let light = ThemeColors::for_mode(false);
    let dark = ThemeColors::for_mode(true);
    assert_eq!(light, ThemeColors::light());
    assert_eq!(dark, ThemeColors::dark());
    assert_eq!(light.text, Rgb { r: 30, g: 30, b: 30 });
    assert_eq!(light.accent, Rgb { r: 0, g: 100, b: 150 });
    assert_eq!(dark.text_strong, Rgb { r: 255, g: 255, b: 255 });
    assert_eq!(dark.inactive_bg, Rgb { r: 60, g: 60, b: 60 });
    assert_eq!(ChannelColors::red(), Rgb { r: 255, g: 84, b: 84 });
    assert_eq!(ChannelColors::text_on_color(), Rgb { r: 30, g: 30, b: 30 });
    assert_eq!(ArrowColors::current(), Rgb { r: 50, g: 120, b: 220 });
    assert_eq!(ArrowColors::highlight(), ChannelColors::blue());
}

#[test]
fn about_panel() {
    let a = AboutPanel::new();
    assert_eq!(a.name(), "About");
    assert_eq!(a.window_title(), "About");
}

#[test]
fn timestamps_are_written_as_clock_time() {
    assert_eq!(NavigationPanel::format_timestamp(0), "00:00:00.000");
    assert_eq!(NavigationPanel::format_timestamp(37_949_569), "10:32:29.569");
    assert_eq!(NavigationPanel::format_timestamp(90_061_001), "25:01:01.001");
    // negative values keep the signs of truncating division
    assert_eq!(NavigationPanel::format_timestamp(-1_500), "00:00:-1.-500");
}

#[test]
fn navigation_state_and_index_editor() {
    let state = NavState {
        current_index: 4,
        event_count: 10,
        current_event: None,
        total_count: Some(120),
        is_fully_loaded: false,
        ws_info: None,
    };
    assert_eq!(NavigationPanel::current_display(&state), 5);
    assert_eq!(NavigationPanel::max_event(&state), 120);
    assert!(NavigationPanel::can_go_previous(&state));
    assert!(!NavigationPanel::is_at_end(&state));
    let empty = NavState { current_index: 0, event_count: 0, current_event: None, total_count: None, is_fully_loaded: true, ws_info: None };
    assert_eq!(NavigationPanel::current_display(&empty), 0);
    assert_eq!(NavigationPanel::max_event(&empty), 0);
    assert!(!NavigationPanel::can_go_previous(&empty));

    let mut p = NavigationPanel::new();
    p.start_index_edit(5);
    assert!(p.editing_index);
    assert_eq!(p.index_edit_buf, "5");
    p.index_edit_buf = "12".to_string();
    p.commit_index_edit(120);
    assert_eq!(p.should_goto_event, Some(11));
    assert!(!p.editing_index);
    let mut q = NavigationPanel::new();
    q.start_index_edit(1);
    q.index_edit_buf = "0".to_string();
    q.commit_index_edit(120);
    assert_eq!(q.should_goto_event, None);
    q.start_index_edit(1);
    q.index_edit_buf = "121".to_string();
    q.commit_index_edit(120);
    assert_eq!(q.should_goto_event, None);
}

#[test]
fn layer_boxes_and_levels() {
    assert!(is_checked(LayerLogLevel::Debug));
    assert!(!is_checked(LayerLogLevel::Warn));
    assert_eq!(level_for(true), LayerLogLevel::Debug);
    assert_eq!(level_for(false), LayerLogLevel::Warn);
    let _ = LayerFilter::all_debug();
}

#[test]
fn trame_manager_goes_back_to_the_previous_shown_trace() {
    let mut tm = TrameManager::new();
    let mut data = Data {
        events: vec![plain(Layer::RRC), plain(Layer::MAC), plain(Layer::PHY), plain(Layer::RRC), plain(Layer::MAC)],
        current_index: 3,
    };
    tm.go_to_previous_enabled(&mut data);
    assert_eq!(data.current_index, 0);
}

#[test]
fn trame_manager_moves_on_or_asks_for_more() {
    let mut tm = TrameManager::new();
    let mut data = Data {
        events: vec![plain(Layer::RRC), plain(Layer::MAC), plain(Layer::RRC), plain(Layer::MAC), plain(Layer::MAC), plain(Layer::MAC)],
        current_index: 0,
    };
    tm.continue_to_next_enabled(&mut data, false);
    assert_eq!(data.current_index, 2);
    // near the end of what is loaded, more logs are asked for
    assert!(tm.should_get_more_log);
    let mut tm2 = TrameManager::new();
    tm2.continue_to_next_enabled(&mut data, true);
    // nothing shown after: the focus goes to the last loaded trace
    assert_eq!(data.current_index, 5);
    assert!(!tm2.should_get_more_log);
}

#[test]
fn channel_label_colours() {
    let theme = ThemeColors::light();
    let lit = tramex::channels::label_colors(true, ChannelColors::red(), &theme);
    assert_eq!(lit, (Rgb { r: 30, g: 30, b: 30 }, Some(ChannelColors::red())));
    let dark = ThemeColors::dark();
    assert_eq!(tramex::channels::label_colors(false, ChannelColors::red(), &dark), (dark.text, None));
}

#[test]
fn channels_lit_for_rrc_messages() {
    let expect_ul_dcch = true;
    let mut lc = tramex::channels::LogicalChannels::new();
    lc.canal = "DCCH-NR".to_string();
    lc.canal_msg = "RRC setup complete".to_string();
    lc.handle_logic();
    assert_eq!(lc.is_logical_active(tramex::channels::LogicalChannelsEnum::UL_DCCH), expect_ul_dcch);
    assert_eq!(lc.is_transport_active(tramex::channels::TransportChannelsEnum::UL_SCH), expect_ul_dcch);
    assert_eq!(lc.is_physical_active(tramex::channels::PhysicalChannelsEnum::PUSCH), expect_ul_dcch);
    lc.canal = "BCCH-BCH-NR".to_string();
    lc.canal_msg = "MIB".to_string();
    lc.handle_logic();
    assert!(lc.is_logical_active(tramex::channels::LogicalChannelsEnum::BCCH));
    assert!(lc.is_physical_active(tramex::channels::PhysicalChannelsEnum::PBCH));
    lc.canal_msg = "Unknown message".to_string();
    lc.handle_logic();
    assert!(lc.state.is_none());
}
