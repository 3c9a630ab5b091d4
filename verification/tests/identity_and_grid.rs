use tramex::format::{decimal, format_hex2, format_int};
use tramex::identity::{decode_tai_list, extract_field, field_or_na, tacs_text, Identity};
use tramex::grid_tooltip::{event_slot_tooltip, event_symbol_tooltip, prb_slot_tooltip, ssb_slot_tooltip, ssb_symbol_tooltip};
use tramex::model::PHYChannelType;
use tramex::resource_blocks::{CachedPHYEvent, ResourceBlocks, ResourceType, SsbConfig};
use tramex::text::{parse_hex_u8, parse_u32, parse_usize, trim, words};

fn lines(v: &[&str]) -> Vec<String> {
    v.iter().map(|s| s.to_string()).collect()
}

#[test]
fn tai_list_of_one_area() {
    let t = decode_tai_list("00 00 f1 10 00 00 01");
    assert_eq!(t.mcc.as_deref(), Some("001"));
    assert_eq!(t.mnc.as_deref(), Some("01"));
    assert_eq!(t.tacs, vec!["000001".to_string()]);
    assert_eq!(tacs_text(&t), "000001");
    // a three-digit MNC
    let t3 = decode_tai_list("00 21 43 65 0A 0B 0C");
    assert_eq!(t3.mcc.as_deref(), Some("123"));
    assert_eq!(t3.mnc.as_deref(), Some("564"));
    assert_eq!(t3.tacs, vec!["0A0B0C".to_string()]);
}

#[test]
fn tai_list_that_cannot_be_decoded_is_kept_raw() {
    let t = decode_tai_list("zz");
    assert_eq!(t.raw_data.as_deref(), Some("zz"));
    assert!(t.mcc.is_none());
    assert_eq!(tacs_text(&t), "N/A");
    let short = decode_tai_list("00 00 f1");
    assert_eq!(short.raw_data.as_deref(), Some("00 00 f1"));
}

#[test]
fn field_extraction_trims_and_refuses_empty_values() {
    assert_eq!(extract_field("    MCC = 001", "MCC =").as_deref(), Some("001"));
    assert_eq!(extract_field("MCC =   ", "MCC ="), None);
    assert_eq!(extract_field("no field here", "MCC ="), None);
    assert_eq!(field_or_na(&None), "N/A");
    assert_eq!(field_or_na(&Some("x".to_string())), "x");
}

#[test]
fn registration_accept_gives_the_guti() {
    let mut id = Identity::new();
    id.parse_nas_identity(&lines(&[
        "Message type = 0x42 (Registration accept)",
        "5G-GUTI:",
        "  MCC = 001",
        "  MNC = 01",
        "  AMF Region ID = 0x01",
        "  AMF Set ID = 0x001",
        "  AMF Pointer = 0x01",
        "  5G-TMSI = 0x12345678",
        "T3512 value: 54 min",
        "  MCC = 999",
    ]));
    assert_eq!(id.nr_guti_mcc.as_deref(), Some("001"));
    assert_eq!(id.nr_guti_mnc.as_deref(), Some("01"));
    assert_eq!(id.nr_guti_amf_region_id.as_deref(), Some("0x01"));
    assert_eq!(id.nr_guti_5g_tmsi.as_deref(), Some("0x12345678"));
}

#[test]
fn other_nas_messages_leave_the_identity_alone() {
    let mut id = Identity::new();
    id.parse_nas_identity(&lines(&["Message type = 0x41 (Registration request)", "5G-GUTI:", "  MCC = 001"]));
    assert!(id.nr_guti_mcc.is_none());
}

#[test]
fn ssb_configuration_lines() {
    assert_eq!(ResourceBlocks::parse_value("a id=3 b", "id="), Some("3"));
    assert_eq!(ResourceBlocks::parse_value("prb=15:21", "prb="), Some("15:21"));
    assert_eq!(ResourceBlocks::parse_value("nothing", "id="), None);
    let c = ResourceBlocks::parse_ssb_config("# SSB: id=0 arfcn=630336 mu=1 L=8 period=20 offset=0 k_ssb=20 prb=15:21 symb=2").unwrap();
    assert_eq!((c.id, c.period_ms, c.prb_start, c.prb_length, c.symbol_start, c.symbol_length), (0, 20, 15, 21, 2, 1));
    // a missing id reads as 0; a missing period refuses the line
    assert_eq!(ResourceBlocks::parse_ssb_config("period=10 prb=1:2 symb=3").unwrap().id, 0);
    assert!(ResourceBlocks::parse_ssb_config("id=1 prb=1:2 symb=3").is_none());
    assert!(ResourceBlocks::parse_ssb_config("period=10 prb=12 symb=3").is_none());
}

#[test]
fn resource_priorities() {
    assert_eq!(ResourceType::Empty.priority(), 0);
    assert_eq!(ResourceType::Dmrs.priority(), 1);
    assert_eq!(ResourceType::Pdsch.priority(), 7);
    assert_eq!(ResourceType::Guard.priority(), 0);
}

#[test]
fn grid_navigation_goes_back_where_it_was() {
    let mut rb = ResourceBlocks::new();
    let spf = rb.slots_per_frame();
    rb.navigate_frame(3);
    assert_eq!(rb.start_slot, 3 * spf);
    rb.navigate_frame(-3);
    assert_eq!(rb.start_slot, 0);
    // it never goes before the first slot
    rb.navigate_frame(-2);
    assert_eq!(rb.start_slot, 0);
    rb.navigate_subframe(1);
    assert_eq!(rb.start_slot, rb.slots_per_subframe as usize);
}

#[test]
fn text_and_number_helpers() {
    assert_eq!(parse_usize("42"), Some(42));
    assert_eq!(parse_usize("+42"), Some(42));
    assert_eq!(parse_usize(""), None);
    assert_eq!(parse_usize("4a"), None);
    assert_eq!(parse_u32("ff", 16), Some(255));
    assert_eq!(parse_u32("FFFFFFFF", 16), Some(u32::MAX));
    assert_eq!(parse_u32("100000000", 16), None);
    assert_eq!(parse_hex_u8("1f"), Some(31));
    assert_eq!(parse_hex_u8("100"), None);
    assert_eq!(trim("  a b \t"), "a b");
    assert_eq!(words("  a  bc d "), vec!["a", "bc", "d"]);
    assert_eq!(decimal(0), "0");
    assert_eq!(decimal(1024), "1024");
    assert_eq!(format_int(-5, 3), "-05");
    assert_eq!(format_int(7, 3), "007");
    assert_eq!(format_int(1234, 2), "1234");
    assert_eq!(format_hex2(10), "0A");
    assert_eq!(format_hex2(255), "FF");
}

#[test]
fn grid_tooltips() {
    let e = CachedPHYEvent {
        trace_index: 0,
        channel_type: PHYChannelType::PDSCH,
        frame: 12,
        slot: 3,
        prb_start: 5,
        prb_length: 10,
        symb_start: 2,
        symb_length: 12,
        timestamp: 0,
    };
    assert_eq!(event_symbol_tooltip(&e, 2), "PDSCH (DL Data)\nFrame 12 | SubFrame 1 | Slot 1\nPRB: 5-14 \nSymbols: 2-13");
    let summary = vec![(ResourceType::Pdcch, 0, 1), (ResourceType::Dmrs, 2, 2)];
    assert_eq!(event_slot_tooltip(&e, 7, &summary), "PDSCH (DL Data) (Slot view)\nFrame 12 | PRB 7");
    let summary2 = vec![(ResourceType::Pdcch, 0, 1), (ResourceType::Pdsch, 2, 13), (ResourceType::Pdsch, 14, 14)];
    assert_eq!(event_slot_tooltip(&e, 7, &summary2), "PDSCH (DL Data) (Slot view)\nFrame 12 | PRB 7\nSymbols: 2-13");
    let c = SsbConfig { id: 0, period_ms: 20, prb_start: 15, prb_length: 21, symbol_start: 2, symbol_length: 1 };
    assert_eq!(ssb_symbol_tooltip(&c), "SSB 0 (Synchronization Signal Block)\nPeriod: 20ms\nPRB: 15-35 \nSymbols: 2-2");
    assert_eq!(ssb_slot_tooltip(&c, &vec![(ResourceType::Ssb, 2, 5)]), "SSB 0 (Slot view)\nPeriod: 20ms | PRB: 15-35\nSymbols: 2-5");
    assert_eq!(
        prb_slot_tooltip(4, 3, 10, 2, &vec![(ResourceType::Pdcch, 0, 1), (ResourceType::Dmrs, 2, 2)]).as_deref(),
        Some("PRB 4 in Slot 3\nFrame 10.1 | 2 symbols active\nPDCCH: symbols 0-1\nDMRS: symbols 2-2")
    );
    assert_eq!(prb_slot_tooltip(4, 3, 10, 2, &vec![]), None);
}
