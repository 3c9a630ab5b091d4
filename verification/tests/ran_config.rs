use tramex::bst_config::{hex_to_decimal, sib_section_of, sst_description, BstConfig, FieldMapping, MessageConfig};
use tramex::event_bus::{EventContext, EventSubscriber};
use tramex::json::{path_is_ok, split_char, walk_path, Json, JsonValue};
use tramex::model::{
    AdditionalInfos, Direction, FileMetadata, Layer, Layers, RRCInfos, Technology, Trace, TraceRelation,
};
use tramex::rrc_field_viewer::RrcFieldViewer;
use tramex::trame_manager::Data;

fn to_json(v: &serde_json::Value) -> Json {
    let value = match v {
        serde_json::Value::Null => JsonValue::Null,
        serde_json::Value::Bool(b) => JsonValue::Bool(*b),
        serde_json::Value::Number(_) => JsonValue::Number,
        serde_json::Value::String(s) => JsonValue::Str(s.clone()),
        serde_json::Value::Array(items) => JsonValue::Array(items.iter().map(to_json).collect()),
        serde_json::Value::Object(map) => {
            JsonValue::Object(map.iter().map(|(k, x)| (k.clone(), to_json(x))).collect())
        }
    };
    Json {
        value,
        compact: serde_json::to_string(v).unwrap(),
        pretty: serde_json::to_string_pretty(v).unwrap(),
    }
}

fn parse(text: &str) -> Json {
    let v: serde_json::Value = serde_json::from_str(text).unwrap();
    to_json(&v)
}

fn rrc_trace(layer: Layer, msg: &str, json: Option<Json>) -> Trace {
    Trace {
        timestamp: 0,
        layer,
        additional_infos: AdditionalInfos::RRCInfos(RRCInfos {
            direction: Direction::DL,
            canal: "BCCH-NR".to_string(),
            canal_msg: msg.to_string(),
        }),
        text: None,
        relation: TraceRelation::none(),
        asn1_json: json,
    }
}

fn nas_trace(lines: &[&str]) -> Trace {
    Trace {
        timestamp: 0,
        layer: Layer::NAS,
        additional_infos: AdditionalInfos::Unstructured,
        text: Some(lines.iter().map(|s| s.to_string()).collect()),
        relation: TraceRelation::none(),
        asn1_json: None,
    }
}

const SIB1_NR: &str = r#"{"message":{"c1":{"systemInformationBlockType1":{
  "cellSelectionInfo":{"q-RxLevMin":-70,"q-QualMin":"dB3"},
  "cellAccessRelatedInfo":{"plmn-IdentityInfoList":[{"plmn-IdentityList":[{"mcc":[0,0,1],"mnc":[0,1]}],
     "trackingAreaCode":{"hex":"000001","length":24},"cellIdentity":{"decimal":4096,"hex":"1000"}}]},
  "servingCellConfigCommon":{"downlinkConfigCommon":{"frequencyInfoDL":{
     "frequencyBandList":[{"freqBandIndicatorNR":78}],
     "scs-SpecificCarrierList":[{"subcarrierSpacing":"kHz30","carrierBandwidth":106}]}},
     "uplinkConfigCommon":{"frequencyInfoUL":{"scs-SpecificCarrierList":[{"subcarrierSpacing":"kHz30","carrierBandwidth":106}]}}}
}}}}"#;

fn field<'a>(fields: &'a [(String, String)], name: &str) -> Option<&'a str> {
    fields.iter().find(|(n, _)| n == name).map(|(_, v)| v.as_str())
}

#[test]
fn split_char_keeps_empty_pieces() {
    let parts = split_char("a..b.", '.');
    assert_eq!(parts, vec!["a", "", "b", ""]);
    assert_eq!(split_char("abc", '.'), vec!["abc"]);
}

#[test]
fn walk_path_follows_fields_and_indices() {
    let j = parse(r#"{"a":{"b":[10,{"c":"x"}]}}"#);
    let v = walk_path(&j, "a.b[1].c").unwrap();
    assert!(matches!(&v.value, JsonValue::Str(s) if s == "x"));
    assert!(walk_path(&j, "a.b[2]").is_none());
    assert!(walk_path(&j, "a.b[x]").is_none());
    assert!(walk_path(&j, "a.missing").is_none());
    // indexing something that is not an array
    assert!(walk_path(&j, "a[0]").is_none());
    // `+1` reads as 1, as `usize::from_str` does
    assert!(walk_path(&j, "a.b[+1].c").is_some());
}

#[test]
fn path_checks_refuse_a_trailing_bracket() {
    assert!(path_is_ok("message.c1.list[0].mcc"));
    assert!(path_is_ok("plain"));
    assert!(!path_is_ok("message.list["));
    assert!(!path_is_ok("list[0é"));
}

#[test]
fn hex_to_decimal_reads_both_bases() {
    assert_eq!(hex_to_decimal("0x01"), Some(1));
    assert_eq!(hex_to_decimal(" 0XfF "), Some(255));
    assert_eq!(hex_to_decimal("42"), Some(42));
    assert_eq!(hex_to_decimal("+7"), Some(7));
    assert_eq!(hex_to_decimal("0x"), None);
    assert_eq!(hex_to_decimal("0x100000000"), None);
    assert_eq!(hex_to_decimal("4294967295"), Some(4294967295));
    assert_eq!(hex_to_decimal("4294967296"), None);
    assert_eq!(hex_to_decimal("-1"), None);
    assert_eq!(hex_to_decimal("abc"), None);
}

#[test]
fn sst_descriptions() {
    assert_eq!(sst_description(1), "eMBB");
    assert_eq!(sst_description(2), "URLLC");
    assert_eq!(sst_description(3), "mMTC");
    assert_eq!(sst_description(4), "V2X");
    assert_eq!(sst_description(0), "Unknown");
    assert_eq!(sst_description(9), "Unknown");
}

#[test]
fn viewer_has_the_sib1_configuration() {
    let v = RrcFieldViewer::new();
    assert_eq!(v.message_configs.len(), 1);
    assert_eq!(v.message_configs[0].canal_msg, "SIB1");
    assert_eq!(v.message_configs[0].fields.len(), 10);
    assert_eq!(v.message_configs[0].fields[4].display_name, "q-RxLevMin");
    assert_eq!(v.message_configs[0].fields[4].unit.as_deref(), Some("dB"));
    assert!(v.current_message_type.is_none());
}

#[test]
fn viewer_shows_the_sib1_fields() {
    let mut v = RrcFieldViewer::new();
    let t = rrc_trace(Layer::RRC, "sib1", Some(parse(SIB1_NR)));
    v.update_fields(&t);
    assert_eq!(v.current_message_type.as_deref(), Some("sib1"));
    let f = &v.current_fields;
    assert_eq!(field(f, "q-RxLevMin"), Some("-70 dB"));
    // the viewer keeps the dB of an ASN.1 value
    assert_eq!(field(f, "q-QualMin"), Some("dB3 dB"));
    assert_eq!(field(f, "mcc"), Some("[0, 0, 1]"));
    assert_eq!(field(f, "mnc"), Some("[0, 1]"));
    assert_eq!(field(f, "cellId"), Some("4096"));
    assert_eq!(field(f, "trackingAreaCode"), Some("0x000001"));
    // the LTE paths lead nowhere in an NR message
    assert_eq!(f.len(), 6);
}

#[test]
fn viewer_ignores_other_messages_and_layers() {
    let mut v = RrcFieldViewer::new();
    v.update_fields(&rrc_trace(Layer::RRC, "SIB1", Some(parse(SIB1_NR))));
    assert!(!v.current_fields.is_empty());
    v.update_fields(&rrc_trace(Layer::RRC, "MIB", Some(parse(SIB1_NR))));
    assert!(v.current_fields.is_empty());
    assert!(v.current_message_type.is_none());
    v.update_fields(&rrc_trace(Layer::NAS, "SIB1", Some(parse(SIB1_NR))));
    assert!(v.current_message_type.is_none());
    // a configured message that could not be decoded: named, with no field
    v.update_fields(&rrc_trace(Layer::RRC, "SIB1", None));
    assert_eq!(v.current_message_type.as_deref(), Some("SIB1"));
    assert!(v.current_fields.is_empty());
}

#[test]
fn viewer_renders_each_kind_of_value() {
    let v = RrcFieldViewer::new();
    let j = parse(r#"{"s":"dB5","n":1.5,"t":true,"z":null,"o":{"hex":7},"p":{"k":1},"a":[1,"x",true,{"q":1}]}"#);
    assert_eq!(v.extract_field(&j, "s").as_deref(), Some("dB5"));
    assert_eq!(v.extract_field(&j, "n").as_deref(), Some("1.5"));
    assert_eq!(v.extract_field(&j, "t").as_deref(), Some("true"));
    assert_eq!(v.extract_field(&j, "z").as_deref(), Some("null"));
    assert_eq!(v.extract_field(&j, "o").as_deref(), Some("0x?"));
    assert_eq!(v.extract_field(&j, "p").as_deref(), Some("{\"k\":1}"));
    assert_eq!(v.extract_field(&j, "a").as_deref(), Some("[1, x, true, ?]"));
    assert_eq!(v.extract_field(&j, "nothing"), None);
}

#[test]
fn viewer_added_configuration_and_clear() {
    let mut v = RrcFieldViewer::new();
    v.add_message_config(MessageConfig {
        canal_msg: "MIB".to_string(),
        fields: vec![FieldMapping {
            display_name: "sfn".to_string(),
            json_path: "message.mib.systemFrameNumber".to_string(),
            unit: None,
        }],
    });
    assert_eq!(v.message_configs.len(), 2);
    let t = rrc_trace(Layer::RRC, "MIB", Some(parse(r#"{"message":{"mib":{"systemFrameNumber":12}}}"#)));
    v.update_fields(&t);
    assert_eq!(field(&v.current_fields, "sfn"), Some("12"));
    v.clear();
    assert!(v.current_fields.is_empty());
    assert!(v.current_message_type.is_none());
    assert_eq!(v.current_index, 0);
    assert_eq!(v.message_configs.len(), 2);
    assert_eq!(v.name(), "RRC Fields");
}

#[test]
fn viewer_refresh_follows_the_focused_trace() {
    let mut v = RrcFieldViewer::new();
    let data = Data {
        events: vec![rrc_trace(Layer::RRC, "MIB", None), rrc_trace(Layer::RRC, "SIB1", Some(parse(SIB1_NR)))],
        current_index: 1,
    };
    v.refresh(&data);
    assert_eq!(v.current_index, 1);
    assert_eq!(v.current_fields.len(), 6);
    // same index: nothing is read again
    v.current_fields.clear();
    v.refresh(&data);
    assert!(v.current_fields.is_empty());
}

#[test]
fn bst_has_the_default_configurations() {
    let b = BstConfig::new();
    let names: Vec<&str> = b.message_configs.iter().map(|c| c.canal_msg.as_str()).collect();
    assert_eq!(names, vec!["SIB1", "SIB2", "SIB3", "SIB"]);
    let counts: Vec<usize> = b.message_configs.iter().map(|c| c.fields.len()).collect();
    assert_eq!(counts, vec![15, 4, 1, 5]);
    assert_eq!(b.name(), "RAN Config");
}

#[test]
fn bst_fills_the_sib1_section() {
    let mut b = BstConfig::new();
    // the message name is matched ignoring case, then upper-cased to pick the section
    b.update_fields(&rrc_trace(Layer::RRC, "sib1", Some(parse(SIB1_NR))));
    let f = &b.sib1_fields;
    assert_eq!(field(f, "q-RxLevMin"), Some("-70 dB"));
    // an ASN.1 value `dB3` shows as `3 dB`
    assert_eq!(field(f, "q-QualMin"), Some("3 dB"));
    assert_eq!(field(f, "mcc"), Some("[0, 0, 1]"));
    assert_eq!(field(f, "cellId"), Some("4096"));
    assert_eq!(field(f, "trackingAreaCode"), Some("0x000001"));
    assert_eq!(field(f, "DL frequencyBandIndicatorNR"), Some("78"));
    assert_eq!(field(f, "DL subcarrierSpacing"), Some("kHz30"));
    assert_eq!(field(f, "DL carrierBandwidth"), Some("106 RB"));
    assert_eq!(field(f, "UL carrierBandwidth"), Some("106 RB"));
    assert!(b.sib2_fields.is_empty());
    assert!(b.sib3_fields.is_empty());
}

#[test]
fn bst_keeps_fields_when_nothing_matches() {
    let mut b = BstConfig::new();
    b.update_fields(&rrc_trace(Layer::RRC, "SIB1", Some(parse(SIB1_NR))));
    let before = b.sib1_fields.clone();
    b.update_fields(&rrc_trace(Layer::RRC, "MIB", Some(parse(SIB1_NR))));
    b.update_fields(&rrc_trace(Layer::RRC, "SIB1", None));
    b.update_fields(&rrc_trace(Layer::PHY, "SIB1", Some(parse("{}"))));
    assert_eq!(b.sib1_fields, before);
}

#[test]
fn bst_lte_sib_fills_the_sib3_section() {
    let mut b = BstConfig::new();
    let j = parse(
        r#"{"message":{"c1":{"systemInformation":{"criticalExtensions":{"systemInformation-r8":{"sib-TypeAndInfo":{"sib3":{
        "cellReselectionInfoCommon":{"q-Hyst":"dB4"},
        "intraFreqCellReselectionInfo":{"q-RxLevMin":-64,"neighCellConfig":{"hex":"01"}}}}}}}}}}"#,
    );
    b.update_fields(&rrc_trace(Layer::RRC, "SIB", Some(j)));
    assert_eq!(field(&b.sib3_fields, "q-Hyst"), Some("4 dB"));
    assert_eq!(field(&b.sib3_fields, "q-RxLevMin"), Some("-64 dBm"));
    assert_eq!(field(&b.sib3_fields, "neighCellConfig"), Some("0x01"));
    assert!(b.sib2_fields.is_empty());
}

#[test]
fn bst_large_arrays_are_written_as_indented_json() {
    let b = BstConfig::new();
    let j = parse(r#"{"a":[1,2,3,4,5,6,7,8,9,10,11],"b":[1,{"x":1}],"c":[1,2],"s":"dB","e":[]}"#);
    let a = b.extract_field(&j, "a").unwrap();
    assert!(a.starts_with("[\n"));
    let bb = b.extract_field(&j, "b").unwrap();
    assert!(bb.contains('\n'));
    assert_eq!(b.extract_field(&j, "c").as_deref(), Some("[1, 2]"));
    // `dB` alone is kept: nothing follows it
    assert_eq!(b.extract_field(&j, "s").as_deref(), Some("dB"));
    assert_eq!(b.extract_field(&j, "e").as_deref(), Some("[]"));
}

const REGISTRATION_ACCEPT: [&str; 16] = [
    "Message type = 0x42 (Registration accept)",
    "5GS registration result:",
    "  Length = 1",
    "Allowed NSSAI:",
    "  S-NSSAI",
    "    Length = 1",
    "    SST = 0x01",
    "  S-NSSAI",
    "    SST = 0x02",
    "    SD = 0x000001",
    "Configured NSSAI:",
    "  S-NSSAI",
    "    SST = 0x01",
    "  S-NSSAI",
    "    SST = abc",
    "T3512 value: 54 min",
];

#[test]
fn bst_reads_the_nssai_lists() {
    let mut b = BstConfig::new();
    let lines: Vec<String> = REGISTRATION_ACCEPT.iter().map(|s| s.to_string()).collect();
    b.parse_nas_nssai(&lines);
    assert_eq!(b.allowed_nssai.len(), 2);
    assert_eq!(b.allowed_nssai[0].sst.as_deref(), Some("1 (eMBB)"));
    assert_eq!(b.allowed_nssai[0].sd, None);
    assert_eq!(b.allowed_nssai[1].sst.as_deref(), Some("2 (URLLC)"));
    assert_eq!(b.allowed_nssai[1].sd.as_deref(), Some("1"));
    assert_eq!(b.configured_nssai.len(), 2);
    assert_eq!(b.configured_nssai[0].sst.as_deref(), Some("1 (eMBB)"));
    // a value that is no number is kept as written
    assert_eq!(b.configured_nssai[1].sst.as_deref(), Some("abc"));
}

#[test]
fn bst_ignores_other_nas_messages() {
    let mut b = BstConfig::new();
    let lines: Vec<String> = REGISTRATION_ACCEPT.iter().map(|s| s.to_string()).collect();
    b.parse_nas_nssai(&lines);
    let other = vec!["Message type = 0x41 (Registration request)".to_string(), "Allowed NSSAI:".to_string()];
    b.parse_nas_nssai(&other);
    assert_eq!(b.allowed_nssai.len(), 2);
}

#[test]
fn bst_as_a_subscriber() {
    let mut b = BstConfig::new();
    let events: Vec<Trace> = Vec::new();
    let layers = Layers::new();
    let mut metadata = FileMetadata::new();
    metadata.technology = Technology::NR;
    let ctx = EventContext { all_events: &events, current_index: 0, layers: &layers, metadata: &metadata };
    b.on_event_added(&rrc_trace(Layer::RRC, "SIB1", Some(parse(SIB1_NR))), 0, &ctx);
    assert_eq!(b.metadata.technology, Technology::NR);
    assert!(!b.sib1_fields.is_empty());
    b.on_event_focused(&nas_trace(&REGISTRATION_ACCEPT), 3, &ctx);
    assert_eq!(b.current_index, 3);
    assert_eq!(b.configured_nssai.len(), 2);
    b.on_events_cleared();
    assert!(b.sib1_fields.is_empty());
    assert!(b.allowed_nssai.is_empty());
    assert!(b.configured_nssai.is_empty());
    assert_eq!(b.current_index, 0);
    assert_eq!(b.message_configs.len(), 4);
}

#[test]
fn sib_section_by_message_name() {
    assert_eq!(sib_section_of("SIB1"), 1);
    assert_eq!(sib_section_of("SIB2"), 2);
    assert_eq!(sib_section_of("SIB3"), 3);
    assert_eq!(sib_section_of("SIB"), 3);
    assert_eq!(sib_section_of("SIB4"), 0);
    assert_eq!(sib_section_of("sib1"), 0);
}
