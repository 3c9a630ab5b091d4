//! RRC field viewer: shows chosen fields of the decoded ASN.1 of RRC messages, each
//! found by a dotted path into the message's JSON.

use vstd::prelude::*;
use crate::identity::opt_view;
use crate::json::{
    bool_string, bool_text, lemma_path_ok, list_string, list_text, object_string, object_text,
    path_is_ok, path_ok, spec_split, walk, walk_path, Json, JsonValue,
};
use crate::model::{AdditionalInfos, Layer, Trace};
use crate::text::{chars_of, eq_ignore_case, eq_ignore_case_exec, owned};
use crate::trame_manager::Data;

verus! {

/// Configuration for a field to extract and display.
#[derive(Clone, Debug)]
pub struct FieldMapping {
    /// Display name for the field
    pub display_name: String,
    /// JSON path to the field (e.g. `message.c1.systemInformationBlockType1.cellSelectionInfo.q-RxLevMin`)
    pub json_path: String,
    /// Optional unit to display (e.g. `dB`, `dBm`)
    pub unit: Option<String>,
}

/// A field mapping as plain texts: name, path and unit.
pub type MappingView = (Seq<char>, Seq<char>, Option<Seq<char>>);

impl View for FieldMapping {
    type V = MappingView;

    open spec fn view(&self) -> MappingView {
        (self.display_name@, self.json_path@, opt_view(self.unit))
    }
}

/// Configuration for parsing a specific message type.
#[derive(Clone, Debug)]
pub struct MessageConfig {
    /// Message name to match (e.g. `SIB1`, `MIB`), ignoring ASCII case
    pub canal_msg: String,
    /// Fields to extract from this message type
    pub fields: Vec<FieldMapping>,
}

impl View for MessageConfig {
    type V = (Seq<char>, Seq<MappingView>);

    open spec fn view(&self) -> (Seq<char>, Seq<MappingView>) {
        (self.canal_msg@, self.fields@.map_values(|m: FieldMapping| m@))
    }
}

/// Every path of the mappings can be walked.
pub open spec fn mappings_ok(fields: Seq<MappingView>) -> bool {
    forall|k: int| 0 <= k < fields.len() ==> path_ok(#[trigger] fields[k].1)
}

/// Every path of every configuration can be walked.
pub open spec fn configs_ok(configs: Seq<(Seq<char>, Seq<MappingView>)>) -> bool {
    forall|i: int| 0 <= i < configs.len() ==> mappings_ok(#[trigger] configs[i].1)
}

/// Index of the first configuration at or after `i` whose name equals `msg` ignoring
/// ASCII case.
pub open spec fn first_config(configs: Seq<(Seq<char>, Seq<MappingView>)>, msg: Seq<char>, i: int) -> Option<int>
    decreases configs.len() - i,
{
    if i < 0 || i >= configs.len() {
        None
    } else if eq_ignore_case(configs[i].0, msg) {
        Some(i)
    } else {
        first_config(configs, msg, i + 1)
    }
}

/// The configuration found is one of those searched, and its name matches.
pub proof fn lemma_first_config(configs: Seq<(Seq<char>, Seq<MappingView>)>, msg: Seq<char>, j: int)
    requires
        j >= 0,
    ensures
        match first_config(configs, msg, j) {
            Some(i) => j <= i < configs.len() && eq_ignore_case(configs[i].0, msg),
            None => true,
        },
    decreases configs.len() - j,
{
    if j < configs.len() && !eq_ignore_case(configs[j].0, msg) {
        lemma_first_config(configs, msg, j + 1);
    }
}

/// A value followed by its unit, separated by a space.
pub open spec fn with_unit(value: Seq<char>, unit: Option<Seq<char>>) -> Seq<char> {
    match unit {
        Some(u) => value + " "@ + u,
        None => value,
    }
}

/// What the viewer shows of a value: a string as it is, a number's text, a boolean,
/// an object as `object_text` says, an array as `list_text` says, or `null`.
pub open spec fn viewer_text(j: Json) -> Seq<char> {
    match j.value {
        JsonValue::Str(s) => s@,
        JsonValue::Number => j.compact@,
        JsonValue::Bool(b) => bool_text(b),
        JsonValue::Object(_) => object_text(j),
        JsonValue::Array(items) => list_text(items@),
        JsonValue::Null => "null"@,
    }
}

/// What the viewer shows of the value at `path`, if the path leads anywhere.
pub open spec fn viewer_extract(json: Json, path: Seq<char>) -> Option<Seq<char>> {
    match walk(json, spec_split(path, '.')) {
        Some(v) => Some(viewer_text(v)),
        None => None,
    }
}

/// The (name, value) pairs shown for a message: one for each mapping whose path leads
/// somewhere, in the order of the mappings.
pub open spec fn viewer_fields(fields: Seq<MappingView>, json: Json) -> Seq<(Seq<char>, Seq<char>)>
    decreases fields.len(),
{
    if fields.len() == 0 {
        Seq::empty()
    } else {
        let before = viewer_fields(fields.drop_last(), json);
        let m = fields.last();
        match viewer_extract(json, m.1) {
            Some(v) => before.push((m.0, with_unit(v, m.2))),
            None => before,
        }
    }
}

/// What the viewer shows for a trace: the message's name and its fields when it is an
/// RRC message whose name has a configuration (no fields where it was not decoded);
/// else no name and no field.
pub open spec fn viewer_state(configs: Seq<(Seq<char>, Seq<MappingView>)>, trace: Trace) -> (
    Option<Seq<char>>,
    Seq<(Seq<char>, Seq<char>)>,
) {
    match trace.additional_infos {
        AdditionalInfos::RRCInfos(infos) => if trace.layer == Layer::RRC {
            match first_config(configs, infos.canal_msg@, 0) {
                Some(ci) => (
                    Some(infos.canal_msg@),
                    match trace.asn1_json {
                        Some(json) => viewer_fields(configs[ci].1, json),
                        None => Seq::empty(),
                    },
                ),
                None => (None, Seq::empty()),
            }
        } else {
            (None, Seq::empty())
        },
        _ => (None, Seq::empty()),
    }
}

/// Pairs of texts as plain sequences.
pub open spec fn pairs_view(v: Seq<(String, String)>) -> Seq<(Seq<char>, Seq<char>)> {
    v.map_values(|p: (String, String)| (p.0@, p.1@))
}

/// The mappings shown for SIB1 (LTE and NR paths).
pub open spec fn sib1_viewer_mappings() -> Seq<MappingView> {
    seq![
        ("mcc"@, "message.c1.systemInformationBlockType1.cellAccessRelatedInfo.plmn-IdentityList[0].plmn-Identity.mcc"@, None),
        ("mnc"@, "message.c1.systemInformationBlockType1.cellAccessRelatedInfo.plmn-IdentityList[0].plmn-Identity.mnc"@, None),
        ("cellId"@, "message.c1.systemInformationBlockType1.cellAccessRelatedInfo.cellIdentity"@, None),
        ("trackingAreaCode"@, "message.c1.systemInformationBlockType1.cellAccessRelatedInfo.trackingAreaCode"@, None),
        ("q-RxLevMin"@, "message.c1.systemInformationBlockType1.cellSelectionInfo.q-RxLevMin"@, Some("dB"@)),
        ("q-QualMin"@, "message.c1.systemInformationBlockType1.cellSelectionInfo.q-QualMin"@, Some("dB"@)),
        ("mcc"@, "message.c1.systemInformationBlockType1.cellAccessRelatedInfo.plmn-IdentityInfoList[0].plmn-IdentityList[0].mcc"@, None),
        ("mnc"@, "message.c1.systemInformationBlockType1.cellAccessRelatedInfo.plmn-IdentityInfoList[0].plmn-IdentityList[0].mnc"@, None),
        ("cellId"@, "message.c1.systemInformationBlockType1.cellAccessRelatedInfo.plmn-IdentityInfoList[0].cellIdentity"@, None),
        ("trackingAreaCode"@, "message.c1.systemInformationBlockType1.cellAccessRelatedInfo.plmn-IdentityInfoList[0].trackingAreaCode"@, None),
    ]
}

/// Every path of the default SIB1 mappings can be walked.
pub proof fn lemma_sib1_viewer_paths_ok()
    ensures
        mappings_ok(sib1_viewer_mappings()),
{
    reveal_strlit("message.c1.systemInformationBlockType1.cellAccessRelatedInfo.plmn-IdentityList[0].plmn-Identity.mcc");
    lemma_path_ok("message.c1.systemInformationBlockType1.cellAccessRelatedInfo.plmn-IdentityList[0].plmn-Identity.mcc"@);
    reveal_strlit("message.c1.systemInformationBlockType1.cellAccessRelatedInfo.plmn-IdentityList[0].plmn-Identity.mnc");
    lemma_path_ok("message.c1.systemInformationBlockType1.cellAccessRelatedInfo.plmn-IdentityList[0].plmn-Identity.mnc"@);
    reveal_strlit("message.c1.systemInformationBlockType1.cellAccessRelatedInfo.cellIdentity");
    lemma_path_ok("message.c1.systemInformationBlockType1.cellAccessRelatedInfo.cellIdentity"@);
    reveal_strlit("message.c1.systemInformationBlockType1.cellAccessRelatedInfo.trackingAreaCode");
    lemma_path_ok("message.c1.systemInformationBlockType1.cellAccessRelatedInfo.trackingAreaCode"@);
    reveal_strlit("message.c1.systemInformationBlockType1.cellSelectionInfo.q-RxLevMin");
    lemma_path_ok("message.c1.systemInformationBlockType1.cellSelectionInfo.q-RxLevMin"@);
    reveal_strlit("message.c1.systemInformationBlockType1.cellSelectionInfo.q-QualMin");
    lemma_path_ok("message.c1.systemInformationBlockType1.cellSelectionInfo.q-QualMin"@);
    reveal_strlit("message.c1.systemInformationBlockType1.cellAccessRelatedInfo.plmn-IdentityInfoList[0].plmn-IdentityList[0].mcc");
    lemma_path_ok("message.c1.systemInformationBlockType1.cellAccessRelatedInfo.plmn-IdentityInfoList[0].plmn-IdentityList[0].mcc"@);
    reveal_strlit("message.c1.systemInformationBlockType1.cellAccessRelatedInfo.plmn-IdentityInfoList[0].plmn-IdentityList[0].mnc");
    lemma_path_ok("message.c1.systemInformationBlockType1.cellAccessRelatedInfo.plmn-IdentityInfoList[0].plmn-IdentityList[0].mnc"@);
    reveal_strlit("message.c1.systemInformationBlockType1.cellAccessRelatedInfo.plmn-IdentityInfoList[0].cellIdentity");
    lemma_path_ok("message.c1.systemInformationBlockType1.cellAccessRelatedInfo.plmn-IdentityInfoList[0].cellIdentity"@);
    reveal_strlit("message.c1.systemInformationBlockType1.cellAccessRelatedInfo.plmn-IdentityInfoList[0].trackingAreaCode");
    lemma_path_ok("message.c1.systemInformationBlockType1.cellAccessRelatedInfo.plmn-IdentityInfoList[0].trackingAreaCode"@);
}

/// A field mapping.
pub fn mapping(name: &str, path: &str, unit: Option<&str>) -> (r: FieldMapping)
    ensures
        r@ == (name@, path@, match unit {
            Some(u) => Some(u@),
            None => None,
        }),
{
    FieldMapping {
        display_name: owned(name),
        json_path: owned(path),
        unit: match unit {
            Some(u) => Some(owned(u)),
            None => None,
        },
    }
}

/// Whether every path of the mappings can be walked.
pub fn mappings_are_ok(fields: &Vec<FieldMapping>) -> (r: bool)
    ensures
        r == mappings_ok(fields@.map_values(|m: FieldMapping| m@)),
{
    let ghost mv = fields@.map_values(|m: FieldMapping| m@);
    let n = fields.len();
    let mut k: usize = 0;
    while k < n
        invariant
            n == fields@.len(),
            mv == fields@.map_values(|m: FieldMapping| m@),
            k <= n,
            forall|i: int| 0 <= i < k ==> path_ok(#[trigger] mv[i].1),
        decreases n - k,
    {
        if !path_is_ok(fields[k].json_path.as_str()) {
            assert(!path_ok(mv[k as int].1));
            return false;
        }
        k = k + 1;
    }
    true
}

/// Index of the first configuration whose name equals `msg` ignoring ASCII case.
pub fn find_config(configs: &Vec<MessageConfig>, msg: &str) -> (r: Option<usize>)
    ensures
        match r {
            Some(i) => first_config(configs@.map_values(|c: MessageConfig| c@), msg@, 0) == Some(i as int),
            None => first_config(configs@.map_values(|c: MessageConfig| c@), msg@, 0) is None,
        },
{
    let ghost cv = configs@.map_values(|c: MessageConfig| c@);
    let mv = chars_of(msg);
    let n = configs.len();
    let mut i: usize = 0;
    while i < n
        invariant
            n == configs@.len(),
            cv == configs@.map_values(|c: MessageConfig| c@),
            mv@ == msg@,
            i <= n,
            first_config(cv, msg@, 0) == first_config(cv, msg@, i as int),
        decreases n - i,
    {
        let name = chars_of(configs[i].canal_msg.as_str());
        if eq_ignore_case_exec(&name, &mv) {
            return Some(i);
        }
        i = i + 1;
    }
    None
}

/// Appends `value`, then a space and the unit where there is one.
pub fn value_with_unit(value: String, unit: &Option<String>) -> (r: String)
    ensures
        r@ == with_unit(value@, opt_view(*unit)),
{
    match unit {
        Some(u) => {
            let mut out = value;
            out.append(" ");
            out.append(u.as_str());
            out
        },
        None => value,
    }
}

/// RRC field viewer panel.
pub struct RrcFieldViewer {
    /// Index of the trace last shown
    pub current_index: usize,
    /// Fields of the current message, as (name, value)
    pub current_fields: Vec<(String, String)>,
    /// Name of the current message, when a configuration matches it
    pub current_message_type: Option<String>,
    /// Message configurations
    pub message_configs: Vec<MessageConfig>,
}

impl RrcFieldViewer {
    /// The configurations, as plain values.
    pub open spec fn configs(&self) -> Seq<(Seq<char>, Seq<MappingView>)> {
        self.message_configs@.map_values(|c: MessageConfig| c@)
    }

    /// Every configured path can be walked.
    pub open spec fn wf(&self) -> bool {
        configs_ok(self.configs())
    }

    /// A viewer with the default configuration and nothing shown.
    pub fn new() -> (r: Self)
        ensures
            r.wf(),
            r.current_index == 0,
            r.current_fields@.len() == 0,
            r.current_message_type is None,
            r.configs() == seq![("SIB1"@, sib1_viewer_mappings())],
    {
        let mut viewer = RrcFieldViewer {
            current_index: 0,
            current_fields: Vec::new(),
            current_message_type: None,
            message_configs: Vec::new(),
        };
        assert(viewer.configs() =~= Seq::<(Seq<char>, Seq<MappingView>)>::empty());
        viewer.init_default_configs();
        assert(viewer.configs() =~= seq![("SIB1"@, sib1_viewer_mappings())]);
        viewer
    }

    /// Adds the default configuration: the SIB1 fields of `sib1_viewer_mappings`.
    pub fn init_default_configs(&mut self)
        requires
            old(self).wf(),
        ensures
            final(self).wf(),
            final(self).current_index == old(self).current_index,
            final(self).current_fields@ == old(self).current_fields@,
            final(self).current_message_type == old(self).current_message_type,
            final(self).configs() == old(self).configs().push(("SIB1"@, sib1_viewer_mappings())),
    {
        let mut fields: Vec<FieldMapping> = Vec::new();
        fields.push(mapping("mcc", "message.c1.systemInformationBlockType1.cellAccessRelatedInfo.plmn-IdentityList[0].plmn-Identity.mcc", None));
        fields.push(mapping("mnc", "message.c1.systemInformationBlockType1.cellAccessRelatedInfo.plmn-IdentityList[0].plmn-Identity.mnc", None));
        fields.push(mapping("cellId", "message.c1.systemInformationBlockType1.cellAccessRelatedInfo.cellIdentity", None));
        fields.push(mapping("trackingAreaCode", "message.c1.systemInformationBlockType1.cellAccessRelatedInfo.trackingAreaCode", None));
        fields.push(mapping("q-RxLevMin", "message.c1.systemInformationBlockType1.cellSelectionInfo.q-RxLevMin", Some("dB")));
        fields.push(mapping("q-QualMin", "message.c1.systemInformationBlockType1.cellSelectionInfo.q-QualMin", Some("dB")));
        fields.push(mapping("mcc", "message.c1.systemInformationBlockType1.cellAccessRelatedInfo.plmn-IdentityInfoList[0].plmn-IdentityList[0].mcc", None));
        fields.push(mapping("mnc", "message.c1.systemInformationBlockType1.cellAccessRelatedInfo.plmn-IdentityInfoList[0].plmn-IdentityList[0].mnc", None));
        fields.push(mapping("cellId", "message.c1.systemInformationBlockType1.cellAccessRelatedInfo.plmn-IdentityInfoList[0].cellIdentity", None));
        fields.push(mapping("trackingAreaCode", "message.c1.systemInformationBlockType1.cellAccessRelatedInfo.plmn-IdentityInfoList[0].trackingAreaCode", None));
        assert(fields@.map_values(|m: FieldMapping| m@) =~= sib1_viewer_mappings());
        proof {
            lemma_sib1_viewer_paths_ok();
        }
        let config = MessageConfig { canal_msg: owned("SIB1"), fields };
        self.message_configs.push(config);
        assert(self.configs() =~= old(self).configs().push(("SIB1"@, sib1_viewer_mappings())));
    }

    /// Adds a message configuration (after the others, so that an earlier one with the
    /// same name still wins).
    pub fn add_message_config(&mut self, config: MessageConfig)
        requires
            old(self).wf(),
            mappings_ok(config@.1),
        ensures
            final(self).wf(),
            final(self).configs() == old(self).configs().push(config@),
            final(self).current_index == old(self).current_index,
            final(self).current_fields@ == old(self).current_fields@,
            final(self).current_message_type == old(self).current_message_type,
    {
        self.message_configs.push(config);
        assert(self.configs() =~= old(self).configs().push(config@));
    }

    /// What the viewer shows of the value at `path` in `json`, if the path leads anywhere.
    pub fn extract_field(&self, json: &Json, path: &str) -> (r: Option<String>)
        requires
            path_ok(path@),
        ensures
            match r {
                Some(s) => viewer_extract(*json, path@) == Some(s@),
                None => viewer_extract(*json, path@) is None,
            },
    {
        match walk_path(json, path) {
            Some(v) => Some(
                match &v.value {
                    JsonValue::Str(s) => s.clone(),
                    JsonValue::Number => v.compact.clone(),
                    JsonValue::Bool(b) => bool_string(*b),
                    JsonValue::Object(_) => object_string(v),
                    JsonValue::Array(items) => list_string(items),
                    JsonValue::Null => owned("null"),
                },
            ),
            None => None,
        }
    }

    /// The (name, value) pairs of the mappings whose path leads somewhere in `json`.
    fn fields_of(&self, fields: &Vec<FieldMapping>, json: &Json) -> (r: Vec<(String, String)>)
        requires
            mappings_ok(fields@.map_values(|m: FieldMapping| m@)),
        ensures
            pairs_view(r@) == viewer_fields(fields@.map_values(|m: FieldMapping| m@), *json),
    {
        let ghost mv = fields@.map_values(|m: FieldMapping| m@);
        let n = fields.len();
        let mut out: Vec<(String, String)> = Vec::new();
        let mut k: usize = 0;
        while k < n
            invariant
                n == fields@.len(),
                mv == fields@.map_values(|m: FieldMapping| m@),
                mappings_ok(mv),
                k <= n,
                pairs_view(out@) == viewer_fields(mv.take(k as int), *json),
            decreases n - k,
        {
            proof {
                assert(mv.take(k + 1).drop_last() =~= mv.take(k as int));
                assert(mv.take(k + 1).last() == mv[k as int]);
                assert(path_ok(mv[k as int].1));
            }
            let m = &fields[k];
            match self.extract_field(json, m.json_path.as_str()) {
                Some(value) => {
                    let shown = value_with_unit(value, &m.unit);
                    out.push((m.display_name.clone(), shown));
                    assert(pairs_view(out@) =~= viewer_fields(mv.take(k as int), *json).push(
                        (mv[k as int].0, with_unit(viewer_extract(*json, mv[k as int].1).unwrap(), mv[k as int].2)),
                    ));
                },
                None => {},
            }
            k = k + 1;
        }
        assert(mv.take(n as int) =~= mv);
        out
    }

    /// Shows the fields of `trace`: for an RRC message whose name has a configuration,
    /// that message's name and the fields that its decoded JSON holds; else nothing.
    pub fn update_fields(&mut self, trace: &Trace)
        requires
            old(self).wf(),
        ensures
            final(self).wf(),
            final(self).message_configs@ == old(self).message_configs@,
            final(self).current_index == old(self).current_index,
            (opt_view(final(self).current_message_type), pairs_view(final(self).current_fields@))
                == viewer_state(old(self).configs(), *trace),
    {
        self.current_fields = Vec::new();
        self.current_message_type = None;
        if trace.layer != Layer::RRC {
            return;
        }
        let canal_msg = match &trace.additional_infos {
            AdditionalInfos::RRCInfos(infos) => &infos.canal_msg,
            _ => return,
        };
        match find_config(&self.message_configs, canal_msg.as_str()) {
            Some(ci) => {
                self.current_message_type = Some(canal_msg.clone());
                match trace.parse_asn1_to_json() {
                    Some(json) => {
                        proof {
                            lemma_first_config(self.configs(), canal_msg@, 0);
                            assert(self.configs()[ci as int] == self.message_configs@[ci as int]@);
                            assert(mappings_ok(self.configs()[ci as int].1));
                        }
                        let fields = self.fields_of(&self.message_configs[ci].fields, json);
                        self.current_fields = fields;
                    },
                    None => {},
                }
            },
            None => {},
        }
    }

    /// What the panel does before it is drawn: when the focused trace changed, it
    /// remembers the new index and shows that trace's fields (where there is a trace).
    pub fn refresh(&mut self, data: &Data)
        requires
            old(self).wf(),
        ensures
            final(self).wf(),
            final(self).message_configs@ == old(self).message_configs@,
            data.current_index == old(self).current_index ==> {
                &&& final(self).current_index == old(self).current_index
                &&& final(self).current_fields@ == old(self).current_fields@
                &&& final(self).current_message_type == old(self).current_message_type
            },
            data.current_index != old(self).current_index ==> final(self).current_index
                == data.current_index,
            data.current_index != old(self).current_index && data.current_index
                >= data.events@.len() ==> {
                &&& final(self).current_fields@ == old(self).current_fields@
                &&& final(self).current_message_type == old(self).current_message_type
            },
            data.current_index != old(self).current_index && data.current_index
                < data.events@.len() ==> (
                opt_view(final(self).current_message_type),
                pairs_view(final(self).current_fields@),
            ) == viewer_state(old(self).configs(), data.events@[data.current_index as int]),
    {
        if data.current_index != self.current_index {
            self.current_index = data.current_index;
            if data.current_index < data.events.len() {
                self.update_fields(&data.events[data.current_index]);
            }
        }
    }

    /// Forgets the shown message.
    pub fn clear(&mut self)
        requires
            old(self).wf(),
        ensures
            final(self).wf(),
            final(self).message_configs@ == old(self).message_configs@,
            final(self).current_index == 0,
            final(self).current_fields@.len() == 0,
            final(self).current_message_type is None,
    {
        self.current_index = 0;
        self.current_fields = Vec::new();
        self.current_message_type = None;
    }

    /// Name of the panel.
    pub fn name(&self) -> (r: &'static str)
        ensures
            r@ == "RRC Fields"@,
    {
        "RRC Fields"
    }

    /// Title of the panel's window.
    pub fn window_title(&self) -> (r: &'static str)
        ensures
            r@ == "RRC Fields"@,
    {
        "RRC Fields"
    }
}

impl Default for RrcFieldViewer {
    fn default() -> (r: Self)
        ensures
            r.wf(),
            r.current_index == 0,
            r.current_fields@.len() == 0,
            r.current_message_type is None,
    {
        Self::new()
    }
}

} // verus!
