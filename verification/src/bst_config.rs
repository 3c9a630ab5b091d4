//! RAN configuration panel: general facts of the capture, the cell's SIB1, SIB2 and
//! SIB3 fields taken from decoded RRC messages, and the network slices (NSSAI) that a
//! NAS registration accept grants.

use vstd::prelude::*;
use crate::event_bus::{EventContext, EventSubscriber};
use crate::format::{dec_digits, decimal};
use crate::identity::{lines_view, opt_view};
use crate::json::{
    all_simple, bool_string, bool_text, is_simple, lemma_path_ok, list_string, list_text,
    object_string, object_text, path_ok, spec_split, walk, walk_path, Json, JsonValue,
};
use crate::model::{same_text, AdditionalInfos, FileMetadata, Layer, Trace};
use crate::rrc_field_viewer::{
    configs_ok, find_config, first_config, lemma_first_config, mapping, mappings_ok, pairs_view,
    value_with_unit, with_unit, MappingView,
};
pub use crate::rrc_field_viewer::{FieldMapping, MessageConfig};
use crate::text::{
    contains, owned, parse_u32, spec_find, spec_parse_u32, spec_trim, starts_with, str_contains,
    str_eq, str_find, str_starts_with, trim,
};

verus! {

/// A value read from a line: the trimmed text after a marker.
pub open spec fn after_marker(t: Seq<char>, pos: int, marker_len: int) -> Seq<char> {
    spec_trim(t.subrange(pos + marker_len, t.len() as int))
}

/// What `hex_to_decimal` reads: the trimmed text as hexadecimal after `0x` or `0X`, else
/// as decimal, where it is a 32-bit number.
pub open spec fn spec_hex_to_decimal(s: Seq<char>) -> Option<u32> {
    let t = spec_trim(s);
    if starts_with(t, "0x"@) || starts_with(t, "0X"@) {
        spec_parse_u32(t.subrange(2, t.len() as int), 16)
    } else {
        spec_parse_u32(t, 10)
    }
}

/// The name of a slice/service type.
pub open spec fn spec_sst_description(sst: u32) -> Seq<char> {
    if sst == 1 {
        "eMBB"@
    } else if sst == 2 {
        "URLLC"@
    } else if sst == 3 {
        "mMTC"@
    } else if sst == 4 {
        "V2X"@
    } else {
        "Unknown"@
    }
}

/// How an SST is shown: its number and name (`1 (eMBB)`) where it reads as a number,
/// else as it is written.
pub open spec fn sst_text(v: Seq<char>) -> Seq<char> {
    match spec_hex_to_decimal(v) {
        Some(d) => dec_digits(d as nat) + " ("@ + spec_sst_description(d) + ")"@,
        None => v,
    }
}

/// How an SD is shown: its number where it reads as one, else as it is written.
pub open spec fn sd_text(v: Seq<char>) -> Seq<char> {
    match spec_hex_to_decimal(v) {
        Some(d) => dec_digits(d as nat),
        None => v,
    }
}

/// S-NSSAI (Single Network Slice Selection Assistance Information).
#[derive(Clone, Debug)]
pub struct Nssai {
    /// Slice/Service Type
    pub sst: Option<String>,
    /// Slice Differentiator
    pub sd: Option<String>,
}

/// An S-NSSAI as plain texts: SST and SD.
pub type NssaiView = (Option<Seq<char>>, Option<Seq<char>>);

impl View for Nssai {
    type V = NssaiView;

    open spec fn view(&self) -> NssaiView {
        (opt_view(self.sst), opt_view(self.sd))
    }
}

impl Default for Nssai {
    fn default() -> (r: Self)
        ensures
            r.sst is None,
            r.sd is None,
    {
        Nssai { sst: None, sd: None }
    }
}

/// A copy of an S-NSSAI.
fn copy_nssai(n: &Nssai) -> (r: Nssai)
    ensures
        r@ == n@,
{
    Nssai {
        sst: match &n.sst {
            Some(s) => Some(owned(s.as_str())),
            None => None,
        },
        sd: match &n.sd {
            Some(s) => Some(owned(s.as_str())),
            None => None,
        },
    }
}

/// Where the reading of a registration accept stands.
pub struct ScanState {
    /// In the allowed NSSAI section
    pub in_allowed: bool,
    /// In the configured NSSAI section
    pub in_configured: bool,
    /// Inside an S-NSSAI entry
    pub in_snssai: bool,
    /// The last section opened was the allowed one
    pub section_allowed: bool,
    /// The entry being read
    pub current: NssaiView,
    /// Allowed entries read so far
    pub allowed: Seq<NssaiView>,
    /// Configured entries read so far
    pub configured: Seq<NssaiView>,
}

/// The state before the first line.
pub open spec fn scan_start() -> ScanState {
    ScanState {
        in_allowed: false,
        in_configured: false,
        in_snssai: false,
        section_allowed: false,
        current: (None, None),
        allowed: Seq::empty(),
        configured: Seq::empty(),
    }
}

/// The entry being read, kept where it has an SST: in the allowed list when the last
/// section opened was the allowed one, else in the configured list while that section
/// is open.
pub open spec fn keep_current(st: ScanState) -> ScanState {
    if st.in_snssai && st.current.0 is Some {
        if st.section_allowed {
            ScanState { allowed: st.allowed.push(st.current), ..st }
        } else if st.in_configured {
            ScanState { configured: st.configured.push(st.current), ..st }
        } else {
            st
        }
    } else {
        st
    }
}

/// A line that opens another top-level section: not empty, not indented by eight
/// spaces, with a `:`, and not about an S-NSSAI, an SST, an SD or a length.
pub open spec fn is_other_section(line: Seq<char>, t: Seq<char>) -> bool {
    &&& t.len() > 0
    &&& !starts_with(line, "        "@)
    &&& contains(t, ":"@)
    &&& !starts_with(t, "S-NSSAI"@)
    &&& !contains(t, "SST"@)
    &&& !contains(t, "SD"@)
    &&& !contains(t, "Length"@)
}

/// Reads one line of the registration accept.
pub open spec fn nssai_step(st: ScanState, line: Seq<char>) -> ScanState {
    let t = spec_trim(line);
    if starts_with(t, "Allowed NSSAI:"@) {
        ScanState {
            in_allowed: true,
            in_configured: false,
            in_snssai: false,
            section_allowed: true,
            current: (None, None),
            ..keep_current(st)
        }
    } else if starts_with(t, "Configured NSSAI:"@) {
        let kept = if st.in_snssai && st.current.0 is Some && st.section_allowed {
            ScanState { allowed: st.allowed.push(st.current), ..st }
        } else {
            st
        };
        ScanState {
            in_allowed: false,
            in_configured: true,
            in_snssai: false,
            section_allowed: false,
            current: (None, None),
            ..kept
        }
    } else {
        let st2 = if is_other_section(line, t) {
            ScanState {
                in_allowed: false,
                in_configured: false,
                in_snssai: false,
                current: (None, None),
                ..keep_current(st)
            }
        } else {
            st
        };
        if !(st2.in_allowed || st2.in_configured) {
            st2
        } else if starts_with(t, "S-NSSAI"@) && !contains(t, "="@) {
            let kept = if st2.in_snssai && st2.current.0 is Some {
                if st2.section_allowed {
                    ScanState { allowed: st2.allowed.push(st2.current), ..st2 }
                } else {
                    ScanState { configured: st2.configured.push(st2.current), ..st2 }
                }
            } else {
                st2
            };
            ScanState { current: (None, None), in_snssai: true, ..kept }
        } else if !st2.in_snssai {
            st2
        } else {
            match spec_find(t, "SST ="@) {
                Some(pos) => ScanState {
                    current: (Some(sst_text(after_marker(t, pos, 5))), st2.current.1),
                    ..st2
                },
                None => match spec_find(t, "SD ="@) {
                    Some(pos) => ScanState {
                        current: (st2.current.0, Some(sd_text(after_marker(t, pos, 4)))),
                        ..st2
                    },
                    None => st2,
                },
            }
        }
    }
}

/// The state after reading `lines`.
pub open spec fn nssai_scan(lines: Seq<Seq<char>>) -> ScanState
    decreases lines.len(),
{
    if lines.len() == 0 {
        scan_start()
    } else {
        nssai_step(nssai_scan(lines.drop_last()), lines.last())
    }
}

/// The message is a registration accept: one of its lines names the message type and
/// says `Registration accept`.
pub open spec fn is_registration_accept(lines: Seq<Seq<char>>) -> bool {
    exists|i: int|
        0 <= i < lines.len() && contains(#[trigger] lines[i], "Message type"@) && contains(
            lines[i],
            "Registration accept"@,
        )
}

/// `hex_to_decimal`: a 32-bit number written in hexadecimal after `0x` or `0X`, else in
/// decimal, around white space.
pub fn hex_to_decimal(hex_str: &str) -> (r: Option<u32>)
    ensures
        r == spec_hex_to_decimal(hex_str@),
{
    let t = trim(hex_str);
    proof {
        reveal_strlit("0x");
        reveal_strlit("0X");
    }
    if str_starts_with(t, "0x") || str_starts_with(t, "0X") {
        let n = t.unicode_len();
        parse_u32(t.substring_char(2, n), 16)
    } else {
        parse_u32(t, 10)
    }
}

/// The name of a slice/service type (`eMBB`, `URLLC`, `mMTC`, `V2X`, else `Unknown`).
pub fn sst_description(sst: u32) -> (r: &'static str)
    ensures
        r@ == spec_sst_description(sst),
{
    match sst {
        1 => "eMBB",
        2 => "URLLC",
        3 => "mMTC",
        4 => "V2X",
        _ => "Unknown",
    }
}

/// The state of a reading, as kept while it runs.
struct Scan {
    in_allowed: bool,
    in_configured: bool,
    in_snssai: bool,
    section_allowed: bool,
    current: Nssai,
    allowed: Vec<Nssai>,
    configured: Vec<Nssai>,
}

/// S-NSSAI lists as plain values.
pub open spec fn nssais_view(v: Seq<Nssai>) -> Seq<NssaiView> {
    v.map_values(|n: Nssai| n@)
}

impl Scan {
    spec fn view(&self) -> ScanState {
        ScanState {
            in_allowed: self.in_allowed,
            in_configured: self.in_configured,
            in_snssai: self.in_snssai,
            section_allowed: self.section_allowed,
            current: self.current@,
            allowed: nssais_view(self.allowed@),
            configured: nssais_view(self.configured@),
        }
    }

    /// Keeps the entry being read (see `keep_current`).
    fn keep_current(&mut self)
        ensures
            final(self).view() == keep_current(old(self).view()),
    {
        if self.in_snssai && self.current.sst.is_some() {
            if self.section_allowed {
                let c = copy_nssai(&self.current);
                self.allowed.push(c);
                assert(nssais_view(self.allowed@) =~= nssais_view(old(self).allowed@).push(old(self).current@));
            } else if self.in_configured {
                let c = copy_nssai(&self.current);
                self.configured.push(c);
                assert(nssais_view(self.configured@) =~= nssais_view(old(self).configured@).push(old(self).current@));
            }
        }
    }

    /// Reads one line (see `nssai_step`).
    fn step(&mut self, line: &str)
        ensures
            final(self).view() == nssai_step(old(self).view(), line@),
    {
        let t = trim(line);
        if str_starts_with(t, "Allowed NSSAI:") {
            self.keep_current();
            self.in_allowed = true;
            self.in_configured = false;
            self.in_snssai = false;
            self.section_allowed = true;
            self.current = Nssai::default();
            return;
        }
        if str_starts_with(t, "Configured NSSAI:") {
            if self.in_snssai && self.current.sst.is_some() && self.section_allowed {
                let c = copy_nssai(&self.current);
                self.allowed.push(c);
                assert(nssais_view(self.allowed@) =~= nssais_view(old(self).allowed@).push(old(self).current@));
            }
            self.in_configured = true;
            self.in_allowed = false;
            self.in_snssai = false;
            self.section_allowed = false;
            self.current = Nssai::default();
            return;
        }
        let other = t.unicode_len() > 0 && !str_starts_with(line, "        ") && str_contains(t, ":")
            && !str_starts_with(t, "S-NSSAI") && !str_contains(t, "SST") && !str_contains(t, "SD")
            && !str_contains(t, "Length");
        assert(other == is_other_section(line@, t@));
        if other {
            self.keep_current();
            self.in_allowed = false;
            self.in_configured = false;
            self.in_snssai = false;
            self.current = Nssai::default();
        }
        let ghost st2 = self.view();
        if !(self.in_allowed || self.in_configured) {
            return;
        }
        if str_starts_with(t, "S-NSSAI") && !str_contains(t, "=") {
            if self.in_snssai && self.current.sst.is_some() {
                let c = copy_nssai(&self.current);
                if self.section_allowed {
                    self.allowed.push(c);
                    assert(nssais_view(self.allowed@) =~= st2.allowed.push(st2.current));
                } else {
                    self.configured.push(c);
                    assert(nssais_view(self.configured@) =~= st2.configured.push(st2.current));
                }
            }
            self.current = Nssai::default();
            self.in_snssai = true;
            return;
        }
        if !self.in_snssai {
            return;
        }
        let n = t.unicode_len();
        proof {
            reveal_strlit("SST =");
            reveal_strlit("SD =");
        }
        match str_find(t, "SST =") {
            Some(pos) => {
                let value = trim(t.substring_char(pos + 5, n));
                let shown = match hex_to_decimal(value) {
                    Some(d) => {
                        let mut s = decimal(d as u64);
                        s.append(" (");
                        s.append(sst_description(d));
                        s.append(")");
                        s
                    },
                    None => owned(value),
                };
                self.current.sst = Some(shown);
            },
            None => match str_find(t, "SD =") {
                Some(pos) => {
                    let value = trim(t.substring_char(pos + 4, n));
                    let shown = match hex_to_decimal(value) {
                        Some(d) => decimal(d as u64),
                        None => owned(value),
                    };
                    self.current.sd = Some(shown);
                },
                None => {},
            },
        }
    }
}

/// Whether some line names the message type and says `Registration accept`.
pub fn registration_accept(text: &Vec<String>) -> (r: bool)
    ensures
        r == is_registration_accept(lines_view(text@)),
{
    let n = text.len();
    let mut i: usize = 0;
    while i < n
        invariant
            n == text@.len(),
            i <= n,
            forall|j: int|
                0 <= j < i ==> !(contains(#[trigger] lines_view(text@)[j], "Message type"@)
                    && contains(lines_view(text@)[j], "Registration accept"@)),
        decreases n - i,
    {
        assert(lines_view(text@)[i as int] == text@[i as int]@);
        if str_contains(text[i].as_str(), "Message type") && str_contains(
            text[i].as_str(),
            "Registration accept",
        ) {
            return true;
        }
        i = i + 1;
    }
    false
}

/// What a registration accept gives: the allowed and the configured S-NSSAIs, read
/// line by line (see `nssai_step`), the entry still being read at the end kept as
/// `keep_current` says.
pub open spec fn nssai_lists(lines: Seq<Seq<char>>) -> (Seq<NssaiView>, Seq<NssaiView>) {
    let st = keep_current(nssai_scan(lines));
    (st.allowed, st.configured)
}

/// Every entry of `s` has an SST.
pub open spec fn all_have_sst(s: Seq<NssaiView>) -> bool {
    forall|k: int| 0 <= k < s.len() ==> (#[trigger] s[k]).0 is Some
}

/// What holds of the scan along the lines: entries are kept only with an SST; the allowed
/// section is the last one opened while it is open; nothing is allowed before an
/// `Allowed NSSAI:` line, nothing is configured before a `Configured NSSAI:` line.
pub proof fn lemma_nssai_scan(lines: Seq<Seq<char>>)
    ensures
        all_have_sst(nssai_scan(lines).allowed),
        all_have_sst(nssai_scan(lines).configured),
        nssai_scan(lines).in_allowed ==> nssai_scan(lines).section_allowed,
        (forall|k: int| 0 <= k < lines.len() ==> !starts_with(spec_trim(#[trigger] lines[k]), "Allowed NSSAI:"@))
            ==> nssai_scan(lines).allowed.len() == 0 && !nssai_scan(lines).section_allowed
            && !nssai_scan(lines).in_allowed,
        (forall|k: int| 0 <= k < lines.len() ==> !starts_with(spec_trim(#[trigger] lines[k]), "Configured NSSAI:"@))
            ==> nssai_scan(lines).configured.len() == 0 && !nssai_scan(lines).in_configured,
    decreases lines.len(),
{
    if lines.len() > 0 {
        let d = lines.drop_last();
        lemma_nssai_scan(d);
        assert forall|k: int| 0 <= k < d.len() implies d[k] == lines[k] by {}
        let _ = lines[lines.len() - 1];
        let st = nssai_scan(d);
        assert(nssai_scan(lines) == nssai_step(st, lines.last()));
        assert forall|e: NssaiView, q: Seq<NssaiView>| all_have_sst(q) && e.0 is Some implies all_have_sst(
            #[trigger] q.push(e),
        ) by {
            assert forall|k: int| 0 <= k < q.push(e).len() implies (#[trigger] q.push(e)[k]).0 is Some by {
                if k < q.len() {
                    assert(q.push(e)[k] == q[k]);
                }
            }
        }
    }
}

/// The S-NSSAIs read from a registration accept all have an SST; with no `Allowed
/// NSSAI:` line none is allowed, with no `Configured NSSAI:` line none is configured.
pub proof fn lemma_nssai_lists(lines: Seq<Seq<char>>)
    ensures
        all_have_sst(nssai_lists(lines).0),
        all_have_sst(nssai_lists(lines).1),
        (forall|k: int| 0 <= k < lines.len() ==> !starts_with(spec_trim(#[trigger] lines[k]), "Allowed NSSAI:"@))
            ==> nssai_lists(lines).0.len() == 0,
        (forall|k: int| 0 <= k < lines.len() ==> !starts_with(spec_trim(#[trigger] lines[k]), "Configured NSSAI:"@))
            ==> nssai_lists(lines).1.len() == 0,
{
    lemma_nssai_scan(lines);
    let st = nssai_scan(lines);
    assert forall|e: NssaiView, q: Seq<NssaiView>| all_have_sst(q) && e.0 is Some implies all_have_sst(
        #[trigger] q.push(e),
    ) by {
        assert forall|k: int| 0 <= k < q.push(e).len() implies (#[trigger] q.push(e)[k]).0 is Some by {
            if k < q.len() {
                assert(q.push(e)[k] == q[k]);
            }
        }
    }
}

/// The allowed and configured S-NSSAIs of a registration accept (see `nssai_lists`).
pub fn read_nssai(text: &Vec<String>) -> (r: (Vec<Nssai>, Vec<Nssai>))
    ensures
        (nssais_view(r.0@), nssais_view(r.1@)) == nssai_lists(lines_view(text@)),
{
    let ghost lines = lines_view(text@);
    let mut scan = Scan {
        in_allowed: false,
        in_configured: false,
        in_snssai: false,
        section_allowed: false,
        current: Nssai::default(),
        allowed: Vec::new(),
        configured: Vec::new(),
    };
    assert(nssais_view(scan.allowed@) =~= Seq::<NssaiView>::empty());
    assert(nssais_view(scan.configured@) =~= Seq::<NssaiView>::empty());
    assert(scan.view() =~= scan_start());
    let n = text.len();
    let mut i: usize = 0;
    while i < n
        invariant
            n == text@.len(),
            lines == lines_view(text@),
            i <= n,
            scan.view() == nssai_scan(lines.take(i as int)),
        decreases n - i,
    {
        proof {
            assert(lines.take(i + 1).drop_last() =~= lines.take(i as int));
            assert(lines.take(i + 1).last() == text@[i as int]@);
        }
        scan.step(text[i].as_str());
        i = i + 1;
    }
    assert(lines.take(n as int) =~= lines);
    scan.keep_current();
    (scan.allowed, scan.configured)
}

/// The upper case of a text, as `str::to_uppercase` gives it (the full Unicode mapping).
pub uninterp spec fn upper_case(s: Seq<char>) -> Seq<char>;

/// Calls `str::to_uppercase`; its result is named `upper_case`. Nothing more is claimed
/// of it: the Unicode case mapping is not written out here.
#[verifier::external_body]
fn to_upper(s: &str) -> (r: String)
    ensures
        r@ == upper_case(s@),
{
    s.to_uppercase()
}

/// What the panel shows of a value: a string as it is, except that an ASN.1 value such
/// as `dB3` loses its `dB` (the unit is shown after it); a number's text; a boolean; an
/// object as `object_text` says; an array of at most ten numbers and strings as
/// `list_text` says, another array written as indented JSON; or `null`.
pub open spec fn bst_text(j: Json) -> Seq<char> {
    match j.value {
        JsonValue::Str(s) => if starts_with(s@, "dB"@) && s@.len() > 2 {
            s@.subrange(2, s@.len() as int)
        } else {
            s@
        },
        JsonValue::Number => j.compact@,
        JsonValue::Bool(b) => bool_text(b),
        JsonValue::Object(_) => object_text(j),
        JsonValue::Array(items) => if (forall|i: int| 0 <= i < items@.len() ==> is_simple(#[trigger] items@[i]))
            && items@.len() <= 10 {
            list_text(items@)
        } else {
            j.pretty@
        },
        JsonValue::Null => "null"@,
    }
}

/// What the panel shows of the value at `path`, if the path leads anywhere.
pub open spec fn bst_extract(json: Json, path: Seq<char>) -> Option<Seq<char>> {
    match walk(json, spec_split(path, '.')) {
        Some(v) => Some(bst_text(v)),
        None => None,
    }
}

/// The (name, value) pairs shown for a message: one for each mapping whose path leads
/// somewhere, in the order of the mappings.
pub open spec fn bst_fields(fields: Seq<MappingView>, json: Json) -> Seq<(Seq<char>, Seq<char>)>
    decreases fields.len(),
{
    if fields.len() == 0 {
        Seq::empty()
    } else {
        let before = bst_fields(fields.drop_last(), json);
        let m = fields.last();
        match bst_extract(json, m.1) {
            Some(v) => before.push((m.0, with_unit(v, m.2))),
            None => before,
        }
    }
}

/// The section that a message fills, by the upper case of its name: 1 for `SIB1`, 2 for
/// `SIB2`, 3 for `SIB3` and for the LTE `SIB` (which carries SIB2 and SIB3), else none (0).
pub open spec fn sib_section(upper: Seq<char>) -> int {
    if upper == "SIB1"@ {
        1
    } else if upper == "SIB2"@ {
        2
    } else if upper == "SIB3"@ || upper == "SIB"@ {
        3
    } else {
        0
    }
}

/// The section that the message whose upper-cased name is `upper` fills (see
/// `sib_section`): 1, 2 or 3, or 0 for none.
pub fn sib_section_of(upper: &str) -> (r: u8)
    ensures
        r == sib_section(upper@),
{
    if str_eq(upper, "SIB1") {
        1
    } else if str_eq(upper, "SIB2") {
        2
    } else if str_eq(upper, "SIB3") || str_eq(upper, "SIB") {
        3
    } else {
        0
    }
}

/// What an RRC trace brings: where it is an RRC message whose name has a configuration
/// and that was decoded, the section it fills and its fields.
pub open spec fn bst_found(configs: Seq<(Seq<char>, Seq<MappingView>)>, trace: Trace) -> Option<
    (int, Seq<(Seq<char>, Seq<char>)>),
> {
    match trace.additional_infos {
        AdditionalInfos::RRCInfos(infos) => if trace.layer == Layer::RRC {
            match first_config(configs, infos.canal_msg@, 0) {
                Some(ci) => match trace.asn1_json {
                    Some(json) => Some(
                        (sib_section(upper_case(infos.canal_msg@)), bst_fields(configs[ci].1, json)),
                    ),
                    None => None,
                },
                None => None,
            }
        } else {
            None
        },
        _ => None,
    }
}

/// The mappings shown for SIB1 (LTE and NR paths).
pub open spec fn sib1_mappings() -> Seq<MappingView> {
    seq![
        ("mcc"@, "message.c1.systemInformationBlockType1.cellAccessRelatedInfo.plmn-IdentityList[0].plmn-Identity.mcc"@, None),
        ("mnc"@, "message.c1.systemInformationBlockType1.cellAccessRelatedInfo.plmn-IdentityList[0].plmn-Identity.mnc"@, None),
        ("cellId"@, "message.c1.systemInformationBlockType1.cellAccessRelatedInfo.cellIdentity"@, None),
        ("trackingAreaCode"@, "message.c1.systemInformationBlockType1.cellAccessRelatedInfo.trackingAreaCode"@, None),
        ("q-RxLevMin"@, "message.c1.systemInformationBlockType1.cellSelectionInfo.q-RxLevMin"@, Some("dB"@)),
        ("q-QualMin"@, "message.c1.systemInformationBlockType1.cellSelectionInfo.q-QualMin"@, Some("dB"@)),
        ("mcc"@, "message.c1.systemInformationBlockType1.cellAccessRelatedInfo.plmn-IdentityInfoList[0].plmn-IdentityList[0].mcc"@, None),
        ("mnc"@, "message.c1.systemInformationBlockType1.cellAccessRelatedInfo.plmn-IdentityInfoList[0].plmn-IdentityList[0].mnc"@, None),
        ("cellId"@, "message.c1.systemInformationBlockType1.cellAccessRelatedInfo.plmn-IdentityInfoList[0].cellIdentity"@, None),
        ("trackingAreaCode"@, "message.c1.systemInformationBlockType1.cellAccessRelatedInfo.plmn-IdentityInfoList[0].trackingAreaCode"@, None),
        ("DL frequencyBandIndicatorNR"@, "message.c1.systemInformationBlockType1.servingCellConfigCommon.downlinkConfigCommon.frequencyInfoDL.frequencyBandList[0].freqBandIndicatorNR"@, None),
        ("DL subcarrierSpacing"@, "message.c1.systemInformationBlockType1.servingCellConfigCommon.downlinkConfigCommon.frequencyInfoDL.scs-SpecificCarrierList[0].subcarrierSpacing"@, None),
        ("DL carrierBandwidth"@, "message.c1.systemInformationBlockType1.servingCellConfigCommon.downlinkConfigCommon.frequencyInfoDL.scs-SpecificCarrierList[0].carrierBandwidth"@, Some("RB"@)),
        ("UL subcarrierSpacing"@, "message.c1.systemInformationBlockType1.servingCellConfigCommon.uplinkConfigCommon.frequencyInfoUL.scs-SpecificCarrierList[0].subcarrierSpacing"@, None),
        ("UL carrierBandwidth"@, "message.c1.systemInformationBlockType1.servingCellConfigCommon.uplinkConfigCommon.frequencyInfoUL.scs-SpecificCarrierList[0].carrierBandwidth"@, Some("RB"@)),
    ]
}

/// The mappings shown for the NR SIB2.
pub open spec fn sib2_mappings() -> Seq<MappingView> {
    seq![
        ("q-Hyst"@, "message.c1.systemInformation.criticalExtensions.systemInformation.sib-TypeAndInfo.sib2.cellReselectionInfoCommon.q-Hyst"@, Some("dB"@)),
        ("q-RxLevelMin"@, "message.c1.systemInformation.criticalExtensions.systemInformation.sib-TypeAndInfo.sib2.intraFreqCellReselectionInfo.q-RxLevelMin"@, Some("dB"@)),
        ("s-IntraSearchP"@, "message.c1.systemInformation.criticalExtensions.systemInformation.sib-TypeAndInfo.sib2.intraFreqCellReselectionInfo.s-IntraSearchP"@, None),
        ("t-ReselectionNR"@, "message.c1.systemInformation.criticalExtensions.systemInformation.sib-TypeAndInfo.sib2.intraFreqCellReselectionInfo.t-ReselectionNR"@, None),
    ]
}

/// The mappings shown for the NR SIB3.
pub open spec fn sib3_mappings() -> Seq<MappingView> {
    seq![
        ("intraFreqNeighCellList"@, "message.c1.systemInformation.criticalExtensions.systemInformation.sib-TypeAndInfo.sib3.intraFreqNeighCellList"@, None),
    ]
}

/// The mappings shown for the LTE `SIB` message (its SIB3 part).
pub open spec fn lte_sib_mappings() -> Seq<MappingView> {
    seq![
        ("q-Hyst"@, "message.c1.systemInformation.criticalExtensions.systemInformation-r8.sib-TypeAndInfo.sib3.cellReselectionInfoCommon.q-Hyst"@, Some("dB"@)),
        ("s-NonIntraSearch"@, "message.c1.systemInformation.criticalExtensions.systemInformation-r8.sib-TypeAndInfo.sib3.cellReselectionServingFreqInfo.s-NonIntraSearch"@, None),
        ("q-RxLevMin"@, "message.c1.systemInformation.criticalExtensions.systemInformation-r8.sib-TypeAndInfo.sib3.intraFreqCellReselectionInfo.q-RxLevMin"@, Some("dBm"@)),
        ("s-IntraSearch"@, "message.c1.systemInformation.criticalExtensions.systemInformation-r8.sib-TypeAndInfo.sib3.intraFreqCellReselectionInfo.s-IntraSearch"@, None),
        ("neighCellConfig"@, "message.c1.systemInformation.criticalExtensions.systemInformation-r8.sib-TypeAndInfo.sib3.intraFreqCellReselectionInfo.neighCellConfig"@, None),
    ]
}

/// Every path of `sib1_mappings` can be walked.
proof fn lemma_sib1_mappings_ok()
    ensures
        mappings_ok(sib1_mappings()),
{
    reveal_strlit("message.c1.systemInformationBlockType1.cellAccessRelatedInfo.plmn-IdentityList[0].plmn-Identity.mcc");
    lemma_path_ok("message.c1.systemInformationBlockType1.cellAccessRelatedInfo.plmn-IdentityList[0].plmn-Identity.mcc"@);
    reveal_strlit("message.c1.systemInformationBlockType1.cellAccessRelatedInfo.plmn-IdentityList[0].plmn-Identity.mnc");
    lemma_path_ok("message.c1.systemInformationBlockType1.cellAccessRelatedInfo.plmn-IdentityList[0].plmn-Identity.mnc"@);
    reveal_strlit("message.c1.systemInformationBlockType1.cellAccessRelatedInfo.cellIdentity");
    lemma_path_ok("message.c1.systemInformationBlockType1.cellAccessRelatedInfo.cellIdentity"@);
    reveal_strlit("message.c1.systemInformationBlockType1.cellAccessRelatedInfo.trackingAreaCode");
    lemma_path_ok("message.c1.systemInformationBlockType1.cellAccessRelatedInfo.trackingAreaCode"@);
    reveal_strlit("message.c1.systemInformationBlockType1.cellSelectionInfo.q-RxLevMin");
    lemma_path_ok("message.c1.systemInformationBlockType1.cellSelectionInfo.q-RxLevMin"@);
    reveal_strlit("message.c1.systemInformationBlockType1.cellSelectionInfo.q-QualMin");
    lemma_path_ok("message.c1.systemInformationBlockType1.cellSelectionInfo.q-QualMin"@);
    reveal_strlit("message.c1.systemInformationBlockType1.cellAccessRelatedInfo.plmn-IdentityInfoList[0].plmn-IdentityList[0].mcc");
    lemma_path_ok("message.c1.systemInformationBlockType1.cellAccessRelatedInfo.plmn-IdentityInfoList[0].plmn-IdentityList[0].mcc"@);
    reveal_strlit("message.c1.systemInformationBlockType1.cellAccessRelatedInfo.plmn-IdentityInfoList[0].plmn-IdentityList[0].mnc");
    lemma_path_ok("message.c1.systemInformationBlockType1.cellAccessRelatedInfo.plmn-IdentityInfoList[0].plmn-IdentityList[0].mnc"@);
    reveal_strlit("message.c1.systemInformationBlockType1.cellAccessRelatedInfo.plmn-IdentityInfoList[0].cellIdentity");
    lemma_path_ok("message.c1.systemInformationBlockType1.cellAccessRelatedInfo.plmn-IdentityInfoList[0].cellIdentity"@);
    reveal_strlit("message.c1.systemInformationBlockType1.cellAccessRelatedInfo.plmn-IdentityInfoList[0].trackingAreaCode");
    lemma_path_ok("message.c1.systemInformationBlockType1.cellAccessRelatedInfo.plmn-IdentityInfoList[0].trackingAreaCode"@);
    reveal_strlit("message.c1.systemInformationBlockType1.servingCellConfigCommon.downlinkConfigCommon.frequencyInfoDL.frequencyBandList[0].freqBandIndicatorNR");
    lemma_path_ok("message.c1.systemInformationBlockType1.servingCellConfigCommon.downlinkConfigCommon.frequencyInfoDL.frequencyBandList[0].freqBandIndicatorNR"@);
    reveal_strlit("message.c1.systemInformationBlockType1.servingCellConfigCommon.downlinkConfigCommon.frequencyInfoDL.scs-SpecificCarrierList[0].subcarrierSpacing");
    lemma_path_ok("message.c1.systemInformationBlockType1.servingCellConfigCommon.downlinkConfigCommon.frequencyInfoDL.scs-SpecificCarrierList[0].subcarrierSpacing"@);
    reveal_strlit("message.c1.systemInformationBlockType1.servingCellConfigCommon.downlinkConfigCommon.frequencyInfoDL.scs-SpecificCarrierList[0].carrierBandwidth");
    lemma_path_ok("message.c1.systemInformationBlockType1.servingCellConfigCommon.downlinkConfigCommon.frequencyInfoDL.scs-SpecificCarrierList[0].carrierBandwidth"@);
    reveal_strlit("message.c1.systemInformationBlockType1.servingCellConfigCommon.uplinkConfigCommon.frequencyInfoUL.scs-SpecificCarrierList[0].subcarrierSpacing");
    lemma_path_ok("message.c1.systemInformationBlockType1.servingCellConfigCommon.uplinkConfigCommon.frequencyInfoUL.scs-SpecificCarrierList[0].subcarrierSpacing"@);
    reveal_strlit("message.c1.systemInformationBlockType1.servingCellConfigCommon.uplinkConfigCommon.frequencyInfoUL.scs-SpecificCarrierList[0].carrierBandwidth");
    lemma_path_ok("message.c1.systemInformationBlockType1.servingCellConfigCommon.uplinkConfigCommon.frequencyInfoUL.scs-SpecificCarrierList[0].carrierBandwidth"@);
}

/// Every path of `sib2_mappings` can be walked.
proof fn lemma_sib2_mappings_ok()
    ensures
        mappings_ok(sib2_mappings()),
{
    reveal_strlit("message.c1.systemInformation.criticalExtensions.systemInformation.sib-TypeAndInfo.sib2.cellReselectionInfoCommon.q-Hyst");
    lemma_path_ok("message.c1.systemInformation.criticalExtensions.systemInformation.sib-TypeAndInfo.sib2.cellReselectionInfoCommon.q-Hyst"@);
    reveal_strlit("message.c1.systemInformation.criticalExtensions.systemInformation.sib-TypeAndInfo.sib2.intraFreqCellReselectionInfo.q-RxLevelMin");
    lemma_path_ok("message.c1.systemInformation.criticalExtensions.systemInformation.sib-TypeAndInfo.sib2.intraFreqCellReselectionInfo.q-RxLevelMin"@);
    reveal_strlit("message.c1.systemInformation.criticalExtensions.systemInformation.sib-TypeAndInfo.sib2.intraFreqCellReselectionInfo.s-IntraSearchP");
    lemma_path_ok("message.c1.systemInformation.criticalExtensions.systemInformation.sib-TypeAndInfo.sib2.intraFreqCellReselectionInfo.s-IntraSearchP"@);
    reveal_strlit("message.c1.systemInformation.criticalExtensions.systemInformation.sib-TypeAndInfo.sib2.intraFreqCellReselectionInfo.t-ReselectionNR");
    lemma_path_ok("message.c1.systemInformation.criticalExtensions.systemInformation.sib-TypeAndInfo.sib2.intraFreqCellReselectionInfo.t-ReselectionNR"@);
}

/// Every path of `sib3_mappings` can be walked.
proof fn lemma_sib3_mappings_ok()
    ensures
        mappings_ok(sib3_mappings()),
{
    reveal_strlit("message.c1.systemInformation.criticalExtensions.systemInformation.sib-TypeAndInfo.sib3.intraFreqNeighCellList");
    lemma_path_ok("message.c1.systemInformation.criticalExtensions.systemInformation.sib-TypeAndInfo.sib3.intraFreqNeighCellList"@);
}

/// Every path of `lte_sib_mappings` can be walked.
proof fn lemma_lte_sib_mappings_ok()
    ensures
        mappings_ok(lte_sib_mappings()),
{
    reveal_strlit("message.c1.systemInformation.criticalExtensions.systemInformation-r8.sib-TypeAndInfo.sib3.cellReselectionInfoCommon.q-Hyst");
    lemma_path_ok("message.c1.systemInformation.criticalExtensions.systemInformation-r8.sib-TypeAndInfo.sib3.cellReselectionInfoCommon.q-Hyst"@);
    reveal_strlit("message.c1.systemInformation.criticalExtensions.systemInformation-r8.sib-TypeAndInfo.sib3.cellReselectionServingFreqInfo.s-NonIntraSearch");
    lemma_path_ok("message.c1.systemInformation.criticalExtensions.systemInformation-r8.sib-TypeAndInfo.sib3.cellReselectionServingFreqInfo.s-NonIntraSearch"@);
    reveal_strlit("message.c1.systemInformation.criticalExtensions.systemInformation-r8.sib-TypeAndInfo.sib3.intraFreqCellReselectionInfo.q-RxLevMin");
    lemma_path_ok("message.c1.systemInformation.criticalExtensions.systemInformation-r8.sib-TypeAndInfo.sib3.intraFreqCellReselectionInfo.q-RxLevMin"@);
    reveal_strlit("message.c1.systemInformation.criticalExtensions.systemInformation-r8.sib-TypeAndInfo.sib3.intraFreqCellReselectionInfo.s-IntraSearch");
    lemma_path_ok("message.c1.systemInformation.criticalExtensions.systemInformation-r8.sib-TypeAndInfo.sib3.intraFreqCellReselectionInfo.s-IntraSearch"@);
    reveal_strlit("message.c1.systemInformation.criticalExtensions.systemInformation-r8.sib-TypeAndInfo.sib3.intraFreqCellReselectionInfo.neighCellConfig");
    lemma_path_ok("message.c1.systemInformation.criticalExtensions.systemInformation-r8.sib-TypeAndInfo.sib3.intraFreqCellReselectionInfo.neighCellConfig"@);
}

/// The default configurations after `configs`: SIB1, SIB2, SIB3, then the LTE SIB.
pub open spec fn with_default_configs(configs: Seq<(Seq<char>, Seq<MappingView>)>) -> Seq<
    (Seq<char>, Seq<MappingView>),
> {
    configs.push(("SIB1"@, sib1_mappings())).push(("SIB2"@, sib2_mappings())).push(
        ("SIB3"@, sib3_mappings()),
    ).push(("SIB"@, lte_sib_mappings()))
}

/// RAN configuration panel.
pub struct BstConfig {
    /// Index of the event last focused
    pub current_index: usize,
    /// Metadata of the capture
    pub metadata: FileMetadata,
    /// Fields of SIB1, as (name, value)
    pub sib1_fields: Vec<(String, String)>,
    /// Fields of SIB2
    pub sib2_fields: Vec<(String, String)>,
    /// Fields of SIB3
    pub sib3_fields: Vec<(String, String)>,
    /// Message configurations
    pub message_configs: Vec<MessageConfig>,
    /// Allowed NSSAI list (from a NAS registration accept)
    pub allowed_nssai: Vec<Nssai>,
    /// Configured NSSAI list (from a NAS registration accept)
    pub configured_nssai: Vec<Nssai>,
}

impl BstConfig {
    /// The configurations, as plain values.
    pub open spec fn configs(&self) -> Seq<(Seq<char>, Seq<MappingView>)> {
        self.message_configs@.map_values(|c: MessageConfig| c@)
    }

    /// Every configured path can be walked.
    pub open spec fn wf(&self) -> bool {
        configs_ok(self.configs())
    }

    /// What a trace changes in the SIB sections and the S-NSSAI lists (see
    /// `bst_found` and `nssai_lists`); nothing else changes.
    pub open spec fn takes_event(old_self: Self, new_self: Self, event: Trace) -> bool {
        &&& new_self.message_configs@ == old_self.message_configs@
        &&& new_self.metadata == old_self.metadata
        &&& match bst_found(old_self.configs(), event) {
            Some((sec, f)) => {
                &&& pairs_view(new_self.sib1_fields@) == if sec == 1 { f } else { pairs_view(old_self.sib1_fields@) }
                &&& pairs_view(new_self.sib2_fields@) == if sec == 2 { f } else { pairs_view(old_self.sib2_fields@) }
                &&& pairs_view(new_self.sib3_fields@) == if sec == 3 { f } else { pairs_view(old_self.sib3_fields@) }
            },
            None => {
                &&& new_self.sib1_fields@ == old_self.sib1_fields@
                &&& new_self.sib2_fields@ == old_self.sib2_fields@
                &&& new_self.sib3_fields@ == old_self.sib3_fields@
            },
        }
        &&& match event.text {
            Some(text) => if event.layer == Layer::NAS && is_registration_accept(lines_view(text@)) {
                (nssais_view(new_self.allowed_nssai@), nssais_view(new_self.configured_nssai@))
                    == nssai_lists(lines_view(text@))
            } else {
                &&& new_self.allowed_nssai@ == old_self.allowed_nssai@
                &&& new_self.configured_nssai@ == old_self.configured_nssai@
            },
            None => {
                &&& new_self.allowed_nssai@ == old_self.allowed_nssai@
                &&& new_self.configured_nssai@ == old_self.configured_nssai@
            },
        }
    }

    /// A panel with the default configurations and nothing read yet.
    pub fn new() -> (r: Self)
        ensures
            r.wf(),
            r.configs() == with_default_configs(Seq::empty()),
            r.current_index == 0,
            r.metadata.ssb_info@.len() == 0,
            r.sib1_fields@.len() == 0,
            r.sib2_fields@.len() == 0,
            r.sib3_fields@.len() == 0,
            r.allowed_nssai@.len() == 0,
            r.configured_nssai@.len() == 0,
    {
        let mut instance = BstConfig {
            current_index: 0,
            metadata: FileMetadata::new(),
            sib1_fields: Vec::new(),
            sib2_fields: Vec::new(),
            sib3_fields: Vec::new(),
            message_configs: Vec::new(),
            allowed_nssai: Vec::new(),
            configured_nssai: Vec::new(),
        };
        assert(instance.configs() =~= Seq::empty());
        instance.init_default_configs();
        instance
    }

    /// Adds the default configurations (see `with_default_configs`).
    pub fn init_default_configs(&mut self)
        requires
            old(self).wf(),
        ensures
            final(self).wf(),
            final(self).configs() == with_default_configs(old(self).configs()),
            final(self).current_index == old(self).current_index,
            final(self).metadata == old(self).metadata,
            final(self).sib1_fields@ == old(self).sib1_fields@,
            final(self).sib2_fields@ == old(self).sib2_fields@,
            final(self).sib3_fields@ == old(self).sib3_fields@,
            final(self).allowed_nssai@ == old(self).allowed_nssai@,
            final(self).configured_nssai@ == old(self).configured_nssai@,
    {
        let mut f1: Vec<FieldMapping> = Vec::new();
        f1.push(mapping("mcc", "message.c1.systemInformationBlockType1.cellAccessRelatedInfo.plmn-IdentityList[0].plmn-Identity.mcc", None));
        f1.push(mapping("mnc", "message.c1.systemInformationBlockType1.cellAccessRelatedInfo.plmn-IdentityList[0].plmn-Identity.mnc", None));
        f1.push(mapping("cellId", "message.c1.systemInformationBlockType1.cellAccessRelatedInfo.cellIdentity", None));
        f1.push(mapping("trackingAreaCode", "message.c1.systemInformationBlockType1.cellAccessRelatedInfo.trackingAreaCode", None));
        f1.push(mapping("q-RxLevMin", "message.c1.systemInformationBlockType1.cellSelectionInfo.q-RxLevMin", Some("dB")));
        f1.push(mapping("q-QualMin", "message.c1.systemInformationBlockType1.cellSelectionInfo.q-QualMin", Some("dB")));
        f1.push(mapping("mcc", "message.c1.systemInformationBlockType1.cellAccessRelatedInfo.plmn-IdentityInfoList[0].plmn-IdentityList[0].mcc", None));
        f1.push(mapping("mnc", "message.c1.systemInformationBlockType1.cellAccessRelatedInfo.plmn-IdentityInfoList[0].plmn-IdentityList[0].mnc", None));
        f1.push(mapping("cellId", "message.c1.systemInformationBlockType1.cellAccessRelatedInfo.plmn-IdentityInfoList[0].cellIdentity", None));
        f1.push(mapping("trackingAreaCode", "message.c1.systemInformationBlockType1.cellAccessRelatedInfo.plmn-IdentityInfoList[0].trackingAreaCode", None));
        f1.push(mapping("DL frequencyBandIndicatorNR", "message.c1.systemInformationBlockType1.servingCellConfigCommon.downlinkConfigCommon.frequencyInfoDL.frequencyBandList[0].freqBandIndicatorNR", None));
        f1.push(mapping("DL subcarrierSpacing", "message.c1.systemInformationBlockType1.servingCellConfigCommon.downlinkConfigCommon.frequencyInfoDL.scs-SpecificCarrierList[0].subcarrierSpacing", None));
        f1.push(mapping("DL carrierBandwidth", "message.c1.systemInformationBlockType1.servingCellConfigCommon.downlinkConfigCommon.frequencyInfoDL.scs-SpecificCarrierList[0].carrierBandwidth", Some("RB")));
        f1.push(mapping("UL subcarrierSpacing", "message.c1.systemInformationBlockType1.servingCellConfigCommon.uplinkConfigCommon.frequencyInfoUL.scs-SpecificCarrierList[0].subcarrierSpacing", None));
        f1.push(mapping("UL carrierBandwidth", "message.c1.systemInformationBlockType1.servingCellConfigCommon.uplinkConfigCommon.frequencyInfoUL.scs-SpecificCarrierList[0].carrierBandwidth", Some("RB")));
        assert(f1@.map_values(|m: FieldMapping| m@) =~= sib1_mappings());
        let c1 = MessageConfig { canal_msg: owned("SIB1"), fields: f1 };
        proof {
            lemma_sib1_mappings_ok();
        }
        self.add_message_config(c1);

        let mut f2: Vec<FieldMapping> = Vec::new();
        f2.push(mapping("q-Hyst", "message.c1.systemInformation.criticalExtensions.systemInformation.sib-TypeAndInfo.sib2.cellReselectionInfoCommon.q-Hyst", Some("dB")));
        f2.push(mapping("q-RxLevelMin", "message.c1.systemInformation.criticalExtensions.systemInformation.sib-TypeAndInfo.sib2.intraFreqCellReselectionInfo.q-RxLevelMin", Some("dB")));
        f2.push(mapping("s-IntraSearchP", "message.c1.systemInformation.criticalExtensions.systemInformation.sib-TypeAndInfo.sib2.intraFreqCellReselectionInfo.s-IntraSearchP", None));
        f2.push(mapping("t-ReselectionNR", "message.c1.systemInformation.criticalExtensions.systemInformation.sib-TypeAndInfo.sib2.intraFreqCellReselectionInfo.t-ReselectionNR", None));
        assert(f2@.map_values(|m: FieldMapping| m@) =~= sib2_mappings());
        let c2 = MessageConfig { canal_msg: owned("SIB2"), fields: f2 };
        proof {
            lemma_sib2_mappings_ok();
        }
        self.add_message_config(c2);

        let mut f3: Vec<FieldMapping> = Vec::new();
        f3.push(mapping("intraFreqNeighCellList", "message.c1.systemInformation.criticalExtensions.systemInformation.sib-TypeAndInfo.sib3.intraFreqNeighCellList", None));
        assert(f3@.map_values(|m: FieldMapping| m@) =~= sib3_mappings());
        let c3 = MessageConfig { canal_msg: owned("SIB3"), fields: f3 };
        proof {
            lemma_sib3_mappings_ok();
        }
        self.add_message_config(c3);

        let mut f4: Vec<FieldMapping> = Vec::new();
        f4.push(mapping("q-Hyst", "message.c1.systemInformation.criticalExtensions.systemInformation-r8.sib-TypeAndInfo.sib3.cellReselectionInfoCommon.q-Hyst", Some("dB")));
        f4.push(mapping("s-NonIntraSearch", "message.c1.systemInformation.criticalExtensions.systemInformation-r8.sib-TypeAndInfo.sib3.cellReselectionServingFreqInfo.s-NonIntraSearch", None));
        f4.push(mapping("q-RxLevMin", "message.c1.systemInformation.criticalExtensions.systemInformation-r8.sib-TypeAndInfo.sib3.intraFreqCellReselectionInfo.q-RxLevMin", Some("dBm")));
        f4.push(mapping("s-IntraSearch", "message.c1.systemInformation.criticalExtensions.systemInformation-r8.sib-TypeAndInfo.sib3.intraFreqCellReselectionInfo.s-IntraSearch", None));
        f4.push(mapping("neighCellConfig", "message.c1.systemInformation.criticalExtensions.systemInformation-r8.sib-TypeAndInfo.sib3.intraFreqCellReselectionInfo.neighCellConfig", None));
        assert(f4@.map_values(|m: FieldMapping| m@) =~= lte_sib_mappings());
        let c4 = MessageConfig { canal_msg: owned("SIB"), fields: f4 };
        proof {
            lemma_lte_sib_mappings_ok();
        }
        self.add_message_config(c4);
        assert(self.configs() =~= with_default_configs(old(self).configs()));
    }

    /// Adds a message configuration (after the others, so that an earlier one with the
    /// same name still wins).
    pub fn add_message_config(&mut self, config: MessageConfig)
        requires
            old(self).wf(),
            mappings_ok(config@.1),
        ensures
            final(self).wf(),
            final(self).configs() == old(self).configs().push(config@),
            final(self).current_index == old(self).current_index,
            final(self).metadata == old(self).metadata,
            final(self).sib1_fields@ == old(self).sib1_fields@,
            final(self).sib2_fields@ == old(self).sib2_fields@,
            final(self).sib3_fields@ == old(self).sib3_fields@,
            final(self).allowed_nssai@ == old(self).allowed_nssai@,
            final(self).configured_nssai@ == old(self).configured_nssai@,
    {
        self.message_configs.push(config);
        assert(self.configs() =~= old(self).configs().push(config@));
    }

    /// What the panel shows of the value at `path` in `json`, if the path leads anywhere.
    pub fn extract_field(&self, json: &Json, path: &str) -> (r: Option<String>)
        requires
            path_ok(path@),
        ensures
            match r {
                Some(s) => bst_extract(*json, path@) == Some(s@),
                None => bst_extract(*json, path@) is None,
            },
    {
        proof {
            reveal_strlit("dB");
        }
        match walk_path(json, path) {
            Some(v) => Some(
                match &v.value {
                    JsonValue::Str(s) => {
                        let n = s.as_str().unicode_len();
                        if str_starts_with(s.as_str(), "dB") && n > 2 {
                            owned(s.as_str().substring_char(2, n))
                        } else {
                            s.clone()
                        }
                    },
                    JsonValue::Number => v.compact.clone(),
                    JsonValue::Bool(b) => bool_string(*b),
                    JsonValue::Object(_) => object_string(v),
                    JsonValue::Array(items) => if all_simple(items) && items.len() <= 10 {
                        list_string(items)
                    } else {
                        v.pretty.clone()
                    },
                    JsonValue::Null => owned("null"),
                },
            ),
            None => None,
        }
    }

    /// The (name, value) pairs of the mappings whose path leads somewhere in `json`.
    fn fields_of(&self, fields: &Vec<FieldMapping>, json: &Json) -> (r: Vec<(String, String)>)
        requires
            mappings_ok(fields@.map_values(|m: FieldMapping| m@)),
        ensures
            pairs_view(r@) == bst_fields(fields@.map_values(|m: FieldMapping| m@), *json),
    {
        let ghost mv = fields@.map_values(|m: FieldMapping| m@);
        let n = fields.len();
        let mut out: Vec<(String, String)> = Vec::new();
        let mut k: usize = 0;
        while k < n
            invariant
                n == fields@.len(),
                mv == fields@.map_values(|m: FieldMapping| m@),
                mappings_ok(mv),
                k <= n,
                pairs_view(out@) == bst_fields(mv.take(k as int), *json),
            decreases n - k,
        {
            proof {
                assert(mv.take(k + 1).drop_last() =~= mv.take(k as int));
                assert(mv.take(k + 1).last() == mv[k as int]);
                assert(path_ok(mv[k as int].1));
            }
            let m = &fields[k];
            match self.extract_field(json, m.json_path.as_str()) {
                Some(value) => {
                    let shown = value_with_unit(value, &m.unit);
                    out.push((m.display_name.clone(), shown));
                    assert(pairs_view(out@) =~= bst_fields(mv.take(k as int), *json).push(
                        (mv[k as int].0, with_unit(bst_extract(*json, mv[k as int].1).unwrap(), mv[k as int].2)),
                    ));
                },
                None => {},
            }
            k = k + 1;
        }
        assert(mv.take(n as int) =~= mv);
        out
    }

    /// Takes the fields of `trace` into the section that its message fills (see
    /// `bst_found`); other traces change nothing, so the last values stay shown.
    pub fn update_fields(&mut self, trace: &Trace)
        requires
            old(self).wf(),
        ensures
            final(self).wf(),
            final(self).message_configs@ == old(self).message_configs@,
            final(self).current_index == old(self).current_index,
            final(self).metadata == old(self).metadata,
            final(self).allowed_nssai@ == old(self).allowed_nssai@,
            final(self).configured_nssai@ == old(self).configured_nssai@,
            match bst_found(old(self).configs(), *trace) {
                Some((sec, f)) => {
                    &&& pairs_view(final(self).sib1_fields@) == if sec == 1 { f } else { pairs_view(old(self).sib1_fields@) }
                    &&& pairs_view(final(self).sib2_fields@) == if sec == 2 { f } else { pairs_view(old(self).sib2_fields@) }
                    &&& pairs_view(final(self).sib3_fields@) == if sec == 3 { f } else { pairs_view(old(self).sib3_fields@) }
                },
                None => {
                    &&& final(self).sib1_fields@ == old(self).sib1_fields@
                    &&& final(self).sib2_fields@ == old(self).sib2_fields@
                    &&& final(self).sib3_fields@ == old(self).sib3_fields@
                },
            },
    {
        if trace.layer != Layer::RRC {
            return;
        }
        let canal_msg = match &trace.additional_infos {
            AdditionalInfos::RRCInfos(infos) => &infos.canal_msg,
            _ => return,
        };
        let ci = match find_config(&self.message_configs, canal_msg.as_str()) {
            Some(ci) => ci,
            None => return,
        };
        let json = match trace.parse_asn1_to_json() {
            Some(json) => json,
            None => return,
        };
        proof {
            lemma_first_config(self.configs(), canal_msg@, 0);
            assert(self.configs()[ci as int] == self.message_configs@[ci as int]@);
            assert(mappings_ok(self.configs()[ci as int].1));
        }
        let fields = self.fields_of(&self.message_configs[ci].fields, json);
        let upper = to_upper(canal_msg.as_str());
        let section = sib_section_of(upper.as_str());
        if section == 1 {
            self.sib1_fields = fields;
        } else if section == 2 {
            self.sib2_fields = fields;
        } else if section == 3 {
            self.sib3_fields = fields;
        }
    }

    /// Reads the S-NSSAI lists of a registration accept (see `nssai_lists`); other
    /// messages change nothing.
    pub fn parse_nas_nssai(&mut self, text: &Vec<String>)
        requires
            old(self).wf(),
        ensures
            final(self).wf(),
            final(self).message_configs@ == old(self).message_configs@,
            final(self).current_index == old(self).current_index,
            final(self).metadata == old(self).metadata,
            final(self).sib1_fields@ == old(self).sib1_fields@,
            final(self).sib2_fields@ == old(self).sib2_fields@,
            final(self).sib3_fields@ == old(self).sib3_fields@,
            is_registration_accept(lines_view(text@)) ==> (
                nssais_view(final(self).allowed_nssai@),
                nssais_view(final(self).configured_nssai@),
            ) == nssai_lists(lines_view(text@)),
            !is_registration_accept(lines_view(text@)) ==> {
                &&& final(self).allowed_nssai@ == old(self).allowed_nssai@
                &&& final(self).configured_nssai@ == old(self).configured_nssai@
            },
    {
        if !registration_accept(text) {
            return;
        }
        let (allowed, configured) = read_nssai(text);
        self.allowed_nssai = allowed;
        self.configured_nssai = configured;
    }

    /// Takes what a trace brings (see `takes_event`).
    fn take_event(&mut self, event: &Trace)
        requires
            old(self).wf(),
        ensures
            final(self).wf(),
            final(self).current_index == old(self).current_index,
            Self::takes_event(*old(self), *final(self), *event),
    {
        self.update_fields(event);
        if event.layer == Layer::NAS {
            match &event.text {
                Some(text) => self.parse_nas_nssai(text),
                None => {},
            }
        }
    }
}

impl Default for BstConfig {
    fn default() -> (r: Self)
        ensures
            r.wf(),
            r.configs() == with_default_configs(Seq::empty()),
            r.current_index == 0,
            r.sib1_fields@.len() == 0,
            r.sib2_fields@.len() == 0,
            r.sib3_fields@.len() == 0,
            r.allowed_nssai@.len() == 0,
            r.configured_nssai@.len() == 0,
    {
        Self::new()
    }
}

impl EventSubscriber for BstConfig {
    open spec fn wf(&self) -> bool {
        configs_ok(self.configs())
    }

    /// Keeps the capture's metadata, then takes what the event brings.
    fn on_event_added(&mut self, event: &Trace, index: usize, context: &EventContext)
    {
        self.metadata = context.metadata.duplicate();
        self.take_event(event);
    }

    /// Remembers the focused index, then takes what the event brings.
    fn on_event_focused(&mut self, event: &Trace, index: usize, context: &EventContext)
    {
        self.current_index = index;
        self.take_event(event);
    }

    /// Forgets every field and slice read; the configurations and metadata stay.
    fn on_events_cleared(&mut self)
    {
        self.current_index = 0;
        self.sib1_fields = Vec::new();
        self.sib2_fields = Vec::new();
        self.sib3_fields = Vec::new();
        self.allowed_nssai = Vec::new();
        self.configured_nssai = Vec::new();
    }

    /// Keeps the new metadata.
    fn on_metadata_changed(&mut self, metadata: &FileMetadata)
    {
        self.metadata = metadata.duplicate();
    }

    open spec fn spec_name(&self) -> &'static str {
        "RAN Config"
    }

    fn name(&self) -> (r: &'static str) {
        "RAN Config"
    }

    open spec fn spec_added(&self, after: Self, event: Trace, index: usize, context: EventContext) -> bool {
        &&& (after.current_index == self.current_index)
        &&& (after.metadata.technology == context.metadata.technology)
        &&& (after.metadata.pci == context.metadata.pci)
        &&& (after.metadata.arfcn == context.metadata.arfcn)
        &&& (same_text(after.metadata.mode, context.metadata.mode))
        &&& (same_text(after.metadata.io_mode, context.metadata.io_mode))
        &&& (after.metadata.ssb_info@ == context.metadata.ssb_info@)
        &&& (Self::takes_event(BstConfig { metadata: after.metadata, ..*self }, after, event))
    }

    open spec fn spec_focused(&self, after: Self, event: Trace, index: usize, context: EventContext) -> bool {
        &&& (after.current_index == index)
        &&& (Self::takes_event(BstConfig { current_index: index, ..*self }, after, event))
    }

    open spec fn spec_cleared(&self, after: Self) -> bool {
        &&& (after.current_index == 0)
        &&& (after.message_configs@ == self.message_configs@)
        &&& (after.metadata == self.metadata)
        &&& (after.sib1_fields@.len() == 0)
        &&& (after.sib2_fields@.len() == 0)
        &&& (after.sib3_fields@.len() == 0)
        &&& (after.allowed_nssai@.len() == 0)
        &&& (after.configured_nssai@.len() == 0)
    }

    open spec fn spec_metadata_changed(&self, after: Self, metadata: FileMetadata) -> bool {
        &&& (after.metadata.technology == metadata.technology)
        &&& (after.metadata.pci == metadata.pci)
        &&& (after.metadata.arfcn == metadata.arfcn)
        &&& (same_text(after.metadata.mode, metadata.mode))
        &&& (same_text(after.metadata.io_mode, metadata.io_mode))
        &&& (after.metadata.ssb_info@ == metadata.ssb_info@)
        &&& (after.message_configs@ == self.message_configs@)
        &&& (after.current_index == self.current_index)
        &&& (after.sib1_fields@ == self.sib1_fields@)
        &&& (after.sib2_fields@ == self.sib2_fields@)
        &&& (after.sib3_fields@ == self.sib3_fields@)
        &&& (after.allowed_nssai@ == self.allowed_nssai@)
        &&& (after.configured_nssai@ == self.configured_nssai@)
    }
}

} // verus!
