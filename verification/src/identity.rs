//! Identity panel: the identities, addresses and QoS that the NAS accept messages of a
//! capture give (LTE attach accept; NR registration and PDU session establishment
//! accept).

use vstd::prelude::*;
use crate::event_bus::{EventContext, EventSubscriber};
use crate::model::{FileMetadata, Layer, Technology, Trace};
use crate::format::{dec_digits, decimal, format_hex2, hex2};
use crate::text::{
    contains, hex_bytes, join, owned, parsed_hex, spec_find, spec_trim, spec_trim_quotes, spec_words,
    starts_with, str_contains, str_find, str_starts_with, trim, trim_quotes,
};

verus! {

/// A QoS rule of a PDU session.
#[derive(Debug)]
pub struct QosRule {
    /// QoS rule identifier
    pub identifier: Option<String>,
    /// Default QoS rule indicator
    pub dqr: Option<String>,
    /// Precedence of the rule
    pub precedence: Option<String>,
    /// QoS flow identifier
    pub qfi: Option<String>,
}

/// The texts of a QoS rule.
pub struct QosRuleView {
    /// QoS rule identifier
    pub identifier: Option<Seq<char>>,
    /// Default QoS rule indicator
    pub dqr: Option<Seq<char>>,
    /// Precedence of the rule
    pub precedence: Option<Seq<char>>,
    /// QoS flow identifier
    pub qfi: Option<Seq<char>>,
}

/// The text of an optional string.
pub open spec fn opt_view(o: Option<String>) -> Option<Seq<char>> {
    match o {
        Some(s) => Some(s@),
        None => None,
    }
}

impl View for QosRule {
    type V = QosRuleView;

    open spec fn view(&self) -> QosRuleView {
        QosRuleView {
            identifier: opt_view(self.identifier),
            dqr: opt_view(self.dqr),
            precedence: opt_view(self.precedence),
            qfi: opt_view(self.qfi),
        }
    }
}

/// A rule with no field set.
pub open spec fn empty_rule() -> QosRuleView {
    QosRuleView { identifier: None, dqr: None, precedence: None, qfi: None }
}

impl Default for QosRule {
    fn default() -> (r: Self)
        ensures
            r@ == empty_rule(),
    {
        QosRule { identifier: None, dqr: None, precedence: None, qfi: None }
    }
}

/// A decoded TAI list.
#[derive(Debug)]
pub struct TaiInfo {
    /// Mobile country code
    pub mcc: Option<String>,
    /// Mobile network code
    pub mnc: Option<String>,
    /// Tracking area codes
    pub tacs: Vec<String>,
    /// The data as received, when it is not decoded
    pub raw_data: Option<String>,
}

/// The texts of a TAI list.
pub struct TaiInfoView {
    /// Mobile country code
    pub mcc: Option<Seq<char>>,
    /// Mobile network code
    pub mnc: Option<Seq<char>>,
    /// Tracking area codes
    pub tacs: Seq<Seq<char>>,
    /// The data as received, when it is not decoded
    pub raw_data: Option<Seq<char>>,
}

impl View for TaiInfo {
    type V = TaiInfoView;

    open spec fn view(&self) -> TaiInfoView {
        TaiInfoView {
            mcc: opt_view(self.mcc),
            mnc: opt_view(self.mnc),
            tacs: self.tacs@.map_values(|s: String| s@),
            raw_data: opt_view(self.raw_data),
        }
    }
}

/// A TAI list with nothing in it.
pub open spec fn empty_tai() -> TaiInfoView {
    TaiInfoView { mcc: None, mnc: None, tacs: Seq::empty(), raw_data: None }
}

impl Default for TaiInfo {
    fn default() -> (r: Self)
        ensures
            r@ == empty_tai(),
    {
        let r = TaiInfo { mcc: None, mnc: None, tacs: Vec::new(), raw_data: None };
        assert(r@.tacs =~= Seq::<Seq<char>>::empty());
        r
    }
}

/// A tracking area code: three bytes in upper-case hexadecimal.
pub open spec fn tac_at(b: Seq<u8>, i: int) -> Seq<char> {
    hex2(b[i]) + hex2(b[i + 1]) + hex2(b[i + 2])
}

/// The tracking area codes of `b` from position `i` on, three bytes each.
pub open spec fn tac_list(b: Seq<u8>, i: int) -> Seq<Seq<char>>
    decreases b.len() - i,
{
    if 0 <= i && i + 3 <= b.len() {
        seq![tac_at(b, i)] + tac_list(b, i + 3)
    } else {
        Seq::empty()
    }
}

/// The codes read from position `i` on are the consecutive 3-byte groups that fit, each in
/// upper-case hexadecimal.
pub proof fn lemma_tac_list_groups(b: Seq<u8>, i: int)
    requires
        0 <= i <= b.len(),
    ensures
        tac_list(b, i).len() == (b.len() - i) / 3,
        forall|k: int|
            0 <= k < (b.len() - i) / 3 ==> #[trigger] tac_list(b, i)[k] == hex2(b[i + 3 * k]) + hex2(
                b[i + 3 * k + 1],
            ) + hex2(b[i + 3 * k + 2]),
    decreases b.len() - i,
{
    if i + 3 <= b.len() {
        lemma_tac_list_groups(b, i + 3);
        let rest = tac_list(b, i + 3);
        assert(tac_list(b, i) == seq![tac_at(b, i)] + rest);
        assert forall|k: int| 0 <= k < (b.len() - i) / 3 implies #[trigger] tac_list(b, i)[k]
            == hex2(b[i + 3 * k]) + hex2(b[i + 3 * k + 1]) + hex2(b[i + 3 * k + 2]) by {
            if k > 0 {
                assert(tac_list(b, i)[k] == rest[k - 1]);
                assert(i + 3 + 3 * (k - 1) == i + 3 * k);
            }
        }
    }
}

/// A TAI list of type 1 (one PLMN, several codes) gives every 3-byte group after the
/// MCC and MNC as a code, in order and in upper-case hexadecimal; a list of type 0 gives
/// the first group only; either way the MCC and MNC are decoded.
pub proof fn lemma_tai_list_codes(data: Seq<char>)
    requires
        parsed_hex(spec_words(data)).len() >= 4,
        parsed_hex(spec_words(data))[0] % 4 == 0 || parsed_hex(spec_words(data))[0] % 4 == 1,
    ensures
        ({
            let b = parsed_hex(spec_words(data));
            let r = spec_decode_tai(data);
            &&& r.mcc is Some
            &&& r.mnc is Some
            &&& r.raw_data is None
            &&& b[0] % 4 == 1 ==> {
                &&& r.tacs.len() == (b.len() - 4) / 3
                &&& forall|k: int|
                    0 <= k < (b.len() - 4) / 3 ==> #[trigger] r.tacs[k] == hex2(b[4 + 3 * k])
                        + hex2(b[4 + 3 * k + 1]) + hex2(b[4 + 3 * k + 2])
            }
            &&& b[0] % 4 == 0 ==> {
                &&& r.tacs.len() == if b.len() >= 7 { 1int } else { 0int }
                &&& b.len() >= 7 ==> r.tacs[0] == hex2(b[4]) + hex2(b[5]) + hex2(b[6])
            }
        }),
{
    let b = parsed_hex(spec_words(data));
    lemma_tac_list_groups(b, 4);
}

/// A list of type 2, one shorter than 4 bytes, or data with no byte, is not decoded: it
/// is kept as received, with no MCC, MNC or code.
pub proof fn lemma_tai_list_kept_raw(data: Seq<char>)
    requires
        parsed_hex(spec_words(data)).len() < 4 || parsed_hex(spec_words(data))[0] % 4 == 2,
    ensures
        spec_decode_tai(data) == (TaiInfoView { mcc: None, mnc: None, tacs: Seq::empty(), raw_data: Some(data) }),
{
}

/// The TAI list that the hexadecimal `data` encodes: its first byte gives the type of the
/// list (in its two low bits), the next three the MCC and MNC in BCD, and the others the
/// TACs. A list of type 2, or one too short, is kept as received.
pub open spec fn spec_decode_tai(data: Seq<char>) -> TaiInfoView {
    let b = parsed_hex(spec_words(data));
    if b.len() == 0 || b[0] % 4 == 2 || b.len() < 4 {
        TaiInfoView { mcc: None, mnc: None, tacs: Seq::empty(), raw_data: Some(data) }
    } else {
        let list_type = b[0] % 4;
        let mcc = dec_digits((b[1] % 16) as nat) + dec_digits((b[1] / 16) as nat) + dec_digits(
            (b[2] % 16) as nat,
        );
        let mnc3 = b[2] / 16;
        let mnc = if mnc3 == 15 {
            dec_digits((b[3] % 16) as nat) + dec_digits((b[3] / 16) as nat)
        } else {
            dec_digits((b[3] % 16) as nat) + dec_digits((b[3] / 16) as nat) + dec_digits(mnc3 as nat)
        };
        let tacs = if list_type == 0 {
            if b.len() >= 7 {
                seq![tac_at(b, 4)]
            } else {
                Seq::empty()
            }
        } else if list_type == 1 {
            tac_list(b, 4)
        } else {
            Seq::empty()
        };
        TaiInfoView { mcc: Some(mcc), mnc: Some(mnc), tacs, raw_data: None }
    }
}

/// The value of `field` in a line such as `"MCC = 001"`: the trimmed text after the first
/// `field`, when it is not empty.
pub open spec fn spec_extract_field(line: Seq<char>, field: Seq<char>) -> Option<Seq<char>> {
    match spec_find(line, field) {
        Some(pos) => {
            let v = spec_trim(line.subrange(pos + field.len(), line.len() as int));
            if v.len() > 0 {
                Some(v)
            } else {
                None
            }
        },
        None => None,
    }
}

/// The TAI list that the hexadecimal `data` encodes (see `spec_decode_tai`).
pub fn decode_tai_list(data: &str) -> (r: TaiInfo)
    ensures
        r@ == spec_decode_tai(data@),
{
    let bytes = hex_bytes(data);
    let n = bytes.len();
    if n == 0 || bytes[0] % 4 == 2 || n < 4 {
        let r = TaiInfo { mcc: None, mnc: None, tacs: Vec::new(), raw_data: Some(owned(data)) };
        assert(r@.tacs =~= Seq::<Seq<char>>::empty());
        return r;
    }
    let list_type = bytes[0] % 4;
    let mut mcc = decimal((bytes[1] % 16) as u64);
    mcc.append(decimal((bytes[1] / 16) as u64).as_str());
    mcc.append(decimal((bytes[2] % 16) as u64).as_str());
    let mnc3 = bytes[2] / 16;
    let mut mnc = decimal((bytes[3] % 16) as u64);
    mnc.append(decimal((bytes[3] / 16) as u64).as_str());
    if mnc3 != 15 {
        mnc.append(decimal(mnc3 as u64).as_str());
    }
    let mut tacs: Vec<String> = Vec::new();
    let ghost b = bytes@;
    if list_type == 0 {
        if n >= 7 {
            tacs.push(tac_text(&bytes, 4));
        }
    } else if list_type == 1 {
        let mut i: usize = 4;
        while n - i >= 3
            invariant
                n == bytes@.len(),
                b == bytes@,
                4 <= i <= n,
                (i - 4) % 3 == 0,
                tacs@.map_values(|s: String| s@) + tac_list(b, i as int) == tac_list(b, 4),
            decreases n - i,
        {
            let t = tac_text(&bytes, i);
            let ghost before = tacs@.map_values(|s: String| s@);
            tacs.push(t);
            proof {
                assert(tacs@.map_values(|s: String| s@) =~= before.push(tac_at(b, i as int)));
                assert(tac_list(b, i as int) == seq![tac_at(b, i as int)] + tac_list(b, i + 3));
                assert(before.push(tac_at(b, i as int)) + tac_list(b, i + 3) =~= before + tac_list(
                    b,
                    i as int,
                ));
            }
            i = i + 3;
        }
        proof {
            assert(tac_list(b, i as int) =~= Seq::<Seq<char>>::empty());
        }
    }
    let r = TaiInfo { mcc: Some(mcc), mnc: Some(mnc), tacs, raw_data: None };
    proof {
        if list_type == 1 {
            assert(r@.tacs =~= tac_list(b, 4));
        } else if list_type == 0 && n >= 7 {
            assert(r@.tacs =~= seq![tac_at(b, 4)]);
        } else {
            assert(r@.tacs =~= Seq::<Seq<char>>::empty());
        }
    }
    r
}

/// The tracking area code at position `i`.
fn tac_text(bytes: &Vec<u8>, i: usize) -> (r: String)
    requires
        i + 3 <= bytes@.len(),
    ensures
        r@ == tac_at(bytes@, i as int),
{
    assert(bytes@.len() == bytes.len());
    let mut t = format_hex2(bytes[i]);
    t.append(format_hex2(bytes[i + 1]).as_str());
    t.append(format_hex2(bytes[i + 2]).as_str());
    t
}

/// The value of `field` in a line (see `spec_extract_field`).
pub fn extract_field(line: &str, field: &str) -> (r: Option<String>)
    ensures
        opt_view(r) == spec_extract_field(line@, field@),
{
    match str_find(line, field) {
        Some(pos) => {
            let flen = field.unicode_len();
            let llen = line.unicode_len();
            let rest = line.substring_char(pos + flen, llen);
            let value = trim(rest);
            if value.unicode_len() > 0 {
                Some(owned(value))
            } else {
                None
            }
        },
        None => None,
    }
}

/// The identity panel.
pub struct Identity {
    /// Index of the focused event
    pub current_index: usize,
    /// Metadata of the capture
    pub metadata: FileMetadata,
    /// LTE: MCC of the GUTI
    pub lte_guti_mcc: Option<String>,
    /// LTE: MNC of the GUTI
    pub lte_guti_mnc: Option<String>,
    /// LTE: MME group ID
    pub lte_mme_group_id: Option<String>,
    /// LTE: MME code
    pub lte_mme_code: Option<String>,
    /// LTE: M-TMSI
    pub lte_m_tmsi: Option<String>,
    /// LTE: PDN IPv4 address
    pub lte_pdn_ipv4: Option<String>,
    /// LTE: PDN IPv6 address
    pub lte_pdn_ipv6: Option<String>,
    /// LTE: PDN type
    pub lte_pdn_type: Option<String>,
    /// LTE: access point name
    pub lte_apn: Option<String>,
    /// LTE: TAI list
    pub lte_tai_info: TaiInfo,
    /// LTE: DNS IPv4 address
    pub lte_dns_ipv4: Option<String>,
    /// LTE: DNS IPv6 address
    pub lte_dns_ipv6: Option<String>,
    /// NR: PDU IPv4 address
    pub nr_pdu_ipv4: Option<String>,
    /// NR: PDU IPv6 address
    pub nr_pdu_ipv6: Option<String>,
    /// NR: PDU session type
    pub nr_pdu_session_type: Option<String>,
    /// NR: data network name
    pub nr_dnn: Option<String>,
    /// NR: MCC of the 5G-GUTI
    pub nr_guti_mcc: Option<String>,
    /// NR: MNC of the 5G-GUTI
    pub nr_guti_mnc: Option<String>,
    /// NR: AMF region ID
    pub nr_guti_amf_region_id: Option<String>,
    /// NR: AMF set ID
    pub nr_guti_amf_set_id: Option<String>,
    /// NR: AMF pointer
    pub nr_guti_amf_pointer: Option<String>,
    /// NR: 5G-TMSI
    pub nr_guti_5g_tmsi: Option<String>,
    /// NR: QoS rules
    pub nr_qos_rules: Vec<QosRule>,
    /// NR: 5QI
    pub nr_fiveqi: Option<String>,
    /// NR: DNS IPv4 address
    pub nr_dns_ipv4: Option<String>,
    /// NR: TAI list
    pub nr_tai_info: TaiInfo,
    /// NR: session AMBR downlink
    pub nr_session_ambr_dl: Option<String>,
    /// NR: session AMBR uplink
    pub nr_session_ambr_ul: Option<String>,
}

/// The texts that the identity panel shows.
pub struct IdentityView {
    /// LTE: MCC of the GUTI
    pub lte_guti_mcc: Option<Seq<char>>,
    /// LTE: MNC of the GUTI
    pub lte_guti_mnc: Option<Seq<char>>,
    /// LTE: MME group ID
    pub lte_mme_group_id: Option<Seq<char>>,
    /// LTE: MME code
    pub lte_mme_code: Option<Seq<char>>,
    /// LTE: M-TMSI
    pub lte_m_tmsi: Option<Seq<char>>,
    /// LTE: PDN IPv4 address
    pub lte_pdn_ipv4: Option<Seq<char>>,
    /// LTE: PDN IPv6 address
    pub lte_pdn_ipv6: Option<Seq<char>>,
    /// LTE: PDN type
    pub lte_pdn_type: Option<Seq<char>>,
    /// LTE: access point name
    pub lte_apn: Option<Seq<char>>,
    /// LTE: TAI list
    pub lte_tai_info: TaiInfoView,
    /// LTE: DNS IPv4 address
    pub lte_dns_ipv4: Option<Seq<char>>,
    /// LTE: DNS IPv6 address
    pub lte_dns_ipv6: Option<Seq<char>>,
    /// NR: PDU IPv4 address
    pub nr_pdu_ipv4: Option<Seq<char>>,
    /// NR: PDU IPv6 address
    pub nr_pdu_ipv6: Option<Seq<char>>,
    /// NR: PDU session type
    pub nr_pdu_session_type: Option<Seq<char>>,
    /// NR: data network name
    pub nr_dnn: Option<Seq<char>>,
    /// NR: MCC of the 5G-GUTI
    pub nr_guti_mcc: Option<Seq<char>>,
    /// NR: MNC of the 5G-GUTI
    pub nr_guti_mnc: Option<Seq<char>>,
    /// NR: AMF region ID
    pub nr_guti_amf_region_id: Option<Seq<char>>,
    /// NR: AMF set ID
    pub nr_guti_amf_set_id: Option<Seq<char>>,
    /// NR: AMF pointer
    pub nr_guti_amf_pointer: Option<Seq<char>>,
    /// NR: 5G-TMSI
    pub nr_guti_5g_tmsi: Option<Seq<char>>,
    /// NR: QoS rules
    pub nr_qos_rules: Seq<QosRuleView>,
    /// NR: 5QI
    pub nr_fiveqi: Option<Seq<char>>,
    /// NR: DNS IPv4 address
    pub nr_dns_ipv4: Option<Seq<char>>,
    /// NR: TAI list
    pub nr_tai_info: TaiInfoView,
    /// NR: session AMBR downlink
    pub nr_session_ambr_dl: Option<Seq<char>>,
    /// NR: session AMBR uplink
    pub nr_session_ambr_ul: Option<Seq<char>>,
}

/// The view is what the panel knows of the user equipment; the focused index and the
/// capture's metadata, which only track the application, are fields of their own that the
/// contracts state beside it.
impl View for Identity {
    type V = IdentityView;

    open spec fn view(&self) -> IdentityView {
        IdentityView {
            lte_guti_mcc: opt_view(self.lte_guti_mcc),
            lte_guti_mnc: opt_view(self.lte_guti_mnc),
            lte_mme_group_id: opt_view(self.lte_mme_group_id),
            lte_mme_code: opt_view(self.lte_mme_code),
            lte_m_tmsi: opt_view(self.lte_m_tmsi),
            lte_pdn_ipv4: opt_view(self.lte_pdn_ipv4),
            lte_pdn_ipv6: opt_view(self.lte_pdn_ipv6),
            lte_pdn_type: opt_view(self.lte_pdn_type),
            lte_apn: opt_view(self.lte_apn),
            lte_tai_info: self.lte_tai_info@,
            lte_dns_ipv4: opt_view(self.lte_dns_ipv4),
            lte_dns_ipv6: opt_view(self.lte_dns_ipv6),
            nr_pdu_ipv4: opt_view(self.nr_pdu_ipv4),
            nr_pdu_ipv6: opt_view(self.nr_pdu_ipv6),
            nr_pdu_session_type: opt_view(self.nr_pdu_session_type),
            nr_dnn: opt_view(self.nr_dnn),
            nr_guti_mcc: opt_view(self.nr_guti_mcc),
            nr_guti_mnc: opt_view(self.nr_guti_mnc),
            nr_guti_amf_region_id: opt_view(self.nr_guti_amf_region_id),
            nr_guti_amf_set_id: opt_view(self.nr_guti_amf_set_id),
            nr_guti_amf_pointer: opt_view(self.nr_guti_amf_pointer),
            nr_guti_5g_tmsi: opt_view(self.nr_guti_5g_tmsi),
            nr_qos_rules: self.nr_qos_rules@.map_values(|q: QosRule| q@),
            nr_fiveqi: opt_view(self.nr_fiveqi),
            nr_dns_ipv4: opt_view(self.nr_dns_ipv4),
            nr_tai_info: self.nr_tai_info@,
            nr_session_ambr_dl: opt_view(self.nr_session_ambr_dl),
            nr_session_ambr_ul: opt_view(self.nr_session_ambr_ul),
        }
    }
}

/// Nothing known yet.
pub open spec fn empty_identity() -> IdentityView {
    IdentityView {
        lte_guti_mcc: None,
        lte_guti_mnc: None,
        lte_mme_group_id: None,
        lte_mme_code: None,
        lte_m_tmsi: None,
        lte_pdn_ipv4: None,
        lte_pdn_ipv6: None,
        lte_pdn_type: None,
        lte_apn: None,
        lte_tai_info: empty_tai(),
        lte_dns_ipv4: None,
        lte_dns_ipv6: None,
        nr_pdu_ipv4: None,
        nr_pdu_ipv6: None,
        nr_pdu_session_type: None,
        nr_dnn: None,
        nr_guti_mcc: None,
        nr_guti_mnc: None,
        nr_guti_amf_region_id: None,
        nr_guti_amf_set_id: None,
        nr_guti_amf_pointer: None,
        nr_guti_5g_tmsi: None,
        nr_qos_rules: Seq::empty(),
        nr_fiveqi: None,
        nr_dns_ipv4: None,
        nr_tai_info: empty_tai(),
        nr_session_ambr_dl: None,
        nr_session_ambr_ul: None,
    }
}

impl Identity {
    /// A panel that knows nothing yet.
    pub fn new() -> (r: Self)
        ensures
            r@ == empty_identity(),
            r.current_index == 0,
            r.metadata.technology == Technology::Unknown,
            r.metadata.ssb_info@.len() == 0,
    {
        let r = Identity {
            current_index: 0,
            metadata: FileMetadata::new(),
            lte_guti_mcc: None,
            lte_guti_mnc: None,
            lte_mme_group_id: None,
            lte_mme_code: None,
            lte_m_tmsi: None,
            lte_pdn_ipv4: None,
            lte_pdn_ipv6: None,
            lte_pdn_type: None,
            lte_apn: None,
            lte_tai_info: TaiInfo::default(),
            lte_dns_ipv4: None,
            lte_dns_ipv6: None,
            nr_pdu_ipv4: None,
            nr_pdu_ipv6: None,
            nr_pdu_session_type: None,
            nr_dnn: None,
            nr_guti_mcc: None,
            nr_guti_mnc: None,
            nr_guti_amf_region_id: None,
            nr_guti_amf_set_id: None,
            nr_guti_amf_pointer: None,
            nr_guti_5g_tmsi: None,
            nr_qos_rules: Vec::new(),
            nr_fiveqi: None,
            nr_dns_ipv4: None,
            nr_tai_info: TaiInfo::default(),
            nr_session_ambr_dl: None,
            nr_session_ambr_ul: None,
        };
        assert(r@.nr_qos_rules =~= Seq::<QosRuleView>::empty());
        r
    }
}

/// The texts of a list of lines.
pub open spec fn lines_view(text: Seq<String>) -> Seq<Seq<char>> {
    text.map_values(|s: String| s@)
}

/// Sections of a registration accept that the parser is in.
#[derive(Clone, Copy, PartialEq, Eq, Structural, Debug)]
pub struct RegSections {
    /// In the 5G-GUTI
    pub in_guti: bool,
    /// In the TAI list
    pub in_tai: bool,
}

/// A top-level line (one that is not empty, has a colon and does not start with a space)
/// that opens none of the sections listed by `known`.
pub open spec fn is_other_section(t: Seq<char>) -> bool {
    t.len() > 0 && !starts_with(t, " "@) && contains(t, ":"@)
}

/// A field of the 5G-GUTI.
pub open spec fn reg_guti_line(id: IdentityView, t: Seq<char>) -> IdentityView {
    if let Some(v) = spec_extract_field(t, "MCC ="@) {
        IdentityView { nr_guti_mcc: Some(v), ..id }
    } else if let Some(v) = spec_extract_field(t, "MNC ="@) {
        IdentityView { nr_guti_mnc: Some(v), ..id }
    } else if let Some(v) = spec_extract_field(t, "AMF Region ID ="@) {
        IdentityView { nr_guti_amf_region_id: Some(v), ..id }
    } else if let Some(v) = spec_extract_field(t, "AMF Set ID ="@) {
        IdentityView { nr_guti_amf_set_id: Some(v), ..id }
    } else if let Some(v) = spec_extract_field(t, "AMF Pointer ="@) {
        IdentityView { nr_guti_amf_pointer: Some(v), ..id }
    } else if let Some(v) = spec_extract_field(t, "5G-TMSI ="@) {
        IdentityView { nr_guti_5g_tmsi: Some(v), ..id }
    } else {
        id
    }
}

/// One line of a registration accept.
pub open spec fn reg_line(id: IdentityView, f: RegSections, line: Seq<char>) -> (IdentityView, RegSections) {
    let t = spec_trim(line);
    if starts_with(t, "5G-GUTI:"@) {
        (id, RegSections { in_guti: true, in_tai: false })
    } else if starts_with(t, "TAI list:"@) {
        (id, RegSections { in_guti: false, in_tai: true })
    } else {
        let f1 = if is_other_section(t) {
            RegSections { in_guti: false, in_tai: false }
        } else {
            f
        };
        let id1 = if f1.in_guti {
            reg_guti_line(id, t)
        } else {
            id
        };
        let id2 = if f1.in_tai {
            match spec_extract_field(t, "Data ="@) {
                Some(v) => IdentityView { nr_tai_info: spec_decode_tai(v), ..id1 },
                None => id1,
            }
        } else {
            id1
        };
        (id2, f1)
    }
}

/// The lines of a registration accept, in order.
pub open spec fn reg_run(id: IdentityView, lines: Seq<Seq<char>>) -> (IdentityView, RegSections)
    decreases lines.len(),
{
    if lines.len() == 0 {
        (id, RegSections { in_guti: false, in_tai: false })
    } else {
        let prev = reg_run(id, lines.drop_last());
        reg_line(prev.0, prev.1, lines.last())
    }
}

/// The 5G-GUTI fields of `a` and `b` are the same.
pub open spec fn same_nr_guti(a: IdentityView, b: IdentityView) -> bool {
    &&& a.nr_guti_mcc == b.nr_guti_mcc
    &&& a.nr_guti_mnc == b.nr_guti_mnc
    &&& a.nr_guti_amf_region_id == b.nr_guti_amf_region_id
    &&& a.nr_guti_amf_set_id == b.nr_guti_amf_set_id
    &&& a.nr_guti_amf_pointer == b.nr_guti_amf_pointer
    &&& a.nr_guti_5g_tmsi == b.nr_guti_5g_tmsi
}

/// The 5G-GUTI is read only inside its section: a registration accept with no
/// `5G-GUTI:` line leaves every 5G-GUTI field as it was, whatever `MCC =` or `MNC =`
/// lines it holds elsewhere; one with no `TAI list:` line leaves the TAI list as it was.
pub proof fn lemma_registration_fields_need_their_section(id: IdentityView, lines: Seq<Seq<char>>)
    ensures
        (forall|k: int| 0 <= k < lines.len() ==> !starts_with(spec_trim(#[trigger] lines[k]), "5G-GUTI:"@))
            ==> same_nr_guti(reg_run(id, lines).0, id) && !reg_run(id, lines).1.in_guti,
        (forall|k: int| 0 <= k < lines.len() ==> !starts_with(spec_trim(#[trigger] lines[k]), "TAI list:"@))
            ==> reg_run(id, lines).0.nr_tai_info == id.nr_tai_info && !reg_run(id, lines).1.in_tai,
    decreases lines.len(),
{
    if lines.len() > 0 {
        let d = lines.drop_last();
        lemma_registration_fields_need_their_section(id, d);
        assert forall|k: int| 0 <= k < d.len() implies d[k] == lines[k] by {}
        let _ = lines[lines.len() - 1];
    }
}

impl Identity {
    /// Reads one line of a registration accept.
    fn registration_accept_line(&mut self, f: RegSections, line: &str) -> (r: RegSections)
        ensures
            (final(self)@, r) == reg_line(old(self)@, f, line@),
            final(self).current_index == old(self).current_index,
            final(self).metadata == old(self).metadata,
    {
        let t = trim(line);
        if str_starts_with(t, "5G-GUTI:") {
            return RegSections { in_guti: true, in_tai: false };
        }
        if str_starts_with(t, "TAI list:") {
            return RegSections { in_guti: false, in_tai: true };
        }
        let other = t.unicode_len() > 0 && !str_starts_with(t, " ") && str_contains(t, ":");
        let f1 = if other {
            RegSections { in_guti: false, in_tai: false }
        } else {
            f
        };
        if f1.in_guti {
            if let Some(v) = extract_field(t, "MCC =") {
                self.nr_guti_mcc = Some(v);
            } else if let Some(v) = extract_field(t, "MNC =") {
                self.nr_guti_mnc = Some(v);
            } else if let Some(v) = extract_field(t, "AMF Region ID =") {
                self.nr_guti_amf_region_id = Some(v);
            } else if let Some(v) = extract_field(t, "AMF Set ID =") {
                self.nr_guti_amf_set_id = Some(v);
            } else if let Some(v) = extract_field(t, "AMF Pointer =") {
                self.nr_guti_amf_pointer = Some(v);
            } else if let Some(v) = extract_field(t, "5G-TMSI =") {
                self.nr_guti_5g_tmsi = Some(v);
            }
        }
        if f1.in_tai {
            if let Some(v) = extract_field(t, "Data =") {
                self.nr_tai_info = decode_tai_list(v.as_str());
            }
        }
        f1
    }

    /// Reads a registration accept: the 5G-GUTI and the TAI list.
    pub fn parse_registration_accept(&mut self, text: &[String])
        ensures
            final(self)@ == reg_run(old(self)@, lines_view(text@)).0,
            final(self).current_index == old(self).current_index,
            final(self).metadata == old(self).metadata,
    {
        let ghost lines = lines_view(text@);
        let mut f = RegSections { in_guti: false, in_tai: false };
        let n = text.len();
        let mut k: usize = 0;
        while k < n
            invariant
                n == text@.len(),
                lines == lines_view(text@),
                k <= n,
                (self@, f) == reg_run(old(self)@, lines.take(k as int)),
                self.current_index == old(self).current_index,
                self.metadata == old(self).metadata,
            decreases n - k,
        {
            proof {
                assert(lines.take(k + 1).drop_last() =~= lines.take(k as int));
                assert(lines.take(k + 1).last() == text@[k as int]@);
            }
            f = self.registration_accept_line(f, text[k].as_str());
            k = k + 1;
        }
        assert(lines.take(n as int) =~= lines);
    }
}

/// Sections of a PDU session establishment accept that the parser is in, and whether a
/// DNS server protocol was just announced.
#[derive(Clone, Copy, PartialEq, Eq, Structural, Debug)]
pub struct PduSections {
    /// In the PDU address
    pub in_pdu_address: bool,
    /// In the authorized QoS rules
    pub in_qos_rules: bool,
    /// In the authorized QoS flow descriptions
    pub in_qos_flow: bool,
    /// In the session AMBR
    pub in_session_ambr: bool,
    /// In the extended protocol configuration options
    pub in_epco: bool,
    /// A DNS server IPv4 address protocol was just announced
    pub saw_dns_protocol: bool,
}

/// Only the section `k` (0 to 4, in the order of the fields) is open; the DNS flag is
/// kept.
pub open spec fn pdu_only(k: int, saw_dns_protocol: bool) -> PduSections {
    PduSections {
        in_pdu_address: k == 0,
        in_qos_rules: k == 1,
        in_qos_flow: k == 2,
        in_session_ambr: k == 3,
        in_epco: k == 4,
        saw_dns_protocol,
    }
}

/// The rule being read, if any, is added to the list.
pub open spec fn push_pending(id: IdentityView, rule: Option<QosRuleView>) -> IdentityView {
    match rule {
        Some(r) => IdentityView { nr_qos_rules: id.nr_qos_rules.push(r), ..id },
        None => id,
    }
}

/// A field of a QoS rule.
pub open spec fn qos_rule_field(r: QosRuleView, t: Seq<char>) -> QosRuleView {
    if let Some(v) = spec_extract_field(t, "QoS rule identifier ="@) {
        QosRuleView { identifier: Some(v), ..r }
    } else if let Some(v) = spec_extract_field(t, "DQR ="@) {
        QosRuleView { dqr: Some(v), ..r }
    } else if let Some(v) = spec_extract_field(t, "QoS rule precedence ="@) {
        QosRuleView { precedence: Some(v), ..r }
    } else if let Some(v) = spec_extract_field(t, "QFI ="@) {
        QosRuleView { qfi: Some(v), ..r }
    } else {
        r
    }
}

/// A field of the PDU address.
pub open spec fn pdu_address_field(id: IdentityView, t: Seq<char>) -> IdentityView {
    if let Some(v) = spec_extract_field(t, "IPv4 ="@) {
        IdentityView { nr_pdu_ipv4: Some(v), ..id }
    } else if let Some(v) = spec_extract_field(t, "IPv6 ="@) {
        IdentityView { nr_pdu_ipv6: Some(v), ..id }
    } else if let Some(v) = spec_extract_field(t, "PDU session type ="@) {
        IdentityView { nr_pdu_session_type: Some(v), ..id }
    } else {
        id
    }
}

/// A field of the session AMBR.
pub open spec fn session_ambr_field(id: IdentityView, t: Seq<char>) -> IdentityView {
    if let Some(v) = spec_extract_field(t, "Session-AMBR for downlink ="@) {
        IdentityView { nr_session_ambr_dl: Some(v), ..id }
    } else if let Some(v) = spec_extract_field(t, "Session-AMBR for uplink ="@) {
        IdentityView { nr_session_ambr_ul: Some(v), ..id }
    } else {
        id
    }
}

/// A line that opens a section of a PDU session establishment accept.
pub open spec fn pdu_header(t: Seq<char>) -> Option<int> {
    if starts_with(t, "PDU address:"@) {
        Some(0)
    } else if starts_with(t, "Authorized QoS rules:"@) {
        Some(1)
    } else if starts_with(t, "Authorized QoS flow descriptions:"@) {
        Some(2)
    } else if starts_with(t, "Session AMBR:"@) {
        Some(3)
    } else if starts_with(t, "Extended protocol configuration options:"@) {
        Some(4)
    } else {
        None
    }
}

/// The QoS rules part of a line: a `QoS rule ...:` line adds the rule being read to the
/// list and starts a new one, whose fields the line may also give.
pub open spec fn pdu_qos_part(id: IdentityView, f: PduSections, rule: Option<QosRuleView>, t: Seq<char>) -> (
    IdentityView,
    Option<QosRuleView>,
) {
    if f.in_qos_rules {
        let starts_rule = starts_with(t, "QoS rule"@) && contains(t, ":"@);
        let id1 = if starts_rule {
            push_pending(id, rule)
        } else {
            id
        };
        let rule1 = if starts_rule {
            Some(empty_rule())
        } else {
            rule
        };
        let rule2 = match rule1 {
            Some(r) => Some(qos_rule_field(r, t)),
            None => None,
        };
        (id1, rule2)
    } else {
        (id, rule)
    }
}

/// The end of a line: the DNS server of the protocol options (announced by the line
/// before), then the DNN; a DNS announcement ends the line.
pub open spec fn pdu_tail(id: IdentityView, f: PduSections, t: Seq<char>) -> (IdentityView, PduSections) {
    if f.in_epco && contains(t, "DNS Server IPv4 Address"@) {
        (id, PduSections { saw_dns_protocol: true, ..f })
    } else {
        let id5 = if f.in_epco && f.saw_dns_protocol {
            match spec_extract_field(t, "Data ="@) {
                Some(v) => if contains(v, "."@) && v.len() > 0 {
                    IdentityView { nr_dns_ipv4: Some(v), ..id }
                } else {
                    id
                },
                None => id,
            }
        } else {
            id
        };
        let f1 = if f.in_epco && (f.saw_dns_protocol || starts_with(t, "Protocol ID ="@)) {
            PduSections { saw_dns_protocol: false, ..f }
        } else {
            f
        };
        let id6 = match spec_extract_field(t, "DNN ="@) {
            Some(v) => IdentityView { nr_dnn: Some(spec_trim_quotes(v)), ..id5 },
            None => id5,
        };
        (id6, f1)
    }
}

/// The line after the sections: the PDU address, the QoS rules, the QoS flows, the
/// session AMBR, then the protocol options and the DNN.
pub open spec fn pdu_body(
    id: IdentityView,
    f: PduSections,
    rule: Option<QosRuleView>,
    t: Seq<char>,
) -> (IdentityView, PduSections, Option<QosRuleView>) {
    let id1 = if f.in_pdu_address {
        pdu_address_field(id, t)
    } else {
        id
    };
    let q = pdu_qos_part(id1, f, rule, t);
    let id3 = if f.in_qos_flow {
        match spec_extract_field(t, "5QI ="@) {
            Some(v) => IdentityView { nr_fiveqi: Some(v), ..q.0 },
            None => q.0,
        }
    } else {
        q.0
    };
    let id4 = if f.in_session_ambr {
        session_ambr_field(id3, t)
    } else {
        id3
    };
    let tail = pdu_tail(id4, f, t);
    (tail.0, tail.1, q.1)
}

/// One line of a PDU session establishment accept.
pub open spec fn pdu_line(
    id: IdentityView,
    f: PduSections,
    rule: Option<QosRuleView>,
    line: Seq<char>,
) -> (IdentityView, PduSections, Option<QosRuleView>) {
    let t = spec_trim(line);
    match pdu_header(t) {
        Some(k) => if k == 2 || k == 3 {
            (push_pending(id, rule), pdu_only(k, f.saw_dns_protocol), None)
        } else {
            (id, pdu_only(k, f.saw_dns_protocol), rule)
        },
        None => {
            let other = is_other_section(t) && !starts_with(t, "QoS rule"@) && !starts_with(
                t,
                "QoS flow"@,
            );
            if other {
                pdu_body(push_pending(id, rule), pdu_only(-1, f.saw_dns_protocol), None, t)
            } else {
                pdu_body(id, f, rule, t)
            }
        },
    }
}

/// The lines of a PDU session establishment accept, in order.
pub open spec fn pdu_run(id: IdentityView, lines: Seq<Seq<char>>) -> (IdentityView, PduSections, Option<
    QosRuleView,
>)
    decreases lines.len(),
{
    if lines.len() == 0 {
        (IdentityView { nr_qos_rules: Seq::empty(), ..id }, pdu_only(-1, false), None)
    } else {
        let prev = pdu_run(id, lines.drop_last());
        pdu_line(prev.0, prev.1, prev.2, lines.last())
    }
}

/// The PDU address fields of `a` and `b` are the same.
pub open spec fn same_pdu_address(a: IdentityView, b: IdentityView) -> bool {
    &&& a.nr_pdu_ipv4 == b.nr_pdu_ipv4
    &&& a.nr_pdu_ipv6 == b.nr_pdu_ipv6
    &&& a.nr_pdu_session_type == b.nr_pdu_session_type
}

/// A line that does not open the PDU address, read outside it, leaves the address as it
/// was and does not open it.
#[verifier::spinoff_prover]
#[verifier::rlimit(50)]
pub proof fn lemma_pdu_line_keeps_address(
    id: IdentityView,
    f: PduSections,
    rule: Option<QosRuleView>,
    line: Seq<char>,
)
    requires
        !starts_with(spec_trim(line), "PDU address:"@),
        !f.in_pdu_address,
    ensures
        same_pdu_address(pdu_line(id, f, rule, line).0, id),
        !pdu_line(id, f, rule, line).1.in_pdu_address,
{
    let t = spec_trim(line);
    assert(pdu_header(t) != Some(0int));
}

/// A line that does not open the QoS rules, read outside them with no rule being read,
/// reads no rule and does not open them.
#[verifier::spinoff_prover]
#[verifier::rlimit(50)]
pub proof fn lemma_pdu_line_keeps_no_rule(
    id: IdentityView,
    f: PduSections,
    rule: Option<QosRuleView>,
    line: Seq<char>,
)
    requires
        !starts_with(spec_trim(line), "Authorized QoS rules:"@),
        !f.in_qos_rules,
        rule is None,
        id.nr_qos_rules.len() == 0,
    ensures
        pdu_line(id, f, rule, line).0.nr_qos_rules.len() == 0,
        pdu_line(id, f, rule, line).2 is None,
        !pdu_line(id, f, rule, line).1.in_qos_rules,
{
    let t = spec_trim(line);
    assert(pdu_header(t) != Some(1int));
}

/// A line that does not open the session AMBR, read outside it, leaves the AMBR as it
/// was and does not open it.
#[verifier::spinoff_prover]
#[verifier::rlimit(50)]
pub proof fn lemma_pdu_line_keeps_ambr(
    id: IdentityView,
    f: PduSections,
    rule: Option<QosRuleView>,
    line: Seq<char>,
)
    requires
        !starts_with(spec_trim(line), "Session AMBR:"@),
        !f.in_session_ambr,
    ensures
        pdu_line(id, f, rule, line).0.nr_session_ambr_dl == id.nr_session_ambr_dl,
        pdu_line(id, f, rule, line).0.nr_session_ambr_ul == id.nr_session_ambr_ul,
        !pdu_line(id, f, rule, line).1.in_session_ambr,
{
    let t = spec_trim(line);
    assert(pdu_header(t) != Some(3int));
}

/// The fields of a PDU session establishment accept are read only inside their sections:
/// with no `PDU address:` line the PDU address stays as it was; with no `Authorized QoS
/// rules:` line no QoS rule is read; with no `Session AMBR:` line the session AMBR stays
/// as it was.
pub proof fn lemma_pdu_fields_need_their_section(id: IdentityView, lines: Seq<Seq<char>>)
    ensures
        (forall|k: int| 0 <= k < lines.len() ==> !starts_with(spec_trim(#[trigger] lines[k]), "PDU address:"@))
            ==> same_pdu_address(pdu_run(id, lines).0, id) && !pdu_run(id, lines).1.in_pdu_address,
        (forall|k: int|
            0 <= k < lines.len() ==> !starts_with(spec_trim(#[trigger] lines[k]), "Authorized QoS rules:"@))
            ==> pdu_run(id, lines).0.nr_qos_rules.len() == 0 && pdu_run(id, lines).2 is None
            && !pdu_run(id, lines).1.in_qos_rules,
        (forall|k: int| 0 <= k < lines.len() ==> !starts_with(spec_trim(#[trigger] lines[k]), "Session AMBR:"@))
            ==> pdu_run(id, lines).0.nr_session_ambr_dl == id.nr_session_ambr_dl && pdu_run(
            id,
            lines,
        ).0.nr_session_ambr_ul == id.nr_session_ambr_ul && !pdu_run(id, lines).1.in_session_ambr,
    decreases lines.len(),
{
    if lines.len() > 0 {
        let d = lines.drop_last();
        lemma_pdu_fields_need_their_section(id, d);
        assert forall|k: int| 0 <= k < d.len() implies d[k] == lines[k] by {}
        let last = lines[lines.len() - 1];
        let prev = pdu_run(id, d);
        assert(pdu_run(id, lines) == pdu_line(prev.0, prev.1, prev.2, last));
        if !starts_with(spec_trim(last), "PDU address:"@) && !prev.1.in_pdu_address {
            lemma_pdu_line_keeps_address(prev.0, prev.1, prev.2, last);
        }
        if !starts_with(spec_trim(last), "Authorized QoS rules:"@) && !prev.1.in_qos_rules
            && prev.2 is None && prev.0.nr_qos_rules.len() == 0 {
            lemma_pdu_line_keeps_no_rule(prev.0, prev.1, prev.2, last);
        }
        if !starts_with(spec_trim(last), "Session AMBR:"@) && !prev.1.in_session_ambr {
            lemma_pdu_line_keeps_ambr(prev.0, prev.1, prev.2, last);
        }
    }
}

/// Without an `Authorized QoS rules:` line, a PDU session establishment accept gives no
/// QoS rule.
pub proof fn lemma_pdu_rules_need_their_section(id: IdentityView, lines: Seq<Seq<char>>)
    requires
        forall|k: int| 0 <= k < lines.len() ==> !starts_with(spec_trim(#[trigger] lines[k]), "Authorized QoS rules:"@),
    ensures
        pdu_result(id, lines).nr_qos_rules.len() == 0,
{
    lemma_pdu_fields_need_their_section(id, lines);
}

/// What a PDU session establishment accept leaves: the rule being read at the end is
/// added to the list.
pub open spec fn pdu_result(id: IdentityView, lines: Seq<Seq<char>>) -> IdentityView {
    let end = pdu_run(id, lines);
    push_pending(end.0, end.2)
}

/// The texts of an optional rule.
pub open spec fn opt_rule_view(r: Option<QosRule>) -> Option<QosRuleView> {
    match r {
        Some(q) => Some(q@),
        None => None,
    }
}

impl Identity {
    /// Adds the rule being read, if any, to the list.
    fn push_pending_rule(&mut self, rule: Option<QosRule>)
        ensures
            final(self)@ == push_pending(old(self)@, opt_rule_view(rule)),
            final(self).current_index == old(self).current_index,
            final(self).metadata == old(self).metadata,
    {
        match rule {
            Some(r) => {
                self.nr_qos_rules.push(r);
                assert(self@.nr_qos_rules =~= old(self)@.nr_qos_rules.push(r@));
            },
            None => {},
        }
    }

    /// Reads one line of a PDU session establishment accept.
    fn pdu_session_accept_line(&mut self, f: PduSections, rule: Option<QosRule>, line: &str) -> (r: (
        PduSections,
        Option<QosRule>,
    ))
        ensures
            (final(self)@, r.0, opt_rule_view(r.1)) == pdu_line(
                old(self)@,
                f,
                opt_rule_view(rule),
                line@,
            ),
            final(self).current_index == old(self).current_index,
            final(self).metadata == old(self).metadata,
    {
        let t = trim(line);
        let saw = f.saw_dns_protocol;
        if str_starts_with(t, "PDU address:") {
            return (pdu_sections(0, saw), rule);
        }
        if str_starts_with(t, "Authorized QoS rules:") {
            return (pdu_sections(1, saw), rule);
        }
        if str_starts_with(t, "Authorized QoS flow descriptions:") {
            self.push_pending_rule(rule);
            return (pdu_sections(2, saw), None);
        }
        if str_starts_with(t, "Session AMBR:") {
            self.push_pending_rule(rule);
            return (pdu_sections(3, saw), None);
        }
        if str_starts_with(t, "Extended protocol configuration options:") {
            return (pdu_sections(4, saw), rule);
        }
        let other = t.unicode_len() > 0 && !str_starts_with(t, " ") && str_contains(t, ":")
            && !str_starts_with(t, "QoS rule") && !str_starts_with(t, "QoS flow");
        let mut f1 = f;
        let mut rule1 = rule;
        if other {
            self.push_pending_rule(rule1);
            rule1 = None;
            f1 = pdu_sections(5, saw);
        }
        self.pdu_session_accept_body(f1, rule1, t)
    }

    /// A field of the PDU address.
    fn pdu_address_line(&mut self, t: &str)
        ensures
            final(self)@ == pdu_address_field(old(self)@, t@),
            final(self).current_index == old(self).current_index,
            final(self).metadata == old(self).metadata,
    {
        if let Some(v) = extract_field(t, "IPv4 =") {
            self.nr_pdu_ipv4 = Some(v);
        } else if let Some(v) = extract_field(t, "IPv6 =") {
            self.nr_pdu_ipv6 = Some(v);
        } else if let Some(v) = extract_field(t, "PDU session type =") {
            self.nr_pdu_session_type = Some(v);
        }
    }

    /// The QoS rules part of a line (see `pdu_qos_part`).
    fn pdu_qos_line(&mut self, f: PduSections, rule: Option<QosRule>, t: &str) -> (r: Option<QosRule>)
        ensures
            (final(self)@, opt_rule_view(r)) == pdu_qos_part(old(self)@, f, opt_rule_view(rule), t@),
            final(self).current_index == old(self).current_index,
            final(self).metadata == old(self).metadata,
    {
        if !f.in_qos_rules {
            return rule;
        }
        let mut rule = rule;
        if str_starts_with(t, "QoS rule") && str_contains(t, ":") {
            self.push_pending_rule(rule);
            rule = Some(QosRule::default());
        }
        match rule {
            Some(mut r) => {
                if let Some(v) = extract_field(t, "QoS rule identifier =") {
                    r.identifier = Some(v);
                } else if let Some(v) = extract_field(t, "DQR =") {
                    r.dqr = Some(v);
                } else if let Some(v) = extract_field(t, "QoS rule precedence =") {
                    r.precedence = Some(v);
                } else if let Some(v) = extract_field(t, "QFI =") {
                    r.qfi = Some(v);
                }
                Some(r)
            },
            None => None,
        }
    }

    /// A field of the session AMBR.
    fn session_ambr_line(&mut self, t: &str)
        ensures
            final(self)@ == session_ambr_field(old(self)@, t@),
            final(self).current_index == old(self).current_index,
            final(self).metadata == old(self).metadata,
    {
        if let Some(v) = extract_field(t, "Session-AMBR for downlink =") {
            self.nr_session_ambr_dl = Some(v);
        } else if let Some(v) = extract_field(t, "Session-AMBR for uplink =") {
            self.nr_session_ambr_ul = Some(v);
        }
    }

    /// The end of a line (see `pdu_tail`).
    fn pdu_tail_line(&mut self, f: PduSections, t: &str) -> (r: PduSections)
        ensures
            (final(self)@, r) == pdu_tail(old(self)@, f, t@),
            final(self).current_index == old(self).current_index,
            final(self).metadata == old(self).metadata,
    {
        let mut f1 = f;
        if f.in_epco {
            if str_contains(t, "DNS Server IPv4 Address") {
                f1.saw_dns_protocol = true;
                return f1;
            }
            if f.saw_dns_protocol {
                if let Some(v) = extract_field(t, "Data =") {
                    if str_contains(v.as_str(), ".") && v.as_str().unicode_len() > 0 {
                        self.nr_dns_ipv4 = Some(v);
                    }
                }
                f1.saw_dns_protocol = false;
            }
            if str_starts_with(t, "Protocol ID =") {
                f1.saw_dns_protocol = false;
            }
        }
        if let Some(v) = extract_field(t, "DNN =") {
            self.nr_dnn = Some(owned(trim_quotes(v.as_str())));
        }
        f1
    }

    /// The part of a line after the sections (see `pdu_body`).
    fn pdu_session_accept_body(&mut self, f: PduSections, rule: Option<QosRule>, t: &str) -> (r: (
        PduSections,
        Option<QosRule>,
    ))
        ensures
            (final(self)@, r.0, opt_rule_view(r.1)) == pdu_body(
                old(self)@,
                f,
                opt_rule_view(rule),
                t@,
            ),
            final(self).current_index == old(self).current_index,
            final(self).metadata == old(self).metadata,
    {
        if f.in_pdu_address {
            self.pdu_address_line(t);
        }
        let rule = self.pdu_qos_line(f, rule, t);
        if f.in_qos_flow {
            if let Some(v) = extract_field(t, "5QI =") {
                self.nr_fiveqi = Some(v);
            }
        }
        if f.in_session_ambr {
            self.session_ambr_line(t);
        }
        let f1 = self.pdu_tail_line(f, t);
        (f1, rule)
    }

    /// Reads a PDU session establishment accept: the PDU address, the QoS rules and flows,
    /// the session AMBR, the DNS server and the DNN. The QoS rules start afresh.
    pub fn parse_pdu_session_accept(&mut self, text: &[String])
        ensures
            final(self)@ == pdu_result(old(self)@, lines_view(text@)),
            final(self).current_index == old(self).current_index,
            final(self).metadata == old(self).metadata,
    {
        let ghost lines = lines_view(text@);
        let mut f = pdu_sections(5, false);
        let mut rule: Option<QosRule> = None;
        self.nr_qos_rules = Vec::new();
        assert(self@.nr_qos_rules =~= Seq::<QosRuleView>::empty());
        assert(self@ == IdentityView { nr_qos_rules: Seq::empty(), ..old(self)@ });
        let n = text.len();
        let mut k: usize = 0;
        while k < n
            invariant
                n == text@.len(),
                lines == lines_view(text@),
                k <= n,
                (self@, f, opt_rule_view(rule)) == pdu_run(old(self)@, lines.take(k as int)),
                self.current_index == old(self).current_index,
                self.metadata == old(self).metadata,
            decreases n - k,
        {
            proof {
                assert(lines.take(k + 1).drop_last() =~= lines.take(k as int));
                assert(lines.take(k + 1).last() == text@[k as int]@);
            }
            let (f1, rule1) = self.pdu_session_accept_line(f, rule, text[k].as_str());
            f = f1;
            rule = rule1;
            k = k + 1;
        }
        assert(lines.take(n as int) =~= lines);
        self.push_pending_rule(rule);
    }
}

/// The sections with only section `k` open (none for `k` of 5).
fn pdu_sections(k: u8, saw_dns_protocol: bool) -> (r: PduSections)
    ensures
        k < 5 ==> r == pdu_only(k as int, saw_dns_protocol),
        k >= 5 ==> r == pdu_only(-1, saw_dns_protocol),
{
    PduSections {
        in_pdu_address: k == 0,
        in_qos_rules: k == 1,
        in_qos_flow: k == 2,
        in_session_ambr: k == 3,
        in_epco: k == 4,
        saw_dns_protocol,
    }
}

/// Sections of an attach accept that the parser is in, and which DNS server protocol was
/// just announced.
#[derive(Clone, Copy, PartialEq, Eq, Structural, Debug)]
pub struct AttachSections {
    /// In the GUTI
    pub in_guti: bool,
    /// In the TAI list
    pub in_tai: bool,
    /// In the PDN address
    pub in_pdn_address: bool,
    /// In the protocol configuration options
    pub in_pco: bool,
    /// A DNS server IPv4 address protocol was announced
    pub saw_dns_ipv4: bool,
    /// A DNS server IPv6 address protocol was announced
    pub saw_dns_ipv6: bool,
}

/// Only the section `k` (0 to 3, in the order of the fields) is open; the DNS flags are
/// kept.
pub open spec fn attach_only(k: int, f: AttachSections) -> AttachSections {
    AttachSections { in_guti: k == 0, in_tai: k == 1, in_pdn_address: k == 2, in_pco: k == 3, ..f }
}

/// A line that opens a section of an attach accept.
pub open spec fn attach_header(t: Seq<char>) -> Option<int> {
    if starts_with(t, "GUTI:"@) {
        Some(0)
    } else if starts_with(t, "TAI list:"@) {
        Some(1)
    } else if starts_with(t, "PDN address:"@) {
        Some(2)
    } else if starts_with(t, "Protocol configuration options:"@) {
        Some(3)
    } else {
        None
    }
}

/// A field of the GUTI.
pub open spec fn attach_guti_field(id: IdentityView, t: Seq<char>) -> IdentityView {
    if let Some(v) = spec_extract_field(t, "MCC ="@) {
        IdentityView { lte_guti_mcc: Some(v), ..id }
    } else if let Some(v) = spec_extract_field(t, "MNC ="@) {
        IdentityView { lte_guti_mnc: Some(v), ..id }
    } else if let Some(v) = spec_extract_field(t, "MME Group ID ="@) {
        IdentityView { lte_mme_group_id: Some(v), ..id }
    } else if let Some(v) = spec_extract_field(t, "MME Code ="@) {
        IdentityView { lte_mme_code: Some(v), ..id }
    } else if let Some(v) = spec_extract_field(t, "M-TMSI ="@) {
        IdentityView { lte_m_tmsi: Some(v), ..id }
    } else {
        id
    }
}

/// A field of the PDN address.
pub open spec fn attach_pdn_field(id: IdentityView, t: Seq<char>) -> IdentityView {
    if let Some(v) = spec_extract_field(t, "IPv4 ="@) {
        IdentityView { lte_pdn_ipv4: Some(v), ..id }
    } else if let Some(v) = spec_extract_field(t, "IPv6 ="@) {
        IdentityView { lte_pdn_ipv6: Some(v), ..id }
    } else if let Some(v) = spec_extract_field(t, "PDN type ="@) {
        IdentityView { lte_pdn_type: Some(v), ..id }
    } else {
        id
    }
}

/// The protocol options part of a line and the access point name; a DNS announcement
/// ends the line.
pub open spec fn attach_tail(id: IdentityView, f: AttachSections, t: Seq<char>) -> (IdentityView, AttachSections) {
    if f.in_pco && contains(t, "DNS Server IPv4 Address"@) {
        (id, AttachSections { saw_dns_ipv4: true, saw_dns_ipv6: false, ..f })
    } else if f.in_pco && contains(t, "DNS Server IPv6 Address"@) {
        (id, AttachSections { saw_dns_ipv4: false, saw_dns_ipv6: true, ..f })
    } else {
        let data = if starts_with(t, "Data ="@) {
            spec_extract_field(t, "Data ="@)
        } else {
            None
        };
        let (id1, f1) = if f.in_pco && f.saw_dns_ipv4 && starts_with(t, "Data ="@) {
            match data {
                Some(v) => (IdentityView { lte_dns_ipv4: Some(v), ..id }, AttachSections { saw_dns_ipv4: false, ..f }),
                None => (id, f),
            }
        } else if f.in_pco && f.saw_dns_ipv6 && starts_with(t, "Data ="@) {
            match data {
                Some(v) => (IdentityView { lte_dns_ipv6: Some(v), ..id }, AttachSections { saw_dns_ipv6: false, ..f }),
                None => (id, f),
            }
        } else {
            (id, f)
        };
        let f2 = if f.in_pco && starts_with(t, "Protocol ID ="@) && !contains(t, "DNS"@) {
            AttachSections { saw_dns_ipv4: false, saw_dns_ipv6: false, ..f1 }
        } else {
            f1
        };
        let id2 = match spec_extract_field(t, "Access point name ="@) {
            Some(v) => IdentityView { lte_apn: Some(spec_trim_quotes(v)), ..id1 },
            None => id1,
        };
        (id2, f2)
    }
}

/// One line of an attach accept (a line that starts a new top-level section closes
/// the open one; `Protocol ID` lines do not).
pub open spec fn attach_line(id: IdentityView, f: AttachSections, line: Seq<char>) -> (IdentityView, AttachSections) {
    let t = spec_trim(line);
    match attach_header(t) {
        Some(k) => (id, attach_only(k, f)),
        None => {
            let other = line.len() > 0 && !starts_with(line, " "@) && contains(line, ":"@)
                && !starts_with(t, "Protocol ID"@);
            let f1 = if other {
                attach_only(-1, f)
            } else {
                f
            };
            let id1 = if f1.in_guti {
                attach_guti_field(id, t)
            } else {
                id
            };
            let id2 = if f1.in_tai {
                match spec_extract_field(t, "Data ="@) {
                    Some(v) => IdentityView { lte_tai_info: spec_decode_tai(v), ..id1 },
                    None => id1,
                }
            } else {
                id1
            };
            let id3 = if f1.in_pdn_address {
                attach_pdn_field(id2, t)
            } else {
                id2
            };
            attach_tail(id3, f1, t)
        },
    }
}

/// The lines of an attach accept, in order.
pub open spec fn attach_run(id: IdentityView, lines: Seq<Seq<char>>) -> (IdentityView, AttachSections)
    decreases lines.len(),
{
    if lines.len() == 0 {
        (
            id,
            AttachSections {
                in_guti: false,
                in_tai: false,
                in_pdn_address: false,
                in_pco: false,
                saw_dns_ipv4: false,
                saw_dns_ipv6: false,
            },
        )
    } else {
        let prev = attach_run(id, lines.drop_last());
        attach_line(prev.0, prev.1, lines.last())
    }
}

/// The LTE GUTI fields of `a` and `b` are the same.
pub open spec fn same_lte_guti(a: IdentityView, b: IdentityView) -> bool {
    &&& a.lte_guti_mcc == b.lte_guti_mcc
    &&& a.lte_guti_mnc == b.lte_guti_mnc
    &&& a.lte_mme_group_id == b.lte_mme_group_id
    &&& a.lte_mme_code == b.lte_mme_code
    &&& a.lte_m_tmsi == b.lte_m_tmsi
}

/// The PDN address fields of `a` and `b` are the same.
pub open spec fn same_pdn_address(a: IdentityView, b: IdentityView) -> bool {
    &&& a.lte_pdn_ipv4 == b.lte_pdn_ipv4
    &&& a.lte_pdn_ipv6 == b.lte_pdn_ipv6
    &&& a.lte_pdn_type == b.lte_pdn_type
}

/// The fields of an attach accept are read only inside their sections: with no `GUTI:`
/// line the GUTI fields stay as they were, with no `PDN address:` line the PDN address
/// stays as it was, and with no `TAI list:` line the TAI list stays as it was.
pub proof fn lemma_attach_fields_need_their_section(id: IdentityView, lines: Seq<Seq<char>>)
    ensures
        (forall|k: int| 0 <= k < lines.len() ==> !starts_with(spec_trim(#[trigger] lines[k]), "GUTI:"@))
            ==> same_lte_guti(attach_run(id, lines).0, id) && !attach_run(id, lines).1.in_guti,
        (forall|k: int| 0 <= k < lines.len() ==> !starts_with(spec_trim(#[trigger] lines[k]), "PDN address:"@))
            ==> same_pdn_address(attach_run(id, lines).0, id) && !attach_run(id, lines).1.in_pdn_address,
        (forall|k: int| 0 <= k < lines.len() ==> !starts_with(spec_trim(#[trigger] lines[k]), "TAI list:"@))
            ==> attach_run(id, lines).0.lte_tai_info == id.lte_tai_info && !attach_run(id, lines).1.in_tai,
    decreases lines.len(),
{
    if lines.len() > 0 {
        let d = lines.drop_last();
        lemma_attach_fields_need_their_section(id, d);
        assert forall|k: int| 0 <= k < d.len() implies d[k] == lines[k] by {}
        let _ = lines[lines.len() - 1];
    }
}

impl Identity {
    /// A field of the GUTI.
    fn attach_guti_line(&mut self, t: &str)
        ensures
            final(self)@ == attach_guti_field(old(self)@, t@),
            final(self).current_index == old(self).current_index,
            final(self).metadata == old(self).metadata,
    {
        if let Some(v) = extract_field(t, "MCC =") {
            self.lte_guti_mcc = Some(v);
        } else if let Some(v) = extract_field(t, "MNC =") {
            self.lte_guti_mnc = Some(v);
        } else if let Some(v) = extract_field(t, "MME Group ID =") {
            self.lte_mme_group_id = Some(v);
        } else if let Some(v) = extract_field(t, "MME Code =") {
            self.lte_mme_code = Some(v);
        } else if let Some(v) = extract_field(t, "M-TMSI =") {
            self.lte_m_tmsi = Some(v);
        }
    }

    /// A field of the PDN address.
    fn attach_pdn_line(&mut self, t: &str)
        ensures
            final(self)@ == attach_pdn_field(old(self)@, t@),
            final(self).current_index == old(self).current_index,
            final(self).metadata == old(self).metadata,
    {
        if let Some(v) = extract_field(t, "IPv4 =") {
            self.lte_pdn_ipv4 = Some(v);
        } else if let Some(v) = extract_field(t, "IPv6 =") {
            self.lte_pdn_ipv6 = Some(v);
        } else if let Some(v) = extract_field(t, "PDN type =") {
            self.lte_pdn_type = Some(v);
        }
    }

    /// The protocol options part of a line and the access point name.
    fn attach_tail_line(&mut self, f: AttachSections, t: &str) -> (r: AttachSections)
        ensures
            (final(self)@, r) == attach_tail(old(self)@, f, t@),
            final(self).current_index == old(self).current_index,
            final(self).metadata == old(self).metadata,
    {
        let mut f1 = f;
        if f.in_pco {
            if str_contains(t, "DNS Server IPv4 Address") {
                f1.saw_dns_ipv4 = true;
                f1.saw_dns_ipv6 = false;
                return f1;
            }
            if str_contains(t, "DNS Server IPv6 Address") {
                f1.saw_dns_ipv6 = true;
                f1.saw_dns_ipv4 = false;
                return f1;
            }
            if f.saw_dns_ipv4 && str_starts_with(t, "Data =") {
                if let Some(v) = extract_field(t, "Data =") {
                    if v.as_str().unicode_len() > 0 {
                        self.lte_dns_ipv4 = Some(v);
                        f1.saw_dns_ipv4 = false;
                    }
                }
            } else if f.saw_dns_ipv6 && str_starts_with(t, "Data =") {
                if let Some(v) = extract_field(t, "Data =") {
                    if v.as_str().unicode_len() > 0 {
                        self.lte_dns_ipv6 = Some(v);
                        f1.saw_dns_ipv6 = false;
                    }
                }
            }
            if str_starts_with(t, "Protocol ID =") && !str_contains(t, "DNS") {
                f1.saw_dns_ipv4 = false;
                f1.saw_dns_ipv6 = false;
            }
        }
        if let Some(v) = extract_field(t, "Access point name =") {
            self.lte_apn = Some(owned(trim_quotes(v.as_str())));
        }
        f1
    }

    /// Reads one line of an attach accept.
    fn attach_accept_line(&mut self, f: AttachSections, line: &str) -> (r: AttachSections)
        ensures
            (final(self)@, r) == attach_line(old(self)@, f, line@),
            final(self).current_index == old(self).current_index,
            final(self).metadata == old(self).metadata,
    {
        let t = trim(line);
        if str_starts_with(t, "GUTI:") {
            return attach_sections(0, f);
        }
        if str_starts_with(t, "TAI list:") {
            return attach_sections(1, f);
        }
        if str_starts_with(t, "PDN address:") {
            return attach_sections(2, f);
        }
        if str_starts_with(t, "Protocol configuration options:") {
            return attach_sections(3, f);
        }
        let other = line.unicode_len() > 0 && !str_starts_with(line, " ") && str_contains(line, ":")
            && !str_starts_with(t, "Protocol ID");
        let f1 = if other {
            attach_sections(4, f)
        } else {
            f
        };
        if f1.in_guti {
            self.attach_guti_line(t);
        }
        if f1.in_tai {
            if let Some(v) = extract_field(t, "Data =") {
                self.lte_tai_info = decode_tai_list(v.as_str());
            }
        }
        if f1.in_pdn_address {
            self.attach_pdn_line(t);
        }
        self.attach_tail_line(f1, t)
    }

    /// Reads an attach accept: the GUTI, the TAI list, the PDN address, the DNS servers
    /// and the access point name.
    pub fn parse_attach_accept(&mut self, text: &[String])
        ensures
            final(self)@ == attach_run(old(self)@, lines_view(text@)).0,
            final(self).current_index == old(self).current_index,
            final(self).metadata == old(self).metadata,
    {
        let ghost lines = lines_view(text@);
        let mut f = AttachSections {
            in_guti: false,
            in_tai: false,
            in_pdn_address: false,
            in_pco: false,
            saw_dns_ipv4: false,
            saw_dns_ipv6: false,
        };
        let n = text.len();
        let mut k: usize = 0;
        while k < n
            invariant
                n == text@.len(),
                lines == lines_view(text@),
                k <= n,
                (self@, f) == attach_run(old(self)@, lines.take(k as int)),
                self.current_index == old(self).current_index,
                self.metadata == old(self).metadata,
            decreases n - k,
        {
            proof {
                assert(lines.take(k + 1).drop_last() =~= lines.take(k as int));
                assert(lines.take(k + 1).last() == text@[k as int]@);
            }
            f = self.attach_accept_line(f, text[k].as_str());
            k = k + 1;
        }
        assert(lines.take(n as int) =~= lines);
    }
}

/// The sections with only section `k` open (none for `k` of 4).
fn attach_sections(k: u8, f: AttachSections) -> (r: AttachSections)
    ensures
        k < 4 ==> r == attach_only(k as int, f),
        k >= 4 ==> r == attach_only(-1, f),
{
    AttachSections { in_guti: k == 0, in_tai: k == 1, in_pdn_address: k == 2, in_pco: k == 3, ..f }
}

/// Which accept message a line announces: 0 for a registration accept, 1 for a PDU
/// session establishment accept, 2 for an attach accept.
pub open spec fn message_kind(line: Seq<char>) -> Option<int> {
    if contains(line, "Message type"@) && contains(line, "Registration accept"@) {
        Some(0)
    } else if contains(line, "Message type"@) && contains(line, "PDU session establishment accept"@) {
        Some(1)
    } else if contains(line, "Message type"@) && contains(line, "Attach accept"@) {
        Some(2)
    } else {
        None
    }
}

/// The kind of accept message that the first announcing line gives.
pub open spec fn nas_kind(lines: Seq<Seq<char>>) -> Option<int>
    decreases lines.len(),
{
    if lines.len() == 0 {
        None
    } else {
        match message_kind(lines[0]) {
            Some(k) => Some(k),
            None => nas_kind(lines.drop_first()),
        }
    }
}

/// What reading a NAS message leaves: the parser of its kind runs over it; other
/// messages change nothing.
pub open spec fn nas_result(id: IdentityView, lines: Seq<Seq<char>>) -> IdentityView {
    match nas_kind(lines) {
        Some(k) => if k == 0 {
            reg_run(id, lines).0
        } else if k == 1 {
            pdu_result(id, lines)
        } else {
            attach_run(id, lines).0
        },
        None => id,
    }
}

/// Which accept message a line announces.
fn line_message_kind(line: &str) -> (r: Option<u8>)
    ensures
        match r {
            Some(k) => message_kind(line@) == Some(k as int),
            None => message_kind(line@) is None,
        },
{
    let typed = str_contains(line, "Message type");
    if typed && str_contains(line, "Registration accept") {
        Some(0)
    } else if typed && str_contains(line, "PDU session establishment accept") {
        Some(1)
    } else if typed && str_contains(line, "Attach accept") {
        Some(2)
    } else {
        None
    }
}

impl Identity {
    /// Reads a NAS message: a registration accept, a PDU session establishment accept or
    /// an attach accept, according to its message type.
    pub fn parse_nas_identity(&mut self, text: &[String])
        ensures
            final(self)@ == nas_result(old(self)@, lines_view(text@)),
            final(self).current_index == old(self).current_index,
            final(self).metadata == old(self).metadata,
    {
        let ghost lines = lines_view(text@);
        let n = text.len();
        let mut kind: Option<u8> = None;
        let mut k: usize = 0;
        assert(lines.subrange(0, n as int) =~= lines);
        while k < n
            invariant_except_break
                kind is None,
            invariant
                n == text@.len(),
                lines == lines_view(text@),
                k <= n,
                nas_kind(lines) == nas_kind(lines.subrange(k as int, n as int)),
            ensures
                match kind {
                    Some(m) => nas_kind(lines) == Some(m as int),
                    None => nas_kind(lines) is None,
                },
            decreases n - k,
        {
            let ghost rest = lines.subrange(k as int, n as int);
            proof {
                assert(rest[0] == text@[k as int]@);
                assert(rest.drop_first() =~= lines.subrange(k + 1, n as int));
            }
            let m = line_message_kind(text[k].as_str());
            if m.is_some() {
                kind = m;
                break;
            }
            k = k + 1;
        }
        match kind {
            Some(0) => self.parse_registration_accept(text),
            Some(1) => self.parse_pdu_session_accept(text),
            Some(_) => self.parse_attach_accept(text),
            None => {},
        }
    }
}

/// The shown value of a field: its text, or `N/A`.
pub fn field_or_na(value: &Option<String>) -> (r: String)
    ensures
        r@ == match opt_view(*value) {
            Some(v) => v,
            None => "N/A"@,
        },
{
    match value {
        Some(v) => v.clone(),
        None => owned("N/A"),
    }
}

/// The shown tracking area codes: joined by `", "`, or `N/A` when there is none.
pub fn tacs_text(tai: &TaiInfo) -> (r: String)
    ensures
        r@ == if tai@.tacs.len() == 0 {
            "N/A"@
        } else {
            join(tai@.tacs, ", "@)
        },
{
    let n = tai.tacs.len();
    if n == 0 {
        return owned("N/A");
    }
    let ghost parts = tai@.tacs;
    let mut out = tai.tacs[0].clone();
    let mut k: usize = 1;
    assert(parts.take(1) =~= seq![parts[0]]);
    while k < n
        invariant
            n == tai.tacs@.len(),
            parts == tai@.tacs,
            1 <= k <= n,
            out@ == join(parts.take(k as int), ", "@),
        decreases n - k,
    {
        proof {
            assert(parts.take(k + 1).drop_last() =~= parts.take(k as int));
            assert(parts.take(k + 1).last() == tai.tacs@[k as int]@);
        }
        out.append(", ");
        out.append(tai.tacs[k].as_str());
        k = k + 1;
    }
    assert(parts.take(n as int) =~= parts);
    out
}

impl EventSubscriber for Identity {
    open spec fn wf(&self) -> bool {
        true
    }

    /// Keeps the metadata of the capture and reads NAS messages.
    fn on_event_added(&mut self, event: &Trace, index: usize, context: &EventContext)
    {
        self.metadata = context.metadata.duplicate();
        if event.layer == Layer::NAS {
            match &event.text {
                Some(text) => self.parse_nas_identity(text.as_slice()),
                None => {},
            }
        }
    }

    /// Reads the focused NAS message (the fields keep their values on other events).
    fn on_event_focused(&mut self, event: &Trace, index: usize, context: &EventContext)
    {
        self.current_index = index;
        self.metadata = context.metadata.duplicate();
        if event.layer == Layer::NAS {
            match &event.text {
                Some(text) => self.parse_nas_identity(text.as_slice()),
                None => {},
            }
        }
    }

    /// Forgets everything but the metadata.
    fn on_events_cleared(&mut self)
    {
        self.current_index = 0;
        self.lte_guti_mcc = None;
        self.lte_guti_mnc = None;
        self.lte_mme_group_id = None;
        self.lte_mme_code = None;
        self.lte_m_tmsi = None;
        self.lte_pdn_ipv4 = None;
        self.lte_pdn_ipv6 = None;
        self.lte_pdn_type = None;
        self.lte_apn = None;
        self.lte_tai_info = TaiInfo::default();
        self.lte_dns_ipv4 = None;
        self.lte_dns_ipv6 = None;
        self.nr_pdu_ipv4 = None;
        self.nr_pdu_ipv6 = None;
        self.nr_pdu_session_type = None;
        self.nr_dnn = None;
        self.nr_guti_mcc = None;
        self.nr_guti_mnc = None;
        self.nr_guti_amf_region_id = None;
        self.nr_guti_amf_set_id = None;
        self.nr_guti_amf_pointer = None;
        self.nr_guti_5g_tmsi = None;
        self.nr_qos_rules = Vec::new();
        self.nr_fiveqi = None;
        self.nr_dns_ipv4 = None;
        self.nr_tai_info = TaiInfo::default();
        self.nr_session_ambr_dl = None;
        self.nr_session_ambr_ul = None;
        assert(self@.nr_qos_rules =~= Seq::<QosRuleView>::empty());
    }

    /// The panel takes the metadata with the events.
    fn on_metadata_changed(&mut self, metadata: &FileMetadata)
    {
    }

    open spec fn spec_name(&self) -> &'static str {
        "Identity"
    }

    fn name(&self) -> (r: &'static str) {
        "Identity"
    }

    open spec fn spec_added(&self, after: Self, event: Trace, index: usize, context: EventContext) -> bool {
        &&& (after.metadata.technology == context.metadata.technology)
        &&& (after.metadata.ssb_info@ == context.metadata.ssb_info@)
        &&& (after.current_index == self.current_index)
        &&& (after@ == match (event.layer, event.text) {
            (Layer::NAS, Some(text)) => nas_result(self@, lines_view(text@)),
            _ => self@,
        })
    }

    open spec fn spec_focused(&self, after: Self, event: Trace, index: usize, context: EventContext) -> bool {
        &&& (after.current_index == index)
        &&& (after.metadata.technology == context.metadata.technology)
        &&& (after.metadata.ssb_info@ == context.metadata.ssb_info@)
        &&& (after@ == match (event.layer, event.text) {
            (Layer::NAS, Some(text)) => nas_result(self@, lines_view(text@)),
            _ => self@,
        })
    }

    open spec fn spec_cleared(&self, after: Self) -> bool {
        &&& (after@ == empty_identity())
        &&& (after.current_index == 0)
        &&& (after.metadata == self.metadata)
    }

    open spec fn spec_metadata_changed(&self, after: Self, metadata: FileMetadata) -> bool {
        &&& (after == *self)
    }
}

} // verus!
