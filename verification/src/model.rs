//! Plain-value model of the traces that the analyser reads: layers, directions,
//! RRC and PHY information, file metadata and errors.

use vstd::prelude::*;
use crate::json::Json;

verus! {

/// Protocol layer of a trace.
#[derive(Clone, Copy, PartialEq, Eq, Structural, Debug)]
pub enum Layer {
    /// Physical layer
    PHY,
    /// Medium Access Control layer
    MAC,
    /// Radio Link Control layer
    RLC,
    /// Packet Data Convergence Protocol layer
    PDCP,
    /// Service Data Adaptation Protocol layer
    SDAP,
    /// Radio Resource Control layer
    RRC,
    /// Non Access Stratum layer
    NAS,
    /// Fronthaul (O-RAN 7.2) layer
    S72,
    /// S1 Application Protocol layer
    S1AP,
    /// Next Generation Application Protocol layer
    NGAP,
    /// GTP user plane layer
    GTPU,
    /// X2 Application Protocol layer
    X2AP,
    /// Xn Application Protocol layer
    XNAP,
    /// M2 Application Protocol layer
    M2AP,
    /// LTE Positioning Protocol A layer
    LPPA,
    /// NR Positioning Protocol A layer
    NRPPA,
    /// Transceiver layer
    TRX,
    /// Special layer of the Amarisoft logs
    PROD,
}

/// Log level requested for a layer: `Debug` means the layer is shown.
#[derive(Clone, Copy, PartialEq, Eq, Structural, Debug)]
pub enum LayerLogLevel {
    /// Debug log level (layer enabled)
    Debug,
    /// Warn log level (layer filtered out)
    Warn,
}

/// Per-layer filter.
#[derive(Clone, Copy, PartialEq, Eq, Structural, Debug)]
pub struct Layers {
    /// Physical layer
    pub phy: LayerLogLevel,
    /// Medium Access Control layer
    pub mac: LayerLogLevel,
    /// Radio Link Control layer
    pub rlc: LayerLogLevel,
    /// Packet Data Convergence Protocol layer
    pub pdcp: LayerLogLevel,
    /// Service Data Adaptation Protocol layer
    pub sdap: LayerLogLevel,
    /// Radio Resource Control layer
    pub rrc: LayerLogLevel,
    /// Non Access Stratum layer
    pub nas: LayerLogLevel,
    /// Fronthaul layer
    pub s72: LayerLogLevel,
    /// S1 Application Protocol layer
    pub s1ap: LayerLogLevel,
    /// Next Generation Application Protocol layer
    pub ngap: LayerLogLevel,
    /// GTP user plane layer
    pub gtpu: LayerLogLevel,
    /// X2 Application Protocol layer
    pub x2ap: LayerLogLevel,
    /// Xn Application Protocol layer
    pub xnap: LayerLogLevel,
    /// M2 Application Protocol layer
    pub m2ap: LayerLogLevel,
    /// LTE Positioning Protocol A layer
    pub lppa: LayerLogLevel,
    /// NR Positioning Protocol A layer
    pub nrppa: LayerLogLevel,
    /// Transceiver layer
    pub trx: LayerLogLevel,
}

impl Layers {
    /// Log level configured for a layer; `PROD` has no filter entry.
    pub open spec fn level_of(self, layer: Layer) -> Option<LayerLogLevel> {
        match layer {
            Layer::PHY => Some(self.phy),
            Layer::MAC => Some(self.mac),
            Layer::RLC => Some(self.rlc),
            Layer::PDCP => Some(self.pdcp),
            Layer::SDAP => Some(self.sdap),
            Layer::RRC => Some(self.rrc),
            Layer::NAS => Some(self.nas),
            Layer::S72 => Some(self.s72),
            Layer::S1AP => Some(self.s1ap),
            Layer::NGAP => Some(self.ngap),
            Layer::GTPU => Some(self.gtpu),
            Layer::X2AP => Some(self.x2ap),
            Layer::XNAP => Some(self.xnap),
            Layer::M2AP => Some(self.m2ap),
            Layer::LPPA => Some(self.lppa),
            Layer::NRPPA => Some(self.nrppa),
            Layer::TRX => Some(self.trx),
            Layer::PROD => None,
        }
    }

    /// A layer is enabled when its level is `Debug`.
    pub open spec fn enabled(self, layer: Layer) -> bool {
        self.level_of(layer) == Some(LayerLogLevel::Debug)
    }

    /// All layers at `Warn` (nothing shown).
    pub fn new() -> (r: Self)
        ensures
            forall|l: Layer| l != Layer::PROD ==> r.level_of(l) == Some(LayerLogLevel::Warn),
    {
        Layers {
            phy: LayerLogLevel::Warn,
            mac: LayerLogLevel::Warn,
            rlc: LayerLogLevel::Warn,
            pdcp: LayerLogLevel::Warn,
            sdap: LayerLogLevel::Warn,
            rrc: LayerLogLevel::Warn,
            nas: LayerLogLevel::Warn,
            s72: LayerLogLevel::Warn,
            s1ap: LayerLogLevel::Warn,
            ngap: LayerLogLevel::Warn,
            gtpu: LayerLogLevel::Warn,
            x2ap: LayerLogLevel::Warn,
            xnap: LayerLogLevel::Warn,
            m2ap: LayerLogLevel::Warn,
            lppa: LayerLogLevel::Warn,
            nrppa: LayerLogLevel::Warn,
            trx: LayerLogLevel::Warn,
        }
    }

    /// Default filter of the analyser: only RRC is shown.
    pub open spec fn spec_optiniated() -> Self {
        Layers {
            phy: LayerLogLevel::Warn,
            mac: LayerLogLevel::Warn,
            rlc: LayerLogLevel::Warn,
            pdcp: LayerLogLevel::Warn,
            sdap: LayerLogLevel::Warn,
            rrc: LayerLogLevel::Debug,
            nas: LayerLogLevel::Warn,
            s72: LayerLogLevel::Warn,
            s1ap: LayerLogLevel::Warn,
            ngap: LayerLogLevel::Warn,
            gtpu: LayerLogLevel::Warn,
            x2ap: LayerLogLevel::Warn,
            xnap: LayerLogLevel::Warn,
            m2ap: LayerLogLevel::Warn,
            lppa: LayerLogLevel::Warn,
            nrppa: LayerLogLevel::Warn,
            trx: LayerLogLevel::Warn,
        }
    }

    /// Default filter of the analyser: only RRC is shown.
    pub fn new_optiniated() -> (r: Self)
        ensures
            r == Self::spec_optiniated(),
            r.rrc == LayerLogLevel::Debug,
            forall|l: Layer| l != Layer::PROD && l != Layer::RRC ==> r.level_of(l) == Some(
                LayerLogLevel::Warn,
            ),
    {
        Layers {
            phy: LayerLogLevel::Warn,
            mac: LayerLogLevel::Warn,
            rlc: LayerLogLevel::Warn,
            pdcp: LayerLogLevel::Warn,
            sdap: LayerLogLevel::Warn,
            rrc: LayerLogLevel::Debug,
            nas: LayerLogLevel::Warn,
            s72: LayerLogLevel::Warn,
            s1ap: LayerLogLevel::Warn,
            ngap: LayerLogLevel::Warn,
            gtpu: LayerLogLevel::Warn,
            x2ap: LayerLogLevel::Warn,
            xnap: LayerLogLevel::Warn,
            m2ap: LayerLogLevel::Warn,
            lppa: LayerLogLevel::Warn,
            nrppa: LayerLogLevel::Warn,
            trx: LayerLogLevel::Warn,
        }
    }

    /// Every layer at `Debug` (everything shown).
    pub fn all_debug() -> (r: Self)
        ensures
            forall|l: Layer| l != Layer::PROD ==> r.level_of(l) == Some(LayerLogLevel::Debug),
    {
        Layers {
            phy: LayerLogLevel::Debug,
            mac: LayerLogLevel::Debug,
            rlc: LayerLogLevel::Debug,
            pdcp: LayerLogLevel::Debug,
            sdap: LayerLogLevel::Debug,
            rrc: LayerLogLevel::Debug,
            nas: LayerLogLevel::Debug,
            s72: LayerLogLevel::Debug,
            s1ap: LayerLogLevel::Debug,
            ngap: LayerLogLevel::Debug,
            gtpu: LayerLogLevel::Debug,
            x2ap: LayerLogLevel::Debug,
            xnap: LayerLogLevel::Debug,
            m2ap: LayerLogLevel::Debug,
            lppa: LayerLogLevel::Debug,
            nrppa: LayerLogLevel::Debug,
            trx: LayerLogLevel::Debug,
        }
    }

    /// Whether traces of `layer` pass the filter.
    pub fn is_layer_enabled(&self, layer: &Layer) -> (r: bool)
        ensures
            r == self.enabled(*layer),
    {
        let level = match layer {
            Layer::PHY => self.phy,
            Layer::MAC => self.mac,
            Layer::RLC => self.rlc,
            Layer::PDCP => self.pdcp,
            Layer::SDAP => self.sdap,
            Layer::RRC => self.rrc,
            Layer::NAS => self.nas,
            Layer::S72 => self.s72,
            Layer::S1AP => self.s1ap,
            Layer::NGAP => self.ngap,
            Layer::GTPU => self.gtpu,
            Layer::X2AP => self.x2ap,
            Layer::XNAP => self.xnap,
            Layer::M2AP => self.m2ap,
            Layer::LPPA => self.lppa,
            Layer::NRPPA => self.nrppa,
            Layer::TRX => self.trx,
            Layer::PROD => {
                return false;
            },
        };
        match level {
            LayerLogLevel::Debug => true,
            LayerLogLevel::Warn => false,
        }
    }
}

/// Direction of a message.
#[derive(Clone, Copy, PartialEq, Eq, Structural, Debug)]
pub enum Direction {
    /// Uplink (UE to base station)
    UL,
    /// Downlink (base station to UE)
    DL,
    /// From the core network
    FROM,
    /// To the core network
    TO,
}

/// Radio technology of a capture.
#[derive(Clone, Copy, PartialEq, Eq, Structural, Debug)]
pub enum Technology {
    /// 4G
    LTE,
    /// 5G
    NR,
    /// Not known yet
    Unknown,
}

/// Channel and message of an RRC trace.
#[derive(Clone, Debug)]
pub struct RRCInfos {
    /// Direction of the message
    pub direction: Direction,
    /// Logical channel (e.g. `DCCH-NR`)
    pub canal: String,
    /// Message name (e.g. `RRC setup complete`)
    pub canal_msg: String,
}

/// PHY channel of a trace.
#[derive(Clone, Copy, PartialEq, Eq, Structural, Debug)]
pub enum PHYChannelType {
    /// Downlink control channel
    PDCCH,
    /// Downlink shared channel
    PDSCH,
    /// Uplink shared channel
    PUSCH,
    /// Uplink control channel
    PUCCH,
    /// Random access channel
    PRACH,
    /// Broadcast channel
    PBCH,
    /// Any other channel
    Other,
}

/// Channel-specific PHY fields.
#[derive(Clone, Debug)]
pub enum PHYChannelData {
    /// PDCCH grant
    Pdcch {
        /// DCI format
        dci: String,
        /// HARQ process of the grant
        harq_process: Option<u8>,
        /// New data indicator
        ndi: Option<u8>,
        /// Redundancy version
        rv_idx: Option<u8>,
    },
    /// PDSCH transmission
    Pdsch {
        /// Retransmission count
        retx: Option<u8>,
        /// Redundancy version
        rv_idx: Option<u8>,
    },
    /// PUSCH transmission
    Pusch {
        /// Retransmission count
        retx: Option<u8>,
        /// Redundancy version
        rv_idx: Option<u8>,
        /// CRC result
        crc: Option<bool>,
        /// HARQ feedback
        ack: Option<bool>,
        /// Whether uplink measurements (EPRE, TA, CSI) were reported
        has_measurements: bool,
    },
    /// PUCCH transmission
    Pucch {
        /// PUCCH format
        format: Option<u8>,
        /// HARQ feedback
        ack: Option<bool>,
        /// Whether uplink measurements were reported
        has_measurements: bool,
    },
    /// No channel data
    NoData,
}

/// Information of a PHY trace.
#[derive(Clone, Debug)]
pub struct PHYInfos {
    /// Direction
    pub direction: Direction,
    /// Channel
    pub channel_type: PHYChannelType,
    /// System frame number (0..1023)
    pub frame: u16,
    /// Slot within the frame
    pub slot: u8,
    /// HARQ process
    pub harq: Option<u8>,
    /// Whether the HARQ process is the system-information one
    pub harq_si: bool,
    /// First PRB
    pub prb_start: u16,
    /// Number of PRBs
    pub prb_length: u16,
    /// First symbol
    pub symb_start: u8,
    /// Number of symbols
    pub symb_length: u8,
    /// Channel-specific fields
    pub channel_data: PHYChannelData,
}

/// Layer-specific information of a trace.
#[derive(Clone, Debug)]
pub enum AdditionalInfos {
    /// RRC message
    RRCInfos(RRCInfos),
    /// PHY event
    PHYInfos(PHYInfos),
    /// Nothing structured (the raw text only)
    Unstructured,
}

impl AdditionalInfos {
    /// Direction of the trace, where it has one.
    pub open spec fn spec_direction(self) -> Option<Direction> {
        match self {
            AdditionalInfos::RRCInfos(i) => Some(i.direction),
            AdditionalInfos::PHYInfos(i) => Some(i.direction),
            AdditionalInfos::Unstructured => None,
        }
    }

    /// Name of the message of the trace, where it has one.
    pub open spec fn spec_message_name(self) -> Option<Seq<char>> {
        match self {
            AdditionalInfos::RRCInfos(i) => Some(i.canal_msg@),
            _ => None,
        }
    }

    /// Name of the message of the trace, where it has one.
    pub fn get_message_name(&self) -> (r: Option<String>)
        ensures
            match r {
                Some(s) => self.spec_message_name() == Some(s@),
                None => self.spec_message_name() is None,
            },
    {
        match self {
            AdditionalInfos::RRCInfos(i) => Some(i.canal_msg.clone()),
            _ => None,
        }
    }

    /// Direction of the trace, where it has one.
    pub fn get_direction(&self) -> (r: Option<Direction>)
        ensures
            r == self.spec_direction(),
    {
        match self {
            AdditionalInfos::RRCInfos(i) => Some(i.direction),
            AdditionalInfos::PHYInfos(i) => Some(i.direction),
            AdditionalInfos::Unstructured => None,
        }
    }
}

/// One decoded trace of a capture.
#[derive(Debug)]
pub struct Trace {
    /// Timestamp in milliseconds
    pub timestamp: i64,
    /// Layer
    pub layer: Layer,
    /// Layer-specific information
    pub additional_infos: AdditionalInfos,
    /// Raw text lines of the trace
    pub text: Option<Vec<String>>,
    /// Traces this one answers and traces that answer it
    pub relation: TraceRelation,
    /// The RRC message decoded from its ASN.1 encoding, as JSON, where it could be decoded
    pub asn1_json: Option<Json>,
}

impl Trace {
    /// The decoded RRC message of the trace, where there is one.
    pub fn parse_asn1_to_json(&self) -> (r: Option<&Json>)
        ensures
            match r {
                Some(j) => self.asn1_json == Some(*j),
                None => self.asn1_json is None,
            },
    {
        match &self.asn1_json {
            Some(j) => Some(j),
            None => None,
        }
    }
}

/// Links between traces of the same exchange.
#[derive(Clone, Debug)]
pub struct TraceRelation {
    /// Indices of the traces this one answers, when known
    pub parents: Option<Vec<usize>>,
    /// Indices of the traces that answer this one, when known
    pub children: Option<Vec<usize>>,
}

impl TraceRelation {
    /// No known link.
    pub fn none() -> (r: Self)
        ensures
            r.parents is None,
            r.children is None,
    {
        TraceRelation { parents: None, children: None }
    }
}

/// Metadata read from the header of a capture.
#[derive(Clone, Debug)]
pub struct FileMetadata {
    /// Radio technology
    pub technology: Technology,
    /// Physical cell identity, when the header gives it
    pub pci: Option<u32>,
    /// Duplex mode (`TDD`, `FDD`), when the header gives it
    pub mode: Option<String>,
    /// Carrier frequency (ARFCN), when the header gives it
    pub arfcn: Option<u32>,
    /// Antenna configuration (`MIMO`, `SISO`), when the header gives it
    pub io_mode: Option<String>,
    /// SSB description lines (`# SSB: id=0 ... prb=15:21 symb=2`)
    pub ssb_info: Vec<String>,
}

impl FileMetadata {
    /// Metadata of a capture whose header has not been read.
    pub fn new() -> (r: Self)
        ensures
            r.technology == Technology::Unknown,
            r.pci is None,
            r.mode is None,
            r.arfcn is None,
            r.io_mode is None,
            r.ssb_info@.len() == 0,
    {
        FileMetadata {
            technology: Technology::Unknown,
            pci: None,
            mode: None,
            arfcn: None,
            io_mode: None,
            ssb_info: Vec::new(),
        }
    }

    /// A copy of the metadata.
    pub fn duplicate(&self) -> (r: Self)
        ensures
            r.technology == self.technology,
            r.pci == self.pci,
            r.arfcn == self.arfcn,
            same_text(r.mode, self.mode),
            same_text(r.io_mode, self.io_mode),
            r.ssb_info@ == self.ssb_info@,
    {
        FileMetadata {
            technology: self.technology,
            pci: self.pci,
            mode: copy_opt_string(&self.mode),
            arfcn: self.arfcn,
            io_mode: copy_opt_string(&self.io_mode),
            ssb_info: copy_strings(&self.ssb_info),
        }
    }
}

/// Two optional texts are both absent, or both present with the same characters.
pub open spec fn same_text(a: Option<String>, b: Option<String>) -> bool {
    match (a, b) {
        (Some(x), Some(y)) => x@ == y@,
        (None, None) => true,
        _ => false,
    }
}

/// Two metadata hold the same values.
pub open spec fn same_metadata(a: FileMetadata, b: FileMetadata) -> bool {
    &&& a.technology == b.technology
    &&& a.pci == b.pci
    &&& a.arfcn == b.arfcn
    &&& same_text(a.mode, b.mode)
    &&& same_text(a.io_mode, b.io_mode)
    &&& a.ssb_info@ == b.ssb_info@
}

/// A copy of an optional string.
pub fn copy_opt_string(v: &Option<String>) -> (r: Option<String>)
    ensures
        same_text(r, *v),
{
    match v {
        Some(s) => Some(s.clone()),
        None => None,
    }
}

/// A copy of a list of strings.
pub fn copy_strings(v: &Vec<String>) -> (r: Vec<String>)
    ensures
        r@ == v@,
{
    let mut out: Vec<String> = Vec::new();
    let n = v.len();
    let mut i: usize = 0;
    while i < n
        invariant
            n == v@.len(),
            i <= n,
            out@ == v@.subrange(0, i as int),
        decreases n - i,
    {
        out.push(v[i].clone());
        i = i + 1;
    }
    assert(out@ =~= v@);
    out
}

/// Kind of an error.
#[derive(Clone, Copy, PartialEq, Eq, Structural, Debug)]
pub enum ErrorCode {
    /// Not set
    NotSet,
    /// WebSocket: failed to connect
    WebSocketFailedToConnect,
    /// WebSocket: error encoding a message
    WebSocketErrorEncodingMessage,
    /// WebSocket: error decoding a message
    WebSocketErrorDecodingMessage,
    /// WebSocket: unknown message received
    WebSocketUnknownMessageReceived,
    /// WebSocket: error
    WebSocketError,
    /// WebSocket: closed
    WebSocketClosed,
    /// File: no file selected
    FileNotSelected,
    /// File: error reading the file
    FileErrorReadingFile,
    /// File: not ready
    FileNotReady,
    /// File: invalid encoding
    FileInvalidEncoding,
    /// File: end of the file
    EndOfFile,
    /// File: parsing error
    FileParsing,
    /// A layer whose parser is not written yet
    ParsingLayerNotImplemented,
    /// Request error
    RequestError,
}

/// An error, with its kind and a message.
#[derive(Clone, Debug)]
pub struct TramexError {
    /// Message
    pub message: String,
    /// Kind
    pub code: ErrorCode,
}

impl TramexError {
    /// Kind of the error.
    pub fn get_code(&self) -> (r: ErrorCode)
        ensures
            r == self.code,
    {
        self.code
    }
}

} // verus!
