//! Requests for more logs sent to an Amarisoft WebSocket, and the per-layer log levels
//! they carry.

use vstd::prelude::*;

verus! {

/// Log level of each layer, as the remote API names them (`"debug"` or `"warn"`).
#[derive(Clone, Debug)]
pub struct Layers {
    /// PHY
    pub phy: String,
    /// MAC
    pub mac: String,
    /// RLC
    pub rlc: String,
    /// PDCP
    pub pdcp: String,
    /// RRC
    pub rrc: String,
    /// NAS
    pub nas: String,
    /// S72
    pub s72: String,
    /// S1AP
    pub s1ap: String,
    /// NGAP
    pub ngap: String,
    /// GTPU
    pub gtpu: String,
    /// X2AP
    pub x2ap: String,
    /// XnAP
    pub xnap: String,
    /// M2AP
    pub m2ap: String,
    /// LPPa
    pub lppa: String,
    /// NRPPa
    pub nrppa: String,
    /// TRX
    pub trx: String,
}

impl Layers {
    /// The levels asked for by default: PHY, RRC and NAS in debug, the others in warn.
    pub open spec fn spec_default_levels(self) -> bool {
        &&& self.phy@ == "debug"@
        &&& self.mac@ == "warn"@
        &&& self.rlc@ == "warn"@
        &&& self.pdcp@ == "warn"@
        &&& self.rrc@ == "debug"@
        &&& self.nas@ == "debug"@
        &&& self.s72@ == "warn"@
        &&& self.s1ap@ == "warn"@
        &&& self.ngap@ == "warn"@
        &&& self.gtpu@ == "warn"@
        &&& self.x2ap@ == "warn"@
        &&& self.xnap@ == "warn"@
        &&& self.m2ap@ == "warn"@
        &&& self.lppa@ == "warn"@
        &&& self.nrppa@ == "warn"@
        &&& self.trx@ == "warn"@
    }

    /// The default levels.
    pub fn new() -> (r: Self)
        ensures
            r.spec_default_levels(),
    {
        Layers {
            phy: String::from_str("debug"),
            mac: String::from_str("warn"),
            rlc: String::from_str("warn"),
            pdcp: String::from_str("warn"),
            rrc: String::from_str("debug"),
            nas: String::from_str("debug"),
            s72: String::from_str("warn"),
            s1ap: String::from_str("warn"),
            ngap: String::from_str("warn"),
            gtpu: String::from_str("warn"),
            x2ap: String::from_str("warn"),
            xnap: String::from_str("warn"),
            m2ap: String::from_str("warn"),
            lppa: String::from_str("warn"),
            nrppa: String::from_str("warn"),
            trx: String::from_str("warn"),
        }
    }

    /// A copy of the levels.
    pub fn duplicate(&self) -> (r: Self)
        ensures
            r == *self,
    {
        Layers {
            phy: self.phy.clone(),
            mac: self.mac.clone(),
            rlc: self.rlc.clone(),
            pdcp: self.pdcp.clone(),
            rrc: self.rrc.clone(),
            nas: self.nas.clone(),
            s72: self.s72.clone(),
            s1ap: self.s1ap.clone(),
            ngap: self.ngap.clone(),
            gtpu: self.gtpu.clone(),
            x2ap: self.x2ap.clone(),
            xnap: self.xnap.clone(),
            m2ap: self.m2ap.clone(),
            lppa: self.lppa.clone(),
            nrppa: self.nrppa.clone(),
            trx: self.trx.clone(),
        }
    }
}

/// Whether a level is `"debug"` (the layer's box is ticked).
pub fn is_debug_level(level: &String) -> (r: bool)
    ensures
        r == (level@ == "debug"@),
{
    let debug = String::from_str("debug");
    *level == debug
}

/// The level a ticked (`"debug"`) or unticked (`"warn"`) box stands for.
pub fn set_level(level: &mut String, checked: bool)
    ensures
        final(level)@ == if checked { "debug"@ } else { "warn"@ },
{
    if checked {
        *level = String::from_str("debug");
    } else {
        *level = String::from_str("warn");
    }
}

/// A `log_get` request.
#[derive(Debug)]
pub struct LogGet {
    /// Timeout in seconds
    pub timeout: u64,
    /// Minimum number of logs
    pub min: u64,
    /// Maximum number of logs
    pub max: u64,
    /// Levels of the layers
    pub layers: Layers,
    /// Name of the request
    pub message: String,
    /// Whether the headers are wanted
    pub headers: bool,
    /// Identifier of the request
    pub message_id: u64,
}

impl LogGet {
    /// A `log_get` request with id `id` for the levels `layers`: one second of timeout,
    /// between 64 and 2048 logs, no headers.
    pub fn new(id: u64, layers: Layers) -> (r: Self)
        ensures
            r.timeout == 1,
            r.min == 64,
            r.max == 2048,
            r.layers == layers,
            r.message@ == "log_get"@,
            !r.headers,
            r.message_id == id,
    {
        LogGet {
            timeout: 1,
            min: 64,
            max: 2048,
            layers: layers,
            message: String::from_str("log_get"),
            headers: false,
            message_id: id,
        }
    }
}

/// Numbers the requests for more logs and keeps the levels they ask for.
pub struct SocketManager {
    /// Identifier of the next request
    pub msg_id: u64,
    /// Levels of the layers
    pub layers: Layers,
}

/// What the "Next" button of the socket manager does.
#[derive(Clone, Copy, PartialEq, Eq, Structural, Debug)]
pub enum NextStep {
    /// Focus the next loaded event
    FocusNext,
    /// Ask the socket for more logs
    RequestMore,
}

impl SocketManager {
    /// A manager whose first request will have id 1, with the default levels.
    pub fn new() -> (r: Self)
        ensures
            r.msg_id == 1,
            r.layers.spec_default_levels(),
    {
        SocketManager { msg_id: 1, layers: Layers::new() }
    }

    /// The next request for more logs (the id advances).
    pub fn get_more_logs(&mut self) -> (r: LogGet)
        requires
            old(self).msg_id < u64::MAX,
        ensures
            r.message_id == old(self).msg_id,
            r.layers == old(self).layers,
            r.timeout == 1,
            r.min == 64,
            r.max == 2048,
            r.message@ == "log_get"@,
            !r.headers,
            final(self).msg_id == old(self).msg_id + 1,
            final(self).layers == old(self).layers,
    {
        let msg = LogGet::new(self.msg_id, self.layers.duplicate());
        self.msg_id = self.msg_id + 1;
        msg
    }

    /// What "Next" does: focus the next event when one is loaded, else ask for more.
    pub fn next_step(event_count: usize, current_index: usize) -> (r: NextStep)
        requires
            current_index < usize::MAX,
        ensures
            r == if event_count > current_index + 1 {
                NextStep::FocusNext
            } else {
                NextStep::RequestMore
            },
    {
        if event_count > current_index + 1 {
            NextStep::FocusNext
        } else {
            NextStep::RequestMore
        }
    }
}

} // verus!
