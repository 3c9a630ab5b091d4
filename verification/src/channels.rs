//! Logical, transport and physical channels of LTE and NR, and the panel that shows which
//! ones carry the current RRC message.

use vstd::prelude::*;
use crate::event_bus::{EventContext, EventSubscriber};
use crate::model::{AdditionalInfos, FileMetadata, Technology, Trace};
use crate::text::{remove_all, spec_remove_all, str_eq};
use crate::theme::{rgb, ArrowColors, ChannelColors, Rgb, ThemeColors};

verus! {

/// Direction of an arrow.
#[derive(Clone, Copy, PartialEq, Eq, Structural, Debug)]
pub enum ArrowDirection {
    /// Up arrow
    Up,
    /// Down arrow
    Down,
}

/// Colour of an arrow.
#[derive(Clone, Copy, PartialEq, Eq, Structural, Debug)]
pub enum ArrowColor {
    /// Green arrow
    Green,
    /// Blue arrow
    Blue,
    /// Black arrow (the text colour of the theme)
    Black,
}

/// The glyph of an arrow.
pub fn arrow_glyph(direction: ArrowDirection) -> (r: &'static str)
    ensures
        r@ == match direction {
            ArrowDirection::Down => "⇣"@,
            ArrowDirection::Up => "⇡"@,
        },
{
    match direction {
        ArrowDirection::Down => "⇣",
        ArrowDirection::Up => "⇡",
    }
}

/// The colour of an arrow in a theme.
pub fn arrow_rgb(color: ArrowColor, theme: &ThemeColors) -> (r: Rgb)
    ensures
        r == match color {
            ArrowColor::Green => rgb(110, 255, 110),
            ArrowColor::Blue => rgb(68, 143, 255),
            ArrowColor::Black => theme.text,
        },
{
    match color {
        ArrowColor::Green => ArrowColors::active(),
        ArrowColor::Blue => ArrowColors::highlight(),
        ArrowColor::Black => theme.text,
    }
}

/// Logical channels of LTE and NR.
#[allow(non_camel_case_types)]
#[derive(Clone, Copy, PartialEq, Eq, Structural, Debug)]
pub enum LogicalChannelsEnum {
    /// Paging Control Channel
    PCCH,
    /// Broadcast Control Channel
    BCCH,
    /// Downlink Common Control Channel
    DL_CCCH,
    /// Downlink Dedicated Control Channel
    DL_DCCH,
    /// Downlink Dedicated Traffic Channel
    DL_DTCH,
    /// Multicast Control Channel
    MCCH,
    /// Multicast Traffic Channel
    MTCH,
    /// Uplink Common Control Channel
    UL_CCCH,
    /// Uplink Dedicated Control Channel
    UL_DCCH,
    /// Uplink Dedicated Traffic Channel
    UL_DTCH,
}

/// Transport channels of LTE and NR.
#[allow(non_camel_case_types)]
#[derive(Clone, Copy, PartialEq, Eq, Structural, Debug)]
pub enum TransportChannelsEnum {
    /// Paging Channel
    PCH,
    /// Broadcast Channel
    BCH,
    /// Downlink Shared Channel
    DL_SCH,
    /// Multicast Channel
    MCH,
    /// Random Access Channel
    RACH,
    /// Uplink Shared Channel
    UL_SCH,
}

/// Physical channels of LTE and NR.
#[allow(non_camel_case_types)]
#[derive(Clone, Copy, PartialEq, Eq, Structural, Debug)]
pub enum PhysicalChannelsEnum {
    /// Physical Downlink Shared Channel
    PDSCH,
    /// Physical Broadcast Channel
    PBCH,
    /// Physical Downlink Control Channel
    PDCCH,
    /// Physical Multicast Channel
    PMCH,
    /// Physical Random Access Channel
    PRACH,
    /// Physical Uplink Shared Channel
    PUSCH,
    /// Physical Uplink Control Channel
    PUCCH,
}

/// Broadcast channels are red, common ones blue, dedicated ones orange, traffic ones green.
pub open spec fn red() -> Rgb {
    rgb(255, 84, 84)
}

/// Colour of common channels.
pub open spec fn blue() -> Rgb {
    rgb(68, 143, 255)
}

/// Colour of dedicated channels.
pub open spec fn orange() -> Rgb {
    rgb(255, 181, 68)
}

/// Colour of traffic channels.
pub open spec fn green() -> Rgb {
    rgb(90, 235, 100)
}

impl LogicalChannelsEnum {
    /// Colour of the channel.
    pub fn get_color(&self) -> (r: Rgb)
        ensures
            r == match *self {
                LogicalChannelsEnum::BCCH => red(),
                LogicalChannelsEnum::DL_DCCH | LogicalChannelsEnum::UL_DCCH => orange(),
                LogicalChannelsEnum::DL_DTCH | LogicalChannelsEnum::MTCH
                | LogicalChannelsEnum::UL_DTCH => green(),
                _ => blue(),
            },
    {
        match self {
            LogicalChannelsEnum::PCCH => ChannelColors::blue(),
            LogicalChannelsEnum::BCCH => ChannelColors::red(),
            LogicalChannelsEnum::DL_CCCH => ChannelColors::blue(),
            LogicalChannelsEnum::DL_DCCH => ChannelColors::orange(),
            LogicalChannelsEnum::DL_DTCH => ChannelColors::green(),
            LogicalChannelsEnum::MCCH => ChannelColors::blue(),
            LogicalChannelsEnum::MTCH => ChannelColors::green(),
            LogicalChannelsEnum::UL_CCCH => ChannelColors::blue(),
            LogicalChannelsEnum::UL_DCCH => ChannelColors::orange(),
            LogicalChannelsEnum::UL_DTCH => ChannelColors::green(),
        }
    }

    /// Name of the channel (the same for both directions).
    pub fn label(&self) -> (r: &'static str)
        ensures
            r@ == match *self {
                LogicalChannelsEnum::PCCH => "PCCH"@,
                LogicalChannelsEnum::BCCH => "BCCH"@,
                LogicalChannelsEnum::DL_CCCH | LogicalChannelsEnum::UL_CCCH => "CCCH"@,
                LogicalChannelsEnum::DL_DCCH | LogicalChannelsEnum::UL_DCCH => "DCCH"@,
                LogicalChannelsEnum::DL_DTCH | LogicalChannelsEnum::UL_DTCH => "DTCH"@,
                LogicalChannelsEnum::MCCH => "MCCH"@,
                LogicalChannelsEnum::MTCH => "MTCH"@,
            },
    {
        match self {
            LogicalChannelsEnum::PCCH => "PCCH",
            LogicalChannelsEnum::BCCH => "BCCH",
            LogicalChannelsEnum::DL_CCCH => "CCCH",
            LogicalChannelsEnum::DL_DCCH => "DCCH",
            LogicalChannelsEnum::DL_DTCH => "DTCH",
            LogicalChannelsEnum::MCCH => "MCCH",
            LogicalChannelsEnum::MTCH => "MTCH",
            LogicalChannelsEnum::UL_CCCH => "CCCH",
            LogicalChannelsEnum::UL_DCCH => "DCCH",
            LogicalChannelsEnum::UL_DTCH => "DTCH",
        }
    }
}

impl TransportChannelsEnum {
    /// Colour of the channel.
    pub fn get_color(&self) -> (r: Rgb)
        ensures
            r == match *self {
                TransportChannelsEnum::BCH => red(),
                TransportChannelsEnum::PCH | TransportChannelsEnum::RACH => blue(),
                _ => green(),
            },
    {
        match self {
            TransportChannelsEnum::PCH => ChannelColors::blue(),
            TransportChannelsEnum::BCH => ChannelColors::red(),
            TransportChannelsEnum::DL_SCH => ChannelColors::green(),
            TransportChannelsEnum::MCH => ChannelColors::green(),
            TransportChannelsEnum::RACH => ChannelColors::blue(),
            TransportChannelsEnum::UL_SCH => ChannelColors::green(),
        }
    }

    /// Name of the channel.
    pub fn label(&self) -> (r: &'static str)
        ensures
            r@ == match *self {
                TransportChannelsEnum::PCH => "PCH"@,
                TransportChannelsEnum::BCH => "BCH"@,
                TransportChannelsEnum::DL_SCH => "DL-SCH"@,
                TransportChannelsEnum::MCH => "MCH"@,
                TransportChannelsEnum::RACH => "RACH"@,
                TransportChannelsEnum::UL_SCH => "UL-SCH"@,
            },
    {
        match self {
            TransportChannelsEnum::PCH => "PCH",
            TransportChannelsEnum::BCH => "BCH",
            TransportChannelsEnum::DL_SCH => "DL-SCH",
            TransportChannelsEnum::MCH => "MCH",
            TransportChannelsEnum::RACH => "RACH",
            TransportChannelsEnum::UL_SCH => "UL-SCH",
        }
    }
}

impl PhysicalChannelsEnum {
    /// Colour of the channel.
    pub fn get_color(&self) -> (r: Rgb)
        ensures
            r == match *self {
                PhysicalChannelsEnum::PBCH => red(),
                PhysicalChannelsEnum::PDCCH | PhysicalChannelsEnum::PUCCH => orange(),
                PhysicalChannelsEnum::PRACH => blue(),
                _ => green(),
            },
    {
        match self {
            PhysicalChannelsEnum::PDSCH => ChannelColors::green(),
            PhysicalChannelsEnum::PBCH => ChannelColors::red(),
            PhysicalChannelsEnum::PDCCH => ChannelColors::orange(),
            PhysicalChannelsEnum::PMCH => ChannelColors::green(),
            PhysicalChannelsEnum::PRACH => ChannelColors::blue(),
            PhysicalChannelsEnum::PUSCH => ChannelColors::green(),
            PhysicalChannelsEnum::PUCCH => ChannelColors::orange(),
        }
    }

    /// Name of the channel.
    pub fn label(&self) -> (r: &'static str)
        ensures
            r@ == match *self {
                PhysicalChannelsEnum::PDSCH => "PDSCH"@,
                PhysicalChannelsEnum::PBCH => "PBCH"@,
                PhysicalChannelsEnum::PDCCH => "PDCCH"@,
                PhysicalChannelsEnum::PMCH => "PMCH"@,
                PhysicalChannelsEnum::PRACH => "PRACH"@,
                PhysicalChannelsEnum::PUSCH => "PUSCH"@,
                PhysicalChannelsEnum::PUCCH => "PUCCH"@,
            },
    {
        match self {
            PhysicalChannelsEnum::PDSCH => "PDSCH",
            PhysicalChannelsEnum::PBCH => "PBCH",
            PhysicalChannelsEnum::PDCCH => "PDCCH",
            PhysicalChannelsEnum::PMCH => "PMCH",
            PhysicalChannelsEnum::PRACH => "PRACH",
            PhysicalChannelsEnum::PUSCH => "PUSCH",
            PhysicalChannelsEnum::PUCCH => "PUCCH",
        }
    }
}

/// Kind of channel that a label colour stands for.
pub open spec fn channel_kind(color: Rgb) -> Seq<char> {
    if color == red() {
        "Broadcast channel"@
    } else if color == blue() {
        "Common channel"@
    } else if color == green() {
        "Traffic channel"@
    } else if color == orange() {
        "Dedicated channel"@
    } else {
        "This channel is currently unused"@
    }
}

/// Kind of channel that a label colour stands for (the hover text of a label).
pub fn get_channel_type(color: Rgb) -> (r: &'static str)
    ensures
        r@ == channel_kind(color),
{
    if color == ChannelColors::red() {
        "Broadcast channel"
    } else if color == ChannelColors::blue() {
        "Common channel"
    } else if color == ChannelColors::green() {
        "Traffic channel"
    } else if color == ChannelColors::orange() {
        "Dedicated channel"
    } else {
        "This channel is currently unused"
    }
}

/// Colours of a channel label (`make_label`): dark text on the channel's colour when it
/// is lit, else the theme's text colour on no background.
pub fn label_colors(show: bool, color: Rgb, theme: &ThemeColors) -> (r: (Rgb, Option<Rgb>))
    ensures
        r == if show {
            (rgb(30, 30, 30), Some(color))
        } else {
            (theme.text, None)
        },
{
    if show {
        (ChannelColors::text_on_color(), Some(color))
    } else {
        (theme.text, None)
    }
}

/// Hover text of a channel label: the kind of its colour when it is lit, else that of
/// white (unused).
pub fn label_hover_text(show: bool, color: Rgb) -> (r: &'static str)
    ensures
        r@ == channel_kind(if show { color } else { rgb(255, 255, 255) }),
{
    if show {
        get_channel_type(color)
    } else {
        get_channel_type(Rgb { r: 255, g: 255, b: 255 })
    }
}

/// The three channels that carry a message.
#[derive(Clone, Copy, PartialEq, Eq, Structural, Debug)]
pub struct ChannelState {
    /// Logical channel
    pub logical: LogicalChannelsEnum,
    /// Transport channel
    pub transport: TransportChannelsEnum,
    /// Physical channel
    pub physical: PhysicalChannelsEnum,
}

/// Channels of a broadcast of the system information.
pub open spec fn is_sib(msg: Seq<char>) -> bool {
    msg == "SIB1"@ || msg == "SIB2"@ || msg == "SIB3"@ || msg == "SIB"@
}

/// Connection requests, sent by the UE on the common channel.
pub open spec fn is_ccch_request(msg: Seq<char>) -> bool {
    ||| msg == "RRC connection request"@
    ||| msg == "RRC connection reestablishment request"@
    ||| msg == "RRC setup reestablishment request"@
    ||| msg == "RRC setup request"@
}

/// Connection setups, sent by the network on the common channel.
pub open spec fn is_ccch_setup(msg: Seq<char>) -> bool {
    ||| msg == "RRC connection setup"@
    ||| msg == "RRC connection reestablishment"@
    ||| msg == "RRC setup reestablishment"@
    ||| msg == "RRC setup"@
}

/// Messages of the UE on the dedicated control channel.
pub open spec fn is_dcch_uplink(msg: Seq<char>) -> bool {
    ||| msg == "RRC connection setup complete"@
    ||| msg == "UL information transfer"@
    ||| msg == "Security mode complete"@
    ||| msg == "UE capability information"@
    ||| msg == "RRC connection reconfiguration complete"@
    ||| msg == "RRC connection reestablishment complete"@
    ||| msg == "RRC setup complete"@
    ||| msg == "RRC reconfiguration complete"@
    ||| msg == "RRC reestablishment complete"@
}

/// Messages of the network on the dedicated control channel.
pub open spec fn is_dcch_downlink(msg: Seq<char>) -> bool {
    ||| msg == "DL information transfer"@
    ||| msg == "Security mode command"@
    ||| msg == "UE capability enquiry"@
    ||| msg == "RRC connection reconfiguration"@
    ||| msg == "RRC connection release"@
    ||| msg == "RRC reconfiguration"@
    ||| msg == "RRC release"@
}

/// The channels that carry message `msg` on logical channel `canal` (NR names are those
/// of LTE with `-NR`, which is dropped first), if the panel knows the message.
pub open spec fn channel_state_for(canal: Seq<char>, msg: Seq<char>) -> Option<ChannelState> {
    let c = spec_remove_all(canal, "-NR"@);
    if c == "BCCH-BCH"@ && (msg == "Master Information Block"@ || msg == "MIB"@) {
        Some(
            ChannelState {
                logical: LogicalChannelsEnum::BCCH,
                transport: TransportChannelsEnum::BCH,
                physical: PhysicalChannelsEnum::PBCH,
            },
        )
    } else if c == "BCCH"@ && is_sib(msg) {
        Some(
            ChannelState {
                logical: LogicalChannelsEnum::BCCH,
                transport: TransportChannelsEnum::DL_SCH,
                physical: PhysicalChannelsEnum::PDSCH,
            },
        )
    } else if c == "CCCH"@ && is_ccch_request(msg) {
        Some(
            ChannelState {
                logical: LogicalChannelsEnum::UL_CCCH,
                transport: TransportChannelsEnum::UL_SCH,
                physical: PhysicalChannelsEnum::PUSCH,
            },
        )
    } else if c == "CCCH"@ && is_ccch_setup(msg) {
        Some(
            ChannelState {
                logical: LogicalChannelsEnum::DL_CCCH,
                transport: TransportChannelsEnum::DL_SCH,
                physical: PhysicalChannelsEnum::PDSCH,
            },
        )
    } else if c == "DCCH"@ && is_dcch_uplink(msg) {
        Some(
            ChannelState {
                logical: LogicalChannelsEnum::UL_DCCH,
                transport: TransportChannelsEnum::UL_SCH,
                physical: PhysicalChannelsEnum::PUSCH,
            },
        )
    } else if c == "DCCH"@ && is_dcch_downlink(msg) {
        Some(
            ChannelState {
                logical: LogicalChannelsEnum::DL_DCCH,
                transport: TransportChannelsEnum::DL_SCH,
                physical: PhysicalChannelsEnum::PDSCH,
            },
        )
    } else {
        None
    }
}

/// The panel of the channels that carry the current RRC message.
pub struct LogicalChannels {
    /// Logical channel of the current message
    pub canal: String,
    /// Name of the current message
    pub canal_msg: String,
    /// Index of the focused event
    pub current_index: usize,
    /// Channels lit for the current message
    pub state: Option<ChannelState>,
    /// Technology of the capture
    pub technology: Technology,
}

impl LogicalChannels {
    /// A panel with no message.
    pub fn new() -> (r: Self)
        ensures
            r.canal@ == Seq::<char>::empty(),
            r.canal_msg@ == Seq::<char>::empty(),
            r.current_index == 0,
            r.state is None,
            r.technology == Technology::Unknown,
    {
        LogicalChannels {
            canal: String::new(),
            canal_msg: String::new(),
            current_index: 0,
            state: None,
            technology: Technology::Unknown,
        }
    }

    /// Lights the channels of the current message.
    pub fn handle_logic(&mut self)
        ensures
            final(self).state == channel_state_for(old(self).canal@, old(self).canal_msg@),
            final(self).canal == old(self).canal,
            final(self).canal_msg == old(self).canal_msg,
            final(self).current_index == old(self).current_index,
            final(self).technology == old(self).technology,
    {
        let canal_string = remove_all(self.canal.as_str(), "-NR");
        let canal = canal_string.as_str();
        let msg = self.canal_msg.as_str();
        let bcch_bch = str_eq(canal, "BCCH-BCH");
        let bcch = str_eq(canal, "BCCH");
        let ccch = str_eq(canal, "CCCH");
        let dcch = str_eq(canal, "DCCH");
        if bcch_bch && (str_eq(msg, "Master Information Block") || str_eq(msg, "MIB")) {
            self.state = Some(
                ChannelState {
                    logical: LogicalChannelsEnum::BCCH,
                    transport: TransportChannelsEnum::BCH,
                    physical: PhysicalChannelsEnum::PBCH,
                },
            );
        } else if bcch && (str_eq(msg, "SIB1") || str_eq(msg, "SIB2") || str_eq(msg, "SIB3")
            || str_eq(msg, "SIB")) {
            self.state = Some(
                ChannelState {
                    logical: LogicalChannelsEnum::BCCH,
                    transport: TransportChannelsEnum::DL_SCH,
                    physical: PhysicalChannelsEnum::PDSCH,
                },
            );
        } else if ccch && (str_eq(msg, "RRC connection request") || str_eq(
            msg,
            "RRC connection reestablishment request",
        ) || str_eq(msg, "RRC setup reestablishment request") || str_eq(msg, "RRC setup request")) {
            self.state = Some(
                ChannelState {
                    logical: LogicalChannelsEnum::UL_CCCH,
                    transport: TransportChannelsEnum::UL_SCH,
                    physical: PhysicalChannelsEnum::PUSCH,
                },
            );
        } else if ccch && (str_eq(msg, "RRC connection setup") || str_eq(
            msg,
            "RRC connection reestablishment",
        ) || str_eq(msg, "RRC setup reestablishment") || str_eq(msg, "RRC setup")) {
            self.state = Some(
                ChannelState {
                    logical: LogicalChannelsEnum::DL_CCCH,
                    transport: TransportChannelsEnum::DL_SCH,
                    physical: PhysicalChannelsEnum::PDSCH,
                },
            );
        } else if dcch && (str_eq(msg, "RRC connection setup complete") || str_eq(
            msg,
            "UL information transfer",
        ) || str_eq(msg, "Security mode complete") || str_eq(msg, "UE capability information")
            || str_eq(msg, "RRC connection reconfiguration complete") || str_eq(
            msg,
            "RRC connection reestablishment complete",
        ) || str_eq(msg, "RRC setup complete") || str_eq(msg, "RRC reconfiguration complete")
            || str_eq(msg, "RRC reestablishment complete")) {
            self.state = Some(
                ChannelState {
                    logical: LogicalChannelsEnum::UL_DCCH,
                    transport: TransportChannelsEnum::UL_SCH,
                    physical: PhysicalChannelsEnum::PUSCH,
                },
            );
        } else if dcch && (str_eq(msg, "DL information transfer") || str_eq(
            msg,
            "Security mode command",
        ) || str_eq(msg, "UE capability enquiry") || str_eq(msg, "RRC connection reconfiguration")
            || str_eq(msg, "RRC connection release") || str_eq(msg, "RRC reconfiguration")
            || str_eq(msg, "RRC release")) {
            self.state = Some(
                ChannelState {
                    logical: LogicalChannelsEnum::DL_DCCH,
                    transport: TransportChannelsEnum::DL_SCH,
                    physical: PhysicalChannelsEnum::PDSCH,
                },
            );
        } else {
            self.state = None;
        }
    }

    /// Whether a logical channel is lit.
    pub fn is_logical_active(&self, channel: LogicalChannelsEnum) -> (r: bool)
        ensures
            r == (self.state matches Some(s) && s.logical == channel),
    {
        match &self.state {
            Some(state) => state.logical == channel,
            None => false,
        }
    }

    /// Whether a transport channel is lit.
    pub fn is_transport_active(&self, channel: TransportChannelsEnum) -> (r: bool)
        ensures
            r == (self.state matches Some(s) && s.transport == channel),
    {
        match &self.state {
            Some(state) => state.transport == channel,
            None => false,
        }
    }

    /// Whether a physical channel is lit.
    pub fn is_physical_active(&self, channel: PhysicalChannelsEnum) -> (r: bool)
        ensures
            r == (self.state matches Some(s) && s.physical == channel),
    {
        match &self.state {
            Some(state) => state.physical == channel,
            None => false,
        }
    }
}

impl EventSubscriber for LogicalChannels {
    open spec fn wf(&self) -> bool {
        true
    }

    /// An RRC message becomes the current one.
    fn on_event_added(&mut self, event: &Trace, index: usize, context: &EventContext)
    {
        match &event.additional_infos {
            AdditionalInfos::RRCInfos(infos) => {
                self.canal = infos.canal.clone();
                self.canal_msg = infos.canal_msg.clone();
                self.handle_logic();
            },
            _ => {},
        }
    }

    /// The focused RRC message becomes the current one; any other event clears the lights.
    fn on_event_focused(&mut self, event: &Trace, index: usize, context: &EventContext)
    {
        self.current_index = index;
        match &event.additional_infos {
            AdditionalInfos::RRCInfos(infos) => {
                self.canal = infos.canal.clone();
                self.canal_msg = infos.canal_msg.clone();
                self.handle_logic();
            },
            _ => {
                self.state = None;
            },
        }
    }

    /// Forgets the current message.
    fn on_events_cleared(&mut self)
    {
        self.canal = String::new();
        self.canal_msg = String::new();
        self.state = None;
        self.current_index = 0;
    }

    /// Takes the technology of the capture.
    fn on_metadata_changed(&mut self, metadata: &FileMetadata)
    {
        if self.technology != metadata.technology {
            self.technology = metadata.technology;
        }
    }

    open spec fn spec_name(&self) -> &'static str {
        "Logical Channels"
    }

    fn name(&self) -> (r: &'static str) {
        "Logical Channels"
    }

    open spec fn spec_added(&self, after: Self, event: Trace, index: usize, context: EventContext) -> bool {
        &&& (match event.additional_infos {
            AdditionalInfos::RRCInfos(infos) => {
                &&& after.canal@ == infos.canal@
                &&& after.canal_msg@ == infos.canal_msg@
                &&& after.state == channel_state_for(infos.canal@, infos.canal_msg@)
            },
            _ => after == *self,
        })
        &&& (after.current_index == self.current_index)
        &&& (after.technology == self.technology)
    }

    open spec fn spec_focused(&self, after: Self, event: Trace, index: usize, context: EventContext) -> bool {
        &&& (after.current_index == index)
        &&& (after.technology == self.technology)
        &&& (match event.additional_infos {
            AdditionalInfos::RRCInfos(infos) => {
                &&& after.canal@ == infos.canal@
                &&& after.canal_msg@ == infos.canal_msg@
                &&& after.state == channel_state_for(infos.canal@, infos.canal_msg@)
            },
            _ => {
                &&& after.state is None
                &&& after.canal == self.canal
                &&& after.canal_msg == self.canal_msg
            },
        })
    }

    open spec fn spec_cleared(&self, after: Self) -> bool {
        &&& (after.canal@ == Seq::<char>::empty())
        &&& (after.canal_msg@ == Seq::<char>::empty())
        &&& (after.state is None)
        &&& (after.current_index == 0)
        &&& (after.technology == self.technology)
    }

    open spec fn spec_metadata_changed(&self, after: Self, metadata: FileMetadata) -> bool {
        &&& (after.technology == metadata.technology)
        &&& (after.canal == self.canal)
        &&& (after.canal_msg == self.canal_msg)
        &&& (after.state == self.state)
        &&& (after.current_index == self.current_index)
    }
}

} // verus!
