//! HARQ panel: a timeline of the PHY events that carry a HARQ process (PDCCH grants,
//! PDSCH and PUSCH transmissions, PUCCH feedback), ordered by hyper frame, frame and slot
//! across the wrap of the frame number.

use vstd::prelude::*;
use crate::format::{dec_digits, decimal};
use crate::event_bus::{EventContext, EventSubscriber};
use crate::model::{FileMetadata, AdditionalInfos, Direction, PHYChannelData, PHYChannelType, PHYInfos, Trace};
use crate::theme::{rgb, Rgb};

verus! {

/// Most arrows kept; when the buffer reaches it, the oldest half is dropped.
pub const MAX_ARROWS: usize = 100;

/// Colour of a HARQ process (16 colours, repeated).
pub open spec fn spec_harq_color(harq: u8) -> Rgb {
    let k = harq % 16;
    if k == 0 {
        rgb(230, 25, 75)
    } else if k == 1 {
        rgb(60, 180, 75)
    } else if k == 2 {
        rgb(0, 130, 200)
    } else if k == 3 {
        rgb(255, 178, 29)
    } else if k == 4 {
        rgb(145, 30, 180)
    } else if k == 5 {
        rgb(70, 240, 240)
    } else if k == 6 {
        rgb(240, 50, 230)
    } else if k == 7 {
        rgb(210, 245, 60)
    } else if k == 8 {
        rgb(250, 190, 212)
    } else if k == 9 {
        rgb(0, 128, 128)
    } else if k == 10 {
        rgb(220, 190, 255)
    } else if k == 11 {
        rgb(170, 110, 40)
    } else if k == 12 {
        rgb(128, 0, 0)
    } else if k == 13 {
        rgb(170, 255, 195)
    } else if k == 14 {
        rgb(128, 128, 0)
    } else {
        rgb(255, 215, 180)
    }
}

/// Colour of a HARQ process.
pub fn harq_color(harq: u8) -> (r: Rgb)
    ensures
        r == spec_harq_color(harq),
{
    let k = harq % 16;
    if k == 0 {
        Rgb { r: 230, g: 25, b: 75 }
    } else if k == 1 {
        Rgb { r: 60, g: 180, b: 75 }
    } else if k == 2 {
        Rgb { r: 0, g: 130, b: 200 }
    } else if k == 3 {
        Rgb { r: 255, g: 178, b: 29 }
    } else if k == 4 {
        Rgb { r: 145, g: 30, b: 180 }
    } else if k == 5 {
        Rgb { r: 70, g: 240, b: 240 }
    } else if k == 6 {
        Rgb { r: 240, g: 50, b: 230 }
    } else if k == 7 {
        Rgb { r: 210, g: 245, b: 60 }
    } else if k == 8 {
        Rgb { r: 250, g: 190, b: 212 }
    } else if k == 9 {
        Rgb { r: 0, g: 128, b: 128 }
    } else if k == 10 {
        Rgb { r: 220, g: 190, b: 255 }
    } else if k == 11 {
        Rgb { r: 170, g: 110, b: 40 }
    } else if k == 12 {
        Rgb { r: 128, g: 0, b: 0 }
    } else if k == 13 {
        Rgb { r: 170, g: 255, b: 195 }
    } else if k == 14 {
        Rgb { r: 128, g: 128, b: 0 }
    } else {
        Rgb { r: 255, g: 215, b: 180 }
    }
}

/// An optional value as shown in a label: its digits, or `-`.
pub open spec fn spec_fmt_opt(v: Option<u8>) -> Seq<char> {
    match v {
        Some(x) => dec_digits(x as nat),
        None => "-"@,
    }
}

/// An optional value as shown in a label: its digits, or `-`.
pub fn fmt_opt(v: Option<u8>) -> (r: String)
    ensures
        r@ == spec_fmt_opt(v),
{
    match v {
        Some(x) => decimal(x as u64),
        None => String::from_str("-"),
    }
}

/// `OK`, `KO` or `-` for a CRC result.
pub open spec fn crc_text(crc: Option<bool>) -> Seq<char> {
    match crc {
        Some(true) => "OK"@,
        Some(false) => "KO"@,
        None => "-"@,
    }
}

/// `ACK`, `NACK` or `-` for a HARQ feedback.
pub open spec fn ack_text(ack: Option<bool>) -> Seq<char> {
    match ack {
        Some(true) => "ACK"@,
        Some(false) => "NACK"@,
        None => "-"@,
    }
}

/// `frame:slot`.
pub open spec fn sfn_text(frame: u16, slot: u8) -> Seq<char> {
    dec_digits(frame as nat) + ":"@ + dec_digits(slot as nat)
}

/// The PHY event of a trace gets an arrow: it is not system information, its channel is
/// PDCCH, PDSCH, PUSCH or PUCCH, a PDCCH grant names its HARQ process, a PUCCH is of
/// format 1 (HARQ feedback), and the channel data is there.
pub open spec fn harq_arrow_of(phy: PHYInfos) -> Option<(Option<u8>, Seq<char>)> {
    if phy.harq_si {
        None
    } else if !(phy.channel_type == PHYChannelType::PDCCH || phy.channel_type == PHYChannelType::PDSCH
        || phy.channel_type == PHYChannelType::PUSCH || phy.channel_type == PHYChannelType::PUCCH) {
        None
    } else {
        let p = sfn_text(phy.frame, phy.slot);
        match phy.channel_data {
            PHYChannelData::Pdcch { dci, harq_process, ndi, rv_idx } => if harq_process is None {
                None
            } else {
                Some(
                    (
                        harq_process,
                        p + " PDCCH dci="@ + dci@ + " ndi="@ + spec_fmt_opt(ndi) + " rv_idx="@
                            + spec_fmt_opt(rv_idx),
                    ),
                )
            },
            PHYChannelData::Pdsch { retx, rv_idx } => Some(
                (phy.harq, p + " PDSCH retx="@ + spec_fmt_opt(retx) + " rv_idx="@ + spec_fmt_opt(rv_idx)),
            ),
            PHYChannelData::Pusch { retx, rv_idx, crc, ack, .. } => Some(
                (
                    phy.harq,
                    p + " PUSCH retx="@ + spec_fmt_opt(retx) + " rv_idx="@ + spec_fmt_opt(rv_idx)
                        + " crc="@ + crc_text(crc) + ", "@ + ack_text(ack),
                ),
            ),
            PHYChannelData::Pucch { format, ack, .. } => if format != Some(1u8) {
                None
            } else {
                Some((None, p + " PUCCH "@ + ack_text(ack)))
            },
            PHYChannelData::NoData => None,
        }
    }
}

/// The arrow a trace gets, if any: its HARQ process and its label.
pub open spec fn trace_arrow(t: Trace) -> Option<(Option<u8>, Seq<char>)> {
    match t.additional_infos {
        AdditionalInfos::PHYInfos(phy) => harq_arrow_of(phy),
        _ => None,
    }
}

/// An arrow of the timeline.
#[derive(Debug)]
pub struct HarqArrow {
    /// Index of the trace
    pub trace_index: usize,
    /// Direction
    pub direction: Direction,
    /// Channel
    pub channel_type: PHYChannelType,
    /// HARQ process (none for PUCCH)
    pub harq: Option<u8>,
    /// Label
    pub label: String,
    /// Hyper frame number
    pub hfn: u32,
    /// System frame number
    pub frame: u16,
    /// Slot in the frame
    pub slot: u8,
}

/// Appends `frame:slot`.
fn push_sfn(out: &mut String, frame: u16, slot: u8)
    ensures
        final(out)@ == old(out)@ + sfn_text(frame, slot),
{
    out.append(decimal(frame as u64).as_str());
    out.append(":");
    out.append(decimal(slot as u64).as_str());
}

impl HarqArrow {
    /// The arrow of a trace (its HFN is set when it is placed), if it gets one.
    pub fn from_trace(trace: &Trace, index: usize) -> (r: Option<HarqArrow>)
        ensures
            match trace_arrow(*trace) {
                Some((harq, label)) => r matches Some(a) && {
                    &&& a.trace_index == index
                    &&& a.harq == harq
                    &&& a.label@ == label
                    &&& a.hfn == 0
                    &&& trace.additional_infos matches AdditionalInfos::PHYInfos(phy) && {
                        &&& a.direction == phy.direction
                        &&& a.channel_type == phy.channel_type
                        &&& a.frame == phy.frame
                        &&& a.slot == phy.slot
                    }
                },
                None => r is None,
            },
    {
        let phy = match &trace.additional_infos {
            AdditionalInfos::PHYInfos(info) => info,
            _ => return None,
        };
        if phy.harq_si {
            return None;
        }
        match phy.channel_type {
            PHYChannelType::PDCCH | PHYChannelType::PDSCH | PHYChannelType::PUSCH
            | PHYChannelType::PUCCH => {},
            _ => return None,
        }
        let mut label = String::new();
        push_sfn(&mut label, phy.frame, phy.slot);
        let harq = match &phy.channel_data {
            PHYChannelData::Pdcch { dci, harq_process, ndi, rv_idx } => {
                if harq_process.is_none() {
                    return None;
                }
                label.append(" PDCCH dci=");
                label.append(dci.as_str());
                label.append(" ndi=");
                label.append(fmt_opt(*ndi).as_str());
                label.append(" rv_idx=");
                label.append(fmt_opt(*rv_idx).as_str());
                *harq_process
            },
            PHYChannelData::Pdsch { retx, rv_idx } => {
                label.append(" PDSCH retx=");
                label.append(fmt_opt(*retx).as_str());
                label.append(" rv_idx=");
                label.append(fmt_opt(*rv_idx).as_str());
                phy.harq
            },
            PHYChannelData::Pusch { retx, rv_idx, crc, ack, .. } => {
                label.append(" PUSCH retx=");
                label.append(fmt_opt(*retx).as_str());
                label.append(" rv_idx=");
                label.append(fmt_opt(*rv_idx).as_str());
                label.append(" crc=");
                label.append(
                    match crc {
                        Some(true) => "OK",
                        Some(false) => "KO",
                        None => "-",
                    },
                );
                label.append(", ");
                label.append(
                    match ack {
                        Some(true) => "ACK",
                        Some(false) => "NACK",
                        None => "-",
                    },
                );
                phy.harq
            },
            PHYChannelData::Pucch { format, ack, .. } => {
                match format {
                    Some(1) => {},
                    _ => return None,
                }
                label.append(" PUCCH ");
                label.append(
                    match ack {
                        Some(true) => "ACK",
                        Some(false) => "NACK",
                        None => "-",
                    },
                );
                None
            },
            PHYChannelData::NoData => return None,
        };
        Some(
            HarqArrow {
                trace_index: index,
                direction: phy.direction,
                channel_type: phy.channel_type,
                harq,
                label,
                hfn: 0,
                frame: phy.frame,
                slot: phy.slot,
            },
        )
    }
}

/// What the timeline shows of an arrow.
pub struct ArrowView {
    /// Index of the trace
    pub trace_index: usize,
    /// Direction
    pub direction: Direction,
    /// Channel
    pub channel_type: PHYChannelType,
    /// HARQ process
    pub harq: Option<u8>,
    /// Label
    pub label: Seq<char>,
    /// Hyper frame number
    pub hfn: u32,
    /// System frame number
    pub frame: u16,
    /// Slot
    pub slot: u8,
}

impl View for HarqArrow {
    type V = ArrowView;

    open spec fn view(&self) -> ArrowView {
        ArrowView {
            trace_index: self.trace_index,
            direction: self.direction,
            channel_type: self.channel_type,
            harq: self.harq,
            label: self.label@,
            hfn: self.hfn,
            frame: self.frame,
            slot: self.slot,
        }
    }
}

/// `a` comes strictly after `b` in (HFN, frame, slot) order.
pub open spec fn key_gt(a: ArrowView, b: ArrowView) -> bool {
    ||| a.hfn > b.hfn
    ||| (a.hfn == b.hfn && a.frame > b.frame)
    ||| (a.hfn == b.hfn && a.frame == b.frame && a.slot > b.slot)
}

/// The arrows are in (HFN, frame, slot) order.
pub open spec fn arrows_sorted(s: Seq<ArrowView>) -> bool {
    forall|i: int, j: int| 0 <= i < j < s.len() ==> !key_gt(#[trigger] s[i], #[trigger] s[j])
}

/// The first position from `i` on whose arrow comes after `x`, or the length.
pub open spec fn first_after(s: Seq<ArrowView>, x: ArrowView, i: int) -> int
    decreases s.len() - i,
{
    if i >= s.len() {
        s.len() as int
    } else if key_gt(s[i], x) {
        i
    } else {
        first_after(s, x, i + 1)
    }
}

/// `x` inserted before the first arrow that comes after it (after the arrows with the
/// same key).
pub open spec fn sorted_insert(s: Seq<ArrowView>, x: ArrowView) -> Seq<ArrowView> {
    s.insert(first_after(s, x, 0), x)
}

/// The arrows of `s` inserted one by one, in order, into an empty timeline (a stable
/// sort by key).
pub open spec fn insertion_sorted(s: Seq<ArrowView>) -> Seq<ArrowView>
    decreases s.len(),
{
    if s.len() == 0 {
        Seq::empty()
    } else {
        sorted_insert(insertion_sorted(s.drop_last()), s.last())
    }
}

/// Where `first_after` stops: every arrow before comes no later than `x`, and the arrow
/// there (if any) comes after it.
proof fn lemma_first_after(s: Seq<ArrowView>, x: ArrowView, i: int)
    requires
        0 <= i <= s.len(),
        forall|k: int| 0 <= k < i ==> !key_gt(#[trigger] s[k], x),
    ensures
        i <= first_after(s, x, i) <= s.len(),
        forall|k: int| 0 <= k < first_after(s, x, i) ==> !key_gt(#[trigger] s[k], x),
        first_after(s, x, i) < s.len() ==> key_gt(s[first_after(s, x, i)], x),
    decreases s.len() - i,
{
    if i < s.len() && !key_gt(s[i], x) {
        lemma_first_after(s, x, i + 1);
    }
}

/// Inserting in a sorted timeline keeps it sorted.
pub proof fn lemma_sorted_insert(s: Seq<ArrowView>, x: ArrowView)
    requires
        arrows_sorted(s),
    ensures
        arrows_sorted(sorted_insert(s, x)),
        sorted_insert(s, x).len() == s.len() + 1,
{
    lemma_first_after(s, x, 0);
    let p = first_after(s, x, 0);
    let t = sorted_insert(s, x);
    assert forall|i: int, j: int| 0 <= i < j < t.len() implies !key_gt(#[trigger] t[i], #[trigger] t[j]) by {
        if j < p {
            assert(t[i] == s[i] && t[j] == s[j]);
        } else if j == p {
            assert(t[i] == s[i]);
        } else if i < p {
            assert(t[i] == s[i] && t[j] == s[j - 1]);
            assert(!key_gt(s[i], x));
            assert(key_gt(s[p], x));
            assert(!key_gt(s[p], s[j - 1]) || p == j - 1);
        } else if i == p {
            assert(t[j] == s[j - 1]);
            assert(key_gt(s[p], x));
            assert(!key_gt(s[p], s[j - 1]) || p == j - 1);
        } else {
            assert(t[i] == s[i - 1] && t[j] == s[j - 1]);
        }
    }
}

/// A stable sort gives a sorted timeline.
pub proof fn lemma_insertion_sorted(s: Seq<ArrowView>)
    ensures
        arrows_sorted(insertion_sorted(s)),
        insertion_sorted(s).len() == s.len(),
    decreases s.len(),
{
    if s.len() > 0 {
        lemma_insertion_sorted(s.drop_last());
        lemma_sorted_insert(insertion_sorted(s.drop_last()), s.last());
    }
}

/// The ordered timeline holds exactly the arrows it was given: the sort only reorders.
pub proof fn lemma_insertion_sorted_keeps_arrows(s: Seq<ArrowView>)
    ensures
        insertion_sorted(s).to_multiset() == s.to_multiset(),
    decreases s.len(),
{
    if s.len() > 0 {
        lemma_insertion_sorted_keeps_arrows(s.drop_last());
        let prev = insertion_sorted(s.drop_last());
        lemma_first_after(prev, s.last(), 0);
        vstd::seq_lib::to_multiset_insert(prev, first_after(prev, s.last(), 0), s.last());
        vstd::seq_lib::to_multiset_build(s.drop_last(), s.last());
        assert(s.drop_last().push(s.last()) =~= s);
        assert(insertion_sorted(s) == prev.insert(first_after(prev, s.last(), 0), s.last()));
    } else {
        assert(s =~= Seq::<ArrowView>::empty());
        assert(insertion_sorted(s) =~= s);
    }
}

/// Arrows with the same (HFN, frame, slot) keep the order in which they came: an arrow
/// inserted goes after every arrow already there that does not come after it.
pub proof fn lemma_sorted_insert_is_stable(s: Seq<ArrowView>, x: ArrowView)
    requires
        arrows_sorted(s),
    ensures
        forall|k: int|
            0 <= k < s.len() && !key_gt(#[trigger] s[k], x) ==> k < first_after(s, x, 0),
        sorted_insert(s, x)[first_after(s, x, 0)] == x,
{
    lemma_first_after(s, x, 0);
    let p = first_after(s, x, 0);
    assert forall|k: int| 0 <= k < s.len() && !key_gt(#[trigger] s[k], x) implies k < p by {
        if k >= p {
            assert(key_gt(s[p], x));
            if k > p {
                assert(!key_gt(s[p], s[k]));
            }
        }
    }
}

/// HFN tracking: whether an event was seen, and the (HFN, frame, slot) of the latest.
#[derive(Clone, Copy, Debug)]
pub struct HfnTracker {
    /// An event was seen
    pub has_first_event: bool,
    /// (HFN, frame, slot) of the latest event
    pub end_limit: (u32, u16, u8),
}

/// The HFN of an event at `(frame, slot)` and the tracking after it. The first event has
/// HFN 0. An event ahead of the latest moves the latest, unless its frame is more than
/// 512 ahead (it belongs to the previous hyper frame); an event behind the latest
/// belongs to the next hyper frame when its frame is more than 512 behind (the frame
/// number wrapped), which moves the latest.
pub open spec fn hfn_step(t: HfnTracker, frame: u16, slot: u8) -> (u32, HfnTracker) {
    if !t.has_first_event {
        (0, HfnTracker { has_first_event: true, end_limit: (0, frame, slot) })
    } else {
        let hfn = t.end_limit.0;
        let ef = t.end_limit.1;
        let es = t.end_limit.2;
        if frame > ef || (frame == ef && slot > es) {
            if frame > ef && frame - ef > 512 {
                (if hfn > 0 { (hfn - 1) as u32 } else { 0 }, t)
            } else {
                (hfn, HfnTracker { end_limit: (hfn, frame, slot), ..t })
            }
        } else if frame < ef || (frame == ef && slot < es) {
            if frame < ef && ef - frame > 512 {
                let next = if hfn == u32::MAX { 0 } else { (hfn + 1) as u32 };
                (next, HfnTracker { end_limit: (next, frame, slot), ..t })
            } else {
                (hfn, t)
            }
        } else {
            (hfn, t)
        }
    }
}

/// An event ahead of the latest one by at most 512 frames (or later in the same frame)
/// keeps the HFN of the latest and becomes the latest: the tracker follows each newer
/// event.
pub proof fn lemma_newer_event_becomes_latest(t: HfnTracker, frame: u16, slot: u8)
    requires
        t.has_first_event,
        (t.end_limit.1 < frame && frame - t.end_limit.1 <= 512) || (t.end_limit.1 == frame
            && t.end_limit.2 < slot),
    ensures
        hfn_step(t, frame, slot).0 == t.end_limit.0,
        hfn_step(t, frame, slot).1.end_limit == (t.end_limit.0, frame, slot),
        hfn_step(t, frame, slot).1.has_first_event,
{
}

/// Frames that go up by at most 512 from one event to the next stay in one hyper frame;
/// a following frame more than 512 below the previous one is in the next hyper frame:
/// its HFN is one more.
pub proof fn lemma_wrap_after_newer_event(t: HfnTracker, f1: u16, s1: u8, f2: u16, s2: u8)
    requires
        t.has_first_event,
        t.end_limit.0 < u32::MAX,
        t.end_limit.1 < f1 && f1 - t.end_limit.1 <= 512,
        f2 < f1 && f1 - f2 > 512,
    ensures
        hfn_step(t, f1, s1).0 == t.end_limit.0,
        hfn_step(hfn_step(t, f1, s1).1, f2, s2).0 == t.end_limit.0 + 1,
        hfn_step(hfn_step(t, f1, s1).1, f2, s2).1.end_limit == (
            (t.end_limit.0 + 1) as u32,
            f2,
            s2,
        ),
{
    lemma_newer_event_becomes_latest(t, f1, s1);
}

/// An event more than 512 frames ahead of the latest is a late one from the previous
/// hyper frame: its HFN is one less (not below 0) and the latest does not move.
pub proof fn lemma_far_ahead_is_previous_hyper_frame(t: HfnTracker, frame: u16, slot: u8)
    requires
        t.has_first_event,
        t.end_limit.1 < frame && frame - t.end_limit.1 > 512,
    ensures
        hfn_step(t, frame, slot).0 == if t.end_limit.0 > 0 { t.end_limit.0 - 1 } else { 0 },
        hfn_step(t, frame, slot).1 == t,
{
}

/// An event behind the latest by at most 512 frames (or earlier in the same frame) is in
/// the latest's hyper frame and does not move the latest.
pub proof fn lemma_slightly_older_event(t: HfnTracker, frame: u16, slot: u8)
    requires
        t.has_first_event,
        (frame < t.end_limit.1 && t.end_limit.1 - frame <= 512) || (frame == t.end_limit.1
            && slot <= t.end_limit.2),
    ensures
        hfn_step(t, frame, slot) == (t.end_limit.0, t),
{
}

/// The first event is in hyper frame 0 and is the latest.
pub proof fn lemma_first_event(t: HfnTracker, frame: u16, slot: u8)
    requires
        !t.has_first_event,
    ensures
        hfn_step(t, frame, slot) == (0u32, HfnTracker { has_first_event: true, end_limit: (0, frame, slot) }),
{
}

/// The HFN of an event (see `hfn_step`; the HFN wraps at `u32::MAX` as the release build
/// does).
pub fn compute_hfn(t: &mut HfnTracker, frame: u16, slot: u8) -> (r: u32)
    ensures
        (r, *final(t)) == hfn_step(*old(t), frame, slot),
{
    if !t.has_first_event {
        t.has_first_event = true;
        t.end_limit = (0, frame, slot);
        return 0;
    }
    let mut hfn = t.end_limit.0;
    let end_frame = t.end_limit.1;
    let end_slot = t.end_limit.2;
    if frame > end_frame || (frame == end_frame && slot > end_slot) {
        if frame > end_frame && (frame - end_frame) > 512 {
            hfn = hfn.saturating_sub(1);
        } else {
            t.end_limit = (hfn, frame, slot);
        }
    } else if frame < end_frame || (frame == end_frame && slot < end_slot) {
        if frame < end_frame && (end_frame - frame) > 512 {
            hfn = hfn.wrapping_add(1);
            t.end_limit = (hfn, frame, slot);
        }
    }
    hfn
}

/// The trace at `i` gets an arrow.
pub open spec fn eligible(events: Seq<Trace>, i: int) -> bool {
    trace_arrow(events[i]) is Some
}

/// The arrow that trace `t` at index `index` gets, before it is given its HFN.
pub open spec fn arrow_view_of(t: Trace, index: usize) -> ArrowView {
    match t.additional_infos {
        AdditionalInfos::PHYInfos(phy) => {
            let a = harq_arrow_of(phy).unwrap();
            ArrowView {
                trace_index: index,
                direction: phy.direction,
                channel_type: phy.channel_type,
                harq: a.0,
                label: a.1,
                hfn: 0,
                frame: phy.frame,
                slot: phy.slot,
            }
        },
        _ => arbitrary(),
    }
}

/// The arrow of the trace at `i`, before it is given its HFN.
pub open spec fn base_view(events: Seq<Trace>, i: int) -> ArrowView {
    arrow_view_of(events[i], i as usize)
}

/// Walking back from `i` to 0, the traces that get an arrow, until `need` are found (in
/// increasing order).
pub open spec fn back_indices(events: Seq<Trace>, i: int, need: int) -> Seq<int>
    decreases i + 1,
{
    if i < 0 || need <= 0 {
        Seq::empty()
    } else {
        let here: Seq<int> = if eligible(events, i) {
            seq![i]
        } else {
            Seq::empty()
        };
        if i == 0 || here.len() >= need {
            here
        } else {
            back_indices(events, i - 1, need - here.len()) + here
        }
    }
}

/// Walking forward from `j`, the traces that get an arrow, until `room` are found.
pub open spec fn fwd_indices(events: Seq<Trace>, j: int, room: int) -> Seq<int>
    decreases events.len() - j,
{
    if j < 0 || j >= events.len() || room <= 0 {
        Seq::empty()
    } else if eligible(events, j) {
        seq![j] + fwd_indices(events, j + 1, room - 1)
    } else {
        fwd_indices(events, j + 1, room)
    }
}

/// The traces of the window around `index`: up to half the buffer at or before it, then
/// the following ones until the buffer is full.
pub open spec fn window_indices(events: Seq<Trace>, index: int) -> Seq<int> {
    let c = if index < events.len() - 1 { index } else { events.len() - 1 };
    let b = back_indices(events, c, (MAX_ARROWS / 2) as int);
    b + fwd_indices(events, c + 1, MAX_ARROWS - b.len())
}

/// `idx` lists, in increasing order, traces from `lo` (included) to `hi` (excluded) that
/// get an arrow.
pub open spec fn eligible_run(events: Seq<Trace>, idx: Seq<int>, lo: int, hi: int) -> bool {
    &&& forall|k: int| 0 <= k < idx.len() ==> lo <= #[trigger] idx[k] < hi && eligible(events, idx[k])
    &&& forall|a: int, b: int| 0 <= a < b < idx.len() ==> #[trigger] idx[a] < #[trigger] idx[b]
}

/// Walking back gives traces up to `i` that get an arrow, in order, at most `need`, and
/// without a gap: every trace between the first found and `i` that gets one is there.
pub proof fn lemma_back_indices(events: Seq<Trace>, i: int, need: int)
    requires
        i < events.len(),
    ensures
        eligible_run(events, back_indices(events, i, need), 0, i + 1),
        back_indices(events, i, need).len() <= if need > 0 { need } else { 0 },
        back_indices(events, i, need).len() > 0 ==> forall|m: int|
            back_indices(events, i, need)[0] <= m <= i && eligible(events, m) ==> #[trigger] back_indices(
                events,
                i,
                need,
            ).contains(m),
    decreases i + 1,
{
    if i >= 0 && need > 0 {
        let here: Seq<int> = if eligible(events, i) { seq![i] } else { Seq::empty() };
        if i == 0 || here.len() >= need {
        } else {
            lemma_back_indices(events, i - 1, need - here.len());
            let rest = back_indices(events, i - 1, need - here.len());
            let all = rest + here;
            assert(back_indices(events, i, need) == all);
            assert forall|a: int, b: int| 0 <= a < b < all.len() implies #[trigger] all[a] < #[trigger] all[b] by {
                if b >= rest.len() {
                    assert(all[b] == i);
                    assert(all[a] == rest[a]);
                } else {
                    assert(all[a] == rest[a] && all[b] == rest[b]);
                }
            }
            assert forall|k: int| 0 <= k < all.len() implies 0 <= #[trigger] all[k] < i + 1 && eligible(events, all[k]) by {
                if k < rest.len() {
                    assert(all[k] == rest[k]);
                }
            }
            if all.len() > 0 {
                assert forall|m: int| all[0] <= m <= i && eligible(events, m) implies #[trigger] all.contains(m) by {
                    if m == i {
                        assert(all[all.len() - 1] == i);
                    } else if rest.len() > 0 {
                        assert(all[0] == rest[0]);
                        assert(rest.contains(m));
                        let q = choose|q: int| 0 <= q < rest.len() && rest[q] == m;
                        assert(all[q] == m);
                    } else {
                        assert(all[0] == i);
                    }
                }
            }
        }
    }
}

/// Walking forward from `j` gives traces from `j` on that get an arrow, in order, at most
/// `room`, and without a gap from `j` to the last one found.
pub proof fn lemma_fwd_indices(events: Seq<Trace>, j: int, room: int)
    requires
        0 <= j,
    ensures
        eligible_run(events, fwd_indices(events, j, room), j, events.len() as int),
        fwd_indices(events, j, room).len() <= if room > 0 { room } else { 0 },
        fwd_indices(events, j, room).len() > 0 ==> forall|m: int|
            j <= m <= fwd_indices(events, j, room).last() && eligible(events, m) ==> #[trigger] fwd_indices(
                events,
                j,
                room,
            ).contains(m),
    decreases events.len() - j,
{
    if j < events.len() && room > 0 {
        if eligible(events, j) {
            lemma_fwd_indices(events, j + 1, room - 1);
            let rest = fwd_indices(events, j + 1, room - 1);
            let all = seq![j] + rest;
            assert(fwd_indices(events, j, room) == all);
            assert forall|a: int, b: int| 0 <= a < b < all.len() implies #[trigger] all[a] < #[trigger] all[b] by {
                assert(all[b] == rest[b - 1]);
                if a > 0 {
                    assert(all[a] == rest[a - 1]);
                }
            }
            assert forall|k: int| 0 <= k < all.len() implies j <= #[trigger] all[k] < events.len() && eligible(events, all[k]) by {
                if k > 0 {
                    assert(all[k] == rest[k - 1]);
                }
            }
            assert forall|m: int| j <= m <= all.last() && eligible(events, m) implies #[trigger] all.contains(m) by {
                if m == j {
                    assert(all[0] == j);
                } else {
                    assert(all.last() == rest.last());
                    assert(rest.contains(m));
                    let q = choose|q: int| 0 <= q < rest.len() && rest[q] == m;
                    assert(all[q + 1] == m);
                }
            }
        } else {
            lemma_fwd_indices(events, j + 1, room);
            let rest = fwd_indices(events, j + 1, room);
            assert forall|m: int| j <= m <= rest.last() && eligible(events, m) && rest.len() > 0 implies #[trigger] rest.contains(m) by {
                assert(m != j);
            }
        }
    }
}

/// The window around a focused trace lists traces that get an arrow, in increasing order,
/// at most `MAX_ARROWS` of them.
pub proof fn lemma_window_indices(events: Seq<Trace>, index: int)
    requires
        events.len() > 0,
    ensures
        eligible_run(events, window_indices(events, index), 0, events.len() as int),
        window_indices(events, index).len() <= MAX_ARROWS,
{
    let c = if index < events.len() - 1 { index } else { events.len() - 1 };
    let need = (MAX_ARROWS / 2) as int;
    lemma_back_indices(events, c, need);
    let b = back_indices(events, c, need);
    let room = MAX_ARROWS - b.len();
    if c + 1 >= 0 {
        lemma_fwd_indices(events, c + 1, room);
    }
    let f = fwd_indices(events, c + 1, room);
    let w = b + f;
    assert(window_indices(events, index) == w);
    assert forall|k: int| 0 <= k < w.len() implies 0 <= #[trigger] w[k] < events.len() && eligible(events, w[k]) by {
        if k < b.len() {
            assert(w[k] == b[k]);
        } else {
            assert(w[k] == f[k - b.len()]);
        }
    }
    assert forall|x: int, y: int| 0 <= x < y < w.len() implies #[trigger] w[x] < #[trigger] w[y] by {
        if y < b.len() {
            assert(w[x] == b[x] && w[y] == b[y]);
        } else if x >= b.len() {
            assert(w[x] == f[x - b.len()] && w[y] == f[y - b.len()]);
        } else {
            assert(w[x] == b[x] && w[y] == f[y - b.len()]);
        }
    }
}

/// The arrows of the traces `idxs`, given their HFNs in order from the tracking `t0`,
/// and the tracking after them.
pub open spec fn with_hfns(events: Seq<Trace>, idxs: Seq<int>, t0: HfnTracker) -> (Seq<ArrowView>, HfnTracker)
    decreases idxs.len(),
{
    if idxs.len() == 0 {
        (Seq::empty(), t0)
    } else {
        let prev = with_hfns(events, idxs.drop_last(), t0);
        let a = base_view(events, idxs.last());
        let step = hfn_step(prev.1, a.frame, a.slot);
        (prev.0.push(ArrowView { hfn: step.0, ..a }), step.1)
    }
}

/// No event seen yet.
pub open spec fn fresh_tracker() -> HfnTracker {
    HfnTracker { has_first_event: false, end_limit: (0, 0, 0) }
}

/// The views of a list of arrows.
pub open spec fn views(s: Seq<HarqArrow>) -> Seq<ArrowView> {
    s.map_values(|a: HarqArrow| a@)
}

/// Inserts `a` before the first arrow that comes after it.
fn insert_sorted(arrows: &mut Vec<HarqArrow>, a: HarqArrow)
    ensures
        views(final(arrows)@) == sorted_insert(views(old(arrows)@), a@),
{
    let ghost v = views(arrows@);
    let n = arrows.len();
    let mut pos: usize = 0;
    while pos < n && !(arrows[pos].hfn > a.hfn || (arrows[pos].hfn == a.hfn && arrows[pos].frame
        > a.frame) || (arrows[pos].hfn == a.hfn && arrows[pos].frame == a.frame && arrows[pos].slot
        > a.slot))
        invariant
            n == arrows@.len(),
            v == views(arrows@),
            pos <= n,
            first_after(v, a@, 0) == first_after(v, a@, pos as int),
        decreases n - pos,
    {
        pos = pos + 1;
    }
    proof {
        if pos < n {
            assert(v[pos as int] == arrows@[pos as int]@);
        }
    }
    arrows.insert(pos, a);
    assert(views(arrows@) =~= v.insert(pos as int, a@));
}

/// The HARQ panel.
pub struct HarqPanel {
    /// Index of the focused trace
    pub current_index: usize,
    /// The arrows of the timeline
    pub arrows: Vec<HarqArrow>,
    /// Scroll to the focused arrow on the next frame
    pub should_scroll: bool,
    /// HFN tracking
    pub tracker: HfnTracker,
    /// HARQ process the timeline is filtered to (none: all)
    pub filter_harq: Option<u8>,
}

impl HarqPanel {
    /// The arrows are in (HFN, frame, slot) order, and fewer than the buffer holds.
    pub open spec fn spec_wf(self) -> bool {
        &&& arrows_sorted(views(self.arrows@))
        &&& self.arrows@.len() <= MAX_ARROWS
    }

    /// An empty timeline.
    pub fn new() -> (r: Self)
        ensures
            r.spec_wf(),
            r.current_index == 0,
            r.arrows@.len() == 0,
            !r.should_scroll,
            r.tracker == fresh_tracker(),
            r.filter_harq is None,
    {
        HarqPanel {
            current_index: 0,
            arrows: Vec::new(),
            should_scroll: false,
            tracker: HfnTracker { has_first_event: false, end_limit: (0, 0, 0) },
            filter_harq: None,
        }
    }

    /// The smallest and largest trace index of the arrows, if there is one.
    pub fn buffered_range(&self) -> (r: Option<(usize, usize)>)
        ensures
            self.arrows@.len() == 0 <==> r is None,
            r matches Some((lo, hi)) ==> {
                &&& (exists|i: int| 0 <= i < self.arrows@.len() && self.arrows@[i].trace_index == lo)
                &&& (exists|i: int| 0 <= i < self.arrows@.len() && self.arrows@[i].trace_index == hi)
                &&& forall|i: int|
                    0 <= i < self.arrows@.len() ==> lo <= #[trigger] self.arrows@[i].trace_index
                        <= hi
            },
    {
        let n = self.arrows.len();
        if n == 0 {
            return None;
        }
        let mut lo = self.arrows[0].trace_index;
        let mut hi = lo;
        let mut k: usize = 1;
        while k < n
            invariant
                n == self.arrows@.len(),
                1 <= k <= n,
                exists|i: int| 0 <= i < k && self.arrows@[i].trace_index == lo,
                exists|i: int| 0 <= i < k && self.arrows@[i].trace_index == hi,
                forall|i: int| 0 <= i < k ==> lo <= #[trigger] self.arrows@[i].trace_index <= hi,
            decreases n - k,
        {
            let t = self.arrows[k].trace_index;
            if t < lo {
                lo = t;
            }
            if t > hi {
                hi = t;
            }
            k = k + 1;
        }
        Some((lo, hi))
    }

    /// Rebuilds the timeline around `index` (see `window_indices`): the HFNs are computed
    /// afresh in trace order, then the arrows are put in (HFN, frame, slot) order.
    pub fn rebuild_window(&mut self, all_events: &[Trace], index: usize)
        ensures
            all_events@.len() == 0 ==> *final(self) == *old(self),
            all_events@.len() > 0 ==> {
                let r = with_hfns(all_events@, window_indices(all_events@, index as int), fresh_tracker());
                &&& views(final(self).arrows@) == insertion_sorted(r.0)
                &&& final(self).tracker == r.1
                &&& final(self).spec_wf()
            },
            final(self).current_index == old(self).current_index,
            final(self).should_scroll == old(self).should_scroll,
            final(self).filter_harq == old(self).filter_harq,
    {
        if all_events.len() == 0 {
            return;
        }
        let arrows = collect_window(all_events, index);
        proof {
            lemma_base_views_len(all_events@, window_indices(all_events@, index as int));
            assert(views(arrows@).len() == arrows@.len());
        }
        let (sorted, tracker) = sort_with_hfns(arrows, Ghost(all_events@), Ghost(window_indices(all_events@, index as int)));
        self.arrows = sorted;
        self.tracker = tracker;
    }
}

/// The arrows of the traces `idxs`, before their HFNs are given.
pub open spec fn base_views(events: Seq<Trace>, idxs: Seq<int>) -> Seq<ArrowView> {
    idxs.map_values(|i: int| base_view(events, i))
}

/// The arrows walked back from `center` (see `back_indices`), in trace order.
fn collect_back(all_events: &[Trace], center: usize) -> (r: Vec<HarqArrow>)
    requires
        center < all_events@.len(),
    ensures
        views(r@) == base_views(all_events@, back_indices(all_events@, center as int, (MAX_ARROWS / 2) as int)),
        r@.len() <= MAX_ARROWS / 2,
{
    let ghost events = all_events@;
    let len = all_events.len();
    let half = MAX_ARROWS / 2;
    let mut back: Vec<HarqArrow> = Vec::new();
    let ghost mut bi: Seq<int> = Seq::empty();
    let mut i = center;
    loop
        invariant_except_break
            back_indices(events, center as int, half as int) == back_indices(
                events,
                i as int,
                half - bi.len(),
            ) + bi.reverse(),
            bi.len() < half,
        invariant
            events == all_events@,
            len == events.len(),
            center < len,
            half == 50,
            i <= center,
            back@.len() == bi.len(),
            bi.len() <= half,
            forall|k: int| 0 <= k < bi.len() ==> (#[trigger] back@[k])@ == base_view(events, bi[k]),
        ensures
            back_indices(events, center as int, half as int) == bi.reverse(),
        decreases i,
    {
        let ghost need = half - bi.len();
        let ghost bi0 = bi;
        match HarqArrow::from_trace(&all_events[i], i) {
            Some(a) => {
                back.push(a);
                proof {
                    bi = bi.push(i as int);
                }
            },
            None => {},
        }
        proof {
            let here: Seq<int> = if eligible(events, i as int) { seq![i as int] } else { Seq::empty() };
            assert(bi =~= bi0 + here);
            assert(bi.reverse() =~= here + bi0.reverse());
        }
        if i == 0 || back.len() >= half {
            break;
        }
        proof {
            let here: Seq<int> = if eligible(events, i as int) { seq![i as int] } else { Seq::empty() };
            assert(back_indices(events, i as int, need) == back_indices(events, i - 1, need - here.len()) + here);
            assert(back_indices(events, i - 1, half - bi.len()) + bi.reverse() =~= back_indices(events, i - 1, need - here.len()) + here + bi0.reverse());
        }
        i = i - 1;
    }
    let mut arrows: Vec<HarqArrow> = Vec::new();
    let ghost mut wi: Seq<int> = Seq::empty();
    while back.len() > 0
        invariant
            back@.len() + wi.len() == bi.len(),
            wi == bi.reverse().take(wi.len() as int),
            forall|k: int| 0 <= k < back@.len() ==> (#[trigger] back@[k])@ == base_view(events, bi[k]),
            arrows@.len() == wi.len(),
            forall|k: int| 0 <= k < wi.len() ==> (#[trigger] arrows@[k])@ == base_view(events, wi[k]),
        decreases back@.len(),
    {
        let ghost m = back@.len();
        let a = back.pop().unwrap();
        proof {
            assert(bi.reverse()[wi.len() as int] == bi[m - 1]);
            assert(bi.reverse().take(wi.len() as int + 1) =~= wi.push(bi[m - 1]));
            wi = wi.push(bi[m - 1]);
        }
        arrows.push(a);
    }
    proof {
        assert(wi =~= bi.reverse());
        assert(views(arrows@) =~= base_views(events, wi));
    }
    arrows
}

/// The arrows of the window around `index` (see `window_indices`), in trace order.
fn collect_window(all_events: &[Trace], index: usize) -> (r: Vec<HarqArrow>)
    requires
        all_events@.len() > 0,
    ensures
        views(r@) == base_views(all_events@, window_indices(all_events@, index as int)),
        r@.len() <= MAX_ARROWS,
{
    let ghost events = all_events@;
    let len = all_events.len();
    let center = if index < len - 1 { index } else { len - 1 };
    let mut arrows = collect_back(all_events, center);
    let ghost mut wi = back_indices(events, center as int, (MAX_ARROWS / 2) as int);
    proof {
        lemma_base_views_len(events, wi);
    }
    let mut j = center + 1;
    while j < len
        invariant_except_break
            window_indices(events, index as int) == wi + fwd_indices(events, j as int, MAX_ARROWS - wi.len()),
        invariant
            events == all_events@,
            len == events.len(),
            center < j <= len,
            arrows@.len() == wi.len(),
            wi.len() <= MAX_ARROWS,
            views(arrows@) == base_views(events, wi),
        ensures
            window_indices(events, index as int) == wi,
        decreases len - j,
    {
        if arrows.len() >= MAX_ARROWS {
            assert(fwd_indices(events, j as int, MAX_ARROWS - wi.len()) =~= Seq::<int>::empty());
            assert(wi + Seq::<int>::empty() =~= wi);
            break;
        }
        let ghost wi0 = wi;
        match HarqArrow::from_trace(&all_events[j], j) {
            Some(a) => {
                let ghost before = views(arrows@);
                arrows.push(a);
                proof {
                    wi = wi.push(j as int);
                    assert(wi0 + fwd_indices(events, j as int, MAX_ARROWS - wi0.len()) =~= wi
                        + fwd_indices(events, j + 1, MAX_ARROWS - wi.len()));
                    assert(views(arrows@) =~= before.push(a@));
                    assert(base_views(events, wi) =~= base_views(events, wi0).push(base_view(events, j as int)));
                }
            },
            None => {},
        }
        j = j + 1;
    }
    proof {
        if j == len {
            assert(fwd_indices(events, j as int, MAX_ARROWS - wi.len()) =~= Seq::<int>::empty());
            assert(wi + Seq::<int>::empty() =~= wi);
        }
    }
    arrows
}

/// Gives the arrows of the traces `idxs` their HFNs in order from fresh tracking, and
/// puts them in (HFN, frame, slot) order.
fn sort_with_hfns(arrows: Vec<HarqArrow>, Ghost(events): Ghost<Seq<Trace>>, Ghost(idxs): Ghost<Seq<int>>) -> (r: (
    Vec<HarqArrow>,
    HfnTracker,
))
    requires
        views(arrows@) == base_views(events, idxs),
    ensures
        views(r.0@) == insertion_sorted(with_hfns(events, idxs, fresh_tracker()).0),
        r.1 == with_hfns(events, idxs, fresh_tracker()).1,
        arrows_sorted(views(r.0@)),
        r.0@.len() == idxs.len(),
{
    let mut arrows = arrows;
    proof {
        lemma_base_views_len(events, idxs);
        assert forall|m: int| 0 <= m < arrows@.len() implies (#[trigger] arrows@[m])@ == base_view(events, idxs[0 + m]) by {
            assert(views(arrows@)[m] == arrows@[m]@);
            assert(base_views(events, idxs)[m] == base_view(events, idxs[m]));
        }
    }
    let mut tracker = HfnTracker { has_first_event: false, end_limit: (0, 0, 0) };
    let mut sorted: Vec<HarqArrow> = Vec::new();
    let total = arrows.len();
    let mut k: usize = 0;
    proof {
        lemma_base_views_len(events, idxs);
    }
    while arrows.len() > 0
        invariant
            k + arrows@.len() == total,
            total == idxs.len(),
            forall|m: int| 0 <= m < arrows@.len() ==> (#[trigger] arrows@[m])@ == base_view(events, idxs[k + m]),
            views(sorted@) == insertion_sorted(with_hfns(events, idxs.take(k as int), fresh_tracker()).0),
            tracker == with_hfns(events, idxs.take(k as int), fresh_tracker()).1,
        decreases arrows@.len(),
    {
        proof {
            assert(arrows@[0]@ == base_view(events, idxs[k as int]));
        }
        let mut a = arrows.remove(0);
        let h = compute_hfn(&mut tracker, a.frame, a.slot);
        a.hfn = h;
        proof {
            assert(idxs.take(k + 1).drop_last() =~= idxs.take(k as int));
            assert(idxs.take(k + 1).last() == idxs[k as int]);
            let prev = with_hfns(events, idxs.take(k as int), fresh_tracker());
            assert(with_hfns(events, idxs.take(k + 1), fresh_tracker()).0 == prev.0.push(a@));
            assert(with_hfns(events, idxs.take(k + 1), fresh_tracker()).0.drop_last() =~= prev.0);
        }
        insert_sorted(&mut sorted, a);
        k = k + 1;
    }
    proof {
        assert(idxs.take(k as int) =~= idxs);
        lemma_insertion_sorted(with_hfns(events, idxs, fresh_tracker()).0);
        lemma_with_hfns_len(events, idxs, fresh_tracker());
    }
    (sorted, tracker)
}

/// One view per index.
proof fn lemma_base_views_len(events: Seq<Trace>, idxs: Seq<int>)
    ensures
        base_views(events, idxs).len() == idxs.len(),
        forall|k: int| 0 <= k < idxs.len() ==> #[trigger] base_views(events, idxs)[k] == base_view(events, idxs[k]),
{
}

/// One arrow per trace.
proof fn lemma_with_hfns_len(events: Seq<Trace>, idxs: Seq<int>, t0: HfnTracker)
    ensures
        with_hfns(events, idxs, t0).0.len() == idxs.len(),
    decreases idxs.len(),
{
    if idxs.len() > 0 {
        lemma_with_hfns_len(events, idxs.drop_last(), t0);
    }
}

/// The timeline must be rebuilt to focus on `index`: it is empty, or `index` is before
/// every arrow, or it is after every arrow and a trace up to it (among the loaded ones)
/// that gets an arrow is missing.
pub open spec fn harq_needs_rebuild(v: Seq<ArrowView>, events: Seq<Trace>, index: int) -> bool {
    ||| v.len() == 0
    ||| (forall|i: int| 0 <= i < v.len() ==> index < #[trigger] v[i].trace_index)
    ||| ((forall|i: int| 0 <= i < v.len() ==> #[trigger] v[i].trace_index < index) && exists|k: int|
        (forall|i: int| 0 <= i < v.len() ==> #[trigger] v[i].trace_index < k) && k <= index && k
            < events.len() && eligible(events, k))
}

/// The timeline after an arrow is added: inserted in order, then the oldest half dropped
/// when the buffer is full.
pub open spec fn after_add(v: Seq<ArrowView>, a: ArrowView) -> Seq<ArrowView> {
    let w = sorted_insert(v, a);
    if w.len() >= MAX_ARROWS {
        w.subrange((MAX_ARROWS / 2) as int, w.len() as int)
    } else {
        w
    }
}

/// Some arrow is of HARQ process `h`.
pub open spec fn has_harq(v: Seq<ArrowView>, h: u8) -> bool {
    exists|i: int| 0 <= i < v.len() && v[i].harq == Some(h)
}

/// The positions of the arrows shown: all of them, or those of the HARQ process the
/// timeline is filtered to.
pub open spec fn shown_positions(v: Seq<ArrowView>, filter: Option<u8>) -> Seq<int>
    decreases v.len(),
{
    if v.len() == 0 {
        Seq::empty()
    } else {
        let prev = shown_positions(v.drop_last(), filter);
        if filter is None || v.last().harq == filter {
            prev.push(v.len() - 1)
        } else {
            prev
        }
    }
}

/// The arrows displayed are exactly those of the filtered HARQ process (all of them
/// without a filter), each once, in timeline order.
pub proof fn lemma_shown_positions(v: Seq<ArrowView>, filter: Option<u8>)
    ensures
        forall|k: int|
            #![trigger shown_positions(v, filter).contains(k)]
            shown_positions(v, filter).contains(k) <==> (0 <= k < v.len() && (filter is None
                || v[k].harq == filter)),
        forall|i: int, j: int|
            0 <= i < j < shown_positions(v, filter).len() ==> #[trigger] shown_positions(v, filter)[i]
                < #[trigger] shown_positions(v, filter)[j],
    decreases v.len(),
{
    if v.len() > 0 {
        let d = v.drop_last();
        lemma_shown_positions(d, filter);
        let prev = shown_positions(d, filter);
        let cur = shown_positions(v, filter);
        assert forall|k: int| prev.contains(k) implies 0 <= k < d.len() by {}
        assert forall|k: int| #![trigger cur.contains(k)]
            cur.contains(k) <==> (0 <= k < v.len() && (filter is None || v[k].harq == filter)) by {
            if 0 <= k < d.len() {
                assert(v[k] == d[k]);
            }
            if cur.contains(k) && !prev.contains(k) {
                let i = choose|i: int| 0 <= i < cur.len() && cur[i] == k;
                assert(i == prev.len());
            }
            if prev.contains(k) {
                let i = choose|i: int| 0 <= i < prev.len() && prev[i] == k;
                assert(cur[i] == k);
            }
            if k == v.len() - 1 && cur.len() > prev.len() {
                assert(cur[prev.len() as int] == k);
            }
        }
        assert forall|i: int, j: int| 0 <= i < j < cur.len() implies #[trigger] cur[i] < #[trigger] cur[j] by {
            if j == prev.len() {
                assert(prev.contains(prev[i]));
            }
        }
    }
}

impl HarqPanel {
    /// Whether an arrow of trace `index` is already on the timeline.
    fn has_arrow(&self, index: usize) -> (r: bool)
        ensures
            r == exists|i: int| 0 <= i < self.arrows@.len() && self.arrows@[i].trace_index == index,
    {
        let n = self.arrows.len();
        let mut k: usize = 0;
        while k < n
            invariant
                n == self.arrows@.len(),
                k <= n,
                forall|i: int| 0 <= i < k ==> self.arrows@[i].trace_index != index,
            decreases n - k,
        {
            if self.arrows[k].trace_index == index {
                return true;
            }
            k = k + 1;
        }
        false
    }

    /// Adds the arrow of a trace, unless the trace has one already: it gets its HFN and
    /// goes in (HFN, frame, slot) order; when the buffer is full, the oldest half goes.
    pub fn add_event(&mut self, event: &Trace, index: usize)
        requires
            old(self).spec_wf(),
        ensures
            final(self).spec_wf(),
            final(self).current_index == old(self).current_index,
            final(self).should_scroll == old(self).should_scroll,
            final(self).filter_harq == old(self).filter_harq,
            ({
                let dup = exists|i: int|
                    0 <= i < old(self).arrows@.len() && old(self).arrows@[i].trace_index == index;
                if trace_arrow(*event) is None || dup {
                    &&& views(final(self).arrows@) == views(old(self).arrows@)
                    &&& final(self).tracker == old(self).tracker
                } else {
                    let a = arrow_view_of(*event, index);
                    let step = hfn_step(old(self).tracker, a.frame, a.slot);
                    &&& views(final(self).arrows@) == after_add(
                        views(old(self).arrows@),
                        ArrowView { hfn: step.0, ..a },
                    )
                    &&& final(self).tracker == step.1
                }
            }),
    {
        match HarqArrow::from_trace(event, index) {
            Some(mut arrow) => {
                if self.has_arrow(index) {
                    return;
                }
                let h = compute_hfn(&mut self.tracker, arrow.frame, arrow.slot);
                arrow.hfn = h;
                let ghost before = views(self.arrows@);
                insert_sorted(&mut self.arrows, arrow);
                proof {
                    lemma_sorted_insert(before, arrow@);
                }
                if self.arrows.len() >= MAX_ARROWS {
                    let ghost w = views(self.arrows@);
                    let kept = self.arrows.split_off(MAX_ARROWS / 2);
                    self.arrows = kept;
                    proof {
                        assert(views(self.arrows@) =~= w.subrange(50, w.len() as int));
                    }
                }
            },
            None => {},
        }
    }

    /// Whether the timeline must be rebuilt to focus on `index` (see `harq_needs_rebuild`).
    pub fn needs_rebuild(&self, all_events: &[Trace], index: usize) -> (r: bool)
        ensures
            r == harq_needs_rebuild(views(self.arrows@), all_events@, index as int),
    {
        let ghost v = views(self.arrows@);
        proof {
            assert(v.len() == self.arrows@.len());
            assert forall|i: int| 0 <= i < v.len() implies #[trigger] v[i].trace_index == self.arrows@[i].trace_index by {}
        }
        match self.buffered_range() {
            None => true,
            Some((lo, hi)) => {
                proof {
                    assert forall|i: int| 0 <= i < v.len() implies lo <= #[trigger] v[i].trace_index <= hi by {
                        assert(v[i].trace_index == self.arrows@[i].trace_index);
                    }
                }
                let ghost j = choose|j: int| 0 <= j < self.arrows@.len() && self.arrows@[j].trace_index == hi;
                let ghost l = choose|j: int| 0 <= j < self.arrows@.len() && self.arrows@[j].trace_index == lo;
                proof {
                    assert(v[j].trace_index == hi);
                    assert(v[l].trace_index == lo);
                }
                if index < lo {
                    return true;
                }
                if index <= hi {
                    return false;
                }
                let len = all_events.len();
                if len == 0 {
                    return false;
                }
                let end = if index < len - 1 { index } else { len - 1 };
                let mut k = hi + 1;
                while k <= end
                    invariant
                        hi < k,
                        end < len,
                        end <= index,
                        len == all_events@.len(),
                        v == views(self.arrows@),
                        forall|i: int| 0 <= i < v.len() ==> #[trigger] v[i].trace_index <= hi,
                        forall|m: int| hi < m < k ==> !eligible(all_events@, m),
                    decreases end + 1 - k,
                {
                    if HarqArrow::from_trace(&all_events[k], k).is_some() {
                        proof {
                            assert forall|i: int| 0 <= i < v.len() implies #[trigger] v[i].trace_index < k by {}
                            assert forall|i: int| 0 <= i < v.len() implies #[trigger] v[i].trace_index < index by {}
                            assert(all_events@[k as int] == all_events[k as int]);
                            assert(eligible(all_events@, k as int));
                            assert((forall|i: int| 0 <= i < v.len() ==> #[trigger] v[i].trace_index < k) && k <= index
                                && k < all_events@.len() && eligible(all_events@, k as int));
                            assert(exists|k2: int|
                                (forall|i: int| 0 <= i < v.len() ==> #[trigger] v[i].trace_index < k2) && k2 <= index
                                    && k2 < all_events@.len() && eligible(all_events@, k2));
                            assert(harq_needs_rebuild(v, all_events@, index as int));
                        }
                        return true;
                    }
                    k = k + 1;
                }
                proof {
                    if exists|k2: int|
                        (forall|i: int| 0 <= i < v.len() ==> #[trigger] v[i].trace_index < k2) && k2 <= index
                            && k2 < all_events@.len() && eligible(all_events@, k2) {
                        let k2 = choose|k2: int|
                            (forall|i: int| 0 <= i < v.len() ==> #[trigger] v[i].trace_index < k2) && k2 <= index
                                && k2 < all_events@.len() && eligible(all_events@, k2);
                        assert(v[j].trace_index < k2);
                    }
                }
                false
            },
        }
    }

    /// Positions of the arrows shown (see `shown_positions`).
    pub fn displayed(&self) -> (r: Vec<usize>)
        ensures
            r@.map_values(|p: usize| p as int) == shown_positions(views(self.arrows@), self.filter_harq),
    {
        let ghost v = views(self.arrows@);
        let mut out: Vec<usize> = Vec::new();
        let n = self.arrows.len();
        let mut k: usize = 0;
        while k < n
            invariant
                n == self.arrows@.len(),
                v == views(self.arrows@),
                k <= n,
                out@.map_values(|p: usize| p as int) == shown_positions(v.take(k as int), self.filter_harq),
            decreases n - k,
        {
            proof {
                assert(v.take(k + 1).drop_last() =~= v.take(k as int));
                assert(v.take(k + 1).last() == self.arrows@[k as int]@);
            }
            let shown = match self.filter_harq {
                None => true,
                Some(f) => match self.arrows[k].harq {
                    Some(h) => h == f,
                    None => false,
                },
            };
            if shown {
                let ghost before = out@.map_values(|p: usize| p as int);
                out.push(k);
                assert(out@.map_values(|p: usize| p as int) =~= before.push(k as int));
            }
            k = k + 1;
        }
        assert(v.take(n as int) =~= v);
        out
    }

    /// The HARQ processes on the timeline, in increasing order, each once (the legend).
    pub fn legend_harqs(&self) -> (r: Vec<u8>)
        ensures
            forall|i: int, j: int| 0 <= i < j < r@.len() ==> r@[i] < r@[j],
            forall|h: u8| r@.contains(h) <==> has_harq(views(self.arrows@), h),
    {
        let ghost v = views(self.arrows@);
        let mut out: Vec<u8> = Vec::new();
        let mut h: u16 = 0;
        while h < 256
            invariant
                h <= 256,
                v == views(self.arrows@),
                forall|i: int, j: int| 0 <= i < j < out@.len() ==> out@[i] < out@[j],
                forall|i: int| 0 <= i < out@.len() ==> out@[i] < h,
                forall|g: u8| out@.contains(g) <==> (g < h && has_harq(v, g)),
            decreases 256 - h,
        {
            let hv = h as u8;
            let mut present = false;
            let n = self.arrows.len();
            let mut k: usize = 0;
            while k < n
                invariant
                    n == self.arrows@.len(),
                    v == views(self.arrows@),
                    k <= n,
                    present <==> exists|i: int| 0 <= i < k && v[i].harq == Some(hv),
                decreases n - k,
            {
                assert(v[k as int] == self.arrows@[k as int]@);
                match self.arrows[k].harq {
                    Some(x) => {
                        if x == hv {
                            present = true;
                        }
                    },
                    None => {},
                }
                k = k + 1;
            }
            assert(present == has_harq(v, hv));
            let ghost before = out@;
            if present {
                out.push(hv);
            }
            proof {
                assert forall|g: u8| out@.contains(g) <==> (g < h + 1 && has_harq(v, g)) by {
                    if present {
                        assert(out@ == before.push(hv));
                        if out@.contains(g) && g != hv {
                            let i = choose|i: int| 0 <= i < out@.len() && out@[i] == g;
                            assert(before[i] == g);
                            assert(before.contains(g));
                        }
                        if g < h && has_harq(v, g) {
                            assert(before.contains(g));
                            let i = choose|i: int| 0 <= i < before.len() && before[i] == g;
                            assert(out@[i] == g);
                        }
                        if g == hv {
                            assert(out@[out@.len() - 1] == g);
                        }
                    }
                }
            }
            h = h + 1;
        }
        out
    }

    /// A click on HARQ process `h` in the legend: filter the timeline to it, or show all
    /// when it was the filter already.
    pub fn toggle_filter(&mut self, h: u8)
        ensures
            final(self).filter_harq == if old(self).filter_harq == Some(h) {
                None
            } else {
                Some(h)
            },
            final(self).arrows == old(self).arrows,
            final(self).current_index == old(self).current_index,
            final(self).tracker == old(self).tracker,
            final(self).should_scroll == old(self).should_scroll,
    {
        let active = match self.filter_harq {
            Some(f) => f == h,
            None => false,
        };
        self.filter_harq = if active { None } else { Some(h) };
    }
}

impl EventSubscriber for HarqPanel {
    open spec fn wf(&self) -> bool {
        self.spec_wf()
    }

    /// Adds the arrow of the trace (see `add_event`).
    fn on_event_added(&mut self, event: &Trace, index: usize, context: &EventContext)
    {
        self.add_event(event, index);
    }

    /// Focuses the trace: the timeline scrolls to it, and is rebuilt around it when its
    /// arrows are not in the buffer (see `harq_needs_rebuild`).
    fn on_event_focused(&mut self, event: &Trace, index: usize, context: &EventContext)
    {
        self.current_index = index;
        self.should_scroll = true;
        if self.needs_rebuild(context.all_events, index) {
            self.rebuild_window(context.all_events, index);
        }
    }

    /// Empties the timeline.
    fn on_events_cleared(&mut self)
    {
        self.arrows = Vec::new();
        self.current_index = 0;
        self.should_scroll = false;
        self.tracker = HfnTracker { has_first_event: false, end_limit: (0, 0, 0) };
    }

    /// The timeline does not depend on the metadata.
    fn on_metadata_changed(&mut self, metadata: &FileMetadata)
    {
    }

    open spec fn spec_name(&self) -> &'static str {
        "HARQ"
    }

    fn name(&self) -> (r: &'static str) {
        "HARQ"
    }

    open spec fn spec_added(&self, after: Self, event: Trace, index: usize, context: EventContext) -> bool {
        &&& (after.current_index == self.current_index)
        &&& (({
            let dup = exists|i: int|
                0 <= i < self.arrows@.len() && self.arrows@[i].trace_index == index;
            if trace_arrow(event) is None || dup {
                views(after.arrows@) == views(self.arrows@)
            } else {
                let a = arrow_view_of(event, index);
                let step = hfn_step(self.tracker, a.frame, a.slot);
                &&& views(after.arrows@) == after_add(
                    views(self.arrows@),
                    ArrowView { hfn: step.0, ..a },
                )
                &&& after.tracker == step.1
            }
        }))
    }

    open spec fn spec_focused(&self, after: Self, event: Trace, index: usize, context: EventContext) -> bool {
        &&& (after.current_index == index)
        &&& (after.should_scroll)
        &&& (after.filter_harq == self.filter_harq)
        &&& (harq_needs_rebuild(views(self.arrows@), context.all_events@, index as int)
            && context.all_events@.len() > 0 ==> {
            let r = with_hfns(
                context.all_events@,
                window_indices(context.all_events@, index as int),
                fresh_tracker(),
            );
            &&& views(after.arrows@) == insertion_sorted(r.0)
            &&& after.tracker == r.1
        })
        &&& (!(harq_needs_rebuild(views(self.arrows@), context.all_events@, index as int)
            && context.all_events@.len() > 0) ==> {
            &&& after.arrows == self.arrows
            &&& after.tracker == self.tracker
        })
    }

    open spec fn spec_cleared(&self, after: Self) -> bool {
        &&& (after.arrows@.len() == 0)
        &&& (after.current_index == 0)
        &&& (!after.should_scroll)
        &&& (after.tracker == fresh_tracker())
        &&& (after.filter_harq == self.filter_harq)
    }

    open spec fn spec_metadata_changed(&self, after: Self, metadata: FileMetadata) -> bool {
        &&& (after == *self)
    }
}

} // verus!
