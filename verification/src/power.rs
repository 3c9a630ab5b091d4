//! Power panel: the uplink measurements of PUSCH and PUCCH traces, placed on an absolute
//! slot axis (hyper frame, frame, slot) and shown in a window of frames that follows the
//! focused event.

use vstd::prelude::*;
use crate::event_bus::{EventContext, EventSubscriber};
use crate::harq::{compute_hfn, fresh_tracker, hfn_step, HfnTracker};
use crate::model::{AdditionalInfos, FileMetadata, PHYChannelData, PHYChannelType, Trace};
use crate::resource_blocks::ResourceType;
use crate::theme::Rgb;

verus! {

/// Frames per hyper frame.
pub const FRAMES_PER_HFN: u64 = 1024;

/// Slots per frame (two per subframe).
pub const SLOTS_PER_FRAME: u64 = 20;

/// Frames shown by default.
pub const DEFAULT_WINDOW_FRAMES: u16 = 10;

/// Absolute slot index of `(hfn, frame, slot)`.
pub open spec fn spec_global_slot(hfn: u32, frame: u16, slot: u8) -> int {
    (hfn * 1024 + frame) * 20 + slot
}

/// Absolute slot index of `(hfn, frame, slot)`.
pub fn global_slot(hfn: u32, frame: u16, slot: u8) -> (r: u64)
    ensures
        r == spec_global_slot(hfn, frame, slot),
{
    assert((hfn as u64) * 1024 <= 0xffff_ffffu64 * 1024) by (nonlinear_arith)
        requires
            hfn <= 0xffff_ffffu32,
    ;
    (hfn as u64 * FRAMES_PER_HFN + frame as u64) * SLOTS_PER_FRAME + slot as u64
}

/// The measurement shown by a graph.
#[derive(Clone, Copy, PartialEq, Eq, Structural, Debug)]
pub enum Metric {
    /// Energy per resource element
    Epre,
    /// Timing advance
    Ta,
    /// Channel state information
    Csi,
}

impl Metric {
    /// Title of the graph.
    pub fn title(self) -> (r: &'static str)
        ensures
            r@ == match self {
                Metric::Epre => "EPRE (dB)"@,
                Metric::Ta => "Timing Advance (µs)"@,
                Metric::Csi => "CSI"@,
            },
    {
        match self {
            Metric::Epre => "EPRE (dB)",
            Metric::Ta => "Timing Advance (µs)",
            Metric::Csi => "CSI",
        }
    }
}

/// A measurement point: where it is on the slot axis and which trace it comes from.
#[derive(Clone, Copy, Debug)]
pub struct PowerSample {
    /// Index of the trace
    pub trace_index: usize,
    /// Channel (PUSCH or PUCCH)
    pub channel_type: PHYChannelType,
    /// Hyper frame number
    pub hfn: u32,
    /// System frame number
    pub frame: u16,
    /// Slot in the frame
    pub slot: u8,
}

impl PowerSample {
    /// The sample that a trace gives, if any.
    pub fn from_trace(trace: &Trace, index: usize) -> (r: Option<PowerSample>)
        ensures
            r == sample_of(*trace, index),
    {
        match &trace.additional_infos {
            AdditionalInfos::PHYInfos(phy) => match &phy.channel_data {
                PHYChannelData::Pusch { has_measurements, .. } | PHYChannelData::Pucch {
                    has_measurements,
                    ..
                } => if *has_measurements {
                    Some(
                        PowerSample {
                            trace_index: index,
                            channel_type: phy.channel_type,
                            hfn: 0,
                            frame: phy.frame,
                            slot: phy.slot,
                        },
                    )
                } else {
                    None
                },
                _ => None,
            },
            _ => None,
        }
    }

    /// Absolute slot index of the sample.
    pub open spec fn spec_slot(self) -> int {
        spec_global_slot(self.hfn, self.frame, self.slot)
    }

    /// Absolute slot index of the sample.
    pub fn global_slot(&self) -> (r: u64)
        ensures
            r == self.spec_slot(),
    {
        global_slot(self.hfn, self.frame, self.slot)
    }
}

/// The sample that a trace gives (before its HFN is set): a PUSCH or PUCCH with
/// measurements.
pub open spec fn sample_of(t: Trace, index: usize) -> Option<PowerSample> {
    match t.additional_infos {
        AdditionalInfos::PHYInfos(phy) => match phy.channel_data {
            PHYChannelData::Pusch { has_measurements, .. } | PHYChannelData::Pucch {
                has_measurements,
                ..
            } => if has_measurements {
                Some(
                    PowerSample {
                        trace_index: index,
                        channel_type: phy.channel_type,
                        hfn: 0,
                        frame: phy.frame,
                        slot: phy.slot,
                    },
                )
            } else {
                None
            },
            _ => None,
        },
        _ => None,
    }
}

/// The samples are in slot order.
pub open spec fn samples_sorted(s: Seq<PowerSample>) -> bool {
    forall|i: int, j: int| 0 <= i < j < s.len() ==> (#[trigger] s[i]).spec_slot() <= (#[trigger] s[j]).spec_slot()
}

/// The first position whose sample is after slot `key` (`partition_point(|s| slot <= key)`).
pub open spec fn first_after_slot(s: Seq<PowerSample>, key: int, i: int) -> int
    decreases s.len() - i,
{
    if i >= s.len() {
        s.len() as int
    } else if s[i].spec_slot() > key {
        i
    } else {
        first_after_slot(s, key, i + 1)
    }
}

/// Where the first sample of `s` at or after `i` with index `t` is, if any.
pub open spec fn find_trace(s: Seq<PowerSample>, t: usize, i: int) -> Option<int>
    decreases s.len() - i,
{
    if i >= s.len() || i < 0 {
        None
    } else if s[i].trace_index == t {
        Some(i)
    } else {
        find_trace(s, t, i + 1)
    }
}

/// Where the first sample of `s` at or after `i` at `(frame, slot)` is, if any.
pub open spec fn find_sfn(s: Seq<PowerSample>, frame: u16, slot: u8, i: int) -> Option<int>
    decreases s.len() - i,
{
    if i >= s.len() || i < 0 {
        None
    } else if s[i].frame == frame && s[i].slot == slot {
        Some(i)
    } else {
        find_sfn(s, frame, slot, i + 1)
    }
}

/// Distance between two trace indices.
pub open spec fn dist(a: usize, b: usize) -> int {
    if a >= b {
        a - b
    } else {
        b - a
    }
}

/// The first sample with the trace index closest to `t` (`min_by_key(abs_diff)`).
pub open spec fn is_nearest(s: Seq<PowerSample>, t: usize, k: int) -> bool {
    &&& 0 <= k < s.len()
    &&& forall|i: int| 0 <= i < s.len() ==> dist(#[trigger] s[i].trace_index, t) >= dist(s[k].trace_index, t)
    &&& forall|i: int| 0 <= i < k ==> dist(#[trigger] s[i].trace_index, t) > dist(s[k].trace_index, t)
}

/// `find_trace` finds the first sample with index `t` from `i` on.
pub proof fn lemma_find_trace(s: Seq<PowerSample>, t: usize, i: int)
    requires
        0 <= i <= s.len(),
    ensures
        match find_trace(s, t, i) {
            Some(k) => i <= k < s.len() && s[k].trace_index == t && forall|j: int|
                i <= j < k ==> #[trigger] s[j].trace_index != t,
            None => forall|j: int| i <= j < s.len() ==> #[trigger] s[j].trace_index != t,
        },
    decreases s.len() - i,
{
    if i < s.len() {
        lemma_find_trace(s, t, i + 1);
    }
}

/// `find_sfn` finds the first sample at `(frame, slot)` from `i` on.
pub proof fn lemma_find_sfn(s: Seq<PowerSample>, frame: u16, slot: u8, i: int)
    requires
        0 <= i <= s.len(),
    ensures
        match find_sfn(s, frame, slot, i) {
            Some(k) => i <= k < s.len() && s[k].frame == frame && s[k].slot == slot && forall|j: int|
                i <= j < k ==> !(#[trigger] s[j].frame == frame && s[j].slot == slot),
            None => forall|j: int| i <= j < s.len() ==> !(#[trigger] s[j].frame == frame && s[j].slot == slot),
        },
    decreases s.len() - i,
{
    if i < s.len() {
        lemma_find_sfn(s, frame, slot, i + 1);
    }
}

/// Sample `k` is the first of the first `n` samples nearest to `t` by trace index.
pub open spec fn is_nearest_in(s: Seq<PowerSample>, t: usize, n: int, k: int) -> bool {
    &&& 0 <= k < n
    &&& forall|i: int| 0 <= i < n ==> dist(#[trigger] s[i].trace_index, t) >= dist(s[k].trace_index, t)
    &&& forall|i: int| 0 <= i < k ==> dist(#[trigger] s[i].trace_index, t) > dist(s[k].trace_index, t)
}

/// Among the first `n` samples, one is nearest to `t` by trace index.
pub proof fn lemma_nearest_in_prefix(s: Seq<PowerSample>, t: usize, n: int)
    requires
        1 <= n <= s.len(),
    ensures
        exists|k: int| #[trigger] is_nearest_in(s, t, n, k),
    decreases n,
{
    if n == 1 {
        assert(is_nearest_in(s, t, 1, 0));
    } else {
        lemma_nearest_in_prefix(s, t, n - 1);
        let k = choose|k: int| #[trigger] is_nearest_in(s, t, n - 1, k);
        if dist(s[n - 1].trace_index, t) < dist(s[k].trace_index, t) {
            assert(is_nearest_in(s, t, n, n - 1));
        } else {
            assert(is_nearest_in(s, t, n, k));
        }
    }
}

/// When there are samples, a focused PHY trace gets the HFN of one of them: of its own
/// sample (the first with its trace index); else of the first sample at the same frame and
/// slot; else of the first sample nearest to it by trace index. The HFN of the latest
/// event is used only when there is no sample.
pub proof fn lemma_hfn_for_comes_from_a_sample(
    s: Seq<PowerSample>,
    tracker: HfnTracker,
    t: usize,
    frame: u16,
    slot: u8,
)
    requires
        s.len() > 0,
    ensures
        exists|k: int| 0 <= k < s.len() && spec_hfn_for(s, tracker, t, frame, slot) == #[trigger] s[k].hfn,
        forall|k: int|
            0 <= k < s.len() && s[k].trace_index == t && (forall|j: int| 0 <= j < k ==> s[j].trace_index != t)
                ==> spec_hfn_for(s, tracker, t, frame, slot) == #[trigger] s[k].hfn,
        forall|k: int|
            0 <= k < s.len() && (forall|j: int| 0 <= j < s.len() ==> s[j].trace_index != t)
                && s[k].frame == frame && s[k].slot == slot && (forall|j: int|
                0 <= j < k ==> !(s[j].frame == frame && s[j].slot == slot))
                ==> spec_hfn_for(s, tracker, t, frame, slot) == #[trigger] s[k].hfn,
        (forall|j: int| 0 <= j < s.len() ==> s[j].trace_index != t && !(s[j].frame == frame && s[j].slot == slot))
            ==> exists|k: int|
            #[trigger] is_nearest_in(s, t, s.len() as int, k) && spec_hfn_for(s, tracker, t, frame, slot)
                == s[k].hfn,
{
    lemma_find_trace(s, t, 0);
    lemma_find_sfn(s, frame, slot, 0);
    lemma_nearest_in_prefix(s, t, s.len() as int);
    let k0 = choose|k: int| #[trigger] is_nearest_in(s, t, s.len() as int, k);
    assert(is_nearest(s, t, k0));
    let kn = choose|k: int| is_nearest(s, t, k);
    assert(is_nearest_in(s, t, s.len() as int, kn));
    match find_trace(s, t, 0) {
        Some(k) => {
            assert(spec_hfn_for(s, tracker, t, frame, slot) == s[k].hfn);
        },
        None => match find_sfn(s, frame, slot, 0) {
            Some(k) => {
                assert(spec_hfn_for(s, tracker, t, frame, slot) == s[k].hfn);
            },
            None => {
                assert(spec_hfn_for(s, tracker, t, frame, slot) == s[kn].hfn);
            },
        },
    }
}

/// The HFN given to a focused PHY event at `(frame, slot)`: that of its own sample, else
/// that of the first sample at the same frame and slot, else that of the sample nearest
/// by trace index, else the HFN of the latest event.
pub open spec fn spec_hfn_for(s: Seq<PowerSample>, tracker: HfnTracker, t: usize, frame: u16, slot: u8) -> u32 {
    match find_trace(s, t, 0) {
        Some(k) => s[k].hfn,
        None => match find_sfn(s, frame, slot, 0) {
            Some(k) => s[k].hfn,
            None => if s.len() > 0 {
                s[choose|k: int| is_nearest(s, t, k)].hfn
            } else {
                tracker.end_limit.0
            },
        },
    }
}

/// The power panel.
pub struct PowerPanel {
    /// Samples, in slot order
    pub samples: Vec<PowerSample>,
    /// First slot of the window
    pub start_slot: u64,
    /// Width of the window in frames
    pub window_frames: u16,
    /// PUSCH samples are shown
    pub show_pusch: bool,
    /// PUCCH samples are shown
    pub show_pucch: bool,
    /// Index of the focused trace
    pub focused_trace_index: Option<usize>,
    /// HFN tracking
    pub tracker: HfnTracker,
}

/// Width of a window of `frames` frames, in slots (at least one frame).
pub open spec fn window_slots(frames: u16) -> int {
    (if frames > 0 { frames as int } else { 1 }) * 20
}

impl PowerPanel {
    /// The samples are in slot order.
    pub open spec fn spec_wf(self) -> bool {
        samples_sorted(self.samples@)
    }

    /// An empty panel on a window of the default width, both channels shown.
    pub fn new() -> (r: Self)
        ensures
            r.spec_wf(),
            r.samples@.len() == 0,
            r.start_slot == 0,
            r.window_frames == DEFAULT_WINDOW_FRAMES,
            r.show_pusch,
            r.show_pucch,
            r.focused_trace_index is None,
            r.tracker == fresh_tracker(),
    {
        PowerPanel {
            samples: Vec::new(),
            start_slot: 0,
            window_frames: DEFAULT_WINDOW_FRAMES,
            show_pusch: true,
            show_pucch: true,
            focused_trace_index: None,
            tracker: HfnTracker { has_first_event: false, end_limit: (0, 0, 0) },
        }
    }

    /// Width of the window in slots.
    pub fn window_total_slots(&self) -> (r: u64)
        ensures
            r == window_slots(self.window_frames),
    {
        let frames: u64 = if self.window_frames > 0 { self.window_frames as u64 } else { 1 };
        frames * SLOTS_PER_FRAME
    }

    /// Centres the window on slot `slot` (not before slot 0).
    pub fn center_on(&mut self, slot: u64)
        ensures
            final(self).start_slot == if slot >= window_slots(old(self).window_frames) / 2 {
                slot - window_slots(old(self).window_frames) / 2
            } else {
                0
            },
            final(self).samples == old(self).samples,
            final(self).window_frames == old(self).window_frames,
            final(self).show_pusch == old(self).show_pusch,
            final(self).show_pucch == old(self).show_pucch,
            final(self).focused_trace_index == old(self).focused_trace_index,
            final(self).tracker == old(self).tracker,
    {
        self.start_slot = slot.saturating_sub(self.window_total_slots() / 2);
    }

    /// Moves the window by `delta` slots (not before slot 0).
    pub fn shift_slots(&mut self, delta: i64)
        requires
            old(self).start_slot + delta <= i64::MAX,
        ensures
            final(self).start_slot == if old(self).start_slot + delta < 0 {
                0
            } else {
                old(self).start_slot + delta
            },
            final(self).samples == old(self).samples,
            final(self).window_frames == old(self).window_frames,
            final(self).show_pusch == old(self).show_pusch,
            final(self).show_pucch == old(self).show_pucch,
            final(self).focused_trace_index == old(self).focused_trace_index,
            final(self).tracker == old(self).tracker,
    {
        let moved = self.start_slot as i128 + delta as i128;
        self.start_slot = if moved < 0 { 0 } else { moved as u64 };
    }

    /// Colour of a sample's channel: that of the PUCCH resource for a PUCCH, else that
    /// of the PUSCH resource.
    pub fn channel_color(channel: PHYChannelType) -> (r: Rgb)
        ensures
            r == if channel == PHYChannelType::PUCCH {
                Rgb { r: 255, g: 220, b: 0 }
            } else {
                Rgb { r: 0, g: 180, b: 180 }
            },
    {
        match channel {
            PHYChannelType::PUCCH => ResourceType::Pucch.color(),
            _ => ResourceType::Pusch.color(),
        }
    }

    /// A sample passes the channel filter.
    pub fn is_shown(&self, sample: &PowerSample) -> (r: bool)
        ensures
            r == match sample.channel_type {
                PHYChannelType::PUSCH => self.show_pusch,
                PHYChannelType::PUCCH => self.show_pucch,
                _ => false,
            },
    {
        match sample.channel_type {
            PHYChannelType::PUSCH => self.show_pusch,
            PHYChannelType::PUCCH => self.show_pucch,
            _ => false,
        }
    }

    /// Frames of the first and last slot of the window (within the hyper frame).
    pub fn frame_range(&self) -> (r: (u64, u64))
        requires
            self.start_slot + window_slots(self.window_frames) <= u64::MAX,
        ensures
            r.0 == self.start_slot / 20 % 1024,
            r.1 == (self.start_slot + window_slots(self.window_frames) - 1) / 20 % 1024,
    {
        let sf = self.start_slot / SLOTS_PER_FRAME % FRAMES_PER_HFN;
        let ef = (self.start_slot + self.window_total_slots() - 1) / SLOTS_PER_FRAME % FRAMES_PER_HFN;
        (sf, ef)
    }

    /// The HFN given to a focused PHY event (see `spec_hfn_for`).
    pub fn hfn_for(&self, trace_index: usize, frame: u16, slot: u8) -> (r: u32)
        ensures
            r == spec_hfn_for(self.samples@, self.tracker, trace_index, frame, slot),
    {
        let s = &self.samples;
        let n = s.len();
        let mut k: usize = 0;
        while k < n
            invariant
                n == s@.len(),
                s@ == self.samples@,
                k <= n,
                find_trace(s@, trace_index, 0) == find_trace(s@, trace_index, k as int),
            decreases n - k,
        {
            if s[k].trace_index == trace_index {
                assert(find_trace(s@, trace_index, k as int) == Some(k as int));
                return s[k].hfn;
            }
            k = k + 1;
        }
        let mut k: usize = 0;
        while k < n
            invariant
                n == s@.len(),
                s@ == self.samples@,
                k <= n,
                find_trace(s@, trace_index, 0) is None,
                find_sfn(s@, frame, slot, 0) == find_sfn(s@, frame, slot, k as int),
            decreases n - k,
        {
            if s[k].frame == frame && s[k].slot == slot {
                assert(find_sfn(s@, frame, slot, k as int) == Some(k as int));
                return s[k].hfn;
            }
            k = k + 1;
        }
        match self.nearest(trace_index) {
            Some(k) => s[k].hfn,
            None => self.tracker.end_limit.0,
        }
    }

    /// Position of the first sample nearest to trace `t` by trace index, if any.
    pub fn nearest(&self, t: usize) -> (r: Option<usize>)
        ensures
            r is None <==> self.samples@.len() == 0,
            r matches Some(k) ==> is_nearest(self.samples@, t, k as int) && k == choose|k: int|
                is_nearest(self.samples@, t, k),
    {
        let s = &self.samples;
        let n = s.len();
        if n == 0 {
            return None;
        }
        let mut best: usize = 0;
        let mut best_d: usize = if s[0].trace_index >= t { s[0].trace_index - t } else { t - s[0].trace_index };
        let mut k: usize = 1;
        while k < n
            invariant
                n == s@.len(),
                1 <= k <= n,
                best < k,
                best_d == dist(s@[best as int].trace_index, t),
                forall|i: int| 0 <= i < k ==> dist(#[trigger] s@[i].trace_index, t) >= best_d,
                forall|i: int| 0 <= i < best ==> dist(#[trigger] s@[i].trace_index, t) > best_d,
            decreases n - k,
        {
            let d = if s[k].trace_index >= t { s[k].trace_index - t } else { t - s[k].trace_index };
            if d < best_d {
                best = k;
                best_d = d;
            }
            k = k + 1;
        }
        proof {
            assert(is_nearest(s@, t, best as int));
            lemma_nearest_unique(s@, t, best as int);
        }
        Some(best)
    }
}

/// The first nearest sample is the only one.
proof fn lemma_nearest_unique(s: Seq<PowerSample>, t: usize, k: int)
    requires
        is_nearest(s, t, k),
    ensures
        (choose|j: int| is_nearest(s, t, j)) == k,
{
    let j = choose|j: int| is_nearest(s, t, j);
    assert(is_nearest(s, t, j));
    if j < k {
        assert(dist(s[j].trace_index, t) > dist(s[k].trace_index, t));
    } else if j > k {
        assert(dist(s[k].trace_index, t) > dist(s[j].trace_index, t));
    }
}

/// Where a sample at slot `key` goes: after the samples at or before it.
proof fn lemma_first_after_slot(s: Seq<PowerSample>, key: int, i: int)
    requires
        0 <= i <= s.len(),
        forall|k: int| 0 <= k < i ==> (#[trigger] s[k]).spec_slot() <= key,
    ensures
        i <= first_after_slot(s, key, i) <= s.len(),
        forall|k: int| 0 <= k < first_after_slot(s, key, i) ==> (#[trigger] s[k]).spec_slot() <= key,
        first_after_slot(s, key, i) < s.len() ==> s[first_after_slot(s, key, i)].spec_slot() > key,
    decreases s.len() - i,
{
    if i < s.len() && s[i].spec_slot() <= key {
        lemma_first_after_slot(s, key, i + 1);
    }
}

/// Inserting a sample where `first_after_slot` says keeps the samples in slot order.
pub proof fn lemma_insert_sample_sorted(s: Seq<PowerSample>, x: PowerSample)
    requires
        samples_sorted(s),
    ensures
        samples_sorted(s.insert(first_after_slot(s, x.spec_slot(), 0), x)),
{
    lemma_first_after_slot(s, x.spec_slot(), 0);
    let p = first_after_slot(s, x.spec_slot(), 0);
    let t = s.insert(p, x);
    assert forall|i: int, j: int| 0 <= i < j < t.len() implies (#[trigger] t[i]).spec_slot() <= (#[trigger] t[j]).spec_slot() by {
        if j < p {
            assert(t[i] == s[i] && t[j] == s[j]);
        } else if j == p {
            assert(t[i] == s[i]);
        } else if i < p {
            assert(t[i] == s[i] && t[j] == s[j - 1]);
            assert(s[p].spec_slot() > x.spec_slot());
            assert(s[p].spec_slot() <= s[j - 1].spec_slot() || p == j - 1);
        } else if i == p {
            assert(t[j] == s[j - 1]);
            assert(s[p].spec_slot() <= s[j - 1].spec_slot() || p == j - 1);
        } else {
            assert(t[i] == s[i - 1] && t[j] == s[j - 1]);
        }
    }
}

/// The samples of the window `[start, end)` that pass the channel filter, by position.
pub open spec fn visible_positions(s: Seq<PowerSample>, start: int, end: int, pusch: bool, pucch: bool) -> Seq<int>
    decreases s.len(),
{
    if s.len() == 0 {
        Seq::empty()
    } else {
        let prev = visible_positions(s.drop_last(), start, end, pusch, pucch);
        let x = s.last();
        let shown = match x.channel_type {
            PHYChannelType::PUSCH => pusch,
            PHYChannelType::PUCCH => pucch,
            _ => false,
        };
        if start <= x.spec_slot() < end && shown {
            prev.push(s.len() - 1)
        } else {
            prev
        }
    }
}

/// The samples shown are exactly those in the window whose channel is shown (PUSCH or
/// PUCCH), each once, in sample order.
pub proof fn lemma_visible_positions(s: Seq<PowerSample>, start: int, end: int, pusch: bool, pucch: bool)
    ensures
        forall|k: int|
            #![trigger visible_positions(s, start, end, pusch, pucch).contains(k)]
            visible_positions(s, start, end, pusch, pucch).contains(k) <==> (0 <= k < s.len() && start
                <= s[k].spec_slot() < end && match s[k].channel_type {
                PHYChannelType::PUSCH => pusch,
                PHYChannelType::PUCCH => pucch,
                _ => false,
            }),
        forall|i: int, j: int|
            0 <= i < j < visible_positions(s, start, end, pusch, pucch).len() ==> #[trigger] visible_positions(
                s,
                start,
                end,
                pusch,
                pucch,
            )[i] < #[trigger] visible_positions(s, start, end, pusch, pucch)[j],
    decreases s.len(),
{
    if s.len() > 0 {
        let d = s.drop_last();
        lemma_visible_positions(d, start, end, pusch, pucch);
        let prev = visible_positions(d, start, end, pusch, pucch);
        let cur = visible_positions(s, start, end, pusch, pucch);
        assert forall|k: int| prev.contains(k) implies 0 <= k < d.len() by {}
        assert forall|k: int| #![trigger cur.contains(k)]
            cur.contains(k) <==> (0 <= k < s.len() && start <= s[k].spec_slot() < end && match s[k].channel_type {
                PHYChannelType::PUSCH => pusch,
                PHYChannelType::PUCCH => pucch,
                _ => false,
            }) by {
            if 0 <= k < d.len() {
                assert(s[k] == d[k]);
            }
            if cur.contains(k) && !prev.contains(k) {
                let i = choose|i: int| 0 <= i < cur.len() && cur[i] == k;
                assert(i == prev.len());
            }
            if prev.contains(k) {
                let i = choose|i: int| 0 <= i < prev.len() && prev[i] == k;
                assert(cur[i] == k);
            }
            if k == s.len() - 1 && cur.len() > prev.len() {
                assert(cur[prev.len() as int] == k);
            }
        }
        assert forall|i: int, j: int| 0 <= i < j < cur.len() implies #[trigger] cur[i] < #[trigger] cur[j] by {
            if j == prev.len() {
                assert(prev.contains(prev[i]));
            }
        }
    }
}

impl PowerPanel {
    /// Records the sample of a trace, if it gives one: it gets its HFN and goes after the
    /// samples at or before its slot.
    pub fn add_event(&mut self, event: &Trace, index: usize)
        requires
            old(self).spec_wf(),
        ensures
            final(self).spec_wf(),
            final(self).start_slot == old(self).start_slot,
            final(self).window_frames == old(self).window_frames,
            final(self).show_pusch == old(self).show_pusch,
            final(self).show_pucch == old(self).show_pucch,
            final(self).focused_trace_index == old(self).focused_trace_index,
            match sample_of(*event, index) {
                Some(x) => {
                    let step = hfn_step(old(self).tracker, x.frame, x.slot);
                    let y = PowerSample { hfn: step.0, ..x };
                    &&& final(self).samples@ == old(self).samples@.insert(
                        first_after_slot(old(self).samples@, y.spec_slot(), 0),
                        y,
                    )
                    &&& final(self).tracker == step.1
                },
                None => {
                    &&& final(self).samples == old(self).samples
                    &&& final(self).tracker == old(self).tracker
                },
            },
    {
        let mut sample = match PowerSample::from_trace(event, index) {
            Some(x) => x,
            None => return,
        };
        sample.hfn = compute_hfn(&mut self.tracker, sample.frame, sample.slot);
        let key = sample.global_slot();
        let n = self.samples.len();
        let mut pos: usize = 0;
        while pos < n && self.samples[pos].global_slot() <= key
            invariant
                n == self.samples@.len(),
                pos <= n,
                first_after_slot(self.samples@, key as int, 0) == first_after_slot(self.samples@, key as int, pos as int),
            decreases n - pos,
        {
            pos = pos + 1;
        }
        proof {
            lemma_insert_sample_sorted(self.samples@, sample);
        }
        self.samples.insert(pos, sample);
    }

    /// Positions of the samples shown: in the window and passing the channel filter.
    pub fn visible(&self) -> (r: Vec<usize>)
        requires
            self.start_slot + window_slots(self.window_frames) <= u64::MAX,
        ensures
            r@.map_values(|p: usize| p as int) == visible_positions(
                self.samples@,
                self.start_slot as int,
                self.start_slot + window_slots(self.window_frames),
                self.show_pusch,
                self.show_pucch,
            ),
    {
        let start = self.start_slot;
        let end = self.start_slot + self.window_total_slots();
        let ghost s = self.samples@;
        let mut out: Vec<usize> = Vec::new();
        let n = self.samples.len();
        let mut k: usize = 0;
        while k < n
            invariant
                n == s.len(),
                s == self.samples@,
                start == self.start_slot,
                end == self.start_slot + window_slots(self.window_frames),
                k <= n,
                out@.map_values(|p: usize| p as int) == visible_positions(
                    s.take(k as int),
                    start as int,
                    end as int,
                    self.show_pusch,
                    self.show_pucch,
                ),
            decreases n - k,
        {
            proof {
                assert(s.take(k + 1).drop_last() =~= s.take(k as int));
                assert(s.take(k + 1).last() == s[k as int]);
            }
            let g = self.samples[k].global_slot();
            if start <= g && g < end && self.is_shown(&self.samples[k]) {
                let ghost before = out@.map_values(|p: usize| p as int);
                out.push(k);
                assert(out@.map_values(|p: usize| p as int) =~= before.push(k as int));
            }
            k = k + 1;
        }
        assert(s.take(n as int) =~= s);
        out
    }

    /// The frame boundaries inside the window: the multiples of 20 from the first at or
    /// after its start, while before its end.
    pub fn frame_boundaries(&self) -> (r: Vec<u64>)
        requires
            self.start_slot + window_slots(self.window_frames) + 20 <= u64::MAX,
        ensures
            forall|k: int|
                0 <= k < r@.len() ==> r@[k] == ((self.start_slot + 19) / 20) * 20 + 20 * k,
            forall|k: int| 0 <= k < r@.len() ==> r@[k] < self.start_slot + window_slots(self.window_frames),
            ((self.start_slot + 19) / 20) * 20 + 20 * r@.len() >= self.start_slot + window_slots(
                self.window_frames,
            ),
    {
        let end = self.start_slot + self.window_total_slots();
        let first = (self.start_slot + SLOTS_PER_FRAME - 1) / SLOTS_PER_FRAME * SLOTS_PER_FRAME;
        let mut out: Vec<u64> = Vec::new();
        let mut g = first;
        while g < end
            invariant
                end == self.start_slot + window_slots(self.window_frames),
                end + 20 <= u64::MAX,
                first == ((self.start_slot + 19) / 20) * 20,
                g == first + 20 * out@.len(),
                forall|k: int| 0 <= k < out@.len() ==> out@[k] == first + 20 * k,
                forall|k: int| 0 <= k < out@.len() ==> out@[k] < end,
            decreases end + 20 - g,
        {
            out.push(g);
            g = g + SLOTS_PER_FRAME;
        }
        out
    }
}

impl EventSubscriber for PowerPanel {
    open spec fn wf(&self) -> bool {
        self.spec_wf()
    }

    /// Records the sample of the trace (see `add_event`).
    fn on_event_added(&mut self, event: &Trace, index: usize, context: &EventContext)
    {
        self.add_event(event, index);
    }

    /// Centres the window on the focused event: on its own slot for a PHY trace (with the
    /// HFN of `spec_hfn_for`), else on the slot of the sample nearest by trace index.
    fn on_event_focused(&mut self, event: &Trace, index: usize, context: &EventContext)
    {
        self.focused_trace_index = Some(index);
        let target = match &event.additional_infos {
            AdditionalInfos::PHYInfos(phy) => Some(
                global_slot(self.hfn_for(index, phy.frame, phy.slot), phy.frame, phy.slot),
            ),
            _ => match self.nearest(index) {
                Some(k) => Some(self.samples[k].global_slot()),
                None => None,
            },
        };
        match target {
            Some(slot) => self.center_on(slot),
            None => {},
        }
    }

    /// Forgets the samples and goes back to slot 0.
    fn on_events_cleared(&mut self)
    {
        self.samples = Vec::new();
        self.start_slot = 0;
        self.focused_trace_index = None;
        self.tracker = HfnTracker { has_first_event: false, end_limit: (0, 0, 0) };
    }

    /// The graphs do not depend on the metadata.
    fn on_metadata_changed(&mut self, metadata: &FileMetadata)
    {
    }

    open spec fn spec_name(&self) -> &'static str {
        "Power"
    }

    fn name(&self) -> (r: &'static str) {
        "Power"
    }

    open spec fn spec_added(&self, after: Self, event: Trace, index: usize, context: EventContext) -> bool {
        &&& (after.start_slot == self.start_slot)
        &&& (after.focused_trace_index == self.focused_trace_index)
        &&& (match sample_of(event, index) {
            Some(x) => {
                let step = hfn_step(self.tracker, x.frame, x.slot);
                let y = PowerSample { hfn: step.0, ..x };
                &&& after.samples@ == self.samples@.insert(
                    first_after_slot(self.samples@, y.spec_slot(), 0),
                    y,
                )
                &&& after.tracker == step.1
            },
            None => {
                &&& after.samples == self.samples
                &&& after.tracker == self.tracker
            },
        })
    }

    open spec fn spec_focused(&self, after: Self, event: Trace, index: usize, context: EventContext) -> bool {
        &&& (after.focused_trace_index == Some(index))
        &&& (after.samples == self.samples)
        &&& (after.tracker == self.tracker)
        &&& (({
            let half = window_slots(self.window_frames) / 2;
            let target: Option<int> = match event.additional_infos {
                AdditionalInfos::PHYInfos(phy) => Some(
                    spec_global_slot(
                        spec_hfn_for(self.samples@, self.tracker, index, phy.frame, phy.slot),
                        phy.frame,
                        phy.slot,
                    ),
                ),
                _ => if self.samples@.len() > 0 {
                    Some(self.samples@[choose|k: int| is_nearest(self.samples@, index, k)].spec_slot())
                } else {
                    None
                },
            };
            match target {
                Some(t) => after.start_slot == if t >= half { t - half } else { 0 },
                None => after.start_slot == self.start_slot,
            }
        }))
    }

    open spec fn spec_cleared(&self, after: Self) -> bool {
        &&& (after.samples@.len() == 0)
        &&& (after.start_slot == 0)
        &&& (after.focused_trace_index is None)
        &&& (after.tracker == fresh_tracker())
        &&& (after.window_frames == self.window_frames)
        &&& (after.show_pusch == self.show_pusch)
        &&& (after.show_pucch == self.show_pucch)
    }

    open spec fn spec_metadata_changed(&self, after: Self, metadata: FileMetadata) -> bool {
        &&& (after == *self)
    }
}

} // verus!
