//! Resource grid of the 5G NR physical layer: PRBs x symbols, per slot, filled from the
//! PHY traces and from the SSB description of the capture.

use vstd::prelude::*;
use crate::theme::Rgb;
use crate::model::{AdditionalInfos, FileMetadata, PHYChannelType, PHYInfos, Trace};
use crate::event_bus::{EventContext, EventSubscriber};
use crate::text::{
    chars_of, find_char_from, find_chars, first_char_or_len, occurs_at, parse_usize, spec_find,
    spec_parse_usize, spec_split_once, split_once_char,
};

verus! {

/// Number of symbols per slot.
pub const SYMBOLS_PER_SLOT: usize = 14;

/// Default number of PRBs (rows).
pub const DEFAULT_NUM_PRBS: usize = 51;

/// Default number of frames in the window.
pub const DEFAULT_WINDOW_FRAMES: u32 = 10;

/// Default number of slots per subframe.
pub const DEFAULT_SLOTS_PER_SUBFRAME: u8 = 2;

/// What occupies a resource element.
#[derive(Clone, Copy, PartialEq, Eq, Structural, Debug)]
pub enum ResourceType {
    /// Empty
    Empty,
    /// Downlink control channel
    Pdcch,
    /// Uplink control channel
    Pucch,
    /// Downlink data
    Pdsch,
    /// Uplink data
    Pusch,
    /// Random access
    Prach,
    /// Synchronization signal block
    Ssb,
    /// Demodulation reference signal
    Dmrs,
    /// Guard period
    Guard,
}

/// Priority of a resource type when a slot is shown as one cell per PRB.
pub open spec fn spec_priority(t: ResourceType) -> u8 {
    match t {
        ResourceType::Empty => 0,
        ResourceType::Dmrs => 1,
        ResourceType::Ssb => 2,
        ResourceType::Prach => 3,
        ResourceType::Pdcch => 4,
        ResourceType::Pucch => 5,
        ResourceType::Pusch => 6,
        ResourceType::Pdsch => 7,
        ResourceType::Guard => 0,
    }
}

impl ResourceType {
    /// Color of the resource type.
    pub fn color(&self) -> (r: Rgb)
        ensures
            r == match *self {
                ResourceType::Empty => Rgb { r: 255, g: 255, b: 255 },
                ResourceType::Pdcch => Rgb { r: 180, g: 180, b: 180 },
                ResourceType::Pdsch => Rgb { r: 0, g: 100, b: 200 },
                ResourceType::Pusch => Rgb { r: 0, g: 180, b: 180 },
                ResourceType::Pucch => Rgb { r: 255, g: 220, b: 0 },
                ResourceType::Prach => Rgb { r: 255, g: 100, b: 0 },
                ResourceType::Ssb => Rgb { r: 200, g: 0, b: 200 },
                ResourceType::Dmrs => Rgb { r: 200, g: 0, b: 0 },
                ResourceType::Guard => Rgb { r: 100, g: 100, b: 100 },
            },
    {
        match self {
            ResourceType::Empty => Rgb { r: 255, g: 255, b: 255 },
            ResourceType::Pdcch => Rgb { r: 180, g: 180, b: 180 },
            ResourceType::Pdsch => Rgb { r: 0, g: 100, b: 200 },
            ResourceType::Pusch => Rgb { r: 0, g: 180, b: 180 },
            ResourceType::Pucch => Rgb { r: 255, g: 220, b: 0 },
            ResourceType::Prach => Rgb { r: 255, g: 100, b: 0 },
            ResourceType::Ssb => Rgb { r: 200, g: 0, b: 200 },
            ResourceType::Dmrs => Rgb { r: 200, g: 0, b: 0 },
            ResourceType::Guard => Rgb { r: 100, g: 100, b: 100 },
        }
    }

    /// Priority for the slot view (higher is more important).
    pub fn priority(&self) -> (r: u8)
        ensures
            r == spec_priority(*self),
    {
        match self {
            ResourceType::Empty => 0,
            ResourceType::Dmrs => 1,
            ResourceType::Ssb => 2,
            ResourceType::Prach => 3,
            ResourceType::Pdcch => 4,
            ResourceType::Pucch => 5,
            ResourceType::Pusch => 6,
            ResourceType::Pdsch => 7,
            ResourceType::Guard => 0,
        }
    }
}

/// Granularity of the grid display.
#[derive(Clone, Copy, PartialEq, Eq, Structural, Debug)]
pub enum ViewMode {
    /// One cell per PRB and symbol
    Symbol,
    /// One cell per PRB and slot
    Slot,
}

/// The grid of one slot: PRBs x symbols.
#[derive(Debug)]
pub struct SlotGrid {
    /// Slot number within the frame
    pub slot_number: u8,
    /// Frame number
    pub frame_number: u32,
    /// `grid[prb][symbol]`
    pub grid: Vec<Vec<ResourceType>>,
    /// Timestamp of the slot, when known
    pub timestamp: Option<i64>,
    /// Index of the trace that filled each cell
    pub event_indices: Vec<Vec<Option<usize>>>,
    /// SSB id of each SSB cell
    pub ssb_ids: Vec<Vec<Option<usize>>>,
}

/// A row of `n` copies of `x`.
fn row_of<T: Copy>(x: T, n: usize) -> (r: Vec<T>)
    ensures
        r@.len() == n,
        forall|i: int| 0 <= i < n ==> r@[i] == x,
{
    let mut v: Vec<T> = Vec::new();
    let mut i: usize = 0;
    while i < n
        invariant
            i <= n,
            v@.len() == i,
            forall|k: int| 0 <= k < i ==> v@[k] == x,
        decreases n - i,
    {
        v.push(x);
        i = i + 1;
    }
    v
}

/// `n` rows of `SYMBOLS_PER_SLOT` copies of `x`.
fn rows_of<T: Copy>(x: T, n: usize) -> (r: Vec<Vec<T>>)
    ensures
        r@.len() == n,
        forall|p: int| 0 <= p < n ==> (#[trigger] r@[p])@.len() == SYMBOLS_PER_SLOT,
        forall|p: int, s: int| 0 <= p < n && 0 <= s < SYMBOLS_PER_SLOT ==> #[trigger] r@[p]@[s] == x,
{
    let mut v: Vec<Vec<T>> = Vec::new();
    let mut i: usize = 0;
    while i < n
        invariant
            i <= n,
            v@.len() == i,
            forall|p: int| 0 <= p < i ==> (#[trigger] v@[p])@.len() == SYMBOLS_PER_SLOT,
            forall|p: int, s: int| 0 <= p < i && 0 <= s < SYMBOLS_PER_SLOT ==> #[trigger] v@[p]@[s] == x,
        decreases n - i,
    {
        v.push(row_of(x, SYMBOLS_PER_SLOT));
        i = i + 1;
    }
    v
}

impl SlotGrid {
    /// Number of PRB rows.
    pub open spec fn rows(self) -> nat {
        self.grid@.len()
    }

    /// The three tables have one row per PRB and one column per symbol.
    pub open spec fn wf(self) -> bool {
        &&& self.event_indices@.len() == self.grid@.len()
        &&& self.ssb_ids@.len() == self.grid@.len()
        &&& forall|p: int|
            0 <= p < self.grid@.len() ==> {
                &&& (#[trigger] self.grid@[p])@.len() == SYMBOLS_PER_SLOT
                &&& self.event_indices@[p]@.len() == SYMBOLS_PER_SLOT
                &&& self.ssb_ids@[p]@.len() == SYMBOLS_PER_SLOT
            }
    }

    /// Resource in a cell.
    pub open spec fn cell(self, p: int, s: int) -> ResourceType {
        self.grid@[p]@[s]
    }

    /// Trace index of a cell.
    pub open spec fn index_at(self, p: int, s: int) -> Option<usize> {
        self.event_indices@[p]@[s]
    }

    /// SSB id of a cell.
    pub open spec fn ssb_at(self, p: int, s: int) -> Option<usize> {
        self.ssb_ids@[p]@[s]
    }

    /// Resource, trace index and SSB id of a cell.
    pub open spec fn entry(self, p: int, s: int) -> (ResourceType, Option<usize>, Option<usize>) {
        (self.cell(p, s), self.index_at(p, s), self.ssb_at(p, s))
    }

    /// Every cell of `self` is that of `other`, apart from the cells where `changed` holds.
    pub open spec fn same_cells_except(
        self,
        other: Self,
        changed: spec_fn(int, int) -> bool,
    ) -> bool {
        forall|p: int, s: int|
            0 <= p < self.rows() && 0 <= s < SYMBOLS_PER_SLOT && !changed(p, s) ==> {
                &&& #[trigger] self.cell(p, s) == other.cell(p, s)
                &&& self.index_at(p, s) == other.index_at(p, s)
                &&& self.ssb_at(p, s) == other.ssb_at(p, s)
            }
    }

    /// An empty grid of `num_prbs` PRBs.
    pub fn new(num_prbs: usize, slot_number: u8, frame_number: u32) -> (r: Self)
        ensures
            r.wf(),
            r.rows() == num_prbs,
            r.slot_number == slot_number,
            r.frame_number == frame_number,
            r.timestamp is None,
            forall|p: int, s: int|
                0 <= p < num_prbs && 0 <= s < SYMBOLS_PER_SLOT ==> {
                    &&& #[trigger] r.cell(p, s) == ResourceType::Empty
                    &&& r.index_at(p, s) is None
                    &&& r.ssb_at(p, s) is None
                },
    {
        SlotGrid {
            slot_number,
            frame_number,
            grid: rows_of(ResourceType::Empty, num_prbs),
            timestamp: None,
            event_indices: rows_of(None, num_prbs),
            ssb_ids: rows_of(None, num_prbs),
        }
    }

    /// Sets one cell (when in the grid); a non-SSB resource clears the SSB id.
    pub fn set(
        &mut self,
        prb: usize,
        symbol: usize,
        resource_type: ResourceType,
        event_idx: Option<usize>,
    )
        requires
            old(self).wf(),
        ensures
            final(self).wf(),
            final(self).rows() == old(self).rows(),
            final(self).slot_number == old(self).slot_number,
            final(self).frame_number == old(self).frame_number,
            final(self).timestamp == old(self).timestamp,
            final(self).same_cells_except(*old(self), |p: int, s: int| p == prb && s == symbol),
            prb < old(self).rows() && symbol < SYMBOLS_PER_SLOT ==> {
                &&& final(self).cell(prb as int, symbol as int) == resource_type
                &&& final(self).index_at(prb as int, symbol as int) == event_idx
                &&& final(self).ssb_at(prb as int, symbol as int) == if resource_type
                    == ResourceType::Ssb {
                    old(self).ssb_at(prb as int, symbol as int)
                } else {
                    None
                }
            },
            !(prb < old(self).rows() && symbol < SYMBOLS_PER_SLOT) ==> final(self).same_cells_except(
                *old(self),
                |p: int, s: int| false,
            ),
    {
        if prb < self.grid.len() && symbol < SYMBOLS_PER_SLOT {
            self.grid[prb][symbol] = resource_type;
            self.event_indices[prb][symbol] = event_idx;
            if resource_type != ResourceType::Ssb {
                self.ssb_ids[prb][symbol] = None;
            }
            assert forall|p: int| 0 <= p < self.grid@.len() implies {
                &&& (#[trigger] self.grid@[p])@.len() == SYMBOLS_PER_SLOT
                &&& self.event_indices@[p]@.len() == SYMBOLS_PER_SLOT
                &&& self.ssb_ids@[p]@.len() == SYMBOLS_PER_SLOT
            } by {
                assert(old(self).grid@[p]@.len() == SYMBOLS_PER_SLOT);
            }
        }
    }

    /// Puts SSB `ssb_id` in one cell (when in the grid).
    pub fn set_ssb(&mut self, prb: usize, symbol: usize, ssb_id: usize)
        requires
            old(self).wf(),
        ensures
            final(self).wf(),
            final(self).rows() == old(self).rows(),
            final(self).slot_number == old(self).slot_number,
            final(self).frame_number == old(self).frame_number,
            final(self).timestamp == old(self).timestamp,
            final(self).same_cells_except(*old(self), |p: int, s: int| p == prb && s == symbol),
            prb < old(self).rows() && symbol < SYMBOLS_PER_SLOT ==> {
                &&& final(self).cell(prb as int, symbol as int) == ResourceType::Ssb
                &&& final(self).index_at(prb as int, symbol as int) is None
                &&& final(self).ssb_at(prb as int, symbol as int) == Some(ssb_id)
            },
            !(prb < old(self).rows() && symbol < SYMBOLS_PER_SLOT) ==> final(self).same_cells_except(
                *old(self),
                |p: int, s: int| false,
            ),
    {
        if prb < self.grid.len() && symbol < SYMBOLS_PER_SLOT {
            self.grid[prb][symbol] = ResourceType::Ssb;
            self.ssb_ids[prb][symbol] = Some(ssb_id);
            self.event_indices[prb][symbol] = None;
            assert forall|p: int| 0 <= p < self.grid@.len() implies {
                &&& (#[trigger] self.grid@[p])@.len() == SYMBOLS_PER_SLOT
                &&& self.event_indices@[p]@.len() == SYMBOLS_PER_SLOT
                &&& self.ssb_ids@[p]@.len() == SYMBOLS_PER_SLOT
            } by {
                assert(old(self).grid@[p]@.len() == SYMBOLS_PER_SLOT);
            }
        }
    }

    /// Fills the rectangle `[prb_start, prb_start + prb_length) x [symbol_start,
    /// symbol_start + symbol_length)`, clipped to the grid; the SSB ids are kept.
    pub fn set_range(
        &mut self,
        prb_start: usize,
        prb_length: usize,
        symbol_start: usize,
        symbol_length: usize,
        resource_type: ResourceType,
        event_idx: Option<usize>,
    )
        requires
            old(self).wf(),
            prb_start + prb_length <= usize::MAX,
            symbol_start + symbol_length <= usize::MAX,
        ensures
            final(self).wf(),
            final(self).rows() == old(self).rows(),
            final(self).slot_number == old(self).slot_number,
            final(self).frame_number == old(self).frame_number,
            final(self).timestamp == old(self).timestamp,
            forall|p: int, s: int|
                0 <= p < old(self).rows() && 0 <= s < SYMBOLS_PER_SLOT ==> {
                    let inside = prb_start <= p < prb_start + prb_length && symbol_start <= s
                        < symbol_start + symbol_length;
                    &&& #[trigger] final(self).cell(p, s) == if inside {
                        resource_type
                    } else {
                        old(self).cell(p, s)
                    }
                    &&& final(self).index_at(p, s) == if inside {
                        event_idx
                    } else {
                        old(self).index_at(p, s)
                    }
                    &&& final(self).ssb_at(p, s) == old(self).ssb_at(p, s)
                },
    {
        let n = self.grid.len();
        let prb_end = if prb_start + prb_length < n {
            prb_start + prb_length
        } else {
            n
        };
        let symbol_end = if symbol_start + symbol_length < SYMBOLS_PER_SLOT {
            symbol_start + symbol_length
        } else {
            SYMBOLS_PER_SLOT
        };
        let ghost g0 = *old(self);
        let mut prb = prb_start;
        while prb < prb_end
            invariant
                self.wf(),
                n == self.rows(),
                n == g0.rows(),
                prb_end <= n,
                symbol_end <= SYMBOLS_PER_SLOT,
                prb_start <= prb,
                prb <= prb_end || prb == prb_start,
                self.slot_number == g0.slot_number,
                self.frame_number == g0.frame_number,
                self.timestamp == g0.timestamp,
                forall|p: int, s: int|
                    0 <= p < n && 0 <= s < SYMBOLS_PER_SLOT ==> {
                        let inside = prb_start <= p < prb && symbol_start <= s < symbol_end;
                        &&& #[trigger] self.cell(p, s) == if inside {
                            resource_type
                        } else {
                            g0.cell(p, s)
                        }
                        &&& self.index_at(p, s) == if inside {
                            event_idx
                        } else {
                            g0.index_at(p, s)
                        }
                        &&& self.ssb_at(p, s) == g0.ssb_at(p, s)
                    },
            decreases prb_end - prb,
        {
            let mut symbol = symbol_start;
            while symbol < symbol_end
                invariant
                    self.wf(),
                    n == self.rows(),
                    prb_start <= prb < prb_end,
                    prb_end <= n,
                    symbol_end <= SYMBOLS_PER_SLOT,
                    symbol_start <= symbol,
                    symbol <= symbol_end || symbol == symbol_start,
                    self.slot_number == g0.slot_number,
                    self.frame_number == g0.frame_number,
                    self.timestamp == g0.timestamp,
                    forall|p: int, s: int|
                        0 <= p < n && 0 <= s < SYMBOLS_PER_SLOT ==> {
                            let inside = (prb_start <= p < prb && symbol_start <= s < symbol_end)
                                || (p == prb && symbol_start <= s < symbol);
                            &&& #[trigger] self.cell(p, s) == if inside {
                                resource_type
                            } else {
                                g0.cell(p, s)
                            }
                            &&& self.index_at(p, s) == if inside {
                                event_idx
                            } else {
                                g0.index_at(p, s)
                            }
                            &&& self.ssb_at(p, s) == g0.ssb_at(p, s)
                        },
                decreases symbol_end - symbol,
            {
                let ghost before = *self;
                self.grid[prb][symbol] = resource_type;
                self.event_indices[prb][symbol] = event_idx;
                proof {
                    assert forall|p: int| 0 <= p < self.grid@.len() implies {
                        &&& (#[trigger] self.grid@[p])@.len() == SYMBOLS_PER_SLOT
                        &&& self.event_indices@[p]@.len() == SYMBOLS_PER_SLOT
                        &&& self.ssb_ids@[p]@.len() == SYMBOLS_PER_SLOT
                    } by {
                        assert(before.grid@[p]@.len() == SYMBOLS_PER_SLOT);
                        assert(before.event_indices@[p]@.len() == SYMBOLS_PER_SLOT);
                        assert(before.ssb_ids@[p]@.len() == SYMBOLS_PER_SLOT);
                    }
                    assert(self.event_indices@.len() == self.grid@.len());
                    assert(self.ssb_ids@.len() == self.grid@.len());
                    assert forall|p: int, s: int| 0 <= p < n && 0 <= s < SYMBOLS_PER_SLOT implies {
                        &&& #[trigger] self.cell(p, s) == if p == prb && s == symbol {
                            resource_type
                        } else {
                            before.cell(p, s)
                        }
                        &&& self.index_at(p, s) == if p == prb && s == symbol {
                            event_idx
                        } else {
                            before.index_at(p, s)
                        }
                        &&& self.ssb_at(p, s) == before.ssb_at(p, s)
                    } by {
                        assert(before.grid@[p]@.len() == SYMBOLS_PER_SLOT);
                        if p == prb {
                        }
                    }
                }
                symbol = symbol + 1;
            }
            prb = prb + 1;
        }
    }

    /// Puts SSB `ssb_id` in every cell of `[prb_start, prb_end) x [symbol_start,
    /// symbol_end)`, as `set_ssb` does for one.
    fn set_ssb_range(
        &mut self,
        prb_start: usize,
        prb_end: usize,
        symbol_start: usize,
        symbol_end: usize,
        ssb_id: usize,
    )
        requires
            old(self).wf(),
            prb_end <= old(self).rows(),
            symbol_end <= SYMBOLS_PER_SLOT,
        ensures
            final(self).wf(),
            final(self).rows() == old(self).rows(),
            final(self).slot_number == old(self).slot_number,
            final(self).frame_number == old(self).frame_number,
            final(self).timestamp == old(self).timestamp,
            forall|p: int, s: int|
                0 <= p < old(self).rows() && 0 <= s < SYMBOLS_PER_SLOT ==> #[trigger] final(self).entry(p, s) == if prb_start <= p < prb_end && symbol_start <= s < symbol_end {
                    (ResourceType::Ssb, None, Some(ssb_id))
                } else {
                    old(self).entry(p, s)
                },
    {
        let ghost g0 = *old(self);
        let n = self.grid.len();
        let mut prb = prb_start;
        while prb < prb_end
            invariant
                self.wf(),
                n == self.rows(),
                n == g0.rows(),
                prb_end <= n,
                symbol_end <= SYMBOLS_PER_SLOT,
                prb_start <= prb,
                prb <= prb_end || prb == prb_start,
                self.slot_number == g0.slot_number,
                self.frame_number == g0.frame_number,
                self.timestamp == g0.timestamp,
                forall|p: int, s: int|
                    0 <= p < n && 0 <= s < SYMBOLS_PER_SLOT ==> #[trigger] self.entry(p, s) == if prb_start
                        <= p < prb && symbol_start <= s < symbol_end {
                        (ResourceType::Ssb, None, Some(ssb_id))
                    } else {
                        g0.entry(p, s)
                    },
            decreases prb_end - prb,
        {
            let mut symbol = symbol_start;
            while symbol < symbol_end
                invariant
                    self.wf(),
                    n == self.rows(),
                    prb_start <= prb < prb_end,
                    prb_end <= n,
                    symbol_end <= SYMBOLS_PER_SLOT,
                    symbol_start <= symbol,
                    symbol <= symbol_end || symbol == symbol_start,
                    self.slot_number == g0.slot_number,
                    self.frame_number == g0.frame_number,
                    self.timestamp == g0.timestamp,
                    forall|p: int, s: int|
                        0 <= p < n && 0 <= s < SYMBOLS_PER_SLOT ==> #[trigger] self.entry(p, s) == if (
                        prb_start <= p < prb && symbol_start <= s < symbol_end) || (p == prb
                            && symbol_start <= s < symbol) {
                            (ResourceType::Ssb, None, Some(ssb_id))
                        } else {
                            g0.entry(p, s)
                        },
                decreases symbol_end - symbol,
            {
                let ghost before = *self;
                self.set_ssb(prb, symbol, ssb_id);
                proof {
                    assert forall|p: int, s: int| 0 <= p < n && 0 <= s < SYMBOLS_PER_SLOT implies #[trigger] self.entry(p, s)
                        == if p == prb && s == symbol {
                        (ResourceType::Ssb, None, Some(ssb_id))
                    } else {
                        before.entry(p, s)
                    } by {
                        if !(p == prb && s == symbol) {
                            assert(self.cell(p, s) == before.cell(p, s));
                        }
                    }
                }
                symbol = symbol + 1;
            }
            prb = prb + 1;
        }
    }

    /// Empties every cell and forgets the timestamp.
    pub fn clear(&mut self)
        requires
            old(self).wf(),
        ensures
            final(self).wf(),
            final(self).rows() == old(self).rows(),
            final(self).slot_number == old(self).slot_number,
            final(self).frame_number == old(self).frame_number,
            final(self).timestamp is None,
            forall|p: int, s: int|
                0 <= p < old(self).rows() && 0 <= s < SYMBOLS_PER_SLOT ==> {
                    &&& #[trigger] final(self).cell(p, s) == ResourceType::Empty
                    &&& final(self).index_at(p, s) is None
                    &&& final(self).ssb_at(p, s) is None
                },
    {
        let n = self.grid.len();
        self.grid = rows_of(ResourceType::Empty, n);
        self.event_indices = rows_of(None, n);
        self.ssb_ids = rows_of(None, n);
        self.timestamp = None;
    }
}


/// A PHY trace kept by the panel: what the grid needs of it, and where it came from.
#[derive(Clone, Copy, Debug)]
pub struct CachedPHYEvent {
    /// Index of the trace in the event store
    pub trace_index: usize,
    /// Channel
    pub channel_type: PHYChannelType,
    /// System frame number
    pub frame: u16,
    /// Slot within the frame
    pub slot: u8,
    /// First PRB
    pub prb_start: u16,
    /// Number of PRBs
    pub prb_length: u16,
    /// First symbol
    pub symb_start: u8,
    /// Number of symbols
    pub symb_length: u8,
    /// Timestamp of the trace
    pub timestamp: i64,
}

/// An SSB to paint on the grid, read from the capture header.
#[derive(Clone, Copy, Debug)]
pub struct SsbConfig {
    /// SSB id
    pub id: usize,
    /// Periodicity in milliseconds
    pub period_ms: usize,
    /// First PRB
    pub prb_start: usize,
    /// Number of PRBs
    pub prb_length: usize,
    /// First symbol
    pub symbol_start: usize,
    /// Number of symbols
    pub symbol_length: usize,
}

/// The SSB painted when the header describes none.
pub open spec fn default_ssb_config() -> SsbConfig {
    SsbConfig {
        id: 0,
        period_ms: 20,
        prb_start: 15,
        prb_length: 20,
        symbol_start: 2,
        symbol_length: 1,
    }
}

impl Default for SsbConfig {
    fn default() -> (r: Self)
        ensures
            r == default_ssb_config(),
    {
        SsbConfig {
            id: 0,
            period_ms: 20,
            prb_start: 15,
            prb_length: 20,
            symbol_start: 2,
            symbol_length: 1,
        }
    }
}

/// The value of `key` in a header line: the text after the first `key` up to the next
/// space (or the end of the line).
pub open spec fn spec_parse_value(line: Seq<char>, key: Seq<char>) -> Option<Seq<char>> {
    match spec_find(line, key) {
        Some(i) => {
            let rest = line.subrange(i + key.len(), line.len() as int);
            Some(rest.subrange(0, first_char_or_len(rest, ' ')))
        },
        None => None,
    }
}

/// The SSB that a header line such as
/// `# SSB: id=0 arfcn=630336 mu=1 L=8 period=20 offset=0 k_ssb=20 prb=15:21 symb=2`
/// describes: `period`, `prb=<start>:<length>` and `symb` are needed, `id` is 0 when it
/// is missing or not a number, and an SSB spans one symbol.
pub open spec fn spec_parse_ssb_config(s: Seq<char>) -> Option<SsbConfig> {
    let id: usize = match spec_parse_value(s, "id="@) {
        Some(v) => match spec_parse_usize(v) {
            Some(n) => n,
            None => 0,
        },
        None => 0,
    };
    match spec_parse_value(s, "period="@) {
        None => None,
        Some(pv) => match spec_parse_usize(pv) {
            None => None,
            Some(period_ms) => match spec_parse_value(s, "prb="@) {
                None => None,
                Some(raw) => match spec_split_once(raw, ':') {
                    None => None,
                    Some((a, b)) => match (spec_parse_usize(a), spec_parse_usize(b)) {
                        (Some(prb_start), Some(prb_length)) => match spec_parse_value(
                            s,
                            "symb="@,
                        ) {
                            None => None,
                            Some(sv) => match spec_parse_usize(sv) {
                                None => None,
                                Some(symbol_start) => Some(
                                    SsbConfig {
                                        id,
                                        period_ms,
                                        prb_start,
                                        prb_length,
                                        symbol_start,
                                        symbol_length: 1,
                                    },
                                ),
                            },
                        },
                        _ => None,
                    },
                },
            },
        },
    }
}

/// The SSBs of the header lines that describe one, in order.
pub open spec fn parsed_ssb_configs(lines: Seq<String>) -> Seq<SsbConfig>
    decreases lines.len(),
{
    if lines.len() == 0 {
        Seq::empty()
    } else {
        let before = parsed_ssb_configs(lines.drop_last());
        match spec_parse_ssb_config(lines.last()@) {
            Some(c) => before.push(c),
            None => before,
        }
    }
}

/// Reading two runs of header lines one after the other gives the SSBs of the first run
/// followed by those of the second: no SSB is dropped or replaced by a later line.
pub proof fn lemma_ssb_configs_concat(a: Seq<String>, b: Seq<String>)
    ensures
        parsed_ssb_configs(a + b) == parsed_ssb_configs(a) + parsed_ssb_configs(b),
    decreases b.len(),
{
    if b.len() == 0 {
        assert(a + b =~= a);
        assert(parsed_ssb_configs(a) + parsed_ssb_configs(b) =~= parsed_ssb_configs(a));
    } else {
        lemma_ssb_configs_concat(a, b.drop_last());
        assert((a + b).drop_last() =~= a + b.drop_last());
        assert((a + b).last() == b.last());
        match spec_parse_ssb_config(b.last()@) {
            Some(c) => {
                assert(parsed_ssb_configs(a) + parsed_ssb_configs(b.drop_last()).push(c)
                    =~= (parsed_ssb_configs(a) + parsed_ssb_configs(b.drop_last())).push(c));
            },
            None => {},
        }
    }
}

/// One header line gives its SSB when it describes one, else nothing.
pub proof fn lemma_ssb_configs_single(line: String)
    ensures
        parsed_ssb_configs(seq![line]) == match spec_parse_ssb_config(line@) {
            Some(c) => seq![c],
            None => Seq::<SsbConfig>::empty(),
        },
{
    let one = seq![line];
    assert(one.drop_last() =~= Seq::<String>::empty());
    assert(one.last() == line);
    assert(parsed_ssb_configs(Seq::<String>::empty()) == Seq::<SsbConfig>::empty());
    match spec_parse_ssb_config(line@) {
        Some(c) => {
            assert(Seq::<SsbConfig>::empty().push(c) =~= seq![c]);
        },
        None => {},
    }
}

/// Every header line that describes an SSB contributes it: the SSB of line `k` is among
/// those read, and the count is at most the number of lines.
pub proof fn lemma_every_ssb_line_counts(lines: Seq<String>, k: int)
    requires
        0 <= k < lines.len(),
        spec_parse_ssb_config(lines[k]@) is Some,
    ensures
        parsed_ssb_configs(lines).contains(spec_parse_ssb_config(lines[k]@)->0),
{
    let a = lines.take(k);
    let b = lines.skip(k);
    assert(lines =~= a + b);
    lemma_ssb_configs_concat(a, b);
    let c = spec_parse_ssb_config(lines[k]@)->0;
    let first = seq![lines[k]];
    let rest = b.skip(1);
    assert(b =~= first + rest);
    lemma_ssb_configs_concat(first, rest);
    lemma_ssb_configs_single(lines[k]);
    let all = parsed_ssb_configs(a) + (seq![c] + parsed_ssb_configs(rest));
    assert(all[parsed_ssb_configs(a).len() as int] == c);
}

/// Runs of equal resources in the first `n` symbols of a row: `(type, first, last)`,
/// in order, each as long as possible.
pub open spec fn all_runs(row: Seq<ResourceType>, n: int) -> Seq<(ResourceType, usize, usize)>
    decreases n,
{
    if n <= 0 {
        Seq::empty()
    } else if n == 1 {
        seq![(row[0], 0usize, 0usize)]
    } else {
        let r = all_runs(row, n - 1);
        if row[n - 1] == row[n - 2] {
            r.update(r.len() - 1, (row[n - 1], r.last().1, (n - 1) as usize))
        } else {
            r.push((row[n - 1], (n - 1) as usize, (n - 1) as usize))
        }
    }
}

/// The run is not one of empty cells.
pub open spec fn occupied_run(t: (ResourceType, usize, usize)) -> bool {
    t.0 != ResourceType::Empty
}

/// The runs of non-empty resources of a slot row.
pub open spec fn resource_summary(row: Seq<ResourceType>) -> Seq<(ResourceType, usize, usize)> {
    all_runs(row, SYMBOLS_PER_SLOT as int).filter(|t: (ResourceType, usize, usize)| occupied_run(t))
}

/// A PHY trace as the panel keeps it.
pub open spec fn cached_event(trace_index: usize, phy: PHYInfos, timestamp: i64) -> CachedPHYEvent {
    CachedPHYEvent {
        trace_index,
        channel_type: phy.channel_type,
        frame: phy.frame,
        slot: phy.slot,
        prb_start: phy.prb_start,
        prb_length: phy.prb_length,
        symb_start: phy.symb_start,
        symb_length: phy.symb_length,
        timestamp,
    }
}

/// Position of the first cached trace with index `trace_index`, if any.
pub open spec fn position_of(events: Seq<CachedPHYEvent>, trace_index: usize) -> Option<int>
    decreases events.len(),
{
    if events.len() == 0 {
        None
    } else {
        match position_of(events.drop_last(), trace_index) {
            Some(k) => Some(k),
            None => if events.last().trace_index == trace_index {
                Some(events.len() - 1)
            } else {
                None
            },
        }
    }
}

/// The cache after recording `e`: it replaces the first entry of the same trace, or
/// comes last.
pub open spec fn upsert(events: Seq<CachedPHYEvent>, e: CachedPHYEvent) -> Seq<CachedPHYEvent> {
    match position_of(events, e.trace_index) {
        Some(k) => events.update(k, e),
        None => events.push(e),
    }
}

/// Start of the window after moving `delta` steps of `step` slots, not before slot 0.
pub open spec fn moved_start(start: int, delta: int, step: int) -> int {
    if start + delta * step < 0 {
        0
    } else {
        start + delta * step
    }
}

/// Moving the window forward and then back by the same amount returns to where it was,
/// unless the first move was stopped at slot 0.
pub proof fn lemma_navigate_back_and_forth(start: int, delta: int, step: int)
    requires
        start >= 0,
        start + delta * step >= 0,
    ensures
        moved_start(moved_start(start, delta, step), -delta, step) == start,
{
    assert((-delta) * step == -(delta * step)) by (nonlinear_arith);
}

/// The window never starts before slot 0, and a move that would is stopped there.
pub proof fn lemma_navigate_stops_at_zero(start: int, delta: int, step: int)
    requires
        start >= 0,
    ensures
        moved_start(start, delta, step) >= 0,
        start + delta * step <= 0 ==> moved_start(start, delta, step) == 0,
{
}

/// The first position of a trace in a prefix of the cache is its first position in the
/// whole cache.
pub proof fn lemma_position_of_prefix(events: Seq<CachedPHYEvent>, trace_index: usize, n: int)
    requires
        0 <= n <= events.len(),
        position_of(events.take(n), trace_index) is Some,
    ensures
        position_of(events, trace_index) == position_of(events.take(n), trace_index),
    decreases events.len() - n,
{
    if n < events.len() {
        assert(events.take(n + 1).drop_last() =~= events.take(n));
        assert(position_of(events.take(n + 1), trace_index) == position_of(events.take(n), trace_index));
        lemma_position_of_prefix(events, trace_index, n + 1);
    } else {
        assert(events.take(n) =~= events);
    }
}

/// The resource-grid panel: a window of slots, the PHY traces seen so far and the SSBs
/// of the capture.
pub struct ResourceBlocks {
    /// Number of PRB rows
    pub num_prbs: usize,
    /// Slots per subframe
    pub slots_per_subframe: u8,
    /// First slot of the window, as a global slot index (`frame * slots_per_frame + slot`)
    pub start_slot: usize,
    /// Width of the window, in frames
    pub window_frames: u32,
    /// Grids of the slots of the window
    pub slots: Vec<SlotGrid>,
    /// PHY traces seen so far (PDSCH, PUSCH, PUCCH and PRACH)
    pub phy_events: Vec<CachedPHYEvent>,
    /// SSBs to paint
    pub ssb_configs: Vec<SsbConfig>,
    /// `(frame, slot)` of the first PHY trace received (twice)
    pub start_limit: ((u32, u8), (u32, u8)),
    /// `(frame, slot)` of the last PHY trace received (twice)
    pub end_limit: ((u32, u8), (u32, u8)),
    /// The grid must be rebuilt before it is drawn
    pub needs_rebuild: bool,
    /// Granularity of the display
    pub view_mode: ViewMode,
}

/// Resource that a PHY channel occupies on the grid, for the channels the grid shows.
pub open spec fn channel_resource(c: PHYChannelType) -> Option<ResourceType> {
    match c {
        PHYChannelType::PDSCH => Some(ResourceType::Pdsch),
        PHYChannelType::PUSCH => Some(ResourceType::Pusch),
        PHYChannelType::PUCCH => Some(ResourceType::Pucch),
        PHYChannelType::PRACH => Some(ResourceType::Prach),
        _ => None,
    }
}

/// Global slot index of a PHY trace.
pub open spec fn event_global_slot(e: CachedPHYEvent, spf: int) -> int {
    e.frame * spf + e.slot
}

/// The trace `e` paints cell `(p, s)` of global slot `g`.
pub open spec fn event_paints(e: CachedPHYEvent, spf: int, g: int, p: int, s: int) -> bool {
    &&& event_global_slot(e, spf) == g
    &&& channel_resource(e.channel_type) is Some
    &&& e.prb_start <= p < e.prb_start + e.prb_length
    &&& e.symb_start <= s < e.symb_start + e.symb_length
}

/// Resource and trace index that the last of `events` painting cell `(p, s)` of global
/// slot `g` leaves there, if one does.
pub open spec fn phy_paint(events: Seq<CachedPHYEvent>, spf: int, g: int, p: int, s: int) -> Option<
    (ResourceType, usize),
>
    decreases events.len(),
{
    if events.len() == 0 {
        None
    } else {
        let e = events.last();
        if event_paints(e, spf, g, p, s) {
            Some((channel_resource(e.channel_type).unwrap(), e.trace_index))
        } else {
            phy_paint(events.drop_last(), spf, g, p, s)
        }
    }
}

/// A cell is painted by a PHY trace exactly when one of the traces covers it, and then by
/// the last one that does, with that trace's resource and index.
pub proof fn lemma_phy_paint(events: Seq<CachedPHYEvent>, spf: int, g: int, p: int, s: int)
    ensures
        phy_paint(events, spf, g, p, s) is Some <==> exists|k: int|
            0 <= k < events.len() && #[trigger] event_paints(events[k], spf, g, p, s),
        phy_paint(events, spf, g, p, s) matches Some((t, idx)) ==> exists|k: int|
            0 <= k < events.len() && #[trigger] event_paints(events[k], spf, g, p, s)
                && events[k].trace_index == idx && channel_resource(events[k].channel_type) == Some(t)
                && forall|j: int| k < j < events.len() ==> !event_paints(events[j], spf, g, p, s),
    decreases events.len(),
{
    if events.len() > 0 {
        let d = events.drop_last();
        lemma_phy_paint(d, spf, g, p, s);
        if event_paints(events.last(), spf, g, p, s) {
            assert(event_paints(events[events.len() - 1], spf, g, p, s));
        } else {
            assert forall|k: int| 0 <= k < d.len() implies d[k] == events[k] by {}
            if exists|k: int| 0 <= k < events.len() && #[trigger] event_paints(events[k], spf, g, p, s) {
                let k = choose|k: int| 0 <= k < events.len() && #[trigger] event_paints(events[k], spf, g, p, s);
                assert(k < d.len());
                assert(event_paints(d[k], spf, g, p, s));
            }
            if phy_paint(d, spf, g, p, s) is Some {
                let v = phy_paint(d, spf, g, p, s)->0;
                let k = choose|k: int|
                    0 <= k < d.len() && #[trigger] event_paints(d[k], spf, g, p, s) && d[k].trace_index
                        == v.1 && channel_resource(d[k].channel_type) == Some(v.0) && forall|j: int|
                        k < j < d.len() ==> !event_paints(d[j], spf, g, p, s);
                assert(event_paints(events[k], spf, g, p, s));
                assert forall|j: int| k < j < events.len() implies !event_paints(events[j], spf, g, p, s) by {
                    if j < d.len() {
                        assert(events[j] == d[j]);
                    }
                }
            }
        }
    }
}

/// Timestamp of the last of `events` in global slot `g`, if any.
pub open spec fn slot_timestamp(events: Seq<CachedPHYEvent>, spf: int, g: int) -> Option<i64>
    decreases events.len(),
{
    if events.len() == 0 {
        None
    } else if event_global_slot(events.last(), spf) == g {
        Some(events.last().timestamp)
    } else {
        slot_timestamp(events.drop_last(), spf, g)
    }
}

/// Period of an SSB in slots (`period_ms` times the slots per subframe, saturated).
pub open spec fn ssb_period(c: SsbConfig, sps: int) -> int {
    if c.period_ms * sps > usize::MAX {
        usize::MAX as int
    } else {
        c.period_ms * sps
    }
}

/// First PRB painted for an SSB (kept inside the grid).
pub open spec fn ssb_prb_start(c: SsbConfig, num_prbs: int) -> int {
    let last = if num_prbs == 0 { 0 } else { num_prbs - 1 };
    if c.prb_start < last { c.prb_start as int } else { last }
}

/// End of the PRBs painted for an SSB.
pub open spec fn ssb_prb_end(c: SsbConfig, num_prbs: int) -> int {
    if c.prb_start + c.prb_length < num_prbs { c.prb_start + c.prb_length } else { num_prbs }
}

/// End of the symbols painted for an SSB.
pub open spec fn ssb_symbol_end(c: SsbConfig) -> int {
    if c.symbol_start + c.symbol_length < SYMBOLS_PER_SLOT {
        c.symbol_start + c.symbol_length
    } else {
        SYMBOLS_PER_SLOT as int
    }
}

/// The SSB `c` paints cell `(p, s)` of global slot `g`.
pub open spec fn ssb_covers(c: SsbConfig, sps: int, num_prbs: int, g: int, p: int, s: int) -> bool {
    &&& ssb_period(c, sps) != 0
    &&& g % ssb_period(c, sps) == 0
    &&& ssb_prb_start(c, num_prbs) <= p < ssb_prb_end(c, num_prbs)
    &&& c.symbol_start <= s < ssb_symbol_end(c)
}

/// Id of the last of `cfgs` painting cell `(p, s)` of global slot `g`, if one does.
pub open spec fn ssb_paint(cfgs: Seq<SsbConfig>, sps: int, num_prbs: int, g: int, p: int, s: int) -> Option<
    usize,
>
    decreases cfgs.len(),
{
    if cfgs.len() == 0 {
        None
    } else if ssb_covers(cfgs.last(), sps, num_prbs, g, p, s) {
        Some(cfgs.last().id)
    } else {
        ssb_paint(cfgs.drop_last(), sps, num_prbs, g, p, s)
    }
}

/// A cell is painted as an SSB exactly when one of the configurations covers it, and
/// then by the last one that does.
pub proof fn lemma_ssb_paint(cfgs: Seq<SsbConfig>, sps: int, num_prbs: int, g: int, p: int, s: int)
    ensures
        ssb_paint(cfgs, sps, num_prbs, g, p, s) is Some <==> exists|k: int|
            0 <= k < cfgs.len() && #[trigger] ssb_covers(cfgs[k], sps, num_prbs, g, p, s),
        ssb_paint(cfgs, sps, num_prbs, g, p, s) matches Some(id) ==> exists|k: int|
            0 <= k < cfgs.len() && #[trigger] ssb_covers(cfgs[k], sps, num_prbs, g, p, s)
                && cfgs[k].id == id && forall|j: int|
                k < j < cfgs.len() ==> !ssb_covers(cfgs[j], sps, num_prbs, g, p, s),
    decreases cfgs.len(),
{
    if cfgs.len() > 0 {
        let d = cfgs.drop_last();
        lemma_ssb_paint(d, sps, num_prbs, g, p, s);
        if ssb_covers(cfgs.last(), sps, num_prbs, g, p, s) {
            assert(ssb_covers(cfgs[cfgs.len() - 1], sps, num_prbs, g, p, s));
        } else {
            assert forall|k: int| 0 <= k < d.len() implies d[k] == cfgs[k] by {}
            if exists|k: int| 0 <= k < cfgs.len() && #[trigger] ssb_covers(cfgs[k], sps, num_prbs, g, p, s) {
                let k = choose|k: int| 0 <= k < cfgs.len() && #[trigger] ssb_covers(cfgs[k], sps, num_prbs, g, p, s);
                assert(k < d.len());
                assert(ssb_covers(d[k], sps, num_prbs, g, p, s));
            }
            if ssb_paint(d, sps, num_prbs, g, p, s) is Some {
                let k = choose|k: int|
                    0 <= k < d.len() && #[trigger] ssb_covers(d[k], sps, num_prbs, g, p, s) && d[k].id
                        == ssb_paint(d, sps, num_prbs, g, p, s)->0 && forall|j: int|
                        k < j < d.len() ==> !ssb_covers(d[j], sps, num_prbs, g, p, s);
                assert(ssb_covers(cfgs[k], sps, num_prbs, g, p, s));
                assert forall|j: int| k < j < cfgs.len() implies !ssb_covers(cfgs[j], sps, num_prbs, g, p, s) by {
                    if j < d.len() {
                        assert(cfgs[j] == d[j]);
                    }
                }
            }
        }
    }
}

/// Painting the SSB `c` does not overflow: its ends fit in a `usize` when it is painted.
pub open spec fn ssb_fits(c: SsbConfig, sps: int) -> bool {
    ssb_period(c, sps) != 0 ==> (c.prb_start + c.prb_length <= usize::MAX && c.symbol_start
        + c.symbol_length <= usize::MAX)
}

/// What a cell holds once the PHY traces are drawn over an empty grid and the SSBs
/// over them.
pub open spec fn grid_entry(
    events: Seq<CachedPHYEvent>,
    cfgs: Seq<SsbConfig>,
    sps: int,
    num_prbs: int,
    g: int,
    p: int,
    s: int,
) -> (ResourceType, Option<usize>, Option<usize>) {
    match ssb_paint(cfgs, sps, num_prbs, g, p, s) {
        Some(id) => (ResourceType::Ssb, None, Some(id)),
        None => match phy_paint(events, sps * 10, g, p, s) {
            Some((t, idx)) => (t, Some(idx), None),
            None => (ResourceType::Empty, None, None),
        },
    }
}

/// A cell shows an SSB when one covers it (SSBs are drawn over the traces); otherwise the
/// resource of the last trace covering it; otherwise nothing.
pub proof fn lemma_grid_entry(
    events: Seq<CachedPHYEvent>,
    cfgs: Seq<SsbConfig>,
    sps: int,
    num_prbs: int,
    g: int,
    p: int,
    s: int,
)
    ensures
        (exists|k: int| 0 <= k < cfgs.len() && #[trigger] ssb_covers(cfgs[k], sps, num_prbs, g, p, s))
            ==> grid_entry(events, cfgs, sps, num_prbs, g, p, s).0 == ResourceType::Ssb
            && grid_entry(events, cfgs, sps, num_prbs, g, p, s).1 is None,
        (forall|k: int| 0 <= k < cfgs.len() ==> !#[trigger] ssb_covers(cfgs[k], sps, num_prbs, g, p, s))
            && (forall|k: int| 0 <= k < events.len() ==> !#[trigger] event_paints(events[k], sps * 10, g, p, s))
            ==> grid_entry(events, cfgs, sps, num_prbs, g, p, s) == (ResourceType::Empty, None::<usize>, None::<usize>),
        (forall|k: int| 0 <= k < cfgs.len() ==> !#[trigger] ssb_covers(cfgs[k], sps, num_prbs, g, p, s))
            ==> forall|k: int|
            0 <= k < events.len() && #[trigger] event_paints(events[k], sps * 10, g, p, s) && (forall|j: int|
                k < j < events.len() ==> !event_paints(events[j], sps * 10, g, p, s))
                ==> grid_entry(events, cfgs, sps, num_prbs, g, p, s) == (
                channel_resource(events[k].channel_type)->0,
                Some(events[k].trace_index),
                None::<usize>,
            ),
{
    lemma_ssb_paint(cfgs, sps, num_prbs, g, p, s);
    lemma_phy_paint(events, sps * 10, g, p, s);
    if forall|k: int| 0 <= k < cfgs.len() ==> !#[trigger] ssb_covers(cfgs[k], sps, num_prbs, g, p, s) {
        assert forall|k: int|
            0 <= k < events.len() && #[trigger] event_paints(events[k], sps * 10, g, p, s) && (forall|j: int|
                k < j < events.len() ==> !event_paints(events[j], sps * 10, g, p, s))
                implies grid_entry(events, cfgs, sps, num_prbs, g, p, s) == (
                channel_resource(events[k].channel_type)->0,
                Some(events[k].trace_index),
                None::<usize>,
            ) by {
            let v = phy_paint(events, sps * 10, g, p, s)->0;
            let k2 = choose|k2: int|
                0 <= k2 < events.len() && #[trigger] event_paints(events[k2], sps * 10, g, p, s)
                    && events[k2].trace_index == v.1 && channel_resource(events[k2].channel_type) == Some(v.0)
                    && forall|j: int| k2 < j < events.len() ==> !event_paints(events[j], sps * 10, g, p, s);
            if k2 < k {
                assert(!event_paints(events[k], sps * 10, g, p, s));
            } else if k < k2 {
                assert(!event_paints(events[k2], sps * 10, g, p, s));
            }
        }
    }
}

impl ResourceBlocks {
    /// Slots per frame (ten subframes).
    pub open spec fn spf(self) -> int {
        self.slots_per_subframe * 10
    }

    /// Slots in the window.
    pub open spec fn window(self) -> int {
        self.window_frames * self.spf()
    }

    /// The dimensions are those the panel is created with, the window start is a valid
    /// `isize`, and every slot grid is well formed.
    pub open spec fn wf(self) -> bool {
        &&& self.num_prbs == DEFAULT_NUM_PRBS
        &&& self.slots_per_subframe == DEFAULT_SLOTS_PER_SUBFRAME
        &&& self.window_frames == DEFAULT_WINDOW_FRAMES
        &&& self.start_slot <= isize::MAX
        &&& forall|i: int| 0 <= i < self.slots@.len() ==> (#[trigger] self.slots@[i]).wf()
    }

    /// A panel with an empty window at slot 0, no trace and no SSB.
    pub fn new() -> (r: Self)
        ensures
            r.wf(),
            r.start_slot == 0,
            r.slots@.len() == 0,
            r.phy_events@.len() == 0,
            r.ssb_configs@.len() == 0,
            r.start_limit == ((0u32, 0u8), (0u32, 0u8)),
            r.end_limit == ((0u32, 0u8), (0u32, 0u8)),
            r.needs_rebuild,
            r.view_mode == ViewMode::Symbol,
    {
        ResourceBlocks {
            num_prbs: DEFAULT_NUM_PRBS,
            slots_per_subframe: DEFAULT_SLOTS_PER_SUBFRAME,
            start_slot: 0,
            window_frames: DEFAULT_WINDOW_FRAMES,
            slots: Vec::new(),
            phy_events: Vec::new(),
            ssb_configs: Vec::new(),
            start_limit: ((0, 0), (0, 0)),
            end_limit: ((0, 0), (0, 0)),
            needs_rebuild: true,
            view_mode: ViewMode::Symbol,
        }
    }

    /// Slots per frame.
    pub fn slots_per_frame(&self) -> (r: usize)
        ensures
            r == self.spf(),
    {
        self.slots_per_subframe as usize * 10
    }

    /// Slots in the window.
    pub fn window_total_slots(&self) -> (r: usize)
        requires
            self.wf(),
        ensures
            r == self.window(),
            r == 200,
    {
        self.window_frames as usize * self.slots_per_frame()
    }

    /// Frame of the first slot of the window.
    pub fn start_frame(&self) -> (r: u32)
        requires
            self.wf(),
        ensures
            r == (self.start_slot as int / self.spf()) as u32,
    {
        (self.start_slot / self.slots_per_frame()) as u32
    }

    /// First frame after the window (a frame that the window only starts counts).
    pub fn end_frame(&self) -> (r: u32)
        requires
            self.wf(),
        ensures
            r == ((self.start_slot + self.window() + self.spf() - 1) as int / self.spf()) as u32,
    {
        let end_slot = self.start_slot + self.window_total_slots();
        ((end_slot + self.slots_per_frame() - 1) / self.slots_per_frame()) as u32
    }

    /// Moves the window by `delta_frames` frames, not before slot 0; the grid is to be
    /// rebuilt when the window moved.
    pub fn navigate_frame(&mut self, delta_frames: i32)
        requires
            old(self).wf(),
            isize::MIN <= delta_frames * old(self).spf(),
            old(self).start_slot + delta_frames * old(self).spf() <= isize::MAX,
        ensures
            final(self).wf(),
            final(self).start_slot == moved_start(
                old(self).start_slot as int,
                delta_frames as int,
                old(self).spf(),
            ),
            final(self).needs_rebuild == (old(self).needs_rebuild || final(self).start_slot
                != old(self).start_slot),
            final(self).slots == old(self).slots,
            final(self).phy_events == old(self).phy_events,
            final(self).ssb_configs == old(self).ssb_configs,
            final(self).start_limit == old(self).start_limit,
            final(self).end_limit == old(self).end_limit,
            final(self).view_mode == old(self).view_mode,
    {
        let shift = delta_frames as isize * self.slots_per_frame() as isize;
        let moved = self.start_slot as isize + shift;
        let new_start = if moved < 0 { 0 } else { moved as usize };
        if new_start != self.start_slot {
            self.start_slot = new_start;
            self.needs_rebuild = true;
        }
    }

    /// Moves the window by `delta_subframes` subframes, not before slot 0; the grid is to
    /// be rebuilt when the window moved.
    pub fn navigate_subframe(&mut self, delta_subframes: i32)
        requires
            old(self).wf(),
            isize::MIN <= delta_subframes * old(self).slots_per_subframe,
            old(self).start_slot + delta_subframes * old(self).slots_per_subframe <= isize::MAX,
        ensures
            final(self).wf(),
            final(self).start_slot == moved_start(
                old(self).start_slot as int,
                delta_subframes as int,
                old(self).slots_per_subframe as int,
            ),
            final(self).needs_rebuild == (old(self).needs_rebuild || final(self).start_slot
                != old(self).start_slot),
            final(self).slots == old(self).slots,
            final(self).phy_events == old(self).phy_events,
            final(self).ssb_configs == old(self).ssb_configs,
            final(self).start_limit == old(self).start_limit,
            final(self).end_limit == old(self).end_limit,
            final(self).view_mode == old(self).view_mode,
    {
        let shift = delta_subframes as isize * self.slots_per_subframe as isize;
        let moved = self.start_slot as isize + shift;
        let new_start = if moved < 0 { 0 } else { moved as usize };
        if new_start != self.start_slot {
            self.start_slot = new_start;
            self.needs_rebuild = true;
        }
    }

    /// Everything but the slot grids, the window start and the rebuild flag is the same in
    /// both.
    pub open spec fn same_settings_but_start(self, other: Self) -> bool {
        &&& self.num_prbs == other.num_prbs
        &&& self.slots_per_subframe == other.slots_per_subframe
        &&& self.window_frames == other.window_frames
        &&& self.phy_events == other.phy_events
        &&& self.ssb_configs == other.ssb_configs
        &&& self.start_limit == other.start_limit
        &&& self.end_limit == other.end_limit
        &&& self.view_mode == other.view_mode
    }

    /// Everything but the slot grids and the rebuild flag is the same in both.
    pub open spec fn same_settings(self, other: Self) -> bool {
        &&& self.num_prbs == other.num_prbs
        &&& self.slots_per_subframe == other.slots_per_subframe
        &&& self.start_slot == other.start_slot
        &&& self.window_frames == other.window_frames
        &&& self.phy_events == other.phy_events
        &&& self.ssb_configs == other.ssb_configs
        &&& self.start_limit == other.start_limit
        &&& self.end_limit == other.end_limit
        &&& self.view_mode == other.view_mode
    }

    /// Draws the cached PHY traces, in the order they came, over the slots of the window
    /// that they fall in; each trace also stamps its slot with its timestamp.
    fn populate_grid_from_cache(&mut self)
        requires
            old(self).wf(),
            old(self).slots@.len() == old(self).window(),
        ensures
            final(self).wf(),
            final(self).same_settings(*old(self)),
            final(self).needs_rebuild == old(self).needs_rebuild,
            final(self).slots@.len() == old(self).slots@.len(),
            forall|i: int|
                0 <= i < old(self).slots@.len() ==> {
                    let g = old(self).start_slot + i;
                    &&& (#[trigger] final(self).slots@[i]).rows() == old(self).slots@[i].rows()
                    &&& final(self).slots@[i].slot_number == old(self).slots@[i].slot_number
                    &&& final(self).slots@[i].frame_number == old(self).slots@[i].frame_number
                    &&& final(self).slots@[i].timestamp == match slot_timestamp(
                        old(self).phy_events@,
                        old(self).spf(),
                        g,
                    ) {
                        Some(t) => Some(t),
                        None => old(self).slots@[i].timestamp,
                    }
                },
            forall|i: int, p: int, s: int|
                0 <= i < old(self).slots@.len() && 0 <= p < old(self).slots@[i].rows() && 0 <= s
                    < SYMBOLS_PER_SLOT ==> #[trigger] final(self).slots@[i].entry(p, s) == match phy_paint(
                    old(self).phy_events@,
                    old(self).spf(),
                    old(self).start_slot + i,
                    p,
                    s,
                ) {
                    Some((t, idx)) => (t, Some(idx), old(self).slots@[i].ssb_at(p, s)),
                    None => old(self).slots@[i].entry(p, s),
                },
    {
        let ghost s0 = *old(self);
        let spf = self.slots_per_frame();
        if self.slots.len() == 0 {
            return;
        }
        assert(s0.window() == 200) by (nonlinear_arith)
            requires
                s0.window_frames == 10,
                s0.slots_per_subframe == 2,
                s0.window() == s0.window_frames * (s0.slots_per_subframe * 10),
        ;
        assert(isize::MAX + 200 <= usize::MAX);
        let end_slot = self.start_slot + self.slots.len();
        let n = self.phy_events.len();
        let mut k: usize = 0;
        while k < n
            invariant
                self.wf(),
                self.same_settings(s0),
                self.needs_rebuild == s0.needs_rebuild,
                s0.wf(),
                spf == s0.spf(),
                spf == 20,
                n == s0.phy_events@.len(),
                k <= n,
                end_slot == s0.start_slot + s0.slots@.len(),
                s0.slots@.len() == s0.window(),
                self.slots@.len() == s0.slots@.len(),
                forall|i: int|
                    0 <= i < s0.slots@.len() ==> {
                        let g = s0.start_slot + i;
                        &&& (#[trigger] self.slots@[i]).rows() == s0.slots@[i].rows()
                        &&& self.slots@[i].slot_number == s0.slots@[i].slot_number
                        &&& self.slots@[i].frame_number == s0.slots@[i].frame_number
                        &&& self.slots@[i].timestamp == match slot_timestamp(
                            s0.phy_events@.take(k as int),
                            spf as int,
                            g,
                        ) {
                            Some(t) => Some(t),
                            None => s0.slots@[i].timestamp,
                        }
                    },
                forall|i: int, p: int, s: int|
                    0 <= i < s0.slots@.len() && 0 <= p < s0.slots@[i].rows() && 0 <= s
                        < SYMBOLS_PER_SLOT ==> #[trigger] self.slots@[i].entry(p, s) == match phy_paint(
                        s0.phy_events@.take(k as int),
                        spf as int,
                        s0.start_slot + i,
                        p,
                        s,
                    ) {
                        Some((t, idx)) => (t, Some(idx), s0.slots@[i].ssb_at(p, s)),
                        None => s0.slots@[i].entry(p, s),
                    },
            decreases n - k,
        {
            let e = self.phy_events[k];
            let ghost before = self.slots@;
            let ghost evs = s0.phy_events@.take(k + 1);
            proof {
                assert(evs.drop_last() =~= s0.phy_events@.take(k as int));
                assert(evs.last() == e);
            }
            let event_global_slot = e.frame as usize * spf + e.slot as usize;
            if event_global_slot < self.start_slot || event_global_slot >= end_slot {
                proof {
                    assert forall|i: int, p: int, s: int|
                        0 <= i < s0.slots@.len() && 0 <= p < s0.slots@[i].rows() && 0 <= s
                            < SYMBOLS_PER_SLOT implies !#[trigger] event_paints(e, spf as int, s0.start_slot + i, p, s) by {
                    }
                }
                k = k + 1;
                continue;
            }
            let slot_idx = event_global_slot - self.start_slot;
            let resource = match e.channel_type {
                PHYChannelType::PDSCH => Some(ResourceType::Pdsch),
                PHYChannelType::PUSCH => Some(ResourceType::Pusch),
                PHYChannelType::PUCCH => Some(ResourceType::Pucch),
                PHYChannelType::PRACH => Some(ResourceType::Prach),
                _ => None,
            };
            let slot = &mut self.slots[slot_idx];
            slot.timestamp = Some(e.timestamp);
            match resource {
                Some(resource_type) => {
                    slot.set_range(
                        e.prb_start as usize,
                        e.prb_length as usize,
                        e.symb_start as usize,
                        e.symb_length as usize,
                        resource_type,
                        Some(e.trace_index),
                    );
                },
                None => {},
            }
            proof {
                assert forall|i: int| 0 <= i < self.slots@.len() implies (#[trigger] self.slots@[i]).wf() by {
                    if i != slot_idx {
                        assert(self.slots@[i] == before[i]);
                    }
                }
                assert forall|i: int, p: int, s: int|
                    0 <= i < s0.slots@.len() && 0 <= p < s0.slots@[i].rows() && 0 <= s
                        < SYMBOLS_PER_SLOT implies #[trigger] self.slots@[i].entry(p, s) == match phy_paint(
                        evs,
                        spf as int,
                        s0.start_slot + i,
                        p,
                        s,
                    ) {
                        Some((t, idx)) => (t, Some(idx), s0.slots@[i].ssb_at(p, s)),
                        None => s0.slots@[i].entry(p, s),
                    } by {
                    if i != slot_idx {
                        assert(self.slots@[i] == before[i]);
                        assert(!event_paints(e, spf as int, s0.start_slot + i, p, s));
                        assert(before[i].entry(p, s) == match phy_paint(
                            s0.phy_events@.take(k as int), spf as int, s0.start_slot + i, p, s) {
                            Some((t, idx)) => (t, Some(idx), s0.slots@[i].ssb_at(p, s)),
                            None => s0.slots@[i].entry(p, s),
                        });
                    } else {
                        assert(before[i].entry(p, s) == match phy_paint(
                            s0.phy_events@.take(k as int), spf as int, s0.start_slot + i, p, s) {
                            Some((t, idx)) => (t, Some(idx), s0.slots@[i].ssb_at(p, s)),
                            None => s0.slots@[i].entry(p, s),
                        });
                    }
                }
                assert forall|i: int|
                    0 <= i < s0.slots@.len() implies #[trigger] self.slots@[i].timestamp == match slot_timestamp(
                            evs,
                            spf as int,
                            s0.start_slot + i,
                        ) {
                            Some(t) => Some(t),
                            None => s0.slots@[i].timestamp,
                        } by {
                    if i != slot_idx {
                        assert(self.slots@[i] == before[i]);
                    }
                }
            }
            k = k + 1;
        }
        assert(s0.phy_events@.take(n as int) =~= s0.phy_events@);
    }

    /// Paints every SSB, in the order of the configuration, on the slots of the window
    /// where it repeats (every `period_ms` subframes, counted from global slot 0).
    fn paint_manual_ssb(&mut self)
        requires
            old(self).wf(),
            old(self).slots@.len() == old(self).window(),
            forall|i: int|
                0 <= i < old(self).slots@.len() ==> (#[trigger] old(self).slots@[i]).rows()
                    == old(self).num_prbs,
            forall|k: int|
                0 <= k < old(self).ssb_configs@.len() ==> ssb_fits(
                    #[trigger] old(self).ssb_configs@[k],
                    old(self).slots_per_subframe as int,
                ),
        ensures
            final(self).wf(),
            final(self).same_settings(*old(self)),
            final(self).needs_rebuild == old(self).needs_rebuild,
            final(self).slots@.len() == old(self).slots@.len(),
            forall|i: int|
                0 <= i < old(self).slots@.len() ==> {
                    &&& (#[trigger] final(self).slots@[i]).rows() == old(self).slots@[i].rows()
                    &&& final(self).slots@[i].slot_number == old(self).slots@[i].slot_number
                    &&& final(self).slots@[i].frame_number == old(self).slots@[i].frame_number
                    &&& final(self).slots@[i].timestamp == old(self).slots@[i].timestamp
                },
            forall|i: int, p: int, s: int|
                0 <= i < old(self).slots@.len() && 0 <= p < old(self).num_prbs && 0 <= s
                    < SYMBOLS_PER_SLOT ==> #[trigger] final(self).slots@[i].entry(p, s) == match ssb_paint(
                    old(self).ssb_configs@,
                    old(self).slots_per_subframe as int,
                    old(self).num_prbs as int,
                    old(self).start_slot + i,
                    p,
                    s,
                ) {
                    Some(id) => (ResourceType::Ssb, None, Some(id)),
                    None => old(self).slots@[i].entry(p, s),
                },
    {
        let ghost s0 = *old(self);
        if self.slots_per_subframe == 0 || self.ssb_configs.len() == 0 {
            proof {
                assert forall|i: int, p: int, s: int|
                    0 <= i < s0.slots@.len() && 0 <= p < s0.num_prbs && 0 <= s
                        < SYMBOLS_PER_SLOT implies #[trigger] ssb_paint(
                        s0.ssb_configs@,
                        s0.slots_per_subframe as int,
                        s0.num_prbs as int,
                        s0.start_slot + i,
                        p,
                        s,
                    ) is None by {
                }
            }
            return;
        }
        let sps = self.slots_per_subframe as usize;
        let num_prbs = self.num_prbs;
        let nslots = self.slots.len();
        assert(s0.window() == 200) by (nonlinear_arith)
            requires
                s0.window_frames == 10,
                s0.slots_per_subframe == 2,
                s0.window() == s0.window_frames * (s0.slots_per_subframe * 10),
        ;
        assert(isize::MAX + 200 <= usize::MAX);
        let ncfg = self.ssb_configs.len();
        let mut k: usize = 0;
        while k < ncfg
            invariant
                self.wf(),
                s0.wf(),
                self.same_settings(s0),
                self.needs_rebuild == s0.needs_rebuild,
                sps == s0.slots_per_subframe,
                num_prbs == s0.num_prbs,
                ncfg == s0.ssb_configs@.len(),
                nslots == s0.slots@.len(),
                nslots == 200,
                k <= ncfg,
                forall|j: int| 0 <= j < ncfg ==> ssb_fits(#[trigger] s0.ssb_configs@[j], sps as int),
                self.slots@.len() == nslots,
                forall|i: int|
                    0 <= i < nslots ==> {
                        &&& (#[trigger] self.slots@[i]).rows() == s0.slots@[i].rows()
                        &&& self.slots@[i].rows() == num_prbs
                        &&& self.slots@[i].slot_number == s0.slots@[i].slot_number
                        &&& self.slots@[i].frame_number == s0.slots@[i].frame_number
                        &&& self.slots@[i].timestamp == s0.slots@[i].timestamp
                    },
                forall|i: int, p: int, s: int|
                    0 <= i < nslots && 0 <= p < num_prbs && 0 <= s < SYMBOLS_PER_SLOT
                        ==> #[trigger] self.slots@[i].entry(p, s) == match ssb_paint(
                        s0.ssb_configs@.take(k as int),
                        sps as int,
                        num_prbs as int,
                        s0.start_slot + i,
                        p,
                        s,
                    ) {
                        Some(id) => (ResourceType::Ssb, None, Some(id)),
                        None => s0.slots@[i].entry(p, s),
                    },
            decreases ncfg - k,
        {
            let cfg = self.ssb_configs[k];
            let ghost cfgs = s0.ssb_configs@.take(k + 1);
            let ghost prev = s0.ssb_configs@.take(k as int);
            proof {
                assert(cfgs.drop_last() =~= prev);
                assert(cfgs.last() == cfg);
                assert(ssb_fits(s0.ssb_configs@[k as int], sps as int));
            }
            let period_slots = match cfg.period_ms.checked_mul(sps) {
                Some(v) => v,
                None => usize::MAX,
            };
            if period_slots == 0 {
                proof {
                    assert forall|i: int, p: int, s: int|
                        0 <= i < nslots && 0 <= p < num_prbs && 0 <= s < SYMBOLS_PER_SLOT implies
                        #[trigger] ssb_paint(cfgs, sps as int, num_prbs as int, s0.start_slot + i, p, s)
                        == ssb_paint(prev, sps as int, num_prbs as int, s0.start_slot + i, p, s) by {
                    }
                }
                k = k + 1;
                continue;
            }
            let last_prb = if num_prbs == 0 { 0 } else { num_prbs - 1 };
            let prb_start = if cfg.prb_start < last_prb { cfg.prb_start } else { last_prb };
            let prb_end = if cfg.prb_start + cfg.prb_length < num_prbs {
                cfg.prb_start + cfg.prb_length
            } else {
                num_prbs
            };
            let symbol_start = cfg.symbol_start;
            let symbol_end = if cfg.symbol_start + cfg.symbol_length < SYMBOLS_PER_SLOT {
                cfg.symbol_start + cfg.symbol_length
            } else {
                SYMBOLS_PER_SLOT
            };
            if prb_end <= prb_start || symbol_end <= symbol_start {
                proof {
                    assert forall|i: int, p: int, s: int|
                        0 <= i < nslots && 0 <= p < num_prbs && 0 <= s < SYMBOLS_PER_SLOT implies
                        #[trigger] ssb_paint(cfgs, sps as int, num_prbs as int, s0.start_slot + i, p, s)
                        == ssb_paint(prev, sps as int, num_prbs as int, s0.start_slot + i, p, s) by {
                    }
                }
                k = k + 1;
                continue;
            }
            let mut slot_idx: usize = 0;
            while slot_idx < nslots
                invariant
                    self.wf(),
                    s0.wf(),
                    self.same_settings(s0),
                    self.needs_rebuild == s0.needs_rebuild,
                    sps == s0.slots_per_subframe,
                    num_prbs == s0.num_prbs,
                    nslots == s0.slots@.len(),
                    nslots == 200,
                    k < ncfg,
                    cfgs == s0.ssb_configs@.take(k + 1),
                    prev == s0.ssb_configs@.take(k as int),
                    cfgs.len() == k + 1,
                    cfgs.drop_last() == prev,
                    cfgs.last() == cfg,
                    period_slots == ssb_period(cfg, sps as int),
                    period_slots != 0,
                    prb_start == ssb_prb_start(cfg, num_prbs as int),
                    prb_end == ssb_prb_end(cfg, num_prbs as int),
                    symbol_start == cfg.symbol_start,
                    symbol_end == ssb_symbol_end(cfg),
                    prb_end <= num_prbs,
                    symbol_end <= SYMBOLS_PER_SLOT,
                    slot_idx <= nslots,
                    self.slots@.len() == nslots,
                    forall|i: int|
                        0 <= i < nslots ==> {
                            &&& (#[trigger] self.slots@[i]).rows() == s0.slots@[i].rows()
                            &&& self.slots@[i].rows() == num_prbs
                            &&& self.slots@[i].slot_number == s0.slots@[i].slot_number
                            &&& self.slots@[i].frame_number == s0.slots@[i].frame_number
                            &&& self.slots@[i].timestamp == s0.slots@[i].timestamp
                        },
                    forall|i: int, p: int, s: int|
                        0 <= i < nslots && 0 <= p < num_prbs && 0 <= s < SYMBOLS_PER_SLOT
                            ==> #[trigger] self.slots@[i].entry(p, s) == match ssb_paint(
                            if i < slot_idx { cfgs } else { prev },
                            sps as int,
                            num_prbs as int,
                            s0.start_slot + i,
                            p,
                            s,
                        ) {
                            Some(id) => (ResourceType::Ssb, None, Some(id)),
                            None => s0.slots@[i].entry(p, s),
                        },
                decreases nslots - slot_idx,
            {
                let global_slot = self.start_slot + slot_idx;
                let ghost before = self.slots@;
                if global_slot % period_slots != 0 {
                    proof {
                        assert forall|p: int, s: int|
                            0 <= p < num_prbs && 0 <= s < SYMBOLS_PER_SLOT implies #[trigger] ssb_paint(
                            cfgs, sps as int, num_prbs as int, global_slot as int, p, s)
                            == ssb_paint(prev, sps as int, num_prbs as int, global_slot as int, p, s) by {
                            assert(!ssb_covers(cfg, sps as int, num_prbs as int, global_slot as int, p, s));
                        }
                    }
                    slot_idx = slot_idx + 1;
                    continue;
                }
                let slot = &mut self.slots[slot_idx];
                slot.set_ssb_range(prb_start, prb_end, symbol_start, symbol_end, cfg.id);
                proof {
                    assert forall|i: int| 0 <= i < self.slots@.len() implies (#[trigger] self.slots@[i]).wf() by {
                        if i != slot_idx {
                            assert(self.slots@[i] == before[i]);
                        }
                    }
                    assert forall|i: int, p: int, s: int|
                        0 <= i < nslots && 0 <= p < num_prbs && 0 <= s < SYMBOLS_PER_SLOT
                            implies #[trigger] self.slots@[i].entry(p, s) == match ssb_paint(
                            if i < slot_idx + 1 { cfgs } else { prev },
                            sps as int,
                            num_prbs as int,
                            s0.start_slot + i,
                            p,
                            s,
                        ) {
                            Some(id) => (ResourceType::Ssb, None, Some(id)),
                            None => s0.slots@[i].entry(p, s),
                        } by {
                        if i != slot_idx {
                            assert(self.slots@[i] == before[i]);
                        } else {
                            assert(before[i].entry(p, s) == match ssb_paint(prev, sps as int,
                                num_prbs as int, s0.start_slot + i, p, s) {
                                Some(id) => (ResourceType::Ssb, None, Some(id)),
                                None => s0.slots@[i].entry(p, s),
                            });
                            if ssb_covers(cfg, sps as int, num_prbs as int, s0.start_slot + i, p, s) {
                                assert(ssb_paint(cfgs, sps as int, num_prbs as int, s0.start_slot + i,
                                    p, s) == Some(cfg.id));
                            } else {
                                assert(ssb_paint(cfgs, sps as int, num_prbs as int, s0.start_slot + i,
                                    p, s) == ssb_paint(prev, sps as int, num_prbs as int,
                                    s0.start_slot + i, p, s));
                            }
                        }
                    }
                }
                slot_idx = slot_idx + 1;
            }
            k = k + 1;
        }
        assert(s0.ssb_configs@.take(ncfg as int) =~= s0.ssb_configs@);
    }

    /// Every SSB of the configuration can be painted without overflow.
    pub open spec fn ssb_configs_fit(self) -> bool {
        forall|k: int|
            0 <= k < self.ssb_configs@.len() ==> ssb_fits(
                #[trigger] self.ssb_configs@[k],
                self.slots_per_subframe as int,
            )
    }

    /// Whether every SSB of the configuration can be painted without overflow.
    pub fn ssb_configs_paintable(&self) -> (r: bool)
        ensures
            r == self.ssb_configs_fit(),
    {
        let sps = self.slots_per_subframe as usize;
        let n = self.ssb_configs.len();
        let mut k: usize = 0;
        while k < n
            invariant
                n == self.ssb_configs@.len(),
                sps == self.slots_per_subframe,
                k <= n,
                forall|j: int| 0 <= j < k ==> ssb_fits(#[trigger] self.ssb_configs@[j], sps as int),
            decreases n - k,
        {
            let c = self.ssb_configs[k];
            let period_zero = match c.period_ms.checked_mul(sps) {
                Some(v) => v == 0,
                None => false,
            };
            if !period_zero && (c.prb_start > usize::MAX - c.prb_length || c.symbol_start
                > usize::MAX - c.symbol_length) {
                assert(!ssb_fits(self.ssb_configs@[k as int], sps as int));
                return false;
            }
            k = k + 1;
        }
        true
    }

    /// Rebuilds the window: one empty slot grid per slot, then the cached PHY traces, then
    /// the SSBs of the configuration.
    pub fn rebuild_grid(&mut self)
        requires
            old(self).wf(),
            old(self).ssb_configs_fit(),
        ensures
            final(self).wf(),
            final(self).same_settings(*old(self)),
            !final(self).needs_rebuild,
            final(self).slots@.len() == old(self).window(),
            forall|i: int|
                0 <= i < old(self).window() ==> {
                    let g = old(self).start_slot + i;
                    &&& (#[trigger] final(self).slots@[i]).rows() == old(self).num_prbs
                    &&& final(self).slots@[i].slot_number == (g % old(self).spf()) as u8
                    &&& final(self).slots@[i].frame_number == (g / old(self).spf()) as u32
                    &&& final(self).slots@[i].timestamp == slot_timestamp(
                        old(self).phy_events@,
                        old(self).spf(),
                        g,
                    )
                },
            forall|i: int, p: int, s: int|
                0 <= i < old(self).window() && 0 <= p < old(self).num_prbs && 0 <= s
                    < SYMBOLS_PER_SLOT ==> #[trigger] final(self).slots@[i].entry(p, s) == grid_entry(
                    old(self).phy_events@,
                    old(self).ssb_configs@,
                    old(self).slots_per_subframe as int,
                    old(self).num_prbs as int,
                    old(self).start_slot + i,
                    p,
                    s,
                ),
    {
        let ghost s0 = *old(self);
        let spf = self.slots_per_frame();
        let total_slots = self.window_total_slots();
        assert(isize::MAX + 200 <= usize::MAX);
        self.slots.clear();
        let mut i: usize = 0;
        while i < total_slots
            invariant
                self.wf(),
                s0.wf(),
                self.same_settings(s0),
                spf == s0.spf(),
                spf == 20,
                total_slots == 200,
                i <= total_slots,
                self.slots@.len() == i,
                forall|j: int|
                    0 <= j < i ==> {
                        let g = s0.start_slot + j;
                        &&& (#[trigger] self.slots@[j]).rows() == s0.num_prbs
                        &&& self.slots@[j].slot_number == (g % spf as int) as u8
                        &&& self.slots@[j].frame_number == (g / spf as int) as u32
                        &&& self.slots@[j].timestamp is None
                    },
                forall|j: int, p: int, s: int|
                    0 <= j < i && 0 <= p < s0.num_prbs && 0 <= s < SYMBOLS_PER_SLOT
                        ==> #[trigger] self.slots@[j].entry(p, s) == (
                        ResourceType::Empty,
                        None::<usize>,
                        None::<usize>,
                    ),
            decreases total_slots - i,
        {
            let global_slot = self.start_slot + i;
            let frame = (global_slot / spf) as u32;
            let slot_in_frame = (global_slot % spf) as u8;
            let grid = SlotGrid::new(self.num_prbs, slot_in_frame, frame);
            self.slots.push(grid);
            i = i + 1;
        }
        let ghost built = *self;
        self.populate_grid_from_cache();
        let ghost populated = *self;
        proof {
            assert forall|j: int| 0 <= j < populated.slots@.len() implies (#[trigger] populated.slots@[j]).rows()
                == populated.num_prbs by {
                assert(built.slots@[j].rows() == s0.num_prbs);
            }
        }
        self.paint_manual_ssb();
        self.needs_rebuild = false;
        proof {
            assert forall|j: int| 0 <= j < s0.window() implies {
                let g = s0.start_slot + j;
                &&& (#[trigger] self.slots@[j]).rows() == s0.num_prbs
                &&& self.slots@[j].slot_number == (g % s0.spf()) as u8
                &&& self.slots@[j].frame_number == (g / s0.spf()) as u32
                &&& self.slots@[j].timestamp == slot_timestamp(s0.phy_events@, s0.spf(), g)
            } by {
                assert(built.slots@[j].rows() == s0.num_prbs);
                assert(populated.slots@[j].rows() == s0.num_prbs);
            }
            assert forall|j: int, p: int, s: int|
                0 <= j < s0.window() && 0 <= p < s0.num_prbs && 0 <= s < SYMBOLS_PER_SLOT
                    implies #[trigger] self.slots@[j].entry(p, s) == grid_entry(
                    s0.phy_events@,
                    s0.ssb_configs@,
                    s0.slots_per_subframe as int,
                    s0.num_prbs as int,
                    s0.start_slot + j,
                    p,
                    s,
                ) by {
                assert(built.slots@[j].rows() == s0.num_prbs);
                assert(built.slots@[j].entry(p, s) == (ResourceType::Empty, None::<usize>, None::<usize>));
                assert(populated.slots@[j].entry(p, s) == match phy_paint(
                    s0.phy_events@, s0.spf(), s0.start_slot + j, p, s) {
                    Some((t, idx)) => (t, Some(idx), built.slots@[j].ssb_at(p, s)),
                    None => built.slots@[j].entry(p, s),
                });
            }
        }
    }

    /// The value of `key` in a header line (see `spec_parse_value`).
    pub fn parse_value<'a>(line: &'a str, key: &str) -> (r: Option<&'a str>)
        ensures
            match r {
                Some(v) => spec_parse_value(line@, key@) == Some(v@),
                None => spec_parse_value(line@, key@) is None,
            },
    {
        let lv = chars_of(line);
        let kv = chars_of(key);
        match find_chars(&lv, &kv) {
            None => None,
            Some(i) => {
                assert(occurs_at(lv@, kv@, i as int));
                assert(lv@.len() == lv.len() && kv@.len() == kv.len());
                let start = i + kv.len();
                let end = find_char_from(&lv, ' ', start);
                let ghost rest = line@.subrange(start as int, line@.len() as int);
                assert(rest.subrange(0, end - start) =~= line@.subrange(start as int, end as int));
                Some(line.substring_char(start, end))
            },
        }
    }

    /// The SSB that a header line describes (see `spec_parse_ssb_config`).
    pub fn parse_ssb_config(ssb_info: &str) -> (r: Option<SsbConfig>)
        ensures
            r == spec_parse_ssb_config(ssb_info@),
    {
        let id = match Self::parse_value(ssb_info, "id=") {
            Some(v) => match parse_usize(v) {
                Some(n) => n,
                None => 0,
            },
            None => 0,
        };
        let period_ms = match Self::parse_value(ssb_info, "period=") {
            Some(v) => match parse_usize(v) {
                Some(n) => n,
                None => return None,
            },
            None => return None,
        };
        let prb_raw = match Self::parse_value(ssb_info, "prb=") {
            Some(v) => v,
            None => return None,
        };
        let (a, b) = match split_once_char(prb_raw, ':') {
            Some(pair) => pair,
            None => return None,
        };
        let prb_start = match parse_usize(a) {
            Some(n) => n,
            None => return None,
        };
        let prb_length = match parse_usize(b) {
            Some(n) => n,
            None => return None,
        };
        let symbol_start = match Self::parse_value(ssb_info, "symb=") {
            Some(v) => match parse_usize(v) {
                Some(n) => n,
                None => return None,
            },
            None => return None,
        };
        Some(SsbConfig { id, period_ms, prb_start, prb_length, symbol_start, symbol_length: 1 })
    }

    /// Replaces the SSBs with those that the header lines describe, or with the default
    /// SSB when none does; the grid is to be rebuilt.
    pub fn update_ssb_config_from_metadata(&mut self, ssb_lines: &[String])
        ensures
            final(self).ssb_configs@ == if parsed_ssb_configs(ssb_lines@).len() == 0 {
                seq![default_ssb_config()]
            } else {
                parsed_ssb_configs(ssb_lines@)
            },
            final(self).needs_rebuild,
            final(self).num_prbs == old(self).num_prbs,
            final(self).slots_per_subframe == old(self).slots_per_subframe,
            final(self).start_slot == old(self).start_slot,
            final(self).window_frames == old(self).window_frames,
            final(self).slots == old(self).slots,
            final(self).phy_events == old(self).phy_events,
            final(self).start_limit == old(self).start_limit,
            final(self).end_limit == old(self).end_limit,
            final(self).view_mode == old(self).view_mode,
    {
        self.ssb_configs.clear();
        let n = ssb_lines.len();
        let mut k: usize = 0;
        while k < n
            invariant
                n == ssb_lines@.len(),
                k <= n,
                self.ssb_configs@ == parsed_ssb_configs(ssb_lines@.take(k as int)),
                self.num_prbs == old(self).num_prbs,
                self.slots_per_subframe == old(self).slots_per_subframe,
                self.start_slot == old(self).start_slot,
                self.window_frames == old(self).window_frames,
                self.slots == old(self).slots,
                self.phy_events == old(self).phy_events,
                self.start_limit == old(self).start_limit,
                self.end_limit == old(self).end_limit,
                self.view_mode == old(self).view_mode,
            decreases n - k,
        {
            proof {
                assert(ssb_lines@.take(k + 1).drop_last() =~= ssb_lines@.take(k as int));
                assert(ssb_lines@.take(k + 1).last() == ssb_lines@[k as int]);
            }
            match Self::parse_ssb_config(ssb_lines[k].as_str()) {
                Some(cfg) => self.ssb_configs.push(cfg),
                None => {},
            }
            k = k + 1;
        }
        assert(ssb_lines@.take(n as int) =~= ssb_lines@);
        if self.ssb_configs.len() == 0 {
            self.ssb_configs.push(SsbConfig::default());
        }
        self.needs_rebuild = true;
    }

    /// Resource shown for a PRB of a slot in the slot view: that of its most important
    /// symbol (the first one among equals), or `Empty` when none matters or the cell is
    /// outside the window.
    pub fn get_slot_resource_type(&self, slot_idx: usize, prb: usize) -> (r: ResourceType)
        requires
            self.wf(),
        ensures
            !(slot_idx < self.slots@.len() && prb < self.slots@[slot_idx as int].rows()) ==> r
                == ResourceType::Empty,
            slot_idx < self.slots@.len() && prb < self.slots@[slot_idx as int].rows() ==> {
                let slot = self.slots@[slot_idx as int];
                &&& (forall|s: int|
                    0 <= s < SYMBOLS_PER_SLOT ==> spec_priority(#[trigger] slot.cell(prb as int, s))
                        == 0) ==> r == ResourceType::Empty
                &&& (exists|s: int|
                    0 <= s < SYMBOLS_PER_SLOT && spec_priority(#[trigger] slot.cell(prb as int, s))
                        > 0) ==> exists|k: int|
                    0 <= k < SYMBOLS_PER_SLOT && r == #[trigger] slot.cell(prb as int, k) && (forall|
                        s: int,
                    |
                        0 <= s < SYMBOLS_PER_SLOT ==> spec_priority(#[trigger] slot.cell(prb as int, s))
                            <= spec_priority(r)) && (forall|s: int|
                        0 <= s < k ==> spec_priority(#[trigger] slot.cell(prb as int, s))
                            < spec_priority(r))
            },
    {
        if slot_idx < self.slots.len() {
            let slot = &self.slots[slot_idx];
            if prb < slot.grid.len() {
                let ghost row = slot.grid@[prb as int]@;
                assert(row.len() == SYMBOLS_PER_SLOT);
                let mut best_type = ResourceType::Empty;
                let mut best_priority: u8 = 0;
                let mut symbol: usize = 0;
                while symbol < SYMBOLS_PER_SLOT
                    invariant
                        slot == self.slots@[slot_idx as int],
                        prb < slot.grid@.len(),
                        row == slot.grid@[prb as int]@,
                        row.len() == SYMBOLS_PER_SLOT,
                        symbol <= SYMBOLS_PER_SLOT,
                        best_priority == spec_priority(best_type),
                        forall|s: int| 0 <= s < symbol ==> spec_priority(#[trigger] row[s]) <= best_priority,
                        best_priority == 0 ==> best_type == ResourceType::Empty,
                        best_priority > 0 ==> exists|k: int|
                            0 <= k < symbol && best_type == #[trigger] row[k] && forall|s: int|
                                0 <= s < k ==> spec_priority(#[trigger] row[s]) < best_priority,
                    decreases SYMBOLS_PER_SLOT - symbol,
                {
                    let rt = slot.grid[prb][symbol];
                    let priority = rt.priority();
                    if priority > best_priority {
                        assert forall|s: int| 0 <= s < symbol implies spec_priority(#[trigger] row[s]) < priority by {}
                        assert(rt == row[symbol as int]);
                        best_priority = priority;
                        best_type = rt;
                    }
                    symbol = symbol + 1;
                }
                proof {
                    if best_priority > 0 {
                        let k = choose|k: int|
                            0 <= k < SYMBOLS_PER_SLOT && best_type == #[trigger] row[k] && forall|s: int|
                                0 <= s < k ==> spec_priority(#[trigger] row[s]) < best_priority;
                        assert(slot.cell(prb as int, k) == row[k]);
                        assert forall|s: int| 0 <= s < SYMBOLS_PER_SLOT implies spec_priority(#[trigger] slot.cell(prb as int, s))
                            <= spec_priority(best_type) by {
                            assert(slot.cell(prb as int, s) == row[s]);
                        }
                        assert forall|s: int| 0 <= s < k implies spec_priority(#[trigger] slot.cell(prb as int, s))
                            < spec_priority(best_type) by {
                            assert(slot.cell(prb as int, s) == row[s]);
                        }
                    } else {
                        assert forall|s: int| 0 <= s < SYMBOLS_PER_SLOT implies spec_priority(#[trigger] slot.cell(prb as int, s))
                            == 0 by {
                            assert(slot.cell(prb as int, s) == row[s]);
                        }
                    }
                }
                return best_type;
            }
        }
        ResourceType::Empty
    }

    /// Runs of non-empty resources of a PRB of a slot, as `(type, first symbol, last
    /// symbol)`; nothing outside the window.
    pub fn get_slot_resource_summary(&self, slot_idx: usize, prb: usize) -> (r: Vec<(ResourceType, usize, usize)>)
        requires
            self.wf(),
        ensures
            !(slot_idx < self.slots@.len() && prb < self.slots@[slot_idx as int].rows()) ==> r@.len()
                == 0,
            slot_idx < self.slots@.len() && prb < self.slots@[slot_idx as int].rows() ==> r@
                == resource_summary(self.slots@[slot_idx as int].grid@[prb as int]@),
    {
        let mut result: Vec<(ResourceType, usize, usize)> = Vec::new();
        if slot_idx < self.slots.len() {
            let slot = &self.slots[slot_idx];
            if prb >= slot.grid.len() {
                return result;
            }
            let ghost row = slot.grid@[prb as int]@;
            let ghost pred = |t: (ResourceType, usize, usize)| occupied_run(t);
            assert(row.len() == SYMBOLS_PER_SLOT);
            let mut current_type = slot.grid[prb][0];
            let mut start_symbol: usize = 0;
            let mut symbol: usize = 1;
            while symbol < SYMBOLS_PER_SLOT
                invariant
                    slot == self.slots@[slot_idx as int],
                    prb < slot.grid@.len(),
                    row == slot.grid@[prb as int]@,
                    row.len() == SYMBOLS_PER_SLOT,
                    pred == (|t: (ResourceType, usize, usize)| occupied_run(t)),
                    1 <= symbol <= SYMBOLS_PER_SLOT,
                    all_runs(row, symbol as int).len() > 0,
                    all_runs(row, symbol as int).last() == (current_type, start_symbol, (symbol - 1) as usize),
                    current_type == row[symbol - 1],
                    result@ == all_runs(row, symbol as int).drop_last().filter(pred),
                decreases SYMBOLS_PER_SLOT - symbol,
            {
                let rt = slot.grid[prb][symbol];
                let ghost runs = all_runs(row, symbol as int);
                let ghost next = all_runs(row, symbol + 1);
                if rt != current_type {
                    proof {
                        assert(next == runs.push((rt, symbol, symbol)));
                        assert(next.drop_last() =~= runs);
                        assert(runs =~= runs.drop_last().push(runs.last()));
                        runs.drop_last().lemma_filter_push(runs.last(), pred);
                    }
                    if current_type != ResourceType::Empty {
                        result.push((current_type, start_symbol, symbol - 1));
                    }
                    current_type = rt;
                    start_symbol = symbol;
                } else {
                    proof {
                        assert(next.drop_last() =~= runs.drop_last());
                    }
                }
                symbol = symbol + 1;
            }
            proof {
                let runs = all_runs(row, SYMBOLS_PER_SLOT as int);
                assert(runs =~= runs.drop_last().push(runs.last()));
                runs.drop_last().lemma_filter_push(runs.last(), pred);
            }
            if current_type != ResourceType::Empty {
                result.push((current_type, start_symbol, SYMBOLS_PER_SLOT - 1));
            }
        }
        result
    }

    /// Records a PHY trace: the limits of the received slots move, the trace replaces an
    /// earlier one with the same index or comes last, and the grid is to be rebuilt when
    /// the trace falls in the window.
    pub fn add_phy_event(&mut self, trace_index: usize, phy_info: &PHYInfos, timestamp: i64)
        requires
            old(self).wf(),
        ensures
            final(self).wf(),
            ({
                let fs = (phy_info.frame as u32, phy_info.slot);
                let g = phy_info.frame * old(self).spf() + phy_info.slot;
                &&& final(self).start_limit == if old(self).start_limit.0 == (0u32, 0u8) {
                    (fs, fs)
                } else {
                    old(self).start_limit
                }
                &&& final(self).end_limit == (fs, fs)
                &&& final(self).phy_events@ == upsert(
                    old(self).phy_events@,
                    cached_event(trace_index, *phy_info, timestamp),
                )
                &&& final(self).needs_rebuild == (old(self).needs_rebuild || (old(self).start_slot
                    <= g < old(self).start_slot + old(self).window()))
            }),
            final(self).num_prbs == old(self).num_prbs,
            final(self).slots_per_subframe == old(self).slots_per_subframe,
            final(self).start_slot == old(self).start_slot,
            final(self).window_frames == old(self).window_frames,
            final(self).slots == old(self).slots,
            final(self).ssb_configs == old(self).ssb_configs,
            final(self).view_mode == old(self).view_mode,
    {
        let frame = phy_info.frame;
        let slot = phy_info.slot;
        let spf = self.slots_per_frame();
        assert(spf == 20);
        let event_global_slot = frame as usize * spf + slot as usize;
        let fs = (frame as u32, slot);
        if self.start_limit.0.0 == 0 && self.start_limit.0.1 == 0 {
            self.start_limit = (fs, fs);
        }
        self.end_limit = (fs, fs);
        let e = CachedPHYEvent {
            trace_index,
            channel_type: phy_info.channel_type,
            frame,
            slot,
            prb_start: phy_info.prb_start,
            prb_length: phy_info.prb_length,
            symb_start: phy_info.symb_start,
            symb_length: phy_info.symb_length,
            timestamp,
        };
        let n = self.phy_events.len();
        let mut k: usize = 0;
        let mut found = false;
        while k < n
            invariant_except_break
                !found,
            invariant
                n == self.phy_events@.len(),
                self.phy_events@ == old(self).phy_events@,
                k <= n,
                position_of(self.phy_events@.take(k as int), trace_index) is None,
            ensures
                found ==> k < n && self.phy_events@[k as int].trace_index == trace_index,
                !found ==> k == n,
            decreases n - k,
        {
            proof {
                assert(self.phy_events@.take(k + 1).drop_last() =~= self.phy_events@.take(k as int));
            }
            if self.phy_events[k].trace_index == trace_index {
                found = true;
                break;
            }
            k = k + 1;
        }
        proof {
            if found {
                assert(self.phy_events@.take(k + 1).drop_last() =~= self.phy_events@.take(k as int));
                assert(position_of(self.phy_events@.take(k + 1), trace_index) == Some(k as int));
                lemma_position_of_prefix(self.phy_events@, trace_index, k + 1);
            } else {
                assert(self.phy_events@.take(n as int) =~= self.phy_events@);
            }
        }
        if found {
            self.phy_events.set(k, e);
        } else {
            self.phy_events.push(e);
        }
        let end_slot = self.start_slot + self.window_total_slots();
        assert(isize::MAX + 200 <= usize::MAX);
        if event_global_slot >= self.start_slot && event_global_slot < end_slot {
            self.needs_rebuild = true;
        }
    }

    /// The grid of the slot at `index` in the window, to modify.
    pub fn get_slot_mut(&mut self, index: usize) -> (r: Option<&mut SlotGrid>)
        ensures
            index < old(self).slots@.len() <==> r is Some,
            r is None ==> *final(self) == *old(self),
    {
        if index < self.slots.len() {
            Some(&mut self.slots[index])
        } else {
            None
        }
    }

    /// Whether `(frame, slot)` lies between the first and the last PHY trace received;
    /// every slot does while none was received.
    pub fn is_slot_within_limits(&self, frame: u32, slot: u8) -> (r: bool)
        ensures
            r == ({
                let (sf, ss) = self.start_limit.0;
                let (ef, es) = self.end_limit.0;
                (self.start_limit == ((0u32, 0u8), (0u32, 0u8)) && self.end_limit == (
                (0u32, 0u8),
                (0u32, 0u8),
                )) || (!(frame < sf || (frame == sf && slot < ss)) && !(frame > ef || (frame
                    == ef && slot > es)))
            }),
    {
        let ((a, b), (c, d)) = self.start_limit;
        let ((e, f), (g, h)) = self.end_limit;
        if a == 0 && b == 0 && c == 0 && d == 0 && e == 0 && f == 0 && g == 0 && h == 0 {
            return true;
        }
        let (start_frame, start_slot) = self.start_limit.0;
        let (end_frame, end_slot) = self.end_limit.0;
        if frame < start_frame || (frame == start_frame && slot < start_slot) {
            return false;
        }
        if frame > end_frame || (frame == end_frame && slot > end_slot) {
            return false;
        }
        true
    }

    /// Forgets the slots and the PHY traces and moves the window back to slot 0.
    pub fn clear_slots(&mut self)
        requires
            old(self).wf(),
        ensures
            final(self).wf(),
            final(self).slots@.len() == 0,
            final(self).phy_events@.len() == 0,
            final(self).start_slot == 0,
            final(self).needs_rebuild,
            final(self).ssb_configs == old(self).ssb_configs,
            final(self).start_limit == old(self).start_limit,
            final(self).end_limit == old(self).end_limit,
            final(self).view_mode == old(self).view_mode,
    {
        self.slots.clear();
        self.phy_events.clear();
        self.start_slot = 0;
        self.needs_rebuild = true;
    }
}

/// Global slot of a PHY trace.
pub open spec fn phy_global_slot(phy: PHYInfos, spf: int) -> int {
    phy.frame * spf + phy.slot
}

/// The grid shows the traces of these channels.
pub open spec fn shown_channel(c: PHYChannelType) -> bool {
    channel_resource(c) is Some
}

impl EventSubscriber for ResourceBlocks {
    open spec fn wf(&self) -> bool {
        ResourceBlocks::wf(*self)
    }

    /// Records the PHY traces of the shown channels; other traces change nothing.
    fn on_event_added(&mut self, event: &Trace, index: usize, context: &EventContext)
    {
        match &event.additional_infos {
            AdditionalInfos::PHYInfos(phy_info) => {
                match phy_info.channel_type {
                    PHYChannelType::PDSCH | PHYChannelType::PUSCH | PHYChannelType::PUCCH
                    | PHYChannelType::PRACH => {
                        self.add_phy_event(index, phy_info, event.timestamp);
                    },
                    _ => {},
                }
            },
            _ => {},
        }
    }

    /// Centres the window on a focused PHY trace (not before slot 0); other traces change
    /// nothing.
    fn on_event_focused(&mut self, event: &Trace, index: usize, context: &EventContext)
    {
        match &event.additional_infos {
            AdditionalInfos::PHYInfos(phy_info) => {
                let spf = self.slots_per_frame();
                assert(spf == 20);
                let event_global_slot = phy_info.frame as usize * spf + phy_info.slot as usize;
                let half_window = self.window_total_slots() / 2;
                let new_start = event_global_slot.saturating_sub(half_window);
                if new_start != self.start_slot {
                    self.start_slot = new_start;
                    self.needs_rebuild = true;
                }
            },
            _ => {},
        }
    }

    /// Forgets the slots, the PHY traces and the SSBs, and moves back to slot 0.
    fn on_events_cleared(&mut self)
    {
        self.clear_slots();
        self.ssb_configs.clear();
    }

    /// Takes the SSBs of the new metadata.
    fn on_metadata_changed(&mut self, metadata: &FileMetadata)
    {
        self.update_ssb_config_from_metadata(metadata.ssb_info.as_slice());
    }

    open spec fn spec_name(&self) -> &'static str {
        "Resource Blocks"
    }

    fn name(&self) -> (r: &'static str) {
        "Resource Blocks"
    }

    open spec fn spec_added(&self, after: Self, event: Trace, index: usize, context: EventContext) -> bool {
        &&& (match event.additional_infos {
            AdditionalInfos::PHYInfos(phy) => shown_channel(phy.channel_type) ==> {
                let fs = (phy.frame as u32, phy.slot);
                let g = phy_global_slot(phy, self.spf());
                &&& after.start_limit == if self.start_limit.0 == (0u32, 0u8) {
                    (fs, fs)
                } else {
                    self.start_limit
                }
                &&& after.end_limit == (fs, fs)
                &&& after.phy_events@ == upsert(
                    self.phy_events@,
                    cached_event(index, phy, event.timestamp),
                )
                &&& after.needs_rebuild == (self.needs_rebuild || (
                self.start_slot <= g < self.start_slot + self.window()))
                &&& after.slots == self.slots
                &&& after.ssb_configs == self.ssb_configs
                &&& after.start_slot == self.start_slot
            },
            _ => true,
        })
        &&& (!(event.additional_infos matches AdditionalInfos::PHYInfos(phy) && shown_channel(
            phy.channel_type,
        )) ==> after == *self)
    }

    open spec fn spec_focused(&self, after: Self, event: Trace, index: usize, context: EventContext) -> bool {
        &&& (match event.additional_infos {
            AdditionalInfos::PHYInfos(phy) => {
                let g = phy_global_slot(phy, self.spf());
                let half = self.window() / 2;
                let new_start = if g < half { 0 } else { g - half };
                &&& after.start_slot == new_start
                &&& after.needs_rebuild == (self.needs_rebuild || new_start
                    != self.start_slot)
                &&& after.same_settings_but_start(*self)
                &&& after.slots == self.slots
            },
            _ => after == *self,
        })
    }

    open spec fn spec_cleared(&self, after: Self) -> bool {
        &&& (after.slots@.len() == 0)
        &&& (after.phy_events@.len() == 0)
        &&& (after.ssb_configs@.len() == 0)
        &&& (after.start_slot == 0)
        &&& (after.needs_rebuild)
        &&& (after.start_limit == self.start_limit)
        &&& (after.end_limit == self.end_limit)
        &&& (after.view_mode == self.view_mode)
    }

    open spec fn spec_metadata_changed(&self, after: Self, metadata: FileMetadata) -> bool {
        &&& (after.ssb_configs@ == if parsed_ssb_configs(metadata.ssb_info@).len() == 0 {
            seq![default_ssb_config()]
        } else {
            parsed_ssb_configs(metadata.ssb_info@)
        })
        &&& (after.needs_rebuild)
        &&& (after.start_slot == self.start_slot)
        &&& (after.slots == self.slots)
        &&& (after.phy_events == self.phy_events)
    }
}

} // verus!
