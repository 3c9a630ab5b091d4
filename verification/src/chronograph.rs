//! Chronograph: a timeline of the messages exchanged between the UE, the base station and
//! the core network, in trace order, with the focused message and its related ones
//! highlighted.

use vstd::prelude::*;
use crate::event_bus::{EventContext, EventSubscriber};
use crate::model::{Direction, FileMetadata, Layer, Trace};
use crate::theme::{rgb, Rgb};

verus! {

/// Most arrows kept.
pub const MAX_MESSAGE_ARROWS: usize = 500;

/// A party of the exchanges.
#[derive(Clone, Copy, PartialEq, Eq, Structural, Debug)]
pub enum Hardware {
    /// User equipment
    UE,
    /// Base station
    BST,
    /// Core network
    CN,
}

/// Ends of the arrow of a message of `layer` going `direction`: RRC between the UE and the
/// base station, NAS between the UE and the core, NGAP and GTP-U between the base
/// station and the core; none for other layers or directions.
pub open spec fn arrow_ends(layer: Layer, direction: Direction) -> Option<(Hardware, Hardware)> {
    match layer {
        Layer::RRC => match direction {
            Direction::UL => Some((Hardware::UE, Hardware::BST)),
            Direction::DL => Some((Hardware::BST, Hardware::UE)),
            _ => None,
        },
        Layer::NAS => match direction {
            Direction::UL => Some((Hardware::UE, Hardware::CN)),
            Direction::DL => Some((Hardware::CN, Hardware::UE)),
            _ => None,
        },
        Layer::NGAP | Layer::GTPU => match direction {
            Direction::TO => Some((Hardware::BST, Hardware::CN)),
            Direction::FROM => Some((Hardware::CN, Hardware::BST)),
            _ => None,
        },
        _ => None,
    }
}

/// An arrow of the chronograph.
#[derive(Debug)]
pub struct MessageArrow {
    /// Index of the trace
    pub trace_index: usize,
    /// Sender
    pub from: Hardware,
    /// Receiver
    pub to: Hardware,
    /// Layer
    pub layer: Layer,
    /// Name of the message
    pub message: String,
}

/// The arrow a trace gets, if any: its ends and its message.
pub open spec fn message_arrow_of(t: Trace) -> Option<(Hardware, Hardware, Seq<char>)> {
    match (t.additional_infos.spec_direction(), t.additional_infos.spec_message_name()) {
        (Some(d), Some(m)) => match arrow_ends(t.layer, d) {
            Some((from, to)) => Some((from, to, m)),
            None => None,
        },
        _ => None,
    }
}

impl MessageArrow {
    /// The arrow of a trace, if it gets one.
    pub fn from_trace(trace: &Trace, index: usize) -> (r: Option<MessageArrow>)
        ensures
            match message_arrow_of(*trace) {
                Some((from, to, m)) => r matches Some(a) && a.trace_index == index && a.from == from
                    && a.to == to && a.layer == trace.layer && a.message@ == m,
                None => r is None,
            },
    {
        let direction = match trace.additional_infos.get_direction() {
            Some(d) => d,
            None => return None,
        };
        let message = match trace.additional_infos.get_message_name() {
            Some(m) => m,
            None => return None,
        };
        let (from, to) = match trace.layer {
            Layer::RRC => match direction {
                Direction::UL => (Hardware::UE, Hardware::BST),
                Direction::DL => (Hardware::BST, Hardware::UE),
                _ => return None,
            },
            Layer::NAS => match direction {
                Direction::UL => (Hardware::UE, Hardware::CN),
                Direction::DL => (Hardware::CN, Hardware::UE),
                _ => return None,
            },
            Layer::NGAP | Layer::GTPU => match direction {
                Direction::TO => (Hardware::BST, Hardware::CN),
                Direction::FROM => (Hardware::CN, Hardware::BST),
                _ => return None,
            },
            _ => return None,
        };
        Some(MessageArrow { trace_index: index, from, to, layer: trace.layer, message })
    }
}

/// The chronograph panel.
pub struct Chronograph {
    /// Index of the focused trace
    pub current_index: usize,
    /// Arrows, in trace order
    pub arrows: Vec<MessageArrow>,
    /// Scroll to the focused arrow on the next frame
    pub should_scroll: bool,
    /// Traces the focused one answers
    pub related_parent: Option<Vec<usize>>,
    /// Traces that answer the focused one
    pub related_child: Option<Vec<usize>>,
}

/// Trace indices of the arrows.
pub open spec fn arrow_indices(s: Seq<MessageArrow>) -> Seq<usize> {
    s.map_values(|a: MessageArrow| a.trace_index)
}

/// The first position from `i` on whose index is above `index`, or the length.
pub open spec fn first_above(v: Seq<usize>, index: usize, i: int) -> int
    decreases v.len() - i,
{
    if i >= v.len() || i < 0 {
        v.len() as int
    } else if v[i] > index {
        i
    } else {
        first_above(v, index, i + 1)
    }
}

/// `first_above` stops at the first index above `index` from `i` on: every one it passes
/// is at or below `index`.
pub proof fn lemma_first_above(v: Seq<usize>, index: usize, i: int)
    requires
        0 <= i <= v.len(),
    ensures
        i <= first_above(v, index, i) <= v.len(),
        forall|k: int| i <= k < first_above(v, index, i) ==> #[trigger] v[k] <= index,
        first_above(v, index, i) < v.len() ==> v[first_above(v, index, i)] > index,
    decreases v.len() - i,
{
    if i < v.len() && v[i] <= index {
        lemma_first_above(v, index, i + 1);
    }
}

/// The arrows are in increasing trace order.
pub open spec fn arrows_in_trace_order(s: Seq<MessageArrow>) -> bool {
    forall|i: int, j: int| 0 <= i < j < s.len() ==> (#[trigger] s[i]).trace_index < (#[trigger] s[j]).trace_index
}

/// Colour and width of an arrow: the focused one in bright blue, related ones in light
/// blue, the others in black.
pub open spec fn arrow_style(is_current: bool, is_related: bool) -> (Rgb, u8) {
    if is_current {
        (rgb(50, 120, 220), 30)
    } else if is_related {
        (rgb(130, 180, 240), 25)
    } else {
        (rgb(0, 0, 0), 15)
    }
}

/// `v` holds `x`.
pub open spec fn opt_contains(v: Option<Vec<usize>>, x: usize) -> bool {
    match opt_list_view(v) {
        Some(l) => l.contains(x),
        None => false,
    }
}

/// The indices of an optional list.
pub open spec fn opt_list_view(v: Option<Vec<usize>>) -> Option<Seq<usize>> {
    match v {
        Some(l) => Some(l@),
        None => None,
    }
}

/// A copy of an optional list.
fn copy_list(v: &Option<Vec<usize>>) -> (r: Option<Vec<usize>>)
    ensures
        opt_list_view(r) == opt_list_view(*v),
{
    match v {
        Some(l) => {
            let mut out: Vec<usize> = Vec::new();
            let n = l.len();
            let mut k: usize = 0;
            while k < n
                invariant
                    n == l@.len(),
                    k <= n,
                    out@ == l@.subrange(0, k as int),
                decreases n - k,
            {
                out.push(l[k]);
                k = k + 1;
            }
            assert(out@ =~= l@);
            Some(out)
        },
        None => None,
    }
}

/// Whether a list holds `x`.
fn list_contains(v: &Option<Vec<usize>>, x: usize) -> (r: bool)
    ensures
        r == opt_contains(*v, x),
{
    match v {
        Some(l) => {
            let n = l.len();
            let mut k: usize = 0;
            while k < n
                invariant
                    n == l@.len(),
                    opt_list_view(*v) == Some(l@),
                    k <= n,
                    forall|i: int| 0 <= i < k ==> l@[i] != x,
                decreases n - k,
            {
                if l[k] == x {
                    assert(l@[k as int] == x);
                    assert(l@.contains(x));
                    return true;
                }
                k = k + 1;
            }
            false
        },
        None => false,
    }
}

impl Chronograph {
    /// The arrows are in increasing trace order and no more than the buffer holds.
    pub open spec fn spec_wf(self) -> bool {
        &&& arrows_in_trace_order(self.arrows@)
        &&& self.arrows@.len() <= MAX_MESSAGE_ARROWS
    }

    /// An empty chronograph.
    pub fn new() -> (r: Self)
        ensures
            r.spec_wf(),
            r.current_index == 0,
            r.arrows@.len() == 0,
            !r.should_scroll,
            r.related_parent is None,
            r.related_child is None,
    {
        Chronograph {
            current_index: 0,
            arrows: Vec::new(),
            should_scroll: false,
            related_parent: None,
            related_child: None,
        }
    }

    /// Colour and width (in tenths) of the arrow at position `k`.
    pub fn arrow_style(&self, k: usize) -> (r: (Rgb, u8))
        requires
            k < self.arrows@.len(),
        ensures
            r == arrow_style(
                self.arrows@[k as int].trace_index == self.current_index,
                opt_contains(self.related_parent, self.arrows@[k as int].trace_index) || opt_contains(
                    self.related_child,
                    self.arrows@[k as int].trace_index,
                ),
            ),
    {
        let t = self.arrows[k].trace_index;
        if t == self.current_index {
            (Rgb { r: 50, g: 120, b: 220 }, 30)
        } else if list_contains(&self.related_parent, t) || list_contains(&self.related_child, t) {
            (Rgb { r: 130, g: 180, b: 240 }, 25)
        } else {
            (Rgb { r: 0, g: 0, b: 0 }, 15)
        }
    }

    /// Position of the focused arrow, if it is on the chronograph.
    pub fn current_position(&self) -> (r: Option<usize>)
        ensures
            match r {
                Some(k) => k < self.arrows@.len() && self.arrows@[k as int].trace_index == self.current_index
                    && forall|i: int| 0 <= i < k ==> self.arrows@[i].trace_index != self.current_index,
                None => forall|i: int|
                    0 <= i < self.arrows@.len() ==> self.arrows@[i].trace_index != self.current_index,
            },
    {
        let n = self.arrows.len();
        let mut k: usize = 0;
        while k < n
            invariant
                n == self.arrows@.len(),
                k <= n,
                forall|i: int| 0 <= i < k ==> self.arrows@[i].trace_index != self.current_index,
            decreases n - k,
        {
            if self.arrows[k].trace_index == self.current_index {
                return Some(k);
            }
            k = k + 1;
        }
        None
    }
}

impl EventSubscriber for Chronograph {
    open spec fn wf(&self) -> bool {
        self.spec_wf()
    }

    /// Adds the arrow of the trace in trace order, unless it is there already; beyond
    /// the buffer, the oldest arrow goes.
    fn on_event_added(&mut self, event: &Trace, index: usize, context: &EventContext)
    {
        match MessageArrow::from_trace(event, index) {
            Some(arrow) => {
                let ghost v = arrow_indices(self.arrows@);
                let n = self.arrows.len();
                let mut k: usize = 0;
                while k < n
                    invariant
                        n == self.arrows@.len(),
                        *self == *old(self),
                        self.spec_wf(),
                        v == arrow_indices(self.arrows@),
                        k <= n,
                        forall|i: int| 0 <= i < k ==> self.arrows@[i].trace_index != index,
                    decreases n - k,
                {
                    if self.arrows[k].trace_index == index {
                        assert(v[k as int] == index);
                        return;
                    }
                    k = k + 1;
                }
                proof {
                    assert forall|i: int| 0 <= i < v.len() implies v[i] != index by {
                        assert(v[i] == self.arrows@[i].trace_index);
                    }
                }
                let mut pos: usize = 0;
                while pos < n && !(self.arrows[pos].trace_index > index)
                    invariant
                        n == self.arrows@.len(),
                        v == arrow_indices(self.arrows@),
                        pos <= n,
                        forall|i: int| 0 <= i < pos ==> self.arrows@[i].trace_index <= index,
                        first_above(v, index, 0) == first_above(v, index, pos as int),
                    decreases n - pos,
                {
                    assert(v[pos as int] == self.arrows@[pos as int].trace_index);
                    pos = pos + 1;
                }
                proof {
                    if pos < n {
                        assert(v[pos as int] == self.arrows@[pos as int].trace_index);
                    }
                }
                let ghost before = self.arrows@;
                self.arrows.insert(pos, arrow);
                assert(arrow_indices(self.arrows@) =~= v.insert(pos as int, index));
                if self.arrows.len() > MAX_MESSAGE_ARROWS {
                    let ghost w = self.arrows@;
                    self.arrows.remove(0);
                    assert(arrow_indices(self.arrows@) =~= arrow_indices(w).drop_first());
                }
                proof {
                    assert forall|i: int, j: int| 0 <= i < j < self.arrows@.len() implies (
                    #[trigger] self.arrows@[i]).trace_index < (#[trigger] self.arrows@[j]).trace_index by {
                        let w = before.insert(pos as int, arrow);
                        let off: int = if w.len() > MAX_MESSAGE_ARROWS { 1 } else { 0 };
                        assert(self.arrows@[i] == w[i + off]);
                        assert(self.arrows@[j] == w[j + off]);
                        let a = i + off;
                        let b = j + off;
                        if b < pos {
                            assert(w[a] == before[a] && w[b] == before[b]);
                        } else if b == pos {
                            assert(w[a] == before[a]);
                        } else if a < pos {
                            assert(w[a] == before[a] && w[b] == before[b - 1]);
                            if pos < n {
                                assert(before[pos as int].trace_index >= index);
                            }
                        } else if a == pos {
                            assert(w[b] == before[b - 1]);
                            assert(before[pos as int].trace_index >= index);
                            assert(before[pos as int].trace_index != index);
                        } else {
                            assert(w[a] == before[a - 1] && w[b] == before[b - 1]);
                        }
                    }
                }
            },
            None => {},
        }
    }

    /// Focuses the trace: scroll to it, and highlight the traces it is related to.
    fn on_event_focused(&mut self, event: &Trace, index: usize, context: &EventContext)
    {
        self.current_index = index;
        self.should_scroll = true;
        self.related_parent = copy_list(&event.relation.parents);
        self.related_child = copy_list(&event.relation.children);
    }

    /// Forgets the arrows.
    fn on_events_cleared(&mut self)
    {
        self.arrows = Vec::new();
        self.current_index = 0;
        self.should_scroll = false;
        self.related_parent = None;
        self.related_child = None;
    }

    /// The chronograph does not depend on the metadata.
    fn on_metadata_changed(&mut self, metadata: &FileMetadata)
    {
    }

    open spec fn spec_name(&self) -> &'static str {
        "Chronograph"
    }

    fn name(&self) -> (r: &'static str) {
        "Chronograph"
    }

    open spec fn spec_added(&self, after: Self, event: Trace, index: usize, context: EventContext) -> bool {
        &&& (after.current_index == self.current_index)
        &&& (after.related_parent == self.related_parent)
        &&& (after.related_child == self.related_child)
        &&& (match message_arrow_of(event) {
            Some(_) => if arrow_indices(self.arrows@).contains(index) {
                arrow_indices(after.arrows@) == arrow_indices(self.arrows@)
            } else {
                let w = arrow_indices(self.arrows@).insert(
                    first_above(arrow_indices(self.arrows@), index, 0),
                    index,
                );
                arrow_indices(after.arrows@) == if w.len() > MAX_MESSAGE_ARROWS {
                    w.drop_first()
                } else {
                    w
                }
            },
            None => arrow_indices(after.arrows@) == arrow_indices(self.arrows@),
        })
    }

    open spec fn spec_focused(&self, after: Self, event: Trace, index: usize, context: EventContext) -> bool {
        &&& (after.current_index == index)
        &&& (after.should_scroll)
        &&& (opt_list_view(after.related_parent) == opt_list_view(event.relation.parents))
        &&& (opt_list_view(after.related_child) == opt_list_view(event.relation.children))
        &&& (after.arrows == self.arrows)
    }

    open spec fn spec_cleared(&self, after: Self) -> bool {
        &&& (after.arrows@.len() == 0)
        &&& (after.current_index == 0)
        &&& (!after.should_scroll)
        &&& (after.related_parent is None)
        &&& (after.related_child is None)
    }

    open spec fn spec_metadata_changed(&self, after: Self, metadata: FileMetadata) -> bool {
        &&& (after == *self)
    }
}

} // verus!
