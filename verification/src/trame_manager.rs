//! Navigation through the loaded traces that skips the layers filtered out, and asks for
//! more logs when it reaches the end of what is loaded.

use vstd::prelude::*;
use crate::model::{LayerLogLevel, Layers, Trace};

verus! {

/// The loaded traces and the focused one.
pub struct Data {
    /// Loaded traces
    pub events: Vec<Trace>,
    /// Index of the focused trace
    pub current_index: usize,
}

/// Layer filter and requests for more logs.
pub struct TrameManager {
    /// Layers shown
    pub layers_list: Layers,
    /// More logs are to be requested
    pub should_get_more_log: bool,
    /// The navigation continues once more logs are loaded
    pub continue_navigation_after_load: bool,
}

/// The first trace after `from` (and up to `to` excluded) whose layer is shown.
pub open spec fn next_enabled(events: Seq<Trace>, layers: Layers, from: int, to: int) -> Option<int>
    decreases to - from,
{
    if from + 1 >= to {
        None
    } else if layers.enabled(events[from + 1].layer) {
        Some(from + 1)
    } else {
        next_enabled(events, layers, from + 1, to)
    }
}

/// The last trace before `from` whose layer is shown.
pub open spec fn previous_enabled(events: Seq<Trace>, layers: Layers, from: int) -> Option<int>
    decreases from,
{
    if from <= 0 {
        None
    } else if layers.enabled(events[from - 1].layer) {
        Some(from - 1)
    } else {
        previous_enabled(events, layers, from - 1)
    }
}

/// The next shown trace is the first one after `from` and before `to` whose layer is
/// shown; there is none exactly when no trace in between is shown.
pub proof fn lemma_next_enabled(events: Seq<Trace>, layers: Layers, from: int, to: int)
    requires
        0 <= from,
        to <= events.len(),
    ensures
        match next_enabled(events, layers, from, to) {
            Some(j) => from < j < to && layers.enabled(events[j].layer) && forall|k: int|
                from < k < j ==> !layers.enabled(#[trigger] events[k].layer),
            None => forall|k: int| from < k < to ==> !layers.enabled(#[trigger] events[k].layer),
        },
    decreases to - from,
{
    if from + 1 < to && !layers.enabled(events[from + 1].layer) {
        lemma_next_enabled(events, layers, from + 1, to);
    }
}

/// The previous shown trace is the last one before `from` whose layer is shown; there is
/// none exactly when no trace before it is shown.
pub proof fn lemma_previous_enabled(events: Seq<Trace>, layers: Layers, from: int)
    requires
        from <= events.len(),
    ensures
        match previous_enabled(events, layers, from) {
            Some(j) => 0 <= j < from && layers.enabled(events[j].layer) && forall|k: int|
                j < k < from ==> !layers.enabled(#[trigger] events[k].layer),
            None => forall|k: int| 0 <= k < from ==> !layers.enabled(#[trigger] events[k].layer),
        },
    decreases from,
{
    if from > 0 && !layers.enabled(events[from - 1].layer) {
        lemma_previous_enabled(events, layers, from - 1);
    }
}

/// Whether a box of the layer options is ticked (the layer is at debug level).
pub fn is_checked(level: LayerLogLevel) -> (r: bool)
    ensures
        r == (level == LayerLogLevel::Debug),
{
    match level {
        LayerLogLevel::Debug => true,
        LayerLogLevel::Warn => false,
    }
}

/// The level a ticked or unticked box stands for.
pub fn level_for(checked: bool) -> (r: LayerLogLevel)
    ensures
        r == if checked { LayerLogLevel::Debug } else { LayerLogLevel::Warn },
{
    if checked {
        LayerLogLevel::Debug
    } else {
        LayerLogLevel::Warn
    }
}

impl TrameManager {
    /// A manager with the default layers (RRC only) and nothing requested.
    pub fn new() -> (r: Self)
        ensures
            r.layers_list == Layers::spec_optiniated(),
            !r.should_get_more_log,
            !r.continue_navigation_after_load,
    {
        TrameManager {
            layers_list: Layers::new_optiniated(),
            should_get_more_log: false,
            continue_navigation_after_load: false,
        }
    }

    /// Goes on to the next shown trace once more logs are loaded.
    pub fn continue_to_next_enabled(&mut self, data: &mut Data, is_full_read: bool)
        requires
            old(data).events@.len() == 0 || old(data).events@.len() >= 5,
            old(data).current_index < usize::MAX,
        ensures
            next_done(*old(self), *final(self), *old(data), *final(data), is_full_read),
    {
        self.go_to_next_enabled_event(data, is_full_read);
    }

    /// Goes back to the previous shown trace.
    pub fn go_to_previous_enabled(&mut self, data: &mut Data)
        ensures
            *final(self) == *old(self),
            final(data).events == old(data).events,
            final(data).current_index == match previous_enabled(
                old(data).events@,
                old(self).layers_list,
                old(data).current_index as int,
            ) {
                Some(i) => if old(data).current_index <= old(data).events@.len() {
                    i as usize
                } else {
                    (old(data).current_index - 1) as usize
                },
                None => if old(data).current_index > old(data).events@.len() {
                    (old(data).current_index - 1) as usize
                } else {
                    0
                },
            },
    {
        self.go_to_previous_enabled_event(data);
    }

}

/// What going to the next shown trace does: it is focused when loaded; otherwise the
/// focus moves to the last loaded trace and, unless the source is read to its end, more
/// logs are requested and the navigation is to go on after. Near the end of what is
/// loaded (the last five), more logs are requested too.
pub open spec fn next_done(
    old_self: TrameManager,
    new_self: TrameManager,
    old_data: Data,
    new_data: Data,
    is_full_read: bool,
) -> bool {
    let len = old_data.events@.len() as int;
    let cur = old_data.current_index as int;
    let found = next_enabled(old_data.events@, old_self.layers_list, cur, len);
    let new_cur = match found {
        Some(i) => i,
        None => if cur + 1 < len { len - 1 } else { cur },
    };
    let waiting = found is None && !is_full_read;
    let preload = len > 0 && new_cur >= len - 5 && !is_full_read;
    &&& new_data.events == old_data.events
    &&& new_data.current_index == new_cur
    &&& new_self.layers_list == old_self.layers_list
    &&& new_self.continue_navigation_after_load == (old_self.continue_navigation_after_load || waiting)
    &&& new_self.should_get_more_log == (old_self.should_get_more_log || waiting || preload)
}

impl TrameManager {
    /// Goes to the next shown trace (see `next_done`).
    fn go_to_next_enabled_event(&mut self, data: &mut Data, is_full_read: bool)
        requires
            old(data).events@.len() == 0 || old(data).events@.len() >= 5,
            old(data).current_index < usize::MAX,
        ensures
            next_done(*old(self), *final(self), *old(data), *final(data), is_full_read),
    {
        let ghost cur0 = data.current_index as int;
        let len = data.events.len();
        loop
            invariant_except_break
                *self == *old(self),
                next_enabled(data.events@, self.layers_list, cur0, len as int) == next_enabled(
                    data.events@,
                    self.layers_list,
                    data.current_index as int,
                    len as int,
                ),
            invariant
                data.events == old(data).events,
                len == data.events@.len(),
                cur0 == old(data).current_index,
                cur0 < usize::MAX,
                cur0 <= data.current_index,
                data.current_index > cur0 ==> data.current_index < len,
                self.layers_list == old(self).layers_list,
            ensures
                data.events == old(data).events,
                ({
                    let found = next_enabled(old(data).events@, old(self).layers_list, cur0, len as int);
                    &&& data.current_index == match found {
                        Some(i) => i,
                        None => if cur0 + 1 < len { len - 1 } else { cur0 },
                    }
                    &&& self.layers_list == old(self).layers_list
                    &&& self.should_get_more_log == (old(self).should_get_more_log || (found is None
                        && !is_full_read))
                    &&& self.continue_navigation_after_load == (old(self).continue_navigation_after_load
                        || (found is None && !is_full_read))
                }),
            decreases len - data.current_index,
        {
            if len > data.current_index + 1 {
                data.current_index = data.current_index + 1;
                if self.layers_list.is_layer_enabled(&data.events[data.current_index].layer) {
                    break;
                }
            } else {
                if !is_full_read {
                    self.should_get_more_log = true;
                    self.continue_navigation_after_load = true;
                }
                break;
            }
        }
        if len > 0 && data.current_index >= len - 5 && !is_full_read {
            self.should_get_more_log = true;
        }
    }

    /// Goes back to the previous shown trace (see `go_to_previous_enabled`).
    fn go_to_previous_enabled_event(&mut self, data: &mut Data)
        ensures
            *final(self) == *old(self),
            final(data).events == old(data).events,
            final(data).current_index == match previous_enabled(
                old(data).events@,
                old(self).layers_list,
                old(data).current_index as int,
            ) {
                Some(i) => if old(data).current_index <= old(data).events@.len() {
                    i as usize
                } else {
                    (old(data).current_index - 1) as usize
                },
                None => if old(data).current_index > old(data).events@.len() {
                    (old(data).current_index - 1) as usize
                } else {
                    0
                },
            },
    {
        if data.current_index == 0 {
            return;
        }
        let len = data.events.len();
        let ghost cur0 = data.current_index as int;
        loop
            invariant_except_break
                cur0 <= len ==> previous_enabled(data.events@, self.layers_list, cur0)
                    == previous_enabled(data.events@, self.layers_list, data.current_index as int),
                cur0 > len ==> data.current_index == cur0,
            invariant
                data.events == old(data).events,
                len == data.events@.len(),
                *self == *old(self),
                data.current_index <= cur0,
                cur0 == old(data).current_index,
                cur0 > 0,
            ensures
                data.events == old(data).events,
                data.current_index == match previous_enabled(old(data).events@, old(self).layers_list, cur0) {
                    Some(i) => if cur0 <= len { i } else { cur0 - 1 },
                    None => if cur0 > len { cur0 - 1 } else { 0 },
                },
            decreases data.current_index,
        {
            if data.current_index > 0 {
                data.current_index = data.current_index - 1;
                if data.current_index < len {
                    if self.layers_list.is_layer_enabled(&data.events[data.current_index].layer) {
                        break;
                    }
                } else {
                    break;
                }
            } else {
                break;
            }
        }
    }
}

} // verus!
