//! Navigation panel: the decisions behind its controls (what is shown, when the buttons
//! are enabled, what an edited index asks for) and the rendering of timestamps.

use vstd::prelude::*;
use crate::format::{dec_digits, decimal, fmt_int, format_int};
use crate::model::Trace;
use crate::text::{parse_usize, spec_parse_usize};

verus! {

/// What the navigation panel shows of the application.
pub struct NavState<'a> {
    /// Index of the focused event
    pub current_index: usize,
    /// Number of loaded events
    pub event_count: usize,
    /// The focused event, if any
    pub current_event: Option<&'a Trace>,
    /// Number of events of the source, when known
    pub total_count: Option<usize>,
    /// Whether the source has been read to its end
    pub is_fully_loaded: bool,
    /// For a WebSocket source: whether it is available and whether it auto-loads
    pub ws_info: Option<(bool, bool)>,
}

/// Requests made through the navigation panel, and the state of its index editor.
pub struct NavigationPanel {
    /// Go to the next event
    pub should_go_next: bool,
    /// Go to the previous event
    pub should_go_previous: bool,
    /// Toggle the auto-loading of a WebSocket source
    pub should_toggle_auto_loading: bool,
    /// Go to this event (0-based)
    pub should_goto_event: Option<usize>,
    /// The index label is being edited
    pub editing_index: bool,
    /// The editor was just opened (it takes the focus once)
    pub just_entered_edit: bool,
    /// Text of the index editor
    pub index_edit_buf: String,
}

/// Quotient of a truncating division (`/` on signed integers), for `b > 0`.
pub open spec fn tdiv(a: int, b: int) -> int {
    if a >= 0 {
        a / b
    } else {
        -((-a) / b)
    }
}

/// Remainder of a truncating division (`%` on signed integers), for `b > 0`.
pub open spec fn trem(a: int, b: int) -> int {
    a - b * tdiv(a, b)
}

/// `HH:MM:SS.FFF` of a number of milliseconds (each part as `{:02}` / `{:03}` writes it,
/// with the signs that truncating division gives).
pub open spec fn spec_format_timestamp(ms: int) -> Seq<char> {
    let total_seconds = tdiv(ms, 1000);
    let milliseconds = trem(ms, 1000);
    let hours = tdiv(total_seconds, 3600);
    let minutes = tdiv(trem(total_seconds, 3600), 60);
    let seconds = trem(total_seconds, 60);
    fmt_int(hours, 2) + seq![':'] + fmt_int(minutes, 2) + seq![':'] + fmt_int(seconds, 2) + seq!['.']
        + fmt_int(milliseconds, 3)
}

/// The index shown for the focused event (1-based; 0 when nothing is loaded).
pub open spec fn spec_current_display(state: NavState) -> int {
    if state.event_count == 0 {
        0
    } else {
        state.current_index + 1
    }
}

/// The last index that can be asked for: the size of the source when known, else the
/// number of loaded events.
pub open spec fn spec_max_event(state: NavState) -> usize {
    match state.total_count {
        Some(t) => t,
        None => state.event_count,
    }
}

/// The event an edited index asks for: a number between 1 and `max_event`, made 0-based.
pub open spec fn spec_goto_target(buf: Seq<char>, max_event: usize) -> Option<usize> {
    match spec_parse_usize(buf) {
        Some(n) => if 1 <= n && n <= max_event {
            Some((n - 1) as usize)
        } else {
            None
        },
        None => None,
    }
}

impl NavigationPanel {
    /// A panel with no pending request and a closed editor.
    pub fn new() -> (r: Self)
        ensures
            !r.should_go_next,
            !r.should_go_previous,
            !r.should_toggle_auto_loading,
            r.should_goto_event is None,
            !r.editing_index,
            !r.just_entered_edit,
            r.index_edit_buf@ == Seq::<char>::empty(),
    {
        NavigationPanel {
            should_go_next: false,
            should_go_previous: false,
            should_toggle_auto_loading: false,
            should_goto_event: None,
            editing_index: false,
            just_entered_edit: false,
            index_edit_buf: String::new(),
        }
    }

    /// Title of the panel's window.
    pub fn window_title(&self) -> (r: &'static str)
        ensures
            r@ == "📊 Navigation Panel"@,
    {
        "📊 Navigation Panel"
    }

    /// `HH:MM:SS.FFF` of a timestamp in milliseconds.
    pub fn format_timestamp(ms: i64) -> (r: String)
        ensures
            r@ == spec_format_timestamp(ms as int),
    {
        let total_seconds = ms / 1000;
        let milliseconds = ms % 1000;
        let hours = total_seconds / 3600;
        let minutes = (total_seconds % 3600) / 60;
        let seconds = total_seconds % 60;
        proof {
            reveal_strlit(":");
            reveal_strlit(".");
        }
        let mut out = format_int(hours, 2);
        out.append(":");
        out.append(format_int(minutes, 2).as_str());
        out.append(":");
        out.append(format_int(seconds, 2).as_str());
        out.append(".");
        out.append(format_int(milliseconds, 3).as_str());
        out
    }

    /// The index shown for the focused event.
    pub fn current_display(state: &NavState) -> (r: usize)
        requires
            state.current_index < usize::MAX,
        ensures
            r == spec_current_display(*state),
    {
        if state.event_count == 0 {
            0
        } else {
            state.current_index + 1
        }
    }

    /// The last index that can be asked for.
    pub fn max_event(state: &NavState) -> (r: usize)
        ensures
            r == spec_max_event(*state),
    {
        match state.total_count {
            Some(t) => t,
            None => state.event_count,
        }
    }

    /// The "previous" button is enabled when an event precedes the focused one.
    pub fn can_go_previous(state: &NavState) -> (r: bool)
        ensures
            r == (state.current_index > 0),
    {
        state.current_index > 0
    }

    /// The focused event is the last one and the source has nothing more: the "next"
    /// button is disabled.
    pub fn is_at_end(state: &NavState) -> (r: bool)
        ensures
            r == (state.event_count > 0 && state.current_index >= state.event_count - 1
                && state.is_fully_loaded),
    {
        state.event_count > 0 && state.current_index >= state.event_count - 1 && state.is_fully_loaded
    }

    /// Label of the "next" button: it starts the navigation when nothing is loaded.
    pub fn next_button_text(state: &NavState) -> (r: &'static str)
        ensures
            r@ == if state.event_count == 0 { "▶ Start"@ } else { "▶ Next"@ },
    {
        if state.event_count == 0 {
            "▶ Start"
        } else {
            "▶ Next"
        }
    }

    /// Opens the index editor on the shown index.
    pub fn start_index_edit(&mut self, current_display: usize)
        ensures
            final(self).editing_index,
            final(self).just_entered_edit,
            final(self).index_edit_buf@ == dec_digits(current_display as nat),
            final(self).should_goto_event == old(self).should_goto_event,
            final(self).should_go_next == old(self).should_go_next,
            final(self).should_go_previous == old(self).should_go_previous,
            final(self).should_toggle_auto_loading == old(self).should_toggle_auto_loading,
    {
        self.editing_index = true;
        self.just_entered_edit = true;
        self.index_edit_buf = decimal(current_display as u64);
    }

    /// Closes the index editor; a valid index (1 to `max_event`) becomes a request to go to
    /// that event.
    pub fn commit_index_edit(&mut self, max_event: usize)
        ensures
            !final(self).editing_index,
            final(self).should_goto_event == match spec_goto_target(
                old(self).index_edit_buf@,
                max_event,
            ) {
                Some(i) => Some(i),
                None => old(self).should_goto_event,
            },
            final(self).index_edit_buf == old(self).index_edit_buf,
            final(self).just_entered_edit == old(self).just_entered_edit,
            final(self).should_go_next == old(self).should_go_next,
            final(self).should_go_previous == old(self).should_go_previous,
            final(self).should_toggle_auto_loading == old(self).should_toggle_auto_loading,
    {
        match parse_usize(self.index_edit_buf.as_str()) {
            Some(n) => {
                if n >= 1 && n <= max_event {
                    self.should_goto_event = Some(n - 1);
                }
            },
            None => {},
        }
        self.editing_index = false;
    }
}

} // verus!
