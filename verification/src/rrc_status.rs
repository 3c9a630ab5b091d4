//! RRC connection status: a state machine driven by the RRC messages of a capture,
//! with a history that lets the display follow the focused event back and forth.

use vstd::prelude::*;
use crate::event_bus::{EventContext, EventSubscriber};
use crate::model::{AdditionalInfos, Direction, FileMetadata, Layer, Technology, Trace};
use crate::text::{
    char_is_digit, char_is_ws, chars_of, contains, contains_ignore_case,
    contains_ignore_case_chars, eq_ignore_case, eq_ignore_case_exec, is_digit, is_ws, str_contains,
};

verus! {

/// RRC connection states.
#[derive(Clone, Copy, PartialEq, Eq, Structural, Debug)]
pub enum RrcState {
    /// UE is idle
    Idle,
    /// UE is inactive (NR only)
    Inactive,
    /// UE is connected
    Connected,
}

/// Messages that drive the RRC state machine of one technology.
#[derive(Clone, Copy, Debug)]
pub struct RrcStateMachine {
    /// Connection request (implies the UE is idle)
    pub connection_request_msg: &'static str,
    /// Idle to connected
    pub idle_to_connected_msg: &'static str,
    /// Connected to idle
    pub connected_to_idle_msg: &'static str,
    /// Connected to inactive (NR only)
    pub to_inactive_msg: Option<&'static str>,
    /// Inactive to connected (NR only)
    pub inactive_to_connected_msg: Option<&'static str>,
}

/// State machine of LTE.
pub open spec fn lte_machine() -> RrcStateMachine {
    RrcStateMachine {
        connection_request_msg: "RRC connection request",
        idle_to_connected_msg: "RRC connection setup complete",
        connected_to_idle_msg: "RRC connection release",
        to_inactive_msg: None,
        inactive_to_connected_msg: None,
    }
}

/// State machine of NR.
pub open spec fn nr_machine() -> RrcStateMachine {
    RrcStateMachine {
        connection_request_msg: "RRC setup request",
        idle_to_connected_msg: "RRC setup complete",
        connected_to_idle_msg: "RRC release",
        to_inactive_msg: Some("RRC suspendConfig"),
        inactive_to_connected_msg: Some("RRC resume complete"),
    }
}

/// State machine used for a technology (LTE when unknown).
pub open spec fn machine_for(tech: Technology) -> RrcStateMachine {
    match tech {
        Technology::NR => nr_machine(),
        _ => lte_machine(),
    }
}

/// `msg` is the optional configured message `target`.
pub open spec fn is_opt_msg(msg: Seq<char>, target: Option<&'static str>) -> bool {
    match target {
        Some(t) => eq_ignore_case(msg, t@),
        None => false,
    }
}

impl RrcStateMachine {
    /// Whether a message is pertinent to the connection state: one of the configured
    /// messages, or a message mentioning `rrc setup` or `rrc connection setup` in any case.
    pub open spec fn spec_is_pertinent(self, msg: Seq<char>) -> bool {
        ||| eq_ignore_case(msg, self.connection_request_msg@)
        ||| eq_ignore_case(msg, self.idle_to_connected_msg@)
        ||| eq_ignore_case(msg, self.connected_to_idle_msg@)
        ||| is_opt_msg(msg, self.to_inactive_msg)
        ||| is_opt_msg(msg, self.inactive_to_connected_msg)
        ||| contains_ignore_case(msg, "rrc setup"@)
        ||| contains_ignore_case(msg, "rrc connection setup"@)
    }

    /// State machine of LTE.
    pub fn lte() -> (r: Self)
        ensures
            r == lte_machine(),
    {
        RrcStateMachine {
            connection_request_msg: "RRC connection request",
            idle_to_connected_msg: "RRC connection setup complete",
            connected_to_idle_msg: "RRC connection release",
            to_inactive_msg: None,
            inactive_to_connected_msg: None,
        }
    }

    /// State machine of NR.
    pub fn nr() -> (r: Self)
        ensures
            r == nr_machine(),
    {
        RrcStateMachine {
            connection_request_msg: "RRC setup request",
            idle_to_connected_msg: "RRC setup complete",
            connected_to_idle_msg: "RRC release",
            to_inactive_msg: Some("RRC suspendConfig"),
            inactive_to_connected_msg: Some("RRC resume complete"),
        }
    }

    /// State machine of a technology (LTE when unknown).
    pub fn for_technology(tech: Technology) -> (r: Self)
        ensures
            r == machine_for(tech),
    {
        match tech {
            Technology::LTE => Self::lte(),
            Technology::NR => Self::nr(),
            Technology::Unknown => Self::lte(),
        }
    }

    /// Case-insensitive (ASCII) equality between a message and a configured message.
    pub fn message_is(candidate: &str, target: &str) -> (r: bool)
        ensures
            r == eq_ignore_case(candidate@, target@),
    {
        let c = chars_of(candidate);
        let t = chars_of(target);
        eq_ignore_case_exec(&c, &t)
    }

    /// Whether `canal_msg` is pertinent to the connection state.
    ///
    /// The two substring tests fold ASCII letters only; on these two lower-case needles
    /// this agrees with a full Unicode lower-casing of the message.
    pub fn is_pertinent_message(&self, canal_msg: &str) -> (r: bool)
        ensures
            r == self.spec_is_pertinent(canal_msg@),
    {
        if Self::message_is(canal_msg, self.connection_request_msg) {
            return true;
        }
        if Self::message_is(canal_msg, self.idle_to_connected_msg) {
            return true;
        }
        if Self::message_is(canal_msg, self.connected_to_idle_msg) {
            return true;
        }
        match self.to_inactive_msg {
            Some(m) => {
                if Self::message_is(canal_msg, m) {
                    return true;
                }
            },
            None => {},
        }
        match self.inactive_to_connected_msg {
            Some(m) => {
                if Self::message_is(canal_msg, m) {
                    return true;
                }
            },
            None => {},
        }
        let msg = chars_of(canal_msg);
        let setup = chars_of("rrc setup");
        if contains_ignore_case_chars(&msg, &setup) {
            return true;
        }
        let conn_setup = chars_of("rrc connection setup");
        contains_ignore_case_chars(&msg, &conn_setup)
    }
}

/// State after an RRC message `msg`, from state `state`, for the machine `sm`; the
/// inactive transitions apply only when the panel's technology is NR.
pub open spec fn next_state(
    state: RrcState,
    msg: Seq<char>,
    sm: RrcStateMachine,
    tech: Technology,
) -> RrcState {
    if eq_ignore_case(msg, sm.connection_request_msg@) {
        RrcState::Idle
    } else if state == RrcState::Idle && eq_ignore_case(msg, sm.idle_to_connected_msg@) {
        RrcState::Connected
    } else if state == RrcState::Connected && eq_ignore_case(msg, sm.connected_to_idle_msg@) {
        RrcState::Idle
    } else if tech == Technology::NR && state == RrcState::Connected && is_opt_msg(
        msg,
        sm.to_inactive_msg,
    ) {
        RrcState::Inactive
    } else if tech == Technology::NR && state == RrcState::Inactive && is_opt_msg(
        msg,
        sm.inactive_to_connected_msg,
    ) {
        RrcState::Connected
    } else {
        state
    }
}

/// A connection request means the UE is idle, whatever the state before: from any state,
/// a message equal (ignoring ASCII case) to the machine's connection request leads to
/// idle.
pub proof fn lemma_connection_request_is_idle(
    state: RrcState,
    msg: Seq<char>,
    sm: RrcStateMachine,
    tech: Technology,
)
    requires
        eq_ignore_case(msg, sm.connection_request_msg@),
    ensures
        next_state(state, msg, sm, tech) == RrcState::Idle,
{
}

/// From idle, the message that completes a connection (and is not the connection request)
/// connects; from connected, the release (and not the request) makes idle.
pub proof fn lemma_connect_and_release(msg: Seq<char>, sm: RrcStateMachine, tech: Technology)
    requires
        !eq_ignore_case(msg, sm.connection_request_msg@),
    ensures
        eq_ignore_case(msg, sm.idle_to_connected_msg@) ==> next_state(RrcState::Idle, msg, sm, tech)
            == RrcState::Connected,
        eq_ignore_case(msg, sm.connected_to_idle_msg@) ==> next_state(
            RrcState::Connected,
            msg,
            sm,
            tech,
        ) == RrcState::Idle,
{
}

/// Outside NR there is no inactive state: a state is never made inactive, and the
/// suspend and resume messages change nothing.
pub proof fn lemma_inactive_only_in_nr(state: RrcState, msg: Seq<char>, sm: RrcStateMachine, tech: Technology)
    requires
        tech != Technology::NR,
        state != RrcState::Inactive,
    ensures
        next_state(state, msg, sm, tech) != RrcState::Inactive,
{
}

/// A message that names none of the machine's transitions leaves the state as it is.
pub proof fn lemma_other_message_keeps_state(
    state: RrcState,
    msg: Seq<char>,
    sm: RrcStateMachine,
    tech: Technology,
)
    requires
        !eq_ignore_case(msg, sm.connection_request_msg@),
        !eq_ignore_case(msg, sm.idle_to_connected_msg@),
        !eq_ignore_case(msg, sm.connected_to_idle_msg@),
        !is_opt_msg(msg, sm.to_inactive_msg),
        !is_opt_msg(msg, sm.inactive_to_connected_msg),
    ensures
        next_state(state, msg, sm, tech) == state,
{
}

/// `[i, j)` is a maximal run of non-white-space characters of `s` (a token of
/// `split_whitespace`).
pub open spec fn is_token(s: Seq<char>, i: int, j: int) -> bool {
    &&& 0 <= i < j <= s.len()
    &&& (i == 0 || is_ws(s[i - 1]))
    &&& (j == s.len() || is_ws(s[j]))
    &&& forall|k: int| i <= k < j ==> !is_ws(#[trigger] s[k])
}

/// The token `[i, j)` is `SRB` or `DRB` followed by at least one decimal digit and
/// nothing else.
pub open spec fn is_bearer_token(s: Seq<char>, i: int, j: int) -> bool {
    &&& j - i > 3
    &&& (s[i] == 'S' || s[i] == 'D')
    &&& s[i + 1] == 'R'
    &&& s[i + 2] == 'B'
    &&& forall|k: int| i + 3 <= k < j ==> is_digit(#[trigger] s[k])
}

/// A line mentions a radio bearer id (`SRBn` or `DRBn` as a whole token).
pub open spec fn has_bearer_id(s: Seq<char>) -> bool {
    exists|i: int, j: int| is_token(s, i, j) && is_bearer_token(s, i, j)
}

/// Whether `v[i..j)` is a bearer token's text.
fn bearer_token_exec(v: &Vec<char>, i: usize, j: usize) -> (r: bool)
    requires
        i <= j <= v@.len(),
    ensures
        r == is_bearer_token(v@, i as int, j as int),
{
    if j - i <= 3 {
        return false;
    }
    if !((v[i] == 'S' || v[i] == 'D') && v[i + 1] == 'R' && v[i + 2] == 'B') {
        return false;
    }
    let mut k = i + 3;
    while k < j
        invariant
            i + 3 <= k <= j,
            j <= v@.len(),
            forall|m: int| i + 3 <= m < k ==> is_digit(#[trigger] v@[m]),
        decreases j - k,
    {
        if !char_is_digit(v[k]) {
            return false;
        }
        k = k + 1;
    }
    true
}

/// Whether a raw log line mentions a signalling or data radio bearer (`SRBx` / `DRBx`).
pub fn line_has_bearer_id(line: &str) -> (r: bool)
    ensures
        r == has_bearer_id(line@),
{
    let v = chars_of(line);
    let n = v.len();
    let mut i: usize = 0;
    while i < n
        invariant
            n == v@.len(),
            v@ == line@,
            i <= n,
            i == 0 || i == n || is_ws(v@[i - 1]),
            forall|a: int, b: int| is_token(v@, a, b) && a < i ==> !is_bearer_token(v@, a, b),
        decreases n - i,
    {
        if char_is_ws(v[i]) {
            i = i + 1;
        } else {
            let start = i;
            let mut j = i;
            while j < n && !char_is_ws(v[j])
                invariant
                    n == v@.len(),
                    start <= j <= n,
                    forall|k: int| start <= k < j ==> !is_ws(#[trigger] v@[k]),
                decreases n - j,
            {
                j = j + 1;
            }
            assert(is_token(v@, start as int, j as int));
            if bearer_token_exec(&v, start, j) {
                return true;
            }
            assert forall|a: int, b: int| is_token(v@, a, b) && a < j + 1 implies !is_bearer_token(
                v@,
                a,
                b,
            ) by {
                if a >= start as int {
                    if a == start as int {
                        if b < j as int {
                            assert(!is_ws(v@[b]));
                        } else if b > j as int {
                            assert(!is_ws(v@[j as int]));
                        }
                    } else if a < j as int {
                        assert(!is_ws(v@[a - 1]));
                    } else {
                        assert(is_ws(v@[j as int]));
                    }
                }
            }
            if j == n {
                i = n;
            } else {
                i = j + 1;
            }
        }
    }
    false
}

/// Why a trace alone implies the connection is already active: traffic on a dedicated
/// control channel, or an SRB/DRB mentioned on the first line of an RLC or PDCP trace.
pub open spec fn spec_shortcut(event: Trace) -> Option<&'static str> {
    match event.additional_infos {
        AdditionalInfos::RRCInfos(infos) => {
            if contains(infos.canal@, "DCCH"@) {
                Some("DCCH traffic")
            } else {
                None
            }
        },
        AdditionalInfos::Unstructured => {
            if (event.layer == Layer::RLC || event.layer == Layer::PDCP) && match event.text {
                Some(lines) => lines@.len() > 0 && has_bearer_id(lines@[0]@),
                None => false,
            } {
                Some("SRB/DRB traffic")
            } else {
                None
            }
        },
        _ => None,
    }
}

/// Whether a trace, by itself, implies the RRC connection must already be active;
/// returns the reason.
pub fn shortcut_active_reason(event: &Trace) -> (r: Option<&'static str>)
    ensures
        r == spec_shortcut(*event),
{
    match &event.additional_infos {
        AdditionalInfos::RRCInfos(infos) => {
            if str_contains(infos.canal.as_str(), "DCCH") {
                Some("DCCH traffic")
            } else {
                None
            }
        },
        AdditionalInfos::Unstructured => {
            if event.layer == Layer::RLC || event.layer == Layer::PDCP {
                match &event.text {
                    Some(lines) => {
                        if lines.len() > 0 && line_has_bearer_id(lines[0].as_str()) {
                            Some("SRB/DRB traffic")
                        } else {
                            None
                        }
                    },
                    None => None,
                }
            } else {
                None
            }
        },
        _ => None,
    }
}

/// A recorded state of the RRC connection, at the trace `index`.
#[derive(Clone, Debug)]
pub struct StateChange {
    /// Index of the trace
    pub index: usize,
    /// State after the trace
    pub state: RrcState,
    /// Channel of the trace (RRC traces only)
    pub canal: Option<String>,
    /// Message of the trace (RRC traces only)
    pub canal_msg: Option<String>,
    /// Direction of the trace
    pub direction: Option<Direction>,
}

/// The history is ordered by trace index.
pub open spec fn history_sorted(h: Seq<StateChange>) -> bool {
    forall|i: int, j: int| 0 <= i <= j < h.len() ==> #[trigger] h[i].index <= #[trigger] h[j].index
}

/// `p` splits the history into the entries at or before `target` and those after it.
pub open spec fn is_split(h: Seq<StateChange>, target: usize, p: int) -> bool {
    &&& 0 <= p <= h.len()
    &&& forall|i: int| 0 <= i < p ==> #[trigger] h[i].index <= target
    &&& forall|i: int| p <= i < h.len() ==> #[trigger] h[i].index > target
}

/// `p` is where a search for `target` stops: the entry before it (if any) is at or before
/// `target`, the entry at it (if any) is after `target`. On an ordered history this is the
/// split point of `is_split`.
pub open spec fn found_at(h: Seq<StateChange>, target: usize, p: int) -> bool {
    &&& 0 <= p <= h.len()
    &&& (p > 0 ==> h[p - 1].index <= target)
    &&& (p < h.len() ==> h[p].index > target)
}

/// On an ordered history the stopping point of the search is the split point.
pub proof fn lemma_found_at_is_split(h: Seq<StateChange>, target: usize, p: int)
    requires
        history_sorted(h),
        found_at(h, target, p),
    ensures
        is_split(h, target, p),
{
    assert forall|i: int| 0 <= i < p implies #[trigger] h[i].index <= target by {
        assert(h[i].index <= h[p - 1].index);
    }
    assert forall|i: int| p <= i < h.len() implies #[trigger] h[i].index > target by {
        assert(h[p].index <= h[i].index);
    }
}

/// State, channel and message shown by `f` are those of entry `p - 1` of `h`; with no
/// entry before `p` the connection is shown idle, with no channel and no message.
pub open spec fn shows_entry(f: RRCStatusPanel, h: Seq<StateChange>, p: int) -> bool {
    if p > 0 {
        &&& f.rrc_state == h[p - 1].state
        &&& f.canal == h[p - 1].canal
        &&& f.canal_msg == h[p - 1].canal_msg
    } else {
        &&& f.rrc_state == RrcState::Idle
        &&& f.canal is None
        &&& f.canal_msg is None
    }
}

/// `f` shows the state recorded in `h` for `target`: that of the last entry at or before
/// it on an ordered history, idle when there is none.
pub open spec fn shows_state_at(f: RRCStatusPanel, h: Seq<StateChange>, target: usize) -> bool {
    exists|p: int|
        #[trigger] found_at(h, target, p) && (history_sorted(h) ==> is_split(h, target, p))
            && shows_entry(f, h, p)
}

/// The shortcut forces the build state to connected.
pub open spec fn shortcut_applies(build: RrcState, event: Trace) -> bool {
    build != RrcState::Connected && spec_shortcut(event) is Some
}

/// Build state after the shortcut step.
pub open spec fn build_after_shortcut(build: RrcState, event: Trace) -> RrcState {
    if shortcut_applies(build, event) {
        RrcState::Connected
    } else {
        build
    }
}

/// History after the shortcut step.
pub open spec fn history_after_shortcut(
    h: Seq<StateChange>,
    build: RrcState,
    event: Trace,
    index: usize,
) -> Seq<StateChange> {
    if shortcut_applies(build, event) {
        h.push(
            StateChange {
                index,
                state: RrcState::Connected,
                canal: None,
                canal_msg: None,
                direction: event.additional_infos.spec_direction(),
            },
        )
    } else {
        h
    }
}

/// Direction shown for the focused trace: only for a pertinent RRC message.
pub open spec fn shown_direction(tech: Technology, focused: Option<&Trace>) -> Option<Direction> {
    match focused {
        Some(e) => match e.additional_infos {
            AdditionalInfos::RRCInfos(infos) => {
                if machine_for(tech).spec_is_pertinent(infos.canal_msg@) {
                    Some(infos.direction)
                } else {
                    None
                }
            },
            _ => None,
        },
        None => None,
    }
}

/// Panel state of the RRC connection status.
pub struct RRCStatusPanel {
    /// Channel shown
    pub canal: Option<String>,
    /// Message shown
    pub canal_msg: Option<String>,
    /// Direction shown
    pub direction: Option<Direction>,
    /// Index of the focused trace
    pub current_index: usize,
    /// State shown (a function of the history and the focused index)
    pub rrc_state: RrcState,
    /// State after the last added trace
    pub build_state: RrcState,
    /// Technology of the capture
    pub technology: Technology,
    /// Recorded states, in the order the traces were added
    pub state_history: Vec<StateChange>,
}

impl RRCStatusPanel {
    /// A panel with no history, idle, technology unknown.
    pub fn new() -> (r: Self)
        ensures
            r.canal is None,
            r.canal_msg is None,
            r.direction is None,
            r.current_index == 0,
            r.rrc_state == RrcState::Idle,
            r.build_state == RrcState::Idle,
            r.technology == Technology::Unknown,
            r.state_history@.len() == 0,
    {
        RRCStatusPanel {
            canal: None,
            canal_msg: None,
            direction: None,
            current_index: 0,
            rrc_state: RrcState::Idle,
            build_state: RrcState::Idle,
            technology: Technology::Unknown,
            state_history: Vec::new(),
        }
    }

    /// Advances the build state machine with `event` and records the resulting states;
    /// the displayed fields are left alone.
    pub fn process_rrc_event(&mut self, event: &Trace, index: usize, technology: Technology)
        ensures
            ({
                let b1 = build_after_shortcut(old(self).build_state, *event);
                let h1 = history_after_shortcut(
                    old(self).state_history@,
                    old(self).build_state,
                    *event,
                    index,
                );
                match event.additional_infos {
                    AdditionalInfos::RRCInfos(infos) => {
                        &&& final(self).build_state == next_state(
                            b1,
                            infos.canal_msg@,
                            machine_for(technology),
                            old(self).technology,
                        )
                        &&& final(self).state_history@ == h1.push(
                            StateChange {
                                index,
                                state: final(self).build_state,
                                canal: Some(infos.canal),
                                canal_msg: Some(infos.canal_msg),
                                direction: Some(infos.direction),
                            },
                        )
                    },
                    _ => {
                        &&& final(self).build_state == b1
                        &&& final(self).state_history@ == h1
                    },
                }
            }),
            final(self).canal == old(self).canal,
            final(self).canal_msg == old(self).canal_msg,
            final(self).direction == old(self).direction,
            final(self).current_index == old(self).current_index,
            final(self).rrc_state == old(self).rrc_state,
            final(self).technology == old(self).technology,
    {
        if self.build_state != RrcState::Connected {
            match shortcut_active_reason(event) {
                Some(_) => {
                    self.build_state = RrcState::Connected;
                    self.state_history.push(
                        StateChange {
                            index,
                            state: RrcState::Connected,
                            canal: None,
                            canal_msg: None,
                            direction: event.additional_infos.get_direction(),
                        },
                    );
                },
                None => {},
            }
        }
        match &event.additional_infos {
            AdditionalInfos::RRCInfos(infos) => {
                let state_machine = RrcStateMachine::for_technology(technology);
                self.update_build_state(infos.canal_msg.as_str(), &state_machine);
                self.state_history.push(
                    StateChange {
                        index,
                        state: self.build_state,
                        canal: Some(infos.canal.clone()),
                        canal_msg: Some(infos.canal_msg.clone()),
                        direction: Some(infos.direction),
                    },
                );
            },
            _ => {},
        }
    }

    /// Updates the build state with an RRC message.
    pub fn update_build_state(&mut self, canal_msg: &str, state_machine: &RrcStateMachine)
        ensures
            final(self).build_state == next_state(
                old(self).build_state,
                canal_msg@,
                *state_machine,
                old(self).technology,
            ),
            final(self).state_history@ == old(self).state_history@,
            final(self).canal == old(self).canal,
            final(self).canal_msg == old(self).canal_msg,
            final(self).direction == old(self).direction,
            final(self).current_index == old(self).current_index,
            final(self).rrc_state == old(self).rrc_state,
            final(self).technology == old(self).technology,
    {
        if RrcStateMachine::message_is(canal_msg, state_machine.connection_request_msg) {
            self.build_state = RrcState::Idle;
            return;
        }
        if self.build_state == RrcState::Idle && RrcStateMachine::message_is(
            canal_msg,
            state_machine.idle_to_connected_msg,
        ) {
            self.build_state = RrcState::Connected;
            return;
        }
        if self.build_state == RrcState::Connected && RrcStateMachine::message_is(
            canal_msg,
            state_machine.connected_to_idle_msg,
        ) {
            self.build_state = RrcState::Idle;
            return;
        }
        if self.technology == Technology::NR {
            if self.build_state == RrcState::Connected {
                match state_machine.to_inactive_msg {
                    Some(m) => {
                        if RrcStateMachine::message_is(canal_msg, m) {
                            self.build_state = RrcState::Inactive;
                            return;
                        }
                    },
                    None => {},
                }
            }
            if self.build_state == RrcState::Inactive {
                match state_machine.inactive_to_connected_msg {
                    Some(m) => {
                        if RrcStateMachine::message_is(canal_msg, m) {
                            self.build_state = RrcState::Connected;
                            return;
                        }
                    },
                    None => {},
                }
            }
        }
    }

    /// Restores the displayed fields from the most recent history entry at or before
    /// `target_index` (binary search), or shows the connection idle, with no channel,
    /// message or direction, when there is no such entry.
    pub fn navigate_to_index(&mut self, target_index: usize)
        ensures
            exists|p: int|
                #[trigger] found_at(old(self).state_history@, target_index, p) && (history_sorted(
                    old(self).state_history@,
                ) ==> is_split(old(self).state_history@, target_index, p)) && shows_entry(
                    *final(self),
                    old(self).state_history@,
                    p,
                ) && final(self).direction == (if p > 0 {
                    old(self).state_history@[p - 1].direction
                } else {
                    None
                }),
            final(self).state_history@ == old(self).state_history@,
            final(self).build_state == old(self).build_state,
            final(self).current_index == old(self).current_index,
            final(self).technology == old(self).technology,
    {
        let ghost h = self.state_history@;
        let n = self.state_history.len();
        let mut lo: usize = 0;
        let mut hi: usize = n;
        while lo < hi
            invariant
                h == self.state_history@,
                n == h.len(),
                lo <= hi <= n,
                lo > 0 ==> h[lo - 1].index <= target_index,
                hi < n ==> h[hi as int].index > target_index,
            decreases hi - lo,
        {
            let mid = lo + (hi - lo) / 2;
            if self.state_history[mid].index <= target_index {
                lo = mid + 1;
            } else {
                hi = mid;
            }
        }
        if lo > 0 {
            let sc = &self.state_history[lo - 1];
            self.rrc_state = sc.state;
            self.canal = sc.canal.clone();
            self.canal_msg = sc.canal_msg.clone();
            self.direction = sc.direction;
        } else {
            self.rrc_state = RrcState::Idle;
            self.canal = None;
            self.canal_msg = None;
            self.direction = None;
        }
        proof {
            assert(found_at(h, target_index, lo as int));
            if history_sorted(h) {
                lemma_found_at_is_split(h, target_index, lo as int);
            }
        }
    }

    /// Makes the displayed fields reflect the state at `target_index`; the direction is
    /// shown only when the focused trace is a pertinent RRC message.
    pub fn refresh_display(&mut self, target_index: usize, focused_event: Option<&Trace>)
        ensures
            shows_state_at(*final(self), old(self).state_history@, target_index),
            final(self).direction == shown_direction(old(self).technology, focused_event),
            final(self).state_history@ == old(self).state_history@,
            final(self).build_state == old(self).build_state,
            final(self).current_index == old(self).current_index,
            final(self).technology == old(self).technology,
    {
        self.navigate_to_index(target_index);
        let d = match focused_event {
            Some(e) => match &e.additional_infos {
                AdditionalInfos::RRCInfos(infos) => {
                    let state_machine = RrcStateMachine::for_technology(self.technology);
                    if state_machine.is_pertinent_message(infos.canal_msg.as_str()) {
                        Some(infos.direction)
                    } else {
                        None
                    }
                },
                _ => None,
            },
            None => None,
        };
        self.direction = d;
    }
}

/// A message that changes the connection state is always pertinent, so the direction
/// arrow is shown for every transition message.
pub proof fn lemma_transition_is_pertinent(
    state: RrcState,
    msg: Seq<char>,
    sm: RrcStateMachine,
    tech: Technology,
)
    requires
        next_state(state, msg, sm, tech) != state,
    ensures
        sm.spec_is_pertinent(msg),
{
}

/// Matching a message against a configured one does not depend on the order of the two.
pub proof fn lemma_message_is_symmetric(a: Seq<char>, b: Seq<char>)
    ensures
        eq_ignore_case(a, b) == eq_ignore_case(b, a),
{
}

/// A panel told of an RRC trace carrying the connection request of its technology's machine
/// builds the idle state and records it for that trace, whatever it built before.
pub proof fn lemma_added_connection_request_is_idle(
    panel: RRCStatusPanel,
    after: RRCStatusPanel,
    event: Trace,
    index: usize,
    context: EventContext,
)
    requires
        panel.spec_added(after, event, index, context),
        event.additional_infos matches AdditionalInfos::RRCInfos(infos) && eq_ignore_case(
            infos.canal_msg@,
            machine_for(panel.technology).connection_request_msg@,
        ),
    ensures
        after.build_state == RrcState::Idle,
        after.state_history@.len() > 0,
        after.state_history@.last().state == RrcState::Idle,
        after.state_history@.last().index == index,
{
}

impl EventSubscriber for RRCStatusPanel {
    /// Every state of the panel is a valid one.
    open spec fn wf(&self) -> bool {
        true
    }

    /// Records the trace in the history, then refreshes the display when the new trace is
    /// at or before the focused one.
    fn on_event_added(&mut self, event: &Trace, index: usize, context: &EventContext)
    {
        let tech = self.technology;
        self.process_rrc_event(event, index, tech);
        if index <= self.current_index {
            let cur = self.current_index;
            if cur < context.all_events.len() {
                self.refresh_display(cur, Some(&context.all_events[cur]));
            } else {
                self.refresh_display(cur, None);
            }
        }
    }

    /// Follows the focused trace: restores the state recorded at or before it.
    fn on_event_focused(&mut self, event: &Trace, index: usize, context: &EventContext)
    {
        self.current_index = index;
        self.refresh_display(index, Some(event));
    }

    /// Forgets everything.
    fn on_events_cleared(&mut self)
    {
        self.canal = None;
        self.canal_msg = None;
        self.direction = None;
        self.current_index = 0;
        self.rrc_state = RrcState::Idle;
        self.build_state = RrcState::Idle;
        self.technology = Technology::Unknown;
        self.state_history.clear();
    }

    /// Takes the technology of the capture.
    fn on_metadata_changed(&mut self, metadata: &FileMetadata)
    {
        if self.technology != metadata.technology {
            self.technology = metadata.technology;
        }
    }

    open spec fn spec_name(&self) -> &'static str {
        "RRC Status"
    }

    fn name(&self) -> (r: &'static str) {
        "RRC Status"
    }

    open spec fn spec_added(&self, after: Self, event: Trace, index: usize, context: EventContext) -> bool {
        &&& (after.current_index == self.current_index)
        &&& (after.technology == self.technology)
        &&& (history_sorted(self.state_history@) && (forall|i: int|
            0 <= i < self.state_history@.len() ==> #[trigger] self.state_history@[i].index <= index) ==> history_sorted(after.state_history@))
        &&& (index > self.current_index ==> {
            &&& after.rrc_state == self.rrc_state
            &&& after.canal == self.canal
            &&& after.canal_msg == self.canal_msg
            &&& after.direction == self.direction
        })
        &&& (index <= self.current_index ==> {
            &&& shows_state_at(after, after.state_history@, self.current_index)
            &&& after.direction == shown_direction(
                self.technology,
                if self.current_index < context.all_events@.len() {
                    Some(&context.all_events@[self.current_index as int])
                } else {
                    None
                },
            )
        })
        &&& (({
            let b1 = build_after_shortcut(self.build_state, event);
            let h1 = history_after_shortcut(
                self.state_history@,
                self.build_state,
                event,
                index,
            );
            match event.additional_infos {
                AdditionalInfos::RRCInfos(infos) => {
                    &&& after.build_state == next_state(
                        b1,
                        infos.canal_msg@,
                        machine_for(self.technology),
                        self.technology,
                    )
                    &&& after.state_history@ == h1.push(
                        StateChange {
                            index,
                            state: after.build_state,
                            canal: Some(infos.canal),
                            canal_msg: Some(infos.canal_msg),
                            direction: Some(infos.direction),
                        },
                    )
                },
                _ => {
                    &&& after.build_state == b1
                    &&& after.state_history@ == h1
                },
            }
        }))
    }

    open spec fn spec_focused(&self, after: Self, event: Trace, index: usize, context: EventContext) -> bool {
        &&& (after.current_index == index)
        &&& (after.direction == shown_direction(self.technology, Some(&event)))
        &&& (after.state_history@ == self.state_history@)
        &&& (after.build_state == self.build_state)
        &&& (after.technology == self.technology)
        &&& shows_state_at(after, self.state_history@, index)
    }

    open spec fn spec_cleared(&self, after: Self) -> bool {
        &&& (after.canal is None)
        &&& (after.canal_msg is None)
        &&& (after.direction is None)
        &&& (after.current_index == 0)
        &&& (after.rrc_state == RrcState::Idle)
        &&& (after.build_state == RrcState::Idle)
        &&& (after.technology == Technology::Unknown)
        &&& (after.state_history@.len() == 0)
    }

    open spec fn spec_metadata_changed(&self, after: Self, metadata: FileMetadata) -> bool {
        &&& (after.technology == metadata.technology)
        &&& (after.state_history@ == self.state_history@)
        &&& (after.build_state == self.build_state)
        &&& (after.rrc_state == self.rrc_state)
        &&& (after.current_index == self.current_index)
    }
}

} // verus!
