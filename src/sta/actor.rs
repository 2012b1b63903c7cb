//! The station actor's correlation state: callers waiting for the next scan
//! result, and at most one select waiting for the daemon's verdict.
//!
//! The state is generic over the handles the runtime keeps for each waiter
//! (`W` for a scan waiter, `S` for the select in flight, which carries its
//! reply channel and its timer), so that every handle that enters leaves
//! through exactly one of the transitions below.
use vstd::prelude::*;
use crate::error::Error;
use crate::sta::event::Event;
use crate::sta::status::{Status, reports_network, is_current_network};

verus! {

/// Outcome of asking the supplicant to switch to a configured network.
#[derive(Debug, Clone, Copy, PartialEq, Eq, Structural)]
pub enum SelectResult {
    Success,
    WrongPsk,
    NotFound,
    PendingSelect,
    InvalidNetworkId,
    Timeout,
    AlreadyConnected,
}

/// The name under which a select outcome is reported.
pub open spec fn select_result_name(r: SelectResult) -> Seq<char> {
    match r {
        SelectResult::Success => "success"@,
        SelectResult::WrongPsk => "wrong_psk"@,
        SelectResult::NotFound => "network_not_found"@,
        SelectResult::PendingSelect => "select_already_pending"@,
        SelectResult::InvalidNetworkId => "invalid_network_id"@,
        SelectResult::Timeout => "select_timeout"@,
        SelectResult::AlreadyConnected => "already_connected"@,
    }
}

impl SelectResult {
    /// The name under which this outcome is reported.
    pub fn as_str(&self) -> (r: &'static str)
        ensures
            r@ == select_result_name(*self),
    {
        match self {
            SelectResult::Success => "success",
            SelectResult::WrongPsk => "wrong_psk",
            SelectResult::NotFound => "network_not_found",
            SelectResult::PendingSelect => "select_already_pending",
            SelectResult::InvalidNetworkId => "invalid_network_id",
            SelectResult::Timeout => "select_timeout",
            SelectResult::AlreadyConnected => "already_connected",
        }
    }
}

/// Status changes fanned out to the station's subscribers.
#[derive(Debug, Clone, Copy, PartialEq, Eq, Structural)]
pub enum Broadcast {
    Connected,
    Disconnected,
    NetworkNotFound,
    WrongPsk,
    Ready,
}

/// The correlation state, as the laws speak of it.
pub struct CorrelatorState<W, S> {
    pub waiters: Seq<W>,
    pub slot: Option<S>,
}

/// What the runtime does after an event: broadcast, fetch the scan results,
/// and answer the select that the event settled.
pub struct EventOutcome<S> {
    pub broadcast: Option<Broadcast>,
    pub fetch_scan: bool,
    pub resolved: Option<(S, SelectResult)>,
}

/// The pending scan waiters and the select slot of one station actor.
pub struct Correlator<W, S> {
    scan_waiters: Vec<W>,
    select_slot: Option<S>,
}

impl<W, S> View for Correlator<W, S> {
    type V = CorrelatorState<W, S>;

    closed spec fn view(&self) -> CorrelatorState<W, S> {
        CorrelatorState { waiters: self.scan_waiters@, slot: self.select_slot }
    }
}

/// Settles the select in `slot`, if any, with `r`.
pub open spec fn settle<S>(slot: Option<S>, r: SelectResult) -> Option<(S, SelectResult)> {
    match slot {
        Some(s) => Some((s, r)),
        None => None,
    }
}

/// The transition on an event: the new state and what to do.
pub open spec fn event_step<W, S>(st: CorrelatorState<W, S>, e: Event) -> (
    CorrelatorState<W, S>,
    EventOutcome<S>,
) {
    let cleared = CorrelatorState { waiters: st.waiters, slot: None };
    match e {
        Event::ScanComplete => (st, EventOutcome { broadcast: None, fetch_scan: true, resolved: None }),
        Event::Connected => (
            cleared,
            EventOutcome {
                broadcast: Some(Broadcast::Connected),
                fetch_scan: false,
                resolved: settle(st.slot, SelectResult::Success),
            },
        ),
        Event::Disconnected => (
            st,
            EventOutcome { broadcast: Some(Broadcast::Disconnected), fetch_scan: false, resolved: None },
        ),
        Event::NetworkNotFound => (
            cleared,
            EventOutcome {
                broadcast: Some(Broadcast::NetworkNotFound),
                fetch_scan: false,
                resolved: settle(st.slot, SelectResult::NotFound),
            },
        ),
        Event::WrongPsk => (
            cleared,
            EventOutcome {
                broadcast: Some(Broadcast::WrongPsk),
                fetch_scan: false,
                resolved: settle(st.slot, SelectResult::WrongPsk),
            },
        ),
    }
}

/// The transition when the select timer fires.
pub open spec fn timeout_step<W, S>(st: CorrelatorState<W, S>) -> (
    CorrelatorState<W, S>,
    Option<(S, SelectResult)>,
) {
    (CorrelatorState { waiters: st.waiters, slot: None }, settle(st.slot, SelectResult::Timeout))
}

/// A new select call: answered at once with `PendingSelect` while another
/// is in flight, otherwise let through to the daemon.
pub open spec fn admit_step<W, S>(st: CorrelatorState<W, S>) -> Option<SelectResult> {
    if st.slot is Some {
        Some(SelectResult::PendingSelect)
    } else {
        None
    }
}

/// The state once a select accepted by the daemon waits for its verdict.
pub open spec fn install_step<W, S>(st: CorrelatorState<W, S>, s: S) -> CorrelatorState<W, S> {
    CorrelatorState { waiters: st.waiters, slot: Some(s) }
}

/// The state once a scan call waits for the next result.
pub open spec fn wait_step<W, S>(st: CorrelatorState<W, S>, w: W) -> CorrelatorState<W, S> {
    CorrelatorState { waiters: st.waiters.push(w), slot: st.slot }
}

/// The transition that hands the fetched scan result out: every waiter, in
/// order of arrival, and none left.
pub open spec fn deliver_step<W, S>(st: CorrelatorState<W, S>) -> (CorrelatorState<W, S>, Seq<W>) {
    (CorrelatorState { waiters: Seq::empty(), slot: st.slot }, st.waiters)
}

impl<W, S> Correlator<W, S> {
    pub fn new() -> (r: Self)
        ensures
            r@.waiters.len() == 0,
            r@.slot is None,
    {
        Correlator { scan_waiters: Vec::new(), select_slot: None }
    }

    pub fn has_pending_select(&self) -> (r: bool)
        ensures
            r == self@.slot is Some,
    {
        self.select_slot.is_some()
    }

    pub fn scan_waiter_count(&self) -> (r: usize)
        ensures
            r == self@.waiters.len(),
    {
        self.scan_waiters.len()
    }

    /// Acts on an event of the supplicant.
    pub fn on_event(&mut self, e: Event) -> (r: EventOutcome<S>)
        ensures
            (final(self)@, r) == event_step(old(self)@, e),
    {
        match e {
            Event::ScanComplete => EventOutcome { broadcast: None, fetch_scan: true, resolved: None },
            Event::Connected => EventOutcome {
                broadcast: Some(Broadcast::Connected),
                fetch_scan: false,
                resolved: self.settle_select(SelectResult::Success),
            },
            Event::Disconnected => EventOutcome {
                broadcast: Some(Broadcast::Disconnected),
                fetch_scan: false,
                resolved: None,
            },
            Event::NetworkNotFound => EventOutcome {
                broadcast: Some(Broadcast::NetworkNotFound),
                fetch_scan: false,
                resolved: self.settle_select(SelectResult::NotFound),
            },
            Event::WrongPsk => EventOutcome {
                broadcast: Some(Broadcast::WrongPsk),
                fetch_scan: false,
                resolved: self.settle_select(SelectResult::WrongPsk),
            },
        }
    }

    fn settle_select(&mut self, r: SelectResult) -> (out: Option<(S, SelectResult)>)
        ensures
            final(self)@ == (CorrelatorState::<W, S> { waiters: old(self)@.waiters, slot: None }),
            out == settle(old(self)@.slot, r),
    {
        match self.select_slot.take() {
            Some(s) => Some((s, r)),
            None => None,
        }
    }

    /// Acts on the select timer firing.
    pub fn on_select_timeout(&mut self) -> (r: Option<(S, SelectResult)>)
        ensures
            (final(self)@, r) == timeout_step(old(self)@),
    {
        self.settle_select(SelectResult::Timeout)
    }

    /// Decides on a new select call before anything is sent to the daemon.
    pub fn admit_select(&self) -> (r: Option<SelectResult>)
        ensures
            r == admit_step(self@),
    {
        if self.select_slot.is_some() {
            Some(SelectResult::PendingSelect)
        } else {
            None
        }
    }

    /// Parks a select that the daemon accepted until an event or the timer
    /// settles it.
    pub fn install_select(&mut self, s: S)
        requires
            old(self)@.slot is None,
        ensures
            final(self)@ == install_step(old(self)@, s),
    {
        self.select_slot = Some(s);
    }

    /// Parks a scan call until the next scan result.
    pub fn add_scan_waiter(&mut self, w: W)
        ensures
            final(self)@ == wait_step(old(self)@, w),
    {
        self.scan_waiters.push(w);
    }

    /// Takes every scan waiter, in order of arrival, for delivery of one
    /// shared result.
    pub fn take_scan_waiters(&mut self) -> (r: Vec<W>)
        ensures
            (final(self)@, r@) == deliver_step(old(self)@),
    {
        let mut taken = Vec::new();
        std::mem::swap(&mut taken, &mut self.scan_waiters);
        taken
    }
}

/// The answer a select call gets once the daemon has replied to its
/// `SELECT_NETWORK` line: a refusal means the id names no network.
/// `None`: ask for the status next.
pub fn after_select_reply(reply: &Result<(), Error>) -> (r: Option<SelectResult>)
    ensures
        r == if reply is Ok {
            None
        } else {
            Some(SelectResult::InvalidNetworkId)
        },
{
    match reply {
        Ok(()) => None,
        Err(_) => Some(SelectResult::InvalidNetworkId),
    }
}

/// The answer a select call that the daemon accepted gets from the status
/// that follows: if the status already names the network, no connect event
/// will come. `None`: the call waits in the slot.
pub fn after_status(status: &Status, id: usize) -> (r: Option<SelectResult>)
    ensures
        r == if reports_network(status@, id) {
            Some(SelectResult::AlreadyConnected)
        } else {
            None
        },
{
    if is_current_network(status, id) {
        Some(SelectResult::AlreadyConnected)
    } else {
        None
    }
}

/// The state after scan calls `ws` are parked, in that order.
pub open spec fn wait_all<W, S>(st: CorrelatorState<W, S>, ws: Seq<W>) -> CorrelatorState<W, S>
    decreases ws.len(),
{
    if ws.len() == 0 {
        st
    } else {
        wait_step(wait_all(st, ws.drop_last()), ws.last())
    }
}

/// The events that settle a select in flight, with the verdict each gives.
pub open spec fn verdict_of(e: Event) -> Option<SelectResult> {
    match e {
        Event::Connected => Some(SelectResult::Success),
        Event::NetworkNotFound => Some(SelectResult::NotFound),
        Event::WrongPsk => Some(SelectResult::WrongPsk),
        _ => None,
    }
}

proof fn lemma_wait_all<W, S>(st: CorrelatorState<W, S>, ws: Seq<W>)
    ensures
        wait_all(st, ws).waiters == st.waiters + ws,
        wait_all(st, ws).slot == st.slot,
    decreases ws.len(),
{
    if ws.len() > 0 {
        lemma_wait_all(st, ws.drop_last());
        assert(st.waiters + ws =~= (st.waiters + ws.drop_last()).push(ws.last()));
    } else {
        assert(st.waiters + ws =~= st.waiters);
    }
}

/// Scan calls parked before a scan completes are all handed the one result
/// that the completion fetches, in order of arrival, and none is left waiting.
pub proof fn lemma_scan_result_reaches_every_waiter<W, S>(st: CorrelatorState<W, S>, ws: Seq<W>)
    ensures
        ({
            let (next_st, out) = event_step(wait_all(st, ws), Event::ScanComplete);
            let (last_st, taken) = deliver_step(next_st);
            &&& out.fetch_scan
            &&& taken == st.waiters + ws
            &&& last_st.waiters.len() == 0
            &&& last_st.slot == st.slot
        }),
{
    lemma_wait_all(st, ws);
}

/// While a select is in flight, a new select call is answered with
/// `PendingSelect` at once. The select in flight is settled by the first
/// event that carries a verdict, or by its timer, whichever comes first: that
/// transition hands back its handle with one verdict and empties the slot, so
/// no later event or timer settles it again. Other events leave it in place.
pub proof fn lemma_one_select_in_flight<W, S>(st: CorrelatorState<W, S>, s: S, e: Event, later: Event)
    requires
        st.slot == Some(s),
    ensures
        admit_step(st) == Some(SelectResult::PendingSelect),
        verdict_of(e) matches Some(v) ==> {
            let (next_st, out) = event_step(st, e);
            &&& out.resolved == Some((s, v))
            &&& next_st.slot is None
            &&& event_step(next_st, later).1.resolved is None
            &&& timeout_step(next_st).1 is None
        },
        verdict_of(e) is None ==> event_step(st, e).0 == st && event_step(st, e).1.resolved is None,
        ({
            let (next_st, out) = timeout_step(st);
            &&& out == Some((s, SelectResult::Timeout))
            &&& next_st.slot is None
            &&& event_step(next_st, later).1.resolved is None
            &&& timeout_step(next_st).1 is None
        }),
{
}

/// A connection that settles a select hands its handle back with `Success`
/// before its timer can post a timeout, so the runtime stops the timer; a
/// timeout that still arrives settles nothing.
pub proof fn lemma_connect_cancels_timer<W, S>(st: CorrelatorState<W, S>, s: S)
    requires
        st.slot == Some(s),
    ensures
        ({
            let (next_st, out) = event_step(st, Event::Connected);
            &&& out.resolved == Some((s, SelectResult::Success))
            &&& next_st.slot is None
            &&& timeout_step(next_st).1 is None
            &&& timeout_step(next_st).0 == next_st
        }),
{
}

} // verus!
