//! The downtime tracker: turns the stream of ping results into closed
//! downtime windows, recording an outage only after a sustained run of
//! timeouts.
use vstd::prelude::*;
use crate::clock::now_epoch_seconds;
use crate::model::ConnectivityDown;
use crate::ping::PingResult;
use crate::registry::Address;

verus! {

/// The tracker's state: the open window (empty when the network is up) and
/// the count of timeouts since the last response, capped at the limit.
#[derive(Clone, Copy, PartialEq, Eq, Structural, Debug)]
pub struct DowntimeTracker {
    pub window: ConnectivityDown,
    pub no_response_counter: u32,
    pub no_response_counter_limit: u32,
}

/// An empty window.
pub open spec fn empty_window() -> ConnectivityDown {
    ConnectivityDown { start: None, end: None, is_started: false }
}

/// The tracker after `event` at epoch second `now`, and the window it
/// closes, if any.
pub open spec fn step(s: DowntimeTracker, event: PingResult, now: i64) -> (DowntimeTracker, Option<
    ConnectivityDown,
>) {
    match event {
        PingResult::Timeout { .. } => {
            let counter = if s.no_response_counter < s.no_response_counter_limit {
                (s.no_response_counter + 1) as u32
            } else {
                s.no_response_counter
            };
            let window = if s.window.is_started {
                s.window
            } else {
                ConnectivityDown { start: Some(now), end: None, is_started: true }
            };
            (DowntimeTracker { window, no_response_counter: counter, ..s }, None)
        },
        PingResult::Response { .. } => {
            let closed = if s.window.is_started && s.no_response_counter
                >= s.no_response_counter_limit {
                Some(ConnectivityDown { end: Some(now), ..s.window })
            } else {
                None
            };
            let window = if s.window.is_started { empty_window() } else { s.window };
            (DowntimeTracker { window, no_response_counter: 0, ..s }, closed)
        },
        PingResult::Request { .. } => (s, None),
    }
}

impl DowntimeTracker {
    /// The window is well formed and never left ready, and timeouts are
    /// only ever counted while a window is open.
    pub open spec fn wf(&self) -> bool {
        &&& self.window.wf()
        &&& self.window.end.is_none()
        &&& self.no_response_counter <= self.no_response_counter_limit
        &&& self.no_response_counter > 0 ==> self.window.is_started
    }

    /// No outage under way.
    pub open spec fn is_up(&self) -> bool {
        !self.window.is_started
    }

    /// A tracker in the up state that records an outage after `limit`
    /// timeouts in a row.
    pub fn new(limit: u32) -> (r: DowntimeTracker)
        ensures
            r.wf(),
            r.is_up(),
            r.window == empty_window(),
            r.no_response_counter == 0,
            r.no_response_counter_limit == limit,
    {
        DowntimeTracker {
            window: ConnectivityDown::new(),
            no_response_counter: 0,
            no_response_counter_limit: limit,
        }
    }

    /// Takes one ping result observed at epoch second `now`; returns the
    /// window it closes, if it confirms an outage.
    pub fn handle_at(&mut self, event: &PingResult, now: i64) -> (r: Option<ConnectivityDown>)
        requires
            old(self).wf(),
        ensures
            final(self).wf(),
            (*final(self), r) == step(*old(self), *event, now),
            r matches Some(w) ==> w.ready() && w.wf(),
    {
        match event {
            PingResult::Timeout { .. } => {
                if self.no_response_counter < self.no_response_counter_limit {
                    self.no_response_counter = self.no_response_counter + 1;
                }
                if !self.window.is_started() {
                    self.window.start_at(now);
                }
                None
            },
            PingResult::Response { .. } => {
                let mut closed: Option<ConnectivityDown> = None;
                if self.window.is_started() {
                    if self.no_response_counter >= self.no_response_counter_limit {
                        let mut w = self.window;
                        w.end_at(now);
                        closed = Some(w);
                    }
                    self.window = ConnectivityDown::new();
                }
                self.no_response_counter = 0;
                closed
            },
            PingResult::Request { .. } => None,
        }
    }

    /// Takes one ping result, stamped with the current time.
    pub fn handle(&mut self, event: &PingResult) -> (r: Option<ConnectivityDown>)
        requires
            old(self).wf(),
        ensures
            final(self).wf(),
            exists|now: i64| (*final(self), r) == step(*old(self), *event, now),
            r matches Some(w) ==> w.ready() && w.wf(),
    {
        let now = now_epoch_seconds();
        self.handle_at(event, now)
    }
}

/// With a limit of three, three timeouts in a row from the up state open a
/// window at the first one's time, and the next response closes it at its
/// own time, once, leaving the tracker up again.
pub proof fn lemma_sustained_outage(
    s: DowntimeTracker,
    a: Address,
    t1: i64,
    t2: i64,
    t3: i64,
    t4: i64,
    rtt: u64,
    sequence: u16,
    identifier: u16,
)
    requires
        s.wf(),
        s.is_up(),
        s.no_response_counter_limit == 3,
    ensures
        ({
            let timeout = PingResult::Timeout { addr: a };
            let response = PingResult::Response { addr: a, rtt, sequence, identifier };
            let (s1, c1) = step(s, timeout, t1);
            let (s2, c2) = step(s1, timeout, t2);
            let (s3, c3) = step(s2, timeout, t3);
            let (s4, c4) = step(s3, response, t4);
            &&& !s1.is_up() && !s2.is_up() && !s3.is_up()
            &&& c1 is None && c2 is None && c3 is None
            &&& c4 == Some(ConnectivityDown { start: Some(t1), end: Some(t4), is_started: true })
            &&& s4.is_up() && s4.no_response_counter == 0
        }),
{
}

/// With a limit of three, two timeouts and then a response close no window:
/// the attempt is dropped, the counter is back at zero, and the tracker is
/// up again.
pub proof fn lemma_flap_suppressed(
    s: DowntimeTracker,
    a: Address,
    t1: i64,
    t2: i64,
    t3: i64,
    rtt: u64,
    sequence: u16,
    identifier: u16,
)
    requires
        s.wf(),
        s.is_up(),
        s.no_response_counter_limit == 3,
    ensures
        ({
            let timeout = PingResult::Timeout { addr: a };
            let response = PingResult::Response { addr: a, rtt, sequence, identifier };
            let (s1, c1) = step(s, timeout, t1);
            let (s2, c2) = step(s1, timeout, t2);
            let (s3, c3) = step(s2, response, t3);
            &&& c1 is None && c2 is None && c3 is None
            &&& s3.is_up() && s3.no_response_counter == 0
            &&& s3.window == empty_window()
        }),
{
}

/// The tracker after a timeout from `a` at each time of `ts`, in order.
pub open spec fn after_timeouts(s: DowntimeTracker, a: Address, ts: Seq<i64>) -> DowntimeTracker
    decreases ts.len(),
{
    if ts.len() == 0 {
        s
    } else {
        step(after_timeouts(s, a, ts.drop_last()), PingResult::Timeout { addr: a }, ts.last()).0
    }
}

/// From the up state, a run of timeouts opens a window at the first one's
/// time and counts them up to the limit, closing nothing.
pub proof fn lemma_timeout_run(s: DowntimeTracker, a: Address, ts: Seq<i64>)
    requires
        s.wf(),
        s.is_up(),
        ts.len() >= 1,
    ensures
        after_timeouts(s, a, ts).wf(),
        after_timeouts(s, a, ts).window == (ConnectivityDown {
            start: Some(ts[0]),
            end: None,
            is_started: true,
        }),
        after_timeouts(s, a, ts).no_response_counter == if ts.len() < s.no_response_counter_limit {
            ts.len()
        } else {
            s.no_response_counter_limit as nat
        },
        after_timeouts(s, a, ts).no_response_counter_limit == s.no_response_counter_limit,
    decreases ts.len(),
{
    let prev = after_timeouts(s, a, ts.drop_last());
    assert(after_timeouts(s, a, ts) == step(prev, PingResult::Timeout { addr: a }, ts.last()).0);
    if ts.len() > 1 {
        lemma_timeout_run(s, a, ts.drop_last());
        assert(ts.drop_last()[0] == ts[0]);
    } else {
        assert(ts.drop_last().len() == 0);
        assert(prev == s);
        assert(ts.last() == ts[0]);
    }
}

/// Hysteresis: from the up state, a run of timeouts followed by a response
/// records an outage exactly when the run reached the limit; the window then
/// spans from the first timeout to the response. Either way the tracker is
/// up again with its counter at zero.
pub proof fn lemma_outage_iff_sustained(
    s: DowntimeTracker,
    a: Address,
    ts: Seq<i64>,
    t: i64,
    rtt: u64,
    sequence: u16,
    identifier: u16,
)
    requires
        s.wf(),
        s.is_up(),
        ts.len() >= 1,
    ensures
        ({
            let (after, closed) = step(
                after_timeouts(s, a, ts),
                PingResult::Response { addr: a, rtt, sequence, identifier },
                t,
            );
            &&& closed is Some <==> ts.len() >= s.no_response_counter_limit
            &&& closed is Some ==> closed == Some(
                ConnectivityDown { start: Some(ts[0]), end: Some(t), is_started: true },
            )
            &&& after.is_up() && after.no_response_counter == 0
            &&& after.window == empty_window()
        }),
{
    lemma_timeout_run(s, a, ts);
}

} // verus!
