//! The relay session: owns the device link's state, correlates replies with
//! queries, detects input changes and decides what every subscriber is told.
//! It performs no I/O itself: each event handler returns the actions that its
//! host must carry out (write a line, resolve a waiter, publish a status, stop).
use vstd::prelude::*;
use crate::protocol::{
    SystemTime, DailyEvent, CustomEvent, ReplyKey, Reply, ReplyView, answers,
    enable_push_command, time_query_command, time_set_command, output_query_command,
    output_set_command, daily_query_command, daily_add_command, daily_clear_command,
    custom_query_command, custom_add_command, custom_clear_command, enable_push, time_query,
    time_set, output_query, output_set, daily_query, daily_add, daily_clear, custom_query,
    custom_add, custom_clear,
};
use crate::frame::{Frame, FrameView, parse_frame, parse_spec};
use crate::pending::{PendingTable, enqueue_spec, fire_spec};
use crate::subscribers::{SubscriberRegistry, fresh_id, without_id, lemma_reregister_fresh};
use crate::inputs::{MAX_INPUTS, all_digits, input_mask, compute_mask};

verus! {

/// Period of the liveness check, in milliseconds.
pub const HEARTBEAT_INTERVAL_MS: u64 = 2000;

/// Silence after which the link is considered dead, in milliseconds.
pub const HEARTBEAT_TIMEOUT_MS: u64 = 10000;

/// Grace between a dead link being noticed and the session stopping, in milliseconds.
pub const STOP_GRACE_MS: u64 = 5000;

/// How long a query waits for its reply, in milliseconds.
pub const REQUEST_TIMEOUT_MS: u64 = 10000;

/// Default TCP port of the device.
pub const DEFAULT_PORT: u16 = 12345;

/// Default number of inputs and of outputs.
pub const DEFAULT_CHANNELS: usize = 4;

/// Why a command failed.
#[derive(Clone, Copy, PartialEq, Eq, Structural, Debug)]
pub enum RelayError {
    /// No link to the device when the command was issued.
    NotConnected,
    /// The reply did not arrive within the per-request deadline.
    Timeout,
}

/// The status that subscribers receive.
pub struct RelayStatus {
    pub inputs: Option<Vec<u32>>,
    pub connected: bool,
}

impl View for RelayStatus {
    type V = (Option<Seq<u32>>, bool);

    open spec fn view(&self) -> (Option<Seq<u32>>, bool) {
        (
            match self.inputs {
                Some(v) => Some(v@),
                None => None,
            },
            self.connected,
        )
    }
}

/// Where the session is in its life.
#[derive(Clone, Copy, PartialEq, Eq, Structural, Debug)]
pub enum Phase {
    /// Waiting for the link to open.
    Connecting,
    /// Linked and live.
    Connected,
    /// Bound to stop; the host restarts the session afterwards.
    DrainToStop,
}

/// Something the host must do on the session's behalf.
pub enum Action {
    /// Write this command line to the device.
    Send(String),
    /// Resolve the waiter holding `ticket` with `reply`.
    Deliver { ticket: u64, reply: Reply },
    /// Send `status` to each subscriber in `to`.
    Publish { to: Vec<usize>, status: RelayStatus },
    /// Stop the session after this many milliseconds.
    StopAfter(u64),
    /// Stop the session now.
    Stop,
}

pub ghost enum ActionView {
    Send(Seq<char>),
    Deliver(u64, ReplyView),
    Publish(Seq<usize>, (Option<Seq<u32>>, bool)),
    StopAfter(u64),
    Stop,
}

impl View for Action {
    type V = ActionView;

    open spec fn view(&self) -> ActionView {
        match self {
            Action::Send(s) => ActionView::Send(s@),
            Action::Deliver { ticket, reply } => ActionView::Deliver(*ticket, reply@),
            Action::Publish { to, status } => ActionView::Publish(to@, status@),
            Action::StopAfter(ms) => ActionView::StopAfter(*ms),
            Action::Stop => ActionView::Stop,
        }
    }
}

/// The views of a list of actions, in order.
pub open spec fn actions_view(v: Seq<Action>) -> Seq<ActionView> {
    v.map_values(|a: Action| a@)
}

/// A query that was handed to the device: the line to write and the ticket of
/// the waiter that its reply will resolve.
pub struct Request {
    pub line: String,
    pub ticket: u64,
}

/// A synchronous snapshot of the inputs.
pub struct InputsSnapshot {
    pub number: usize,
    pub states: Vec<u32>,
    pub connected: bool,
}

pub struct GetSystemTime;

pub struct SetSystemTime {
    pub time: SystemTime,
}

pub struct GetInputs;

pub struct GetOutput {
    pub number: usize,
}

pub struct SetOutput {
    pub number: usize,
    pub state: u32,
}

pub struct GetOutputDailySchedule {
    pub number: usize,
}

pub struct SetOutputDailySchedule {
    pub number: usize,
    pub event: DailyEvent,
}

pub struct ClearOutputDailySchedule {
    pub number: usize,
}

pub struct GetOutputCustomSchedule {
    pub number: usize,
}

pub struct SetOutputCustomSchedule {
    pub number: usize,
    pub event: CustomEvent,
}

pub struct ClearOutputCustomSchedule {
    pub number: usize,
}

pub struct UnregisterForStatus(pub usize);

/// Whether a freshly computed mask differs from the stored one; the empty
/// store, before any push, differs from every mask.
pub open spec fn mask_differs(stored: Option<u64>, mask: int) -> bool {
    match stored {
        Some(m) => m != mask,
        None => true,
    }
}

/// The input vector of a session that has seen no push yet.
pub open spec fn zeros(n: nat) -> Seq<u32> {
    Seq::new(n, |i: int| 0u32)
}

/// The relay session.
pub struct RelayActor {
    pub host: String,
    pub port: u16,
    pub inputs_number: usize,
    pub outputs_number: usize,
    inputs: Vec<u32>,
    inputs_mask: Option<u64>,
    connected: bool,
    linked: bool,
    phase: Phase,
    last_activity: u64,
    pending: PendingTable,
    subscribers: SubscriberRegistry,
    next_ticket: u64,
}

impl RelayActor {
    pub closed spec fn spec_host(&self) -> Seq<char> {
        self.host@
    }

    pub closed spec fn spec_port(&self) -> u16 {
        self.port
    }

    /// The configured number of inputs.
    pub closed spec fn spec_inputs_number(&self) -> usize {
        self.inputs_number
    }

    pub closed spec fn spec_outputs_number(&self) -> usize {
        self.outputs_number
    }

    /// The stored input vector.
    pub closed spec fn spec_inputs(&self) -> Seq<u32> {
        self.inputs@
    }

    /// The stored input bitmask; `None` until the first push.
    pub closed spec fn spec_mask(&self) -> Option<u64> {
        self.inputs_mask
    }

    /// Whether the link is considered live.
    pub closed spec fn spec_connected(&self) -> bool {
        self.connected
    }

    /// Whether a write channel to the device exists.
    pub closed spec fn spec_linked(&self) -> bool {
        self.linked
    }

    pub closed spec fn spec_phase(&self) -> Phase {
        self.phase
    }

    /// When the last line arrived, in the host's milliseconds.
    pub closed spec fn spec_last_activity(&self) -> u64 {
        self.last_activity
    }

    /// The pending table, in submission order.
    pub closed spec fn spec_pending(&self) -> Seq<(ReplyKey, u64)> {
        self.pending@
    }

    /// The registered subscriber ids.
    pub closed spec fn spec_subscribers(&self) -> Seq<usize> {
        self.subscribers.ids()
    }

    /// Every subscriber id ever handed out.
    pub closed spec fn spec_issued(&self) -> Seq<usize> {
        self.subscribers.issued()
    }

    /// The ticket the next query gets.
    pub closed spec fn spec_next_ticket(&self) -> u64 {
        self.next_ticket
    }

    /// The session's invariant: the input vector has the configured length,
    /// and every subscriber id is registered once.
    pub open spec fn wf(&self) -> bool {
        &&& self.internally_consistent()
        &&& self.spec_inputs().len() == self.spec_inputs_number()
        &&& self.spec_inputs_number() <= MAX_INPUTS
        &&& self.spec_subscribers().no_duplicates()
    }

    /// The invariant of the session's own bookkeeping.
    pub closed spec fn internally_consistent(&self) -> bool {
        &&& self.inputs@.len() == self.inputs_number
        &&& self.inputs_number <= MAX_INPUTS
        &&& all_digits(self.inputs@)
        &&& self.subscribers.wf()
    }

    /// Configuration and subscribers are the same in `self` and `other`.
    pub open spec fn same_setup(&self, other: &RelayActor) -> bool {
        &&& self.spec_host() == other.spec_host()
        &&& self.spec_port() == other.spec_port()
        &&& self.spec_inputs_number() == other.spec_inputs_number()
        &&& self.spec_outputs_number() == other.spec_outputs_number()
        &&& self.spec_subscribers() == other.spec_subscribers()
        &&& self.spec_issued() == other.spec_issued()
    }

    /// Link state, inputs and subscribers are the same in `self` and `other`.
    pub open spec fn same_state(&self, other: &RelayActor) -> bool {
        &&& self.same_setup(other)
        &&& self.spec_inputs() == other.spec_inputs()
        &&& self.spec_mask() == other.spec_mask()
        &&& self.spec_connected() == other.spec_connected()
        &&& self.spec_linked() == other.spec_linked()
        &&& self.spec_phase() == other.spec_phase()
        &&& self.spec_last_activity() == other.spec_last_activity()
    }

    /// Nothing at all changed.
    pub open spec fn unchanged(&self, other: &RelayActor) -> bool {
        &&& self.same_state(other)
        &&& self.spec_pending() == other.spec_pending()
        &&& self.spec_next_ticket() == other.spec_next_ticket()
    }

    /// The fresh state of a session that is (re)starting at time `now`.
    pub open spec fn is_fresh(&self, now: u64) -> bool {
        &&& self.wf()
        &&& self.spec_inputs() == zeros(self.spec_inputs_number() as nat)
        &&& self.spec_mask() == None::<u64>
        &&& !self.spec_connected()
        &&& !self.spec_linked()
        &&& self.spec_phase() == Phase::Connecting
        &&& self.spec_last_activity() == now
        &&& self.spec_pending() == Seq::<(ReplyKey, u64)>::empty()
    }

    /// A session for the device at `host`:`port` with the given numbers of
    /// inputs and outputs; nothing is registered and nothing is pending.
    pub fn new(host: &str, port: u16, inputs_number: usize, outputs_number: usize) -> (r: Self)
        requires
            inputs_number <= MAX_INPUTS,
        ensures
            r.is_fresh(0),
            r.spec_host() == host@,
            r.spec_port() == port,
            r.spec_inputs_number() == inputs_number,
            r.spec_outputs_number() == outputs_number,
            r.spec_subscribers() == Seq::<usize>::empty(),
            r.spec_issued() == Seq::<usize>::empty(),
    {
        let inputs = vec![0u32; inputs_number];
        proof {
            assert(inputs@ =~= zeros(inputs_number as nat));
        }
        RelayActor {
            host: String::from_str(host),
            port,
            inputs_number,
            outputs_number,
            inputs,
            inputs_mask: None,
            connected: false,
            linked: false,
            phase: Phase::Connecting,
            last_activity: 0,
            pending: PendingTable::new(),
            subscribers: SubscriberRegistry::new(),
            next_ticket: 0,
        }
    }

    /// Starts (or restarts) the session from scratch at time `now`: zeroed
    /// inputs, no mask, no link, nothing pending. Subscribers stay registered.
    pub fn started(&mut self, now: u64)
        requires
            old(self).wf(),
        ensures
            final(self).is_fresh(now),
            final(self).same_setup(old(self)),
    {
        self.inputs = vec![0u32; self.inputs_number];
        proof {
            assert(self.inputs@ =~= zeros(self.inputs_number as nat));
        }
        self.inputs_mask = None;
        self.connected = false;
        self.linked = false;
        self.phase = Phase::Connecting;
        self.last_activity = now;
        self.pending.clear();
    }

    /// The status that describes the session now.
    pub open spec fn current_status(&self) -> (Option<Seq<u32>>, bool) {
        (Some(self.spec_inputs()), self.spec_connected())
    }

    fn status_now(&self) -> (r: RelayStatus)
        ensures
            r@ == self.current_status(),
    {
        RelayStatus { inputs: Some(self.inputs.clone()), connected: self.connected }
    }

    /// The link opened: enable the periodic input push and tell every
    /// subscriber the current inputs with `connected` set.
    pub fn connect_succeeded(&mut self) -> (r: Vec<Action>)
        requires
            old(self).wf(),
        ensures
            final(self).wf(),
            final(self).same_setup(old(self)),
            final(self).spec_linked(),
            final(self).spec_connected(),
            final(self).spec_phase() == Phase::Connected,
            final(self).spec_inputs() == old(self).spec_inputs(),
            final(self).spec_mask() == old(self).spec_mask(),
            final(self).spec_last_activity() == old(self).spec_last_activity(),
            final(self).spec_pending() == old(self).spec_pending(),
            final(self).spec_next_ticket() == old(self).spec_next_ticket(),
            actions_view(r@) == seq![
                ActionView::Send(enable_push_command()),
                ActionView::Publish(old(self).spec_subscribers(), (Some(old(self).spec_inputs()), true)),
            ],
    {
        self.linked = true;
        self.connected = true;
        self.phase = Phase::Connected;
        let status = self.status_now();
        let mut r: Vec<Action> = Vec::new();
        r.push(Action::Send(enable_push()));
        r.push(Action::Publish { to: self.subscribers.registered(), status });
        proof {
            assert(actions_view(r@) =~= seq![
                ActionView::Send(enable_push_command()),
                ActionView::Publish(old(self).spec_subscribers(), (Some(old(self).spec_inputs()), true)),
            ]);
        }
        r
    }

    /// Drops the link and asks the host to stop the session now.
    fn fail(&mut self) -> (r: Vec<Action>)
        requires
            old(self).wf(),
        ensures
            final(self).wf(),
            final(self).same_setup(old(self)),
            !final(self).spec_linked(),
            !final(self).spec_connected(),
            final(self).spec_phase() == Phase::DrainToStop,
            final(self).spec_inputs() == old(self).spec_inputs(),
            final(self).spec_mask() == old(self).spec_mask(),
            final(self).spec_last_activity() == old(self).spec_last_activity(),
            final(self).spec_pending() == old(self).spec_pending(),
            final(self).spec_next_ticket() == old(self).spec_next_ticket(),
            actions_view(r@) == seq![ActionView::Stop],
    {
        self.linked = false;
        self.connected = false;
        self.phase = Phase::DrainToStop;
        let mut r: Vec<Action> = Vec::new();
        r.push(Action::Stop);
        proof {
            assert(actions_view(r@) =~= seq![ActionView::Stop]);
        }
        r
    }

    /// The host name did not resolve or the link did not open: stop now.
    pub fn connect_failed(&mut self) -> (r: Vec<Action>)
        requires
            old(self).wf(),
        ensures
            final(self).wf(),
            final(self).same_setup(old(self)),
            !final(self).spec_linked(),
            !final(self).spec_connected(),
            final(self).spec_phase() == Phase::DrainToStop,
            final(self).spec_inputs() == old(self).spec_inputs(),
            final(self).spec_mask() == old(self).spec_mask(),
            final(self).spec_last_activity() == old(self).spec_last_activity(),
            final(self).spec_pending() == old(self).spec_pending(),
            final(self).spec_next_ticket() == old(self).spec_next_ticket(),
            actions_view(r@) == seq![ActionView::Stop],
    {
        self.fail()
    }

    /// Reading or writing a line failed, so reply correlation can no longer be
    /// trusted: stop now.
    pub fn protocol_desync(&mut self) -> (r: Vec<Action>)
        requires
            old(self).wf(),
        ensures
            final(self).wf(),
            final(self).same_setup(old(self)),
            !final(self).spec_linked(),
            !final(self).spec_connected(),
            final(self).spec_phase() == Phase::DrainToStop,
            final(self).spec_inputs() == old(self).spec_inputs(),
            final(self).spec_mask() == old(self).spec_mask(),
            final(self).spec_last_activity() == old(self).spec_last_activity(),
            final(self).spec_pending() == old(self).spec_pending(),
            final(self).spec_next_ticket() == old(self).spec_next_ticket(),
            actions_view(r@) == seq![ActionView::Stop],
    {
        self.fail()
    }
}

/// A decoded reply always carries the payload kind that its key's waiters expect.
pub proof fn lemma_reply_answers_key(l: Seq<char>)
    ensures
        parse_spec(l) is Reply ==> answers(parse_spec(l)->Reply_1, parse_spec(l)->Reply_0),
{
}

impl RelayActor {
    /// A line arrived from the device at time `now`. A reply resolves the
    /// oldest waiter under its key, if any; an all-inputs push of the
    /// configured length whose bitmask differs from the stored one replaces
    /// the inputs and the mask and is published to every subscriber; anything
    /// else changes nothing but the time of last activity.
    pub fn line_received(&mut self, line: &str, now: u64) -> (r: Vec<Action>)
        requires
            old(self).wf(),
        ensures
            final(self).wf(),
            final(self).same_setup(old(self)),
            final(self).spec_connected() == old(self).spec_connected(),
            final(self).spec_linked() == old(self).spec_linked(),
            final(self).spec_phase() == old(self).spec_phase(),
            final(self).spec_last_activity() == now,
            final(self).spec_next_ticket() == old(self).spec_next_ticket(),
            final(self).spec_inputs().len() == old(self).spec_inputs_number(),
            match parse_spec(line@) {
                FrameView::Reply(k, reply) => {
                    &&& final(self).spec_inputs() == old(self).spec_inputs()
                    &&& final(self).spec_mask() == old(self).spec_mask()
                    &&& final(self).spec_pending() == fire_spec(old(self).spec_pending(), k).0
                    &&& actions_view(r@) == match fire_spec(old(self).spec_pending(), k).1 {
                        Some(t) => seq![ActionView::Deliver(t, reply)],
                        None => Seq::<ActionView>::empty(),
                    }
                },
                FrameView::Inputs(v) => {
                    &&& final(self).spec_pending() == old(self).spec_pending()
                    &&& if v.len() == old(self).spec_inputs_number() && mask_differs(
                        old(self).spec_mask(),
                        input_mask(v),
                    ) {
                        &&& final(self).spec_inputs() == v
                        &&& final(self).spec_mask() == Some(input_mask(v) as u64)
                        &&& actions_view(r@) == seq![
                            ActionView::Publish(old(self).spec_subscribers(), (Some(v), true)),
                        ]
                    } else {
                        &&& final(self).spec_inputs() == old(self).spec_inputs()
                        &&& final(self).spec_mask() == old(self).spec_mask()
                        &&& r@.len() == 0
                    }
                },
                _ => {
                    &&& final(self).spec_inputs() == old(self).spec_inputs()
                    &&& final(self).spec_mask() == old(self).spec_mask()
                    &&& final(self).spec_pending() == old(self).spec_pending()
                    &&& r@.len() == 0
                },
            },
    {
        let frame = parse_frame(line);
        self.last_activity = now;
        let mut r: Vec<Action> = Vec::new();
        match frame {
            Frame::Reply(key, reply) => {
                match self.pending.fire(key) {
                    Some(ticket) => {
                        r.push(Action::Deliver { ticket, reply });
                    },
                    None => {},
                }
            },
            Frame::Inputs(states) => {
                if states.len() == self.inputs_number {
                    let mask = compute_mask(&states);
                    let changed = match self.inputs_mask {
                        Some(m) => m != mask,
                        None => true,
                    };
                    if changed {
                        self.inputs_mask = Some(mask);
                        self.inputs = states.clone();
                        proof {
                            assert(self.inputs@ =~= states@);
                        }
                        r.push(
                            Action::Publish {
                                to: self.subscribers.registered(),
                                status: RelayStatus { inputs: Some(states), connected: true },
                            },
                        );
                    }
                }
            },
            _ => {},
        }
        proof {
            assert(actions_view(r@) =~= match parse_spec(line@) {
                FrameView::Reply(k, reply) => match fire_spec(old(self).spec_pending(), k).1 {
                    Some(t) => seq![ActionView::Deliver(t, reply)],
                    None => Seq::<ActionView>::empty(),
                },
                FrameView::Inputs(v) => if v.len() == old(self).spec_inputs_number() && mask_differs(
                    old(self).spec_mask(),
                    input_mask(v),
                ) {
                    seq![ActionView::Publish(old(self).spec_subscribers(), (Some(v), true))]
                } else {
                    Seq::<ActionView>::empty()
                },
                _ => Seq::<ActionView>::empty(),
            });
        }
        r
    }

    /// The periodic liveness check at time `now`. When more than the timeout
    /// has passed since the last line, and the session is not already bound
    /// to stop, the link is marked dead, every subscriber is told so, and the
    /// host is asked to stop the session after the grace period.
    pub fn heartbeat(&mut self, now: u64) -> (r: Vec<Action>)
        requires
            old(self).wf(),
        ensures
            final(self).wf(),
            ({
                let expired = old(self).spec_phase() != Phase::DrainToStop && now
                    > old(self).spec_last_activity() + HEARTBEAT_TIMEOUT_MS;
                if expired {
                    &&& final(self).same_setup(old(self))
                    &&& !final(self).spec_connected()
                    &&& final(self).spec_phase() == Phase::DrainToStop
                    &&& final(self).spec_linked() == old(self).spec_linked()
                    &&& final(self).spec_inputs() == old(self).spec_inputs()
                    &&& final(self).spec_mask() == old(self).spec_mask()
                    &&& final(self).spec_last_activity() == old(self).spec_last_activity()
                    &&& final(self).spec_pending() == old(self).spec_pending()
                    &&& final(self).spec_next_ticket() == old(self).spec_next_ticket()
                    &&& actions_view(r@) == seq![
                        ActionView::Publish(old(self).spec_subscribers(), (None::<Seq<u32>>, false)),
                        ActionView::StopAfter(STOP_GRACE_MS),
                    ]
                } else {
                    &&& final(self).unchanged(old(self))
                    &&& r@.len() == 0
                }
            }),
    {
        let mut r: Vec<Action> = Vec::new();
        let silent = now > self.last_activity && now - self.last_activity > HEARTBEAT_TIMEOUT_MS;
        if self.phase != Phase::DrainToStop && silent {
            self.connected = false;
            self.phase = Phase::DrainToStop;
            r.push(
                Action::Publish {
                    to: self.subscribers.registered(),
                    status: RelayStatus { inputs: None, connected: false },
                },
            );
            r.push(Action::StopAfter(STOP_GRACE_MS));
            proof {
                assert(actions_view(r@) =~= seq![
                    ActionView::Publish(old(self).spec_subscribers(), (None::<Seq<u32>>, false)),
                    ActionView::StopAfter(STOP_GRACE_MS),
                ]);
            }
        }
        r
    }

    /// A synchronous snapshot of the inputs.
    pub fn get_inputs(&self, msg: GetInputs) -> (r: InputsSnapshot)
        ensures
            r.number == self.spec_inputs_number(),
            r.states@ == self.spec_inputs(),
            r.connected == self.spec_connected(),
    {
        let states = self.inputs.clone();
        proof {
            assert(states@ =~= self.inputs@);
        }
        InputsSnapshot { number: self.inputs_number, states, connected: self.connected }
    }

    /// Writes `line` and enqueues a waiter under `key`, or fails without a link.
    fn query(&mut self, key: ReplyKey, line: String) -> (r: Result<Request, RelayError>)
        requires
            old(self).wf(),
        ensures
            final(self).wf(),
            final(self).same_state(old(self)),
            if old(self).spec_linked() {
                &&& r is Ok
                &&& r->Ok_0.line@ == line@
                &&& r->Ok_0.ticket == old(self).spec_next_ticket()
                &&& final(self).spec_pending() == enqueue_spec(
                    old(self).spec_pending(),
                    key,
                    old(self).spec_next_ticket(),
                )
                &&& final(self).spec_next_ticket() == old(self).spec_next_ticket().wrapping_add(1)
            } else {
                &&& r == Err::<Request, RelayError>(RelayError::NotConnected)
                &&& final(self).unchanged(old(self))
            },
    {
        if !self.linked {
            return Err(RelayError::NotConnected);
        }
        let ticket = self.next_ticket;
        self.pending.enqueue(key, ticket);
        self.next_ticket = self.next_ticket.wrapping_add(1);
        Ok(Request { line, ticket })
    }

    /// Hands a fire-and-forget command to the link, or fails without one.
    fn command(&self, line: String) -> (r: Result<String, RelayError>)
        ensures
            if self.spec_linked() {
                r is Ok && r->Ok_0@ == line@
            } else {
                r == Err::<String, RelayError>(RelayError::NotConnected)
            },
    {
        if self.linked {
            Ok(line)
        } else {
            Err(RelayError::NotConnected)
        }
    }
}

/// Relies on `rand::random`: a `usize` drawn from the thread-local generator.
/// Nothing is known of the value.
#[verifier::external_body]
fn draw_subscriber_id() -> (r: usize) {
    rand::random::<usize>()
}

/// A query handler's outcome: with a link, `line` is handed over and one
/// waiter is enqueued under `key` with the next ticket; without one, the
/// query fails with `NotConnected` and nothing changes.
pub open spec fn query_outcome(
    before: &RelayActor,
    after: &RelayActor,
    key: ReplyKey,
    line: Seq<char>,
    r: Result<Request, RelayError>,
) -> bool {
    &&& after.wf()
    &&& after.same_state(before)
    &&& if before.spec_linked() {
        &&& r is Ok
        &&& r->Ok_0.line@ == line
        &&& r->Ok_0.ticket == before.spec_next_ticket()
        &&& after.spec_pending() == enqueue_spec(
            before.spec_pending(),
            key,
            before.spec_next_ticket(),
        )
        &&& after.spec_next_ticket() == before.spec_next_ticket().wrapping_add(1)
    } else {
        &&& r == Err::<Request, RelayError>(RelayError::NotConnected)
        &&& after.unchanged(before)
    }
}

/// A fire-and-forget handler's outcome: with a link, `line` is handed over;
/// without one, the command fails with `NotConnected`.
pub open spec fn command_outcome(s: &RelayActor, line: Seq<char>, r: Result<String, RelayError>) -> bool {
    if s.spec_linked() {
        r is Ok && r->Ok_0@ == line
    } else {
        r == Err::<String, RelayError>(RelayError::NotConnected)
    }
}

impl RelayActor {
    /// Queries the device clock; the reply comes under `+TIME`.
    pub fn get_system_time(&mut self, msg: GetSystemTime) -> (r: Result<Request, RelayError>)
        requires
            old(self).wf(),
        ensures
            query_outcome(old(self), final(self), ReplyKey::Time, time_query_command(), r),
    {
        self.query(ReplyKey::Time, time_query())
    }

    /// Sets the device clock.
    pub fn set_system_time(&self, msg: SetSystemTime) -> (r: Result<String, RelayError>)
        ensures
            command_outcome(self, time_set_command(msg.time.date_time@, msg.time.day_of_week), r),
    {
        self.command(time_set(&msg.time))
    }

    /// Queries the state of output `number`; the reply comes under `+STACH<number>`.
    pub fn get_output(&mut self, msg: GetOutput) -> (r: Result<Request, RelayError>)
        requires
            old(self).wf(),
        ensures
            query_outcome(
                old(self),
                final(self),
                ReplyKey::Output(msg.number),
                output_query_command(msg.number),
                r,
            ),
    {
        self.query(ReplyKey::Output(msg.number), output_query(msg.number))
    }

    /// Sets output `number` to `state`.
    pub fn set_output(&self, msg: SetOutput) -> (r: Result<String, RelayError>)
        ensures
            command_outcome(self, output_set_command(msg.number, msg.state), r),
    {
        self.command(output_set(msg.number, msg.state))
    }

    /// Queries the daily schedule of output `number`.
    pub fn get_output_daily_schedule(&mut self, msg: GetOutputDailySchedule) -> (r: Result<
        Request,
        RelayError,
    >)
        requires
            old(self).wf(),
        ensures
            query_outcome(
                old(self),
                final(self),
                ReplyKey::DailySchedule(msg.number),
                daily_query_command(msg.number),
                r,
            ),
    {
        self.query(ReplyKey::DailySchedule(msg.number), daily_query(msg.number))
    }

    /// Appends an event to the daily schedule of output `number`.
    pub fn set_output_daily_schedule(&self, msg: SetOutputDailySchedule) -> (r: Result<
        String,
        RelayError,
    >)
        ensures
            command_outcome(
                self,
                daily_add_command(msg.number, msg.event.time@, msg.event.state),
                r,
            ),
    {
        self.command(daily_add(msg.number, &msg.event))
    }

    /// Clears the daily schedule of output `number`.
    pub fn clear_output_daily_schedule(&self, msg: ClearOutputDailySchedule) -> (r: Result<
        String,
        RelayError,
    >)
        ensures
            command_outcome(self, daily_clear_command(msg.number), r),
    {
        self.command(daily_clear(msg.number))
    }

    /// Queries the custom schedule of output `number`.
    pub fn get_output_custom_schedule(&mut self, msg: GetOutputCustomSchedule) -> (r: Result<
        Request,
        RelayError,
    >)
        requires
            old(self).wf(),
        ensures
            query_outcome(
                old(self),
                final(self),
                ReplyKey::CustomSchedule(msg.number),
                custom_query_command(msg.number),
                r,
            ),
    {
        self.query(ReplyKey::CustomSchedule(msg.number), custom_query(msg.number))
    }

    /// Appends an event to the custom schedule of output `number`.
    pub fn set_output_custom_schedule(&self, msg: SetOutputCustomSchedule) -> (r: Result<
        String,
        RelayError,
    >)
        ensures
            command_outcome(
                self,
                custom_add_command(msg.number, msg.event.date_time@, msg.event.state),
                r,
            ),
    {
        self.command(custom_add(msg.number, &msg.event))
    }

    /// Clears the custom schedule of output `number`.
    pub fn clear_output_custom_schedule(&self, msg: ClearOutputCustomSchedule) -> (r: Result<
        String,
        RelayError,
    >)
        ensures
            command_outcome(self, custom_clear_command(msg.number), r),
    {
        self.command(custom_clear(msg.number))
    }

    /// Registers a subscriber under the id drawn as `candidate` (see
    /// `fresh_id`) and returns that id with the status to send it at once.
    pub fn register_subscriber(&mut self, candidate: usize) -> (r: (usize, RelayStatus))
        requires
            old(self).wf(),
        ensures
            final(self).wf(),
            r.0 == fresh_id(old(self).spec_issued(), candidate),
            !old(self).spec_issued().contains(r.0),
            final(self).spec_subscribers() == old(self).spec_subscribers().push(r.0),
            final(self).spec_issued() == old(self).spec_issued().push(r.0),
            r.1@ == old(self).current_status(),
            final(self).spec_inputs() == old(self).spec_inputs(),
            final(self).spec_mask() == old(self).spec_mask(),
            final(self).spec_connected() == old(self).spec_connected(),
            final(self).spec_linked() == old(self).spec_linked(),
            final(self).spec_phase() == old(self).spec_phase(),
            final(self).spec_last_activity() == old(self).spec_last_activity(),
            final(self).spec_pending() == old(self).spec_pending(),
            final(self).spec_next_ticket() == old(self).spec_next_ticket(),
    {
        let id = self.subscribers.register(candidate);
        (id, self.status_now())
    }

    /// Registers a subscriber under a randomly drawn id that this session has
    /// never handed out, and returns it with the status to send it at once.
    pub fn register_for_status(&mut self) -> (r: (usize, RelayStatus))
        requires
            old(self).wf(),
        ensures
            final(self).wf(),
            !old(self).spec_issued().contains(r.0),
            final(self).spec_subscribers() == old(self).spec_subscribers().push(r.0),
            final(self).spec_issued() == old(self).spec_issued().push(r.0),
            r.1@ == old(self).current_status(),
            final(self).spec_inputs() == old(self).spec_inputs(),
            final(self).spec_mask() == old(self).spec_mask(),
            final(self).spec_connected() == old(self).spec_connected(),
            final(self).spec_linked() == old(self).spec_linked(),
            final(self).spec_phase() == old(self).spec_phase(),
            final(self).spec_last_activity() == old(self).spec_last_activity(),
            final(self).spec_pending() == old(self).spec_pending(),
            final(self).spec_next_ticket() == old(self).spec_next_ticket(),
    {
        let candidate = draw_subscriber_id();
        self.register_subscriber(candidate)
    }

    /// Removes a subscriber; an id that is not registered is ignored.
    pub fn unregister_for_status(&mut self, msg: UnregisterForStatus)
        requires
            old(self).wf(),
        ensures
            final(self).wf(),
            final(self).spec_subscribers() == without_id(old(self).spec_subscribers(), msg.0),
            !final(self).spec_subscribers().contains(msg.0),
            final(self).spec_issued() == old(self).spec_issued(),
            final(self).spec_inputs() == old(self).spec_inputs(),
            final(self).spec_mask() == old(self).spec_mask(),
            final(self).spec_connected() == old(self).spec_connected(),
            final(self).spec_linked() == old(self).spec_linked(),
            final(self).spec_phase() == old(self).spec_phase(),
            final(self).spec_last_activity() == old(self).spec_last_activity(),
            final(self).spec_pending() == old(self).spec_pending(),
            final(self).spec_next_ticket() == old(self).spec_next_ticket(),
    {
        self.subscribers.unregister(msg.0);
    }
}

/// What the caller of a query observes when its wait ends: the reply that was
/// delivered to its waiter, or `Timeout` when none came within the deadline.
pub fn settle(delivered: Option<Reply>) -> (r: Result<Reply, RelayError>)
    ensures
        match delivered {
            Some(x) => r is Ok && r->Ok_0@ == x@,
            None => r == Err::<Reply, RelayError>(RelayError::Timeout),
        },
{
    match delivered {
        Some(x) => Ok(x),
        None => Err(RelayError::Timeout),
    }
}

/// The level of the opto-coupler pin for a status: high while some input is
/// active, low otherwise and while the inputs are unknown.
pub fn optocoupler_level(status: &RelayStatus) -> (r: u8)
    ensures
        r == (if status.inputs is Some && exists|i: int|
            0 <= i < status.inputs->0@.len() && status.inputs->0@[i] == 1 {
            1u8
        } else {
            0u8
        }),
{
    match &status.inputs {
        Some(v) => {
            let mut i: usize = 0;
            while i < v.len()
                invariant
                    status.inputs is Some,
                    status.inputs->0@ == v@,
                    i <= v@.len(),
                    forall|j: int| 0 <= j < i ==> v@[j] != 1,
                decreases v@.len() - i,
            {
                if v[i] == 1 {
                    assert(status.inputs->0@[i as int] == 1);
                    return 1;
                }
                i = i + 1;
            }
            0
        },
        None => 0,
    }
}

impl RelayActor {
    /// Where the session is in its life.
    pub fn phase(&self) -> (r: Phase)
        ensures
            r == self.spec_phase(),
    {
        self.phase
    }

    /// Whether a write channel to the device exists.
    pub fn is_linked(&self) -> (r: bool)
        ensures
            r == self.spec_linked(),
    {
        self.linked
    }

    /// The number of waiters still in the pending table.
    pub fn pending_count(&self) -> (r: usize)
        ensures
            r == self.spec_pending().len(),
    {
        self.pending.len()
    }

    /// The registered subscriber ids, in registration order.
    pub fn subscribers(&self) -> (r: Vec<usize>)
        ensures
            r@ == self.spec_subscribers(),
    {
        self.subscribers.registered()
    }
}

/// A subscriber id that was given up is never handed out again: after
/// `unregister_for_status(id)` (which keeps the ids handed out) the next
/// registration, whatever id it drew, yields an id distinct from `id`.
pub proof fn lemma_reregister_distinct(s: &RelayActor, id: usize, candidate: usize)
    requires
        s.wf(),
        s.spec_subscribers().contains(id),
    ensures
        fresh_id(s.spec_issued(), candidate) != id,
        !without_id(s.spec_subscribers(), id).contains(fresh_id(s.spec_issued(), candidate)),
{
    lemma_reregister_fresh(s.spec_subscribers(), s.spec_issued(), id, candidate);
}

impl Default for RelayActor {
    /// A session with no host, the default port and the default numbers of
    /// inputs and outputs.
    fn default() -> (r: Self)
        ensures
            r.is_fresh(0),
            r.spec_host() == Seq::<char>::empty(),
            r.spec_port() == DEFAULT_PORT,
            r.spec_inputs_number() == DEFAULT_CHANNELS,
            r.spec_outputs_number() == DEFAULT_CHANNELS,
            r.spec_subscribers() == Seq::<usize>::empty(),
            r.spec_issued() == Seq::<usize>::empty(),
    {
        let r = RelayActor::new("", DEFAULT_PORT, DEFAULT_CHANNELS, DEFAULT_CHANNELS);
        proof {
            reveal_strlit("");
        }
        r
    }
}

} // verus!
