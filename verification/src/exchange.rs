//! The decisions of one proxied exchange.
//!
//! The proxy itself waits on sockets; what it does next is decided here. An
//! exchange moves through [`Phase`]s. Whoever drives it reports each outside
//! happening as an [`Event`] to [`step`] and carries out the [`Action`] that
//! comes back. Nothing is retried: every exchange ends with one answer to the
//! client.

use vstd::prelude::*;
use vstd::utf8::{encode_utf8, encode_utf8_decode_utf8};

verus! {

/// Status sent when the inbound body cannot be read.
pub const BAD_REQUEST: u16 = 400;

/// Status sent when the upstream cannot be reached.
pub const BAD_GATEWAY: u16 = 502;

/// Path that answers liveness probes.
pub const LIVENESS_PATH: &'static str = "/healthz";

/// Body of the liveness answer.
pub const LIVENESS_BODY: &'static str = "ok";

/// Who answers a request.
#[derive(Clone, Copy, Debug, PartialEq, Eq, Structural)]
pub enum Route {
    /// The proxy itself, with [`LIVENESS_BODY`], whatever the method.
    Liveness,
    /// The upstream, through the forwarding pipeline.
    Forward,
}

/// Whether two texts are the same.
fn same_text(a: &str, b: &str) -> (same: bool)
    ensures
        same == (a@ == b@),
{
    let x = a.as_bytes();
    let y = b.as_bytes();
    proof {
        encode_utf8_decode_utf8(a@);
        encode_utf8_decode_utf8(b@);
    }
    if x.len() != y.len() {
        return false;
    }
    let mut i: usize = 0;
    while i < x.len()
        invariant
            i <= x.len(),
            x.len() == y.len(),
            x@ == encode_utf8(a@),
            y@ == encode_utf8(b@),
            forall|j: int| 0 <= j < i ==> x@[j] == y@[j],
        decreases x.len() - i,
    {
        if x[i] != y[i] {
            return false;
        }
        i += 1;
    }
    assert(x@ =~= y@);
    true
}

/// Picks the route for a request: the liveness path, matched exactly, is
/// answered here whatever the method; every other path is forwarded.
#[allow(unused_variables)]
pub fn route(method: &str, path: &str) -> (r: Route)
    ensures
        r == if path@ == LIVENESS_PATH@ { Route::Liveness } else { Route::Forward },
{
    if same_text(path, LIVENESS_PATH) {
        Route::Liveness
    } else {
        Route::Forward
    }
}

/// Whether a request with this method carries its body upstream. `GET` and
/// `HEAD`, the read-only traffic, do not.
pub open spec fn method_forwards_body(method: Seq<char>) -> bool {
    method != "GET"@ && method != "HEAD"@
}

/// Decides whether the inbound body is to be read and forwarded.
pub fn forwards_body(method: &str) -> (yes: bool)
    ensures
        yes == method_forwards_body(method@),
{
    !same_text(method, "GET") && !same_text(method, "HEAD")
}

/// How far an exchange has come.
#[derive(Clone, Copy, Debug, PartialEq, Eq, Structural)]
pub enum Phase {
    /// The request head has arrived; nothing is decided yet.
    Accepted,
    /// The inbound body is being buffered.
    ReadingBody,
    /// The request is on its way upstream.
    AwaitingUpstream,
    /// The client has its answer, or it is streaming.
    Done,
}

impl Phase {
    /// Position of the phase on the way from `Accepted` to `Done`.
    pub open spec fn rank(self) -> nat {
        match self {
            Phase::Accepted => 0,
            Phase::ReadingBody => 1,
            Phase::AwaitingUpstream => 2,
            Phase::Done => 3,
        }
    }
}

/// Something that happened outside.
#[derive(Clone, Debug, PartialEq, Eq)]
pub enum Event {
    /// The request head was read.
    Request { method: String },
    /// The inbound body was read to its end.
    BodyRead { bytes: Vec<u8> },
    /// Reading the inbound body failed.
    BodyFailed,
    /// The upstream answered with this status; its body has not been read.
    UpstreamAnswered { status: u16 },
    /// The upstream could not be reached: refused, timed out, DNS or TLS.
    UpstreamFailed,
}

/// Mathematical value of an [`Event`].
pub enum EventView {
    Request { method: Seq<char> },
    BodyRead { bytes: Seq<u8> },
    BodyFailed,
    UpstreamAnswered { status: u16 },
    UpstreamFailed,
}

impl View for Event {
    type V = EventView;

    open spec fn view(&self) -> EventView {
        match self {
            Event::Request { method } => EventView::Request { method: method@ },
            Event::BodyRead { bytes } => EventView::BodyRead { bytes: bytes@ },
            Event::BodyFailed => EventView::BodyFailed,
            Event::UpstreamAnswered { status } => EventView::UpstreamAnswered { status: *status },
            Event::UpstreamFailed => EventView::UpstreamFailed,
        }
    }
}

/// What to do next.
#[derive(Clone, Debug, PartialEq, Eq)]
pub enum Action {
    /// Buffer the whole inbound body, then report `BodyRead` or `BodyFailed`.
    ReadBody,
    /// Send the request upstream, with this body if there is one, then report
    /// `UpstreamAnswered` or `UpstreamFailed`.
    Send { body: Option<Vec<u8>> },
    /// Answer the client with this status and message; no upstream answer is
    /// relayed and no observation is recorded. With `warn`, log the failure.
    Refuse { status: u16, message: String, warn: bool },
    /// Record the observation, then relay the upstream's answer under its own
    /// status, streaming the body.
    Relay { status: u16 },
    /// The event was not awaited: do nothing.
    Nothing,
}

/// Mathematical value of an [`Action`].
pub enum ActionView {
    ReadBody,
    Send { body: Option<Seq<u8>> },
    Refuse { status: u16, message: Seq<char>, warn: bool },
    Relay { status: u16 },
    Nothing,
}

impl View for Action {
    type V = ActionView;

    open spec fn view(&self) -> ActionView {
        match self {
            Action::ReadBody => ActionView::ReadBody,
            Action::Send { body } => ActionView::Send {
                body: match body {
                    Some(bytes) => Some(bytes@),
                    None => None,
                },
            },
            Action::Refuse { status, message, warn } => ActionView::Refuse {
                status: *status,
                message: message@,
                warn: *warn,
            },
            Action::Relay { status } => ActionView::Relay { status: *status },
            Action::Nothing => ActionView::Nothing,
        }
    }
}

/// The phase that follows `phase` on `event`, and the action to take.
///
/// * A request with a body-carrying method has its body read; `GET` and
///   `HEAD` are sent at once, without a body.
/// * A body that was read is sent as it is; one that could not be read ends
///   the exchange with `400`.
/// * An upstream answer is relayed under its own status; an upstream that
///   could not be reached ends the exchange with `502` and a warning.
/// * An event that the phase does not await changes nothing.
pub open spec fn transition(phase: Phase, event: EventView) -> (Phase, ActionView) {
    match (phase, event) {
        (Phase::Accepted, EventView::Request { method }) => if method_forwards_body(method) {
            (Phase::ReadingBody, ActionView::ReadBody)
        } else {
            (Phase::AwaitingUpstream, ActionView::Send { body: None })
        },
        (Phase::ReadingBody, EventView::BodyRead { bytes }) => (
            Phase::AwaitingUpstream,
            ActionView::Send { body: Some(bytes) },
        ),
        (Phase::ReadingBody, EventView::BodyFailed) => (
            Phase::Done,
            ActionView::Refuse { status: BAD_REQUEST, message: "invalid request body"@, warn: false },
        ),
        (Phase::AwaitingUpstream, EventView::UpstreamAnswered { status }) => (
            Phase::Done,
            ActionView::Relay { status },
        ),
        (Phase::AwaitingUpstream, EventView::UpstreamFailed) => (
            Phase::Done,
            ActionView::Refuse { status: BAD_GATEWAY, message: "upstream error"@, warn: true },
        ),
        _ => (phase, ActionView::Nothing),
    }
}

/// Advances an exchange by one event.
pub fn step(phase: Phase, event: Event) -> (next: (Phase, Action))
    ensures
        (next.0, next.1@) == transition(phase, event@),
{
    match (phase, event) {
        (Phase::Accepted, Event::Request { method }) => {
            if forwards_body(method.as_str()) {
                (Phase::ReadingBody, Action::ReadBody)
            } else {
                (Phase::AwaitingUpstream, Action::Send { body: None })
            }
        },
        (Phase::ReadingBody, Event::BodyRead { bytes }) => (
            Phase::AwaitingUpstream,
            Action::Send { body: Some(bytes) },
        ),
        (Phase::ReadingBody, Event::BodyFailed) => (
            Phase::Done,
            Action::Refuse { status: BAD_REQUEST, message: "invalid request body".to_owned(), warn: false },
        ),
        (Phase::AwaitingUpstream, Event::UpstreamAnswered { status }) => (
            Phase::Done,
            Action::Relay { status },
        ),
        (Phase::AwaitingUpstream, Event::UpstreamFailed) => (
            Phase::Done,
            Action::Refuse { status: BAD_GATEWAY, message: "upstream error".to_owned(), warn: true },
        ),
        (phase, _) => (phase, Action::Nothing),
    }
}

/// The phase reached from `phase` after `events`.
pub open spec fn phase_after(phase: Phase, events: Seq<EventView>) -> Phase
    decreases events.len(),
{
    if events.len() == 0 {
        phase
    } else {
        transition(phase_after(phase, events.drop_last()), events.last()).0
    }
}

/// The action taken on the last of `events`, in an exchange that started in
/// `phase`.
pub open spec fn last_action(phase: Phase, events: Seq<EventView>) -> ActionView
    recommends
        events.len() > 0,
{
    transition(phase_after(phase, events.drop_last()), events.last()).1
}

/// Whether the action ends the exchange with an answer to the client.
pub open spec fn is_answer(action: ActionView) -> bool {
    action is Refuse || action is Relay
}

/// A `GET` or `HEAD` request is sent upstream at once and without a body, and
/// nothing that happens later makes the proxy read the inbound body or send
/// one: this holds after every run of events that begins with the request.
pub proof fn lemma_read_only_never_reads_body(method: Seq<char>, events: Seq<EventView>)
    requires
        method == "GET"@ || method == "HEAD"@,
        events.len() > 0,
        events[0] == (EventView::Request { method }),
    ensures
        events.len() == 1 ==> last_action(Phase::Accepted, events) == (ActionView::Send { body: None }),
        last_action(Phase::Accepted, events) != ActionView::ReadBody,
        last_action(Phase::Accepted, events) is Send ==> last_action(Phase::Accepted, events) == (ActionView::Send {
            body: None,
        }),
        phase_after(Phase::Accepted, events) == Phase::AwaitingUpstream || phase_after(
            Phase::Accepted,
            events,
        ) == Phase::Done,
    decreases events.len(),
{
    if events.len() == 1 {
        assert(phase_after(Phase::Accepted, events.drop_last()) == Phase::Accepted);
        assert(events.last() == events[0]);
    } else {
        assert(events.drop_last()[0] == events[0]);
        lemma_read_only_never_reads_body(method, events.drop_last());
    }
}

/// Any other request has its body read first, and the bytes that were read
/// are the bytes that go upstream.
pub proof fn lemma_body_forwarded_exactly(method: Seq<char>, bytes: Seq<u8>)
    requires
        method != "GET"@,
        method != "HEAD"@,
    ensures
        transition(Phase::Accepted, EventView::Request { method }) == (Phase::ReadingBody, ActionView::ReadBody),
        transition(Phase::ReadingBody, EventView::BodyRead { bytes }) == (
            Phase::AwaitingUpstream,
            ActionView::Send { body: Some(bytes) },
        ),
{
}

/// Once an exchange is done, every further event is ignored.
pub proof fn lemma_done_is_final(events: Seq<EventView>)
    ensures
        phase_after(Phase::Done, events) == Phase::Done,
        events.len() > 0 ==> last_action(Phase::Done, events) == ActionView::Nothing,
    decreases events.len(),
{
    if events.len() > 0 {
        lemma_done_is_final(events.drop_last());
    }
}

/// Every action but `Nothing` moves the exchange forward, into the phase
/// that goes with it, and an exchange never moves back.
pub proof fn lemma_actions_move_forward(phase: Phase, event: EventView)
    ensures
        ({
            let (next, action) = transition(phase, event);
            &&& phase.rank() <= next.rank()
            &&& action is Nothing <==> next == phase
            &&& action is ReadBody <==> phase != next && next == Phase::ReadingBody
            &&& action is Send <==> phase != next && next == Phase::AwaitingUpstream
            &&& is_answer(action) <==> phase != next && next == Phase::Done
        }),
{
}

/// The phase only ever advances along a run.
pub proof fn lemma_phase_advances(events: Seq<EventView>, n: int, m: int)
    requires
        0 <= n <= m <= events.len(),
    ensures
        phase_after(Phase::Accepted, events.take(n)).rank() <= phase_after(Phase::Accepted, events.take(m)).rank(),
    decreases m - n,
{
    if n < m {
        lemma_phase_advances(events, n, m - 1);
        assert(events.take(m).drop_last() =~= events.take(m - 1));
        lemma_actions_move_forward(phase_after(Phase::Accepted, events.take(m - 1)), events.take(m).last());
    }
}

/// Nothing is done twice in one exchange: if the events at two different
/// places of a run both draw an action other than `Nothing`, the later one
/// belongs to a later phase. So the body is read at most once, the request
/// is sent at most once (a failed attempt is never repeated), and the client
/// gets at most one answer, with at most one log entry: the observation that
/// goes with a relayed answer or the warning that goes with an unreachable
/// upstream, never both.
pub proof fn lemma_nothing_happens_twice(events: Seq<EventView>, i: int, j: int)
    requires
        0 <= i < j < events.len(),
    ensures
        ({
            let first = last_action(Phase::Accepted, events.take(i + 1));
            let second = last_action(Phase::Accepted, events.take(j + 1));
            &&& !(first is ReadBody && second is ReadBody)
            &&& !(first is Send && second is Send)
            &&& !(is_answer(first) && is_answer(second))
            &&& is_answer(first) ==> second is Nothing
        }),
{
    let upto_i = events.take(i + 1);
    let upto_j = events.take(j + 1);
    assert(upto_i.drop_last() =~= events.take(i));
    assert(upto_j.drop_last() =~= events.take(j));
    lemma_actions_move_forward(phase_after(Phase::Accepted, events.take(i)), upto_i.last());
    lemma_actions_move_forward(phase_after(Phase::Accepted, events.take(j)), upto_j.last());
    lemma_phase_advances(events, i + 1, j);
}

} // verus!
