//! The bridge itself: one request at a time across the channel.
//!
//! The channel has no request identifiers. What comes back belongs to what
//! was sent only because nothing else was sent in between, so a second
//! exchange must never start before the first has been answered. [`Bridge`]
//! keeps that order. It does no I/O: [`Bridge::step`] takes what happened
//! (an [`Event`]) and says what to do next (an [`Action`]); the program
//! around it does it and reports back with the next event.
//!
//! An exchange runs `Serialize`, `Write`, `Read` (the length), `Read` (the
//! payload), `Parse`, `Respond`. Whatever fails on the way ends it with a
//! `500`; nothing is tried twice.

use crate::byte_order::{
    decode_length, prefixed_length, prefixed_length_round_trip, ByteOrder, LENGTH_PREFIX_BYTES,
};
use crate::frame::{encode_frame, encoded_frame};
use crate::http::{
    action_of, is_reserved, response, response_view, route, routed, version_response,
    HttpResponse, Method, Request, RequestView, ResponseView, Route, RouteView, VERSION_BODY,
};
use crate::message::{InboundMessage, InboundView, OutboundMessage, OutboundView};
use crate::text::{text_of, text_read_from};
use vstd::prelude::*;
use vstd::string::StringExecFns;

verus! {

/// What the text of a diagnostic starts with when sending failed.
pub const SEND_FAILED: &'static str = "native send failed: ";

/// What the text of a diagnostic starts with when receiving failed.
pub const RECEIVE_FAILED: &'static str = "native recv failed: ";

/// The cause given when a message does not fit a frame.
pub const TOO_LARGE: &'static str = "the message is too large for a frame";

/// The cause given when the channel ends inside the length of a frame.
pub const CLOSED_IN_LENGTH: &'static str = "the channel closed inside the length of a frame";

/// The cause given when the channel ends inside the payload of a frame.
pub const CLOSED_IN_PAYLOAD: &'static str = "the channel closed inside the payload of a frame";

/// How far the exchange in flight has come.
#[derive(Clone, Copy, PartialEq, Eq, Debug, Structural)]
pub enum Phase {
    /// No exchange is in flight.
    Idle,
    /// The message has been handed out to be serialised.
    Serializing,
    /// The frame has been handed out to be written.
    Writing,
    /// The four bytes of the answer's length have been asked for.
    ReadingLength,
    /// The payload of the answer, of this many bytes, has been asked for.
    ReadingPayload(usize),
    /// The payload has been handed out to be parsed.
    Parsing,
}

/// The ways in which an exchange can fail.
#[derive(Clone, Copy, PartialEq, Eq, Debug, Structural)]
pub enum ChannelError {
    /// The message could not be serialised or framed.
    Encoding,
    /// The frame could not be written.
    Write,
    /// The channel closed, or broke, before a whole frame had come.
    Framing,
    /// The payload was not JSON, or lacked a field.
    Decoding,
}

/// Why an exchange failed.
#[derive(Debug, PartialEq, Eq)]
pub struct Failure {
    pub kind: ChannelError,
    pub cause: String,
}

/// The model of a [`Failure`].
pub struct FailureView {
    pub kind: ChannelError,
    pub cause: Seq<char>,
}

impl View for Failure {
    type V = FailureView;

    open spec fn view(&self) -> FailureView {
        FailureView { kind: self.kind, cause: self.cause@ }
    }
}

/// The answer to a request, with the failure to note in the log if the
/// exchange failed.
#[derive(Debug, PartialEq, Eq)]
pub struct Reply {
    pub response: HttpResponse,
    pub failure: Option<Failure>,
}

/// The model of a [`Reply`].
pub struct ReplyView {
    pub response: ResponseView,
    pub failure: Option<FailureView>,
}

impl View for Reply {
    type V = ReplyView;

    open spec fn view(&self) -> ReplyView {
        ReplyView {
            response: self.response@,
            failure: match self.failure {
                Some(failure) => Some(failure@),
                None => None,
            },
        }
    }
}

/// What happened outside.
#[derive(Debug, PartialEq, Eq)]
pub enum Event {
    /// A request has arrived.
    Request(Request),
    /// The message was serialised: this is its JSON text.
    Serialized(Vec<u8>),
    /// The frame was written and flushed.
    Written,
    /// Bytes were read: as many as were asked for, or fewer where the
    /// channel closed first.
    Received(Vec<u8>),
    /// The payload was parsed.
    Parsed(InboundMessage),
    /// What was last asked for could not be done, for this reason.
    Failed(String),
}

/// The model of an [`Event`].
pub enum EventView {
    Request(RequestView),
    Serialized(Seq<u8>),
    Written,
    Received(Seq<u8>),
    Parsed(InboundView),
    Failed(Seq<char>),
}

impl View for Event {
    type V = EventView;

    open spec fn view(&self) -> EventView {
        match self {
            Event::Request(request) => EventView::Request(request@),
            Event::Serialized(json) => EventView::Serialized(json@),
            Event::Written => EventView::Written,
            Event::Received(bytes) => EventView::Received(bytes@),
            Event::Parsed(message) => EventView::Parsed(message@),
            Event::Failed(cause) => EventView::Failed(cause@),
        }
    }
}

/// What to do next.
#[derive(Debug, PartialEq, Eq)]
pub enum Action {
    /// Serialise the message as JSON and report `Serialized`.
    Serialize(OutboundMessage),
    /// Write these bytes to the channel, flush, and report `Written`.
    Write(Vec<u8>),
    /// Read this many bytes from the channel and report `Received`.
    Read(usize),
    /// Parse these bytes as the host's answer and report `Parsed`.
    Parse(Vec<u8>),
    /// Note the failure, if there is one, and send the response.
    Respond(Reply),
    /// An exchange is in flight: offer this request again once it has been
    /// answered.
    Defer(Request),
    /// The event fits nothing that was asked for: nothing is to be done.
    Ignore,
}

/// The model of an [`Action`].
pub enum ActionView {
    Serialize(OutboundView),
    Write(Seq<u8>),
    Read(usize),
    Parse(Seq<u8>),
    Respond(ReplyView),
    Defer(RequestView),
    Ignore,
}

impl View for Action {
    type V = ActionView;

    open spec fn view(&self) -> ActionView {
        match self {
            Action::Serialize(message) => ActionView::Serialize(message@),
            Action::Write(frame) => ActionView::Write(frame@),
            Action::Read(count) => ActionView::Read(*count),
            Action::Parse(payload) => ActionView::Parse(payload@),
            Action::Respond(reply) => ActionView::Respond(reply@),
            Action::Defer(request) => ActionView::Defer(request@),
            Action::Ignore => ActionView::Ignore,
        }
    }
}

/// The reply that answers a request.
pub open spec fn answered(response: ResponseView) -> ReplyView {
    ReplyView { response, failure: None }
}

/// The reply that ends a failed exchange: `500`, no body, and the failure.
pub open spec fn failed(kind: ChannelError, cause: Seq<char>) -> ReplyView {
    ReplyView { response: response_view(None, 500), failure: Some(FailureView { kind, cause }) }
}

/// The kind of failure that a `Failed` event means in each phase.
pub open spec fn failure_in(phase: Phase) -> ChannelError {
    match phase {
        Phase::Idle | Phase::Serializing => ChannelError::Encoding,
        Phase::Writing => ChannelError::Write,
        Phase::ReadingLength | Phase::ReadingPayload(_) => ChannelError::Framing,
        Phase::Parsing => ChannelError::Decoding,
    }
}

/// The message that a forwarded request becomes.
pub open spec fn outbound(request: RequestView) -> OutboundView
    recommends
        routed(request.method, request.url) is Forward,
{
    OutboundView {
        action: routed(request.method, request.url)->action,
        params: routed(request.method, request.url)->params,
        body: text_read_from(request.body),
    }
}

/// The bridge as a function: the phase after `event`, and what to do.
pub open spec fn next(phase: Phase, order: ByteOrder, event: EventView) -> (Phase, ActionView) {
    match (phase, event) {
        (Phase::Idle, EventView::Request(request)) => match routed(request.method, request.url) {
            RouteView::Version => (Phase::Idle, ActionView::Respond(answered(version_response()))),
            RouteView::Reject => (
                Phase::Idle,
                ActionView::Respond(answered(response_view(None, 400))),
            ),
            RouteView::Forward { .. } => (
                Phase::Serializing,
                ActionView::Serialize(outbound(request)),
            ),
        },
        (_, EventView::Request(request)) => (phase, ActionView::Defer(request)),
        (Phase::Idle, _) => (phase, ActionView::Ignore),
        (_, EventView::Failed(cause)) => (
            Phase::Idle,
            ActionView::Respond(failed(failure_in(phase), cause)),
        ),
        (Phase::Serializing, EventView::Serialized(json)) => if json.len() <= u32::MAX {
            (Phase::Writing, ActionView::Write(encoded_frame(json, order)))
        } else {
            (Phase::Idle, ActionView::Respond(failed(ChannelError::Encoding, TOO_LARGE@)))
        },
        (Phase::Writing, EventView::Written) => (
            Phase::ReadingLength,
            ActionView::Read(LENGTH_PREFIX_BYTES),
        ),
        (Phase::ReadingLength, EventView::Received(bytes)) => if bytes.len() == 4 {
            let length = prefixed_length(bytes, order) as usize;
            (Phase::ReadingPayload(length), ActionView::Read(length))
        } else {
            (Phase::Idle, ActionView::Respond(failed(ChannelError::Framing, CLOSED_IN_LENGTH@)))
        },
        (Phase::ReadingPayload(length), EventView::Received(bytes)) => if bytes.len() == length {
            (Phase::Parsing, ActionView::Parse(bytes))
        } else {
            (Phase::Idle, ActionView::Respond(failed(ChannelError::Framing, CLOSED_IN_PAYLOAD@)))
        },
        (Phase::Parsing, EventView::Parsed(message)) => (
            Phase::Idle,
            ActionView::Respond(
                answered(response_view(Some(message.data), message.response_status_code)),
            ),
        ),
        _ => (phase, ActionView::Ignore),
    }
}

/// The phase and the actions after a run of events, from `phase` on.
pub open spec fn run(phase: Phase, order: ByteOrder, events: Seq<EventView>) -> (
    Phase,
    Seq<ActionView>,
)
    decreases events.len(),
{
    if events.len() == 0 {
        (phase, Seq::empty())
    } else {
        let (before, actions) = run(phase, order, events.drop_last());
        let (after, action) = next(before, order, events.last());
        (after, actions.push(action))
    }
}

/// What the channel has been used for since the last response.
#[derive(Clone, Copy, PartialEq, Eq, Debug, Structural)]
pub enum ChannelUse {
    /// Nothing: the channel is free.
    Free,
    /// One frame was handed out to be written.
    Written,
    /// After the write, the length of the answer was asked for.
    LengthAsked,
    /// After the length, the payload of the answer was asked for.
    PayloadAsked,
}

/// What an observer at the channel makes of one more action: `None` where
/// the action is out of turn. A write is in turn on a free channel only, a
/// read only behind a write, the second read only behind the first, and no
/// third read ever; a response closes the exchange.
pub open spec fn observe(seen: ChannelUse, action: ActionView) -> Option<ChannelUse> {
    match action {
        ActionView::Write(_) => if seen == ChannelUse::Free {
            Some(ChannelUse::Written)
        } else {
            None
        },
        ActionView::Read(_) => match seen {
            ChannelUse::Written => Some(ChannelUse::LengthAsked),
            ChannelUse::LengthAsked => Some(ChannelUse::PayloadAsked),
            _ => None,
        },
        ActionView::Respond(_) => Some(ChannelUse::Free),
        _ => Some(seen),
    }
}

/// What an observer at the channel makes of a sequence of actions, starting
/// with the channel free: `None` where any of them was out of turn.
pub open spec fn observed(actions: Seq<ActionView>) -> Option<ChannelUse>
    decreases actions.len(),
{
    if actions.len() == 0 {
        Some(ChannelUse::Free)
    } else {
        match observed(actions.drop_last()) {
            Some(seen) => observe(seen, actions.last()),
            None => None,
        }
    }
}

/// How the channel has been used by the time the bridge is in `phase`.
pub open spec fn channel_use_in(phase: Phase) -> ChannelUse {
    match phase {
        Phase::Idle | Phase::Serializing => ChannelUse::Free,
        Phase::Writing => ChannelUse::Written,
        Phase::ReadingLength => ChannelUse::LengthAsked,
        Phase::ReadingPayload(_) | Phase::Parsing => ChannelUse::PayloadAsked,
    }
}

/// One more event extends a run by one step.
pub proof fn run_extends(phase: Phase, order: ByteOrder, events: Seq<EventView>, event: EventView)
    ensures
        run(phase, order, events.push(event)) == (
            next(run(phase, order, events).0, order, event).0,
            run(phase, order, events).1.push(next(run(phase, order, events).0, order, event).1),
        ),
{
    assert(events.push(event).drop_last() =~= events);
}

/// Requests never interleave on the channel. Whatever events arrive, in
/// whatever order, requests in the middle of an exchange included, every
/// action of the bridge is in turn for an observer at the channel: between
/// two responses there is at most one write, reads come only behind it, and
/// there are at most two of them.
pub proof fn exchanges_never_interleave(order: ByteOrder, events: Seq<EventView>)
    ensures
        observed(run(Phase::Idle, order, events).1) == Some(
            channel_use_in(run(Phase::Idle, order, events).0),
        ),
    decreases events.len(),
{
    if events.len() > 0 {
        exchanges_never_interleave(order, events.drop_last());
        let (_before, actions) = run(Phase::Idle, order, events.drop_last());
        assert(run(Phase::Idle, order, events).1.drop_last() =~= actions);
    }
}

/// The number of frames handed out to be written since the last response.
pub open spec fn writes_since_response(actions: Seq<ActionView>) -> nat
    decreases actions.len(),
{
    if actions.len() == 0 {
        0
    } else {
        match actions.last() {
            ActionView::Respond(_) => 0,
            ActionView::Write(_) => writes_since_response(actions.drop_last()) + 1,
            _ => writes_since_response(actions.drop_last()),
        }
    }
}

/// An exchange is written exactly once. Whatever events arrive, as long as
/// the bridge waits for the write, for the reads or for the parsing, one
/// frame has been written since the last response, and none while it is
/// idle or waits for the message to be serialised. The host's answer is
/// passed on from `Parsing` only: so exactly one write stands before it.
pub proof fn every_exchange_is_written_once(order: ByteOrder, events: Seq<EventView>)
    ensures
        writes_since_response(run(Phase::Idle, order, events).1) == if channel_use_in(
            run(Phase::Idle, order, events).0,
        ) == ChannelUse::Free {
            0nat
        } else {
            1nat
        },
    decreases events.len(),
{
    if events.len() > 0 {
        every_exchange_is_written_once(order, events.drop_last());
        let (_before, actions) = run(Phase::Idle, order, events.drop_last());
        assert(run(Phase::Idle, order, events).1.drop_last() =~= actions);
    }
}

/// A request for a reserved path is answered with the version and leaves the
/// bridge idle, whatever its method, its query string and its body; while an
/// exchange is in flight it is handed back like any other request. Either
/// way nothing is written.
pub proof fn reserved_paths_never_reach_the_channel(
    phase: Phase,
    order: ByteOrder,
    request: RequestView,
)
    requires
        is_reserved(action_of(request.url)),
    ensures
        phase == Phase::Idle ==> next(phase, order, EventView::Request(request)) == (
            Phase::Idle,
            ActionView::Respond(answered(version_response())),
        ),
        phase != Phase::Idle ==> next(phase, order, EventView::Request(request)) == (
            phase,
            ActionView::Defer(request),
        ),
{
}

/// However many requests for reserved paths arrive, one after the other,
/// each is answered with the version and the channel is never used.
pub proof fn reserved_requests_are_answered_locally(order: ByteOrder, events: Seq<EventView>)
    requires
        forall|i: int|
            0 <= i < events.len() ==> (#[trigger] events[i]) is Request && is_reserved(
                action_of(events[i]->Request_0.url),
            ),
    ensures
        run(Phase::Idle, order, events).0 == Phase::Idle,
        run(Phase::Idle, order, events).1.len() == events.len(),
        forall|i: int|
            0 <= i < events.len() ==> (#[trigger] run(Phase::Idle, order, events).1[i])
                == ActionView::Respond(answered(version_response())),
    decreases events.len(),
{
    if events.len() > 0 {
        let earlier = events.drop_last();
        assert forall|i: int| 0 <= i < earlier.len() implies (#[trigger] earlier[i]) is Request
            && is_reserved(action_of(earlier[i]->Request_0.url)) by {
            assert(earlier[i] == events[i]);
        }
        reserved_requests_are_answered_locally(order, earlier);
        assert(events.last() == events[events.len() - 1]);
        reserved_paths_never_reach_the_channel(Phase::Idle, order, events.last()->Request_0);
    }
}

/// A posted request for any other path is written to the channel exactly
/// once, before anything is answered, and the answer has the status and the
/// data that the host reported, whatever they are.
///
/// The events are those of an exchange in which nothing fails: the message
/// serialises to `json`, which fits a frame, and the host's frame arrives
/// whole, first its `length`, then its `payload`.
pub proof fn forwarded_request_is_written_once(
    order: ByteOrder,
    request: RequestView,
    json: Seq<u8>,
    length: Seq<u8>,
    payload: Seq<u8>,
    answer: InboundView,
)
    requires
        request.method == Method::Post,
        !is_reserved(action_of(request.url)),
        json.len() <= u32::MAX,
        length.len() == 4,
        payload.len() == prefixed_length(length, order),
    ensures
        run(
            Phase::Idle,
            order,
            seq![
                EventView::Request(request),
                EventView::Serialized(json),
                EventView::Written,
                EventView::Received(length),
                EventView::Received(payload),
                EventView::Parsed(answer),
            ],
        ) == (
            Phase::Idle,
            seq![
                ActionView::Serialize(outbound(request)),
                ActionView::Write(encoded_frame(json, order)),
                ActionView::Read(4),
                ActionView::Read(payload.len() as usize),
                ActionView::Parse(payload),
                ActionView::Respond(
                    answered(response_view(Some(answer.data), answer.response_status_code)),
                ),
            ],
        ),
{
    let idle = Phase::Idle;
    let e0 = Seq::<EventView>::empty();
    let e1 = e0.push(EventView::Request(request));
    let e2 = e1.push(EventView::Serialized(json));
    let e3 = e2.push(EventView::Written);
    let e4 = e3.push(EventView::Received(length));
    let e5 = e4.push(EventView::Received(payload));
    let e6 = e5.push(EventView::Parsed(answer));
    prefixed_length_round_trip(length, order);
    run_extends(idle, order, e0, EventView::Request(request));
    run_extends(idle, order, e1, EventView::Serialized(json));
    run_extends(idle, order, e2, EventView::Written);
    run_extends(idle, order, e3, EventView::Received(length));
    run_extends(idle, order, e4, EventView::Received(payload));
    run_extends(idle, order, e5, EventView::Parsed(answer));
    assert(e6 =~= seq![
        EventView::Request(request),
        EventView::Serialized(json),
        EventView::Written,
        EventView::Received(length),
        EventView::Received(payload),
        EventView::Parsed(answer),
    ]);
    assert(run(idle, order, e6).1 =~= seq![
        ActionView::Serialize(outbound(request)),
        ActionView::Write(encoded_frame(json, order)),
        ActionView::Read(4),
        ActionView::Read(payload.len() as usize),
        ActionView::Parse(payload),
        ActionView::Respond(
            answered(response_view(Some(answer.data), answer.response_status_code)),
        ),
    ]);
}

/// Only a whole payload is ever parsed: one that has the length that the
/// frame declared. A channel that closes early, or breaks, ends the exchange
/// with a `500` instead.
pub proof fn partial_frames_are_never_parsed(phase: Phase, order: ByteOrder, event: EventView)
    ensures
        next(phase, order, event).1 is Parse ==> phase is ReadingPayload && event
            == EventView::Received(next(phase, order, event).1->Parse_0) && next(
            phase,
            order,
            event,
        ).1->Parse_0.len() == phase->ReadingPayload_0,
        (phase is ReadingLength && event is Received && event->Received_0.len() != 4) ==> next(
            phase,
            order,
            event,
        ) == (
            Phase::Idle,
            ActionView::Respond(failed(ChannelError::Framing, CLOSED_IN_LENGTH@)),
        ),
        (phase is ReadingPayload && event is Received && event->Received_0.len()
            != phase->ReadingPayload_0) ==> next(phase, order, event) == (
            Phase::Idle,
            ActionView::Respond(failed(ChannelError::Framing, CLOSED_IN_PAYLOAD@)),
        ),
{
}

/// Every response, whatever it answers, carries the three common headers:
/// the content type, which is JSON unless there is no body, leave for any
/// origin to read the response, and no caching. Every response that reports
/// a failure is a `500` without a body.
pub proof fn every_response_carries_the_common_headers(
    phase: Phase,
    order: ByteOrder,
    event: EventView,
)
    requires
        next(phase, order, event).1 is Respond,
    ensures
        ({
            let reply = next(phase, order, event).1->Respond_0;
            &&& reply.response.headers.len() == 3
            &&& reply.response.headers[0] == ("Content-Type"@, "application/json"@) || (
                reply.response.headers[0] == ("Content-Type"@, "text/plain"@)
                    && reply.response.body.len() == 0)
            &&& reply.response.headers[1] == ("Access-Control-Allow-Origin"@, "*"@)
            &&& reply.response.headers[2] == (
                "Cache-Control"@,
                "no-store, no-cache, must-revalidate"@,
            )
            &&& reply.failure is Some ==> reply.response == response_view(None, 500)
        }),
{
}

/// Every failure ends the exchange at once: the answer is a `500` without a
/// body, the failure goes along to be logged, and the bridge is idle again.
/// Nothing is tried a second time.
pub proof fn failures_end_the_exchange(phase: Phase, order: ByteOrder, cause: Seq<char>)
    requires
        phase != Phase::Idle,
    ensures
        next(phase, order, EventView::Failed(cause)) == (
            Phase::Idle,
            ActionView::Respond(failed(failure_in(phase), cause)),
        ),
        failed(failure_in(phase), cause).response.status == 500,
        failed(failure_in(phase), cause).response.body.len() == 0,
        failed(failure_in(phase), cause).failure is Some,
{
}

impl Failure {
    /// The line that goes to the log: what was being done, and the cause.
    pub open spec fn spec_diagnostic(self) -> Seq<char> {
        match self.kind {
            ChannelError::Encoding | ChannelError::Write => SEND_FAILED@ + self.cause@,
            ChannelError::Framing | ChannelError::Decoding => RECEIVE_FAILED@ + self.cause@,
        }
    }

    /// The line that goes to the log: what was being done, and the cause.
    pub fn diagnostic(&self) -> (line: String)
        ensures
            line@ == self.spec_diagnostic(),
    {
        let start = match self.kind {
            ChannelError::Encoding | ChannelError::Write => SEND_FAILED,
            ChannelError::Framing | ChannelError::Decoding => RECEIVE_FAILED,
        };
        String::from_str(start).concat(self.cause.as_str())
    }
}

/// The bridge: the phase of the exchange in flight, and the byte order of
/// the channel.
pub struct Bridge {
    phase: Phase,
    order: ByteOrder,
}

impl Bridge {
    /// How far the exchange in flight has come.
    pub closed spec fn spec_phase(&self) -> Phase {
        self.phase
    }

    /// The byte order of the channel.
    pub closed spec fn spec_order(&self) -> ByteOrder {
        self.order
    }

    /// A bridge with no exchange in flight, for a channel of the given byte
    /// order.
    pub fn new(order: ByteOrder) -> (bridge: Bridge)
        ensures
            bridge.spec_phase() == Phase::Idle,
            bridge.spec_order() == order,
    {
        Bridge { phase: Phase::Idle, order }
    }

    /// How far the exchange in flight has come.
    #[verifier::when_used_as_spec(spec_phase)]
    pub fn phase(&self) -> (phase: Phase)
        ensures
            phase == self.spec_phase(),
    {
        self.phase
    }

    /// The byte order of the channel.
    #[verifier::when_used_as_spec(spec_order)]
    pub fn order(&self) -> (order: ByteOrder)
        ensures
            order == self.spec_order(),
    {
        self.order
    }

    /// Ends the exchange in flight with a `500` and the failure to log.
    fn fail(&mut self, kind: ChannelError, cause: String) -> (action: Action)
        ensures
            final(self).spec_phase() == Phase::Idle,
            final(self).spec_order() == old(self).spec_order(),
            action@ == ActionView::Respond(failed(kind, cause@)),
    {
        self.phase = Phase::Idle;
        Action::Respond(
            Reply { response: response(None, 500), failure: Some(Failure { kind, cause }) },
        )
    }

    /// Takes up a request while no exchange is in flight: it is answered at
    /// once, or its message is handed out to be serialised.
    fn begin(&mut self, request: Request) -> (action: Action)
        requires
            old(self).spec_phase() == Phase::Idle,
        ensures
            (final(self).spec_phase(), action@) == next(
                Phase::Idle,
                old(self).spec_order(),
                EventView::Request(request@),
            ),
            final(self).spec_order() == old(self).spec_order(),
    {
        match route(request.method, request.url.as_str()) {
            Route::Version => Action::Respond(
                Reply {
                    response: response(Some(String::from_str(VERSION_BODY)), 200),
                    failure: None,
                },
            ),
            Route::Reject => Action::Respond(Reply { response: response(None, 400), failure: None }),
            Route::Forward { action, params } => {
                let body = text_of(request.body.as_slice());
                self.phase = Phase::Serializing;
                Action::Serialize(OutboundMessage { action, params, body })
            },
        }
    }

    /// Takes what happened and says what to do next.
    ///
    /// Every event is accepted in every phase. A request that arrives while
    /// an exchange is in flight is handed back to be offered again; any other
    /// event that does not answer what was last asked for is ignored.
    pub fn step(&mut self, event: Event) -> (action: Action)
        ensures
            (final(self).spec_phase(), action@) == next(
                old(self).spec_phase(),
                old(self).spec_order(),
                event@,
            ),
            final(self).spec_order() == old(self).spec_order(),
    {
        match event {
            Event::Request(request) => match self.phase {
                Phase::Idle => self.begin(request),
                _ => Action::Defer(request),
            },
            Event::Failed(cause) => match self.phase {
                Phase::Idle => Action::Ignore,
                Phase::Serializing => self.fail(ChannelError::Encoding, cause),
                Phase::Writing => self.fail(ChannelError::Write, cause),
                Phase::ReadingLength | Phase::ReadingPayload(_) => self.fail(
                    ChannelError::Framing,
                    cause,
                ),
                Phase::Parsing => self.fail(ChannelError::Decoding, cause),
            },
            Event::Serialized(json) => match self.phase {
                Phase::Serializing => match encode_frame(json.as_slice(), self.order) {
                    Ok(frame) => {
                        self.phase = Phase::Writing;
                        Action::Write(frame)
                    },
                    Err(_) => self.fail(ChannelError::Encoding, String::from_str(TOO_LARGE)),
                },
                _ => Action::Ignore,
            },
            Event::Written => match self.phase {
                Phase::Writing => {
                    self.phase = Phase::ReadingLength;
                    Action::Read(LENGTH_PREFIX_BYTES)
                },
                _ => Action::Ignore,
            },
            Event::Received(bytes) => match self.phase {
                Phase::ReadingLength => match decode_length(bytes.as_slice(), self.order) {
                    Some(length) => {
                        self.phase = Phase::ReadingPayload(length as usize);
                        Action::Read(length as usize)
                    },
                    None => self.fail(ChannelError::Framing, String::from_str(CLOSED_IN_LENGTH)),
                },
                Phase::ReadingPayload(length) => {
                    if bytes.len() == length {
                        self.phase = Phase::Parsing;
                        Action::Parse(bytes)
                    } else {
                        self.fail(ChannelError::Framing, String::from_str(CLOSED_IN_PAYLOAD))
                    }
                },
                _ => Action::Ignore,
            },
            Event::Parsed(message) => match self.phase {
                Phase::Parsing => {
                    self.phase = Phase::Idle;
                    Action::Respond(
                        Reply {
                            response: response(Some(message.data), message.response_status_code),
                            failure: None,
                        },
                    )
                },
                _ => Action::Ignore,
            },
        }
    }
}

} // verus!
